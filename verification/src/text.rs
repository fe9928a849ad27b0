//! Font selection for text nodes.
use crate::style::Style;
use vstd::prelude::*;

verus! {

/// A font family and a whole-pixel size.
#[derive(Clone, Debug, PartialEq, Eq, Hash)]
pub struct FontSpec {
    pub family: String,
    pub size_px: u32,
}

/// The font size used when a style gives none that is a positive pixel size.
pub const DEFAULT_FONT_SIZE_PX: u32 = 12;

impl FontSpec {
    /// The font of a style: its family, or `Arial`; `size_px` is the style's
    /// positive pixel font size rounded and clamped to 1..=512, if it has one,
    /// else 12.
    pub fn from_style<V>(style: &Style<V>, size_px: Option<u32>) -> (r: Self)
        ensures
            r.family@ == match style.font_family {
                Some(f) => f@,
                None => "Arial"@,
            },
            r.size_px == match size_px {
                Some(s) => s,
                None => DEFAULT_FONT_SIZE_PX,
            },
    {
        let family = match &style.font_family {
            Some(f) => f.clone(),
            None => "Arial".to_string(),
        };
        let size_px = match size_px {
            Some(s) => s,
            None => DEFAULT_FONT_SIZE_PX,
        };
        FontSpec { family, size_px }
    }
}

} // verus!
