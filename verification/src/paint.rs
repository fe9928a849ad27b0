//! What painting a box draws: its background, its border and the color of
//! its text, as decided from its style.
use crate::style::{BorderRadius, BorderStyle, Directional, Length, Rgba, Style};
use vstd::prelude::*;

verus! {

/// Opaque black, the color of borders and text that set none.
pub open spec fn black() -> Rgba {
    Rgba { r: 0, g: 0, b: 0, a: 255 }
}

/// How a box's border is stroked: with the top color (or black), as wide
/// as the widest side.
#[derive(Clone, Copy, Debug, PartialEq)]
pub struct BorderPaint<V> {
    pub color: Rgba,
    pub widths: Directional<Option<Length<V>>>,
}

/// What painting a box draws.
#[derive(Clone, Copy, Debug, PartialEq)]
pub struct BoxPaint<V> {
    /// The fill, when a background color is set.
    pub background: Option<Rgba>,
    /// The corner radii, when any corner is rounded; else a plain rectangle.
    pub radii: Option<BorderRadius<V>>,
    /// The border, unless the top border style hides it.
    pub border: Option<BorderPaint<V>>,
    /// The color of the box's text.
    pub text_color: Rgba,
}

/// A top border style of `none` or `hidden` hides the whole border.
pub open spec fn border_hidden<V>(s: Style<V>) -> bool {
    s.border_style.top == Some(BorderStyle::NoneStyle) || s.border_style.top == Some(BorderStyle::Hidden)
}

/// What painting a box with style `s` draws.
pub open spec fn box_paint_spec<V>(s: Style<V>) -> BoxPaint<V> {
    BoxPaint {
        background: s.background_color,
        radii: if s.border_radius.top_left is None && s.border_radius.top_right is None
            && s.border_radius.bottom_right is None && s.border_radius.bottom_left is None {
            None
        } else {
            Some(s.border_radius)
        },
        border: if border_hidden(s) {
            None
        } else {
            Some(
                BorderPaint {
                    color: if s.border_color.top is Some { s.border_color.top->0 } else { black() },
                    widths: s.border_width,
                },
            )
        },
        text_color: if s.color is Some { s.color->0 } else { black() },
    }
}

/// What a box paints, in terms of its style: its background color as the
/// fill; its corner radii when any corner is set; a border exactly when the
/// top border style is neither `none` nor `hidden` (any other style, or
/// none set, draws it), stroked with the top border color or black and the
/// style's border widths; its text in its color or black.
pub proof fn lemma_box_paint_from_style<V>(s: Style<V>)
    ensures
        ({
            let p = box_paint_spec(s);
            &&& p.background == s.background_color
            &&& (p.radii is None <==> (s.border_radius.top_left is None && s.border_radius.top_right
                is None && s.border_radius.bottom_right is None && s.border_radius.bottom_left is None))
            &&& p.radii is Some ==> p.radii == Some(s.border_radius)
            &&& (p.border is None <==> (s.border_style.top == Some(BorderStyle::NoneStyle)
                || s.border_style.top == Some(BorderStyle::Hidden)))
            &&& p.border matches Some(b) ==> {
                &&& b.widths == s.border_width
                &&& s.border_color.top matches Some(c) ==> b.color == c
                &&& s.border_color.top is None ==> b.color == (Rgba { r: 0, g: 0, b: 0, a: 255 })
            }
            &&& s.color matches Some(c) ==> p.text_color == c
            &&& s.color is None ==> p.text_color == (Rgba { r: 0, g: 0, b: 0, a: 255 })
        }),
{
}

pub fn box_paint<V: Copy>(style: &Style<V>) -> (r: BoxPaint<V>)
    ensures
        r == box_paint_spec(*style),
{
    let black = Rgba { r: 0, g: 0, b: 0, a: 255 };
    let hidden = match style.border_style.top {
        Some(BorderStyle::NoneStyle) | Some(BorderStyle::Hidden) => true,
        _ => false,
    };
    BoxPaint {
        background: style.background_color,
        radii: if style.border_radius.is_empty() {
            None
        } else {
            Some(style.border_radius)
        },
        border: if hidden {
            None
        } else {
            Some(
                BorderPaint {
                    color: match style.border_color.top {
                        Some(c) => c,
                        None => black,
                    },
                    widths: style.border_width,
                },
            )
        },
        text_color: match style.color {
            Some(c) => c,
            None => black,
        },
    }
}

} // verus!
