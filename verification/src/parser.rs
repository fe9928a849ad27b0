//! The rules of the CSS subset: selectors, keywords, units and shorthands.
//!
//! Tokenizing is left to the caller; these functions decide what a token
//! sequence means. Numeric magnitudes stay of the caller's type `V`.
use crate::chars::{eq_ascii_ci, eq_ignore_ascii_case, lower_ascii_seq, str_equals, to_ascii_lowercase};
use crate::sheet::Selector;
use crate::style::{
    AlignContent, AlignItems, AlignSelf, BorderRadius, BorderStyle, BoxSizing, Directional,
    Display, FlexDirection, FlexWrap, JustifyContent, Length, Radius,
};
use vstd::prelude::*;

verus! {

/// Parser of rule preludes.
pub struct CssParser {}

impl CssParser {
    pub fn new() -> (r: Self) {
        CssParser {}
    }

    /// The selector of a rule prelude: `.name` (when `after_dot` holds) is a
    /// class selector with the name as written; an identifier alone is a tag
    /// selector, lower-cased in ASCII.
    pub fn selector_from_prelude(&self, after_dot: bool, ident: &str) -> (r: Selector)
        ensures
            after_dot ==> (r matches Selector::Class(c) && c@ == ident@),
            !after_dot ==> (r matches Selector::Tag(t) && t@ == lower_ascii_seq(ident@)),
    {
        if after_dot {
            Selector::Class(ident.to_string())
        } else {
            Selector::Tag(to_ascii_lowercase(ident))
        }
    }
}

/// The named keyword widths of `<line-width>`.
#[derive(Clone, Copy, Debug, PartialEq, Eq, Structural)]
pub enum LineWidthKeyword {
    Thin,
    Medium,
    Thick,
}

/// One component of the `border` shorthand, as recognized in source order.
#[derive(Clone, Copy, Debug, PartialEq)]
pub enum BorderPart<V> {
    Width(Length<V>),
    Color(crate::style::Rgba),
    Style(BorderStyle),
    /// A token that is none of the above.
    Unknown,
}

/// What the `border` shorthand sets.
#[derive(Clone, Copy, Debug, PartialEq)]
pub struct BorderShorthand<V> {
    pub width: Option<Length<V>>,
    pub color: Option<crate::style::Rgba>,
    pub style: Option<BorderStyle>,
}

/// The `border` shorthand over its parts: each of width, color and style may
/// appear once, in any order; a repeated kind or an unknown part rejects it.
pub open spec fn border_shorthand_spec<V>(parts: Seq<BorderPart<V>>) -> Option<BorderShorthand<V>>
    decreases parts.len(),
{
    if parts.len() == 0 {
        Some(BorderShorthand { width: None, color: None, style: None })
    } else {
        match border_shorthand_spec(parts.drop_last()) {
            None => None,
            Some(acc) => match parts.last() {
                BorderPart::Width(w) => if acc.width is Some {
                    None
                } else {
                    Some(BorderShorthand { width: Some(w), ..acc })
                },
                BorderPart::Color(c) => if acc.color is Some {
                    None
                } else {
                    Some(BorderShorthand { color: Some(c), ..acc })
                },
                BorderPart::Style(s) => if acc.style is Some {
                    None
                } else {
                    Some(BorderShorthand { style: Some(s), ..acc })
                },
                BorderPart::Unknown => None,
            },
        }
    }
}

proof fn lemma_border_rejection_persists<V>(parts: Seq<BorderPart<V>>, i: int)
    requires
        0 <= i <= parts.len(),
        border_shorthand_spec(parts.take(i)) is None,
    ensures
        border_shorthand_spec(parts) is None,
    decreases parts.len() - i,
{
    if i < parts.len() {
        assert(parts.take(i + 1).drop_last() =~= parts.take(i));
        lemma_border_rejection_persists(parts, i + 1);
    } else {
        assert(parts.take(i) =~= parts);
    }
}

/// Two parts of the `border` shorthand of the same kind: both widths, both
/// colors or both styles.
pub open spec fn same_border_kind<V>(a: BorderPart<V>, b: BorderPart<V>) -> bool {
    (a is Width && b is Width) || (a is Color && b is Color) || (a is Style && b is Style)
}

/// The `border` shorthand does not depend on the order of its parts: it is
/// accepted exactly when no part is unknown and no two parts are of the same
/// kind, and then it holds each part there is, whatever its position, and
/// nothing of a kind that no part has.
pub proof fn lemma_border_shorthand_order_free<V>(parts: Seq<BorderPart<V>>)
    ensures
        border_shorthand_spec(parts) is Some <==> (
        (forall|i: int| 0 <= i < parts.len() ==> !(#[trigger] parts[i] is Unknown)) && (forall|
            i: int,
            j: int,
        |
            0 <= i < parts.len() && 0 <= j < parts.len() && i != j ==> !same_border_kind(
                #[trigger] parts[i],
                #[trigger] parts[j],
            ))),
        border_shorthand_spec(parts) matches Some(b) ==> {
            &&& forall|i: int|
                0 <= i < parts.len() ==> (#[trigger] parts[i] matches BorderPart::Width(w) ==> b.width
                    == Some(w))
            &&& forall|i: int|
                0 <= i < parts.len() ==> (#[trigger] parts[i] matches BorderPart::Color(c) ==> b.color
                    == Some(c))
            &&& forall|i: int|
                0 <= i < parts.len() ==> (#[trigger] parts[i] matches BorderPart::Style(st) ==> b.style
                    == Some(st))
            &&& b.width is Some ==> exists|i: int| 0 <= i < parts.len() && #[trigger] parts[i] is Width
            &&& b.color is Some ==> exists|i: int| 0 <= i < parts.len() && #[trigger] parts[i] is Color
            &&& b.style is Some ==> exists|i: int| 0 <= i < parts.len() && #[trigger] parts[i] is Style
        },
    decreases parts.len(),
{
    if parts.len() > 0 {
        let init = parts.drop_last();
        let n = parts.len() - 1;
        let e = parts.last();
        lemma_border_shorthand_order_free(init);
        assert forall|i: int| 0 <= i < n implies #[trigger] parts[i] == init[i] by {}
        match border_shorthand_spec(init) {
            None => {
                if (forall|i: int| 0 <= i < parts.len() ==> !(#[trigger] parts[i] is Unknown)) && (
                forall|i: int, j: int|
                    0 <= i < parts.len() && 0 <= j < parts.len() && i != j ==> !same_border_kind(
                        #[trigger] parts[i],
                        #[trigger] parts[j],
                    )) {
                    assert forall|i: int| 0 <= i < init.len() implies !(#[trigger] init[i] is Unknown) by {
                        assert(parts[i] == init[i]);
                    }
                    assert forall|i: int, j: int|
                        0 <= i < init.len() && 0 <= j < init.len() && i != j implies !same_border_kind(
                        #[trigger] init[i],
                        #[trigger] init[j],
                    ) by {
                        assert(parts[i] == init[i] && parts[j] == init[j]);
                    }
                }
            },
            Some(acc) => {
                match e {
                    BorderPart::Width(w) => {
                        if acc.width is Some {
                            let k = choose|i: int| 0 <= i < init.len() && #[trigger] init[i] is Width;
                            assert(parts[k] == init[k]);
                            assert(same_border_kind(parts[k], parts[n]));
                        } else {
                            assert forall|i: int| 0 <= i < n implies !(#[trigger] init[i] is Width) by {
                                if init[i] is Width {
                                    assert(init[i] matches BorderPart::Width(w3) ==> acc.width == Some(w3));
                                }
                            }
                            assert(parts[n] is Width);
                        }
                    },
                    BorderPart::Color(c) => {
                        if acc.color is Some {
                            let k = choose|i: int| 0 <= i < init.len() && #[trigger] init[i] is Color;
                            assert(parts[k] == init[k]);
                            assert(same_border_kind(parts[k], parts[n]));
                        } else {
                            assert forall|i: int| 0 <= i < n implies !(#[trigger] init[i] is Color) by {
                                if init[i] is Color {
                                    assert(init[i] matches BorderPart::Color(c3) ==> acc.color == Some(c3));
                                }
                            }
                            assert(parts[n] is Color);
                        }
                    },
                    BorderPart::Style(st) => {
                        if acc.style is Some {
                            let k = choose|i: int| 0 <= i < init.len() && #[trigger] init[i] is Style;
                            assert(parts[k] == init[k]);
                            assert(same_border_kind(parts[k], parts[n]));
                        } else {
                            assert forall|i: int| 0 <= i < n implies !(#[trigger] init[i] is Style) by {
                                if init[i] is Style {
                                    assert(init[i] matches BorderPart::Style(s3) ==> acc.style == Some(s3));
                                }
                            }
                            assert(parts[n] is Style);
                        }
                    },
                    BorderPart::Unknown => {
                        assert(parts[n] is Unknown);
                    },
                }
            },
        }
    }
}

/// The `border` shorthand gives the same result for any reordering of its
/// parts: `q` holds the parts of `parts`, the part at `k` being the one at
/// `perm[k]`, each taken once.
pub proof fn lemma_border_shorthand_permutation<V>(
    parts: Seq<BorderPart<V>>,
    q: Seq<BorderPart<V>>,
    perm: Seq<int>,
)
    requires
        perm.len() == q.len(),
        q.len() == parts.len(),
        forall|k: int| 0 <= k < q.len() ==> 0 <= #[trigger] perm[k] < parts.len() && q[k] == parts[perm[k]],
        forall|k1: int, k2: int|
            0 <= k1 < q.len() && 0 <= k2 < q.len() && k1 != k2 ==> #[trigger] perm[k1] != #[trigger] perm[k2],
        forall|i: int|
            #![trigger parts[i]]
            0 <= i < parts.len() ==> exists|k: int| 0 <= k < q.len() && #[trigger] perm[k] == i,
    ensures
        border_shorthand_spec(q) == border_shorthand_spec(parts),
{
    lemma_border_shorthand_order_free(parts);
    lemma_border_shorthand_order_free(q);
    let pv = (forall|i: int| 0 <= i < parts.len() ==> !(#[trigger] parts[i] is Unknown)) && (forall|
        i: int,
        j: int,
    |
        0 <= i < parts.len() && 0 <= j < parts.len() && i != j ==> !same_border_kind(
            #[trigger] parts[i],
            #[trigger] parts[j],
        ));
    let qv = (forall|i: int| 0 <= i < q.len() ==> !(#[trigger] q[i] is Unknown)) && (forall|i: int, j: int|
        0 <= i < q.len() && 0 <= j < q.len() && i != j ==> !same_border_kind(
            #[trigger] q[i],
            #[trigger] q[j],
        ));
    if pv {
        assert forall|k: int| 0 <= k < q.len() implies !(#[trigger] q[k] is Unknown) by {
            assert(q[k] == parts[perm[k]]);
        }
        assert forall|k1: int, k2: int|
            0 <= k1 < q.len() && 0 <= k2 < q.len() && k1 != k2 implies !same_border_kind(
            #[trigger] q[k1],
            #[trigger] q[k2],
        ) by {
            assert(q[k1] == parts[perm[k1]] && q[k2] == parts[perm[k2]]);
            assert(perm[k1] != perm[k2]);
        }
    }
    if qv {
        assert forall|i: int| 0 <= i < parts.len() implies !(#[trigger] parts[i] is Unknown) by {
            let k = choose|k: int| 0 <= k < q.len() && #[trigger] perm[k] == i;
            assert(q[k] == parts[i]);
        }
        assert forall|i: int, j: int|
            0 <= i < parts.len() && 0 <= j < parts.len() && i != j implies !same_border_kind(
            #[trigger] parts[i],
            #[trigger] parts[j],
        ) by {
            let k1 = choose|k: int| 0 <= k < q.len() && #[trigger] perm[k] == i;
            let k2 = choose|k: int| 0 <= k < q.len() && #[trigger] perm[k] == j;
            assert(q[k1] == parts[i] && q[k2] == parts[j]);
        }
    }
    if pv {
        let bp = border_shorthand_spec(parts)->0;
        let bq = border_shorthand_spec(q)->0;
            if bp.width is Some {
                let i = choose|i: int| 0 <= i < parts.len() && #[trigger] parts[i] is Width;
                let k = choose|k: int| 0 <= k < q.len() && #[trigger] perm[k] == i;
                assert(q[k] == parts[i]);
                assert(parts[i] matches BorderPart::Width(w) ==> bp.width == Some(w));
                assert(q[k] matches BorderPart::Width(w) ==> bq.width == Some(w));
            } else if bq.width is Some {
                let k = choose|k: int| 0 <= k < q.len() && #[trigger] q[k] is Width;
                assert(q[k] == parts[perm[k]]);
                assert(parts[perm[k]] matches BorderPart::Width(w) ==> bp.width == Some(w));
            }
            if bp.color is Some {
                let i = choose|i: int| 0 <= i < parts.len() && #[trigger] parts[i] is Color;
                let k = choose|k: int| 0 <= k < q.len() && #[trigger] perm[k] == i;
                assert(q[k] == parts[i]);
                assert(parts[i] matches BorderPart::Color(c) ==> bp.color == Some(c));
                assert(q[k] matches BorderPart::Color(c) ==> bq.color == Some(c));
            } else if bq.color is Some {
                let k = choose|k: int| 0 <= k < q.len() && #[trigger] q[k] is Color;
                assert(q[k] == parts[perm[k]]);
                assert(parts[perm[k]] matches BorderPart::Color(c) ==> bp.color == Some(c));
            }
            if bp.style is Some {
                let i = choose|i: int| 0 <= i < parts.len() && #[trigger] parts[i] is Style;
                let k = choose|k: int| 0 <= k < q.len() && #[trigger] perm[k] == i;
                assert(q[k] == parts[i]);
                assert(parts[i] matches BorderPart::Style(st) ==> bp.style == Some(st));
                assert(q[k] matches BorderPart::Style(st) ==> bq.style == Some(st));
            } else if bq.style is Some {
                let k = choose|k: int| 0 <= k < q.len() && #[trigger] q[k] is Style;
                assert(q[k] == parts[perm[k]]);
                assert(parts[perm[k]] matches BorderPart::Style(st) ==> bp.style == Some(st));
            }
    }
}

/// The 1-to-4 value expansion of box shorthands: top, right, bottom, left,
/// where a missing right is the top, a missing bottom is the top, and a
/// missing left is the right.
pub open spec fn expand_sides_spec<T>(
    first: T,
    second: Option<T>,
    third: Option<T>,
    fourth: Option<T>,
) -> Directional<T> {
    let right = if second is Some { second->0 } else { first };
    Directional {
        top: first,
        right: right,
        bottom: if third is Some { third->0 } else { first },
        left: if fourth is Some { fourth->0 } else { right },
    }
}

/// Parser of declaration values.
pub struct StyleDeclarationParser {}

impl StyleDeclarationParser {
    pub fn new() -> (r: Self) {
        StyleDeclarationParser {}
    }

    /// `display`: only `flex`.
    pub fn parse_display(&self, ident: &str) -> (r: Option<Display>)
        ensures
            r == if ident@ == "flex"@ {
                Some(Display::Flex)
            } else {
                None
            },
    {
        if str_equals(ident, "flex") {
            Some(Display::Flex)
        } else {
            None
        }
    }

    /// `box-sizing`.
    pub fn parse_box_sizing(&self, ident: &str) -> (r: Option<BoxSizing>)
        ensures
            r == if ident@ == "content-box"@ {
                Some(BoxSizing::ContentBox)
            } else if ident@ == "border-box"@ {
                Some(BoxSizing::BorderBox)
            } else {
                None
            },
    {
        if str_equals(ident, "content-box") {
            Some(BoxSizing::ContentBox)
        } else if str_equals(ident, "border-box") {
            Some(BoxSizing::BorderBox)
        } else {
            None
        }
    }

    /// `flex-direction`.
    pub fn parse_flex_direction(&self, ident: &str) -> (r: Option<FlexDirection>)
        ensures
            r == if ident@ == "row"@ {
                Some(FlexDirection::Row)
            } else if ident@ == "row-reverse"@ {
                Some(FlexDirection::RowReverse)
            } else if ident@ == "column"@ {
                Some(FlexDirection::Column)
            } else if ident@ == "column-reverse"@ {
                Some(FlexDirection::ColumnReverse)
            } else {
                None
            },
    {
        if str_equals(ident, "row") {
            Some(FlexDirection::Row)
        } else if str_equals(ident, "row-reverse") {
            Some(FlexDirection::RowReverse)
        } else if str_equals(ident, "column") {
            Some(FlexDirection::Column)
        } else if str_equals(ident, "column-reverse") {
            Some(FlexDirection::ColumnReverse)
        } else {
            None
        }
    }

    /// `flex-wrap`.
    pub fn parse_flex_wrap(&self, ident: &str) -> (r: Option<FlexWrap>)
        ensures
            r == if ident@ == "nowrap"@ {
                Some(FlexWrap::NoWrap)
            } else if ident@ == "wrap"@ {
                Some(FlexWrap::Wrap)
            } else if ident@ == "wrap-reverse"@ {
                Some(FlexWrap::WrapReverse)
            } else {
                None
            },
    {
        if str_equals(ident, "nowrap") {
            Some(FlexWrap::NoWrap)
        } else if str_equals(ident, "wrap") {
            Some(FlexWrap::Wrap)
        } else if str_equals(ident, "wrap-reverse") {
            Some(FlexWrap::WrapReverse)
        } else {
            None
        }
    }

    /// `justify-content`.
    pub fn parse_justify_content(&self, ident: &str) -> (r: Option<JustifyContent>)
        ensures
            r == if ident@ == "flex-start"@ {
                Some(JustifyContent::FlexStart)
            } else if ident@ == "flex-end"@ {
                Some(JustifyContent::FlexEnd)
            } else if ident@ == "center"@ {
                Some(JustifyContent::Center)
            } else if ident@ == "space-between"@ {
                Some(JustifyContent::SpaceBetween)
            } else if ident@ == "space-around"@ {
                Some(JustifyContent::SpaceAround)
            } else if ident@ == "space-evenly"@ {
                Some(JustifyContent::SpaceEvenly)
            } else {
                None
            },
    {
        if str_equals(ident, "flex-start") {
            Some(JustifyContent::FlexStart)
        } else if str_equals(ident, "flex-end") {
            Some(JustifyContent::FlexEnd)
        } else if str_equals(ident, "center") {
            Some(JustifyContent::Center)
        } else if str_equals(ident, "space-between") {
            Some(JustifyContent::SpaceBetween)
        } else if str_equals(ident, "space-around") {
            Some(JustifyContent::SpaceAround)
        } else if str_equals(ident, "space-evenly") {
            Some(JustifyContent::SpaceEvenly)
        } else {
            None
        }
    }

    /// `align-items`.
    pub fn parse_align_items(&self, ident: &str) -> (r: Option<AlignItems>)
        ensures
            r == if ident@ == "stretch"@ {
                Some(AlignItems::Stretch)
            } else if ident@ == "flex-start"@ {
                Some(AlignItems::FlexStart)
            } else if ident@ == "flex-end"@ {
                Some(AlignItems::FlexEnd)
            } else if ident@ == "center"@ {
                Some(AlignItems::Center)
            } else if ident@ == "baseline"@ {
                Some(AlignItems::Baseline)
            } else {
                None
            },
    {
        if str_equals(ident, "stretch") {
            Some(AlignItems::Stretch)
        } else if str_equals(ident, "flex-start") {
            Some(AlignItems::FlexStart)
        } else if str_equals(ident, "flex-end") {
            Some(AlignItems::FlexEnd)
        } else if str_equals(ident, "center") {
            Some(AlignItems::Center)
        } else if str_equals(ident, "baseline") {
            Some(AlignItems::Baseline)
        } else {
            None
        }
    }

    /// `align-content`.
    pub fn parse_align_content(&self, ident: &str) -> (r: Option<AlignContent>)
        ensures
            r == if ident@ == "stretch"@ {
                Some(AlignContent::Stretch)
            } else if ident@ == "flex-start"@ {
                Some(AlignContent::FlexStart)
            } else if ident@ == "flex-end"@ {
                Some(AlignContent::FlexEnd)
            } else if ident@ == "center"@ {
                Some(AlignContent::Center)
            } else if ident@ == "space-between"@ {
                Some(AlignContent::SpaceBetween)
            } else if ident@ == "space-around"@ {
                Some(AlignContent::SpaceAround)
            } else if ident@ == "space-evenly"@ {
                Some(AlignContent::SpaceEvenly)
            } else {
                None
            },
    {
        if str_equals(ident, "stretch") {
            Some(AlignContent::Stretch)
        } else if str_equals(ident, "flex-start") {
            Some(AlignContent::FlexStart)
        } else if str_equals(ident, "flex-end") {
            Some(AlignContent::FlexEnd)
        } else if str_equals(ident, "center") {
            Some(AlignContent::Center)
        } else if str_equals(ident, "space-between") {
            Some(AlignContent::SpaceBetween)
        } else if str_equals(ident, "space-around") {
            Some(AlignContent::SpaceAround)
        } else if str_equals(ident, "space-evenly") {
            Some(AlignContent::SpaceEvenly)
        } else {
            None
        }
    }

    /// `align-self`.
    pub fn parse_align_self(&self, ident: &str) -> (r: Option<AlignSelf>)
        ensures
            r == if ident@ == "auto"@ {
                Some(AlignSelf::Auto)
            } else if ident@ == "flex-start"@ {
                Some(AlignSelf::FlexStart)
            } else if ident@ == "flex-end"@ {
                Some(AlignSelf::FlexEnd)
            } else if ident@ == "center"@ {
                Some(AlignSelf::Center)
            } else if ident@ == "baseline"@ {
                Some(AlignSelf::Baseline)
            } else if ident@ == "stretch"@ {
                Some(AlignSelf::Stretch)
            } else {
                None
            },
    {
        if str_equals(ident, "auto") {
            Some(AlignSelf::Auto)
        } else if str_equals(ident, "flex-start") {
            Some(AlignSelf::FlexStart)
        } else if str_equals(ident, "flex-end") {
            Some(AlignSelf::FlexEnd)
        } else if str_equals(ident, "center") {
            Some(AlignSelf::Center)
        } else if str_equals(ident, "baseline") {
            Some(AlignSelf::Baseline)
        } else if str_equals(ident, "stretch") {
            Some(AlignSelf::Stretch)
        } else {
            None
        }
    }

    /// `<line-style>`, matched without regard to ASCII case.
    pub fn parse_line_style(&self, ident: &str) -> (r: Option<BorderStyle>)
        ensures
            r == if eq_ascii_ci(ident@, "none"@) {
                Some(BorderStyle::NoneStyle)
            } else if eq_ascii_ci(ident@, "hidden"@) {
                Some(BorderStyle::Hidden)
            } else if eq_ascii_ci(ident@, "solid"@) {
                Some(BorderStyle::Solid)
            } else if eq_ascii_ci(ident@, "dotted"@) {
                Some(BorderStyle::Dotted)
            } else if eq_ascii_ci(ident@, "dashed"@) {
                Some(BorderStyle::Dashed)
            } else if eq_ascii_ci(ident@, "double"@) {
                Some(BorderStyle::Double)
            } else if eq_ascii_ci(ident@, "groove"@) {
                Some(BorderStyle::Groove)
            } else if eq_ascii_ci(ident@, "ridge"@) {
                Some(BorderStyle::Ridge)
            } else if eq_ascii_ci(ident@, "inset"@) {
                Some(BorderStyle::Inset)
            } else if eq_ascii_ci(ident@, "outset"@) {
                Some(BorderStyle::Outset)
            } else {
                None
            },
    {
        if eq_ignore_ascii_case(ident, "none") {
            Some(BorderStyle::NoneStyle)
        } else if eq_ignore_ascii_case(ident, "hidden") {
            Some(BorderStyle::Hidden)
        } else if eq_ignore_ascii_case(ident, "solid") {
            Some(BorderStyle::Solid)
        } else if eq_ignore_ascii_case(ident, "dotted") {
            Some(BorderStyle::Dotted)
        } else if eq_ignore_ascii_case(ident, "dashed") {
            Some(BorderStyle::Dashed)
        } else if eq_ignore_ascii_case(ident, "double") {
            Some(BorderStyle::Double)
        } else if eq_ignore_ascii_case(ident, "groove") {
            Some(BorderStyle::Groove)
        } else if eq_ignore_ascii_case(ident, "ridge") {
            Some(BorderStyle::Ridge)
        } else if eq_ignore_ascii_case(ident, "inset") {
            Some(BorderStyle::Inset)
        } else if eq_ignore_ascii_case(ident, "outset") {
            Some(BorderStyle::Outset)
        } else {
            None
        }
    }

    /// The keywords of `<line-width>`, matched without regard to ASCII case.
    pub fn parse_line_width_keyword(&self, ident: &str) -> (r: Option<LineWidthKeyword>)
        ensures
            r == if eq_ascii_ci(ident@, "thin"@) {
                Some(LineWidthKeyword::Thin)
            } else if eq_ascii_ci(ident@, "medium"@) {
                Some(LineWidthKeyword::Medium)
            } else if eq_ascii_ci(ident@, "thick"@) {
                Some(LineWidthKeyword::Thick)
            } else {
                None
            },
    {
        if eq_ignore_ascii_case(ident, "thin") {
            Some(LineWidthKeyword::Thin)
        } else if eq_ignore_ascii_case(ident, "medium") {
            Some(LineWidthKeyword::Medium)
        } else if eq_ignore_ascii_case(ident, "thick") {
            Some(LineWidthKeyword::Thick)
        } else {
            None
        }
    }

    /// A length written as a number with a unit: `px`, `em` or `%`.
    pub fn length_from_dimension<V: Copy>(&self, value: V, unit: &str) -> (r: Option<Length<V>>)
        ensures
            r == if unit@ == "px"@ {
                Some(Length::Px(value))
            } else if unit@ == "em"@ {
                Some(Length::Em(value))
            } else if unit@ == "%"@ {
                Some(Length::Percent(value))
            } else {
                None
            },
    {
        if str_equals(unit, "px") {
            Some(Length::Px(value))
        } else if str_equals(unit, "em") {
            Some(Length::Em(value))
        } else if str_equals(unit, "%") {
            Some(Length::Percent(value))
        } else {
            None
        }
    }

    /// A length written as an identifier: only `auto`.
    pub fn length_from_ident<V>(&self, ident: &str) -> (r: Option<Length<V>>)
        ensures
            r == if ident@ == "auto"@ {
                Some(Length::<V>::Auto)
            } else {
                None
            },
    {
        if str_equals(ident, "auto") {
            Some(Length::Auto)
        } else {
            None
        }
    }

    /// The 1-to-4 value expansion of `margin` and `padding`, as optional sides.
    pub fn expand_sides<T: Copy>(
        &self,
        first: T,
        second: Option<T>,
        third: Option<T>,
        fourth: Option<T>,
    ) -> (r: Directional<Option<T>>)
        ensures
            ({
                let e = expand_sides_spec(first, second, third, fourth);
                r == Directional { top: Some(e.top), right: Some(e.right), bottom: Some(e.bottom), left: Some(e.left) }
            }),
    {
        let right = match second {
            Some(v) => v,
            None => first,
        };
        let bottom = match third {
            Some(v) => v,
            None => first,
        };
        let left = match fourth {
            Some(v) => v,
            None => right,
        };
        Directional { top: Some(first), right: Some(right), bottom: Some(bottom), left: Some(left) }
    }

    /// `border-radius`: horizontal radii (1 to 4 values, top-left first, in
    /// clockwise order) and optional vertical radii after `/`; without them
    /// the vertical radii equal the horizontal ones.
    pub fn border_radius_from_lists<V: Copy>(
        &self,
        horizontal: Directional<Length<V>>,
        vertical: Option<Directional<Length<V>>>,
    ) -> (r: BorderRadius<V>)
        ensures
            ({
                let v = if vertical is Some { vertical->0 } else { horizontal };
                r == BorderRadius {
                    top_left: Some(Radius { x: horizontal.top, y: v.top }),
                    top_right: Some(Radius { x: horizontal.right, y: v.right }),
                    bottom_right: Some(Radius { x: horizontal.bottom, y: v.bottom }),
                    bottom_left: Some(Radius { x: horizontal.left, y: v.left }),
                }
            }),
    {
        let v = match vertical {
            Some(v) => v,
            None => horizontal,
        };
        BorderRadius {
            top_left: Some(Radius { x: horizontal.top, y: v.top }),
            top_right: Some(Radius { x: horizontal.right, y: v.right }),
            bottom_right: Some(Radius { x: horizontal.bottom, y: v.bottom }),
            bottom_left: Some(Radius { x: horizontal.left, y: v.left }),
        }
    }

    /// A corner radius: one or two lengths; a single length is both radii.
    pub fn corner_radius<V: Copy>(&self, x: Length<V>, y: Option<Length<V>>) -> (r: Radius<V>)
        ensures
            r == (Radius { x, y: if y is Some { y->0 } else { x } }),
    {
        Radius {
            x,
            y: match y {
                Some(v) => v,
                None => x,
            },
        }
    }

    /// The `border` shorthand over its parts, in source order.
    pub fn border_shorthand<V: Copy>(&self, parts: &Vec<BorderPart<V>>) -> (r: Option<
        BorderShorthand<V>,
    >)
        ensures
            r == border_shorthand_spec(parts@),
    {
        let mut acc = BorderShorthand { width: None, color: None, style: None };
        let mut i: usize = 0;
        while i < parts.len()
            invariant
                i <= parts.len(),
                border_shorthand_spec(parts@.take(i as int)) == Some(acc),
            decreases parts.len() - i,
        {
            assert(parts@.take(i + 1).drop_last() =~= parts@.take(i as int));
            match parts[i] {
                BorderPart::Width(w) => {
                    if acc.width.is_some() {
                        proof { lemma_border_rejection_persists(parts@, i + 1); }
                        return None;
                    }
                    acc.width = Some(w);
                },
                BorderPart::Color(c) => {
                    if acc.color.is_some() {
                        proof { lemma_border_rejection_persists(parts@, i + 1); }
                        return None;
                    }
                    acc.color = Some(c);
                },
                BorderPart::Style(s) => {
                    if acc.style.is_some() {
                        proof { lemma_border_rejection_persists(parts@, i + 1); }
                        return None;
                    }
                    acc.style = Some(s);
                },
                BorderPart::Unknown => {
                    proof { lemma_border_rejection_persists(parts@, i + 1); }
                    return None;
                },
            }
            i += 1;
        }
        assert(parts@.take(parts.len() as int) =~= parts@);
        Some(acc)
    }
}

} // verus!

verus! {

/// The properties that declarations may set.
#[derive(Clone, Copy, Debug, PartialEq, Eq, Structural)]
pub enum Property {
    Display,
    Color,
    Background,
    BackgroundColor,
    BorderColor,
    BorderTopColor,
    BorderRightColor,
    BorderBottomColor,
    BorderLeftColor,
    BorderWidth,
    BorderTopWidth,
    BorderRightWidth,
    BorderBottomWidth,
    BorderLeftWidth,
    BorderStyle,
    BorderTopStyle,
    BorderRightStyle,
    BorderBottomStyle,
    BorderLeftStyle,
    Border,
    BorderRadius,
    BorderTopLeftRadius,
    BorderTopRightRadius,
    BorderBottomRightRadius,
    BorderBottomLeftRadius,
    BoxSizing,
    Width,
    Height,
    Margin,
    MarginTop,
    MarginRight,
    MarginBottom,
    MarginLeft,
    Padding,
    PaddingTop,
    PaddingRight,
    PaddingBottom,
    PaddingLeft,
    Flex,
    FlexDirection,
    FlexWrap,
    JustifyContent,
    AlignItems,
    AlignContent,
    AlignSelf,
    FlexGrow,
    FlexShrink,
    FlexBasis,
    Order,
    Gap,
    RowGap,
    ColumnGap,
}

/// The property that a declaration name denotes; names are matched exactly.
pub open spec fn property_named(name: Seq<char>) -> Option<Property> {
    if name == "display"@ {
        Some(Property::Display)
    } else if name == "color"@ {
        Some(Property::Color)
    } else if name == "background"@ {
        Some(Property::Background)
    } else if name == "background-color"@ {
        Some(Property::BackgroundColor)
    } else if name == "border-color"@ {
        Some(Property::BorderColor)
    } else if name == "border-top-color"@ {
        Some(Property::BorderTopColor)
    } else if name == "border-right-color"@ {
        Some(Property::BorderRightColor)
    } else if name == "border-bottom-color"@ {
        Some(Property::BorderBottomColor)
    } else if name == "border-left-color"@ {
        Some(Property::BorderLeftColor)
    } else if name == "border-width"@ {
        Some(Property::BorderWidth)
    } else if name == "border-top-width"@ {
        Some(Property::BorderTopWidth)
    } else if name == "border-right-width"@ {
        Some(Property::BorderRightWidth)
    } else if name == "border-bottom-width"@ {
        Some(Property::BorderBottomWidth)
    } else if name == "border-left-width"@ {
        Some(Property::BorderLeftWidth)
    } else if name == "border-style"@ {
        Some(Property::BorderStyle)
    } else if name == "border-top-style"@ {
        Some(Property::BorderTopStyle)
    } else if name == "border-right-style"@ {
        Some(Property::BorderRightStyle)
    } else if name == "border-bottom-style"@ {
        Some(Property::BorderBottomStyle)
    } else if name == "border-left-style"@ {
        Some(Property::BorderLeftStyle)
    } else if name == "border"@ {
        Some(Property::Border)
    } else if name == "border-radius"@ {
        Some(Property::BorderRadius)
    } else if name == "border-top-left-radius"@ {
        Some(Property::BorderTopLeftRadius)
    } else if name == "border-top-right-radius"@ {
        Some(Property::BorderTopRightRadius)
    } else if name == "border-bottom-right-radius"@ {
        Some(Property::BorderBottomRightRadius)
    } else if name == "border-bottom-left-radius"@ {
        Some(Property::BorderBottomLeftRadius)
    } else if name == "box-sizing"@ {
        Some(Property::BoxSizing)
    } else if name == "width"@ {
        Some(Property::Width)
    } else if name == "height"@ {
        Some(Property::Height)
    } else if name == "margin"@ {
        Some(Property::Margin)
    } else if name == "margin-top"@ {
        Some(Property::MarginTop)
    } else if name == "margin-right"@ {
        Some(Property::MarginRight)
    } else if name == "margin-bottom"@ {
        Some(Property::MarginBottom)
    } else if name == "margin-left"@ {
        Some(Property::MarginLeft)
    } else if name == "padding"@ {
        Some(Property::Padding)
    } else if name == "padding-top"@ {
        Some(Property::PaddingTop)
    } else if name == "padding-right"@ {
        Some(Property::PaddingRight)
    } else if name == "padding-bottom"@ {
        Some(Property::PaddingBottom)
    } else if name == "padding-left"@ {
        Some(Property::PaddingLeft)
    } else if name == "flex"@ {
        Some(Property::Flex)
    } else if name == "flex-direction"@ {
        Some(Property::FlexDirection)
    } else if name == "flex-wrap"@ {
        Some(Property::FlexWrap)
    } else if name == "justify-content"@ {
        Some(Property::JustifyContent)
    } else if name == "align-items"@ {
        Some(Property::AlignItems)
    } else if name == "align-content"@ {
        Some(Property::AlignContent)
    } else if name == "align-self"@ {
        Some(Property::AlignSelf)
    } else if name == "flex-grow"@ {
        Some(Property::FlexGrow)
    } else if name == "flex-shrink"@ {
        Some(Property::FlexShrink)
    } else if name == "flex-basis"@ {
        Some(Property::FlexBasis)
    } else if name == "order"@ {
        Some(Property::Order)
    } else if name == "gap"@ {
        Some(Property::Gap)
    } else if name == "row-gap"@ {
        Some(Property::RowGap)
    } else if name == "column-gap"@ {
        Some(Property::ColumnGap)
    } else {
        None
    }
}

impl StyleDeclarationParser {
    /// The property that a declaration name denotes.
    pub fn property(&self, name: &str) -> (r: Option<Property>)
        ensures
            r == property_named(name@),
    {
        if str_equals(name, "display") {
            Some(Property::Display)
        } else if str_equals(name, "color") {
            Some(Property::Color)
        } else if str_equals(name, "background") {
            Some(Property::Background)
        } else if str_equals(name, "background-color") {
            Some(Property::BackgroundColor)
        } else if str_equals(name, "border-color") {
            Some(Property::BorderColor)
        } else if str_equals(name, "border-top-color") {
            Some(Property::BorderTopColor)
        } else if str_equals(name, "border-right-color") {
            Some(Property::BorderRightColor)
        } else if str_equals(name, "border-bottom-color") {
            Some(Property::BorderBottomColor)
        } else if str_equals(name, "border-left-color") {
            Some(Property::BorderLeftColor)
        } else if str_equals(name, "border-width") {
            Some(Property::BorderWidth)
        } else if str_equals(name, "border-top-width") {
            Some(Property::BorderTopWidth)
        } else if str_equals(name, "border-right-width") {
            Some(Property::BorderRightWidth)
        } else if str_equals(name, "border-bottom-width") {
            Some(Property::BorderBottomWidth)
        } else if str_equals(name, "border-left-width") {
            Some(Property::BorderLeftWidth)
        } else if str_equals(name, "border-style") {
            Some(Property::BorderStyle)
        } else if str_equals(name, "border-top-style") {
            Some(Property::BorderTopStyle)
        } else if str_equals(name, "border-right-style") {
            Some(Property::BorderRightStyle)
        } else if str_equals(name, "border-bottom-style") {
            Some(Property::BorderBottomStyle)
        } else if str_equals(name, "border-left-style") {
            Some(Property::BorderLeftStyle)
        } else if str_equals(name, "border") {
            Some(Property::Border)
        } else if str_equals(name, "border-radius") {
            Some(Property::BorderRadius)
        } else if str_equals(name, "border-top-left-radius") {
            Some(Property::BorderTopLeftRadius)
        } else if str_equals(name, "border-top-right-radius") {
            Some(Property::BorderTopRightRadius)
        } else if str_equals(name, "border-bottom-right-radius") {
            Some(Property::BorderBottomRightRadius)
        } else if str_equals(name, "border-bottom-left-radius") {
            Some(Property::BorderBottomLeftRadius)
        } else if str_equals(name, "box-sizing") {
            Some(Property::BoxSizing)
        } else if str_equals(name, "width") {
            Some(Property::Width)
        } else if str_equals(name, "height") {
            Some(Property::Height)
        } else if str_equals(name, "margin") {
            Some(Property::Margin)
        } else if str_equals(name, "margin-top") {
            Some(Property::MarginTop)
        } else if str_equals(name, "margin-right") {
            Some(Property::MarginRight)
        } else if str_equals(name, "margin-bottom") {
            Some(Property::MarginBottom)
        } else if str_equals(name, "margin-left") {
            Some(Property::MarginLeft)
        } else if str_equals(name, "padding") {
            Some(Property::Padding)
        } else if str_equals(name, "padding-top") {
            Some(Property::PaddingTop)
        } else if str_equals(name, "padding-right") {
            Some(Property::PaddingRight)
        } else if str_equals(name, "padding-bottom") {
            Some(Property::PaddingBottom)
        } else if str_equals(name, "padding-left") {
            Some(Property::PaddingLeft)
        } else if str_equals(name, "flex") {
            Some(Property::Flex)
        } else if str_equals(name, "flex-direction") {
            Some(Property::FlexDirection)
        } else if str_equals(name, "flex-wrap") {
            Some(Property::FlexWrap)
        } else if str_equals(name, "justify-content") {
            Some(Property::JustifyContent)
        } else if str_equals(name, "align-items") {
            Some(Property::AlignItems)
        } else if str_equals(name, "align-content") {
            Some(Property::AlignContent)
        } else if str_equals(name, "align-self") {
            Some(Property::AlignSelf)
        } else if str_equals(name, "flex-grow") {
            Some(Property::FlexGrow)
        } else if str_equals(name, "flex-shrink") {
            Some(Property::FlexShrink)
        } else if str_equals(name, "flex-basis") {
            Some(Property::FlexBasis)
        } else if str_equals(name, "order") {
            Some(Property::Order)
        } else if str_equals(name, "gap") {
            Some(Property::Gap)
        } else if str_equals(name, "row-gap") {
            Some(Property::RowGap)
        } else if str_equals(name, "column-gap") {
            Some(Property::ColumnGap)
        } else {
            None
        }
    }
}

} // verus!
