//! The decisions of flex layout that do not depend on measured sizes: which
//! settings a container uses, how items are ordered, which margins and sizes
//! lie on which axis, and which alignment applies.
use crate::document::{Node, NodeView};
use crate::sheet::{apply_element_rules, attr_value, class_key, element_cascade, tag_key, Rule, StyleSheet};
use crate::style::{
    AlignContent, AlignItems, AlignSelf, BoxSizing, Directional, Display, FlexDirection, FlexWrap,
    JustifyContent, Length, Style,
};
use vstd::prelude::*;

verus! {

/// The axis of a flex container: main runs along the flex direction.
#[derive(Clone, Copy, Debug, PartialEq, Eq, Structural)]
pub enum Axis {
    Main,
    Cross,
}

/// The settings of a flex container, with unset properties at their
/// defaults.
#[derive(Clone, Copy, Debug, PartialEq, Eq, Structural)]
pub struct FlexSettings {
    pub direction: FlexDirection,
    pub wrap: FlexWrap,
    pub justify_content: JustifyContent,
    pub align_items: AlignItems,
    pub align_content: AlignContent,
    pub box_sizing: BoxSizing,
}

/// The container settings of a style: row, no wrapping, packed at the start,
/// stretched items, lines packed at the start, content-box sizing.
pub open spec fn flex_settings_spec<V>(s: Style<V>) -> FlexSettings {
    FlexSettings {
        direction: if s.flex_direction is Some { s.flex_direction->0 } else { FlexDirection::Row },
        wrap: if s.flex_wrap is Some { s.flex_wrap->0 } else { FlexWrap::NoWrap },
        justify_content: if s.justify_content is Some { s.justify_content->0 } else { JustifyContent::FlexStart },
        align_items: if s.align_items is Some { s.align_items->0 } else { AlignItems::Stretch },
        align_content: if s.align_content is Some { s.align_content->0 } else { AlignContent::FlexStart },
        box_sizing: if s.box_sizing is Some { s.box_sizing->0 } else { BoxSizing::ContentBox },
    }
}

pub fn flex_settings<V>(style: &Style<V>) -> (r: FlexSettings)
    ensures
        r == flex_settings_spec(*style),
{
    FlexSettings {
        direction: match style.flex_direction {
            Some(d) => d,
            None => FlexDirection::Row,
        },
        wrap: match style.flex_wrap {
            Some(w) => w,
            None => FlexWrap::NoWrap,
        },
        justify_content: match style.justify_content {
            Some(j) => j,
            None => JustifyContent::FlexStart,
        },
        align_items: match style.align_items {
            Some(a) => a,
            None => AlignItems::Stretch,
        },
        align_content: match style.align_content {
            Some(a) => a,
            None => AlignContent::FlexStart,
        },
        box_sizing: match style.box_sizing {
            Some(b) => b,
            None => BoxSizing::ContentBox,
        },
    }
}

/// Whether the main axis is horizontal.
pub open spec fn is_row_spec(direction: FlexDirection) -> bool {
    direction is Row || direction is RowReverse
}

pub fn is_row(direction: FlexDirection) -> (r: bool)
    ensures
        r == is_row_spec(direction),
{
    match direction {
        FlexDirection::Row | FlexDirection::RowReverse => true,
        _ => false,
    }
}

/// Whether lines may wrap.
pub fn can_wrap(wrap: FlexWrap) -> (r: bool)
    ensures
        r == !(wrap is NoWrap),
{
    match wrap {
        FlexWrap::NoWrap => false,
        _ => true,
    }
}

/// A horizontal and a vertical quantity as (main, cross).
pub fn main_cross<T>(direction: FlexDirection, horizontal: T, vertical: T) -> (r: (T, T))
    ensures
        is_row_spec(direction) ==> r == (horizontal, vertical),
        !is_row_spec(direction) ==> r == (vertical, horizontal),
{
    if is_row(direction) {
        (horizontal, vertical)
    } else {
        (vertical, horizontal)
    }
}

/// The margins as (main before, main after, cross before, cross after): a
/// reversed direction swaps the main-axis margins.
pub fn margins_for_direction<T: Copy>(m: &Directional<T>, direction: FlexDirection) -> (r: (T, T, T, T))
    ensures
        r == match direction {
            FlexDirection::Row => (m.left, m.right, m.top, m.bottom),
            FlexDirection::RowReverse => (m.right, m.left, m.top, m.bottom),
            FlexDirection::Column => (m.top, m.bottom, m.left, m.right),
            FlexDirection::ColumnReverse => (m.bottom, m.top, m.left, m.right),
        },
{
    match direction {
        FlexDirection::Row => (m.left, m.right, m.top, m.bottom),
        FlexDirection::RowReverse => (m.right, m.left, m.top, m.bottom),
        FlexDirection::Column => (m.top, m.bottom, m.left, m.right),
        FlexDirection::ColumnReverse => (m.bottom, m.top, m.left, m.right),
    }
}

/// The specified size of a style along an axis: width for the horizontal
/// one, height for the vertical one.
pub open spec fn axis_length_spec<V>(s: Style<V>, direction: FlexDirection, axis: Axis) -> Option<Length<V>> {
    if is_row_spec(direction) == (axis is Main) {
        s.width
    } else {
        s.height
    }
}

pub fn specified_axis_length<V: Copy>(style: &Style<V>, direction: FlexDirection, axis: Axis) -> (r: Option<Length<V>>)
    ensures
        r == axis_length_spec(*style, direction, axis),
{
    let horizontal = match axis {
        Axis::Main => is_row(direction),
        Axis::Cross => !is_row(direction),
    };
    if horizontal {
        style.width
    } else {
        style.height
    }
}

/// A container's size along an axis is definite when it is given in pixels.
pub fn is_definite_size<V: Copy>(style: &Style<V>, direction: FlexDirection, axis: Axis) -> (r: bool)
    ensures
        r == (axis_length_spec(*style, direction, axis) matches Some(Length::Px(_))),
{
    match specified_axis_length(style, direction, axis) {
        Some(Length::Px(_)) => true,
        _ => false,
    }
}

/// An item's cross size is automatic when unset or `auto`.
pub fn cross_size_is_auto<V: Copy>(style: &Style<V>, direction: FlexDirection) -> (r: bool)
    ensures
        r == match axis_length_spec(*style, direction, Axis::Cross) {
            None => true,
            Some(Length::Auto) => true,
            _ => false,
        },
{
    match specified_axis_length(style, direction, Axis::Cross) {
        None => true,
        Some(Length::Auto) => true,
        _ => false,
    }
}

/// The alignment of an item: its `align-self`, or the container's
/// `align-items` for `auto` or unset.
pub open spec fn effective_align_spec(align_self: Option<AlignSelf>, align_items: AlignItems) -> AlignItems {
    match align_self {
        None => align_items,
        Some(AlignSelf::Auto) => align_items,
        Some(AlignSelf::FlexStart) => AlignItems::FlexStart,
        Some(AlignSelf::FlexEnd) => AlignItems::FlexEnd,
        Some(AlignSelf::Center) => AlignItems::Center,
        Some(AlignSelf::Baseline) => AlignItems::Baseline,
        Some(AlignSelf::Stretch) => AlignItems::Stretch,
    }
}

pub fn effective_align(align_self: Option<AlignSelf>, align_items: AlignItems) -> (r: AlignItems)
    ensures
        r == effective_align_spec(align_self, align_items),
{
    match align_self {
        None => align_items,
        Some(AlignSelf::Auto) => align_items,
        Some(AlignSelf::FlexStart) => AlignItems::FlexStart,
        Some(AlignSelf::FlexEnd) => AlignItems::FlexEnd,
        Some(AlignSelf::Center) => AlignItems::Center,
        Some(AlignSelf::Baseline) => AlignItems::Baseline,
        Some(AlignSelf::Stretch) => AlignItems::Stretch,
    }
}

/// An item's `align-self`, unless it is absent or `auto`, places the item as
/// the `align-items` keyword of the same name would, whatever the
/// container's `align-items`; absent or `auto`, the container's value holds.
pub proof fn lemma_align_self_overrides(align_items: AlignItems)
    ensures
        effective_align_spec(None, align_items) == align_items,
        effective_align_spec(Some(AlignSelf::Auto), align_items) == align_items,
        effective_align_spec(Some(AlignSelf::FlexStart), align_items) == AlignItems::FlexStart,
        effective_align_spec(Some(AlignSelf::FlexEnd), align_items) == AlignItems::FlexEnd,
        effective_align_spec(Some(AlignSelf::Center), align_items) == AlignItems::Center,
        effective_align_spec(Some(AlignSelf::Baseline), align_items) == AlignItems::Baseline,
        effective_align_spec(Some(AlignSelf::Stretch), align_items) == AlignItems::Stretch,
{
}

/// `justify-content` as applied along the main axis: a reversed direction
/// swaps `flex-start` and `flex-end`.
pub fn effective_justify(justify: JustifyContent, direction: FlexDirection) -> (r: JustifyContent)
    ensures
        r == if direction is RowReverse || direction is ColumnReverse {
            match justify {
                JustifyContent::FlexStart => JustifyContent::FlexEnd,
                JustifyContent::FlexEnd => JustifyContent::FlexStart,
                other => other,
            }
        } else {
            justify
        },
{
    let reverse = match direction {
        FlexDirection::RowReverse | FlexDirection::ColumnReverse => true,
        _ => false,
    };
    if reverse {
        match justify {
            JustifyContent::FlexStart => JustifyContent::FlexEnd,
            JustifyContent::FlexEnd => JustifyContent::FlexStart,
            other => other,
        }
    } else {
        justify
    }
}

/// The number of `auto` lengths among two margins.
pub fn auto_count<V: Copy>(before: Length<V>, after: Length<V>) -> (r: usize)
    ensures
        r == (if before is Auto { 1int } else { 0int }) + (if after is Auto { 1int } else { 0int }),
{
    let mut n: usize = 0;
    if before.is_auto() {
        n += 1;
    }
    if after.is_auto() {
        n += 1;
    }
    n
}

/// Position `a` comes before position `b` when ordering by key, ties kept in
/// source order.
pub open spec fn order_before(keys: Seq<i32>, a: int, b: int) -> bool {
    keys[a] < keys[b] || (keys[a] == keys[b] && a < b)
}

/// `p` lists every position of `keys` once, ordered by key with ties in
/// source order: the result of a stable sort by key.
pub open spec fn is_stable_order(keys: Seq<i32>, p: Seq<usize>) -> bool {
    &&& p.len() == keys.len()
    &&& forall|i: int| 0 <= i < p.len() ==> (#[trigger] p[i] as int) < keys.len()
    &&& forall|i: int, j: int| 0 <= i < j < p.len() ==> order_before(keys, #[trigger] p[i] as int, #[trigger] p[j] as int)
}

/// The positions of `keys` in stable order by key (as `sort_by_key` leaves
/// them).
pub fn stable_order(keys: &Vec<i32>) -> (r: Vec<usize>)
    ensures
        is_stable_order(keys@, r@),
{
    let n = keys.len();
    let mut p: Vec<usize> = Vec::new();
    let mut i: usize = 0;
    while i < n
        invariant
            n == keys.len(),
            i <= n,
            p.len() == i,
            forall|k: int| 0 <= k < p.len() ==> (#[trigger] p@[k] as int) < i,
            forall|a: int, b: int| 0 <= a < b < p.len() ==> order_before(keys@, #[trigger] p@[a] as int, #[trigger] p@[b] as int),
        decreases n - i,
    {
        // Insert `i` before the first position with a greater key.
        let mut j: usize = 0;
        while j < p.len() && keys[p[j]] <= keys[i]
            invariant
                n == keys.len(),
                i < n,
                j <= p.len(),
                forall|k: int| 0 <= k < p.len() ==> (#[trigger] p@[k] as int) < i,
                forall|k: int| 0 <= k < j ==> keys@[#[trigger] p@[k] as int] <= keys@[i as int],
            decreases p.len() - j,
        {
            j += 1;
        }
        let ghost old_p = p@;
        p.insert(j, i);
        proof {
            assert forall|a: int, b: int| 0 <= a < b < p.len() implies order_before(keys@, #[trigger] p@[a] as int, #[trigger] p@[b] as int) by {
                if b < j {
                    assert(p@[a] == old_p[a] && p@[b] == old_p[b]);
                } else if b == j {
                    assert(p@[a] == old_p[a]);
                } else if a == j {
                    assert(p@[b] == old_p[b - 1]);
                    assert(j < old_p.len());
                    assert(order_before(keys@, old_p[j as int] as int, old_p[b - 1] as int) || b - 1 == j);
                } else if a < j {
                    assert(p@[a] == old_p[a] && p@[b] == old_p[b - 1]);
                } else {
                    assert(p@[a] == old_p[a - 1] && p@[b] == old_p[b - 1]);
                }
            }
        }
        i += 1;
    }
    p
}

/// The style a flex item is laid out with: its own style with the rules for
/// its tag applied in sheet order, then the first rule for each of its
/// classes in the order its class attribute lists them; a node with neither
/// attributes nor children (an anonymous item) takes the display of its
/// container.
pub open spec fn resolved_style_spec<V>(
    style: Style<V>,
    node: NodeView,
    rules: Seq<Rule<V>>,
    fallback_display: Display,
) -> Style<V> {
    let cascaded = element_cascade(
        style,
        rules,
        attr_value(node.attributes, tag_key()),
        attr_value(node.attributes, class_key()),
    );
    if node.attributes.len() == 0 && node.children.len() == 0 {
        Style { display: fallback_display, ..cascaded }
    } else {
        cascaded
    }
}

pub fn resolve_style<V: Copy>(
    style: Style<V>,
    node: &Node,
    style_sheet: &StyleSheet<V>,
    fallback_display: Display,
) -> (r: Style<V>)
    ensures
        r == resolved_style_spec(style, node@, style_sheet.rules@, fallback_display),
{
    let mut style = style;
    apply_element_rules(&mut style, &node.attributes, style_sheet);
    if node.attributes.len() == 0 && node.children.len() == 0 {
        style.display = fallback_display;
    }
    style
}

} // verus!
