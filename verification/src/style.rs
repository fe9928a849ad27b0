//! Style values and the cascade operation that combines declarations.
//!
//! Lengths and flex factors are kept generic over the numeric type `V`: the
//! library moves these values around and decides which one wins, while the
//! arithmetic on them (resolving a length to pixels, distributing free space)
//! belongs to the layout code that instantiates `V`.
use vstd::prelude::*;

verus! {

/// An 8-bit-per-channel color.
#[derive(Clone, Copy, Default, Debug, PartialEq, Eq, Structural)]
pub struct Rgba {
    pub r: u8,
    pub g: u8,
    pub b: u8,
    pub a: u8,
}

/// A CSS length. `V` is the numeric type of the magnitude.
#[derive(Clone, Copy, Default, Debug, PartialEq)]
pub enum Length<V> {
    #[default]
    Auto,
    Px(V),
    Em(V),
    Percent(V),
}

impl<V: Copy> Length<V> {
    /// True for `auto`.
    pub fn is_auto(&self) -> (r: bool)
        ensures
            r == (*self is Auto),
    {
        match self {
            Length::Auto => true,
            _ => false,
        }
    }
}

/// One value per box side.
#[derive(Clone, Copy, Debug, PartialEq)]
pub struct Directional<T> {
    pub top: T,
    pub right: T,
    pub bottom: T,
    pub left: T,
}

/// The value that an optional property has after a later declaration is
/// applied on top of an earlier one: the later value wins where it is set.
pub open spec fn override_opt<T>(earlier: Option<T>, later: Option<T>) -> Option<T> {
    if later is Some {
        later
    } else {
        earlier
    }
}

/// Side-wise `override_opt`.
pub open spec fn merged_sides<T>(
    earlier: Directional<Option<T>>,
    later: Directional<Option<T>>,
) -> Directional<Option<T>> {
    Directional {
        top: override_opt(earlier.top, later.top),
        right: override_opt(earlier.right, later.right),
        bottom: override_opt(earlier.bottom, later.bottom),
        left: override_opt(earlier.left, later.left),
    }
}

/// Side-wise fallback: a side that is unset takes `fallback`.
pub open spec fn resolved_sides<T>(d: Directional<Option<T>>, fallback: T) -> Directional<T> {
    Directional {
        top: if d.top is Some { d.top->0 } else { fallback },
        right: if d.right is Some { d.right->0 } else { fallback },
        bottom: if d.bottom is Some { d.bottom->0 } else { fallback },
        left: if d.left is Some { d.left->0 } else { fallback },
    }
}

impl<T: Copy> Directional<T> {
    /// The same value on all four sides.
    pub fn set_all(value: T) -> (r: Self)
        ensures
            r.top == value,
            r.right == value,
            r.bottom == value,
            r.left == value,
    {
        Directional { top: value, right: value, bottom: value, left: value }
    }
}

impl<T> Directional<Option<T>> {
    /// No side set.
    pub fn unset() -> (r: Self)
        ensures
            r.top is None,
            r.right is None,
            r.bottom is None,
            r.left is None,
    {
        Directional { top: None, right: None, bottom: None, left: None }
    }
}

impl<T> Default for Directional<Option<T>> {
    fn default() -> (r: Self)
        ensures
            r.top is None,
            r.right is None,
            r.bottom is None,
            r.left is None,
    {
        Directional { top: None, right: None, bottom: None, left: None }
    }
}

impl<V: Default + Copy> Default for Directional<Length<V>> {
    /// The default pixel length (zero for the numeric types) on every side.
    fn default() -> (r: Self)
        ensures
            r.top is Px,
            call_ensures(V::default, (), r.top->Px_0),
            r.right == r.top,
            r.bottom == r.top,
            r.left == r.top,
    {
        let zero = V::default();
        Directional {
            top: Length::Px(zero),
            right: Length::Px(zero),
            bottom: Length::Px(zero),
            left: Length::Px(zero),
        }
    }
}

impl<T: Copy> Directional<Option<T>> {
    /// Overwrite each side that `other` sets.
    pub fn merge(&mut self, other: &Self)
        ensures
            *final(self) == merged_sides(*old(self), *other),
    {
        if let Some(value) = &other.top {
            self.top = Some(*value);
        }
        if let Some(value) = &other.right {
            self.right = Some(*value);
        }
        if let Some(value) = &other.bottom {
            self.bottom = Some(*value);
        }
        if let Some(value) = &other.left {
            self.left = Some(*value);
        }
    }

    /// Every side, with `fallback` where a side is unset.
    pub fn resolved(&self, fallback: T) -> (r: Directional<T>)
        ensures
            r == resolved_sides(*self, fallback),
    {
        Directional {
            top: match self.top {
                Some(v) => v,
                None => fallback,
            },
            right: match self.right {
                Some(v) => v,
                None => fallback,
            },
            bottom: match self.bottom {
                Some(v) => v,
                None => fallback,
            },
            left: match self.left {
                Some(v) => v,
                None => fallback,
            },
        }
    }
}

/// A corner radius: horizontal and vertical.
#[derive(Clone, Copy, Default, Debug, PartialEq)]
pub struct Radius<V> {
    pub x: Length<V>,
    pub y: Length<V>,
}

/// The four corner radii, each optional.
#[derive(Clone, Copy, Debug, PartialEq)]
pub struct BorderRadius<V> {
    pub top_left: Option<Radius<V>>,
    pub top_right: Option<Radius<V>>,
    pub bottom_right: Option<Radius<V>>,
    pub bottom_left: Option<Radius<V>>,
}

/// Corner-wise `override_opt`.
pub open spec fn merged_radius<V>(earlier: BorderRadius<V>, later: BorderRadius<V>) -> BorderRadius<V> {
    BorderRadius {
        top_left: override_opt(earlier.top_left, later.top_left),
        top_right: override_opt(earlier.top_right, later.top_right),
        bottom_right: override_opt(earlier.bottom_right, later.bottom_right),
        bottom_left: override_opt(earlier.bottom_left, later.bottom_left),
    }
}

impl<V> Default for BorderRadius<V> {
    fn default() -> (r: Self)
        ensures
            r.top_left is None,
            r.top_right is None,
            r.bottom_right is None,
            r.bottom_left is None,
    {
        BorderRadius { top_left: None, top_right: None, bottom_right: None, bottom_left: None }
    }
}

impl<V: Copy> BorderRadius<V> {
    /// Overwrite each corner that `other` sets.
    pub fn merge(&mut self, other: &Self)
        ensures
            *final(self) == merged_radius(*old(self), *other),
    {
        if let Some(v) = &other.top_left {
            self.top_left = Some(*v);
        }
        if let Some(v) = &other.top_right {
            self.top_right = Some(*v);
        }
        if let Some(v) = &other.bottom_right {
            self.bottom_right = Some(*v);
        }
        if let Some(v) = &other.bottom_left {
            self.bottom_left = Some(*v);
        }
    }

    /// True when no corner is set.
    pub fn is_empty(&self) -> (r: bool)
        ensures
            r == (self.top_left is None && self.top_right is None && self.bottom_right is None
                && self.bottom_left is None),
    {
        self.top_left.is_none() && self.top_right.is_none() && self.bottom_right.is_none()
            && self.bottom_left.is_none()
    }
}

#[derive(Clone, Copy, Debug, PartialEq, Eq, Structural)]
pub enum BorderStyle {
    /// The `none` keyword.
    NoneStyle,
    Hidden,
    Solid,
    Dotted,
    Dashed,
    Double,
    Groove,
    Ridge,
    Inset,
    Outset,
}

#[derive(Clone, Copy, Default, Debug, PartialEq, Eq, Structural)]
pub enum Display {
    #[default]
    Flex,
}

#[derive(Clone, Copy, Default, Debug, PartialEq, Eq, Structural)]
pub enum FlexDirection {
    #[default]
    Row,
    RowReverse,
    Column,
    ColumnReverse,
}

#[derive(Clone, Copy, Default, Debug, PartialEq, Eq, Structural)]
pub enum FlexWrap {
    #[default]
    NoWrap,
    Wrap,
    WrapReverse,
}

#[derive(Clone, Copy, Default, Debug, PartialEq, Eq, Structural)]
pub enum JustifyContent {
    #[default]
    FlexStart,
    FlexEnd,
    Center,
    SpaceBetween,
    SpaceAround,
    SpaceEvenly,
}

#[derive(Clone, Copy, Default, Debug, PartialEq, Eq, Structural)]
pub enum AlignItems {
    #[default]
    Stretch,
    FlexStart,
    FlexEnd,
    Center,
    Baseline,
}

#[derive(Clone, Copy, Default, Debug, PartialEq, Eq, Structural)]
pub enum AlignContent {
    #[default]
    Stretch,
    FlexStart,
    FlexEnd,
    Center,
    SpaceBetween,
    SpaceAround,
    SpaceEvenly,
}

#[derive(Clone, Copy, Default, Debug, PartialEq, Eq, Structural)]
pub enum AlignSelf {
    #[default]
    Auto,
    FlexStart,
    FlexEnd,
    Center,
    Baseline,
    Stretch,
}

#[derive(Clone, Copy, Default, Debug, PartialEq, Eq, Structural)]
pub enum BoxSizing {
    #[default]
    ContentBox,
    BorderBox,
}

} // verus!

verus! {

/// A set of declared properties. Every property but `display` is optional;
/// an unset property leaves the value of an earlier declaration in place.
#[derive(Clone)]
pub struct Style<V> {
    pub display: Display,
    pub color: Option<Rgba>,
    pub background_color: Option<Rgba>,
    pub border_color: Directional<Option<Rgba>>,
    pub border_width: Directional<Option<Length<V>>>,
    pub border_style: Directional<Option<BorderStyle>>,
    pub border_radius: BorderRadius<V>,
    pub box_sizing: Option<BoxSizing>,
    pub margin: Directional<Option<Length<V>>>,
    pub padding: Directional<Option<Length<V>>>,
    pub width: Option<Length<V>>,
    pub height: Option<Length<V>>,
    pub font_family: Option<String>,
    pub font_size: Option<Length<V>>,
    pub flex_direction: Option<FlexDirection>,
    pub flex_wrap: Option<FlexWrap>,
    pub justify_content: Option<JustifyContent>,
    pub align_items: Option<AlignItems>,
    pub align_content: Option<AlignContent>,
    pub row_gap: Option<Length<V>>,
    pub column_gap: Option<Length<V>>,
    pub flex_grow: Option<V>,
    pub flex_shrink: Option<V>,
    pub flex_basis: Option<Length<V>>,
    pub align_self: Option<AlignSelf>,
    pub order: Option<i32>,
}

/// The style with nothing declared.
pub open spec fn empty_style<V>() -> Style<V> {
    Style {
        display: Display::Flex,
        color: None,
        background_color: None,
        border_color: Directional { top: None, right: None, bottom: None, left: None },
        border_width: Directional { top: None, right: None, bottom: None, left: None },
        border_style: Directional { top: None, right: None, bottom: None, left: None },
        border_radius: BorderRadius {
            top_left: None,
            top_right: None,
            bottom_right: None,
            bottom_left: None,
        },
        box_sizing: None,
        margin: Directional { top: None, right: None, bottom: None, left: None },
        padding: Directional { top: None, right: None, bottom: None, left: None },
        width: None,
        height: None,
        font_family: None,
        font_size: None,
        flex_direction: None,
        flex_wrap: None,
        justify_content: None,
        align_items: None,
        align_content: None,
        row_gap: None,
        column_gap: None,
        flex_grow: None,
        flex_shrink: None,
        flex_basis: None,
        align_self: None,
        order: None,
    }
}

/// `earlier` with `later` applied on top: `display` is taken from `later`,
/// every optional property of `later` that is set wins, every side and
/// corner is merged on its own.
pub open spec fn merged_style<V>(earlier: Style<V>, later: Style<V>) -> Style<V> {
    Style {
        display: later.display,
        color: override_opt(earlier.color, later.color),
        background_color: override_opt(earlier.background_color, later.background_color),
        border_color: merged_sides(earlier.border_color, later.border_color),
        border_width: merged_sides(earlier.border_width, later.border_width),
        border_style: merged_sides(earlier.border_style, later.border_style),
        border_radius: merged_radius(earlier.border_radius, later.border_radius),
        box_sizing: override_opt(earlier.box_sizing, later.box_sizing),
        margin: merged_sides(earlier.margin, later.margin),
        padding: merged_sides(earlier.padding, later.padding),
        width: override_opt(earlier.width, later.width),
        height: override_opt(earlier.height, later.height),
        font_family: override_opt(earlier.font_family, later.font_family),
        font_size: override_opt(earlier.font_size, later.font_size),
        flex_direction: override_opt(earlier.flex_direction, later.flex_direction),
        flex_wrap: override_opt(earlier.flex_wrap, later.flex_wrap),
        justify_content: override_opt(earlier.justify_content, later.justify_content),
        align_items: override_opt(earlier.align_items, later.align_items),
        align_content: override_opt(earlier.align_content, later.align_content),
        row_gap: override_opt(earlier.row_gap, later.row_gap),
        column_gap: override_opt(earlier.column_gap, later.column_gap),
        flex_grow: override_opt(earlier.flex_grow, later.flex_grow),
        flex_shrink: override_opt(earlier.flex_shrink, later.flex_shrink),
        flex_basis: override_opt(earlier.flex_basis, later.flex_basis),
        align_self: override_opt(earlier.align_self, later.align_self),
        order: override_opt(earlier.order, later.order),
    }
}

/// Merging cascades: every optional property, side and corner that the
/// later style sets wins; one that it leaves unset keeps the earlier value.
/// The display, which is always set, is the later one.
pub proof fn lemma_merge_later_wins<V>(earlier: Style<V>, later: Style<V>)
    ensures
        ({
            let m = merged_style(earlier, later);
            &&& m.display == later.display
            &&& later.color is Some ==> m.color == later.color
            &&& later.color is None ==> m.color == earlier.color
            &&& later.background_color is Some ==> m.background_color == later.background_color
            &&& later.background_color is None ==> m.background_color == earlier.background_color
            &&& later.box_sizing is Some ==> m.box_sizing == later.box_sizing
            &&& later.box_sizing is None ==> m.box_sizing == earlier.box_sizing
            &&& later.width is Some ==> m.width == later.width
            &&& later.width is None ==> m.width == earlier.width
            &&& later.height is Some ==> m.height == later.height
            &&& later.height is None ==> m.height == earlier.height
            &&& later.font_family is Some ==> m.font_family == later.font_family
            &&& later.font_family is None ==> m.font_family == earlier.font_family
            &&& later.font_size is Some ==> m.font_size == later.font_size
            &&& later.font_size is None ==> m.font_size == earlier.font_size
            &&& later.flex_direction is Some ==> m.flex_direction == later.flex_direction
            &&& later.flex_direction is None ==> m.flex_direction == earlier.flex_direction
            &&& later.flex_wrap is Some ==> m.flex_wrap == later.flex_wrap
            &&& later.flex_wrap is None ==> m.flex_wrap == earlier.flex_wrap
            &&& later.justify_content is Some ==> m.justify_content == later.justify_content
            &&& later.justify_content is None ==> m.justify_content == earlier.justify_content
            &&& later.align_items is Some ==> m.align_items == later.align_items
            &&& later.align_items is None ==> m.align_items == earlier.align_items
            &&& later.align_content is Some ==> m.align_content == later.align_content
            &&& later.align_content is None ==> m.align_content == earlier.align_content
            &&& later.row_gap is Some ==> m.row_gap == later.row_gap
            &&& later.row_gap is None ==> m.row_gap == earlier.row_gap
            &&& later.column_gap is Some ==> m.column_gap == later.column_gap
            &&& later.column_gap is None ==> m.column_gap == earlier.column_gap
            &&& later.flex_grow is Some ==> m.flex_grow == later.flex_grow
            &&& later.flex_grow is None ==> m.flex_grow == earlier.flex_grow
            &&& later.flex_shrink is Some ==> m.flex_shrink == later.flex_shrink
            &&& later.flex_shrink is None ==> m.flex_shrink == earlier.flex_shrink
            &&& later.flex_basis is Some ==> m.flex_basis == later.flex_basis
            &&& later.flex_basis is None ==> m.flex_basis == earlier.flex_basis
            &&& later.align_self is Some ==> m.align_self == later.align_self
            &&& later.align_self is None ==> m.align_self == earlier.align_self
            &&& later.order is Some ==> m.order == later.order
            &&& later.order is None ==> m.order == earlier.order
            &&& later.border_color.top is Some ==> m.border_color.top == later.border_color.top
            &&& later.border_color.top is None ==> m.border_color.top == earlier.border_color.top
            &&& later.border_color.right is Some ==> m.border_color.right == later.border_color.right
            &&& later.border_color.right is None ==> m.border_color.right == earlier.border_color.right
            &&& later.border_color.bottom is Some ==> m.border_color.bottom == later.border_color.bottom
            &&& later.border_color.bottom is None ==> m.border_color.bottom == earlier.border_color.bottom
            &&& later.border_color.left is Some ==> m.border_color.left == later.border_color.left
            &&& later.border_color.left is None ==> m.border_color.left == earlier.border_color.left
            &&& later.border_width.top is Some ==> m.border_width.top == later.border_width.top
            &&& later.border_width.top is None ==> m.border_width.top == earlier.border_width.top
            &&& later.border_width.right is Some ==> m.border_width.right == later.border_width.right
            &&& later.border_width.right is None ==> m.border_width.right == earlier.border_width.right
            &&& later.border_width.bottom is Some ==> m.border_width.bottom == later.border_width.bottom
            &&& later.border_width.bottom is None ==> m.border_width.bottom == earlier.border_width.bottom
            &&& later.border_width.left is Some ==> m.border_width.left == later.border_width.left
            &&& later.border_width.left is None ==> m.border_width.left == earlier.border_width.left
            &&& later.border_style.top is Some ==> m.border_style.top == later.border_style.top
            &&& later.border_style.top is None ==> m.border_style.top == earlier.border_style.top
            &&& later.border_style.right is Some ==> m.border_style.right == later.border_style.right
            &&& later.border_style.right is None ==> m.border_style.right == earlier.border_style.right
            &&& later.border_style.bottom is Some ==> m.border_style.bottom == later.border_style.bottom
            &&& later.border_style.bottom is None ==> m.border_style.bottom == earlier.border_style.bottom
            &&& later.border_style.left is Some ==> m.border_style.left == later.border_style.left
            &&& later.border_style.left is None ==> m.border_style.left == earlier.border_style.left
            &&& later.margin.top is Some ==> m.margin.top == later.margin.top
            &&& later.margin.top is None ==> m.margin.top == earlier.margin.top
            &&& later.margin.right is Some ==> m.margin.right == later.margin.right
            &&& later.margin.right is None ==> m.margin.right == earlier.margin.right
            &&& later.margin.bottom is Some ==> m.margin.bottom == later.margin.bottom
            &&& later.margin.bottom is None ==> m.margin.bottom == earlier.margin.bottom
            &&& later.margin.left is Some ==> m.margin.left == later.margin.left
            &&& later.margin.left is None ==> m.margin.left == earlier.margin.left
            &&& later.padding.top is Some ==> m.padding.top == later.padding.top
            &&& later.padding.top is None ==> m.padding.top == earlier.padding.top
            &&& later.padding.right is Some ==> m.padding.right == later.padding.right
            &&& later.padding.right is None ==> m.padding.right == earlier.padding.right
            &&& later.padding.bottom is Some ==> m.padding.bottom == later.padding.bottom
            &&& later.padding.bottom is None ==> m.padding.bottom == earlier.padding.bottom
            &&& later.padding.left is Some ==> m.padding.left == later.padding.left
            &&& later.padding.left is None ==> m.padding.left == earlier.padding.left
            &&& later.border_radius.top_left is Some ==> m.border_radius.top_left == later.border_radius.top_left
            &&& later.border_radius.top_left is None ==> m.border_radius.top_left == earlier.border_radius.top_left
            &&& later.border_radius.top_right is Some ==> m.border_radius.top_right == later.border_radius.top_right
            &&& later.border_radius.top_right is None ==> m.border_radius.top_right == earlier.border_radius.top_right
            &&& later.border_radius.bottom_right is Some ==> m.border_radius.bottom_right == later.border_radius.bottom_right
            &&& later.border_radius.bottom_right is None ==> m.border_radius.bottom_right == earlier.border_radius.bottom_right
            &&& later.border_radius.bottom_left is Some ==> m.border_radius.bottom_left == later.border_radius.bottom_left
            &&& later.border_radius.bottom_left is None ==> m.border_radius.bottom_left == earlier.border_radius.bottom_left
        }),
{
}

impl<V> Default for Style<V> {
    fn default() -> (r: Self)
        ensures
            r == empty_style::<V>(),
    {
        Style {
            display: Display::Flex,
            color: None,
            background_color: None,
            border_color: Directional::unset(),
            border_width: Directional::unset(),
            border_style: Directional::unset(),
            border_radius: BorderRadius {
                top_left: None,
                top_right: None,
                bottom_right: None,
                bottom_left: None,
            },
            box_sizing: None,
            margin: Directional::unset(),
            padding: Directional::unset(),
            width: None,
            height: None,
            font_family: None,
            font_size: None,
            flex_direction: None,
            flex_wrap: None,
            justify_content: None,
            align_items: None,
            align_content: None,
            row_gap: None,
            column_gap: None,
            flex_grow: None,
            flex_shrink: None,
            flex_basis: None,
            align_self: None,
            order: None,
        }
    }
}

fn override_copy<T: Copy>(target: &mut Option<T>, later: &Option<T>)
    ensures
        *final(target) == override_opt(*old(target), *later),
{
    if let Some(value) = later {
        *target = Some(*value);
    }
}

impl<V: Copy> Style<V> {
    /// Apply `other` on top of this style.
    pub fn merge(&mut self, other: &Self)
        ensures
            *final(self) == merged_style(*old(self), *other),
    {
        self.display = other.display;
        override_copy(&mut self.color, &other.color);
        override_copy(&mut self.background_color, &other.background_color);
        self.border_color.merge(&other.border_color);
        self.border_width.merge(&other.border_width);
        self.border_style.merge(&other.border_style);
        self.border_radius.merge(&other.border_radius);
        override_copy(&mut self.box_sizing, &other.box_sizing);
        self.margin.merge(&other.margin);
        self.padding.merge(&other.padding);
        override_copy(&mut self.width, &other.width);
        override_copy(&mut self.height, &other.height);
        if let Some(value) = &other.font_family {
            self.font_family = Some(value.clone());
        }
        override_copy(&mut self.font_size, &other.font_size);
        override_copy(&mut self.flex_direction, &other.flex_direction);
        override_copy(&mut self.flex_wrap, &other.flex_wrap);
        override_copy(&mut self.justify_content, &other.justify_content);
        override_copy(&mut self.align_items, &other.align_items);
        override_copy(&mut self.align_content, &other.align_content);
        override_copy(&mut self.row_gap, &other.row_gap);
        override_copy(&mut self.column_gap, &other.column_gap);
        override_copy(&mut self.flex_grow, &other.flex_grow);
        override_copy(&mut self.flex_shrink, &other.flex_shrink);
        override_copy(&mut self.flex_basis, &other.flex_basis);
        override_copy(&mut self.align_self, &other.align_self);
        override_copy(&mut self.order, &other.order);
    }
}

/// Applying the empty style changes nothing.
pub proof fn lemma_merge_empty_is_identity<V>(s: Style<V>)
    ensures
        merged_style(s, empty_style::<V>()) == s,
{
}

/// Applying a style onto the empty style gives that style.
pub proof fn lemma_merge_onto_empty<V>(s: Style<V>)
    ensures
        merged_style(empty_style::<V>(), s) == s,
{
}

/// Applying the same style twice is the same as applying it once.
pub proof fn lemma_merge_idempotent<V>(a: Style<V>, b: Style<V>)
    ensures
        merged_style(merged_style(a, b), b) == merged_style(a, b),
{
}

proof fn lemma_sides_associative<T>(
    a: Directional<Option<T>>,
    b: Directional<Option<T>>,
    c: Directional<Option<T>>,
)
    ensures
        merged_sides(merged_sides(a, b), c) == merged_sides(a, merged_sides(b, c)),
{
}

proof fn lemma_radius_associative<V>(a: BorderRadius<V>, b: BorderRadius<V>, c: BorderRadius<V>)
    ensures
        merged_radius(merged_radius(a, b), c) == merged_radius(a, merged_radius(b, c)),
{
}

/// Cascading is associative: applying `b` then `c` onto `a` equals applying
/// the combination of `b` and `c` onto `a`.
#[verifier::rlimit(30)]
pub proof fn lemma_merge_associative<V>(a: Style<V>, b: Style<V>, c: Style<V>)
    ensures
        merged_style(merged_style(a, b), c) == merged_style(a, merged_style(b, c)),
{
    lemma_sides_associative(a.border_color, b.border_color, c.border_color);
    lemma_sides_associative(a.border_width, b.border_width, c.border_width);
    lemma_sides_associative(a.border_style, b.border_style, c.border_style);
    lemma_sides_associative(a.margin, b.margin, c.margin);
    lemma_sides_associative(a.padding, b.padding, c.padding);
    lemma_radius_associative(a.border_radius, b.border_radius, c.border_radius);
}

/// A property set by the later style always wins.
pub proof fn lemma_later_declaration_wins<V>(a: Style<V>, b: Style<V>)
    ensures
        b.width is Some ==> merged_style(a, b).width == b.width,
        b.color is Some ==> merged_style(a, b).color == b.color,
        b.margin.left is Some ==> merged_style(a, b).margin.left == b.margin.left,
        b.width is None ==> merged_style(a, b).width == a.width,
{
}

} // verus!
