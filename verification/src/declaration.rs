//! Where a parsed declaration value lands in a style.
//!
//! Reading a value from tokens is the caller's work; this module decides,
//! for each property, which fields of the style the value sets.
use crate::parser::{BorderShorthand, Property};
use crate::style::{
    AlignContent, AlignItems, AlignSelf, BorderRadius, BorderStyle, BoxSizing, Directional,
    Display, FlexDirection, FlexWrap, JustifyContent, Length, Radius, Rgba, Style,
};
use vstd::prelude::*;

verus! {

/// A declaration's value, by its kind.
#[derive(Clone, Copy, Debug)]
pub enum ParsedValue<V> {
    Display(Display),
    Color(Rgba),
    Length(Length<V>),
    /// One to four lengths already expanded to the four sides.
    Sides(Directional<Option<Length<V>>>),
    LineStyle(BorderStyle),
    /// The parts of the `border` shorthand.
    Border(BorderShorthand<V>),
    /// All four corner radii, from the `border-radius` shorthand.
    Radii(BorderRadius<V>),
    /// One corner radius.
    Corner(Radius<V>),
    BoxSizing(BoxSizing),
    FlexDirection(FlexDirection),
    FlexWrap(FlexWrap),
    JustifyContent(JustifyContent),
    AlignItems(AlignItems),
    AlignContent(AlignContent),
    AlignSelf(AlignSelf),
    /// A plain number (`flex-grow`, `flex-shrink`).
    Number(V),
    /// An integer (`order`).
    Integer(i32),
}

/// The same value on all four sides.
pub open spec fn on_all_sides<T>(x: T) -> Directional<T> {
    Directional { top: x, right: x, bottom: x, left: x }
}

/// The style after the `border` shorthand: each part that is present sets
/// that part on all four sides; an absent part leaves it as it was.
pub open spec fn with_border_shorthand<V>(s: Style<V>, b: BorderShorthand<V>) -> Style<V> {
    Style {
        border_width: match b.width {
            Some(w) => on_all_sides(Some(w)),
            None => s.border_width,
        },
        border_color: match b.color {
            Some(c) => on_all_sides(Some(c)),
            None => s.border_color,
        },
        border_style: match b.style {
            Some(st) => on_all_sides(Some(st)),
            None => s.border_style,
        },
        ..s
    }
}

/// The style after a declaration of property `p` with value `v`; `None`
/// where `v` is not of the kind that `p` takes.
pub open spec fn with_property<V>(s: Style<V>, p: Property, v: ParsedValue<V>) -> Option<Style<V>> {
    match (p, v) {
        (Property::Display, ParsedValue::Display(x)) => Some(Style { display: x, ..s }),
        (Property::Color, ParsedValue::Color(x)) => Some(Style { color: Some(x), ..s }),
        (Property::Background, ParsedValue::Color(x)) | (Property::BackgroundColor, ParsedValue::Color(x)) => Some(Style { background_color: Some(x), ..s }),
        (Property::BorderColor, ParsedValue::Color(x)) => Some(Style { border_color: on_all_sides(Some(x)), ..s }),
        (Property::BorderTopColor, ParsedValue::Color(x)) => Some(Style { border_color: Directional { top: Some(x), ..s.border_color }, ..s }),
        (Property::BorderRightColor, ParsedValue::Color(x)) => Some(Style { border_color: Directional { right: Some(x), ..s.border_color }, ..s }),
        (Property::BorderBottomColor, ParsedValue::Color(x)) => Some(Style { border_color: Directional { bottom: Some(x), ..s.border_color }, ..s }),
        (Property::BorderLeftColor, ParsedValue::Color(x)) => Some(Style { border_color: Directional { left: Some(x), ..s.border_color }, ..s }),
        (Property::BorderWidth, ParsedValue::Length(x)) => Some(Style { border_width: on_all_sides(Some(x)), ..s }),
        (Property::BorderTopWidth, ParsedValue::Length(x)) => Some(Style { border_width: Directional { top: Some(x), ..s.border_width }, ..s }),
        (Property::BorderRightWidth, ParsedValue::Length(x)) => Some(Style { border_width: Directional { right: Some(x), ..s.border_width }, ..s }),
        (Property::BorderBottomWidth, ParsedValue::Length(x)) => Some(Style { border_width: Directional { bottom: Some(x), ..s.border_width }, ..s }),
        (Property::BorderLeftWidth, ParsedValue::Length(x)) => Some(Style { border_width: Directional { left: Some(x), ..s.border_width }, ..s }),
        (Property::BorderStyle, ParsedValue::LineStyle(x)) => Some(Style { border_style: on_all_sides(Some(x)), ..s }),
        (Property::BorderTopStyle, ParsedValue::LineStyle(x)) => Some(Style { border_style: Directional { top: Some(x), ..s.border_style }, ..s }),
        (Property::BorderRightStyle, ParsedValue::LineStyle(x)) => Some(Style { border_style: Directional { right: Some(x), ..s.border_style }, ..s }),
        (Property::BorderBottomStyle, ParsedValue::LineStyle(x)) => Some(Style { border_style: Directional { bottom: Some(x), ..s.border_style }, ..s }),
        (Property::BorderLeftStyle, ParsedValue::LineStyle(x)) => Some(Style { border_style: Directional { left: Some(x), ..s.border_style }, ..s }),
        (Property::Border, ParsedValue::Border(x)) => Some(with_border_shorthand(s, x)),
        (Property::BorderRadius, ParsedValue::Radii(x)) => Some(Style { border_radius: x, ..s }),
        (Property::BorderTopLeftRadius, ParsedValue::Corner(x)) => Some(Style { border_radius: BorderRadius { top_left: Some(x), ..s.border_radius }, ..s }),
        (Property::BorderTopRightRadius, ParsedValue::Corner(x)) => Some(Style { border_radius: BorderRadius { top_right: Some(x), ..s.border_radius }, ..s }),
        (Property::BorderBottomRightRadius, ParsedValue::Corner(x)) => Some(Style { border_radius: BorderRadius { bottom_right: Some(x), ..s.border_radius }, ..s }),
        (Property::BorderBottomLeftRadius, ParsedValue::Corner(x)) => Some(Style { border_radius: BorderRadius { bottom_left: Some(x), ..s.border_radius }, ..s }),
        (Property::BoxSizing, ParsedValue::BoxSizing(x)) => Some(Style { box_sizing: Some(x), ..s }),
        (Property::Width, ParsedValue::Length(x)) => Some(Style { width: Some(x), ..s }),
        (Property::Height, ParsedValue::Length(x)) => Some(Style { height: Some(x), ..s }),
        (Property::Margin, ParsedValue::Sides(x)) => Some(Style { margin: x, ..s }),
        (Property::MarginTop, ParsedValue::Length(x)) => Some(Style { margin: Directional { top: Some(x), ..s.margin }, ..s }),
        (Property::MarginRight, ParsedValue::Length(x)) => Some(Style { margin: Directional { right: Some(x), ..s.margin }, ..s }),
        (Property::MarginBottom, ParsedValue::Length(x)) => Some(Style { margin: Directional { bottom: Some(x), ..s.margin }, ..s }),
        (Property::MarginLeft, ParsedValue::Length(x)) => Some(Style { margin: Directional { left: Some(x), ..s.margin }, ..s }),
        (Property::Padding, ParsedValue::Sides(x)) => Some(Style { padding: x, ..s }),
        (Property::PaddingTop, ParsedValue::Length(x)) => Some(Style { padding: Directional { top: Some(x), ..s.padding }, ..s }),
        (Property::PaddingRight, ParsedValue::Length(x)) => Some(Style { padding: Directional { right: Some(x), ..s.padding }, ..s }),
        (Property::PaddingBottom, ParsedValue::Length(x)) => Some(Style { padding: Directional { bottom: Some(x), ..s.padding }, ..s }),
        (Property::PaddingLeft, ParsedValue::Length(x)) => Some(Style { padding: Directional { left: Some(x), ..s.padding }, ..s }),
        (Property::Flex, ParsedValue::Number(x)) | (Property::FlexGrow, ParsedValue::Number(x)) => Some(Style { flex_grow: Some(x), ..s }),
        (Property::FlexShrink, ParsedValue::Number(x)) => Some(Style { flex_shrink: Some(x), ..s }),
        (Property::FlexBasis, ParsedValue::Length(x)) => Some(Style { flex_basis: Some(x), ..s }),
        (Property::FlexDirection, ParsedValue::FlexDirection(x)) => Some(Style { flex_direction: Some(x), ..s }),
        (Property::FlexWrap, ParsedValue::FlexWrap(x)) => Some(Style { flex_wrap: Some(x), ..s }),
        (Property::JustifyContent, ParsedValue::JustifyContent(x)) => Some(Style { justify_content: Some(x), ..s }),
        (Property::AlignItems, ParsedValue::AlignItems(x)) => Some(Style { align_items: Some(x), ..s }),
        (Property::AlignContent, ParsedValue::AlignContent(x)) => Some(Style { align_content: Some(x), ..s }),
        (Property::AlignSelf, ParsedValue::AlignSelf(x)) => Some(Style { align_self: Some(x), ..s }),
        (Property::Order, ParsedValue::Integer(x)) => Some(Style { order: Some(x), ..s }),
        (Property::Gap, ParsedValue::Length(x)) => Some(Style { row_gap: Some(x), column_gap: Some(x), ..s }),
        (Property::RowGap, ParsedValue::Length(x)) => Some(Style { row_gap: Some(x), ..s }),
        (Property::ColumnGap, ParsedValue::Length(x)) => Some(Style { column_gap: Some(x), ..s }),
        _ => None,
    }
}

fn apply_border_shorthand<V: Copy>(style: &mut Style<V>, b: BorderShorthand<V>)
    ensures
        *final(style) == with_border_shorthand(*old(style), b),
{
    if let Some(w) = b.width {
        style.border_width = Directional::set_all(Some(w));
    }
    if let Some(c) = b.color {
        style.border_color = Directional::set_all(Some(c));
    }
    if let Some(st) = b.style {
        style.border_style = Directional::set_all(Some(st));
    }
}

/// Set the fields of `style` that a declaration of `property` with `value`
/// sets. Returns false, leaving `style` as it was, where the value is not of
/// the kind the property takes.
pub fn apply_property<V: Copy>(property: Property, value: ParsedValue<V>, style: &mut Style<V>) -> (r: bool)
    ensures
        r == with_property(*old(style), property, value) is Some,
        r ==> *final(style) == with_property(*old(style), property, value)->0,
        !r ==> *final(style) == *old(style),
{
    match (property, value) {
        (Property::Display, ParsedValue::Display(x)) => {
            style.display = x;
            true
        },
        (Property::Color, ParsedValue::Color(x)) => {
            style.color = Some(x);
            true
        },
        (Property::Background, ParsedValue::Color(x)) | (Property::BackgroundColor, ParsedValue::Color(x)) => {
            style.background_color = Some(x);
            true
        },
        (Property::BorderColor, ParsedValue::Color(x)) => {
            style.border_color = Directional::set_all(Some(x));
            true
        },
        (Property::BorderTopColor, ParsedValue::Color(x)) => {
            style.border_color.top = Some(x);
            true
        },
        (Property::BorderRightColor, ParsedValue::Color(x)) => {
            style.border_color.right = Some(x);
            true
        },
        (Property::BorderBottomColor, ParsedValue::Color(x)) => {
            style.border_color.bottom = Some(x);
            true
        },
        (Property::BorderLeftColor, ParsedValue::Color(x)) => {
            style.border_color.left = Some(x);
            true
        },
        (Property::BorderWidth, ParsedValue::Length(x)) => {
            style.border_width = Directional::set_all(Some(x));
            true
        },
        (Property::BorderTopWidth, ParsedValue::Length(x)) => {
            style.border_width.top = Some(x);
            true
        },
        (Property::BorderRightWidth, ParsedValue::Length(x)) => {
            style.border_width.right = Some(x);
            true
        },
        (Property::BorderBottomWidth, ParsedValue::Length(x)) => {
            style.border_width.bottom = Some(x);
            true
        },
        (Property::BorderLeftWidth, ParsedValue::Length(x)) => {
            style.border_width.left = Some(x);
            true
        },
        (Property::BorderStyle, ParsedValue::LineStyle(x)) => {
            style.border_style = Directional::set_all(Some(x));
            true
        },
        (Property::BorderTopStyle, ParsedValue::LineStyle(x)) => {
            style.border_style.top = Some(x);
            true
        },
        (Property::BorderRightStyle, ParsedValue::LineStyle(x)) => {
            style.border_style.right = Some(x);
            true
        },
        (Property::BorderBottomStyle, ParsedValue::LineStyle(x)) => {
            style.border_style.bottom = Some(x);
            true
        },
        (Property::BorderLeftStyle, ParsedValue::LineStyle(x)) => {
            style.border_style.left = Some(x);
            true
        },
        (Property::Border, ParsedValue::Border(x)) => {
            apply_border_shorthand(style, x);
            true
        },
        (Property::BorderRadius, ParsedValue::Radii(x)) => {
            style.border_radius = x;
            true
        },
        (Property::BorderTopLeftRadius, ParsedValue::Corner(x)) => {
            style.border_radius.top_left = Some(x);
            true
        },
        (Property::BorderTopRightRadius, ParsedValue::Corner(x)) => {
            style.border_radius.top_right = Some(x);
            true
        },
        (Property::BorderBottomRightRadius, ParsedValue::Corner(x)) => {
            style.border_radius.bottom_right = Some(x);
            true
        },
        (Property::BorderBottomLeftRadius, ParsedValue::Corner(x)) => {
            style.border_radius.bottom_left = Some(x);
            true
        },
        (Property::BoxSizing, ParsedValue::BoxSizing(x)) => {
            style.box_sizing = Some(x);
            true
        },
        (Property::Width, ParsedValue::Length(x)) => {
            style.width = Some(x);
            true
        },
        (Property::Height, ParsedValue::Length(x)) => {
            style.height = Some(x);
            true
        },
        (Property::Margin, ParsedValue::Sides(x)) => {
            style.margin = x;
            true
        },
        (Property::MarginTop, ParsedValue::Length(x)) => {
            style.margin.top = Some(x);
            true
        },
        (Property::MarginRight, ParsedValue::Length(x)) => {
            style.margin.right = Some(x);
            true
        },
        (Property::MarginBottom, ParsedValue::Length(x)) => {
            style.margin.bottom = Some(x);
            true
        },
        (Property::MarginLeft, ParsedValue::Length(x)) => {
            style.margin.left = Some(x);
            true
        },
        (Property::Padding, ParsedValue::Sides(x)) => {
            style.padding = x;
            true
        },
        (Property::PaddingTop, ParsedValue::Length(x)) => {
            style.padding.top = Some(x);
            true
        },
        (Property::PaddingRight, ParsedValue::Length(x)) => {
            style.padding.right = Some(x);
            true
        },
        (Property::PaddingBottom, ParsedValue::Length(x)) => {
            style.padding.bottom = Some(x);
            true
        },
        (Property::PaddingLeft, ParsedValue::Length(x)) => {
            style.padding.left = Some(x);
            true
        },
        (Property::Flex, ParsedValue::Number(x)) | (Property::FlexGrow, ParsedValue::Number(x)) => {
            style.flex_grow = Some(x);
            true
        },
        (Property::FlexShrink, ParsedValue::Number(x)) => {
            style.flex_shrink = Some(x);
            true
        },
        (Property::FlexBasis, ParsedValue::Length(x)) => {
            style.flex_basis = Some(x);
            true
        },
        (Property::FlexDirection, ParsedValue::FlexDirection(x)) => {
            style.flex_direction = Some(x);
            true
        },
        (Property::FlexWrap, ParsedValue::FlexWrap(x)) => {
            style.flex_wrap = Some(x);
            true
        },
        (Property::JustifyContent, ParsedValue::JustifyContent(x)) => {
            style.justify_content = Some(x);
            true
        },
        (Property::AlignItems, ParsedValue::AlignItems(x)) => {
            style.align_items = Some(x);
            true
        },
        (Property::AlignContent, ParsedValue::AlignContent(x)) => {
            style.align_content = Some(x);
            true
        },
        (Property::AlignSelf, ParsedValue::AlignSelf(x)) => {
            style.align_self = Some(x);
            true
        },
        (Property::Order, ParsedValue::Integer(x)) => {
            style.order = Some(x);
            true
        },
        (Property::Gap, ParsedValue::Length(x)) => {
            style.row_gap = Some(x);
            style.column_gap = Some(x);
            true
        },
        (Property::RowGap, ParsedValue::Length(x)) => {
            style.row_gap = Some(x);
            true
        },
        (Property::ColumnGap, ParsedValue::Length(x)) => {
            style.column_gap = Some(x);
            true
        },
        _ => false,
    }
}

/// What each property that takes a value of kind `Display` sets: the fields
/// named below, and nothing else of the style.
pub proof fn lemma_display_declarations<V>(s: Style<V>, x: Display)
    ensures
        ({
            &&& with_property(s, Property::Display, ParsedValue::Display(x)) is Some
            &&& with_property(s, Property::Display, ParsedValue::Display(x))->0.display == x
            &&& (Style { display: s.display, ..with_property(s, Property::Display, ParsedValue::Display(x))->0 }) == s
        }),
{
}

/// What each property that takes a value of kind `Color` sets: the fields
/// named below, and nothing else of the style.
pub proof fn lemma_color_declarations<V>(s: Style<V>, x: Rgba)
    ensures
        ({
            &&& with_property(s, Property::Color, ParsedValue::Color(x)) is Some
            &&& with_property(s, Property::Color, ParsedValue::Color(x))->0.color == Some(x)
            &&& (Style { color: s.color, ..with_property(s, Property::Color, ParsedValue::Color(x))->0 }) == s
        }),
        ({
            &&& with_property(s, Property::Background, ParsedValue::Color(x)) is Some
            &&& with_property(s, Property::Background, ParsedValue::Color(x))->0.background_color == Some(x)
            &&& (Style { background_color: s.background_color, ..with_property(s, Property::Background, ParsedValue::Color(x))->0 }) == s
        }),
        ({
            &&& with_property(s, Property::BackgroundColor, ParsedValue::Color(x)) is Some
            &&& with_property(s, Property::BackgroundColor, ParsedValue::Color(x))->0.background_color == Some(x)
            &&& (Style { background_color: s.background_color, ..with_property(s, Property::BackgroundColor, ParsedValue::Color(x))->0 }) == s
        }),
        ({
            &&& with_property(s, Property::BorderColor, ParsedValue::Color(x)) is Some
            &&& with_property(s, Property::BorderColor, ParsedValue::Color(x))->0.border_color.top == Some(x)
            &&& with_property(s, Property::BorderColor, ParsedValue::Color(x))->0.border_color.right == Some(x)
            &&& with_property(s, Property::BorderColor, ParsedValue::Color(x))->0.border_color.bottom == Some(x)
            &&& with_property(s, Property::BorderColor, ParsedValue::Color(x))->0.border_color.left == Some(x)
            &&& (Style { border_color: s.border_color, ..with_property(s, Property::BorderColor, ParsedValue::Color(x))->0 }) == s
        }),
        ({
            &&& with_property(s, Property::BorderTopColor, ParsedValue::Color(x)) is Some
            &&& with_property(s, Property::BorderTopColor, ParsedValue::Color(x))->0.border_color.top == Some(x)
            &&& with_property(s, Property::BorderTopColor, ParsedValue::Color(x))->0.border_color.right == s.border_color.right
            &&& with_property(s, Property::BorderTopColor, ParsedValue::Color(x))->0.border_color.bottom == s.border_color.bottom
            &&& with_property(s, Property::BorderTopColor, ParsedValue::Color(x))->0.border_color.left == s.border_color.left
            &&& (Style { border_color: s.border_color, ..with_property(s, Property::BorderTopColor, ParsedValue::Color(x))->0 }) == s
        }),
        ({
            &&& with_property(s, Property::BorderRightColor, ParsedValue::Color(x)) is Some
            &&& with_property(s, Property::BorderRightColor, ParsedValue::Color(x))->0.border_color.right == Some(x)
            &&& with_property(s, Property::BorderRightColor, ParsedValue::Color(x))->0.border_color.top == s.border_color.top
            &&& with_property(s, Property::BorderRightColor, ParsedValue::Color(x))->0.border_color.bottom == s.border_color.bottom
            &&& with_property(s, Property::BorderRightColor, ParsedValue::Color(x))->0.border_color.left == s.border_color.left
            &&& (Style { border_color: s.border_color, ..with_property(s, Property::BorderRightColor, ParsedValue::Color(x))->0 }) == s
        }),
        ({
            &&& with_property(s, Property::BorderBottomColor, ParsedValue::Color(x)) is Some
            &&& with_property(s, Property::BorderBottomColor, ParsedValue::Color(x))->0.border_color.bottom == Some(x)
            &&& with_property(s, Property::BorderBottomColor, ParsedValue::Color(x))->0.border_color.top == s.border_color.top
            &&& with_property(s, Property::BorderBottomColor, ParsedValue::Color(x))->0.border_color.right == s.border_color.right
            &&& with_property(s, Property::BorderBottomColor, ParsedValue::Color(x))->0.border_color.left == s.border_color.left
            &&& (Style { border_color: s.border_color, ..with_property(s, Property::BorderBottomColor, ParsedValue::Color(x))->0 }) == s
        }),
        ({
            &&& with_property(s, Property::BorderLeftColor, ParsedValue::Color(x)) is Some
            &&& with_property(s, Property::BorderLeftColor, ParsedValue::Color(x))->0.border_color.left == Some(x)
            &&& with_property(s, Property::BorderLeftColor, ParsedValue::Color(x))->0.border_color.top == s.border_color.top
            &&& with_property(s, Property::BorderLeftColor, ParsedValue::Color(x))->0.border_color.right == s.border_color.right
            &&& with_property(s, Property::BorderLeftColor, ParsedValue::Color(x))->0.border_color.bottom == s.border_color.bottom
            &&& (Style { border_color: s.border_color, ..with_property(s, Property::BorderLeftColor, ParsedValue::Color(x))->0 }) == s
        }),
{
}

/// What each property that takes a value of kind `Length` sets: the fields
/// named below, and nothing else of the style.
pub proof fn lemma_length_declarations<V>(s: Style<V>, x: Length<V>)
    ensures
        ({
            &&& with_property(s, Property::BorderWidth, ParsedValue::Length(x)) is Some
            &&& with_property(s, Property::BorderWidth, ParsedValue::Length(x))->0.border_width.top == Some(x)
            &&& with_property(s, Property::BorderWidth, ParsedValue::Length(x))->0.border_width.right == Some(x)
            &&& with_property(s, Property::BorderWidth, ParsedValue::Length(x))->0.border_width.bottom == Some(x)
            &&& with_property(s, Property::BorderWidth, ParsedValue::Length(x))->0.border_width.left == Some(x)
            &&& (Style { border_width: s.border_width, ..with_property(s, Property::BorderWidth, ParsedValue::Length(x))->0 }) == s
        }),
        ({
            &&& with_property(s, Property::BorderTopWidth, ParsedValue::Length(x)) is Some
            &&& with_property(s, Property::BorderTopWidth, ParsedValue::Length(x))->0.border_width.top == Some(x)
            &&& with_property(s, Property::BorderTopWidth, ParsedValue::Length(x))->0.border_width.right == s.border_width.right
            &&& with_property(s, Property::BorderTopWidth, ParsedValue::Length(x))->0.border_width.bottom == s.border_width.bottom
            &&& with_property(s, Property::BorderTopWidth, ParsedValue::Length(x))->0.border_width.left == s.border_width.left
            &&& (Style { border_width: s.border_width, ..with_property(s, Property::BorderTopWidth, ParsedValue::Length(x))->0 }) == s
        }),
        ({
            &&& with_property(s, Property::BorderRightWidth, ParsedValue::Length(x)) is Some
            &&& with_property(s, Property::BorderRightWidth, ParsedValue::Length(x))->0.border_width.right == Some(x)
            &&& with_property(s, Property::BorderRightWidth, ParsedValue::Length(x))->0.border_width.top == s.border_width.top
            &&& with_property(s, Property::BorderRightWidth, ParsedValue::Length(x))->0.border_width.bottom == s.border_width.bottom
            &&& with_property(s, Property::BorderRightWidth, ParsedValue::Length(x))->0.border_width.left == s.border_width.left
            &&& (Style { border_width: s.border_width, ..with_property(s, Property::BorderRightWidth, ParsedValue::Length(x))->0 }) == s
        }),
        ({
            &&& with_property(s, Property::BorderBottomWidth, ParsedValue::Length(x)) is Some
            &&& with_property(s, Property::BorderBottomWidth, ParsedValue::Length(x))->0.border_width.bottom == Some(x)
            &&& with_property(s, Property::BorderBottomWidth, ParsedValue::Length(x))->0.border_width.top == s.border_width.top
            &&& with_property(s, Property::BorderBottomWidth, ParsedValue::Length(x))->0.border_width.right == s.border_width.right
            &&& with_property(s, Property::BorderBottomWidth, ParsedValue::Length(x))->0.border_width.left == s.border_width.left
            &&& (Style { border_width: s.border_width, ..with_property(s, Property::BorderBottomWidth, ParsedValue::Length(x))->0 }) == s
        }),
        ({
            &&& with_property(s, Property::BorderLeftWidth, ParsedValue::Length(x)) is Some
            &&& with_property(s, Property::BorderLeftWidth, ParsedValue::Length(x))->0.border_width.left == Some(x)
            &&& with_property(s, Property::BorderLeftWidth, ParsedValue::Length(x))->0.border_width.top == s.border_width.top
            &&& with_property(s, Property::BorderLeftWidth, ParsedValue::Length(x))->0.border_width.right == s.border_width.right
            &&& with_property(s, Property::BorderLeftWidth, ParsedValue::Length(x))->0.border_width.bottom == s.border_width.bottom
            &&& (Style { border_width: s.border_width, ..with_property(s, Property::BorderLeftWidth, ParsedValue::Length(x))->0 }) == s
        }),
        ({
            &&& with_property(s, Property::Width, ParsedValue::Length(x)) is Some
            &&& with_property(s, Property::Width, ParsedValue::Length(x))->0.width == Some(x)
            &&& (Style { width: s.width, ..with_property(s, Property::Width, ParsedValue::Length(x))->0 }) == s
        }),
        ({
            &&& with_property(s, Property::Height, ParsedValue::Length(x)) is Some
            &&& with_property(s, Property::Height, ParsedValue::Length(x))->0.height == Some(x)
            &&& (Style { height: s.height, ..with_property(s, Property::Height, ParsedValue::Length(x))->0 }) == s
        }),
        ({
            &&& with_property(s, Property::MarginTop, ParsedValue::Length(x)) is Some
            &&& with_property(s, Property::MarginTop, ParsedValue::Length(x))->0.margin.top == Some(x)
            &&& with_property(s, Property::MarginTop, ParsedValue::Length(x))->0.margin.right == s.margin.right
            &&& with_property(s, Property::MarginTop, ParsedValue::Length(x))->0.margin.bottom == s.margin.bottom
            &&& with_property(s, Property::MarginTop, ParsedValue::Length(x))->0.margin.left == s.margin.left
            &&& (Style { margin: s.margin, ..with_property(s, Property::MarginTop, ParsedValue::Length(x))->0 }) == s
        }),
        ({
            &&& with_property(s, Property::MarginRight, ParsedValue::Length(x)) is Some
            &&& with_property(s, Property::MarginRight, ParsedValue::Length(x))->0.margin.right == Some(x)
            &&& with_property(s, Property::MarginRight, ParsedValue::Length(x))->0.margin.top == s.margin.top
            &&& with_property(s, Property::MarginRight, ParsedValue::Length(x))->0.margin.bottom == s.margin.bottom
            &&& with_property(s, Property::MarginRight, ParsedValue::Length(x))->0.margin.left == s.margin.left
            &&& (Style { margin: s.margin, ..with_property(s, Property::MarginRight, ParsedValue::Length(x))->0 }) == s
        }),
        ({
            &&& with_property(s, Property::MarginBottom, ParsedValue::Length(x)) is Some
            &&& with_property(s, Property::MarginBottom, ParsedValue::Length(x))->0.margin.bottom == Some(x)
            &&& with_property(s, Property::MarginBottom, ParsedValue::Length(x))->0.margin.top == s.margin.top
            &&& with_property(s, Property::MarginBottom, ParsedValue::Length(x))->0.margin.right == s.margin.right
            &&& with_property(s, Property::MarginBottom, ParsedValue::Length(x))->0.margin.left == s.margin.left
            &&& (Style { margin: s.margin, ..with_property(s, Property::MarginBottom, ParsedValue::Length(x))->0 }) == s
        }),
        ({
            &&& with_property(s, Property::MarginLeft, ParsedValue::Length(x)) is Some
            &&& with_property(s, Property::MarginLeft, ParsedValue::Length(x))->0.margin.left == Some(x)
            &&& with_property(s, Property::MarginLeft, ParsedValue::Length(x))->0.margin.top == s.margin.top
            &&& with_property(s, Property::MarginLeft, ParsedValue::Length(x))->0.margin.right == s.margin.right
            &&& with_property(s, Property::MarginLeft, ParsedValue::Length(x))->0.margin.bottom == s.margin.bottom
            &&& (Style { margin: s.margin, ..with_property(s, Property::MarginLeft, ParsedValue::Length(x))->0 }) == s
        }),
        ({
            &&& with_property(s, Property::PaddingTop, ParsedValue::Length(x)) is Some
            &&& with_property(s, Property::PaddingTop, ParsedValue::Length(x))->0.padding.top == Some(x)
            &&& with_property(s, Property::PaddingTop, ParsedValue::Length(x))->0.padding.right == s.padding.right
            &&& with_property(s, Property::PaddingTop, ParsedValue::Length(x))->0.padding.bottom == s.padding.bottom
            &&& with_property(s, Property::PaddingTop, ParsedValue::Length(x))->0.padding.left == s.padding.left
            &&& (Style { padding: s.padding, ..with_property(s, Property::PaddingTop, ParsedValue::Length(x))->0 }) == s
        }),
        ({
            &&& with_property(s, Property::PaddingRight, ParsedValue::Length(x)) is Some
            &&& with_property(s, Property::PaddingRight, ParsedValue::Length(x))->0.padding.right == Some(x)
            &&& with_property(s, Property::PaddingRight, ParsedValue::Length(x))->0.padding.top == s.padding.top
            &&& with_property(s, Property::PaddingRight, ParsedValue::Length(x))->0.padding.bottom == s.padding.bottom
            &&& with_property(s, Property::PaddingRight, ParsedValue::Length(x))->0.padding.left == s.padding.left
            &&& (Style { padding: s.padding, ..with_property(s, Property::PaddingRight, ParsedValue::Length(x))->0 }) == s
        }),
        ({
            &&& with_property(s, Property::PaddingBottom, ParsedValue::Length(x)) is Some
            &&& with_property(s, Property::PaddingBottom, ParsedValue::Length(x))->0.padding.bottom == Some(x)
            &&& with_property(s, Property::PaddingBottom, ParsedValue::Length(x))->0.padding.top == s.padding.top
            &&& with_property(s, Property::PaddingBottom, ParsedValue::Length(x))->0.padding.right == s.padding.right
            &&& with_property(s, Property::PaddingBottom, ParsedValue::Length(x))->0.padding.left == s.padding.left
            &&& (Style { padding: s.padding, ..with_property(s, Property::PaddingBottom, ParsedValue::Length(x))->0 }) == s
        }),
        ({
            &&& with_property(s, Property::PaddingLeft, ParsedValue::Length(x)) is Some
            &&& with_property(s, Property::PaddingLeft, ParsedValue::Length(x))->0.padding.left == Some(x)
            &&& with_property(s, Property::PaddingLeft, ParsedValue::Length(x))->0.padding.top == s.padding.top
            &&& with_property(s, Property::PaddingLeft, ParsedValue::Length(x))->0.padding.right == s.padding.right
            &&& with_property(s, Property::PaddingLeft, ParsedValue::Length(x))->0.padding.bottom == s.padding.bottom
            &&& (Style { padding: s.padding, ..with_property(s, Property::PaddingLeft, ParsedValue::Length(x))->0 }) == s
        }),
        ({
            &&& with_property(s, Property::FlexBasis, ParsedValue::Length(x)) is Some
            &&& with_property(s, Property::FlexBasis, ParsedValue::Length(x))->0.flex_basis == Some(x)
            &&& (Style { flex_basis: s.flex_basis, ..with_property(s, Property::FlexBasis, ParsedValue::Length(x))->0 }) == s
        }),
        ({
            &&& with_property(s, Property::Gap, ParsedValue::Length(x)) is Some
            &&& with_property(s, Property::Gap, ParsedValue::Length(x))->0.row_gap == Some(x)
            &&& with_property(s, Property::Gap, ParsedValue::Length(x))->0.column_gap == Some(x)
            &&& (Style { row_gap: s.row_gap, column_gap: s.column_gap, ..with_property(s, Property::Gap, ParsedValue::Length(x))->0 }) == s
        }),
        ({
            &&& with_property(s, Property::RowGap, ParsedValue::Length(x)) is Some
            &&& with_property(s, Property::RowGap, ParsedValue::Length(x))->0.row_gap == Some(x)
            &&& (Style { row_gap: s.row_gap, ..with_property(s, Property::RowGap, ParsedValue::Length(x))->0 }) == s
        }),
        ({
            &&& with_property(s, Property::ColumnGap, ParsedValue::Length(x)) is Some
            &&& with_property(s, Property::ColumnGap, ParsedValue::Length(x))->0.column_gap == Some(x)
            &&& (Style { column_gap: s.column_gap, ..with_property(s, Property::ColumnGap, ParsedValue::Length(x))->0 }) == s
        }),
{
}

/// What each property that takes a value of kind `LineStyle` sets: the fields
/// named below, and nothing else of the style.
pub proof fn lemma_line_style_declarations<V>(s: Style<V>, x: BorderStyle)
    ensures
        ({
            &&& with_property(s, Property::BorderStyle, ParsedValue::LineStyle(x)) is Some
            &&& with_property(s, Property::BorderStyle, ParsedValue::LineStyle(x))->0.border_style.top == Some(x)
            &&& with_property(s, Property::BorderStyle, ParsedValue::LineStyle(x))->0.border_style.right == Some(x)
            &&& with_property(s, Property::BorderStyle, ParsedValue::LineStyle(x))->0.border_style.bottom == Some(x)
            &&& with_property(s, Property::BorderStyle, ParsedValue::LineStyle(x))->0.border_style.left == Some(x)
            &&& (Style { border_style: s.border_style, ..with_property(s, Property::BorderStyle, ParsedValue::LineStyle(x))->0 }) == s
        }),
        ({
            &&& with_property(s, Property::BorderTopStyle, ParsedValue::LineStyle(x)) is Some
            &&& with_property(s, Property::BorderTopStyle, ParsedValue::LineStyle(x))->0.border_style.top == Some(x)
            &&& with_property(s, Property::BorderTopStyle, ParsedValue::LineStyle(x))->0.border_style.right == s.border_style.right
            &&& with_property(s, Property::BorderTopStyle, ParsedValue::LineStyle(x))->0.border_style.bottom == s.border_style.bottom
            &&& with_property(s, Property::BorderTopStyle, ParsedValue::LineStyle(x))->0.border_style.left == s.border_style.left
            &&& (Style { border_style: s.border_style, ..with_property(s, Property::BorderTopStyle, ParsedValue::LineStyle(x))->0 }) == s
        }),
        ({
            &&& with_property(s, Property::BorderRightStyle, ParsedValue::LineStyle(x)) is Some
            &&& with_property(s, Property::BorderRightStyle, ParsedValue::LineStyle(x))->0.border_style.right == Some(x)
            &&& with_property(s, Property::BorderRightStyle, ParsedValue::LineStyle(x))->0.border_style.top == s.border_style.top
            &&& with_property(s, Property::BorderRightStyle, ParsedValue::LineStyle(x))->0.border_style.bottom == s.border_style.bottom
            &&& with_property(s, Property::BorderRightStyle, ParsedValue::LineStyle(x))->0.border_style.left == s.border_style.left
            &&& (Style { border_style: s.border_style, ..with_property(s, Property::BorderRightStyle, ParsedValue::LineStyle(x))->0 }) == s
        }),
        ({
            &&& with_property(s, Property::BorderBottomStyle, ParsedValue::LineStyle(x)) is Some
            &&& with_property(s, Property::BorderBottomStyle, ParsedValue::LineStyle(x))->0.border_style.bottom == Some(x)
            &&& with_property(s, Property::BorderBottomStyle, ParsedValue::LineStyle(x))->0.border_style.top == s.border_style.top
            &&& with_property(s, Property::BorderBottomStyle, ParsedValue::LineStyle(x))->0.border_style.right == s.border_style.right
            &&& with_property(s, Property::BorderBottomStyle, ParsedValue::LineStyle(x))->0.border_style.left == s.border_style.left
            &&& (Style { border_style: s.border_style, ..with_property(s, Property::BorderBottomStyle, ParsedValue::LineStyle(x))->0 }) == s
        }),
        ({
            &&& with_property(s, Property::BorderLeftStyle, ParsedValue::LineStyle(x)) is Some
            &&& with_property(s, Property::BorderLeftStyle, ParsedValue::LineStyle(x))->0.border_style.left == Some(x)
            &&& with_property(s, Property::BorderLeftStyle, ParsedValue::LineStyle(x))->0.border_style.top == s.border_style.top
            &&& with_property(s, Property::BorderLeftStyle, ParsedValue::LineStyle(x))->0.border_style.right == s.border_style.right
            &&& with_property(s, Property::BorderLeftStyle, ParsedValue::LineStyle(x))->0.border_style.bottom == s.border_style.bottom
            &&& (Style { border_style: s.border_style, ..with_property(s, Property::BorderLeftStyle, ParsedValue::LineStyle(x))->0 }) == s
        }),
{
}

/// What each property that takes a value of kind `Radii` sets: the fields
/// named below, and nothing else of the style.
pub proof fn lemma_radii_declarations<V>(s: Style<V>, x: BorderRadius<V>)
    ensures
        ({
            &&& with_property(s, Property::BorderRadius, ParsedValue::Radii(x)) is Some
            &&& with_property(s, Property::BorderRadius, ParsedValue::Radii(x))->0.border_radius == x
            &&& (Style { border_radius: s.border_radius, ..with_property(s, Property::BorderRadius, ParsedValue::Radii(x))->0 }) == s
        }),
{
}

/// What each property that takes a value of kind `Corner` sets: the fields
/// named below, and nothing else of the style.
pub proof fn lemma_corner_declarations<V>(s: Style<V>, x: Radius<V>)
    ensures
        ({
            &&& with_property(s, Property::BorderTopLeftRadius, ParsedValue::Corner(x)) is Some
            &&& with_property(s, Property::BorderTopLeftRadius, ParsedValue::Corner(x))->0.border_radius.top_left == Some(x)
            &&& with_property(s, Property::BorderTopLeftRadius, ParsedValue::Corner(x))->0.border_radius.top_right == s.border_radius.top_right
            &&& with_property(s, Property::BorderTopLeftRadius, ParsedValue::Corner(x))->0.border_radius.bottom_right == s.border_radius.bottom_right
            &&& with_property(s, Property::BorderTopLeftRadius, ParsedValue::Corner(x))->0.border_radius.bottom_left == s.border_radius.bottom_left
            &&& (Style { border_radius: s.border_radius, ..with_property(s, Property::BorderTopLeftRadius, ParsedValue::Corner(x))->0 }) == s
        }),
        ({
            &&& with_property(s, Property::BorderTopRightRadius, ParsedValue::Corner(x)) is Some
            &&& with_property(s, Property::BorderTopRightRadius, ParsedValue::Corner(x))->0.border_radius.top_right == Some(x)
            &&& with_property(s, Property::BorderTopRightRadius, ParsedValue::Corner(x))->0.border_radius.top_left == s.border_radius.top_left
            &&& with_property(s, Property::BorderTopRightRadius, ParsedValue::Corner(x))->0.border_radius.bottom_right == s.border_radius.bottom_right
            &&& with_property(s, Property::BorderTopRightRadius, ParsedValue::Corner(x))->0.border_radius.bottom_left == s.border_radius.bottom_left
            &&& (Style { border_radius: s.border_radius, ..with_property(s, Property::BorderTopRightRadius, ParsedValue::Corner(x))->0 }) == s
        }),
        ({
            &&& with_property(s, Property::BorderBottomRightRadius, ParsedValue::Corner(x)) is Some
            &&& with_property(s, Property::BorderBottomRightRadius, ParsedValue::Corner(x))->0.border_radius.bottom_right == Some(x)
            &&& with_property(s, Property::BorderBottomRightRadius, ParsedValue::Corner(x))->0.border_radius.top_left == s.border_radius.top_left
            &&& with_property(s, Property::BorderBottomRightRadius, ParsedValue::Corner(x))->0.border_radius.top_right == s.border_radius.top_right
            &&& with_property(s, Property::BorderBottomRightRadius, ParsedValue::Corner(x))->0.border_radius.bottom_left == s.border_radius.bottom_left
            &&& (Style { border_radius: s.border_radius, ..with_property(s, Property::BorderBottomRightRadius, ParsedValue::Corner(x))->0 }) == s
        }),
        ({
            &&& with_property(s, Property::BorderBottomLeftRadius, ParsedValue::Corner(x)) is Some
            &&& with_property(s, Property::BorderBottomLeftRadius, ParsedValue::Corner(x))->0.border_radius.bottom_left == Some(x)
            &&& with_property(s, Property::BorderBottomLeftRadius, ParsedValue::Corner(x))->0.border_radius.top_left == s.border_radius.top_left
            &&& with_property(s, Property::BorderBottomLeftRadius, ParsedValue::Corner(x))->0.border_radius.top_right == s.border_radius.top_right
            &&& with_property(s, Property::BorderBottomLeftRadius, ParsedValue::Corner(x))->0.border_radius.bottom_right == s.border_radius.bottom_right
            &&& (Style { border_radius: s.border_radius, ..with_property(s, Property::BorderBottomLeftRadius, ParsedValue::Corner(x))->0 }) == s
        }),
{
}

/// What each property that takes a value of kind `BoxSizing` sets: the fields
/// named below, and nothing else of the style.
pub proof fn lemma_box_sizing_declarations<V>(s: Style<V>, x: BoxSizing)
    ensures
        ({
            &&& with_property(s, Property::BoxSizing, ParsedValue::BoxSizing(x)) is Some
            &&& with_property(s, Property::BoxSizing, ParsedValue::BoxSizing(x))->0.box_sizing == Some(x)
            &&& (Style { box_sizing: s.box_sizing, ..with_property(s, Property::BoxSizing, ParsedValue::BoxSizing(x))->0 }) == s
        }),
{
}

/// What each property that takes a value of kind `Sides` sets: the fields
/// named below, and nothing else of the style.
pub proof fn lemma_sides_declarations<V>(s: Style<V>, x: Directional<Option<Length<V>>>)
    ensures
        ({
            &&& with_property(s, Property::Margin, ParsedValue::Sides(x)) is Some
            &&& with_property(s, Property::Margin, ParsedValue::Sides(x))->0.margin == x
            &&& (Style { margin: s.margin, ..with_property(s, Property::Margin, ParsedValue::Sides(x))->0 }) == s
        }),
        ({
            &&& with_property(s, Property::Padding, ParsedValue::Sides(x)) is Some
            &&& with_property(s, Property::Padding, ParsedValue::Sides(x))->0.padding == x
            &&& (Style { padding: s.padding, ..with_property(s, Property::Padding, ParsedValue::Sides(x))->0 }) == s
        }),
{
}

/// What each property that takes a value of kind `Number` sets: the fields
/// named below, and nothing else of the style.
pub proof fn lemma_number_declarations<V>(s: Style<V>, x: V)
    ensures
        ({
            &&& with_property(s, Property::Flex, ParsedValue::Number(x)) is Some
            &&& with_property(s, Property::Flex, ParsedValue::Number(x))->0.flex_grow == Some(x)
            &&& (Style { flex_grow: s.flex_grow, ..with_property(s, Property::Flex, ParsedValue::Number(x))->0 }) == s
        }),
        ({
            &&& with_property(s, Property::FlexGrow, ParsedValue::Number(x)) is Some
            &&& with_property(s, Property::FlexGrow, ParsedValue::Number(x))->0.flex_grow == Some(x)
            &&& (Style { flex_grow: s.flex_grow, ..with_property(s, Property::FlexGrow, ParsedValue::Number(x))->0 }) == s
        }),
        ({
            &&& with_property(s, Property::FlexShrink, ParsedValue::Number(x)) is Some
            &&& with_property(s, Property::FlexShrink, ParsedValue::Number(x))->0.flex_shrink == Some(x)
            &&& (Style { flex_shrink: s.flex_shrink, ..with_property(s, Property::FlexShrink, ParsedValue::Number(x))->0 }) == s
        }),
{
}

/// What each property that takes a value of kind `FlexDirection` sets: the fields
/// named below, and nothing else of the style.
pub proof fn lemma_flex_direction_declarations<V>(s: Style<V>, x: FlexDirection)
    ensures
        ({
            &&& with_property(s, Property::FlexDirection, ParsedValue::FlexDirection(x)) is Some
            &&& with_property(s, Property::FlexDirection, ParsedValue::FlexDirection(x))->0.flex_direction == Some(x)
            &&& (Style { flex_direction: s.flex_direction, ..with_property(s, Property::FlexDirection, ParsedValue::FlexDirection(x))->0 }) == s
        }),
{
}

/// What each property that takes a value of kind `FlexWrap` sets: the fields
/// named below, and nothing else of the style.
pub proof fn lemma_flex_wrap_declarations<V>(s: Style<V>, x: FlexWrap)
    ensures
        ({
            &&& with_property(s, Property::FlexWrap, ParsedValue::FlexWrap(x)) is Some
            &&& with_property(s, Property::FlexWrap, ParsedValue::FlexWrap(x))->0.flex_wrap == Some(x)
            &&& (Style { flex_wrap: s.flex_wrap, ..with_property(s, Property::FlexWrap, ParsedValue::FlexWrap(x))->0 }) == s
        }),
{
}

/// What each property that takes a value of kind `JustifyContent` sets: the fields
/// named below, and nothing else of the style.
pub proof fn lemma_justify_content_declarations<V>(s: Style<V>, x: JustifyContent)
    ensures
        ({
            &&& with_property(s, Property::JustifyContent, ParsedValue::JustifyContent(x)) is Some
            &&& with_property(s, Property::JustifyContent, ParsedValue::JustifyContent(x))->0.justify_content == Some(x)
            &&& (Style { justify_content: s.justify_content, ..with_property(s, Property::JustifyContent, ParsedValue::JustifyContent(x))->0 }) == s
        }),
{
}

/// What each property that takes a value of kind `AlignItems` sets: the fields
/// named below, and nothing else of the style.
pub proof fn lemma_align_items_declarations<V>(s: Style<V>, x: AlignItems)
    ensures
        ({
            &&& with_property(s, Property::AlignItems, ParsedValue::AlignItems(x)) is Some
            &&& with_property(s, Property::AlignItems, ParsedValue::AlignItems(x))->0.align_items == Some(x)
            &&& (Style { align_items: s.align_items, ..with_property(s, Property::AlignItems, ParsedValue::AlignItems(x))->0 }) == s
        }),
{
}

/// What each property that takes a value of kind `AlignContent` sets: the fields
/// named below, and nothing else of the style.
pub proof fn lemma_align_content_declarations<V>(s: Style<V>, x: AlignContent)
    ensures
        ({
            &&& with_property(s, Property::AlignContent, ParsedValue::AlignContent(x)) is Some
            &&& with_property(s, Property::AlignContent, ParsedValue::AlignContent(x))->0.align_content == Some(x)
            &&& (Style { align_content: s.align_content, ..with_property(s, Property::AlignContent, ParsedValue::AlignContent(x))->0 }) == s
        }),
{
}

/// What each property that takes a value of kind `AlignSelf` sets: the fields
/// named below, and nothing else of the style.
pub proof fn lemma_align_self_declarations<V>(s: Style<V>, x: AlignSelf)
    ensures
        ({
            &&& with_property(s, Property::AlignSelf, ParsedValue::AlignSelf(x)) is Some
            &&& with_property(s, Property::AlignSelf, ParsedValue::AlignSelf(x))->0.align_self == Some(x)
            &&& (Style { align_self: s.align_self, ..with_property(s, Property::AlignSelf, ParsedValue::AlignSelf(x))->0 }) == s
        }),
{
}

/// What each property that takes a value of kind `Integer` sets: the fields
/// named below, and nothing else of the style.
pub proof fn lemma_integer_declarations<V>(s: Style<V>, x: i32)
    ensures
        ({
            &&& with_property(s, Property::Order, ParsedValue::Integer(x)) is Some
            &&& with_property(s, Property::Order, ParsedValue::Integer(x))->0.order == Some(x)
            &&& (Style { order: s.order, ..with_property(s, Property::Order, ParsedValue::Integer(x))->0 }) == s
        }),
{
}

/// Each property takes values of one kind and rejects every other.
pub proof fn lemma_property_value_kinds<V>(s: Style<V>, v: ParsedValue<V>)
    ensures
        with_property(s, Property::Display, v) is Some <==> v is Display,
        with_property(s, Property::Color, v) is Some <==> v is Color,
        with_property(s, Property::Background, v) is Some <==> v is Color,
        with_property(s, Property::BackgroundColor, v) is Some <==> v is Color,
        with_property(s, Property::BorderColor, v) is Some <==> v is Color,
        with_property(s, Property::BorderTopColor, v) is Some <==> v is Color,
        with_property(s, Property::BorderRightColor, v) is Some <==> v is Color,
        with_property(s, Property::BorderBottomColor, v) is Some <==> v is Color,
        with_property(s, Property::BorderLeftColor, v) is Some <==> v is Color,
        with_property(s, Property::BorderWidth, v) is Some <==> v is Length,
        with_property(s, Property::BorderTopWidth, v) is Some <==> v is Length,
        with_property(s, Property::BorderRightWidth, v) is Some <==> v is Length,
        with_property(s, Property::BorderBottomWidth, v) is Some <==> v is Length,
        with_property(s, Property::BorderLeftWidth, v) is Some <==> v is Length,
        with_property(s, Property::BorderStyle, v) is Some <==> v is LineStyle,
        with_property(s, Property::BorderTopStyle, v) is Some <==> v is LineStyle,
        with_property(s, Property::BorderRightStyle, v) is Some <==> v is LineStyle,
        with_property(s, Property::BorderBottomStyle, v) is Some <==> v is LineStyle,
        with_property(s, Property::BorderLeftStyle, v) is Some <==> v is LineStyle,
        with_property(s, Property::BorderRadius, v) is Some <==> v is Radii,
        with_property(s, Property::BorderTopLeftRadius, v) is Some <==> v is Corner,
        with_property(s, Property::BorderTopRightRadius, v) is Some <==> v is Corner,
        with_property(s, Property::BorderBottomRightRadius, v) is Some <==> v is Corner,
        with_property(s, Property::BorderBottomLeftRadius, v) is Some <==> v is Corner,
        with_property(s, Property::BoxSizing, v) is Some <==> v is BoxSizing,
        with_property(s, Property::Width, v) is Some <==> v is Length,
        with_property(s, Property::Height, v) is Some <==> v is Length,
        with_property(s, Property::Margin, v) is Some <==> v is Sides,
        with_property(s, Property::MarginTop, v) is Some <==> v is Length,
        with_property(s, Property::MarginRight, v) is Some <==> v is Length,
        with_property(s, Property::MarginBottom, v) is Some <==> v is Length,
        with_property(s, Property::MarginLeft, v) is Some <==> v is Length,
        with_property(s, Property::Padding, v) is Some <==> v is Sides,
        with_property(s, Property::PaddingTop, v) is Some <==> v is Length,
        with_property(s, Property::PaddingRight, v) is Some <==> v is Length,
        with_property(s, Property::PaddingBottom, v) is Some <==> v is Length,
        with_property(s, Property::PaddingLeft, v) is Some <==> v is Length,
        with_property(s, Property::Flex, v) is Some <==> v is Number,
        with_property(s, Property::FlexGrow, v) is Some <==> v is Number,
        with_property(s, Property::FlexShrink, v) is Some <==> v is Number,
        with_property(s, Property::FlexBasis, v) is Some <==> v is Length,
        with_property(s, Property::FlexDirection, v) is Some <==> v is FlexDirection,
        with_property(s, Property::FlexWrap, v) is Some <==> v is FlexWrap,
        with_property(s, Property::JustifyContent, v) is Some <==> v is JustifyContent,
        with_property(s, Property::AlignItems, v) is Some <==> v is AlignItems,
        with_property(s, Property::AlignContent, v) is Some <==> v is AlignContent,
        with_property(s, Property::AlignSelf, v) is Some <==> v is AlignSelf,
        with_property(s, Property::Order, v) is Some <==> v is Integer,
        with_property(s, Property::Gap, v) is Some <==> v is Length,
        with_property(s, Property::RowGap, v) is Some <==> v is Length,
        with_property(s, Property::ColumnGap, v) is Some <==> v is Length,
{
}

/// The `border` shorthand sets, on all four sides, each of width, color and
/// style that it holds, and leaves the rest of the style as it was.
pub proof fn lemma_border_declaration<V>(s: Style<V>, b: BorderShorthand<V>)
    ensures
        ({
            let r = with_property(s, Property::Border, ParsedValue::Border(b));
            &&& r is Some
            &&& b.width matches Some(w) ==> r->0.border_width.top == Some(w) && r->0.border_width.right
                == Some(w) && r->0.border_width.bottom == Some(w) && r->0.border_width.left == Some(w)
            &&& b.width is None ==> r->0.border_width == s.border_width
            &&& b.color matches Some(c) ==> r->0.border_color.top == Some(c) && r->0.border_color.right
                == Some(c) && r->0.border_color.bottom == Some(c) && r->0.border_color.left == Some(c)
            &&& b.color is None ==> r->0.border_color == s.border_color
            &&& b.style matches Some(st) ==> r->0.border_style.top == Some(st) && r->0.border_style.right
                == Some(st) && r->0.border_style.bottom == Some(st) && r->0.border_style.left == Some(st)
            &&& b.style is None ==> r->0.border_style == s.border_style
            &&& (Style {
                border_width: s.border_width,
                border_color: s.border_color,
                border_style: s.border_style,
                ..r->0
            }) == s
        }),
{
}

} // verus!
