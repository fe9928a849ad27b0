use sonate::declaration::{apply_property, ParsedValue};
use sonate::parser::{BorderShorthand, Property};
use sonate::style::{BorderStyle, Directional, Length, Rgba, Style};

#[test]
fn side_width_sets_one_side() {
    let mut s: Style<f64> = Style::default();
    assert!(apply_property(Property::BorderTopWidth, ParsedValue::Length(Length::Px(2.0)), &mut s));
    assert_eq!(s.border_width.top, Some(Length::Px(2.0)));
    assert_eq!(s.border_width.right, None);
    assert_eq!(s.border_width.bottom, None);
    assert_eq!(s.border_width.left, None);
}

#[test]
fn border_width_sets_all_sides() {
    let mut s: Style<f64> = Style::default();
    assert!(apply_property(Property::BorderWidth, ParsedValue::Length(Length::Px(2.0)), &mut s));
    assert_eq!(s.border_width, Directional::set_all(Some(Length::Px(2.0))));
}

#[test]
fn gap_sets_row_and_column_gap() {
    let mut s: Style<f64> = Style::default();
    assert!(apply_property(Property::Gap, ParsedValue::Length(Length::Px(8.0)), &mut s));
    assert_eq!(s.row_gap, Some(Length::Px(8.0)));
    assert_eq!(s.column_gap, Some(Length::Px(8.0)));
}

#[test]
fn flex_sets_flex_grow() {
    let mut s: Style<f64> = Style::default();
    assert!(apply_property(Property::Flex, ParsedValue::Number(2.0), &mut s));
    assert_eq!(s.flex_grow, Some(2.0));
    assert_eq!(s.flex_shrink, None);
}

#[test]
fn border_shorthand_sets_present_parts_only() {
    let mut s: Style<f64> = Style::default();
    s.border_style.left = Some(BorderStyle::Dotted);
    let red = Rgba { r: 255, g: 0, b: 0, a: 255 };
    let b = BorderShorthand { width: Some(Length::Px(1.0)), color: Some(red), style: None };
    assert!(apply_property(Property::Border, ParsedValue::Border(b), &mut s));
    assert_eq!(s.border_width, Directional::set_all(Some(Length::Px(1.0))));
    assert_eq!(s.border_color, Directional::set_all(Some(red)));
    assert_eq!(s.border_style.left, Some(BorderStyle::Dotted));
    assert_eq!(s.border_style.top, None);
}

#[test]
fn value_of_another_kind_changes_nothing() {
    let mut s: Style<f64> = Style::default();
    s.width = Some(Length::Px(5.0));
    assert!(!apply_property(Property::Width, ParsedValue::Integer(3), &mut s));
    assert_eq!(s.width, Some(Length::Px(5.0)));
    assert!(!apply_property(Property::Order, ParsedValue::Number(1.0), &mut s));
    assert_eq!(s.order, None);
}
