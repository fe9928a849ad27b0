use sonate::parser::{
    BorderPart, CssParser, LineWidthKeyword, Property, StyleDeclarationParser,
};
use sonate::sheet::Selector;
use sonate::style::{
    AlignContent, AlignItems, AlignSelf, BorderStyle, BoxSizing, Directional, Display,
    FlexDirection, FlexWrap, JustifyContent, Length, Radius, Rgba,
};

#[test]
fn prelude_selectors() {
    let p = CssParser::new();
    assert_eq!(p.selector_from_prelude(true, "Btn"), Selector::Class("Btn".to_string()));
    assert_eq!(p.selector_from_prelude(false, "INPUT"), Selector::Tag("input".to_string()));
}

#[test]
fn keywords() {
    let p = StyleDeclarationParser::new();
    assert_eq!(p.parse_display("flex"), Some(Display::Flex));
    assert_eq!(p.parse_display("block"), None);
    assert_eq!(p.parse_box_sizing("border-box"), Some(BoxSizing::BorderBox));
    assert_eq!(p.parse_box_sizing("content-box"), Some(BoxSizing::ContentBox));
    assert_eq!(p.parse_flex_direction("column-reverse"), Some(FlexDirection::ColumnReverse));
    assert_eq!(p.parse_flex_direction("Column"), None);
    assert_eq!(p.parse_flex_wrap("wrap-reverse"), Some(FlexWrap::WrapReverse));
    assert_eq!(p.parse_justify_content("space-evenly"), Some(JustifyContent::SpaceEvenly));
    assert_eq!(p.parse_align_items("baseline"), Some(AlignItems::Baseline));
    assert_eq!(p.parse_align_content("space-around"), Some(AlignContent::SpaceAround));
    assert_eq!(p.parse_align_self("auto"), Some(AlignSelf::Auto));
    assert_eq!(p.parse_align_self("start"), None);
}

#[test]
fn line_keywords_ignore_case() {
    let p = StyleDeclarationParser::new();
    assert_eq!(p.parse_line_style("Dashed"), Some(BorderStyle::Dashed));
    assert_eq!(p.parse_line_style("none"), Some(BorderStyle::NoneStyle));
    assert_eq!(p.parse_line_style("wavy"), None);
    assert_eq!(p.parse_line_width_keyword("THICK"), Some(LineWidthKeyword::Thick));
    assert_eq!(p.parse_line_width_keyword("thin"), Some(LineWidthKeyword::Thin));
    assert_eq!(p.parse_line_width_keyword("huge"), None);
}

#[test]
fn lengths() {
    let p = StyleDeclarationParser::new();
    assert_eq!(p.length_from_dimension(10.0, "px"), Some(Length::Px(10.0)));
    assert_eq!(p.length_from_dimension(2.0, "em"), Some(Length::Em(2.0)));
    assert_eq!(p.length_from_dimension(50.0, "%"), Some(Length::Percent(50.0)));
    assert_eq!(p.length_from_dimension(1.0, "pt"), None);
    assert_eq!(p.length_from_ident::<f64>("auto"), Some(Length::Auto));
    assert_eq!(p.length_from_ident::<f64>("none"), None);
}

#[test]
fn box_shorthand_expansion() {
    let p = StyleDeclarationParser::new();
    let one = p.expand_sides(1, None, None, None);
    assert_eq!(one, Directional { top: Some(1), right: Some(1), bottom: Some(1), left: Some(1) });
    let two = p.expand_sides(1, Some(2), None, None);
    assert_eq!(two, Directional { top: Some(1), right: Some(2), bottom: Some(1), left: Some(2) });
    let three = p.expand_sides(1, Some(2), Some(3), None);
    assert_eq!(three, Directional { top: Some(1), right: Some(2), bottom: Some(3), left: Some(2) });
    let four = p.expand_sides(1, Some(2), Some(3), Some(4));
    assert_eq!(four, Directional { top: Some(1), right: Some(2), bottom: Some(3), left: Some(4) });
}

#[test]
fn border_radius_lists() {
    let p = StyleDeclarationParser::new();
    let h = Directional { top: Length::Px(1.0), right: Length::Px(2.0), bottom: Length::Px(3.0), left: Length::Px(4.0) };
    let r = p.border_radius_from_lists(h, None);
    assert_eq!(r.top_left, Some(Radius { x: Length::Px(1.0), y: Length::Px(1.0) }));
    assert_eq!(r.bottom_left, Some(Radius { x: Length::Px(4.0), y: Length::Px(4.0) }));
    let v = Directional::set_all(Length::Px(9.0));
    let r2 = p.border_radius_from_lists(h, Some(v));
    assert_eq!(r2.top_right, Some(Radius { x: Length::Px(2.0), y: Length::Px(9.0) }));
    assert_eq!(p.corner_radius(Length::Px(10.0), Some(Length::Px(20.0))), Radius { x: Length::Px(10.0), y: Length::Px(20.0) });
    assert_eq!(p.corner_radius(Length::Px(10.0), None), Radius { x: Length::Px(10.0), y: Length::Px(10.0) });
}

#[test]
fn border_shorthand_rules() {
    let p = StyleDeclarationParser::new();
    let blue = Rgba { r: 0, g: 0x56, b: 0xb3, a: 255 };
    let ok = p.border_shorthand(&vec![
        BorderPart::Width(Length::Px(2.0)),
        BorderPart::Style(BorderStyle::Solid),
        BorderPart::Color(blue),
    ]);
    let ok = ok.expect("valid shorthand");
    assert_eq!(ok.width, Some(Length::Px(2.0)));
    assert_eq!(ok.style, Some(BorderStyle::Solid));
    assert_eq!(ok.color, Some(blue));
    let none = p.border_shorthand::<f64>(&vec![BorderPart::Style(BorderStyle::NoneStyle)]).unwrap();
    assert_eq!(none.width, None);
    assert_eq!(none.style, Some(BorderStyle::NoneStyle));
    // Each kind at most once; unknown parts reject.
    assert!(p.border_shorthand(&vec![BorderPart::Width(Length::Px(1.0)), BorderPart::Width(Length::Px(2.0))]).is_none());
    assert!(p.border_shorthand::<f64>(&vec![BorderPart::Color(blue), BorderPart::Color(blue)]).is_none());
    assert!(p.border_shorthand::<f64>(&vec![BorderPart::Style(BorderStyle::Solid), BorderPart::Style(BorderStyle::Dashed)]).is_none());
    assert!(p.border_shorthand::<f64>(&vec![BorderPart::Unknown]).is_none());
}

#[test]
fn property_names() {
    let p = StyleDeclarationParser::new();
    assert_eq!(p.property("margin-left"), Some(Property::MarginLeft));
    assert_eq!(p.property("border-top-left-radius"), Some(Property::BorderTopLeftRadius));
    assert_eq!(p.property("gap"), Some(Property::Gap));
    assert_eq!(p.property("Margin"), None);
    assert_eq!(p.property("font-size"), None);
}
