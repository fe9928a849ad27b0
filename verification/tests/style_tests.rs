use sonate::sheet::{apply_element_rules, apply_matching_rules, Rule, Selector, StyleSheet};
use sonate::style::{
    BorderRadius, BorderStyle, Directional, FlexDirection, Length, Radius, Rgba, Style,
};
use sonate::sheet::Attributes;

fn px(v: f64) -> Length<f64> {
    Length::Px(v)
}

#[test]
fn directional_set_all_and_resolved() {
    let d = Directional::set_all(Some(px(3.0)));
    assert_eq!(d.top, Some(px(3.0)));
    assert_eq!(d.left, Some(px(3.0)));
    let mut partial: Directional<Option<Length<f64>>> = Directional::default();
    partial.left = Some(px(5.0));
    let r = partial.resolved(px(0.0));
    assert_eq!(r, Directional { top: px(0.0), right: px(0.0), bottom: px(0.0), left: px(5.0) });
}

#[test]
fn directional_merge_overrides_set_sides() {
    let mut a = Directional { top: Some(1), right: Some(2), bottom: None, left: Some(4) };
    let b = Directional { top: None, right: Some(20), bottom: Some(30), left: None };
    a.merge(&b);
    assert_eq!(a, Directional { top: Some(1), right: Some(20), bottom: Some(30), left: Some(4) });
}

#[test]
fn border_radius_merge_and_empty() {
    let mut a: BorderRadius<f64> = BorderRadius::default();
    assert!(a.is_empty());
    let r = Radius { x: px(1.0), y: px(2.0) };
    let b = BorderRadius { top_left: None, top_right: Some(r), bottom_right: None, bottom_left: None };
    a.merge(&b);
    assert!(!a.is_empty());
    assert_eq!(a.top_right, Some(r));
    assert_eq!(a.top_left, None);
}

#[test]
fn style_merge_later_wins() {
    let mut base: Style<f64> = Style::default();
    base.width = Some(px(10.0));
    base.color = Some(Rgba { r: 1, g: 2, b: 3, a: 4 });
    base.margin.top = Some(px(1.0));
    let mut later: Style<f64> = Style::default();
    later.width = Some(px(20.0));
    later.margin.left = Some(px(2.0));
    later.font_family = Some("Mono".to_string());
    later.flex_grow = Some(1.5);
    base.merge(&later);
    assert_eq!(base.width, Some(px(20.0)));
    assert_eq!(base.color, Some(Rgba { r: 1, g: 2, b: 3, a: 4 }));
    assert_eq!(base.margin.top, Some(px(1.0)));
    assert_eq!(base.margin.left, Some(px(2.0)));
    assert_eq!(base.font_family.as_deref(), Some("Mono"));
    assert_eq!(base.flex_grow, Some(1.5));
}

#[test]
fn style_merge_with_empty_keeps_everything() {
    let mut s: Style<f64> = Style::default();
    s.height = Some(Length::Auto);
    s.border_style.bottom = Some(BorderStyle::Dashed);
    let empty: Style<f64> = Style::default();
    s.merge(&empty);
    assert_eq!(s.height, Some(Length::Auto));
    assert_eq!(s.border_style.bottom, Some(BorderStyle::Dashed));
}

fn rule(selector: Selector, width: f64) -> Rule<f64> {
    let mut s: Style<f64> = Style::default();
    s.width = Some(px(width));
    Rule { selector, declarations: vec![s] }
}

fn sheet() -> StyleSheet<f64> {
    let mut sheet = StyleSheet::new();
    sheet.add_rule(rule(Selector::Tag("input".to_string()), 1.0));
    sheet.add_rule(rule(Selector::Class("a".to_string()), 2.0));
    sheet.add_rule(rule(Selector::Class("b".to_string()), 3.0));
    let mut dir: Style<f64> = Style::default();
    dir.flex_direction = Some(FlexDirection::Column);
    sheet.add_rule(Rule { selector: Selector::Class("a".to_string()), declarations: vec![dir] });
    sheet
}

#[test]
fn matching_rules_apply_in_sheet_order() {
    let mut attrs = Attributes::new();
    attrs.insert("tag".to_string(), "input".to_string());
    attrs.insert("class".to_string(), "  b   a ".to_string());
    let mut style: Style<f64> = Style::default();
    apply_matching_rules(&mut style, &attrs, &sheet());
    // input (1), then a (2), then b (3), then a's second rule.
    assert_eq!(style.width, Some(px(3.0)));
    assert_eq!(style.flex_direction, Some(FlexDirection::Column));
}

#[test]
fn tag_rule_applies_to_tagged_element() {
    let mut attrs = Attributes::new();
    attrs.insert("tag".to_string(), "input".to_string());
    let mut style: Style<f64> = Style::default();
    apply_matching_rules(&mut style, &attrs, &sheet());
    assert_eq!(style.width, Some(px(1.0)));
    assert_eq!(style.flex_direction, None);
}

#[test]
fn class_must_be_a_whole_word() {
    let mut attrs = Attributes::new();
    attrs.insert("class".to_string(), "ab ba".to_string());
    let mut style: Style<f64> = Style::default();
    apply_matching_rules(&mut style, &attrs, &sheet());
    assert_eq!(style.width, None);
}

#[test]
fn find_class_rule_finds_first() {
    let s = sheet();
    let a: Vec<char> = "a".chars().collect();
    let z: Vec<char> = "z".chars().collect();
    assert_eq!(s.find_class_rule(&a), Some(1));
    assert_eq!(s.find_class_rule(&z), None);
}

#[test]
fn cascading_again_changes_nothing() {
    let mut sheet: StyleSheet<f64> = StyleSheet::new();
    let mut a: Style<f64> = Style::default();
    a.width = Some(px(10.0));
    a.color = Some(Rgba { r: 1, g: 2, b: 3, a: 255 });
    let mut b: Style<f64> = Style::default();
    b.width = Some(px(20.0));
    b.margin.left = Some(Length::Auto);
    let mut t: Style<f64> = Style::default();
    t.border_width = Directional::set_all(Some(px(2.0)));
    sheet.add_rule(Rule { selector: Selector::Class("b".into()), declarations: vec![b] });
    sheet.add_rule(Rule { selector: Selector::Tag("input".into()), declarations: vec![t] });
    sheet.add_rule(Rule { selector: Selector::Class("a".into()), declarations: vec![a] });

    let mut attrs: Attributes = Attributes::new();
    attrs.insert("class".to_string(), "b  a".to_string());
    attrs.insert("tag".to_string(), "input".to_string());

    let mut s: Style<f64> = Style::default();
    s.height = Some(px(5.0));
    apply_matching_rules(&mut s, &attrs, &sheet);
    let once = s.clone();
    apply_matching_rules(&mut s, &attrs, &sheet);
    assert_eq!(s.width, once.width);
    assert_eq!(s.width, Some(px(10.0)));
    assert_eq!(s.color, once.color);
    assert_eq!(s.margin, once.margin);
    assert_eq!(s.border_width, Directional::set_all(Some(px(2.0))));
    assert_eq!(s.height, Some(px(5.0)));
}

#[test]
fn default_lengths_are_zero_pixels() {
    let d: Directional<Length<f64>> = Directional::default();
    assert_eq!(d, Directional { top: px(0.0), right: px(0.0), bottom: px(0.0), left: px(0.0) });
    let unset: Directional<Option<Length<f64>>> = Directional::default();
    assert_eq!(unset.top, None);
}

fn sample(width: Option<f64>, color: Option<u8>, left: Option<f64>) -> Style<f64> {
    let mut s: Style<f64> = Style::default();
    s.width = width.map(px);
    s.color = color.map(|r| Rgba { r, g: 0, b: 0, a: 255 });
    s.margin.left = left.map(px);
    s
}

fn merged(a: &Style<f64>, b: &Style<f64>) -> Style<f64> {
    let mut m = a.clone();
    m.merge(b);
    m
}

#[test]
fn merging_is_associative_and_idempotent() {
    let a = sample(Some(1.0), Some(1), None);
    let b = sample(None, Some(2), Some(3.0));
    let c = sample(Some(4.0), None, None);

    let left = merged(&merged(&a, &b), &c);
    let right = merged(&a, &merged(&b, &c));
    assert_eq!(left.width, right.width);
    assert_eq!(left.color, right.color);
    assert_eq!(left.margin, right.margin);
    assert_eq!(left.width, Some(px(4.0)));
    assert_eq!(left.color, Some(Rgba { r: 2, g: 0, b: 0, a: 255 }));
    assert_eq!(left.margin.left, Some(px(3.0)));

    let once = merged(&a, &b);
    let twice = merged(&once, &b);
    assert_eq!(once.width, twice.width);
    assert_eq!(once.color, twice.color);
    assert_eq!(once.margin, twice.margin);
}

#[test]
fn resolving_element_rules_again_changes_nothing() {
    let mut sheet: StyleSheet<f64> = StyleSheet::new();
    let mut a: Style<f64> = Style::default();
    a.width = Some(px(10.0));
    let mut b: Style<f64> = Style::default();
    b.width = Some(px(20.0));
    b.margin.left = Some(Length::Auto);
    sheet.add_rule(Rule { selector: Selector::Class("a".into()), declarations: vec![a] });
    sheet.add_rule(Rule { selector: Selector::Class("b".into()), declarations: vec![b] });

    let mut attrs: Attributes = Attributes::new();
    attrs.insert("class".to_string(), "b a".to_string());
    let mut s: Style<f64> = Style::default();
    apply_element_rules(&mut s, &attrs, &sheet);
    let once = s.clone();
    apply_element_rules(&mut s, &attrs, &sheet);
    assert_eq!(s.width, Some(px(10.0)));
    assert_eq!(s.width, once.width);
    assert_eq!(s.margin, once.margin);
    assert_eq!(s.margin.left, Some(Length::Auto));
}
