use sonate::document::Node;
use sonate::flex::{
    auto_count, can_wrap, cross_size_is_auto, effective_align, effective_justify, flex_settings,
    is_definite_size, is_row, main_cross, margins_for_direction, resolve_style,
    specified_axis_length, stable_order, Axis, FlexSettings,
};
use sonate::hit_test::HitNode;
use sonate::id::Id;
use sonate::parser::CssParser;
use sonate::sheet::{Rule, Selector, StyleSheet};
use sonate::style::{
    AlignContent, AlignItems, AlignSelf, BoxSizing, Directional, Display, FlexDirection, FlexWrap,
    JustifyContent, Length, Style,
};

fn px(v: f64) -> Length<f64> {
    Length::Px(v)
}

#[test]
fn settings_default_to_row_nowrap_start_stretch() {
    let s: Style<f64> = Style::default();
    assert_eq!(
        flex_settings(&s),
        FlexSettings {
            direction: FlexDirection::Row,
            wrap: FlexWrap::NoWrap,
            justify_content: JustifyContent::FlexStart,
            align_items: AlignItems::Stretch,
            align_content: AlignContent::FlexStart,
            box_sizing: BoxSizing::ContentBox,
        }
    );
    let mut t: Style<f64> = Style::default();
    t.flex_direction = Some(FlexDirection::ColumnReverse);
    t.flex_wrap = Some(FlexWrap::Wrap);
    t.align_content = Some(AlignContent::SpaceBetween);
    let f = flex_settings(&t);
    assert_eq!(f.direction, FlexDirection::ColumnReverse);
    assert_eq!(f.wrap, FlexWrap::Wrap);
    assert_eq!(f.align_content, AlignContent::SpaceBetween);
    assert_eq!(f.justify_content, JustifyContent::FlexStart);
}

#[test]
fn axes_follow_the_direction() {
    assert!(is_row(FlexDirection::Row));
    assert!(is_row(FlexDirection::RowReverse));
    assert!(!is_row(FlexDirection::Column));
    assert!(!can_wrap(FlexWrap::NoWrap));
    assert!(can_wrap(FlexWrap::WrapReverse));
    assert_eq!(main_cross(FlexDirection::Row, 1, 2), (1, 2));
    assert_eq!(main_cross(FlexDirection::ColumnReverse, 1, 2), (2, 1));
}

#[test]
fn margins_swap_for_reversed_directions() {
    let m = Directional { top: 1, right: 2, bottom: 3, left: 4 };
    assert_eq!(margins_for_direction(&m, FlexDirection::Row), (4, 2, 1, 3));
    assert_eq!(margins_for_direction(&m, FlexDirection::RowReverse), (2, 4, 1, 3));
    assert_eq!(margins_for_direction(&m, FlexDirection::Column), (1, 3, 4, 2));
    assert_eq!(margins_for_direction(&m, FlexDirection::ColumnReverse), (3, 1, 4, 2));
}

#[test]
fn axis_lengths_and_definiteness() {
    let mut s: Style<f64> = Style::default();
    s.width = Some(px(200.0));
    s.height = Some(Length::Auto);
    assert_eq!(specified_axis_length(&s, FlexDirection::Row, Axis::Main), Some(px(200.0)));
    assert_eq!(specified_axis_length(&s, FlexDirection::Column, Axis::Main), Some(Length::Auto));
    assert_eq!(specified_axis_length(&s, FlexDirection::Column, Axis::Cross), Some(px(200.0)));
    assert!(is_definite_size(&s, FlexDirection::Row, Axis::Main));
    assert!(!is_definite_size(&s, FlexDirection::Row, Axis::Cross));
    assert!(cross_size_is_auto(&s, FlexDirection::Row));
    assert!(!cross_size_is_auto(&s, FlexDirection::Column));
    let empty: Style<f64> = Style::default();
    assert!(cross_size_is_auto(&empty, FlexDirection::Column));
}

#[test]
fn align_self_overrides_align_items() {
    assert_eq!(effective_align(None, AlignItems::Center), AlignItems::Center);
    assert_eq!(effective_align(Some(AlignSelf::Auto), AlignItems::FlexEnd), AlignItems::FlexEnd);
    assert_eq!(effective_align(Some(AlignSelf::Stretch), AlignItems::Center), AlignItems::Stretch);
    assert_eq!(effective_align(Some(AlignSelf::Baseline), AlignItems::Center), AlignItems::Baseline);
}

#[test]
fn reversed_direction_flips_start_and_end() {
    assert_eq!(effective_justify(JustifyContent::FlexStart, FlexDirection::RowReverse), JustifyContent::FlexEnd);
    assert_eq!(effective_justify(JustifyContent::FlexEnd, FlexDirection::ColumnReverse), JustifyContent::FlexStart);
    assert_eq!(effective_justify(JustifyContent::Center, FlexDirection::RowReverse), JustifyContent::Center);
    assert_eq!(effective_justify(JustifyContent::FlexStart, FlexDirection::Row), JustifyContent::FlexStart);
}

#[test]
fn auto_margins_are_counted() {
    assert_eq!(auto_count::<f64>(Length::Auto, Length::Auto), 2);
    assert_eq!(auto_count(Length::Auto, px(3.0)), 1);
    assert_eq!(auto_count(px(1.0), px(3.0)), 0);
}

#[test]
fn order_sorts_stably() {
    assert_eq!(stable_order(&vec![2, 0, 1, 0]), vec![1, 3, 2, 0]);
    assert_eq!(stable_order(&vec![]), Vec::<usize>::new());
    assert_eq!(stable_order(&vec![-1, 5, -1]), vec![0, 2, 1]);
    assert_eq!(stable_order(&vec![0, 0, 0]), vec![0, 1, 2]);
}

#[test]
fn resolve_style_applies_classes_and_anonymous_display() {
    let mut sheet: StyleSheet<f64> = StyleSheet::new();
    let mut decl: Style<f64> = Style::default();
    decl.width = Some(px(40.0));
    sheet.add_rule(Rule { selector: Selector::Class("box".into()), declarations: vec![decl] });

    let mut item = Node::new(Id(3), None);
    item.attributes.insert("class".to_string(), "other box".to_string());
    let r = resolve_style(Style::default(), &item, &sheet, Display::Flex);
    assert_eq!(r.width, Some(px(40.0)));
    assert_eq!(r.display, Display::Flex);

    let text = Node::new(Id(4), Some("hi".to_string()));
    let r2 = resolve_style(Style::default(), &text, &sheet, Display::Flex);
    assert_eq!(r2.display, Display::Flex);
    assert_eq!(r2.width, None);
}

fn leaf(id: u64, hit: bool) -> HitNode {
    HitNode { id: Id(id), hit, children: vec![] }
}

#[test]
fn hit_test_prefers_the_last_child_and_lists_parents() {
    let inner = HitNode { id: Id(2), hit: true, children: vec![leaf(5, true), leaf(6, false)] };
    let root = HitNode { id: Id(0), hit: true, children: vec![leaf(1, true), inner, leaf(3, false)] };
    assert_eq!(root.find_element_at_position(), vec![Id(5), Id(2), Id(0)]);
    assert_eq!(root.find_path_at_position(), Some(vec![Id(5), Id(2), Id(0)]));
}

#[test]
fn hit_test_outside_the_root_is_empty() {
    let root = HitNode { id: Id(0), hit: false, children: vec![leaf(1, true)] };
    assert_eq!(root.find_element_at_position(), Vec::<Id>::new());
    assert_eq!(root.find_path_at_position(), None);
    let lone = HitNode { id: Id(0), hit: true, children: vec![leaf(1, false)] };
    assert_eq!(lone.find_element_at_position(), vec![Id(0)]);
}

#[test]
fn topmost_element_is_the_head_of_the_path() {
    let inner = HitNode { id: Id(2), hit: true, children: vec![leaf(5, true), leaf(6, false)] };
    let root = HitNode { id: Id(0), hit: true, children: vec![leaf(1, true), inner, leaf(3, false)] };
    assert_eq!(root.find_topmost_element_at_position(), Some(Id(5)));
    let missed = HitNode { id: Id(0), hit: false, children: vec![leaf(1, true)] };
    assert_eq!(missed.find_topmost_element_at_position(), None);
    let lone = HitNode { id: Id(7), hit: true, children: vec![leaf(1, false)] };
    assert_eq!(lone.find_topmost_element_at_position(), Some(Id(7)));
}

#[test]
fn tag_selectors_apply_to_elements() {
    let mut sheet: StyleSheet<f64> = StyleSheet::new();
    let mut decl: Style<f64> = Style::default();
    decl.border_width = Directional::set_all(Some(px(2.0)));
    sheet.add_rule(Rule { selector: Selector::Tag("input".into()), declarations: vec![decl] });

    let mut x = Node::new(Id(2), None);
    x.attributes.insert("tag".to_string(), "input".to_string());
    let r = resolve_style(Style::default(), &x, &sheet, Display::Flex);
    assert_eq!(r.border_width, Directional::set_all(Some(px(2.0))));

    let mut other = Node::new(Id(3), None);
    other.attributes.insert("tag".to_string(), "div".to_string());
    let r2 = resolve_style(Style::default(), &other, &sheet, Display::Flex);
    assert_eq!(r2.border_width.top, None);
}

#[test]
fn parsed_tag_rule_applies_to_input() {
    let selector = CssParser::new().selector_from_prelude(false, "INPUT");
    assert_eq!(selector, Selector::Tag("input".to_string()));
    let mut decl: Style<f64> = Style::default();
    decl.border_width = Directional::set_all(Some(px(2.0)));
    let mut sheet: StyleSheet<f64> = StyleSheet::new();
    sheet.add_rule(Rule { selector, declarations: vec![decl] });

    let mut x = Node::new(Id(2), None);
    x.attributes.insert("tag".to_string(), "input".to_string());
    let r = resolve_style(Style::default(), &x, &sheet, Display::Flex);
    assert_eq!(r.border_width.top, Some(px(2.0)));
    assert_eq!(r.border_width.right, Some(px(2.0)));
    assert_eq!(r.border_width.bottom, Some(px(2.0)));
    assert_eq!(r.border_width.left, Some(px(2.0)));
}

#[test]
fn first_rule_per_class_in_attribute_order() {
    let mut sheet: StyleSheet<f64> = StyleSheet::new();
    let mut a1: Style<f64> = Style::default();
    a1.width = Some(px(10.0));
    let mut a2: Style<f64> = Style::default();
    a2.width = Some(px(99.0));
    a2.height = Some(px(99.0));
    let mut b: Style<f64> = Style::default();
    b.width = Some(px(20.0));
    let mut t: Style<f64> = Style::default();
    t.width = Some(px(1.0));
    t.order = Some(3);
    sheet.add_rule(Rule { selector: Selector::Class("a".into()), declarations: vec![a1] });
    sheet.add_rule(Rule { selector: Selector::Class("b".into()), declarations: vec![b] });
    sheet.add_rule(Rule { selector: Selector::Class("a".into()), declarations: vec![a2] });
    sheet.add_rule(Rule { selector: Selector::Tag("div".into()), declarations: vec![t] });

    // Classes apply in the order the attribute lists them, after tag rules;
    // a second rule for the same class is not applied.
    let mut x = Node::new(Id(2), None);
    x.attributes.insert("tag".to_string(), "div".to_string());
    x.attributes.insert("class".to_string(), " b a ".to_string());
    let r = resolve_style(Style::default(), &x, &sheet, Display::Flex);
    assert_eq!(r.width, Some(px(10.0)));
    assert_eq!(r.height, None);
    assert_eq!(r.order, Some(3));

    let mut y = Node::new(Id(3), None);
    y.attributes.insert("class".to_string(), "a b".to_string());
    let r2 = resolve_style(Style::default(), &y, &sheet, Display::Flex);
    assert_eq!(r2.width, Some(px(20.0)));
    assert_eq!(r2.order, None);
}
