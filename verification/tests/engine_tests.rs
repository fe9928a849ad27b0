use sonate::engine::{Command, CommandEffect, FlexLayoutEngine, LayoutContext, LayoutSchedule, NextStep, RunError, WindowMessage};
use sonate::id::Id;
use sonate::lolite_worker;
use sonate::platform::{BackendType, Platform};
use sonate::registry::{accepted_node_id, EngineRegistry, HandleError};
use sonate::sheet::{Rule, Selector, StyleSheet};
use sonate::sonate_worker;
use sonate::style::Style;
use sonate::text::FontSpec;

#[test]
fn commands_change_the_document() {
    let mut ctx: LayoutContext<f64> = LayoutContext::new();
    assert_eq!(ctx.apply_command(Command::CreateNode(Id(1), None)), Ok(CommandEffect::Changed));
    assert_eq!(ctx.apply_command(Command::SetParent(Id(0), Id(1))), Ok(CommandEffect::Changed));
    assert_eq!(ctx.apply_command(Command::SetAttribute(Id(1), "class".into(), "x".into())), Ok(CommandEffect::Changed));
    assert_eq!(ctx.document.get_attribute(Id(1), "class".into()), Some("x".to_string()));
    assert_eq!(ctx.apply_command(Command::SetParent(Id(0), Id(5))), Err("Child node not found"));
    assert_eq!(ctx.apply_command(Command::Layout), Ok(CommandEffect::LayoutNow));
    assert_eq!(ctx.apply_command(Command::AddStylesheet(".a{}".into())), Ok(CommandEffect::ParseStylesheet(".a{}".to_string())));
}

#[test]
fn add_rules_appends_in_order() {
    let mut ctx: LayoutContext<f64> = LayoutContext::new();
    let mut sheet = StyleSheet::new();
    sheet.add_rule(Rule { selector: Selector::Class("a".into()), declarations: vec![Style::default()] });
    sheet.add_rule(Rule { selector: Selector::Tag("b".into()), declarations: vec![] });
    ctx.add_rules(sheet);
    let mut sheet2 = StyleSheet::new();
    sheet2.add_rule(Rule { selector: Selector::Class("c".into()), declarations: vec![] });
    ctx.add_rules(sheet2);
    let sels: Vec<&Selector> = ctx.style_sheet.rules.iter().map(|r| &r.selector).collect();
    assert_eq!(sels, vec![&Selector::Class("a".into()), &Selector::Tag("b".into()), &Selector::Class("c".into())]);
}

#[test]
fn layout_is_debounced() {
    let mut s = LayoutSchedule::new();
    assert_eq!(s.next_step(0), NextStep::WaitForCommand);
    s.note_change(1000);
    s.note_change(1050);
    assert_eq!(s.deadline, Some(1100));
    assert_eq!(s.next_step(1060), NextStep::WaitAtMost(40));
    assert_eq!(s.next_step(1100), NextStep::RunLayout);
    assert_eq!(s.deadline, None);
    s.note_change(2000);
    s.layout_done();
    assert_eq!(s.next_step(2500), NextStep::WaitForCommand);
}

#[test]
fn registry_handles() {
    let mut reg: EngineRegistry<String> = EngineRegistry::new();
    let h1 = reg.allocate_handle();
    let h2 = reg.allocate_handle();
    assert_eq!((h1, h2), (1, 2));
    reg.insert(h1, "one".to_string());
    assert_eq!(reg.get_engine(h1), Some(&"one".to_string()));
    assert_eq!(reg.get_engine(h2), None);
    assert_eq!(reg.lookup(0), Err(HandleError::Invalid));
    assert_eq!(reg.lookup(h2), Err(HandleError::NotFound));
    assert_eq!(reg.lookup(h1), Ok(&"one".to_string()));
    assert_eq!(reg.remove(h1), Ok("one".to_string()));
    assert_eq!(reg.remove(h1), Err(HandleError::NotFound));
    assert_eq!(reg.remove(0), Err(HandleError::Invalid));
    assert_eq!(accepted_node_id(0), None);
    assert_eq!(accepted_node_id(3), Some(Id(3)));
}

#[test]
fn platform_names() {
    assert_eq!(BackendType::default(Platform::Windows), Some(BackendType::D3D12));
    assert_eq!(BackendType::default(Platform::MacOs), Some(BackendType::Metal));
    assert_eq!(BackendType::default(Platform::Other), None);
    assert_eq!(BackendType::D3D12.name(), "Direct3D 12");
    assert_eq!(BackendType::Metal.name(), "Metal");
    assert_eq!(sonate_worker::default_library_name(Platform::Windows), "sonate.dll");
    assert_eq!(sonate_worker::default_library_name(Platform::MacOs), "libsonate.dylib");
    assert_eq!(sonate_worker::default_library_name(Platform::Other), "libsonate.so");
    assert_eq!(lolite_worker::default_library_name(Platform::Windows), "lolite.dll");
    assert_eq!(lolite_worker::default_library_name(Platform::Other), "liblolite.so");
}

#[test]
fn font_spec_defaults() {
    let s: Style<f64> = Style::default();
    let f = FontSpec::from_style(&s, None);
    assert_eq!(f, FontSpec { family: "Arial".to_string(), size_px: 12 });
    let mut s2: Style<f64> = Style::default();
    s2.font_family = Some("Mono".to_string());
    assert_eq!(FontSpec::from_style(&s2, Some(20)), FontSpec { family: "Mono".to_string(), size_px: 20 });
}

#[test]
fn small_types() {
    let _ = FlexLayoutEngine::new();
    assert_eq!(WindowMessage::Redraw, WindowMessage::Redraw);
    let e = RunError::UnknownError("x".into());
    assert!(matches!(e, RunError::UnknownError(_)));
    assert!(matches!(RunError::AlreadyRunning, RunError::AlreadyRunning));
}
