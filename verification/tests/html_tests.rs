use sonate::engine::{Command, LayoutContext};
use sonate::html::{html_commands, load_html, HtmlElement, HtmlNode};
use sonate::id::Id;

fn element(name: &str, children: Vec<HtmlNode>) -> HtmlNode {
    HtmlNode::Element(HtmlElement {
        name: name.to_string(),
        id: None,
        classes: vec![],
        attributes: vec![],
        children,
    })
}

fn text(t: &str) -> HtmlNode {
    HtmlNode::Text(t.to_string())
}

#[test]
fn elements_are_numbered_in_document_order() {
    let tree = vec![
        element("div", vec![element("p", vec![text("hi")]), element("span", vec![])]),
        element("div", vec![]),
    ];
    let cmds = html_commands(&tree, Id(0)).unwrap();
    assert_eq!(
        cmds,
        vec![
            Command::CreateNode(Id(1), None),
            Command::SetParent(Id(0), Id(1)),
            Command::SetAttribute(Id(1), "tag".to_string(), "div".to_string()),
            Command::CreateNode(Id(2), Some("hi".to_string())),
            Command::SetParent(Id(1), Id(2)),
            Command::SetAttribute(Id(2), "tag".to_string(), "p".to_string()),
            Command::CreateNode(Id(3), None),
            Command::SetParent(Id(1), Id(3)),
            Command::SetAttribute(Id(3), "tag".to_string(), "span".to_string()),
            Command::CreateNode(Id(4), None),
            Command::SetParent(Id(0), Id(4)),
            Command::SetAttribute(Id(4), "tag".to_string(), "div".to_string()),
        ]
    );
}

#[test]
fn attributes_id_and_classes_are_kept() {
    let tree = vec![HtmlNode::Element(HtmlElement {
        name: "div".to_string(),
        id: Some("main".to_string()),
        classes: vec!["a".to_string(), "b".to_string()],
        attributes: vec![
            ("title".to_string(), Some("t".to_string())),
            ("hidden".to_string(), None),
            ("class".to_string(), Some("ignored".to_string())),
        ],
        children: vec![HtmlNode::Comment("c".to_string())],
    })];
    let cmds = html_commands(&tree, Id(0)).unwrap();
    assert_eq!(
        cmds,
        vec![
            Command::CreateNode(Id(1), None),
            Command::SetParent(Id(0), Id(1)),
            Command::SetAttribute(Id(1), "tag".to_string(), "div".to_string()),
            Command::SetAttribute(Id(1), "id".to_string(), "main".to_string()),
            Command::SetAttribute(Id(1), "class".to_string(), "a b".to_string()),
            Command::SetAttribute(Id(1), "title".to_string(), "t".to_string()),
        ]
    );
}

#[test]
fn style_elements_become_stylesheets() {
    let tree = vec![
        element("STYLE", vec![text(".a { width: 1px; }")]),
        element("style", vec![]),
        element("p", vec![text("x"), text("y")]),
    ];
    let cmds = html_commands(&tree, Id(0)).unwrap();
    assert_eq!(
        cmds,
        vec![
            Command::AddStylesheet(".a { width: 1px; }".to_string()),
            Command::CreateNode(Id(1), Some("x".to_string())),
            Command::SetParent(Id(0), Id(1)),
            Command::SetAttribute(Id(1), "tag".to_string(), "p".to_string()),
        ]
    );
}

#[test]
fn top_level_text_and_comments_make_nothing() {
    let tree = vec![text("loose"), HtmlNode::Comment("c".to_string())];
    assert_eq!(html_commands(&tree, Id(0)), Some(vec![]));
}

#[test]
fn parsed_html_loads_into_commands() {
    let cmds = load_html("<div id=\"a\" class=\"x y\"><p>hi</p><style>.x{}</style></div>").unwrap();
    assert_eq!(
        cmds,
        vec![
            Command::CreateNode(Id(1), None),
            Command::SetParent(Id(0), Id(1)),
            Command::SetAttribute(Id(1), "tag".to_string(), "div".to_string()),
            Command::SetAttribute(Id(1), "id".to_string(), "a".to_string()),
            Command::SetAttribute(Id(1), "class".to_string(), "x y".to_string()),
            Command::CreateNode(Id(2), Some("hi".to_string())),
            Command::SetParent(Id(1), Id(2)),
            Command::SetAttribute(Id(2), "tag".to_string(), "p".to_string()),
            Command::AddStylesheet(".x{}".to_string()),
        ]
    );
}

#[test]
fn loaded_commands_apply_without_errors() {
    let html = "<div class=\"a\"><p id=\"x\">one</p><section><span>two</span></section></div><!-- c --><p>three</p>";
    let cmds = load_html(html).unwrap();
    assert!(!cmds.is_empty());
    let mut ctx: LayoutContext<f64> = LayoutContext::new();
    for cmd in cmds {
        assert!(ctx.apply_command(cmd).is_ok());
    }
    assert_eq!(ctx.document.get_attribute(Id(2), "id".to_string()), Some("x".to_string()));
    assert_eq!(ctx.document.get_attribute(Id(1), "class".to_string()), Some("a".to_string()));
    assert_eq!(ctx.document.get_attribute(Id(2), "tag".to_string()), Some("p".to_string()));
    let root = ctx.document.root_node();
    assert_eq!(root.children.len(), 2);
}

#[test]
fn rejected_html_gives_the_parser_message() {
    let html = "<div></div><body></body>";
    let expected = html_parser::Dom::parse(html).unwrap_err().to_string();
    assert_eq!(load_html(html), Err(expected));
}
