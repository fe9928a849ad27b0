//! Loading an HTML document into the engine: which nodes, texts, attributes
//! and style sheets an HTML tree turns into.
//!
//! Each element but `<style>` becomes a node, numbered in document order; a
//! text that is an element's first child becomes that node's text; the
//! element's tag name (as `tag`), its id, its classes joined by spaces and its
//! other valued attributes become attributes; a `<style>` element whose first child is a text hands
//! that text over as a style sheet. Comments and other text children are
//! dropped.
use crate::chars::{eq_ascii_ci, eq_ignore_ascii_case, str_equals};
use crate::document::{set_parent_outcome, DocState};
use crate::engine::{command_outcome, replay, Command, CommandView};
use crate::id::Id;
use vstd::prelude::*;
use vstd::string::StringExecFns;

verus! {

/// A node of a parsed HTML tree.
pub enum HtmlNode {
    Element(HtmlElement),
    Text(String),
    Comment(String),
}

/// An HTML element: its tag name, its `id`, its classes, its other
/// attributes (those without a value hold `None`) and its children.
pub struct HtmlElement {
    pub name: String,
    pub id: Option<String>,
    pub classes: Vec<String>,
    pub attributes: Vec<(String, Option<String>)>,
    pub children: Vec<HtmlNode>,
}

/// The declaration of the parser crate's element type.
#[verifier::external_type_specification]
#[verifier::external_body]
pub struct ExParsedElement(html_parser::Element);

/// A parsed HTML node as plain values, an element's attributes taken as a
/// map.
pub enum HtmlNodeView {
    Element(HtmlElementView),
    Text(Seq<char>),
    Comment(Seq<char>),
}

/// A parsed element as plain values.
pub struct HtmlElementView {
    pub name: Seq<char>,
    pub id: Option<Seq<char>>,
    pub classes: Seq<Seq<char>>,
    pub attributes: Map<Seq<char>, Option<Seq<char>>>,
    pub children: Seq<HtmlNodeView>,
}

/// The attributes of a list by name, later entries winning.
pub open spec fn attributes_map(attrs: Seq<(String, Option<String>)>) -> Map<Seq<char>, Option<Seq<char>>>
    decreases attrs.len(),
{
    if attrs.len() == 0 {
        Map::empty()
    } else {
        let (k, v) = attrs.last();
        attributes_map(attrs.drop_last()).insert(
            k@,
            match v {
                Some(t) => Some(t@),
                None => None,
            },
        )
    }
}

/// `n` holds what `v` describes.
pub open spec fn node_agrees(n: HtmlNode, v: HtmlNodeView) -> bool
    decreases n, 0int,
{
    match n {
        HtmlNode::Element(e) => match v {
            HtmlNodeView::Element(ev) => {
                &&& e.name@ == ev.name
                &&& match e.id {
                    Some(i) => ev.id == Some(i@),
                    None => ev.id is None,
                }
                &&& e.classes@.map_values(|c: String| c@) == ev.classes
                &&& attributes_map(e.attributes@) == ev.attributes
                &&& e.children@.len() == ev.children.len()
                &&& children_agree(e.children@, ev.children, e.children@.len() as int)
            },
            _ => false,
        },
        HtmlNode::Text(t) => v == HtmlNodeView::Text(t@),
        HtmlNode::Comment(c) => v == HtmlNodeView::Comment(c@),
    }
}

/// The first `k` nodes hold what the first `k` views describe.
pub open spec fn children_agree(children: Seq<HtmlNode>, views: Seq<HtmlNodeView>, k: int) -> bool
    decreases children, k,
{
    if k <= 0 {
        true
    } else {
        &&& k <= children.len()
        &&& k <= views.len()
        &&& node_agrees(children[k - 1], views[k - 1])
        &&& children_agree(children, views, k - 1)
    }
}

/// The nodes hold what the views describe.
pub open spec fn nodes_agree(nodes: Seq<HtmlNode>, views: Seq<HtmlNodeView>) -> bool {
    nodes.len() == views.len() && children_agree(nodes, views, nodes.len() as int)
}

/// The top-level nodes that `html_parser::Dom::parse` makes of a text, or
/// `None` when it reports an error.
pub uninterp spec fn html_dom(html: Seq<char>) -> Option<Seq<HtmlNodeView>>;

/// The message of the error that `html_parser::Dom::parse` reports for a
/// text it rejects.
pub uninterp spec fn html_parse_error(html: Seq<char>) -> Seq<char>;

/// `html_parser::Dom::parse`: the top-level nodes of the document, or the
/// message of the parser's error. Claimed: the outcome, the tree with each
/// element's attributes taken as a map, and the error message depend on the
/// text alone (`html_dom`, `html_parse_error`). The order in which an
/// element's attributes come is that of the parser's hash map and is not
/// stated.
#[verifier::external_body]
fn parse_dom(html: &str) -> (r: Result<Vec<HtmlNode>, String>)
    ensures
        match r {
            Ok(nodes) => html_dom(html@) matches Some(views) && nodes_agree(nodes@, views),
            Err(m) => html_dom(html@) is None && m@ == html_parse_error(html@),
        },
{
    let dom = match html_parser::Dom::parse(html) {
        Ok(dom) => dom,
        Err(e) => return Err(e.to_string()),
    };
    Ok(dom.children.iter().map(|n| match n {
        html_parser::Node::Element(e) => HtmlNode::Element(parsed_element(e)),
        html_parser::Node::Text(t) => HtmlNode::Text(t.clone()),
        html_parser::Node::Comment(c) => HtmlNode::Comment(c.clone()),
    }).collect())
}

/// A parsed element carried over field by field, its children likewise.
#[verifier::external_body]
fn parsed_element(e: &html_parser::Element) -> HtmlElement {
    HtmlElement {
        name: e.name.clone(),
        id: e.id.clone(),
        classes: e.classes.clone(),
        attributes: e.attributes.iter().map(|(k, v)| (k.clone(), v.clone())).collect(),
        children: e.children.iter().map(|n| match n {
            html_parser::Node::Element(c) => HtmlNode::Element(parsed_element(c)),
            html_parser::Node::Text(t) => HtmlNode::Text(t.clone()),
            html_parser::Node::Comment(c) => HtmlNode::Comment(c.clone()),
        }).collect(),
    }
}

/// The text of the first child, when that child is a text.
pub open spec fn first_text(children: Seq<HtmlNode>) -> Option<Seq<char>> {
    if children.len() > 0 && children[0] is Text {
        Some(children[0]->Text_0@)
    } else {
        None
    }
}

/// The strings joined with single spaces.
pub open spec fn joined(words: Seq<Seq<char>>) -> Seq<char>
    decreases words.len(),
{
    if words.len() == 0 {
        Seq::empty()
    } else if words.len() == 1 {
        words[0]
    } else {
        joined(words.drop_last()) + seq![' '] + words.last()
    }
}

/// The commands that set the valued attributes other than `id` and `class`.
pub open spec fn attribute_commands(id: Id, attrs: Seq<(String, Option<String>)>) -> Seq<CommandView>
    decreases attrs.len(),
{
    if attrs.len() == 0 {
        Seq::empty()
    } else {
        let (k, v) = attrs.last();
        let rest = attribute_commands(id, attrs.drop_last());
        if k@ == "id"@ || k@ == "class"@ || v is None {
            rest
        } else {
            rest.push(CommandView::SetAttribute(id, k@, v->0@))
        }
    }
}

/// The commands that make the node for element `e` with number `id` under
/// `parent`, and set its attributes: its tag name as `tag`, then its id, its
/// classes and its other valued attributes.
pub open spec fn element_head(e: HtmlElement, parent: Id, id: Id) -> Seq<CommandView> {
    let id_cmd = match e.id {
        Some(v) => seq![CommandView::SetAttribute(id, "id"@, v@)],
        None => Seq::empty(),
    };
    let class_cmd = if e.classes@.len() > 0 {
        seq![CommandView::SetAttribute(id, "class"@, joined(e.classes@.map_values(|c: String| c@)))]
    } else {
        Seq::empty()
    };
    seq![
        CommandView::CreateNode(id, first_text(e.children@)),
        CommandView::SetParent(parent, id),
        CommandView::SetAttribute(id, "tag"@, e.name@),
    ] + id_cmd + class_cmd + attribute_commands(id, e.attributes@)
}

/// The commands for `node` under `parent` when the next free node number is
/// `next`, and the next free number afterwards.
pub open spec fn node_commands(node: HtmlNode, parent: Id, next: int) -> (Seq<CommandView>, int)
    decreases node, 0int,
{
    match node {
        HtmlNode::Element(e) => {
            if eq_ascii_ci(e.name@, "style"@) {
                match first_text(e.children@) {
                    Some(t) => (seq![CommandView::AddStylesheet(t)], next),
                    None => (Seq::empty(), next),
                }
            } else {
                let id = Id(next as u64);
                let (c, n) = children_commands(e.children@, id, next + 1, e.children@.len() as int);
                (element_head(e, parent, id) + c, n)
            }
        },
        _ => (Seq::empty(), next),
    }
}

/// The commands for the first `k` children under `parent`, text children
/// left out, numbering from `next`.
pub open spec fn children_commands(children: Seq<HtmlNode>, parent: Id, next: int, k: int) -> (Seq<CommandView>, int)
    decreases children, k,
{
    if k <= 0 || k > children.len() {
        (Seq::empty(), next)
    } else {
        let (c1, n1) = children_commands(children, parent, next, k - 1);
        if children[k - 1] is Text {
            (c1, n1)
        } else {
            let (c2, n2) = node_commands(children[k - 1], parent, n1);
            (c1 + c2, n2)
        }
    }
}

/// What commands describe, in order.
pub open spec fn command_views(cs: Seq<Command>) -> Seq<CommandView> {
    cs.map_values(|c: Command| c@)
}

/// Numbering never goes backwards.
pub proof fn lemma_numbering_grows(node: HtmlNode, parent: Id, next: int)
    ensures
        node_commands(node, parent, next).1 >= next,
    decreases node, 0int,
{
    match node {
        HtmlNode::Element(e) => {
            if !eq_ascii_ci(e.name@, "style"@) {
                let id = Id(next as u64);
                lemma_children_numbering_grows(e.children@, id, next + 1, e.children@.len() as int);
            }
        },
        _ => {},
    }
}

/// Each child's numbering starts where the previous one's ended.
pub proof fn lemma_children_numbering_grows(children: Seq<HtmlNode>, parent: Id, next: int, k: int)
    ensures
        children_commands(children, parent, next, k).1 >= next,
        0 < k <= children.len() ==> children_commands(children, parent, next, k - 1).1
            <= children_commands(children, parent, next, k).1,
    decreases children, k,
{
    if 0 < k <= children.len() {
        lemma_children_numbering_grows(children, parent, next, k - 1);
        if !(children[k - 1] is Text) {
            let n1 = children_commands(children, parent, next, k - 1).1;
            lemma_numbering_grows(children[k - 1], parent, n1);
        }
    }
}

/// Appends the commands that set the attributes of node `id`.
fn push_attribute_commands(id: Id, attrs: &Vec<(String, Option<String>)>, out: &mut Vec<Command>)
    ensures
        command_views(final(out)@) == command_views(old(out)@) + attribute_commands(id, attrs@),
{
    let ghost start = command_views(out@);
    let mut i: usize = 0;
    while i < attrs.len()
        invariant
            i <= attrs.len(),
            command_views(out@) == start + attribute_commands(id, attrs@.take(i as int)),
        decreases attrs.len() - i,
    {
        assert(attrs@.take(i + 1).drop_last() =~= attrs@.take(i as int));
        let (k, v) = &attrs[i];
        proof {
            reveal_strlit("id");
            reveal_strlit("class");
        }
        if !str_equals(k.as_str(), "id") && !str_equals(k.as_str(), "class") {
            match v {
                Some(value) => {
                    let ghost before = out@;
                    out.push(Command::SetAttribute(id, k.clone(), value.clone()));
                    assert(command_views(out@) =~= command_views(before).push(out@.last()@));
                },
                None => {},
            }
        }
        i += 1;
    }
    assert(attrs@.take(attrs.len() as int) =~= attrs@);
}

/// The classes joined with single spaces.
fn join_classes(classes: &Vec<String>) -> (r: String)
    ensures
        r@ == joined(classes@.map_values(|c: String| c@)),
{
    let ghost all = classes@.map_values(|c: String| c@);
    let mut r = String::new();
    let mut i: usize = 0;
    while i < classes.len()
        invariant
            i <= classes.len(),
            all == classes@.map_values(|c: String| c@),
            r@ == joined(all.take(i as int)),
        decreases classes.len() - i,
    {
        assert(all.take(i + 1).drop_last() =~= all.take(i as int));
        if i > 0 {
            r.append(" ");
            proof {
                reveal_strlit(" ");
            }
        } else {
            assert(all.take(0) =~= Seq::<Seq<char>>::empty());
        }
        r.append(classes[i].as_str());
        i += 1;
    }
    assert(all.take(classes.len() as int) =~= all);
    r
}

/// The text of the first child, when that child is a text.
fn first_child_text(children: &Vec<HtmlNode>) -> (r: Option<String>)
    ensures
        match r {
            Some(t) => first_text(children@) == Some(t@),
            None => first_text(children@) is None,
        },
{
    if children.len() > 0 {
        match &children[0] {
            HtmlNode::Text(t) => Some(t.clone()),
            _ => None,
        }
    } else {
        None
    }
}

/// Appends the commands for `node` under `parent`, numbering from
/// `*next_id`; `*next_id` ends at the next free number. Returns `false`,
/// with the output unspecified, when the numbering would run past `u64::MAX`.
pub fn push_node_commands(node: &HtmlNode, parent: Id, next_id: &mut u64, out: &mut Vec<Command>) -> (ok: bool)
    ensures
        ok == (node_commands(*node, parent, *old(next_id) as int).1 <= u64::MAX),
        ok ==> command_views(final(out)@) == command_views(old(out)@) + node_commands(
            *node,
            parent,
            *old(next_id) as int,
        ).0,
        ok ==> *final(next_id) as int == node_commands(*node, parent, *old(next_id) as int).1,
    decreases node, 0int,
{
    proof {
        reveal_strlit("style");
    }
    match node {
        HtmlNode::Element(e) => {
            if eq_ignore_ascii_case(e.name.as_str(), "style") {
                match first_child_text(&e.children) {
                    Some(t) => {
                        let ghost before = out@;
                        out.push(Command::AddStylesheet(t));
                        assert(command_views(out@) =~= command_views(before).push(out@.last()@));
                    },
                    None => {},
                }
                return true;
            }
            let id = Id(*next_id);
            proof {
                lemma_children_numbering_grows(
                    e.children@,
                    id,
                    *old(next_id) + 1,
                    e.children@.len() as int,
                );
            }
            if *next_id == u64::MAX {
                return false;
            }
            *next_id = *next_id + 1;
            let ghost start = command_views(out@);
            proof {
                reveal_strlit("id");
                reveal_strlit("class");
            }
            let ghost id_cmd = if e.id is Some {
                seq![CommandView::SetAttribute(id, "id"@, e.id->0@)]
            } else {
                Seq::<CommandView>::empty()
            };
            let ghost class_cmd = if e.classes@.len() > 0 {
                seq![CommandView::SetAttribute(id, "class"@, joined(e.classes@.map_values(|c: String| c@)))]
            } else {
                Seq::<CommandView>::empty()
            };
            let text = first_child_text(&e.children);
            out.push(Command::CreateNode(id, text));
            out.push(Command::SetParent(parent, id));
            proof {
                reveal_strlit("tag");
            }
            out.push(Command::SetAttribute(id, "tag".to_string(), e.name.clone()));
            let ghost made = seq![
                CommandView::CreateNode(id, first_text(e.children@)),
                CommandView::SetParent(parent, id),
                CommandView::SetAttribute(id, "tag"@, e.name@),
            ];
            assert(command_views(out@) =~= start + made);
            match &e.id {
                Some(v) => {
                    out.push(Command::SetAttribute(id, "id".to_string(), v.clone()));
                },
                None => {},
            }
            assert(command_views(out@) =~= start + made + id_cmd);
            if e.classes.len() > 0 {
                let joined_classes = join_classes(&e.classes);
                out.push(Command::SetAttribute(id, "class".to_string(), joined_classes));
            }
            assert(command_views(out@) =~= start + made + id_cmd + class_cmd);
            push_attribute_commands(id, &e.attributes, out);
            assert(command_views(out@) =~= start + element_head(*e, parent, id));
            push_children_commands(&e.children, id, next_id, out)
        },
        _ => true,
    }
}

/// Appends the commands for the children other than texts, in order;
/// `false` when the numbering would run past `u64::MAX`.
fn push_children_commands(children: &Vec<HtmlNode>, parent: Id, next_id: &mut u64, out: &mut Vec<Command>) -> (ok: bool)
    ensures
        ok == (children_commands(children@, parent, *old(next_id) as int, children@.len() as int).1
            <= u64::MAX),
        ok ==> command_views(final(out)@) == command_views(old(out)@) + children_commands(
            children@,
            parent,
            *old(next_id) as int,
            children@.len() as int,
        ).0,
        ok ==> *final(next_id) as int == children_commands(
            children@,
            parent,
            *old(next_id) as int,
            children@.len() as int,
        ).1,
    decreases children@, 1int,
{
    let ghost start = command_views(out@);
    let ghost first = *old(next_id) as int;
    let ghost total = children_commands(children@, parent, first, children@.len() as int).1;
    let mut i: usize = 0;
    while i < children.len()
        invariant
            i <= children.len(),
            first == *old(next_id) as int,
            total == children_commands(children@, parent, first, children@.len() as int).1,
            children_commands(children@, parent, first, i as int).1 <= u64::MAX,
            command_views(out@) == start + children_commands(children@, parent, first, i as int).0,
            *next_id as int == children_commands(children@, parent, first, i as int).1,
        decreases children.len() - i,
    {
        proof {
            lemma_children_upto(children@, parent, first, i + 1, children@.len() as int);
        }
        let child = &children[i];
        match child {
            HtmlNode::Text(_) => {},
            _ => {
                proof {
                    assert(decreases_to!(children@ => children@[i as int]));
                }
                if !push_node_commands(child, parent, next_id, out) {
                    assert(children_commands(children@, parent, first, i + 1).1 > u64::MAX);
                    return false;
                }
            },
        }
        i += 1;
    }
    true
}

/// The commands that load the top-level nodes of a document under `root`,
/// numbering from 1; `None` when the numbering would run past `u64::MAX`.
pub fn html_commands(nodes: &Vec<HtmlNode>, root: Id) -> (r: Option<Vec<Command>>)
    ensures
        r is Some <==> children_commands(nodes@, root, 1, nodes@.len() as int).1 <= u64::MAX,
        r is Some ==> command_views(r->0@) == children_commands(nodes@, root, 1, nodes@.len() as int).0,
        r is Some ==> commands_in_order(command_views(r->0@), set![root]),
{
    proof {
        lemma_children_commands_in_order(nodes@, root, 1, nodes@.len() as int);
    }
    let mut out: Vec<Command> = Vec::new();
    let mut next_id: u64 = 1;
    if push_children_commands(nodes, root, &mut next_id, &mut out) {
        assert(command_views(out@) =~= Seq::empty() + children_commands(nodes@, root, 1, nodes@.len() as int).0);
        Some(out)
    } else {
        None
    }
}

/// The next free node number after the view `v` is numbered from `next`.
pub open spec fn view_numbering(v: HtmlNodeView, next: int) -> int
    decreases v, 0int,
{
    match v {
        HtmlNodeView::Element(ev) => if eq_ascii_ci(ev.name, "style"@) {
            next
        } else {
            children_view_numbering(ev.children, next + 1, ev.children.len() as int)
        },
        _ => next,
    }
}

/// The next free node number after the first `k` views are numbered from
/// `next`.
pub open spec fn children_view_numbering(views: Seq<HtmlNodeView>, next: int, k: int) -> int
    decreases views, k,
{
    if k <= 0 || k > views.len() {
        next
    } else {
        let n1 = children_view_numbering(views, next, k - 1);
        if views[k - 1] is Text {
            n1
        } else {
            view_numbering(views[k - 1], n1)
        }
    }
}

/// Numbering depends on what the nodes describe alone.
proof fn lemma_numbering_by_view(n: HtmlNode, v: HtmlNodeView, parent: Id, next: int)
    requires
        node_agrees(n, v),
    ensures
        node_commands(n, parent, next).1 == view_numbering(v, next),
    decreases n, 0int,
{
    match n {
        HtmlNode::Element(e) => {
            let ev = v->Element_0;
            lemma_children_numbering_by_view(
                e.children@,
                ev.children,
                Id(next as u64),
                next + 1,
                e.children@.len() as int,
            );
        },
        _ => {},
    }
}

proof fn lemma_children_numbering_by_view(
    children: Seq<HtmlNode>,
    views: Seq<HtmlNodeView>,
    parent: Id,
    next: int,
    k: int,
)
    requires
        children.len() == views.len(),
        children_agree(children, views, k),
    ensures
        children_commands(children, parent, next, k).1 == children_view_numbering(views, next, k),
    decreases children, k,
{
    if 0 < k <= children.len() {
        lemma_children_numbering_by_view(children, views, parent, next, k - 1);
        let n1 = children_commands(children, parent, next, k - 1).1;
        lemma_numbering_by_view(children[k - 1], views[k - 1], parent, n1);
    }
}

/// The message when a document has more elements than node numbers.
pub open spec fn too_many_elements_error() -> Seq<char> {
    "Too many elements"@
}

/// Parse an HTML document and turn it into the commands that load it under
/// the root node (id 0): the commands of `html_commands` for the nodes the
/// parser makes of `html`, the parser's message (`html_parse_error`) when
/// the text does not parse, or `too_many_elements_error` when the numbering
/// would overflow.
pub fn load_html(html: &str) -> (r: Result<Vec<Command>, String>)
    ensures
        r is Ok <==> (html_dom(html@) matches Some(views) && children_view_numbering(
            views,
            1,
            views.len() as int,
        ) <= u64::MAX),
        r matches Ok(cmds) ==> exists|nodes: Seq<HtmlNode>|
            #[trigger] nodes_agree(nodes, html_dom(html@)->0) && command_views(cmds@)
                == children_commands(nodes, Id(0), 1, nodes.len() as int).0,
        r matches Err(m) ==> m@ == if html_dom(html@) is None {
            html_parse_error(html@)
        } else {
            too_many_elements_error()
        },
{
    match parse_dom(html) {
        Ok(nodes) => {
            proof {
                let views = html_dom(html@)->0;
                lemma_children_numbering_by_view(nodes@, views, Id(0), 1, nodes@.len() as int);
            }
            match html_commands(&nodes, Id(0)) {
                Some(cmds) => Ok(cmds),
                None => {
                    proof {
                        reveal_strlit("Too many elements");
                    }
                    Err("Too many elements".to_string())
                },
            }
        },
        Err(message) => Err(message),
    }
}

/// The numbering after the first `j` children is no further than after the
/// first `k`, for `j <= k`.
proof fn lemma_children_upto(children: Seq<HtmlNode>, parent: Id, next: int, j: int, k: int)
    requires
        0 <= j <= k <= children.len(),
    ensures
        children_commands(children, parent, next, j).1 <= children_commands(children, parent, next, k).1,
    decreases k - j,
{
    if j < k {
        lemma_children_upto(children, parent, next, j, k - 1);
        lemma_children_numbering_grows(children, parent, next, k);
    }
}

/// The node that a command creates, if it creates one.
pub open spec fn created_id(c: CommandView) -> Option<Id> {
    match c {
        CommandView::CreateNode(id, _) => Some(id),
        _ => None,
    }
}

/// Whether some command of `cmds` creates the node `id`.
pub open spec fn creates(cmds: Seq<CommandView>, id: Id) -> bool {
    exists|j: int| 0 <= j < cmds.len() && #[trigger] created_id(cmds[j]) == Some(id)
}

/// Command `i` names only nodes created before it, and attaches a node only
/// under one of `parents` or under a node created before it.
pub open spec fn command_in_order(cmds: Seq<CommandView>, i: int, parents: Set<Id>) -> bool {
    match cmds[i] {
        CommandView::SetParent(p, c) => creates(cmds.take(i), c) && (parents.contains(p) || creates(
            cmds.take(i),
            p,
        )),
        CommandView::SetAttribute(id, _, _) => creates(cmds.take(i), id),
        _ => true,
    }
}

/// Every command of `cmds` is in order.
pub open spec fn commands_in_order(cmds: Seq<CommandView>, parents: Set<Id>) -> bool {
    forall|i: int| 0 <= i < cmds.len() ==> #[trigger] command_in_order(cmds, i, parents)
}

proof fn lemma_creates_prefix(a: Seq<CommandView>, b: Seq<CommandView>, k: int, id: Id)
    requires
        0 <= k <= b.len(),
        creates(a, id) || creates(b.take(k), id),
    ensures
        creates((a + b).take(a.len() + k), id),
{
    let t = (a + b).take(a.len() + k);
    if creates(a, id) {
        let j = choose|j: int| 0 <= j < a.len() && #[trigger] created_id(a[j]) == Some(id);
        assert(t[j] == a[j]);
        assert(created_id(t[j]) == Some(id));
    } else {
        let j = choose|j: int| 0 <= j < k && #[trigger] created_id(b.take(k)[j]) == Some(id);
        assert(t[a.len() + j] == b[j]);
        assert(created_id(t[a.len() + j]) == Some(id));
    }
}

/// Commands in order stay in order after commands that create every parent
/// they may use.
proof fn lemma_in_order_concat(a: Seq<CommandView>, b: Seq<CommandView>, pa: Set<Id>, pb: Set<Id>)
    requires
        commands_in_order(a, pa),
        commands_in_order(b, pb),
        forall|p: Id| #[trigger] pb.contains(p) ==> pa.contains(p) || creates(a, p),
    ensures
        commands_in_order(a + b, pa),
{
    let ab = a + b;
    assert forall|i: int| 0 <= i < ab.len() implies #[trigger] command_in_order(ab, i, pa) by {
        if i < a.len() {
            assert(ab.take(i) =~= a.take(i));
            assert(ab[i] == a[i]);
            assert(command_in_order(a, i, pa));
        } else {
            let k = i - a.len();
            assert(ab[i] == b[k]);
            assert(command_in_order(b, k, pb));
            match b[k] {
                CommandView::SetParent(p, c) => {
                    lemma_creates_prefix(a, b, k, c);
                    if pb.contains(p) {
                        if !pa.contains(p) {
                            lemma_creates_prefix(a, b, k, p);
                        }
                    } else {
                        lemma_creates_prefix(a, b, k, p);
                    }
                },
                CommandView::SetAttribute(id, _, _) => {
                    lemma_creates_prefix(a, b, k, id);
                },
                _ => {},
            }
        }
    }
}

proof fn lemma_attribute_commands_target(id: Id, attrs: Seq<(String, Option<String>)>)
    ensures
        forall|i: int|
            0 <= i < attribute_commands(id, attrs).len() ==> ((#[trigger] attribute_commands(id, attrs)[i]) matches CommandView::SetAttribute(x, _, _) && x == id),
    decreases attrs.len(),
{
    if attrs.len() > 0 {
        lemma_attribute_commands_target(id, attrs.drop_last());
    }
}

proof fn lemma_element_head_in_order(e: HtmlElement, parent: Id, id: Id)
    ensures
        commands_in_order(element_head(e, parent, id), set![parent]),
        creates(element_head(e, parent, id), id),
{
    let h = element_head(e, parent, id);
    lemma_attribute_commands_target(id, e.attributes@);
    assert(created_id(h[0]) == Some(id));
    assert forall|i: int| 0 <= i < h.len() implies #[trigger] command_in_order(h, i, set![parent]) by {
        if i >= 1 {
            assert(h.take(i)[0] == h[0]);
            assert(created_id(h.take(i)[0]) == Some(id));
        }
        if i >= 3 {
            let id_cmd = match e.id {
                Some(v) => seq![CommandView::SetAttribute(id, "id"@, v@)],
                None => Seq::<CommandView>::empty(),
            };
            let class_cmd = if e.classes@.len() > 0 {
                seq![CommandView::SetAttribute(id, "class"@, joined(e.classes@.map_values(|c: String| c@)))]
            } else {
                Seq::<CommandView>::empty()
            };
            let attrs = attribute_commands(id, e.attributes@);
            let k = i - 3 - id_cmd.len() - class_cmd.len();
            if k >= 0 {
                assert(h[i] == attrs[k]);
            }
        }
    }
}

/// The commands for a node name only nodes created before them, and attach
/// nodes only under `parent` or under nodes they created before.
pub proof fn lemma_node_commands_in_order(node: HtmlNode, parent: Id, next: int)
    ensures
        commands_in_order(node_commands(node, parent, next).0, set![parent]),
    decreases node, 0int,
{
    match node {
        HtmlNode::Element(e) => {
            if !eq_ascii_ci(e.name@, "style"@) {
                let id = Id(next as u64);
                let len = e.children@.len() as int;
                lemma_children_commands_in_order(e.children@, id, next + 1, len);
                lemma_element_head_in_order(e, parent, id);
                lemma_in_order_concat(
                    element_head(e, parent, id),
                    children_commands(e.children@, id, next + 1, len).0,
                    set![parent],
                    set![id],
                );
            }
        },
        _ => {},
    }
}

/// The commands for the first `k` children are in order under `parent`.
pub proof fn lemma_children_commands_in_order(children: Seq<HtmlNode>, parent: Id, next: int, k: int)
    ensures
        commands_in_order(children_commands(children, parent, next, k).0, set![parent]),
    decreases children, k,
{
    if 0 < k <= children.len() {
        lemma_children_commands_in_order(children, parent, next, k - 1);
        if !(children[k - 1] is Text) {
            let (c1, n1) = children_commands(children, parent, next, k - 1);
            lemma_node_commands_in_order(children[k - 1], parent, n1);
            lemma_in_order_concat(c1, node_commands(children[k - 1], parent, n1).0, set![parent], set![parent]);
        }
    }
}

/// An attachment puts a node under a node with a smaller number.
pub open spec fn attaches_downward(c: CommandView) -> bool {
    match c {
        CommandView::SetParent(p, ch) => p.0 < ch.0,
        _ => true,
    }
}

/// Every attachment in `cmds` puts a node under a node with a smaller number.
pub open spec fn all_attach_downward(cmds: Seq<CommandView>) -> bool {
    forall|i: int| 0 <= i < cmds.len() ==> #[trigger] attaches_downward(cmds[i])
}

proof fn lemma_attach_downward_concat(a: Seq<CommandView>, b: Seq<CommandView>)
    requires
        all_attach_downward(a),
        all_attach_downward(b),
    ensures
        all_attach_downward(a + b),
{
    assert forall|i: int| 0 <= i < (a + b).len() implies #[trigger] attaches_downward((a + b)[i]) by {
        if i < a.len() {
            assert((a + b)[i] == a[i]);
        } else {
            assert((a + b)[i] == b[i - a.len()]);
        }
    }
}

/// A node's commands attach nodes only under nodes with smaller numbers,
/// when `parent` is numbered below `next`.
proof fn lemma_node_attaches_downward(node: HtmlNode, parent: Id, next: int)
    requires
        parent.0 < next,
        node_commands(node, parent, next).1 <= u64::MAX,
    ensures
        all_attach_downward(node_commands(node, parent, next).0),
    decreases node, 0int,
{
    match node {
        HtmlNode::Element(e) => {
            if !eq_ascii_ci(e.name@, "style"@) {
                let id = Id(next as u64);
                let len = e.children@.len() as int;
                lemma_children_numbering_grows(e.children@, id, next + 1, len);
                assert(id.0 == next);
                lemma_children_attach_downward(e.children@, id, next + 1, len);
                let h = element_head(e, parent, id);
                lemma_attribute_commands_target(id, e.attributes@);
                assert forall|i: int| 0 <= i < h.len() implies #[trigger] attaches_downward(h[i]) by {
                    if i >= 3 {
                        let id_cmd = match e.id {
                            Some(v) => seq![CommandView::SetAttribute(id, "id"@, v@)],
                            None => Seq::<CommandView>::empty(),
                        };
                        let class_cmd = if e.classes@.len() > 0 {
                            seq![CommandView::SetAttribute(id, "class"@, joined(e.classes@.map_values(|c: String| c@)))]
                        } else {
                            Seq::<CommandView>::empty()
                        };
                        let k = i - 3 - id_cmd.len() - class_cmd.len();
                        if k >= 0 {
                            assert(h[i] == attribute_commands(id, e.attributes@)[k]);
                        }
                    }
                }
                lemma_attach_downward_concat(h, children_commands(e.children@, id, next + 1, len).0);
            }
        },
        _ => {},
    }
}

proof fn lemma_children_attach_downward(children: Seq<HtmlNode>, parent: Id, next: int, k: int)
    requires
        parent.0 < next,
        children_commands(children, parent, next, k).1 <= u64::MAX,
    ensures
        all_attach_downward(children_commands(children, parent, next, k).0),
    decreases children, k,
{
    if 0 < k <= children.len() {
        lemma_children_numbering_grows(children, parent, next, k);
        lemma_children_numbering_grows(children, parent, next, k - 1);
        lemma_children_attach_downward(children, parent, next, k - 1);
        if !(children[k - 1] is Text) {
            let (c1, n1) = children_commands(children, parent, next, k - 1);
            lemma_node_attaches_downward(children[k - 1], parent, n1);
            lemma_attach_downward_concat(c1, node_commands(children[k - 1], parent, n1).0);
        }
    }
}

proof fn lemma_creates_push(a: Seq<CommandView>, c: CommandView, id: Id)
    ensures
        creates(a.push(c), id) <==> (creates(a, id) || created_id(c) == Some(id)),
{
    if creates(a, id) {
        let j = choose|j: int| 0 <= j < a.len() && #[trigger] created_id(a[j]) == Some(id);
        assert(a.push(c)[j] == a[j]);
    }
    if created_id(c) == Some(id) {
        assert(a.push(c)[a.len() as int] == c);
    }
    if creates(a.push(c), id) {
        let j = choose|j: int| 0 <= j < a.push(c).len() && #[trigger] created_id(a.push(c)[j]) == Some(id);
        if j < a.len() {
            assert(a.push(c)[j] == a[j]);
        }
    }
}

/// Replaying a prefix of commands that are in order succeeds, keeps the
/// root, and leaves every node the prefix created in the document.
proof fn lemma_replay_prefix(d: DocState, cmds: Seq<Command>, root: Id, j: int)
    requires
        0 <= j <= cmds.len(),
        d.ids.contains_key(root.0),
        commands_in_order(command_views(cmds), set![root]),
        all_attach_downward(command_views(cmds)),
    ensures
        replay(d, cmds.take(j)) is Ok,
        replay(d, cmds.take(j))->Ok_0.ids.contains_key(root.0),
        forall|x: Id|
            #[trigger] creates(command_views(cmds).take(j), x) ==> replay(d, cmds.take(j))->Ok_0.ids.contains_key(x.0),
    decreases j,
{
    let views = command_views(cmds);
    if j == 0 {
        assert(cmds.take(0) =~= Seq::<Command>::empty());
        assert forall|x: Id| #[trigger] creates(views.take(0), x) implies false by {
            let k = choose|k: int| 0 <= k < views.take(0).len() && #[trigger] created_id(views.take(0)[k]) == Some(x);
        }
    } else {
        lemma_replay_prefix(d, cmds, root, j - 1);
        let i = j - 1;
        assert(cmds.take(j).drop_last() =~= cmds.take(i));
        assert(cmds.take(j).last() == cmds[i]);
        assert(views.take(j) =~= views.take(i).push(views[i]));
        assert(views[i] == cmds[i]@);
        let di = replay(d, cmds.take(i))->Ok_0;
        assert(command_in_order(views, i, set![root]));
        assert(attaches_downward(views[i]));
        assert(views.take(i) == command_views(cmds).take(i));
        match cmds[i] {
            Command::SetParent(p, c) => {
                assert(creates(views.take(i), c));
                assert(di.ids.contains_key(c.0));
                if !set![root].contains(p) {
                    assert(creates(views.take(i), p));
                }
                assert(di.ids.contains_key(p.0));
                assert(p != c);
                let (r, d2) = set_parent_outcome(di, p, c);
                assert(r is Ok);
                assert(d2.ids == di.ids);
            },
            _ => {},
        }
        assert forall|x: Id| #[trigger] creates(views.take(j), x) implies replay(d, cmds.take(j))->Ok_0.ids.contains_key(x.0) by {
            lemma_creates_push(views.take(i), views[i], x);
        }
    }
}

/// Loading the commands of an HTML document under the root (id 0) into any
/// document that holds the root never fails: each node is created before it
/// is attached or given attributes, and is attached under the root or under
/// a node created before it, which is never the node itself.
pub proof fn lemma_loading_never_fails(d: DocState, nodes: Seq<HtmlNode>, cmds: Seq<Command>)
    requires
        d.ids.contains_key(0),
        children_commands(nodes, Id(0), 1, nodes.len() as int).1 <= u64::MAX,
        command_views(cmds) == children_commands(nodes, Id(0), 1, nodes.len() as int).0,
    ensures
        replay(d, cmds) is Ok,
{
    lemma_children_commands_in_order(nodes, Id(0), 1, nodes.len() as int);
    lemma_children_attach_downward(nodes, Id(0), 1, nodes.len() as int);
    lemma_replay_prefix(d, cmds, Id(0), cmds.len() as int);
    assert(cmds.take(cmds.len() as int) =~= cmds);
}

} // verus!
