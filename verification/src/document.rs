//! The document tree: nodes with text, attributes, children and a parent.
//!
//! Nodes live in an arena and are addressed by their slot. The document maps
//! each id to the slot of the node that was last created under that id. A node
//! that is created again under an id it already had replaces the earlier node in
//! that mapping only: the earlier node keeps its slot, its links and its place
//! in the child lists that hold it, as a shared node outlives a map entry.
use crate::id::Id;
use vstd::hash_map::{HashMapWithView, StringHashMap};
use vstd::prelude::*;

verus! {

broadcast use vstd::std_specs::hash::group_hash_axioms;

/// A document node.
pub struct Node {
    pub id: Id,
    pub text: Option<String>,
    pub attributes: StringHashMap<String>,
    /// Slots of the children, in order.
    pub children: Vec<usize>,
    pub parent: Option<Id>,
}

/// What a node holds.
pub struct NodeView {
    pub id: Id,
    pub text: Option<String>,
    pub attributes: Map<Seq<char>, String>,
    pub children: Seq<usize>,
    pub parent: Option<Id>,
}

impl View for Node {
    type V = NodeView;

    open spec fn view(&self) -> NodeView {
        NodeView {
            id: self.id,
            text: self.text,
            attributes: self.attributes@,
            children: self.children@,
            parent: self.parent,
        }
    }
}

/// A node as `Node::new` makes it.
pub open spec fn fresh_node(id: Id, text: Option<String>) -> NodeView {
    NodeView {
        id,
        text,
        attributes: Map::empty(),
        children: Seq::empty(),
        parent: None,
    }
}

impl Node {
    pub fn new(id: Id, text: Option<String>) -> (r: Self)
        ensures
            r@ == fresh_node(id, text),
    {
        Node { id, text, attributes: StringHashMap::new(), children: Vec::new(), parent: None }
    }

    /// Append the node in slot `child` to the children.
    pub fn add_child(&mut self, child: usize)
        ensures
            final(self)@ == (NodeView { children: old(self)@.children.push(child), ..old(self)@ }),
    {
        self.children.push(child);
    }

    pub fn is_text_node(&self) -> (r: bool)
        ensures
            r == self.text is Some,
    {
        self.text.is_some()
    }
}

/// The error messages of `Document::set_parent`.
pub open spec fn same_node_error() -> &'static str {
    "Parent and child cannot be the same"
}

pub open spec fn child_missing_error() -> &'static str {
    "Child node not found"
}

pub open spec fn parent_missing_error() -> &'static str {
    "Parent node not found"
}

/// A tree of nodes addressed by id.
pub struct Document {
    slots: Vec<Node>,
    index: HashMapWithView<u64, usize>,
    next_id: u64,
}

/// A state of a document: its nodes by slot and the slot each id names.
pub struct DocState {
    pub nodes: Seq<NodeView>,
    pub ids: Map<u64, usize>,
}

/// The structural invariant: the root is slot 0 with id 0, every id maps to
/// a slot that holds a node with that id, every child slot exists.
pub open spec fn doc_wf(d: DocState) -> bool {
    &&& 1 <= d.nodes.len() <= usize::MAX
    &&& d.nodes[0].id == Id(0)
    &&& forall|k: u64|
        #![trigger d.ids[k]]
        d.ids.contains_key(k) ==> {
            &&& (d.ids[k] as int) < d.nodes.len()
            &&& d.nodes[d.ids[k] as int].id == Id(k)
        }
    &&& forall|s: int, j: int|
        #![trigger d.nodes[s].children[j]]
        0 <= s < d.nodes.len() && 0 <= j < d.nodes[s].children.len() ==> (
        d.nodes[s].children[j] as int) < d.nodes.len()
    &&& forall|s: int| 0 <= s < d.nodes.len() ==> #[trigger] d.nodes[s].parent != Some(d.nodes[s].id)
}

/// The node that `id` names, if any.
pub open spec fn node_of(d: DocState, id: Id) -> Option<NodeView> {
    if d.ids.contains_key(id.0) {
        Some(d.nodes[d.ids[id.0] as int])
    } else {
        None
    }
}

/// The document that `Document::new` makes: the root alone.
pub open spec fn initial_state() -> DocState {
    DocState { nodes: seq![fresh_node(Id(0), None)], ids: map![0u64 => 0usize] }
}

/// The state after `create_node(id, text)`: a fresh node in a new slot, and
/// `id` naming it.
pub open spec fn after_create(d: DocState, id: Id, text: Option<String>) -> DocState {
    DocState { nodes: d.nodes.push(fresh_node(id, text)), ids: d.ids.insert(id.0, d.nodes.len() as usize) }
}

/// `children` without the slots whose node has id `id`.
pub open spec fn without_id(nodes: Seq<NodeView>, children: Seq<usize>, id: Id) -> Seq<usize> {
    children.filter(|k: usize| nodes[k as int].id != id)
}

/// The nodes after the child in `child_slot` is taken out of the child list of
/// the node that its parent id names, where that id names a node.
pub open spec fn detached(d: DocState, child_slot: int, child: Id) -> Seq<NodeView> {
    match d.nodes[child_slot].parent {
        Some(p) => if d.ids.contains_key(p.0) {
            let os = d.ids[p.0] as int;
            d.nodes.update(
                os,
                NodeView { children: without_id(d.nodes, d.nodes[os].children, child), ..d.nodes[os] },
            )
        } else {
            d.nodes
        },
        None => d.nodes,
    }
}

/// The state after a successful `set_parent(parent, child)` that moves the
/// child: detached from its old parent, its parent set, appended to the
/// children of the new parent.
pub open spec fn after_reparent(d: DocState, parent: Id, child: Id) -> DocState {
    let cs = d.ids[child.0] as int;
    let ps = d.ids[parent.0] as int;
    let n1 = detached(d, cs, child);
    let n2 = n1.update(cs, NodeView { parent: Some(parent), ..n1[cs] });
    let n3 = n2.update(ps, NodeView { children: n2[ps].children.push(cs as usize), ..n2[ps] });
    DocState { nodes: n3, ids: d.ids }
}

/// What `set_parent(parent, child)` returns, and the state after it.
pub open spec fn set_parent_outcome(d: DocState, parent: Id, child: Id) -> (
    Result<(), &'static str>,
    DocState,
) {
    if parent == child {
        (Err(same_node_error()), d)
    } else if !d.ids.contains_key(child.0) {
        (Err(child_missing_error()), d)
    } else if d.nodes[d.ids[child.0] as int].parent == Some(parent) {
        (Ok(()), d)
    } else if !d.ids.contains_key(parent.0) {
        (Err(parent_missing_error()), d)
    } else {
        (Ok(()), after_reparent(d, parent, child))
    }
}

/// The state after `set_attribute(id, key, value)`.
pub open spec fn after_set_attribute(d: DocState, id: Id, key: Seq<char>, value: String) -> DocState {
    if d.ids.contains_key(id.0) {
        let s = d.ids[id.0] as int;
        DocState {
            nodes: d.nodes.update(
                s,
                NodeView { attributes: d.nodes[s].attributes.insert(key, value), ..d.nodes[s] },
            ),
            ids: d.ids,
        }
    } else {
        d
    }
}

/// The value of attribute `key` of the node that `id` names.
pub open spec fn attribute_of(d: DocState, id: Id, key: Seq<char>) -> Option<String> {
    if d.ids.contains_key(id.0) && d.nodes[d.ids[id.0] as int].attributes.contains_key(key) {
        Some(d.nodes[d.ids[id.0] as int].attributes[key])
    } else {
        None
    }
}

impl Document {
    /// The nodes and the id map.
    pub closed spec fn state(&self) -> DocState {
        DocState { nodes: self.slots@.map_values(|n: Node| n@), ids: self.index@ }
    }

    /// The id that `create_node_autoid` hands out next.
    pub closed spec fn next_auto_id(&self) -> u64 {
        self.next_id
    }

    pub open spec fn wf(&self) -> bool {
        doc_wf(self.state())
    }

    /// A document holding the root node alone.
    pub fn new() -> (r: Self)
        ensures
            r.wf(),
            r.state() == initial_state(),
            r.next_auto_id() == 1,
    {
        let mut slots: Vec<Node> = Vec::new();
        slots.push(Node::new(Id(0), None));
        let mut index: HashMapWithView<u64, usize> = HashMapWithView::new();
        index.insert(0, 0);
        let r = Document { slots, index, next_id: 1 };
        assert(r.state().nodes =~= initial_state().nodes);
        assert(r.state().ids =~= initial_state().ids);
        r
    }
}


impl Document {
    /// Create a node under `id`. If `id` already named a node, it names the
    /// new node from now on.
    pub fn create_node(&mut self, id: Id, text: Option<String>) -> (r: Id)
        requires
            old(self).wf(),
        ensures
            final(self).wf(),
            r == id,
            final(self).state() == after_create(old(self).state(), id, text),
            final(self).next_auto_id() == old(self).next_auto_id(),
    {
        let ghost before = self.state();
        let slot = self.slots.len();
        self.slots.push(Node::new(id, text));
        self.index.insert(id.0, slot);
        proof {
            assert(self.slots@.len() == self.slots.len());
            let after = self.state();
            let expected = after_create(before, id, text);
            assert(after.nodes =~= expected.nodes);
            assert(after.ids =~= expected.ids);
            assert forall|s: int, j: int|
                #![trigger after.nodes[s].children[j]]
                0 <= s < after.nodes.len() && 0 <= j < after.nodes[s].children.len() implies (
            after.nodes[s].children[j] as int) < after.nodes.len() by {
                if s < before.nodes.len() {
                    assert(after.nodes[s] == before.nodes[s]);
                }
            }
        }
        id
    }

    /// Create a node under the next id of the document's own counter.
    pub fn create_node_autoid(&mut self, text: Option<String>) -> (r: Id)
        requires
            old(self).wf(),
            old(self).next_auto_id() < u64::MAX,
        ensures
            final(self).wf(),
            r == Id(old(self).next_auto_id()),
            final(self).next_auto_id() == old(self).next_auto_id() + 1,
            final(self).state() == after_create(old(self).state(), r, text),
    {
        let id = self.unique_id();
        self.create_node(id, text)
    }

    fn unique_id(&mut self) -> (r: Id)
        requires
            old(self).next_auto_id() < u64::MAX,
        ensures
            r == Id(old(self).next_auto_id()),
            final(self).next_auto_id() == old(self).next_auto_id() + 1,
            final(self).state() == old(self).state(),
    {
        let id = Id(self.next_id);
        self.next_id = self.next_id + 1;
        id
    }

    /// The id that `create_node_autoid` hands out next.
    pub fn next_autoid(&self) -> (r: u64)
        ensures
            r == self.next_auto_id(),
    {
        self.next_id
    }

    /// Set the value of attribute `key` on the node that `node_id` names; no
    /// effect when it names none.
    pub fn set_attribute(&mut self, node_id: Id, key: String, value: String)
        requires
            old(self).wf(),
        ensures
            final(self).wf(),
            final(self).state() == after_set_attribute(old(self).state(), node_id, key@, value),
            final(self).next_auto_id() == old(self).next_auto_id(),
    {
        let ghost before = self.state();
        let ghost k = key@;
        let ghost v = value;
        match self.index.get(&node_id.0) {
            Some(slot) => {
                let slot = *slot;
                self.slots[slot].attributes.insert(key, value);
                proof {
                    let after = self.state();
                    let expected = after_set_attribute(before, node_id, k, v);
                    assert(after.nodes =~= expected.nodes);
                    assert forall|s: int, j: int|
                        #![trigger after.nodes[s].children[j]]
                        0 <= s < after.nodes.len() && 0 <= j < after.nodes[s].children.len() implies (
                    after.nodes[s].children[j] as int) < after.nodes.len() by {
                        assert(after.nodes[s].children == before.nodes[s].children);
                    }
                }
            },
            None => {},
        }
    }

    /// The value of attribute `key` on the node that `node_id` names.
    pub fn get_attribute(&self, node_id: Id, key: String) -> (r: Option<String>)
        requires
            self.wf(),
        ensures
            r == attribute_of(self.state(), node_id, key@),
    {
        match self.index.get(&node_id.0) {
            Some(slot) => {
                let slot = *slot;
                assert(self.state().nodes[slot as int] == self.slots@[slot as int]@);
                match self.slots[slot].attributes.get(key.as_str()) {
                    Some(v) => Some(v.clone()),
                    None => None,
                }
            },
            None => None,
        }
    }

    /// The id of the root node.
    pub fn root_id(&self) -> (r: Id)
        ensures
            r == Id(0),
    {
        Id(0)
    }

    /// The root node (slot 0).
    pub fn root_node(&self) -> (r: &Node)
        requires
            self.wf(),
        ensures
            r@ == self.state().nodes[0],
    {
        &self.slots[0]
    }

    /// The node that `id` names, if any.
    pub fn get_node(&self, id: Id) -> (r: Option<&Node>)
        requires
            self.wf(),
        ensures
            match r {
                Some(n) => node_of(self.state(), id) == Some(n@),
                None => node_of(self.state(), id) is None,
            },
    {
        match self.index.get(&id.0) {
            Some(slot) => Some(&self.slots[*slot]),
            None => None,
        }
    }

    /// The slot of the node that `id` names, if any.
    pub fn slot_of(&self, id: Id) -> (r: Option<usize>)
        ensures
            match r {
                Some(s) => self.state().ids.contains_key(id.0) && s == self.state().ids[id.0],
                None => !self.state().ids.contains_key(id.0),
            },
    {
        match self.index.get(&id.0) {
            Some(slot) => Some(*slot),
            None => None,
        }
    }

    /// The number of slots.
    pub fn slot_count(&self) -> (r: usize)
        ensures
            r == self.state().nodes.len(),
    {
        self.slots.len()
    }

    /// The node in `slot`.
    pub fn node_at(&self, slot: usize) -> (r: &Node)
        requires
            slot < self.state().nodes.len(),
        ensures
            r@ == self.state().nodes[slot as int],
    {
        &self.slots[slot]
    }
}


impl Document {
    /// Remove from the children of the node in `slot` every child whose node
    /// has id `id`.
    fn remove_children_with_id(&mut self, slot: usize, id: Id)
        requires
            old(self).wf(),
            slot < old(self).state().nodes.len(),
        ensures
            final(self).wf(),
            final(self).next_auto_id() == old(self).next_auto_id(),
            final(self).state() == (DocState {
                nodes: old(self).state().nodes.update(
                    slot as int,
                    NodeView {
                        children: without_id(
                            old(self).state().nodes,
                            old(self).state().nodes[slot as int].children,
                            id,
                        ),
                        ..old(self).state().nodes[slot as int]
                    },
                ),
                ids: old(self).state().ids,
            }),
    {
        let ghost before = self.state();
        let ghost pred = |k: usize| before.nodes[k as int].id != id;
        let ghost old_children = before.nodes[slot as int].children;
        let mut kept: Vec<usize> = Vec::new();
        let mut i: usize = 0;
        let n = self.slots[slot].children.len();
        while i < n
            invariant
                self.wf(),
                self.state() == before,
                slot < before.nodes.len(),
                old_children == before.nodes[slot as int].children,
                n == old_children.len(),
                i <= n,
                pred == (|k: usize| before.nodes[k as int].id != id),
                kept@ == old_children.take(i as int).filter(pred),
                forall|j: int| 0 <= j < kept@.len() ==> (#[trigger] kept@[j] as int) < before.nodes.len(),
            decreases n - i,
        {
            let c = self.slots[slot].children[i];
            assert(old_children.take(i + 1).drop_last() =~= old_children.take(i as int));
            assert(old_children.take(i + 1).last() == c);
            assert((c as int) < before.nodes.len());
            assert(self.state().nodes[c as int] == self.slots@[c as int]@);
            assert(old_children.take(i + 1).filter(pred) == if pred(c) {
                old_children.take(i as int).filter(pred).push(c)
            } else {
                old_children.take(i as int).filter(pred)
            }) by {
                reveal_with_fuel(Seq::filter, 1);
            }
            assert(pred(c) == (before.nodes[c as int].id != id));
            let keep = self.slots[c].id != id;
            assert(keep == pred(c));
            if keep {
                kept.push(c);
            }
            i += 1;
        }
        assert(old_children.take(n as int) =~= old_children);
        self.slots[slot].children = kept;
        proof {
            let after = self.state();
            let expected_nodes = before.nodes.update(
                slot as int,
                NodeView {
                    children: without_id(before.nodes, before.nodes[slot as int].children, id),
                    ..before.nodes[slot as int]
                },
            );
            assert(pred =~= (|k: usize| before.nodes[k as int].id != id));
            assert(after.nodes =~= expected_nodes);
            assert forall|s: int, j: int|
                #![trigger after.nodes[s].children[j]]
                0 <= s < after.nodes.len() && 0 <= j < after.nodes[s].children.len() implies (
            after.nodes[s].children[j] as int) < after.nodes.len() by {
                if s != slot {
                    assert(after.nodes[s] == before.nodes[s]);
                }
            }
        }
    }

    /// Make `parent_id` the parent of `child_id`: detach the child from the
    /// node its current parent id names, set its parent, and append it to the
    /// children of the new parent. A child that already has this parent is left
    /// as it is.
    pub fn set_parent(&mut self, parent_id: Id, child_id: Id) -> (r: Result<(), &'static str>)
        requires
            old(self).wf(),
        ensures
            final(self).wf(),
            final(self).next_auto_id() == old(self).next_auto_id(),
            (r, final(self).state()) == set_parent_outcome(old(self).state(), parent_id, child_id),
    {
        let ghost before = self.state();
        if parent_id == child_id {
            return Err("Parent and child cannot be the same");
        }
        let child_slot = match self.index.get(&child_id.0) {
            Some(s) => *s,
            None => return Err("Child node not found"),
        };
        assert(before.nodes[child_slot as int] == self.slots@[child_slot as int]@);
        if self.slots[child_slot].parent == Some(parent_id) {
            return Ok(());
        }
        let parent_slot = match self.index.get(&parent_id.0) {
            Some(s) => *s,
            None => return Err("Parent node not found"),
        };
        if let Some(old_parent_id) = self.slots[child_slot].parent {
            if let Some(old_slot) = self.index.get(&old_parent_id.0) {
                let old_slot = *old_slot;
                self.remove_children_with_id(old_slot, child_id);
            }
        }
        let ghost mid = self.state();
        assert(mid.nodes == detached(before, child_slot as int, child_id));
        assert(mid.nodes[child_slot as int] == before.nodes[child_slot as int]) by {
            if let Some(p) = before.nodes[child_slot as int].parent {
                if before.ids.contains_key(p.0) {
                    let os = before.ids[p.0];
                    assert(before.nodes[os as int].id != child_id);
                }
            }
        }
        self.slots[child_slot].parent = Some(parent_id);
        let ghost mid2 = self.state();
        assert(mid2.nodes =~= mid.nodes.update(
            child_slot as int,
            NodeView { parent: Some(parent_id), ..mid.nodes[child_slot as int] },
        ));
        self.slots[parent_slot].children.push(child_slot);
        proof {
            let after = self.state();
            let expected = after_reparent(before, parent_id, child_id);
            assert(after.nodes =~= expected.nodes);
            assert forall|s: int, j: int|
                #![trigger after.nodes[s].children[j]]
                0 <= s < after.nodes.len() && 0 <= j < after.nodes[s].children.len() implies (
            after.nodes[s].children[j] as int) < after.nodes.len() by {
                if s != parent_slot {
                    assert(after.nodes[s].children == mid.nodes[s].children);
                } else if j < mid.nodes[s].children.len() {
                    assert(after.nodes[s].children[j] == mid.nodes[s].children[j]);
                }
            }
        }
        Ok(())
    }
}


/// After a successful `set_parent(parent, child)` the child's parent is
/// `parent`; when the child moved, its slot is the last child of the parent
/// and no longer a child of the node its former parent id names.
pub proof fn lemma_set_parent_links(d: DocState, parent: Id, child: Id)
    requires
        doc_wf(d),
        set_parent_outcome(d, parent, child).0 is Ok,
    ensures
        ({
            let d2 = set_parent_outcome(d, parent, child).1;
            let cs = d.ids[child.0];
            &&& d2.ids == d.ids
            &&& node_of(d2, child) is Some
            &&& node_of(d2, child)->0.parent == Some(parent)
            &&& d.nodes[cs as int].parent != Some(parent) ==> {
                &&& node_of(d2, parent)->0.children.last() == cs
                &&& node_of(d2, parent)->0.children == node_of(d, parent)->0.children.push(cs)
                &&& forall|q: Id|
                    d.nodes[cs as int].parent == Some(q) && d.ids.contains_key(q.0)
                        ==> !(#[trigger] node_of(d2, q))->0.children.contains(cs)
            }
        }),
{
    let cs = d.ids[child.0] as int;
    if d.nodes[cs].parent != Some(parent) {
        let ps = d.ids[parent.0] as int;
        let n1 = detached(d, cs, child);
        assert(n1[ps] == d.nodes[ps]) by {
            if let Some(q) = d.nodes[cs].parent {
                if d.ids.contains_key(q.0) {
                    assert(d.nodes[d.ids[q.0] as int].id == q);
                }
            }
        }
        assert forall|q: Id|
            d.nodes[cs].parent == Some(q) && d.ids.contains_key(q.0) implies !(#[trigger] node_of(
            set_parent_outcome(d, parent, child).1,
            q,
        ))->0.children.contains(cs as usize) by {
            let os = d.ids[q.0] as int;
            let kept = without_id(d.nodes, d.nodes[os].children, child);
            let pred = |k: usize| d.nodes[k as int].id != child;
            broadcast use vstd::seq_lib::group_filter_ensures;
            assert(os != ps);
            assert(os != cs);
            if kept.contains(cs as usize) {
                let j = choose|j: int| 0 <= j < kept.len() && kept[j] == cs as usize;
                assert(pred(kept[j]));
            }
        }
    }
}

/// Child lists and parent links agree among the nodes that the ids name:
/// the node that `b` names stands in the child list of the node that `a`
/// names exactly when its parent is `a`, and no such child list holds a slot
/// twice.
pub open spec fn tree_consistent(d: DocState) -> bool {
    &&& forall|a: u64, b: u64|
        #![trigger d.nodes[d.ids[a] as int].children.contains(d.ids[b])]
        #![trigger d.nodes[d.ids[b] as int].parent, d.ids[a]]
        d.ids.contains_key(a) && d.ids.contains_key(b) ==> (d.nodes[d.ids[a] as int].children.contains(
            d.ids[b],
        ) <==> d.nodes[d.ids[b] as int].parent == Some(Id(a)))
    &&& forall|a: u64|
        d.ids.contains_key(a) ==> #[trigger] d.nodes[d.ids[a] as int].children.no_duplicates()
}

/// Every parent link of a node that an id names is to an id that names a
/// node.
pub open spec fn parents_named(d: DocState) -> bool {
    forall|a: u64|
        d.ids.contains_key(a) ==> (#[trigger] d.nodes[d.ids[a] as int].parent matches Some(p)
            ==> d.ids.contains_key(p.0))
}

proof fn lemma_push_contains(xs: Seq<usize>, x: usize, y: usize)
    ensures
        xs.push(x).contains(y) <==> (xs.contains(y) || x == y),
{
    if xs.contains(y) {
        let j = choose|j: int| 0 <= j < xs.len() && xs[j] == y;
        assert(xs.push(x)[j] == y);
    }
    if x == y {
        assert(xs.push(x)[xs.len() as int] == y);
    }
    if xs.push(x).contains(y) {
        let j = choose|j: int| 0 <= j < xs.push(x).len() && xs.push(x)[j] == y;
        if j < xs.len() {
            assert(xs[j] == y);
        }
    }
}

proof fn lemma_filter_contains_iff(xs: Seq<usize>, p: spec_fn(usize) -> bool, x: usize)
    ensures
        xs.filter(p).contains(x) <==> (xs.contains(x) && p(x)),
{
    broadcast use vstd::seq_lib::group_filter_ensures;

    if xs.filter(p).contains(x) {
        xs.lemma_filter_contains_rev(p, x);
        let j = choose|j: int| 0 <= j < xs.filter(p).len() && xs.filter(p)[j] == x;
        assert(p(xs.filter(p)[j]));
    }
    if xs.contains(x) && p(x) {
        let i = choose|i: int| 0 <= i < xs.len() && xs[i] == x;
        xs.lemma_filter_contains(p, i);
    }
}

proof fn lemma_filter_no_duplicates(xs: Seq<usize>, p: spec_fn(usize) -> bool)
    requires
        xs.no_duplicates(),
    ensures
        xs.filter(p).no_duplicates(),
    decreases xs.len(),
{
    if xs.len() > 0 {
        let rest = xs.drop_last();
        let e = xs.last();
        assert(rest.no_duplicates()) by {
            assert forall|i: int, j: int|
                0 <= i < rest.len() && 0 <= j < rest.len() && i != j implies #[trigger] rest[i]
                    != #[trigger] rest[j] by {
                assert(rest[i] == xs[i] && rest[j] == xs[j]);
            }
        }
        lemma_filter_no_duplicates(rest, p);
        assert(xs == rest.push(e));
        rest.lemma_filter_push(e, p);
        if p(e) {
            let f = rest.filter(p);
            assert(!f.contains(e)) by {
                if f.contains(e) {
                    rest.lemma_filter_contains_rev(p, e);
                    let i = choose|i: int| 0 <= i < rest.len() && rest[i] == e;
                    assert(xs[i] == xs[xs.len() - 1]);
                }
            }
            let fp = f.push(e);
            assert forall|i: int, j: int|
                0 <= i < fp.len() && 0 <= j < fp.len() && i != j implies #[trigger] fp[i]
                    != #[trigger] fp[j] by {
                if i == f.len() {
                    assert(f.contains(f[j]));
                } else if j == f.len() {
                    assert(f.contains(f[i]));
                }
            }
        }
    }
}

/// A successful `set_parent(parent, child)` keeps child lists and parent
/// links in agreement: afterwards the child's parent is `parent`, and among
/// the nodes the ids name, the child stands in the child list of the node
/// with id `parent`, once, and in no other. Nodes other than the child, the
/// new parent and the former parent are unchanged.
pub proof fn lemma_set_parent_keeps_tree(d: DocState, parent: Id, child: Id)
    requires
        doc_wf(d),
        tree_consistent(d),
        set_parent_outcome(d, parent, child).0 is Ok,
    ensures
        ({
            let d2 = set_parent_outcome(d, parent, child).1;
            let cs = d.ids[child.0];
            &&& d2.ids == d.ids
            &&& tree_consistent(d2)
            &&& parents_named(d) ==> parents_named(d2)
            &&& d2.nodes[cs as int].parent == Some(parent)
            &&& forall|a: u64|
                d2.ids.contains_key(a) ==> (#[trigger] d2.nodes[d2.ids[a] as int].children.contains(cs)
                    <==> a == parent.0)
            &&& forall|q: int|
                0 <= q < d2.nodes.len() && q != cs && d.nodes[q].id != parent && d.nodes[cs as int].parent
                    != Some(d.nodes[q].id) ==> #[trigger] d2.nodes[q] == d.nodes[q]
        }),
{
    let cs = d.ids[child.0] as int;
    let len = d.nodes.len();
    assert(d.nodes[cs].id == child);
    if d.nodes[cs].parent == Some(parent) {
        assert forall|a: u64| d.ids.contains_key(a) implies (#[trigger] d.nodes[d.ids[a] as int].children.contains(
            cs as usize,
        ) <==> a == parent.0) by {
            assert(d.nodes[d.ids[child.0] as int].parent == Some(parent));
        }
    } else {
        let ps = d.ids[parent.0] as int;
        let d2 = after_reparent(d, parent, child);
        let os: int = match d.nodes[cs].parent {
            Some(p) => if d.ids.contains_key(p.0) {
                d.ids[p.0] as int
            } else {
                -1
            },
            None => -1,
        };
        assert(d.nodes[ps].id == parent);
        assert(ps != cs);
        assert(os != ps);
        assert(os != cs);
        let kept = without_id(d.nodes, d.nodes[os].children, child);
        let pred = |k: usize| d.nodes[k as int].id != child;
        assert(d2.nodes.len() == len);
        assert forall|q: int| 0 <= q < len implies {
            &&& #[trigger] d2.nodes[q].id == d.nodes[q].id
            &&& q != cs ==> d2.nodes[q].parent == d.nodes[q].parent
            &&& q == cs ==> d2.nodes[q].parent == Some(parent)
            &&& q == ps ==> d2.nodes[q].children == d.nodes[ps].children.push(cs as usize)
            &&& q == os ==> d2.nodes[q].children == kept
            &&& q != ps && q != os ==> d2.nodes[q].children == d.nodes[q].children
            &&& q != ps && q != os && q != cs ==> d2.nodes[q] == d.nodes[q]
        } by {}
        assert(!d.nodes[ps].children.contains(cs as usize)) by {
            assert(d.nodes[d.ids[child.0] as int].parent != Some(Id(parent.0)));
        }
        assert forall|x: usize| (kept.contains(x) <==> (d.nodes[os].children.contains(x)
            && d.nodes[x as int].id != child)) by {
            lemma_filter_contains_iff(d.nodes[os].children, pred, x);
        }
        assert forall|a: u64| d.ids.contains_key(a) implies #[trigger] d2.nodes[d2.ids[a] as int].children.no_duplicates() by {
            let q = d.ids[a] as int;
            assert(d.nodes[q].children.no_duplicates());
            if q == os {
                lemma_filter_no_duplicates(d.nodes[os].children, pred);
            } else if q == ps {
                let c = d.nodes[ps].children;
                let cp = c.push(cs as usize);
                assert forall|i: int, j: int|
                    0 <= i < cp.len() && 0 <= j < cp.len() && i != j implies #[trigger] cp[i]
                        != #[trigger] cp[j] by {
                    if i == c.len() {
                        assert(cp[j] == c[j]);
                        assert(c.contains(c[j]));
                    } else if j == c.len() {
                        assert(cp[i] == c[i]);
                        assert(c.contains(c[i]));
                    } else {
                        assert(cp[i] == c[i] && cp[j] == c[j]);
                    }
                }
            }
        }
        assert forall|a: u64, b: u64| d2.ids.contains_key(a) && d2.ids.contains_key(b) implies (
        #[trigger] d2.nodes[d2.ids[a] as int].children.contains(d2.ids[b])
            <==> d2.nodes[d2.ids[b] as int].parent == Some(Id(a))) by {
            let q = d.ids[a] as int;
            let sl = d.ids[b];
            assert(d.nodes[q].id == Id(a));
            assert(d.nodes[sl as int].id == Id(b));
            assert(d.nodes[q].children.contains(sl) <==> d.nodes[sl as int].parent == Some(Id(a)));
            let ch = d2.nodes[q].children;
            if q == ps {
                lemma_push_contains(d.nodes[ps].children, cs as usize, sl);
            } else if q == os {
                assert(ch == kept);
                assert(d.nodes[os].id == d.nodes[cs].parent->0);
            } else {
                assert(ch == d.nodes[q].children);
                if sl as int == cs {
                    if let Some(p) = d.nodes[cs].parent {
                        if d.ids.contains_key(p.0) {
                            assert(d.nodes[d.ids[p.0] as int].id == p);
                        }
                    }
                }
            }
        }
        assert forall|a: u64| d2.ids.contains_key(a) implies (#[trigger] d2.nodes[d2.ids[a] as int].children.contains(
            cs as usize,
        ) <==> a == parent.0) by {
            assert(d2.nodes[d2.ids[child.0] as int].parent == Some(parent));
            assert(d2.nodes[d2.ids[a] as int].children.contains(d2.ids[child.0]) <==> d2.nodes[d2.ids[child.0] as int].parent == Some(Id(a)));
        }
        if parents_named(d) {
            assert forall|a: u64| d2.ids.contains_key(a) implies (#[trigger] d2.nodes[d2.ids[a] as int].parent matches Some(p)
                ==> d2.ids.contains_key(p.0)) by {
                assert(d.nodes[d.ids[a] as int].parent matches Some(p) ==> d.ids.contains_key(p.0));
            }
        }
    }
}

/// The document that `Document::new` makes has its child lists and parent
/// links in agreement, and `create_node` with an id that names no node yet
/// keeps them so.
pub proof fn lemma_create_keeps_tree(d: DocState, id: Id, text: Option<String>)
    requires
        doc_wf(d),
        tree_consistent(d),
        parents_named(d),
        !d.ids.contains_key(id.0),
    ensures
        tree_consistent(initial_state()),
        parents_named(initial_state()),
        tree_consistent(after_create(d, id, text)),
        parents_named(after_create(d, id, text)),
{
    let d0 = initial_state();
    assert forall|a: u64, b: u64| d0.ids.contains_key(a) && d0.ids.contains_key(b) implies (
    #[trigger] d0.nodes[d0.ids[a] as int].children.contains(d0.ids[b])
        <==> d0.nodes[d0.ids[b] as int].parent == Some(Id(a))) by {
        assert(d0.nodes[0].children.len() == 0);
    }
    let d2 = after_create(d, id, text);
    let n = d.nodes.len();
    assert forall|a: u64, b: u64| d2.ids.contains_key(a) && d2.ids.contains_key(b) implies (
    #[trigger] d2.nodes[d2.ids[a] as int].children.contains(d2.ids[b])
        <==> d2.nodes[d2.ids[b] as int].parent == Some(Id(a))) by {
        if a == id.0 {
            assert(d2.nodes[n as int].children.len() == 0);
            if b != id.0 {
                assert(d.nodes[d.ids[b] as int].parent matches Some(p) ==> d.ids.contains_key(p.0));
            }
        } else if b == id.0 {
            let q = d.ids[a] as int;
            if d.nodes[q].children.contains(n as usize) {
                let j = choose|j: int| 0 <= j < d.nodes[q].children.len() && d.nodes[q].children[j] == n as usize;
                assert((d.nodes[q].children[j] as int) < n);
            }
        } else {
            assert(d.nodes[d.ids[a] as int].children.contains(d.ids[b]) <==> d.nodes[d.ids[b] as int].parent == Some(Id(a)));
        }
    }
    assert forall|a: u64| d2.ids.contains_key(a) implies #[trigger] d2.nodes[d2.ids[a] as int].children.no_duplicates() by {
        if a != id.0 {
            assert(d.nodes[d.ids[a] as int].children.no_duplicates());
        }
    }
    assert forall|a: u64| d2.ids.contains_key(a) implies (#[trigger] d2.nodes[d2.ids[a] as int].parent matches Some(p)
        ==> d2.ids.contains_key(p.0)) by {
        if a != id.0 {
            assert(d.nodes[d.ids[a] as int].parent matches Some(p) ==> d.ids.contains_key(p.0));
        }
    }
}

/// `create_node`, with any id, keeps every parent link naming a node.
pub proof fn lemma_create_keeps_parents_named(d: DocState, id: Id, text: Option<String>)
    requires
        doc_wf(d),
        parents_named(d),
    ensures
        parents_named(after_create(d, id, text)),
{
    let d2 = after_create(d, id, text);
    assert forall|a: u64| d2.ids.contains_key(a) implies (#[trigger] d2.nodes[d2.ids[a] as int].parent matches Some(p)
        ==> d2.ids.contains_key(p.0)) by {
        if a != id.0 {
            assert(d.nodes[d.ids[a] as int].parent matches Some(p) ==> d.ids.contains_key(p.0));
        }
    }
}

/// `set_attribute` changes no child list and no parent link.
pub proof fn lemma_set_attribute_keeps_tree(d: DocState, id: Id, key: Seq<char>, value: String)
    requires
        doc_wf(d),
    ensures
        tree_consistent(d) ==> tree_consistent(after_set_attribute(d, id, key, value)),
        parents_named(d) ==> parents_named(after_set_attribute(d, id, key, value)),
{
    let d2 = after_set_attribute(d, id, key, value);
    assert forall|q: int| 0 <= q < d.nodes.len() implies #[trigger] d2.nodes[q].children == d.nodes[q].children
        && d2.nodes[q].parent == d.nodes[q].parent by {}
    if tree_consistent(d) {
        assert forall|a: u64, b: u64| d2.ids.contains_key(a) && d2.ids.contains_key(b) implies (
        #[trigger] d2.nodes[d2.ids[a] as int].children.contains(d2.ids[b])
            <==> d2.nodes[d2.ids[b] as int].parent == Some(Id(a))) by {
            assert(d.nodes[d.ids[a] as int].children.contains(d.ids[b]) <==> d.nodes[d.ids[b] as int].parent == Some(Id(a)));
            assert(d2.nodes[d.ids[a] as int].children == d.nodes[d.ids[a] as int].children);
            assert(d2.nodes[d.ids[b] as int].parent == d.nodes[d.ids[b] as int].parent);
        }
        assert forall|a: u64| d2.ids.contains_key(a) implies #[trigger] d2.nodes[d2.ids[a] as int].children.no_duplicates() by {
            assert(d.nodes[d.ids[a] as int].children.no_duplicates());
            assert(d2.nodes[d.ids[a] as int].children == d.nodes[d.ids[a] as int].children);
        }
    }
    if parents_named(d) {
        assert forall|a: u64| d2.ids.contains_key(a) implies (#[trigger] d2.nodes[d2.ids[a] as int].parent matches Some(p)
            ==> d2.ids.contains_key(p.0)) by {
            assert(d.nodes[d.ids[a] as int].parent matches Some(p) ==> d.ids.contains_key(p.0));
            assert(d2.nodes[d.ids[a] as int].parent == d.nodes[d.ids[a] as int].parent);
        }
    }
}

/// Calling `set_parent` a second time with the same arguments changes
/// nothing and returns the same result.
pub proof fn lemma_set_parent_idempotent(d: DocState, parent: Id, child: Id)
    requires
        doc_wf(d),
    ensures
        ({
            let (r1, d1) = set_parent_outcome(d, parent, child);
            set_parent_outcome(d1, parent, child) == (r1, d1)
        }),
{
    let (r1, d1) = set_parent_outcome(d, parent, child);
    if r1 is Ok && parent != child && d.ids.contains_key(child.0) && d.nodes[d.ids[child.0] as int].parent
        != Some(parent) {
        lemma_set_parent_links(d, parent, child);
    }
}

/// A value written with `set_attribute` is what `get_attribute` reads back;
/// every other attribute reads as before.
pub proof fn lemma_attribute_read_after_write(
    d: DocState,
    id: Id,
    key: Seq<char>,
    value: String,
    other: Id,
    other_key: Seq<char>,
)
    requires
        doc_wf(d),
    ensures
        d.ids.contains_key(id.0) ==> attribute_of(after_set_attribute(d, id, key, value), id, key)
            == Some(value),
        !d.ids.contains_key(id.0) ==> after_set_attribute(d, id, key, value) == d,
        other != id || other_key != key ==> attribute_of(
            after_set_attribute(d, id, key, value),
            other,
            other_key,
        ) == attribute_of(d, other, other_key),
{
    if d.ids.contains_key(id.0) && d.ids.contains_key(other.0) && other != id {
        assert(d.nodes[d.ids[other.0] as int].id == other);
        assert(d.nodes[d.ids[id.0] as int].id == id);
    }
}

/// `create_node(id, text)` makes `id` name a fresh node and leaves every
/// other id naming the node it named before.
pub proof fn lemma_create_node_fresh(d: DocState, id: Id, text: Option<String>, other: Id)
    requires
        doc_wf(d),
    ensures
        node_of(after_create(d, id, text), id) == Some(fresh_node(id, text)),
        other != id ==> node_of(after_create(d, id, text), other) == node_of(d, other),
{
}

} // verus!
