//! Hit testing over a render tree: which elements lie under a point.
//!
//! Whether a node's bounds contain the point is measured by the caller and
//! recorded in the tree; the search itself is decided here. Later children are
//! painted over earlier ones, so they are searched first.
use crate::id::Id;
use vstd::prelude::*;

verus! {

/// A render-tree node, with whether its bounds contain the point being tested.
pub struct HitNode {
    pub id: Id,
    pub hit: bool,
    pub children: Vec<HitNode>,
}

/// The path from the topmost node under the point up to `n`: `None` when `n`
/// is not under the point; otherwise the path found in the last child that
/// has one, followed by `n`, or `n` alone.
pub open spec fn hit_path(n: HitNode) -> Option<Seq<Id>>
    decreases n, 0int,
{
    if !n.hit {
        None
    } else {
        match last_child_path(n.children@, n.children@.len() as int) {
            Some(p) => Some(p.push(n.id)),
            None => Some(seq![n.id]),
        }
    }
}

/// The path found in the last of the first `k` children that has one.
pub open spec fn last_child_path(children: Seq<HitNode>, k: int) -> Option<Seq<Id>>
    decreases children, k,
{
    if k <= 0 || k > children.len() {
        None
    } else {
        match hit_path(children[k - 1]) {
            Some(p) => Some(p),
            None => last_child_path(children, k - 1),
        }
    }
}

/// The topmost node under the point within `n`: the topmost one in the last
/// child that has one, else `n` itself when it is under the point.
pub open spec fn topmost_hit(n: HitNode) -> Option<Id>
    decreases n, 0int,
{
    if !n.hit {
        None
    } else {
        match last_child_topmost(n.children@, n.children@.len() as int) {
            Some(t) => Some(t),
            None => Some(n.id),
        }
    }
}

/// The topmost node found in the last of the first `k` children that has one.
pub open spec fn last_child_topmost(children: Seq<HitNode>, k: int) -> Option<Id>
    decreases children, k,
{
    if k <= 0 || k > children.len() {
        None
    } else {
        match topmost_hit(children[k - 1]) {
            Some(t) => Some(t),
            None => last_child_topmost(children, k - 1),
        }
    }
}

impl HitNode {
    /// The topmost node under the point, if this node is under it.
    pub fn find_topmost_element_at_position(&self) -> (r: Option<Id>)
        ensures
            r == topmost_hit(*self),
        decreases self,
    {
        if !self.hit {
            return None;
        }
        let n = self.children.len();
        let mut k: usize = n;
        while k > 0
            invariant
                k <= n,
                n == self.children@.len(),
                self.hit,
                last_child_topmost(self.children@, n as int) == last_child_topmost(self.children@, k as int),
            decreases k,
        {
            let child = &self.children[k - 1];
            proof {
                assert(decreases_to!(*self => self.children));
                assert(decreases_to!(self.children => self.children@));
                assert(decreases_to!(self.children@ => self.children@[k - 1]));
            }
            match child.find_topmost_element_at_position() {
                Some(id) => {
                    return Some(id);
                },
                None => {},
            }
            k -= 1;
        }
        Some(self.id)
    }

    /// The path from the topmost node under the point up to this node, if
    /// this node is under the point.
    pub fn find_path_at_position(&self) -> (r: Option<Vec<Id>>)
        ensures
            match r {
                Some(p) => hit_path(*self) == Some(p@),
                None => hit_path(*self) is None,
            },
        decreases self,
    {
        if !self.hit {
            return None;
        }
        let n = self.children.len();
        let mut k: usize = n;
        while k > 0
            invariant
                k <= n,
                n == self.children@.len(),
                self.hit,
                last_child_path(self.children@, n as int) == last_child_path(self.children@, k as int),
            decreases k,
        {
            let child = &self.children[k - 1];
            proof {
                assert(decreases_to!(*self => self.children));
                assert(decreases_to!(self.children => self.children@));
                assert(decreases_to!(self.children@ => self.children@[k - 1]));
            }
            match child.find_path_at_position() {
                Some(mut p) => {
                    p.push(self.id);
                    return Some(p);
                },
                None => {},
            }
            k -= 1;
        }
        let mut p: Vec<Id> = Vec::new();
        p.push(self.id);
        Some(p)
    }

    /// The elements under the point, topmost first, each followed by its
    /// parent up to this node; empty when this node is not under the point.
    pub fn find_element_at_position(&self) -> (r: Vec<Id>)
        ensures
            r@ == match hit_path(*self) {
                Some(p) => p,
                None => Seq::empty(),
            },
    {
        match self.find_path_at_position() {
            Some(p) => p,
            None => Vec::new(),
        }
    }
}

/// A hit path is found exactly for a node under the point; it is never
/// empty and ends with that node.
pub proof fn lemma_hit_path_shape(n: HitNode)
    ensures
        hit_path(n) is Some <==> n.hit,
        hit_path(n) is Some ==> hit_path(n)->0.len() >= 1 && hit_path(n)->0.last() == n.id,
{
}

/// A node under the point whose children are all missed is the whole path.
pub proof fn lemma_hit_leaf_path(n: HitNode)
    requires
        n.hit,
        forall|i: int| 0 <= i < n.children@.len() ==> !(#[trigger] n.children@[i]).hit,
    ensures
        hit_path(n) == Some(seq![n.id]),
{
    lemma_no_child_path(n.children@, n.children@.len() as int);
    assert(seq![n.id] =~= Seq::<Id>::empty().push(n.id));
}

/// The topmost node under the point is the first of the hit path.
pub proof fn lemma_topmost_heads_path(n: HitNode)
    ensures
        topmost_hit(n) == match hit_path(n) {
            Some(p) => Some(p[0]),
            None => None::<Id>,
        },
    decreases n, 0int,
{
    if n.hit {
        lemma_children_topmost_heads_path(n.children@, n.children@.len() as int);
        match last_child_path(n.children@, n.children@.len() as int) {
            Some(p) => {
                lemma_child_path_nonempty(n.children@, n.children@.len() as int);
                assert(p.push(n.id)[0] == p[0]);
            },
            None => {},
        }
    }
}

proof fn lemma_children_topmost_heads_path(children: Seq<HitNode>, k: int)
    ensures
        last_child_topmost(children, k) == match last_child_path(children, k) {
            Some(p) => Some(p[0]),
            None => None::<Id>,
        },
    decreases children, k,
{
    if 0 < k <= children.len() {
        lemma_topmost_heads_path(children[k - 1]);
        lemma_children_topmost_heads_path(children, k - 1);
    }
}

proof fn lemma_child_path_nonempty(children: Seq<HitNode>, k: int)
    ensures
        last_child_path(children, k) matches Some(p) ==> p.len() >= 1,
    decreases k,
{
    if 0 < k <= children.len() {
        lemma_hit_path_shape(children[k - 1]);
        lemma_child_path_nonempty(children, k - 1);
    }
}

proof fn lemma_no_child_path(cs: Seq<HitNode>, k: int)
    requires
        0 <= k <= cs.len(),
        forall|i: int| 0 <= i < cs.len() ==> !(#[trigger] cs[i]).hit,
    ensures
        last_child_path(cs, k) is None,
    decreases k,
{
    if k > 0 {
        assert(hit_path(cs[k - 1]) is None);
        lemma_no_child_path(cs, k - 1);
    }
}

} // verus!
