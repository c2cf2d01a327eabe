//! The arena tree that owns every descriptor of a snapshot.
//!
//! Nodes live in one flat table and are referenced by dense integer
//! handles; node 0 is always the root.  The arena is grown only through
//! [`UITreeMap::add_child`], which appends the new node to the table and
//! to its parent's child list, so the structure is acyclic by construction
//! and every non-root node sits in exactly one child list.

use vstd::prelude::*;

verus! {

/// One arena slot: the display label, the owned payload, the handle of
/// the parent, and the handles of the children in insertion order.
#[derive(Debug)]
pub struct TreeNode<T> {
    pub name: String,
    pub data: T,
    pub parent: usize,
    pub children: Vec<usize>,
}

/// An arena-indexed tree.  `nodes[0]` is the root; its `parent` is 0 by
/// convention.
#[derive(Debug)]
pub struct UITreeMap<T> {
    pub nodes: Vec<TreeNode<T>>,
}

impl<T> UITreeMap<T> {
    /// Number of nodes in the arena.
    pub open spec fn spec_len(self) -> int {
        self.nodes@.len() as int
    }

    /// Handle of the parent of node `i`.
    pub open spec fn parent_of(self, i: int) -> int {
        self.nodes@[i].parent as int
    }

    /// Child handles of node `i`, in insertion order.
    pub open spec fn children_of(self, i: int) -> Seq<usize> {
        self.nodes@[i].children@
    }

    /// Structural completeness and acyclicity.
    ///
    /// Every child handle is a real node that records that parent; every
    /// child list grows strictly, so a handle occurs at most once in it;
    /// every non-root node occurs in its parent's child list; and every
    /// node's parent has a smaller handle, so parent chains terminate at
    /// the root and the structure is acyclic.  Together: every node but
    /// the root sits in exactly one child list, at exactly one position,
    /// and the arena is connected from the root.
    pub open spec fn wf(self) -> bool {
        &&& self.spec_len() >= 1
        &&& self.parent_of(0) == 0
        &&& forall|i: int| 1 <= i < self.spec_len() ==> #[trigger] self.parent_of(i) < i
        &&& forall|p: int, k: int|
            0 <= p < self.spec_len() && 0 <= k < self.children_of(p).len() ==> {
                let c = #[trigger] self.children_of(p)[k] as int;
                &&& 1 <= c < self.spec_len()
                &&& self.parent_of(c) == p
            }
        &&& forall|p: int, k1: int, k2: int|
            0 <= p < self.spec_len() && 0 <= k1 < k2 < self.children_of(p).len() ==> #[trigger] self.children_of(
                p,
            )[k1] < #[trigger] self.children_of(p)[k2]
        &&& forall|i: int|
            1 <= i < self.spec_len() ==> #[trigger] self.children_of(self.parent_of(i)).contains(
                i as usize,
            )
    }

    /// `a` lies on the parent chain of `i` (`i` itself included).  In a
    /// well-formed arena every chain descends strictly, so this always
    /// terminates.
    pub open spec fn chain_contains(self, i: int, a: int) -> bool
        decreases i,
    {
        if i == a {
            true
        } else if i <= 0 {
            false
        } else if !(0 <= self.parent_of(i) < i) {
            false
        } else {
            self.chain_contains(self.parent_of(i), a)
        }
    }

    /// A fresh arena holding only the root node.
    pub fn new(name: &str, data: T) -> (r: UITreeMap<T>)
        ensures
            r.wf(),
            r.spec_len() == 1,
            r.nodes@[0].name@ == name@,
            r.nodes@[0].data == data,
            r.children_of(0).len() == 0,
    {
        let root = TreeNode { name: name.to_owned(), data, parent: 0usize, children: Vec::new() };
        let mut nodes: Vec<TreeNode<T>> = Vec::new();
        nodes.push(root);
        UITreeMap { nodes }
    }

    /// Append a node under `parent`: the new node goes to the end of the
    /// table and its handle to the end of the parent's child list; no
    /// other node changes.
    pub fn add_child(&mut self, parent: usize, name: &str, data: T) -> (idx: usize)
        requires
            old(self).wf(),
            parent < old(self).spec_len(),
        ensures
            final(self).wf(),
            idx == old(self).spec_len(),
            final(self).spec_len() == old(self).spec_len() + 1,
            final(self).nodes@[idx as int].name@ == name@,
            final(self).nodes@[idx as int].data == data,
            final(self).parent_of(idx as int) == parent,
            final(self).children_of(idx as int).len() == 0,
            final(self).children_of(parent as int) == old(self).children_of(parent as int).push(
                idx,
            ),
            forall|i: int|
                0 <= i < old(self).spec_len() && i != parent ==> final(self).nodes@[i] == old(
                    self,
                ).nodes@[i],
            final(self).nodes@[parent as int].name == old(self).nodes@[parent as int].name,
            final(self).nodes@[parent as int].data == old(self).nodes@[parent as int].data,
            final(self).parent_of(parent as int) == old(self).parent_of(parent as int),
    {
        let idx = self.nodes.len();
        let node = TreeNode {
            name: name.to_owned(),
            data,
            parent,
            children: Vec::new(),
        };
        self.nodes.push(node);
        let parent_node = &mut self.nodes[parent];
        parent_node.children.push(idx);
        proof {
            assert(forall|i: int|
                0 <= i < old(self).spec_len() && i != parent ==> self.nodes@[i] == old(
                    self,
                ).nodes@[i]);
            assert(self.nodes@[parent as int].parent == old(self).nodes@[parent as int].parent);
            assert(self.children_of(parent as int) == old(self).children_of(parent as int).push(
                idx,
            ));
            assert forall|i: int| 1 <= i < self.spec_len() implies #[trigger] self.parent_of(i)
                < i by {
                if i < idx as int {
                    assert(self.parent_of(i) == old(self).parent_of(i));
                } else {
                    assert(self.parent_of(i) == parent as int);
                }
            }
            assert forall|p: int, k: int|
                0 <= p < self.spec_len() && 0 <= k < self.children_of(p).len() implies 1 <= (
            #[trigger] self.children_of(p)[k] as int) < self.spec_len() && self.parent_of(
                self.children_of(p)[k] as int,
            ) == p by {
                if p == parent as int && k == old(self).children_of(parent as int).len() as int {
                    assert(self.children_of(p)[k] == idx);
                    assert(self.parent_of(idx as int) == parent as int);
                } else {
                    assert(p < idx as int || self.children_of(p).len() == 0);
                    if p == parent as int {
                        assert(self.children_of(p)[k] == old(self).children_of(p)[k]);
                    } else {
                        assert(self.children_of(p) == old(self).children_of(p));
                    }
                    let c = old(self).children_of(p)[k] as int;
                    assert(1 <= c < old(self).spec_len());
                    assert(old(self).parent_of(c) == p);
                    assert(self.parent_of(c) == old(self).parent_of(c));
                }
            }
            assert forall|p: int, k1: int, k2: int|
                0 <= p < self.spec_len() && 0 <= k1 < k2 < self.children_of(p).len() implies
            #[trigger] self.children_of(p)[k1] < #[trigger] self.children_of(p)[k2] by {
                if p == parent as int {
                    let oldc = old(self).children_of(p);
                    assert(self.children_of(p)[k1] == oldc[k1]);
                    assert((oldc[k1] as int) < old(self).spec_len());
                    if k2 == oldc.len() as int {
                        assert(self.children_of(p)[k2] == idx);
                    } else {
                        assert(self.children_of(p)[k2] == oldc[k2]);
                    }
                } else {
                    assert(p < idx as int || self.children_of(p).len() == 0);
                    if p < idx as int {
                        assert(self.children_of(p) == old(self).children_of(p));
                    }
                }
            }
            assert forall|i: int| 1 <= i < self.spec_len() implies #[trigger] self.children_of(
                self.parent_of(i),
            ).contains(i as usize) by {
                if i < idx as int {
                    let p = old(self).parent_of(i);
                    assert(self.parent_of(i) == p);
                    assert(old(self).children_of(p).contains(i as usize));
                    let k = choose|k: int|
                        0 <= k < old(self).children_of(p).len() && old(self).children_of(p)[k]
                            == i as usize;
                    if p == parent as int {
                        assert(self.children_of(p)[k] == old(self).children_of(p)[k]);
                    } else {
                        assert(self.children_of(p) == old(self).children_of(p));
                    }
                    assert(self.children_of(p)[k] == i as usize);
                } else {
                    assert(i == idx as int);
                    let n = old(self).children_of(parent as int).len() as int;
                    assert(self.children_of(parent as int)[n] == idx);
                    assert(self.parent_of(idx as int) == parent as int);
                }
            }
        }
        idx
    }

    /// Handle of the root node.
    pub fn root(&self) -> (r: usize)
        ensures
            r == 0,
    {
        0
    }

    /// Number of nodes in the arena.
    pub fn len(&self) -> (r: usize)
        ensures
            r == self.spec_len(),
    {
        self.nodes.len()
    }

    /// Child handles of node `index`, in insertion order.
    pub fn children(&self, index: usize) -> (r: &[usize])
        requires
            index < self.spec_len(),
        ensures
            r@ == self.children_of(index as int),
    {
        self.nodes[index].children.as_slice()
    }

    /// Display label and payload of node `index`.
    pub fn node(&self, index: usize) -> (r: (&str, &T))
        requires
            index < self.spec_len(),
        ensures
            r.0@ == self.nodes@[index as int].name@,
            *r.1 == self.nodes@[index as int].data,
    {
        let node = &self.nodes[index];
        (node.name.as_str(), &node.data)
    }

    /// Call `f` on every `(handle, payload)` pair in handle order.
    pub fn for_each<F: FnMut(usize, &T)>(&self, f: F)
        requires
            forall|i: usize, t: &T| call_requires(f, (i, t)),
    {
        let mut f = f;
        let mut i: usize = 0;
        while i < self.nodes.len()
            invariant
                forall|j: usize, t: &T| call_requires(f, (j, t)),
            decreases self.nodes@.len() - i,
        {
            f(i, &self.nodes[i].data);
            i = i + 1;
        }
    }
}

/// Structural completeness law, first half: in a well-formed arena a
/// non-root handle occurs in only one child list, at only one position —
/// any two occurrences coincide — and that list is its parent's.
pub proof fn lemma_unique_child_position<T>(
    t: UITreeMap<T>,
    i: usize,
    p1: int,
    k1: int,
    p2: int,
    k2: int,
)
    requires
        t.wf(),
        1 <= i < t.spec_len(),
        0 <= p1 < t.spec_len(),
        0 <= k1 < t.children_of(p1).len(),
        t.children_of(p1)[k1] == i,
        0 <= p2 < t.spec_len(),
        0 <= k2 < t.children_of(p2).len(),
        t.children_of(p2)[k2] == i,
    ensures
        p1 == t.parent_of(i as int),
        p1 == p2,
        k1 == k2,
        t.children_of(t.parent_of(i as int)).contains(i),
{
    assert(t.parent_of(t.children_of(p1)[k1] as int) == p1);
    assert(t.parent_of(t.children_of(p2)[k2] as int) == p2);
    if k1 < k2 {
        assert(t.children_of(p1)[k1] < t.children_of(p1)[k2]);
    }
    if k2 < k1 {
        assert(t.children_of(p1)[k2] < t.children_of(p1)[k1]);
    }
}

/// Structural completeness law, second half: a well-formed arena is
/// acyclic and fully connected — the parent chain of every node descends
/// strictly and ends at the root.
pub proof fn lemma_connected_to_root<T>(t: UITreeMap<T>, i: int)
    requires
        t.wf(),
        0 <= i < t.spec_len(),
    ensures
        t.chain_contains(i, 0),
    decreases i,
{
    if i > 0 {
        lemma_connected_to_root(t, t.parent_of(i));
    }
}

/// In a well-formed arena the `k`-th entry of a child list is at least
/// `k + 1`: entries are non-root handles and strictly increase.
pub proof fn lemma_child_entry_lower<T>(t: UITreeMap<T>, p: int, k: int)
    requires
        t.wf(),
        0 <= p < t.spec_len(),
        0 <= k < t.children_of(p).len(),
    ensures
        t.children_of(p)[k] >= k + 1,
    decreases k,
{
    assert(1 <= t.children_of(p)[k] && (t.children_of(p)[k] as int) < t.spec_len());
    if k > 0 {
        lemma_child_entry_lower(t, p, k - 1);
        assert(t.children_of(p)[k - 1] < t.children_of(p)[k]);
    }
}

/// A parent cannot have more children than the arena has non-root nodes.
pub proof fn lemma_children_count<T>(t: UITreeMap<T>, p: int)
    requires
        t.wf(),
        0 <= p < t.spec_len(),
    ensures
        t.children_of(p).len() <= t.spec_len() - 1,
{
    let n = t.children_of(p).len() as int;
    if n > 0 {
        lemma_child_entry_lower(t, p, n - 1);
        assert(t.children_of(p)[n - 1] as int <= t.spec_len() - 1);
    }
}

/// An ancestor's handle never exceeds the descendant's: parent chains
/// strictly descend, so no chain can return to a node it left (there are
/// no cycles).
pub proof fn lemma_chain_descends<T>(t: UITreeMap<T>, i: int, a: int)
    requires
        t.chain_contains(i, a),
    ensures
        a <= i,
    decreases i,
{
    if i != a && i > 0 && 0 <= t.parent_of(i) < i {
        lemma_chain_descends(t, t.parent_of(i), a);
    }
}

} // verus!
