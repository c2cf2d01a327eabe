//! One-shot construction of a snapshot from the live accessibility
//! provider.
//!
//! The walk is a depth-first traversal driven from outside: the provider
//! is reachable only through "first child of this node" and "next sibling
//! of this node" calls, which the verified code cannot make itself.  The
//! [`SnapshotBuilder`] therefore owns every decision — where each answer
//! is inserted, its depth, its paint-order bucket, when a branch ends and
//! when the walk is complete — while a driver performs the one provider
//! call named by [`SnapshotBuilder::pending`] and feeds the answer back
//! through [`SnapshotBuilder::step`].  A failed provider call is the same
//! as "no such node": the driver reports it as an absent answer, which
//! closes the branch and is never an error.

use vstd::prelude::*;

use crate::labels::{label_of, make_label};
use crate::rectangle::sorted_for_hit_testing;
use crate::tree_map::UITreeMap;
use crate::uiexplore::{
    model_of_raw, sort_elements, RawElement, UIElementProps, UITree, ROOT_Z_ORDER,
};

verus! {

/// The provider call the driver must perform next.
#[derive(Debug, Clone, Copy, PartialEq, Eq, Structural)]
pub enum BuildStep {
    /// Ask the provider for the first child of the element that became
    /// this arena node.
    AskFirstChild(usize),
    /// Ask the provider for the next sibling of the element that became
    /// this arena node.
    AskNextSibling(usize),
    /// The walk is complete; nothing is left to ask.
    Finished,
}

/// Depth and paint-order discipline of a snapshot arena.
///
/// The root sits at depth 0 in the sentinel bucket; every other node is
/// one level below its parent; the k-th direct child of the root opens
/// bucket k; and every node deeper than one level carries its parent's
/// bucket, so whole top-level subtrees share one bucket.
pub open spec fn decorated(t: UITreeMap<UIElementProps>) -> bool {
    &&& t.nodes@[0].data.level == 0
    &&& t.nodes@[0].data.z_order == ROOT_Z_ORDER
    &&& forall|i: int|
        1 <= i < t.spec_len() ==> (#[trigger] t.nodes@[i].data.level) as int == t.nodes@[t.parent_of(
            i,
        )].data.level + 1
    &&& forall|i: int| 0 <= i < t.spec_len() ==> (#[trigger] t.nodes@[i].data.level) <= i
    &&& forall|k: int|
        0 <= k < t.children_of(0).len() ==> (#[trigger] t.nodes@[t.children_of(0)[k] as int].data.z_order)
            as int == k
    &&& forall|i: int|
        1 <= i < t.spec_len() && t.parent_of(i) != 0 ==> (#[trigger] t.nodes@[i].data.z_order)
            == t.nodes@[t.parent_of(i)].data.z_order
}

/// Every arena node is labelled from its own descriptor.
pub open spec fn labelled(t: UITreeMap<UIElementProps>) -> bool {
    forall|i: int|
        0 <= i < t.spec_len() ==> (#[trigger] t.nodes@[i].name)@ == label_of(t.nodes@[i].data@)
}

/// Builds one snapshot while a driver walks the provider for it.
pub struct SnapshotBuilder {
    /// The arena grown so far.
    pub tree: UITreeMap<UIElementProps>,
    /// The flat descriptor list in traversal order (not yet sorted).
    pub elements: Vec<UIElementProps>,
    /// The pending provider call.
    pub phase: BuildStep,
    /// The next unused top-level paint-order bucket.
    pub next_bucket: usize,
    /// Deepest level whose nodes may still get children, if limited.
    pub max_depth: Option<usize>,
}

impl SnapshotBuilder {
    /// Number of nodes inserted so far.
    pub open spec fn spec_len(self) -> int {
        self.tree.spec_len()
    }

    /// Depth of node `i`.
    pub open spec fn level_of(self, i: int) -> int {
        self.tree.nodes@[i].data.level as int
    }

    /// Paint-order bucket of node `i`.
    pub open spec fn bucket_of(self, i: int) -> int {
        self.tree.nodes@[i].data.z_order as int
    }

    /// May the walk descend below a node at depth `level`?
    pub open spec fn may_descend(self, level: int) -> bool {
        match self.max_depth {
            Option::None => true,
            Option::Some(limit) => level < limit,
        }
    }

    /// The flat list mirrors the arena, node by node, in handle order.
    pub open spec fn elements_mirror(self) -> bool {
        &&& self.elements@.len() == self.spec_len()
        &&& forall|i: int|
            0 <= i < self.spec_len() ==> (#[trigger] self.elements@[i])@ == self.tree.nodes@[i].data@
    }

    /// The pending call names a real node; a sibling is never asked of
    /// the root, and a first child is only asked where descent is
    /// allowed.
    pub open spec fn phase_wf(self) -> bool {
        match self.phase {
            BuildStep::AskFirstChild(n) => n < self.spec_len() && self.may_descend(
                self.level_of(n as int),
            ),
            BuildStep::AskNextSibling(n) => 1 <= n < self.spec_len(),
            BuildStep::Finished => true,
        }
    }

    /// Everything the builder maintains from start to finish.
    pub open spec fn wf(self) -> bool {
        &&& self.tree.wf()
        &&& decorated(self.tree)
        &&& labelled(self.tree)
        &&& self.elements_mirror()
        &&& self.next_bucket == self.tree.children_of(0).len()
        &&& self.phase_wf()
    }

    /// Start a snapshot.  The provider's root becomes arena node 0, at
    /// depth 0 and in the sentinel bucket.  With a depth limit of 0 the
    /// walk is already complete: the arena keeps only the root.
    pub fn new(root: RawElement, max_depth: Option<usize>) -> (r: SnapshotBuilder)
        ensures
            r.wf(),
            r.spec_len() == 1,
            r.tree.nodes@[0].data@ == model_of_raw(root, 0, ROOT_Z_ORDER as int),
            r.elements@.len() == 1,
            r.elements@[0]@ == model_of_raw(root, 0, ROOT_Z_ORDER as int),
            r.next_bucket == 0,
            r.max_depth == max_depth,
            r.phase == (match max_depth {
                Option::None => BuildStep::AskFirstChild(0usize),
                Option::Some(limit) => if limit > 0 {
                    BuildStep::AskFirstChild(0usize)
                } else {
                    BuildStep::Finished
                },
            }),
    {
        let props = UIElementProps::new(root, 0, ROOT_Z_ORDER);
        let label = make_label(&props);
        let elem = props.clone();
        let tree = UITreeMap::new(label.as_str(), props);
        let mut elements: Vec<UIElementProps> = Vec::new();
        elements.push(elem);
        let phase = match max_depth {
            Option::None => BuildStep::AskFirstChild(0usize),
            Option::Some(limit) => if limit > 0 {
                BuildStep::AskFirstChild(0usize)
            } else {
                BuildStep::Finished
            },
        };
        SnapshotBuilder { tree, elements, phase, next_bucket: 0usize, max_depth }
    }

    /// The provider call the driver must perform next.
    pub fn pending(&self) -> (r: BuildStep)
        ensures
            r == self.phase,
    {
        self.phase
    }

    /// Insert the answer `raw` as the newest node, under `parent`.
    fn add_node(&mut self, parent: usize, raw: RawElement)
        requires
            old(self).tree.wf(),
            decorated(old(self).tree),
            labelled(old(self).tree),
            old(self).elements_mirror(),
            old(self).next_bucket == old(self).tree.children_of(0).len(),
            parent < old(self).spec_len(),
        ensures
            final(self).tree.wf(),
            decorated(final(self).tree),
            labelled(final(self).tree),
            final(self).elements_mirror(),
            final(self).next_bucket == final(self).tree.children_of(0).len(),
            final(self).phase_wf(),
            final(self).max_depth == old(self).max_depth,
            ({
                let m = old(self).spec_len();
                let level = old(self).level_of(parent as int) + 1;
                let bucket = if parent == 0 {
                    old(self).next_bucket as int
                } else {
                    old(self).bucket_of(parent as int)
                };
                &&& final(self).spec_len() == m + 1
                &&& final(self).tree.parent_of(m) == parent
                &&& final(self).tree.children_of(parent as int) == old(self).tree.children_of(
                    parent as int,
                ).push(old(self).tree.nodes@.len() as usize)
                &&& forall|i: int|
                    0 <= i < m && i != parent ==> final(self).tree.nodes@[i] == old(
                        self,
                    ).tree.nodes@[i]
                &&& final(self).tree.nodes@[parent as int].data == old(self).tree.nodes@[parent as int].data
                &&& final(self).tree.nodes@[parent as int].name == old(self).tree.nodes@[parent as int].name
                &&& final(self).tree.parent_of(parent as int) == old(self).tree.parent_of(
                    parent as int,
                )
                &&& final(self).tree.nodes@[m].data@ == model_of_raw(raw, level, bucket)
                &&& final(self).tree.nodes@[m].name@ == label_of(model_of_raw(raw, level, bucket))
                &&& final(self).elements@.len() == m + 1
                &&& forall|i: int|
                    0 <= i < m ==> final(self).elements@[i] == old(self).elements@[i]
                &&& final(self).elements@[m]@ == model_of_raw(raw, level, bucket)
                &&& final(self).next_bucket as int == if parent == 0 {
                    old(self).next_bucket + 1
                } else {
                    old(self).next_bucket as int
                }
                &&& final(self).phase == (if old(self).may_descend(level) {
                    BuildStep::AskFirstChild((m as usize))
                } else {
                    BuildStep::AskNextSibling((m as usize))
                })
            }),
    {
        let idx = self.tree.len();
        let parent_level = self.tree.nodes[parent].data.level;
        proof {
            assert(parent_level <= parent);
        }
        let level = parent_level + 1;
        let bucket: usize;
        if parent == 0 {
            bucket = self.next_bucket;
            proof {
                crate::tree_map::lemma_children_count::<UIElementProps>(self.tree, 0);
            }
            self.next_bucket = self.next_bucket + 1;
        } else {
            bucket = self.tree.nodes[parent].data.z_order;
        }
        let props = UIElementProps::new(raw, level, bucket);
        let label = make_label(&props);
        let elem = props.clone();
        let ghost pre_tree = self.tree;
        let new_idx = self.tree.add_child(parent, label.as_str(), props);
        self.elements.push(elem);
        self.phase = match self.max_depth {
            Option::None => BuildStep::AskFirstChild(new_idx),
            Option::Some(limit) => if level < limit {
                BuildStep::AskFirstChild(new_idx)
            } else {
                BuildStep::AskNextSibling(new_idx)
            },
        };
        proof {
            let t = self.tree;
            let m = idx as int;
            assert forall|i: int|
                1 <= i < t.spec_len() implies (#[trigger] t.nodes@[i].data.level) as int
                == t.nodes@[t.parent_of(i)].data.level + 1 by {
                if i < m {
                    assert(t.parent_of(i) == pre_tree.parent_of(i));
                    assert(t.nodes@[i].data == pre_tree.nodes@[i].data);
                    assert(t.nodes@[t.parent_of(i)].data == pre_tree.nodes@[pre_tree.parent_of(
                        i,
                    )].data);
                } else {
                    assert(t.parent_of(m) == parent as int);
                    assert(t.nodes@[parent as int].data == pre_tree.nodes@[parent as int].data);
                }
            }
            assert forall|i: int|
                0 <= i < t.spec_len() implies (#[trigger] t.nodes@[i].data.level) <= i by {
                if i < m {
                    assert(t.nodes@[i].data == pre_tree.nodes@[i].data);
                }
            }
            assert forall|k: int|
                0 <= k < t.children_of(0).len() implies (#[trigger] t.nodes@[t.children_of(
                0,
            )[k] as int].data.z_order) as int == k by {
                if parent == 0 {
                    if k < pre_tree.children_of(0).len() {
                        assert(t.children_of(0)[k] == pre_tree.children_of(0)[k]);
                        let c = pre_tree.children_of(0)[k] as int;
                        assert(1 <= c < pre_tree.spec_len());
                        assert(t.nodes@[c].data == pre_tree.nodes@[c].data);
                    } else {
                        assert(t.children_of(0)[k] == idx);
                    }
                } else {
                    assert(t.nodes@[0] == pre_tree.nodes@[0]);
                    assert(t.children_of(0) == pre_tree.children_of(0));
                    let c = pre_tree.children_of(0)[k] as int;
                    assert(1 <= c < pre_tree.spec_len());
                    assert(c != m);
                    if c == parent as int {
                        assert(t.nodes@[c].data == pre_tree.nodes@[c].data);
                    } else {
                        assert(t.nodes@[c] == pre_tree.nodes@[c]);
                    }
                }
            }
            assert forall|i: int|
                1 <= i < t.spec_len() && t.parent_of(i) != 0 implies (
            #[trigger] t.nodes@[i].data.z_order) == t.nodes@[t.parent_of(i)].data.z_order by {
                if i < m {
                    assert(t.parent_of(i) == pre_tree.parent_of(i));
                    assert(t.nodes@[i].data == pre_tree.nodes@[i].data);
                    assert(t.nodes@[t.parent_of(i)].data == pre_tree.nodes@[pre_tree.parent_of(
                        i,
                    )].data);
                } else {
                    assert(t.parent_of(m) == parent as int);
                    assert(t.nodes@[parent as int].data == pre_tree.nodes@[parent as int].data);
                }
            }
            assert forall|i: int|
                0 <= i < t.spec_len() implies (#[trigger] t.nodes@[i].name)@ == label_of(
                t.nodes@[i].data@,
            ) by {
                if i < m {
                    if i == parent as int {
                        assert(t.nodes@[i].name == pre_tree.nodes@[i].name);
                        assert(t.nodes@[i].data == pre_tree.nodes@[i].data);
                    } else {
                        assert(t.nodes@[i] == pre_tree.nodes@[i]);
                    }
                }
            }
            assert forall|i: int|
                0 <= i < self.spec_len() implies (#[trigger] self.elements@[i])@
                == self.tree.nodes@[i].data@ by {
                if i < m {
                    assert(self.elements@[i] == old(self).elements@[i]);
                    if i == parent as int {
                        assert(t.nodes@[i].data == pre_tree.nodes@[i].data);
                    } else {
                        assert(t.nodes@[i] == pre_tree.nodes@[i]);
                    }
                }
            }
        }
    }

    /// Feed back the provider's answer to the pending call.
    ///
    /// A found node is inserted exactly as [`step_inserts`] states —
    /// appended under the right parent, so the arena's child lists keep
    /// the provider's enumeration order.  An absent answer (including a
    /// failed provider call) closes the branch as [`step_closes`]
    /// states and is never an error.
    pub fn step(&mut self, response: Option<RawElement>)
        requires
            old(self).wf(),
            !(old(self).phase is Finished),
        ensures
            final(self).wf(),
            match response {
                Option::Some(raw) => step_inserts(*old(self), raw, *final(self)),
                Option::None => step_closes(*old(self), *final(self)),
            },
    {
        match self.phase {
            BuildStep::AskFirstChild(n) => {
                match response {
                    Option::Some(raw) => {
                        self.add_node(n, raw);
                    },
                    Option::None => {
                        self.phase = if n == 0 {
                            BuildStep::Finished
                        } else {
                            BuildStep::AskNextSibling(n)
                        };
                    },
                }
            },
            BuildStep::AskNextSibling(n) => {
                let p = self.tree.nodes[n].parent;
                proof {
                    assert(self.tree.parent_of(n as int) < n as int);
                    assert(p < n);
                }
                match response {
                    Option::Some(raw) => {
                        self.add_node(p, raw);
                    },
                    Option::None => {
                        self.phase = if p == 0 {
                            BuildStep::Finished
                        } else {
                            BuildStep::AskNextSibling(p)
                        };
                    },
                }
            },
            BuildStep::Finished => {
                proof {
                    assert(false);
                }
            },
        }
    }

    /// Package the completed walk into one immutable snapshot: the arena
    /// as grown, and the flat list resorted into published order with
    /// exactly the descriptors the walk collected.
    pub fn finish(self) -> (r: UITree)
        requires
            self.wf(),
            self.phase is Finished,
        ensures
            r.tree == self.tree,
            r.tree.wf(),
            decorated(r.tree),
            labelled(r.tree),
            sorted_for_hit_testing(r.ui_elements@),
            r.ui_elements@.to_multiset() == self.elements@.to_multiset(),
            r.ui_elements@.len() == self.elements@.len(),
    {
        let SnapshotBuilder { tree, elements, .. } = self;
        let mut elements = elements;
        let ghost before = elements@;
        sort_elements(&mut elements);
        proof {
            vstd::seq_lib::to_multiset_len(before);
            vstd::seq_lib::to_multiset_len(elements@);
        }
        UITree::new(tree, elements)
    }
}

/// Paint-order monotonicity law, first half: of two distinct direct
/// children of the root, the one enumerated earlier has the strictly
/// smaller paint-order bucket.
pub proof fn lemma_sibling_buckets_increase(t: UITreeMap<UIElementProps>, k1: int, k2: int)
    requires
        t.wf(),
        decorated(t),
        0 <= k1 < k2 < t.children_of(0).len(),
    ensures
        t.nodes@[t.children_of(0)[k1] as int].data.z_order < t.nodes@[t.children_of(
            0,
        )[k2] as int].data.z_order,
{
}

/// Paint-order monotonicity law, second half: every node whose ancestor
/// chain passes through a direct child of the root carries that child's
/// bucket.
pub proof fn lemma_bucket_inherited(t: UITreeMap<UIElementProps>, a: int, i: int)
    requires
        t.wf(),
        decorated(t),
        0 <= a < t.spec_len(),
        0 <= i < t.spec_len(),
        t.nodes@[a].data.level == 1,
        t.chain_contains(i, a),
    ensures
        t.nodes@[i].data.z_order == t.nodes@[a].data.z_order,
    decreases i,
{
    if i != a {
        let p = t.parent_of(i);
        assert(i > 0 && 0 <= p < i);
        if p == 0 {
            assert(t.chain_contains(0, a));
            assert(a == 0);
            assert(false);
        }
        assert(t.nodes@[i].data.z_order == t.nodes@[p].data.z_order);
        lemma_bucket_inherited(t, a, p);
    }
}

/// The arena parent under which the answer to the pending call belongs:
/// the asked node itself for a first child, the asked node's parent for a
/// next sibling.
pub open spec fn insert_parent(pre: SnapshotBuilder) -> int {
    match pre.phase {
        BuildStep::AskFirstChild(n) => n as int,
        BuildStep::AskNextSibling(n) => pre.tree.parent_of(n as int),
        BuildStep::Finished => 0,
    }
}

/// How a found node extends the snapshot: it becomes the newest arena
/// node, appended at the end of its parent's child list — the arena keeps
/// the provider's enumeration order — one level below its parent; it
/// opens the next fresh paint-order bucket if it is a direct child of the
/// root and carries its parent's bucket otherwise; its descriptor is
/// appended to the flat list; nothing else changes; and the walk descends
/// below it exactly when the depth limit allows.
pub open spec fn step_inserts(
    pre: SnapshotBuilder,
    raw: RawElement,
    post: SnapshotBuilder,
) -> bool {
    let m = pre.spec_len();
    let p = insert_parent(pre);
    let level = pre.level_of(p) + 1;
    let bucket = if p == 0 {
        pre.next_bucket as int
    } else {
        pre.bucket_of(p)
    };
    &&& post.spec_len() == m + 1
    &&& post.tree.parent_of(m) == p
    &&& post.tree.children_of(p) == pre.tree.children_of(p).push(pre.tree.nodes@.len() as usize)
    &&& forall|i: int| 0 <= i < m && i != p ==> post.tree.nodes@[i] == pre.tree.nodes@[i]
    &&& post.tree.nodes@[p].data == pre.tree.nodes@[p].data
    &&& post.tree.nodes@[p].name == pre.tree.nodes@[p].name
    &&& post.tree.nodes@[m].data@ == model_of_raw(raw, level, bucket)
    &&& post.tree.nodes@[m].name@ == label_of(model_of_raw(raw, level, bucket))
    &&& post.elements@.len() == m + 1
    &&& forall|i: int| 0 <= i < m ==> post.elements@[i] == pre.elements@[i]
    &&& post.elements@[m]@ == model_of_raw(raw, level, bucket)
    &&& post.next_bucket as int == if p == 0 {
        pre.next_bucket + 1
    } else {
        pre.next_bucket as int
    }
    &&& post.phase == (if pre.may_descend(level) {
        BuildStep::AskFirstChild((m as usize))
    } else {
        BuildStep::AskNextSibling((m as usize))
    })
    &&& post.max_depth == pre.max_depth
}

/// How an absent answer closes a branch: nothing is inserted; after "no
/// first child" the walk turns to the asked node's next sibling, after
/// "no next sibling" it returns to the parent's next sibling, and the
/// walk is complete when that would ask a sibling of the root.
pub open spec fn step_closes(pre: SnapshotBuilder, post: SnapshotBuilder) -> bool {
    &&& post.tree == pre.tree
    &&& post.elements == pre.elements
    &&& post.next_bucket == pre.next_bucket
    &&& post.max_depth == pre.max_depth
    &&& post.phase == (match pre.phase {
        BuildStep::AskFirstChild(n) => if n == 0 {
            BuildStep::Finished
        } else {
            BuildStep::AskNextSibling(n)
        },
        BuildStep::AskNextSibling(n) => if pre.tree.parent_of(n as int) == 0 {
            BuildStep::Finished
        } else {
            BuildStep::AskNextSibling((pre.tree.parent_of(n as int) as usize))
        },
        BuildStep::Finished => pre.phase,
    })
}

} // verus!
