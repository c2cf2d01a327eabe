//! Descriptors of on-screen elements and the snapshot they are packed into.
//!
//! A [`UIElementProps`] is the immutable record of one accessibility node at
//! traversal time.  The provider that supplies the raw data is best-effort:
//! any property it cannot deliver is recorded as a documented default, and
//! never fails the traversal.

use vstd::prelude::*;

use crate::geometry::{Point, Rect};
use crate::rectangle::{first_hit, key_le, sorted_for_hit_testing};
use crate::tree_map::UITreeMap;

verus! {

/// The z-order bucket of the snapshot root: a sentinel that sorts behind
/// every ordinary top-level bucket, so the root is the hit tester's match
/// of last resort.
pub const ROOT_Z_ORDER: usize = 999;

/// What the accessibility provider reported for a single node.  Each
/// property is independently best-effort: `None` records that the provider
/// could not supply it.
pub struct RawElement {
    pub name: Option<String>,
    pub classname: Option<String>,
    pub control_type: Option<String>,
    pub localized_control_type: Option<String>,
    pub framework_id: Option<String>,
    pub runtime_id: Option<Vec<i32>>,
    pub bounding_rect: Option<Rect>,
}

/// The mathematical model of a [`UIElementProps`].
pub struct ElemModel {
    pub name: Seq<char>,
    pub classname: Seq<char>,
    pub control_type: Seq<char>,
    pub localized_control_type: Seq<char>,
    pub framework_id: Seq<char>,
    pub runtime_id: Seq<i32>,
    pub bounding_rect: Rect,
    pub bounding_rect_size: int,
    pub level: int,
    pub z_order: int,
}

/// Immutable snapshot of one accessibility node.
///
/// `bounding_rect_size` is the derived area of `bounding_rect`, computed
/// once at creation; `level` is the distance from the snapshot root and
/// `z_order` the coarse paint-order bucket of the node's top-level window.
#[derive(Debug)]
pub struct UIElementProps {
    pub name: String,
    pub classname: String,
    pub control_type: String,
    pub localized_control_type: String,
    pub framework_id: String,
    pub runtime_id: Vec<i32>,
    pub bounding_rect: Rect,
    pub bounding_rect_size: i128,
    pub level: usize,
    pub z_order: usize,
}

impl View for UIElementProps {
    type V = ElemModel;

    open spec fn view(&self) -> ElemModel {
        ElemModel {
            name: self.name@,
            classname: self.classname@,
            control_type: self.control_type@,
            localized_control_type: self.localized_control_type@,
            framework_id: self.framework_id@,
            runtime_id: self.runtime_id@,
            bounding_rect: self.bounding_rect,
            bounding_rect_size: self.bounding_rect_size as int,
            level: self.level as int,
            z_order: self.z_order as int,
        }
    }
}

/// The string recorded for a property the provider may have failed to
/// supply: the reported value, or empty.
pub open spec fn default_str(o: Option<String>) -> Seq<char> {
    match o {
        Option::Some(s) => s@,
        Option::None => Seq::<char>::empty(),
    }
}

/// The identity recorded for a node: the reported one, or empty.
pub open spec fn default_ids(o: Option<Vec<i32>>) -> Seq<i32> {
    match o {
        Option::Some(v) => v@,
        Option::None => Seq::<i32>::empty(),
    }
}

/// The rectangle recorded for a node: the reported one, or the degenerate
/// rectangle at the origin.
pub open spec fn default_rect(o: Option<Rect>) -> Rect {
    match o {
        Option::Some(r) => r,
        Option::None => Rect { left: 0, top: 0, right: 0, bottom: 0 },
    }
}

/// The model a descriptor must have when built from `raw` at the given
/// depth and paint-order bucket.
pub open spec fn model_of_raw(raw: RawElement, level: int, z_order: int) -> ElemModel {
    ElemModel {
        name: default_str(raw.name),
        classname: default_str(raw.classname),
        control_type: default_str(raw.control_type),
        localized_control_type: default_str(raw.localized_control_type),
        framework_id: default_str(raw.framework_id),
        runtime_id: default_ids(raw.runtime_id),
        bounding_rect: default_rect(raw.bounding_rect),
        bounding_rect_size: default_rect(raw.bounding_rect).spec_area(),
        level: level,
        z_order: z_order,
    }
}

fn unwrap_or_empty(o: Option<String>) -> (r: String)
    ensures
        r@ == default_str(o),
{
    match o {
        Option::Some(s) => s,
        Option::None => String::new(),
    }
}

fn unwrap_or_no_ids(o: Option<Vec<i32>>) -> (r: Vec<i32>)
    ensures
        r@ == default_ids(o),
{
    match o {
        Option::Some(v) => v,
        Option::None => Vec::new(),
    }
}

impl UIElementProps {
    /// Convert one provider answer into a descriptor: every missing
    /// property becomes its default, and the rectangle's area is computed
    /// once, exactly.
    pub fn new(raw: RawElement, level: usize, z_order: usize) -> (r: UIElementProps)
        ensures
            r@ == model_of_raw(raw, level as int, z_order as int),
    {
        let bounding_rect = match raw.bounding_rect {
            Option::Some(rect) => rect,
            Option::None => Rect { left: 0, top: 0, right: 0, bottom: 0 },
        };
        let width: i64 = bounding_rect.right as i64 - bounding_rect.left as i64;
        let height: i64 = bounding_rect.bottom as i64 - bounding_rect.top as i64;
        proof {
            let w = width as int;
            let h = height as int;
            assert(-0xFFFF_FFFF <= w <= 0xFFFF_FFFF);
            assert(-0xFFFF_FFFF <= h <= 0xFFFF_FFFF);
            assert(-0xFFFF_FFFF * 0xFFFF_FFFF <= w * h <= 0xFFFF_FFFF * 0xFFFF_FFFF)
                by (nonlinear_arith)
                requires
                    -0xFFFF_FFFF <= w <= 0xFFFF_FFFF,
                    -0xFFFF_FFFF <= h <= 0xFFFF_FFFF,
            ;
        }
        let bounding_rect_size: i128 = width as i128 * height as i128;
        UIElementProps {
            name: unwrap_or_empty(raw.name),
            classname: unwrap_or_empty(raw.classname),
            control_type: unwrap_or_empty(raw.control_type),
            localized_control_type: unwrap_or_empty(raw.localized_control_type),
            framework_id: unwrap_or_empty(raw.framework_id),
            runtime_id: unwrap_or_no_ids(raw.runtime_id),
            bounding_rect,
            bounding_rect_size,
            level,
            z_order,
        }
    }
}

fn copy_ids(v: &Vec<i32>) -> (r: Vec<i32>)
    ensures
        r@ == v@,
{
    let mut r: Vec<i32> = Vec::new();
    let mut i: usize = 0;
    while i < v.len()
        invariant
            i <= v.len(),
            r@ == v@.subrange(0, i as int),
        decreases v.len() - i,
    {
        r.push(v[i]);
        i = i + 1;
        proof {
            assert(r@ =~= v@.subrange(0, i as int));
        }
    }
    proof {
        assert(r@ =~= v@);
    }
    r
}

fn key_le_exec(a: &UIElementProps, b: &UIElementProps) -> (r: bool)
    ensures
        r == key_le(*a, *b),
{
    a.z_order < b.z_order || (a.z_order == b.z_order && a.bounding_rect_size
        <= b.bounding_rect_size)
}

fn insert_sorted(r: &mut Vec<UIElementProps>, x: UIElementProps)
    requires
        sorted_for_hit_testing(old(r)@),
    ensures
        sorted_for_hit_testing(final(r)@),
        final(r)@.to_multiset() == old(r)@.to_multiset().insert(x),
{
    broadcast use vstd::seq_lib::group_to_multiset_ensures;

    let mut k: usize = 0;
    while k < r.len() && key_le_exec(&r[k], &x)
        invariant
            k <= r.len(),
            sorted_for_hit_testing(r@),
            forall|j: int| 0 <= j < k ==> key_le(r@[j], x),
        decreases r.len() - k,
    {
        k = k + 1;
    }
    let ghost before = r@;
    r.insert(k, x);
    proof {
        let after = r@;
        assert(after == before.insert(k as int, x));
        assert forall|i: int, j: int| 0 <= i < j < after.len() implies key_le(
            after[i],
            after[j],
        ) by {
            if i < k && j < k {
                assert(after[i] == before[i] && after[j] == before[j]);
            } else if i < k && j == k {
                assert(after[i] == before[i]);
            } else if i < k && j > k {
                assert(after[i] == before[i] && after[j] == before[j - 1]);
            } else if i == k && j > k {
                assert(after[j] == before[j - 1]);
                if k < before.len() {
                    assert(!key_le(before[k as int], x));
                    assert(key_le(before[k as int], before[j - 1]));
                }
            } else {
                assert(after[i] == before[i - 1] && after[j] == before[j - 1]);
            }
        }
    }
}

/// Put the flat descriptor list into its published order: ascending
/// paint-order bucket, and ascending rectangle area inside one bucket.
/// The list keeps exactly the descriptors it had.
pub fn sort_elements(v: &mut Vec<UIElementProps>)
    ensures
        sorted_for_hit_testing(final(v)@),
        final(v)@.to_multiset() == old(v)@.to_multiset(),
{
    broadcast use vstd::seq_lib::group_to_multiset_ensures;

    let mut r: Vec<UIElementProps> = Vec::new();
    while v.len() > 0
        invariant
            sorted_for_hit_testing(r@),
            r@.to_multiset().add(v@.to_multiset()) == old(v)@.to_multiset(),
        decreases v.len(),
    {
        let ghost v_before = v@;
        let x = v.pop().unwrap();
        proof {
            let i = v_before.len() - 1;
            assert(x == v_before[i as int]);
            assert(v@ =~= v_before.remove(i as int));
            vstd::seq_lib::to_multiset_remove(v_before, i as int);
            assert(v@.to_multiset() == v_before.to_multiset().remove(x));
            assert(v_before.contains(x));
            vstd::seq_lib::to_multiset_contains(v_before, x);
        }
        let ghost r_before = r@;
        insert_sorted(&mut r, x);
        proof {
            assert(r@.to_multiset().add(v@.to_multiset()) =~= r_before.to_multiset().add(
                v_before.to_multiset(),
            ));
        }
    }
    proof {
        assert(v@.to_multiset().len() == 0);
        vstd::multiset::lemma_multiset_empty_len::<UIElementProps>(v@.to_multiset());
        assert(r@.to_multiset().add(v@.to_multiset()) =~= r@.to_multiset());
    }
    *v = r;
}

impl Clone for UIElementProps {
    /// A clone carries the same model as the value it was made from.
    fn clone(&self) -> (r: UIElementProps)
        ensures
            r@ == self@,
    {
        UIElementProps {
            name: self.name.clone(),
            classname: self.classname.clone(),
            control_type: self.control_type.clone(),
            localized_control_type: self.localized_control_type.clone(),
            framework_id: self.framework_id.clone(),
            runtime_id: copy_ids(&self.runtime_id),
            bounding_rect: self.bounding_rect,
            bounding_rect_size: self.bounding_rect_size,
            level: self.level,
            z_order: self.z_order,
        }
    }
}

/// One completed snapshot: the arena tree of descriptors and the flat
/// descriptor list in published (hit-testing) order.  Both are created
/// once per traversal and never mutated afterwards; a rescan builds a
/// fresh pair, and handles are only meaningful within the snapshot that
/// produced them.
#[derive(Debug)]
pub struct UITree {
    pub tree: UITreeMap<UIElementProps>,
    pub ui_elements: Vec<UIElementProps>,
}

impl UITree {
    /// Pack a finished arena and its published list into one snapshot.
    pub fn new(tree: UITreeMap<UIElementProps>, ui_elements: Vec<UIElementProps>) -> (r: UITree)
        ensures
            r.tree == tree,
            r.ui_elements == ui_elements,
    {
        UITree { tree, ui_elements }
    }

    /// The arena tree of the snapshot.
    pub fn get_tree(&self) -> (r: &UITreeMap<UIElementProps>)
        ensures
            *r == self.tree,
    {
        &self.tree
    }

    /// The flat descriptor list in published order.
    pub fn get_elements(&self) -> (r: &Vec<UIElementProps>)
        ensures
            *r == self.ui_elements,
    {
        &self.ui_elements
    }

    /// Call `f` on every `(handle, descriptor)` pair of the arena in
    /// handle order.
    pub fn for_each<F: FnMut(usize, &UIElementProps)>(&self, f: F)
        requires
            forall|i: usize, t: &UIElementProps| call_requires(f, (i, t)),
    {
        self.tree.for_each(f);
    }

    /// Handle of the snapshot root.
    pub fn root(&self) -> (r: usize)
        ensures
            r == 0,
    {
        self.tree.root()
    }

    /// Child handles of the node, in the provider's enumeration order.
    pub fn children(&self, index: usize) -> (r: &[usize])
        requires
            index < self.tree.spec_len(),
        ensures
            r@ == self.tree.children_of(index as int),
    {
        self.tree.children(index)
    }

    /// Display label and descriptor of the node.
    pub fn node(&self, index: usize) -> (r: (&str, &UIElementProps))
        requires
            index < self.tree.spec_len(),
        ensures
            r.0@ == self.tree.nodes@[index as int].name@,
            *r.1 == self.tree.nodes@[index as int].data,
    {
        self.tree.node(index)
    }

    /// The descriptor at a screen point: the first element of the
    /// published list whose rectangle contains the point, or `None` when
    /// the point lies outside every rectangle.
    pub fn find_at(&self, point: &Point) -> (r: Option<&UIElementProps>)
        ensures
            match first_hit(self.ui_elements@, *point) {
                Some(k) => r is Some && *r.unwrap() == self.ui_elements@[k],
                None => r is None,
            },
    {
        crate::rectangle::get_point_bounding_rect(point, &self.ui_elements)
    }
}

} // verus!
