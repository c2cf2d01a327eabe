//! Spatial hit testing: which element of the published snapshot list is at
//! a given screen point.
//!
//! The published list is sorted ascending by paint-order bucket and, inside
//! one bucket, ascending by rectangle area, so a linear scan that returns
//! the first containing rectangle yields the topmost, most specific
//! element with no comparison at query time.

use vstd::prelude::*;

use crate::geometry::{Point, Rect};
use crate::uiexplore::UIElementProps;

verus! {

/// The descriptor's rectangle contains the point (edges inclusive).
pub open spec fn element_hit(e: UIElementProps, p: Point) -> bool {
    e.bounding_rect.spec_contains(p.x as int, p.y as int)
}

/// Index of the first descriptor at or after `i` whose rectangle contains
/// the point.
pub open spec fn first_hit_from(s: Seq<UIElementProps>, p: Point, i: int) -> Option<int>
    decreases s.len() - i,
{
    if i < 0 || i >= s.len() {
        None
    } else if element_hit(s[i], p) {
        Some(i)
    } else {
        first_hit_from(s, p, i + 1)
    }
}

/// Index of the first descriptor in the list whose rectangle contains the
/// point, scanning in list order.
pub open spec fn first_hit(s: Seq<UIElementProps>, p: Point) -> Option<int> {
    first_hit_from(s, p, 0)
}

/// What `first_hit_from` returns: the least hit index at or after `i`, or
/// `None` when no element at or after `i` contains the point.
pub proof fn lemma_first_hit_from_spec(s: Seq<UIElementProps>, p: Point, i: int)
    requires
        0 <= i,
    ensures
        match first_hit_from(s, p, i) {
            Some(k) => {
                &&& i <= k < s.len()
                &&& element_hit(s[k], p)
                &&& forall|m: int| i <= m < k ==> !element_hit(s[m], p)
            },
            None => forall|m: int| i <= m < s.len() ==> !element_hit(s[m], p),
        },
    decreases s.len() - i,
{
    if i < s.len() && !element_hit(s[i], p) {
        lemma_first_hit_from_spec(s, p, i + 1);
    }
}

/// A point exactly on an edge is inside (same inclusive test as
/// [`crate::geometry::is_inside_rectancle`]).
pub fn is_inside_rectancle(rect: &Rect, x: i32, y: i32) -> (r: bool)
    ensures
        r == rect.spec_contains(x as int, y as int),
{
    crate::geometry::is_inside_rectancle(rect, x, y)
}

/// Linear scan of the published list in its order: the first descriptor
/// whose bounding rectangle contains the point, or `None` when the point
/// lies outside every rectangle.
pub fn get_point_bounding_rect<'a>(
    point: &Point,
    ui_elements: &'a Vec<UIElementProps>,
) -> (r: Option<&'a UIElementProps>)
    ensures
        match first_hit(ui_elements@, *point) {
            Some(k) => r is Some && *r.unwrap() == ui_elements@[k],
            None => r is None,
        },
{
    let mut i: usize = 0;
    while i < ui_elements.len()
        invariant
            i <= ui_elements.len(),
            first_hit(ui_elements@, *point) == first_hit_from(ui_elements@, *point, i as int),
        decreases ui_elements.len() - i,
    {
        if is_inside_rectancle(&ui_elements[i].bounding_rect, point.x, point.y) {
            return Some(&ui_elements[i]);
        }
        i = i + 1;
    }
    None
}

/// One paint-order/area key precedes another: strictly lower bucket, or
/// the same bucket and no larger area.
pub open spec fn key_le(a: UIElementProps, b: UIElementProps) -> bool {
    ||| a.z_order < b.z_order
    ||| (a.z_order == b.z_order && a.bounding_rect_size <= b.bounding_rect_size)
}

/// The list is in publishable order: ascending paint-order bucket, and
/// ascending area inside one bucket.
pub open spec fn sorted_for_hit_testing(s: Seq<UIElementProps>) -> bool {
    forall|i: int, j: int| 0 <= i < j < s.len() ==> key_le(s[i], s[j])
}

/// Hit-test tie-break law.  On a list in publishable order, whenever some
/// descriptor contains the point the scan finds one, and the one it finds
/// has the lowest paint-order bucket of any containing descriptor; among
/// containing descriptors of that same bucket it has the smallest area.
pub proof fn lemma_first_hit_topmost_smallest(s: Seq<UIElementProps>, p: Point, j: int)
    requires
        sorted_for_hit_testing(s),
        0 <= j < s.len(),
        element_hit(s[j], p),
    ensures
        first_hit(s, p) is Some,
        ({
            let k = first_hit(s, p).unwrap();
            &&& 0 <= k <= j
            &&& element_hit(s[k], p)
            &&& s[k].z_order <= s[j].z_order
            &&& s[k].z_order == s[j].z_order ==> s[k].bounding_rect_size <= s[j].bounding_rect_size
        }),
{
    lemma_first_hit_from_spec(s, p, 0);
    let k = first_hit(s, p).unwrap();
    assert(k <= j);
    if k < j {
        assert(key_le(s[k], s[j]));
    }
}

} // verus!
