use vstd::prelude::*;

verus! {

/// The square of the distance between two points of the plane.
pub open spec fn squared_distance(a: (i32, i32), b: (i32, i32)) -> int {
    (a.0 - b.0) * (a.0 - b.0) + (a.1 - b.1) * (a.1 - b.1)
}

/// `found` is what a search from `from` for the nearest of `points` may
/// return: nothing when there are no points, else one of them that none of
/// the others is nearer than.
pub open spec fn nearest_in(points: Set<(i32, i32)>, from: (i32, i32), found: Option<(i32, i32)>) -> bool {
    match found {
        None => forall|p: (i32, i32)| !points.contains(p),
        Some(best) => points.contains(best) && forall|p: (i32, i32)| #[trigger]
            points.contains(p) ==> squared_distance(from, best) <= squared_distance(from, p),
    }
}

/// A k-d tree of `kd_tree` over points of the plane.
#[verifier::external_body]
pub struct PreyIndex {
    tree: kd_tree::KdTree<[i64; 2]>,
}

/// The points that an index holds.
pub uninterp spec fn indexed_points(index: PreyIndex) -> Set<(i32, i32)>;

/// Calls `kd_tree::KdTree::build` on the points, each coordinate widened to
/// 64 bits: the tree holds the points of `points` and no others.
#[verifier::external_body]
pub(crate) fn build_index(points: &Vec<(i32, i32)>) -> (index: PreyIndex)
    ensures
        indexed_points(index) == points@.to_set(),
{
    let mut items: Vec<[i64; 2]> = Vec::with_capacity(points.len());
    for p in points.iter() {
        items.push([p.0 as i64, p.1 as i64]);
    }
    PreyIndex { tree: kd_tree::KdTree::build(items) }
}

/// Calls `kd_tree::KdSliceN::nearest` through the tree: nothing when the tree
/// is empty, else a point of the tree that no other is nearer to `(x, y)`
/// than. Which of several equally near points comes back is not said. With
/// no coordinate below zero the squares of the distances fit in 64 bits.
#[verifier::external_body]
pub(crate) fn nearest_point(index: &PreyIndex, x: i32, y: i32) -> (found: Option<(i32, i32)>)
    requires
        0 <= x,
        0 <= y,
        forall|p: (i32, i32)| #[trigger] indexed_points(*index).contains(p) ==> 0 <= p.0 && 0 <= p.1,
    ensures
        nearest_in(indexed_points(*index), (x, y), found),
{
    match index.tree.nearest(&[x as i64, y as i64]) {
        Some(hit) => Some((hit.item[0] as i32, hit.item[1] as i32)),
        None => None,
    }
}

} // verus!
