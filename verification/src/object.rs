use vstd::prelude::*;
use crate::point::Point;
use crate::vector::Vector;

verus! {

/// A shape that can report its surface normal at a world-space point.
///
/// Each implementer states when a query is answerable (`normal_req`) and
/// what the returned vector satisfies (`normal_ens`), so new shapes can join
/// without the callers changing.
pub trait Object: Sized {
    spec fn normal_req(&self, point: Point) -> bool;

    spec fn normal_ens(&self, point: Point, v: Vector) -> bool;

    fn normal_at(&self, point: &Point) -> (v: Vector)
        requires
            self.normal_req(*point),
        ensures
            self.normal_ens(*point, v),
    ;
}

} // verus!
