use vstd::prelude::*;
use crate::object::Object;
use crate::scalar::Scalar;

verus! {

/// A ray parameter paired with the shape hit there.
#[derive(Debug)]
pub struct Intersection<T: Object> {
    pub t: Scalar,
    pub object: T,
}

impl<T: Object> Intersection<T> {
    pub fn new(t: Scalar, object: T) -> (i: Intersection<T>)
        ensures
            i.t == t,
            i.object == object,
    {
        Intersection { t, object }
    }
}

} // verus!
