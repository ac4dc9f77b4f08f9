use crate::vec3::Vec3;
use vstd::prelude::*;

verus! {

/// A ray: where it starts and where it heads. The direction need not have
/// unit length; distances along a ray are multiples of it.
#[derive(Clone, Copy, Debug)]
pub struct Ray {
    pub origin: Vec3,
    pub direction: Vec3,
}

impl Ray {
    pub fn new(origin: Vec3, direction: Vec3) -> (r: Ray)
        ensures
            r == (Ray { origin, direction }),
    {
        Ray { origin, direction }
    }
}

} // verus!
