use crate::scalar::Scalar;
use vstd::prelude::*;
use vstd::std_specs::cmp::PartialEqSpecImpl;

verus! {

/// A vector of three scalars.
#[derive(Clone, Copy, Debug)]
pub struct Vec3 {
    pub x: Scalar,
    pub y: Scalar,
    pub z: Scalar,
}

impl Vec3 {
    /// The vector whose components are all positive zero.
    pub open spec fn origin() -> Vec3 {
        Vec3 { x: Scalar { bits: 0 }, y: Scalar { bits: 0 }, z: Scalar { bits: 0 } }
    }

    /// Component by component IEEE equality.
    pub open spec fn same(self, other: Vec3) -> bool {
        &&& self.x.same(other.x)
        &&& self.y.same(other.y)
        &&& self.z.same(other.z)
    }

    /// Each component negated.
    pub open spec fn negated(self) -> Vec3 {
        Vec3 { x: self.x.negated(), y: self.y.negated(), z: self.z.negated() }
    }

    pub fn new(x: Scalar, y: Scalar, z: Scalar) -> (r: Vec3)
        ensures
            r == (Vec3 { x, y, z }),
    {
        Vec3 { x, y, z }
    }

    /// The zero vector.
    pub fn zero() -> (r: Vec3)
        ensures
            r == Vec3::origin(),
    {
        Vec3 { x: Scalar::zero(), y: Scalar::zero(), z: Scalar::zero() }
    }

    /// `-self`.
    pub fn neg(self) -> (r: Vec3)
        ensures
            r == self.negated(),
    {
        Vec3 { x: self.x.neg(), y: self.y.neg(), z: self.z.neg() }
    }

    /// The refracted direction, once the caller has evaluated
    /// `k = 1 - eta^2 (1 - dot^2)` and the direction `bent` that holds for
    /// `k >= 0`: a negative `k` is total internal reflection and gives the
    /// zero vector.
    pub fn refract(k: Scalar, bent: Vec3) -> (r: Vec3)
        ensures
            r == if k.below(Scalar { bits: 0 }) {
                Vec3::origin()
            } else {
                bent
            },
    {
        if k.lt(Scalar::zero()) {
            Vec3::zero()
        } else {
            bent
        }
    }

    /// Whether a sample whose squared length is `length_squared` lies outside
    /// the unit ball, so that a rejection sampler draws again.
    pub fn outside_unit(length_squared: Scalar) -> (r: bool)
        ensures
            r == (Scalar { bits: crate::scalar::ONE_BITS }).below(length_squared),
    {
        length_squared.gt(Scalar::one())
    }
}

impl PartialEq for Vec3 {
    fn eq(&self, other: &Vec3) -> (r: bool) {
        self.x == other.x && self.y == other.y && self.z == other.z
    }
}

impl PartialEqSpecImpl for Vec3 {
    open spec fn obeys_eq_spec() -> bool {
        true
    }

    open spec fn eq_spec(&self, other: &Vec3) -> bool {
        self.same(*other)
    }
}

/// Negating twice gives the vector back.
pub proof fn negation_is_involution(v: Vec3)
    ensures
        v.negated().negated() == v,
{
    crate::scalar::negation_reverses(v.x, v.x);
    crate::scalar::negation_reverses(v.y, v.y);
    crate::scalar::negation_reverses(v.z, v.z);
}

} // verus!
