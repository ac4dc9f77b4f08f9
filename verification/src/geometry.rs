use crate::scalar::Scalar;
use crate::vec3::Vec3;
use vstd::prelude::*;
use vstd::std_specs::cmp::PartialEqSpecImpl;

verus! {

/// The pattern of `-1`.
pub const MINUS_ONE_BITS: u64 = 0xbff0_0000_0000_0000u64;

/// Where a ray meets a surface: how far along the ray, the surface normal
/// there (not necessarily of unit length) and the point itself.
#[derive(Clone, Copy, Debug)]
pub struct Hit {
    pub distance: Scalar,
    pub normal: Vec3,
    pub point: Vec3,
}

impl Hit {
    /// Field by field IEEE equality.
    pub open spec fn same(self, other: Hit) -> bool {
        &&& self.distance.same(other.distance)
        &&& self.normal.same(other.normal)
        &&& self.point.same(other.point)
    }

    /// What a candidate is worth on a sphere: a hit if it lies ahead of the
    /// ray's origin, nothing if it lies at or behind it or is no number.
    pub open spec fn ahead(self) -> Option<Hit> {
        if self.distance.positive() {
            Some(self)
        } else {
            None
        }
    }

    /// What a candidate is worth on a plane: a hit if it lies ahead of the
    /// ray's origin and within reach. A ray that runs parallel to the plane
    /// has its candidate at an infinity or at no number, and misses.
    pub open spec fn ahead_in_reach(self) -> Option<Hit> {
        if self.distance.positive() && self.distance.finite() {
            Some(self)
        } else {
            None
        }
    }

    /// The hit that the two roots of a ray-sphere quadratic give: none
    /// unless the discriminant is positive (a tangent ray misses); else the
    /// nearer root if it lies ahead, else the farther one if that does.
    pub open spec fn of_roots(discriminant: Scalar, near: Hit, far: Hit) -> Option<Hit> {
        if !discriminant.positive() {
            None
        } else if near.distance.positive() {
            Some(near)
        } else {
            far.ahead()
        }
    }
}

impl PartialEq for Hit {
    fn eq(&self, other: &Hit) -> (r: bool) {
        self.distance == other.distance && self.normal == other.normal && self.point == other.point
    }
}

impl PartialEqSpecImpl for Hit {
    open spec fn obeys_eq_spec() -> bool {
        true
    }

    open spec fn eq_spec(&self, other: &Hit) -> bool {
        self.same(*other)
    }
}

/// The plane of the points `p` with `dot(normal, p) = distance`.
#[derive(Clone, Copy, Debug)]
pub struct Plane {
    pub normal: Vec3,
    pub distance: Scalar,
}

impl Plane {
    pub fn new(normal: Vec3, distance: Scalar) -> (r: Plane)
        ensures
            r == (Plane { normal, distance }),
    {
        Plane { normal, distance }
    }

    /// The plane through the origin whose normal is `(0, -1, 0)`.
    pub fn default() -> (r: Plane)
        ensures
            r.normal == (Vec3 {
                x: Scalar { bits: 0 },
                y: Scalar { bits: MINUS_ONE_BITS },
                z: Scalar { bits: 0 },
            }),
            r.distance == (Scalar { bits: 0 }),
    {
        Plane {
            normal: Vec3::new(Scalar::zero(), Scalar::from_bits(MINUS_ONE_BITS), Scalar::zero()),
            distance: Scalar::zero(),
        }
    }

    /// The hit of a ray that meets the plane `along` its direction at
    /// `point`, the caller having solved
    /// `along = (distance - dot(normal, origin)) / dot(normal, direction)`.
    /// Only a strictly positive, finite `along` is a hit: a ray that runs
    /// parallel to the plane gives an infinity or a NaN and misses like one
    /// that points away. The normal of the hit is the plane's.
    pub fn hit(&self, along: Scalar, point: Vec3) -> (r: Option<Hit>)
        ensures
            r == (Hit { distance: along, normal: self.normal, point }).ahead_in_reach(),
            r is Some <==> along.positive() && along.finite(),
    {
        if along.is_positive() && along.is_finite() {
            Some(Hit { distance: along, normal: self.normal, point })
        } else {
            None
        }
    }

    /// A point of the plane's own for `p`: `p` itself.
    pub fn sample(&self, p: &Vec3) -> (r: Vec3)
        ensures
            r == *p,
    {
        Vec3::new(p.x, p.y, p.z)
    }

    /// The normal, which is the same at every point.
    pub fn normal_at(&self, p: &Vec3) -> (r: Vec3)
        ensures
            r == self.normal,
    {
        self.normal
    }
}

/// The sphere of the points at `radius` from `center`.
#[derive(Clone, Copy, Debug)]
pub struct Sphere {
    pub center: Vec3,
    pub radius: Scalar,
}

impl Sphere {
    pub fn new(center: Vec3, radius: Scalar) -> (r: Sphere)
        ensures
            r == (Sphere { center, radius }),
    {
        Sphere { center, radius }
    }

    /// The hit of a ray on the sphere, the caller having evaluated the
    /// discriminant `b^2 - a c` of the quadratic and, for each of its two
    /// roots, the candidate that the root gives. `near` belongs to the
    /// smaller root, `far` to the larger; their normals are `point - center`
    /// as they come, not scaled to unit length.
    pub fn hit(&self, discriminant: Scalar, near: Hit, far: Hit) -> (r: Option<Hit>)
        ensures
            r == Hit::of_roots(discriminant, near, far),
            r is Some ==> r->0.distance.positive(),
            r is Some <==> discriminant.positive() && (near.distance.positive()
                || far.distance.positive()),
    {
        if discriminant.is_positive() {
            if near.distance.is_positive() {
                Some(near)
            } else if far.distance.is_positive() {
                Some(far)
            } else {
                None
            }
        } else {
            None
        }
    }

    /// A point of the sphere's own for `p`: always the zero vector.
    pub fn sample(&self, p: &Vec3) -> (r: Vec3)
        ensures
            r == Vec3::origin(),
    {
        Vec3::zero()
    }
}

/// The surfaces that an object can have.
#[derive(Clone, Copy, Debug)]
pub enum Geometry {
    Plane(Plane),
    Sphere(Sphere),
}

impl Geometry {
    /// The surface's own point for `p`.
    pub fn sample(&self, p: &Vec3) -> (r: Vec3)
        ensures
            r == match *self {
                Geometry::Plane(_) => *p,
                Geometry::Sphere(_) => Vec3::origin(),
            },
    {
        match self {
            Geometry::Plane(plane) => plane.sample(p),
            Geometry::Sphere(sphere) => sphere.sample(p),
        }
    }
}

/// The surface of an object that was given none: the default plane.
pub fn default() -> (r: Plane)
    ensures
        r.normal == (Vec3 {
            x: Scalar { bits: 0 },
            y: Scalar { bits: MINUS_ONE_BITS },
            z: Scalar { bits: 0 },
        }),
        r.distance == (Scalar { bits: 0 }),
{
    Plane::default()
}

/// A surface keeps nothing from one ray to the next: what it reports is a
/// function of the candidates alone, it is one of them as it was handed in,
/// and it lies strictly ahead of the ray's origin.
pub proof fn hit_is_a_candidate_ahead(discriminant: Scalar, near: Hit, far: Hit, candidate: Hit)
    ensures
        candidate.ahead_in_reach() is Some ==> candidate.ahead_in_reach() == Some(candidate)
            && candidate.distance.positive(),
        Hit::of_roots(discriminant, near, far) is Some ==> {
            let hit = Hit::of_roots(discriminant, near, far)->0;
            (hit == near || hit == far) && hit.distance.positive()
        },
        Hit::of_roots(discriminant, near, far) == Some(far) ==> far == near
            || !near.distance.positive(),
{
}

/// What is no number is a miss: a NaN where a distance or a discriminant
/// should be never gives a hit.
pub proof fn nan_is_a_miss(discriminant: Scalar, near: Hit, far: Hit, candidate: Hit)
    ensures
        candidate.distance.nan() ==> candidate.ahead_in_reach() is None,
        discriminant.nan() ==> Hit::of_roots(discriminant, near, far) is None,
        near.distance.nan() && far.distance.nan() ==> Hit::of_roots(discriminant, near, far)
            is None,
        Hit::of_roots(discriminant, near, far) is Some ==> !Hit::of_roots(
            discriminant,
            near,
            far,
        )->0.distance.nan(),
{
}

/// A ray that touches a sphere in one point misses it: a discriminant of
/// zero, of either sign, gives no hit.
pub proof fn tangent_is_a_miss(discriminant: Scalar, near: Hit, far: Hit)
    requires
        discriminant.magnitude() == 0,
    ensures
        Hit::of_roots(discriminant, near, far) is None,
{
}

} // verus!
