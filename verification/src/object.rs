use crate::geometry::{Geometry, Hit};
use crate::material::Material;
use crate::scalar::Scalar;
use vstd::prelude::*;

verus! {

/// What was measured along the shadow ray that runs from one light to the
/// point being shaded.
#[derive(Clone, Debug)]
pub struct Probe {
    /// `dot(normal, direction)`: the surface normal at the point against the
    /// direction of the shadow ray.
    pub facing: Scalar,
    /// How far the point lies from the light.
    pub reach: Scalar,
    /// For each object of the scene, in the scene's order, where the shadow
    /// ray meets it, if it does.
    pub hits: Vec<Option<Hit>>,
}

/// Whether the object at `j` stands between the light and the point: it is
/// not the object `skip` that is being shaded, and the shadow ray meets it
/// strictly before `reach`.
pub open spec fn blocks(hits: Seq<Option<Hit>>, j: int, skip: int, reach: Scalar) -> bool {
    &&& 0 <= j < hits.len()
    &&& j != skip
    &&& hits[j] is Some
    &&& hits[j]->0.distance.below(reach)
}

/// Whether any object but `skip` stands between the light and the point.
pub open spec fn occluded(hits: Seq<Option<Hit>>, skip: int, reach: Scalar) -> bool {
    exists|j: int| #[trigger] blocks(hits, j, skip, reach)
}

/// Whether the light does not reach the point: the light lies behind the
/// surface (the normal points along the shadow ray), or another object
/// stands in between.
pub open spec fn shadowed(
    facing: Scalar,
    reach: Scalar,
    hits: Seq<Option<Hit>>,
    skip: int,
) -> bool {
    facing.positive() || occluded(hits, skip, reach)
}

impl Probe {
    /// Whether this probe finds its light cut off from the object `skip`.
    pub open spec fn dark(&self, skip: int) -> bool {
        shadowed(self.facing, self.reach, self.hits@, skip)
    }
}

/// The lights among the first `n` that reach the object `skip`, in
/// ascending order.
pub open spec fn lit(probes: Seq<Probe>, skip: int, n: int) -> Seq<usize>
    decreases n,
{
    if n <= 0 {
        Seq::empty()
    } else if probes[n - 1].dark(skip) {
        lit(probes, skip, n - 1)
    } else {
        lit(probes, skip, n - 1).push((n - 1) as usize)
    }
}

/// A thing in the scene: a surface and what it is made of.
#[derive(Clone, Copy, Debug)]
pub struct Object {
    pub material: Material,
    pub geometry: Geometry,
}

impl Object {
    pub fn new(material: Material, geometry: Geometry) -> (r: Object)
        ensures
            r == (Object { material, geometry }),
    {
        Object { material, geometry }
    }

    /// The default material on the default plane.
    pub fn default() -> (r: Object)
        ensures
            r.material matches Material::Lambertian(m) && m.albedo == (crate::image::Color {
                red: Scalar { bits: crate::material::EIGHT_BITS },
                green: Scalar { bits: crate::material::EIGHT_BITS },
                blue: Scalar { bits: crate::material::EIGHT_BITS },
            }),
            r.geometry matches Geometry::Plane(p) && p.distance == (Scalar { bits: 0 })
                && p.normal == (crate::vec3::Vec3 {
                x: Scalar { bits: 0 },
                y: Scalar { bits: crate::geometry::MINUS_ONE_BITS },
                z: Scalar { bits: 0 },
            }),
    {
        Object {
            material: Material::Lambertian(crate::material::default()),
            geometry: Geometry::Plane(crate::geometry::default()),
        }
    }

    /// Whether a light is cut off from a point on the object at `index`.
    ///
    /// `facing` is the surface normal at the point against the direction of
    /// the shadow ray, `reach` the distance from the light to the point, and
    /// `hits` holds, for each object of the scene, where the shadow ray meets
    /// it. The object at `index` never shadows itself.
    pub fn is_shadow(
        index: usize,
        facing: Scalar,
        reach: Scalar,
        hits: &Vec<Option<Hit>>,
    ) -> (r: bool)
        ensures
            r == shadowed(facing, reach, hits@, index as int),
    {
        if facing.is_positive() {
            return true;
        }
        let mut j: usize = 0;
        while j < hits.len()
            invariant
                j <= hits.len(),
                forall|k: int| 0 <= k < j ==> !blocks(hits@, k, index as int, reach),
            decreases hits.len() - j,
        {
            if j != index {
                match hits[j] {
                    Some(hit) => {
                        if hit.distance.lt(reach) {
                            assert(blocks(hits@, j as int, index as int, reach));
                            return true;
                        }
                    },
                    None => {},
                }
            }
            j = j + 1;
        }
        false
    }

    /// The lights that reach a point on the object at `index`: the positions
    /// in `probes`, in ascending order, of the probes that find no shadow.
    /// The colour of the point is black plus what the material makes of each
    /// of these lights, added in this order; with no light left it is black.
    pub fn shade(index: usize, probes: &Vec<Probe>) -> (r: Vec<usize>)
        ensures
            r@ == lit(probes@, index as int, probes@.len() as int),
            probes@.len() == 0 ==> r@.len() == 0,
            forall|k: int| 0 <= k < r@.len() ==> r@[k] < probes@.len() && !probes@[r@[k] as int].dark(index as int),
            forall|k: int, l: int| 0 <= k < l < r@.len() ==> r@[k] < r@[l],
            forall|i: int|
                0 <= i < probes@.len() && !probes@[i].dark(index as int) ==> r@.contains(
                    i as usize,
                ),
    {
        let mut chosen: Vec<usize> = Vec::new();
        let mut i: usize = 0;
        while i < probes.len()
            invariant
                i <= probes.len(),
                chosen@ == lit(probes@, index as int, i as int),
            decreases probes.len() - i,
        {
            let probe = &probes[i];
            if !Object::is_shadow(index, probe.facing, probe.reach, &probe.hits) {
                chosen.push(i);
            }
            i = i + 1;
        }
        proof {
            lit_is_the_unshadowed(probes@, index as int, probes@.len() as int);
        }
        chosen
    }
}

/// The order of the objects does not matter to a shadow: rearrange the
/// objects in any way, `to` giving each one's new place and `from` each
/// place's old one, and a light is cut off from the object that was at
/// `skip` exactly when it was before.
pub proof fn shadow_ignores_order(
    facing: Scalar,
    reach: Scalar,
    hits: Seq<Option<Hit>>,
    skip: int,
    moved: Seq<Option<Hit>>,
    to: Seq<int>,
    from: Seq<int>,
)
    requires
        0 <= skip < hits.len(),
        moved.len() == hits.len(),
        to.len() == hits.len(),
        from.len() == hits.len(),
        forall|i: int|
            0 <= i < hits.len() ==> 0 <= #[trigger] to[i] < hits.len() && from[to[i]] == i
                && moved[to[i]] == hits[i],
        forall|k: int|
            0 <= k < hits.len() ==> 0 <= #[trigger] from[k] < hits.len() && to[from[k]] == k,
    ensures
        occluded(moved, to[skip], reach) == occluded(hits, skip, reach),
        shadowed(facing, reach, moved, to[skip]) == shadowed(facing, reach, hits, skip),
{
    if occluded(hits, skip, reach) {
        let j = choose|j: int| #[trigger] blocks(hits, j, skip, reach);
        assert(from[to[j]] == j);
        assert(blocks(moved, to[j], to[skip], reach));
    }
    if occluded(moved, to[skip], reach) {
        let k = choose|k: int| #[trigger] blocks(moved, k, to[skip], reach);
        let j = from[k];
        assert(to[j] == k);
        assert(moved[to[j]] == hits[j]);
        assert(blocks(hits, j, skip, reach));
    }
}

/// Shading has no memory: two runs of probes that hold the same
/// measurements name the same lights.
pub proof fn shade_is_determined(a: Seq<Probe>, b: Seq<Probe>, skip: int, n: int)
    requires
        0 <= n <= a.len(),
        n <= b.len(),
        forall|i: int|
            0 <= i < n ==> a[i].facing == b[i].facing && a[i].reach == b[i].reach && a[i].hits@
                == b[i].hits@,
    ensures
        lit(a, skip, n) == lit(b, skip, n),
    decreases n,
{
    if n > 0 {
        shade_is_determined(a, b, skip, n - 1);
        assert(a[n - 1].dark(skip) == b[n - 1].dark(skip));
    }
}

/// The lights that `lit` names are exactly those whose probes find no
/// shadow, each once and in ascending order.
pub proof fn lit_is_the_unshadowed(probes: Seq<Probe>, skip: int, n: int)
    requires
        0 <= n <= probes.len(),
        n <= usize::MAX,
    ensures
        forall|k: int|
            0 <= k < lit(probes, skip, n).len() ==> 0 <= (#[trigger] lit(probes, skip, n)[k]) < n
                && !probes[lit(probes, skip, n)[k] as int].dark(skip),
        forall|k: int, l: int|
            0 <= k < l < lit(probes, skip, n).len() ==> lit(probes, skip, n)[k] < lit(
                probes,
                skip,
                n,
            )[l],
        forall|i: int|
            0 <= i < n && !probes[i].dark(skip) ==> lit(probes, skip, n).contains(i as usize),
    decreases n,
{
    if n > 0 {
        lit_is_the_unshadowed(probes, skip, n - 1);
        let before = lit(probes, skip, n - 1);
        let now = lit(probes, skip, n);
        if !probes[n - 1].dark(skip) {
            assert(now[before.len() as int] == (n - 1) as usize);
            assert forall|i: int| 0 <= i < n && !probes[i].dark(skip) implies now.contains(
                i as usize,
            ) by {
                if i < n - 1 {
                    let k = choose|k: int| 0 <= k < before.len() && before[k] == i as usize;
                    assert(now[k] == i as usize);
                }
            }
        }
    }
}

/// What is no number casts no shadow: a NaN where the facing, the reach or
/// a distance should be never cuts a light off.
pub proof fn nan_casts_no_shadow(facing: Scalar, reach: Scalar, hits: Seq<Option<Hit>>, skip: int)
    ensures
        reach.nan() ==> !occluded(hits, skip, reach),
        facing.nan() ==> shadowed(facing, reach, hits, skip) == occluded(hits, skip, reach),
        (forall|j: int| 0 <= j < hits.len() && hits[j] is Some ==> hits[j]->0.distance.nan())
            ==> !occluded(hits, skip, reach),
{
    if reach.nan() && occluded(hits, skip, reach) {
        let j = choose|j: int| #[trigger] blocks(hits, j, skip, reach);
        assert(false);
    }
    if (forall|j: int| 0 <= j < hits.len() && hits[j] is Some ==> hits[j]->0.distance.nan())
        && occluded(hits, skip, reach) {
        let j = choose|j: int| #[trigger] blocks(hits, j, skip, reach);
        assert(hits[j] is Some);
        assert(false);
    }
}

} // verus!
