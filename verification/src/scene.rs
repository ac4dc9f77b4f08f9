use crate::geometry::Hit;
use crate::light::Light;
use crate::object::Object;
use crate::scalar::{Scalar, MAX_BITS};
use vstd::prelude::*;

verus! {

/// What a ray through the scene comes to.
#[derive(Clone, Copy, Debug)]
pub enum Trace {
    /// The ray's colour is black: it meets no object, or the scene has no
    /// light to show one.
    Black,
    /// The ray's colour is that of `hit` on the object at `object`.
    Shade { object: usize, hit: Hit },
}

/// Whether the candidate at `i` can be seen at all: there is one, and it
/// lies nearer than the largest finite distance.
pub open spec fn eligible(hits: Seq<Option<Hit>>, i: int) -> bool {
    &&& 0 <= i < hits.len()
    &&& hits[i] is Some
    &&& hits[i]->0.distance.below(Scalar { bits: MAX_BITS })
}

/// Whether the candidate at `i` is the one that the ray sees: no candidate
/// is nearer, and every earlier one is strictly farther, so that of several
/// at exactly the same distance the first is seen.
pub open spec fn nearest(hits: Seq<Option<Hit>>, i: int) -> bool {
    &&& eligible(hits, i)
    &&& forall|j: int| #[trigger]
        eligible(hits, j) ==> !hits[j]->0.distance.below(hits[i]->0.distance)
    &&& forall|j: int| #[trigger]
        eligible(hits, j) && j < i ==> hits[i]->0.distance.below(hits[j]->0.distance)
}

/// The objects and lights of a scene, each kind in the order in which it was
/// added.
#[derive(Clone, Debug)]
pub struct Scene {
    objects: Vec<Object>,
    lights: Vec<Light>,
}

impl Scene {
    /// The objects, in the order in which they were added.
    pub closed spec fn spec_objects(&self) -> Seq<Object> {
        self.objects@
    }

    /// The lights, in the order in which they were added.
    pub closed spec fn spec_lights(&self) -> Seq<Light> {
        self.lights@
    }

    /// The empty scene.
    pub fn new() -> (r: Scene)
        ensures
            r.spec_objects() == Seq::<Object>::empty(),
            r.spec_lights() == Seq::<Light>::empty(),
    {
        Scene { objects: Vec::new(), lights: Vec::new() }
    }

    /// Adds an object behind those that are there.
    pub fn add_object(&mut self, object: Object)
        ensures
            final(self).spec_objects() == old(self).spec_objects().push(object),
            final(self).spec_lights() == old(self).spec_lights(),
    {
        self.objects.push(object);
    }

    /// Adds a light behind those that are there.
    pub fn add_light(&mut self, light: Light)
        ensures
            final(self).spec_lights() == old(self).spec_lights().push(light),
            final(self).spec_objects() == old(self).spec_objects(),
    {
        self.lights.push(light);
    }

    pub fn objects(&self) -> (r: &Vec<Object>)
        ensures
            r@ == self.spec_objects(),
    {
        &self.objects
    }

    pub fn lights(&self) -> (r: &Vec<Light>)
        ensures
            r@ == self.spec_lights(),
    {
        &self.lights
    }

    /// Which of the candidates a ray sees, `hits` holding for each object
    /// where the ray meets it: the first of the nearest, if any lies nearer
    /// than the largest finite distance.
    pub fn nearest_hit(hits: &Vec<Option<Hit>>) -> (r: Option<usize>)
        ensures
            match r {
                Some(i) => nearest(hits@, i as int),
                None => forall|j: int| !eligible(hits@, j),
            },
    {
        let mut best: Option<usize> = None;
        let mut least: Scalar = Scalar::max();
        let mut i: usize = 0;
        while i < hits.len()
            invariant
                i <= hits.len(),
                !least.nan(),
                match best {
                    Some(b) => {
                        &&& b < i
                        &&& eligible(hits@, b as int)
                        &&& least == hits@[b as int]->0.distance
                        &&& forall|j: int| #[trigger]
                            eligible(hits@, j) && j < i ==> !hits@[j]->0.distance.below(least)
                        &&& forall|j: int| #[trigger]
                            eligible(hits@, j) && j < b ==> least.below(hits@[j]->0.distance)
                    },
                    None => {
                        &&& least == (Scalar { bits: MAX_BITS })
                        &&& forall|j: int| j < i ==> !eligible(hits@, j)
                    },
                },
            decreases hits.len() - i,
        {
            match hits[i] {
                Some(hit) => {
                    if hit.distance.lt(least) {
                        least = hit.distance;
                        best = Some(i);
                    }
                },
                None => {},
            }
            i = i + 1;
        }
        best
    }

    /// What the ray comes to whose candidates are `hits`, one for each
    /// object of the scene. With no lights every ray is black, whatever it
    /// meets; else it is black if it sees nothing, and the colour of the
    /// nearest hit if it sees something.
    pub fn color_at(&self, hits: &Vec<Option<Hit>>) -> (r: Trace)
        ensures
            self.spec_lights().len() == 0 ==> r == Trace::Black,
            r == Trace::Black <==> self.spec_lights().len() == 0 || forall|j: int|
                !eligible(hits@, j),
            r matches Trace::Shade { object, hit } ==> nearest(hits@, object as int) && Some(hit)
                == hits@[object as int],
    {
        if self.lights.len() == 0 {
            return Trace::Black;
        }
        match Scene::nearest_hit(hits) {
            Some(object) => {
                match hits[object] {
                    Some(hit) => Trace::Shade { object, hit },
                    None => Trace::Black,
                }
            },
            None => Trace::Black,
        }
    }
}

/// A ray sees at most one candidate: where two of them are equally near, it
/// is the first.
pub proof fn nearest_is_unique(hits: Seq<Option<Hit>>, i: int, j: int)
    requires
        nearest(hits, i),
        nearest(hits, j),
    ensures
        i == j,
{
    assert(eligible(hits, i));
    assert(eligible(hits, j));
}

/// The distance at which a ray sees something does not depend on the order
/// of the objects: the nearest candidates of a scene and of the same scene
/// rearranged, `to` giving each object's new place, lie equally far.
pub proof fn nearest_distance_ignores_order(
    hits: Seq<Option<Hit>>,
    moved: Seq<Option<Hit>>,
    to: Seq<int>,
    from: Seq<int>,
    i: int,
    k: int,
)
    requires
        moved.len() == hits.len(),
        to.len() == hits.len(),
        from.len() == hits.len(),
        forall|a: int|
            0 <= a < hits.len() ==> 0 <= #[trigger] to[a] < hits.len() && from[to[a]] == a
                && moved[to[a]] == hits[a],
        forall|b: int|
            0 <= b < hits.len() ==> 0 <= #[trigger] from[b] < hits.len() && to[from[b]] == b,
        nearest(hits, i),
        nearest(moved, k),
    ensures
        hits[i]->0.distance.same(moved[k]->0.distance),
{
    assert(eligible(hits, i));
    assert(eligible(moved, k));
    assert(moved[to[i]] == hits[i]);
    assert(eligible(moved, to[i]));
    let a = from[k];
    assert(to[a] == k);
    assert(moved[to[a]] == hits[a]);
    assert(eligible(hits, a));
}

/// What is no number is never seen, and neither is what lies at an
/// infinity or at the largest finite distance.
pub proof fn unseen_candidates(hits: Seq<Option<Hit>>, i: int)
    requires
        0 <= i < hits.len(),
        hits[i] is Some,
    ensures
        hits[i]->0.distance.nan() ==> !eligible(hits, i),
        hits[i]->0.distance.magnitude() >= MAX_BITS && !hits[i]->0.distance.negative()
            ==> !eligible(hits, i),
{
    assert(MAX_BITS & crate::scalar::MAGNITUDE_MASK == MAX_BITS && MAX_BITS
        & crate::scalar::SIGN_BIT == 0) by (bit_vector);
}

} // verus!
