//! Intersections, the surfaces that decide them, and the choice of the
//! nearest one in a scene.

use crate::material::Material;
use crate::scalar::{Scalar, Value};
use crate::vec3::Vec3;
use vstd::prelude::*;

verus! {

/// Where a ray meets a surface: the point, the unit normal there turned
/// against the ray, the ray parameter `t` of the point, and the material of
/// the surface.
#[derive(Clone, Copy, Debug, PartialEq, Eq, Structural)]
pub struct HitRecord {
    pub point: Vec3,
    pub normal: Vec3,
    pub t: Scalar,
    pub material: Material,
}

/// A surface that a ray can hit.
///
/// The arithmetic of a ray against the surface is done by the caller, who
/// hands in its results as the surface's `Probe`. The surface decides from
/// them whether the ray hits it at a parameter within `[t_min, t_max]`.
pub trait Hittable {
    /// What the arithmetic of a ray against this kind of surface yields.
    type Probe;

    /// The hit that `probe` amounts to within `[t_min, t_max]`, if it is one.
    spec fn hit_of(&self, probe: &Self::Probe, t_min: Scalar, t_max: Scalar) -> Option<HitRecord>;

    fn hit(&self, probe: &Self::Probe, t_min: Scalar, t_max: Scalar) -> (hit: Option<HitRecord>)
        ensures
            hit == self.hit_of(probe, t_min, t_max),
    ;
}

/// What each surface of a scene makes of its probe, in the order of the
/// scene. A surface for which there is no probe is not hit.
pub open spec fn candidates<H: Hittable>(
    scene: Seq<H>,
    probes: Seq<H::Probe>,
    t_min: Scalar,
    t_max: Scalar,
) -> Seq<Option<HitRecord>> {
    Seq::new(
        scene.len(),
        |i: int|
            if i < probes.len() {
                scene[i].hit_of(&probes[i], t_min, t_max)
            } else {
                None
            },
    )
}

/// Whether candidate `i` is a hit that the scan can take: its `t` is below
/// infinity.
pub open spec fn in_reach(candidates: Seq<Option<HitRecord>>, i: int) -> bool {
    &&& 0 <= i < candidates.len()
    &&& candidates[i] matches Some(hit)
    &&& hit.t@.below(Value::PosInfinity)
}

/// Whether candidate `i` is the nearest hit: no candidate in reach has a
/// smaller `t`, and every one before `i` has a greater `t`. Of several hits
/// at the same least `t`, the first in the order of the scene is the nearest.
pub open spec fn nearest(candidates: Seq<Option<HitRecord>>, i: int) -> bool {
    &&& in_reach(candidates, i)
    &&& forall|j: int| #[trigger]
        in_reach(candidates, j) ==> candidates[i].unwrap().t.at_most(candidates[j].unwrap().t)
    &&& forall|j: int|
        0 <= j < i && #[trigger] in_reach(candidates, j) ==> candidates[i].unwrap().t.below(
            candidates[j].unwrap().t,
        )
}

/// The nearest hit among the candidates, if any is in reach.
pub open spec fn closest(candidates: Seq<Option<HitRecord>>) -> Option<HitRecord> {
    if exists|i: int| nearest(candidates, i) {
        candidates[choose|i: int| nearest(candidates, i)]
    } else {
        None
    }
}

/// At most one candidate is the nearest.
pub proof fn lemma_nearest_is_unique(candidates: Seq<Option<HitRecord>>, i: int, j: int)
    requires
        nearest(candidates, i),
        nearest(candidates, j),
    ensures
        i == j,
{
    if i < j {
        assert(in_reach(candidates, i));
    } else if j < i {
        assert(in_reach(candidates, j));
    }
}

/// Of two hits in reach, the one with the strictly smaller `t` is the
/// nearest, whichever comes first in the scene. At equal `t` the first is.
pub proof fn lemma_closest_of_two(first: HitRecord, second: HitRecord)
    requires
        first.t@.below(Value::PosInfinity),
        second.t@.below(Value::PosInfinity),
    ensures
        second.t.below(first.t) ==> closest(seq![Some(first), Some(second)]) == Some(second),
        first.t.at_most(second.t) ==> closest(seq![Some(first), Some(second)]) == Some(first),
{
    let both = seq![Some(first), Some(second)];
    assert(in_reach(both, 0));
    assert(in_reach(both, 1));
    if second.t.below(first.t) {
        assert(nearest(both, 1));
        lemma_nearest_is_unique(both, 1, choose|i: int| nearest(both, i));
    } else {
        assert(nearest(both, 0));
        lemma_nearest_is_unique(both, 0, choose|i: int| nearest(both, i));
    }
}

/// A scene: surfaces of one kind, scanned in their order.
impl<H: Hittable> Hittable for Vec<H> {
    /// One probe for each surface, in the order of the scene.
    type Probe = Vec<H::Probe>;

    /// The nearest of the hits that the surfaces make of their probes.
    open spec fn hit_of(&self, probes: &Vec<H::Probe>, t_min: Scalar, t_max: Scalar) -> Option<
        HitRecord,
    > {
        closest(candidates(self@, probes@, t_min, t_max))
    }

    /// Scans the scene for the nearest hit.
    ///
    /// A hit is taken when its `t` is strictly below the least `t` so far,
    /// starting from infinity. So a hit at infinity is never taken, and of
    /// hits at the same `t` the first one stays.
    fn hit(&self, probes: &Vec<H::Probe>, t_min: Scalar, t_max: Scalar) -> (hit: Option<HitRecord>) {
        let ghost all = candidates(self@, probes@, t_min, t_max);
        let mut found: Option<HitRecord> = None;
        let ghost mut at: int = 0;
        let mut closest_t: Scalar = Scalar::infinity();
        let mut k: usize = 0;
        while k < self.len() && k < probes.len()
            invariant
                k <= self.len(),
                k <= probes.len(),
                all == candidates(self@, probes@, t_min, t_max),
                !closest_t.nan(),
                match found {
                    Some(hit) => {
                        &&& 0 <= at < k
                        &&& in_reach(all, at)
                        &&& all[at] == Some(hit)
                        &&& hit.t == closest_t
                        &&& forall|j: int|
                            0 <= j < k && #[trigger] in_reach(all, j) ==> closest_t.at_most(
                                all[j].unwrap().t,
                            )
                        &&& forall|j: int|
                            0 <= j < at && #[trigger] in_reach(all, j) ==> closest_t.below(
                                all[j].unwrap().t,
                            )
                    },
                    None => {
                        &&& closest_t@ == Value::PosInfinity
                        &&& forall|j: int| 0 <= j < k ==> !in_reach(all, j)
                    },
                },
            decreases self.len() - k,
        {
            if let Some(hit) = self[k].hit(&probes[k], t_min, t_max) {
                if hit.t.lt(closest_t) {
                    closest_t = hit.t;
                    found = Some(hit);
                    proof {
                        at = k as int;
                    }
                }
            }
            k += 1;
        }
        proof {
            assert forall|j: int| k <= j implies !in_reach(all, j) by {}
            match found {
                Some(hit) => {
                    assert(nearest(all, at));
                    lemma_nearest_is_unique(all, at, choose|i: int| nearest(all, i));
                },
                None => {
                    assert forall|i: int| !nearest(all, i) by {}
                },
            }
        }
        found
    }
}

} // verus!
