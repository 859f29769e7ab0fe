use vstd::prelude::*;
use crate::vector::{Vec2, Vec3};

verus! {

/// A ray: where it starts and where it points.
#[derive(Clone, Copy, Debug)]
pub struct Ray {
    pub origin: Vec3,
    pub direction: Vec3,
}

/// What is known of the place where a ray meets a surface.
#[derive(Clone, Copy, Debug)]
pub struct RayHit {
    /// Distance along the ray.
    pub distance: i64,
    pub hitpoint: Vec3,
    /// Surface normal, turned to face the incoming ray.
    pub normal: Vec3,
    /// Handle of the material at the hit.
    pub material: usize,
    pub frontface: bool,
    pub tex_coords: Option<Vec2>,
    pub tangent: Option<Vec3>,
    pub bitangent: Option<Vec3>,
}

impl RayHit {
    /// Whether the distance lies within `[t_min, t_max]`.
    pub open spec fn within(self, t_min: i64, t_max: i64) -> bool {
        t_min <= self.distance <= t_max
    }

    /// Makes the record of a hit at `distance` along a ray. `normal` is the
    /// surface normal and `reversed` its opposite; `against` says whether
    /// the normal points against the ray. The record carries the one of the
    /// two that faces the incoming ray, and the hit counts as a front-face
    /// hit where that is the normal itself. Texture data is absent.
    pub fn new(
        distance: i64,
        hitpoint: Vec3,
        normal: Vec3,
        reversed: Vec3,
        against: bool,
        material: usize,
    ) -> (hit: RayHit)
        ensures
            hit.distance == distance,
            hit.hitpoint == hitpoint,
            hit.normal == if against { normal } else { reversed },
            hit.frontface == against,
            hit.material == material,
            hit.tex_coords.is_none(),
            hit.tangent.is_none(),
            hit.bitangent.is_none(),
    {
        RayHit {
            distance,
            hitpoint,
            normal: if against { normal } else { reversed },
            material,
            frontface: against,
            tex_coords: None,
            tangent: None,
            bitangent: None,
        }
    }
}

/// A candidate hit cut to the interval `[t_min, t_max]`: a hit outside the
/// interval is a miss.
pub open spec fn clipped(candidate: Option<RayHit>, t_min: i64, t_max: i64) -> Option<RayHit> {
    match candidate {
        Some(h) => if h.within(t_min, t_max) { candidate } else { None },
        None => None,
    }
}

/// Cuts a candidate hit to the interval `[t_min, t_max]`.
pub fn clip(candidate: Option<RayHit>, t_min: i64, t_max: i64) -> (r: Option<RayHit>)
    ensures
        r == clipped(candidate, t_min, t_max),
{
    match candidate {
        Some(h) => if h.distance < t_min || h.distance > t_max { None } else { candidate },
        None => None,
    }
}

/// The hit to keep when `hit` arrives after `best`: the new one only where
/// it is strictly closer, so that of two equally distant hits the earlier
/// one stays.
pub open spec fn closer_of(best: Option<RayHit>, hit: Option<RayHit>) -> Option<RayHit> {
    match (best, hit) {
        (_, None) => best,
        (None, Some(h)) => hit,
        (Some(b), Some(h)) => if h.distance < b.distance { hit } else { best },
    }
}

/// The hit that a scan in order keeps: the closest one, and among equally
/// close ones the first.
pub open spec fn closest_of(hits: Seq<Option<RayHit>>) -> Option<RayHit>
    decreases hits.len(),
{
    if hits.len() == 0 {
        None
    } else {
        closer_of(closest_of(hits.drop_last()), hits.last())
    }
}

/// Keeps the closer of the best hit so far and a new one.
pub fn closer(best: Option<RayHit>, hit: Option<RayHit>) -> (r: Option<RayHit>)
    ensures
        r == closer_of(best, hit),
{
    match hit {
        None => best,
        Some(h) => match best {
            None => hit,
            Some(b) => if h.distance < b.distance { hit } else { best },
        },
    }
}

/// Picks the closest hit of a list, the first one among equals.
pub fn closest_hit(hits: &Vec<Option<RayHit>>) -> (r: Option<RayHit>)
    ensures
        r == closest_of(hits@),
{
    let mut best: Option<RayHit> = None;
    let mut i: usize = 0;
    while i < hits.len()
        invariant
            i <= hits.len(),
            best == closest_of(hits@.subrange(0, i as int)),
        decreases hits.len() - i,
    {
        assert(hits@.subrange(0, i + 1).drop_last() =~= hits@.subrange(0, i as int));
        best = closer(best, hits[i]);
        i += 1;
    }
    assert(hits@.subrange(0, i as int) =~= hits@);
    best
}

/// A scan finds nothing exactly when no entry is a hit.
pub proof fn lemma_closest_none(hits: Seq<Option<RayHit>>)
    ensures
        closest_of(hits).is_none() <==> forall|i: int| 0 <= i < hits.len() ==> hits[i].is_none(),
    decreases hits.len(),
{
    if hits.len() > 0 {
        let front = hits.drop_last();
        lemma_closest_none(front);
        if closest_of(hits).is_none() {
            assert forall|i: int| 0 <= i < hits.len() implies hits[i].is_none() by {
                if i < front.len() {
                    assert(front[i] == hits[i]);
                }
            }
        } else if forall|i: int| 0 <= i < hits.len() ==> hits[i].is_none() {
            assert forall|i: int| 0 <= i < front.len() implies front[i].is_none() by {
                assert(front[i] == hits[i]);
            }
            assert(hits.last() == hits[hits.len() - 1]);
        }
    }
}

/// What a scan keeps is one of the entries; no entry is closer than it, and
/// every entry before it is strictly farther.
pub proof fn lemma_closest_is_first_minimum(hits: Seq<Option<RayHit>>) -> (at: int)
    requires
        closest_of(hits).is_some(),
    ensures
        0 <= at < hits.len(),
        hits[at] == closest_of(hits),
        forall|j: int|
            0 <= j < hits.len() && hits[j].is_some() ==> closest_of(hits).unwrap().distance
                <= (#[trigger] hits[j]).unwrap().distance,
        forall|j: int|
            0 <= j < at && hits[j].is_some() ==> closest_of(hits).unwrap().distance
                < (#[trigger] hits[j]).unwrap().distance,
    decreases hits.len(),
{
    let front = hits.drop_last();
    let last = hits.len() - 1;
    assert forall|j: int| 0 <= j < front.len() implies front[j] == hits[j] by {}
    if closest_of(front).is_some() {
        let k = lemma_closest_is_first_minimum(front);
        if closest_of(hits) == closest_of(front) {
            k
        } else {
            last
        }
    } else {
        lemma_closest_none(front);
        last
    }
}

} // verus!
