//! Searching the scene: which surface a ray ends on, and whether anything lies
//! between a surface and a light.
//!
//! A scene is searched through [`RayIntersect`] alone. What a primitive answers
//! is its own business; which of the answers counts is decided here, on the
//! encodings of the distances: the nearest hit that can be seen, the first of
//! several equally near, and for a light any hit that is nearer than the light.
use vstd::prelude::*;
use crate::light::Light;
use crate::ray_casting::{depth_exhausted, MAX_RAY_DEPTH, SHADOWED_BITS};
use crate::ray_intersect::{Intersect, RayIntersect};
use crate::scalar::{lemma_magnitude_order, Scalar, INFINITY_BITS, ONE_BITS};
use crate::skybox::Skybox;
use crate::texture::TextureRegistry;
use crate::vector::Vec3;

verus! {

/// What a ray ends on.
#[derive(Debug, Clone, Copy)]
pub enum RayOutcome {
    /// The ray leaves the scene, or is too deep to shade: its colour is that of
    /// the environment in its direction.
    Environment,
    /// The ray meets this surface point first.
    Surface(Intersect),
}

/// What a frame shows: the primitives, the lights, the pictures of the textures
/// and the environment.
pub struct Scene<'a, T> {
    pub objects: &'a Vec<T>,
    pub lights: &'a Vec<Light>,
    pub textures: &'a TextureRegistry,
    pub sky: &'a Skybox,
}

/// A hit that a ray can end on: a real one, at less than infinite distance.
pub open spec fn visible(hit: Intersect) -> bool {
    hit.is_intersecting && hit.distance.spec_lt(Scalar { bits: INFINITY_BITS })
}

/// `hits[k]` is the hit a ray ends on: it is visible, strictly nearer than every
/// visible hit before it, and no visible hit after it is nearer.
pub open spec fn is_closest(hits: Seq<Intersect>, k: int) -> bool {
    &&& 0 <= k < hits.len()
    &&& visible(hits[k])
    &&& forall|j: int|
        0 <= j < k && visible(#[trigger] hits[j]) ==> hits[k].distance.spec_lt(hits[j].distance)
    &&& forall|j: int|
        k < j < hits.len() && visible(#[trigger] hits[j]) ==> !hits[j].distance.spec_lt(
            hits[k].distance,
        )
}

/// No hit of the sequence can be seen.
pub open spec fn none_visible(hits: Seq<Intersect>) -> bool {
    forall|j: int| 0 <= j < hits.len() ==> !visible(#[trigger] hits[j])
}

/// The index of the hit a ray ends on, if it ends on any.
pub open spec fn closest_of(hits: Seq<Intersect>) -> Option<int> {
    if exists|k: int| is_closest(hits, k) {
        Some(choose|k: int| is_closest(hits, k))
    } else {
        None
    }
}

/// What a ray at `depth` ends on, given its hits with each primitive of the
/// scene: the environment where it is too deep to shade or no hit can be seen,
/// the nearest hit elsewhere.
pub open spec fn outcome_of(depth: int, hits: Seq<Intersect>) -> RayOutcome {
    if depth > MAX_RAY_DEPTH {
        RayOutcome::Environment
    } else {
        match closest_of(hits) {
            Some(k) => RayOutcome::Surface(hits[k]),
            None => RayOutcome::Environment,
        }
    }
}

/// `hits` holds, for each primitive of the scene in turn, a record that the
/// primitive gives for the ray from `origin` along `direction`.
pub open spec fn hits_of<T: RayIntersect>(
    objects: Seq<T>,
    origin: Vec3,
    direction: Vec3,
    hits: Seq<Intersect>,
) -> bool {
    &&& hits.len() == objects.len()
    &&& forall|i: int|
        0 <= i < objects.len() ==> call_ensures(
            T::ray_intersect,
            (&objects[i], &origin, &direction),
            #[trigger] hits[i],
        )
}

/// `hit` lies between a surface point and a light at `light_distance`.
pub open spec fn blocks(hit: Intersect, light_distance: Scalar) -> bool {
    hit.is_intersecting && hit.distance.spec_lt(light_distance)
}

/// Some hit of the sequence lies between the surface point and the light.
pub open spec fn occluded(hits: Seq<Intersect>, light_distance: Scalar) -> bool {
    exists|j: int| 0 <= j < hits.len() && blocks(#[trigger] hits[j], light_distance)
}

/// The share of a light that reaches a surface point: all of it, or 0.3 of it
/// where anything lies between.
pub open spec fn shadow_factor(hits: Seq<Intersect>, light_distance: Scalar) -> Scalar {
    if occluded(hits, light_distance) {
        Scalar { bits: SHADOWED_BITS }
    } else {
        Scalar { bits: ONE_BITS }
    }
}

/// `factor` is a share of a light that the scene lets through to a surface
/// point, along the ray from `origin` along `direction` to a light at
/// `distance`: 0.3 with a record of some primitive that lies between, and 1 with
/// records of all primitives of which none does.
pub open spec fn shadow_cast<T: RayIntersect>(
    objects: Seq<T>,
    origin: Vec3,
    direction: Vec3,
    distance: Scalar,
    factor: Scalar,
) -> bool {
    ||| factor.bits == SHADOWED_BITS && exists|i: int, hit: Intersect|
        0 <= i < objects.len() && #[trigger] call_ensures(
            T::ray_intersect,
            (&objects[i], &origin, &direction),
            hit,
        ) && blocks(hit, distance)
    ||| factor.bits == ONE_BITS && exists|hits: Seq<Intersect>|
        #[trigger] hits_of(objects, origin, direction, hits) && !occluded(hits, distance)
}

/// The index of the hit that a ray ends on, among the hits of the ray with each
/// primitive of the scene, in the order of the scene.
pub fn closest_index(hits: &Vec<Intersect>) -> (r: Option<usize>)
    ensures
        match r {
            Some(k) => is_closest(hits@, k as int) && closest_of(hits@) == Some(k as int),
            None => none_visible(hits@) && closest_of(hits@).is_none(),
        },
{
    let mut best: Option<usize> = None;
    let mut z: Scalar = Scalar::infinity();
    let mut i: usize = 0;
    while i < hits.len()
        invariant
            i <= hits.len(),
            match best {
                Some(k) => is_closest(hits@.take(i as int), k as int) && z == hits@[k
                    as int].distance,
                None => none_visible(hits@.take(i as int)) && z.bits == INFINITY_BITS,
            },
        decreases hits.len() - i,
    {
        let ghost before = hits@.take(i as int);
        let ghost after = hits@.take(i as int + 1);
        assert(forall|j: int| 0 <= j < i ==> before[j] == after[j]);
        assert(after[i as int] == hits@[i as int]);
        let hit = &hits[i];
        if hit.is_intersecting && hit.distance.lt(z) {
            z = hit.distance;
            best = Some(i);
            assert(is_closest(after, i as int));
        } else {
            match best {
                Some(k) => {
                    assert(before[k as int] == after[k as int]);
                    assert(is_closest(after, k as int));
                },
                None => {
                    assert(none_visible(after));
                },
            }
        }
        i = i + 1;
    }
    assert(hits@.take(hits.len() as int) == hits@);
    proof {
        match best {
            Some(k) => {
                lemma_closest_unique(hits@, k as int, choose|l: int| is_closest(hits@, l));
            },
            None => {},
        }
    }
    best
}

/// What a ray at `depth` ends on, given its hits with each primitive of the
/// scene: the environment where it is too deep or meets nothing, the nearest
/// surface point elsewhere.
pub fn ray_outcome(depth: u32, hits: &Vec<Intersect>) -> (r: RayOutcome)
    ensures
        r == outcome_of(depth as int, hits@),
        r is Environment <==> depth > MAX_RAY_DEPTH || none_visible(hits@),
        (forall|j: int| 0 <= j < hits.len() ==> !(#[trigger] hits[j]).is_intersecting)
            ==> r is Environment,
{
    if depth_exhausted(depth) {
        return RayOutcome::Environment;
    }
    match closest_index(hits) {
        Some(k) => RayOutcome::Surface(hits[k]),
        None => RayOutcome::Environment,
    }
}

/// The records that the primitives of the scene give for one ray, in the order
/// of the scene.
pub fn intersections<T: RayIntersect>(
    objects: &Vec<T>,
    ray_origin: &Vec3,
    ray_direction: &Vec3,
) -> (hits: Vec<Intersect>)
    ensures
        hits_of(objects@, *ray_origin, *ray_direction, hits@),
{
    let mut hits: Vec<Intersect> = Vec::new();
    let mut i: usize = 0;
    while i < objects.len()
        invariant
            i <= objects.len(),
            hits_of(objects@.take(i as int), *ray_origin, *ray_direction, hits@),
        decreases objects.len() - i,
    {
        let hit = objects[i].ray_intersect(ray_origin, ray_direction);
        let ghost before = hits@;
        hits.push(hit);
        proof {
            let grown = objects@.take(i as int + 1);
            assert forall|j: int| 0 <= j < grown.len() implies call_ensures(
                T::ray_intersect,
                (&grown[j], ray_origin, ray_direction),
                #[trigger] hits@[j],
            ) by {
                if j < i {
                    assert(grown[j] == objects@.take(i as int)[j]);
                    assert(hits@[j] == before[j]);
                }
            }
        }
        i = i + 1;
    }
    assert(objects@.take(objects.len() as int) == objects@);
    hits
}

/// What the ray from `ray_origin` along `ray_direction` ends on at `depth`, in a
/// scene of the given primitives: a ray too deep to shade is not followed into
/// the scene at all, and every other ray is tried on each primitive in turn.
pub fn trace<T: RayIntersect>(
    objects: &Vec<T>,
    ray_origin: &Vec3,
    ray_direction: &Vec3,
    depth: u32,
) -> (r: RayOutcome)
    ensures
        depth > MAX_RAY_DEPTH ==> r is Environment,
        depth <= MAX_RAY_DEPTH ==> exists|hits: Seq<Intersect>|
            #[trigger] hits_of(objects@, *ray_origin, *ray_direction, hits) && r == outcome_of(
                depth as int,
                hits,
            ),
{
    if depth_exhausted(depth) {
        return RayOutcome::Environment;
    }
    let hits = intersections(objects, ray_origin, ray_direction);
    ray_outcome(depth, &hits)
}

/// The share of a light that reaches a surface point, given the hits of the ray
/// from the point toward the light with each primitive of the scene, and the
/// distance of the light: 0.3 where any hit is nearer than the light, 1
/// elsewhere.
pub fn shadow_from_hits(hits: &Vec<Intersect>, light_distance: Scalar) -> (factor: Scalar)
    ensures
        factor == shadow_factor(hits@, light_distance),
{
    let mut i: usize = 0;
    while i < hits.len()
        invariant
            i <= hits.len(),
            forall|j: int| 0 <= j < i ==> !blocks(#[trigger] hits@[j], light_distance),
        decreases hits.len() - i,
    {
        let hit = &hits[i];
        if hit.is_intersecting && hit.distance.lt(light_distance) {
            assert(blocks(hits@[i as int], light_distance));
            return Scalar { bits: SHADOWED_BITS };
        }
        i = i + 1;
    }
    Scalar::one()
}

/// The share of a light that reaches a surface point. The ray from
/// `shadow_origin` along `light_direction` is tried on the primitives of the
/// scene in turn, up to the first that it meets nearer than `light_distance`:
/// with such a primitive the share is 0.3, and 1 where every primitive was tried
/// and none lies between.
pub fn cast_shadow<T: RayIntersect>(
    objects: &Vec<T>,
    shadow_origin: &Vec3,
    light_direction: &Vec3,
    light_distance: Scalar,
) -> (factor: Scalar)
    ensures
        shadow_cast(objects@, *shadow_origin, *light_direction, light_distance, factor),
{
    let ghost mut seen: Seq<Intersect> = Seq::empty();
    let mut i: usize = 0;
    while i < objects.len()
        invariant
            i <= objects.len(),
            hits_of(objects@.take(i as int), *shadow_origin, *light_direction, seen),
            !occluded(seen, light_distance),
        decreases objects.len() - i,
    {
        let hit = objects[i].ray_intersect(shadow_origin, light_direction);
        if hit.is_intersecting && hit.distance.lt(light_distance) {
            assert(call_ensures(
                T::ray_intersect,
                (&objects[i as int], shadow_origin, light_direction),
                hit,
            ) && blocks(hit, light_distance));
            return Scalar { bits: SHADOWED_BITS };
        }
        proof {
            let before = seen;
            seen = seen.push(hit);
            let grown = objects@.take(i as int + 1);
            assert forall|j: int| 0 <= j < grown.len() implies call_ensures(
                T::ray_intersect,
                (&grown[j], shadow_origin, light_direction),
                #[trigger] seen[j],
            ) by {
                if j < i {
                    assert(grown[j] == objects@.take(i as int)[j]);
                    assert(seen[j] == before[j]);
                }
            }
            assert forall|j: int| 0 <= j < seen.len() implies !blocks(
                #[trigger] seen[j],
                light_distance,
            ) by {
                if j < i {
                    assert(seen[j] == before[j]);
                }
            }
        }
        i = i + 1;
    }
    assert(objects@.take(objects.len() as int) == objects@);
    Scalar::one()
}

/// Each primitive of the scene has one answer for the ray from `origin` along
/// `direction`: any two records that it may give for the ray are equal.
pub open spec fn answers_once<T: RayIntersect>(
    objects: Seq<T>,
    origin: Vec3,
    direction: Vec3,
) -> bool {
    forall|i: int, first: Intersect, second: Intersect|
        0 <= i < objects.len() && #[trigger] call_ensures(
            T::ray_intersect,
            (&objects[i], &origin, &direction),
            first,
        ) && #[trigger] call_ensures(
            T::ray_intersect,
            (&objects[i], &origin, &direction),
            second,
        ) ==> first == second
}

/// Searching the scene for a shadow and deciding the shadow from the records of
/// the scene come to the same: where every primitive has one answer for the ray
/// and `hits` holds these answers, the scene casts the share `factor` exactly
/// where `factor` is the share that the hits give.
pub proof fn lemma_shadow_is_the_share<T: RayIntersect>(
    objects: Seq<T>,
    origin: Vec3,
    direction: Vec3,
    distance: Scalar,
    hits: Seq<Intersect>,
    factor: Scalar,
)
    requires
        hits_of(objects, origin, direction, hits),
        answers_once(objects, origin, direction),
    ensures
        shadow_cast(objects, origin, direction, distance, factor) <==> factor == shadow_factor(
            hits,
            distance,
        ),
{
    if shadow_cast(objects, origin, direction, distance, factor) {
        if factor.bits == SHADOWED_BITS {
            let (i, hit) = choose|i: int, hit: Intersect|
                0 <= i < objects.len() && #[trigger] call_ensures(
                    T::ray_intersect,
                    (&objects[i], &origin, &direction),
                    hit,
                ) && blocks(hit, distance);
            assert(call_ensures(T::ray_intersect, (&objects[i], &origin, &direction), hits[i]));
            assert(hit == hits[i]);
            assert(blocks(hits[i], distance));
            assert(factor == Scalar { bits: SHADOWED_BITS });
        } else {
            let others = choose|others: Seq<Intersect>|
                #[trigger] hits_of(objects, origin, direction, others) && !occluded(
                    others,
                    distance,
                );
            if occluded(hits, distance) {
                let j = choose|j: int|
                    0 <= j < hits.len() && blocks(#[trigger] hits[j], distance);
                assert(call_ensures(
                    T::ray_intersect,
                    (&objects[j], &origin, &direction),
                    hits[j],
                ));
                assert(call_ensures(
                    T::ray_intersect,
                    (&objects[j], &origin, &direction),
                    others[j],
                ));
                assert(blocks(others[j], distance));
                assert(false);
            }
            assert(factor == Scalar { bits: ONE_BITS });
        }
    }
    if factor == shadow_factor(hits, distance) {
        if occluded(hits, distance) {
            let j = choose|j: int| 0 <= j < hits.len() && blocks(#[trigger] hits[j], distance);
            assert(call_ensures(T::ray_intersect, (&objects[j], &origin, &direction), hits[j]));
        }
    }
}

/// The shadow test moves one way only. Of a scene in which every primitive has
/// one answer for the ray toward a light, and of the same scene without one of
/// its primitives: the share of the light that the fuller scene lets through is
/// never above the share that the other lets through, each of the two is 0.3 or
/// 1, and it is 0.3 for the fuller scene where the primitive that it has more
/// lies between the surface point and the light.
pub proof fn lemma_shadow_only_deepens<T: RayIntersect>(
    objects: Seq<T>,
    extra: T,
    at: int,
    origin: Vec3,
    direction: Vec3,
    distance: Scalar,
    without: Scalar,
    with: Scalar,
)
    requires
        0 <= at <= objects.len(),
        answers_once(objects.insert(at, extra), origin, direction),
        shadow_cast(objects, origin, direction, distance, without),
        shadow_cast(objects.insert(at, extra), origin, direction, distance, with),
    ensures
        with.spec_le(without),
        without.bits == SHADOWED_BITS || without.bits == ONE_BITS,
        with.bits == SHADOWED_BITS || with.bits == ONE_BITS,
        (exists|hit: Intersect|
            #[trigger] call_ensures(T::ray_intersect, (&extra, &origin, &direction), hit)
                && blocks(hit, distance)) ==> with.bits == SHADOWED_BITS,
{
    let more = objects.insert(at, extra);
    lemma_magnitude_order(SHADOWED_BITS as int, ONE_BITS as int);
    let dim = Scalar { bits: SHADOWED_BITS };
    let full = Scalar { bits: ONE_BITS };
    assert(dim.field() == SHADOWED_BITS && full.field() == ONE_BITS);
    assert(!dim.is_nan() && !full.is_nan());
    assert(with == dim || with == full);
    assert(without == dim || without == full);
    if with.bits == ONE_BITS {
        let hits = choose|hits: Seq<Intersect>|
            #[trigger] hits_of(more, origin, direction, hits) && !occluded(hits, distance);
        if without.bits == SHADOWED_BITS {
            lemma_shadow_stays(objects, extra, at, origin, direction, distance);
            lemma_shadow_is_the_share(more, origin, direction, distance, hits, dim);
            assert(false);
        }
        if exists|hit: Intersect|
            #[trigger] call_ensures(T::ray_intersect, (&extra, &origin, &direction), hit)
                && blocks(hit, distance) {
            let hit = choose|hit: Intersect|
                #[trigger] call_ensures(T::ray_intersect, (&extra, &origin, &direction), hit)
                    && blocks(hit, distance);
            assert(more[at] == extra);
            assert(call_ensures(T::ray_intersect, (&more[at], &origin, &direction), hits[at]));
            assert(call_ensures(T::ray_intersect, (&more[at], &origin, &direction), hit));
            assert(hit == hits[at]);
            assert(blocks(hits[at], distance));
            assert(false);
        }
    }
}

/// A light that a scene with one more primitive can let through in full, the
/// scene without that primitive can let through in full as well: no primitive
/// brightens a surface point by being there.
pub proof fn lemma_shadow_never_lifts<T: RayIntersect>(
    objects: Seq<T>,
    extra: T,
    at: int,
    origin: Vec3,
    direction: Vec3,
    distance: Scalar,
)
    requires
        0 <= at <= objects.len(),
        shadow_cast(
            objects.insert(at, extra),
            origin,
            direction,
            distance,
            Scalar { bits: ONE_BITS },
        ),
    ensures
        shadow_cast(objects, origin, direction, distance, Scalar { bits: ONE_BITS }),
{
    lemma_magnitude_order(SHADOWED_BITS as int, ONE_BITS as int);
    let more = objects.insert(at, extra);
    let hits = choose|hits: Seq<Intersect>|
        #[trigger] hits_of(more, origin, direction, hits) && !occluded(hits, distance);
    let fewer = hits.remove(at);
    assert forall|i: int| 0 <= i < objects.len() implies call_ensures(
        T::ray_intersect,
        (&objects[i], &origin, &direction),
        #[trigger] fewer[i],
    ) by {
        if i < at {
            assert(more[i] == objects[i]);
            assert(fewer[i] == hits[i]);
        } else {
            assert(more[i + 1] == objects[i]);
            assert(fewer[i] == hits[i + 1]);
        }
    }
    assert(hits_of(objects, origin, direction, fewer));
    if occluded(fewer, distance) {
        let j = choose|j: int| 0 <= j < fewer.len() && blocks(#[trigger] fewer[j], distance);
        if j < at {
            assert(blocks(hits[j], distance));
        } else {
            assert(blocks(hits[j + 1], distance));
        }
        assert(false);
    }
}

/// The hit a ray ends on is unique.
pub proof fn lemma_closest_unique(hits: Seq<Intersect>, k: int, l: int)
    requires
        is_closest(hits, k),
        is_closest(hits, l),
    ensures
        k == l,
{
}

/// The hit a ray ends on is a nearest one: no hit that can be seen is nearer.
pub proof fn lemma_closest_is_nearest(hits: Seq<Intersect>, k: int, j: int)
    requires
        is_closest(hits, k),
        0 <= j < hits.len(),
        visible(hits[j]),
    ensures
        hits[k].distance.spec_le(hits[j].distance),
{
}

/// A ray ends on a hit exactly where some hit can be seen.
pub proof fn lemma_closest_exists(hits: Seq<Intersect>)
    ensures
        closest_of(hits).is_none() <==> none_visible(hits),
        closest_of(hits) matches Some(k) ==> is_closest(hits, k),
    decreases hits.len(),
{
    if hits.len() > 0 {
        let front = hits.drop_last();
        let last = hits.last();
        lemma_closest_exists(front);
        assert(forall|j: int| 0 <= j < front.len() ==> front[j] == hits[j]);
        match closest_of(front) {
            Some(k) => {
                if visible(last) && last.distance.spec_lt(front[k].distance) {
                    assert(is_closest(hits, hits.len() - 1));
                } else {
                    assert(is_closest(hits, k));
                }
            },
            None => {
                if visible(last) {
                    assert(is_closest(hits, hits.len() - 1));
                } else {
                    assert(none_visible(hits));
                }
            },
        }
    }
}

/// A ray that meets no primitive ends on the environment, whatever its depth.
pub proof fn lemma_miss_is_environment(hits: Seq<Intersect>)
    requires
        forall|j: int| 0 <= j < hits.len() ==> !(#[trigger] hits[j]).is_intersecting,
    ensures
        none_visible(hits),
        forall|k: int| !is_closest(hits, k),
        forall|depth: int| outcome_of(depth, hits) is Environment,
{
}

/// A shadow that a scene can cast, the scene with one more primitive can cast
/// as well: no primitive lifts a shadow by being there.
pub proof fn lemma_shadow_stays<T: RayIntersect>(
    objects: Seq<T>,
    extra: T,
    at: int,
    origin: Vec3,
    direction: Vec3,
    distance: Scalar,
)
    requires
        0 <= at <= objects.len(),
        shadow_cast(objects, origin, direction, distance, Scalar { bits: SHADOWED_BITS }),
    ensures
        shadow_cast(
            objects.insert(at, extra),
            origin,
            direction,
            distance,
            Scalar { bits: SHADOWED_BITS },
        ),
{
    let more = objects.insert(at, extra);
    let (i, hit) = choose|i: int, hit: Intersect|
        0 <= i < objects.len() && #[trigger] call_ensures(
            T::ray_intersect,
            (&objects[i], &origin, &direction),
            hit,
        ) && blocks(hit, distance);
    if i < at {
        assert(more[i] == objects[i]);
        assert(call_ensures(T::ray_intersect, (&more[i], &origin, &direction), hit));
    } else {
        assert(more[i + 1] == objects[i]);
        assert(call_ensures(T::ray_intersect, (&more[i + 1], &origin, &direction), hit));
    }
}

/// One more primitive in the scene never lets more of a light through: the share
/// that reaches a surface point stays or falls to 0.3, and it is 0.3 where the
/// new primitive lies between the point and the light.
pub proof fn lemma_occluder_darkens(
    hits: Seq<Intersect>,
    occluder: Intersect,
    at: int,
    light_distance: Scalar,
)
    requires
        0 <= at <= hits.len(),
    ensures
        shadow_factor(hits.insert(at, occluder), light_distance).spec_le(
            shadow_factor(hits, light_distance),
        ),
        occluded(hits, light_distance) ==> occluded(hits.insert(at, occluder), light_distance),
        blocks(occluder, light_distance) ==> shadow_factor(
            hits.insert(at, occluder),
            light_distance,
        ).bits == SHADOWED_BITS,
{
    let more = hits.insert(at, occluder);
    if occluded(hits, light_distance) {
        let j = choose|j: int| 0 <= j < hits.len() && blocks(#[trigger] hits[j], light_distance);
        if j < at {
            assert(more[j] == hits[j]);
            assert(blocks(more[j], light_distance));
        } else {
            assert(more[j + 1] == hits[j]);
            assert(blocks(more[j + 1], light_distance));
        }
    }
    if blocks(occluder, light_distance) {
        assert(more[at] == occluder);
        assert(blocks(more[at], light_distance));
    }
    lemma_magnitude_order(SHADOWED_BITS as int, ONE_BITS as int);
    let dim = Scalar { bits: SHADOWED_BITS };
    let full = Scalar { bits: ONE_BITS };
    assert(dim.field() == SHADOWED_BITS && full.field() == ONE_BITS);
    assert(!dim.is_nan() && !full.is_nan());
}

} // verus!
