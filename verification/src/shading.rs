//! What the colour of a ray is.
//!
//! The formulas of shading may give any value, so the colour of a ray is no
//! function of the scene. It is a relation, [`shaded`]: a colour is the colour
//! of a ray if the rules of the engine put it together from values that the
//! numerics gave for exactly the formulas the rules call for. The relation
//! follows the ray as the engine does: to the environment where the ray is too
//! deep or ends on nothing, and else to the surface, its lights, and the
//! mirrored and the refracted ray one level deeper.
//!
//! The lemmas that follow the relation are its rules one by one, and what
//! follows from them for every scene and all numerics.
use vstd::prelude::*;
use crate::camera::Camera;
use crate::color::{spec_black, Color};
use crate::light::Light;
use crate::numerics::{LightRay, Numerics};
use crate::ray_casting::{
    Boundary, AMBIENT_BITS, MAX_RAY_DEPTH, SHADOW_BIAS_BITS,
};
use crate::ray_intersect::{Intersect, RayIntersect};
use crate::scalar::{Scalar, MINUS_ONE_BITS, ONE_BITS};
use crate::scene::{
    hits_of, lemma_miss_is_environment, outcome_of, shadow_cast, RayOutcome, Scene,
};
use crate::texture::TextureRegistry;
use crate::vector::{Ray, Vec3};

verus! {

/// What refraction works with for a ray whose cosine against the outward
/// normal is `incidence`, at the surface of a body with index of refraction
/// `eta` in a medium of index 1. The cosine is held to the interval from -1 to
/// 1. A negative one belongs to a ray that leaves the body: its sign is turned
/// and the two indices change places.
pub open spec fn boundary_of(incidence: Scalar, eta: Scalar) -> Boundary {
    let held = incidence.spec_clamp(Scalar { bits: MINUS_ONE_BITS }, Scalar { bits: ONE_BITS });
    if held.spec_lt(Scalar { bits: 0 }) {
        Boundary {
            cosine: held.spec_neg(),
            eta_from: eta,
            eta_to: Scalar { bits: ONE_BITS },
            inside: true,
        }
    } else {
        Boundary {
            cosine: held,
            eta_from: Scalar { bits: ONE_BITS },
            eta_to: eta,
            inside: false,
        }
    }
}

/// The bias with the sign of the side on which a secondary ray leaves a
/// surface: negated for a ray that leaves behind it, where `facing`, the dot
/// product of its direction and the normal, is negative.
pub open spec fn signed_bias(bias: Scalar, facing: Scalar) -> Scalar {
    if facing.spec_lt(Scalar { bits: 0 }) {
        bias.spec_neg()
    } else {
        bias
    }
}

/// The normal that refraction works with at `hit`: the surface normal, turned
/// over for a ray that leaves the body.
pub open spec fn facing_normal(hit: Intersect, side: Boundary) -> Vec3 {
    if side.inside {
        hit.normal.spec_neg()
    } else {
        hit.normal
    }
}

/// `origin` is where a secondary ray along `direction` starts from the surface
/// point of `hit`: what `numerics` gives for the point moved along the normal
/// by the bias, which is negated for a ray that leaves behind the surface. The
/// side is told by the sign of what `numerics` gives for the dot product of the
/// direction and the normal.
pub open spec fn departs<N: Numerics>(
    numerics: N,
    hit: Intersect,
    direction: Vec3,
    bias: Scalar,
    origin: Vec3,
) -> bool {
    exists|facing: Scalar|
        #[trigger] call_ensures(N::dot, (&numerics, &direction, &hit.normal), facing)
            && call_ensures(
            N::offset,
            (&numerics, &hit.point, &hit.normal, signed_bias(bias, facing)),
            origin,
        )
}

/// `ray` is the ray from the surface point of `hit` toward `light`: along a
/// direction and over a distance from `numerics`, from an origin moved off the
/// surface to the side of the light.
pub open spec fn sights<N: Numerics>(
    numerics: N,
    hit: Intersect,
    light: Light,
    bias: Scalar,
    ray: LightRay,
) -> bool {
    call_ensures(N::toward_light, (&numerics, &hit, &light), (ray.direction, ray.distance))
        && departs(numerics, hit, ray.direction, bias, ray.origin)
}

/// `ray` is the ray along `direction` mirrored at `hit`: along a direction from
/// `numerics`, from an origin moved off the surface to the side it leaves on.
pub open spec fn mirrors_to<N: Numerics>(
    numerics: N,
    hit: Intersect,
    direction: Vec3,
    bias: Scalar,
    ray: Ray,
) -> bool {
    call_ensures(N::mirror_direction, (&numerics, &hit, &direction), ray.direction) && departs(
        numerics,
        hit,
        ray.direction,
        bias,
        ray.origin,
    )
}

/// `refracted` is what the law of refraction gives for the ray along
/// `direction` at `hit`, for a cosine of incidence and a discriminant from
/// `numerics`: no ray where the discriminant is negative, and else a ray along
/// a direction from `numerics`.
pub open spec fn refracts_to<N: Numerics>(
    numerics: N,
    hit: Intersect,
    direction: Vec3,
    eta: Scalar,
    bias: Scalar,
    refracted: Option<Ray>,
) -> bool {
    exists|incidence: Scalar|
        #[trigger] call_ensures(N::incidence, (&numerics, &hit, &direction), incidence)
            && refracts_through(
            numerics,
            hit,
            direction,
            boundary_of(incidence, eta),
            bias,
            refracted,
        )
}

/// `refracted` is what the law of refraction gives for a ray that crosses the
/// surface at `hit` from the given side: no ray where the discriminant that
/// `numerics` gives is negative; and else the ray along what `numerics` gives
/// for the refracted direction, on the normal that faces the ray, brought to
/// length 1, from an origin moved off the surface to the side it leaves on.
pub open spec fn refracts_through<N: Numerics>(
    numerics: N,
    hit: Intersect,
    direction: Vec3,
    side: Boundary,
    bias: Scalar,
    refracted: Option<Ray>,
) -> bool {
    exists|discriminant: Scalar|
        #[trigger] call_ensures(N::discriminant, (&numerics, &side), discriminant)
            && if discriminant.spec_lt(Scalar { bits: 0 }) {
            refracted.is_none()
        } else {
            exists|bent: Vec3|
                #[trigger] call_ensures(
                    N::refracted_direction,
                    (&numerics, &direction, &facing_normal(hit, side), &side, discriminant),
                    bent,
                ) && match refracted {
                    Some(ray) => departs(numerics, hit, bent, bias, ray.origin) && call_ensures(
                        N::unit,
                        (&numerics, &bent),
                        ray.direction,
                    ),
                    None => false,
                }
        }
}

/// `base` is the colour of the surface at `hit` under white light: the colour
/// of its texture at the surface coordinates, where it has both, and else the
/// plain colour of its material.
pub open spec fn surface_color<N: Numerics>(
    numerics: N,
    textures: TextureRegistry,
    hit: Intersect,
    base: Color,
) -> bool {
    match (hit.material.texture, hit.uv) {
        (Some(texture), Some((u, v))) => texture.samples(numerics, textures, u, v, base),
        _ => base == hit.material.diffuse,
    }
}

/// `color` is the colour of the surface at `hit`, composed of the colour it
/// shows by itself, of the colour of the mirrored ray and of the colour of the
/// refracted ray. The two rays weigh as much as the material reflects and lets
/// through, each held to the interval from 0 to 1; the surface's own colour
/// weighs what `numerics` gives for the rest of the whole, and nothing where
/// that is negative. What the material gives off is added on top.
pub open spec fn composed<N: Numerics>(
    numerics: N,
    hit: Intersect,
    local: Color,
    reflected: Color,
    refracted: Color,
    color: Color,
) -> bool {
    let zero = Scalar { bits: 0 };
    let reflectance = hit.material.reflectivity.spec_clamp(zero, Scalar { bits: ONE_BITS });
    let transmittance = hit.material.transparency.spec_clamp(zero, Scalar { bits: ONE_BITS });
    exists|rest: Scalar|
        #[trigger] call_ensures(N::remaining_share, (&numerics, reflectance, transmittance), rest)
            && exists|sum: Color|
            #[trigger] call_ensures(
                N::composite,
                (
                    &numerics,
                    &local,
                    &reflected,
                    &refracted,
                    rest.spec_max(zero),
                    reflectance,
                    transmittance,
                ),
                sum,
            ) && match hit.material.emission {
                Some(glow) => call_ensures(N::sum, (&numerics, &sum, &glow), color),
                None => color == sum,
            }
}

/// `local` is `before` with the share of `light` added: the light reaches the
/// surface point along a ray from `numerics`, through a shadow that the scene
/// casts on that ray.
pub open spec fn light_adds<T: RayIntersect, N: Numerics>(
    numerics: N,
    scene: Scene<T>,
    hit: Intersect,
    base: Color,
    direction: Vec3,
    light: Light,
    before: Color,
    local: Color,
) -> bool {
    exists|ray: LightRay|
        #[trigger] sights(numerics, hit, light, Scalar { bits: SHADOW_BIAS_BITS }, ray)
            && exists|factor: Scalar|
            #[trigger] shadow_cast(scene.objects@, ray.origin, ray.direction, ray.distance, factor)
                && shines(
                numerics,
                hit,
                base,
                direction,
                light,
                ray.direction,
                factor,
                before,
                local,
            )
}

/// `local` is `before` with the share of a light added, of which `shadow`
/// reaches the surface along `toward`. The diffuse share grows with the cosine
/// between the normal and the light, the highlight with the cosine between the
/// eye and the mirror image of the light; both cosines are as `numerics` gives
/// them, and count as 0 where they are negative or no number.
pub open spec fn shines<N: Numerics>(
    numerics: N,
    hit: Intersect,
    base: Color,
    direction: Vec3,
    light: Light,
    toward: Vec3,
    shadow: Scalar,
    before: Color,
    local: Color,
) -> bool {
    let zero = Scalar { bits: 0 };
    exists|facing: Scalar, cosine: Scalar|
        #[trigger] cosines(numerics, hit, direction, toward, facing, cosine) && call_ensures(
            N::lit,
            (
                &numerics,
                &before,
                &hit,
                &base,
                &light,
                facing.spec_max(zero),
                cosine.spec_max(zero),
                shadow,
            ),
            local,
        )
}

/// `facing` and `cosine` are what `numerics` gives for the cosine between the
/// normal and the light, and for the cosine between the eye and the mirror
/// image of the light.
pub open spec fn cosines<N: Numerics>(
    numerics: N,
    hit: Intersect,
    direction: Vec3,
    toward: Vec3,
    facing: Scalar,
    cosine: Scalar,
) -> bool {
    call_ensures(N::dot, (&numerics, &hit.normal, &toward), facing) && call_ensures(
        N::highlight_cosine,
        (&numerics, &hit, &toward, &direction),
        cosine,
    )
}

/// `local` is the colour that the surface at `hit` shows by itself under the
/// first `count` lights of the scene: the ambient share of `base`, and the share
/// of each of those lights added in turn.
#[verifier::opaque]
pub open spec fn lit_through<T: RayIntersect, N: Numerics>(
    numerics: N,
    scene: Scene<T>,
    hit: Intersect,
    base: Color,
    direction: Vec3,
    count: nat,
    local: Color,
) -> bool
    decreases count,
{
    if count == 0 {
        call_ensures(N::ambient, (&numerics, &base, Scalar { bits: AMBIENT_BITS }), local)
    } else {
        exists|before: Color|
            lit_through(numerics, scene, hit, base, direction, (count - 1) as nat, before)
                && #[trigger] light_adds(
                numerics,
                scene,
                hit,
                base,
                direction,
                scene.lights@[count - 1],
                before,
                local,
            )
    }
}

/// `color` is the colour of the ray from `origin` along `direction` at `depth`.
/// A ray too deep to shade, and a ray that ends on no surface, shows the
/// environment; every other ray shows the surface it ends on.
#[verifier::opaque]
pub open spec fn shaded<T: RayIntersect, N: Numerics>(
    numerics: N,
    scene: Scene<T>,
    origin: Vec3,
    direction: Vec3,
    depth: nat,
    color: Color,
) -> bool
    decreases MAX_RAY_DEPTH + 1 - depth, 3nat,
{
    if depth > MAX_RAY_DEPTH {
        scene.sky.colors(numerics, direction, color)
    } else {
        exists|hits: Seq<Intersect>|
            #[trigger] hits_of(scene.objects@, origin, direction, hits) && match outcome_of(
                depth as int,
                hits,
            ) {
                RayOutcome::Environment => scene.sky.colors(numerics, direction, color),
                RayOutcome::Surface(hit) => shaded_on(
                    numerics,
                    scene,
                    direction,
                    depth,
                    hit,
                    color,
                ),
            }
    }
}

/// `color` is the colour that the surface at `hit` shows to the ray along
/// `direction`: composed of the colour the surface shows by itself under the
/// lights of the scene, of the colour of the mirrored ray and of the colour of
/// the refracted ray.
#[verifier::opaque]
pub open spec fn shaded_on<T: RayIntersect, N: Numerics>(
    numerics: N,
    scene: Scene<T>,
    direction: Vec3,
    depth: nat,
    hit: Intersect,
    color: Color,
) -> bool
    decreases MAX_RAY_DEPTH + 1 - depth, 2nat,
{
    exists|base: Color|
        #[trigger] surface_color(numerics, *scene.textures, hit, base) && exists|
            local: Color,
            reflected: Color,
            refracted: Color,
        |
            #[trigger] composed(numerics, hit, local, reflected, refracted, color) && lit_through(
                numerics,
                scene,
                hit,
                base,
                direction,
                scene.lights@.len(),
                local,
            ) && reflects(numerics, scene, direction, depth, hit, reflected) && refracts(
                numerics,
                scene,
                direction,
                depth,
                hit,
                refracted,
            )
}

/// `reflected` is what the mirrored ray adds to the surface at `hit`: the
/// colour of a mirrored ray from `numerics`, one level deeper, where the
/// material reflects at all and the depth leaves room; black elsewhere.
#[verifier::opaque]
pub open spec fn reflects<T: RayIntersect, N: Numerics>(
    numerics: N,
    scene: Scene<T>,
    direction: Vec3,
    depth: nat,
    hit: Intersect,
    reflected: Color,
) -> bool
    decreases MAX_RAY_DEPTH + 1 - depth, 1nat,
{
    let reflectance = hit.material.reflectivity.spec_clamp(
        Scalar { bits: 0 },
        Scalar { bits: ONE_BITS },
    );
    if reflectance.spec_gt(Scalar { bits: 0 }) && may_branch(depth as int) {
        exists|ray: Ray|
            #[trigger] mirrors_to(numerics, hit, direction, Scalar { bits: SHADOW_BIAS_BITS }, ray)
                && shaded(numerics, scene, ray.origin, ray.direction, depth + 1, reflected)
    } else {
        reflected == spec_black()
    }
}

/// `refracted` is what the refracted ray adds to the surface at `hit`: the
/// colour of the refracted ray, one level deeper, where the material is
/// transparent at all, the depth leaves room and the ray is not reflected back
/// into the body; black elsewhere.
#[verifier::opaque]
pub open spec fn refracts<T: RayIntersect, N: Numerics>(
    numerics: N,
    scene: Scene<T>,
    direction: Vec3,
    depth: nat,
    hit: Intersect,
    refracted: Color,
) -> bool
    decreases MAX_RAY_DEPTH + 1 - depth, 1nat,
{
    let transmittance = hit.material.transparency.spec_clamp(
        Scalar { bits: 0 },
        Scalar { bits: ONE_BITS },
    );
    if transmittance.spec_gt(Scalar { bits: 0 }) && may_branch(depth as int) {
        exists|bent: Option<Ray>|
            #[trigger] refracts_to(
                numerics,
                hit,
                direction,
                hit.material.ior.spec_max(Scalar { bits: ONE_BITS }),
                Scalar { bits: SHADOW_BIAS_BITS },
                bent,
            ) && match bent {
                Some(ray) => shaded(
                    numerics,
                    scene,
                    ray.origin,
                    ray.direction,
                    depth + 1,
                    refracted,
                ),
                None => refracted == spec_black(),
            }
    } else {
        refracted == spec_black()
    }
}

/// `pixel` is the pixel with the given index of a frame of `width` by `height`
/// pixels: the pixel of the colour of the primary ray through its centre, along
/// a direction from `numerics`.
pub open spec fn pixel_shaded<T: RayIntersect, N: Numerics>(
    numerics: N,
    scene: Scene<T>,
    camera: Camera,
    index: int,
    width: int,
    height: int,
    pixel: u32,
) -> bool {
    exists|direction: Vec3|
        #[trigger] call_ensures(
            N::primary_ray,
            (
                &numerics,
                &camera,
                (index % width) as usize,
                (index / width) as usize,
                width as usize,
                height as usize,
            ),
            direction,
        ) && exists|color: Color|
            #[trigger] shaded(numerics, scene, camera.position, direction, 0, color) && pixel
                == color.packed()
}

/// Whether a ray at `depth` may cast a mirrored and a refracted ray.
pub open spec fn may_branch(depth: int) -> bool {
    depth < MAX_RAY_DEPTH
}

/// The most rays that shading one ray at `depth` traces, itself included: each
/// ray that may branch casts at most two more, one level deeper.
pub open spec fn rays_traced(depth: nat) -> nat
    decreases MAX_RAY_DEPTH - depth,
{
    if may_branch(depth as int) {
        1 + 2 * rays_traced(depth + 1)
    } else {
        1
    }
}

/// Without any light a surface shows the ambient share of its colour.
pub proof fn lemma_lit_ambient<T: RayIntersect, N: Numerics>(
    numerics: N,
    scene: Scene<T>,
    hit: Intersect,
    base: Color,
    direction: Vec3,
    local: Color,
)
    requires
        call_ensures(N::ambient, (&numerics, &base, Scalar { bits: AMBIENT_BITS }), local),
    ensures
        lit_through(numerics, scene, hit, base, direction, 0, local),
{
    reveal_with_fuel(lit_through, 1);
}

/// One more light adds its share to what the lights before it gave.
pub proof fn lemma_lit_next<T: RayIntersect, N: Numerics>(
    numerics: N,
    scene: Scene<T>,
    hit: Intersect,
    base: Color,
    direction: Vec3,
    count: nat,
    before: Color,
    local: Color,
)
    requires
        count < scene.lights@.len(),
        lit_through(numerics, scene, hit, base, direction, count, before),
        light_adds(
            numerics,
            scene,
            hit,
            base,
            direction,
            scene.lights@[count as int],
            before,
            local,
        ),
    ensures
        lit_through(numerics, scene, hit, base, direction, count + 1, local),
{
    reveal_with_fuel(lit_through, 1);
    assert(lit_through(numerics, scene, hit, base, direction, ((count + 1) - 1) as nat, before));
}

/// A ray too deep to shade, and a ray that ends on no surface, shows the
/// environment.
pub proof fn lemma_shaded_environment<T: RayIntersect, N: Numerics>(
    numerics: N,
    scene: Scene<T>,
    origin: Vec3,
    direction: Vec3,
    depth: nat,
    hits: Seq<Intersect>,
    color: Color,
)
    requires
        depth > MAX_RAY_DEPTH || (hits_of(scene.objects@, origin, direction, hits) && outcome_of(
            depth as int,
            hits,
        ) is Environment),
        scene.sky.colors(numerics, direction, color),
    ensures
        shaded(numerics, scene, origin, direction, depth, color),
{
    reveal_with_fuel(shaded, 1);
    reveal_with_fuel(shaded_on, 1);
    reveal_with_fuel(reflects, 1);
    reveal_with_fuel(refracts, 1);
}

/// A ray that is not too deep and ends on a surface shows that surface.
pub proof fn lemma_shaded_hit<T: RayIntersect, N: Numerics>(
    numerics: N,
    scene: Scene<T>,
    origin: Vec3,
    direction: Vec3,
    depth: nat,
    hits: Seq<Intersect>,
    hit: Intersect,
    color: Color,
)
    requires
        depth <= MAX_RAY_DEPTH,
        hits_of(scene.objects@, origin, direction, hits),
        outcome_of(depth as int, hits) == RayOutcome::Surface(hit),
        shaded_on(numerics, scene, direction, depth, hit, color),
    ensures
        shaded(numerics, scene, origin, direction, depth, color),
{
    reveal_with_fuel(shaded, 1);
    reveal_with_fuel(shaded_on, 1);
    reveal_with_fuel(reflects, 1);
    reveal_with_fuel(refracts, 1);
}

/// A ray that every primitive of the scene can only miss shows the environment
/// along its direction, whatever its depth.
pub proof fn lemma_miss_shows_environment<T: RayIntersect, N: Numerics>(
    numerics: N,
    scene: Scene<T>,
    origin: Vec3,
    direction: Vec3,
    depth: nat,
    color: Color,
)
    requires
        forall|i: int, hit: Intersect|
            0 <= i < scene.objects@.len() && #[trigger] call_ensures(
                T::ray_intersect,
                (&scene.objects@[i], &origin, &direction),
                hit,
            ) ==> !hit.is_intersecting,
        shaded(numerics, scene, origin, direction, depth, color),
    ensures
        scene.sky.colors(numerics, direction, color),
{
    reveal_with_fuel(shaded, 1);
    reveal_with_fuel(shaded_on, 1);
    reveal_with_fuel(reflects, 1);
    reveal_with_fuel(refracts, 1);
    if depth <= MAX_RAY_DEPTH {
        let hits = choose|hits: Seq<Intersect>|
            #[trigger] hits_of(scene.objects@, origin, direction, hits) && match outcome_of(
                depth as int,
                hits,
            ) {
                RayOutcome::Environment => scene.sky.colors(numerics, direction, color),
                RayOutcome::Surface(hit) => shaded_on(
                    numerics,
                    scene,
                    direction,
                    depth,
                    hit,
                    color,
                ),
            };
        assert forall|j: int| 0 <= j < hits.len() implies !(#[trigger] hits[j]).is_intersecting by {
            assert(call_ensures(
                T::ray_intersect,
                (&scene.objects@[j], &origin, &direction),
                hits[j],
            ));
        }
        lemma_miss_is_environment(hits);
    }
}

/// At the deepest level a surface shows no mirrored and no refracted ray: both
/// are black, whatever its material.
pub proof fn lemma_deepest_level_ends<T: RayIntersect, N: Numerics>(
    numerics: N,
    scene: Scene<T>,
    direction: Vec3,
    depth: nat,
    hit: Intersect,
    secondary: Color,
)
    requires
        depth >= MAX_RAY_DEPTH,
    ensures
        reflects(numerics, scene, direction, depth, hit, secondary) <==> secondary == spec_black(),
        refracts(numerics, scene, direction, depth, hit, secondary) <==> secondary == spec_black(),
{
    reveal_with_fuel(shaded, 1);
    reveal_with_fuel(shaded_on, 1);
    reveal_with_fuel(reflects, 1);
    reveal_with_fuel(refracts, 1);
}

/// A surface shows what is composed of its own colour, of the colour of the
/// mirrored ray and of the colour of the refracted ray.
pub proof fn lemma_shaded_surface<T: RayIntersect, N: Numerics>(
    numerics: N,
    scene: Scene<T>,
    direction: Vec3,
    depth: nat,
    hit: Intersect,
    base: Color,
    local: Color,
    reflected: Color,
    refracted: Color,
    color: Color,
)
    requires
        surface_color(numerics, *scene.textures, hit, base),
        lit_through(numerics, scene, hit, base, direction, scene.lights@.len(), local),
        reflects(numerics, scene, direction, depth, hit, reflected),
        refracts(numerics, scene, direction, depth, hit, refracted),
        composed(numerics, hit, local, reflected, refracted, color),
    ensures
        shaded_on(numerics, scene, direction, depth, hit, color),
{
    reveal_with_fuel(shaded, 1);
    reveal_with_fuel(shaded_on, 1);
    reveal_with_fuel(reflects, 1);
    reveal_with_fuel(refracts, 1);
}

/// A surface that does not reflect, or a ray at the deepest level, has black
/// for the colour of the mirrored ray.
pub proof fn lemma_reflects_nothing<T: RayIntersect, N: Numerics>(
    numerics: N,
    scene: Scene<T>,
    direction: Vec3,
    depth: nat,
    hit: Intersect,
)
    requires
        !(hit.material.reflectivity.spec_clamp(
            Scalar { bits: 0 },
            Scalar { bits: ONE_BITS },
        ).spec_gt(Scalar { bits: 0 }) && may_branch(depth as int)),
    ensures
        reflects(numerics, scene, direction, depth, hit, spec_black()),
{
    reveal_with_fuel(shaded, 1);
    reveal_with_fuel(shaded_on, 1);
    reveal_with_fuel(reflects, 1);
    reveal_with_fuel(refracts, 1);
}

/// A surface that reflects, above the deepest level, has the colour of the
/// mirrored ray one level deeper.
pub proof fn lemma_reflects_mirrored<T: RayIntersect, N: Numerics>(
    numerics: N,
    scene: Scene<T>,
    direction: Vec3,
    depth: nat,
    hit: Intersect,
    ray: Ray,
    reflected: Color,
)
    requires
        hit.material.reflectivity.spec_clamp(Scalar { bits: 0 }, Scalar { bits: ONE_BITS }).spec_gt(
            Scalar { bits: 0 },
        ),
        may_branch(depth as int),
        mirrors_to(numerics, hit, direction, Scalar { bits: SHADOW_BIAS_BITS }, ray),
        shaded(numerics, scene, ray.origin, ray.direction, depth + 1, reflected),
    ensures
        reflects(numerics, scene, direction, depth, hit, reflected),
{
    reveal_with_fuel(shaded, 1);
    reveal_with_fuel(shaded_on, 1);
    reveal_with_fuel(reflects, 1);
    reveal_with_fuel(refracts, 1);
}

/// A surface that is not transparent, or a ray at the deepest level, has black
/// for the colour of the refracted ray.
pub proof fn lemma_refracts_nothing<T: RayIntersect, N: Numerics>(
    numerics: N,
    scene: Scene<T>,
    direction: Vec3,
    depth: nat,
    hit: Intersect,
)
    requires
        !(hit.material.transparency.spec_clamp(
            Scalar { bits: 0 },
            Scalar { bits: ONE_BITS },
        ).spec_gt(Scalar { bits: 0 }) && may_branch(depth as int)),
    ensures
        refracts(numerics, scene, direction, depth, hit, spec_black()),
{
    reveal_with_fuel(shaded, 1);
    reveal_with_fuel(shaded_on, 1);
    reveal_with_fuel(reflects, 1);
    reveal_with_fuel(refracts, 1);
}

/// A transparent surface, above the deepest level, has the colour of the
/// refracted ray one level deeper, and black where the ray is reflected back
/// into the body.
pub proof fn lemma_refracts_bent<T: RayIntersect, N: Numerics>(
    numerics: N,
    scene: Scene<T>,
    direction: Vec3,
    depth: nat,
    hit: Intersect,
    bent: Option<Ray>,
    refracted: Color,
)
    requires
        hit.material.transparency.spec_clamp(
            Scalar { bits: 0 },
            Scalar { bits: ONE_BITS },
        ).spec_gt(Scalar { bits: 0 }),
        may_branch(depth as int),
        refracts_to(
            numerics,
            hit,
            direction,
            hit.material.ior.spec_max(Scalar { bits: ONE_BITS }),
            Scalar { bits: SHADOW_BIAS_BITS },
            bent,
        ),
        match bent {
            Some(ray) => shaded(numerics, scene, ray.origin, ray.direction, depth + 1, refracted),
            None => refracted == spec_black(),
        },
    ensures
        refracts(numerics, scene, direction, depth, hit, refracted),
{
    reveal_with_fuel(shaded, 1);
    reveal_with_fuel(shaded_on, 1);
    reveal_with_fuel(reflects, 1);
    reveal_with_fuel(refracts, 1);
}

/// The side of a surface that refraction works on has a cosine that is not
/// negative, and of its two indices of refraction one is that of the body and
/// the other 1.
pub proof fn lemma_boundary_faces_the_ray(incidence: Scalar, eta: Scalar)
    ensures
        !boundary_of(incidence, eta).cosine.spec_lt(Scalar { bits: 0 }),
        boundary_of(incidence, eta).inside ==> boundary_of(incidence, eta).eta_from == eta
            && boundary_of(incidence, eta).eta_to.bits == ONE_BITS,
        !boundary_of(incidence, eta).inside ==> boundary_of(incidence, eta).eta_to == eta
            && boundary_of(incidence, eta).eta_from.bits == ONE_BITS,
{
    let held = incidence.spec_clamp(Scalar { bits: MINUS_ONE_BITS }, Scalar { bits: ONE_BITS });
    if held.spec_lt(Scalar { bits: 0 }) {
        assert(held.sign());
        assert(held.spec_neg().field() == held.field());
        assert(!held.spec_neg().sign());
    }
}

/// Shading never goes deeper than `MAX_RAY_DEPTH`: a ray at that depth follows no
/// secondary ray, so that one primary ray has at most fifteen rays traced for it,
/// and every ray at most as many as a primary one.
pub proof fn lemma_depth_bounded(depth: nat)
    ensures
        depth >= MAX_RAY_DEPTH ==> !may_branch(depth as int) && rays_traced(depth) == 1,
        rays_traced(0) == 15,
        rays_traced(depth) <= 15,
{
    assert(rays_traced(3) == 1);
    assert(rays_traced(2) == 3);
    assert(rays_traced(1) == 7);
    assert(rays_traced(0) == 15);
}

} // verus!
