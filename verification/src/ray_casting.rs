//! The shading engine: the colour of a ray, and the frame of all primary rays.
//!
//! Shading a ray is a recursion: the colour of a surface point takes in the
//! colour of the mirrored ray and of the refracted ray, each one level deeper.
//! The formulas of it are evaluated through [`Numerics`]; what a ray ends on,
//! whether a light is hidden, whether a secondary ray is followed and how deep
//! the recursion goes are decided here and in [`crate::scene`]. What each
//! function promises of its result is stated in [`crate::shading`].
use vstd::prelude::*;
use crate::camera::Camera;
use crate::color::{spec_black, Color};
use crate::light::Light;
use crate::numerics::{LightRay, Numerics};
use crate::ray_intersect::{Intersect, RayIntersect};
use crate::scalar::{lemma_one_scaled, Scalar, MINUS_ONE_BITS, ONE_BITS};
use crate::scene::{cast_shadow, hits_of, outcome_of, trace, RayOutcome, Scene};
use crate::shading::{
    boundary_of, composed, cosines, departs, lemma_lit_ambient, lemma_lit_next,
    lemma_reflects_mirrored, lemma_reflects_nothing, lemma_refracts_bent,
    lemma_refracts_nothing, lemma_shaded_environment, lemma_shaded_hit, lemma_shaded_surface,
    light_adds, lit_through, may_branch, mirrors_to, pixel_shaded, refracts_through,
    refracts_to, shaded, shines, sights,
};
use crate::vector::{Ray, Vec3};

verus! {

/// The depth of the deepest ray that is still shaded. A primary ray has depth 0.
pub const MAX_RAY_DEPTH: u32 = 3;

/// The encoding of 1e-4, the distance by which the origin of a shadow, mirrored
/// or refracted ray is moved off the surface along its normal.
pub const SHADOW_BIAS_BITS: u32 = 0x38d1_b717;

/// The encoding of 0.3, the share of a light that reaches a point in shadow.
pub const SHADOWED_BITS: u32 = 0x3e99_999a;

/// The encoding of 0.1, the share of the surface colour shown without any light.
pub const AMBIENT_BITS: u32 = 0x3dcc_cccd;

/// A frame of `width` by `height` pixels, stored row by row from the top.
#[derive(Debug)]
pub struct Framebuffer {
    pub width: usize,
    pub height: usize,
    pub buffer: Vec<u32>,
}

/// The side from which a ray crosses the boundary of a transparent body, and what
/// refraction works with on that side.
#[derive(Debug, Clone, Copy)]
pub struct Boundary {
    /// The cosine of the angle between the ray and the normal on the ray's side:
    /// never negative.
    pub cosine: Scalar,
    /// The index of refraction of what the ray leaves.
    pub eta_from: Scalar,
    /// The index of refraction of what the ray enters.
    pub eta_to: Scalar,
    /// The ray leaves the body: the normal that refraction works with is the
    /// surface normal turned over.
    pub inside: bool,
}

impl Framebuffer {
    /// A black frame of `width` by `height` pixels.
    pub fn new(width: usize, height: usize) -> (frame: Framebuffer)
        requires
            width * height <= usize::MAX,
        ensures
            frame.width == width,
            frame.height == height,
            frame.buffer.len() == width * height,
            forall|i: int| 0 <= i < frame.buffer.len() ==> frame.buffer[i] == 0,
    {
        let count: usize = width * height;
        let mut buffer: Vec<u32> = Vec::new();
        let mut i: usize = 0;
        while i < count
            invariant
                i <= count,
                buffer.len() == i,
                forall|j: int| 0 <= j < i ==> buffer[j] == 0,
            decreases count - i,
        {
            buffer.push(0);
            i = i + 1;
        }
        Framebuffer { width, height, buffer }
    }
}

/// The offset of a secondary ray's origin from the surface.
pub fn shadow_bias() -> (bias: Scalar)
    ensures
        bias == (Scalar { bits: SHADOW_BIAS_BITS }),
{
    Scalar { bits: SHADOW_BIAS_BITS }
}

/// The share of the surface colour that shows without any light.
pub fn ambient_share() -> (share: Scalar)
    ensures
        share == (Scalar { bits: AMBIENT_BITS }),
{
    Scalar { bits: AMBIENT_BITS }
}

/// Whether a ray at `depth` is too deep to shade and takes the colour of the
/// environment at once.
pub fn depth_exhausted(depth: u32) -> (r: bool)
    ensures
        r == (depth > MAX_RAY_DEPTH),
{
    depth > MAX_RAY_DEPTH
}

/// Whether a ray at `depth` follows a secondary ray whose share of the colour is
/// `weight`: the share must be positive and the depth leave room for one level
/// more.
pub fn follows_secondary(weight: Scalar, depth: u32) -> (r: bool)
    ensures
        r == (weight.spec_gt(Scalar { bits: 0 }) && may_branch(depth as int)),
        r ==> depth + 1 <= MAX_RAY_DEPTH,
{
    weight.gt(Scalar::zero()) && depth < MAX_RAY_DEPTH
}

/// Whether a secondary ray leaves through the back of the surface, so that its
/// origin is moved against the normal and not along it: `facing` is the dot
/// product of the ray's direction and the normal.
pub fn leaves_behind(facing: Scalar) -> (r: bool)
    ensures
        r == facing.spec_lt(Scalar { bits: 0 }),
{
    facing.lt(Scalar::zero())
}

/// The side from which a ray crosses a transparent surface, with the cosine and
/// the two indices of refraction in the order that side asks for. `incidence` is
/// the negated dot product of the ray's direction and the outward normal.
pub fn boundary(incidence: Scalar, eta: Scalar) -> (b: Boundary)
    ensures
        b == boundary_of(incidence, eta),
{
    proof {
        lemma_one_scaled();
        let minus = Scalar { bits: MINUS_ONE_BITS };
        let one = Scalar { bits: ONE_BITS };
        assert(minus.field() == one.field());
        assert(minus.sign());
        vstd::arithmetic::power2::lemma_pow2_pos(149);
    }
    let held = incidence.clamp(Scalar::from_bits(MINUS_ONE_BITS), Scalar::one());
    if held.lt(Scalar::zero()) {
        Boundary { cosine: held.neg(), eta_from: eta, eta_to: Scalar::one(), inside: true }
    } else {
        Boundary { cosine: held, eta_from: Scalar::one(), eta_to: eta, inside: false }
    }
}

/// Whether a ray is reflected back into the body it would leave, so that no
/// refracted ray exists: `discriminant` is the term under the square root of the
/// law of refraction.
pub fn totally_reflected(discriminant: Scalar) -> (r: bool)
    ensures
        r == discriminant.spec_lt(Scalar { bits: 0 }),
{
    discriminant.lt(Scalar::zero())
}

/// Where a secondary ray along `direction` starts from the surface point of
/// `hit`: the point moved by `bias` along the normal, to the side on which the
/// ray leaves the surface.
pub fn secondary_origin<N: Numerics>(
    numerics: &N,
    hit: &Intersect,
    direction: &Vec3,
    bias: Scalar,
) -> (origin: Vec3)
    ensures
        departs(*numerics, *hit, *direction, bias, origin),
{
    let facing = numerics.dot(direction, &hit.normal);
    let signed = if leaves_behind(facing) {
        bias.neg()
    } else {
        bias
    };
    numerics.offset(&hit.point, &hit.normal, signed)
}

/// The ray from the surface point of `hit` toward `light`, its origin moved off
/// the surface to the side on which the light lies.
pub fn light_ray<N: Numerics>(
    numerics: &N,
    hit: &Intersect,
    light: &Light,
    bias: Scalar,
) -> (ray: LightRay)
    ensures
        sights(*numerics, *hit, *light, bias, ray),
{
    let toward = numerics.toward_light(hit, light);
    let origin = secondary_origin(numerics, hit, &toward.0, bias);
    LightRay { origin, direction: toward.0, distance: toward.1 }
}

/// The ray along `ray_direction` mirrored at the surface of `hit`.
pub fn reflect<N: Numerics>(
    numerics: &N,
    hit: &Intersect,
    ray_direction: &Vec3,
    bias: Scalar,
) -> (ray: Ray)
    ensures
        mirrors_to(*numerics, *hit, *ray_direction, bias, ray),
{
    let direction = numerics.mirror_direction(hit, ray_direction);
    let origin = secondary_origin(numerics, hit, &direction, bias);
    Ray { origin, direction }
}

/// The refracted ray of the ray along `ray_direction` at `hit`, for a body of
/// index of refraction `eta`, or `None` where the ray is reflected back into
/// the body it would leave. A ray that meets the surface from inside has the
/// normal turned over and the two indices changed places.
pub fn refract<N: Numerics>(
    numerics: &N,
    hit: &Intersect,
    ray_direction: &Vec3,
    eta: Scalar,
    bias: Scalar,
) -> (refracted: Option<Ray>)
    ensures
        refracts_to(*numerics, *hit, *ray_direction, eta, bias, refracted),
{
    let incidence = numerics.incidence(hit, ray_direction);
    let side = boundary(incidence, eta);
    let discriminant = numerics.discriminant(&side);
    let refracted = if totally_reflected(discriminant) {
        None
    } else {
        let normal = if side.inside {
            hit.normal.neg()
        } else {
            hit.normal
        };
        let bent = numerics.refracted_direction(ray_direction, &normal, &side, discriminant);
        let origin = secondary_origin(numerics, hit, &bent, bias);
        let direction = numerics.unit(&bent);
        Some(Ray { origin, direction })
    };
    assert(refracts_through(*numerics, *hit, *ray_direction, side, bias, refracted));
    refracted
}

/// The colour of the surface at `hit`, composed of the colour `local` that it
/// shows by itself and of the colours of the mirrored and of the refracted ray.
/// The surface's own colour weighs what the two rays leave of the whole, and
/// never less than nothing; what the material gives off is added on top.
pub fn compose<N: Numerics>(
    numerics: &N,
    hit: &Intersect,
    local: &Color,
    reflected: &Color,
    refracted: &Color,
) -> (color: Color)
    ensures
        composed(*numerics, *hit, *local, *reflected, *refracted, color),
{
    let reflectance = hit.material.reflectance();
    let transmittance = hit.material.transmittance();
    let rest = numerics.remaining_share(reflectance, transmittance);
    let base_weight = rest.max(Scalar::zero());
    let sum = numerics.composite(
        local,
        reflected,
        refracted,
        base_weight,
        reflectance,
        transmittance,
    );
    match hit.material.emission {
        Some(glow) => numerics.sum(&sum, &glow),
        None => sum,
    }
}

/// The colour that the surface at `hit` shows by itself to the ray along
/// `ray_direction`: a tenth of its colour `base` without any light, and for
/// each light of the scene its diffuse share and its highlight, dimmed where
/// the light is hidden. A light behind the surface adds neither.
pub fn illuminate<T: RayIntersect, N: Numerics>(
    numerics: &N,
    scene: &Scene<T>,
    hit: &Intersect,
    base: &Color,
    ray_direction: &Vec3,
) -> (local: Color)
    ensures
        lit_through(
            *numerics,
            *scene,
            *hit,
            *base,
            *ray_direction,
            scene.lights@.len(),
            local,
        ),
{
    let mut local = numerics.ambient(base, ambient_share());
    proof {
        lemma_lit_ambient(*numerics, *scene, *hit, *base, *ray_direction, local);
    }
    let mut i: usize = 0;
    while i < scene.lights.len()
        invariant
            i <= scene.lights.len(),
            lit_through(*numerics, *scene, *hit, *base, *ray_direction, i as nat, local),
        decreases scene.lights.len() - i,
    {
        let light = &scene.lights[i];
        let ray = light_ray(numerics, hit, light, shadow_bias());
        let factor = cast_shadow(scene.objects, &ray.origin, &ray.direction, ray.distance);
        let ghost before = local;
        let facing = numerics.dot(&hit.normal, &ray.direction);
        let cosine = numerics.highlight_cosine(hit, &ray.direction, ray_direction);
        local = numerics.lit(
            &local,
            hit,
            base,
            light,
            facing.max(Scalar::zero()),
            cosine.max(Scalar::zero()),
            factor,
        );
        assert(cosines(*numerics, *hit, *ray_direction, ray.direction, facing, cosine));
        assert(shines(
            *numerics,
            *hit,
            *base,
            *ray_direction,
            *light,
            ray.direction,
            factor,
            before,
            local,
        ));
        assert(light_adds(
            *numerics,
            *scene,
            *hit,
            *base,
            *ray_direction,
            scene.lights@[i as int],
            before,
            local,
        ));
        proof {
            lemma_lit_next(
                *numerics,
                *scene,
                *hit,
                *base,
                *ray_direction,
                i as nat,
                before,
                local,
            );
        }
        i = i + 1;
    }
    local
}

/// The colour of the ray from `ray_origin` along `ray_direction`.
///
/// A ray deeper than [`MAX_RAY_DEPTH`] shows the environment. Every other ray
/// is tried on each primitive of the scene, and shows the environment where it
/// ends on none. Where it ends on a surface, its colour is composed of the
/// colour the surface shows by itself, of the colour of the mirrored ray and of
/// the colour of the refracted ray, each of the two followed one level deeper
/// and only where the material gives it a share and the depth leaves room.
pub fn cast_ray<T: RayIntersect, N: Numerics>(
    numerics: &N,
    scene: &Scene<T>,
    ray_origin: &Vec3,
    ray_direction: &Vec3,
    depth: u32,
) -> (color: Color)
    ensures
        shaded(*numerics, *scene, *ray_origin, *ray_direction, depth as nat, color),
    decreases MAX_RAY_DEPTH + 1 - depth,
{
    let outcome = trace(scene.objects, ray_origin, ray_direction, depth);
    let ghost hits: Seq<Intersect> = if depth <= MAX_RAY_DEPTH {
        choose|hits: Seq<Intersect>|
            #[trigger] hits_of(scene.objects@, *ray_origin, *ray_direction, hits) && outcome
                == outcome_of(depth as int, hits)
    } else {
        Seq::empty()
    };
    let hit = match outcome {
        RayOutcome::Environment => {
            let color = scene.sky.sample_color(numerics, ray_direction);
            proof {
                lemma_shaded_environment(
                    *numerics,
                    *scene,
                    *ray_origin,
                    *ray_direction,
                    depth as nat,
                    hits,
                    color,
                );
            }
            return color;
        },
        RayOutcome::Surface(hit) => hit,
    };

    let base = match hit.textured() {
        Some((texture, u, v)) => texture.sample(numerics, scene.textures, u, v),
        None => hit.material.diffuse,
    };
    let local = illuminate(numerics, scene, &hit, &base, ray_direction);

    let reflectance = hit.material.reflectance();
    let transmittance = hit.material.transmittance();

    let reflected = if follows_secondary(reflectance, depth) {
        let ray = reflect(numerics, &hit, ray_direction, shadow_bias());
        let deeper = cast_ray(numerics, scene, &ray.origin, &ray.direction, depth + 1);
        proof {
            lemma_reflects_mirrored(
                *numerics,
                *scene,
                *ray_direction,
                depth as nat,
                hit,
                ray,
                deeper,
            );
        }
        deeper
    } else {
        proof {
            lemma_reflects_nothing(*numerics, *scene, *ray_direction, depth as nat, hit);
        }
        Color::black()
    };

    let refracted = if follows_secondary(transmittance, depth) {
        let eta = hit.material.refraction_index();
        let bent = refract(numerics, &hit, ray_direction, eta, shadow_bias());
        match bent {
            Some(ray) => {
                let deeper = cast_ray(numerics, scene, &ray.origin, &ray.direction, depth + 1);
                proof {
                    lemma_refracts_bent(
                        *numerics,
                        *scene,
                        *ray_direction,
                        depth as nat,
                        hit,
                        bent,
                        deeper,
                    );
                }
                deeper
            },
            None => {
                proof {
                    lemma_refracts_bent(
                        *numerics,
                        *scene,
                        *ray_direction,
                        depth as nat,
                        hit,
                        bent,
                        spec_black(),
                    );
                }
                Color::black()
            },
        }
    } else {
        proof {
            lemma_refracts_nothing(*numerics, *scene, *ray_direction, depth as nat, hit);
        }
        Color::black()
    };

    let color = compose(numerics, &hit, &local, &reflected, &refracted);
    proof {
        lemma_shaded_surface(
            *numerics,
            *scene,
            *ray_direction,
            depth as nat,
            hit,
            base,
            local,
            reflected,
            refracted,
            color,
        );
        lemma_shaded_hit(
            *numerics,
            *scene,
            *ray_origin,
            *ray_direction,
            depth as nat,
            hits,
            hit,
            color,
        );
    }
    color
}

/// The pixel with the given index of a frame of `width` by `height` pixels seen
/// from `camera`: the colour of the primary ray through the centre of the
/// pixel, as a pixel.
pub fn render_pixel<T: RayIntersect, N: Numerics>(
    numerics: &N,
    scene: &Scene<T>,
    camera: &Camera,
    index: usize,
    width: usize,
    height: usize,
) -> (pixel: u32)
    requires
        width > 0,
    ensures
        pixel_shaded(*numerics, *scene, *camera, index as int, width as int, height as int, pixel),
        pixel <= 0x00ff_ffff,
{
    let (column, row) = pixel_position(index, width);
    let direction = numerics.primary_ray(camera, column, row, width, height);
    let color = cast_ray(numerics, scene, &camera.position, &direction, 0);
    color.to_hex()
}

/// Renders the scene as seen from `camera`: writes every pixel of the frame.
pub fn render<T: RayIntersect, N: Numerics>(
    framebuffer: &mut Framebuffer,
    scene: &Scene<T>,
    camera: &Camera,
    numerics: &N,
)
    requires
        old(framebuffer).width > 0 || old(framebuffer).buffer.len() == 0,
    ensures
        final(framebuffer).width == old(framebuffer).width,
        final(framebuffer).height == old(framebuffer).height,
        final(framebuffer).buffer.len() == old(framebuffer).buffer.len(),
        forall|i: int|
            0 <= i < final(framebuffer).buffer.len() ==> #[trigger] final(framebuffer).buffer[i]
                <= 0x00ff_ffff,
        forall|i: int|
            0 <= i < final(framebuffer).buffer.len() ==> pixel_shaded(
                *numerics,
                *scene,
                *camera,
                i,
                old(framebuffer).width as int,
                old(framebuffer).height as int,
                #[trigger] final(framebuffer).buffer[i],
            ),
{
    let width = framebuffer.width;
    let height = framebuffer.height;
    let mut i: usize = 0;
    while i < framebuffer.buffer.len()
        invariant
            framebuffer.width == width,
            framebuffer.height == height,
            width == old(framebuffer).width,
            height == old(framebuffer).height,
            framebuffer.buffer.len() == old(framebuffer).buffer.len(),
            width > 0 || framebuffer.buffer.len() == 0,
            i <= framebuffer.buffer.len(),
            forall|j: int| 0 <= j < i ==> #[trigger] framebuffer.buffer[j] <= 0x00ff_ffff,
            forall|j: int|
                0 <= j < i ==> pixel_shaded(
                    *numerics,
                    *scene,
                    *camera,
                    j,
                    width as int,
                    height as int,
                    #[trigger] framebuffer.buffer[j],
                ),
        decreases framebuffer.buffer.len() - i,
    {
        let pixel = render_pixel(numerics, scene, camera, i, width, height);
        framebuffer.buffer.set(i, pixel);
        i = i + 1;
    }
}

/// The column and the row of the pixel with the given index in a frame stored
/// row by row.
pub fn pixel_position(index: usize, width: usize) -> (p: (usize, usize))
    requires
        width > 0,
    ensures
        p.0 == index % width,
        p.1 == index / width,
        p.0 < width,
        p.1 * width + p.0 == index,
{
    proof {
        vstd::arithmetic::div_mod::lemma_fundamental_div_mod(index as int, width as int);
        vstd::arithmetic::mul::lemma_mul_is_commutative(width as int, (index / width) as int);
    }
    (index % width, index / width)
}

} // verus!
