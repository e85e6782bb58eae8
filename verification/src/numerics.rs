//! The arithmetic of the renderer.
//!
//! Every sum, product, quotient, root and trigonometric function in the renderer
//! is rounded, and is evaluated by the machine's floating-point unit. The crate
//! does none of it. It asks for each formula through [`Numerics`], assumes
//! nothing of what comes back, and decides by its own rules what to do with it:
//! whether a distance counts as a hit, which hit is nearest, whether a light is
//! hidden, how deep the recursion goes.
use vstd::prelude::*;
use crate::camera::Camera;
use crate::color::Color;
use crate::cube::{Cube, Slabs};
use crate::light::Light;
use crate::ray_casting::Boundary;
use crate::ray_intersect::Intersect;
use crate::scalar::Scalar;
use crate::sphere::Sphere;
use crate::vector::Vec3;

verus! {

/// How a ray passes the centre of a sphere.
#[derive(Debug, Clone, Copy)]
pub struct Approach {
    /// The distance along the ray to the point of its line nearest the centre.
    pub along: Scalar,
    /// The square of the distance from that point to the centre.
    pub off_axis2: Scalar,
    /// The square of the radius.
    pub radius2: Scalar,
}

/// A point of a surface with what shading needs of it.
#[derive(Debug, Clone, Copy)]
pub struct SurfacePoint {
    pub point: Vec3,
    /// The unit normal at the point, pointing outward.
    pub normal: Vec3,
    /// The surface coordinates of the point.
    pub u: Scalar,
    pub v: Scalar,
}

/// The ray from a surface point toward a light.
#[derive(Debug, Clone, Copy)]
pub struct LightRay {
    /// The surface point, moved off the surface to the side of the light.
    pub origin: Vec3,
    /// The unit vector toward the light.
    pub direction: Vec3,
    /// The distance from the surface point to the light.
    pub distance: Scalar,
}

/// The formulas of the renderer, each evaluated in single precision.
///
/// Vectors `direction` are unit vectors unless said otherwise; `·` is the dot
/// product.
pub trait Numerics {
    /// How the ray from `origin` along `direction` passes the centre of
    /// `sphere`. With `l` the vector from the origin to the centre: `along` is
    /// `l · direction`, `off_axis2` is `l · l - along²`, `radius2` is the square
    /// of the radius.
    fn sphere_approach(&self, sphere: &Sphere, origin: &Vec3, direction: &Vec3) -> Approach;

    /// The two distances at which the ray's line meets the sphere, the nearer
    /// first: `along` less, and `along` plus, the square root of
    /// `radius2 - off_axis2`.
    fn sphere_roots(&self, approach: &Approach) -> (Scalar, Scalar);

    /// The point at `distance` along the ray, the unit vector `n` from the
    /// centre of `sphere` to it, and the surface coordinates
    /// `u = 0.5 + atan2(n.z, n.x) / 2π` and `v = 0.5 - asin(n.y) / π`.
    fn sphere_surface(
        &self,
        sphere: &Sphere,
        origin: &Vec3,
        direction: &Vec3,
        distance: Scalar,
    ) -> SurfacePoint;

    /// The distances at which the ray crosses the six planes of `cube`: for each
    /// axis, the coordinate of the plane less that of the origin, times the
    /// inverse of the direction's coordinate; the plane at the centre less half
    /// the size first, the one at the centre plus half the size second.
    fn cube_slabs(&self, cube: &Cube, origin: &Vec3, direction: &Vec3) -> Slabs;

    /// The point at `distance` along the ray, and the same point relative to the
    /// centre of `cube`.
    fn cube_point(
        &self,
        cube: &Cube,
        origin: &Vec3,
        direction: &Vec3,
        distance: Scalar,
    ) -> (Vec3, Vec3);

    /// The surface coordinates on a face of `cube` of a point whose coordinates
    /// across the face, relative to the centre, are `across` and `up`: each plus
    /// half the size, over the size.
    fn cube_uv(&self, cube: &Cube, across: Scalar, up: Scalar) -> (Scalar, Scalar);

    /// The product of a surface coordinate and the scale of a texture.
    fn scaled(&self, coordinate: Scalar, scale: Scalar) -> Scalar;

    /// The weight of the second colour of marble at `(u, v)`: `0.5 (0.5 (sin(u
    /// scale) + sin(1.5 v scale)) + 1)`.
    fn marble_weight(&self, scale: Scalar, u: Scalar, v: Scalar) -> Scalar;

    /// The place in a picture of `cells` columns, or rows, of a point that lies
    /// at `fraction` of the way across it: `fraction` times `cells`.
    fn spread(&self, fraction: Scalar, cells: u32) -> Scalar;

    /// The place in a picture of `cells` rows of a point that lies at `fraction`
    /// of the way up it, counted from the top: `1 - fraction`, times `cells`.
    fn spread_down(&self, fraction: Scalar, cells: u32) -> Scalar;

    /// The place of a direction on a panorama, as fractions of a full turn and
    /// of a half turn. With `d` the direction brought to length 1: `0.5 +
    /// atan2(d.x, d.z) / 2π` across, and `0.5 + asin(d.y) / π` up.
    fn panorama_angles(&self, direction: &Vec3) -> (Scalar, Scalar);

    /// The weight of the sky in the gradient along `direction`: `0.5
    /// (direction.y + 1)`.
    fn gradient_weight(&self, direction: &Vec3) -> Scalar;

    /// The blend of two colours: each channel of `first` times `1 - weight`, plus
    /// that of `second` times `weight`.
    fn mix(&self, first: &Color, second: &Color, weight: Scalar) -> Color;

    /// The colour a surface shows without any light: `base` times `share`.
    fn ambient(&self, base: &Color, share: Scalar) -> Color;

    /// The unit vector from the surface point of `hit` toward `light`, and the
    /// distance between the two.
    fn toward_light(&self, hit: &Intersect, light: &Light) -> (Vec3, Scalar);

    /// The dot product of two vectors.
    fn dot(&self, first: &Vec3, second: &Vec3) -> Scalar;

    /// `point` moved by `bias` along `normal`: `point + bias normal`. A negative
    /// bias moves the point against the normal.
    fn offset(&self, point: &Vec3, normal: &Vec3, bias: Scalar) -> Vec3;

    /// `vector` brought to length 1.
    fn unit(&self, vector: &Vec3) -> Vec3;

    /// The cosine between the ray to the eye and the mirror image of the ray
    /// from a light: `v · r`, with `v` the unit vector against `ray_direction`
    /// and `r = -l - 2 (-l · n) n` for the unit vector `l` toward the light.
    fn highlight_cosine(
        &self,
        hit: &Intersect,
        light_direction: &Vec3,
        ray_direction: &Vec3,
    ) -> Scalar;

    /// `local` with the share of one light added: first `base` times `diffuse`
    /// times `shadow`, then the light's colour times the second weight of the
    /// material, times `highlight` to the power of the specular exponent, times
    /// `shadow`.
    fn lit(
        &self,
        local: &Color,
        hit: &Intersect,
        base: &Color,
        light: &Light,
        diffuse: Scalar,
        highlight: Scalar,
        shadow: Scalar,
    ) -> Color;

    /// The direction of the ray mirrored at the surface point of `hit`: `d - 2 (d
    /// · n) n` brought to length 1, with `d` the unit vector along
    /// `ray_direction`.
    fn mirror_direction(&self, hit: &Intersect, ray_direction: &Vec3) -> Vec3;

    /// The cosine of the angle at which a ray meets the surface from outside:
    /// `-(d · n)`, with `d` the unit vector along `ray_direction`.
    fn incidence(&self, hit: &Intersect, ray_direction: &Vec3) -> Scalar;

    /// The term under the square root of the law of refraction: `1 - e² (1 -
    /// c²)`, with `e` the index of what the ray leaves over the index of what it
    /// enters and `c` the cosine.
    fn discriminant(&self, side: &Boundary) -> Scalar;

    /// The direction of the refracted ray, where `discriminant` is not negative:
    /// `e d + (e c - sqrt(discriminant)) n`, with `d` the unit vector along
    /// `ray_direction`, `n` the given `normal`, which points to the side the ray
    /// comes from, `e` the index of what the ray leaves over the index of what it
    /// enters and `c` the cosine of `side`. The vector need not have length 1.
    fn refracted_direction(
        &self,
        ray_direction: &Vec3,
        normal: &Vec3,
        side: &Boundary,
        discriminant: Scalar,
    ) -> Vec3;

    /// What two shares leave of the whole: `1 - reflectance - transmittance`.
    fn remaining_share(&self, reflectance: Scalar, transmittance: Scalar) -> Scalar;

    /// The weighted sum of the three colours of a surface point: `local` times
    /// `base_weight`, plus `reflected` times `reflectance`, plus `refracted`
    /// times `transmittance`.
    fn composite(
        &self,
        local: &Color,
        reflected: &Color,
        refracted: &Color,
        base_weight: Scalar,
        reflectance: Scalar,
        transmittance: Scalar,
    ) -> Color;

    /// The sum of two colours, channel by channel.
    fn sum(&self, first: &Color, second: &Color) -> Color;

    /// The direction of the ray through the centre of the pixel in `column` and
    /// `row` of a frame of `width` by `height` pixels, for a field of view of 60
    /// degrees from top to bottom. With `s` the tangent of 30 degrees: `px = (2
    /// (column + 0.5) / width - 1) (width / height) s`, `py = (1 - 2 (row + 0.5)
    /// / height) s`, and the direction is `px right + py up + forward` brought
    /// to length 1. Here `forward` is the unit vector from the camera's position
    /// toward the point it looks at; `right` is the unit vector along `forward
    /// × up`, and `up` the unit vector along `right × forward`. In the camera's
    /// own axes the ray is `(px, py, -1)`: the camera looks along its negative
    /// third axis, and that is `forward` in the world.
    fn primary_ray(
        &self,
        camera: &Camera,
        column: usize,
        row: usize,
        width: usize,
        height: usize,
    ) -> Vec3;
}

} // verus!
