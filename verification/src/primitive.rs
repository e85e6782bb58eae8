//! The shapes a scene is made of.
use vstd::prelude::*;
use crate::cube::Cube;
use crate::numerics::Numerics;
use crate::ray_intersect::{Intersect, RayIntersect};
use crate::sphere::Sphere;
use crate::vector::Vec3;

verus! {

/// A shape of the scene: a sphere or a cube.
#[derive(Debug, Clone, Copy)]
pub enum Primitive {
    Sphere(Sphere),
    Cube(Cube),
}

/// A primitive together with the numerics that its geometry is evaluated with:
/// a surface that a scene can hold.
pub struct Solid<'a, N> {
    pub shape: Primitive,
    pub numerics: &'a N,
}

impl Primitive {
    /// `hit` is what the ray from `origin` along `direction` finds on this
    /// primitive.
    pub open spec fn meets<N: Numerics>(
        self,
        numerics: N,
        origin: Vec3,
        direction: Vec3,
        hit: Intersect,
    ) -> bool {
        match self {
            Primitive::Sphere(sphere) => sphere.meets(numerics, origin, direction, hit),
            Primitive::Cube(cube) => cube.meets(numerics, origin, direction, hit),
        }
    }

    /// Where the ray from `ray_origin` along `ray_direction` meets the primitive
    /// first, or the record of a miss.
    pub fn ray_intersect<N: Numerics>(
        &self,
        numerics: &N,
        ray_origin: &Vec3,
        ray_direction: &Vec3,
    ) -> (hit: Intersect)
        ensures
            self.meets(*numerics, *ray_origin, *ray_direction, hit),
    {
        match self {
            Primitive::Sphere(sphere) => sphere.ray_intersect(numerics, ray_origin, ray_direction),
            Primitive::Cube(cube) => cube.ray_intersect(numerics, ray_origin, ray_direction),
        }
    }
}

impl<'a, N: Numerics> Solid<'a, N> {
    /// The surface of `shape`, evaluated with `numerics`.
    pub fn new(shape: Primitive, numerics: &'a N) -> (solid: Solid<'a, N>)
        ensures
            solid.shape == shape,
            solid.numerics == numerics,
    {
        Solid { shape, numerics }
    }
}

impl<'a, N: Numerics> RayIntersect for Solid<'a, N> {
    fn ray_intersect(&self, ray_origin: &Vec3, ray_direction: &Vec3) -> (hit: Intersect)
        ensures
            self.shape.meets(*self.numerics, *ray_origin, *ray_direction, hit),
    {
        self.shape.ray_intersect(self.numerics, ray_origin, ray_direction)
    }
}

} // verus!
