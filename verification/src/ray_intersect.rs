//! What a ray finds on a surface.
use vstd::prelude::*;
use crate::material::Material;
use crate::scalar::{Scalar, ONE_BITS};
use crate::texture::Texture;
use crate::vector::Vec3;

verus! {

/// The meeting of a ray and a surface, or the record that there is none.
#[derive(Debug, Clone, Copy)]
pub struct Intersect {
    /// Where the ray meets the surface.
    pub point: Vec3,
    /// The unit normal of the surface there, pointing outward.
    pub normal: Vec3,
    /// How far along the ray the point lies.
    pub distance: Scalar,
    /// False for the record of a miss.
    pub is_intersecting: bool,
    pub material: Material,
    /// The surface coordinates of the point, where the surface has any.
    pub uv: Option<(Scalar, Scalar)>,
}

/// A surface that a ray can meet. The geometry of a shape, and the arithmetic it
/// takes, are its implementor's; the scene is searched through this method
/// alone.
pub trait RayIntersect {
    /// Where the ray from `ray_origin` along `ray_direction` meets the surface
    /// first, or the record of a miss.
    fn ray_intersect(&self, ray_origin: &Vec3, ray_direction: &Vec3) -> Intersect;
}

impl Intersect {
    /// The record of a miss: no point, distance 0, the black material.
    pub open spec fn is_empty(self) -> bool {
        &&& !self.is_intersecting
        &&& self.point.x.bits == 0 && self.point.y.bits == 0 && self.point.z.bits == 0
        &&& self.normal.x.bits == 0 && self.normal.y.bits == 0 && self.normal.z.bits == 0
        &&& self.distance.bits == 0
        &&& self.uv.is_none()
        &&& self.material.diffuse.r.bits == 0 && self.material.diffuse.g.bits == 0
            && self.material.diffuse.b.bits == 0
        &&& self.material.specular.bits == 0
        &&& self.material.albedo[0].bits == 0 && self.material.albedo[1].bits == 0
        &&& !self.material.is_crystal
        &&& self.material.texture.is_none()
        &&& self.material.reflectivity.bits == 0
        &&& self.material.transparency.bits == 0
        &&& self.material.ior.bits == ONE_BITS
        &&& self.material.roughness.bits == 0
        &&& self.material.emission.is_none()
    }

    /// A hit at `point`, `distance` along the ray, without surface coordinates.
    pub fn new(point: Vec3, normal: Vec3, distance: Scalar, material: Material) -> (i: Intersect)
        ensures
            i == (Intersect {
                point,
                normal,
                distance,
                is_intersecting: true,
                material,
                uv: None,
            }),
    {
        Intersect { point, normal, distance, is_intersecting: true, material, uv: None }
    }

    /// The same record with the surface coordinates `(u, v)`.
    pub fn with_uv(self, u: Scalar, v: Scalar) -> (i: Intersect)
        ensures
            i == (Intersect { uv: Some((u, v)), ..self }),
    {
        Intersect { uv: Some((u, v)), ..self }
    }

    /// The record of a miss.
    pub fn empty() -> (i: Intersect)
        ensures
            i.is_empty(),
    {
        Intersect {
            point: Vec3::zeros(),
            normal: Vec3::zeros(),
            distance: Scalar::zero(),
            is_intersecting: false,
            material: Material::black(),
            uv: None,
        }
    }

    /// The texture to sample for the colour of the surface at this hit, with the
    /// surface coordinates to sample it at: there is one where the material has a
    /// texture and the hit has coordinates. Elsewhere the material's plain colour
    /// stands.
    pub fn textured(&self) -> (t: Option<(Texture, Scalar, Scalar)>)
        ensures
            t == match (self.material.texture, self.uv) {
                (Some(texture), Some((u, v))) => Some((texture, u, v)),
                _ => None,
            },
    {
        match (self.material.texture, self.uv) {
            (Some(texture), Some((u, v))) => Some((texture, u, v)),
            _ => None,
        }
    }
}

} // verus!
