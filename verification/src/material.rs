//! How a surface answers light.
use vstd::prelude::*;
use crate::color::Color;
use crate::scalar::{Scalar, ONE_BITS, lemma_one_scaled};
use crate::texture::Texture;

verus! {

/// The encoding of 1.5, the index of refraction of crystal.
pub const CRYSTAL_IOR_BITS: u32 = 0x3fc0_0000;

/// The optical description of a surface.
#[derive(Debug, Clone, Copy)]
pub struct Material {
    /// The colour under white light, where no texture replaces it.
    pub diffuse: Color,
    /// The exponent of the specular highlight.
    pub specular: Scalar,
    /// The weights of the diffuse and of the specular term.
    pub albedo: [Scalar; 2],
    pub is_crystal: bool,
    pub texture: Option<Texture>,
    /// The share of the colour that comes from the mirrored ray.
    pub reflectivity: Scalar,
    /// The share of the colour that comes from the refracted ray.
    pub transparency: Scalar,
    /// The index of refraction.
    pub ior: Scalar,
    pub roughness: Scalar,
    /// The light the surface gives off by itself.
    pub emission: Option<Color>,
}

impl Material {
    /// An opaque, matt-to-glossy material: no texture, no reflection, no
    /// transparency, index of refraction 1, no emission.
    pub fn new(diffuse: Color, specular: Scalar, albedo: [Scalar; 2]) -> (m: Material)
        ensures
            m.diffuse == diffuse,
            m.specular == specular,
            m.albedo == albedo,
            !m.is_crystal,
            m.texture.is_none(),
            m.reflectivity.bits == 0,
            m.transparency.bits == 0,
            m.ior.bits == ONE_BITS,
            m.roughness.bits == 0,
            m.emission.is_none(),
    {
        Material {
            diffuse,
            specular,
            albedo,
            is_crystal: false,
            texture: None,
            reflectivity: Scalar::zero(),
            transparency: Scalar::zero(),
            ior: Scalar::one(),
            roughness: Scalar::zero(),
            emission: None,
        }
    }

    /// A crystal: as [`Material::new`], marked as crystal and with index of
    /// refraction 1.5.
    pub fn crystal(diffuse: Color, specular: Scalar, albedo: [Scalar; 2]) -> (m: Material)
        ensures
            m.diffuse == diffuse,
            m.specular == specular,
            m.albedo == albedo,
            m.is_crystal,
            m.texture.is_none(),
            m.reflectivity.bits == 0,
            m.transparency.bits == 0,
            m.ior.bits == CRYSTAL_IOR_BITS,
            m.roughness.bits == 0,
            m.emission.is_none(),
    {
        Material {
            diffuse,
            specular,
            albedo,
            is_crystal: true,
            texture: None,
            reflectivity: Scalar::zero(),
            transparency: Scalar::zero(),
            ior: Scalar::from_bits(CRYSTAL_IOR_BITS),
            roughness: Scalar::zero(),
            emission: None,
        }
    }

    /// The material with `texture` in place of its plain colour.
    pub fn with_texture(self, texture: Texture) -> (m: Material)
        ensures
            m == (Material { texture: Some(texture), ..self }),
    {
        Material { texture: Some(texture), ..self }
    }

    /// The material with reflectivity `r`.
    pub fn with_reflectivity(self, r: Scalar) -> (m: Material)
        ensures
            m == (Material { reflectivity: r, ..self }),
    {
        Material { reflectivity: r, ..self }
    }

    /// The material with transparency `t`.
    pub fn with_transparency(self, t: Scalar) -> (m: Material)
        ensures
            m == (Material { transparency: t, ..self }),
    {
        Material { transparency: t, ..self }
    }

    /// The material with index of refraction `ior`.
    pub fn with_ior(self, ior: Scalar) -> (m: Material)
        ensures
            m == (Material { ior, ..self }),
    {
        Material { ior, ..self }
    }

    /// The material with roughness `r`.
    pub fn with_roughness(self, r: Scalar) -> (m: Material)
        ensures
            m == (Material { roughness: r, ..self }),
    {
        Material { roughness: r, ..self }
    }

    /// The material giving off the light `c`.
    pub fn with_emission(self, c: Color) -> (m: Material)
        ensures
            m == (Material { emission: Some(c), ..self }),
    {
        Material { emission: Some(c), ..self }
    }

    /// The material that answers no light at all: black, both weights 0.
    pub fn black() -> (m: Material)
        ensures
            m.diffuse.r.bits == 0 && m.diffuse.g.bits == 0 && m.diffuse.b.bits == 0,
            m.specular.bits == 0,
            m.albedo[0].bits == 0 && m.albedo[1].bits == 0,
            !m.is_crystal,
            m.texture.is_none(),
            m.reflectivity.bits == 0,
            m.transparency.bits == 0,
            m.ior.bits == ONE_BITS,
            m.roughness.bits == 0,
            m.emission.is_none(),
    {
        Material {
            diffuse: Color::black(),
            specular: Scalar::zero(),
            albedo: [Scalar::zero(), Scalar::zero()],
            is_crystal: false,
            texture: None,
            reflectivity: Scalar::zero(),
            transparency: Scalar::zero(),
            ior: Scalar::one(),
            roughness: Scalar::zero(),
            emission: None,
        }
    }

    /// The share of the mirrored ray in the shaded colour: the reflectivity held
    /// to the interval from 0 to 1.
    pub fn reflectance(&self) -> (r: Scalar)
        ensures
            r == self.reflectivity.spec_clamp(Scalar { bits: 0 }, Scalar { bits: ONE_BITS }),
    {
        proof {
            lemma_one_scaled();
        }
        self.reflectivity.clamp(Scalar::zero(), Scalar::one())
    }

    /// The share of the refracted ray in the shaded colour: the transparency held
    /// to the interval from 0 to 1.
    pub fn transmittance(&self) -> (t: Scalar)
        ensures
            t == self.transparency.spec_clamp(Scalar { bits: 0 }, Scalar { bits: ONE_BITS }),
    {
        proof {
            lemma_one_scaled();
        }
        self.transparency.clamp(Scalar::zero(), Scalar::one())
    }

    /// The index of refraction that shading works with: never below 1.
    pub fn refraction_index(&self) -> (eta: Scalar)
        ensures
            eta == self.ior.spec_max(Scalar { bits: ONE_BITS }),
    {
        self.ior.max(Scalar::one())
    }
}

/// The shares of the mirrored and of the refracted ray are numbers from 0 to 1,
/// unless the material holds no number for them at all; and the index of
/// refraction that shading works with is a number from 1 on, unless the
/// material holds none.
pub proof fn lemma_shares_are_held(m: Material)
    ensures
        !m.reflectivity.is_nan() ==> (Scalar { bits: 0 }).spec_le(
            m.reflectivity.spec_clamp(Scalar { bits: 0 }, Scalar { bits: ONE_BITS }),
        ) && m.reflectivity.spec_clamp(Scalar { bits: 0 }, Scalar { bits: ONE_BITS }).spec_le(
            Scalar { bits: ONE_BITS },
        ),
        !m.transparency.is_nan() ==> (Scalar { bits: 0 }).spec_le(
            m.transparency.spec_clamp(Scalar { bits: 0 }, Scalar { bits: ONE_BITS }),
        ) && m.transparency.spec_clamp(Scalar { bits: 0 }, Scalar { bits: ONE_BITS }).spec_le(
            Scalar { bits: ONE_BITS },
        ),
        (Scalar { bits: ONE_BITS }).spec_le(m.ior.spec_max(Scalar { bits: ONE_BITS })),
{
    lemma_one_scaled();
    vstd::arithmetic::power2::lemma_pow2_pos(149);
}

} // verus!
