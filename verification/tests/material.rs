use raytracer::color::Color;
use raytracer::material::Material;
use raytracer::ray_intersect::Intersect;
use raytracer::scalar::Scalar;
use raytracer::texture::Texture;
use raytracer::vector::Vec3;

fn s(x: f32) -> Scalar {
    Scalar::from_bits(x.to_bits())
}

fn f(x: Scalar) -> f32 {
    f32::from_bits(x.bits)
}

fn grey() -> Material {
    Material::new(Color::from_levels(128, 128, 128), s(10.0), [s(0.8), s(0.2)])
}

#[test]
fn new_material_has_the_documented_defaults() {
    let m = grey();
    assert_eq!(f(m.specular), 10.0);
    assert_eq!((f(m.albedo[0]), f(m.albedo[1])), (0.8, 0.2));
    assert!(!m.is_crystal);
    assert!(m.texture.is_none());
    assert_eq!(f(m.reflectivity), 0.0);
    assert_eq!(f(m.transparency), 0.0);
    assert_eq!(f(m.ior), 1.0);
    assert_eq!(f(m.roughness), 0.0);
    assert!(m.emission.is_none());
}

#[test]
fn crystal_has_index_of_refraction_one_and_a_half() {
    let m = Material::crystal(Color::from_levels(1, 2, 3), s(100.0), [s(0.2), s(0.8)]);
    assert!(m.is_crystal);
    assert_eq!(f(m.ior), 1.5);
    assert_eq!(f(m.diffuse.b), 3.0);
    assert!(m.texture.is_none() && m.emission.is_none());
    assert_eq!((f(m.reflectivity), f(m.transparency), f(m.roughness)), (0.0, 0.0, 0.0));
}

#[test]
fn black_material_answers_no_light() {
    let m = Material::black();
    assert_eq!((f(m.diffuse.r), f(m.diffuse.g), f(m.diffuse.b)), (0.0, 0.0, 0.0));
    assert_eq!(f(m.specular), 0.0);
    assert_eq!((f(m.albedo[0]), f(m.albedo[1])), (0.0, 0.0));
    assert_eq!(f(m.ior), 1.0);
    assert!(!m.is_crystal);
}

#[test]
fn builders_change_one_field_each() {
    let m = grey()
        .with_reflectivity(s(0.05))
        .with_transparency(s(0.9))
        .with_ior(s(1.33))
        .with_roughness(s(1.0))
        .with_emission(Color::from_levels(0, 255, 180))
        .with_texture(Texture::Image { id: 1, scale: s(2.0) });
    assert_eq!(f(m.reflectivity), 0.05);
    assert_eq!(f(m.transparency), 0.9);
    assert_eq!(f(m.ior), 1.33);
    assert_eq!(f(m.roughness), 1.0);
    assert_eq!(f(m.emission.unwrap().g), 255.0);
    assert!(matches!(m.texture, Some(Texture::Image { id: 1, .. })));
    // what no builder touched is as `new` left it
    assert_eq!(f(m.specular), 10.0);
    assert_eq!(f(m.diffuse.r), 128.0);
    assert!(!m.is_crystal);
}

#[test]
fn shares_are_held_between_zero_and_one() {
    assert_eq!(f(grey().with_reflectivity(s(0.75)).reflectance()), 0.75);
    assert_eq!(f(grey().with_reflectivity(s(1.75)).reflectance()), 1.0);
    assert_eq!(f(grey().with_reflectivity(s(-0.75)).reflectance()), 0.0);
    assert_eq!(f(grey().with_transparency(s(0.98)).transmittance()), 0.98);
    assert_eq!(f(grey().with_transparency(s(98.0)).transmittance()), 1.0);
    assert_eq!(f(grey().with_transparency(s(-98.0)).transmittance()), 0.0);
    assert!(f(grey().with_transparency(s(f32::NAN)).transmittance()).is_nan());
}

#[test]
fn refraction_index_is_never_below_one() {
    assert_eq!(f(grey().with_ior(s(1.5)).refraction_index()), 1.5);
    assert_eq!(f(grey().with_ior(s(1.0)).refraction_index()), 1.0);
    assert_eq!(f(grey().with_ior(s(0.5)).refraction_index()), 1.0);
    assert_eq!(f(grey().with_ior(s(-3.0)).refraction_index()), 1.0);
    assert_eq!(f(grey().with_ior(s(f32::NAN)).refraction_index()), 1.0);
}

#[test]
fn intersect_new_is_a_hit_without_coordinates() {
    let point = Vec3::new(s(1.0), s(2.0), s(3.0));
    let normal = Vec3::new(s(0.0), s(1.0), s(0.0));
    let hit = Intersect::new(point, normal, s(4.0), grey());
    assert!(hit.is_intersecting);
    assert!(hit.uv.is_none());
    assert_eq!(f(hit.distance), 4.0);
    assert_eq!((f(hit.point.x), f(hit.point.y), f(hit.point.z)), (1.0, 2.0, 3.0));
    assert_eq!(f(hit.normal.y), 1.0);
    assert_eq!(f(hit.material.specular), 10.0);
    let with = hit.with_uv(s(0.25), s(0.5));
    let (u, v) = with.uv.unwrap();
    assert_eq!((f(u), f(v)), (0.25, 0.5));
    assert!(with.is_intersecting);
    assert_eq!(f(with.distance), 4.0);
}

#[test]
fn empty_intersect_is_a_miss() {
    let miss = Intersect::empty();
    assert!(!miss.is_intersecting);
    assert_eq!(f(miss.distance), 0.0);
    assert_eq!((f(miss.point.x), f(miss.point.y), f(miss.point.z)), (0.0, 0.0, 0.0));
    assert_eq!((f(miss.normal.x), f(miss.normal.y), f(miss.normal.z)), (0.0, 0.0, 0.0));
    assert!(miss.uv.is_none());
    assert_eq!(f(miss.material.ior), 1.0);
}

#[test]
fn a_texture_is_sampled_only_with_coordinates() {
    let checker = Texture::Checker {
        color1: Color::from_levels(240, 240, 240),
        color2: Color::from_levels(210, 210, 210),
        scale: s(8.0),
    };
    let origin = Vec3::zeros();
    let plain = Intersect::new(origin, origin, s(1.0), grey());
    assert!(plain.textured().is_none());
    assert!(plain.with_uv(s(0.1), s(0.2)).textured().is_none());
    let textured = Intersect::new(origin, origin, s(1.0), grey().with_texture(checker));
    assert!(textured.textured().is_none());
    let (texture, u, v) = textured.with_uv(s(0.1), s(0.2)).textured().unwrap();
    assert!(matches!(texture, Texture::Checker { .. }));
    assert_eq!((f(u), f(v)), (0.1, 0.2));
}
