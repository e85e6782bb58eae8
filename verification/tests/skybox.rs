use raytracer::bitmap::Bitmap;
use raytracer::color::Color;
use raytracer::ray_intersect::RayIntersect;
use raytracer::scalar::Scalar;
use raytracer::skybox::{Skybox, CANDIDATES};
use raytracer::vector::Vec3;

fn s(x: f32) -> Scalar {
    Scalar::from_bits(x.to_bits())
}

fn rgb(c: Color) -> (f32, f32, f32) {
    (f32::from_bits(c.r.bits), f32::from_bits(c.g.bits), f32::from_bits(c.b.bits))
}

fn panorama() -> Bitmap {
    // two columns, two rows: red, green / blue, white
    Bitmap::new(2, 2, vec![255, 0, 0, 0, 255, 0, 0, 0, 255, 255, 255, 255]).unwrap()
}

#[test]
fn candidates_are_tried_in_order() {
    assert_eq!(CANDIDATES, 2);
    assert_eq!(Skybox::candidate_path(0), "assets/sky.exr");
    assert_eq!(Skybox::candidate_path(1), "src/assets/sky.exr");
    let mut sky = Skybox::new();
    assert_eq!(sky.next_probe(), Some(0));
    sky.record_probe(None);
    assert_eq!(sky.next_probe(), Some(1));
}

#[test]
fn a_missing_panorama_is_recorded_once() {
    let mut sky = Skybox::new();
    sky.record_probe(None);
    sky.record_probe(None);
    assert_eq!(sky.next_probe(), None);
    assert_eq!(sky.panorama_size(), None);
    // nothing is tried again, and a late picture is not taken in
    sky.record_probe(Some(panorama()));
    assert_eq!(sky.next_probe(), None);
    assert_eq!(sky.panorama_size(), None);
}

#[test]
fn the_first_candidate_that_loads_ends_the_search() {
    let mut sky = Skybox::new();
    sky.record_probe(Some(panorama()));
    assert_eq!(sky.next_probe(), None);
    assert_eq!(sky.panorama_size(), Some((2, 2)));
}

#[test]
fn the_second_candidate_is_taken_after_the_first_failed() {
    let mut sky = Skybox::new();
    sky.record_probe(None);
    sky.record_probe(Some(panorama()));
    assert_eq!(sky.next_probe(), None);
    assert_eq!(sky.panorama_size(), Some((2, 2)));
}

#[test]
fn a_loaded_panorama_is_kept() {
    let mut sky = Skybox::new();
    sky.record_probe(Some(panorama()));
    sky.record_probe(None);
    sky.record_probe(Some(Bitmap::new(1, 1, vec![9, 9, 9]).unwrap()));
    assert_eq!(sky.panorama_size(), Some((2, 2)));
}

#[test]
fn gradient_runs_from_white_to_sky_blue() {
    assert_eq!(rgb(Skybox::horizon()), (255.0, 255.0, 255.0));
    assert_eq!(rgb(Skybox::zenith()), (135.0, 206.0, 235.0));
}

#[test]
fn no_ray_meets_the_environment() {
    let sky = Skybox::new();
    let origin = Vec3::new(s(0.0), s(0.0), s(5.0));
    let direction = Vec3::new(s(0.0), s(0.0), s(-1.0));
    let hit = sky.ray_intersect(&origin, &direction);
    assert!(!hit.is_intersecting);
    assert_eq!(hit.distance.bits, 0);
    assert!(hit.uv.is_none());
}
