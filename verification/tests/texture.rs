use raytracer::bitmap::Bitmap;
use raytracer::color::Color;
use raytracer::scalar::Scalar;
use raytracer::texture::{register_image, Axis, Texture, TextureRegistry, MISSING_LEVEL};

fn s(x: f32) -> Scalar {
    Scalar::from_bits(x.to_bits())
}

fn rgb(c: Color) -> (f32, f32, f32) {
    (f32::from_bits(c.r.bits), f32::from_bits(c.g.bits), f32::from_bits(c.b.bits))
}

fn light() -> Color {
    Color::from_levels(240, 240, 240)
}

fn dark() -> Color {
    Color::from_levels(210, 210, 210)
}

/// A picture of `width` by `height` texels whose texel in column x of row y has
/// the levels (x, y, x + y).
fn ramp(width: u32, height: u32) -> Bitmap {
    let mut bytes = Vec::new();
    for y in 0..height {
        for x in 0..width {
            bytes.push(x as u8);
            bytes.push(y as u8);
            bytes.push((x + y) as u8);
        }
    }
    Bitmap::new(width, height, bytes).unwrap()
}

#[test]
fn checker_alternates_by_the_sum_of_the_cells() {
    // scale 8: u = 0.10 is in cell 0, u = 0.20 in cell 1, v = 0.30 in cell 2
    let scale = 8.0f32;
    let at = |u: f32, v: f32| rgb(Texture::checker(light(), dark(), s(u * scale), s(v * scale)));
    assert_eq!(at(0.10, 0.10), rgb(light()));
    assert_eq!(at(0.20, 0.10), rgb(dark()));
    assert_eq!(at(0.20, 0.20), rgb(light()));
    assert_eq!(at(0.10, 0.30), rgb(light()));
    assert_eq!(at(0.20, 0.30), rgb(dark()));
}

#[test]
fn checker_on_negative_cells() {
    let at = |su: f32, sv: f32| rgb(Texture::checker(light(), dark(), s(su), s(sv)));
    // floor(-0.5) = -1, floor(0.5) = 0: the sum is odd
    assert_eq!(at(-0.5, 0.5), rgb(dark()));
    // floor(-0.5) + floor(-0.5) = -2: even
    assert_eq!(at(-0.5, -0.5), rgb(light()));
    // floor(-2.5) + floor(0.0) = -3: odd
    assert_eq!(at(-2.5, 0.0), rgb(dark()));
}

#[test]
fn checker_at_the_ends_of_the_cell_range() {
    let at = |su: f32, sv: f32| rgb(Texture::checker(light(), dark(), s(su), s(sv)));
    // both cells are i32::MAX, an odd number: the sum is even
    assert_eq!(at(1.0e30, 1.0e30), rgb(light()));
    // i32::MAX + 0 is odd
    assert_eq!(at(1.0e30, 0.0), rgb(dark()));
    // i32::MIN is even
    assert_eq!(at(-1.0e30, 0.0), rgb(light()));
    // a NaN lies in cell 0
    assert_eq!(at(f32::NAN, 1.0), rgb(dark()));
}

#[test]
fn checker_repeats_every_two_cells() {
    for i in 0..40 {
        let su = -7.3 + 0.37 * i as f32;
        for j in 0..10 {
            let sv = -2.1 + 0.53 * j as f32;
            let here = rgb(Texture::checker(light(), dark(), s(su), s(sv)));
            let cell_u = su.floor();
            let moved = cell_u + 2.0 + (su - cell_u);
            if moved.floor() == cell_u + 2.0 {
                assert_eq!(rgb(Texture::checker(light(), dark(), s(moved), s(sv))), here);
            }
            assert_eq!(rgb(Texture::checker(light(), dark(), s(su), s(sv + 4.0))), here);
        }
    }
}

#[test]
fn coordinates_one_apart_sample_alike_at_an_even_scale() {
    // the scale 8 puts eight cells into one unit: u and u + 1 are eight cells
    // apart. The coordinates are odd multiples of 1/128, which adding 1 and
    // scaling by 8 keep exact.
    let scale = 8.0f32;
    for i in 0..64 {
        let u = (2 * i + 1) as f32 / 128.0;
        let v = 53.0f32 / 128.0;
        let here = rgb(Texture::checker(light(), dark(), s(u * scale), s(v * scale)));
        let right = rgb(Texture::checker(light(), dark(), s((u + 1.0) * scale), s(v * scale)));
        let above = rgb(Texture::checker(light(), dark(), s(u * scale), s((v + 1.0) * scale)));
        assert_eq!(here, right);
        assert_eq!(here, above);
        let band = rgb(Texture::stripes(light(), dark(), s(u * scale)));
        assert_eq!(band, rgb(Texture::stripes(light(), dark(), s((u + 1.0) * scale))));
    }
}

#[test]
fn rounding_can_move_a_coordinate_across_a_cell_border() {
    // 0.03 + 0.72 rounds to just below 0.75, and adding 1 rounds it up to 1.75:
    // at scale 8 the first lies in cell 5 and the second in cell 14
    let u = 0.03f32 + 0.06 * 12.0;
    assert!(u < 0.75);
    assert_eq!(s(u * 8.0).floor_to_i32(), 5);
    assert_eq!(s((u + 1.0) * 8.0).floor_to_i32(), 14);
    let here = rgb(Texture::stripes(light(), dark(), s(u * 8.0)));
    let there = rgb(Texture::stripes(light(), dark(), s((u + 1.0) * 8.0)));
    assert_eq!(here, rgb(dark()));
    assert_eq!(there, rgb(light()));
}

#[test]
fn stripes_alternate_along_their_axis() {
    let at = |t: f32| rgb(Texture::stripes(light(), dark(), s(t)));
    assert_eq!(at(0.5), rgb(light()));
    assert_eq!(at(1.5), rgb(dark()));
    assert_eq!(at(2.0), rgb(light()));
    assert_eq!(at(-0.5), rgb(dark()));
    assert_eq!(at(-1.5), rgb(light()));
}

#[test]
fn axis_selects_its_coordinate() {
    assert_eq!(Axis::U.select(s(0.25), s(0.75)).bits, 0.25f32.to_bits());
    assert_eq!(Axis::V.select(s(0.25), s(0.75)).bits, 0.75f32.to_bits());
}

#[test]
fn bitmap_wants_three_bytes_for_each_texel() {
    assert!(Bitmap::new(2, 2, vec![0; 12]).is_some());
    assert!(Bitmap::new(2, 2, vec![0; 11]).is_none());
    assert!(Bitmap::new(2, 2, vec![0; 13]).is_none());
    assert!(Bitmap::new(0, 2, vec![]).is_none());
    assert!(Bitmap::new(2, 0, vec![]).is_none());
    assert!(Bitmap::new(u32::MAX, u32::MAX, vec![0; 3]).is_none());
}

#[test]
fn bitmap_texel_reads_row_by_row() {
    let picture = ramp(4, 3);
    assert_eq!((picture.width(), picture.height()), (4, 3));
    assert_eq!(rgb(picture.texel(0, 0)), (0.0, 0.0, 0.0));
    assert_eq!(rgb(picture.texel(3, 0)), (3.0, 0.0, 3.0));
    assert_eq!(rgb(picture.texel(1, 2)), (1.0, 2.0, 3.0));
    assert_eq!(rgb(picture.texel(3, 2)), (3.0, 2.0, 5.0));
}

#[test]
fn bitmap_nearest_drops_the_fraction_and_stays_inside() {
    let picture = ramp(4, 3);
    assert_eq!(rgb(picture.nearest(s(1.99), s(0.5))), (1.0, 0.0, 1.0));
    assert_eq!(rgb(picture.nearest(s(3.2), s(2.9))), (3.0, 2.0, 5.0));
    // on and beyond the far edge: the last column and row
    assert_eq!(rgb(picture.nearest(s(4.0), s(3.0))), (3.0, 2.0, 5.0));
    assert_eq!(rgb(picture.nearest(s(1.0e12), s(f32::INFINITY))), (3.0, 2.0, 5.0));
    // below zero and NaN: the first column and row
    assert_eq!(rgb(picture.nearest(s(-0.7), s(-5.0))), (0.0, 0.0, 0.0));
    assert_eq!(rgb(picture.nearest(s(f32::NAN), s(1.0))), (0.0, 1.0, 1.0));
}

#[test]
fn unregistered_image_samples_as_grey() {
    let registry = TextureRegistry::new();
    assert_eq!(MISSING_LEVEL, 200);
    assert_eq!(rgb(registry.sample(1, s(0.0), s(0.0))), (200.0, 200.0, 200.0));
    assert_eq!(rgb(registry.sample(7, s(3.0), s(9.0))), (200.0, 200.0, 200.0));
    assert_eq!(registry.size(1), None);
}

#[test]
fn register_image_stores_a_decoded_picture() {
    let mut registry = TextureRegistry::new();
    assert!(register_image(&mut registry, 1, Some(ramp(4, 3))));
    assert_eq!(registry.size(1), Some((4, 3)));
    assert_eq!(registry.size(2), None);
    assert_eq!(rgb(registry.sample(1, s(2.5), s(1.5))), (2.0, 1.0, 3.0));
    assert_eq!(rgb(registry.sample(2, s(2.5), s(1.5))), (200.0, 200.0, 200.0));
}

#[test]
fn register_image_reports_a_failed_decode() {
    let mut registry = TextureRegistry::new();
    assert!(register_image(&mut registry, 1, Some(ramp(4, 3))));
    assert!(!register_image(&mut registry, 1, None));
    assert!(!register_image(&mut registry, 2, None));
    // the failure leaves the registry as it was
    assert_eq!(registry.size(1), Some((4, 3)));
    assert_eq!(registry.size(2), None);
}

#[test]
fn register_image_replaces_a_picture_under_the_same_id() {
    let mut registry = TextureRegistry::new();
    assert!(register_image(&mut registry, 5, Some(ramp(4, 3))));
    assert!(register_image(&mut registry, 5, Some(ramp(2, 2))));
    assert_eq!(registry.size(5), Some((2, 2)));
    assert_eq!(rgb(registry.sample(5, s(3.0), s(2.0))), (1.0, 1.0, 2.0));
}
