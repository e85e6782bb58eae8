use raytracer::color::{quantize, Color, FULL_LEVEL_BITS};
use raytracer::scalar::Scalar;

fn s(x: f32) -> Scalar {
    Scalar::from_bits(x.to_bits())
}

fn native_hex(r: f32, g: f32, b: f32) -> u32 {
    ((r.clamp(0.0, 255.0) as u32) << 16)
        | ((g.clamp(0.0, 255.0) as u32) << 8)
        | (b.clamp(0.0, 255.0) as u32)
}

#[test]
fn to_hex_packs_whole_levels() {
    let c = Color::new(s(255.0), s(128.0), s(1.0));
    assert_eq!(c.to_hex(), 0x00ff8001);
}

#[test]
fn to_hex_drops_the_fraction() {
    let c = Color::new(s(12.9), s(0.99), s(254.999));
    assert_eq!(c.to_hex(), 0x000c00fe);
}

#[test]
fn to_hex_clamps_below_zero_and_above_255() {
    let c = Color::new(s(-5.0), s(300.0), s(127.9));
    assert_eq!(c.to_hex(), 0x0000ff7f);
    let d = Color::new(s(f32::NEG_INFINITY), s(f32::INFINITY), s(1.0e9));
    assert_eq!(d.to_hex(), 0x0000ffff);
    let e = Color::new(s(255.001), s(-0.001), s(-0.0));
    assert_eq!(e.to_hex(), 0x00ff0000);
}

#[test]
fn to_hex_shows_a_nan_as_level_zero() {
    let c = Color::new(s(f32::NAN), s(10.0), s(-f32::NAN));
    assert_eq!(c.to_hex(), 0x00000a00);
}

#[test]
fn to_hex_agrees_with_the_machine() {
    let levels = [
        -1.0e10f32, -1.0, -0.0, 0.0, 1.0e-20, 0.5, 1.0, 1.999, 100.25, 254.0, 254.9999, 255.0,
        255.0001, 256.0, 1.0e10, f32::INFINITY, f32::NEG_INFINITY, f32::NAN,
    ];
    for &r in &levels {
        for &g in &levels {
            for &b in &levels {
                assert_eq!(
                    Color::new(s(r), s(g), s(b)).to_hex(),
                    native_hex(r, g, b),
                    "({r:?}, {g:?}, {b:?})"
                );
            }
        }
    }
}

#[test]
fn quantize_is_one_level_of_the_pixel() {
    assert_eq!(quantize(s(77.7)), 77);
    assert_eq!(quantize(s(-77.7)), 0);
    assert_eq!(quantize(s(777.7)), 255);
    assert_eq!(FULL_LEVEL_BITS, 255.0f32.to_bits());
}

#[test]
fn black_is_three_zero_channels() {
    let c = Color::black();
    assert_eq!((c.r.bits, c.g.bits, c.b.bits), (0, 0, 0));
    assert_eq!(c.to_hex(), 0);
}

#[test]
fn from_levels_holds_the_exact_numbers() {
    let c = Color::from_levels(135, 206, 235);
    assert_eq!(c.r.bits, 135.0f32.to_bits());
    assert_eq!(c.g.bits, 206.0f32.to_bits());
    assert_eq!(c.b.bits, 235.0f32.to_bits());
    assert_eq!(c.to_hex(), 0x0087ceeb);
}
