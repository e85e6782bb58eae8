//! Colours of three single-precision channels, and the pixel they are shown as.
use vstd::prelude::*;
use vstd::arithmetic::power2::*;
use crate::numerics::Numerics;
use crate::scalar::{unit, Scalar, lemma_one_scaled, ONE_BITS};

verus! {

/// The encoding of 255, the brightest level a pixel shows.
pub const FULL_LEVEL_BITS: u32 = 0x437f_0000;

/// A colour. The nominal range of a channel is 0 to 255; shading may leave it on
/// the way, and only the conversion to a pixel brings it back.
#[derive(Clone, Copy, Debug)]
pub struct Color {
    pub r: Scalar,
    pub g: Scalar,
    pub b: Scalar,
}

/// The level from 0 to 255 that a pixel shows for a channel: nothing for a NaN,
/// 0 for every number up to 0, 255 for every number from 255 on, and the whole
/// part of a number in between.
pub open spec fn channel_level(c: Scalar) -> int {
    if c.is_nan() {
        0
    } else if c.scaled() <= 0 {
        0
    } else if c.scaled() >= 255 * unit() {
        255
    } else {
        c.scaled() / unit()
    }
}

/// The colour black.
pub open spec fn spec_black() -> Color {
    Color { r: Scalar { bits: 0 }, g: Scalar { bits: 0 }, b: Scalar { bits: 0 } }
}

/// The pixel `0x00RRGGBB` of three levels.
pub open spec fn pixel_of(red: int, green: int, blue: int) -> int {
    red * 0x1_0000 + green * 0x100 + blue
}

impl Color {
    /// The colour with the given channels.
    pub fn new(r: Scalar, g: Scalar, b: Scalar) -> (c: Color)
        ensures
            c == (Color { r, g, b }),
    {
        Color { r, g, b }
    }

    /// The colour whose three channels are 0.
    pub fn black() -> (c: Color)
        ensures
            c == spec_black(),
    {
        Color { r: Scalar::zero(), g: Scalar::zero(), b: Scalar::zero() }
    }

    /// The three channels are exactly the whole numbers given.
    pub open spec fn shows(self, red: int, green: int, blue: int) -> bool {
        &&& !self.r.is_nan() && self.r.scaled() == red * unit()
        &&& !self.g.is_nan() && self.g.scaled() == green * unit()
        &&& !self.b.is_nan() && self.b.scaled() == blue * unit()
    }

    /// The colour whose channels are the whole levels given.
    pub fn from_levels(red: u8, green: u8, blue: u8) -> (c: Color)
        ensures
            c.shows(red as int, green as int, blue as int),
    {
        Color {
            r: Scalar::from_u8(red),
            g: Scalar::from_u8(green),
            b: Scalar::from_u8(blue),
        }
    }

    /// `blend` is this colour blended toward `other` by `factor`: what `numerics`
    /// mixes of the two with the factor held to the interval from 0 to 1.
    pub open spec fn blends<N: Numerics>(
        self,
        numerics: N,
        other: Color,
        factor: Scalar,
        blend: Color,
    ) -> bool {
        call_ensures(
            N::mix,
            (
                &numerics,
                &self,
                &other,
                factor.spec_clamp(Scalar { bits: 0 }, Scalar { bits: ONE_BITS }),
            ),
            blend,
        )
    }

    /// This colour blended toward `other`: all of this one for a factor of 0 or
    /// less, all of the other for a factor of 1 or more.
    pub fn blend<N: Numerics>(self, numerics: &N, other: Color, factor: Scalar) -> (blend: Color)
        ensures
            self.blends(*numerics, other, factor, blend),
    {
        proof {
            lemma_one_scaled();
            lemma_pow2_pos(149);
        }
        let weight = factor.clamp(Scalar::zero(), Scalar::one());
        numerics.mix(&self, &other, weight)
    }

    /// The pixel that shows this colour.
    pub open spec fn packed(self) -> int {
        pixel_of(channel_level(self.r), channel_level(self.g), channel_level(self.b))
    }

    /// The pixel `0x00RRGGBB` that shows this colour, each channel held to the
    /// range from 0 to 255 and cut to a whole level.
    pub fn to_hex(&self) -> (pixel: u32)
        ensures
            pixel == self.packed(),
            pixel <= 0x00ff_ffff,
    {
        let red: u32 = quantize(self.r);
        let green: u32 = quantize(self.g);
        let blue: u32 = quantize(self.b);
        assert((red << 16) | (green << 8) | blue == red * 0x1_0000 + green * 0x100 + blue)
            by (bit_vector)
            requires
                red <= 255,
                green <= 255,
                blue <= 255,
        ;
        (red << 16) | (green << 8) | blue
    }
}

/// The level of one channel.
pub fn quantize(c: Scalar) -> (level: u32)
    ensures
        level == channel_level(c),
        level <= 255,
{
    let full = Scalar { bits: FULL_LEVEL_BITS };
    proof {
        lemma_full_level();
        lemma_pow2_pos(149);
    }
    let held = c.clamp(Scalar::zero(), full);
    proof {
        if c.spec_lt(Scalar { bits: 0 }) {
            assert(held.bits == 0);
        } else if c.spec_gt(full) {
            assert(held == full);
            vstd::arithmetic::div_mod::lemma_div_multiples_vanish(255, unit());
        } else if !c.is_nan() && !c.sign() {
            assert(0 <= c.scaled() <= 255 * unit());
            vstd::arithmetic::div_mod::lemma_div_is_ordered(c.scaled(), 255 * unit(), unit());
            vstd::arithmetic::div_mod::lemma_div_multiples_vanish(255, unit());
            vstd::arithmetic::div_mod::lemma_div_pos_is_pos(c.scaled(), unit());
            if c.scaled() == 0 {
                assert(c.scaled() / unit() == 0);
            }
        }
    }
    held.to_u32()
}

/// The encoding `FULL_LEVEL_BITS` stands for 255.
pub proof fn lemma_full_level()
    ensures
        !(Scalar { bits: FULL_LEVEL_BITS }).is_nan(),
        !(Scalar { bits: FULL_LEVEL_BITS }).sign(),
        (Scalar { bits: FULL_LEVEL_BITS }).scaled() == 255 * unit(),
{
    let full = Scalar { bits: FULL_LEVEL_BITS };
    assert(full.exponent() == 134);
    assert(full.fraction() == 0x7f_0000);
    lemma_pow2_adds(16, 133);
    lemma2_to64();
    let p = pow2(133) as int;
    assert(0xff_0000 * p == 255 * (0x1_0000 * p)) by (nonlinear_arith);
}

/// A colour of three whole levels from 0 to 255 becomes the pixel of those
/// levels.
pub proof fn lemma_levels_pack(c: Color, red: int, green: int, blue: int)
    requires
        c.shows(red, green, blue),
        0 <= red <= 255,
        0 <= green <= 255,
        0 <= blue <= 255,
    ensures
        c.packed() == pixel_of(red, green, blue),
{
    lemma_pow2_pos(149);
    lemma_whole_level(c.r, red);
    lemma_whole_level(c.g, green);
    lemma_whole_level(c.b, blue);
}

/// A channel that is a whole number from 0 to 255 shows as that level.
pub proof fn lemma_whole_level(c: Scalar, level: int)
    requires
        !c.is_nan(),
        c.scaled() == level * unit(),
        0 <= level <= 255,
    ensures
        channel_level(c) == level,
{
    lemma_pow2_pos(149);
    vstd::arithmetic::div_mod::lemma_div_multiples_vanish(level, unit());
    assert(level * unit() == unit() * level) by (nonlinear_arith);
    if level == 0 {
        assert(level * unit() == 0) by (nonlinear_arith)
            requires
                level == 0,
        ;
    } else {
        assert(level * unit() > 0) by (nonlinear_arith)
            requires
                level > 0,
                unit() > 0,
        ;
        if level < 255 {
            assert(level * unit() < 255 * unit()) by (nonlinear_arith)
                requires
                    level < 255,
                    unit() > 0,
            ;
        }
    }
}

/// The three levels of a pixel are the levels of the three channels of its
/// colour: none of them reaches into another.
pub proof fn lemma_pixel_levels(c: Color)
    ensures
        0 <= c.packed() <= 0x00ff_ffff,
        c.packed() / 0x1_0000 == channel_level(c.r),
        (c.packed() / 0x100) % 0x100 == channel_level(c.g),
        c.packed() % 0x100 == channel_level(c.b),
{
    lemma_packing_clamps(c.r);
    lemma_packing_clamps(c.g);
    lemma_packing_clamps(c.b);
    lemma_pixel_splits(channel_level(c.r), channel_level(c.g), channel_level(c.b));
}

/// Three levels from 0 to 255 can be read back from their pixel.
pub proof fn lemma_pixel_splits(red: int, green: int, blue: int)
    requires
        0 <= red <= 255,
        0 <= green <= 255,
        0 <= blue <= 255,
    ensures
        0 <= pixel_of(red, green, blue) <= 0x00ff_ffff,
        pixel_of(red, green, blue) / 0x1_0000 == red,
        (pixel_of(red, green, blue) / 0x100) % 0x100 == green,
        pixel_of(red, green, blue) % 0x100 == blue,
{
    let pixel = pixel_of(red, green, blue);
    vstd::arithmetic::div_mod::lemma_fundamental_div_mod_converse(
        pixel,
        0x1_0000,
        red,
        green * 0x100 + blue,
    );
    vstd::arithmetic::div_mod::lemma_fundamental_div_mod_converse(
        pixel,
        0x100,
        red * 0x100 + green,
        blue,
    );
    vstd::arithmetic::div_mod::lemma_fundamental_div_mod_converse(
        red * 0x100 + green,
        0x100,
        red,
        green,
    );
}

/// A channel below 0 shows as level 0 and a channel above 255 as level 255,
/// whatever the other channels hold; a NaN shows as level 0.
pub proof fn lemma_packing_clamps(c: Scalar)
    ensures
        0 <= channel_level(c) <= 255,
        c.spec_lt(Scalar { bits: 0 }) ==> channel_level(c) == 0,
        c.spec_gt(Scalar { bits: FULL_LEVEL_BITS }) ==> channel_level(c) == 255,
        c.is_nan() ==> channel_level(c) == 0,
{
    lemma_full_level();
    lemma_pow2_pos(149);
    if !c.is_nan() && 0 < c.scaled() < 255 * unit() {
        vstd::arithmetic::div_mod::lemma_div_is_ordered(c.scaled(), 255 * unit(), unit());
        vstd::arithmetic::div_mod::lemma_div_multiples_vanish(255, unit());
        vstd::arithmetic::div_mod::lemma_div_pos_is_pos(c.scaled(), unit());
    }
}

} // verus!
