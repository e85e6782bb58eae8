//! Decoded pictures: rows of texels of three levels each.
use vstd::prelude::*;
use crate::color::Color;
use crate::scalar::Scalar;

verus! {

/// A picture of at least one texel, stored row by row from the top, three bytes
/// to a texel: red, green, blue.
#[derive(Debug)]
pub struct Bitmap {
    width: u32,
    height: u32,
    rgb: Vec<u8>,
}

/// The column or row that a coordinate, already scaled to the picture's size,
/// falls into: its whole part, held to the last one.
pub open spec fn nearest_cell(scaled: Scalar, cells: int) -> int {
    if scaled.spec_to_u32() < cells - 1 {
        scaled.spec_to_u32()
    } else {
        cells - 1
    }
}

impl Bitmap {
    #[verifier::type_invariant]
    spec fn well_formed(&self) -> bool {
        &&& self.width > 0
        &&& self.height > 0
        &&& self.rgb.len() == 3 * self.width * self.height
    }

    /// The number of columns.
    pub closed spec fn spec_width(&self) -> int {
        self.width as int
    }

    /// The number of rows.
    pub closed spec fn spec_height(&self) -> int {
        self.height as int
    }

    /// The bytes of the picture.
    pub closed spec fn data(&self) -> Seq<u8> {
        self.rgb@
    }

    /// The level of channel `c` (0 red, 1 green, 2 blue) of the texel in column
    /// `x` of row `y`.
    pub open spec fn level(&self, x: int, y: int, c: int) -> u8 {
        self.data()[3 * (y * self.spec_width() + x) + c]
    }

    /// The picture of `width` by `height` texels with the given bytes, or `None`
    /// where a dimension is 0 or the bytes are not three to a texel.
    pub fn new(width: u32, height: u32, rgb: Vec<u8>) -> (r: Option<Bitmap>)
        ensures
            r.is_some() <==> width > 0 && height > 0 && rgb.len() == 3 * width * height,
            r matches Some(b) ==> b.spec_width() == width && b.spec_height() == height
                && b.data() == rgb@,
    {
        if width == 0 || height == 0 {
            return None;
        }
        assert(3 * width * height <= 3 * 0xffff_ffff * 0xffff_ffff) by (nonlinear_arith)
            requires
                width <= 0xffff_ffff,
                height <= 0xffff_ffff,
        ;
        assert(3 * width <= 3 * 0xffff_ffff);
        let wanted: u128 = 3u128 * (width as u128) * (height as u128);
        if rgb.len() as u128 != wanted {
            return None;
        }
        Some(Bitmap { width, height, rgb })
    }

    /// The number of columns.
    pub fn width(&self) -> (w: u32)
        ensures
            w == self.spec_width(),
            w > 0,
    {
        proof {
            use_type_invariant(self);
        }
        self.width
    }

    /// The number of rows.
    pub fn height(&self) -> (h: u32)
        ensures
            h == self.spec_height(),
            h > 0,
    {
        proof {
            use_type_invariant(self);
        }
        self.height
    }

    /// The colour of the texel in column `x` of row `y`: its three levels as
    /// numbers.
    pub fn texel(&self, x: u32, y: u32) -> (c: Color)
        requires
            x < self.spec_width(),
            y < self.spec_height(),
        ensures
            c.shows(self.level(x as int, y as int, 0) as int, self.level(x as int, y as int, 1)
                as int, self.level(x as int, y as int, 2) as int),
    {
        proof {
            use_type_invariant(self);
            let w = self.width as int;
            let h = self.height as int;
            assert(y * w + x < w * h) by (nonlinear_arith)
                requires
                    0 <= x < w,
                    0 <= y < h,
            ;
            assert(y * w >= 0) by (nonlinear_arith)
                requires
                    0 <= y,
                    0 <= w,
            ;
            assert(3 * w * h == 3 * (w * h)) by (nonlinear_arith);
        }
        let row: usize = y as usize * self.width as usize;
        let at: usize = 3 * (row + x as usize);
        Color::from_levels(self.rgb[at], self.rgb[at + 1], self.rgb[at + 2])
    }

    /// The three levels of the texel that the scaled coordinates fall into.
    pub open spec fn nearest_levels(&self, xs: Scalar, ys: Scalar) -> (int, int, int) {
        let x = nearest_cell(xs, self.spec_width());
        let y = nearest_cell(ys, self.spec_height());
        (self.level(x, y, 0) as int, self.level(x, y, 1) as int, self.level(x, y, 2) as int)
    }

    /// The colour of the texel that the scaled coordinates fall into: `xs` runs
    /// from 0 to the width along a row, `ys` from 0 to the height down a column.
    /// Coordinates outside the picture take the nearest texel of its edge.
    pub fn nearest(&self, xs: Scalar, ys: Scalar) -> (c: Color)
        ensures
            c.shows(
                self.nearest_levels(xs, ys).0,
                self.nearest_levels(xs, ys).1,
                self.nearest_levels(xs, ys).2,
            ),
    {
        proof {
            use_type_invariant(self);
        }
        let column: u32 = xs.to_u32();
        let row: u32 = ys.to_u32();
        let x: u32 = if column < self.width - 1 {
            column
        } else {
            self.width - 1
        };
        let y: u32 = if row < self.height - 1 {
            row
        } else {
            self.height - 1
        };
        self.texel(x, y)
    }
}

} // verus!
