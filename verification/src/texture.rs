//! Surface textures: patterns computed from surface coordinates, and pictures
//! looked up by an id.
use vstd::prelude::*;
use std::collections::HashMap;
use crate::bitmap::Bitmap;
use crate::color::Color;
use crate::numerics::Numerics;
use crate::scalar::{lemma_fract_repeats, unit, Scalar};

verus! {

/// The surface coordinate that a striped texture varies along.
#[derive(Debug, Clone, Copy)]
pub enum Axis {
    U,
    V,
}

/// What a material shows in place of a plain colour.
#[derive(Debug, Clone, Copy)]
pub enum Texture {
    /// Squares of two colours in turn, `scale` squares to one unit of `u` or `v`.
    Checker { color1: Color, color2: Color, scale: Scalar },
    /// Bands of two colours in turn along one coordinate.
    Stripes { color1: Color, color2: Color, scale: Scalar, axis: Axis },
    /// A smooth blend of two colours that waves along both coordinates.
    MarbleProc { color1: Color, color2: Color, scale: Scalar },
    /// The picture registered under `id`, repeated `scale` times in one unit.
    Image { id: u32, scale: Scalar },
}

/// The level of all three channels of the colour that stands for a picture which
/// was never registered: a neutral grey.
pub const MISSING_LEVEL: u8 = 200;

/// The pictures that image textures show, each under the id it was registered
/// with.
pub struct TextureRegistry {
    images: HashMap<u32, Bitmap>,
}

/// Whether the cell with the given index, or with the given sum of two indices,
/// shows the first colour of a pattern: the even ones do.
pub open spec fn shows_first(cell: int) -> bool {
    cell % 2 == 0
}

/// The colour of a pattern of two colours in the cell with the given index, or
/// with the given sum of two indices.
pub open spec fn pattern_color(color1: Color, color2: Color, cell: int) -> Color {
    if shows_first(cell) {
        color1
    } else {
        color2
    }
}

/// `a` and `b` are the fractional parts of `u` and of `v`.
pub open spec fn wrapped_pair(u: Scalar, v: Scalar, a: Scalar, b: Scalar) -> bool {
    u.fraction_is(a) && v.fraction_is(b)
}

/// `a` and `b` are what `numerics` gives for `u` and for `v` times `scale`.
pub open spec fn scaled_pair<N: Numerics>(
    numerics: N,
    u: Scalar,
    v: Scalar,
    scale: Scalar,
    a: Scalar,
    b: Scalar,
) -> bool {
    call_ensures(N::scaled, (&numerics, u, scale), a) && call_ensures(
        N::scaled,
        (&numerics, v, scale),
        b,
    )
}

/// `place` is the place of the scaled coordinate `scaled` in a picture of
/// `cells` columns, or rows, that repeats from unit to unit: what `numerics`
/// gives for the fractional part of `scaled` spread over the cells.
pub open spec fn placed<N: Numerics>(
    numerics: N,
    scaled: Scalar,
    cells: u32,
    place: Scalar,
) -> bool {
    exists|fraction: Scalar|
        #[trigger] scaled.fraction_is(fraction) && call_ensures(
            N::spread,
            (&numerics, fraction, cells),
            place,
        )
}

/// `a` and `b` are the places of the scaled coordinates `su` and `sv` in a
/// picture of `width` by `height` texels.
pub open spec fn texel_pair<N: Numerics>(
    numerics: N,
    su: Scalar,
    sv: Scalar,
    width: u32,
    height: u32,
    a: Scalar,
    b: Scalar,
) -> bool {
    placed(numerics, su, width, a) && placed(numerics, sv, height, b)
}

impl Axis {
    /// The coordinate that lies along this axis.
    pub open spec fn spec_select(self, u: Scalar, v: Scalar) -> Scalar {
        match self {
            Axis::U => u,
            Axis::V => v,
        }
    }

    /// The coordinate that lies along this axis.
    pub fn select(self, u: Scalar, v: Scalar) -> (t: Scalar)
        ensures
            t == self.spec_select(u, v),
    {
        match self {
            Axis::U => u,
            Axis::V => v,
        }
    }
}

impl Texture {
    /// `color` is what the texture shows at the surface coordinates `(u, v)`,
    /// both already brought into one unit: for a pattern, the colour of the cell
    /// that scaled coordinates from `numerics` fall into; for marble, the blend
    /// of its two colours by a weight from `numerics`; for a picture, the texel
    /// that the scaled coordinates fall into, the picture repeating from unit to
    /// unit, or the neutral grey where the picture was never registered.
    pub open spec fn samples_at<N: Numerics>(
        self,
        numerics: N,
        registry: TextureRegistry,
        u: Scalar,
        v: Scalar,
        color: Color,
    ) -> bool {
        match self {
            Texture::Checker { color1, color2, scale } => exists|su: Scalar, sv: Scalar|
                #[trigger] scaled_pair(numerics, u, v, scale, su, sv) && color == pattern_color(
                    color1,
                    color2,
                    su.spec_floor_i32() + sv.spec_floor_i32(),
                ),
            Texture::Stripes { color1, color2, scale, axis } => exists|s: Scalar|
                #[trigger] call_ensures(N::scaled, (&numerics, axis.spec_select(u, v), scale), s)
                    && color == pattern_color(color1, color2, s.spec_floor_i32()),
            Texture::MarbleProc { color1, color2, scale } => exists|weight: Scalar|
                #[trigger] call_ensures(N::marble_weight, (&numerics, scale, u, v), weight)
                    && color1.blends(numerics, color2, weight, color),
            Texture::Image { id, scale } => if registry.pictures().contains_key(id) {
                let picture = registry.pictures()[id];
                exists|su: Scalar, sv: Scalar|
                    #[trigger] scaled_pair(numerics, u, v, scale, su, sv) && exists|
                        xs: Scalar,
                        ys: Scalar,
                    |
                        #[trigger] texel_pair(
                            numerics,
                            su,
                            sv,
                            picture.spec_width() as u32,
                            picture.spec_height() as u32,
                            xs,
                            ys,
                        ) && color.shows(
                            picture.nearest_levels(xs, ys).0,
                            picture.nearest_levels(xs, ys).1,
                            picture.nearest_levels(xs, ys).2,
                        )
            } else {
                color.shows(MISSING_LEVEL as int, MISSING_LEVEL as int, MISSING_LEVEL as int)
            },
        }
    }

    /// `color` is what the texture shows at the surface coordinates `(u, v)`:
    /// what it shows at the fractional parts of the two.
    pub open spec fn samples<N: Numerics>(
        self,
        numerics: N,
        registry: TextureRegistry,
        u: Scalar,
        v: Scalar,
        color: Color,
    ) -> bool {
        exists|wu: Scalar, wv: Scalar|
            #[trigger] wrapped_pair(u, v, wu, wv) && self.samples_at(
                numerics,
                registry,
                wu,
                wv,
                color,
            )
    }

    /// The colour of the texture at the surface coordinates `(u, v)`. The
    /// texture repeats from unit to unit: only the fractional parts of the
    /// coordinates count. A checkerboard and stripes show one of their two
    /// colours by the cell that the scaled coordinates fall into; a picture
    /// shows its nearest texel, and the neutral grey where none is registered
    /// under its id.
    pub fn sample<N: Numerics>(
        &self,
        numerics: &N,
        registry: &TextureRegistry,
        u: Scalar,
        v: Scalar,
    ) -> (color: Color)
        ensures
            self.samples(*numerics, *registry, u, v, color),
    {
        let wu = u.fract();
        let wv = v.fract();
        let color = match *self {
            Texture::Checker { color1, color2, scale } => {
                let su = numerics.scaled(wu, scale);
                let sv = numerics.scaled(wv, scale);
                assert(scaled_pair(*numerics, wu, wv, scale, su, sv));
                Texture::checker(color1, color2, su, sv)
            },
            Texture::Stripes { color1, color2, scale, axis } => {
                let s = numerics.scaled(axis.select(wu, wv), scale);
                Texture::stripes(color1, color2, s)
            },
            Texture::MarbleProc { color1, color2, scale } => {
                let weight = numerics.marble_weight(scale, wu, wv);
                color1.blend(numerics, color2, weight)
            },
            Texture::Image { id, scale } => match registry.size(id) {
                Some((width, height)) => {
                    let su = numerics.scaled(wu, scale);
                    let sv = numerics.scaled(wv, scale);
                    let xs = numerics.spread(su.fract(), width);
                    let ys = numerics.spread(sv.fract(), height);
                    assert(scaled_pair(*numerics, wu, wv, scale, su, sv));
                    assert(texel_pair(*numerics, su, sv, width, height, xs, ys));
                    registry.sample(id, xs, ys)
                },
                None => registry.sample(id, Scalar::zero(), Scalar::zero()),
            },
        };
        assert(wrapped_pair(u, v, wu, wv));
        assert(self.samples_at(*numerics, *registry, wu, wv, color));
        color
    }

    /// The colour of a checkerboard at the scaled coordinates `su` and `sv` (a
    /// coordinate times the texture's scale): the cell of each is its floor, and
    /// the cells whose indices sum to an even number show `color1`.
    pub fn checker(color1: Color, color2: Color, su: Scalar, sv: Scalar) -> (c: Color)
        ensures
            c == pattern_color(color1, color2, su.spec_floor_i32() + sv.spec_floor_i32()),
    {
        let cells: i64 = su.floor_to_i32() as i64 + sv.floor_to_i32() as i64;
        if cells % 2 == 0 {
            color1
        } else {
            color2
        }
    }

    /// The colour of a striped texture at the scaled coordinate `s` along its
    /// axis: the bands with an even index show `color1`.
    pub fn stripes(color1: Color, color2: Color, s: Scalar) -> (c: Color)
        ensures
            c == pattern_color(color1, color2, s.spec_floor_i32()),
    {
        let cell: i32 = s.floor_to_i32();
        if cell % 2 == 0 {
            color1
        } else {
            color2
        }
    }
}

impl TextureRegistry {
    /// The registered pictures by id.
    pub closed spec fn pictures(&self) -> Map<u32, Bitmap> {
        self.images@
    }

    /// A registry without pictures.
    pub fn new() -> (registry: TextureRegistry)
        ensures
            registry.pictures() == Map::<u32, Bitmap>::empty(),
    {
        TextureRegistry { images: HashMap::new() }
    }

    /// The width and the height of the picture registered under `id`, if there
    /// is one.
    pub fn size(&self, id: u32) -> (r: Option<(u32, u32)>)
        ensures
            r == if self.pictures().contains_key(id) {
                Some(
                    (
                        self.pictures()[id].spec_width() as u32,
                        self.pictures()[id].spec_height() as u32,
                    ),
                )
            } else {
                None
            },
            r matches Some(d) ==> d.0 > 0 && d.1 > 0,
    {
        match self.images.get(&id) {
            Some(picture) => Some((picture.width(), picture.height())),
            None => None,
        }
    }

    /// The colour of the picture registered under `id` at the scaled coordinates
    /// (see [`Bitmap::nearest`]), or the neutral grey where none is registered.
    pub fn sample(&self, id: u32, xs: Scalar, ys: Scalar) -> (c: Color)
        ensures
            self.pictures().contains_key(id) ==> c.shows(
                self.pictures()[id].nearest_levels(xs, ys).0,
                self.pictures()[id].nearest_levels(xs, ys).1,
                self.pictures()[id].nearest_levels(xs, ys).2,
            ),
            !self.pictures().contains_key(id) ==> c.shows(
                MISSING_LEVEL as int,
                MISSING_LEVEL as int,
                MISSING_LEVEL as int,
            ),
    {
        match self.images.get(&id) {
            Some(picture) => picture.nearest(xs, ys),
            None => Color::from_levels(MISSING_LEVEL, MISSING_LEVEL, MISSING_LEVEL),
        }
    }
}

/// Registers a decoded picture under `id`, in place of any registered under it
/// before, and says whether there was a picture to register: `decoded` is `None`
/// where the picture could not be read, and the registry then stays as it is.
pub fn register_image(registry: &mut TextureRegistry, id: u32, decoded: Option<Bitmap>) -> (ok:
    bool)
    ensures
        ok == decoded.is_some(),
        final(registry).pictures() == match decoded {
            Some(picture) => old(registry).pictures().insert(id, picture),
            None => old(registry).pictures(),
        },
{
    match decoded {
        Some(picture) => {
            registry.images.insert(id, picture);
            true
        },
        None => false,
    }
}

/// A texture repeats from unit to unit: coordinates that differ by whole numbers
/// from `(u, v)`, on the same side of 0, show the same colours as `(u, v)`.
pub proof fn lemma_sample_repeats<N: Numerics>(
    texture: Texture,
    numerics: N,
    registry: TextureRegistry,
    u: Scalar,
    v: Scalar,
    moved_u: Scalar,
    moved_v: Scalar,
    units_u: int,
    units_v: int,
    color: Color,
)
    requires
        u.is_finite() && moved_u.is_finite() && u.sign() == moved_u.sign(),
        v.is_finite() && moved_v.is_finite() && v.sign() == moved_v.sign(),
        moved_u.magnitude() == u.magnitude() + units_u * unit(),
        moved_v.magnitude() == v.magnitude() + units_v * unit(),
    ensures
        texture.samples(numerics, registry, u, v, color) <==> texture.samples(
            numerics,
            registry,
            moved_u,
            moved_v,
            color,
        ),
{
    assert forall|wu: Scalar, wv: Scalar|
        wrapped_pair(u, v, wu, wv) <==> wrapped_pair(moved_u, moved_v, wu, wv) by {
        lemma_fract_repeats(u, moved_u, units_u, wu);
        lemma_fract_repeats(v, moved_v, units_v, wv);
    }
    if texture.samples(numerics, registry, u, v, color) {
        let (wu, wv) = choose|wu: Scalar, wv: Scalar|
            #[trigger] wrapped_pair(u, v, wu, wv) && texture.samples_at(
                numerics,
                registry,
                wu,
                wv,
                color,
            );
        assert(wrapped_pair(moved_u, moved_v, wu, wv));
    }
    if texture.samples(numerics, registry, moved_u, moved_v, color) {
        let (wu, wv) = choose|wu: Scalar, wv: Scalar|
            #[trigger] wrapped_pair(moved_u, moved_v, wu, wv) && texture.samples_at(
                numerics,
                registry,
                wu,
                wv,
                color,
            );
        assert(wrapped_pair(u, v, wu, wv));
    }
}

/// A pattern of two colours repeats every two cells: moving a whole even number
/// of cells along either coordinate leaves the colour of a checkerboard
/// unchanged, and so it does for stripes.
pub proof fn lemma_pattern_repeats(cell_u: int, cell_v: int, steps_u: int, steps_v: int)
    ensures
        shows_first((cell_u + 2 * steps_u) + (cell_v + 2 * steps_v)) == shows_first(
            cell_u + cell_v,
        ),
        shows_first(cell_u + 2 * steps_u) == shows_first(cell_u),
{
    vstd::arithmetic::div_mod::lemma_mod_multiples_vanish(steps_u + steps_v, cell_u + cell_v, 2);
    vstd::arithmetic::div_mod::lemma_mod_multiples_vanish(steps_u, cell_u, 2);
    assert(2 * (steps_u + steps_v) + (cell_u + cell_v) == (cell_u + 2 * steps_u) + (cell_v + 2
        * steps_v));
    assert(2 * steps_u + cell_u == cell_u + 2 * steps_u);
}

} // verus!
