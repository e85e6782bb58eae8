//! The environment: what a ray sees that leaves the scene.
//!
//! The environment is a panorama, looked for once in a fixed list of places, or
//! a gradient from the horizon to the sky where no panorama was found. Reading a
//! picture is the caller's work; which place to try next, and when to stop
//! trying for good, is decided here.
use vstd::prelude::*;
use crate::bitmap::Bitmap;
use crate::color::Color;
use crate::numerics::Numerics;
use crate::ray_intersect::{Intersect, RayIntersect};
use crate::scalar::Scalar;
use crate::vector::Vec3;

verus! {

/// The number of places in which a panorama is looked for.
pub const CANDIDATES: usize = 2;

/// Where the search for a panorama stands.
#[derive(Debug)]
enum Search {
    /// The candidate with this index is the next to try.
    Probing(usize),
    /// Every candidate failed.
    Missing,
    /// A candidate gave this panorama.
    Loaded(Bitmap),
}

/// The environment of a scene.
#[derive(Debug)]
pub struct Skybox {
    search: Search,
}

/// The candidate to try after the one with the given index has failed, or `None`
/// after the last.
pub open spec fn next_candidate(failed: usize) -> Option<usize> {
    if failed + 1 < CANDIDATES {
        Some((failed + 1) as usize)
    } else {
        None
    }
}

/// `(xs, ys)` is the place on a panorama of `width` by `height` texels of a
/// direction with the given angles: the fractional part of the first spread
/// over the columns, and that of the second spread over the rows from the
/// bottom up, both as `numerics` gives them.
pub open spec fn panorama_place<N: Numerics>(
    numerics: N,
    angles: (Scalar, Scalar),
    width: u32,
    height: u32,
    xs: Scalar,
    ys: Scalar,
) -> bool {
    exists|across: Scalar, up: Scalar|
        #[trigger] angles.0.fraction_is(across) && #[trigger] angles.1.fraction_is(up)
            && call_ensures(N::spread, (&numerics, across, width), xs) && call_ensures(
            N::spread_down,
            (&numerics, up, height),
            ys,
        )
}

/// `color` is the colour of `picture`, taken as a panorama, along `direction`:
/// the texel that the place of the direction falls into, for angles that
/// `numerics` gives for the direction.
pub open spec fn shows_panorama<N: Numerics>(
    numerics: N,
    picture: Bitmap,
    direction: Vec3,
    color: Color,
) -> bool {
    exists|angles: (Scalar, Scalar)|
        #[trigger] call_ensures(N::panorama_angles, (&numerics, &direction), angles) && exists|
            xs: Scalar,
            ys: Scalar,
        |
            #[trigger] panorama_place(
                numerics,
                angles,
                picture.spec_width() as u32,
                picture.spec_height() as u32,
                xs,
                ys,
            ) && color.shows(
                picture.nearest_levels(xs, ys).0,
                picture.nearest_levels(xs, ys).1,
                picture.nearest_levels(xs, ys).2,
            )
}

/// `color` is the colour of the gradient along `direction`: white blended
/// toward sky blue by a weight that `numerics` gives for the direction.
pub open spec fn shows_gradient<N: Numerics>(numerics: N, direction: Vec3, color: Color) -> bool {
    exists|weight: Scalar|
        #[trigger] call_ensures(N::gradient_weight, (&numerics, &direction), weight) && exists|
            horizon: Color,
            zenith: Color,
        |
            #[trigger] horizon.blends(numerics, zenith, weight, color) && horizon.shows(
                255,
                255,
                255,
            ) && zenith.shows(135, 206, 235)
}

impl Skybox {
    #[verifier::type_invariant]
    spec fn well_formed(&self) -> bool {
        self.search matches Search::Probing(i) ==> i < CANDIDATES
    }

    /// The index of the candidate to try next, while the search goes on.
    pub closed spec fn pending(&self) -> Option<usize> {
        match self.search {
            Search::Probing(i) => Some(i),
            _ => None,
        }
    }

    /// The panorama, once one was found.
    pub closed spec fn panorama(&self) -> Option<Bitmap> {
        match self.search {
            Search::Loaded(picture) => Some(picture),
            _ => None,
        }
    }

    /// An environment whose panorama has not been looked for yet.
    pub fn new() -> (sky: Skybox)
        ensures
            sky.pending() == Some(0usize),
            sky.panorama().is_none(),
    {
        Skybox { search: Search::Probing(0) }
    }

    /// The path of the candidate with the given index.
    pub fn candidate_path(index: usize) -> (path: &'static str)
        requires
            index < CANDIDATES,
        ensures
            path@ == if index == 0 {
                "assets/sky.exr"@
            } else {
                "src/assets/sky.exr"@
            },
    {
        if index == 0 {
            "assets/sky.exr"
        } else {
            "src/assets/sky.exr"
        }
    }

    /// The index of the candidate to read next, or `None` once the search is
    /// over, with or without a panorama.
    pub fn next_probe(&self) -> (r: Option<usize>)
        ensures
            r == self.pending(),
            r matches Some(i) ==> i < CANDIDATES,
    {
        proof {
            use_type_invariant(self);
        }
        match &self.search {
            Search::Probing(i) => Some(*i),
            _ => None,
        }
    }

    /// Takes in what reading the pending candidate gave: the decoded panorama,
    /// or `None` where the file is missing or cannot be decoded. A panorama ends
    /// the search; a failure moves it to the next candidate, and ends it without
    /// a panorama after the last. Once the search is over nothing changes it.
    pub fn record_probe(&mut self, decoded: Option<Bitmap>)
        ensures
            old(self).pending().is_none() ==> final(self).pending().is_none()
                && final(self).panorama() == old(self).panorama(),
            old(self).pending().is_some() && decoded.is_some()
                ==> final(self).pending().is_none() && final(self).panorama() == decoded,
            old(self).pending().is_some() && decoded.is_none()
                ==> final(self).panorama().is_none()
                && final(self).pending() == next_candidate(old(self).pending().unwrap()),
    {
        proof {
            use_type_invariant(&*self);
        }
        let next: Option<usize> = match &self.search {
            Search::Probing(i) => Some(*i + 1),
            _ => None,
        };
        match next {
            None => {},
            Some(n) => {
                match decoded {
                    Some(picture) => {
                        self.search = Search::Loaded(picture);
                    },
                    None => {
                        if n < CANDIDATES {
                            self.search = Search::Probing(n);
                        } else {
                            self.search = Search::Missing;
                        }
                    },
                }
            },
        }
    }

    /// The width and the height of the panorama, if there is one.
    pub fn panorama_size(&self) -> (r: Option<(u32, u32)>)
        ensures
            r == match self.panorama() {
                Some(picture) => Some((picture.spec_width() as u32, picture.spec_height() as u32)),
                None => None,
            },
            r matches Some(d) ==> d.0 > 0 && d.1 > 0,
    {
        match &self.search {
            Search::Loaded(picture) => Some((picture.width(), picture.height())),
            _ => None,
        }
    }

    /// `color` is what the environment shows along `direction`: with a panorama,
    /// the texel that the place of the direction falls into; without one, the
    /// gradient.
    pub open spec fn colors<N: Numerics>(
        &self,
        numerics: N,
        direction: Vec3,
        color: Color,
    ) -> bool {
        match self.panorama() {
            Some(picture) => shows_panorama(numerics, picture, direction, color),
            None => shows_gradient(numerics, direction, color),
        }
    }

    /// The colour of the environment along `direction`: the nearest texel of the
    /// panorama where there is one, and elsewhere the gradient from white at the
    /// horizon to sky blue.
    pub fn sample_color<N: Numerics>(&self, numerics: &N, direction: &Vec3) -> (color: Color)
        ensures
            self.colors(*numerics, *direction, color),
    {
        match &self.search {
            Search::Loaded(picture) => {
                let angles = numerics.panorama_angles(direction);
                let width = picture.width();
                let height = picture.height();
                let xs = numerics.spread(angles.0.fract(), width);
                let ys = numerics.spread_down(angles.1.fract(), height);
                assert(panorama_place(
                    *numerics,
                    angles,
                    picture.spec_width() as u32,
                    picture.spec_height() as u32,
                    xs,
                    ys,
                ));
                let color = picture.nearest(xs, ys);
                assert(shows_panorama(*numerics, *picture, *direction, color));
                color
            },
            _ => {
                let weight = numerics.gradient_weight(direction);
                let color = Self::horizon().blend(numerics, Self::zenith(), weight);
                assert(shows_gradient(*numerics, *direction, color));
                color
            },
        }
    }

    /// The colour of the gradient for a ray that points straight down: white.
    pub fn horizon() -> (c: Color)
        ensures
            c.shows(255, 255, 255),
    {
        Color::from_levels(255, 255, 255)
    }

    /// The colour of the gradient for a ray that points straight up: sky blue.
    pub fn zenith() -> (c: Color)
        ensures
            c.shows(135, 206, 235),
    {
        Color::from_levels(135, 206, 235)
    }

}

impl RayIntersect for Skybox {
    /// The environment is no surface: no ray ever meets it.
    fn ray_intersect(&self, _ray_origin: &Vec3, _ray_direction: &Vec3) -> (hit: Intersect)
        ensures
            hit.is_empty(),
    {
        Intersect::empty()
    }
}

} // verus!
