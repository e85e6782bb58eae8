//! Axis-aligned cubes: the slab test on the six planes of a cube, and the face
//! that a point of its surface lies on.
use vstd::prelude::*;
use crate::material::Material;
use crate::numerics::Numerics;
use crate::ray_intersect::Intersect;
use crate::scalar::Scalar;
use crate::vector::Vec3;

verus! {

/// A cube with edges along the axes, with its material.
#[derive(Debug, Clone, Copy)]
pub struct Cube {
    pub center: Vec3,
    /// The length of an edge.
    pub size: Scalar,
    pub material: Material,
}

/// The distances along a ray at which it crosses the six planes of a cube: the
/// two planes across the x axis, then those across y, then those across z.
#[derive(Debug, Clone, Copy)]
pub struct Slabs {
    pub x: (Scalar, Scalar),
    pub y: (Scalar, Scalar),
    pub z: (Scalar, Scalar),
}

impl Slabs {
    /// The distance at which the ray has entered all three slabs: the largest of
    /// the three entries.
    pub open spec fn entry(self) -> Scalar {
        self.x.0.spec_min(self.x.1).spec_max(self.y.0.spec_min(self.y.1)).spec_max(
            self.z.0.spec_min(self.z.1),
        )
    }

    /// The distance at which the ray leaves the first of the three slabs: the
    /// smallest of the three exits.
    pub open spec fn exit(self) -> Scalar {
        self.x.0.spec_max(self.x.1).spec_min(self.y.0.spec_max(self.y.1)).spec_min(
            self.z.0.spec_max(self.z.1),
        )
    }

    /// The distance at which the ray meets the cube. There is none where the cube
    /// lies behind the ray or the ray leaves one slab before it has entered
    /// another. Elsewhere it is the entry, or the exit for a ray that starts
    /// inside, and counts only where it is positive.
    pub open spec fn hit(self) -> Option<Scalar> {
        let zero = Scalar { bits: 0 };
        if self.exit().spec_lt(zero) || self.entry().spec_gt(self.exit()) {
            None
        } else {
            let t = if self.entry().spec_gt(zero) {
                self.entry()
            } else {
                self.exit()
            };
            if t.spec_le(zero) {
                None
            } else {
                Some(t)
            }
        }
    }
}

impl Cube {
    /// The hit of a ray with this cube at `distance`, on the point `point` of
    /// the face with the given normal.
    pub open spec fn hit_at(
        self,
        point: Vec3,
        normal: Vec3,
        distance: Scalar,
        uv: (Scalar, Scalar),
    ) -> Intersect {
        Intersect {
            point,
            normal,
            distance,
            is_intersecting: true,
            material: self.material,
            uv: Some(uv),
        }
    }

    /// `hit` is the hit of a ray with this cube at `distance`: on a point that
    /// `numerics` gives for the distance, with the normal of the face that the
    /// point lies on, and with surface coordinates that `numerics` gives for the
    /// point's coordinates across that face.
    pub open spec fn meets_at<N: Numerics>(
        self,
        numerics: N,
        origin: Vec3,
        direction: Vec3,
        distance: Scalar,
        hit: Intersect,
    ) -> bool {
        exists|at: (Vec3, Vec3)|
            #[trigger] call_ensures(
                N::cube_point,
                (&numerics, &self, &origin, &direction, distance),
                at,
            ) && self.meets_on(numerics, distance, at, hit)
    }

    /// `hit` is the hit at `distance` on the point `at.0`, which relative to the
    /// centre is `at.1`.
    pub open spec fn meets_on<N: Numerics>(
        self,
        numerics: N,
        distance: Scalar,
        at: (Vec3, Vec3),
        hit: Intersect,
    ) -> bool {
        let normal = Self::spec_face_normal(at.1);
        let across = Self::spec_face_coordinates(normal, at.1);
        exists|uv: (Scalar, Scalar)|
            #[trigger] call_ensures(N::cube_uv, (&numerics, &self, across.0, across.1), uv) && hit
                == self.hit_at(at.0, normal, distance, uv)
    }

    /// `hit` is what the ray from `origin` along `direction` finds on this cube,
    /// for distances to the six planes that `numerics` gives for the ray: a miss
    /// where the slab test on them fails, the hit at the distance it gives
    /// elsewhere.
    pub open spec fn meets<N: Numerics>(
        self,
        numerics: N,
        origin: Vec3,
        direction: Vec3,
        hit: Intersect,
    ) -> bool {
        exists|slabs: Slabs|
            #[trigger] call_ensures(N::cube_slabs, (&numerics, &self, &origin, &direction), slabs)
                && match slabs.hit() {
                None => hit.is_empty(),
                Some(t) => self.meets_at(numerics, origin, direction, t, hit),
            }
    }

    /// Where the ray from `ray_origin` along `ray_direction` meets the cube
    /// first, or the record of a miss. The slab test on the distances to the
    /// six planes says whether and where the ray meets the cube; the normal is
    /// that of the face across the axis along which the hit point is farthest
    /// from the centre.
    pub fn ray_intersect<N: Numerics>(
        &self,
        numerics: &N,
        ray_origin: &Vec3,
        ray_direction: &Vec3,
    ) -> (hit: Intersect)
        ensures
            self.meets(*numerics, *ray_origin, *ray_direction, hit),
    {
        let slabs = numerics.cube_slabs(self, ray_origin, ray_direction);
        match Self::slab_hit(&slabs) {
            None => Intersect::empty(),
            Some(t) => {
                let at = numerics.cube_point(self, ray_origin, ray_direction, t);
                let normal = Self::face_normal(&at.1);
                let across = Self::face_coordinates(&normal, &at.1);
                let uv = numerics.cube_uv(self, across.0, across.1);
                let hit = Intersect::new(at.0, normal, t, self.material).with_uv(uv.0, uv.1);
                assert(self.meets_on(*numerics, t, at, hit));
                assert(self.meets_at(*numerics, *ray_origin, *ray_direction, t, hit));
                hit
            },
        }
    }

    /// The distance at which a ray meets the cube, given the distances at which
    /// it crosses the six planes.
    pub fn slab_hit(slabs: &Slabs) -> (r: Option<Scalar>)
        ensures
            r == slabs.hit(),
    {
        let entry = slabs.x.0.min(slabs.x.1).max(slabs.y.0.min(slabs.y.1)).max(
            slabs.z.0.min(slabs.z.1),
        );
        let exit = slabs.x.0.max(slabs.x.1).min(slabs.y.0.max(slabs.y.1)).min(
            slabs.z.0.max(slabs.z.1),
        );
        if exit.lt(Scalar::zero()) || entry.gt(exit) {
            return None;
        }
        let t = if entry.gt(Scalar::zero()) {
            entry
        } else {
            exit
        };
        if t.le(Scalar::zero()) {
            None
        } else {
            Some(t)
        }
    }

    /// The outward normal of the face that a surface point lies on. `local` is
    /// the point relative to the centre: the face is across the axis along which
    /// the point is farthest from the centre, x before y before z where two are
    /// equally far, on the side where the point lies.
    pub open spec fn spec_face_normal(local: Vec3) -> Vec3 {
        let zero = Scalar { bits: 0 };
        let ax = local.x.spec_abs();
        let ay = local.y.spec_abs();
        let az = local.z.spec_abs();
        if ay.spec_le(ax) && az.spec_le(ax) {
            Vec3 { x: local.x.spec_signum(), y: zero, z: zero }
        } else if az.spec_le(ay) {
            Vec3 { x: zero, y: local.y.spec_signum(), z: zero }
        } else {
            Vec3 { x: zero, y: zero, z: local.z.spec_signum() }
        }
    }

    /// The two coordinates of `local` that run across the face with the given
    /// normal, in the order of the surface coordinates `(u, v)`: `(z, y)` on a
    /// face across x, `(x, z)` on a face across y, `(x, y)` on a face across z.
    pub open spec fn spec_face_coordinates(normal: Vec3, local: Vec3) -> (Scalar, Scalar) {
        let zero = Scalar { bits: 0 };
        if normal.x.spec_abs().spec_gt(zero) {
            (local.z, local.y)
        } else if normal.y.spec_abs().spec_gt(zero) {
            (local.x, local.z)
        } else {
            (local.x, local.y)
        }
    }

    /// The outward normal of the face that the surface point `local`, taken
    /// relative to the centre, lies on.
    pub fn face_normal(local: &Vec3) -> (normal: Vec3)
        ensures
            normal == Self::spec_face_normal(*local),
    {
        let ax = local.x.abs();
        let ay = local.y.abs();
        let az = local.z.abs();
        if ay.le(ax) && az.le(ax) {
            Vec3 { x: local.x.signum(), y: Scalar::zero(), z: Scalar::zero() }
        } else if az.le(ay) {
            Vec3 { x: Scalar::zero(), y: local.y.signum(), z: Scalar::zero() }
        } else {
            Vec3 { x: Scalar::zero(), y: Scalar::zero(), z: local.z.signum() }
        }
    }

    /// The two coordinates of `local` from which the surface coordinates on the
    /// face with the given normal are taken.
    pub fn face_coordinates(normal: &Vec3, local: &Vec3) -> (uv: (Scalar, Scalar))
        ensures
            uv == Self::spec_face_coordinates(*normal, *local),
    {
        if normal.x.abs().gt(Scalar::zero()) {
            (local.z, local.y)
        } else if normal.y.abs().gt(Scalar::zero()) {
            (local.x, local.z)
        } else {
            (local.x, local.y)
        }
    }
}

/// The face of a surface point is across the axis along which the point is
/// farthest from the centre, and of two axes along which it is equally far the
/// earlier one wins, x before y before z: the normal of a point whose three
/// coordinates are numbers lies along x exactly where x is at least as far as
/// both others, along y where x is not and y is at least as far as z, and along z
/// elsewhere. It points to the side of the centre on which the point lies.
pub proof fn lemma_face_is_farthest(local: Vec3)
    requires
        !local.x.is_nan(),
        !local.y.is_nan(),
        !local.z.is_nan(),
    ensures
        ({
            let normal = Cube::spec_face_normal(local);
            let zero = Scalar { bits: 0 };
            let x_wins = local.x.magnitude() >= local.y.magnitude() && local.x.magnitude()
                >= local.z.magnitude();
            let y_wins = !x_wins && local.y.magnitude() >= local.z.magnitude();
            &&& x_wins ==> normal == (Vec3 { x: local.x.spec_signum(), y: zero, z: zero })
            &&& y_wins ==> normal == (Vec3 { x: zero, y: local.y.spec_signum(), z: zero })
            &&& !x_wins && !y_wins ==> normal == (Vec3 {
                x: zero,
                y: zero,
                z: local.z.spec_signum(),
            })
        }),
{
    let ax = local.x.spec_abs();
    let ay = local.y.spec_abs();
    let az = local.z.spec_abs();
    assert(ax.field() == local.x.field() && !ax.sign());
    assert(ay.field() == local.y.field() && !ay.sign());
    assert(az.field() == local.z.field() && !az.sign());
}

/// A ray meets a cube only in front of its origin: the distance of a hit, where
/// it is a number, is positive, and it is the distance at which the ray enters
/// the cube, or the one at which it leaves for a ray that starts inside.
pub proof fn lemma_slab_hit_is_ahead(slabs: Slabs)
    ensures
        slabs.hit() matches Some(t) ==> !t.spec_le(Scalar { bits: 0 }) && (t == slabs.entry() || t
            == slabs.exit()),
{
}

/// Whatever a cube gives for a ray is a miss or a hit that does not lie at or
/// behind the ray's origin, with the material of the cube.
pub proof fn lemma_cube_hit_is_ahead<N: Numerics>(
    cube: Cube,
    numerics: N,
    origin: Vec3,
    direction: Vec3,
    hit: Intersect,
)
    requires
        cube.meets(numerics, origin, direction, hit),
    ensures
        hit.is_intersecting ==> !hit.distance.spec_le(Scalar { bits: 0 }) && hit.material
            == cube.material,
        !hit.is_intersecting ==> hit.is_empty(),
{
    let slabs = choose|slabs: Slabs|
        #[trigger] call_ensures(N::cube_slabs, (&numerics, &cube, &origin, &direction), slabs)
            && match slabs.hit() {
            None => hit.is_empty(),
            Some(t) => cube.meets_at(numerics, origin, direction, t, hit),
        };
    lemma_slab_hit_is_ahead(slabs);
}

} // verus!
