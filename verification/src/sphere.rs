//! Spheres, and the choice among the two points where a ray's line meets one.
use vstd::prelude::*;
use crate::material::Material;
use crate::numerics::{Approach, Numerics, SurfacePoint};
use crate::ray_intersect::Intersect;
use crate::scalar::Scalar;
use crate::vector::Vec3;

verus! {

/// A sphere with its material.
#[derive(Debug, Clone, Copy)]
pub struct Sphere {
    pub center: Vec3,
    pub radius: Scalar,
    pub material: Material,
}

impl Sphere {
    /// Whether a ray passes the sphere by: the centre lies behind the ray's
    /// origin, or the ray's line stays farther from the centre than the radius.
    pub open spec fn spec_misses(along: Scalar, off_axis2: Scalar, radius2: Scalar) -> bool {
        along.spec_lt(Scalar { bits: 0 }) || off_axis2.spec_gt(radius2)
    }

    /// The distance at which a ray meets the sphere, of the two at which its line
    /// does: the nearer one unless it is negative, then the farther one, and
    /// none where that is negative too.
    pub open spec fn spec_nearest_root(near: Scalar, far: Scalar) -> Option<Scalar> {
        let t = if near.spec_lt(Scalar { bits: 0 }) {
            far
        } else {
            near
        };
        if t.spec_lt(Scalar { bits: 0 }) {
            None
        } else {
            Some(t)
        }
    }

    /// The hit of a ray with this sphere at `distance`, on the given point of its
    /// surface.
    pub open spec fn hit_at(self, distance: Scalar, surface: SurfacePoint) -> Intersect {
        Intersect {
            point: surface.point,
            normal: surface.normal,
            distance,
            is_intersecting: true,
            material: self.material,
            uv: Some((surface.u, surface.v)),
        }
    }

    /// `hit` is what the ray from `origin` along `direction` finds on this
    /// sphere, where the two distances at which its line meets the sphere are
    /// `roots`: a miss where neither counts, and else the hit at the one that
    /// does, on a surface point that `numerics` gives for it.
    pub open spec fn meets_at<N: Numerics>(
        self,
        numerics: N,
        origin: Vec3,
        direction: Vec3,
        roots: (Scalar, Scalar),
        hit: Intersect,
    ) -> bool {
        match Self::spec_nearest_root(roots.0, roots.1) {
            None => hit.is_empty(),
            Some(t) => exists|surface: SurfacePoint|
                #[trigger] call_ensures(
                    N::sphere_surface,
                    (&numerics, &self, &origin, &direction, t),
                    surface,
                ) && hit == self.hit_at(t, surface),
        }
    }

    /// `hit` is what the ray finds on this sphere, where it passes the centre as
    /// `approach` says: a miss where it passes the sphere by, and else what it
    /// finds at roots that `numerics` gives for the approach.
    pub open spec fn meets_with<N: Numerics>(
        self,
        numerics: N,
        origin: Vec3,
        direction: Vec3,
        approach: Approach,
        hit: Intersect,
    ) -> bool {
        if Self::spec_misses(approach.along, approach.off_axis2, approach.radius2) {
            hit.is_empty()
        } else {
            exists|roots: (Scalar, Scalar)|
                #[trigger] call_ensures(N::sphere_roots, (&numerics, &approach), roots)
                    && self.meets_at(numerics, origin, direction, roots, hit)
        }
    }

    /// `hit` is what the ray from `origin` along `direction` finds on this
    /// sphere, for an approach that `numerics` gives for the ray.
    pub open spec fn meets<N: Numerics>(
        self,
        numerics: N,
        origin: Vec3,
        direction: Vec3,
        hit: Intersect,
    ) -> bool {
        exists|approach: Approach|
            #[trigger] call_ensures(
                N::sphere_approach,
                (&numerics, &self, &origin, &direction),
                approach,
            ) && self.meets_with(numerics, origin, direction, approach, hit)
    }

    /// Where the ray from `ray_origin` along `ray_direction` meets the sphere
    /// first, or the record of a miss. The ray misses where the sphere lies
    /// behind its origin or off its line. Of the two points where the line
    /// meets the sphere, the nearer counts unless it lies behind the origin,
    /// then the farther; a ray with both behind it misses.
    pub fn ray_intersect<N: Numerics>(
        &self,
        numerics: &N,
        ray_origin: &Vec3,
        ray_direction: &Vec3,
    ) -> (hit: Intersect)
        ensures
            self.meets(*numerics, *ray_origin, *ray_direction, hit),
    {
        let approach = numerics.sphere_approach(self, ray_origin, ray_direction);
        if Self::misses(approach.along, approach.off_axis2, approach.radius2) {
            return Intersect::empty();
        }
        let roots = numerics.sphere_roots(&approach);
        let hit = match Self::nearest_root(roots.0, roots.1) {
            None => Intersect::empty(),
            Some(t) => {
                let surface = numerics.sphere_surface(self, ray_origin, ray_direction, t);
                Intersect::new(surface.point, surface.normal, t, self.material).with_uv(
                    surface.u,
                    surface.v,
                )
            },
        };
        assert(self.meets_at(*numerics, *ray_origin, *ray_direction, roots, hit));
        assert(self.meets_with(*numerics, *ray_origin, *ray_direction, approach, hit));
        hit
    }

    /// Whether a ray passes the sphere by. `along` is the distance from the ray's
    /// origin to the point of its line nearest the centre, `off_axis2` the square
    /// of the distance from that point to the centre, `radius2` the square of
    /// the radius.
    pub fn misses(along: Scalar, off_axis2: Scalar, radius2: Scalar) -> (r: bool)
        ensures
            r == Self::spec_misses(along, off_axis2, radius2),
    {
        along.lt(Scalar::zero()) || off_axis2.gt(radius2)
    }

    /// The distance at which a ray meets the sphere, given the two distances
    /// `near <= far` at which its line does.
    pub fn nearest_root(near: Scalar, far: Scalar) -> (r: Option<Scalar>)
        ensures
            r == Self::spec_nearest_root(near, far),
    {
        let t = if near.lt(Scalar::zero()) {
            far
        } else {
            near
        };
        if t.lt(Scalar::zero()) {
            None
        } else {
            Some(t)
        }
    }
}

/// A ray whose origin lies outside a sphere in front of it meets the sphere at
/// the nearer of the two distances; one whose origin lies inside, at the farther.
pub proof fn lemma_root_choice(near: Scalar, far: Scalar)
    requires
        !near.is_nan(),
        !far.is_nan(),
        near.scaled() <= far.scaled(),
    ensures
        near.scaled() >= 0 ==> Sphere::spec_nearest_root(near, far) == Some(near),
        near.scaled() < 0 <= far.scaled() ==> Sphere::spec_nearest_root(near, far) == Some(far),
        far.scaled() < 0 ==> Sphere::spec_nearest_root(near, far).is_none(),
{
}

/// Whatever a sphere gives for a ray is a miss or a hit that does not lie behind
/// the ray's origin, with the material of the sphere.
pub proof fn lemma_sphere_hit_is_ahead<N: Numerics>(
    sphere: Sphere,
    numerics: N,
    origin: Vec3,
    direction: Vec3,
    hit: Intersect,
)
    requires
        sphere.meets(numerics, origin, direction, hit),
    ensures
        hit.is_intersecting ==> !hit.distance.spec_lt(Scalar { bits: 0 }) && hit.material
            == sphere.material,
        !hit.is_intersecting ==> hit.is_empty(),
{
}

} // verus!
