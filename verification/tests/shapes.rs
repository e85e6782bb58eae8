use raytracer::cube::{Cube, Slabs};
use raytracer::scalar::Scalar;
use raytracer::sphere::Sphere;
use raytracer::vector::Vec3;

fn s(x: f32) -> Scalar {
    Scalar::from_bits(x.to_bits())
}

fn f(x: Scalar) -> f32 {
    f32::from_bits(x.bits)
}

fn v(x: f32, y: f32, z: f32) -> Vec3 {
    Vec3::new(s(x), s(y), s(z))
}

fn xyz(p: Vec3) -> (f32, f32, f32) {
    (f(p.x), f(p.y), f(p.z))
}

/// The distance at which the ray from `origin` along the unit vector
/// `direction` meets the sphere around `center`, with the arithmetic of the
/// quadratic done here and its decisions left to the library.
fn sphere_distance(
    center: [f32; 3],
    radius: f32,
    origin: [f32; 3],
    direction: [f32; 3],
) -> Option<f32> {
    let l = [center[0] - origin[0], center[1] - origin[1], center[2] - origin[2]];
    let along = l[0] * direction[0] + l[1] * direction[1] + l[2] * direction[2];
    let off_axis2 = (l[0] * l[0] + l[1] * l[1] + l[2] * l[2]) - along * along;
    let radius2 = radius * radius;
    if Sphere::misses(s(along), s(off_axis2), s(radius2)) {
        return None;
    }
    let half_chord = (radius2 - off_axis2).sqrt();
    Sphere::nearest_root(s(along - half_chord), s(along + half_chord)).map(f)
}

/// The distances at which the ray crosses the six planes of the cube of the
/// given edge around the origin.
fn slabs(edge: f32, origin: [f32; 3], direction: [f32; 3]) -> Slabs {
    let half = edge / 2.0;
    let pair = |axis: usize| {
        let inverse = 1.0 / direction[axis];
        (s((-half - origin[axis]) * inverse), s((half - origin[axis]) * inverse))
    };
    Slabs { x: pair(0), y: pair(1), z: pair(2) }
}

#[test]
fn sphere_on_the_axis_is_met_at_five_less_the_radius() {
    for radius in [0.5f32, 1.0, 2.0, 4.0] {
        let t = sphere_distance([0.0; 3], radius, [0.0, 0.0, 5.0], [0.0, 0.0, -1.0]).unwrap();
        assert_eq!(t, 5.0 - radius);
        // the hit point, and with it the normal direction, lies on +z
        let point = [0.0f32, 0.0, 5.0 - t];
        assert_eq!(point, [0.0, 0.0, radius]);
        assert_eq!(point[2] / radius, 1.0);
    }
}

#[test]
fn sphere_behind_the_origin_is_missed() {
    assert_eq!(sphere_distance([0.0; 3], 1.0, [0.0, 0.0, 5.0], [0.0, 0.0, 1.0]), None);
    assert!(Sphere::misses(s(-0.001), s(0.0), s(1.0)));
    assert!(!Sphere::misses(s(-0.0), s(0.0), s(1.0)));
}

#[test]
fn sphere_off_the_ray_is_missed() {
    assert_eq!(sphere_distance([3.0, 0.0, 0.0], 1.0, [0.0, 0.0, 5.0], [0.0, 0.0, -1.0]), None);
    assert!(Sphere::misses(s(5.0), s(1.0001), s(1.0)));
}

#[test]
fn sphere_grazed_is_met_once() {
    // the ray touches the unit sphere at (1, 0, 0)
    let t = sphere_distance([0.0; 3], 1.0, [1.0, 0.0, 5.0], [0.0, 0.0, -1.0]).unwrap();
    assert_eq!(t, 5.0);
    assert!(!Sphere::misses(s(5.0), s(1.0), s(1.0)));
}

#[test]
fn sphere_around_the_origin_is_met_at_the_far_root() {
    let t = sphere_distance([0.0; 3], 2.0, [0.0, 0.0, 0.0], [0.0, 0.0, -1.0]).unwrap();
    assert_eq!(t, 2.0);
    assert_eq!(Sphere::nearest_root(s(-2.0), s(2.0)).map(f), Some(2.0));
}

#[test]
fn sphere_roots_exact_choices() {
    assert_eq!(Sphere::nearest_root(s(4.0), s(6.0)).map(f), Some(4.0));
    assert_eq!(Sphere::nearest_root(s(0.0), s(6.0)).map(f), Some(0.0));
    assert_eq!(Sphere::nearest_root(s(-1.0), s(6.0)).map(f), Some(6.0));
    assert_eq!(Sphere::nearest_root(s(-6.0), s(-1.0)).map(f), None);
    // a NaN is not negative: it is handed on, and counts for nothing later
    assert!(Sphere::nearest_root(s(f32::NAN), s(1.0)).map(f).unwrap().is_nan());
}

#[test]
fn sphere_with_nan_in_the_tests_is_not_passed_by() {
    assert!(!Sphere::misses(s(f32::NAN), s(f32::NAN), s(1.0)));
}

#[test]
fn cube_met_from_the_side() {
    let planes = slabs(2.0, [5.0, 0.0, 0.0], [-1.0, 0.0, 0.0]);
    // the direction has two zero components: their slabs run from -inf to +inf
    assert_eq!((f(planes.y.0), f(planes.y.1)), (f32::NEG_INFINITY, f32::INFINITY));
    let t = f(Cube::slab_hit(&planes).unwrap());
    assert_eq!(t, 4.0);
    let point = [5.0 - t, 0.0, 0.0];
    assert_eq!(point, [1.0, 0.0, 0.0]);
    let normal = Cube::face_normal(&v(point[0], point[1], point[2]));
    assert_eq!(xyz(normal), (1.0, 0.0, 0.0));
    let local = v(point[0], point[1], point[2]);
    let (a, b) = Cube::face_coordinates(&normal, &local);
    assert_eq!((f(a), f(b)), (0.0, 0.0));
    // the centre of the face has the surface coordinates (0.5, 0.5)
    assert_eq!(((f(a) + 1.0) / 2.0, (f(b) + 1.0) / 2.0), (0.5, 0.5));
}

#[test]
fn cube_behind_the_ray_is_missed() {
    let planes = slabs(2.0, [5.0, 0.0, 0.0], [1.0, 0.0, 0.0]);
    assert!(Cube::slab_hit(&planes).is_none());
}

#[test]
fn cube_passed_by_is_missed() {
    let planes = slabs(2.0, [5.0, 3.0, 0.0], [-1.0, 0.0, 0.0]);
    assert!(Cube::slab_hit(&planes).is_none());
}

#[test]
fn cube_from_inside_is_met_at_the_exit() {
    let planes = slabs(2.0, [0.0, 0.0, 0.0], [0.0, 1.0, 0.0]);
    assert_eq!(f(Cube::slab_hit(&planes).unwrap()), 1.0);
}

#[test]
fn cube_at_distance_zero_does_not_count() {
    // the origin lies on the far face, looking away: entry -2, exit 0
    let planes = slabs(2.0, [-1.0, 0.0, 0.0], [-1.0, 0.0, 0.0]);
    assert!(Cube::slab_hit(&planes).is_none());
}

#[test]
fn cube_and_a_direction_of_length_zero() {
    // 1 / 0 is infinite along every axis; inside the cube each slab is the whole
    // line, and the ray leaves at infinity
    let planes = slabs(2.0, [0.0, 0.0, 0.0], [0.0, 0.0, 0.0]);
    assert_eq!(f(Cube::slab_hit(&planes).unwrap()), f32::INFINITY);
    // outside it, 0 times infinity leaves nothing to compare
    let outside = slabs(2.0, [1.0, 5.0, 0.0], [0.0, 0.0, 0.0]);
    assert!(Cube::slab_hit(&outside).is_none());
}

#[test]
fn cube_slabs_exact_choices() {
    let planes = Slabs { x: (s(6.0), s(4.0)), y: (s(1.0), s(9.0)), z: (s(-3.0), s(7.0)) };
    assert_eq!(Cube::slab_hit(&planes).map(f), Some(4.0));
    let crossed = Slabs { x: (s(6.0), s(4.0)), y: (s(1.0), s(3.0)), z: (s(-3.0), s(7.0)) };
    assert_eq!(Cube::slab_hit(&crossed).map(f), None);
    let inside = Slabs { x: (s(-6.0), s(4.0)), y: (s(-1.0), s(9.0)), z: (s(-3.0), s(7.0)) };
    assert_eq!(Cube::slab_hit(&inside).map(f), Some(4.0));
    let behind = Slabs { x: (s(-6.0), s(-4.0)), y: (s(-1.0), s(9.0)), z: (s(-3.0), s(7.0)) };
    assert_eq!(Cube::slab_hit(&behind).map(f), None);
}

#[test]
fn cube_face_is_across_the_farthest_axis() {
    assert_eq!(xyz(Cube::face_normal(&v(1.0, 0.2, -0.3))), (1.0, 0.0, 0.0));
    assert_eq!(xyz(Cube::face_normal(&v(-1.0, 0.2, -0.3))), (-1.0, 0.0, 0.0));
    assert_eq!(xyz(Cube::face_normal(&v(0.1, -1.0, 0.3))), (0.0, -1.0, 0.0));
    assert_eq!(xyz(Cube::face_normal(&v(0.1, 0.2, 1.0))), (0.0, 0.0, 1.0));
    assert_eq!(xyz(Cube::face_normal(&v(0.1, 0.2, -1.0))), (0.0, 0.0, -1.0));
}

#[test]
fn cube_face_on_edges_and_corners() {
    // where two axes are equally far the earlier one wins: x before y before z
    assert_eq!(xyz(Cube::face_normal(&v(1.0, 1.0, 0.0))), (1.0, 0.0, 0.0));
    assert_eq!(xyz(Cube::face_normal(&v(1.0, 0.0, 1.0))), (1.0, 0.0, 0.0));
    assert_eq!(xyz(Cube::face_normal(&v(0.0, 1.0, 1.0))), (0.0, 1.0, 0.0));
    assert_eq!(xyz(Cube::face_normal(&v(-1.0, 1.0, 0.5))), (-1.0, 0.0, 0.0));
    assert_eq!(xyz(Cube::face_normal(&v(0.5, -1.0, 1.0))), (0.0, -1.0, 0.0));
    // a corner
    assert_eq!(xyz(Cube::face_normal(&v(1.0, 1.0, 1.0))), (1.0, 0.0, 0.0));
    assert_eq!(xyz(Cube::face_normal(&v(-1.0, -1.0, -1.0))), (-1.0, 0.0, 0.0));
    // the centre: all three are equally far, and the sign of the zero along x
    // decides the side
    assert_eq!(xyz(Cube::face_normal(&v(0.0, 0.0, -0.0))), (1.0, 0.0, 0.0));
    assert_eq!(xyz(Cube::face_normal(&v(-0.0, 0.0, 0.0))), (-1.0, 0.0, 0.0));
    // a tie only counts between the farthest: z is farther than both here
    assert_eq!(xyz(Cube::face_normal(&v(0.5, 0.5, 1.0))), (0.0, 0.0, 1.0));
}

#[test]
fn cube_face_without_a_number() {
    // a coordinate that is no number is never the farthest, and none is at
    // least as far as it
    assert_eq!(xyz(Cube::face_normal(&v(f32::NAN, 0.5, 0.2))), (0.0, 1.0, 0.0));
    assert_eq!(xyz(Cube::face_normal(&v(0.5, f32::NAN, 0.2))).2, 1.0);
    assert_eq!(xyz(Cube::face_normal(&v(0.5, 0.2, f32::NAN))).1, 0.0);
}

#[test]
fn cube_face_coordinates_of_each_face() {
    let local = v(0.1, 0.2, 0.3);
    let pick = |normal: Vec3| {
        let (a, b) = Cube::face_coordinates(&normal, &local);
        (f(a), f(b))
    };
    assert_eq!(pick(v(1.0, 0.0, 0.0)), (0.3, 0.2));
    assert_eq!(pick(v(-1.0, 0.0, 0.0)), (0.3, 0.2));
    assert_eq!(pick(v(0.0, 1.0, 0.0)), (0.1, 0.3));
    assert_eq!(pick(v(0.0, -1.0, 0.0)), (0.1, 0.3));
    assert_eq!(pick(v(0.0, 0.0, 1.0)), (0.1, 0.2));
    assert_eq!(pick(v(0.0, 0.0, -1.0)), (0.1, 0.2));
    assert_eq!(pick(v(f32::NAN, 0.0, 0.0)), (0.1, 0.2));
}
