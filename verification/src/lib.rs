//! A recursive ray tracer whose every decision is proved.
//!
//! A frame is rendered by casting one ray for each pixel into a scene of spheres
//! and cubes, and by following the mirrored and the refracted ray of each
//! surface that the ray meets, three levels deep. The crate holds the whole of
//! that engine but its arithmetic: the sums, products, roots and trigonometric
//! functions of single precision are rounded by the machine, and are asked for
//! through the trait [`numerics::Numerics`], one method for each formula.
//!
//! What is proved of the engine holds whatever the numerics give:
//!
//! - every function returns, without a fault, and the recursion of
//!   [`ray_casting::cast_ray`] never goes deeper than
//!   [`ray_casting::MAX_RAY_DEPTH`];
//! - everything the engine decides from a number (which hit is nearest, whether
//!   a light is hidden, which face of a cube a point lies on, which texel and
//!   which pixel level a number falls into) is decided on the binary32 encoding
//!   of the number, and agrees with the order and the whole parts of the numbers
//!   that the encodings stand for ([`scalar`]);
//! - the result of every function is put together, by the rules stated in its
//!   contract, from values that the numerics gave for exactly the formulas
//!   those rules call for ([`shading`]).
//!
//! The geometry is in [`sphere`], [`cube`] and [`primitive`], the search of a
//! scene in [`scene`], textures and the environment in [`texture`], [`bitmap`]
//! and [`skybox`], and the engine itself in [`ray_casting`].
pub mod scalar;
pub mod vector;
pub mod color;
pub mod bitmap;
pub mod texture;
pub mod material;
pub mod ray_intersect;
pub mod numerics;
pub mod sphere;
pub mod cube;
pub mod primitive;
pub mod light;
pub mod camera;
pub mod skybox;
pub mod scene;
pub mod shading;
pub mod ray_casting;
