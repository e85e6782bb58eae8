//! The camera that a frame is seen from.
use vstd::prelude::*;
use crate::vector::Vec3;

verus! {

/// A camera at `position` that looks at `center`, with `up` pointing to the top
/// of the frame.
#[derive(Debug, Clone, Copy)]
pub struct Camera {
    pub position: Vec3,
    pub center: Vec3,
    pub up: Vec3,
}

impl Camera {
    /// The camera with the given pose.
    pub fn new(position: Vec3, center: Vec3, up: Vec3) -> (camera: Camera)
        ensures
            camera == (Camera { position, center, up }),
    {
        Camera { position, center, up }
    }
}

} // verus!
