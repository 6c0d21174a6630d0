//! The camera: from a place on the viewport to the ray through it.

use crate::ray::Ray;
use crate::scalar::Scalar;
use crate::vector::Vector;
use vstd::prelude::*;

verus! {

/// An eye and the rectangle it looks through.
#[derive(Clone, Copy, Debug, PartialEq, Eq, Structural)]
pub struct Camera {
    pub origin: Vector,
    pub lower_left_corner: Vector,
    pub horizontal: Vector,
    pub vertical: Vector,
}

impl Camera {
    /// The ray from the eye through the viewport at `u` across and `v` up.
    pub open spec fn get_ray_spec(&self, u: Scalar, v: Scalar) -> Ray {
        Ray {
            origin: self.origin,
            direction: self.lower_left_corner.add(self.horizontal.scale(u)).add(
                self.vertical.scale(v),
            ).sub(self.origin),
        }
    }

    pub fn new(
        origin: Vector,
        lower_left_corner: Vector,
        horizontal: Vector,
        vertical: Vector,
    ) -> (camera: Camera)
        ensures
            camera == (Camera { origin, lower_left_corner, horizontal, vertical }),
    {
        Camera { origin, lower_left_corner, horizontal, vertical }
    }

    #[verifier::when_used_as_spec(get_ray_spec)]
    pub fn get_ray(&self, u: Scalar, v: Scalar) -> (ray: Ray)
        ensures
            ray == self.get_ray_spec(u, v),
    {
        Ray::new(
            self.origin,
            self.lower_left_corner.add(self.horizontal.scale(u)).add(self.vertical.scale(v)).sub(
                self.origin,
            ),
        )
    }
}

} // verus!
