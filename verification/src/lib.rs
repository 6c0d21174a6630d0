//! The intersection-and-shading core of a small ray tracer, over exact
//! fixed-point arithmetic.
//!
//! Every quantity is a `Scalar`: a signed 64-bit count of millionths that
//! saturates at the ends of its range.

pub mod camera;
pub mod geometry;
pub mod hittable;
pub mod material;
pub mod random;
pub mod ray;
pub mod scalar;
pub mod vector;
