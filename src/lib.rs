//! A recursive ray tracer on fixed-point arithmetic.
//!
//! Every scalar is an `i64` counting millionths (`fixed::SCALE` units make 1.0).
//! Arithmetic saturates at `±fixed::LIMIT`, so no operation can overflow and each
//! one has an exact integer meaning that the contracts speak of.
pub mod fixed;
pub mod vector;
pub mod color;
pub mod ray;
pub mod material;
pub mod light;
pub mod options;
pub mod shape;
pub mod camera;
pub mod scene;
