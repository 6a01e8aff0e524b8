//! A recursive ray tracer on fixed-point numbers.
//!
//! A scene is a [`world::World`] of shapes with materials and one light, seen
//! by a [`camera::Camera`]. Rendering gives a [`canvas::Canvas`] of colors,
//! which can be written out as a plain PPM image.
//!
//! Every number is a [`scalar::Scalar`]: a real number in signed 31.32 fixed
//! point whose operations are exact functions on integers. Each function of
//! the library states what it returns as such a function, and the modules
//! [`accuracy`] and [`inverses`] bound how far rounding takes some of them
//! from the real numbers they stand for.

pub mod accuracy;
pub mod analysis;
pub mod camera;
pub mod canvas;
pub mod color;
pub mod constants;
pub mod experiments;
pub mod intersection;
pub mod inverses;
pub mod lights;
pub mod materials;
pub mod matrices;
pub mod patterns;
pub mod rays;
pub mod scalar;
pub mod shapes;
pub mod transformation;
pub mod tuples;
pub mod utils;
pub mod world;
