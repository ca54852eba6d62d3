//! A small ray-tracing core over fixed-point integer arithmetic.
//!
//! Every quantity is held as a signed 64-bit integer counting units of
//! `1 / SCALE`, so the whole intersection and shading pipeline is exact
//! integer arithmetic and every function carries a proved contract.

pub mod actor;
pub mod color;
pub mod emitter;
pub mod filter;
pub mod frame;
pub mod geometry;
pub mod light;
pub mod material;
pub mod math;
pub mod plane;
pub mod ray;
pub mod scene;
pub mod sphere;
pub mod vec3;

pub use color::Color;
pub use math::SCALE;
pub use math::WORLD;
pub use ray::Ray;
pub use ray::RayType;
pub use vec3::Vec3;
