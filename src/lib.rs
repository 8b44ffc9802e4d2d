//! A Monte-Carlo ray tracer over fixed-point arithmetic: vector algebra,
//! rays, sphere intersection, scattering materials, a thin-lens camera and
//! the recursive radiance estimator, each with a verified contract.
pub mod fixed;
pub mod vec3;
pub mod ray;
pub mod random;
pub mod hitable;
pub mod material;
pub mod camera;
pub mod render;
pub mod scene;
pub mod driver;
