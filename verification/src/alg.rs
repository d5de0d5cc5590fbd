//! Vectors, matrices, quaternions and planes over fixed-point numbers.

pub mod mat;
pub mod plane;
pub mod quat;
pub mod vec2;
pub mod vec3;

pub use mat::Mat;
pub use plane::Line;
pub use plane::Plane;
pub use quat::Quat;
pub use vec2::Vec2;
pub use vec3::Vec3;
