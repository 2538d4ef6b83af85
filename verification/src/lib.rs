//! A software 3D rendering pipeline on 16.16 fixed-point numbers.
//!
//! Polygons in world space go through a camera transform, near-plane
//! clipping, perspective projection, triangulation and a depth-tested
//! triangle fill into a colour buffer. Every number is a [`fixed::Fixed`],
//! so each operation has an exact integer meaning that the contracts state.

pub mod angle;
pub mod camera;
pub mod fixed;
pub mod framebuffer;
pub mod input;
pub mod matrix;
pub mod obj_text;
pub mod object;
pub mod point;
pub mod polygon;
pub mod scene;
pub mod texture;
pub mod triangulate;

pub use camera::Camera;
pub use framebuffer::Framebuffer;
pub use matrix::Matrix4x4;
pub use point::Point;
pub use point::Point2D;
pub use polygon::Polygon;
pub use polygon::Polygon2D;
