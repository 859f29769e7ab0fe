//! Verified core of a path tracer: bounding boxes, bounding-volume
//! hierarchies over indexed triangle meshes, closest-hit selection, the
//! recursion of the path integrator, sample placement and the layout of
//! the rendered image.
//!
//! Every coordinate, distance and colour channel is an `i64` that the
//! library only compares and orders. A caller maps its own number format to
//! such integers with an order-preserving encoding that sends zero to zero,
//! and keeps all arithmetic on its side: where the library needs a number
//! computed, it asks a function that the caller hands in, and its contracts
//! say how the results of those functions shape its own.

pub mod vector;
pub mod aabb;
pub mod hit;
pub mod slab;
pub mod mesh;
pub mod random;
pub mod bvh;
pub mod static_mesh;
pub mod nearest;
pub mod camera;
pub mod scene;
pub mod render;
