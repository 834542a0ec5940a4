//! The verified core of a small planet renderer: the meshes it draws (cube,
//! spheres, a wavy surface and the level-of-detail faces of a cube planet),
//! the quadtree over a face, the order of render passes, the camera input
//! state, frame timing, and texture loading checks.
//!
//! Everything here is integer or structural logic.  Positions, normals and
//! other floating-point data are the caller's: the meshes here say which grid
//! corner, cube corner or caller-made vertex each vertex is, and how the
//! triangles index them.

pub mod asset_library;
pub mod controls;
pub mod cube;
pub mod frame_count;
pub mod mesh;
pub mod octasphere;
pub mod planet;
pub mod primitives;
pub mod quad_node;
pub mod render_plan;
pub mod texture;
