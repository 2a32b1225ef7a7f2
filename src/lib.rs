//! Linear blend skinning and bounding-box reduction over fixed-point values.
//!
//! Every scalar is a signed fixed-point number in which `ONE` stands for 1.0.
//! Matrices are row-major affine transforms acting on homogeneous points
//! `(x, y, z, 1)`.
//!
//! Each frame, a joint's skin matrix is its world transform composed with its
//! inverse bind pose (`skin`, `binding`); each vertex is moved by the weighted
//! blend of up to four skin matrices (`skin`, `mesh`); the moved vertices are
//! reduced to an axis-aligned bounding box (`aabb`). World transforms come
//! from the caller: propagating them down a joint hierarchy happens elsewhere.
//! Values are bounded (`fixed`) so that no intermediate overflows; products
//! are kept exact and rounded down once, when a point comes out.

pub mod fixed;
pub mod matrix;
pub mod skin;
pub mod binding;
pub mod aabb;
pub mod mesh;
