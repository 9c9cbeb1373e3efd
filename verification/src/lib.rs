//! Fixed-shape numeric vectors and matrices over an abstract scalar type.
//!
//! `Vector` is an ordered, fixed-length sequence of scalars with element-wise
//! arithmetic and 1-based indexing. `Matrix` is a rectangular grid stored
//! column-major as a list of column `Vector`s, with shape-checked arithmetic,
//! transpose, identity construction and conversions to and from `Vector`.
//! The scalar type is abstract: anything that implements [`Numeric`] works.
//!
//! Two conventions hold throughout. All public element, row and column
//! access is 1-based: index 1 names the first position, and the 0-based
//! storage offsets exist only at the storage boundary. And the two shapes
//! treat mismatched operands differently, on purpose: vector addition and
//! subtraction reconcile operands of different lengths by zero-extending
//! the shorter one, while matrix arithmetic is strict and yields no result
//! when the shapes differ, a shape mismatch being a structural error rather
//! than a length quirk.

pub mod error;
pub mod matrix;
pub mod point;
pub mod scalar;
pub mod vector;

pub use error::ShapeError;
pub use matrix::Matrix;
pub use point::Point;
pub use scalar::Numeric;
pub use vector::Vector;
