//! Decision trees that answer point-in-polygon queries with a short chain of
//! half-plane tests, the text of a shader function that follows such a tree,
//! and the integer-valued decisions taken while building one.
pub mod emit;
pub mod frame;
pub mod level;
pub mod split;
pub mod tree;
