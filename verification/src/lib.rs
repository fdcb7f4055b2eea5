//! Compiler core for animation projects: a versioned graph-structured data
//! model, a legacy-format importer, a byte-exact binary codec, and a
//! race-grouped text-manifest generator.
pub mod codec;
pub mod compile;
pub mod fnis;
pub mod legacy;
pub mod model;
pub mod package;
pub mod text;
