//! Erases TypeScript-only syntax from a module and rewrites its `import` and
//! `export` declarations into CommonJS form, keeping every remaining character
//! at the offset that it has in the source.
//!
//! The parser hands over a lossless syntax tree ([`tree::Node`]); one walk over
//! it ([`transform::transform_tree`]) writes the text of an anonymous function
//! that a CommonJS host can evaluate. What the walk writes is described by
//! [`transform::module_text`]; [`laws`] holds what follows from that
//! description for every module.

pub mod builder;
pub mod error;
pub mod exports;
pub mod gateway;
pub mod imports;
pub mod laws;
pub mod marking;
pub mod marks;
pub mod names;
pub mod policy;
pub mod state;
pub mod text;
pub mod transform;
pub mod tree;
