//! A dialogue tree: prompts with lettered choices, built through a cursor
//! and walked from the root to a leaf, one line of input per step.
//!
//! The nodes live in an `indextree` arena. What the arena does is taken on
//! trust in [`arena`]; everything above it is proved against that boundary.

pub mod text;
pub mod node;
pub mod tree;
pub mod arena;
pub mod store;
pub mod alphabet;
pub mod traversal;
pub mod builder;
pub mod laws;
