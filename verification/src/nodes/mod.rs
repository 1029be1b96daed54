//! The node tree: identifiers, kinds, positions and the arena that holds them.

pub mod id;
pub mod kind;
pub mod position;
pub mod graph;
pub mod instance;
pub mod tree;
