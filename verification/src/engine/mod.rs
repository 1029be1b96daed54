//! The engine: the state it keeps and the processor that advances it.

pub mod node_states;
pub mod model;
pub mod observer;
pub mod processor;
pub mod cursor;
pub mod laws;
