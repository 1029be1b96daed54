//! Effects: the executors that perform them and the registry that picks one.

pub mod executor;
pub mod registry;
