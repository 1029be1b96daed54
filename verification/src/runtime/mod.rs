//! Steps: the unit of work of a task, with its life cycle.

pub mod step;
pub mod call;
