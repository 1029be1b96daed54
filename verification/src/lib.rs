//! A durable, single-step workflow execution kernel.
//!
//! A workflow is a tree of typed nodes held in a [`nodes::graph::NodeGraph`]. The
//! [`engine::processor::Processor`] walks that tree one node per tick, hands effect nodes to
//! the executors of an [`activities::registry::EffectRegistry`], and records its progress in a
//! [`types::WorkflowState`], so that a walk can be put down and taken up again.

pub mod activities;
pub mod engine;
pub mod errors;
pub mod expressions;
pub mod messaging;
pub mod nodes;
pub mod outbox;
pub mod payload;
pub mod runtime;
pub mod text;
pub mod types;
