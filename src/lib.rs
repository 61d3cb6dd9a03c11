//! Local multi-agent runtime: agent model, bounded executor, scheduler,
//! message bus and checkpointed state, each stated and proved with Verus.

pub mod builder;
pub mod calendar;
pub mod config;
pub mod connectors;
pub mod error;
pub mod manager;
pub mod executor;
pub mod messaging;
pub mod migrations;
pub mod orchestrator;
mod outside;
pub mod scheduler;
pub mod security;
pub mod state;
pub mod triggers;
pub mod types;
pub mod vault;
