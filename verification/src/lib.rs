//! Core of an AI-agent runtime: a typed conversation model, an extension
//! (tool-provider) registry, a permission-gating engine, a tool selector,
//! and the agent reply loop expressed as a state machine.
//!
//! Transport, model-provider clients and tool-provider processes are
//! external collaborators; this crate holds the data model and the
//! orchestration logic, with machine-checked contracts.

pub mod agent;
pub mod args;
pub mod bench;
pub mod clock;
pub mod conversation;
pub mod keys;
pub mod message;
pub mod permission;
pub mod registry;
pub mod routes;
pub mod sanitize;
pub mod selector;
pub mod strutil;
pub mod tts;
pub mod tutorial;
