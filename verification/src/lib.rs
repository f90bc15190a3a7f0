//! A lightweight runtime core for sandboxed guest instances: an addressed
//! mailbox layer with bounded queues and backpressure, the host-call bridge
//! a guest uses to exchange byte messages, the execution engine's
//! configuration and lifecycle rules, and the replica scheduler's plan.
//!
//! Everything here is sequential, verified logic. The surrounding binary
//! drives it: it performs the actual waiting, process and module execution,
//! and file access, and consults this crate for every decision.

pub mod bridge;
pub mod builder;
pub mod engine;
pub mod json;
pub mod runtime_detector;
pub mod runtimes;
pub mod scheduler;
pub mod switch;
pub mod text;
