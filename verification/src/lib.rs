//! Idempotent enqueue-and-delivery pipeline for newsletter issues.
//!
//! A submission is guarded by a per-actor idempotency key, fans out into one
//! delivery task per recipient, and a worker drains the queue of tasks with
//! retry on failure. All rules of the pipeline are stated over a model of the
//! backing store and proved against it.

pub mod idempotency;
pub mod response;
pub mod model;
pub mod store;
pub mod guard;
pub mod newsletters;
pub mod issue_delivery_worker;
pub mod worker_state;
pub mod laws;
pub mod errors;
