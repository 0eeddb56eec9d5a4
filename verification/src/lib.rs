//! A durable overflow buffer between a producer and a consumer.
//!
//! When the consumer cannot take an item, the item is spilled to a directory of
//! numbered segment files and replayed later. This crate holds the decisions of
//! that engine as verified state machines: each machine is told what happened
//! outside (a write was accepted, the file turned out to be sealed, ...) and
//! answers with the next thing to do. Files, watchers and the scheduler live
//! with the caller.
pub mod channel;
