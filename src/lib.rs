//! A resilient client for a partitioned, replicated log broker: the decisions
//! of the consume loop, the bookkeeping of batch publishing, the outcome of
//! idempotent topic creation and the resolution of client settings.
//!
//! Everything that talks to the broker, sleeps or reads the environment lives
//! outside this library and hands it plain values.
pub mod config;
pub mod consumer;
pub mod error;
pub mod producer;
pub mod topic_manager;
