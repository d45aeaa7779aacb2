//! A write-only persistence mirror for an audio-server object graph.
//!
//! Producers observe changes in the live graph (clients, nodes, devices,
//! links, metadata) and enqueue one self-contained mutation message per
//! change.  A single dedicated worker drains the queue in order and applies
//! each mutation to embedded storage through idempotent keyed upserts and
//! explicit deletes.  Per-mutation storage failures are absorbed by the
//! worker; only a failure to open storage or to apply the schema at
//! construction is surfaced.

pub mod channel;
pub mod encode;
pub mod gateway;
pub mod laws;
pub mod model;
pub mod store;
