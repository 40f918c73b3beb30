//! Core logic of a Postgres change-data-capture source connector.
//!
//! The library owns everything that can be stated and proved about the
//! connector: the domain event model for logical-replication WAL records,
//! the relation schema cache, the converter from raw `pgoutput` payloads to
//! domain events, the JSON wire encoding of those events, resume-point
//! discovery from the tail of the output log, the keepalive acknowledgment
//! rules, transform-output batching, and the session state machine that
//! sequences all of it. Connections and I/O live outside, in a thin driver
//! that feeds this library plain values.

pub mod model;
pub mod cache;
pub mod numfmt;
pub mod wal;
pub mod convert;
pub mod json;
pub mod session;
pub mod emit;
