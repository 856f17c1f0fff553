//! Verified core of a GPS telemetry ingester.
//!
//! Tracking terminals speak a comma-delimited ASCII protocol over long-lived
//! stream connections.  This crate holds the logic worth proving: framing a
//! byte stream into terminator-delimited messages, decoding the recognized
//! message grammar into a typed reading, and the merge decision that keeps the
//! stored position history deduplicated.  The surrounding process (socket
//! handling, the SQL store, logging) lives outside the library and hands it
//! plain values.

pub mod coord;
pub mod frame;
pub mod merge;
pub mod packet;
pub mod text;
pub mod timestamp;
