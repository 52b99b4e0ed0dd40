//! A sans-I/O MQTT client library for MQTT v3.1.1 and v5.0.
//!
//! The crate encodes and decodes MQTT control packets and tracks the state of a
//! client connection. Network I/O is left to the caller.

pub mod codec;
pub mod decoder;
pub mod error;
pub mod topic_filter;
pub mod state;
pub mod v5;
pub mod v311;
