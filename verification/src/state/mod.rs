//! Sans-I/O state machines of an MQTT client.
//!
//! Each state machine can be used on its own or combined with the others. The
//! MQTT v5.0 features (Topic Aliases, enhanced authentication, flow control) are
//! tracked by their own machines and simply go unused under MQTT v3.1.1.

mod keys;
pub mod packet_id;
pub mod auth;
pub mod flow_control;
pub mod keep_alive;
pub mod topic_alias;
pub mod qos_flow;
pub mod subscribe;
pub mod session;
