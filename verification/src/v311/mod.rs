//! MQTT v3.1.1 packet types.

pub mod ack_helper;
pub mod connack;
pub mod connect;
pub mod disconnect;
pub mod pubcomp;
pub mod publish;
pub mod suback;
pub mod subscribe;
pub mod packet;
