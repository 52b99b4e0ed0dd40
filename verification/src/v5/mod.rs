//! MQTT v5.0 packet types.

pub mod ack_helper;
pub mod auth;
pub mod connack;
pub mod connect;
pub mod packet;
pub mod disconnect;
pub mod pingreq;
pub mod pingresp;
pub mod property;
pub mod puback;
pub mod pubcomp;
pub mod publish;
pub mod pubrec;
pub mod pubrel;
pub mod suback;
pub mod unsuback;
pub mod unsubscribe;
pub mod subscribe;

pub use packet::{IncomingPacket, OutgoingPacket};
