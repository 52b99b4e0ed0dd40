//! Basic types shared by the MQTT v3.1.1 and v5.0 codecs.

use vstd::prelude::*;

pub mod binary_data;
pub mod limits;
pub mod qos;
pub mod text;
pub mod utf8_string;
pub mod variable_byte_integer;
pub mod wire;

verus! {

/// MQTT protocol version.
#[derive(Debug, Clone, Copy, PartialEq, Eq, Structural)]
pub enum MqttVersion {
    /// MQTT v5.0.
    V5,
    /// MQTT v3.1.1.
    V311,
}

} // verus!
