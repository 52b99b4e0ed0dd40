//! MQTT QoS levels (MQTT v5.0 §4.3).

use vstd::prelude::*;

verus! {

/// MQTT QoS level.
#[derive(Debug, Clone, Copy, PartialEq, Eq, Structural, PartialOrd, Ord, Hash)]
pub enum QoS {
    /// At most once delivery.
    AtMostOnce,
    /// At least once delivery.
    AtLeastOnce,
    /// Exactly once delivery.
    ExactlyOnce,
}

impl QoS {
    /// The numeric value of the QoS level.
    pub open spec fn spec_as_u8(self) -> u8 {
        match self {
            QoS::AtMostOnce => 0,
            QoS::AtLeastOnce => 1,
            QoS::ExactlyOnce => 2,
        }
    }

    /// The QoS level with the numeric value `value`, if any.
    pub open spec fn spec_from_u8(value: u8) -> Option<QoS> {
        if value == 0 {
            Some(QoS::AtMostOnce)
        } else if value == 1 {
            Some(QoS::AtLeastOnce)
        } else if value == 2 {
            Some(QoS::ExactlyOnce)
        } else {
            None
        }
    }

    /// Creates a `QoS` from its two-bit value; the reserved value 3 gives `None`.
    pub fn from_u8(value: u8) -> (r: Option<Self>)
        ensures
            r == Self::spec_from_u8(value),
    {
        match value {
            0 => Some(QoS::AtMostOnce),
            1 => Some(QoS::AtLeastOnce),
            2 => Some(QoS::ExactlyOnce),
            _ => None,
        }
    }

    /// Returns the numeric value of this QoS level.
    pub fn as_u8(self) -> (r: u8)
        ensures
            r == self.spec_as_u8(),
    {
        match self {
            QoS::AtMostOnce => 0,
            QoS::AtLeastOnce => 1,
            QoS::ExactlyOnce => 2,
        }
    }
}

/// Converting a level to its number and back gives the level.
#[verifier::spinoff_prover]
pub proof fn lemma_qos_roundtrip(q: QoS)
    ensures
        QoS::spec_from_u8(q.spec_as_u8()) == Some(q),
        q.spec_as_u8() <= 2,
{
}

/// The flags of a PUBLISH (DUP as 0 or 0x08, the QoS shifted left by one,
/// RETAIN as 0 or 1) read back as the same DUP, QoS and RETAIN, under the
/// packet type 3, whichever order they are combined in.
pub proof fn lemma_publish_flag_bits(d: u8, q: u8, r: u8)
    by (bit_vector)
    requires
        d == 0 || d == 8,
        q <= 2,
        r == 0 || r == 1,
    ensures
        ((d | (q << 1u8)) | r) == (((q << 1u8) | d) | r),
        (0x30u8 | (((q << 1u8) | d) | r)) & 0xF0 == 0x30u8,
        (0x30u8 | (((q << 1u8) | d) | r)) & 0x0F == (((q << 1u8) | d) | r),
        ((((q << 1u8) | d) | r) >> 1u8) & 0x03 == q,
        ((((q << 1u8) | d) | r) & 0x08 != 0) == (d == 8),
        ((((q << 1u8) | d) | r) & 0x01 != 0) == (r == 1),
{
}

} // verus!
