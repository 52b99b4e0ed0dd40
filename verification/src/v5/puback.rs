//! MQTT v5.0 PUBACK packets (MQTT v5.0 §3.4).

use vstd::prelude::*;

use crate::codec::wire::spec_splice;
use crate::error::{DecodeError, EncodeError, EncodeInvalidField};
use crate::codec::variable_byte_integer::VBI_MAX;
use crate::v5::ack_helper::{
    lemma_reason_code_packet_roundtrip,
    decode_reason_code_packet, encode_reason_code_packet, reason_code_packet_encoded_len,
    spec_fixed_header_check, spec_reason_code_packet_decode, spec_reason_code_packet_len,
    spec_reason_code_packet_result, spec_reason_code_packet_wire,
};
use crate::v5::property::{spec_first_property_error, spec_ack_ids, spec_has_duplicate, spec_ids_within, Properties, PropertyValue};

verus! {

/// MQTT v5.0 PUBACK Reason Code (MQTT v5.0 §3.4.2.1).
#[derive(Debug, Clone, Copy, PartialEq, Eq, Structural)]
pub enum PubAckReasonCode {
    /// 0x00: Success.
    Success,
    /// 0x10: No matching subscribers.
    NoMatchingSubscribers,
    /// 0x80: Unspecified error.
    UnspecifiedError,
    /// 0x83: Implementation specific error.
    ImplementationSpecificError,
    /// 0x87: Not authorized.
    NotAuthorized,
    /// 0x90: Topic name invalid.
    TopicNameInvalid,
    /// 0x91: Packet identifier in use.
    PacketIdentifierInUse,
    /// 0x97: Quota exceeded.
    QuotaExceeded,
    /// 0x99: Payload format invalid.
    PayloadFormatInvalid,
}

impl PubAckReasonCode {
    /// The numeric value of the code.
    pub open spec fn spec_as_u8(self) -> u8 {
        match self {
            PubAckReasonCode::Success => 0x00,
            PubAckReasonCode::NoMatchingSubscribers => 0x10,
            PubAckReasonCode::UnspecifiedError => 0x80,
            PubAckReasonCode::ImplementationSpecificError => 0x83,
            PubAckReasonCode::NotAuthorized => 0x87,
            PubAckReasonCode::TopicNameInvalid => 0x90,
            PubAckReasonCode::PacketIdentifierInUse => 0x91,
            PubAckReasonCode::QuotaExceeded => 0x97,
            PubAckReasonCode::PayloadFormatInvalid => 0x99,
        }
    }

    /// The code with the numeric value `value`, if any.
    pub open spec fn spec_from_u8(value: u8) -> Option<PubAckReasonCode> {
        if value == 0x00 {
            Some(PubAckReasonCode::Success)
        } else if value == 0x10 {
            Some(PubAckReasonCode::NoMatchingSubscribers)
        } else if value == 0x80 {
            Some(PubAckReasonCode::UnspecifiedError)
        } else if value == 0x83 {
            Some(PubAckReasonCode::ImplementationSpecificError)
        } else if value == 0x87 {
            Some(PubAckReasonCode::NotAuthorized)
        } else if value == 0x90 {
            Some(PubAckReasonCode::TopicNameInvalid)
        } else if value == 0x91 {
            Some(PubAckReasonCode::PacketIdentifierInUse)
        } else if value == 0x97 {
            Some(PubAckReasonCode::QuotaExceeded)
        } else if value == 0x99 {
            Some(PubAckReasonCode::PayloadFormatInvalid)
        } else {
            None
        }
    }

    /// Returns the code with the numeric value `value`; other values give `None`.
    pub fn from_u8(value: u8) -> (r: Option<Self>)
        ensures
            r == Self::spec_from_u8(value),
    {
        match value {
            0x00 => Some(PubAckReasonCode::Success),
            0x10 => Some(PubAckReasonCode::NoMatchingSubscribers),
            0x80 => Some(PubAckReasonCode::UnspecifiedError),
            0x83 => Some(PubAckReasonCode::ImplementationSpecificError),
            0x87 => Some(PubAckReasonCode::NotAuthorized),
            0x90 => Some(PubAckReasonCode::TopicNameInvalid),
            0x91 => Some(PubAckReasonCode::PacketIdentifierInUse),
            0x97 => Some(PubAckReasonCode::QuotaExceeded),
            0x99 => Some(PubAckReasonCode::PayloadFormatInvalid),
            _ => None,
        }
    }

    /// Returns the numeric value of the code.
    pub fn as_u8(self) -> (r: u8)
        ensures
            r == self.spec_as_u8(),
    {
        match self {
            PubAckReasonCode::Success => 0x00,
            PubAckReasonCode::NoMatchingSubscribers => 0x10,
            PubAckReasonCode::UnspecifiedError => 0x80,
            PubAckReasonCode::ImplementationSpecificError => 0x83,
            PubAckReasonCode::NotAuthorized => 0x87,
            PubAckReasonCode::TopicNameInvalid => 0x90,
            PubAckReasonCode::PacketIdentifierInUse => 0x91,
            PubAckReasonCode::QuotaExceeded => 0x97,
            PubAckReasonCode::PayloadFormatInvalid => 0x99,
        }
    }
}

/// Converting a code to its number and back gives the code.
#[verifier::spinoff_prover]
pub proof fn lemma_pub_ack_reason_code_roundtrip(c: PubAckReasonCode)
    ensures
        PubAckReasonCode::spec_from_u8(c.spec_as_u8()) == Some(c),
{
}

/// An MQTT v5.0 PUBACK packet (MQTT v5.0 §3.4).
#[derive(Debug, Clone, PartialEq, Eq)]
pub struct PubAck {
    /// The Packet Identifier.
    pub packet_id: u16,
    /// The reason code.
    pub reason_code: PubAckReasonCode,
    /// The properties.
    pub properties: Properties,
}

/// Why a PubAck cannot be written, if it cannot: a Packet Identifier of 0
/// (MQTT v5.0 §2.2.1, [MQTT-2.2.1-3]), the reason code No matching subscribers, which only a server sends (MQTT v5.0 §3.4.2.1), properties that the packet
/// does not allow, or a repeated property.
pub open spec fn spec_puback_check(packet_id: u16, reason_code: PubAckReasonCode, ps: Seq<(u8, PropertyValue)>) -> Result<(), EncodeError> {
    if packet_id == 0 {
        Err(EncodeError::InvalidField { reason: EncodeInvalidField::ZeroPacketId })
    } else if reason_code == PubAckReasonCode::NoMatchingSubscribers {
        Err(EncodeError::InvalidField { reason: EncodeInvalidField::InvalidReasonCode })
    } else if !spec_ids_within(ps, spec_ack_ids()) {
        Err(EncodeError::InvalidField { reason: EncodeInvalidField::PropertyValidationFailed })
    } else if spec_has_duplicate(ps, false) {
        Err(EncodeError::InvalidField { reason: EncodeInvalidField::DuplicatePropertyIdentifier })
    } else {
        Ok(())
    }
}

/// The wire form of a PubAck.
pub open spec fn spec_puback_wire(packet_id: u16, reason_code: PubAckReasonCode, ps: Seq<(u8, PropertyValue)>) -> Seq<u8> {
    spec_reason_code_packet_wire(0x40u8 | 0x00u8, packet_id, reason_code.spec_as_u8(), ps)
}

/// The result of decoding a PubAck from the start of `s`: the Packet
/// Identifier, the reason code, the properties and the bytes consumed.
pub open spec fn spec_puback_decode(s: Seq<u8>) -> Result<(u16, PubAckReasonCode, Seq<(u8, PropertyValue)>, nat), DecodeError> {
    match spec_reason_code_packet_decode(s, 0x40u8, 0x00u8, 0x00) {
        Err(e) => Err(e),
        Ok((id, rc, ps, n)) => if !spec_ids_within(ps, spec_ack_ids()) {
            Err(DecodeError::MalformedPacket)
        } else {
            match PubAckReasonCode::spec_from_u8(rc) {
                None => Err(DecodeError::MalformedPacket),
                Some(c) => Ok((id, c, ps, n)),
            }
        },
    }
}

impl PubAck {
    /// Returns the remaining length of the encoded packet.
    pub fn encoded_len(&self) -> (r: usize)
        ensures
            r == spec_reason_code_packet_len(self.properties@),
    {
        reason_code_packet_encoded_len(&self.properties)
    }

    /// Encodes the packet into `buf` and returns the number of bytes written.
    ///
    /// After an error in a property, the bytes before it have been written.
    pub fn encode(&self, buf: &mut [u8]) -> (r: Result<usize, EncodeError>)
        ensures
            final(buf)@.len() == old(buf)@.len(),
            r == match spec_puback_check(self.packet_id, self.reason_code, self.properties@) {
                Err(e) => Err::<usize, EncodeError>(e),
                Ok(()) => spec_reason_code_packet_result(
                    self.properties@,
                    old(buf)@.len(),
                    spec_puback_wire(self.packet_id, self.reason_code, self.properties@).len(),
                ),
            },
            r is Ok ==> final(buf)@ == spec_splice(
                old(buf)@,
                0,
                spec_puback_wire(self.packet_id, self.reason_code, self.properties@),
            ),
            spec_puback_check(self.packet_id, self.reason_code, self.properties@) is Err
                || spec_fixed_header_check(spec_reason_code_packet_len(self.properties@), old(buf)@.len()) is Err
                ==> final(buf)@ == old(buf)@,
    {
        match self.validate() {
            Err(e) => {
                return Err(e);
            },
            Ok(()) => {},
        }
        encode_reason_code_packet(
            buf,
            0x40u8,
            0x00u8,
            self.packet_id,
            self.reason_code.as_u8(),
            &self.properties,
        )
    }

    /// Decodes a PubAck from the start of `buf` and returns it with the number
    /// of bytes consumed.
    pub fn decode(buf: &[u8]) -> (r: Result<(Self, usize), DecodeError>)
        ensures
            match r {
                Ok((p, n)) => spec_puback_decode(buf@) == Ok::<(u16, PubAckReasonCode, Seq<(u8, PropertyValue)>, nat), DecodeError>(
                    (p.packet_id, p.reason_code, p.properties@, n as nat),
                ),
                Err(e) => spec_puback_decode(buf@) == Err::<(u16, PubAckReasonCode, Seq<(u8, PropertyValue)>, nat), DecodeError>(e),
            },
    {
        let (packet_id, reason_code, properties, consumed) = match decode_reason_code_packet(
            buf,
            0x40u8,
            0x00u8,
            0x00,
        ) {
            Err(e) => {
                return Err(e);
            },
            Ok(x) => x,
        };
        match properties.validate_for_puback() {
            Err(e) => {
                return Err(e);
            },
            Ok(()) => {},
        }
        let reason_code = match PubAckReasonCode::from_u8(reason_code) {
            None => {
                return Err(DecodeError::MalformedPacket);
            },
            Some(c) => c,
        };
        Ok((Self { packet_id, reason_code, properties }, consumed))
    }

    /// Checks what the packet must satisfy before it is written.
    fn validate(&self) -> (r: Result<(), EncodeError>)
        ensures
            r == spec_puback_check(self.packet_id, self.reason_code, self.properties@),
    {
        if self.packet_id == 0 {
            return Err(EncodeError::InvalidField { reason: EncodeInvalidField::ZeroPacketId });
        }
        if self.reason_code == PubAckReasonCode::NoMatchingSubscribers {
            return Err(EncodeError::InvalidField { reason: EncodeInvalidField::InvalidReasonCode });
        }
        if self.properties.validate_for_puback().is_err() {
            return Err(
                EncodeError::InvalidField { reason: EncodeInvalidField::PropertyValidationFailed },
            );
        }
        if self.properties.validate_duplicate_identifiers(false).is_err() {
            return Err(
                EncodeError::InvalidField { reason: EncodeInvalidField::DuplicatePropertyIdentifier },
            );
        }
        Ok(())
    }
}

/// Decoding the wire form of a PubAck that can be written, followed by any
/// bytes, gives its Packet Identifier, reason code and properties back and
/// consumes exactly the wire form.
#[verifier::spinoff_prover]
pub proof fn lemma_puback_roundtrip(p: PubAck, rest: Seq<u8>)
    requires
        spec_puback_check(p.packet_id, p.reason_code, p.properties@) is Ok,
        spec_first_property_error(p.properties@) is None,
        spec_reason_code_packet_len(p.properties@) <= VBI_MAX,
    ensures
        ({
            let w = spec_puback_wire(p.packet_id, p.reason_code, p.properties@);
            spec_puback_decode(w + rest) == Ok::<(u16, PubAckReasonCode, Seq<(u8, PropertyValue)>, nat), DecodeError>(
                (p.packet_id, p.reason_code, p.properties@, w.len()),
            )
        }),
{
    assert((0x40u8 | 0x00u8) & 0xF0 == 0x40u8 && (0x40u8 | 0x00u8) & 0x0F == 0x00u8) by (bit_vector);
    lemma_reason_code_packet_roundtrip(0x40u8, 0x00u8, p.packet_id, p.reason_code.spec_as_u8(), p.properties, 0x00, rest);
    lemma_pub_ack_reason_code_roundtrip(p.reason_code);
}

} // verus!
