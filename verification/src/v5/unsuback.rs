//! MQTT v5.0 UNSUBACK packets (MQTT v5.0 §3.11).

use vstd::prelude::*;

use crate::codec::variable_byte_integer::{lemma_vbi_encode_len, VBI_MAX};
use crate::codec::wire::{lemma_splice_append, read_be16_at, spec_be16, spec_read_be16, spec_splice, write_be16_at};
use crate::error::{DecodeError, EncodeError, EncodeInvalidField};
use crate::v5::ack_helper::{
    decode_fixed_header, encode_fixed_header, lemma_fixed_header_roundtrip, spec_fixed_header, spec_fixed_header_check,
    spec_fixed_header_decode,
};
use crate::v5::property::{
    spec_ack_ids, spec_first_property_error, spec_has_duplicate, spec_ids_within,
    spec_properties_decode, spec_properties_len, spec_properties_wire, Properties, PropertyValue,
    lemma_properties_len_matches, lemma_properties_roundtrip, spec_payload_len,
};

verus! {

/// MQTT v5.0 UNSUBACK Reason Code (MQTT v5.0 §3.11.3).
#[derive(Debug, Clone, Copy, PartialEq, Eq, Structural)]
pub enum UnsubAckReasonCode {
    /// 0x00: Success.
    Success,
    /// 0x11: No subscription existed.
    NoSubscriptionExisted,
    /// 0x80: Unspecified error.
    UnspecifiedError,
    /// 0x83: Implementation specific error.
    ImplementationSpecificError,
    /// 0x87: Not authorized.
    NotAuthorized,
    /// 0x8F: Topic filter invalid.
    TopicFilterInvalid,
    /// 0x91: Packet identifier in use.
    PacketIdentifierInUse,
}

impl UnsubAckReasonCode {
    /// The numeric value of the code.
    pub open spec fn spec_as_u8(self) -> u8 {
        match self {
            UnsubAckReasonCode::Success => 0x00,
            UnsubAckReasonCode::NoSubscriptionExisted => 0x11,
            UnsubAckReasonCode::UnspecifiedError => 0x80,
            UnsubAckReasonCode::ImplementationSpecificError => 0x83,
            UnsubAckReasonCode::NotAuthorized => 0x87,
            UnsubAckReasonCode::TopicFilterInvalid => 0x8F,
            UnsubAckReasonCode::PacketIdentifierInUse => 0x91,
        }
    }

    /// The code with the numeric value `value`, if any.
    pub open spec fn spec_from_u8(value: u8) -> Option<UnsubAckReasonCode> {
        if value == 0x00 {
            Some(UnsubAckReasonCode::Success)
        } else if value == 0x11 {
            Some(UnsubAckReasonCode::NoSubscriptionExisted)
        } else if value == 0x80 {
            Some(UnsubAckReasonCode::UnspecifiedError)
        } else if value == 0x83 {
            Some(UnsubAckReasonCode::ImplementationSpecificError)
        } else if value == 0x87 {
            Some(UnsubAckReasonCode::NotAuthorized)
        } else if value == 0x8F {
            Some(UnsubAckReasonCode::TopicFilterInvalid)
        } else if value == 0x91 {
            Some(UnsubAckReasonCode::PacketIdentifierInUse)
        } else {
            None
        }
    }

    /// Returns the code with the numeric value `value`; other values give `None`.
    pub fn from_u8(value: u8) -> (r: Option<Self>)
        ensures
            r == Self::spec_from_u8(value),
    {
        match value {
            0x00 => Some(UnsubAckReasonCode::Success),
            0x11 => Some(UnsubAckReasonCode::NoSubscriptionExisted),
            0x80 => Some(UnsubAckReasonCode::UnspecifiedError),
            0x83 => Some(UnsubAckReasonCode::ImplementationSpecificError),
            0x87 => Some(UnsubAckReasonCode::NotAuthorized),
            0x8F => Some(UnsubAckReasonCode::TopicFilterInvalid),
            0x91 => Some(UnsubAckReasonCode::PacketIdentifierInUse),
            _ => None,
        }
    }

    /// Returns the numeric value of the code.
    pub fn as_u8(self) -> (r: u8)
        ensures
            r == self.spec_as_u8(),
    {
        match self {
            UnsubAckReasonCode::Success => 0x00,
            UnsubAckReasonCode::NoSubscriptionExisted => 0x11,
            UnsubAckReasonCode::UnspecifiedError => 0x80,
            UnsubAckReasonCode::ImplementationSpecificError => 0x83,
            UnsubAckReasonCode::NotAuthorized => 0x87,
            UnsubAckReasonCode::TopicFilterInvalid => 0x8F,
            UnsubAckReasonCode::PacketIdentifierInUse => 0x91,
        }
    }
}

/// Converting a code to its number and back gives the code.
#[verifier::spinoff_prover]
pub proof fn lemma_unsub_ack_reason_code_roundtrip(c: UnsubAckReasonCode)
    ensures
        UnsubAckReasonCode::spec_from_u8(c.spec_as_u8()) == Some(c),
{
}

/// An MQTT v5.0 UNSUBACK packet (MQTT v5.0 §3.11).
#[derive(Debug, Clone, PartialEq, Eq)]
pub struct UnsubAck {
    /// The Packet Identifier.
    pub packet_id: u16,
    /// One reason code for each Topic Filter of the UNSUBSCRIBE.
    pub reason_codes: Vec<UnsubAckReasonCode>,
    /// The properties.
    pub properties: Properties,
}

/// The numbers of the reason codes.
pub open spec fn spec_unsuback_code_bytes(codes: Seq<UnsubAckReasonCode>) -> Seq<u8> {
    codes.map_values(|c: UnsubAckReasonCode| c.spec_as_u8())
}

/// The reason codes that the bytes stand for, or `None` when one stands for
/// none.
pub open spec fn spec_unsuback_codes(bytes: Seq<u8>) -> Option<Seq<UnsubAckReasonCode>> {
    if forall|i: int| 0 <= i < bytes.len() ==> (#[trigger] UnsubAckReasonCode::spec_from_u8(bytes[i])) is Some {
        Some(bytes.map_values(|b: u8| UnsubAckReasonCode::spec_from_u8(b)->Some_0))
    } else {
        None
    }
}

/// The remaining length of an UNSUBACK.
pub open spec fn spec_unsuback_len(ps: Seq<(u8, PropertyValue)>, n_codes: nat) -> usize {
    (2usize).saturating_add(spec_properties_len(ps)).saturating_add(n_codes as usize)
}

/// The wire form of an UNSUBACK.
pub open spec fn spec_unsuback_wire(packet_id: u16, codes: Seq<UnsubAckReasonCode>, ps: Seq<(u8, PropertyValue)>) -> Seq<u8> {
    spec_fixed_header(0xB0, spec_unsuback_len(ps, codes.len()) as nat) + spec_be16(packet_id)
        + spec_properties_wire(ps) + spec_unsuback_code_bytes(codes)
}

/// Why an UNSUBACK cannot be written, if it cannot: a Packet Identifier of 0, no
/// reason code, properties that UNSUBACK does not allow, or a repeated property.
pub open spec fn spec_unsuback_check(packet_id: u16, codes: Seq<UnsubAckReasonCode>, ps: Seq<(u8, PropertyValue)>) -> Result<(), EncodeError> {
    if packet_id == 0 {
        Err(EncodeError::InvalidField { reason: EncodeInvalidField::ZeroPacketId })
    } else if codes.len() == 0 {
        Err(EncodeError::InvalidField { reason: EncodeInvalidField::EmptyReasonCodes })
    } else if !spec_ids_within(ps, spec_ack_ids()) {
        Err(EncodeError::InvalidField { reason: EncodeInvalidField::PropertyValidationFailed })
    } else if spec_has_duplicate(ps, false) {
        Err(EncodeError::InvalidField { reason: EncodeInvalidField::DuplicatePropertyIdentifier })
    } else {
        Ok(())
    }
}

/// The result of decoding an UNSUBACK from the start of `s`: the Packet
/// Identifier, the reason codes, the properties and the bytes consumed.
pub open spec fn spec_unsuback_decode(s: Seq<u8>) -> Result<(u16, Seq<UnsubAckReasonCode>, Seq<(u8, PropertyValue)>, nat), DecodeError> {
    match spec_fixed_header_decode(s, 0xB0, 0x00) {
        Err(e) => Err(e),
        Ok((rem, h)) => if rem < 2 || spec_read_be16(s, h as int) == 0 {
            Err(DecodeError::MalformedPacket)
        } else {
            match spec_properties_decode(s.subrange(h + 2 as int, h + rem as int), false) {
                Err(e) => Err(e),
                Ok((ps, n)) => if !spec_ids_within(ps, spec_ack_ids()) {
                    Err(DecodeError::MalformedPacket)
                } else {
                    match spec_unsuback_codes(s.subrange(h + 2 + n as int, h + rem as int)) {
                        None => Err(DecodeError::MalformedPacket),
                        Some(codes) => if codes.len() == 0 {
                            Err(DecodeError::MalformedPacket)
                        } else {
                            Ok((spec_read_be16(s, h as int), codes, ps, h + rem))
                        },
                    }
                },
            }
        },
    }
}

impl UnsubAck {
    /// Returns the remaining length of the encoded packet.
    pub fn encoded_len(&self) -> (r: usize)
        ensures
            r == spec_unsuback_len(self.properties@, self.reason_codes@.len()),
    {
        2usize.saturating_add(self.properties.encoded_len()).saturating_add(self.reason_codes.len())
    }

    /// Encodes the packet into `buf` and returns the number of bytes written.
    ///
    /// After an error in a property, the bytes before it have been written.
    pub fn encode(&self, buf: &mut [u8]) -> (r: Result<usize, EncodeError>)
        ensures
            final(buf)@.len() == old(buf)@.len(),
            r == match spec_unsuback_check(self.packet_id, self.reason_codes@, self.properties@) {
                Err(e) => Err::<usize, EncodeError>(e),
                Ok(()) => match spec_fixed_header_check(spec_unsuback_len(self.properties@, self.reason_codes@.len()), old(buf)@.len()) {
                    Err(e) => Err(e),
                    Ok(()) => match spec_first_property_error(self.properties@) {
                        Some(e) => Err(e),
                        None => Ok(spec_unsuback_wire(self.packet_id, self.reason_codes@, self.properties@).len() as usize),
                    },
                },
            },
            r is Ok ==> final(buf)@ == spec_splice(
                old(buf)@,
                0,
                spec_unsuback_wire(self.packet_id, self.reason_codes@, self.properties@),
            ),
            spec_unsuback_check(self.packet_id, self.reason_codes@, self.properties@) is Err
                || spec_fixed_header_check(spec_unsuback_len(self.properties@, self.reason_codes@.len()), old(buf)@.len()) is Err
                ==> final(buf)@ == old(buf)@,
    {
        match self.validate() {
            Err(e) => {
                return Err(e);
            },
            Ok(()) => {},
        }
        let remaining_len = self.encoded_len();
        let n_codes = self.reason_codes.len();
        let offset = match encode_fixed_header(buf, 0xB0, 0x00, remaining_len) {
            Err(e) => {
                return Err(e);
            },
            Ok(n) => n,
        };
        proof {
            assert((0xB0u8 | 0x00u8) == 0xB0u8) by (bit_vector);
            lemma_vbi_encode_len(remaining_len as nat);
        }
        let ghost header = spec_fixed_header(0xB0, remaining_len as nat);
        write_be16_at(buf, offset, self.packet_id);
        proof {
            lemma_splice_append(old(buf)@, 0, header, spec_be16(self.packet_id));
        }
        let n = match self.properties.encode_at(buf, offset + 2) {
            Err(e) => {
                return Err(e);
            },
            Ok(n) => n,
        };
        let ghost prefix = header + spec_be16(self.packet_id) + spec_properties_wire(self.properties@);
        proof {
            lemma_splice_append(
                old(buf)@,
                0,
                header + spec_be16(self.packet_id),
                spec_properties_wire(self.properties@),
            );
        }
        let ghost after_props = buf@;
        proof {
            lemma_properties_len_matches(self.properties@);
        }
        let start = offset + 2 + n;
        let buf_len = buf.len();
        let mut i: usize = 0;
        while i < self.reason_codes.len()
            invariant
                i <= self.reason_codes@.len(),
                start == prefix.len(),
                buf_len == buf@.len(),
                buf@.len() == old(buf)@.len(),
                start + self.reason_codes@.len() <= buf@.len(),
                after_props == spec_splice(old(buf)@, 0, prefix),
                buf@ == spec_splice(after_props, start as int, spec_unsuback_code_bytes(self.reason_codes@.take(i as int))),
            decreases self.reason_codes@.len() - i,
        {
            let ghost before = buf@;
            buf[start + i] = self.reason_codes[i].as_u8();
            proof {
                assert(spec_unsuback_code_bytes(self.reason_codes@.take(i + 1)) =~= spec_unsuback_code_bytes(self.reason_codes@.take(i as int)).push(self.reason_codes@[i as int].spec_as_u8()));
                assert(buf@ =~= spec_splice(after_props, start as int, spec_unsuback_code_bytes(self.reason_codes@.take(i + 1))));
            }
            i = i + 1;
        }
        proof {
            assert(self.reason_codes@.take(i as int) =~= self.reason_codes@);
            lemma_splice_append(old(buf)@, 0, prefix, spec_unsuback_code_bytes(self.reason_codes@));
        }
        Ok(start + i)
    }

    /// Decodes an UNSUBACK from the start of `buf` and returns it with the number
    /// of bytes consumed.
    #[verifier::loop_isolation(false)]
    pub fn decode(buf: &[u8]) -> (r: Result<(Self, usize), DecodeError>)
        ensures
            match r {
                Ok((p, n)) => spec_unsuback_decode(buf@) == Ok::<(u16, Seq<UnsubAckReasonCode>, Seq<(u8, PropertyValue)>, nat), DecodeError>(
                    (p.packet_id, p.reason_codes@, p.properties@, n as nat),
                ),
                Err(e) => spec_unsuback_decode(buf@) == Err::<(u16, Seq<UnsubAckReasonCode>, Seq<(u8, PropertyValue)>, nat), DecodeError>(e),
            },
    {
        let (remaining_len, header_len, end) = match decode_fixed_header(buf, 0xB0, 0x00) {
            Err(e) => {
                return Err(e);
            },
            Ok(x) => x,
        };
        if remaining_len < 2 {
            return Err(DecodeError::MalformedPacket);
        }
        let packet_id = read_be16_at(buf, header_len);
        if packet_id == 0 {
            return Err(DecodeError::MalformedPacket);
        }
        let (properties, n) = match Properties::decode(&buf[header_len + 2..end]) {
            Err(e) => {
                return Err(e);
            },
            Ok(x) => x,
        };
        match properties.validate_for_unsuback() {
            Err(e) => {
                return Err(e);
            },
            Ok(()) => {},
        }
        let start = header_len + 2 + n;
        let ghost bytes = buf@.subrange(start as int, end as int);
        let mut reason_codes: Vec<UnsubAckReasonCode> = Vec::new();
        let mut offset = start;
        while offset < end
            invariant
                start <= offset <= end <= buf@.len(),
                bytes == buf@.subrange(start as int, end as int),
                forall|i: int| 0 <= i < offset - start ==> (#[trigger] UnsubAckReasonCode::spec_from_u8(bytes[i])) is Some,
                reason_codes@ == bytes.take(offset - start).map_values(|b: u8| UnsubAckReasonCode::spec_from_u8(b)->Some_0),
            decreases end - offset,
        {
            let code = match UnsubAckReasonCode::from_u8(buf[offset]) {
                None => {
                    proof {
                        assert(UnsubAckReasonCode::spec_from_u8(bytes[offset - start]) is None);
                    }
                    return Err(DecodeError::MalformedPacket);
                },
                Some(c) => c,
            };
            reason_codes.push(code);
            proof {
                assert(reason_codes@ =~= bytes.take(offset + 1 - start).map_values(|b: u8| UnsubAckReasonCode::spec_from_u8(b)->Some_0));
            }
            offset = offset + 1;
        }
        proof {
            assert(bytes.take(offset - start) =~= bytes);
            assert(spec_unsuback_codes(bytes) == Some(reason_codes@));
        }
        if reason_codes.len() == 0 {
            return Err(DecodeError::MalformedPacket);
        }
        Ok((Self { packet_id, reason_codes, properties }, end))
    }

    /// Checks what the packet must satisfy before it is written.
    fn validate(&self) -> (r: Result<(), EncodeError>)
        ensures
            r == spec_unsuback_check(self.packet_id, self.reason_codes@, self.properties@),
    {
        if self.packet_id == 0 {
            return Err(EncodeError::InvalidField { reason: EncodeInvalidField::ZeroPacketId });
        }
        if self.reason_codes.len() == 0 {
            return Err(EncodeError::InvalidField { reason: EncodeInvalidField::EmptyReasonCodes });
        }
        if self.properties.validate_for_unsuback().is_err() {
            return Err(
                EncodeError::InvalidField { reason: EncodeInvalidField::PropertyValidationFailed },
            );
        }
        if self.properties.validate_duplicate_identifiers(false).is_err() {
            return Err(
                EncodeError::InvalidField { reason: EncodeInvalidField::DuplicatePropertyIdentifier },
            );
        }
        Ok(())
    }
}

/// The numbers of reason codes read back as the same reason codes.
#[verifier::spinoff_prover]
proof fn lemma_unsuback_codes_roundtrip(codes: Seq<UnsubAckReasonCode>)
    ensures
        spec_unsuback_codes(spec_unsuback_code_bytes(codes)) == Some(codes),
{
    let bytes = spec_unsuback_code_bytes(codes);
    assert forall|i: int| 0 <= i < bytes.len() implies (#[trigger] UnsubAckReasonCode::spec_from_u8(
        bytes[i],
    )) is Some by {
        lemma_unsub_ack_reason_code_roundtrip(codes[i]);
    }
    let back = bytes.map_values(|b: u8| UnsubAckReasonCode::spec_from_u8(b)->Some_0);
    assert forall|i: int| 0 <= i < codes.len() implies #[trigger] back[i] == codes[i] by {
        lemma_unsub_ack_reason_code_roundtrip(codes[i]);
    }
    assert(back =~= codes);
}

/// Decoding the wire form of an UNSUBACK that can be written, followed by any
/// bytes, gives it back and consumes exactly the wire form.
#[verifier::spinoff_prover]
#[verifier::rlimit(50)]
pub proof fn lemma_unsuback_roundtrip(p: UnsubAck, rest: Seq<u8>)
    requires
        spec_unsuback_check(p.packet_id, p.reason_codes@, p.properties@) is Ok,
        spec_first_property_error(p.properties@) is None,
        spec_unsuback_len(p.properties@, p.reason_codes@.len()) <= VBI_MAX,
    ensures
        ({
            let w = spec_unsuback_wire(p.packet_id, p.reason_codes@, p.properties@);
            spec_unsuback_decode(w + rest) == Ok::<
                (u16, Seq<UnsubAckReasonCode>, Seq<(u8, PropertyValue)>, nat),
                DecodeError,
            >((p.packet_id, p.reason_codes@, p.properties@, w.len()))
        }),
{
    let ps = p.properties@;
    let codes = p.reason_codes@;
    let rem = spec_unsuback_len(ps, codes.len()) as nat;
    assert(codes.len() == p.reason_codes.len());
    lemma_properties_len_matches(ps);
    assert(rem == 2 + spec_properties_wire(ps).len() + codes.len());
    let pw = spec_properties_wire(ps);
    let bytes = spec_unsuback_code_bytes(codes);
    let body = spec_be16(p.packet_id) + pw + bytes;
    let header = spec_fixed_header(0xB0, rem);
    let s = spec_unsuback_wire(p.packet_id, codes, ps) + rest;
    assert((0xB0u8 | 0x00u8) == 0xB0u8 && (0xB0u8 | 0x00u8) & 0xF0 == 0xB0u8 && (0xB0u8 | 0x00u8) & 0x0F == 0x00u8)
        by (bit_vector);
    assert(s =~= header + (body + rest));
    lemma_fixed_header_roundtrip(0xB0, 0x00, rem, body + rest);
    let h = header.len() as int;
    crate::codec::wire::lemma_be16_roundtrip(p.packet_id);
    assert(s[h] == spec_be16(p.packet_id)[0] && s[h + 1] == spec_be16(p.packet_id)[1]);
    assert(s.subrange(h + 2, h + rem) =~= pw + bytes);
    lemma_properties_roundtrip(p.properties, false, bytes);
    assert(s.subrange(h + 2 + pw.len(), h + rem) =~= bytes);
    lemma_unsuback_codes_roundtrip(codes);
}

} // verus!
