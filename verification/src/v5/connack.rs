//! MQTT v5.0 CONNACK packets (MQTT v5.0 §3.2).

use vstd::prelude::*;

use crate::codec::wire::{lemma_splice_append, spec_splice};
use crate::codec::variable_byte_integer::{lemma_vbi_encode_len, VBI_MAX};
use crate::error::{DecodeError, EncodeError, EncodeInvalidField};
use crate::v5::ack_helper::{
    decode_fixed_header, encode_fixed_header, lemma_fixed_header_roundtrip, spec_fixed_header, spec_fixed_header_check,
    spec_fixed_header_decode,
};
use crate::v5::property::{
    lemma_properties_len_matches, lemma_properties_roundtrip,
    spec_connack_ids, spec_first_property_error, spec_has_duplicate, spec_ids_within,
    spec_properties_decode, spec_properties_len, spec_properties_wire, Properties, PropertyValue,
};

verus! {

/// MQTT v5.0 Connect Reason Code (MQTT v5.0 §3.2.2.2).
///
///  Only the values of the Connect Reason Code table exist; a server sending a
/// CONNACK must use one of them [MQTT-3.2.2-8].
#[derive(Debug, Clone, Copy, PartialEq, Eq, Structural)]
pub enum ConnectReasonCode {
    /// 0x00: Success.
    Success,
    /// 0x80: Unspecified error.
    UnspecifiedError,
    /// 0x81: Malformed packet.
    MalformedPacket,
    /// 0x82: Protocol error.
    ProtocolError,
    /// 0x83: Implementation specific error.
    ImplementationSpecificError,
    /// 0x84: Unsupported protocol version.
    UnsupportedProtocolVersion,
    /// 0x85: Client identifier not valid.
    ClientIdentifierNotValid,
    /// 0x86: Bad user name or password.
    BadUserNameOrPassword,
    /// 0x87: Not authorized.
    NotAuthorized,
    /// 0x88: Server unavailable.
    ServerUnavailable,
    /// 0x89: Server busy.
    ServerBusy,
    /// 0x8A: Banned.
    Banned,
    /// 0x8C: Bad authentication method.
    BadAuthenticationMethod,
    /// 0x90: Topic name invalid.
    TopicNameInvalid,
    /// 0x95: Packet too large.
    PacketTooLarge,
    /// 0x97: Quota exceeded.
    QuotaExceeded,
    /// 0x99: Payload format invalid.
    PayloadFormatInvalid,
    /// 0x9A: Retain not supported.
    RetainNotSupported,
    /// 0x9B: QoS not supported.
    QoSNotSupported,
    /// 0x9C: Use another server.
    UseAnotherServer,
    /// 0x9D: Server moved.
    ServerMoved,
    /// 0x9F: Connection rate exceeded.
    ConnectionRateExceeded,
}

impl ConnectReasonCode {
    /// The numeric value of the code.
    pub open spec fn spec_as_u8(self) -> u8 {
        match self {
            ConnectReasonCode::Success => 0x00,
            ConnectReasonCode::UnspecifiedError => 0x80,
            ConnectReasonCode::MalformedPacket => 0x81,
            ConnectReasonCode::ProtocolError => 0x82,
            ConnectReasonCode::ImplementationSpecificError => 0x83,
            ConnectReasonCode::UnsupportedProtocolVersion => 0x84,
            ConnectReasonCode::ClientIdentifierNotValid => 0x85,
            ConnectReasonCode::BadUserNameOrPassword => 0x86,
            ConnectReasonCode::NotAuthorized => 0x87,
            ConnectReasonCode::ServerUnavailable => 0x88,
            ConnectReasonCode::ServerBusy => 0x89,
            ConnectReasonCode::Banned => 0x8A,
            ConnectReasonCode::BadAuthenticationMethod => 0x8C,
            ConnectReasonCode::TopicNameInvalid => 0x90,
            ConnectReasonCode::PacketTooLarge => 0x95,
            ConnectReasonCode::QuotaExceeded => 0x97,
            ConnectReasonCode::PayloadFormatInvalid => 0x99,
            ConnectReasonCode::RetainNotSupported => 0x9A,
            ConnectReasonCode::QoSNotSupported => 0x9B,
            ConnectReasonCode::UseAnotherServer => 0x9C,
            ConnectReasonCode::ServerMoved => 0x9D,
            ConnectReasonCode::ConnectionRateExceeded => 0x9F,
        }
    }

    /// The code with the numeric value `value`, if any.
    pub open spec fn spec_from_u8(value: u8) -> Option<ConnectReasonCode> {
        if value == 0x00 {
            Some(ConnectReasonCode::Success)
        } else if value == 0x80 {
            Some(ConnectReasonCode::UnspecifiedError)
        } else if value == 0x81 {
            Some(ConnectReasonCode::MalformedPacket)
        } else if value == 0x82 {
            Some(ConnectReasonCode::ProtocolError)
        } else if value == 0x83 {
            Some(ConnectReasonCode::ImplementationSpecificError)
        } else if value == 0x84 {
            Some(ConnectReasonCode::UnsupportedProtocolVersion)
        } else if value == 0x85 {
            Some(ConnectReasonCode::ClientIdentifierNotValid)
        } else if value == 0x86 {
            Some(ConnectReasonCode::BadUserNameOrPassword)
        } else if value == 0x87 {
            Some(ConnectReasonCode::NotAuthorized)
        } else if value == 0x88 {
            Some(ConnectReasonCode::ServerUnavailable)
        } else if value == 0x89 {
            Some(ConnectReasonCode::ServerBusy)
        } else if value == 0x8A {
            Some(ConnectReasonCode::Banned)
        } else if value == 0x8C {
            Some(ConnectReasonCode::BadAuthenticationMethod)
        } else if value == 0x90 {
            Some(ConnectReasonCode::TopicNameInvalid)
        } else if value == 0x95 {
            Some(ConnectReasonCode::PacketTooLarge)
        } else if value == 0x97 {
            Some(ConnectReasonCode::QuotaExceeded)
        } else if value == 0x99 {
            Some(ConnectReasonCode::PayloadFormatInvalid)
        } else if value == 0x9A {
            Some(ConnectReasonCode::RetainNotSupported)
        } else if value == 0x9B {
            Some(ConnectReasonCode::QoSNotSupported)
        } else if value == 0x9C {
            Some(ConnectReasonCode::UseAnotherServer)
        } else if value == 0x9D {
            Some(ConnectReasonCode::ServerMoved)
        } else if value == 0x9F {
            Some(ConnectReasonCode::ConnectionRateExceeded)
        } else {
            None
        }
    }

    /// Returns the code with the numeric value `value`; other values give `None`.
    pub fn from_u8(value: u8) -> (r: Option<Self>)
        ensures
            r == Self::spec_from_u8(value),
    {
        match value {
            0x00 => Some(ConnectReasonCode::Success),
            0x80 => Some(ConnectReasonCode::UnspecifiedError),
            0x81 => Some(ConnectReasonCode::MalformedPacket),
            0x82 => Some(ConnectReasonCode::ProtocolError),
            0x83 => Some(ConnectReasonCode::ImplementationSpecificError),
            0x84 => Some(ConnectReasonCode::UnsupportedProtocolVersion),
            0x85 => Some(ConnectReasonCode::ClientIdentifierNotValid),
            0x86 => Some(ConnectReasonCode::BadUserNameOrPassword),
            0x87 => Some(ConnectReasonCode::NotAuthorized),
            0x88 => Some(ConnectReasonCode::ServerUnavailable),
            0x89 => Some(ConnectReasonCode::ServerBusy),
            0x8A => Some(ConnectReasonCode::Banned),
            0x8C => Some(ConnectReasonCode::BadAuthenticationMethod),
            0x90 => Some(ConnectReasonCode::TopicNameInvalid),
            0x95 => Some(ConnectReasonCode::PacketTooLarge),
            0x97 => Some(ConnectReasonCode::QuotaExceeded),
            0x99 => Some(ConnectReasonCode::PayloadFormatInvalid),
            0x9A => Some(ConnectReasonCode::RetainNotSupported),
            0x9B => Some(ConnectReasonCode::QoSNotSupported),
            0x9C => Some(ConnectReasonCode::UseAnotherServer),
            0x9D => Some(ConnectReasonCode::ServerMoved),
            0x9F => Some(ConnectReasonCode::ConnectionRateExceeded),
            _ => None,
        }
    }

    /// Returns the numeric value of the code.
    pub fn as_u8(self) -> (r: u8)
        ensures
            r == self.spec_as_u8(),
    {
        match self {
            ConnectReasonCode::Success => 0x00,
            ConnectReasonCode::UnspecifiedError => 0x80,
            ConnectReasonCode::MalformedPacket => 0x81,
            ConnectReasonCode::ProtocolError => 0x82,
            ConnectReasonCode::ImplementationSpecificError => 0x83,
            ConnectReasonCode::UnsupportedProtocolVersion => 0x84,
            ConnectReasonCode::ClientIdentifierNotValid => 0x85,
            ConnectReasonCode::BadUserNameOrPassword => 0x86,
            ConnectReasonCode::NotAuthorized => 0x87,
            ConnectReasonCode::ServerUnavailable => 0x88,
            ConnectReasonCode::ServerBusy => 0x89,
            ConnectReasonCode::Banned => 0x8A,
            ConnectReasonCode::BadAuthenticationMethod => 0x8C,
            ConnectReasonCode::TopicNameInvalid => 0x90,
            ConnectReasonCode::PacketTooLarge => 0x95,
            ConnectReasonCode::QuotaExceeded => 0x97,
            ConnectReasonCode::PayloadFormatInvalid => 0x99,
            ConnectReasonCode::RetainNotSupported => 0x9A,
            ConnectReasonCode::QoSNotSupported => 0x9B,
            ConnectReasonCode::UseAnotherServer => 0x9C,
            ConnectReasonCode::ServerMoved => 0x9D,
            ConnectReasonCode::ConnectionRateExceeded => 0x9F,
        }
    }
}

/// Converting a code to its number and back gives the code.
#[verifier::spinoff_prover]
pub proof fn lemma_connect_reason_code_roundtrip(c: ConnectReasonCode)
    ensures
        ConnectReasonCode::spec_from_u8(c.spec_as_u8()) == Some(c),
{
}

/// An MQTT v5.0 CONNACK packet (MQTT v5.0 §3.2).
#[derive(Debug, Clone, PartialEq, Eq)]
pub struct ConnAck {
    /// Whether the server resumed an existing session.
    pub session_present: bool,
    /// The result of the connection attempt.
    pub reason_code: ConnectReasonCode,
    /// The properties.
    pub properties: Properties,
}

/// The remaining length of a CONNACK with the properties `ps`.
pub open spec fn spec_connack_len(ps: Seq<(u8, PropertyValue)>) -> usize {
    (1usize).saturating_add(1).saturating_add(spec_properties_len(ps))
}

/// The wire form of a CONNACK.
pub open spec fn spec_connack_wire(session_present: bool, reason_code: ConnectReasonCode, ps: Seq<(u8, PropertyValue)>) -> Seq<u8> {
    spec_fixed_header(0x20, spec_connack_len(ps) as nat) + seq![
        if session_present {
            1u8
        } else {
            0u8
        },
        reason_code.spec_as_u8(),
    ] + spec_properties_wire(ps)
}

/// Why a CONNACK cannot be written, if it cannot: Session Present with a
/// reason code other than Success (MQTT v5.0 §3.2.2.1.1, [MQTT-3.2.2-3]),
/// properties that CONNACK does not allow, or a repeated property.
pub open spec fn spec_connack_check(session_present: bool, reason_code: ConnectReasonCode, ps: Seq<(u8, PropertyValue)>) -> Result<(), EncodeError> {
    if session_present && reason_code != ConnectReasonCode::Success {
        Err(EncodeError::InvalidField { reason: EncodeInvalidField::SessionPresentWithNonSuccess })
    } else if !spec_ids_within(ps, spec_connack_ids()) {
        Err(EncodeError::InvalidField { reason: EncodeInvalidField::PropertyValidationFailed })
    } else if spec_has_duplicate(ps, false) {
        Err(EncodeError::InvalidField { reason: EncodeInvalidField::DuplicatePropertyIdentifier })
    } else {
        Ok(())
    }
}

/// What writing a CONNACK that passed its check into a buffer of `buf_len`
/// bytes returns.
pub open spec fn spec_connack_result(session_present: bool, reason_code: ConnectReasonCode, ps: Seq<(u8, PropertyValue)>, buf_len: nat) -> Result<usize, EncodeError> {
    match spec_fixed_header_check(spec_connack_len(ps), buf_len) {
        Err(e) => Err(e),
        Ok(()) => match spec_first_property_error(ps) {
            Some(e) => Err(e),
            None => Ok(spec_connack_wire(session_present, reason_code, ps).len() as usize),
        },
    }
}

/// The result of decoding a CONNACK from the start of `s`: Session Present,
/// the reason code, the properties and the bytes consumed. Reserved
/// acknowledge flags, a missing reason code or property length, an unknown
/// reason code, properties that CONNACK does not allow, Session Present with a
/// reason code other than Success, or bytes left over are malformed.
pub open spec fn spec_connack_decode(s: Seq<u8>) -> Result<(bool, ConnectReasonCode, Seq<(u8, PropertyValue)>, nat), DecodeError> {
    match spec_fixed_header_decode(s, 0x20, 0x00) {
        Err(e) => Err(e),
        Ok((rem, h)) => if rem < 1 {
            Err(DecodeError::MalformedPacket)
        } else if s[h as int] & 0xFE != 0 {
            Err(DecodeError::MalformedPacket)
        } else if rem < 2 {
            Err(DecodeError::MalformedPacket)
        } else {
            match ConnectReasonCode::spec_from_u8(s[h + 1 as int]) {
                None => Err(DecodeError::MalformedPacket),
                Some(c) => match spec_properties_decode(s.subrange(h + 2 as int, h + rem as int), false) {
                    Err(e) => Err(e),
                    Ok((ps, n)) => if !spec_ids_within(ps, spec_connack_ids()) {
                        Err(DecodeError::MalformedPacket)
                    } else if c != ConnectReasonCode::Success && s[h as int] & 0x01 != 0 {
                        Err(DecodeError::MalformedPacket)
                    } else if 2 + n != rem {
                        Err(DecodeError::MalformedPacket)
                    } else {
                        Ok((s[h as int] & 0x01 != 0, c, ps, h + rem))
                    },
                },
            }
        },
    }
}

impl ConnAck {
    /// Returns the remaining length of the encoded packet.
    pub fn encoded_len(&self) -> (r: usize)
        ensures
            r == spec_connack_len(self.properties@),
    {
        1usize.saturating_add(1).saturating_add(self.properties.encoded_len())
    }

    /// Encodes the packet into `buf` and returns the number of bytes written.
    ///
    /// After an error in a property, the bytes before it have been written.
    pub fn encode(&self, buf: &mut [u8]) -> (r: Result<usize, EncodeError>)
        ensures
            final(buf)@.len() == old(buf)@.len(),
            r == match spec_connack_check(self.session_present, self.reason_code, self.properties@) {
                Err(e) => Err::<usize, EncodeError>(e),
                Ok(()) => spec_connack_result(self.session_present, self.reason_code, self.properties@, old(buf)@.len()),
            },
            r is Ok ==> final(buf)@ == spec_splice(
                old(buf)@,
                0,
                spec_connack_wire(self.session_present, self.reason_code, self.properties@),
            ),
            spec_connack_check(self.session_present, self.reason_code, self.properties@) is Err
                || spec_fixed_header_check(spec_connack_len(self.properties@), old(buf)@.len()) is Err
                ==> final(buf)@ == old(buf)@,
    {
        match self.validate() {
            Err(e) => {
                return Err(e);
            },
            Ok(()) => {},
        }
        let remaining_len = self.encoded_len();
        let offset = match encode_fixed_header(buf, 0x20, 0x00, remaining_len) {
            Err(e) => {
                return Err(e);
            },
            Ok(n) => n,
        };
        proof {
            assert((0x20u8 | 0x00u8) == 0x20u8) by (bit_vector);
            lemma_vbi_encode_len(remaining_len as nat);
        }
        let ghost header = spec_fixed_header(0x20, remaining_len as nat);
        let flags: u8 = if self.session_present { 0x01 } else { 0x00 };
        let ghost before = buf@;
        buf[offset] = flags;
        buf[offset + 1] = self.reason_code.as_u8();
        proof {
            let mid = seq![flags, self.reason_code.spec_as_u8()];
            assert(buf@ =~= spec_splice(before, offset as int, mid));
            lemma_splice_append(old(buf)@, 0, header, mid);
        }
        match self.properties.encode_at(buf, offset + 2) {
            Err(e) => Err(e),
            Ok(n) => {
                proof {
                    lemma_splice_append(
                        old(buf)@,
                        0,
                        header + seq![flags, self.reason_code.spec_as_u8()],
                        spec_properties_wire(self.properties@),
                    );
                }
                Ok(offset + 2 + n)
            },
        }
    }

    /// Checks what the packet must satisfy before it is written.
    fn validate(&self) -> (r: Result<(), EncodeError>)
        ensures
            r == spec_connack_check(self.session_present, self.reason_code, self.properties@),
    {
        if self.session_present && self.reason_code != ConnectReasonCode::Success {
            return Err(
                EncodeError::InvalidField { reason: EncodeInvalidField::SessionPresentWithNonSuccess },
            );
        }
        if self.properties.validate_for_connack().is_err() {
            return Err(
                EncodeError::InvalidField { reason: EncodeInvalidField::PropertyValidationFailed },
            );
        }
        if self.properties.validate_duplicate_identifiers(false).is_err() {
            return Err(
                EncodeError::InvalidField { reason: EncodeInvalidField::DuplicatePropertyIdentifier },
            );
        }
        Ok(())
    }

    /// Decodes a CONNACK from the start of `buf` and returns it with the number
    /// of bytes consumed.
    pub fn decode(buf: &[u8]) -> (r: Result<(Self, usize), DecodeError>)
        ensures
            match r {
                Ok((p, n)) => spec_connack_decode(buf@) == Ok::<(bool, ConnectReasonCode, Seq<(u8, PropertyValue)>, nat), DecodeError>(
                    (p.session_present, p.reason_code, p.properties@, n as nat),
                ),
                Err(e) => spec_connack_decode(buf@) == Err::<(bool, ConnectReasonCode, Seq<(u8, PropertyValue)>, nat), DecodeError>(e),
            },
    {
        let (remaining_len, header_len, end) = match decode_fixed_header(buf, 0x20, 0x00) {
            Err(e) => {
                return Err(e);
            },
            Ok(x) => x,
        };
        if remaining_len < 1 {
            return Err(DecodeError::MalformedPacket);
        }
        let flags = buf[header_len];
        if flags & 0xFE != 0 {
            return Err(DecodeError::MalformedPacket);
        }
        let session_present = flags & 0x01 != 0;
        if remaining_len < 2 {
            return Err(DecodeError::MalformedPacket);
        }
        let reason_code = match ConnectReasonCode::from_u8(buf[header_len + 1]) {
            None => {
                return Err(DecodeError::MalformedPacket);
            },
            Some(c) => c,
        };
        let (properties, n) = match Properties::decode(&buf[header_len + 2..end]) {
            Err(e) => {
                return Err(e);
            },
            Ok(x) => x,
        };
        match properties.validate_for_connack() {
            Err(e) => {
                return Err(e);
            },
            Ok(()) => {},
        }
        if reason_code != ConnectReasonCode::Success && session_present {
            return Err(DecodeError::MalformedPacket);
        }
        if 2 + n != remaining_len {
            return Err(DecodeError::MalformedPacket);
        }
        Ok((Self { session_present, reason_code, properties }, end))
    }
}

/// Decoding the wire form of a CONNACK that can be written, followed by any
/// bytes, gives it back and consumes exactly the wire form.
#[verifier::spinoff_prover]
#[verifier::rlimit(50)]
pub proof fn lemma_connack_roundtrip(p: ConnAck, rest: Seq<u8>)
    requires
        spec_connack_check(p.session_present, p.reason_code, p.properties@) is Ok,
        spec_first_property_error(p.properties@) is None,
        spec_connack_len(p.properties@) <= VBI_MAX,
    ensures
        ({
            let w = spec_connack_wire(p.session_present, p.reason_code, p.properties@);
            spec_connack_decode(w + rest) == Ok::<
                (bool, ConnectReasonCode, Seq<(u8, PropertyValue)>, nat),
                DecodeError,
            >((p.session_present, p.reason_code, p.properties@, w.len()))
        }),
{
    let ps = p.properties@;
    let rem = spec_connack_len(ps) as nat;
    lemma_properties_len_matches(ps);
    let flags: u8 = if p.session_present {
        1u8
    } else {
        0u8
    };
    let pw = spec_properties_wire(ps);
    let body = seq![flags, p.reason_code.spec_as_u8()] + pw;
    let header = spec_fixed_header(0x20, rem);
    let s = spec_connack_wire(p.session_present, p.reason_code, ps) + rest;
    assert((0x20u8 | 0x00u8) == 0x20u8 && (0x20u8 | 0x00u8) & 0xF0 == 0x20u8 && (0x20u8 | 0x00u8) & 0x0F == 0x00u8)
        by (bit_vector);
    assert(1u8 & 0xFE == 0 && 0u8 & 0xFE == 0 && 1u8 & 0x01 != 0 && 0u8 & 0x01 == 0) by (bit_vector);
    assert(s =~= header + (body + rest));
    lemma_fixed_header_roundtrip(0x20, 0x00, rem, body + rest);
    let h = header.len() as int;
    assert(s[h] == flags && s[h + 1] == p.reason_code.spec_as_u8());
    lemma_connect_reason_code_roundtrip(p.reason_code);
    assert(s.subrange(h + 2, h + rem) =~= pw + Seq::<u8>::empty());
    lemma_properties_roundtrip(p.properties, false, Seq::<u8>::empty());
}

} // verus!
