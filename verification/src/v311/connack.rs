//! MQTT v3.1.1 CONNACK packets (MQTT v3.1.1 §3.2).

use vstd::prelude::*;

use crate::codec::wire::spec_splice;
use crate::error::{DecodeError, EncodeError, EncodeInvalidField};
use crate::v5::ack_helper::{decode_fixed_header, encode_fixed_header, spec_fixed_header, spec_fixed_header_decode};

verus! {

/// MQTT v3.1.1 Connect Return Code (MQTT v3.1.1 §3.2.2.3).
#[derive(Debug, Clone, Copy, PartialEq, Eq, Structural)]
pub enum ConnectReturnCode {
    /// 0x00: Accepted.
    Accepted,
    /// 0x01: Unacceptable protocol version.
    UnacceptableProtocolVersion,
    /// 0x02: Identifier rejected.
    IdentifierRejected,
    /// 0x03: Server unavailable.
    ServerUnavailable,
    /// 0x04: Bad user name or password.
    BadUserNameOrPassword,
    /// 0x05: Not authorized.
    NotAuthorized,
}

impl ConnectReturnCode {
    /// The numeric value of the code.
    pub open spec fn spec_as_u8(self) -> u8 {
        match self {
            ConnectReturnCode::Accepted => 0x00,
            ConnectReturnCode::UnacceptableProtocolVersion => 0x01,
            ConnectReturnCode::IdentifierRejected => 0x02,
            ConnectReturnCode::ServerUnavailable => 0x03,
            ConnectReturnCode::BadUserNameOrPassword => 0x04,
            ConnectReturnCode::NotAuthorized => 0x05,
        }
    }

    /// The code with the numeric value `value`, if any.
    pub open spec fn spec_from_u8(value: u8) -> Option<ConnectReturnCode> {
        if value == 0x00 {
            Some(ConnectReturnCode::Accepted)
        } else if value == 0x01 {
            Some(ConnectReturnCode::UnacceptableProtocolVersion)
        } else if value == 0x02 {
            Some(ConnectReturnCode::IdentifierRejected)
        } else if value == 0x03 {
            Some(ConnectReturnCode::ServerUnavailable)
        } else if value == 0x04 {
            Some(ConnectReturnCode::BadUserNameOrPassword)
        } else if value == 0x05 {
            Some(ConnectReturnCode::NotAuthorized)
        } else {
            None
        }
    }

    /// Returns the code with the numeric value `value`; other values give `None`.
    pub fn from_u8(value: u8) -> (r: Option<Self>)
        ensures
            r == Self::spec_from_u8(value),
    {
        match value {
            0x00 => Some(ConnectReturnCode::Accepted),
            0x01 => Some(ConnectReturnCode::UnacceptableProtocolVersion),
            0x02 => Some(ConnectReturnCode::IdentifierRejected),
            0x03 => Some(ConnectReturnCode::ServerUnavailable),
            0x04 => Some(ConnectReturnCode::BadUserNameOrPassword),
            0x05 => Some(ConnectReturnCode::NotAuthorized),
            _ => None,
        }
    }

    /// Returns the numeric value of the code.
    pub fn as_u8(self) -> (r: u8)
        ensures
            r == self.spec_as_u8(),
    {
        match self {
            ConnectReturnCode::Accepted => 0x00,
            ConnectReturnCode::UnacceptableProtocolVersion => 0x01,
            ConnectReturnCode::IdentifierRejected => 0x02,
            ConnectReturnCode::ServerUnavailable => 0x03,
            ConnectReturnCode::BadUserNameOrPassword => 0x04,
            ConnectReturnCode::NotAuthorized => 0x05,
        }
    }
}

/// Converting a code to its number and back gives the code.
#[verifier::spinoff_prover]
pub proof fn lemma_connect_return_code_roundtrip(c: ConnectReturnCode)
    ensures
        ConnectReturnCode::spec_from_u8(c.spec_as_u8()) == Some(c),
{
}

/// An MQTT v3.1.1 CONNACK packet (MQTT v3.1.1 §3.2).
#[derive(Debug, Clone, Copy, PartialEq, Eq, Structural)]
pub struct ConnAck {
    /// Whether the server resumed an existing session.
    pub session_present: bool,
    /// The result of the connection attempt.
    pub return_code: ConnectReturnCode,
}

/// The wire form of a CONNACK: the fixed header with remaining length 2, the
/// acknowledge flags and the return code.
pub open spec fn spec_connack_wire(session_present: bool, return_code: ConnectReturnCode) -> Seq<u8> {
    seq![
        0x20u8,
        2u8,
        if session_present {
            1u8
        } else {
            0u8
        },
        return_code.spec_as_u8(),
    ]
}

/// The result of decoding a CONNACK from the start of `s`: Session Present,
/// the return code and the bytes consumed. Reserved acknowledge flags, a
/// missing or unknown return code, Session Present with a refusal (MQTT v3.1.1
/// §3.2.2.2), or bytes left over are malformed.
pub open spec fn spec_connack_decode(s: Seq<u8>) -> Result<(bool, ConnectReturnCode, nat), DecodeError> {
    match spec_fixed_header_decode(s, 0x20, 0x00) {
        Err(e) => Err(e),
        Ok((rem, h)) => if rem < 1 || s[h as int] & 0xFE != 0 || rem < 2 {
            Err(DecodeError::MalformedPacket)
        } else {
            match ConnectReturnCode::spec_from_u8(s[h + 1 as int]) {
                None => Err(DecodeError::MalformedPacket),
                Some(c) => if c != ConnectReturnCode::Accepted && s[h as int] & 0x01 != 0 {
                    Err(DecodeError::MalformedPacket)
                } else if rem != 2 {
                    Err(DecodeError::MalformedPacket)
                } else {
                    Ok((s[h as int] & 0x01 != 0, c, h + 2))
                },
            }
        },
    }
}

impl ConnAck {
    /// Returns the remaining length of the encoded packet, which is 2.
    pub fn encoded_len(&self) -> (r: usize)
        ensures
            r == 2,
    {
        2
    }

    /// Encodes the packet into `buf` and returns the number of bytes written.
    /// Session Present with a refusal cannot be written (MQTT v3.1.1
    /// §3.2.2.2).
    pub fn encode(&self, buf: &mut [u8]) -> (r: Result<usize, EncodeError>)
        ensures
            final(buf)@.len() == old(buf)@.len(),
            self.session_present && self.return_code != ConnectReturnCode::Accepted ==> r == Err::<
                usize,
                EncodeError,
            >(EncodeError::InvalidField { reason: EncodeInvalidField::SessionPresentWithNonSuccess })
                && final(buf)@ == old(buf)@,
            !(self.session_present && self.return_code != ConnectReturnCode::Accepted) ==> {
                &&& old(buf)@.len() < 4 ==> r == Err::<usize, EncodeError>(EncodeError::BufferTooSmall)
                    && final(buf)@ == old(buf)@
                &&& old(buf)@.len() >= 4 ==> r == Ok::<usize, EncodeError>(4) && final(buf)@
                    == spec_splice(old(buf)@, 0, spec_connack_wire(self.session_present, self.return_code))
            },
    {
        if self.session_present && self.return_code != ConnectReturnCode::Accepted {
            return Err(
                EncodeError::InvalidField { reason: EncodeInvalidField::SessionPresentWithNonSuccess },
            );
        }
        let offset = match encode_fixed_header(buf, 0x20, 0x00, 2) {
            Err(e) => {
                return Err(e);
            },
            Ok(n) => n,
        };
        proof {
            reveal_with_fuel(crate::codec::variable_byte_integer::spec_vbi_encode, 2);
            assert((0x20u8 | 0x00u8) == 0x20u8) by (bit_vector);
        }
        let ghost before = buf@;
        buf[offset] = if self.session_present {
            0x01
        } else {
            0x00
        };
        buf[offset + 1] = self.return_code.as_u8();
        proof {
            assert(buf@ =~= spec_splice(old(buf)@, 0, spec_connack_wire(self.session_present, self.return_code)));
        }
        Ok(offset + 2)
    }

    /// Decodes a CONNACK from the start of `buf` and returns it with the number
    /// of bytes consumed.
    pub fn decode(buf: &[u8]) -> (r: Result<(Self, usize), DecodeError>)
        ensures
            match r {
                Ok((p, n)) => spec_connack_decode(buf@) == Ok::<(bool, ConnectReturnCode, nat), DecodeError>(
                    (p.session_present, p.return_code, n as nat),
                ),
                Err(e) => spec_connack_decode(buf@) == Err::<(bool, ConnectReturnCode, nat), DecodeError>(e),
            },
    {
        let (remaining_len, header_len, _end) = match decode_fixed_header(buf, 0x20, 0x00) {
            Err(e) => {
                return Err(e);
            },
            Ok(x) => x,
        };
        if remaining_len < 1 {
            return Err(DecodeError::MalformedPacket);
        }
        let flags = buf[header_len];
        if flags & 0xFE != 0 {
            return Err(DecodeError::MalformedPacket);
        }
        let session_present = flags & 0x01 != 0;
        if remaining_len < 2 {
            return Err(DecodeError::MalformedPacket);
        }
        let return_code = match ConnectReturnCode::from_u8(buf[header_len + 1]) {
            None => {
                return Err(DecodeError::MalformedPacket);
            },
            Some(c) => c,
        };
        if return_code != ConnectReturnCode::Accepted && session_present {
            return Err(DecodeError::MalformedPacket);
        }
        if remaining_len != 2 {
            return Err(DecodeError::MalformedPacket);
        }
        Ok((ConnAck { session_present, return_code }, header_len + 2))
    }
}

/// Decoding the wire form of a CONNACK that can be written (no Session Present
/// with a refusal), followed by any bytes, gives it back and consumes exactly
/// the four bytes.
#[verifier::spinoff_prover]
pub proof fn lemma_connack_roundtrip(p: ConnAck, rest: Seq<u8>)
    requires
        !(p.session_present && p.return_code != ConnectReturnCode::Accepted),
    ensures
        spec_connack_decode(spec_connack_wire(p.session_present, p.return_code) + rest) == Ok::<
            (bool, ConnectReturnCode, nat),
            DecodeError,
        >((p.session_present, p.return_code, 4)),
{
    let s = spec_connack_wire(p.session_present, p.return_code) + rest;
    assert(0x20u8 & 0xF0 == 0x20u8 && 0x20u8 & 0x0F == 0x00u8) by (bit_vector);
    assert(1u8 & 0xFE == 0 && 0u8 & 0xFE == 0 && 1u8 & 0x01 != 0 && 0u8 & 0x01 == 0) by (bit_vector);
    assert(crate::codec::variable_byte_integer::spec_vbi_encode(2) =~= seq![2u8]);
    assert(s.skip(1) =~= crate::codec::variable_byte_integer::spec_vbi_encode(2) + s.skip(2));
    crate::codec::variable_byte_integer::lemma_vbi_roundtrip(2, s.skip(2));
    lemma_connect_return_code_roundtrip(p.return_code);
}

} // verus!
