//! MQTT v3.1.1 SUBACK packets (MQTT v3.1.1 §3.9).

use vstd::prelude::*;

use crate::codec::variable_byte_integer::{lemma_vbi_encode_len, VBI_MAX};
use crate::codec::wire::{lemma_splice_append, read_be16_at, spec_be16, spec_read_be16, spec_splice, write_be16_at};
use crate::error::{DecodeError, EncodeError, EncodeInvalidField};
use crate::v5::ack_helper::{
    decode_fixed_header, encode_fixed_header, lemma_fixed_header_roundtrip, spec_fixed_header, spec_fixed_header_check,
    spec_fixed_header_decode,
};

verus! {

/// MQTT v3.1.1 SUBACK return code (MQTT v3.1.1 §3.9.3).
#[derive(Debug, Clone, Copy, PartialEq, Eq, Structural)]
pub enum SubscribeReturnCode {
    /// 0x00: Success, maximum QoS 0.
    SuccessQoS0,
    /// 0x01: Success, maximum QoS 1.
    SuccessQoS1,
    /// 0x02: Success, maximum QoS 2.
    SuccessQoS2,
    /// 0x80: Failure.
    Failure,
}

impl SubscribeReturnCode {
    /// The numeric value of the code.
    pub open spec fn spec_as_u8(self) -> u8 {
        match self {
            SubscribeReturnCode::SuccessQoS0 => 0x00,
            SubscribeReturnCode::SuccessQoS1 => 0x01,
            SubscribeReturnCode::SuccessQoS2 => 0x02,
            SubscribeReturnCode::Failure => 0x80,
        }
    }

    /// The code with the numeric value `value`, if any.
    pub open spec fn spec_from_u8(value: u8) -> Option<SubscribeReturnCode> {
        if value == 0x00 {
            Some(SubscribeReturnCode::SuccessQoS0)
        } else if value == 0x01 {
            Some(SubscribeReturnCode::SuccessQoS1)
        } else if value == 0x02 {
            Some(SubscribeReturnCode::SuccessQoS2)
        } else if value == 0x80 {
            Some(SubscribeReturnCode::Failure)
        } else {
            None
        }
    }

    /// Returns the code with the numeric value `value`; other values give `None`.
    pub fn from_u8(value: u8) -> (r: Option<Self>)
        ensures
            r == Self::spec_from_u8(value),
    {
        match value {
            0x00 => Some(SubscribeReturnCode::SuccessQoS0),
            0x01 => Some(SubscribeReturnCode::SuccessQoS1),
            0x02 => Some(SubscribeReturnCode::SuccessQoS2),
            0x80 => Some(SubscribeReturnCode::Failure),
            _ => None,
        }
    }

    /// Returns the numeric value of the code.
    pub fn as_u8(self) -> (r: u8)
        ensures
            r == self.spec_as_u8(),
    {
        match self {
            SubscribeReturnCode::SuccessQoS0 => 0x00,
            SubscribeReturnCode::SuccessQoS1 => 0x01,
            SubscribeReturnCode::SuccessQoS2 => 0x02,
            SubscribeReturnCode::Failure => 0x80,
        }
    }
}

/// Converting a code to its number and back gives the code.
#[verifier::spinoff_prover]
pub proof fn lemma_subscribe_return_code_roundtrip(c: SubscribeReturnCode)
    ensures
        SubscribeReturnCode::spec_from_u8(c.spec_as_u8()) == Some(c),
{
}

/// An MQTT v3.1.1 SUBACK packet (MQTT v3.1.1 §3.9).
#[derive(Debug, Clone, PartialEq, Eq)]
pub struct SubAck {
    /// The Packet Identifier.
    pub packet_id: u16,
    /// One return code for each Topic Filter of the SUBSCRIBE.
    pub return_codes: Vec<SubscribeReturnCode>,
}

/// The numbers of the return codes.
pub open spec fn spec_return_code_bytes(codes: Seq<SubscribeReturnCode>) -> Seq<u8> {
    codes.map_values(|c: SubscribeReturnCode| c.spec_as_u8())
}

/// The return codes that the bytes stand for, or `None` when one stands for
/// none.
pub open spec fn spec_return_codes(bytes: Seq<u8>) -> Option<Seq<SubscribeReturnCode>> {
    if forall|i: int| 0 <= i < bytes.len() ==> (#[trigger] SubscribeReturnCode::spec_from_u8(bytes[i])) is Some {
        Some(bytes.map_values(|b: u8| SubscribeReturnCode::spec_from_u8(b)->Some_0))
    } else {
        None
    }
}

/// The wire form of a SUBACK.
pub open spec fn spec_suback_wire(packet_id: u16, codes: Seq<SubscribeReturnCode>) -> Seq<u8> {
    spec_fixed_header(0x90, 2 + codes.len()) + spec_be16(packet_id) + spec_return_code_bytes(codes)
}

/// What writing a SUBACK into a buffer of `buf_len` bytes returns: a Packet
/// Identifier of 0, no return code, too many return codes or too small a
/// buffer fail.
pub open spec fn spec_suback_result(packet_id: u16, codes: Seq<SubscribeReturnCode>, buf_len: nat) -> Result<usize, EncodeError> {
    if packet_id == 0 {
        Err(EncodeError::InvalidField { reason: EncodeInvalidField::ZeroPacketId })
    } else if codes.len() == 0 {
        Err(EncodeError::InvalidField { reason: EncodeInvalidField::EmptyReturnCodes })
    } else {
        match spec_fixed_header_check((2 + codes.len()) as usize, buf_len) {
            Err(e) => Err(e),
            Ok(()) => Ok(spec_suback_wire(packet_id, codes).len() as usize),
        }
    }
}

/// The result of decoding a SUBACK from the start of `s`: the Packet
/// Identifier, the return codes and the bytes consumed.
pub open spec fn spec_suback_decode(s: Seq<u8>) -> Result<(u16, Seq<SubscribeReturnCode>, nat), DecodeError> {
    match spec_fixed_header_decode(s, 0x90, 0x00) {
        Err(e) => Err(e),
        Ok((rem, h)) => if rem < 2 || spec_read_be16(s, h as int) == 0 {
            Err(DecodeError::MalformedPacket)
        } else {
            match spec_return_codes(s.subrange(h + 2 as int, h + rem as int)) {
                None => Err(DecodeError::MalformedPacket),
                Some(codes) => if codes.len() == 0 {
                    Err(DecodeError::MalformedPacket)
                } else {
                    Ok((spec_read_be16(s, h as int), codes, h + rem))
                },
            }
        },
    }
}

impl SubAck {
    /// Returns the remaining length of the encoded packet.
    pub fn encoded_len(&self) -> (r: usize)
        requires
            self.return_codes@.len() <= usize::MAX - 2,
        ensures
            r == 2 + self.return_codes@.len(),
    {
        2 + self.return_codes.len()
    }

    /// Encodes the packet into `buf` and returns the number of bytes written.
    pub fn encode(&self, buf: &mut [u8]) -> (r: Result<usize, EncodeError>)
        requires
            self.return_codes@.len() <= usize::MAX - 2,
        ensures
            final(buf)@.len() == old(buf)@.len(),
            r == spec_suback_result(self.packet_id, self.return_codes@, old(buf)@.len()),
            r is Ok ==> final(buf)@ == spec_splice(old(buf)@, 0, spec_suback_wire(self.packet_id, self.return_codes@)),
            r is Err ==> final(buf)@ == old(buf)@,
    {
        if self.packet_id == 0 {
            return Err(EncodeError::InvalidField { reason: EncodeInvalidField::ZeroPacketId });
        }
        if self.return_codes.len() == 0 {
            return Err(EncodeError::InvalidField { reason: EncodeInvalidField::EmptyReturnCodes });
        }
        let remaining_len = self.encoded_len();
        let offset = match encode_fixed_header(buf, 0x90, 0x00, remaining_len) {
            Err(e) => {
                return Err(e);
            },
            Ok(n) => n,
        };
        proof {
            assert((0x90u8 | 0x00u8) == 0x90u8) by (bit_vector);
            lemma_vbi_encode_len(remaining_len as nat);
        }
        let ghost header = spec_fixed_header(0x90, remaining_len as nat);
        write_be16_at(buf, offset, self.packet_id);
        proof {
            lemma_splice_append(old(buf)@, 0, header, spec_be16(self.packet_id));
        }
        let ghost prefix = header + spec_be16(self.packet_id);
        let ghost after_id = buf@;
        let start = offset + 2;
        let buf_len = buf.len();
        let mut i: usize = 0;
        while i < self.return_codes.len()
            invariant
                i <= self.return_codes@.len(),
                start == prefix.len(),
                buf_len == buf@.len(),
                buf@.len() == old(buf)@.len(),
                start + self.return_codes@.len() <= buf@.len(),
                after_id == spec_splice(old(buf)@, 0, prefix),
                buf@ == spec_splice(after_id, start as int, spec_return_code_bytes(self.return_codes@.take(i as int))),
            decreases self.return_codes@.len() - i,
        {
            buf[start + i] = self.return_codes[i].as_u8();
            proof {
                assert(spec_return_code_bytes(self.return_codes@.take(i + 1)) =~= spec_return_code_bytes(self.return_codes@.take(i as int)).push(self.return_codes@[i as int].spec_as_u8()));
                assert(buf@ =~= spec_splice(after_id, start as int, spec_return_code_bytes(self.return_codes@.take(i + 1))));
            }
            i = i + 1;
        }
        proof {
            assert(self.return_codes@.take(i as int) =~= self.return_codes@);
            lemma_splice_append(old(buf)@, 0, prefix, spec_return_code_bytes(self.return_codes@));
        }
        Ok(start + i)
    }

    /// Decodes a SUBACK from the start of `buf` and returns it with the number
    /// of bytes consumed.
    #[verifier::loop_isolation(false)]
    pub fn decode(buf: &[u8]) -> (r: Result<(Self, usize), DecodeError>)
        ensures
            match r {
                Ok((p, n)) => spec_suback_decode(buf@) == Ok::<(u16, Seq<SubscribeReturnCode>, nat), DecodeError>(
                    (p.packet_id, p.return_codes@, n as nat),
                ),
                Err(e) => spec_suback_decode(buf@) == Err::<(u16, Seq<SubscribeReturnCode>, nat), DecodeError>(e),
            },
    {
        let (remaining_len, header_len, end) = match decode_fixed_header(buf, 0x90, 0x00) {
            Err(e) => {
                return Err(e);
            },
            Ok(x) => x,
        };
        if remaining_len < 2 {
            return Err(DecodeError::MalformedPacket);
        }
        let packet_id = read_be16_at(buf, header_len);
        if packet_id == 0 {
            return Err(DecodeError::MalformedPacket);
        }
        let start = header_len + 2;
        let ghost bytes = buf@.subrange(start as int, end as int);
        let mut return_codes: Vec<SubscribeReturnCode> = Vec::new();
        let mut offset = start;
        while offset < end
            invariant
                start <= offset <= end <= buf@.len(),
                bytes == buf@.subrange(start as int, end as int),
                forall|i: int| 0 <= i < offset - start ==> (#[trigger] SubscribeReturnCode::spec_from_u8(bytes[i])) is Some,
                return_codes@ == bytes.take(offset - start).map_values(|b: u8| SubscribeReturnCode::spec_from_u8(b)->Some_0),
            decreases end - offset,
        {
            let code = match SubscribeReturnCode::from_u8(buf[offset]) {
                None => {
                    proof {
                        assert(SubscribeReturnCode::spec_from_u8(bytes[offset - start]) is None);
                    }
                    return Err(DecodeError::MalformedPacket);
                },
                Some(c) => c,
            };
            return_codes.push(code);
            proof {
                assert(return_codes@ =~= bytes.take(offset + 1 - start).map_values(|b: u8| SubscribeReturnCode::spec_from_u8(b)->Some_0));
            }
            offset = offset + 1;
        }
        proof {
            assert(bytes.take(offset - start) =~= bytes);
            assert(spec_return_codes(bytes) == Some(return_codes@));
        }
        if return_codes.len() == 0 {
            return Err(DecodeError::MalformedPacket);
        }
        Ok((Self { packet_id, return_codes }, end))
    }
}

/// Decoding the wire form of a SUBACK that can be written (a Packet Identifier
/// other than 0 and at least one return code), followed by any bytes, gives it
/// back and consumes exactly the wire form.
#[verifier::spinoff_prover]
pub proof fn lemma_suback_roundtrip(p: SubAck, rest: Seq<u8>)
    requires
        p.packet_id != 0,
        p.return_codes@.len() > 0,
        2 + p.return_codes@.len() <= VBI_MAX,
    ensures
        spec_suback_decode(spec_suback_wire(p.packet_id, p.return_codes@) + rest) == Ok::<
            (u16, Seq<SubscribeReturnCode>, nat),
            DecodeError,
        >((p.packet_id, p.return_codes@, spec_suback_wire(p.packet_id, p.return_codes@).len())),
{
    let codes = p.return_codes@;
    let rem = 2 + codes.len();
    let bytes = spec_return_code_bytes(codes);
    let body = spec_be16(p.packet_id) + bytes;
    let header = spec_fixed_header(0x90, rem);
    let s = spec_suback_wire(p.packet_id, codes) + rest;
    assert((0x90u8 | 0x00u8) == 0x90u8 && (0x90u8 | 0x00u8) & 0xF0 == 0x90u8 && (0x90u8 | 0x00u8) & 0x0F == 0x00u8)
        by (bit_vector);
    assert(s =~= header + (body + rest));
    lemma_fixed_header_roundtrip(0x90, 0x00, rem, body + rest);
    let h = header.len() as int;
    crate::codec::wire::lemma_be16_roundtrip(p.packet_id);
    assert(s[h] == spec_be16(p.packet_id)[0] && s[h + 1] == spec_be16(p.packet_id)[1]);
    assert(s.subrange(h + 2, h + rem) =~= bytes);
    assert forall|i: int| 0 <= i < bytes.len() implies (#[trigger] SubscribeReturnCode::spec_from_u8(
        bytes[i],
    )) is Some by {
        lemma_subscribe_return_code_roundtrip(codes[i]);
    }
    let back = bytes.map_values(|b: u8| SubscribeReturnCode::spec_from_u8(b)->Some_0);
    assert forall|i: int| 0 <= i < codes.len() implies #[trigger] back[i] == codes[i] by {
        lemma_subscribe_return_code_roundtrip(codes[i]);
    }
    assert(back =~= codes);
}

} // verus!
