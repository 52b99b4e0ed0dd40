//! The framing shared by the MQTT v3.1.1 packets without content and the
//! acknowledgements that carry only a Packet Identifier.

use vstd::prelude::*;

use crate::codec::variable_byte_integer::{
    lemma_vbi_decode_canonical, spec_vbi_decode, VariableByteInteger,
};
use crate::codec::wire::{lemma_splice_append, read_be16_at, spec_be16, spec_read_be16, spec_splice, write_be16_at};
use crate::error::{DecodeError, EncodeError, EncodeInvalidField};
use crate::v5::ack_helper::{decode_fixed_header, encode_fixed_header, spec_fixed_header, spec_fixed_header_decode};

verus! {

/// Writes a packet without content: its first byte, then a remaining length
/// of 0.
pub(crate) fn encode_empty(buf: &mut [u8], packet_type: u8, flags: u8) -> (r: Result<usize, EncodeError>)
    ensures
        final(buf)@.len() == old(buf)@.len(),
        old(buf)@.len() < 2 ==> r == Err::<usize, EncodeError>(EncodeError::BufferTooSmall)
            && final(buf)@ == old(buf)@,
        old(buf)@.len() >= 2 ==> r == Ok::<usize, EncodeError>(2) && final(buf)@ == spec_splice(
            old(buf)@,
            0,
            seq![packet_type | flags, 0u8],
        ),
{
    let r = encode_fixed_header(buf, packet_type, flags, 0);
    proof {
        reveal_with_fuel(crate::codec::variable_byte_integer::spec_vbi_encode, 2);
        assert(spec_fixed_header(packet_type | flags, 0) =~= seq![packet_type | flags, 0u8]);
    }
    r
}

/// The result of decoding a packet without content: the bytes consumed. A
/// remaining length other than 0 is malformed.
pub open spec fn spec_empty_decode(s: Seq<u8>, packet_type: u8, flags: u8) -> Result<nat, DecodeError> {
    if s.len() == 0 {
        Err(DecodeError::InsufficientData)
    } else if s[0] & 0xF0 != packet_type {
        Err(DecodeError::InvalidPacketType)
    } else if s[0] & 0x0F != flags {
        Err(DecodeError::InvalidPacketFlags)
    } else {
        match spec_vbi_decode(s.skip(1)) {
            Err(e) => Err(e),
            Ok((len, n)) => if len != 0 {
                Err(DecodeError::MalformedPacket)
            } else {
                Ok(1 + n)
            },
        }
    }
}

/// Decodes a packet without content and returns the bytes consumed.
pub(crate) fn decode_empty(buf: &[u8], packet_type: u8, flags: u8) -> (r: Result<usize, DecodeError>)
    ensures
        match r {
            Ok(n) => spec_empty_decode(buf@, packet_type, flags) == Ok::<nat, DecodeError>(n as nat),
            Err(e) => spec_empty_decode(buf@, packet_type, flags) == Err::<nat, DecodeError>(e),
        },
{
    if buf.len() == 0 {
        return Err(DecodeError::InsufficientData);
    }
    if buf[0] & 0xF0 != packet_type {
        return Err(DecodeError::InvalidPacketType);
    }
    if buf[0] & 0x0F != flags {
        return Err(DecodeError::InvalidPacketFlags);
    }
    proof {
        assert(buf@.subrange(1, buf@.len() as int) =~= buf@.skip(1));
    }
    let (remaining_len, vbi_len) = match VariableByteInteger::decode(&buf[1..buf.len()]) {
        Err(e) => {
            return Err(e);
        },
        Ok(x) => x,
    };
    proof {
        lemma_vbi_decode_canonical(buf@.skip(1));
    }
    if remaining_len.0 != 0 {
        return Err(DecodeError::MalformedPacket);
    }
    Ok(1 + vbi_len)
}

/// The wire form of an acknowledgement that carries only a Packet
/// Identifier.
pub open spec fn spec_simple_ack_wire(first: u8, packet_id: u16) -> Seq<u8> {
    seq![first, 2u8] + spec_be16(packet_id)
}

/// Writes an acknowledgement that carries only a Packet Identifier, which must
/// not be 0 (MQTT v3.1.1 §2.3.1).
pub(crate) fn encode_simple_ack(buf: &mut [u8], packet_type: u8, flags: u8, packet_id: u16) -> (r: Result<usize, EncodeError>)
    ensures
        final(buf)@.len() == old(buf)@.len(),
        packet_id == 0 ==> r == Err::<usize, EncodeError>(
            EncodeError::InvalidField { reason: EncodeInvalidField::ZeroPacketId },
        ) && final(buf)@ == old(buf)@,
        packet_id != 0 && old(buf)@.len() < 4 ==> r == Err::<usize, EncodeError>(
            EncodeError::BufferTooSmall,
        ) && final(buf)@ == old(buf)@,
        packet_id != 0 && old(buf)@.len() >= 4 ==> r == Ok::<usize, EncodeError>(4)
            && final(buf)@ == spec_splice(old(buf)@, 0, spec_simple_ack_wire(packet_type | flags, packet_id)),
{
    if packet_id == 0 {
        return Err(EncodeError::InvalidField { reason: EncodeInvalidField::ZeroPacketId });
    }
    let offset = match encode_fixed_header(buf, packet_type, flags, 2) {
        Err(e) => {
            return Err(e);
        },
        Ok(n) => n,
    };
    proof {
        reveal_with_fuel(crate::codec::variable_byte_integer::spec_vbi_encode, 2);
        assert(spec_fixed_header(packet_type | flags, 2) =~= seq![packet_type | flags, 2u8]);
    }
    write_be16_at(buf, offset, packet_id);
    proof {
        lemma_splice_append(old(buf)@, 0, seq![packet_type | flags, 2u8], spec_be16(packet_id));
    }
    Ok(offset + 2)
}

/// The result of decoding an acknowledgement that carries only a Packet
/// Identifier: the identifier and the bytes consumed. A remaining length other
/// than 2, or an identifier of 0, is malformed.
pub open spec fn spec_simple_ack_decode(s: Seq<u8>, packet_type: u8, flags: u8) -> Result<(u16, nat), DecodeError> {
    match spec_fixed_header_decode(s, packet_type, flags) {
        Err(e) => Err(e),
        Ok((rem, h)) => if rem < 2 || spec_read_be16(s, h as int) == 0 || rem != 2 {
            Err(DecodeError::MalformedPacket)
        } else {
            Ok((spec_read_be16(s, h as int), h + 2))
        },
    }
}

/// Decodes an acknowledgement that carries only a Packet Identifier and returns
/// the identifier and the bytes consumed.
pub(crate) fn decode_simple_ack(buf: &[u8], packet_type: u8, flags: u8) -> (r: Result<(u16, usize), DecodeError>)
    ensures
        match r {
            Ok((id, n)) => spec_simple_ack_decode(buf@, packet_type, flags) == Ok::<(u16, nat), DecodeError>((id, n as nat)),
            Err(e) => spec_simple_ack_decode(buf@, packet_type, flags) == Err::<(u16, nat), DecodeError>(e),
        },
{
    let (remaining_len, header_len, end) = match decode_fixed_header(buf, packet_type, flags) {
        Err(e) => {
            return Err(e);
        },
        Ok(x) => x,
    };
    if remaining_len < 2 {
        return Err(DecodeError::MalformedPacket);
    }
    let packet_id = read_be16_at(buf, header_len);
    if packet_id == 0 {
        return Err(DecodeError::MalformedPacket);
    }
    if remaining_len != 2 {
        return Err(DecodeError::MalformedPacket);
    }
    Ok((packet_id, header_len + 2))
}

} // verus!
