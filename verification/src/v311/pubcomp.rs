//! MQTT v3.1.1 PUBCOMP packets (MQTT v3.1.1 §3.7).

use vstd::prelude::*;

use crate::codec::wire::spec_splice;
use crate::error::{DecodeError, EncodeError, EncodeInvalidField};
use crate::v311::ack_helper::{decode_simple_ack, encode_simple_ack, spec_simple_ack_decode, spec_simple_ack_wire};

verus! {

/// An MQTT v3.1.1 PUBCOMP packet.
#[derive(Debug, Clone, Copy, PartialEq, Eq, Structural)]
pub struct PubComp {
    /// The Packet Identifier.
    pub packet_id: u16,
}

impl PubComp {
    /// Returns the remaining length of the encoded packet, which is 2.
    pub fn encoded_len(&self) -> (r: usize)
        ensures
            r == 2,
    {
        2
    }

    /// Encodes the packet into `buf` and returns the number of bytes written.
    pub fn encode(&self, buf: &mut [u8]) -> (r: Result<usize, EncodeError>)
        ensures
            final(buf)@.len() == old(buf)@.len(),
            self.packet_id == 0 ==> r == Err::<usize, EncodeError>(
                EncodeError::InvalidField { reason: EncodeInvalidField::ZeroPacketId },
            ) && final(buf)@ == old(buf)@,
            self.packet_id != 0 && old(buf)@.len() < 4 ==> r == Err::<usize, EncodeError>(
                EncodeError::BufferTooSmall,
            ) && final(buf)@ == old(buf)@,
            self.packet_id != 0 && old(buf)@.len() >= 4 ==> r == Ok::<usize, EncodeError>(4)
                && final(buf)@ == spec_splice(old(buf)@, 0, spec_simple_ack_wire(0x70, self.packet_id)),
    {
        let r = encode_simple_ack(buf, 0x70, 0x00, self.packet_id);
        proof {
            assert((0x70u8 | 0x00u8) == 0x70u8) by (bit_vector);
        }
        r
    }

    /// Decodes a PUBCOMP from the start of `buf` and returns it with the number
    /// of bytes consumed.
    pub fn decode(buf: &[u8]) -> (r: Result<(Self, usize), DecodeError>)
        ensures
            match r {
                Ok((p, n)) => spec_simple_ack_decode(buf@, 0x70, 0x00) == Ok::<(u16, nat), DecodeError>((p.packet_id, n as nat)),
                Err(e) => spec_simple_ack_decode(buf@, 0x70, 0x00) == Err::<(u16, nat), DecodeError>(e),
            },
    {
        match decode_simple_ack(buf, 0x70, 0x00) {
            Err(e) => Err(e),
            Ok((packet_id, n)) => Ok((PubComp { packet_id }, n)),
        }
    }
}

/// Decoding the wire form of a PUBCOMP whose Packet Identifier is not 0,
/// followed by any bytes, gives the Packet Identifier back and consumes exactly
/// the four bytes.
#[verifier::spinoff_prover]
pub proof fn lemma_pubcomp_roundtrip(p: PubComp, rest: Seq<u8>)
    requires
        p.packet_id != 0,
    ensures
        spec_simple_ack_decode(spec_simple_ack_wire(0x70, p.packet_id) + rest, 0x70, 0x00) == Ok::<
            (u16, nat),
            DecodeError,
        >((p.packet_id, 4)),
{
    let s = spec_simple_ack_wire(0x70, p.packet_id) + rest;
    assert(0x70u8 & 0xF0 == 0x70u8 && 0x70u8 & 0x0F == 0x00u8) by (bit_vector);
    assert(crate::codec::variable_byte_integer::spec_vbi_encode(2) =~= seq![2u8]);
    assert(s.skip(1) =~= crate::codec::variable_byte_integer::spec_vbi_encode(2) + s.skip(2));
    crate::codec::variable_byte_integer::lemma_vbi_roundtrip(2, s.skip(2));
    crate::codec::wire::lemma_be16_roundtrip(p.packet_id);
    assert(s[2] == crate::codec::wire::spec_be16(p.packet_id)[0]);
    assert(s[3] == crate::codec::wire::spec_be16(p.packet_id)[1]);
}

} // verus!
