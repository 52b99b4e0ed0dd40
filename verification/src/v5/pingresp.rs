//! MQTT v5.0 PINGRESP packets (MQTT v5.0 §3.13).

use vstd::prelude::*;

use crate::codec::wire::spec_splice;
use crate::error::{DecodeError, EncodeError};
use crate::v5::ack_helper::{decode_empty, encode_empty, spec_empty_decode};

verus! {

/// An MQTT v5.0 PINGRESP packet, which has no content.
#[derive(Debug, Clone, Copy, PartialEq, Eq, Structural)]
pub struct PingResp;

impl PingResp {
    /// Returns the remaining length of the encoded packet, which is 0.
    pub fn encoded_len(&self) -> (r: usize)
        ensures
            r == 0,
    {
        0
    }

    /// Encodes the packet, the bytes 0xD0 0x00, into `buf` and returns the
    /// number of bytes written.
    pub fn encode(&self, buf: &mut [u8]) -> (r: Result<usize, EncodeError>)
        ensures
            final(buf)@.len() == old(buf)@.len(),
            old(buf)@.len() < 2 ==> r == Err::<usize, EncodeError>(EncodeError::BufferTooSmall)
                && final(buf)@ == old(buf)@,
            old(buf)@.len() >= 2 ==> r == Ok::<usize, EncodeError>(2) && final(buf)@ == spec_splice(
                old(buf)@,
                0,
                seq![0xD0u8, 0x00u8],
            ),
    {
        let r = encode_empty(buf, 0xD0, 0x00);
        proof {
            assert((0xD0u8 | 0x00u8) == 0xD0u8) by (bit_vector);
        }
        r
    }

    /// Decodes a PINGRESP from the start of `buf` and returns it with the
    /// number of bytes consumed.
    pub fn decode(buf: &[u8]) -> (r: Result<(Self, usize), DecodeError>)
        ensures
            match r {
                Ok((_, n)) => spec_empty_decode(buf@, 0xD0, 0x00) == Ok::<nat, DecodeError>(n as nat),
                Err(e) => spec_empty_decode(buf@, 0xD0, 0x00) == Err::<nat, DecodeError>(e),
            },
    {
        match decode_empty(buf, 0xD0, 0x00) {
            Err(e) => Err(e),
            Ok(n) => Ok((PingResp, n)),
        }
    }
}

/// Decoding the wire form of a PINGRESP, followed by any bytes, consumes
/// exactly its two bytes.
#[verifier::spinoff_prover]
pub proof fn lemma_pingresp_roundtrip(rest: Seq<u8>)
    ensures
        spec_empty_decode(seq![0xD0u8, 0x00u8] + rest, 0xD0, 0x00) == Ok::<nat, DecodeError>(2),
{
    let s = seq![0xD0u8, 0x00u8] + rest;
    assert(0xD0u8 & 0xF0 == 0xD0u8 && 0xD0u8 & 0x0F == 0x00u8) by (bit_vector);
    assert(crate::codec::variable_byte_integer::spec_vbi_encode(0) =~= seq![0u8]);
    assert(s.skip(1) =~= crate::codec::variable_byte_integer::spec_vbi_encode(0) + rest);
    crate::codec::variable_byte_integer::lemma_vbi_roundtrip(0, rest);
}

} // verus!
