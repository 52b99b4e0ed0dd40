//! MQTT v3.1.1 DISCONNECT packets (MQTT v3.1.1 §3.14).

use vstd::prelude::*;

use crate::codec::wire::spec_splice;
use crate::error::{DecodeError, EncodeError};
use crate::v311::ack_helper::{decode_empty, encode_empty, spec_empty_decode};

verus! {

/// An MQTT v3.1.1 DISCONNECT packet, which has no content.
#[derive(Debug, Clone, Copy, PartialEq, Eq, Structural)]
pub struct Disconnect;

impl Disconnect {
    /// Returns the remaining length of the encoded packet, which is 0.
    pub fn encoded_len(&self) -> (r: usize)
        ensures
            r == 0,
    {
        0
    }

    /// Encodes the packet, the bytes 0xE0 0x00, into `buf` and returns the
    /// number of bytes written.
    pub fn encode(&self, buf: &mut [u8]) -> (r: Result<usize, EncodeError>)
        ensures
            final(buf)@.len() == old(buf)@.len(),
            old(buf)@.len() < 2 ==> r == Err::<usize, EncodeError>(EncodeError::BufferTooSmall)
                && final(buf)@ == old(buf)@,
            old(buf)@.len() >= 2 ==> r == Ok::<usize, EncodeError>(2) && final(buf)@ == spec_splice(
                old(buf)@,
                0,
                seq![0xE0u8, 0x00u8],
            ),
    {
        let r = encode_empty(buf, 0xE0, 0x00);
        proof {
            assert((0xE0u8 | 0x00u8) == 0xE0u8) by (bit_vector);
        }
        r
    }

    /// Decodes a DISCONNECT from the start of `buf` and returns it with the
    /// number of bytes consumed.
    pub fn decode(buf: &[u8]) -> (r: Result<(Self, usize), DecodeError>)
        ensures
            match r {
                Ok((_, n)) => spec_empty_decode(buf@, 0xE0, 0x00) == Ok::<nat, DecodeError>(n as nat),
                Err(e) => spec_empty_decode(buf@, 0xE0, 0x00) == Err::<nat, DecodeError>(e),
            },
    {
        match decode_empty(buf, 0xE0, 0x00) {
            Err(e) => Err(e),
            Ok(n) => Ok((Disconnect, n)),
        }
    }
}

/// Decoding the wire form of a DISCONNECT, followed by any bytes, consumes
/// exactly its two bytes.
#[verifier::spinoff_prover]
pub proof fn lemma_disconnect_roundtrip(rest: Seq<u8>)
    ensures
        spec_empty_decode(seq![0xE0u8, 0x00u8] + rest, 0xE0, 0x00) == Ok::<nat, DecodeError>(2),
{
    let s = seq![0xE0u8, 0x00u8] + rest;
    assert(0xE0u8 & 0xF0 == 0xE0u8 && 0xE0u8 & 0x0F == 0x00u8) by (bit_vector);
    assert(crate::codec::variable_byte_integer::spec_vbi_encode(0) =~= seq![0u8]);
    assert(s.skip(1) =~= crate::codec::variable_byte_integer::spec_vbi_encode(0) + rest);
    crate::codec::variable_byte_integer::lemma_vbi_roundtrip(0, rest);
}

} // verus!
