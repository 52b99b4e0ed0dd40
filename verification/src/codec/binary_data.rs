//! Encoding and decoding of MQTT Binary Data (MQTT v5.0 §1.5.6).

use vstd::prelude::*;

use crate::codec::wire::{
    copy_range, lemma_splice_append, read_be16_at, spec_be16, spec_read_be16, spec_splice,
    write_be16_at, write_bytes_at,
};
use crate::error::{DecodeError, EncodeError};

verus! {

/// The wire form of binary data: a two-byte big-endian length, then the bytes.
pub open spec fn spec_binary_wire(d: Seq<u8>) -> Seq<u8> {
    spec_be16(d.len() as u16) + d
}

/// The result of decoding binary data from the start of `s`: the bytes and the
/// number of bytes consumed.
pub open spec fn spec_binary_decode(s: Seq<u8>) -> Result<(Seq<u8>, nat), DecodeError> {
    if s.len() < 2 {
        Err(DecodeError::InsufficientData)
    } else {
        let len = spec_read_be16(s, 0) as nat;
        if s.len() < 2 + len {
            Err(DecodeError::InsufficientData)
        } else {
            Ok((s.subrange(2, 2 + len as int), 2 + len))
        }
    }
}

/// Decoding the wire form of `d`, followed by anything, gives back `d`.
#[verifier::spinoff_prover]
pub proof fn lemma_binary_roundtrip(d: Seq<u8>, rest: Seq<u8>)
    requires
        d.len() <= 65535,
    ensures
        spec_binary_decode(spec_binary_wire(d) + rest) == Ok::<(Seq<u8>, nat), DecodeError>(
            (d, 2 + d.len()),
        ),
{
    let s = spec_binary_wire(d) + rest;
    assert(spec_read_be16(s, 0) == d.len() as u16);
    assert(s.subrange(2, 2 + d.len() as int) =~= d);
}

/// Writes the wire form of `value` at `pos`.
pub fn encode_binary_at(value: &[u8], buf: &mut [u8], pos: usize) -> (n: usize)
    requires
        value@.len() <= 65535,
        pos + 2 + value@.len() <= old(buf)@.len(),
    ensures
        n == 2 + value@.len(),
        final(buf)@ == spec_splice(old(buf)@, pos as int, spec_binary_wire(value@)),
{
    let len = value.len();
    write_be16_at(buf, pos, len as u16);
    let buf_len = buf.len();
    assert(pos + 2 <= buf_len);
    write_bytes_at(buf, pos + 2, value);
    proof {
        lemma_splice_append(old(buf)@, pos as int, spec_be16(len as u16), value@);
    }
    2 + len
}

/// The error, if any, of writing binary data: more than 65535 bytes.
pub open spec fn spec_binary_error(d: Seq<u8>) -> Option<EncodeError> {
    if d.len() > 65535 {
        Some(EncodeError::PacketTooLarge { size: d.len() as usize, limit: 65535 })
    } else {
        None
    }
}

/// Writes `value` as Binary Data at `pos`, after checking its length.
pub fn encode_binary_checked_at(value: &[u8], buf: &mut [u8], pos: usize) -> (r: Result<usize, EncodeError>)
    requires
        pos <= old(buf)@.len(),
        value@.len() <= 65535 ==> pos + 2 + value@.len() <= old(buf)@.len(),
    ensures
        final(buf)@.len() == old(buf)@.len(),
        spec_binary_error(value@) matches Some(e) ==> r == Err::<usize, EncodeError>(e) && final(buf)@ == old(buf)@,
        spec_binary_error(value@) is None ==> r == Ok::<usize, EncodeError>((2 + value@.len()) as usize)
            && final(buf)@ == spec_splice(old(buf)@, pos as int, spec_binary_wire(value@)),
{
    if value.len() > 65535 {
        return Err(EncodeError::PacketTooLarge { size: value.len(), limit: 65535 });
    }
    let n = encode_binary_at(value, buf, pos);
    proof {
        crate::codec::wire::lemma_splice_len(old(buf)@, pos as int, spec_binary_wire(value@));
    }
    Ok(n)
}

/// Binary data preceded by a two-byte big-endian length.
#[derive(Debug, Clone, PartialEq, Eq, Hash)]
pub struct BinaryData(pub Vec<u8>);

impl BinaryData {
    /// Encodes the data into `buf` and returns the number of bytes written.
    pub fn encode(&self, buf: &mut [u8]) -> (r: Result<usize, EncodeError>)
        ensures
            (self.0)@.len() > 65535 ==> r == Err::<usize, EncodeError>(
                EncodeError::PacketTooLarge { size: (self.0)@.len() as usize, limit: 65535 },
            ) && final(buf)@ == old(buf)@,
            (self.0)@.len() <= 65535 && old(buf)@.len() < 2 + (self.0)@.len() ==> r == Err::<
                usize,
                EncodeError,
            >(EncodeError::BufferTooSmall) && final(buf)@ == old(buf)@,
            (self.0)@.len() <= 65535 && old(buf)@.len() >= 2 + (self.0)@.len() ==> r == Ok::<
                usize,
                EncodeError,
            >((2 + (self.0)@.len()) as usize) && final(buf)@ == spec_splice(
                old(buf)@,
                0,
                spec_binary_wire((self.0)@),
            ),
    {
        Self::encode_slice(self.0.as_slice(), buf)
    }

    /// Encodes a byte slice into `buf` and returns the number of bytes written.
    ///
    /// Validation and format are those of [`encode`](Self::encode).
    pub fn encode_slice(value: &[u8], buf: &mut [u8]) -> (r: Result<usize, EncodeError>)
        ensures
            value@.len() > 65535 ==> r == Err::<usize, EncodeError>(
                EncodeError::PacketTooLarge { size: value@.len() as usize, limit: 65535 },
            ) && final(buf)@ == old(buf)@,
            value@.len() <= 65535 && old(buf)@.len() < 2 + value@.len() ==> r == Err::<
                usize,
                EncodeError,
            >(EncodeError::BufferTooSmall) && final(buf)@ == old(buf)@,
            value@.len() <= 65535 && old(buf)@.len() >= 2 + value@.len() ==> r == Ok::<
                usize,
                EncodeError,
            >((2 + value@.len()) as usize) && final(buf)@ == spec_splice(
                old(buf)@,
                0,
                spec_binary_wire(value@),
            ),
    {
        let len = value.len();
        if len > 65535 {
            return Err(EncodeError::PacketTooLarge { size: len, limit: 65535 });
        }
        if buf.len() < 2 + len {
            return Err(EncodeError::BufferTooSmall);
        }
        Ok(encode_binary_at(value, buf, 0))
    }

    /// Decodes binary data from `buf`.
    ///
    /// Returns the data and the number of bytes consumed.
    pub fn decode(buf: &[u8]) -> (r: Result<(Self, usize), DecodeError>)
        ensures
            r matches Ok((d, n)) ==> spec_binary_decode(buf@) == Ok::<
                (Seq<u8>, nat),
                DecodeError,
            >(((d.0)@, n as nat)),
            r matches Err(e) ==> spec_binary_decode(buf@) == Err::<(Seq<u8>, nat), DecodeError>(e),
    {
        if buf.len() < 2 {
            return Err(DecodeError::InsufficientData);
        }
        let len = read_be16_at(buf, 0) as usize;
        if buf.len() < 2 + len {
            return Err(DecodeError::InsufficientData);
        }
        let data = copy_range(buf, 2, 2 + len);
        Ok((Self(data), 2 + len))
    }
}

} // verus!
