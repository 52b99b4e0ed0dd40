//! Encoding and decoding of MQTT UTF-8 Encoded Strings (MQTT v5.0 §1.5.4,
//! MQTT v3.1.1 §1.5.3).

use vstd::prelude::*;
use vstd::utf8::{decode_utf8, encode_utf8, valid_utf8};

use crate::codec::wire::{
    bytes_contain, copy_range, lemma_splice_append, range_contains, read_be16_at, spec_be16,
    spec_read_be16, spec_splice, string_from_utf8, write_be16_at, write_bytes_at,
};
use crate::error::{spec_encode_outcome, DecodeError, EncodeError, EncodeInvalidField};

verus! {

/// The UTF-8 bytes of a string.
pub open spec fn spec_utf8(s: Seq<char>) -> Seq<u8> {
    encode_utf8(s)
}

/// The wire form of a string: a two-byte big-endian length, then its UTF-8 bytes.
pub open spec fn spec_str_wire(s: Seq<char>) -> Seq<u8> {
    spec_be16(spec_utf8(s).len() as u16) + spec_utf8(s)
}

/// Whether a string can be written as an MQTT UTF-8 Encoded String: it holds no
/// U+0000 (no zero byte in its UTF-8 form) and its UTF-8 form fits a 16-bit length.
pub open spec fn spec_str_encodable(s: Seq<char>) -> bool {
    !spec_utf8(s).contains(0u8) && spec_utf8(s).len() <= 65535
}

/// What encoding a standalone string produces: its wire form, or the error that
/// stops it (a U+0000 first, then a UTF-8 form longer than 65535 bytes).
pub open spec fn spec_str_encoding(s: Seq<char>) -> Result<Seq<u8>, EncodeError> {
    if spec_utf8(s).contains(0u8) {
        Err(EncodeError::InvalidField { reason: EncodeInvalidField::NullInUtf8String })
    } else if spec_utf8(s).len() > 65535 {
        Err(EncodeError::PacketTooLarge { size: spec_utf8(s).len() as usize, limit: 65535 })
    } else {
        Ok(spec_str_wire(s))
    }
}

/// The result of decoding an MQTT UTF-8 Encoded String from the start of `s`: the
/// characters and the number of bytes consumed.
///
/// Bytes that are not UTF-8 are rejected as `InvalidUtf8`; a string holding
/// U+0000 (MQTT v5.0 §1.5.4 [MQTT-1.5.4-2]) is malformed.
pub open spec fn spec_str_decode(s: Seq<u8>) -> Result<(Seq<char>, nat), DecodeError> {
    if s.len() < 2 {
        Err(DecodeError::InsufficientData)
    } else {
        let len = spec_read_be16(s, 0) as nat;
        if s.len() < 2 + len {
            Err(DecodeError::InsufficientData)
        } else {
            let b = s.subrange(2, 2 + len as int);
            if !valid_utf8(b) {
                Err(DecodeError::InvalidUtf8)
            } else if b.contains(0u8) {
                Err(DecodeError::MalformedPacket)
            } else {
                Ok((decode_utf8(b), 2 + len))
            }
        }
    }
}

/// Decoding the wire form of an encodable string, followed by anything, gives
/// back the string.
#[verifier::spinoff_prover]
pub proof fn lemma_str_roundtrip(c: Seq<char>, rest: Seq<u8>)
    requires
        spec_str_encodable(c),
    ensures
        spec_str_decode(spec_str_wire(c) + rest) == Ok::<(Seq<char>, nat), DecodeError>(
            (c, 2 + spec_utf8(c).len()),
        ),
{
    let b = spec_utf8(c);
    let s = spec_str_wire(c) + rest;
    assert(spec_read_be16(s, 0) == b.len() as u16);
    assert(s.subrange(2, 2 + b.len() as int) =~= b);
    vstd::utf8::encode_utf8_valid_utf8(c);
    vstd::utf8::encode_utf8_decode_utf8(c);
}

/// A decoded string takes its two length bytes and never extends past its input.
pub proof fn lemma_str_decode_len(s: Seq<u8>)
    ensures
        spec_str_decode(s) matches Ok((t, n)) ==> 2 <= n <= s.len(),
{
}

/// Writes the wire form of `value` at `pos`.
pub fn encode_str_at(value: &str, buf: &mut [u8], pos: usize) -> (n: usize)
    requires
        spec_utf8(value@).len() <= 65535,
        pos + 2 + spec_utf8(value@).len() <= old(buf)@.len(),
    ensures
        n == 2 + spec_utf8(value@).len(),
        final(buf)@ == spec_splice(old(buf)@, pos as int, spec_str_wire(value@)),
{
    let bytes = value.as_bytes();
    let len = bytes.len();
    write_be16_at(buf, pos, len as u16);
    let buf_len = buf.len();
    assert(pos + 2 <= buf_len);
    write_bytes_at(buf, pos + 2, bytes);
    proof {
        lemma_splice_append(old(buf)@, pos as int, spec_be16(len as u16), bytes@);
    }
    2 + len
}

/// Decodes a string at `pos` whose wire form must end by `end`.
///
/// Returns the string and the number of bytes consumed.
pub fn decode_str_at(buf: &[u8], pos: usize, end: usize) -> (r: Result<(String, usize), DecodeError>)
    requires
        pos <= end <= buf@.len(),
    ensures
        r matches Ok((v, n)) ==> spec_str_decode(buf@.subrange(pos as int, end as int)) == Ok::<
            (Seq<char>, nat),
            DecodeError,
        >((v@, n as nat)),
        r matches Err(e) ==> spec_str_decode(buf@.subrange(pos as int, end as int)) == Err::<
            (Seq<char>, nat),
            DecodeError,
        >(e),
{
    let ghost s = buf@.subrange(pos as int, end as int);
    if end - pos < 2 {
        return Err(DecodeError::InsufficientData);
    }
    let len = read_be16_at(buf, pos) as usize;
    if end - pos < 2 + len {
        return Err(DecodeError::InsufficientData);
    }
    let bytes = copy_range(buf, pos + 2, pos + 2 + len);
    assert(bytes@ =~= s.subrange(2, 2 + len as int));
    let has_null = bytes_contain(bytes.as_slice(), 0);
    match string_from_utf8(bytes) {
        None => Err(DecodeError::InvalidUtf8),
        Some(v) => {
            if has_null {
                Err(DecodeError::MalformedPacket)
            } else {
                Ok((v, 2 + len))
            }
        },
    }
}

/// Whether the UTF-8 form of `value` holds a zero byte (U+0000).
pub fn str_has_null(value: &str) -> (r: bool)
    ensures
        r == spec_utf8(value@).contains(0u8),
{
    bytes_contain(value.as_bytes(), 0)
}

/// Whether two strings are equal.
pub fn str_eq(a: &str, b: &str) -> (r: bool)
    ensures
        r == (a@ == b@),
{
    let r = crate::codec::wire::bytes_eq(a.as_bytes(), b.as_bytes());
    proof {
        vstd::utf8::encode_utf8_decode_utf8(a@);
        vstd::utf8::encode_utf8_decode_utf8(b@);
    }
    r
}

/// A UTF-8 encoded string preceded by a two-byte big-endian length.
#[derive(Debug, Clone, PartialEq, Eq, Hash)]
pub struct Utf8String(pub String);

impl Utf8String {
    /// Encodes the string into `buf` and returns the number of bytes written.
    pub fn encode(&self, buf: &mut [u8]) -> (r: Result<usize, EncodeError>)
        ensures
            (r, final(buf)@) == spec_encode_outcome(spec_str_encoding((self.0)@), old(buf)@),
    {
        Self::encode_str(self.0.as_str(), buf)
    }

    /// Encodes a string slice into `buf` and returns the number of bytes written.
    ///
    /// Validation and format are those of [`encode`](Self::encode).
    pub fn encode_str(value: &str, buf: &mut [u8]) -> (r: Result<usize, EncodeError>)
        ensures
            (r, final(buf)@) == spec_encode_outcome(spec_str_encoding(value@), old(buf)@),
    {
        // MQTT v5.0 §1.5.4 [MQTT-1.5.4-2] / MQTT v3.1.1 §1.5.3 [MQTT-1.5.3-2]:
        // a UTF-8 string must not hold U+0000.
        if str_has_null(value) {
            return Err(EncodeError::InvalidField { reason: EncodeInvalidField::NullInUtf8String });
        }
        let len = value.as_bytes().len();
        if len > 65535 {
            return Err(EncodeError::PacketTooLarge { size: len, limit: 65535 });
        }
        if buf.len() < 2 + len {
            return Err(EncodeError::BufferTooSmall);
        }
        Ok(encode_str_at(value, buf, 0))
    }

    /// Decodes a UTF-8 string from `buf`.
    ///
    /// Returns the string and the number of bytes consumed.
    pub fn decode(buf: &[u8]) -> (r: Result<(Self, usize), DecodeError>)
        ensures
            r matches Ok((v, n)) ==> spec_str_decode(buf@) == Ok::<(Seq<char>, nat), DecodeError>(
                ((v.0)@, n as nat),
            ),
            r matches Err(e) ==> spec_str_decode(buf@) == Err::<(Seq<char>, nat), DecodeError>(e),
    {
        assert(buf@.subrange(0, buf@.len() as int) =~= buf@);
        match decode_str_at(buf, 0, buf.len()) {
            Ok((v, n)) => Ok((Self(v), n)),
            Err(e) => Err(e),
        }
    }
}

} // verus!
