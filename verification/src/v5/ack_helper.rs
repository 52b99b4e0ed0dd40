//! The framing shared by the MQTT v5.0 packets: the fixed header, empty
//! packets, packets made of a reason code and properties, and acknowledgements
//! made of a Packet Identifier, a reason code and properties.

use vstd::prelude::*;

use crate::codec::variable_byte_integer::{
    lemma_vbi_decode_canonical, lemma_vbi_encode_len, spec_vbi_decode, spec_vbi_encode,
    spec_vbi_len, write_vbi_at, VariableByteInteger, VBI_MAX,
};
use crate::codec::wire::{
    lemma_splice_append, read_be16_at, spec_be16, spec_read_be16, spec_splice, write_be16_at,
};
use crate::error::{DecodeError, EncodeError};
use crate::v5::property::{
    lemma_properties_len_matches, lemma_properties_roundtrip, spec_first_property_error,
    spec_has_duplicate, spec_payload_len, spec_properties_decode, spec_properties_len,
    spec_properties_wire, Properties, PropertyValue,
};

verus! {

/// The fixed header: the first byte, then the remaining length.
pub open spec fn spec_fixed_header(first: u8, remaining: nat) -> Seq<u8> {
    seq![first] + spec_vbi_encode(remaining)
}

/// Whether a packet whose remaining length is `remaining` can be written into a
/// buffer of `buf_len` bytes.
pub open spec fn spec_fixed_header_check(remaining: usize, buf_len: nat) -> Result<(), EncodeError> {
    if remaining > VBI_MAX {
        Err(EncodeError::PacketTooLarge { size: remaining, limit: VBI_MAX as usize })
    } else if buf_len < 1 + spec_vbi_len(remaining as nat) + remaining {
        Err(EncodeError::BufferTooSmall)
    } else {
        Ok(())
    }
}

/// The result of decoding a fixed header from the start of `s`: the remaining
/// length and the header's length. The packet type is the high nibble of the
/// first byte, the flags its low nibble, and the whole packet must be present.
pub open spec fn spec_fixed_header_decode(s: Seq<u8>, packet_type: u8, flags: u8) -> Result<
    (nat, nat),
    DecodeError,
> {
    if s.len() == 0 {
        Err(DecodeError::InsufficientData)
    } else if s[0] & 0xF0 != packet_type {
        Err(DecodeError::InvalidPacketType)
    } else if s[0] & 0x0F != flags {
        Err(DecodeError::InvalidPacketFlags)
    } else {
        match spec_vbi_decode(s.skip(1)) {
            Err(e) => Err(e),
            Ok((len, n)) => if s.len() < 1 + n + len {
                Err(DecodeError::InsufficientData)
            } else {
                Ok((len as nat, 1 + n))
            },
        }
    }
}

/// Writes the fixed header of a packet whose remaining length is
/// `remaining_len` and returns where the rest of the packet starts. The whole
/// packet must fit in `buf`.
pub(crate) fn encode_fixed_header(buf: &mut [u8], packet_type: u8, flags: u8, remaining_len: usize) -> (r: Result<usize, EncodeError>)
    ensures
        final(buf)@.len() == old(buf)@.len(),
        r == match spec_fixed_header_check(remaining_len, old(buf)@.len()) {
            Err(e) => Err::<usize, EncodeError>(e),
            Ok(()) => Ok((1 + spec_vbi_len(remaining_len as nat)) as usize),
        },
        r is Ok ==> final(buf)@ == spec_splice(
            old(buf)@,
            0,
            spec_fixed_header(packet_type | flags, remaining_len as nat),
        ),
        r is Err ==> final(buf)@ == old(buf)@,
{
    if remaining_len > VariableByteInteger::MAX as usize {
        return Err(
            EncodeError::PacketTooLarge {
                size: remaining_len,
                limit: VariableByteInteger::MAX as usize,
            },
        );
    }
    let vbi_len = VariableByteInteger(remaining_len as u32).encoded_len();
    proof {
        lemma_vbi_encode_len(remaining_len as nat);
    }
    if buf.len() < 1 + vbi_len + remaining_len {
        return Err(EncodeError::BufferTooSmall);
    }
    buf[0] = packet_type | flags;
    let ghost after_first = buf@;
    write_vbi_at(buf, 1, remaining_len as u32);
    proof {
        assert(after_first == spec_splice(old(buf)@, 0, seq![packet_type | flags]));
        lemma_splice_append(
            old(buf)@,
            0,
            seq![packet_type | flags],
            spec_vbi_encode(remaining_len as nat),
        );
    }
    Ok(1 + vbi_len)
}

/// Decodes a fixed header and returns the remaining length, the header's length
/// and where the packet ends.
pub(crate) fn decode_fixed_header(buf: &[u8], packet_type: u8, flags: u8) -> (r: Result<(usize, usize, usize), DecodeError>)
    ensures
        match r {
            Ok((rem, h, end)) => spec_fixed_header_decode(buf@, packet_type, flags) == Ok::<
                (nat, nat),
                DecodeError,
            >((rem as nat, h as nat)) && end == h + rem && end <= buf@.len(),
            Err(e) => spec_fixed_header_decode(buf@, packet_type, flags) == Err::<
                (nat, nat),
                DecodeError,
            >(e),
        },
{
    if buf.len() == 0 {
        return Err(DecodeError::InsufficientData);
    }
    if buf[0] & 0xF0 != packet_type {
        return Err(DecodeError::InvalidPacketType);
    }
    if buf[0] & 0x0F != flags {
        return Err(DecodeError::InvalidPacketFlags);
    }
    let (remaining_len, vbi_len) = match VariableByteInteger::decode(&buf[1..buf.len()]) {
        Err(e) => {
            proof {
                assert(buf@.subrange(1, buf@.len() as int) =~= buf@.skip(1));
            }
            return Err(e);
        },
        Ok(x) => x,
    };
    proof {
        assert(buf@.subrange(1, buf@.len() as int) =~= buf@.skip(1));
        lemma_vbi_decode_canonical(buf@.skip(1));
    }
    let remaining_len = remaining_len.0 as usize;
    let header_len = 1 + vbi_len;
    if buf.len() < header_len + remaining_len {
        return Err(DecodeError::InsufficientData);
    }
    Ok((remaining_len, header_len, header_len + remaining_len))
}

/// Writes a packet whose remaining length is 0.
pub(crate) fn encode_empty(buf: &mut [u8], packet_type: u8, flags: u8) -> (r: Result<usize, EncodeError>)
    ensures
        final(buf)@.len() == old(buf)@.len(),
        old(buf)@.len() < 2 ==> r == Err::<usize, EncodeError>(EncodeError::BufferTooSmall)
            && final(buf)@ == old(buf)@,
        old(buf)@.len() >= 2 ==> r == Ok::<usize, EncodeError>(2) && final(buf)@ == spec_splice(
            old(buf)@,
            0,
            seq![packet_type | flags, 0u8],
        ),
{
    let r = encode_fixed_header(buf, packet_type, flags, 0);
    proof {
        reveal_with_fuel(spec_vbi_encode, 2);
        assert(spec_fixed_header(packet_type | flags, 0) =~= seq![packet_type | flags, 0u8]);
    }
    r
}

/// The result of decoding a packet whose remaining length must be 0: the
/// number of bytes consumed.
pub open spec fn spec_empty_decode(s: Seq<u8>, packet_type: u8, flags: u8) -> Result<nat, DecodeError> {
    match spec_fixed_header_decode(s, packet_type, flags) {
        Err(e) => Err(e),
        Ok((rem, h)) => if rem != 0 {
            Err(DecodeError::MalformedPacket)
        } else {
            Ok(h)
        },
    }
}

/// Decodes a packet whose remaining length must be 0 and returns the number of
/// bytes consumed.
pub(crate) fn decode_empty(buf: &[u8], packet_type: u8, flags: u8) -> (r: Result<usize, DecodeError>)
    ensures
        match r {
            Ok(n) => spec_empty_decode(buf@, packet_type, flags) == Ok::<nat, DecodeError>(n as nat),
            Err(e) => spec_empty_decode(buf@, packet_type, flags) == Err::<nat, DecodeError>(e),
        },
{
    let (remaining_len, header_len, _end) = match decode_fixed_header(buf, packet_type, flags) {
        Err(e) => {
            return Err(e);
        },
        Ok(x) => x,
    };
    if remaining_len != 0 {
        return Err(DecodeError::MalformedPacket);
    }
    Ok(header_len)
}

/// The remaining length of a packet made of a reason code and properties, in
/// its long form.
pub open spec fn spec_reason_code_only_len(ps: Seq<(u8, PropertyValue)>) -> usize {
    (1usize).saturating_add(spec_properties_len(ps))
}

/// The wire form of a packet made of a reason code and properties.
pub open spec fn spec_reason_code_only_wire(first: u8, reason_code: u8, ps: Seq<(u8, PropertyValue)>) -> Seq<u8> {
    spec_fixed_header(first, spec_reason_code_only_len(ps) as nat) + seq![reason_code]
        + spec_properties_wire(ps)
}

/// What writing a packet made of a reason code and the properties `ps` into a
/// buffer of `buf_len` bytes returns.
pub open spec fn spec_reason_code_only_result(ps: Seq<(u8, PropertyValue)>, buf_len: nat, wire_len: nat) -> Result<
    usize,
    EncodeError,
> {
    match spec_fixed_header_check(spec_reason_code_only_len(ps), buf_len) {
        Err(e) => Err(e),
        Ok(()) => match spec_first_property_error(ps) {
            Some(e) => Err(e),
            None => Ok(wire_len as usize),
        },
    }
}

/// The remaining length of a packet made of a reason code and properties.
pub(crate) fn reason_code_only_packet_encoded_len(properties: &Properties) -> (r: usize)
    ensures
        r == spec_reason_code_only_len(properties@),
{
    1usize.saturating_add(properties.encoded_len())
}

/// Writes a packet made of a reason code and properties (DISCONNECT, AUTH), in
/// its long form, and returns the number of bytes written.
pub(crate) fn encode_reason_code_only_packet(
    buf: &mut [u8],
    packet_type: u8,
    flags: u8,
    reason_code: u8,
    properties: &Properties,
) -> (r: Result<usize, EncodeError>)
    ensures
        final(buf)@.len() == old(buf)@.len(),
        r == spec_reason_code_only_result(
            properties@,
            old(buf)@.len(),
            spec_reason_code_only_wire(packet_type | flags, reason_code, properties@).len(),
        ),
        r is Ok ==> final(buf)@ == spec_splice(
            old(buf)@,
            0,
            spec_reason_code_only_wire(packet_type | flags, reason_code, properties@),
        ),
        spec_fixed_header_check(spec_reason_code_only_len(properties@), old(buf)@.len()) is Err
            ==> final(buf)@ == old(buf)@,
{
    let remaining_len = reason_code_only_packet_encoded_len(properties);
    let offset = match encode_fixed_header(buf, packet_type, flags, remaining_len) {
        Err(e) => {
            return Err(e);
        },
        Ok(n) => n,
    };
    let ghost header = spec_fixed_header(packet_type | flags, remaining_len as nat);
    proof {
        lemma_vbi_encode_len(remaining_len as nat);
    }
    let ghost after_header = buf@;
    buf[offset] = reason_code;
    let ghost after_code = buf@;
    proof {
        assert(after_code == spec_splice(after_header, offset as int, seq![reason_code]));
        lemma_splice_append(old(buf)@, 0, header, seq![reason_code]);
    }
    match properties.encode_at(buf, offset + 1) {
        Err(e) => Err(e),
        Ok(n) => {
            proof {
                lemma_splice_append(
                    old(buf)@,
                    0,
                    header + seq![reason_code],
                    spec_properties_wire(properties@),
                );
            }
            Ok(offset + 1 + n)
        },
    }
}

/// The result of decoding a packet made of a reason code and properties: the
/// reason code, the properties and the bytes consumed. A remaining length of 0
/// stands for reason code 0x00 without properties, and one of 1 for a reason
/// code without properties.
pub open spec fn spec_reason_code_only_decode(s: Seq<u8>, packet_type: u8, flags: u8) -> Result<
    (u8, Seq<(u8, PropertyValue)>, nat),
    DecodeError,
> {
    match spec_fixed_header_decode(s, packet_type, flags) {
        Err(e) => Err(e),
        Ok((rem, h)) => if rem == 0 {
            Ok((0x00, Seq::empty(), h))
        } else if rem == 1 {
            Ok((s[h as int], Seq::empty(), h + 1))
        } else {
            match spec_properties_decode(s.subrange(h + 1 as int, h + rem as int), false) {
                Err(e) => Err(e),
                Ok((ps, n)) => if n != rem - 1 {
                    Err(DecodeError::MalformedPacket)
                } else {
                    Ok((s[h as int], ps, h + rem))
                },
            }
        },
    }
}

/// Decodes a packet made of a reason code and properties; the caller checks
/// which properties are allowed.
pub(crate) fn decode_reason_code_only_packet(buf: &[u8], packet_type: u8, flags: u8) -> (r: Result<(u8, Properties, usize), DecodeError>)
    ensures
        match r {
            Ok((rc, p, n)) => spec_reason_code_only_decode(buf@, packet_type, flags) == Ok::<
                (u8, Seq<(u8, PropertyValue)>, nat),
                DecodeError,
            >((rc, p@, n as nat)),
            Err(e) => spec_reason_code_only_decode(buf@, packet_type, flags) == Err::<
                (u8, Seq<(u8, PropertyValue)>, nat),
                DecodeError,
            >(e),
        },
{
    let (remaining_len, header_len, end) = match decode_fixed_header(buf, packet_type, flags) {
        Err(e) => {
            return Err(e);
        },
        Ok(x) => x,
    };
    if remaining_len == 0 {
        return Ok((0x00, Properties::new(), end));
    }
    let reason_code = buf[header_len];
    let offset = header_len + 1;
    if offset == end {
        return Ok((reason_code, Properties::new(), end));
    }
    let (properties, n) = match Properties::decode(&buf[offset..end]) {
        Err(e) => {
            return Err(e);
        },
        Ok(x) => x,
    };
    if offset + n != end {
        return Err(DecodeError::MalformedPacket);
    }
    Ok((reason_code, properties, end))
}

/// Reads the Packet Identifier at `header_len`, which must lie before `end`
/// and not be 0 (MQTT v5.0 §2.2.1, [MQTT-2.2.1-3]); returns it and the offset
/// after it.
pub(crate) fn decode_packet_id(buf: &[u8], header_len: usize, end: usize) -> (r: Result<(u16, usize), DecodeError>)
    requires
        header_len <= end <= buf@.len(),
    ensures
        header_len + 2 > end ==> r == Err::<(u16, usize), DecodeError>(DecodeError::MalformedPacket),
        header_len + 2 <= end ==> {
            let id = spec_read_be16(buf@, header_len as int);
            r == if id == 0 {
                Err::<(u16, usize), DecodeError>(DecodeError::MalformedPacket)
            } else {
                Ok((id, (header_len + 2) as usize))
            }
        },
{
    if end - header_len < 2 {
        return Err(DecodeError::MalformedPacket);
    }
    let packet_id = read_be16_at(buf, header_len);
    if packet_id == 0 {
        return Err(DecodeError::MalformedPacket);
    }
    Ok((packet_id, header_len + 2))
}

/// The remaining length of an acknowledgement with a Packet Identifier, a
/// reason code and properties, in its long form.
pub open spec fn spec_reason_code_packet_len(ps: Seq<(u8, PropertyValue)>) -> usize {
    (2usize).saturating_add(1).saturating_add(spec_properties_len(ps))
}

/// The wire form of an acknowledgement with a Packet Identifier, a reason code
/// and properties.
pub open spec fn spec_reason_code_packet_wire(
    first: u8,
    packet_id: u16,
    reason_code: u8,
    ps: Seq<(u8, PropertyValue)>,
) -> Seq<u8> {
    spec_fixed_header(first, spec_reason_code_packet_len(ps) as nat) + spec_be16(packet_id) + seq![
        reason_code,
    ] + spec_properties_wire(ps)
}

/// What writing an acknowledgement with the properties `ps` into a buffer of
/// `buf_len` bytes returns, `wire_len` being the length of its wire form.
pub open spec fn spec_reason_code_packet_result(ps: Seq<(u8, PropertyValue)>, buf_len: nat, wire_len: nat) -> Result<
    usize,
    EncodeError,
> {
    match spec_fixed_header_check(spec_reason_code_packet_len(ps), buf_len) {
        Err(e) => Err(e),
        Ok(()) => match spec_first_property_error(ps) {
            Some(e) => Err(e),
            None => Ok(wire_len as usize),
        },
    }
}

/// The remaining length of an acknowledgement with a Packet Identifier, a
/// reason code and properties.
pub(crate) fn reason_code_packet_encoded_len(properties: &Properties) -> (r: usize)
    ensures
        r == spec_reason_code_packet_len(properties@),
{
    2usize.saturating_add(1).saturating_add(properties.encoded_len())
}

/// Writes an acknowledgement with a Packet Identifier, a reason code and
/// properties, in its long form, and returns the number of bytes written.
pub(crate) fn encode_reason_code_packet(
    buf: &mut [u8],
    packet_type: u8,
    flags: u8,
    packet_id: u16,
    reason_code: u8,
    properties: &Properties,
) -> (r: Result<usize, EncodeError>)
    ensures
        final(buf)@.len() == old(buf)@.len(),
        r == spec_reason_code_packet_result(
            properties@,
            old(buf)@.len(),
            spec_reason_code_packet_wire(packet_type | flags, packet_id, reason_code, properties@).len(),
        ),
        r is Ok ==> final(buf)@ == spec_splice(
            old(buf)@,
            0,
            spec_reason_code_packet_wire(packet_type | flags, packet_id, reason_code, properties@),
        ),
        spec_fixed_header_check(spec_reason_code_packet_len(properties@), old(buf)@.len()) is Err
            ==> final(buf)@ == old(buf)@,
{
    let remaining_len = reason_code_packet_encoded_len(properties);
    let offset = match encode_fixed_header(buf, packet_type, flags, remaining_len) {
        Err(e) => {
            return Err(e);
        },
        Ok(n) => n,
    };
    let ghost header = spec_fixed_header(packet_type | flags, remaining_len as nat);
    proof {
        lemma_vbi_encode_len(remaining_len as nat);
    }
    write_be16_at(buf, offset, packet_id);
    proof {
        lemma_splice_append(old(buf)@, 0, header, spec_be16(packet_id));
    }
    let ghost after_id = buf@;
    buf[offset + 2] = reason_code;
    proof {
        assert(buf@ == spec_splice(after_id, offset + 2, seq![reason_code]));
        lemma_splice_append(old(buf)@, 0, header + spec_be16(packet_id), seq![reason_code]);
    }
    match properties.encode_at(buf, offset + 3) {
        Err(e) => Err(e),
        Ok(n) => {
            proof {
                lemma_splice_append(
                    old(buf)@,
                    0,
                    header + spec_be16(packet_id) + seq![reason_code],
                    spec_properties_wire(properties@),
                );
            }
            Ok(offset + 3 + n)
        },
    }
}

/// The result of decoding an acknowledgement with a Packet Identifier, a
/// reason code and properties: the identifier, the reason code, the properties
/// and the bytes consumed. A remaining length of 2 stands for
/// `default_reason_code` without properties, and one of 3 for a reason code
/// without properties.
pub open spec fn spec_reason_code_packet_decode(
    s: Seq<u8>,
    packet_type: u8,
    flags: u8,
    default_reason_code: u8,
) -> Result<(u16, u8, Seq<(u8, PropertyValue)>, nat), DecodeError> {
    match spec_fixed_header_decode(s, packet_type, flags) {
        Err(e) => Err(e),
        Ok((rem, h)) => if rem < 2 {
            Err(DecodeError::MalformedPacket)
        } else if spec_read_be16(s, h as int) == 0 {
            Err(DecodeError::MalformedPacket)
        } else if rem == 2 {
            Ok((spec_read_be16(s, h as int), default_reason_code, Seq::empty(), h + rem))
        } else if rem == 3 {
            Ok((spec_read_be16(s, h as int), s[h + 2 as int], Seq::empty(), h + rem))
        } else {
            match spec_properties_decode(s.subrange(h + 3 as int, h + rem as int), false) {
                Err(e) => Err(e),
                Ok((ps, n)) => if n != rem - 3 {
                    Err(DecodeError::MalformedPacket)
                } else {
                    Ok((spec_read_be16(s, h as int), s[h + 2 as int], ps, h + rem))
                },
            }
        },
    }
}

/// Decodes an acknowledgement with a Packet Identifier, a reason code and
/// properties; the caller checks which properties are allowed.
pub(crate) fn decode_reason_code_packet(buf: &[u8], packet_type: u8, flags: u8, default_reason_code: u8) -> (r: Result<(u16, u8, Properties, usize), DecodeError>)
    ensures
        match r {
            Ok((id, rc, p, n)) => spec_reason_code_packet_decode(
                buf@,
                packet_type,
                flags,
                default_reason_code,
            ) == Ok::<(u16, u8, Seq<(u8, PropertyValue)>, nat), DecodeError>(
                (id, rc, p@, n as nat),
            ),
            Err(e) => spec_reason_code_packet_decode(buf@, packet_type, flags, default_reason_code)
                == Err::<(u16, u8, Seq<(u8, PropertyValue)>, nat), DecodeError>(e),
        },
{
    let (remaining_len, header_len, end) = match decode_fixed_header(buf, packet_type, flags) {
        Err(e) => {
            return Err(e);
        },
        Ok(x) => x,
    };
    let (packet_id, offset) = match decode_packet_id(buf, header_len, end) {
        Err(e) => {
            return Err(e);
        },
        Ok(x) => x,
    };
    if remaining_len == 2 {
        return Ok((packet_id, default_reason_code, Properties::new(), end));
    }
    let reason_code = buf[offset];
    if offset + 1 == end {
        return Ok((packet_id, reason_code, Properties::new(), end));
    }
    let (properties, n) = match Properties::decode(&buf[offset + 1..end]) {
        Err(e) => {
            return Err(e);
        },
        Ok(x) => x,
    };
    if offset + 1 + n != end {
        return Err(DecodeError::MalformedPacket);
    }
    Ok((packet_id, reason_code, properties, end))
}

/// Decoding a fixed header followed by at least the remaining length's worth
/// of bytes gives the remaining length back, and the header's length.
#[verifier::spinoff_prover]
pub proof fn lemma_fixed_header_roundtrip(packet_type: u8, flags: u8, rem: nat, tail: Seq<u8>)
    requires
        (packet_type | flags) & 0xF0 == packet_type,
        (packet_type | flags) & 0x0F == flags,
        rem <= VBI_MAX,
        tail.len() >= rem,
    ensures
        spec_fixed_header_decode(spec_fixed_header(packet_type | flags, rem) + tail, packet_type, flags) == Ok::<
            (nat, nat),
            DecodeError,
        >((rem, spec_fixed_header(packet_type | flags, rem).len())),
        spec_fixed_header(packet_type | flags, rem).len() == 1 + spec_vbi_len(rem),
{
    let s = spec_fixed_header(packet_type | flags, rem) + tail;
    assert(s.skip(1) =~= spec_vbi_encode(rem) + tail);
    crate::codec::variable_byte_integer::lemma_vbi_roundtrip(rem, tail);
    lemma_vbi_encode_len(rem);
}

/// Decoding the wire form of a packet made of a reason code and properties that
/// can all be written, with no repeated property and a remaining length that
/// fits, followed by any bytes, gives the reason code and the properties back
/// and consumes exactly the wire form.
#[verifier::spinoff_prover]
pub proof fn lemma_reason_code_only_roundtrip(
    packet_type: u8,
    flags: u8,
    reason_code: u8,
    props: Properties,
    rest: Seq<u8>,
)
    requires
        (packet_type | flags) & 0xF0 == packet_type,
        (packet_type | flags) & 0x0F == flags,
        spec_first_property_error(props@) is None,
        spec_reason_code_only_len(props@) <= VBI_MAX,
        !spec_has_duplicate(props@, false),
    ensures
        ({
            let w = spec_reason_code_only_wire(packet_type | flags, reason_code, props@);
            spec_reason_code_only_decode(w + rest, packet_type, flags) == Ok::<
                (u8, Seq<(u8, PropertyValue)>, nat),
                DecodeError,
            >((reason_code, props@, w.len()))
        }),
{
    let ps = props@;
    let rem = spec_reason_code_only_len(ps) as nat;
    lemma_properties_len_matches(ps);
    let pw = spec_properties_wire(ps);
    let body = seq![reason_code] + pw;
    let header = spec_fixed_header(packet_type | flags, rem);
    let s = spec_reason_code_only_wire(packet_type | flags, reason_code, ps) + rest;
    assert(s =~= header + (body + rest));
    lemma_fixed_header_roundtrip(packet_type, flags, rem, body + rest);
    let h = header.len() as int;
    assert(s[h] == reason_code);
    assert(s.subrange(h + 1, h + rem) =~= pw + Seq::<u8>::empty());
    lemma_properties_roundtrip(props, false, Seq::<u8>::empty());
}

/// Decoding the wire form of an acknowledgement with a Packet Identifier other
/// than 0, a reason code and properties that can all be written, with no
/// repeated property and a remaining length that fits, followed by any bytes,
/// gives them back and consumes exactly the wire form.
#[verifier::spinoff_prover]
pub proof fn lemma_reason_code_packet_roundtrip(
    packet_type: u8,
    flags: u8,
    packet_id: u16,
    reason_code: u8,
    props: Properties,
    default_reason_code: u8,
    rest: Seq<u8>,
)
    requires
        (packet_type | flags) & 0xF0 == packet_type,
        (packet_type | flags) & 0x0F == flags,
        packet_id != 0,
        spec_first_property_error(props@) is None,
        spec_reason_code_packet_len(props@) <= VBI_MAX,
        !spec_has_duplicate(props@, false),
    ensures
        ({
            let w = spec_reason_code_packet_wire(packet_type | flags, packet_id, reason_code, props@);
            spec_reason_code_packet_decode(w + rest, packet_type, flags, default_reason_code) == Ok::<
                (u16, u8, Seq<(u8, PropertyValue)>, nat),
                DecodeError,
            >((packet_id, reason_code, props@, w.len()))
        }),
{
    let ps = props@;
    let rem = spec_reason_code_packet_len(ps) as nat;
    lemma_properties_len_matches(ps);
    let pw = spec_properties_wire(ps);
    let body = spec_be16(packet_id) + seq![reason_code] + pw;
    let header = spec_fixed_header(packet_type | flags, rem);
    let s = spec_reason_code_packet_wire(packet_type | flags, packet_id, reason_code, ps) + rest;
    assert(s =~= header + (body + rest));
    lemma_fixed_header_roundtrip(packet_type, flags, rem, body + rest);
    let h = header.len() as int;
    crate::codec::wire::lemma_be16_roundtrip(packet_id);
    assert(s[h] == spec_be16(packet_id)[0] && s[h + 1] == spec_be16(packet_id)[1]);
    assert(s[h + 2] == reason_code);
    assert(s.subrange(h + 3, h + rem) =~= pw + Seq::<u8>::empty());
    lemma_properties_roundtrip(props, false, Seq::<u8>::empty());
}

/// Where the parts of a packet lie in its wire form, followed by any bytes:
/// a fixed header, then three parts that fill its remaining length.
#[verifier::spinoff_prover]
pub proof fn lemma_frame_layout(first: u8, rem: nat, a: Seq<u8>, b: Seq<u8>, c: Seq<u8>, rest: Seq<u8>)
    requires
        rem == a.len() + b.len() + c.len(),
        rem <= VBI_MAX,
    ensures
        ({
            let s = spec_fixed_header(first, rem) + a + b + c + rest;
            let vn = spec_vbi_len(rem);
            let o = 1 + vn + a.len();
            &&& s.len() > 0
            &&& s[0] == first
            &&& spec_vbi_decode(s.skip(1)) == Ok::<(u32, nat), DecodeError>((rem as u32, vn))
            &&& s.len() >= 1 + vn + rem
            &&& (spec_fixed_header(first, rem) + a + b + c).len() == 1 + vn + rem
            &&& s.subrange(1 + vn as int, 1 + vn + rem as int) == a + (b + c)
            &&& forall|i: int| 0 <= i < b.len() ==> s[o + i] == #[trigger] b[i]
            &&& s.subrange(o + b.len() as int, 1 + vn + rem as int) == c
        }),
{
    let enc = spec_vbi_encode(rem);
    let t = a + b + c + rest;
    let s = spec_fixed_header(first, rem) + a + b + c + rest;
    assert(s =~= (seq![first] + enc) + t);
    assert(s.skip(1) =~= enc + t);
    crate::codec::variable_byte_integer::lemma_vbi_roundtrip(rem, t);
    lemma_vbi_encode_len(rem);
    let vn = spec_vbi_len(rem);
    assert(s.subrange(1 + vn as int, 1 + vn + rem as int) =~= a + (b + c));
    let o = 1 + vn + a.len();
    assert forall|i: int| 0 <= i < b.len() implies s[o + i] == #[trigger] b[i] by {
        assert(s[o + i] == t[a.len() + i]);
    }
    assert(s.subrange(o + b.len() as int, 1 + vn + rem as int) =~= c);
}

} // verus!
