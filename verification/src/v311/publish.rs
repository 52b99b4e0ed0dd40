//! MQTT v3.1.1 PUBLISH packets (MQTT v3.1.1 §3.3).

use vstd::prelude::*;

use crate::codec::qos::QoS;
use crate::codec::utf8_string::{decode_str_at, spec_str_decode, spec_str_wire, spec_utf8};
use crate::codec::variable_byte_integer::{
    lemma_vbi_decode_canonical, lemma_vbi_encode_len, spec_vbi_decode, VariableByteInteger, VBI_MAX,
};
use crate::codec::wire::{
    bytes_contain, copy_range, lemma_splice_append, read_be16_at, spec_be16, spec_read_be16,
    spec_splice, write_be16_at, write_bytes_at,
};
use crate::error::{malformed_if_insufficient, spec_malformed_if_insufficient, DecodeError, EncodeError, EncodeInvalidField};
use crate::v5::ack_helper::{encode_fixed_header, spec_fixed_header, spec_fixed_header_check};
use crate::v5::property::{encode_string, spec_text_error};
use crate::v5::subscribe::spec_clamp_usize;

verus! {

/// An MQTT v3.1.1 PUBLISH packet (MQTT v3.1.1 §3.3).
#[derive(Debug, Clone, PartialEq, Eq)]
pub struct Publish {
    /// The DUP flag.
    pub dup: bool,
    /// The QoS level.
    pub qos: QoS,
    /// The RETAIN flag.
    pub retain: bool,
    /// The Topic Name.
    pub topic: String,
    /// The Packet Identifier, present exactly for QoS 1 and 2.
    pub packet_id: Option<u16>,
    /// The payload.
    pub payload: Vec<u8>,
}

/// The abstract value of a [`Publish`].
pub struct PublishView {
    /// The DUP flag.
    pub dup: bool,
    /// The QoS level.
    pub qos: QoS,
    /// The RETAIN flag.
    pub retain: bool,
    /// The Topic Name.
    pub topic: Seq<char>,
    /// The Packet Identifier.
    pub packet_id: Option<u16>,
    /// The payload.
    pub payload: Seq<u8>,
}

impl View for Publish {
    type V = PublishView;

    open spec fn view(&self) -> PublishView {
        PublishView {
            dup: self.dup,
            qos: self.qos,
            retain: self.retain,
            topic: self.topic@,
            packet_id: self.packet_id,
            payload: self.payload@,
        }
    }
}

/// The flags of a PUBLISH: DUP in bit 3, the QoS in bits 1-2, RETAIN in bit 0.
pub open spec fn spec_publish_flags(p: PublishView) -> u8 {
    ((if p.dup {
        0x08u8
    } else {
        0u8
    }) | (p.qos.spec_as_u8() << 1u8)) | (if p.retain {
        0x01u8
    } else {
        0u8
    })
}

/// The remaining length of a PUBLISH, as [`Publish::encoded_len`] sums it with
/// saturating additions.
pub open spec fn spec_publish_len(p: PublishView) -> usize {
    (2usize).saturating_add(spec_clamp_usize(spec_utf8(p.topic).len())).saturating_add(
        if p.qos != QoS::AtMostOnce {
            2usize
        } else {
            0usize
        },
    ).saturating_add(spec_clamp_usize(p.payload.len()))
}

/// The wire form of a PUBLISH.
pub open spec fn spec_publish_wire(p: PublishView) -> Seq<u8> {
    spec_fixed_header(0x30u8 | spec_publish_flags(p), spec_publish_len(p) as nat) + spec_str_wire(p.topic)
        + match p.packet_id {
        Some(id) => spec_be16(id),
        None => Seq::empty(),
    } + p.payload
}

/// Why a PUBLISH cannot be written, if it cannot: an empty Topic Name, a
/// wildcard in it, a Packet Identifier of 0 or missing for QoS 1 and 2,
/// present for QoS 0, or DUP with QoS 0 (MQTT v3.1.1 §3.3.1.1).
pub open spec fn spec_publish_check(p: PublishView) -> Result<(), EncodeError> {
    if p.topic.len() == 0 {
        Err(EncodeError::InvalidField { reason: EncodeInvalidField::EmptyTopicName })
    } else if spec_utf8(p.topic).contains(43u8) || spec_utf8(p.topic).contains(35u8) {
        Err(EncodeError::InvalidField { reason: EncodeInvalidField::WildcardInTopicName })
    } else if p.qos != QoS::AtMostOnce && p.packet_id == Some(0u16) {
        Err(EncodeError::InvalidField { reason: EncodeInvalidField::ZeroPacketId })
    } else if p.qos != QoS::AtMostOnce && p.packet_id is None {
        Err(EncodeError::InvalidField { reason: EncodeInvalidField::MissingPacketId })
    } else if p.qos == QoS::AtMostOnce && p.packet_id is Some {
        Err(EncodeError::InvalidField { reason: EncodeInvalidField::UnexpectedPacketId })
    } else if p.qos == QoS::AtMostOnce && p.dup {
        Err(EncodeError::InvalidField { reason: EncodeInvalidField::DupWithQos0 })
    } else {
        Ok(())
    }
}

/// What writing a PUBLISH that passed its check into a buffer of `buf_len`
/// bytes returns.
pub open spec fn spec_publish_result(p: PublishView, buf_len: nat) -> Result<usize, EncodeError> {
    match spec_fixed_header_check(spec_publish_len(p), buf_len) {
        Err(e) => Err(e),
        Ok(()) => match spec_text_error(p.topic) {
            Some(e) => Err(e),
            None => Ok(spec_publish_wire(p).len() as usize),
        },
    }
}

/// The result of decoding a PUBLISH from the start of `s`: the packet and the
/// bytes consumed. QoS 3, or DUP with QoS 0, are invalid flags; a Topic Name
/// cut short, empty or with a wildcard, or a missing or zero Packet Identifier
/// are malformed.
pub open spec fn spec_publish_decode(s: Seq<u8>) -> Result<(PublishView, nat), DecodeError> {
    if s.len() == 0 {
        Err(DecodeError::InsufficientData)
    } else if s[0] & 0xF0 != 0x30 {
        Err(DecodeError::InvalidPacketType)
    } else {
        let flags = s[0] & 0x0F;
        match QoS::spec_from_u8((flags >> 1u8) & 0x03) {
            None => Err(DecodeError::InvalidPacketFlags),
            Some(q) => if q == QoS::AtMostOnce && flags & 0x08 != 0 {
                Err(DecodeError::InvalidPacketFlags)
            } else {
                match spec_vbi_decode(s.skip(1)) {
                    Err(e) => Err(e),
                    Ok((len, vn)) => if s.len() < 1 + vn + len {
                        Err(DecodeError::InsufficientData)
                    } else {
                        let h = 1 + vn;
                        let end = h + len;
                        match spec_str_decode(s.subrange(h as int, end as int)) {
                            Err(e) => Err(spec_malformed_if_insufficient(e)),
                            Ok((topic, tn)) => {
                                let o = h + tn;
                                if topic.len() == 0 || spec_utf8(topic).contains(43u8) || spec_utf8(
                                    topic,
                                ).contains(35u8) {
                                    Err(DecodeError::MalformedPacket)
                                } else if q != QoS::AtMostOnce && (end < o + 2 || spec_read_be16(
                                    s,
                                    o as int,
                                ) == 0) {
                                    Err(DecodeError::MalformedPacket)
                                } else {
                                    let o2 = if q != QoS::AtMostOnce {
                                        o + 2
                                    } else {
                                        o
                                    };
                                    Ok(
                                        (
                                            PublishView {
                                                dup: flags & 0x08 != 0,
                                                qos: q,
                                                retain: flags & 0x01 != 0,
                                                topic,
                                                packet_id: if q != QoS::AtMostOnce {
                                                    Some(spec_read_be16(s, o as int))
                                                } else {
                                                    None
                                                },
                                                payload: s.subrange(o2 as int, end as int),
                                            },
                                            end as nat,
                                        ),
                                    )
                                }
                            },
                        }
                    },
                }
            },
        }
    }
}

/// Below the largest remaining length no addition saturates.
proof fn lemma_publish_len(p: PublishView)
    requires
        spec_publish_len(p) <= VBI_MAX,
    ensures
        spec_publish_len(p) == 2 + spec_utf8(p.topic).len() + (if p.qos != QoS::AtMostOnce {
            2int
        } else {
            0int
        }) + p.payload.len(),
{
}

impl Publish {
    /// Returns the remaining length of the encoded packet.
    pub fn encoded_len(&self) -> (r: usize)
        ensures
            r == spec_publish_len(self@),
    {
        let mut len = 2usize.saturating_add(self.topic.as_str().as_bytes().len());
        if self.qos != QoS::AtMostOnce {
            len = len.saturating_add(2);
        }
        len = len.saturating_add(self.payload.len());
        len
    }

    /// Returns the flags of the first byte.
    fn flags(&self) -> (r: u8)
        ensures
            r == spec_publish_flags(self@),
    {
        let dup: u8 = if self.dup {
            0x08
        } else {
            0
        };
        let retain: u8 = if self.retain {
            0x01
        } else {
            0
        };
        (dup | (self.qos.as_u8() << 1u8)) | retain
    }

    /// Encodes the packet into `buf` and returns the number of bytes written.
    ///
    /// After an error in the Topic Name's string, the bytes before it have been
    /// written.
    #[verifier::rlimit(40)]
    pub fn encode(&self, buf: &mut [u8]) -> (r: Result<usize, EncodeError>)
        ensures
            final(buf)@.len() == old(buf)@.len(),
            r == match spec_publish_check(self@) {
                Err(e) => Err::<usize, EncodeError>(e),
                Ok(()) => spec_publish_result(self@, old(buf)@.len()),
            },
            r is Ok ==> final(buf)@ == spec_splice(old(buf)@, 0, spec_publish_wire(self@)),
            spec_publish_check(self@) is Err || spec_fixed_header_check(spec_publish_len(self@), old(buf)@.len()) is Err
                ==> final(buf)@ == old(buf)@,
    {
        match self.validate() {
            Err(e) => {
                return Err(e);
            },
            Ok(()) => {},
        }
        let remaining_len = self.encoded_len();
        let offset = match encode_fixed_header(buf, 0x30, self.flags(), remaining_len) {
            Err(e) => {
                return Err(e);
            },
            Ok(n) => n,
        };
        let ghost header = spec_fixed_header(0x30u8 | spec_publish_flags(self@), remaining_len as nat);
        let payload_len = self.payload.len();
        let topic_len = self.topic.as_str().as_bytes().len();
        proof {
            lemma_vbi_encode_len(remaining_len as nat);
            lemma_publish_len(self@);
        }
        let n1 = match encode_string(self.topic.as_str(), buf, offset) {
            Err(e) => {
                return Err(e);
            },
            Ok(n) => n,
        };
        proof {
            lemma_splice_append(old(buf)@, 0, header, spec_str_wire(self.topic@));
        }
        let mut pos = offset + n1;
        let ghost pid_bytes = match self.packet_id {
            Some(id) => spec_be16(id),
            None => Seq::empty(),
        };
        if self.qos != QoS::AtMostOnce {
            match self.packet_id {
                Some(id) => {
                    write_be16_at(buf, pos, id);
                    pos = pos + 2;
                },
                None => {
                    return Err(EncodeError::InvalidField { reason: EncodeInvalidField::MissingPacketId });
                },
            }
        } else {
            assert(spec_splice(buf@, pos as int, pid_bytes) =~= buf@);
        }
        proof {
            lemma_splice_append(old(buf)@, 0, header + spec_str_wire(self.topic@), pid_bytes);
        }
        write_bytes_at(buf, pos, self.payload.as_slice());
        proof {
            lemma_splice_append(old(buf)@, 0, header + spec_str_wire(self.topic@) + pid_bytes, self.payload@);
        }
        Ok(pos + payload_len)
    }

    /// Decodes a PUBLISH from the start of `buf` and returns it with the number
    /// of bytes consumed.
    pub fn decode(buf: &[u8]) -> (r: Result<(Self, usize), DecodeError>)
        ensures
            match r {
                Ok((p, n)) => spec_publish_decode(buf@) == Ok::<(PublishView, nat), DecodeError>((p@, n as nat)),
                Err(e) => spec_publish_decode(buf@) == Err::<(PublishView, nat), DecodeError>(e),
            },
    {
        if buf.len() == 0 {
            return Err(DecodeError::InsufficientData);
        }
        if buf[0] & 0xF0 != 0x30 {
            return Err(DecodeError::InvalidPacketType);
        }
        let flags = buf[0] & 0x0F;
        let dup = flags & 0x08 != 0;
        let qos = match QoS::from_u8((flags >> 1u8) & 0x03) {
            None => {
                return Err(DecodeError::InvalidPacketFlags);
            },
            Some(q) => q,
        };
        let retain = flags & 0x01 != 0;
        if qos == QoS::AtMostOnce && dup {
            return Err(DecodeError::InvalidPacketFlags);
        }
        proof {
            assert(buf@.subrange(1, buf@.len() as int) =~= buf@.skip(1));
        }
        let (remaining_len, vbi_len) = match VariableByteInteger::decode(&buf[1..buf.len()]) {
            Err(e) => {
                return Err(e);
            },
            Ok(x) => x,
        };
        proof {
            lemma_vbi_decode_canonical(buf@.skip(1));
        }
        let remaining_len = remaining_len.0 as usize;
        let header_len = 1 + vbi_len;
        if buf.len() < header_len + remaining_len {
            return Err(DecodeError::InsufficientData);
        }
        let end = header_len + remaining_len;
        let (topic, n) = match decode_str_at(buf, header_len, end) {
            Err(e) => {
                return Err(malformed_if_insufficient(e));
            },
            Ok(x) => x,
        };
        proof {
            crate::codec::utf8_string::lemma_str_decode_len(buf@.subrange(header_len as int, end as int));
        }
        let mut offset = header_len + n;
        if topic.as_str().is_empty() {
            return Err(DecodeError::MalformedPacket);
        }
        let topic_bytes = topic.as_str().as_bytes();
        if bytes_contain(topic_bytes, 43) || bytes_contain(topic_bytes, 35) {
            return Err(DecodeError::MalformedPacket);
        }
        let packet_id = if qos != QoS::AtMostOnce {
            if end - offset < 2 {
                return Err(DecodeError::MalformedPacket);
            }
            let id = read_be16_at(buf, offset);
            offset = offset + 2;
            if id == 0 {
                return Err(DecodeError::MalformedPacket);
            }
            Some(id)
        } else {
            None
        };
        let payload = copy_range(buf, offset, end);
        Ok((Self { dup, qos, retain, topic, packet_id, payload }, end))
    }

    /// Checks what the packet must satisfy before it is written.
    fn validate(&self) -> (r: Result<(), EncodeError>)
        ensures
            r == spec_publish_check(self@),
    {
        if self.topic.as_str().is_empty() {
            return Err(EncodeError::InvalidField { reason: EncodeInvalidField::EmptyTopicName });
        }
        let topic_bytes = self.topic.as_str().as_bytes();
        if bytes_contain(topic_bytes, 43) || bytes_contain(topic_bytes, 35) {
            return Err(EncodeError::InvalidField { reason: EncodeInvalidField::WildcardInTopicName });
        }
        if self.qos != QoS::AtMostOnce {
            match self.packet_id {
                Some(0) => {
                    return Err(EncodeError::InvalidField { reason: EncodeInvalidField::ZeroPacketId });
                },
                None => {
                    return Err(EncodeError::InvalidField { reason: EncodeInvalidField::MissingPacketId });
                },
                _ => {},
            }
        }
        if self.qos == QoS::AtMostOnce && self.packet_id.is_some() {
            return Err(EncodeError::InvalidField { reason: EncodeInvalidField::UnexpectedPacketId });
        }
        if self.qos == QoS::AtMostOnce && self.dup {
            return Err(EncodeError::InvalidField { reason: EncodeInvalidField::DupWithQos0 });
        }
        Ok(())
    }
}

/// The decoding of a PUBLISH whose parts read back as those of `v`.
#[verifier::spinoff_prover]
proof fn lemma_publish_decode_parts(s: Seq<u8>, v: PublishView, rem: nat, vn: nat)
    requires
        s.len() > 0,
        s[0] & 0xF0 == 0x30,
        QoS::spec_from_u8(((s[0] & 0x0F) >> 1u8) & 0x03) == Some(v.qos),
        ((s[0] & 0x0F) & 0x08 != 0) == v.dup,
        ((s[0] & 0x0F) & 0x01 != 0) == v.retain,
        !(v.qos == QoS::AtMostOnce && v.dup),
        spec_vbi_decode(s.skip(1)) == Ok::<(u32, nat), DecodeError>((rem as u32, vn)),
        rem <= VBI_MAX,
        s.len() >= 1 + vn + rem,
        spec_str_decode(s.subrange(1 + vn as int, 1 + vn + rem as int)) == Ok::<(Seq<char>, nat), DecodeError>(
            (v.topic, 2 + spec_utf8(v.topic).len()),
        ),
        v.topic.len() != 0,
        !spec_utf8(v.topic).contains(43u8),
        !spec_utf8(v.topic).contains(35u8),
        (v.qos != QoS::AtMostOnce) == (v.packet_id is Some),
        ({
            let o = (1 + vn + 2 + spec_utf8(v.topic).len()) as int;
            &&& v.packet_id matches Some(id) ==> 1 + vn + rem >= o + 2 && spec_read_be16(s, o) == id
                && id != 0
            &&& v.payload == s.subrange(
                o + (if v.packet_id is Some {
                    2int
                } else {
                    0int
                }),
                (1 + vn + rem) as int,
            )
        }),
    ensures
        spec_publish_decode(s) == Ok::<(PublishView, nat), DecodeError>((v, 1 + vn + rem)),
{
}

/// The first byte of a PUBLISH reads back as its DUP, QoS and RETAIN.
proof fn lemma_publish_first_byte(v: PublishView)
    ensures
        ({
            let b = 0x30u8 | spec_publish_flags(v);
            &&& b & 0xF0 == 0x30
            &&& QoS::spec_from_u8(((b & 0x0F) >> 1u8) & 0x03) == Some(v.qos)
            &&& ((b & 0x0F) & 0x08 != 0) == v.dup
            &&& ((b & 0x0F) & 0x01 != 0) == v.retain
        }),
{
    let d: u8 = if v.dup {
        8
    } else {
        0
    };
    let r: u8 = if v.retain {
        1
    } else {
        0
    };
    let q = v.qos.spec_as_u8();
    crate::codec::qos::lemma_qos_roundtrip(v.qos);
    crate::codec::qos::lemma_publish_flag_bits(d, q, r);
}

/// Where the parts of a PUBLISH lie in its wire form, followed by any bytes.
#[verifier::spinoff_prover]
proof fn lemma_publish_layout(v: PublishView, rest: Seq<u8>)
    requires
        crate::codec::utf8_string::spec_str_encodable(v.topic),
        spec_publish_len(v) <= VBI_MAX,
        spec_publish_len(v) == 2 + spec_utf8(v.topic).len() + (if v.packet_id is Some {
            2int
        } else {
            0int
        }) + v.payload.len(),
    ensures
        ({
            let s = spec_publish_wire(v) + rest;
            let rem = spec_publish_len(v) as nat;
            let vn = crate::codec::variable_byte_integer::spec_vbi_len(rem);
            let o = (1 + vn + 2 + spec_utf8(v.topic).len()) as int;
            &&& s.len() > 0
            &&& s[0] == 0x30u8 | spec_publish_flags(v)
            &&& spec_vbi_decode(s.skip(1)) == Ok::<(u32, nat), DecodeError>((rem as u32, vn))
            &&& s.len() >= 1 + vn + rem
            &&& spec_publish_wire(v).len() == 1 + vn + rem
            &&& spec_str_decode(s.subrange(1 + vn as int, 1 + vn + rem as int)) == Ok::<
                (Seq<char>, nat),
                DecodeError,
            >((v.topic, 2 + spec_utf8(v.topic).len()))
            &&& v.packet_id matches Some(id) ==> 1 + vn + rem >= o + 2 && spec_read_be16(s, o) == id
            &&& v.payload == s.subrange(
                o + (if v.packet_id is Some {
                    2int
                } else {
                    0int
                }),
                (1 + vn + rem) as int,
            )
        }),
{
    let first = 0x30u8 | spec_publish_flags(v);
    let pid = match v.packet_id {
        Some(id) => spec_be16(id),
        None => Seq::<u8>::empty(),
    };
    let tw = spec_str_wire(v.topic);
    let rem = spec_publish_len(v) as nat;
    let s = spec_publish_wire(v) + rest;
    assert(spec_publish_wire(v) == spec_fixed_header(first, rem) + tw + pid + v.payload);
    crate::v5::ack_helper::lemma_frame_layout(first, rem, tw, pid, v.payload, rest);
    crate::codec::utf8_string::lemma_str_roundtrip(v.topic, pid + v.payload);
    if let Some(id) = v.packet_id {
        crate::codec::wire::lemma_be16_roundtrip(id);
    }
}

/// Decoding the wire form of a PUBLISH that can be written, followed by any
/// bytes, gives it back and consumes exactly the wire form.
#[verifier::spinoff_prover]
pub proof fn lemma_publish_roundtrip(p: Publish, rest: Seq<u8>)
    requires
        spec_publish_check(p@) is Ok,
        spec_text_error(p@.topic) is None,
        spec_publish_len(p@) <= VBI_MAX,
    ensures
        spec_publish_decode(spec_publish_wire(p@) + rest) == Ok::<(PublishView, nat), DecodeError>(
            (p@, spec_publish_wire(p@).len()),
        ),
{
    let v = p@;
    lemma_publish_first_byte(v);
    assert(p.payload@.len() == p.payload.len());
    lemma_publish_layout(v, rest);
    let rem = spec_publish_len(v) as nat;
    let vn = crate::codec::variable_byte_integer::spec_vbi_len(rem);
    lemma_publish_decode_parts(spec_publish_wire(v) + rest, v, rem, vn);
}

} // verus!
