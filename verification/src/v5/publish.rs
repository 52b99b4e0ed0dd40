//! MQTT v5.0 PUBLISH packets (MQTT v5.0 §3.3).

use vstd::prelude::*;
use vstd::utf8::valid_utf8;

use crate::codec::qos::QoS;
use crate::codec::utf8_string::{decode_str_at, spec_str_decode, spec_str_wire, spec_utf8};
use crate::codec::variable_byte_integer::{
    lemma_vbi_decode_canonical, lemma_vbi_encode_len, spec_vbi_decode, spec_vbi_len, VariableByteInteger, VBI_MAX,
};
use crate::codec::wire::{
    bytes_contain, copy_range, is_valid_utf8, lemma_splice_append, read_be16_at, spec_be16, spec_read_be16,
    spec_splice, write_be16_at, write_bytes_at,
};
use crate::error::{malformed_if_insufficient, spec_malformed_if_insufficient, DecodeError, EncodeError, EncodeInvalidField};
use crate::v5::ack_helper::{encode_fixed_header, spec_fixed_header, spec_fixed_header_check};
use crate::v5::property::{
    encode_string, lemma_properties_len_matches, lemma_properties_roundtrip, spec_first_property_error, spec_has_duplicate,
    spec_has_identifier, spec_ids_within, spec_properties_decode, spec_properties_len,
    spec_properties_wire, spec_publish_ids, spec_text_error, PacketDirection, Properties, Property,
    PropertyValue,
};
use crate::v5::subscribe::spec_clamp_usize;

verus! {

/// An MQTT v5.0 PUBLISH packet (MQTT v5.0 §3.3).
#[derive(Debug, Clone, PartialEq, Eq)]
pub struct Publish {
    /// The DUP flag.
    pub dup: bool,
    /// The QoS level.
    pub qos: QoS,
    /// The RETAIN flag.
    pub retain: bool,
    /// The Topic Name; empty when a Topic Alias stands for it.
    pub topic: String,
    /// The Packet Identifier, present exactly for QoS 1 and 2.
    pub packet_id: Option<u16>,
    /// The properties.
    pub properties: Properties,
    /// The payload.
    pub payload: Vec<u8>,
}

/// The abstract value of a [`Publish`].
pub struct PublishView {
    /// The DUP flag.
    pub dup: bool,
    /// The QoS level.
    pub qos: QoS,
    /// The RETAIN flag.
    pub retain: bool,
    /// The Topic Name.
    pub topic: Seq<char>,
    /// The Packet Identifier.
    pub packet_id: Option<u16>,
    /// The properties.
    pub properties: Seq<(u8, PropertyValue)>,
    /// The payload.
    pub payload: Seq<u8>,
}

impl View for Publish {
    type V = PublishView;

    open spec fn view(&self) -> PublishView {
        PublishView {
            dup: self.dup,
            qos: self.qos,
            retain: self.retain,
            topic: self.topic@,
            packet_id: self.packet_id,
            properties: self.properties@,
            payload: self.payload@,
        }
    }
}

/// The first byte of a PUBLISH: the type 3, then DUP, QoS and RETAIN.
pub open spec fn spec_publish_first_byte(p: PublishView) -> u8 {
    0x30u8 | ((p.qos.spec_as_u8() << 1u8) | (if p.dup {
        0x08u8
    } else {
        0u8
    }) | (if p.retain {
        0x01u8
    } else {
        0u8
    }))
}

/// The remaining length of a PUBLISH, as [`Publish::encoded_len`] sums it with
/// saturating additions.
pub open spec fn spec_publish_len(p: PublishView) -> usize {
    (2usize).saturating_add(spec_clamp_usize(spec_utf8(p.topic).len())).saturating_add(
        if p.qos != QoS::AtMostOnce {
            2usize
        } else {
            0usize
        },
    ).saturating_add(spec_properties_len(p.properties)).saturating_add(p.payload.len() as usize)
}

/// The wire form of a PUBLISH.
pub open spec fn spec_publish_wire(p: PublishView) -> Seq<u8> {
    spec_fixed_header(spec_publish_first_byte(p), spec_publish_len(p) as nat) + spec_str_wire(p.topic)
        + match p.packet_id {
        Some(id) => spec_be16(id),
        None => Seq::empty(),
    } + spec_properties_wire(p.properties) + p.payload
}

/// Whether the properties hold a Payload Format Indicator of 1 (UTF-8 payload).
pub open spec fn spec_utf8_payload_indicated(ps: Seq<(u8, PropertyValue)>) -> bool {
    exists|i: int| 0 <= i < ps.len() && #[trigger] ps[i] == (0x01u8, PropertyValue::Byte(1))
}

/// Why a PUBLISH sent by a client cannot be written, if it cannot: an empty
/// Topic Name without a Topic Alias, a wildcard in the Topic Name, a Packet
/// Identifier missing for QoS 1 or 2, present for QoS 0, or 0, DUP with QoS 0
/// (MQTT v5.0 §3.3.1.1), properties that a client's PUBLISH does not allow, a
/// repeated property, or a payload announced as UTF-8 that is not.
pub open spec fn spec_publish_check(p: PublishView) -> Result<(), EncodeError> {
    if p.topic.len() == 0 && !spec_has_identifier(p.properties, 0x23) {
        Err(EncodeError::InvalidField { reason: EncodeInvalidField::EmptyTopicName })
    } else if spec_utf8(p.topic).contains(43u8) || spec_utf8(p.topic).contains(35u8) {
        Err(EncodeError::InvalidField { reason: EncodeInvalidField::WildcardInTopicName })
    } else if p.qos != QoS::AtMostOnce && p.packet_id is None {
        Err(EncodeError::InvalidField { reason: EncodeInvalidField::MissingPacketId })
    } else if p.qos == QoS::AtMostOnce && p.packet_id is Some {
        Err(EncodeError::InvalidField { reason: EncodeInvalidField::UnexpectedPacketId })
    } else if p.packet_id == Some(0u16) {
        Err(EncodeError::InvalidField { reason: EncodeInvalidField::ZeroPacketId })
    } else if p.qos == QoS::AtMostOnce && p.dup {
        Err(EncodeError::InvalidField { reason: EncodeInvalidField::DupWithQos0 })
    } else if !(spec_ids_within(p.properties, spec_publish_ids()) && !spec_has_identifier(
        p.properties,
        0x0B,
    )) {
        Err(EncodeError::InvalidField { reason: EncodeInvalidField::PropertyValidationFailed })
    } else if spec_has_duplicate(p.properties, true) {
        Err(EncodeError::InvalidField { reason: EncodeInvalidField::DuplicatePropertyIdentifier })
    } else if spec_utf8_payload_indicated(p.properties) && !valid_utf8(p.payload) {
        Err(EncodeError::InvalidField { reason: EncodeInvalidField::InvalidPayloadUtf8 })
    } else {
        Ok(())
    }
}

/// What writing a PUBLISH that passed its check into a buffer of `buf_len`
/// bytes returns.
pub open spec fn spec_publish_result(p: PublishView, buf_len: nat) -> Result<usize, EncodeError> {
    match spec_fixed_header_check(spec_publish_len(p), buf_len) {
        Err(e) => Err(e),
        Ok(()) => match spec_text_error(p.topic) {
            Some(e) => Err(e),
            None => match spec_first_property_error(p.properties) {
                Some(e) => Err(e),
                None => Ok(spec_publish_wire(p).len() as usize),
            },
        },
    }
}

/// The result of decoding a PUBLISH sent by a server from the start of `s`:
/// the packet and the bytes consumed. QoS 3, or DUP with QoS 0, are invalid
/// flags; a Topic Name cut short, a missing or zero Packet Identifier, an
/// empty Topic Name without a Topic Alias, a wildcard in the Topic Name, or
/// properties that a server's PUBLISH does not allow are malformed.
pub open spec fn spec_publish_decode(s: Seq<u8>) -> Result<(PublishView, nat), DecodeError> {
    if s.len() == 0 {
        Err(DecodeError::InsufficientData)
    } else if s[0] & 0xF0 != 0x30 {
        Err(DecodeError::InvalidPacketType)
    } else {
        let flags = s[0] & 0x0F;
        match QoS::spec_from_u8((flags >> 1u8) & 0x03) {
            None => Err(DecodeError::InvalidPacketFlags),
            Some(q) => if q == QoS::AtMostOnce && flags & 0x08 != 0 {
                Err(DecodeError::InvalidPacketFlags)
            } else {
                match spec_vbi_decode(s.skip(1)) {
                    Err(e) => Err(e),
                    Ok((len, vn)) => if s.len() < 1 + vn + len {
                        Err(DecodeError::InsufficientData)
                    } else {
                        let h = 1 + vn;
                        let end = h + len;
                        match spec_str_decode(s.subrange(h as int, end as int)) {
                            Err(e) => Err(spec_malformed_if_insufficient(e)),
                            Ok((topic, tn)) => {
                                let o = h + tn;
                                let pid: Result<(Option<u16>, nat), DecodeError> = if q
                                    != QoS::AtMostOnce {
                                    if end < o + 2 {
                                        Err(DecodeError::MalformedPacket)
                                    } else if spec_read_be16(s, o as int) == 0 {
                                        Err(DecodeError::MalformedPacket)
                                    } else {
                                        Ok((Some(spec_read_be16(s, o as int)), o + 2))
                                    }
                                } else {
                                    Ok((None, o))
                                };
                                match pid {
                                    Err(e) => Err(e),
                                    Ok((packet_id, o2)) => match spec_properties_decode(
                                        s.subrange(o2 as int, end as int),
                                        true,
                                    ) {
                                        Err(e) => Err(e),
                                        Ok((ps, pn)) => if topic.len() == 0
                                            && !spec_has_identifier(ps, 0x23) {
                                            Err(DecodeError::MalformedPacket)
                                        } else if spec_utf8(topic).contains(43u8) || spec_utf8(
                                            topic,
                                        ).contains(35u8) {
                                            Err(DecodeError::MalformedPacket)
                                        } else if !spec_ids_within(ps, spec_publish_ids()) {
                                            Err(DecodeError::MalformedPacket)
                                        } else {
                                            Ok(
                                                (
                                                    PublishView {
                                                        dup: flags & 0x08 != 0,
                                                        qos: q,
                                                        retain: flags & 0x01 != 0,
                                                        topic,
                                                        packet_id,
                                                        properties: ps,
                                                        payload: s.subrange((o2 + pn) as int, end as int),
                                                    },
                                                    end as nat,
                                                ),
                                            )
                                        },
                                    },
                                }
                            },
                        }
                    },
                }
            },
        }
    }
}

/// Below the largest remaining length no addition saturates.
proof fn lemma_publish_len(p: PublishView, topic_len: usize, payload_len: usize)
    requires
        spec_publish_len(p) <= VBI_MAX,
        topic_len == spec_utf8(p.topic).len(),
        payload_len == p.payload.len(),
    ensures
        spec_publish_len(p) == 2 + topic_len + (if p.qos != QoS::AtMostOnce {
            2int
        } else {
            0int
        }) + spec_properties_len(p.properties) + payload_len,
{
}

/// Whether a Payload Format Indicator of 1 is among the properties.
pub(crate) fn utf8_payload_indicated(properties: &Properties) -> (r: bool)
    ensures
        r == spec_utf8_payload_indicated(properties@),
{
    let ps = properties.as_slice();
    let mut i: usize = 0;
    while i < ps.len()
        invariant
            i <= ps@.len(),
            ps@.map_values(|p: Property| p@) == properties@,
            forall|j: int| 0 <= j < i ==> #[trigger] properties@[j] != (0x01u8, PropertyValue::Byte(1)),
        decreases ps@.len() - i,
    {
        match &ps[i] {
            Property::PayloadFormatIndicator(v) => {
                if *v == 1 {
                    assert(properties@[i as int] == (0x01u8, PropertyValue::Byte(1)));
                    return true;
                }
            },
            _ => {},
        }
        assert(properties@[i as int] == ps@[i as int]@);
        i = i + 1;
    }
    false
}

impl Publish {
    /// Returns the remaining length of the encoded packet.
    pub fn encoded_len(&self) -> (r: usize)
        ensures
            r == spec_publish_len(self@),
    {
        let mut len = 2usize.saturating_add(self.topic.as_str().as_bytes().len());
        if self.qos != QoS::AtMostOnce {
            len = len.saturating_add(2);
        }
        len = len.saturating_add(self.properties.encoded_len());
        len = len.saturating_add(self.payload.len());
        len
    }

    /// Encodes the packet, sent by a client, into `buf` and returns the number
    /// of bytes written.
    ///
    /// After an error in the Topic Name or a property, the bytes before it have
    /// been written.
    #[verifier::rlimit(40)]
    pub fn encode(&self, buf: &mut [u8]) -> (r: Result<usize, EncodeError>)
        ensures
            final(buf)@.len() == old(buf)@.len(),
            r == match spec_publish_check(self@) {
                Err(e) => Err::<usize, EncodeError>(e),
                Ok(()) => spec_publish_result(self@, old(buf)@.len()),
            },
            r is Ok ==> final(buf)@ == spec_splice(old(buf)@, 0, spec_publish_wire(self@)),
            spec_publish_check(self@) is Err || spec_fixed_header_check(spec_publish_len(self@), old(buf)@.len()) is Err
                ==> final(buf)@ == old(buf)@,
    {
        match self.validate() {
            Err(e) => {
                return Err(e);
            },
            Ok(()) => {},
        }
        let remaining_len = self.encoded_len();
        let dup: u8 = if self.dup {
            0x08
        } else {
            0
        };
        let retain: u8 = if self.retain {
            0x01
        } else {
            0
        };
        let flags = (self.qos.as_u8() << 1u8) | dup | retain;
        let offset = match encode_fixed_header(buf, 0x30, flags, remaining_len) {
            Err(e) => {
                return Err(e);
            },
            Ok(n) => n,
        };
        let ghost header = spec_fixed_header(spec_publish_first_byte(self@), remaining_len as nat);
        let topic_len = self.topic.as_str().as_bytes().len();
        let payload_len = self.payload.len();
        proof {
            lemma_vbi_encode_len(remaining_len as nat);
            lemma_publish_len(self@, topic_len, payload_len);
        }
        let n1 = match encode_string(self.topic.as_str(), buf, offset) {
            Err(e) => {
                return Err(e);
            },
            Ok(n) => n,
        };
        proof {
            lemma_splice_append(old(buf)@, 0, header, spec_str_wire(self.topic@));
        }
        let mut pos = offset + n1;
        let ghost pid_bytes = match self.packet_id {
            Some(id) => spec_be16(id),
            None => Seq::empty(),
        };
        match self.packet_id {
            Some(id) => {
                write_be16_at(buf, pos, id);
                pos = pos + 2;
            },
            None => {
                assert(spec_splice(buf@, pos as int, pid_bytes) =~= buf@);
            },
        }
        proof {
            lemma_splice_append(old(buf)@, 0, header + spec_str_wire(self.topic@), pid_bytes);
        }
        let ghost before_props = header + spec_str_wire(self.topic@) + pid_bytes;
        let n2 = match self.properties.encode_at(buf, pos) {
            Err(e) => {
                return Err(e);
            },
            Ok(n) => n,
        };
        proof {
            lemma_splice_append(old(buf)@, 0, before_props, spec_properties_wire(self.properties@));
            lemma_properties_len_matches(self.properties@);
        }
        pos = pos + n2;
        write_bytes_at(buf, pos, self.payload.as_slice());
        proof {
            lemma_splice_append(
                old(buf)@,
                0,
                before_props + spec_properties_wire(self.properties@),
                self.payload@,
            );
        }
        Ok(pos + payload_len)
    }

    /// Decodes a PUBLISH sent by a server from the start of `buf` and returns
    /// it with the number of bytes consumed.
    pub fn decode(buf: &[u8]) -> (r: Result<(Self, usize), DecodeError>)
        ensures
            match r {
                Ok((p, n)) => spec_publish_decode(buf@) == Ok::<(PublishView, nat), DecodeError>((p@, n as nat)),
                Err(e) => spec_publish_decode(buf@) == Err::<(PublishView, nat), DecodeError>(e),
            },
    {
        if buf.len() == 0 {
            return Err(DecodeError::InsufficientData);
        }
        if buf[0] & 0xF0 != 0x30 {
            return Err(DecodeError::InvalidPacketType);
        }
        let flags = buf[0] & 0x0F;
        let qos = match QoS::from_u8((flags >> 1u8) & 0x03) {
            None => {
                return Err(DecodeError::InvalidPacketFlags);
            },
            Some(q) => q,
        };
        let dup = flags & 0x08 != 0;
        let retain = flags & 0x01 != 0;
        if qos == QoS::AtMostOnce && dup {
            return Err(DecodeError::InvalidPacketFlags);
        }
        let (remaining_len, vbi_len) = match VariableByteInteger::decode(&buf[1..buf.len()]) {
            Err(e) => {
                proof {
                    assert(buf@.subrange(1, buf@.len() as int) =~= buf@.skip(1));
                }
                return Err(e);
            },
            Ok(x) => x,
        };
        proof {
            assert(buf@.subrange(1, buf@.len() as int) =~= buf@.skip(1));
            lemma_vbi_decode_canonical(buf@.skip(1));
        }
        let remaining_len = remaining_len.0 as usize;
        let header_len = 1 + vbi_len;
        if buf.len() < header_len + remaining_len {
            return Err(DecodeError::InsufficientData);
        }
        let end = header_len + remaining_len;
        let (topic, n) = match decode_str_at(buf, header_len, end) {
            Err(e) => {
                return Err(malformed_if_insufficient(e));
            },
            Ok(x) => x,
        };
        proof {
            crate::codec::utf8_string::lemma_str_decode_len(buf@.subrange(header_len as int, end as int));
        }
        let mut offset = header_len + n;
        let packet_id = if qos != QoS::AtMostOnce {
            if end - offset < 2 {
                return Err(DecodeError::MalformedPacket);
            }
            let id = read_be16_at(buf, offset);
            if id == 0 {
                return Err(DecodeError::MalformedPacket);
            }
            offset = offset + 2;
            Some(id)
        } else {
            None
        };
        let (properties, n) = match Properties::decode_for_publish(&buf[offset..end]) {
            Err(e) => {
                return Err(e);
            },
            Ok(x) => x,
        };
        let payload_start = offset + n;
        let has_topic_alias = properties.has_identifier(0x23);
        if topic.as_str().is_empty() && !has_topic_alias {
            return Err(DecodeError::MalformedPacket);
        }
        let topic_bytes = topic.as_str().as_bytes();
        if bytes_contain(topic_bytes, 43) || bytes_contain(topic_bytes, 35) {
            return Err(DecodeError::MalformedPacket);
        }
        match properties.validate_for_publish_with_direction(PacketDirection::ServerToClient) {
            Err(e) => {
                return Err(e);
            },
            Ok(()) => {},
        }
        let payload = copy_range(buf, payload_start, end);
        Ok((Self { dup, qos, retain, topic, packet_id, properties, payload }, end))
    }

    /// Checks what the packet must satisfy before a client sends it.
    fn validate(&self) -> (r: Result<(), EncodeError>)
        ensures
            r == spec_publish_check(self@),
    {
        if self.topic.as_str().is_empty() && !self.properties.has_identifier(0x23) {
            return Err(EncodeError::InvalidField { reason: EncodeInvalidField::EmptyTopicName });
        }
        let topic_bytes = self.topic.as_str().as_bytes();
        if bytes_contain(topic_bytes, 43) || bytes_contain(topic_bytes, 35) {
            return Err(EncodeError::InvalidField { reason: EncodeInvalidField::WildcardInTopicName });
        }
        if self.qos != QoS::AtMostOnce && self.packet_id.is_none() {
            return Err(EncodeError::InvalidField { reason: EncodeInvalidField::MissingPacketId });
        }
        if self.qos == QoS::AtMostOnce && self.packet_id.is_some() {
            return Err(EncodeError::InvalidField { reason: EncodeInvalidField::UnexpectedPacketId });
        }
        if self.packet_id == Some(0u16) {
            return Err(EncodeError::InvalidField { reason: EncodeInvalidField::ZeroPacketId });
        }
        if self.qos == QoS::AtMostOnce && self.dup {
            return Err(EncodeError::InvalidField { reason: EncodeInvalidField::DupWithQos0 });
        }
        if self.properties.validate_for_publish_with_direction(PacketDirection::ClientToServer).is_err() {
            return Err(
                EncodeError::InvalidField { reason: EncodeInvalidField::PropertyValidationFailed },
            );
        }
        if self.properties.validate_duplicate_identifiers(true).is_err() {
            return Err(
                EncodeError::InvalidField { reason: EncodeInvalidField::DuplicatePropertyIdentifier },
            );
        }
        if utf8_payload_indicated(&self.properties) && !is_valid_utf8(self.payload.as_slice()) {
            return Err(EncodeError::InvalidField { reason: EncodeInvalidField::InvalidPayloadUtf8 });
        }
        Ok(())
    }
}

/// The first byte of a PUBLISH reads back as its DUP, QoS and RETAIN.
proof fn lemma_publish_first_byte(v: PublishView)
    ensures
        ({
            let b = spec_publish_first_byte(v);
            &&& b & 0xF0 == 0x30
            &&& QoS::spec_from_u8(((b & 0x0F) >> 1u8) & 0x03) == Some(v.qos)
            &&& ((b & 0x0F) & 0x08 != 0) == v.dup
            &&& ((b & 0x0F) & 0x01 != 0) == v.retain
        }),
{
    let d: u8 = if v.dup {
        8
    } else {
        0
    };
    let r: u8 = if v.retain {
        1
    } else {
        0
    };
    let q = v.qos.spec_as_u8();
    crate::codec::qos::lemma_qos_roundtrip(v.qos);
    crate::codec::qos::lemma_publish_flag_bits(d, q, r);
}

/// The decoding of a PUBLISH whose parts read back as those of `v`.
#[verifier::spinoff_prover]
proof fn lemma_publish_decode_parts(s: Seq<u8>, v: PublishView, rem: nat, vn: nat, pn: nat)
    requires
        s.len() > 0,
        s[0] & 0xF0 == 0x30,
        QoS::spec_from_u8(((s[0] & 0x0F) >> 1u8) & 0x03) == Some(v.qos),
        ((s[0] & 0x0F) & 0x08 != 0) == v.dup,
        ((s[0] & 0x0F) & 0x01 != 0) == v.retain,
        !(v.qos == QoS::AtMostOnce && v.dup),
        spec_vbi_decode(s.skip(1)) == Ok::<(u32, nat), DecodeError>((rem as u32, vn)),
        rem <= VBI_MAX,
        s.len() >= 1 + vn + rem,
        spec_str_decode(s.subrange(1 + vn as int, 1 + vn + rem as int)) == Ok::<(Seq<char>, nat), DecodeError>(
            (v.topic, 2 + spec_utf8(v.topic).len()),
        ),
        !(v.topic.len() == 0 && !spec_has_identifier(v.properties, 0x23)),
        !spec_utf8(v.topic).contains(43u8),
        !spec_utf8(v.topic).contains(35u8),
        spec_ids_within(v.properties, spec_publish_ids()),
        (v.qos != QoS::AtMostOnce) == (v.packet_id is Some),
        ({
            let o = (1 + vn + 2 + spec_utf8(v.topic).len()) as int;
            let o2 = o + (if v.packet_id is Some {
                2int
            } else {
                0int
            });
            &&& v.packet_id matches Some(id) ==> 1 + vn + rem >= o + 2 && spec_read_be16(s, o) == id
                && id != 0
            &&& o2 <= 1 + vn + rem
            &&& spec_properties_decode(s.subrange(o2, (1 + vn + rem) as int), true) == Ok::<
                (Seq<(u8, PropertyValue)>, nat),
                DecodeError,
            >((v.properties, pn))
            &&& v.payload == s.subrange(o2 + pn, (1 + vn + rem) as int)
        }),
    ensures
        spec_publish_decode(s) == Ok::<(PublishView, nat), DecodeError>((v, 1 + vn + rem)),
{
}

/// Where the parts of a PUBLISH lie in its wire form, followed by any bytes.
#[verifier::spinoff_prover]
proof fn lemma_publish_layout(p: Publish, rest: Seq<u8>)
    requires
        crate::codec::utf8_string::spec_str_encodable(p@.topic),
        spec_first_property_error(p@.properties) is None,
        !spec_has_duplicate(p@.properties, true),
        spec_publish_len(p@) <= VBI_MAX,
        (p@.qos != QoS::AtMostOnce) == (p@.packet_id is Some),
    ensures
        ({
            let v = p@;
            let s = spec_publish_wire(v) + rest;
            let rem = spec_publish_len(v) as nat;
            let vn = spec_vbi_len(rem);
            let o = (1 + vn + 2 + spec_utf8(v.topic).len()) as int;
            let o2 = o + (if v.packet_id is Some {
                2int
            } else {
                0int
            });
            let pn = spec_properties_wire(v.properties).len();
            &&& s.len() > 0
            &&& s[0] == spec_publish_first_byte(v)
            &&& spec_vbi_decode(s.skip(1)) == Ok::<(u32, nat), DecodeError>((rem as u32, vn))
            &&& s.len() >= 1 + vn + rem
            &&& spec_publish_wire(v).len() == 1 + vn + rem
            &&& spec_str_decode(s.subrange(1 + vn as int, 1 + vn + rem as int)) == Ok::<
                (Seq<char>, nat),
                DecodeError,
            >((v.topic, 2 + spec_utf8(v.topic).len()))
            &&& v.packet_id matches Some(id) ==> 1 + vn + rem >= o + 2 && spec_read_be16(s, o) == id
            &&& o2 <= 1 + vn + rem
            &&& spec_properties_decode(s.subrange(o2, (1 + vn + rem) as int), true) == Ok::<
                (Seq<(u8, PropertyValue)>, nat),
                DecodeError,
            >((v.properties, pn))
            &&& v.payload == s.subrange(o2 + pn, (1 + vn + rem) as int)
        }),
{
    let v = p@;
    let first = spec_publish_first_byte(v);
    let pid = match v.packet_id {
        Some(id) => spec_be16(id),
        None => Seq::<u8>::empty(),
    };
    let tw = spec_str_wire(v.topic);
    let pw = spec_properties_wire(v.properties);
    let rem = spec_publish_len(v) as nat;
    lemma_publish_len(v, spec_utf8(v.topic).len() as usize, p.payload.len());
    lemma_properties_len_matches(v.properties);
    let s = spec_publish_wire(v) + rest;
    let c = pw + v.payload;
    assert(spec_publish_wire(v) =~= spec_fixed_header(first, rem) + tw + pid + c);
    crate::v5::ack_helper::lemma_frame_layout(first, rem, tw, pid, c, rest);
    crate::codec::utf8_string::lemma_str_roundtrip(v.topic, pid + c);
    if let Some(id) = v.packet_id {
        crate::codec::wire::lemma_be16_roundtrip(id);
    }
    lemma_properties_roundtrip(p.properties, true, v.payload);
    let vn = spec_vbi_len(rem);
    let o2 = 1 + vn + tw.len() + pid.len();
    crate::codec::wire::lemma_subrange_in_subrange(s, o2 as int, (1 + vn + rem) as int, pw.len() as int);
    crate::codec::wire::lemma_concat_tail(pw, v.payload);
}

/// Decoding the wire form of a PUBLISH that a client can write, followed by
/// any bytes, gives it back and consumes exactly the wire form.
#[verifier::spinoff_prover]
pub proof fn lemma_publish_roundtrip(p: Publish, rest: Seq<u8>)
    requires
        spec_publish_check(p@) is Ok,
        spec_text_error(p@.topic) is None,
        spec_first_property_error(p@.properties) is None,
        spec_publish_len(p@) <= VBI_MAX,
    ensures
        spec_publish_decode(spec_publish_wire(p@) + rest) == Ok::<(PublishView, nat), DecodeError>(
            (p@, spec_publish_wire(p@).len()),
        ),
{
    let v = p@;
    lemma_publish_first_byte(v);
    lemma_publish_layout(p, rest);
    let rem = spec_publish_len(v) as nat;
    lemma_publish_decode_parts(
        spec_publish_wire(v) + rest,
        v,
        rem,
        spec_vbi_len(rem),
        spec_properties_wire(v.properties).len(),
    );
}

} // verus!
