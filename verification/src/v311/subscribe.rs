//! MQTT v3.1.1 SUBSCRIBE packets (MQTT v3.1.1 §3.8).

use vstd::prelude::*;

use crate::codec::qos::QoS;
use crate::codec::utf8_string::{decode_str_at, spec_str_decode, spec_str_wire, spec_utf8};
use crate::codec::variable_byte_integer::{
    lemma_vbi_decode_canonical, lemma_vbi_encode_len, spec_vbi_decode, spec_vbi_len, VariableByteInteger, VBI_MAX,
};
use crate::codec::wire::{lemma_splice_append, read_be16_at, spec_be16, spec_read_be16, spec_splice, write_be16_at};
use crate::error::{malformed_if_insufficient, spec_malformed_if_insufficient, DecodeError, EncodeError, EncodeInvalidField};
use crate::topic_filter::{is_valid_topic_filter, spec_topic_filter_valid};
use crate::v5::ack_helper::{encode_fixed_header, spec_fixed_header, spec_fixed_header_check};
use crate::v5::property::{encode_string, spec_text_error};
use crate::v5::subscribe::spec_clamp_usize;

verus! {

/// One subscription of an MQTT v3.1.1 SUBSCRIBE packet.
#[derive(Debug, Clone, PartialEq, Eq)]
pub struct Subscription {
    /// The Topic Filter.
    pub topic_filter: String,
    /// The maximum QoS requested.
    pub qos: QoS,
}

/// An MQTT v3.1.1 SUBSCRIBE packet (MQTT v3.1.1 §3.8).
#[derive(Debug, Clone, PartialEq, Eq)]
pub struct Subscribe {
    /// The Packet Identifier.
    pub packet_id: u16,
    /// The subscriptions, at least one.
    pub topic_filters: Vec<Subscription>,
}

/// The Topic Filters and QoS levels of subscriptions.
pub open spec fn spec_sub_views(subs: Seq<Subscription>) -> Seq<(Seq<char>, QoS)> {
    subs.map_values(|s: Subscription| (s.topic_filter@, s.qos))
}

/// The remaining length of a SUBSCRIBE, as [`Subscribe::encoded_len`] sums it
/// with saturating additions.
pub open spec fn spec_subscribe_len(subs: Seq<(Seq<char>, QoS)>) -> usize
    decreases subs.len(),
{
    if subs.len() == 0 {
        2
    } else {
        spec_subscribe_len(subs.drop_last()).saturating_add(2).saturating_add(
            spec_clamp_usize(spec_utf8(subs.last().0).len()),
        ).saturating_add(1)
    }
}

/// The wire form of the subscriptions: each Topic Filter, then its QoS byte.
pub open spec fn spec_subs_wire(subs: Seq<(Seq<char>, QoS)>) -> Seq<u8>
    decreases subs.len(),
{
    if subs.len() == 0 {
        Seq::empty()
    } else {
        spec_subs_wire(subs.drop_last()) + spec_str_wire(subs.last().0) + seq![subs.last().1.spec_as_u8()]
    }
}

/// The wire form of a SUBSCRIBE.
pub open spec fn spec_subscribe_wire(packet_id: u16, subs: Seq<(Seq<char>, QoS)>) -> Seq<u8> {
    spec_fixed_header(0x82, spec_subscribe_len(subs) as nat) + spec_be16(packet_id) + spec_subs_wire(subs)
}

/// Whether every Topic Filter is valid.
pub open spec fn spec_filters_valid(subs: Seq<(Seq<char>, QoS)>) -> bool {
    forall|i: int| 0 <= i < subs.len() ==> #[trigger] spec_topic_filter_valid(subs[i].0)
}

/// The error of the first Topic Filter that cannot be written as a string, if
/// any.
pub open spec fn spec_first_text_error(subs: Seq<(Seq<char>, QoS)>) -> Option<EncodeError>
    decreases subs.len(),
{
    if subs.len() == 0 {
        None
    } else {
        match spec_first_text_error(subs.drop_last()) {
            Some(e) => Some(e),
            None => spec_text_error(subs.last().0),
        }
    }
}

/// What writing a SUBSCRIBE into a buffer of `buf_len` bytes returns: a Packet
/// Identifier of 0, no subscription, an invalid Topic Filter, too large a
/// packet, too small a buffer, or a Topic Filter that cannot be written as a
/// string fail.
pub open spec fn spec_subscribe_result(packet_id: u16, subs: Seq<(Seq<char>, QoS)>, buf_len: nat) -> Result<usize, EncodeError> {
    if packet_id == 0 {
        Err(EncodeError::InvalidField { reason: EncodeInvalidField::ZeroPacketId })
    } else if subs.len() == 0 {
        Err(EncodeError::InvalidField { reason: EncodeInvalidField::EmptyTopicFilters })
    } else if !spec_filters_valid(subs) {
        Err(EncodeError::InvalidField { reason: EncodeInvalidField::InvalidTopicFilter })
    } else {
        match spec_fixed_header_check(spec_subscribe_len(subs), buf_len) {
            Err(e) => Err(e),
            Ok(()) => match spec_first_text_error(subs) {
                Some(e) => Err(e),
                None => Ok(spec_subscribe_wire(packet_id, subs).len() as usize),
            },
        }
    }
}

/// The subscriptions that fill the bytes `s` exactly, decoded one after
/// another: a Topic Filter cut short or invalid, a missing QoS byte, QoS 3 or
/// reserved bits are malformed.
pub open spec fn spec_sub_items(s: Seq<u8>) -> Result<Seq<(Seq<char>, QoS)>, DecodeError>
    decreases s.len(),
{
    if s.len() == 0 {
        Ok(Seq::empty())
    } else {
        match spec_str_decode(s) {
            Err(e) => Err(spec_malformed_if_insufficient(e)),
            Ok((f, n)) => if !spec_topic_filter_valid(f) || n >= s.len() {
                Err(DecodeError::MalformedPacket)
            } else {
                match QoS::spec_from_u8(s[n as int] & 0x03) {
                    None => Err(DecodeError::MalformedPacket),
                    Some(q) => if s[n as int] & 0xFC != 0 {
                        Err(DecodeError::MalformedPacket)
                    } else {
                        proof {
                            crate::codec::utf8_string::lemma_str_decode_len(s);
                        }
                        match spec_sub_items(s.skip((n + 1) as int)) {
                            Err(e) => Err(e),
                            Ok(rest) => Ok(seq![(f, q)] + rest),
                        }
                    },
                }
            },
        }
    }
}

/// The result of decoding a SUBSCRIBE from the start of `s`: the Packet
/// Identifier, the subscriptions and the bytes consumed. A first byte other
/// than 0x82 has invalid flags.
pub open spec fn spec_subscribe_decode(s: Seq<u8>) -> Result<(u16, Seq<(Seq<char>, QoS)>, nat), DecodeError> {
    if s.len() == 0 {
        Err(DecodeError::InsufficientData)
    } else if s[0] != 0x82 {
        Err(DecodeError::InvalidPacketFlags)
    } else {
        match spec_vbi_decode(s.skip(1)) {
            Err(e) => Err(e),
            Ok((rem, vn)) => if s.len() < 1 + vn + rem {
                Err(DecodeError::InsufficientData)
            } else {
                let h = 1 + vn;
                if rem < 2 || spec_read_be16(s, h as int) == 0 {
                    Err(DecodeError::MalformedPacket)
                } else {
                    match spec_sub_items(s.subrange(h + 2 as int, h + rem as int)) {
                        Err(e) => Err(e),
                        Ok(subs) => if subs.len() == 0 {
                            Err(DecodeError::MalformedPacket)
                        } else {
                            Ok((spec_read_be16(s, h as int), subs, (h + rem) as nat))
                        },
                    }
                }
            },
        }
    }
}

/// Without saturation, the remaining length is the Packet Identifier and the
/// subscriptions' wire form; shorter prefixes have no longer remaining
/// lengths.
proof fn lemma_subscribe_len(subs: Seq<(Seq<char>, QoS)>, i: int)
    requires
        0 <= i <= subs.len(),
        spec_subscribe_len(subs) <= VBI_MAX,
    ensures
        spec_subscribe_len(subs.take(i)) <= spec_subscribe_len(subs),
        spec_subscribe_len(subs) == 2 + spec_subs_wire(subs).len(),
    decreases subs.len(),
{
    if subs.len() > 0 {
        let prefix = subs.drop_last();
        lemma_subscribe_len(prefix, if i < subs.len() { i } else { 0 });
        if i < subs.len() {
            assert(subs.take(i) =~= prefix.take(i));
        } else {
            assert(subs.take(i) =~= subs);
        }
    }
}

/// Once a filter fails as a string, that failure stays the first.
proof fn lemma_text_error_sticks(subs: Seq<(Seq<char>, QoS)>, i: int, j: int)
    requires
        0 <= i <= j <= subs.len(),
        spec_first_text_error(subs.take(i)) is Some,
    ensures
        spec_first_text_error(subs.take(j)) == spec_first_text_error(subs.take(i)),
    decreases j - i,
{
    if i < j {
        lemma_text_error_sticks(subs, i, j - 1);
        assert(subs.take(j).drop_last() =~= subs.take(j - 1));
    }
}

impl Subscribe {
    /// Returns the remaining length of the encoded packet.
    pub fn encoded_len(&self) -> (r: usize)
        ensures
            r == spec_subscribe_len(spec_sub_views(self.topic_filters@)),
    {
        let ghost subs = spec_sub_views(self.topic_filters@);
        let mut len = 2usize;
        let mut i: usize = 0;
        while i < self.topic_filters.len()
            invariant
                i <= subs.len(),
                subs == spec_sub_views(self.topic_filters@),
                len == spec_subscribe_len(subs.take(i as int)),
            decreases subs.len() - i,
        {
            proof {
                assert(subs.take(i + 1).drop_last() =~= subs.take(i as int));
            }
            len = len.saturating_add(2).saturating_add(self.topic_filters[i].topic_filter.as_str().as_bytes().len());
            len = len.saturating_add(1);
            i = i + 1;
        }
        proof {
            assert(subs.take(i as int) =~= subs);
        }
        len
    }

    /// Encodes the packet into `buf` and returns the number of bytes written.
    ///
    /// After an error in a Topic Filter's string, the bytes before it have been
    /// written.
    pub fn encode(&self, buf: &mut [u8]) -> (r: Result<usize, EncodeError>)
        ensures
            final(buf)@.len() == old(buf)@.len(),
            r == spec_subscribe_result(self.packet_id, spec_sub_views(self.topic_filters@), old(buf)@.len()),
            r is Ok ==> final(buf)@ == spec_splice(
                old(buf)@,
                0,
                spec_subscribe_wire(self.packet_id, spec_sub_views(self.topic_filters@)),
            ),
    {
        let ghost subs = spec_sub_views(self.topic_filters@);
        if self.packet_id == 0 {
            return Err(EncodeError::InvalidField { reason: EncodeInvalidField::ZeroPacketId });
        }
        if self.topic_filters.len() == 0 {
            return Err(EncodeError::InvalidField { reason: EncodeInvalidField::EmptyTopicFilters });
        }
        let mut k: usize = 0;
        while k < self.topic_filters.len()
            invariant
                k <= subs.len(),
                subs == spec_sub_views(self.topic_filters@),
                subs.len() > 0,
                self.packet_id != 0,
                forall|j: int| 0 <= j < k ==> #[trigger] spec_topic_filter_valid(subs[j].0),
            decreases subs.len() - k,
        {
            if !is_valid_topic_filter(self.topic_filters[k].topic_filter.as_str()) {
                assert(!spec_topic_filter_valid(subs[k as int].0));
                return Err(EncodeError::InvalidField { reason: EncodeInvalidField::InvalidTopicFilter });
            }
            k = k + 1;
        }
        let remaining_len = self.encoded_len();
        let offset = match encode_fixed_header(buf, 0x82, 0x00, remaining_len) {
            Err(e) => {
                return Err(e);
            },
            Ok(n) => n,
        };
        proof {
            assert((0x82u8 | 0x00u8) == 0x82u8) by (bit_vector);
            lemma_vbi_encode_len(remaining_len as nat);
            lemma_subscribe_len(subs, 0);
        }
        let ghost header = spec_fixed_header(0x82, remaining_len as nat);
        write_be16_at(buf, offset, self.packet_id);
        proof {
            lemma_splice_append(old(buf)@, 0, header, spec_be16(self.packet_id));
        }
        let ghost prefix = header + spec_be16(self.packet_id);
        let ghost after_id = buf@;
        let start = offset + 2;
        let buf_len = buf.len();
        let mut pos = start;
        let mut i: usize = 0;
        while i < self.topic_filters.len()
            invariant
                i <= subs.len(),
                subs == spec_sub_views(self.topic_filters@),
                subs.len() > 0,
                self.packet_id != 0,
                spec_filters_valid(subs),
                start == prefix.len(),
                start == offset + 2,
                offset == 1 + spec_vbi_len(remaining_len as nat),
                remaining_len == spec_subscribe_len(subs),
                remaining_len <= VBI_MAX,
                offset + remaining_len <= buf_len,
                buf_len == buf@.len(),
                buf@.len() == old(buf)@.len(),
                spec_fixed_header_check(remaining_len, old(buf)@.len()) is Ok,
                after_id == spec_splice(old(buf)@, 0, prefix),
                pos == start + spec_subs_wire(subs.take(i as int)).len(),
                spec_first_text_error(subs.take(i as int)) is None,
                buf@ == spec_splice(after_id, start as int, spec_subs_wire(subs.take(i as int))),
            decreases subs.len() - i,
        {
            let sub = &self.topic_filters[i];
            proof {
                assert(subs.take(i + 1).drop_last() =~= subs.take(i as int));
                assert(subs[i as int] == (sub.topic_filter@, sub.qos));
                lemma_subscribe_len(subs, i + 1);
                lemma_subscribe_len(subs.take(i + 1), i + 1);
                assert(subs.take(i + 1).take(i + 1) =~= subs.take(i + 1));
            }
            let ghost before = buf@;
            let n1 = match encode_string(sub.topic_filter.as_str(), buf, pos) {
                Err(e) => {
                    proof {
                        lemma_text_error_sticks(subs, i + 1, subs.len() as int);
                        assert(subs.take(subs.len() as int) =~= subs);
                    }
                    return Err(e);
                },
                Ok(n1) => n1,
            };
            buf[pos + n1] = sub.qos.as_u8();
            proof {
                let item = spec_str_wire(sub.topic_filter@) + seq![sub.qos.spec_as_u8()];
                assert(buf@ =~= spec_splice(before, pos as int, item));
                lemma_splice_append(after_id, start as int, spec_subs_wire(subs.take(i as int)), item);
            }
            pos = pos + n1 + 1;
            i = i + 1;
        }
        proof {
            assert(subs.take(i as int) =~= subs);
            lemma_splice_append(old(buf)@, 0, prefix, spec_subs_wire(subs));
        }
        Ok(pos)
    }

    /// Decodes a SUBSCRIBE from the start of `buf` and returns it with the
    /// number of bytes consumed.
    #[verifier::loop_isolation(false)]
    pub fn decode(buf: &[u8]) -> (r: Result<(Self, usize), DecodeError>)
        ensures
            match r {
                Ok((p, n)) => spec_subscribe_decode(buf@) == Ok::<(u16, Seq<(Seq<char>, QoS)>, nat), DecodeError>(
                    (p.packet_id, spec_sub_views(p.topic_filters@), n as nat),
                ),
                Err(e) => spec_subscribe_decode(buf@) == Err::<(u16, Seq<(Seq<char>, QoS)>, nat), DecodeError>(e),
            },
    {
        if buf.len() == 0 {
            return Err(DecodeError::InsufficientData);
        }
        if buf[0] != 0x82 {
            return Err(DecodeError::InvalidPacketFlags);
        }
        proof {
            assert(buf@.subrange(1, buf@.len() as int) =~= buf@.skip(1));
        }
        let (remaining_len, vbi_len) = match VariableByteInteger::decode(&buf[1..buf.len()]) {
            Err(e) => {
                return Err(e);
            },
            Ok(x) => x,
        };
        proof {
            lemma_vbi_decode_canonical(buf@.skip(1));
        }
        let remaining_len = remaining_len.0 as usize;
        let header_len = 1 + vbi_len;
        if buf.len() < header_len + remaining_len {
            return Err(DecodeError::InsufficientData);
        }
        let end = header_len + remaining_len;
        if remaining_len < 2 {
            return Err(DecodeError::MalformedPacket);
        }
        let packet_id = read_be16_at(buf, header_len);
        if packet_id == 0 {
            return Err(DecodeError::MalformedPacket);
        }
        let start = header_len + 2;
        let ghost region = buf@.subrange(start as int, end as int);
        let mut topic_filters: Vec<Subscription> = Vec::new();
        let mut offset = start;
        while offset < end
            invariant
                start <= offset <= end <= buf@.len(),
                spec_sub_items(region) == match spec_sub_items(buf@.subrange(offset as int, end as int)) {
                    Err(e) => Err::<Seq<(Seq<char>, QoS)>, DecodeError>(e),
                    Ok(rest) => Ok(spec_sub_views(topic_filters@) + rest),
                },
            decreases end - offset,
        {
            let ghost rest = buf@.subrange(offset as int, end as int);
            let (topic_filter, n) = match decode_str_at(buf, offset, end) {
                Err(e) => {
                    return Err(malformed_if_insufficient(e));
                },
                Ok(x) => x,
            };
            proof {
                crate::codec::utf8_string::lemma_str_decode_len(rest);
            }
            if !is_valid_topic_filter(topic_filter.as_str()) {
                return Err(DecodeError::MalformedPacket);
            }
            if n >= end - offset {
                return Err(DecodeError::MalformedPacket);
            }
            let options = buf[offset + n];
            let qos = match QoS::from_u8(options & 0x03) {
                None => {
                    return Err(DecodeError::MalformedPacket);
                },
                Some(q) => q,
            };
            if options & 0xFC != 0 {
                return Err(DecodeError::MalformedPacket);
            }
            let ghost before = spec_sub_views(topic_filters@);
            let ghost item = (topic_filter@, qos);
            proof {
                assert(rest[n as int] == options);
                assert(rest.skip(n + 1) =~= buf@.subrange(offset + n + 1, end as int));
            }
            topic_filters.push(Subscription { topic_filter, qos });
            proof {
                assert(spec_sub_views(topic_filters@) =~= before.push(item));
                match spec_sub_items(rest.skip(n + 1)) {
                    Ok(tail) => {
                        assert(before + (seq![item] + tail) =~= before.push(item) + tail);
                    },
                    Err(_) => {},
                }
            }
            offset = offset + n + 1;
        }
        proof {
            assert(buf@.subrange(offset as int, end as int) =~= Seq::<u8>::empty());
            assert(spec_sub_views(topic_filters@) + Seq::<(Seq<char>, QoS)>::empty() =~= spec_sub_views(topic_filters@));
        }
        if topic_filters.len() == 0 {
            return Err(DecodeError::MalformedPacket);
        }
        Ok((Self { packet_id, topic_filters }, end))
    }
}

/// With no filter failing as a string, each filter can be written as one.
proof fn lemma_each_text_ok(subs: Seq<(Seq<char>, QoS)>)
    requires
        spec_first_text_error(subs) is None,
    ensures
        forall|i: int| 0 <= i < subs.len() ==> spec_text_error(#[trigger] subs[i].0) is None,
    decreases subs.len(),
{
    if subs.len() > 0 {
        lemma_each_text_ok(subs.drop_last());
        assert forall|i: int| 0 <= i < subs.len() implies spec_text_error(#[trigger] subs[i].0) is None by {
            if i < subs.len() - 1 {
                assert(subs[i] == subs.drop_last()[i]);
            }
        }
    }
}

/// The wire form of non-empty subscriptions starts with the first one.
proof fn lemma_subs_wire_front(subs: Seq<(Seq<char>, QoS)>)
    requires
        subs.len() > 0,
    ensures
        spec_subs_wire(subs) == spec_str_wire(subs[0].0) + seq![subs[0].1.spec_as_u8()] + spec_subs_wire(
            subs.drop_first(),
        ),
    decreases subs.len(),
{
    let a = spec_str_wire(subs[0].0) + seq![subs[0].1.spec_as_u8()];
    if subs.len() == 1 {
        assert(subs.drop_first() =~= Seq::<(Seq<char>, QoS)>::empty());
        assert(subs.drop_last().len() == 0);
        assert(spec_subs_wire(subs.drop_last()) == Seq::<u8>::empty());
        assert(spec_subs_wire(subs) =~= Seq::<u8>::empty() + spec_str_wire(subs[0].0) + seq![
            subs[0].1.spec_as_u8(),
        ]);
        assert(spec_subs_wire(subs) =~= a + Seq::<u8>::empty());
    } else {
        let dl = subs.drop_last();
        let df = subs.drop_first();
        lemma_subs_wire_front(dl);
        assert(dl.drop_first() =~= df.drop_last());
        assert(df.last() == subs.last());
        assert(dl[0] == subs[0]);
        let b = spec_subs_wire(df.drop_last());
        let c = spec_str_wire(subs.last().0) + seq![subs.last().1.spec_as_u8()];
        assert(spec_subs_wire(subs) =~= (a + b) + c);
        assert(spec_subs_wire(df) =~= b + c);
        assert((a + b) + c =~= a + (b + c));
    }
}

/// The wire form of subscriptions with valid filters that can be written as
/// strings decodes back to the subscriptions.
#[verifier::spinoff_prover]
proof fn lemma_sub_items_of_wire(subs: Seq<(Seq<char>, QoS)>)
    requires
        forall|i: int| 0 <= i < subs.len() ==> spec_text_error(#[trigger] subs[i].0) is None,
        spec_filters_valid(subs),
    ensures
        spec_sub_items(spec_subs_wire(subs)) == Ok::<Seq<(Seq<char>, QoS)>, DecodeError>(subs),
    decreases subs.len(),
{
    if subs.len() == 0 {
        assert(spec_subs_wire(subs).len() == 0);
        assert(subs =~= Seq::<(Seq<char>, QoS)>::empty());
    } else {
        let (f, q) = subs[0];
        let tail = subs.drop_first();
        lemma_subs_wire_front(subs);
        assert(spec_text_error(subs[0].0) is None);
        assert(spec_topic_filter_valid(subs[0].0));
        assert forall|i: int| 0 <= i < tail.len() implies spec_text_error(#[trigger] tail[i].0) is None by {
            assert(tail[i] == subs[i + 1]);
        }
        assert forall|i: int| 0 <= i < tail.len() implies #[trigger] spec_topic_filter_valid(tail[i].0) by {
            assert(tail[i] == subs[i + 1]);
        }
        lemma_sub_items_of_wire(tail);
        let w = spec_subs_wire(subs);
        let qb = q.spec_as_u8();
        let n = 2 + spec_utf8(f).len();
        assert(w =~= spec_str_wire(f) + (seq![qb] + spec_subs_wire(tail)));
        crate::codec::utf8_string::lemma_str_roundtrip(f, seq![qb] + spec_subs_wire(tail));
        assert(w[n as int] == qb);
        crate::codec::qos::lemma_qos_roundtrip(q);
        assert(qb <= 2 ==> qb & 0x03 == qb && qb & 0xFC == 0) by (bit_vector);
        assert(w.skip((n + 1) as int) =~= spec_subs_wire(tail));
        assert(seq![(f, q)] + tail =~= subs);
    }
}

/// Decoding the wire form of a SUBSCRIBE that can be written, followed by any
/// bytes, gives it back and consumes exactly the wire form.
#[verifier::spinoff_prover]
pub proof fn lemma_subscribe_roundtrip(p: Subscribe, rest: Seq<u8>)
    requires
        p.packet_id != 0,
        spec_sub_views(p.topic_filters@).len() > 0,
        spec_filters_valid(spec_sub_views(p.topic_filters@)),
        spec_first_text_error(spec_sub_views(p.topic_filters@)) is None,
        spec_subscribe_len(spec_sub_views(p.topic_filters@)) <= VBI_MAX,
    ensures
        ({
            let subs = spec_sub_views(p.topic_filters@);
            let w = spec_subscribe_wire(p.packet_id, subs);
            spec_subscribe_decode(w + rest) == Ok::<(u16, Seq<(Seq<char>, QoS)>, nat), DecodeError>(
                (p.packet_id, subs, w.len()),
            )
        }),
{
    let subs = spec_sub_views(p.topic_filters@);
    lemma_subscribe_len(subs, 0);
    lemma_each_text_ok(subs);
    lemma_sub_items_of_wire(subs);
    let rem = spec_subscribe_len(subs) as nat;
    let sw = spec_subs_wire(subs);
    let idb = spec_be16(p.packet_id);
    let s = spec_subscribe_wire(p.packet_id, subs) + rest;
    assert(spec_subscribe_wire(p.packet_id, subs) =~= spec_fixed_header(0x82, rem) + idb + sw + Seq::<u8>::empty());
    assert(s =~= spec_fixed_header(0x82, rem) + idb + sw + Seq::<u8>::empty() + rest);
    crate::v5::ack_helper::lemma_frame_layout(0x82, rem, idb, sw, Seq::<u8>::empty(), rest);
    crate::codec::wire::lemma_be16_roundtrip(p.packet_id);
    let vn = spec_vbi_len(rem);
    assert(s[1 + vn as int] == idb[0] && s[2 + vn as int] == idb[1]);
    assert(s.subrange(3 + vn as int, 1 + vn + rem as int) =~= sw) by {
        assert(s.subrange(1 + vn as int, 1 + vn + rem as int) == idb + (sw + Seq::<u8>::empty()));
    }
}

} // verus!
