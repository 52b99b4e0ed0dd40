//! MQTT v5.0 UNSUBSCRIBE packets (MQTT v5.0 §3.10).

use vstd::prelude::*;

use crate::codec::utf8_string::{decode_str_at, spec_str_decode, spec_str_wire, spec_utf8};
use crate::codec::variable_byte_integer::{lemma_vbi_encode_len, spec_vbi_len, VBI_MAX};
use crate::codec::wire::{lemma_splice_append, read_be16_at, spec_be16, spec_read_be16, spec_splice, write_be16_at};
use crate::error::{malformed_if_insufficient, spec_malformed_if_insufficient, DecodeError, EncodeError, EncodeInvalidField};
use crate::topic_filter::{is_valid_v5_topic_filter, spec_v5_topic_filter_valid};
use crate::v5::ack_helper::{
    decode_fixed_header, encode_fixed_header, lemma_fixed_header_roundtrip, spec_fixed_header, spec_fixed_header_check,
    spec_fixed_header_decode,
};
use crate::v5::property::{
    encode_string, lemma_properties_len_matches, lemma_properties_roundtrip, spec_first_property_error, spec_has_duplicate,
    spec_ids_within, spec_properties_decode, spec_properties_len, spec_properties_wire,
    spec_text_error, spec_unsubscribe_ids, Properties, PropertyValue,
};
use crate::v5::subscribe::spec_clamp_usize;

verus! {

/// An MQTT v5.0 UNSUBSCRIBE packet (MQTT v5.0 §3.10).
#[derive(Debug, Clone, PartialEq, Eq)]
pub struct Unsubscribe {
    /// The Packet Identifier.
    pub packet_id: u16,
    /// The Topic Filters to unsubscribe from, at least one.
    pub topic_filters: Vec<String>,
    /// The properties.
    pub properties: Properties,
}

/// The characters of the Topic Filters.
pub open spec fn spec_filter_views(filters: Seq<String>) -> Seq<Seq<char>> {
    filters.map_values(|f: String| f@)
}

/// The remaining length of an UNSUBSCRIBE, as [`Unsubscribe::encoded_len`]
/// sums it with saturating additions.
pub open spec fn spec_unsubscribe_len(ps: Seq<(u8, PropertyValue)>, filters: Seq<Seq<char>>) -> usize
    decreases filters.len(),
{
    if filters.len() == 0 {
        (2usize).saturating_add(spec_properties_len(ps))
    } else {
        spec_unsubscribe_len(ps, filters.drop_last()).saturating_add(2).saturating_add(
            spec_clamp_usize(spec_utf8(filters.last()).len()),
        )
    }
}

/// The wire form of the Topic Filters, one string after another.
pub open spec fn spec_filters_wire(filters: Seq<Seq<char>>) -> Seq<u8>
    decreases filters.len(),
{
    if filters.len() == 0 {
        Seq::empty()
    } else {
        spec_filters_wire(filters.drop_last()) + spec_str_wire(filters.last())
    }
}

/// The wire form of an UNSUBSCRIBE.
pub open spec fn spec_unsubscribe_wire(packet_id: u16, filters: Seq<Seq<char>>, ps: Seq<(u8, PropertyValue)>) -> Seq<u8> {
    spec_fixed_header(0xA2, spec_unsubscribe_len(ps, filters) as nat) + spec_be16(packet_id)
        + spec_properties_wire(ps) + spec_filters_wire(filters)
}

/// Whether every Topic Filter is valid.
pub open spec fn spec_filters_valid(filters: Seq<Seq<char>>) -> bool {
    forall|i: int| 0 <= i < filters.len() ==> #[trigger] spec_v5_topic_filter_valid(filters[i])
}

/// The error of the first Topic Filter that cannot be written as a string, if
/// any.
pub open spec fn spec_first_text_error(filters: Seq<Seq<char>>) -> Option<EncodeError>
    decreases filters.len(),
{
    if filters.len() == 0 {
        None
    } else {
        match spec_first_text_error(filters.drop_last()) {
            Some(e) => Some(e),
            None => spec_text_error(filters.last()),
        }
    }
}

/// Why an UNSUBSCRIBE cannot be written, if it cannot: a Packet Identifier of
/// 0, no Topic Filter, an invalid Topic Filter, properties that UNSUBSCRIBE
/// does not allow, or a repeated property.
pub open spec fn spec_unsubscribe_check(packet_id: u16, filters: Seq<Seq<char>>, ps: Seq<(u8, PropertyValue)>) -> Result<(), EncodeError> {
    if packet_id == 0 {
        Err(EncodeError::InvalidField { reason: EncodeInvalidField::ZeroPacketId })
    } else if filters.len() == 0 {
        Err(EncodeError::InvalidField { reason: EncodeInvalidField::EmptyTopicFilters })
    } else if !spec_filters_valid(filters) {
        Err(EncodeError::InvalidField { reason: EncodeInvalidField::InvalidTopicFilter })
    } else if !spec_ids_within(ps, spec_unsubscribe_ids()) {
        Err(EncodeError::InvalidField { reason: EncodeInvalidField::PropertyValidationFailed })
    } else if spec_has_duplicate(ps, false) {
        Err(EncodeError::InvalidField { reason: EncodeInvalidField::DuplicatePropertyIdentifier })
    } else {
        Ok(())
    }
}

/// What writing an UNSUBSCRIBE that passed its check into a buffer of
/// `buf_len` bytes returns.
pub open spec fn spec_unsubscribe_result(packet_id: u16, filters: Seq<Seq<char>>, ps: Seq<(u8, PropertyValue)>, buf_len: nat) -> Result<usize, EncodeError> {
    match spec_fixed_header_check(spec_unsubscribe_len(ps, filters), buf_len) {
        Err(e) => Err(e),
        Ok(()) => match spec_first_property_error(ps) {
            Some(e) => Err(e),
            None => match spec_first_text_error(filters) {
                Some(e) => Err(e),
                None => Ok(spec_unsubscribe_wire(packet_id, filters, ps).len() as usize),
            },
        },
    }
}

/// The Topic Filters that fill the bytes `s` exactly, decoded one after
/// another; a string cut short or an invalid Topic Filter is malformed.
pub open spec fn spec_filter_items(s: Seq<u8>) -> Result<Seq<Seq<char>>, DecodeError>
    decreases s.len(),
{
    if s.len() == 0 {
        Ok(Seq::empty())
    } else {
        match spec_str_decode(s) {
            Err(e) => Err(spec_malformed_if_insufficient(e)),
            Ok((f, n)) => if !spec_v5_topic_filter_valid(f) {
                Err(DecodeError::MalformedPacket)
            } else {
                proof {
                    crate::codec::utf8_string::lemma_str_decode_len(s);
                }
                match spec_filter_items(s.skip(n as int)) {
                    Err(e) => Err(e),
                    Ok(rest) => Ok(seq![f] + rest),
                }
            },
        }
    }
}

/// The result of decoding an UNSUBSCRIBE from the start of `s`: the Packet
/// Identifier, the Topic Filters, the properties and the bytes consumed.
pub open spec fn spec_unsubscribe_decode(s: Seq<u8>) -> Result<(u16, Seq<Seq<char>>, Seq<(u8, PropertyValue)>, nat), DecodeError> {
    match spec_fixed_header_decode(s, 0xA0, 0x02) {
        Err(e) => Err(e),
        Ok((rem, h)) => if rem < 2 || spec_read_be16(s, h as int) == 0 {
            Err(DecodeError::MalformedPacket)
        } else {
            match spec_properties_decode(s.subrange(h + 2 as int, h + rem as int), false) {
                Err(e) => Err(e),
                Ok((ps, n)) => if !spec_ids_within(ps, spec_unsubscribe_ids()) {
                    Err(DecodeError::MalformedPacket)
                } else {
                    match spec_filter_items(s.subrange(h + 2 + n as int, h + rem as int)) {
                        Err(e) => Err(e),
                        Ok(filters) => if filters.len() == 0 {
                            Err(DecodeError::MalformedPacket)
                        } else {
                            Ok((spec_read_be16(s, h as int), filters, ps, h + rem))
                        },
                    }
                },
            }
        },
    }
}

/// Without saturation, the remaining length is the Packet Identifier, the
/// properties and the filters' wire form; shorter prefixes have no longer
/// remaining lengths.
proof fn lemma_unsubscribe_len(ps: Seq<(u8, PropertyValue)>, filters: Seq<Seq<char>>, i: int)
    requires
        0 <= i <= filters.len(),
        spec_unsubscribe_len(ps, filters) <= VBI_MAX,
    ensures
        spec_unsubscribe_len(ps, filters.take(i)) <= spec_unsubscribe_len(ps, filters),
        spec_unsubscribe_len(ps, filters) == 2 + spec_properties_len(ps) + spec_filters_wire(filters).len(),
    decreases filters.len(),
{
    if filters.len() > 0 {
        let prefix = filters.drop_last();
        lemma_unsubscribe_len(ps, prefix, if i < filters.len() { i } else { 0 });
        if i < filters.len() {
            assert(filters.take(i) =~= prefix.take(i));
        } else {
            assert(filters.take(i) =~= filters);
        }
    }
}

/// Once a filter fails as a string, that failure stays the first.
proof fn lemma_text_error_sticks(filters: Seq<Seq<char>>, i: int, j: int)
    requires
        0 <= i <= j <= filters.len(),
        spec_first_text_error(filters.take(i)) is Some,
    ensures
        spec_first_text_error(filters.take(j)) == spec_first_text_error(filters.take(i)),
    decreases j - i,
{
    if i < j {
        lemma_text_error_sticks(filters, i, j - 1);
        assert(filters.take(j).drop_last() =~= filters.take(j - 1));
    }
}

impl Unsubscribe {
    /// Returns the remaining length of the encoded packet.
    pub fn encoded_len(&self) -> (r: usize)
        ensures
            r == spec_unsubscribe_len(self.properties@, spec_filter_views(self.topic_filters@)),
    {
        let ghost filters = spec_filter_views(self.topic_filters@);
        let mut len = 2usize.saturating_add(self.properties.encoded_len());
        let mut i: usize = 0;
        while i < self.topic_filters.len()
            invariant
                i <= filters.len(),
                filters == spec_filter_views(self.topic_filters@),
                len == spec_unsubscribe_len(self.properties@, filters.take(i as int)),
            decreases filters.len() - i,
        {
            proof {
                assert(filters.take(i + 1).drop_last() =~= filters.take(i as int));
            }
            len = len.saturating_add(2).saturating_add(self.topic_filters[i].as_str().as_bytes().len());
            i = i + 1;
        }
        proof {
            assert(filters.take(i as int) =~= filters);
        }
        len
    }

    /// Encodes the packet into `buf` and returns the number of bytes written.
    ///
    /// After an error in a property or a Topic Filter, the bytes before it have
    /// been written.
    pub fn encode(&self, buf: &mut [u8]) -> (r: Result<usize, EncodeError>)
        ensures
            final(buf)@.len() == old(buf)@.len(),
            r == match spec_unsubscribe_check(self.packet_id, spec_filter_views(self.topic_filters@), self.properties@) {
                Err(e) => Err::<usize, EncodeError>(e),
                Ok(()) => spec_unsubscribe_result(self.packet_id, spec_filter_views(self.topic_filters@), self.properties@, old(buf)@.len()),
            },
            r is Ok ==> final(buf)@ == spec_splice(
                old(buf)@,
                0,
                spec_unsubscribe_wire(self.packet_id, spec_filter_views(self.topic_filters@), self.properties@),
            ),
            spec_unsubscribe_check(self.packet_id, spec_filter_views(self.topic_filters@), self.properties@) is Err
                || spec_fixed_header_check(spec_unsubscribe_len(self.properties@, spec_filter_views(self.topic_filters@)), old(buf)@.len()) is Err
                ==> final(buf)@ == old(buf)@,
    {
        let ghost filters = spec_filter_views(self.topic_filters@);
        match self.validate() {
            Err(e) => {
                return Err(e);
            },
            Ok(()) => {},
        }
        let remaining_len = self.encoded_len();
        let offset = match encode_fixed_header(buf, 0xA2, 0x00, remaining_len) {
            Err(e) => {
                return Err(e);
            },
            Ok(n) => n,
        };
        proof {
            assert((0xA2u8 | 0x00u8) == 0xA2u8) by (bit_vector);
            lemma_vbi_encode_len(remaining_len as nat);
            lemma_unsubscribe_len(self.properties@, filters, 0);
        }
        let ghost header = spec_fixed_header(0xA2, remaining_len as nat);
        write_be16_at(buf, offset, self.packet_id);
        proof {
            lemma_splice_append(old(buf)@, 0, header, spec_be16(self.packet_id));
        }
        let n = match self.properties.encode_at(buf, offset + 2) {
            Err(e) => {
                return Err(e);
            },
            Ok(n) => n,
        };
        let ghost prefix = header + spec_be16(self.packet_id) + spec_properties_wire(self.properties@);
        proof {
            lemma_splice_append(
                old(buf)@,
                0,
                header + spec_be16(self.packet_id),
                spec_properties_wire(self.properties@),
            );
            lemma_properties_len_matches(self.properties@);
        }
        let ghost after_props = buf@;
        let start = offset + 2 + n;
        let buf_len = buf.len();
        let mut pos = start;
        let mut i: usize = 0;
        while i < self.topic_filters.len()
            invariant
                i <= filters.len(),
                filters == spec_filter_views(self.topic_filters@),
                start == prefix.len(),
                start == offset + 2 + spec_properties_len(self.properties@),
                offset == 1 + spec_vbi_len(remaining_len as nat),
                remaining_len == spec_unsubscribe_len(self.properties@, filters),
                remaining_len <= VBI_MAX,
                offset + remaining_len <= buf_len,
                buf_len == buf@.len(),
                buf@.len() == old(buf)@.len(),
                after_props == spec_splice(old(buf)@, 0, prefix),
                pos == start + spec_filters_wire(filters.take(i as int)).len(),
                spec_first_text_error(filters.take(i as int)) is None,
                spec_unsubscribe_check(self.packet_id, filters, self.properties@) is Ok,
                spec_fixed_header_check(remaining_len, old(buf)@.len()) is Ok,
                spec_first_property_error(self.properties@) is None,
                buf@ == spec_splice(after_props, start as int, spec_filters_wire(filters.take(i as int))),
            decreases filters.len() - i,
        {
            let filter = &self.topic_filters[i];
            proof {
                assert(filters.take(i + 1).drop_last() =~= filters.take(i as int));
                assert(filters[i as int] == filter@);
                lemma_unsubscribe_len(self.properties@, filters, i + 1);
                lemma_unsubscribe_len(self.properties@, filters.take(i + 1), i + 1);
                assert(filters.take(i + 1).take(i + 1) =~= filters.take(i + 1));
            }
            let n1 = match encode_string(filter.as_str(), buf, pos) {
                Err(e) => {
                    proof {
                        lemma_text_error_sticks(filters, i + 1, filters.len() as int);
                        assert(filters.take(filters.len() as int) =~= filters);
                    }
                    return Err(e);
                },
                Ok(n1) => n1,
            };
            proof {
                lemma_splice_append(after_props, start as int, spec_filters_wire(filters.take(i as int)), spec_str_wire(filter@));
            }
            pos = pos + n1;
            i = i + 1;
        }
        proof {
            assert(filters.take(i as int) =~= filters);
            lemma_splice_append(old(buf)@, 0, prefix, spec_filters_wire(filters));
        }
        Ok(pos)
    }

    /// Decodes an UNSUBSCRIBE from the start of `buf` and returns it with the
    /// number of bytes consumed.
    #[verifier::loop_isolation(false)]
    pub fn decode(buf: &[u8]) -> (r: Result<(Self, usize), DecodeError>)
        ensures
            match r {
                Ok((p, n)) => spec_unsubscribe_decode(buf@) == Ok::<(u16, Seq<Seq<char>>, Seq<(u8, PropertyValue)>, nat), DecodeError>(
                    (p.packet_id, spec_filter_views(p.topic_filters@), p.properties@, n as nat),
                ),
                Err(e) => spec_unsubscribe_decode(buf@) == Err::<(u16, Seq<Seq<char>>, Seq<(u8, PropertyValue)>, nat), DecodeError>(e),
            },
    {
        let (remaining_len, header_len, end) = match decode_fixed_header(buf, 0xA0, 0x02) {
            Err(e) => {
                return Err(e);
            },
            Ok(x) => x,
        };
        if remaining_len < 2 {
            return Err(DecodeError::MalformedPacket);
        }
        let packet_id = read_be16_at(buf, header_len);
        if packet_id == 0 {
            return Err(DecodeError::MalformedPacket);
        }
        let (properties, n) = match Properties::decode(&buf[header_len + 2..end]) {
            Err(e) => {
                return Err(e);
            },
            Ok(x) => x,
        };
        match properties.validate_for_unsubscribe() {
            Err(e) => {
                return Err(e);
            },
            Ok(()) => {},
        }
        let start = header_len + 2 + n;
        let ghost region = buf@.subrange(start as int, end as int);
        let mut topic_filters: Vec<String> = Vec::new();
        let mut offset = start;
        while offset < end
            invariant
                start <= offset <= end <= buf@.len(),
                spec_filter_items(region) == match spec_filter_items(buf@.subrange(offset as int, end as int)) {
                    Err(e) => Err::<Seq<Seq<char>>, DecodeError>(e),
                    Ok(rest) => Ok(spec_filter_views(topic_filters@) + rest),
                },
            decreases end - offset,
        {
            let ghost rest = buf@.subrange(offset as int, end as int);
            let (filter, n) = match decode_str_at(buf, offset, end) {
                Err(e) => {
                    return Err(malformed_if_insufficient(e));
                },
                Ok(x) => x,
            };
            proof {
                crate::codec::utf8_string::lemma_str_decode_len(rest);
            }
            if !is_valid_v5_topic_filter(filter.as_str()) {
                return Err(DecodeError::MalformedPacket);
            }
            let ghost before = spec_filter_views(topic_filters@);
            proof {
                assert(rest.skip(n as int) =~= buf@.subrange(offset + n, end as int));
            }
            let ghost f = filter@;
            topic_filters.push(filter);
            proof {
                assert(spec_filter_views(topic_filters@) =~= before.push(f));
                match spec_filter_items(rest.skip(n as int)) {
                    Ok(tail) => {
                        assert(before + (seq![f] + tail) =~= before.push(f) + tail);
                    },
                    Err(_) => {},
                }
            }
            offset = offset + n;
        }
        proof {
            assert(buf@.subrange(offset as int, end as int) =~= Seq::<u8>::empty());
            assert(spec_filter_views(topic_filters@) + Seq::<Seq<char>>::empty() =~= spec_filter_views(topic_filters@));
        }
        if topic_filters.len() == 0 {
            return Err(DecodeError::MalformedPacket);
        }
        Ok((Self { packet_id, topic_filters, properties }, end))
    }

    /// Checks what the packet must satisfy before it is written.
    #[verifier::loop_isolation(false)]
    fn validate(&self) -> (r: Result<(), EncodeError>)
        ensures
            r == spec_unsubscribe_check(self.packet_id, spec_filter_views(self.topic_filters@), self.properties@),
    {
        let ghost filters = spec_filter_views(self.topic_filters@);
        if self.packet_id == 0 {
            return Err(EncodeError::InvalidField { reason: EncodeInvalidField::ZeroPacketId });
        }
        if self.topic_filters.len() == 0 {
            return Err(EncodeError::InvalidField { reason: EncodeInvalidField::EmptyTopicFilters });
        }
        let mut i: usize = 0;
        while i < self.topic_filters.len()
            invariant
                i <= filters.len(),
                forall|j: int| 0 <= j < i ==> #[trigger] spec_v5_topic_filter_valid(filters[j]),
            decreases filters.len() - i,
        {
            if !is_valid_v5_topic_filter(self.topic_filters[i].as_str()) {
                assert(!spec_v5_topic_filter_valid(filters[i as int]));
                return Err(EncodeError::InvalidField { reason: EncodeInvalidField::InvalidTopicFilter });
            }
            i = i + 1;
        }
        if self.properties.validate_for_unsubscribe().is_err() {
            return Err(
                EncodeError::InvalidField { reason: EncodeInvalidField::PropertyValidationFailed },
            );
        }
        if self.properties.validate_duplicate_identifiers(false).is_err() {
            return Err(
                EncodeError::InvalidField { reason: EncodeInvalidField::DuplicatePropertyIdentifier },
            );
        }
        Ok(())
    }
}

/// With no filter failing as a string, each filter can be written as one.
proof fn lemma_each_text_ok(filters: Seq<Seq<char>>)
    requires
        spec_first_text_error(filters) is None,
    ensures
        forall|i: int| 0 <= i < filters.len() ==> spec_text_error(#[trigger] filters[i]) is None,
    decreases filters.len(),
{
    if filters.len() > 0 {
        lemma_each_text_ok(filters.drop_last());
        assert forall|i: int| 0 <= i < filters.len() implies spec_text_error(#[trigger] filters[i]) is None by {
            if i < filters.len() - 1 {
                assert(filters[i] == filters.drop_last()[i]);
            }
        }
    }
}

/// The wire form of non-empty filters starts with the first one.
proof fn lemma_filters_wire_front(filters: Seq<Seq<char>>)
    requires
        filters.len() > 0,
    ensures
        spec_filters_wire(filters) == spec_str_wire(filters[0]) + spec_filters_wire(filters.drop_first()),
    decreases filters.len(),
{
    let a = spec_str_wire(filters[0]);
    if filters.len() == 1 {
        assert(filters.drop_first() =~= Seq::<Seq<char>>::empty());
        assert(filters.drop_last().len() == 0);
        assert(spec_filters_wire(filters.drop_last()) == Seq::<u8>::empty());
        assert(spec_filters_wire(filters) =~= Seq::<u8>::empty() + spec_str_wire(filters[0]));
        assert(spec_filters_wire(filters) =~= a + Seq::<u8>::empty());
    } else {
        let dl = filters.drop_last();
        let df = filters.drop_first();
        lemma_filters_wire_front(dl);
        assert(dl.drop_first() =~= df.drop_last());
        assert(df.last() == filters.last());
        assert(dl[0] == filters[0]);
        let b = spec_filters_wire(df.drop_last());
        let c = spec_str_wire(filters.last());
        assert(spec_filters_wire(filters) =~= (a + b) + c);
        assert(spec_filters_wire(df) =~= b + c);
        assert((a + b) + c =~= a + (b + c));
    }
}

/// The wire form of valid filters that can be written as strings decodes back
/// to the filters.
#[verifier::spinoff_prover]
proof fn lemma_filter_items_of_wire(filters: Seq<Seq<char>>)
    requires
        forall|i: int| 0 <= i < filters.len() ==> spec_text_error(#[trigger] filters[i]) is None,
        spec_filters_valid(filters),
    ensures
        spec_filter_items(spec_filters_wire(filters)) == Ok::<Seq<Seq<char>>, DecodeError>(filters),
    decreases filters.len(),
{
    if filters.len() == 0 {
        assert(spec_filters_wire(filters).len() == 0);
        assert(filters =~= Seq::<Seq<char>>::empty());
    } else {
        let f = filters[0];
        let tail = filters.drop_first();
        lemma_filters_wire_front(filters);
        assert(spec_text_error(filters[0]) is None);
        assert(spec_v5_topic_filter_valid(filters[0]));
        assert forall|i: int| 0 <= i < tail.len() implies spec_text_error(#[trigger] tail[i]) is None by {
            assert(tail[i] == filters[i + 1]);
        }
        assert forall|i: int| 0 <= i < tail.len() implies #[trigger] spec_v5_topic_filter_valid(tail[i]) by {
            assert(tail[i] == filters[i + 1]);
        }
        lemma_filter_items_of_wire(tail);
        let w = spec_filters_wire(filters);
        crate::codec::utf8_string::lemma_str_roundtrip(f, spec_filters_wire(tail));
        assert(w.skip(spec_str_wire(f).len() as int) =~= spec_filters_wire(tail));
        assert(seq![f] + tail =~= filters);
    }
}

/// Decoding the wire form of an UNSUBSCRIBE that can be written, followed by
/// any bytes, gives it back and consumes exactly the wire form.
#[verifier::spinoff_prover]
#[verifier::rlimit(50)]
pub proof fn lemma_unsubscribe_roundtrip(p: Unsubscribe, rest: Seq<u8>)
    requires
        spec_unsubscribe_check(p.packet_id, spec_filter_views(p.topic_filters@), p.properties@) is Ok,
        spec_first_property_error(p.properties@) is None,
        spec_first_text_error(spec_filter_views(p.topic_filters@)) is None,
        spec_unsubscribe_len(p.properties@, spec_filter_views(p.topic_filters@)) <= VBI_MAX,
    ensures
        ({
            let filters = spec_filter_views(p.topic_filters@);
            let w = spec_unsubscribe_wire(p.packet_id, filters, p.properties@);
            spec_unsubscribe_decode(w + rest) == Ok::<
                (u16, Seq<Seq<char>>, Seq<(u8, PropertyValue)>, nat),
                DecodeError,
            >((p.packet_id, filters, p.properties@, w.len()))
        }),
{
    let filters = spec_filter_views(p.topic_filters@);
    let ps = p.properties@;
    lemma_unsubscribe_len(ps, filters, 0);
    assert(crate::v5::property::spec_payload_len(ps) <= VBI_MAX);
    lemma_properties_len_matches(ps);
    lemma_each_text_ok(filters);
    lemma_filter_items_of_wire(filters);
    let rem = spec_unsubscribe_len(ps, filters) as nat;
    let pw = spec_properties_wire(ps);
    let fw = spec_filters_wire(filters);
    let idb = spec_be16(p.packet_id);
    let body = idb + pw + fw;
    let header = spec_fixed_header(0xA2, rem);
    let s = spec_unsubscribe_wire(p.packet_id, filters, ps) + rest;
    assert((0xA0u8 | 0x02u8) == 0xA2u8 && (0xA0u8 | 0x02u8) & 0xF0 == 0xA0u8 && (0xA0u8 | 0x02u8) & 0x0F == 0x02u8)
        by (bit_vector);
    assert(s =~= header + (body + rest));
    lemma_fixed_header_roundtrip(0xA0, 0x02, rem, body + rest);
    let h = header.len() as int;
    crate::codec::wire::lemma_be16_roundtrip(p.packet_id);
    assert(s[h] == idb[0] && s[h + 1] == idb[1]);
    assert(s.subrange(h + 2, h + rem) =~= pw + fw);
    lemma_properties_roundtrip(p.properties, false, fw);
    assert(s.subrange(h + 2 + pw.len(), h + rem) =~= fw);
}

} // verus!
