//! MQTT v5.0 SUBSCRIBE packets (MQTT v5.0 §3.8).

use vstd::prelude::*;

use crate::codec::qos::QoS;
use crate::codec::utf8_string::{decode_str_at, spec_str_decode, spec_str_wire, spec_utf8};
use crate::codec::variable_byte_integer::{lemma_vbi_encode_len, VBI_MAX};
use crate::codec::wire::{lemma_splice_append, read_be16_at, spec_be16, spec_read_be16, spec_splice, write_be16_at};
use crate::error::{malformed_if_insufficient, spec_malformed_if_insufficient, DecodeError, EncodeError, EncodeInvalidField};
use crate::state::subscribe::SubscriptionEntry;
use crate::topic_filter::{has_share_prefix, is_valid_v5_topic_filter, spec_has_share_prefix, spec_v5_topic_filter_valid};
use crate::v5::ack_helper::{
    decode_fixed_header, encode_fixed_header, lemma_fixed_header_roundtrip, spec_fixed_header, spec_fixed_header_check,
    spec_fixed_header_decode,
};
use crate::v5::property::{
    encode_string, lemma_properties_len_matches, lemma_properties_roundtrip, spec_first_property_error, spec_has_duplicate,
    spec_ids_within, spec_properties_decode, spec_properties_len, spec_properties_wire,
    spec_subscribe_ids, spec_text_error, Properties, PropertyValue,
};

verus! {

/// The Retain Handling subscription option (MQTT v5.0 §3.8.3.1).
///
/// The default, 0, sends retained messages when the subscription is made,
/// which is also what MQTT v3.1.1 does (MQTT v3.1.1 §3.3.1.3 [MQTT-3.3.1-6]).
#[derive(Debug, Clone, Copy, PartialEq, Eq, Structural)]
pub enum RetainHandling {
    /// Send retained messages when the subscription is made (0).
    SendRetained,
    /// Send retained messages only if the subscription did not exist (1).
    SendRetainedIfNotExists,
    /// Do not send retained messages when the subscription is made (2).
    DoNotSendRetained,
}

impl RetainHandling {
    /// The numeric value of the option.
    pub open spec fn spec_as_u8(self) -> u8 {
        match self {
            RetainHandling::SendRetained => 0,
            RetainHandling::SendRetainedIfNotExists => 1,
            RetainHandling::DoNotSendRetained => 2,
        }
    }

    /// The option with the numeric value `value`, if any.
    pub open spec fn spec_from_u8(value: u8) -> Option<RetainHandling> {
        if value == 0 {
            Some(RetainHandling::SendRetained)
        } else if value == 1 {
            Some(RetainHandling::SendRetainedIfNotExists)
        } else if value == 2 {
            Some(RetainHandling::DoNotSendRetained)
        } else {
            None
        }
    }

    /// Returns the option with the numeric value `value`; other values give `None`.
    pub fn from_u8(value: u8) -> (r: Option<Self>)
        ensures
            r == Self::spec_from_u8(value),
    {
        match value {
            0 => Some(RetainHandling::SendRetained),
            1 => Some(RetainHandling::SendRetainedIfNotExists),
            2 => Some(RetainHandling::DoNotSendRetained),
            _ => None,
        }
    }

    /// Returns the numeric value of the option.
    pub fn as_u8(self) -> (r: u8)
        ensures
            r == self.spec_as_u8(),
    {
        match self {
            RetainHandling::SendRetained => 0,
            RetainHandling::SendRetainedIfNotExists => 1,
            RetainHandling::DoNotSendRetained => 2,
        }
    }
}

impl Default for RetainHandling {
    fn default() -> (r: Self)
        ensures
            r == RetainHandling::SendRetained,
    {
        RetainHandling::SendRetained
    }
}

/// One subscription of a SUBSCRIBE packet.
#[derive(Debug, Clone, PartialEq, Eq)]
pub struct Subscription {
    /// The Topic Filter.
    pub topic_filter: String,
    /// The maximum QoS requested.
    pub qos: QoS,
    /// The No Local option.
    pub no_local: bool,
    /// The Retain As Published option.
    pub retain_as_published: bool,
    /// The Retain Handling option.
    pub retain_handling: RetainHandling,
}

/// The abstract value of a [`Subscription`].
pub struct SubscriptionView {
    /// The Topic Filter.
    pub topic_filter: Seq<char>,
    /// The maximum QoS requested.
    pub qos: QoS,
    /// The No Local option.
    pub no_local: bool,
    /// The Retain As Published option.
    pub retain_as_published: bool,
    /// The Retain Handling option.
    pub retain_handling: RetainHandling,
}

impl View for Subscription {
    type V = SubscriptionView;

    open spec fn view(&self) -> SubscriptionView {
        SubscriptionView {
            topic_filter: self.topic_filter@,
            qos: self.qos,
            no_local: self.no_local,
            retain_as_published: self.retain_as_published,
            retain_handling: self.retain_handling,
        }
    }
}

impl From<SubscriptionEntry> for Subscription {
    /// Takes the Topic Filter, the requested QoS and the options of an entry.
    fn from(entry: SubscriptionEntry) -> (r: Self) {
        Self {
            topic_filter: entry.topic_filter,
            qos: entry.requested_qos,
            no_local: entry.no_local,
            retain_as_published: entry.retain_as_published,
            retain_handling: entry.retain_handling,
        }
    }
}

impl vstd::std_specs::convert::FromSpecImpl<SubscriptionEntry> for Subscription {
    open spec fn obeys_from_spec() -> bool {
        true
    }

    open spec fn from_spec(entry: SubscriptionEntry) -> Self {
        Self {
            topic_filter: entry.topic_filter,
            qos: entry.requested_qos,
            no_local: entry.no_local,
            retain_as_published: entry.retain_as_published,
            retain_handling: entry.retain_handling,
        }
    }
}

/// The Subscription Options byte (MQTT v5.0 §3.8.3.1): the QoS in bits 0-1, No
/// Local in bit 2, Retain As Published in bit 3, Retain Handling in bits 4-5.
pub open spec fn spec_options_byte(sub: SubscriptionView) -> u8 {
    sub.qos.spec_as_u8() | (if sub.no_local {
        0x04u8
    } else {
        0u8
    }) | (if sub.retain_as_published {
        0x08u8
    } else {
        0u8
    }) | (sub.retain_handling.spec_as_u8() << 4u8)
}

impl Subscription {
    /// Returns the Subscription Options byte.
    fn options_byte(&self) -> (r: u8)
        ensures
            r == spec_options_byte(self@),
    {
        let no_local: u8 = if self.no_local {
            0x04
        } else {
            0
        };
        let retain_as_published: u8 = if self.retain_as_published {
            0x08
        } else {
            0
        };
        self.qos.as_u8() | no_local | retain_as_published | (self.retain_handling.as_u8() << 4u8)
    }
}

/// An MQTT v5.0 SUBSCRIBE packet (MQTT v5.0 §3.8).
#[derive(Debug, Clone, PartialEq, Eq)]
pub struct Subscribe {
    /// The Packet Identifier.
    pub packet_id: u16,
    /// The subscriptions, at least one.
    pub subscriptions: Vec<Subscription>,
    /// The properties.
    pub properties: Properties,
}

/// The abstract values of subscriptions.
pub open spec fn spec_sub_views(subs: Seq<Subscription>) -> Seq<SubscriptionView> {
    subs.map_values(|s: Subscription| s@)
}

/// `n` as a `usize`, or `usize::MAX` when it does not fit.
pub open spec fn spec_clamp_usize(n: nat) -> usize {
    if n > usize::MAX {
        usize::MAX
    } else {
        n as usize
    }
}

/// The remaining length of a SUBSCRIBE, as [`Subscribe::encoded_len`] sums it
/// with saturating additions.
pub open spec fn spec_subscribe_len(ps: Seq<(u8, PropertyValue)>, subs: Seq<SubscriptionView>) -> usize
    decreases subs.len(),
{
    if subs.len() == 0 {
        (2usize).saturating_add(spec_properties_len(ps))
    } else {
        spec_subscribe_len(ps, subs.drop_last()).saturating_add(2).saturating_add(
            spec_clamp_usize(spec_utf8(subs.last().topic_filter).len()),
        ).saturating_add(1)
    }
}

/// The wire form of the subscriptions: each Topic Filter, then its options.
pub open spec fn spec_subs_wire(subs: Seq<SubscriptionView>) -> Seq<u8>
    decreases subs.len(),
{
    if subs.len() == 0 {
        Seq::empty()
    } else {
        spec_subs_wire(subs.drop_last()) + spec_str_wire(subs.last().topic_filter) + seq![
            spec_options_byte(subs.last()),
        ]
    }
}

/// The wire form of a SUBSCRIBE.
pub open spec fn spec_subscribe_wire(packet_id: u16, subs: Seq<SubscriptionView>, ps: Seq<(u8, PropertyValue)>) -> Seq<u8> {
    spec_fixed_header(0x82, spec_subscribe_len(ps, subs) as nat) + spec_be16(packet_id)
        + spec_properties_wire(ps) + spec_subs_wire(subs)
}

/// Why a subscription cannot be sent, if it cannot: an invalid Topic Filter, or
/// No Local on a shared subscription (MQTT v5.0 §3.8.3.1, [MQTT-3.8.3-4]).
pub open spec fn spec_sub_error(sub: SubscriptionView) -> Option<EncodeError> {
    if !spec_v5_topic_filter_valid(sub.topic_filter) {
        Some(EncodeError::InvalidField { reason: EncodeInvalidField::InvalidTopicFilter })
    } else if sub.no_local && spec_has_share_prefix(spec_utf8(sub.topic_filter)) {
        Some(EncodeError::InvalidField { reason: EncodeInvalidField::SharedSubscriptionNoLocal })
    } else {
        None
    }
}

/// The error of the first subscription that cannot be sent, if any.
pub open spec fn spec_first_sub_error(subs: Seq<SubscriptionView>) -> Option<EncodeError>
    decreases subs.len(),
{
    if subs.len() == 0 {
        None
    } else {
        match spec_first_sub_error(subs.drop_last()) {
            Some(e) => Some(e),
            None => spec_sub_error(subs.last()),
        }
    }
}

/// The error of the first Topic Filter that cannot be written as a string, if
/// any.
pub open spec fn spec_first_filter_text_error(subs: Seq<SubscriptionView>) -> Option<EncodeError>
    decreases subs.len(),
{
    if subs.len() == 0 {
        None
    } else {
        match spec_first_filter_text_error(subs.drop_last()) {
            Some(e) => Some(e),
            None => spec_text_error(subs.last().topic_filter),
        }
    }
}

/// Why a SUBSCRIBE cannot be written, if it cannot: a Packet Identifier of 0,
/// no subscription, a subscription that cannot be sent, properties that
/// SUBSCRIBE does not allow, or a repeated property.
pub open spec fn spec_subscribe_check(packet_id: u16, subs: Seq<SubscriptionView>, ps: Seq<(u8, PropertyValue)>) -> Result<(), EncodeError> {
    if packet_id == 0 {
        Err(EncodeError::InvalidField { reason: EncodeInvalidField::ZeroPacketId })
    } else if subs.len() == 0 {
        Err(EncodeError::InvalidField { reason: EncodeInvalidField::EmptySubscriptions })
    } else if spec_first_sub_error(subs) is Some {
        Err(spec_first_sub_error(subs)->Some_0)
    } else if !spec_ids_within(ps, spec_subscribe_ids()) {
        Err(EncodeError::InvalidField { reason: EncodeInvalidField::PropertyValidationFailed })
    } else if spec_has_duplicate(ps, false) {
        Err(EncodeError::InvalidField { reason: EncodeInvalidField::DuplicatePropertyIdentifier })
    } else {
        Ok(())
    }
}

/// What writing a SUBSCRIBE that passed its check into a buffer of `buf_len`
/// bytes returns.
pub open spec fn spec_subscribe_result(packet_id: u16, subs: Seq<SubscriptionView>, ps: Seq<(u8, PropertyValue)>, buf_len: nat) -> Result<usize, EncodeError> {
    match spec_fixed_header_check(spec_subscribe_len(ps, subs), buf_len) {
        Err(e) => Err(e),
        Ok(()) => match spec_first_property_error(ps) {
            Some(e) => Err(e),
            None => match spec_first_filter_text_error(subs) {
                Some(e) => Err(e),
                None => Ok(spec_subscribe_wire(packet_id, subs, ps).len() as usize),
            },
        },
    }
}

/// The result of decoding one subscription from the start of `s`: the
/// subscription and the bytes consumed. A Topic Filter cut short, an invalid
/// Topic Filter, missing options, QoS 3, Retain Handling 3, reserved option
/// bits, or No Local on a shared subscription are malformed.
pub open spec fn spec_sub_item_decode(s: Seq<u8>) -> Result<(SubscriptionView, nat), DecodeError> {
    match spec_str_decode(s) {
        Err(e) => Err(spec_malformed_if_insufficient(e)),
        Ok((tf, n)) => if !spec_v5_topic_filter_valid(tf) || n >= s.len() {
            Err(DecodeError::MalformedPacket)
        } else {
            let o = s[n as int];
            match (QoS::spec_from_u8(o & 0x03), RetainHandling::spec_from_u8((o >> 4u8) & 0x03)) {
                (Some(q), Some(rh)) => if o & 0xC0 != 0 || (o & 0x04 != 0 && spec_has_share_prefix(
                    spec_utf8(tf),
                )) {
                    Err(DecodeError::MalformedPacket)
                } else {
                    Ok(
                        (
                            SubscriptionView {
                                topic_filter: tf,
                                qos: q,
                                no_local: o & 0x04 != 0,
                                retain_as_published: o & 0x08 != 0,
                                retain_handling: rh,
                            },
                            n + 1,
                        ),
                    )
                },
                _ => Err(DecodeError::MalformedPacket),
            }
        },
    }
}

/// The subscriptions that fill the bytes `s` exactly, decoded one after
/// another.
pub open spec fn spec_sub_items(s: Seq<u8>) -> Result<Seq<SubscriptionView>, DecodeError>
    decreases s.len(),
{
    if s.len() == 0 {
        Ok(Seq::empty())
    } else {
        match spec_sub_item_decode(s) {
            Err(e) => Err(e),
            Ok((sub, n)) => {
                proof {
                    crate::codec::utf8_string::lemma_str_decode_len(s);
                }
                match spec_sub_items(s.skip(n as int)) {
                    Err(e) => Err(e),
                    Ok(rest) => Ok(seq![sub] + rest),
                }
            },
        }
    }
}

/// The result of decoding a SUBSCRIBE from the start of `s`: the Packet
/// Identifier, the subscriptions, the properties and the bytes consumed.
pub open spec fn spec_subscribe_decode(s: Seq<u8>) -> Result<(u16, Seq<SubscriptionView>, Seq<(u8, PropertyValue)>, nat), DecodeError> {
    match spec_fixed_header_decode(s, 0x80, 0x02) {
        Err(e) => Err(e),
        Ok((rem, h)) => if rem < 2 || spec_read_be16(s, h as int) == 0 {
            Err(DecodeError::MalformedPacket)
        } else {
            match spec_properties_decode(s.subrange(h + 2 as int, h + rem as int), false) {
                Err(e) => Err(e),
                Ok((ps, n)) => if !spec_ids_within(ps, spec_subscribe_ids()) {
                    Err(DecodeError::MalformedPacket)
                } else {
                    match spec_sub_items(s.subrange(h + 2 + n as int, h + rem as int)) {
                        Err(e) => Err(e),
                        Ok(subs) => if subs.len() == 0 {
                            Err(DecodeError::MalformedPacket)
                        } else {
                            Ok((spec_read_be16(s, h as int), subs, ps, h + rem))
                        },
                    }
                },
            }
        },
    }
}

/// Without saturation, the remaining length is the Packet Identifier, the
/// properties and the subscriptions' wire form; shorter prefixes have no
/// longer remaining lengths.
proof fn lemma_subscribe_len(ps: Seq<(u8, PropertyValue)>, subs: Seq<SubscriptionView>, i: int)
    requires
        0 <= i <= subs.len(),
        spec_subscribe_len(ps, subs) <= crate::codec::variable_byte_integer::VBI_MAX,
    ensures
        spec_subscribe_len(ps, subs.take(i)) <= spec_subscribe_len(ps, subs),
        spec_subscribe_len(ps, subs) == 2 + spec_properties_len(ps) + spec_subs_wire(subs).len(),
    decreases subs.len(),
{
    if subs.len() > 0 {
        let prefix = subs.drop_last();
        lemma_subscribe_len(ps, prefix, if i < subs.len() { i } else { 0 });
        if i < subs.len() {
            assert(subs.take(i) =~= prefix.take(i));
        } else {
            assert(subs.take(i) =~= subs);
        }
    }
}

/// Once a filter fails as a string, that failure stays the first.
proof fn lemma_filter_error_sticks(subs: Seq<SubscriptionView>, i: int, j: int)
    requires
        0 <= i <= j <= subs.len(),
        spec_first_filter_text_error(subs.take(i)) is Some,
    ensures
        spec_first_filter_text_error(subs.take(j)) == spec_first_filter_text_error(subs.take(i)),
    decreases j - i,
{
    if i < j {
        lemma_filter_error_sticks(subs, i, j - 1);
        assert(subs.take(j).drop_last() =~= subs.take(j - 1));
    }
}

/// Once a subscription cannot be sent, that failure stays the first.
proof fn lemma_sub_error_sticks(subs: Seq<SubscriptionView>, i: int, j: int)
    requires
        0 <= i <= j <= subs.len(),
        spec_first_sub_error(subs.take(i)) is Some,
    ensures
        spec_first_sub_error(subs.take(j)) == spec_first_sub_error(subs.take(i)),
    decreases j - i,
{
    if i < j {
        lemma_sub_error_sticks(subs, i, j - 1);
        assert(subs.take(j).drop_last() =~= subs.take(j - 1));
    }
}

impl Subscribe {
    /// Returns the remaining length of the encoded packet.
    pub fn encoded_len(&self) -> (r: usize)
        ensures
            r == spec_subscribe_len(self.properties@, spec_sub_views(self.subscriptions@)),
    {
        let ghost subs = spec_sub_views(self.subscriptions@);
        let mut len = 2usize.saturating_add(self.properties.encoded_len());
        let mut i: usize = 0;
        while i < self.subscriptions.len()
            invariant
                i <= subs.len(),
                subs == spec_sub_views(self.subscriptions@),
                len == spec_subscribe_len(self.properties@, subs.take(i as int)),
            decreases subs.len() - i,
        {
            proof {
                assert(subs.take(i + 1).drop_last() =~= subs.take(i as int));
            }
            let sub = &self.subscriptions[i];
            len = len.saturating_add(2).saturating_add(sub.topic_filter.as_str().as_bytes().len());
            len = len.saturating_add(1);
            i = i + 1;
        }
        proof {
            assert(subs.take(i as int) =~= subs);
        }
        len
    }

    /// Encodes the packet into `buf` and returns the number of bytes written.
    ///
    /// After an error in a property or a Topic Filter, the bytes before it have
    /// been written.
    pub fn encode(&self, buf: &mut [u8]) -> (r: Result<usize, EncodeError>)
        ensures
            final(buf)@.len() == old(buf)@.len(),
            r == match spec_subscribe_check(self.packet_id, spec_sub_views(self.subscriptions@), self.properties@) {
                Err(e) => Err::<usize, EncodeError>(e),
                Ok(()) => spec_subscribe_result(self.packet_id, spec_sub_views(self.subscriptions@), self.properties@, old(buf)@.len()),
            },
            r is Ok ==> final(buf)@ == spec_splice(
                old(buf)@,
                0,
                spec_subscribe_wire(self.packet_id, spec_sub_views(self.subscriptions@), self.properties@),
            ),
            spec_subscribe_check(self.packet_id, spec_sub_views(self.subscriptions@), self.properties@) is Err
                || spec_fixed_header_check(spec_subscribe_len(self.properties@, spec_sub_views(self.subscriptions@)), old(buf)@.len()) is Err
                ==> final(buf)@ == old(buf)@,
    {
        let ghost subs = spec_sub_views(self.subscriptions@);
        match self.validate() {
            Err(e) => {
                return Err(e);
            },
            Ok(()) => {},
        }
        let remaining_len = self.encoded_len();
        let offset = match encode_fixed_header(buf, 0x82, 0x00, remaining_len) {
            Err(e) => {
                return Err(e);
            },
            Ok(n) => n,
        };
        proof {
            assert((0x82u8 | 0x00u8) == 0x82u8) by (bit_vector);
            lemma_vbi_encode_len(remaining_len as nat);
            lemma_subscribe_len(self.properties@, subs, 0);
        }
        let ghost header = spec_fixed_header(0x82, remaining_len as nat);
        write_be16_at(buf, offset, self.packet_id);
        proof {
            lemma_splice_append(old(buf)@, 0, header, spec_be16(self.packet_id));
        }
        let n = match self.properties.encode_at(buf, offset + 2) {
            Err(e) => {
                return Err(e);
            },
            Ok(n) => n,
        };
        let ghost prefix = header + spec_be16(self.packet_id) + spec_properties_wire(self.properties@);
        proof {
            lemma_splice_append(
                old(buf)@,
                0,
                header + spec_be16(self.packet_id),
                spec_properties_wire(self.properties@),
            );
            lemma_properties_len_matches(self.properties@);
        }
        let ghost after_props = buf@;
        let start = offset + 2 + n;
        let buf_len = buf.len();
        let mut pos = start;
        let mut i: usize = 0;
        while i < self.subscriptions.len()
            invariant
                i <= subs.len(),
                subs == spec_sub_views(self.subscriptions@),
                start == prefix.len(),
                start == offset + 2 + spec_properties_len(self.properties@),
                offset == 1 + crate::codec::variable_byte_integer::spec_vbi_len(remaining_len as nat),
                remaining_len == spec_subscribe_len(self.properties@, subs),
                remaining_len <= crate::codec::variable_byte_integer::VBI_MAX,
                offset + remaining_len <= buf_len,
                buf_len == buf@.len(),
                buf@.len() == old(buf)@.len(),
                after_props == spec_splice(old(buf)@, 0, prefix),
                pos == start + spec_subs_wire(subs.take(i as int)).len(),
                spec_first_filter_text_error(subs.take(i as int)) is None,
                spec_subscribe_check(self.packet_id, subs, self.properties@) is Ok,
                spec_fixed_header_check(remaining_len, old(buf)@.len()) is Ok,
                spec_first_property_error(self.properties@) is None,
                buf@ == spec_splice(after_props, start as int, spec_subs_wire(subs.take(i as int))),
            decreases subs.len() - i,
        {
            let sub = &self.subscriptions[i];
            proof {
                assert(subs.take(i + 1).drop_last() =~= subs.take(i as int));
                assert(subs[i as int] == sub@);
                lemma_subscribe_len(self.properties@, subs, i + 1);
                lemma_subscribe_len(self.properties@, subs.take(i + 1), i + 1);
                assert(subs.take(i + 1).take(i + 1) =~= subs.take(i + 1));
            }
            let ghost before = buf@;
            let n1 = match encode_string(sub.topic_filter.as_str(), buf, pos) {
                Err(e) => {
                    proof {
                        lemma_filter_error_sticks(subs, i + 1, subs.len() as int);
                        assert(subs.take(subs.len() as int) =~= subs);
                    }
                    return Err(e);
                },
                Ok(n1) => n1,
            };
            buf[pos + n1] = sub.options_byte();
            proof {
                let item = spec_str_wire(sub@.topic_filter) + seq![spec_options_byte(sub@)];
                assert(buf@ =~= spec_splice(before, pos as int, item));
                lemma_splice_append(after_props, start as int, spec_subs_wire(subs.take(i as int)), item);
            }
            pos = pos + n1 + 1;
            i = i + 1;
        }
        proof {
            assert(subs.take(i as int) =~= subs);
            lemma_splice_append(old(buf)@, 0, prefix, spec_subs_wire(subs));
        }
        Ok(pos)
    }

    /// Decodes a SUBSCRIBE from the start of `buf` and returns it with the
    /// number of bytes consumed.
    #[verifier::loop_isolation(false)]
    pub fn decode(buf: &[u8]) -> (r: Result<(Self, usize), DecodeError>)
        ensures
            match r {
                Ok((p, n)) => spec_subscribe_decode(buf@) == Ok::<(u16, Seq<SubscriptionView>, Seq<(u8, PropertyValue)>, nat), DecodeError>(
                    (p.packet_id, spec_sub_views(p.subscriptions@), p.properties@, n as nat),
                ),
                Err(e) => spec_subscribe_decode(buf@) == Err::<(u16, Seq<SubscriptionView>, Seq<(u8, PropertyValue)>, nat), DecodeError>(e),
            },
    {
        let (remaining_len, header_len, end) = match decode_fixed_header(buf, 0x80, 0x02) {
            Err(e) => {
                return Err(e);
            },
            Ok(x) => x,
        };
        if remaining_len < 2 {
            return Err(DecodeError::MalformedPacket);
        }
        let packet_id = read_be16_at(buf, header_len);
        if packet_id == 0 {
            return Err(DecodeError::MalformedPacket);
        }
        let (properties, n) = match Properties::decode(&buf[header_len + 2..end]) {
            Err(e) => {
                return Err(e);
            },
            Ok(x) => x,
        };
        match properties.validate_for_subscribe() {
            Err(e) => {
                return Err(e);
            },
            Ok(()) => {},
        }
        let start = header_len + 2 + n;
        let ghost region = buf@.subrange(start as int, end as int);
        let mut subscriptions: Vec<Subscription> = Vec::new();
        let mut offset = start;
        while offset < end
            invariant
                start <= offset <= end <= buf@.len(),
                spec_sub_items(region) == match spec_sub_items(buf@.subrange(offset as int, end as int)) {
                    Err(e) => Err::<Seq<SubscriptionView>, DecodeError>(e),
                    Ok(rest) => Ok(spec_sub_views(subscriptions@) + rest),
                },
            decreases end - offset,
        {
            let ghost rest = buf@.subrange(offset as int, end as int);
            let (topic_filter, n) = match decode_str_at(buf, offset, end) {
                Err(e) => {
                    return Err(malformed_if_insufficient(e));
                },
                Ok(x) => x,
            };
            proof {
                crate::codec::utf8_string::lemma_str_decode_len(rest);
            }
            if !is_valid_v5_topic_filter(topic_filter.as_str()) {
                return Err(DecodeError::MalformedPacket);
            }
            if n >= end - offset {
                return Err(DecodeError::MalformedPacket);
            }
            let options = buf[offset + n];
            let qos = match QoS::from_u8(options & 0x03) {
                None => {
                    return Err(DecodeError::MalformedPacket);
                },
                Some(q) => q,
            };
            let no_local = options & 0x04 != 0;
            let retain_as_published = options & 0x08 != 0;
            let retain_handling = match RetainHandling::from_u8((options >> 4u8) & 0x03) {
                None => {
                    return Err(DecodeError::MalformedPacket);
                },
                Some(h) => h,
            };
            if options & 0xC0 != 0 {
                return Err(DecodeError::MalformedPacket);
            }
            if no_local && has_share_prefix(topic_filter.as_str().as_bytes()) {
                return Err(DecodeError::MalformedPacket);
            }
            let ghost before = spec_sub_views(subscriptions@);
            let sub = Subscription { topic_filter, qos, no_local, retain_as_published, retain_handling };
            proof {
                assert(rest[n as int] == options);
                assert(rest.skip(n + 1) =~= buf@.subrange(offset + n + 1, end as int));
            }
            subscriptions.push(sub);
            proof {
                assert(spec_sub_views(subscriptions@) =~= before.push(sub@));
                match spec_sub_items(rest.skip(n + 1)) {
                    Ok(tail) => {
                        assert(before + (seq![sub@] + tail) =~= before.push(sub@) + tail);
                    },
                    Err(_) => {},
                }
            }
            offset = offset + n + 1;
        }
        proof {
            assert(buf@.subrange(offset as int, end as int) =~= Seq::<u8>::empty());
            assert(spec_sub_views(subscriptions@) + Seq::<SubscriptionView>::empty() =~= spec_sub_views(subscriptions@));
        }
        if subscriptions.len() == 0 {
            return Err(DecodeError::MalformedPacket);
        }
        Ok((Self { packet_id, subscriptions, properties }, end))
    }

    /// Checks what the packet must satisfy before it is written.
    #[verifier::loop_isolation(false)]
    fn validate(&self) -> (r: Result<(), EncodeError>)
        ensures
            r == spec_subscribe_check(self.packet_id, spec_sub_views(self.subscriptions@), self.properties@),
    {
        let ghost subs = spec_sub_views(self.subscriptions@);
        if self.packet_id == 0 {
            return Err(EncodeError::InvalidField { reason: EncodeInvalidField::ZeroPacketId });
        }
        if self.subscriptions.len() == 0 {
            return Err(EncodeError::InvalidField { reason: EncodeInvalidField::EmptySubscriptions });
        }
        let mut i: usize = 0;
        while i < self.subscriptions.len()
            invariant
                i <= subs.len(),
                subs == spec_sub_views(self.subscriptions@),
                spec_first_sub_error(subs.take(i as int)) is None,
            decreases subs.len() - i,
        {
            let sub = &self.subscriptions[i];
            proof {
                assert(subs.take(i + 1).drop_last() =~= subs.take(i as int));
                assert(subs[i as int] == sub@);
            }
            if !is_valid_v5_topic_filter(sub.topic_filter.as_str()) {
                proof {
                    lemma_sub_error_sticks(subs, i + 1, subs.len() as int);
                    assert(subs.take(subs.len() as int) =~= subs);
                }
                return Err(EncodeError::InvalidField { reason: EncodeInvalidField::InvalidTopicFilter });
            }
            if sub.no_local && has_share_prefix(sub.topic_filter.as_str().as_bytes()) {
                proof {
                    lemma_sub_error_sticks(subs, i + 1, subs.len() as int);
                    assert(subs.take(subs.len() as int) =~= subs);
                }
                return Err(
                    EncodeError::InvalidField { reason: EncodeInvalidField::SharedSubscriptionNoLocal },
                );
            }
            i = i + 1;
        }
        proof {
            assert(subs.take(i as int) =~= subs);
        }
        if self.properties.validate_for_subscribe().is_err() {
            return Err(
                EncodeError::InvalidField { reason: EncodeInvalidField::PropertyValidationFailed },
            );
        }
        if self.properties.validate_duplicate_identifiers(false).is_err() {
            return Err(
                EncodeError::InvalidField { reason: EncodeInvalidField::DuplicatePropertyIdentifier },
            );
        }
        Ok(())
    }
}

/// The bits of a Subscription Options byte read back as its options.
proof fn lemma_options_bits(q: u8, nl: u8, rap: u8, rh: u8)
    by (bit_vector)
    requires
        q <= 2,
        nl == 0 || nl == 4,
        rap == 0 || rap == 8,
        rh <= 2,
    ensures
        (((q | nl) | rap) | (rh << 4u8)) & 0x03 == q,
        ((((q | nl) | rap) | (rh << 4u8)) >> 4u8) & 0x03 == rh,
        (((q | nl) | rap) | (rh << 4u8)) & 0xC0 == 0,
        ((((q | nl) | rap) | (rh << 4u8)) & 0x04 != 0) == (nl == 4),
        ((((q | nl) | rap) | (rh << 4u8)) & 0x08 != 0) == (rap == 8),
{
}

/// A subscription that can be sent and whose Topic Filter can be written as a
/// string decodes back from its wire form, followed by any bytes.
#[verifier::spinoff_prover]
proof fn lemma_sub_item_roundtrip(sub: SubscriptionView, rest: Seq<u8>)
    requires
        spec_sub_error(sub) is None,
        spec_text_error(sub.topic_filter) is None,
    ensures
        spec_sub_item_decode(spec_str_wire(sub.topic_filter) + seq![spec_options_byte(sub)] + rest) == Ok::<
            (SubscriptionView, nat),
            DecodeError,
        >((sub, spec_str_wire(sub.topic_filter).len() + 1)),
{
    let q = sub.qos.spec_as_u8();
    let rh = sub.retain_handling.spec_as_u8();
    let nl: u8 = if sub.no_local {
        4
    } else {
        0
    };
    let rap: u8 = if sub.retain_as_published {
        8
    } else {
        0
    };
    crate::codec::qos::lemma_qos_roundtrip(sub.qos);
    assert(rh <= 2);
    lemma_options_bits(q, nl, rap, rh);
    let o = spec_options_byte(sub);
    let s = spec_str_wire(sub.topic_filter) + seq![o] + rest;
    assert(s =~= spec_str_wire(sub.topic_filter) + (seq![o] + rest));
    crate::codec::utf8_string::lemma_str_roundtrip(sub.topic_filter, seq![o] + rest);
    assert(s[spec_str_wire(sub.topic_filter).len() as int] == o);
}

/// With no subscription failing, each subscription can be sent.
proof fn lemma_each_sub_ok(subs: Seq<SubscriptionView>)
    requires
        spec_first_sub_error(subs) is None,
        spec_first_filter_text_error(subs) is None,
    ensures
        forall|i: int| 0 <= i < subs.len() ==> spec_sub_error(#[trigger] subs[i]) is None && spec_text_error(
            subs[i].topic_filter,
        ) is None,
    decreases subs.len(),
{
    if subs.len() > 0 {
        lemma_each_sub_ok(subs.drop_last());
        assert forall|i: int| 0 <= i < subs.len() implies spec_sub_error(#[trigger] subs[i]) is None
            && spec_text_error(subs[i].topic_filter) is None by {
            if i < subs.len() - 1 {
                assert(subs[i] == subs.drop_last()[i]);
            }
        }
    }
}

/// The wire form of non-empty subscriptions starts with the first one.
proof fn lemma_subs_wire_front(subs: Seq<SubscriptionView>)
    requires
        subs.len() > 0,
    ensures
        spec_subs_wire(subs) == spec_str_wire(subs[0].topic_filter) + seq![spec_options_byte(subs[0])]
            + spec_subs_wire(subs.drop_first()),
    decreases subs.len(),
{
    let a = spec_str_wire(subs[0].topic_filter) + seq![spec_options_byte(subs[0])];
    if subs.len() == 1 {
        assert(subs.drop_first() =~= Seq::<SubscriptionView>::empty());
        assert(subs.drop_last().len() == 0);
        assert(spec_subs_wire(subs.drop_last()) == Seq::<u8>::empty());
        assert(spec_subs_wire(subs) =~= Seq::<u8>::empty() + spec_str_wire(subs[0].topic_filter) + seq![
            spec_options_byte(subs[0]),
        ]);
        assert(spec_subs_wire(subs) =~= a + Seq::<u8>::empty());
    } else {
        let dl = subs.drop_last();
        let df = subs.drop_first();
        lemma_subs_wire_front(dl);
        assert(dl.drop_first() =~= df.drop_last());
        assert(df.last() == subs.last());
        assert(dl[0] == subs[0]);
        let b = spec_subs_wire(df.drop_last());
        let c = spec_str_wire(subs.last().topic_filter) + seq![spec_options_byte(subs.last())];
        assert(spec_subs_wire(subs) =~= (a + b) + c);
        assert(spec_subs_wire(df) =~= b + c);
        assert((a + b) + c =~= a + (b + c));
    }
}

/// The wire form of subscriptions that can be sent decodes back to them.
#[verifier::spinoff_prover]
proof fn lemma_sub_items_of_wire(subs: Seq<SubscriptionView>)
    requires
        forall|i: int| 0 <= i < subs.len() ==> spec_sub_error(#[trigger] subs[i]) is None && spec_text_error(
            subs[i].topic_filter,
        ) is None,
    ensures
        spec_sub_items(spec_subs_wire(subs)) == Ok::<Seq<SubscriptionView>, DecodeError>(subs),
    decreases subs.len(),
{
    if subs.len() == 0 {
        assert(spec_subs_wire(subs).len() == 0);
        assert(subs =~= Seq::<SubscriptionView>::empty());
    } else {
        let sub = subs[0];
        let tail = subs.drop_first();
        lemma_subs_wire_front(subs);
        assert(spec_sub_error(subs[0]) is None && spec_text_error(subs[0].topic_filter) is None);
        assert forall|i: int| 0 <= i < tail.len() implies spec_sub_error(#[trigger] tail[i]) is None
            && spec_text_error(tail[i].topic_filter) is None by {
            assert(tail[i] == subs[i + 1]);
        }
        lemma_sub_items_of_wire(tail);
        let w = spec_subs_wire(subs);
        lemma_sub_item_roundtrip(sub, spec_subs_wire(tail));
        let n = spec_str_wire(sub.topic_filter).len() + 1;
        assert(w.skip(n as int) =~= spec_subs_wire(tail));
        assert(seq![sub] + tail =~= subs);
    }
}

/// Decoding the wire form of a SUBSCRIBE that can be written, followed by any
/// bytes, gives it back and consumes exactly the wire form.
#[verifier::spinoff_prover]
#[verifier::rlimit(50)]
pub proof fn lemma_subscribe_roundtrip(p: Subscribe, rest: Seq<u8>)
    requires
        spec_subscribe_check(p.packet_id, spec_sub_views(p.subscriptions@), p.properties@) is Ok,
        spec_first_property_error(p.properties@) is None,
        spec_first_filter_text_error(spec_sub_views(p.subscriptions@)) is None,
        spec_subscribe_len(p.properties@, spec_sub_views(p.subscriptions@)) <= VBI_MAX,
    ensures
        ({
            let subs = spec_sub_views(p.subscriptions@);
            let w = spec_subscribe_wire(p.packet_id, subs, p.properties@);
            spec_subscribe_decode(w + rest) == Ok::<
                (u16, Seq<SubscriptionView>, Seq<(u8, PropertyValue)>, nat),
                DecodeError,
            >((p.packet_id, subs, p.properties@, w.len()))
        }),
{
    let subs = spec_sub_views(p.subscriptions@);
    let ps = p.properties@;
    lemma_subscribe_len(ps, subs, 0);
    assert(crate::v5::property::spec_payload_len(ps) <= VBI_MAX);
    lemma_properties_len_matches(ps);
    lemma_each_sub_ok(subs);
    lemma_sub_items_of_wire(subs);
    let rem = spec_subscribe_len(ps, subs) as nat;
    let pw = spec_properties_wire(ps);
    let sw = spec_subs_wire(subs);
    let idb = spec_be16(p.packet_id);
    let body = idb + pw + sw;
    let header = spec_fixed_header(0x82, rem);
    let s = spec_subscribe_wire(p.packet_id, subs, ps) + rest;
    assert((0x80u8 | 0x02u8) == 0x82u8 && (0x80u8 | 0x02u8) & 0xF0 == 0x80u8 && (0x80u8 | 0x02u8) & 0x0F == 0x02u8)
        by (bit_vector);
    assert(s =~= header + (body + rest));
    lemma_fixed_header_roundtrip(0x80, 0x02, rem, body + rest);
    let h = header.len() as int;
    crate::codec::wire::lemma_be16_roundtrip(p.packet_id);
    assert(s[h] == idb[0] && s[h + 1] == idb[1]);
    assert(s.subrange(h + 2, h + rem) =~= pw + sw);
    lemma_properties_roundtrip(p.properties, false, sw);
    assert(s.subrange(h + 2 + pw.len(), h + rem) =~= sw);
}

} // verus!
