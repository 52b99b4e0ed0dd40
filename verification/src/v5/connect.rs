//! MQTT v5.0 CONNECT packets (MQTT v5.0 §3.1).

use vstd::prelude::*;
use vstd::utf8::valid_utf8;

use crate::codec::binary_data::{
    encode_binary_checked_at, spec_binary_decode, spec_binary_error, spec_binary_wire, BinaryData,
};
use crate::codec::qos::QoS;
use crate::codec::utf8_string::{decode_str_at, spec_str_decode, spec_str_wire, spec_utf8};
use crate::codec::variable_byte_integer::{lemma_vbi_encode_len, VBI_MAX};
use crate::codec::wire::{
    bytes_contain, is_valid_utf8, lemma_splice_append, read_be16_at, spec_be16, spec_read_be16,
    spec_splice, write_be16_at, write_bytes_at,
};
use crate::error::{malformed_if_insufficient, spec_malformed_if_insufficient, DecodeError, EncodeError, EncodeInvalidField};
use crate::v5::ack_helper::{
    decode_fixed_header, encode_fixed_header, lemma_fixed_header_roundtrip, lemma_frame_layout, spec_fixed_header, spec_fixed_header_check,
    spec_fixed_header_decode,
};
use crate::v5::property::{
    encode_string, lemma_properties_len_matches, lemma_properties_roundtrip, spec_accept_if, spec_connect_ids,
    spec_first_property_error, spec_has_duplicate, spec_has_identifier, spec_ids_within,
    spec_payload_len, spec_properties_decode, spec_properties_len, spec_properties_wire,
    spec_text_error, spec_will_ids, Properties, PropertyValue,
};
use crate::v5::publish::{spec_utf8_payload_indicated, utf8_payload_indicated};
use crate::v5::subscribe::spec_clamp_usize;

use crate::codec::text::{push_bool, push_decimal, push_qos, push_str_debug, spec_bool_text, spec_decimal, spec_qos_text, spec_str_debug};
use crate::v5::property::render::{push_properties_text, spec_properties_text};
use vstd::string::StringExecFns;

verus! {

/// An MQTT v5.0 CONNECT packet (MQTT v5.0 §3.1).
///
/// `{:?}` is derived and shows the Password and the Will payload;
/// [`redacted_debug`](Self::redacted_debug) hides them.
#[derive(Debug, Clone, PartialEq, Eq)]
pub struct Connect {
    /// The Client Identifier.
    pub client_id: String,
    /// The Clean Start flag.
    pub clean_start: bool,
    /// The Keep Alive, in seconds.
    pub keep_alive: u16,
    /// The properties.
    pub properties: Properties,
    /// The Will, if any.
    pub will: Option<Will>,
    /// The User Name, if any.
    pub username: Option<String>,
    /// The Password, if any.
    pub password: Option<Vec<u8>>,
}

/// The Will of a CONNECT packet (MQTT v5.0 §3.1.3.2 - §3.1.3.4).
///
/// `{:?}` is derived and shows the payload;
/// [`redacted_debug`](Self::redacted_debug) hides it.
#[derive(Debug, Clone, PartialEq, Eq)]
pub struct Will {
    /// The Will Topic.
    pub topic: String,
    /// The Will Payload.
    pub payload: Vec<u8>,
    /// The Will QoS.
    pub qos: QoS,
    /// The Will Retain flag.
    pub retain: bool,
    /// The Will properties.
    pub properties: Properties,
}

/// The abstract value of a [`Will`].
pub struct WillView {
    /// The Will Topic.
    pub topic: Seq<char>,
    /// The Will Payload.
    pub payload: Seq<u8>,
    /// The Will QoS.
    pub qos: QoS,
    /// The Will Retain flag.
    pub retain: bool,
    /// The Will properties.
    pub properties: Seq<(u8, PropertyValue)>,
}

/// The abstract value of a [`Connect`].
pub struct ConnectView {
    /// The Client Identifier.
    pub client_id: Seq<char>,
    /// The Clean Start flag.
    pub clean_start: bool,
    /// The Keep Alive.
    pub keep_alive: u16,
    /// The properties.
    pub properties: Seq<(u8, PropertyValue)>,
    /// The Will.
    pub will: Option<WillView>,
    /// The User Name.
    pub username: Option<Seq<char>>,
    /// The Password.
    pub password: Option<Seq<u8>>,
}

impl View for Will {
    type V = WillView;

    open spec fn view(&self) -> WillView {
        WillView {
            topic: self.topic@,
            payload: self.payload@,
            qos: self.qos,
            retain: self.retain,
            properties: self.properties@,
        }
    }
}

/// The abstract value of an optional Will.
pub open spec fn spec_will_view(w: Option<Will>) -> Option<WillView> {
    match w {
        Some(w) => Some(w@),
        None => None,
    }
}

/// The characters of an optional string.
pub open spec fn spec_opt_str_view(s: Option<String>) -> Option<Seq<char>> {
    match s {
        Some(s) => Some(s@),
        None => None,
    }
}

/// The bytes of an optional byte vector.
pub open spec fn spec_opt_bytes_view(v: Option<Vec<u8>>) -> Option<Seq<u8>> {
    match v {
        Some(v) => Some(v@),
        None => None,
    }
}

impl View for Connect {
    type V = ConnectView;

    open spec fn view(&self) -> ConnectView {
        ConnectView {
            client_id: self.client_id@,
            clean_start: self.clean_start,
            keep_alive: self.keep_alive,
            properties: self.properties@,
            will: spec_will_view(self.will),
            username: spec_opt_str_view(self.username),
            password: spec_opt_bytes_view(self.password),
        }
    }
}

/// The Connect Flags byte (MQTT v5.0 §3.1.2.3): Clean Start in bit 1, the Will
/// flag in bit 2, the Will QoS in bits 3-4, Will Retain in bit 5, the Password
/// flag in bit 6 and the User Name flag in bit 7.
pub open spec fn spec_connect_flags(c: ConnectView) -> u8 {
    (if c.clean_start {
        0x02u8
    } else {
        0u8
    }) | (match c.will {
        Some(w) => 0x04u8 | (w.qos.spec_as_u8() << 3u8) | (if w.retain {
            0x20u8
        } else {
            0u8
        }),
        None => 0u8,
    }) | (if c.password is Some {
        0x40u8
    } else {
        0u8
    }) | (if c.username is Some {
        0x80u8
    } else {
        0u8
    })
}

/// The remaining length of the Will part, as [`Connect::encoded_len`] adds it
/// to `acc` with saturating additions.
pub open spec fn spec_will_len(acc: usize, w: WillView) -> usize {
    acc.saturating_add(spec_properties_len(w.properties)).saturating_add(2).saturating_add(
        spec_clamp_usize(spec_utf8(w.topic).len()),
    ).saturating_add(2).saturating_add(spec_clamp_usize(w.payload.len()))
}

/// The remaining length of a CONNECT, as [`Connect::encoded_len`] sums it with
/// saturating additions.
#[verifier::opaque]
pub open spec fn spec_connect_len(c: ConnectView) -> usize {
    let l0 = (10usize).saturating_add(spec_properties_len(c.properties)).saturating_add(2).saturating_add(
        spec_clamp_usize(spec_utf8(c.client_id).len()),
    );
    let l1 = match c.will {
        Some(w) => spec_will_len(l0, w),
        None => l0,
    };
    let l2 = match c.username {
        Some(u) => l1.saturating_add(2).saturating_add(spec_clamp_usize(spec_utf8(u).len())),
        None => l1,
    };
    match c.password {
        Some(p) => l2.saturating_add(2).saturating_add(spec_clamp_usize(p.len())),
        None => l2,
    }
}

/// The exact sum of the lengths of the variable header and payload of a
/// CONNECT.
pub open spec fn spec_connect_exact_len(c: ConnectView) -> int {
    10 + spec_properties_len(c.properties) + 2 + spec_utf8(c.client_id).len() + match c.will {
        Some(w) => spec_properties_len(w.properties) + 2 + spec_utf8(w.topic).len() + 2
            + w.payload.len(),
        None => 0,
    } + match c.username {
        Some(u) => 2 + spec_utf8(u).len(),
        None => 0,
    } + match c.password {
        Some(p) => 2 + p.len(),
        None => 0,
    }
}

/// The wire form of a Will: its properties, topic and payload.
pub open spec fn spec_will_wire(w: WillView) -> Seq<u8> {
    spec_properties_wire(w.properties) + spec_str_wire(w.topic) + spec_binary_wire(w.payload)
}

/// The protocol name `MQTT` as a UTF-8 Encoded String, then the Protocol
/// Version 5.
pub open spec fn spec_protocol_header() -> Seq<u8> {
    seq![0u8, 4u8, 77u8, 81u8, 84u8, 84u8, 5u8]
}

/// The wire form of a CONNECT.
pub open spec fn spec_connect_wire(c: ConnectView) -> Seq<u8> {
    spec_fixed_header(0x10, spec_connect_len(c) as nat) + spec_connect_body(c)
}

/// The variable header of a CONNECT: the protocol name and version, the flags,
/// the Keep Alive and the properties.
pub open spec fn spec_connect_head(c: ConnectView) -> Seq<u8> {
    spec_protocol_header() + seq![spec_connect_flags(c)] + spec_be16(c.keep_alive)
        + spec_properties_wire(c.properties)
}

/// The payload of a CONNECT: the Client Identifier, then the Will, the User
/// Name and the Password where present.
pub open spec fn spec_connect_payload(c: ConnectView) -> Seq<u8> {
    spec_str_wire(c.client_id) + match c.will {
        Some(w) => spec_will_wire(w),
        None => Seq::empty(),
    } + match c.username {
        Some(u) => spec_str_wire(u),
        None => Seq::empty(),
    } + match c.password {
        Some(p) => spec_binary_wire(p),
        None => Seq::empty(),
    }
}

/// Everything of a CONNECT after its fixed header.
pub open spec fn spec_connect_body(c: ConnectView) -> Seq<u8> {
    spec_connect_head(c) + spec_connect_payload(c)
}

/// The error, if any, of writing the payload of a CONNECT.
pub open spec fn spec_connect_payload_error(c: ConnectView) -> Option<EncodeError> {
    spec_or(
        spec_text_error(c.client_id),
        spec_or(
            match c.will {
                Some(w) => spec_will_error(w),
                None => None,
            },
            spec_or(
                match c.username {
                    Some(u) => spec_text_error(u),
                    None => None,
                },
                match c.password {
                    Some(p) => spec_binary_error(p),
                    None => None,
                },
            ),
        ),
    )
}

/// `a` if it holds an error, else `b`.
pub open spec fn spec_or(a: Option<EncodeError>, b: Option<EncodeError>) -> Option<EncodeError> {
    if a is Some {
        a
    } else {
        b
    }
}

/// The error, if any, of writing a Will's properties, topic and payload.
pub open spec fn spec_will_error(w: WillView) -> Option<EncodeError> {
    spec_or(
        spec_first_property_error(w.properties),
        spec_or(spec_text_error(w.topic), spec_binary_error(w.payload)),
    )
}

/// The first error, if any, of writing the parts of a CONNECT in order.
pub open spec fn spec_connect_content_error(c: ConnectView) -> Option<EncodeError> {
    spec_or(spec_first_property_error(c.properties), spec_connect_payload_error(c))
}

/// Why a CONNECT cannot be written, if it cannot: an empty Will Topic or one
/// with a wildcard, properties that CONNECT does not allow (Authentication
/// Data needs an Authentication Method), a repeated property, Will properties
/// that a Will does not allow or that repeat, or a Will payload announced as
/// UTF-8 that is not.
#[verifier::opaque]
pub open spec fn spec_connect_check(c: ConnectView) -> Result<(), EncodeError> {
    if c.will matches Some(w) && w.topic.len() == 0 {
        Err(EncodeError::InvalidField { reason: EncodeInvalidField::EmptyTopicName })
    } else if c.will matches Some(w) && (spec_utf8(w.topic).contains(43u8) || spec_utf8(
        w.topic,
    ).contains(35u8)) {
        Err(EncodeError::InvalidField { reason: EncodeInvalidField::WildcardInTopicName })
    } else if spec_accept_if(
        spec_ids_within(c.properties, spec_connect_ids()) && (spec_has_identifier(c.properties, 0x16)
            ==> spec_has_identifier(c.properties, 0x15)),
    ) is Err {
        Err(EncodeError::InvalidField { reason: EncodeInvalidField::PropertyValidationFailed })
    } else if spec_has_duplicate(c.properties, false) {
        Err(EncodeError::InvalidField { reason: EncodeInvalidField::DuplicatePropertyIdentifier })
    } else if c.will matches Some(w) && !spec_ids_within(w.properties, spec_will_ids()) {
        Err(EncodeError::InvalidField { reason: EncodeInvalidField::PropertyValidationFailed })
    } else if c.will matches Some(w) && spec_has_duplicate(w.properties, false) {
        Err(EncodeError::InvalidField { reason: EncodeInvalidField::DuplicatePropertyIdentifier })
    } else if c.will matches Some(w) && spec_utf8_payload_indicated(w.properties) && !valid_utf8(
        w.payload,
    ) {
        Err(EncodeError::InvalidField { reason: EncodeInvalidField::InvalidPayloadUtf8 })
    } else {
        Ok(())
    }
}

/// What writing a CONNECT that passed its check into a buffer of `buf_len`
/// bytes returns.
pub open spec fn spec_connect_result(c: ConnectView, buf_len: nat) -> Result<usize, EncodeError> {
    match spec_fixed_header_check(spec_connect_len(c), buf_len) {
        Err(e) => Err(e),
        Ok(()) => match spec_connect_content_error(c) {
            Some(e) => Err(e),
            None => Ok(spec_connect_wire(c).len() as usize),
        },
    }
}

/// An optional string at the start of `s`, present when `present` holds.
#[verifier::opaque]
pub open spec fn spec_opt_str_decode(s: Seq<u8>, present: bool) -> Result<(Option<Seq<char>>, nat), DecodeError> {
    if !present {
        Ok((None, 0))
    } else {
        match spec_str_decode(s) {
            Err(e) => Err(spec_malformed_if_insufficient(e)),
            Ok((t, n)) => Ok((Some(t), n)),
        }
    }
}

/// Optional binary data at the start of `s`, present when `present` holds.
#[verifier::opaque]
pub open spec fn spec_opt_bin_decode(s: Seq<u8>, present: bool) -> Result<(Option<Seq<u8>>, nat), DecodeError> {
    if !present {
        Ok((None, 0))
    } else {
        match spec_binary_decode(s) {
            Err(e) => Err(spec_malformed_if_insufficient(e)),
            Ok((d, n)) => Ok((Some(d), n)),
        }
    }
}

/// The Will at the start of `s` when the Connect Flags `flags` announce one:
/// its properties, topic and payload, and the bytes consumed. Properties that a
/// Will does not allow, an empty Will Topic or one with a wildcard, or Will
/// QoS 3 are malformed.
#[verifier::opaque]
pub open spec fn spec_will_decode(s: Seq<u8>, flags: u8) -> Result<(Option<WillView>, nat), DecodeError> {
    if flags & 0x04 == 0 {
        Ok((None, 0))
    } else {
        match spec_properties_decode(s, false) {
            Err(e) => Err(e),
            Ok((ps, pn)) => if !spec_ids_within(ps, spec_will_ids()) {
                Err(DecodeError::MalformedPacket)
            } else {
                match spec_str_decode(s.skip(pn as int)) {
                    Err(e) => Err(spec_malformed_if_insufficient(e)),
                    Ok((topic, tn)) => if spec_utf8(topic).contains(43u8) || spec_utf8(topic).contains(
                        35u8,
                    ) || topic.len() == 0 {
                        Err(DecodeError::MalformedPacket)
                    } else {
                        match spec_binary_decode(s.skip((pn + tn) as int)) {
                            Err(e) => Err(spec_malformed_if_insufficient(e)),
                            Ok((payload, bn)) => match QoS::spec_from_u8((flags >> 3u8) & 0x03) {
                                None => Err(DecodeError::MalformedPacket),
                                Some(q) => Ok(
                                    (
                                        Some(
                                            WillView {
                                                topic,
                                                payload,
                                                qos: q,
                                                retain: flags & 0x20 != 0,
                                                properties: ps,
                                            },
                                        ),
                                        pn + tn + bn,
                                    ),
                                ),
                            },
                        }
                    },
                }
            },
        }
    }
}

/// What follows the properties of a CONNECT, from the start of `s` (which ends
/// where the packet ends): the Client Identifier, the Will, the User Name and
/// the Password as the flags announce them, then the checks on reserved flags
/// and on leftover bytes.
pub open spec fn spec_connect_payload_decode(s: Seq<u8>, flags: u8) -> Result<
    (Seq<char>, Option<WillView>, Option<Seq<char>>, Option<Seq<u8>>),
    DecodeError,
> {
    match spec_str_decode(s) {
        Err(e) => Err(spec_malformed_if_insufficient(e)),
        Ok((cid, cn)) => match spec_will_decode(s.skip(cn as int), flags) {
            Err(e) => Err(e),
            Ok((will, wn)) => match spec_opt_str_decode(s.skip((cn + wn) as int), flags & 0x80 != 0) {
                Err(e) => Err(e),
                Ok((user, un)) => match spec_opt_bin_decode(s.skip((cn + wn + un) as int), flags & 0x40 != 0) {
                    Err(e) => Err(e),
                    Ok((pass, pn)) => if flags & 0x01 != 0 {
                        Err(DecodeError::MalformedPacket)
                    } else if will is None && flags & 0x38 != 0 {
                        Err(DecodeError::MalformedPacket)
                    } else if cn + wn + un + pn != s.len() {
                        Err(DecodeError::MalformedPacket)
                    } else {
                        Ok((cid, will, user, pass))
                    },
                },
            },
        },
    }
}

/// The result of decoding a CONNECT from the start of `s`: the packet and the
/// bytes consumed. A protocol name other than `MQTT`, a version other than 5,
/// missing flags or Keep Alive, properties that CONNECT does not allow, or what
/// [`spec_connect_payload_decode`] refuses, are malformed.
pub open spec fn spec_connect_decode(s: Seq<u8>) -> Result<(ConnectView, nat), DecodeError> {
    match spec_fixed_header_decode(s, 0x10, 0x00) {
        Err(e) => Err(e),
        Ok((rem, h)) => {
            let end = h + rem;
            match spec_str_decode(s.subrange(h as int, end as int)) {
                Err(e) => Err(spec_malformed_if_insufficient(e)),
                Ok((name, nn)) => {
                    let o = h + nn;
                    if name != seq!['M', 'Q', 'T', 'T'] {
                        Err(DecodeError::MalformedPacket)
                    } else if o >= end || s[o as int] != 5 {
                        Err(DecodeError::MalformedPacket)
                    } else if o + 1 >= end {
                        Err(DecodeError::MalformedPacket)
                    } else if o + 4 > end {
                        Err(DecodeError::MalformedPacket)
                    } else {
                        let flags = s[(o + 1) as int];
                        match spec_properties_decode(s.subrange((o + 4) as int, end as int), false) {
                            Err(e) => Err(e),
                            Ok((ps, pn)) => if !(spec_ids_within(ps, spec_connect_ids())
                                && (spec_has_identifier(ps, 0x16) ==> spec_has_identifier(ps, 0x15))) {
                                Err(DecodeError::MalformedPacket)
                            } else {
                                match spec_connect_payload_decode(s.subrange((o + 4 + pn) as int, end as int), flags) {
                                    Err(e) => Err(e),
                                    Ok((cid, will, user, pass)) => Ok(
                                        (
                                            ConnectView {
                                                client_id: cid,
                                                clean_start: flags & 0x02 != 0,
                                                keep_alive: spec_read_be16(s, (o + 2) as int),
                                                properties: ps,
                                                will,
                                                username: user,
                                                password: pass,
                                            },
                                            end,
                                        ),
                                    ),
                                }
                            },
                        }
                    }
                },
            }
        },
    }
}

/// Below the largest remaining length no addition saturates.
proof fn lemma_connect_len(c: ConnectView)
    requires
        spec_connect_len(c) <= VBI_MAX,
    ensures
        spec_connect_len(c) == spec_connect_exact_len(c),
{
    reveal(spec_connect_len);
}

/// Without errors, the payload is as long as the exact length counts it.
proof fn lemma_connect_payload_len(c: ConnectView)
    requires
        spec_connect_payload_error(c) is None,
        c.will matches Some(w) ==> spec_payload_len(w.properties) <= VBI_MAX,
    ensures
        spec_connect_payload(c).len() == spec_connect_exact_len(c) - 10 - spec_properties_len(c.properties),
{
    if let Some(w) = c.will {
        lemma_properties_len_matches(w.properties);
    }
}

impl Will {
    /// Writes the Will's properties, topic and payload at `pos`.
    fn write_at(&self, buf: &mut [u8], pos: usize) -> (r: Result<usize, EncodeError>)
        requires
            spec_properties_len(self.properties@) <= VBI_MAX,
            pos + spec_properties_len(self.properties@) + 2 + spec_utf8(self.topic@).len() + 2
                + self.payload@.len() <= old(buf)@.len(),
        ensures
            final(buf)@.len() == old(buf)@.len(),
            r == match spec_will_error(self@) {
                Some(e) => Err::<usize, EncodeError>(e),
                None => Ok(spec_will_wire(self@).len() as usize),
            },
            r is Ok ==> final(buf)@ == spec_splice(old(buf)@, pos as int, spec_will_wire(self@)),
    {
        let n1 = match self.properties.encode_at(buf, pos) {
            Err(e) => {
                return Err(e);
            },
            Ok(n) => n,
        };
        proof {
            lemma_properties_len_matches(self.properties@);
        }
        let buf_len = buf.len();
        assert(pos + n1 + 2 + spec_utf8(self.topic@).len() + 2 + self.payload@.len() <= buf_len);
        let n2 = match encode_string(self.topic.as_str(), buf, pos + n1) {
            Err(e) => {
                return Err(e);
            },
            Ok(n) => n,
        };
        proof {
            lemma_splice_append(old(buf)@, pos as int, spec_properties_wire(self.properties@), spec_str_wire(self.topic@));
        }
        let n3 = match encode_binary_checked_at(self.payload.as_slice(), buf, pos + n1 + n2) {
            Err(e) => {
                return Err(e);
            },
            Ok(n) => n,
        };
        proof {
            lemma_splice_append(
                old(buf)@,
                pos as int,
                spec_properties_wire(self.properties@) + spec_str_wire(self.topic@),
                spec_binary_wire(self.payload@),
            );
        }
        Ok(n1 + n2 + n3)
    }
}

/// Writes an optional string at `pos`; nothing when it is absent.
pub(crate) fn write_opt_str(value: &Option<String>, buf: &mut [u8], pos: usize) -> (r: Result<usize, EncodeError>)
    requires
        pos + match spec_opt_str_view(*value) {
            Some(u) => 2 + spec_utf8(u).len(),
            None => 0,
        } <= old(buf)@.len(),
    ensures
        final(buf)@.len() == old(buf)@.len(),
        r == match spec_opt_str_view(*value) {
            Some(u) => match spec_text_error(u) {
                Some(e) => Err::<usize, EncodeError>(e),
                None => Ok(spec_str_wire(u).len() as usize),
            },
            None => Ok(0),
        },
        r is Ok ==> final(buf)@ == spec_splice(
            old(buf)@,
            pos as int,
            match spec_opt_str_view(*value) {
                Some(u) => spec_str_wire(u),
                None => Seq::empty(),
            },
        ),
{
    match value {
        Some(u) => encode_string(u.as_str(), buf, pos),
        None => {
            assert(spec_splice(buf@, pos as int, Seq::empty()) =~= buf@);
            Ok(0)
        },
    }
}

/// Writes optional binary data at `pos`; nothing when it is absent.
pub(crate) fn write_opt_bytes(value: &Option<Vec<u8>>, buf: &mut [u8], pos: usize) -> (r: Result<usize, EncodeError>)
    requires
        pos + match spec_opt_bytes_view(*value) {
            Some(p) => 2 + p.len(),
            None => 0,
        } <= old(buf)@.len(),
    ensures
        final(buf)@.len() == old(buf)@.len(),
        r == match spec_opt_bytes_view(*value) {
            Some(p) => match spec_binary_error(p) {
                Some(e) => Err::<usize, EncodeError>(e),
                None => Ok(spec_binary_wire(p).len() as usize),
            },
            None => Ok(0),
        },
        r is Ok ==> final(buf)@ == spec_splice(
            old(buf)@,
            pos as int,
            match spec_opt_bytes_view(*value) {
                Some(p) => spec_binary_wire(p),
                None => Seq::empty(),
            },
        ),
{
    match value {
        Some(p) => encode_binary_checked_at(p.as_slice(), buf, pos),
        None => {
            assert(spec_splice(buf@, pos as int, Seq::empty()) =~= buf@);
            Ok(0)
        },
    }
}

/// Decodes an optional string from `buf[pos..end]`, present when `present`
/// holds.
pub(crate) fn decode_opt_str(buf: &[u8], pos: usize, end: usize, present: bool) -> (r: Result<(Option<String>, usize), DecodeError>)
    requires
        pos <= end <= buf@.len(),
    ensures
        match r {
            Ok((v, n)) => spec_opt_str_decode(buf@.subrange(pos as int, end as int), present)
                == Ok::<(Option<Seq<char>>, nat), DecodeError>((spec_opt_str_view(v), n as nat))
                && n <= end - pos,
            Err(e) => spec_opt_str_decode(buf@.subrange(pos as int, end as int), present) == Err::<
                (Option<Seq<char>>, nat),
                DecodeError,
            >(e),
        },
{
    reveal(spec_opt_str_decode);
    if !present {
        return Ok((None, 0));
    }
    match decode_str_at(buf, pos, end) {
        Err(e) => Err(malformed_if_insufficient(e)),
        Ok((v, n)) => {
            proof {
                crate::codec::utf8_string::lemma_str_decode_len(buf@.subrange(pos as int, end as int));
            }
            Ok((Some(v), n))
        },
    }
}

/// Decodes optional binary data from `buf[pos..end]`, present when `present`
/// holds.
pub(crate) fn decode_opt_bytes(buf: &[u8], pos: usize, end: usize, present: bool) -> (r: Result<(Option<Vec<u8>>, usize), DecodeError>)
    requires
        pos <= end <= buf@.len(),
    ensures
        match r {
            Ok((v, n)) => spec_opt_bin_decode(buf@.subrange(pos as int, end as int), present)
                == Ok::<(Option<Seq<u8>>, nat), DecodeError>((spec_opt_bytes_view(v), n as nat))
                && n <= end - pos,
            Err(e) => spec_opt_bin_decode(buf@.subrange(pos as int, end as int), present) == Err::<
                (Option<Seq<u8>>, nat),
                DecodeError,
            >(e),
        },
{
    reveal(spec_opt_bin_decode);
    if !present {
        return Ok((None, 0));
    }
    match BinaryData::decode(&buf[pos..end]) {
        Err(e) => Err(malformed_if_insufficient(e)),
        Ok((d, n)) => Ok((Some(d.0), n)),
    }
}

/// Decodes the Will from `buf[pos..end]` when the flags announce one.
fn decode_will(buf: &[u8], pos: usize, end: usize, flags: u8) -> (r: Result<(Option<Will>, usize), DecodeError>)
    requires
        pos <= end <= buf@.len(),
    ensures
        match r {
            Ok((w, n)) => spec_will_decode(buf@.subrange(pos as int, end as int), flags) == Ok::<
                (Option<WillView>, nat),
                DecodeError,
            >((spec_will_view(w), n as nat)) && n <= end - pos,
            Err(e) => spec_will_decode(buf@.subrange(pos as int, end as int), flags) == Err::<
                (Option<WillView>, nat),
                DecodeError,
            >(e),
        },
{
    reveal(spec_will_decode);
    let ghost s = buf@.subrange(pos as int, end as int);
    if flags & 0x04 == 0 {
        return Ok((None, 0));
    }
    let (properties, pn) = match Properties::decode(&buf[pos..end]) {
        Err(e) => {
            return Err(e);
        },
        Ok(x) => x,
    };
    match properties.validate_for_will() {
        Err(e) => {
            return Err(e);
        },
        Ok(()) => {},
    }
    proof {
        assert(s.skip(pn as int) =~= buf@.subrange(pos + pn, end as int));
    }
    let (topic, tn) = match decode_str_at(buf, pos + pn, end) {
        Err(e) => {
            return Err(malformed_if_insufficient(e));
        },
        Ok(x) => x,
    };
    proof {
        crate::codec::utf8_string::lemma_str_decode_len(s.skip(pn as int));
    }
    let topic_bytes = topic.as_str().as_bytes();
    if bytes_contain(topic_bytes, 43) || bytes_contain(topic_bytes, 35) {
        return Err(DecodeError::MalformedPacket);
    }
    if topic.as_str().is_empty() {
        return Err(DecodeError::MalformedPacket);
    }
    proof {
        assert(s.skip(pn + tn) =~= buf@.subrange(pos + pn + tn, end as int));
    }
    let (payload, bn) = match BinaryData::decode(&buf[pos + pn + tn..end]) {
        Err(e) => {
            return Err(malformed_if_insufficient(e));
        },
        Ok(x) => x,
    };
    let qos = match QoS::from_u8((flags >> 3u8) & 0x03) {
        None => {
            return Err(DecodeError::MalformedPacket);
        },
        Some(q) => q,
    };
    Ok((
        Some(Will { topic, payload: payload.0, qos, retain: flags & 0x20 != 0, properties }),
        pn + tn + bn,
    ))
}

impl Connect {
    /// Returns the remaining length of the encoded packet.
    pub fn encoded_len(&self) -> (r: usize)
        ensures
            r == spec_connect_len(self@),
    {
        reveal(spec_connect_len);
        let mut len = 10usize;
        len = len.saturating_add(self.properties.encoded_len());
        len = len.saturating_add(2).saturating_add(self.client_id.as_str().as_bytes().len());
        match &self.will {
            Some(will) => {
                len = len.saturating_add(will.properties.encoded_len());
                len = len.saturating_add(2).saturating_add(will.topic.as_str().as_bytes().len());
                len = len.saturating_add(2).saturating_add(will.payload.len());
            },
            None => {},
        }
        match &self.username {
            Some(username) => {
                len = len.saturating_add(2).saturating_add(username.as_str().as_bytes().len());
            },
            None => {},
        }
        match &self.password {
            Some(password) => {
                len = len.saturating_add(2).saturating_add(password.len());
            },
            None => {},
        }
        len
    }

    /// Returns the Connect Flags byte.
    fn connect_flags(&self) -> (r: u8)
        ensures
            r == spec_connect_flags(self@),
    {
        let clean: u8 = if self.clean_start {
            0x02
        } else {
            0
        };
        let will: u8 = match &self.will {
            Some(w) => {
                let retain: u8 = if w.retain {
                    0x20
                } else {
                    0
                };
                0x04 | (w.qos.as_u8() << 3u8) | retain
            },
            None => 0,
        };
        let password: u8 = if self.password.is_some() {
            0x40
        } else {
            0
        };
        let username: u8 = if self.username.is_some() {
            0x80
        } else {
            0
        };
        clean | will | password | username
    }

    /// Encodes the packet into `buf` and returns the number of bytes written.
    ///
    /// After an error in a property, a string or binary data, the bytes before
    /// it have been written.
    #[verifier::rlimit(100)]
    pub fn encode(&self, buf: &mut [u8]) -> (r: Result<usize, EncodeError>)
        ensures
            final(buf)@.len() == old(buf)@.len(),
            r == match spec_connect_check(self@) {
                Err(e) => Err::<usize, EncodeError>(e),
                Ok(()) => spec_connect_result(self@, old(buf)@.len()),
            },
            r is Ok ==> final(buf)@ == spec_splice(old(buf)@, 0, spec_connect_wire(self@)),
            spec_connect_check(self@) is Err || spec_fixed_header_check(spec_connect_len(self@), old(buf)@.len()) is Err
                ==> final(buf)@ == old(buf)@,
    {
        match self.validate() {
            Err(e) => {
                return Err(e);
            },
            Ok(()) => {},
        }
        let remaining_len = self.encoded_len();
        let offset = match encode_fixed_header(buf, 0x10, 0x00, remaining_len) {
            Err(e) => {
                return Err(e);
            },
            Ok(n) => n,
        };
        proof {
            assert((0x10u8 | 0x00u8) == 0x10u8) by (bit_vector);
            lemma_vbi_encode_len(remaining_len as nat);
            lemma_connect_len(self@);
        }
        let ghost header = spec_fixed_header(0x10, remaining_len as nat);
        let n1 = match self.write_head(buf, offset) {
            Err(e) => {
                return Err(e);
            },
            Ok(n) => n,
        };
        proof {
            lemma_splice_append(old(buf)@, 0, header, spec_connect_head(self@));
            lemma_properties_len_matches(self.properties@);
        }
        let n2 = match self.write_payload(buf, offset + n1) {
            Err(e) => {
                return Err(e);
            },
            Ok(n) => n,
        };
        proof {
            lemma_splice_append(old(buf)@, 0, header + spec_connect_head(self@), spec_connect_payload(self@));
        }
        Ok(offset + n1 + n2)
    }

    /// Writes the variable header at `pos`.
    fn write_head(&self, buf: &mut [u8], pos: usize) -> (r: Result<usize, EncodeError>)
        requires
            spec_payload_len(self.properties@) <= VBI_MAX,
            pos + 10 + spec_properties_len(self.properties@) <= old(buf)@.len(),
        ensures
            final(buf)@.len() == old(buf)@.len(),
            r == match spec_first_property_error(self.properties@) {
                Some(e) => Err::<usize, EncodeError>(e),
                None => Ok(spec_connect_head(self@).len() as usize),
            },
            r is Ok ==> final(buf)@ == spec_splice(old(buf)@, pos as int, spec_connect_head(self@)),
    {
        let buf_len = buf.len();
        let flags = self.connect_flags();
        let head: [u8; 8] = [0, 4, 77, 81, 84, 84, 5, flags];
        let ghost p1 = spec_protocol_header() + seq![flags];
        assert(head@ =~= p1);
        write_bytes_at(buf, pos, &head);
        write_be16_at(buf, pos + 8, self.keep_alive);
        proof {
            lemma_splice_append(old(buf)@, pos as int, p1, spec_be16(self.keep_alive));
        }
        let n = match self.properties.encode_at(buf, pos + 10) {
            Err(e) => {
                return Err(e);
            },
            Ok(n) => n,
        };
        proof {
            lemma_splice_append(
                old(buf)@,
                pos as int,
                p1 + spec_be16(self.keep_alive),
                spec_properties_wire(self.properties@),
            );
            lemma_properties_len_matches(self.properties@);
        }
        Ok(10 + n)
    }

    /// Writes the payload at `pos`.
    #[verifier::rlimit(30)]
    fn write_payload(&self, buf: &mut [u8], pos: usize) -> (r: Result<usize, EncodeError>)
        requires
            self@.will matches Some(w) ==> spec_payload_len(w.properties) <= VBI_MAX
                && spec_properties_len(w.properties) <= VBI_MAX,
            pos + spec_connect_exact_len(self@) - 10 - spec_properties_len(self.properties@)
                <= old(buf)@.len(),
        ensures
            final(buf)@.len() == old(buf)@.len(),
            r == match spec_connect_payload_error(self@) {
                Some(e) => Err::<usize, EncodeError>(e),
                None => Ok(spec_connect_payload(self@).len() as usize),
            },
            r is Ok ==> final(buf)@ == spec_splice(old(buf)@, pos as int, spec_connect_payload(self@)),
            r is Ok ==> spec_connect_payload(self@).len() == spec_connect_exact_len(self@) - 10
                - spec_properties_len(self.properties@),
    {
        let ghost c = self@;
        let buf_len = buf.len();
        let n1 = match encode_string(self.client_id.as_str(), buf, pos) {
            Err(e) => {
                return Err(e);
            },
            Ok(n) => n,
        };
        let ghost q1 = spec_str_wire(c.client_id);
        let mut at = pos + n1;
        let ghost will_wire = match c.will {
            Some(w) => spec_will_wire(w),
            None => Seq::empty(),
        };
        match &self.will {
            Some(will) => {
                let n = match will.write_at(buf, at) {
                    Err(e) => {
                        return Err(e);
                    },
                    Ok(n) => n,
                };
                proof {
                    lemma_properties_len_matches(will.properties@);
                }
                at = at + n;
            },
            None => {
                assert(spec_splice(buf@, at as int, will_wire) =~= buf@);
            },
        }
        proof {
            lemma_splice_append(old(buf)@, pos as int, q1, will_wire);
        }
        let ghost user_wire = match c.username {
            Some(u) => spec_str_wire(u),
            None => Seq::empty(),
        };
        let n3 = match write_opt_str(&self.username, buf, at) {
            Err(e) => {
                return Err(e);
            },
            Ok(n) => n,
        };
        proof {
            lemma_splice_append(old(buf)@, pos as int, q1 + will_wire, user_wire);
        }
        at = at + n3;
        let ghost pass_wire = match c.password {
            Some(p) => spec_binary_wire(p),
            None => Seq::empty(),
        };
        let n4 = match write_opt_bytes(&self.password, buf, at) {
            Err(e) => {
                return Err(e);
            },
            Ok(n) => n,
        };
        proof {
            lemma_splice_append(old(buf)@, pos as int, q1 + will_wire + user_wire, pass_wire);
            lemma_connect_payload_len(c);
        }
        Ok(at + n4 - pos)
    }

    /// Checks what the packet must satisfy before it is written.
    fn validate(&self) -> (r: Result<(), EncodeError>)
        ensures
            r == spec_connect_check(self@),
    {
        reveal(spec_connect_check);
        match &self.will {
            Some(will) => {
                if will.topic.as_str().is_empty() {
                    return Err(EncodeError::InvalidField { reason: EncodeInvalidField::EmptyTopicName });
                }
                let topic_bytes = will.topic.as_str().as_bytes();
                if bytes_contain(topic_bytes, 43) || bytes_contain(topic_bytes, 35) {
                    return Err(
                        EncodeError::InvalidField { reason: EncodeInvalidField::WildcardInTopicName },
                    );
                }
            },
            None => {},
        }
        if self.properties.validate_for_connect().is_err() {
            return Err(
                EncodeError::InvalidField { reason: EncodeInvalidField::PropertyValidationFailed },
            );
        }
        if self.properties.validate_duplicate_identifiers(false).is_err() {
            return Err(
                EncodeError::InvalidField { reason: EncodeInvalidField::DuplicatePropertyIdentifier },
            );
        }
        match &self.will {
            Some(will) => {
                if will.properties.validate_for_will().is_err() {
                    return Err(
                        EncodeError::InvalidField { reason: EncodeInvalidField::PropertyValidationFailed },
                    );
                }
                if will.properties.validate_duplicate_identifiers(false).is_err() {
                    return Err(
                        EncodeError::InvalidField { reason: EncodeInvalidField::DuplicatePropertyIdentifier },
                    );
                }
                if utf8_payload_indicated(&will.properties) && !is_valid_utf8(will.payload.as_slice()) {
                    return Err(
                        EncodeError::InvalidField { reason: EncodeInvalidField::InvalidPayloadUtf8 },
                    );
                }
            },
            None => {},
        }
        Ok(())
    }

    /// Decodes a CONNECT from the start of `buf` and returns it with the number
    /// of bytes consumed.
    #[verifier::rlimit(100)]
    pub fn decode(buf: &[u8]) -> (r: Result<(Self, usize), DecodeError>)
        ensures
            match r {
                Ok((p, n)) => spec_connect_decode(buf@) == Ok::<(ConnectView, nat), DecodeError>((p@, n as nat)),
                Err(e) => spec_connect_decode(buf@) == Err::<(ConnectView, nat), DecodeError>(e),
            },
    {
        let (remaining_len, header_len, end) = match decode_fixed_header(buf, 0x10, 0x00) {
            Err(e) => {
                return Err(e);
            },
            Ok(x) => x,
        };
        let (protocol_name, nn) = match decode_str_at(buf, header_len, end) {
            Err(e) => {
                return Err(malformed_if_insufficient(e));
            },
            Ok(x) => x,
        };
        proof {
            crate::codec::utf8_string::lemma_str_decode_len(buf@.subrange(header_len as int, end as int));
            reveal_strlit("MQTT");
            assert("MQTT"@ =~= seq!['M', 'Q', 'T', 'T']);
        }
        if !crate::codec::utf8_string::str_eq(protocol_name.as_str(), "MQTT") {
            assert(protocol_name@ != seq!['M', 'Q', 'T', 'T']);
            return Err(DecodeError::MalformedPacket);
        }
        let o = header_len + nn;
        if o >= end || buf[o] != 5 {
            return Err(DecodeError::MalformedPacket);
        }
        if o + 1 >= end {
            return Err(DecodeError::MalformedPacket);
        }
        if end - o < 4 {
            return Err(DecodeError::MalformedPacket);
        }
        let flags = buf[o + 1];
        let keep_alive = read_be16_at(buf, o + 2);
        let (properties, pn) = match Properties::decode(&buf[o + 4..end]) {
            Err(e) => {
                return Err(e);
            },
            Ok(x) => x,
        };
        match properties.validate_for_connect() {
            Err(e) => {
                return Err(e);
            },
            Ok(()) => {},
        }
        let start = o + 4 + pn;
        let (client_id, will, username, password) = match decode_payload(buf, start, end, flags) {
            Err(e) => {
                return Err(e);
            },
            Ok(x) => x,
        };
        Ok((
            Self {
                client_id,
                clean_start: flags & 0x02 != 0,
                keep_alive,
                properties,
                will,
                username,
                password,
            },
            end,
        ))
    }
}

/// Decodes what follows the properties of a CONNECT, in `buf[start..end]`.
fn decode_payload(buf: &[u8], start: usize, end: usize, flags: u8) -> (r: Result<
    (String, Option<Will>, Option<String>, Option<Vec<u8>>),
    DecodeError,
>)
    requires
        start <= end <= buf@.len(),
    ensures
        match r {
            Ok((cid, w, u, p)) => spec_connect_payload_decode(buf@.subrange(start as int, end as int), flags)
                == Ok::<(Seq<char>, Option<WillView>, Option<Seq<char>>, Option<Seq<u8>>), DecodeError>(
                (cid@, spec_will_view(w), spec_opt_str_view(u), spec_opt_bytes_view(p)),
            ),
            Err(e) => spec_connect_payload_decode(buf@.subrange(start as int, end as int), flags)
                == Err::<(Seq<char>, Option<WillView>, Option<Seq<char>>, Option<Seq<u8>>), DecodeError>(e),
        },
{
    let ghost s = buf@.subrange(start as int, end as int);
    let (client_id, cn) = match decode_str_at(buf, start, end) {
        Err(e) => {
            return Err(malformed_if_insufficient(e));
        },
        Ok(x) => x,
    };
    proof {
        crate::codec::utf8_string::lemma_str_decode_len(s);
        assert(s.skip(cn as int) =~= buf@.subrange(start + cn, end as int));
    }
    let (will, wn) = match decode_will(buf, start + cn, end, flags) {
        Err(e) => {
            return Err(e);
        },
        Ok(x) => x,
    };
    proof {
        assert(s.skip(cn + wn) =~= buf@.subrange(start + cn + wn, end as int));
    }
    let (username, un) = match decode_opt_str(buf, start + cn + wn, end, flags & 0x80 != 0) {
        Err(e) => {
            return Err(e);
        },
        Ok(x) => x,
    };
    proof {
        if flags & 0x80 != 0 {
            crate::codec::utf8_string::lemma_str_decode_len(s.skip(cn + wn));
        }
        assert(s.skip(cn + wn + un) =~= buf@.subrange(start + cn + wn + un, end as int));
    }
    let (password, bn) = match decode_opt_bytes(buf, start + cn + wn + un, end, flags & 0x40 != 0) {
        Err(e) => {
            return Err(e);
        },
        Ok(x) => x,
    };
    if flags & 0x01 != 0 {
        return Err(DecodeError::MalformedPacket);
    }
    if will.is_none() && (flags & 0x38) != 0 {
        return Err(DecodeError::MalformedPacket);
    }
    if cn + wn + un + bn != end - start {
        return Err(DecodeError::MalformedPacket);
    }
    Ok((client_id, will, username, password))
}

/// The bits of Connect Flags read back as the flags they were made of: Clean
/// Start (`cs`), the Will bits (`wb`: the Will flag, the Will QoS `q` and Will
/// Retain `r`, or none), the Password flag (`pw`) and the User Name flag
/// (`un`).
pub proof fn lemma_connect_flag_bits(cs: u8, wb: u8, q: u8, r: u8, pw: u8, un: u8)
    by (bit_vector)
    requires
        cs == 0 || cs == 2,
        q <= 2,
        r == 0 || r == 0x20,
        wb == 0 || wb == ((0x04u8 | (q << 3u8)) | r),
        pw == 0 || pw == 0x40,
        un == 0 || un == 0x80,
    ensures
        ((0x04u8 | (q << 3u8)) | r) != 0,
        (((cs | wb) | pw) | un) & 0x01 == 0,
        ((((cs | wb) | pw) | un) & 0x02 != 0) == (cs == 2),
        ((((cs | wb) | pw) | un) & 0x04 != 0) == (wb != 0),
        wb != 0 ==> (((((cs | wb) | pw) | un) >> 3u8) & 0x03 == q && ((((cs | wb) | pw) | un) & 0x20 != 0) == (r
            == 0x20)),
        wb == 0 ==> (((cs | wb) | pw) | un) & 0x38 == 0,
        ((((cs | wb) | pw) | un) & 0x40 != 0) == (pw == 0x40),
        ((((cs | wb) | pw) | un) & 0x80 != 0) == (un == 0x80),
{
}

/// The protocol name `MQTT`, as a UTF-8 Encoded String followed by any bytes,
/// decodes back.
pub proof fn lemma_protocol_name(rest: Seq<u8>)
    ensures
        spec_str_decode(seq![0u8, 4u8, 77u8, 81u8, 84u8, 84u8] + rest) == Ok::<(Seq<char>, nat), DecodeError>(
            (seq!['M', 'Q', 'T', 'T'], 6),
        ),
{
    let name = seq!['M', 'Q', 'T', 'T'];
    assert(vstd::utf8::is_ascii_chars(name));
    vstd::utf8::is_ascii_chars_encode_utf8(name);
    let b = spec_utf8(name);
    assert(b[0] == 77 && b[1] == 81 && b[2] == 84 && b[3] == 84);
    assert(b =~= seq![77u8, 81u8, 84u8, 84u8]);
    assert(!b.contains(0u8));
    assert(spec_str_wire(name) =~= seq![0u8, 4u8, 77u8, 81u8, 84u8, 84u8]);
    crate::codec::utf8_string::lemma_str_roundtrip(name, rest);
}

/// Decoding the wire form of a Will that can be written, followed by any
/// bytes, under Connect Flags that announce it with its QoS and Retain, gives
/// it back and consumes exactly its wire form.
#[verifier::spinoff_prover]
pub proof fn lemma_will_roundtrip(w: Will, flags: u8, rest: Seq<u8>)
    requires
        spec_will_error(w@) is None,
        spec_payload_len(w@.properties) <= VBI_MAX,
        spec_ids_within(w@.properties, spec_will_ids()),
        !spec_has_duplicate(w@.properties, false),
        w@.topic.len() != 0,
        !spec_utf8(w@.topic).contains(43u8),
        !spec_utf8(w@.topic).contains(35u8),
        flags & 0x04 != 0,
        (flags >> 3u8) & 0x03 == w.qos.spec_as_u8(),
        (flags & 0x20 != 0) == w.retain,
    ensures
        spec_will_decode(spec_will_wire(w@) + rest, flags) == Ok::<(Option<WillView>, nat), DecodeError>(
            (Some(w@), spec_will_wire(w@).len()),
        ),
{
    reveal(spec_will_decode);
    let v = w@;
    let pw = spec_properties_wire(v.properties);
    let tw = spec_str_wire(v.topic);
    let bw = spec_binary_wire(v.payload);
    let s = spec_will_wire(v) + rest;
    assert(s =~= pw + (tw + bw + rest));
    lemma_properties_roundtrip(w.properties, false, tw + bw + rest);
    assert(s.skip(pw.len() as int) =~= tw + (bw + rest));
    crate::codec::utf8_string::lemma_str_roundtrip(v.topic, bw + rest);
    assert(s.skip((pw.len() + tw.len()) as int) =~= bw + rest);
    crate::codec::binary_data::lemma_binary_roundtrip(v.payload, rest);
    crate::codec::qos::lemma_qos_roundtrip(v.qos);
}

/// The Connect Flags of a CONNECT, as the decoder reads them back.
proof fn lemma_connect_flags_read(c: ConnectView)
    ensures
        ({
            let f = spec_connect_flags(c);
            &&& f & 0x01 == 0
            &&& (f & 0x02 != 0) == c.clean_start
            &&& (f & 0x04 != 0) == (c.will is Some)
            &&& c.will matches Some(w) ==> ((f >> 3u8) & 0x03 == w.qos.spec_as_u8() && (f & 0x20 != 0)
                == w.retain)
            &&& c.will is None ==> f & 0x38 == 0
            &&& (f & 0x40 != 0) == (c.password is Some)
            &&& (f & 0x80 != 0) == (c.username is Some)
        }),
{
    let cs: u8 = if c.clean_start {
        0x02
    } else {
        0
    };
    let pw: u8 = if c.password is Some {
        0x40
    } else {
        0
    };
    let un: u8 = if c.username is Some {
        0x80
    } else {
        0
    };
    match c.will {
        Some(w) => {
            let q = w.qos.spec_as_u8();
            crate::codec::qos::lemma_qos_roundtrip(w.qos);
            let r: u8 = if w.retain {
                0x20
            } else {
                0
            };
            lemma_connect_flag_bits(cs, ((0x04u8 | (q << 3u8)) | r), q, r, pw, un);
        },
        None => {
            lemma_connect_flag_bits(cs, 0, 0, 0, pw, un);
        },
    }
}

/// Decoding the payload of a CONNECT that can be written, under its Connect
/// Flags, gives its Client Identifier, Will, User Name and Password back.
#[verifier::spinoff_prover]
proof fn lemma_connect_payload_roundtrip(p: Connect)
    requires
        spec_connect_payload_error(p@) is None,
        p@.will matches Some(w) ==> {
            &&& spec_payload_len(w.properties) <= VBI_MAX
            &&& spec_ids_within(w.properties, spec_will_ids())
            &&& !spec_has_duplicate(w.properties, false)
            &&& w.topic.len() != 0
            &&& !spec_utf8(w.topic).contains(43u8)
            &&& !spec_utf8(w.topic).contains(35u8)
        },
    ensures
        spec_connect_payload_decode(spec_connect_payload(p@), spec_connect_flags(p@)) == Ok::<
            (Seq<char>, Option<WillView>, Option<Seq<char>>, Option<Seq<u8>>),
            DecodeError,
        >((p@.client_id, p@.will, p@.username, p@.password)),
{
    let c = p@;
    let f = spec_connect_flags(c);
    lemma_connect_flags_read(c);
    let cw = spec_str_wire(c.client_id);
    let ww = match c.will {
        Some(w) => spec_will_wire(w),
        None => Seq::<u8>::empty(),
    };
    let uw = match c.username {
        Some(u) => spec_str_wire(u),
        None => Seq::<u8>::empty(),
    };
    let bw = match c.password {
        Some(d) => spec_binary_wire(d),
        None => Seq::<u8>::empty(),
    };
    let s = spec_connect_payload(c);
    let r3 = bw;
    let r2 = uw + r3;
    let r1 = ww + r2;
    assert(s =~= cw + r1);
    crate::codec::utf8_string::lemma_str_roundtrip(c.client_id, r1);
    crate::codec::wire::lemma_skip_concat(cw, r1);
    match p.will {
        Some(w) => {
            lemma_will_roundtrip(w, f, r2);
        },
        None => {
            lemma_no_will(r1, f);
        },
    }
    crate::codec::wire::lemma_skip_concat(ww, r2);
    crate::codec::wire::lemma_skip_skip(s, cw.len() as int, ww.len() as int);
    lemma_opt_str_roundtrip(c.username, r3);
    crate::codec::wire::lemma_skip_concat(uw, r3);
    crate::codec::wire::lemma_skip_skip(s, (cw.len() + ww.len()) as int, uw.len() as int);
    lemma_opt_bin_roundtrip(c.password);
}

/// Without the Will flag there is no Will to decode.
proof fn lemma_no_will(s: Seq<u8>, flags: u8)
    requires
        flags & 0x04 == 0,
    ensures
        spec_will_decode(s, flags) == Ok::<(Option<WillView>, nat), DecodeError>((None, 0)),
{
    reveal(spec_will_decode);
}

/// An optional string that can be written decodes back from its wire form,
/// followed by any bytes.
#[verifier::spinoff_prover]
pub(crate) proof fn lemma_opt_str_roundtrip(o: Option<Seq<char>>, rest: Seq<u8>)
    requires
        o matches Some(t) ==> spec_text_error(t) is None,
    ensures
        ({
            let w = match o {
                Some(t) => spec_str_wire(t),
                None => Seq::<u8>::empty(),
            };
            spec_opt_str_decode(w + rest, o is Some) == Ok::<(Option<Seq<char>>, nat), DecodeError>((o, w.len()))
        }),
{
    reveal(spec_opt_str_decode);
    if let Some(t) = o {
        crate::codec::utf8_string::lemma_str_roundtrip(t, rest);
    }
}

/// Optional binary data that can be written decodes back from its wire form,
/// which ends where the input ends.
#[verifier::spinoff_prover]
pub(crate) proof fn lemma_opt_bin_roundtrip(o: Option<Seq<u8>>)
    requires
        o matches Some(d) ==> spec_binary_error(d) is None,
    ensures
        ({
            let w = match o {
                Some(d) => spec_binary_wire(d),
                None => Seq::<u8>::empty(),
            };
            spec_opt_bin_decode(w, o is Some) == Ok::<(Option<Seq<u8>>, nat), DecodeError>((o, w.len()))
        }),
{
    reveal(spec_opt_bin_decode);
    if let Some(d) = o {
        crate::codec::binary_data::lemma_binary_roundtrip(d, Seq::<u8>::empty());
        assert(spec_binary_wire(d) + Seq::<u8>::empty() =~= spec_binary_wire(d));
    }
}

/// The decoding of a CONNECT whose parts read back as those of `c`.
#[verifier::spinoff_prover]
proof fn lemma_connect_decode_parts(s: Seq<u8>, c: ConnectView, rem: nat, h: nat, pn: nat)
    requires
        spec_fixed_header_decode(s, 0x10, 0x00) == Ok::<(nat, nat), DecodeError>((rem, h)),
        rem >= 10,
        spec_str_decode(s.subrange(h as int, h + rem as int)) == Ok::<(Seq<char>, nat), DecodeError>(
            (seq!['M', 'Q', 'T', 'T'], 6),
        ),
        s[h + 6 as int] == 5,
        s[h + 7 as int] == spec_connect_flags(c),
        (spec_connect_flags(c) & 0x02 != 0) == c.clean_start,
        spec_read_be16(s, h + 8 as int) == c.keep_alive,
        spec_properties_decode(s.subrange(h + 10 as int, h + rem as int), false) == Ok::<
            (Seq<(u8, PropertyValue)>, nat),
            DecodeError,
        >((c.properties, pn)),
        spec_ids_within(c.properties, spec_connect_ids()),
        spec_has_identifier(c.properties, 0x16) ==> spec_has_identifier(c.properties, 0x15),
        spec_connect_payload_decode(s.subrange(h + 10 + pn as int, h + rem as int), spec_connect_flags(c))
            == Ok::<(Seq<char>, Option<WillView>, Option<Seq<char>>, Option<Seq<u8>>), DecodeError>(
            (c.client_id, c.will, c.username, c.password),
        ),
    ensures
        spec_connect_decode(s) == Ok::<(ConnectView, nat), DecodeError>((c, h + rem)),
{
}

/// What a CONNECT that can be written promises of its parts.
#[verifier::spinoff_prover]
proof fn lemma_connect_writable_facts(c: ConnectView)
    requires
        spec_connect_check(c) is Ok,
        spec_connect_content_error(c) is None,
        spec_connect_len(c) <= VBI_MAX,
    ensures
        spec_payload_len(c.properties) <= VBI_MAX,
        spec_first_property_error(c.properties) is None,
        spec_ids_within(c.properties, spec_connect_ids()),
        spec_has_identifier(c.properties, 0x16) ==> spec_has_identifier(c.properties, 0x15),
        !spec_has_duplicate(c.properties, false),
        spec_connect_payload_error(c) is None,
        c.will matches Some(w) ==> {
            &&& spec_payload_len(w.properties) <= VBI_MAX
            &&& spec_ids_within(w.properties, spec_will_ids())
            &&& !spec_has_duplicate(w.properties, false)
            &&& w.topic.len() != 0
            &&& !spec_utf8(w.topic).contains(43u8)
            &&& !spec_utf8(w.topic).contains(35u8)
        },
        spec_connect_len(c) == 10 + spec_properties_wire(c.properties).len() + spec_connect_payload(c).len(),
{
    reveal(spec_connect_check);
    lemma_connect_len(c);
    assert(spec_payload_len(c.properties) <= VBI_MAX);
    if let Some(w) = c.will {
        assert(spec_payload_len(w.properties) <= VBI_MAX);
    }
    lemma_properties_len_matches(c.properties);
    lemma_connect_payload_len(c);
}

/// Where the parts of a CONNECT lie in its wire form, followed by any bytes.
#[verifier::spinoff_prover]
proof fn lemma_connect_layout(c: ConnectView, rest: Seq<u8>)
    requires
        spec_connect_len(c) <= VBI_MAX,
        spec_connect_len(c) == 10 + spec_properties_wire(c.properties).len() + spec_connect_payload(c).len(),
    ensures
        ({
            let s = spec_connect_wire(c) + rest;
            let rem = spec_connect_len(c) as nat;
            let h = (1 + crate::codec::variable_byte_integer::spec_vbi_len(rem)) as nat;
            let pw = spec_properties_wire(c.properties);
            &&& spec_connect_wire(c).len() == h + rem
            &&& spec_fixed_header_decode(s, 0x10, 0x00) == Ok::<(nat, nat), DecodeError>((rem, h))
            &&& spec_str_decode(s.subrange(h as int, h + rem as int)) == Ok::<(Seq<char>, nat), DecodeError>(
                (seq!['M', 'Q', 'T', 'T'], 6),
            )
            &&& s[h + 6 as int] == 5
            &&& s[h + 7 as int] == spec_connect_flags(c)
            &&& spec_read_be16(s, h + 8 as int) == c.keep_alive
            &&& s.subrange(h + 10 as int, h + rem as int) == pw + spec_connect_payload(c)
            &&& s.subrange(h + 10 + pw.len() as int, h + rem as int) == spec_connect_payload(c)
        }),
{
    let f = spec_connect_flags(c);
    let pw = spec_properties_wire(c.properties);
    let pl = spec_connect_payload(c);
    let rem = spec_connect_len(c) as nat;
    let a = spec_protocol_header() + seq![f] + spec_be16(c.keep_alive);
    let s = spec_connect_wire(c) + rest;
    assert(spec_connect_wire(c) =~= spec_fixed_header(0x10, rem) + a + pw + pl);
    assert((0x10u8 | 0x00u8) == 0x10u8 && (0x10u8 | 0x00u8) & 0xF0 == 0x10u8 && (0x10u8 | 0x00u8) & 0x0F == 0x00u8)
        by (bit_vector);
    lemma_frame_layout(0x10, rem, a, pw, pl, rest);
    assert(s =~= spec_fixed_header(0x10, rem) + (a + pw + pl + rest));
    lemma_fixed_header_roundtrip(0x10, 0x00, rem, a + pw + pl + rest);
    let h = (1 + crate::codec::variable_byte_integer::spec_vbi_len(rem)) as nat;
    let end = h + rem;
    let region = s.subrange(h as int, end as int);
    assert(region == a + (pw + pl));
    assert(region =~= seq![0u8, 4u8, 77u8, 81u8, 84u8, 84u8] + (seq![5u8, f] + spec_be16(c.keep_alive) + pw + pl));
    lemma_protocol_name(seq![5u8, f] + spec_be16(c.keep_alive) + pw + pl);
    assert(s[h + 6 as int] == region[6]);
    assert(s[h + 7 as int] == region[7]);
    crate::codec::wire::lemma_be16_roundtrip(c.keep_alive);
    assert(s[h + 8 as int] == region[8] && s[h + 9 as int] == region[9]);
    crate::codec::wire::lemma_subrange_in_subrange(s, h as int, end as int, 10);
    crate::codec::wire::lemma_concat_tail(a, pw + pl);
}

/// Decoding the wire form of a CONNECT that can be written, followed by any
/// bytes, gives it back and consumes exactly the wire form.
#[verifier::spinoff_prover]
pub proof fn lemma_connect_roundtrip(p: Connect, rest: Seq<u8>)
    requires
        spec_connect_check(p@) is Ok,
        spec_connect_content_error(p@) is None,
        spec_connect_len(p@) <= VBI_MAX,
    ensures
        spec_connect_decode(spec_connect_wire(p@) + rest) == Ok::<(ConnectView, nat), DecodeError>(
            (p@, spec_connect_wire(p@).len()),
        ),
{
    let c = p@;
    lemma_connect_writable_facts(c);
    lemma_connect_flags_read(c);
    lemma_connect_layout(c, rest);
    lemma_properties_roundtrip(p.properties, false, spec_connect_payload(c));
    lemma_connect_payload_roundtrip(p);
    let rem = spec_connect_len(c) as nat;
    let h = (1 + crate::codec::variable_byte_integer::spec_vbi_len(rem)) as nat;
    lemma_connect_decode_parts(spec_connect_wire(c) + rest, c, rem, h, spec_properties_wire(c.properties).len());
}

/// An optional part: `Some(...)` around it, or `None`.
pub open spec fn spec_opt_text(t: Option<Seq<char>>) -> Seq<char> {
    match t {
        Some(x) => "Some("@ + x + ")"@,
        None => "None"@,
    }
}

/// The redacted rendering of a Will: its fields as `Debug` writes them, the
/// payload shown as `"<redacted>"`.
pub open spec fn spec_will_text(w: WillView) -> Seq<char> {
    "Will { topic: "@ + spec_str_debug(w.topic) + ", payload: "@ + "\"<redacted>\""@ + ", qos: "@
        + spec_qos_text(w.qos) + ", retain: "@ + spec_bool_text(w.retain) + ", properties: "@
        + spec_properties_text(w.properties) + " }"@
}

/// An optional Will, redacted.
pub open spec fn spec_opt_will_text(w: Option<WillView>) -> Seq<char> {
    spec_opt_text(
        match w {
            Some(w) => Some(spec_will_text(w)),
            None => None,
        },
    )
}

/// An optional string as `Debug` writes it.
pub open spec fn spec_opt_str_text(u: Option<Seq<char>>) -> Seq<char> {
    spec_opt_text(
        match u {
            Some(u) => Some(spec_str_debug(u)),
            None => None,
        },
    )
}

/// An optional secret: `Some("<redacted>")` or `None`.
pub open spec fn spec_opt_secret_text(p: Option<Seq<u8>>) -> Seq<char> {
    spec_opt_text(
        match p {
            Some(_) => Some("\"<redacted>\""@),
            None => None,
        },
    )
}

/// The redacted rendering of a CONNECT: its fields as `Debug` writes them, a
/// Password shown as `Some("<redacted>")`, the Will redacted.
pub open spec fn spec_connect_text(c: ConnectView) -> Seq<char> {
    "Connect { client_id: "@ + spec_str_debug(c.client_id) + ", clean_start: "@ + spec_bool_text(c.clean_start)
        + ", keep_alive: "@ + spec_decimal(c.keep_alive as nat) + ", properties: "@ + spec_properties_text(c.properties)
        + ", will: "@ + spec_opt_will_text(c.will) + ", username: "@ + spec_opt_str_text(c.username)
        + ", password: "@ + spec_opt_secret_text(c.password) + " }"@
}

/// Appends the redacted rendering of a Will to `s`.
fn push_will_text(s: &mut String, w: &Will)
    ensures
        final(s)@ == old(s)@ + spec_will_text(w@),
{
    let ghost start = s@;
    s.append("Will { topic: ");
    push_str_debug(s, w.topic.as_str());
    s.append(", payload: ");
    s.append("\"<redacted>\"");
    s.append(", qos: ");
    push_qos(s, w.qos);
    s.append(", retain: ");
    push_bool(s, w.retain);
    s.append(", properties: ");
    push_properties_text(s, &w.properties);
    s.append(" }");
    proof {
        assert(s@ =~= start + spec_will_text(w@));
    }
}

impl Will {
    /// The Will as its `Debug` would show it, with the payload hidden as
    /// `"<redacted>"`. `{:?}` itself is derived and shows the payload: use this
    /// rendering where a Will is logged.
    pub fn redacted_debug(&self) -> (r: String)
        ensures
            r@ == spec_will_text(self@),
    {
        let mut s = String::new();
        push_will_text(&mut s, self);
        proof {
            assert(s@ =~= Seq::<char>::empty() + spec_will_text(self@));
        }
        s
    }
}

/// Appends an optional Will, redacted, to `s`.
fn push_opt_will_text(s: &mut String, w: &Option<Will>)
    ensures
        final(s)@ == old(s)@ + spec_opt_will_text(spec_will_view(*w)),
{
    let ghost start = s@;
    match w {
        Some(w) => {
            s.append("Some(");
            push_will_text(s, w);
            s.append(")");
        },
        None => s.append("None"),
    }
    proof {
        assert(s@ =~= start + spec_opt_will_text(spec_will_view(*w)));
    }
}

/// Appends an optional string as `Debug` writes it to `s`.
pub fn push_opt_str_text(s: &mut String, u: &Option<String>)
    ensures
        final(s)@ == old(s)@ + spec_opt_str_text(spec_opt_str_view(*u)),
{
    let ghost start = s@;
    match u {
        Some(u) => {
            s.append("Some(");
            push_str_debug(s, u.as_str());
            s.append(")");
        },
        None => s.append("None"),
    }
    proof {
        assert(s@ =~= start + spec_opt_str_text(spec_opt_str_view(*u)));
    }
}

/// Appends an optional secret, redacted, to `s`.
pub fn push_opt_secret_text(s: &mut String, p: &Option<Vec<u8>>)
    ensures
        final(s)@ == old(s)@ + spec_opt_secret_text(spec_opt_bytes_view(*p)),
{
    let ghost start = s@;
    match p {
        Some(_) => {
            s.append("Some(");
            s.append("\"<redacted>\"");
            s.append(")");
        },
        None => s.append("None"),
    }
    proof {
        assert(s@ =~= start + spec_opt_secret_text(spec_opt_bytes_view(*p)));
    }
}

impl Connect {
    /// The CONNECT as its `Debug` would show it, with the Password and the Will
    /// payload hidden as `"<redacted>"`. `{:?}` itself is derived and shows
    /// them: use this rendering where a CONNECT is logged.
    #[verifier::spinoff_prover]
    pub fn redacted_debug(&self) -> (r: String)
        ensures
            r@ == spec_connect_text(self@),
    {
        let mut s = String::new();
        s.append("Connect { client_id: ");
        push_str_debug(&mut s, self.client_id.as_str());
        s.append(", clean_start: ");
        push_bool(&mut s, self.clean_start);
        s.append(", keep_alive: ");
        push_decimal(&mut s, self.keep_alive as u64);
        s.append(", properties: ");
        push_properties_text(&mut s, &self.properties);
        s.append(", will: ");
        push_opt_will_text(&mut s, &self.will);
        s.append(", username: ");
        push_opt_str_text(&mut s, &self.username);
        s.append(", password: ");
        push_opt_secret_text(&mut s, &self.password);
        s.append(" }");
        proof {
            assert(s@ =~= spec_connect_text(self@));
        }
        s
    }
}

} // verus!
