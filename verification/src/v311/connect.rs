//! MQTT v3.1.1 CONNECT packets (MQTT v3.1.1 §3.1).

use vstd::prelude::*;

use crate::codec::binary_data::{
    encode_binary_checked_at, spec_binary_decode, spec_binary_error, spec_binary_wire, BinaryData,
};
use crate::codec::qos::QoS;
use crate::codec::utf8_string::{decode_str_at, spec_str_decode, spec_str_wire, spec_utf8};
use crate::codec::variable_byte_integer::{lemma_vbi_encode_len, VBI_MAX};
use crate::codec::wire::{bytes_contain, lemma_splice_append, read_be16_at, spec_be16, spec_read_be16, spec_splice, write_be16_at, write_bytes_at};
use crate::error::{malformed_if_insufficient, spec_malformed_if_insufficient, DecodeError, EncodeError, EncodeInvalidField};
use crate::v5::ack_helper::{
    decode_fixed_header, encode_fixed_header, lemma_fixed_header_roundtrip, lemma_frame_layout, spec_fixed_header,
    spec_fixed_header_check, spec_fixed_header_decode,
};
use crate::v5::connect::{
    decode_opt_bytes, decode_opt_str, lemma_connect_flag_bits, lemma_opt_bin_roundtrip, lemma_opt_str_roundtrip,
    lemma_protocol_name, spec_opt_bin_decode, spec_opt_bytes_view, spec_opt_str_decode,
    spec_opt_str_view, spec_or, write_opt_bytes, write_opt_str,
};
use crate::v5::property::{encode_string, spec_text_error};
use crate::v5::subscribe::spec_clamp_usize;

use crate::codec::text::{push_bool, push_decimal, push_qos, push_str_debug, spec_bool_text, spec_decimal, spec_qos_text, spec_str_debug};
use crate::v5::connect::{push_opt_secret_text, push_opt_str_text, spec_opt_secret_text, spec_opt_str_text, spec_opt_text};
use vstd::string::StringExecFns;

verus! {

/// An MQTT v3.1.1 CONNECT packet (MQTT v3.1.1 §3.1).
///
/// `{:?}` is derived and shows the Password and the Will message;
/// [`redacted_debug`](Self::redacted_debug) hides them.
#[derive(Debug, Clone, PartialEq, Eq)]
pub struct Connect {
    /// The Client Identifier.
    pub client_id: String,
    /// The Clean Session flag.
    pub clean_session: bool,
    /// The Keep Alive, in seconds.
    pub keep_alive: u16,
    /// The Will, if any.
    pub will: Option<Will>,
    /// The User Name, if any.
    pub username: Option<String>,
    /// The Password, if any.
    pub password: Option<Vec<u8>>,
}

/// The Will of an MQTT v3.1.1 CONNECT packet.
///
/// `{:?}` is derived and shows the message;
/// [`redacted_debug`](Self::redacted_debug) hides it.
#[derive(Debug, Clone, PartialEq, Eq)]
pub struct Will {
    /// The Will Topic.
    pub topic: String,
    /// The Will Message.
    pub payload: Vec<u8>,
    /// The Will QoS.
    pub qos: QoS,
    /// The Will Retain flag.
    pub retain: bool,
}

/// The abstract value of a [`Will`].
pub struct WillView {
    /// The Will Topic.
    pub topic: Seq<char>,
    /// The Will Message.
    pub payload: Seq<u8>,
    /// The Will QoS.
    pub qos: QoS,
    /// The Will Retain flag.
    pub retain: bool,
}

/// The abstract value of a [`Connect`].
pub struct ConnectView {
    /// The Client Identifier.
    pub client_id: Seq<char>,
    /// The Clean Session flag.
    pub clean_session: bool,
    /// The Keep Alive.
    pub keep_alive: u16,
    /// The Will.
    pub will: Option<WillView>,
    /// The User Name.
    pub username: Option<Seq<char>>,
    /// The Password.
    pub password: Option<Seq<u8>>,
}

impl View for Will {
    type V = WillView;

    open spec fn view(&self) -> WillView {
        WillView { topic: self.topic@, payload: self.payload@, qos: self.qos, retain: self.retain }
    }
}

/// The abstract value of an optional Will.
pub open spec fn spec_will_view(w: Option<Will>) -> Option<WillView> {
    match w {
        Some(w) => Some(w@),
        None => None,
    }
}

impl View for Connect {
    type V = ConnectView;

    open spec fn view(&self) -> ConnectView {
        ConnectView {
            client_id: self.client_id@,
            clean_session: self.clean_session,
            keep_alive: self.keep_alive,
            will: spec_will_view(self.will),
            username: spec_opt_str_view(self.username),
            password: spec_opt_bytes_view(self.password),
        }
    }
}

/// The Connect Flags byte (MQTT v3.1.1 §3.1.2.3).
pub open spec fn spec_connect_flags(c: ConnectView) -> u8 {
    (if c.clean_session {
        0x02u8
    } else {
        0u8
    }) | (match c.will {
        Some(w) => 0x04u8 | (w.qos.spec_as_u8() << 3u8) | (if w.retain {
            0x20u8
        } else {
            0u8
        }),
        None => 0u8,
    }) | (if c.password is Some {
        0x40u8
    } else {
        0u8
    }) | (if c.username is Some {
        0x80u8
    } else {
        0u8
    })
}

/// The remaining length of a CONNECT, as [`Connect::encoded_len`] sums it with
/// saturating additions.
#[verifier::opaque]
pub open spec fn spec_connect_len(c: ConnectView) -> usize {
    let l0 = (10usize).saturating_add(2).saturating_add(spec_clamp_usize(spec_utf8(c.client_id).len()));
    let l1 = match c.will {
        Some(w) => l0.saturating_add(2).saturating_add(spec_clamp_usize(spec_utf8(w.topic).len())).saturating_add(
            2,
        ).saturating_add(spec_clamp_usize(w.payload.len())),
        None => l0,
    };
    let l2 = match c.username {
        Some(u) => l1.saturating_add(2).saturating_add(spec_clamp_usize(spec_utf8(u).len())),
        None => l1,
    };
    match c.password {
        Some(p) => l2.saturating_add(2).saturating_add(spec_clamp_usize(p.len())),
        None => l2,
    }
}

/// The exact sum of the lengths of the variable header and payload.
pub open spec fn spec_connect_exact_len(c: ConnectView) -> int {
    12int + spec_utf8(c.client_id).len() + match c.will {
        Some(w) => 2 + spec_utf8(w.topic).len() + 2 + w.payload.len(),
        None => 0,
    } + match c.username {
        Some(u) => 2 + spec_utf8(u).len(),
        None => 0,
    } + match c.password {
        Some(p) => 2 + p.len(),
        None => 0,
    }
}

/// The protocol name `MQTT` as a UTF-8 Encoded String, then the Protocol Level
/// 4.
pub open spec fn spec_protocol_header() -> Seq<u8> {
    seq![0u8, 4u8, 77u8, 81u8, 84u8, 84u8, 4u8]
}

/// The payload of a CONNECT: the Client Identifier, then the Will, the User
/// Name and the Password where present.
pub open spec fn spec_connect_payload(c: ConnectView) -> Seq<u8> {
    spec_str_wire(c.client_id) + match c.will {
        Some(w) => spec_str_wire(w.topic) + spec_binary_wire(w.payload),
        None => Seq::empty(),
    } + match c.username {
        Some(u) => spec_str_wire(u),
        None => Seq::empty(),
    } + match c.password {
        Some(p) => spec_binary_wire(p),
        None => Seq::empty(),
    }
}

/// The wire form of a CONNECT.
pub open spec fn spec_connect_wire(c: ConnectView) -> Seq<u8> {
    spec_fixed_header(0x10, spec_connect_len(c) as nat) + spec_protocol_header() + seq![spec_connect_flags(c)]
        + spec_be16(c.keep_alive) + spec_connect_payload(c)
}

/// The first error, if any, of writing the payload's strings and binary data
/// in order.
pub open spec fn spec_connect_payload_error(c: ConnectView) -> Option<EncodeError> {
    spec_or(
        spec_text_error(c.client_id),
        spec_or(
            match c.will {
                Some(w) => spec_or(spec_text_error(w.topic), spec_binary_error(w.payload)),
                None => None,
            },
            spec_or(
                match c.username {
                    Some(u) => spec_text_error(u),
                    None => None,
                },
                match c.password {
                    Some(p) => spec_binary_error(p),
                    None => None,
                },
            ),
        ),
    )
}

/// Why a CONNECT cannot be written, if it cannot: a Password without a User
/// Name (MQTT v3.1.1 §3.1.2.9), an empty Client Identifier without Clean
/// Session (MQTT v3.1.1 §3.1.3.1), or an empty Will Topic or one with a
/// wildcard.
pub open spec fn spec_connect_check(c: ConnectView) -> Result<(), EncodeError> {
    if c.password is Some && c.username is None {
        Err(EncodeError::InvalidField { reason: EncodeInvalidField::PasswordWithoutUsername })
    } else if c.client_id.len() == 0 && !c.clean_session {
        Err(EncodeError::InvalidField { reason: EncodeInvalidField::EmptyClientIdWithoutCleanSession })
    } else if c.will matches Some(w) && w.topic.len() == 0 {
        Err(EncodeError::InvalidField { reason: EncodeInvalidField::EmptyTopicName })
    } else if c.will matches Some(w) && (spec_utf8(w.topic).contains(43u8) || spec_utf8(w.topic).contains(35u8)) {
        Err(EncodeError::InvalidField { reason: EncodeInvalidField::WildcardInTopicName })
    } else {
        Ok(())
    }
}

/// What writing a CONNECT that passed its check into a buffer of `buf_len`
/// bytes returns.
pub open spec fn spec_connect_result(c: ConnectView, buf_len: nat) -> Result<usize, EncodeError> {
    match spec_fixed_header_check(spec_connect_len(c), buf_len) {
        Err(e) => Err(e),
        Ok(()) => match spec_connect_payload_error(c) {
            Some(e) => Err(e),
            None => Ok(spec_connect_wire(c).len() as usize),
        },
    }
}

/// The Will at the start of `s` when the flags announce one: its topic and
/// message, and the bytes consumed. An empty Will Topic or one with a wildcard,
/// or Will QoS 3, are malformed.
#[verifier::opaque]
pub open spec fn spec_will_decode(s: Seq<u8>, flags: u8) -> Result<(Option<WillView>, nat), DecodeError> {
    if flags & 0x04 == 0 {
        Ok((None, 0))
    } else {
        match spec_str_decode(s) {
            Err(e) => Err(spec_malformed_if_insufficient(e)),
            Ok((topic, tn)) => if spec_utf8(topic).contains(43u8) || spec_utf8(topic).contains(35u8)
                || topic.len() == 0 {
                Err(DecodeError::MalformedPacket)
            } else {
                match spec_binary_decode(s.skip(tn as int)) {
                    Err(e) => Err(spec_malformed_if_insufficient(e)),
                    Ok((payload, bn)) => match QoS::spec_from_u8((flags >> 3u8) & 0x03) {
                        None => Err(DecodeError::MalformedPacket),
                        Some(q) => Ok(
                            (Some(WillView { topic, payload, qos: q, retain: flags & 0x20 != 0 }), tn + bn),
                        ),
                    },
                }
            },
        }
    }
}

/// The payload of a CONNECT, from the start of `s` (which ends where the
/// packet ends), as the flags announce its parts, with the checks on the
/// reserved flag, on a Password without a User Name, on Will flags without a
/// Will, on an empty Client Identifier without Clean Session and on leftover
/// bytes.
pub open spec fn spec_connect_payload_decode(s: Seq<u8>, flags: u8) -> Result<
    (Seq<char>, Option<WillView>, Option<Seq<char>>, Option<Seq<u8>>),
    DecodeError,
> {
    match spec_str_decode(s) {
        Err(e) => Err(spec_malformed_if_insufficient(e)),
        Ok((cid, cn)) => if flags & 0x01 != 0 {
            Err(DecodeError::MalformedPacket)
        } else {
            match spec_will_decode(s.skip(cn as int), flags) {
                Err(e) => Err(e),
                Ok((will, wn)) => match spec_opt_str_decode(s.skip((cn + wn) as int), flags & 0x80 != 0) {
                    Err(e) => Err(e),
                    Ok((user, un)) => match spec_opt_bin_decode(s.skip((cn + wn + un) as int), flags & 0x40 != 0) {
                        Err(e) => Err(e),
                        Ok((pass, pn)) => if pass is Some && user is None {
                            Err(DecodeError::MalformedPacket)
                        } else if will is None && flags & 0x38 != 0 {
                            Err(DecodeError::MalformedPacket)
                        } else if cid.len() == 0 && flags & 0x02 == 0 {
                            Err(DecodeError::MalformedPacket)
                        } else if cn + wn + un + pn != s.len() {
                            Err(DecodeError::MalformedPacket)
                        } else {
                            Ok((cid, will, user, pass))
                        },
                    },
                },
            }
        },
    }
}

/// The result of decoding a CONNECT from the start of `s`: the packet and the
/// bytes consumed. A protocol name other than `MQTT`, a level other than 4, or
/// missing flags or Keep Alive are malformed.
pub open spec fn spec_connect_decode(s: Seq<u8>) -> Result<(ConnectView, nat), DecodeError> {
    match spec_fixed_header_decode(s, 0x10, 0x00) {
        Err(e) => Err(e),
        Ok((rem, h)) => {
            let end = h + rem;
            match spec_str_decode(s.subrange(h as int, end as int)) {
                Err(e) => Err(spec_malformed_if_insufficient(e)),
                Ok((name, nn)) => {
                    let o = h + nn;
                    if name != seq!['M', 'Q', 'T', 'T'] {
                        Err(DecodeError::MalformedPacket)
                    } else if o >= end || s[o as int] != 4 {
                        Err(DecodeError::MalformedPacket)
                    } else if o + 1 >= end {
                        Err(DecodeError::MalformedPacket)
                    } else if o + 4 > end {
                        Err(DecodeError::MalformedPacket)
                    } else {
                        let flags = s[(o + 1) as int];
                        match spec_connect_payload_decode(s.subrange((o + 4) as int, end as int), flags) {
                            Err(e) => Err(e),
                            Ok((cid, will, user, pass)) => Ok(
                                (
                                    ConnectView {
                                        client_id: cid,
                                        clean_session: flags & 0x02 != 0,
                                        keep_alive: spec_read_be16(s, (o + 2) as int),
                                        will,
                                        username: user,
                                        password: pass,
                                    },
                                    end,
                                ),
                            ),
                        }
                    }
                },
            }
        },
    }
}

/// Below the largest remaining length no addition saturates.
proof fn lemma_connect_len(c: ConnectView)
    requires
        spec_connect_len(c) <= VBI_MAX,
    ensures
        spec_connect_len(c) == spec_connect_exact_len(c),
{
    reveal(spec_connect_len);
}

impl Will {
    /// Writes the Will Topic and Will Message at `pos`.
    fn write_at(&self, buf: &mut [u8], pos: usize) -> (r: Result<usize, EncodeError>)
        requires
            pos + 2 + spec_utf8(self.topic@).len() + 2 + self.payload@.len() <= old(buf)@.len(),
        ensures
            final(buf)@.len() == old(buf)@.len(),
            r == match spec_or(spec_text_error(self.topic@), spec_binary_error(self.payload@)) {
                Some(e) => Err::<usize, EncodeError>(e),
                None => Ok((spec_str_wire(self.topic@) + spec_binary_wire(self.payload@)).len() as usize),
            },
            r is Ok ==> final(buf)@ == spec_splice(
                old(buf)@,
                pos as int,
                spec_str_wire(self.topic@) + spec_binary_wire(self.payload@),
            ),
    {
        let buf_len = buf.len();
        let n1 = match encode_string(self.topic.as_str(), buf, pos) {
            Err(e) => {
                return Err(e);
            },
            Ok(n) => n,
        };
        let n2 = match encode_binary_checked_at(self.payload.as_slice(), buf, pos + n1) {
            Err(e) => {
                return Err(e);
            },
            Ok(n) => n,
        };
        proof {
            lemma_splice_append(old(buf)@, pos as int, spec_str_wire(self.topic@), spec_binary_wire(self.payload@));
        }
        Ok(n1 + n2)
    }
}

/// Decodes the Will from `buf[pos..end]` when the flags announce one.
fn decode_will(buf: &[u8], pos: usize, end: usize, flags: u8) -> (r: Result<(Option<Will>, usize), DecodeError>)
    requires
        pos <= end <= buf@.len(),
    ensures
        match r {
            Ok((w, n)) => spec_will_decode(buf@.subrange(pos as int, end as int), flags) == Ok::<
                (Option<WillView>, nat),
                DecodeError,
            >((spec_will_view(w), n as nat)) && n <= end - pos,
            Err(e) => spec_will_decode(buf@.subrange(pos as int, end as int), flags) == Err::<
                (Option<WillView>, nat),
                DecodeError,
            >(e),
        },
{
    reveal(spec_will_decode);
    let ghost s = buf@.subrange(pos as int, end as int);
    if flags & 0x04 == 0 {
        return Ok((None, 0));
    }
    let (topic, tn) = match decode_str_at(buf, pos, end) {
        Err(e) => {
            return Err(malformed_if_insufficient(e));
        },
        Ok(x) => x,
    };
    proof {
        crate::codec::utf8_string::lemma_str_decode_len(s);
    }
    let topic_bytes = topic.as_str().as_bytes();
    if bytes_contain(topic_bytes, 43) || bytes_contain(topic_bytes, 35) {
        return Err(DecodeError::MalformedPacket);
    }
    if topic.as_str().is_empty() {
        return Err(DecodeError::MalformedPacket);
    }
    proof {
        assert(s.skip(tn as int) =~= buf@.subrange(pos + tn, end as int));
    }
    let (payload, bn) = match BinaryData::decode(&buf[pos + tn..end]) {
        Err(e) => {
            return Err(malformed_if_insufficient(e));
        },
        Ok(x) => x,
    };
    let qos = match QoS::from_u8((flags >> 3u8) & 0x03) {
        None => {
            return Err(DecodeError::MalformedPacket);
        },
        Some(q) => q,
    };
    Ok((Some(Will { topic, payload: payload.0, qos, retain: flags & 0x20 != 0 }), tn + bn))
}

/// Decodes the payload of a CONNECT in `buf[start..end]`.
fn decode_payload(buf: &[u8], start: usize, end: usize, flags: u8) -> (r: Result<
    (String, Option<Will>, Option<String>, Option<Vec<u8>>),
    DecodeError,
>)
    requires
        start <= end <= buf@.len(),
    ensures
        match r {
            Ok((cid, w, u, p)) => spec_connect_payload_decode(buf@.subrange(start as int, end as int), flags)
                == Ok::<(Seq<char>, Option<WillView>, Option<Seq<char>>, Option<Seq<u8>>), DecodeError>(
                (cid@, spec_will_view(w), spec_opt_str_view(u), spec_opt_bytes_view(p)),
            ),
            Err(e) => spec_connect_payload_decode(buf@.subrange(start as int, end as int), flags)
                == Err::<(Seq<char>, Option<WillView>, Option<Seq<char>>, Option<Seq<u8>>), DecodeError>(e),
        },
{
    let ghost s = buf@.subrange(start as int, end as int);
    let (client_id, cn) = match decode_str_at(buf, start, end) {
        Err(e) => {
            return Err(malformed_if_insufficient(e));
        },
        Ok(x) => x,
    };
    proof {
        crate::codec::utf8_string::lemma_str_decode_len(s);
        assert(s.skip(cn as int) =~= buf@.subrange(start + cn, end as int));
    }
    if flags & 0x01 != 0 {
        return Err(DecodeError::MalformedPacket);
    }
    let (will, wn) = match decode_will(buf, start + cn, end, flags) {
        Err(e) => {
            return Err(e);
        },
        Ok(x) => x,
    };
    proof {
        assert(s.skip(cn + wn) =~= buf@.subrange(start + cn + wn, end as int));
    }
    let (username, un) = match decode_opt_str(buf, start + cn + wn, end, flags & 0x80 != 0) {
        Err(e) => {
            return Err(e);
        },
        Ok(x) => x,
    };
    proof {
        assert(s.skip(cn + wn + un) =~= buf@.subrange(start + cn + wn + un, end as int));
    }
    let (password, bn) = match decode_opt_bytes(buf, start + cn + wn + un, end, flags & 0x40 != 0) {
        Err(e) => {
            return Err(e);
        },
        Ok(x) => x,
    };
    if password.is_some() && username.is_none() {
        return Err(DecodeError::MalformedPacket);
    }
    if will.is_none() && (flags & 0x38) != 0 {
        return Err(DecodeError::MalformedPacket);
    }
    if client_id.as_str().is_empty() && flags & 0x02 == 0 {
        return Err(DecodeError::MalformedPacket);
    }
    if cn + wn + un + bn != end - start {
        return Err(DecodeError::MalformedPacket);
    }
    Ok((client_id, will, username, password))
}

impl Connect {
    /// Returns the remaining length of the encoded packet.
    pub fn encoded_len(&self) -> (r: usize)
        ensures
            r == spec_connect_len(self@),
    {
        reveal(spec_connect_len);
        let mut len = 10usize;
        len = len.saturating_add(2).saturating_add(self.client_id.as_str().as_bytes().len());
        match &self.will {
            Some(will) => {
                len = len.saturating_add(2).saturating_add(will.topic.as_str().as_bytes().len());
                len = len.saturating_add(2).saturating_add(will.payload.len());
            },
            None => {},
        }
        match &self.username {
            Some(username) => {
                len = len.saturating_add(2).saturating_add(username.as_str().as_bytes().len());
            },
            None => {},
        }
        match &self.password {
            Some(password) => {
                len = len.saturating_add(2).saturating_add(password.len());
            },
            None => {},
        }
        len
    }

    /// Returns the Connect Flags byte.
    fn connect_flags(&self) -> (r: u8)
        ensures
            r == spec_connect_flags(self@),
    {
        let clean: u8 = if self.clean_session {
            0x02
        } else {
            0
        };
        let will: u8 = match &self.will {
            Some(w) => {
                let retain: u8 = if w.retain {
                    0x20
                } else {
                    0
                };
                0x04 | (w.qos.as_u8() << 3u8) | retain
            },
            None => 0,
        };
        let password: u8 = if self.password.is_some() {
            0x40
        } else {
            0
        };
        let username: u8 = if self.username.is_some() {
            0x80
        } else {
            0
        };
        clean | will | password | username
    }

    /// Encodes the packet into `buf` and returns the number of bytes written.
    ///
    /// After an error in a string or binary data, the bytes before it have been
    /// written.
    #[verifier::rlimit(60)]
    pub fn encode(&self, buf: &mut [u8]) -> (r: Result<usize, EncodeError>)
        ensures
            final(buf)@.len() == old(buf)@.len(),
            r == match spec_connect_check(self@) {
                Err(e) => Err::<usize, EncodeError>(e),
                Ok(()) => spec_connect_result(self@, old(buf)@.len()),
            },
            r is Ok ==> final(buf)@ == spec_splice(old(buf)@, 0, spec_connect_wire(self@)),
            spec_connect_check(self@) is Err || spec_fixed_header_check(spec_connect_len(self@), old(buf)@.len()) is Err
                ==> final(buf)@ == old(buf)@,
    {
        match self.validate() {
            Err(e) => {
                return Err(e);
            },
            Ok(()) => {},
        }
        let remaining_len = self.encoded_len();
        let offset = match encode_fixed_header(buf, 0x10, 0x00, remaining_len) {
            Err(e) => {
                return Err(e);
            },
            Ok(n) => n,
        };
        proof {
            assert((0x10u8 | 0x00u8) == 0x10u8) by (bit_vector);
            lemma_vbi_encode_len(remaining_len as nat);
            lemma_connect_len(self@);
        }
        let ghost header = spec_fixed_header(0x10, remaining_len as nat);
        let flags = self.connect_flags();
        let head: [u8; 8] = [0, 4, 77, 81, 84, 84, 4, flags];
        let ghost p1 = spec_protocol_header() + seq![flags];
        assert(head@ =~= p1);
        write_bytes_at(buf, offset, &head);
        write_be16_at(buf, offset + 8, self.keep_alive);
        proof {
            lemma_splice_append(old(buf)@, offset as int, p1, spec_be16(self.keep_alive));
            lemma_splice_append(old(buf)@, 0, header, p1 + spec_be16(self.keep_alive));
        }
        let n = match self.write_payload(buf, offset + 10) {
            Err(e) => {
                return Err(e);
            },
            Ok(n) => n,
        };
        proof {
            lemma_splice_append(old(buf)@, 0, header + p1 + spec_be16(self.keep_alive), spec_connect_payload(self@));
        }
        Ok(offset + 10 + n)
    }

    /// Writes the payload at `pos`.
    #[verifier::rlimit(30)]
    fn write_payload(&self, buf: &mut [u8], pos: usize) -> (r: Result<usize, EncodeError>)
        requires
            pos + spec_connect_exact_len(self@) - 12 + 2 <= old(buf)@.len(),
        ensures
            final(buf)@.len() == old(buf)@.len(),
            r == match spec_connect_payload_error(self@) {
                Some(e) => Err::<usize, EncodeError>(e),
                None => Ok(spec_connect_payload(self@).len() as usize),
            },
            r is Ok ==> final(buf)@ == spec_splice(old(buf)@, pos as int, spec_connect_payload(self@)),
            r is Ok ==> spec_connect_payload(self@).len() == spec_connect_exact_len(self@) - 10,
    {
        let ghost c = self@;
        let buf_len = buf.len();
        let n1 = match encode_string(self.client_id.as_str(), buf, pos) {
            Err(e) => {
                return Err(e);
            },
            Ok(n) => n,
        };
        let ghost q1 = spec_str_wire(c.client_id);
        let mut at = pos + n1;
        let ghost will_wire = match c.will {
            Some(w) => spec_str_wire(w.topic) + spec_binary_wire(w.payload),
            None => Seq::empty(),
        };
        match &self.will {
            Some(will) => {
                let n = match will.write_at(buf, at) {
                    Err(e) => {
                        return Err(e);
                    },
                    Ok(n) => n,
                };
                at = at + n;
            },
            None => {
                assert(spec_splice(buf@, at as int, will_wire) =~= buf@);
            },
        }
        proof {
            lemma_splice_append(old(buf)@, pos as int, q1, will_wire);
        }
        let ghost user_wire = match c.username {
            Some(u) => spec_str_wire(u),
            None => Seq::empty(),
        };
        let n3 = match write_opt_str(&self.username, buf, at) {
            Err(e) => {
                return Err(e);
            },
            Ok(n) => n,
        };
        proof {
            lemma_splice_append(old(buf)@, pos as int, q1 + will_wire, user_wire);
        }
        at = at + n3;
        let ghost pass_wire = match c.password {
            Some(p) => spec_binary_wire(p),
            None => Seq::empty(),
        };
        let n4 = match write_opt_bytes(&self.password, buf, at) {
            Err(e) => {
                return Err(e);
            },
            Ok(n) => n,
        };
        proof {
            lemma_splice_append(old(buf)@, pos as int, q1 + will_wire + user_wire, pass_wire);
        }
        Ok(at + n4 - pos)
    }

    /// Checks what the packet must satisfy before it is written.
    fn validate(&self) -> (r: Result<(), EncodeError>)
        ensures
            r == spec_connect_check(self@),
    {
        if self.password.is_some() && self.username.is_none() {
            return Err(EncodeError::InvalidField { reason: EncodeInvalidField::PasswordWithoutUsername });
        }
        if self.client_id.as_str().is_empty() && !self.clean_session {
            return Err(
                EncodeError::InvalidField { reason: EncodeInvalidField::EmptyClientIdWithoutCleanSession },
            );
        }
        match &self.will {
            Some(will) => {
                if will.topic.as_str().is_empty() {
                    return Err(EncodeError::InvalidField { reason: EncodeInvalidField::EmptyTopicName });
                }
                let topic_bytes = will.topic.as_str().as_bytes();
                if bytes_contain(topic_bytes, 43) || bytes_contain(topic_bytes, 35) {
                    return Err(
                        EncodeError::InvalidField { reason: EncodeInvalidField::WildcardInTopicName },
                    );
                }
            },
            None => {},
        }
        Ok(())
    }

    /// Decodes a CONNECT from the start of `buf` and returns it with the number
    /// of bytes consumed.
    #[verifier::rlimit(60)]
    pub fn decode(buf: &[u8]) -> (r: Result<(Self, usize), DecodeError>)
        ensures
            match r {
                Ok((p, n)) => spec_connect_decode(buf@) == Ok::<(ConnectView, nat), DecodeError>((p@, n as nat)),
                Err(e) => spec_connect_decode(buf@) == Err::<(ConnectView, nat), DecodeError>(e),
            },
    {
        let (remaining_len, header_len, end) = match decode_fixed_header(buf, 0x10, 0x00) {
            Err(e) => {
                return Err(e);
            },
            Ok(x) => x,
        };
        let (protocol_name, nn) = match decode_str_at(buf, header_len, end) {
            Err(e) => {
                return Err(malformed_if_insufficient(e));
            },
            Ok(x) => x,
        };
        proof {
            crate::codec::utf8_string::lemma_str_decode_len(buf@.subrange(header_len as int, end as int));
            reveal_strlit("MQTT");
            assert("MQTT"@ =~= seq!['M', 'Q', 'T', 'T']);
        }
        if !crate::codec::utf8_string::str_eq(protocol_name.as_str(), "MQTT") {
            return Err(DecodeError::MalformedPacket);
        }
        let o = header_len + nn;
        if o >= end || buf[o] != 4 {
            return Err(DecodeError::MalformedPacket);
        }
        if o + 1 >= end {
            return Err(DecodeError::MalformedPacket);
        }
        if end - o < 4 {
            return Err(DecodeError::MalformedPacket);
        }
        let flags = buf[o + 1];
        let keep_alive = read_be16_at(buf, o + 2);
        let (client_id, will, username, password) = match decode_payload(buf, o + 4, end, flags) {
            Err(e) => {
                return Err(e);
            },
            Ok(x) => x,
        };
        Ok((
            Self {
                client_id,
                clean_session: flags & 0x02 != 0,
                keep_alive,
                will,
                username,
                password,
            },
            end,
        ))
    }
}

/// The Connect Flags of a CONNECT, as the decoder reads them back.
proof fn lemma_connect_flags_read(c: ConnectView)
    ensures
        ({
            let f = spec_connect_flags(c);
            &&& f & 0x01 == 0
            &&& (f & 0x02 != 0) == c.clean_session
            &&& (f & 0x04 != 0) == (c.will is Some)
            &&& c.will matches Some(w) ==> ((f >> 3u8) & 0x03 == w.qos.spec_as_u8() && (f & 0x20 != 0)
                == w.retain)
            &&& c.will is None ==> f & 0x38 == 0
            &&& (f & 0x40 != 0) == (c.password is Some)
            &&& (f & 0x80 != 0) == (c.username is Some)
        }),
{
    let cs: u8 = if c.clean_session {
        0x02
    } else {
        0
    };
    let pw: u8 = if c.password is Some {
        0x40
    } else {
        0
    };
    let un: u8 = if c.username is Some {
        0x80
    } else {
        0
    };
    match c.will {
        Some(w) => {
            let q = w.qos.spec_as_u8();
            crate::codec::qos::lemma_qos_roundtrip(w.qos);
            let r: u8 = if w.retain {
                0x20
            } else {
                0
            };
            lemma_connect_flag_bits(cs, ((0x04u8 | (q << 3u8)) | r), q, r, pw, un);
        },
        None => {
            lemma_connect_flag_bits(cs, 0, 0, 0, pw, un);
        },
    }
}

/// Decoding the wire form of a Will that can be written, followed by any
/// bytes, under Connect Flags that announce it with its QoS and Retain, gives
/// it back and consumes exactly its wire form.
#[verifier::spinoff_prover]
proof fn lemma_will_roundtrip(v: WillView, flags: u8, rest: Seq<u8>)
    requires
        spec_text_error(v.topic) is None,
        spec_binary_error(v.payload) is None,
        v.topic.len() != 0,
        !spec_utf8(v.topic).contains(43u8),
        !spec_utf8(v.topic).contains(35u8),
        flags & 0x04 != 0,
        (flags >> 3u8) & 0x03 == v.qos.spec_as_u8(),
        (flags & 0x20 != 0) == v.retain,
    ensures
        spec_will_decode(spec_str_wire(v.topic) + spec_binary_wire(v.payload) + rest, flags) == Ok::<
            (Option<WillView>, nat),
            DecodeError,
        >((Some(v), (spec_str_wire(v.topic) + spec_binary_wire(v.payload)).len())),
{
    reveal(spec_will_decode);
    let tw = spec_str_wire(v.topic);
    let bw = spec_binary_wire(v.payload);
    let s = tw + bw + rest;
    assert(s =~= tw + (bw + rest));
    crate::codec::utf8_string::lemma_str_roundtrip(v.topic, bw + rest);
    assert(s.skip(tw.len() as int) =~= bw + rest);
    crate::codec::binary_data::lemma_binary_roundtrip(v.payload, rest);
    crate::codec::qos::lemma_qos_roundtrip(v.qos);
}

/// Without the Will flag there is no Will to decode.
proof fn lemma_no_will(s: Seq<u8>, flags: u8)
    requires
        flags & 0x04 == 0,
    ensures
        spec_will_decode(s, flags) == Ok::<(Option<WillView>, nat), DecodeError>((None, 0)),
{
    reveal(spec_will_decode);
}

/// Decoding the payload of a CONNECT that can be written, under its Connect
/// Flags, gives its Client Identifier, Will, User Name and Password back.
#[verifier::spinoff_prover]
proof fn lemma_connect_payload_roundtrip(c: ConnectView)
    requires
        spec_connect_check(c) is Ok,
        spec_connect_payload_error(c) is None,
    ensures
        spec_connect_payload_decode(spec_connect_payload(c), spec_connect_flags(c)) == Ok::<
            (Seq<char>, Option<WillView>, Option<Seq<char>>, Option<Seq<u8>>),
            DecodeError,
        >((c.client_id, c.will, c.username, c.password)),
{
    let f = spec_connect_flags(c);
    lemma_connect_flags_read(c);
    let cw = spec_str_wire(c.client_id);
    let ww = match c.will {
        Some(w) => spec_str_wire(w.topic) + spec_binary_wire(w.payload),
        None => Seq::<u8>::empty(),
    };
    let uw = match c.username {
        Some(u) => spec_str_wire(u),
        None => Seq::<u8>::empty(),
    };
    let bw = match c.password {
        Some(d) => spec_binary_wire(d),
        None => Seq::<u8>::empty(),
    };
    let s = spec_connect_payload(c);
    let r3 = bw;
    let r2 = uw + r3;
    let r1 = ww + r2;
    assert(s =~= cw + r1);
    crate::codec::utf8_string::lemma_str_roundtrip(c.client_id, r1);
    crate::codec::wire::lemma_skip_concat(cw, r1);
    match c.will {
        Some(v) => lemma_will_roundtrip(v, f, r2),
        None => lemma_no_will(r1, f),
    }
    crate::codec::wire::lemma_skip_concat(ww, r2);
    crate::codec::wire::lemma_skip_skip(s, cw.len() as int, ww.len() as int);
    lemma_opt_str_roundtrip(c.username, r3);
    crate::codec::wire::lemma_skip_concat(uw, r3);
    crate::codec::wire::lemma_skip_skip(s, (cw.len() + ww.len()) as int, uw.len() as int);
    lemma_opt_bin_roundtrip(c.password);
}

/// The decoding of a CONNECT whose parts read back as those of `c`.
#[verifier::spinoff_prover]
proof fn lemma_connect_decode_parts(s: Seq<u8>, c: ConnectView, rem: nat, h: nat)
    requires
        spec_fixed_header_decode(s, 0x10, 0x00) == Ok::<(nat, nat), DecodeError>((rem, h)),
        rem >= 10,
        spec_str_decode(s.subrange(h as int, h + rem as int)) == Ok::<(Seq<char>, nat), DecodeError>(
            (seq!['M', 'Q', 'T', 'T'], 6),
        ),
        s[h + 6 as int] == 4,
        s[h + 7 as int] == spec_connect_flags(c),
        (spec_connect_flags(c) & 0x02 != 0) == c.clean_session,
        spec_read_be16(s, h + 8 as int) == c.keep_alive,
        spec_connect_payload_decode(s.subrange(h + 10 as int, h + rem as int), spec_connect_flags(c)) == Ok::<
            (Seq<char>, Option<WillView>, Option<Seq<char>>, Option<Seq<u8>>),
            DecodeError,
        >((c.client_id, c.will, c.username, c.password)),
    ensures
        spec_connect_decode(s) == Ok::<(ConnectView, nat), DecodeError>((c, h + rem)),
{
}

/// Where the parts of a CONNECT lie in its wire form, followed by any bytes.
#[verifier::spinoff_prover]
proof fn lemma_connect_layout(c: ConnectView, rest: Seq<u8>)
    requires
        spec_connect_len(c) <= VBI_MAX,
        spec_connect_len(c) == 10 + spec_connect_payload(c).len(),
    ensures
        ({
            let s = spec_connect_wire(c) + rest;
            let rem = spec_connect_len(c) as nat;
            let h = (1 + crate::codec::variable_byte_integer::spec_vbi_len(rem)) as nat;
            &&& spec_connect_wire(c).len() == h + rem
            &&& spec_fixed_header_decode(s, 0x10, 0x00) == Ok::<(nat, nat), DecodeError>((rem, h))
            &&& spec_str_decode(s.subrange(h as int, h + rem as int)) == Ok::<(Seq<char>, nat), DecodeError>(
                (seq!['M', 'Q', 'T', 'T'], 6),
            )
            &&& s[h + 6 as int] == 4
            &&& s[h + 7 as int] == spec_connect_flags(c)
            &&& spec_read_be16(s, h + 8 as int) == c.keep_alive
            &&& s.subrange(h + 10 as int, h + rem as int) == spec_connect_payload(c)
        }),
{
    let f = spec_connect_flags(c);
    let pl = spec_connect_payload(c);
    let rem = spec_connect_len(c) as nat;
    let a = spec_protocol_header() + seq![f] + spec_be16(c.keep_alive);
    let s = spec_connect_wire(c) + rest;
    assert(spec_connect_wire(c) =~= spec_fixed_header(0x10, rem) + a + Seq::<u8>::empty() + pl);
    assert((0x10u8 | 0x00u8) == 0x10u8 && (0x10u8 | 0x00u8) & 0xF0 == 0x10u8 && (0x10u8 | 0x00u8) & 0x0F == 0x00u8)
        by (bit_vector);
    lemma_frame_layout(0x10, rem, a, Seq::<u8>::empty(), pl, rest);
    assert(s =~= spec_fixed_header(0x10, rem) + (a + Seq::<u8>::empty() + pl + rest));
    lemma_fixed_header_roundtrip(0x10, 0x00, rem, a + Seq::<u8>::empty() + pl + rest);
    let h = (1 + crate::codec::variable_byte_integer::spec_vbi_len(rem)) as nat;
    let end = h + rem;
    let region = s.subrange(h as int, end as int);
    assert(region == a + (Seq::<u8>::empty() + pl));
    assert(region =~= seq![0u8, 4u8, 77u8, 81u8, 84u8, 84u8] + (seq![4u8, f] + spec_be16(c.keep_alive) + pl));
    lemma_protocol_name(seq![4u8, f] + spec_be16(c.keep_alive) + pl);
    assert(s[h + 6 as int] == region[6]);
    assert(s[h + 7 as int] == region[7]);
    crate::codec::wire::lemma_be16_roundtrip(c.keep_alive);
    assert(s[h + 8 as int] == region[8] && s[h + 9 as int] == region[9]);
}

/// Decoding the wire form of a CONNECT that can be written, followed by any
/// bytes, gives it back and consumes exactly the wire form.
#[verifier::spinoff_prover]
pub proof fn lemma_connect_roundtrip(p: Connect, rest: Seq<u8>)
    requires
        spec_connect_check(p@) is Ok,
        spec_connect_payload_error(p@) is None,
        spec_connect_len(p@) <= VBI_MAX,
    ensures
        spec_connect_decode(spec_connect_wire(p@) + rest) == Ok::<(ConnectView, nat), DecodeError>(
            (p@, spec_connect_wire(p@).len()),
        ),
{
    let c = p@;
    lemma_connect_len(c);
    assert(spec_connect_payload(c).len() == spec_connect_exact_len(c) - 10);
    lemma_connect_flags_read(c);
    lemma_connect_layout(c, rest);
    lemma_connect_payload_roundtrip(c);
    let rem = spec_connect_len(c) as nat;
    let h = (1 + crate::codec::variable_byte_integer::spec_vbi_len(rem)) as nat;
    lemma_connect_decode_parts(spec_connect_wire(c) + rest, c, rem, h);
}

/// The redacted rendering of a Will: its fields as `Debug` writes them, the
/// message shown as `"<redacted>"`.
pub open spec fn spec_will_text(w: WillView) -> Seq<char> {
    "Will { topic: "@ + spec_str_debug(w.topic) + ", payload: "@ + "\"<redacted>\""@ + ", qos: "@
        + spec_qos_text(w.qos) + ", retain: "@ + spec_bool_text(w.retain) + " }"@
}

/// An optional Will, redacted.
pub open spec fn spec_opt_will_text(w: Option<WillView>) -> Seq<char> {
    spec_opt_text(
        match w {
            Some(w) => Some(spec_will_text(w)),
            None => None,
        },
    )
}

/// The redacted rendering of a CONNECT: its fields as `Debug` writes them, a
/// Password shown as `Some("<redacted>")`, the Will redacted.
pub open spec fn spec_connect_text(c: ConnectView) -> Seq<char> {
    "Connect { client_id: "@ + spec_str_debug(c.client_id) + ", clean_session: "@ + spec_bool_text(
        c.clean_session,
    ) + ", keep_alive: "@ + spec_decimal(c.keep_alive as nat) + ", will: "@ + spec_opt_will_text(c.will)
        + ", username: "@ + spec_opt_str_text(c.username) + ", password: "@ + spec_opt_secret_text(c.password)
        + " }"@
}

/// Appends the redacted rendering of a Will to `s`.
fn push_will_text(s: &mut String, w: &Will)
    ensures
        final(s)@ == old(s)@ + spec_will_text(w@),
{
    let ghost start = s@;
    s.append("Will { topic: ");
    push_str_debug(s, w.topic.as_str());
    s.append(", payload: ");
    s.append("\"<redacted>\"");
    s.append(", qos: ");
    push_qos(s, w.qos);
    s.append(", retain: ");
    push_bool(s, w.retain);
    s.append(" }");
    proof {
        assert(s@ =~= start + spec_will_text(w@));
    }
}

/// Appends an optional Will, redacted, to `s`.
fn push_opt_will_text(s: &mut String, w: &Option<Will>)
    ensures
        final(s)@ == old(s)@ + spec_opt_will_text(spec_will_view(*w)),
{
    let ghost start = s@;
    match w {
        Some(w) => {
            s.append("Some(");
            push_will_text(s, w);
            s.append(")");
        },
        None => s.append("None"),
    }
    proof {
        assert(s@ =~= start + spec_opt_will_text(spec_will_view(*w)));
    }
}

impl Will {
    /// The Will as its `Debug` would show it, with the message hidden as
    /// `"<redacted>"`. `{:?}` itself is derived and shows the message: use
    /// this rendering where a Will is logged.
    pub fn redacted_debug(&self) -> (r: String)
        ensures
            r@ == spec_will_text(self@),
    {
        let mut s = String::new();
        push_will_text(&mut s, self);
        proof {
            assert(s@ =~= Seq::<char>::empty() + spec_will_text(self@));
        }
        s
    }
}

impl Connect {
    /// The CONNECT as its `Debug` would show it, with the Password and the Will
    /// message hidden as `"<redacted>"`. `{:?}` itself is derived and shows
    /// them: use this rendering where a CONNECT is logged.
    #[verifier::spinoff_prover]
    pub fn redacted_debug(&self) -> (r: String)
        ensures
            r@ == spec_connect_text(self@),
    {
        let mut s = String::new();
        s.append("Connect { client_id: ");
        push_str_debug(&mut s, self.client_id.as_str());
        s.append(", clean_session: ");
        push_bool(&mut s, self.clean_session);
        s.append(", keep_alive: ");
        push_decimal(&mut s, self.keep_alive as u64);
        s.append(", will: ");
        push_opt_will_text(&mut s, &self.will);
        s.append(", username: ");
        push_opt_str_text(&mut s, &self.username);
        s.append(", password: ");
        push_opt_secret_text(&mut s, &self.password);
        s.append(" }");
        proof {
            assert(s@ =~= spec_connect_text(self@));
        }
        s
    }
}

} // verus!
