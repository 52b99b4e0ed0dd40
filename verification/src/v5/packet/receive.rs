//! Laws that tie the packet codecs to what a client receives: the wire form
//! of a packet that a server sends decodes back as an incoming packet.

use vstd::prelude::*;

use crate::codec::variable_byte_integer::{spec_vbi_decode, spec_vbi_encode, spec_vbi_len, VBI_MAX};
use crate::error::{DecodeError, EncodeError};
use crate::v5::ack_helper::{spec_fixed_header, spec_fixed_header_decode};
use crate::v5::auth::{spec_auth_decode, Auth};
use crate::v5::connack::{spec_connack_decode, ConnAck};
use crate::v5::disconnect::{spec_disconnect_decode, Disconnect};
use crate::v5::packet::codec::{spec_packet_decode, spec_packet_len, spec_packet_result, spec_packet_wire, Packet, PacketView};
use crate::v5::packet::{spec_incoming_decode, IncomingView};
use crate::v5::pingresp::PingResp;
use crate::v5::puback::{spec_puback_decode, PubAck};
use crate::v5::pubcomp::{spec_pubcomp_decode, PubComp};
use crate::v5::publish::{spec_publish_decode, Publish};
use crate::v5::pubrec::{spec_pubrec_decode, PubRec};
use crate::v5::pubrel::{spec_pubrel_decode, PubRel};
use crate::v5::suback::{spec_suback_decode, SubAck};
use crate::v5::unsuback::{spec_unsuback_decode, UnsubAck};

verus! {

/// The packet that a client receives, for the kinds that a server sends.
pub open spec fn spec_incoming_of(v: PacketView) -> Option<IncomingView> {
    match v {
        PacketView::ConnAck(a, b, c) => Some(IncomingView::ConnAck(a, b, c)),
        PacketView::Publish(x) => Some(IncomingView::Publish(x)),
        PacketView::PubAck(a, b, c) => Some(IncomingView::PubAck(a, b, c)),
        PacketView::PubRec(a, b, c) => Some(IncomingView::PubRec(a, b, c)),
        PacketView::PubRel(a, b, c) => Some(IncomingView::PubRel(a, b, c)),
        PacketView::PubComp(a, b, c) => Some(IncomingView::PubComp(a, b, c)),
        PacketView::SubAck(a, b, c) => Some(IncomingView::SubAck(a, b, c)),
        PacketView::UnsubAck(a, b, c) => Some(IncomingView::UnsubAck(a, b, c)),
        PacketView::PingResp => Some(IncomingView::PingResp),
        PacketView::Disconnect(a, b) => Some(IncomingView::Disconnect(a, b)),
        PacketView::Auth(a, b) => Some(IncomingView::Auth(a, b)),
        _ => None,
    }
}

/// Whether a packet can be written and read back as one that a client
/// receives: it is of a kind that a server sends, it can be written, and a
/// DISCONNECT or AUTH carries a reason code that a server sends (a DISCONNECT
/// without a Session Expiry Interval).
pub open spec fn spec_receivable(p: Packet) -> bool {
    &&& spec_incoming_of(p@) is Some
    &&& spec_packet_result(p, spec_packet_wire(p).len()) is Ok
    &&& p matches Packet::Disconnect(d) ==> d.reason_code.spec_sent_by_server()
        && !crate::v5::property::spec_has_identifier(d.properties@, 0x11)
    &&& p matches Packet::Auth(a) ==> a.reason_code.spec_sent_by_server()
}

/// Decoding, as a packet that a client receives, the wire form of a packet of
/// a kind that a server sends and that can be written, followed by any bytes,
/// gives it back and consumes exactly its wire form.
pub proof fn lemma_incoming_roundtrip(p: Packet, rest: Seq<u8>)
    requires
        spec_receivable(p),
    ensures
        spec_incoming_decode(spec_packet_wire(p) + rest) == Ok::<(IncomingView, nat), DecodeError>(
            (spec_incoming_of(p@)->Some_0, spec_packet_wire(p).len()),
        ),
{
    match p {
        Packet::ConnAck(c) => lemma_incoming_conn_ack_roundtrip(c, rest),
        Packet::Publish(c) => lemma_incoming_publish_roundtrip(c, rest),
        Packet::PubAck(c) => lemma_incoming_pub_ack_roundtrip(c, rest),
        Packet::PubRec(c) => lemma_incoming_pub_rec_roundtrip(c, rest),
        Packet::PubRel(c) => lemma_incoming_pub_rel_roundtrip(c, rest),
        Packet::PubComp(c) => lemma_incoming_pub_comp_roundtrip(c, rest),
        Packet::SubAck(c) => lemma_incoming_sub_ack_roundtrip(c, rest),
        Packet::UnsubAck(c) => lemma_incoming_unsub_ack_roundtrip(c, rest),
        Packet::PingResp(c) => lemma_incoming_pingresp_roundtrip(c, rest),
        Packet::Disconnect(c) => lemma_incoming_disconnect_roundtrip(c, rest),
        Packet::Auth(c) => lemma_incoming_auth_roundtrip(c, rest),
        _ => {},
    }
}

/// The incoming roundtrip of a PINGRESP.
proof fn lemma_incoming_pingresp_roundtrip(c: PingResp, rest: Seq<u8>)
    ensures
        spec_incoming_decode(spec_packet_wire(Packet::PingResp(c)) + rest) == Ok::<(IncomingView, nat), DecodeError>(
            (IncomingView::PingResp, spec_packet_wire(Packet::PingResp(c)).len()),
        ),
{
    crate::v5::pingresp::lemma_pingresp_roundtrip(rest);
    assert(0xD0u8 & 0xF0 == 0xD0u8) by (bit_vector);
}

/// The incoming roundtrip of a CONNACK.
#[verifier::spinoff_prover]
proof fn lemma_incoming_conn_ack_roundtrip(c: ConnAck, rest: Seq<u8>)
    requires
        spec_packet_result(Packet::ConnAck(c), spec_packet_wire(Packet::ConnAck(c)).len()) is Ok,
    ensures
        spec_incoming_decode(spec_packet_wire(Packet::ConnAck(c)) + rest) == Ok::<(IncomingView, nat), DecodeError>(
            (spec_incoming_of(Packet::ConnAck(c)@)->Some_0, spec_packet_wire(Packet::ConnAck(c)).len()),
        ),
{
    crate::v5::connack::lemma_connack_roundtrip(c, rest);
}

/// The incoming roundtrip of a PUBLISH.
#[verifier::spinoff_prover]
proof fn lemma_incoming_publish_roundtrip(c: Publish, rest: Seq<u8>)
    requires
        spec_packet_result(Packet::Publish(c), spec_packet_wire(Packet::Publish(c)).len()) is Ok,
    ensures
        spec_incoming_decode(spec_packet_wire(Packet::Publish(c)) + rest) == Ok::<(IncomingView, nat), DecodeError>(
            (spec_incoming_of(Packet::Publish(c)@)->Some_0, spec_packet_wire(Packet::Publish(c)).len()),
        ),
{
    crate::v5::publish::lemma_publish_roundtrip(c, rest);
}

/// The incoming roundtrip of a PUBREC.
#[verifier::spinoff_prover]
proof fn lemma_incoming_pub_rec_roundtrip(c: PubRec, rest: Seq<u8>)
    requires
        spec_packet_result(Packet::PubRec(c), spec_packet_wire(Packet::PubRec(c)).len()) is Ok,
    ensures
        spec_incoming_decode(spec_packet_wire(Packet::PubRec(c)) + rest) == Ok::<(IncomingView, nat), DecodeError>(
            (spec_incoming_of(Packet::PubRec(c)@)->Some_0, spec_packet_wire(Packet::PubRec(c)).len()),
        ),
{
    crate::v5::pubrec::lemma_pubrec_roundtrip(c, rest);
}

/// The incoming roundtrip of a PUBREL.
#[verifier::spinoff_prover]
proof fn lemma_incoming_pub_rel_roundtrip(c: PubRel, rest: Seq<u8>)
    requires
        spec_packet_result(Packet::PubRel(c), spec_packet_wire(Packet::PubRel(c)).len()) is Ok,
    ensures
        spec_incoming_decode(spec_packet_wire(Packet::PubRel(c)) + rest) == Ok::<(IncomingView, nat), DecodeError>(
            (spec_incoming_of(Packet::PubRel(c)@)->Some_0, spec_packet_wire(Packet::PubRel(c)).len()),
        ),
{
    crate::v5::pubrel::lemma_pubrel_roundtrip(c, rest);
}

/// The incoming roundtrip of a SUBACK.
#[verifier::spinoff_prover]
proof fn lemma_incoming_sub_ack_roundtrip(c: SubAck, rest: Seq<u8>)
    requires
        spec_packet_result(Packet::SubAck(c), spec_packet_wire(Packet::SubAck(c)).len()) is Ok,
    ensures
        spec_incoming_decode(spec_packet_wire(Packet::SubAck(c)) + rest) == Ok::<(IncomingView, nat), DecodeError>(
            (spec_incoming_of(Packet::SubAck(c)@)->Some_0, spec_packet_wire(Packet::SubAck(c)).len()),
        ),
{
    crate::v5::suback::lemma_suback_roundtrip(c, rest);
}

/// The incoming roundtrip of a PUBACK.
#[verifier::spinoff_prover]
proof fn lemma_incoming_pub_ack_roundtrip(c: PubAck, rest: Seq<u8>)
    requires
        spec_packet_result(Packet::PubAck(c), spec_packet_wire(Packet::PubAck(c)).len()) is Ok,
    ensures
        spec_incoming_decode(spec_packet_wire(Packet::PubAck(c)) + rest) == Ok::<(IncomingView, nat), DecodeError>(
            (spec_incoming_of(Packet::PubAck(c)@)->Some_0, spec_packet_wire(Packet::PubAck(c)).len()),
        ),
{
    crate::v5::puback::lemma_puback_roundtrip(c, rest);
}

/// The incoming roundtrip of a PUBCOMP.
#[verifier::spinoff_prover]
proof fn lemma_incoming_pub_comp_roundtrip(c: PubComp, rest: Seq<u8>)
    requires
        spec_packet_result(Packet::PubComp(c), spec_packet_wire(Packet::PubComp(c)).len()) is Ok,
    ensures
        spec_incoming_decode(spec_packet_wire(Packet::PubComp(c)) + rest) == Ok::<(IncomingView, nat), DecodeError>(
            (spec_incoming_of(Packet::PubComp(c)@)->Some_0, spec_packet_wire(Packet::PubComp(c)).len()),
        ),
{
    crate::v5::pubcomp::lemma_pubcomp_roundtrip(c, rest);
}

/// The incoming roundtrip of an UNSUBACK.
#[verifier::spinoff_prover]
proof fn lemma_incoming_unsub_ack_roundtrip(c: UnsubAck, rest: Seq<u8>)
    requires
        spec_packet_result(Packet::UnsubAck(c), spec_packet_wire(Packet::UnsubAck(c)).len()) is Ok,
    ensures
        spec_incoming_decode(spec_packet_wire(Packet::UnsubAck(c)) + rest) == Ok::<(IncomingView, nat), DecodeError>(
            (spec_incoming_of(Packet::UnsubAck(c)@)->Some_0, spec_packet_wire(Packet::UnsubAck(c)).len()),
        ),
{
    crate::v5::unsuback::lemma_unsuback_roundtrip(c, rest);
}

/// The incoming roundtrip of a DISCONNECT.
#[verifier::spinoff_prover]
proof fn lemma_incoming_disconnect_roundtrip(c: Disconnect, rest: Seq<u8>)
    requires
        spec_packet_result(Packet::Disconnect(c), spec_packet_wire(Packet::Disconnect(c)).len()) is Ok,
        c.reason_code.spec_sent_by_server(),
        !crate::v5::property::spec_has_identifier(c.properties@, 0x11),
    ensures
        spec_incoming_decode(spec_packet_wire(Packet::Disconnect(c)) + rest) == Ok::<(IncomingView, nat), DecodeError>(
            (spec_incoming_of(Packet::Disconnect(c)@)->Some_0, spec_packet_wire(Packet::Disconnect(c)).len()),
        ),
{
    crate::v5::disconnect::lemma_disconnect_roundtrip(c, rest);
}

/// The incoming roundtrip of a AUTH.
#[verifier::spinoff_prover]
proof fn lemma_incoming_auth_roundtrip(c: Auth, rest: Seq<u8>)
    requires
        spec_packet_result(Packet::Auth(c), spec_packet_wire(Packet::Auth(c)).len()) is Ok,
        c.reason_code.spec_sent_by_server(),
    ensures
        spec_incoming_decode(spec_packet_wire(Packet::Auth(c)) + rest) == Ok::<(IncomingView, nat), DecodeError>(
            (spec_incoming_of(Packet::Auth(c)@)->Some_0, spec_packet_wire(Packet::Auth(c)).len()),
        ),
{
    crate::v5::auth::lemma_auth_roundtrip(c, rest);
}

/// Whether the first `n` bytes of `s` are one frame: a first byte, a
/// remaining length, and that many bytes.
pub open spec fn spec_one_frame(s: Seq<u8>, n: nat) -> bool {
    spec_vbi_decode(s.skip(1)) matches Ok((r, k)) && n == 1 + k + r
}

/// A fixed header that decodes gives a frame.
proof fn lemma_fixed_header_frame(s: Seq<u8>, t: u8, f: u8)
    requires
        spec_fixed_header_decode(s, t, f) is Ok,
    ensures
        ({
            let (rem, h) = spec_fixed_header_decode(s, t, f)->Ok_0;
            spec_one_frame(s, h + rem)
        }),
{
}

/// What a client decodes successfully takes exactly one frame.
pub proof fn lemma_incoming_frame(s: Seq<u8>)
    requires
        spec_incoming_decode(s) is Ok,
    ensures
        spec_one_frame(s, spec_incoming_decode(s)->Ok_0.1),
{
    let t = s[0] & 0xF0;
    if t == 0x20 {
        lemma_connack_frame(s);
    } else if t == 0x30 {
        lemma_publish_frame(s);
    } else if t == 0x40 {
        lemma_puback_frame(s);
    } else if t == 0x50 {
        lemma_pubrec_frame(s);
    } else if t == 0x60 {
        lemma_pubrel_frame(s);
    } else if t == 0x70 {
        lemma_pubcomp_frame(s);
    } else if t == 0x90 {
        lemma_suback_frame(s);
    } else if t == 0xB0 {
        lemma_unsuback_frame(s);
    } else if t == 0xE0 {
        lemma_disconnect_frame(s);
    } else if t == 0xF0 {
        lemma_auth_frame(s);
    }
}

/// A CONNACK that decodes takes one frame.
#[verifier::spinoff_prover]
proof fn lemma_connack_frame(s: Seq<u8>)
    requires
        spec_connack_decode(s) is Ok,
    ensures
        spec_one_frame(s, spec_connack_decode(s)->Ok_0.3),
{
    lemma_fixed_header_frame(s, 0x20, 0x00);
}

/// A PUBLISH that decodes takes one frame.
#[verifier::spinoff_prover]
proof fn lemma_publish_frame(s: Seq<u8>)
    requires
        spec_publish_decode(s) is Ok,
    ensures
        spec_one_frame(s, spec_publish_decode(s)->Ok_0.1),
{
}

/// A PUBREC that decodes takes one frame.
#[verifier::spinoff_prover]
proof fn lemma_pubrec_frame(s: Seq<u8>)
    requires
        spec_pubrec_decode(s) is Ok,
    ensures
        spec_one_frame(s, spec_pubrec_decode(s)->Ok_0.3),
{
    lemma_fixed_header_frame(s, 0x50, 0x00);
}

/// A PUBREL that decodes takes one frame.
#[verifier::spinoff_prover]
proof fn lemma_pubrel_frame(s: Seq<u8>)
    requires
        spec_pubrel_decode(s) is Ok,
    ensures
        spec_one_frame(s, spec_pubrel_decode(s)->Ok_0.3),
{
    lemma_fixed_header_frame(s, 0x60, 0x02);
}

/// A SUBACK that decodes takes one frame.
#[verifier::spinoff_prover]
proof fn lemma_suback_frame(s: Seq<u8>)
    requires
        spec_suback_decode(s) is Ok,
    ensures
        spec_one_frame(s, spec_suback_decode(s)->Ok_0.3),
{
    lemma_fixed_header_frame(s, 0x90, 0x00);
}

/// A PUBACK that decodes takes one frame.
#[verifier::spinoff_prover]
proof fn lemma_puback_frame(s: Seq<u8>)
    requires
        spec_puback_decode(s) is Ok,
    ensures
        spec_one_frame(s, spec_puback_decode(s)->Ok_0.3),
{
    lemma_fixed_header_frame(s, 0x40, 0x00);
}

/// A PUBCOMP that decodes takes one frame.
#[verifier::spinoff_prover]
proof fn lemma_pubcomp_frame(s: Seq<u8>)
    requires
        spec_pubcomp_decode(s) is Ok,
    ensures
        spec_one_frame(s, spec_pubcomp_decode(s)->Ok_0.3),
{
    lemma_fixed_header_frame(s, 0x70, 0x00);
}

/// An UNSUBACK that decodes takes one frame.
#[verifier::spinoff_prover]
proof fn lemma_unsuback_frame(s: Seq<u8>)
    requires
        spec_unsuback_decode(s) is Ok,
    ensures
        spec_one_frame(s, spec_unsuback_decode(s)->Ok_0.3),
{
    lemma_fixed_header_frame(s, 0xB0, 0x00);
}

/// A DISCONNECT that decodes takes one frame.
#[verifier::spinoff_prover]
proof fn lemma_disconnect_frame(s: Seq<u8>)
    requires
        spec_disconnect_decode(s) is Ok,
    ensures
        spec_one_frame(s, spec_disconnect_decode(s)->Ok_0.2),
{
    lemma_fixed_header_frame(s, 0xE0, 0x00);
}

/// An AUTH that decodes takes one frame.
#[verifier::spinoff_prover]
proof fn lemma_auth_frame(s: Seq<u8>)
    requires
        spec_auth_decode(s) is Ok,
    ensures
        spec_one_frame(s, spec_auth_decode(s)->Ok_0.2),
{
    lemma_fixed_header_frame(s, 0xF0, 0x00);
}

/// A CONNECT that decodes takes one frame.
#[verifier::spinoff_prover]
proof fn lemma_connect_frame(s: Seq<u8>)
    requires
        crate::v5::connect::spec_connect_decode(s) is Ok,
    ensures
        spec_one_frame(s, crate::v5::connect::spec_connect_decode(s)->Ok_0.1),
{
    lemma_fixed_header_frame(s, 0x10, 0x00);
}

/// A SUBSCRIBE that decodes takes one frame.
#[verifier::spinoff_prover]
proof fn lemma_subscribe_frame(s: Seq<u8>)
    requires
        crate::v5::subscribe::spec_subscribe_decode(s) is Ok,
    ensures
        spec_one_frame(s, crate::v5::subscribe::spec_subscribe_decode(s)->Ok_0.3),
{
    lemma_fixed_header_frame(s, 0x80, 0x02);
}

/// An UNSUBSCRIBE that decodes takes one frame.
#[verifier::spinoff_prover]
proof fn lemma_unsubscribe_frame(s: Seq<u8>)
    requires
        crate::v5::unsubscribe::spec_unsubscribe_decode(s) is Ok,
    ensures
        spec_one_frame(s, crate::v5::unsubscribe::spec_unsubscribe_decode(s)->Ok_0.3),
{
    lemma_fixed_header_frame(s, 0xA0, 0x02);
}

/// What decodes successfully as a packet of any type takes exactly one frame.
pub proof fn lemma_packet_frame(s: Seq<u8>)
    requires
        spec_packet_decode(s) is Ok,
    ensures
        spec_one_frame(s, spec_packet_decode(s)->Ok_0.1),
{
    let t = s[0] & 0xF0;
    if t == 0x10 {
        lemma_connect_frame(s);
    } else if t == 0x20 {
        lemma_connack_frame(s);
    } else if t == 0x30 {
        lemma_publish_frame(s);
    } else if t == 0x40 {
        lemma_puback_frame(s);
    } else if t == 0x50 {
        lemma_pubrec_frame(s);
    } else if t == 0x60 {
        lemma_pubrel_frame(s);
    } else if t == 0x70 {
        lemma_pubcomp_frame(s);
    } else if t == 0x80 {
        lemma_subscribe_frame(s);
    } else if t == 0x90 {
        lemma_suback_frame(s);
    } else if t == 0xA0 {
        lemma_unsubscribe_frame(s);
    } else if t == 0xB0 {
        lemma_unsuback_frame(s);
    } else if t == 0xE0 {
        lemma_disconnect_frame(s);
    } else if t == 0xF0 {
        lemma_auth_frame(s);
    }
}

/// The law of writing and reading a packet of any type: writing it into a
/// buffer, when that succeeds, writes its wire form, which takes `1 +` (the
/// bytes of the remaining length) `+` the remaining length `encoded_len`; and
/// decoding those bytes, followed by any others, gives the packet back and
/// consumes exactly them. Packets that only a client sends (CONNECT,
/// SUBSCRIBE, UNSUBSCRIBE, PINGREQ) read back too. A DISCONNECT or AUTH reads
/// back when it is one that a server may send: the decoder reads them as a
/// client receives them.
#[verifier::spinoff_prover]
pub proof fn lemma_packet_written_reads_back(p: Packet, n: nat, rest: Seq<u8>)
    requires
        spec_packet_result(p, n) is Ok,
        p matches Packet::Disconnect(d) ==> d.reason_code.spec_sent_by_server()
            && !crate::v5::property::spec_has_identifier(d.properties@, 0x11),
        p matches Packet::Auth(a) ==> a.reason_code.spec_sent_by_server(),
    ensures
        spec_packet_result(p, n) == Ok::<usize, EncodeError>(spec_packet_wire(p).len() as usize),
        spec_packet_wire(p).len() == 1 + spec_vbi_len(spec_packet_len(p) as nat) + spec_packet_len(p),
        spec_packet_decode(spec_packet_wire(p) + rest) == Ok::<(PacketView, nat), DecodeError>(
            (p@, spec_packet_wire(p).len()),
        ),
{
    match p {
        Packet::Connect(c) => lemma_connect_reads_back(c, n, rest),
        Packet::ConnAck(c) => lemma_conn_ack_reads_back(c, n, rest),
        Packet::Publish(c) => lemma_publish_reads_back(c, n, rest),
        Packet::PubAck(c) => lemma_pub_ack_reads_back(c, n, rest),
        Packet::PubRec(c) => lemma_pub_rec_reads_back(c, n, rest),
        Packet::PubRel(c) => lemma_pub_rel_reads_back(c, n, rest),
        Packet::PubComp(c) => lemma_pub_comp_reads_back(c, n, rest),
        Packet::Subscribe(c) => lemma_subscribe_reads_back(c, n, rest),
        Packet::SubAck(c) => lemma_sub_ack_reads_back(c, n, rest),
        Packet::Unsubscribe(c) => lemma_unsubscribe_reads_back(c, n, rest),
        Packet::UnsubAck(c) => lemma_unsub_ack_reads_back(c, n, rest),
        Packet::PingReq(c) => lemma_ping_req_reads_back(c, n, rest),
        Packet::PingResp(c) => lemma_ping_resp_reads_back(c, n, rest),
        Packet::Disconnect(c) => lemma_disconnect_reads_back(c, n, rest),
        Packet::Auth(c) => lemma_auth_reads_back(c, n, rest),
    }
    let w = spec_packet_wire(p);
    lemma_packet_frame(w + rest);
    lemma_wire_length(w, rest, spec_packet_len(p) as nat);
}

/// Bytes that start with a fixed header for the remaining length `len`, and
/// whose first `w.len()` bytes are one frame, are `1 +` (the bytes of `len`)
/// `+ len` long.
#[verifier::spinoff_prover]
proof fn lemma_wire_length(w: Seq<u8>, rest: Seq<u8>, len: nat)
    requires
        len <= VBI_MAX,
        w.len() >= 1 + spec_vbi_encode(len).len(),
        w.take(1 + spec_vbi_encode(len).len() as int) == spec_fixed_header(w[0], len),
        spec_one_frame(w + rest, w.len()),
    ensures
        w.len() == 1 + spec_vbi_len(len) + len,
{
    let s = w + rest;
    let e = spec_vbi_encode(len).len() as int;
    assert(s.skip(1) =~= spec_vbi_encode(len) + (w.skip(1 + e) + rest)) by {
        assert(w =~= w.take(1 + e) + w.skip(1 + e));
    }
    crate::codec::variable_byte_integer::lemma_vbi_roundtrip(len, w.skip(1 + e) + rest);
}

/// The law of writing and reading for a CONNECT.
#[verifier::spinoff_prover]
proof fn lemma_connect_reads_back(c: crate::v5::connect::Connect, n: nat, rest: Seq<u8>)
    requires
        spec_packet_result(Packet::Connect(c), n) is Ok,
    ensures
        spec_packet_result(Packet::Connect(c), n) == Ok::<usize, EncodeError>(spec_packet_wire(Packet::Connect(c)).len() as usize),
        spec_packet_len(Packet::Connect(c)) <= VBI_MAX,
        ({
            let w = spec_packet_wire(Packet::Connect(c));
            let e = spec_vbi_encode(spec_packet_len(Packet::Connect(c)) as nat).len() as int;
            &&& w.len() >= 1 + e
            &&& w.take(1 + e) == spec_fixed_header(w[0], spec_packet_len(Packet::Connect(c)) as nat)
        }),
        spec_packet_decode(spec_packet_wire(Packet::Connect(c)) + rest) == Ok::<(PacketView, nat), DecodeError>(
            (Packet::Connect(c)@, spec_packet_wire(Packet::Connect(c)).len()),
        ),
{
    crate::v5::connect::lemma_connect_roundtrip(c, rest);
    assert(crate::codec::variable_byte_integer::spec_vbi_encode(0) =~= seq![0u8]);
    let w = spec_packet_wire(Packet::Connect(c));
    let e = spec_vbi_encode(spec_packet_len(Packet::Connect(c)) as nat).len() as int;
    assert(w.take(1 + e) =~= spec_fixed_header(w[0], spec_packet_len(Packet::Connect(c)) as nat));
}

/// The law of writing and reading for a CONNACK.
#[verifier::spinoff_prover]
proof fn lemma_conn_ack_reads_back(c: ConnAck, n: nat, rest: Seq<u8>)
    requires
        spec_packet_result(Packet::ConnAck(c), n) is Ok,
    ensures
        spec_packet_result(Packet::ConnAck(c), n) == Ok::<usize, EncodeError>(spec_packet_wire(Packet::ConnAck(c)).len() as usize),
        spec_packet_len(Packet::ConnAck(c)) <= VBI_MAX,
        ({
            let w = spec_packet_wire(Packet::ConnAck(c));
            let e = spec_vbi_encode(spec_packet_len(Packet::ConnAck(c)) as nat).len() as int;
            &&& w.len() >= 1 + e
            &&& w.take(1 + e) == spec_fixed_header(w[0], spec_packet_len(Packet::ConnAck(c)) as nat)
        }),
        spec_packet_decode(spec_packet_wire(Packet::ConnAck(c)) + rest) == Ok::<(PacketView, nat), DecodeError>(
            (Packet::ConnAck(c)@, spec_packet_wire(Packet::ConnAck(c)).len()),
        ),
{
    crate::v5::connack::lemma_connack_roundtrip(c, rest);
    assert(crate::codec::variable_byte_integer::spec_vbi_encode(0) =~= seq![0u8]);
    let w = spec_packet_wire(Packet::ConnAck(c));
    let e = spec_vbi_encode(spec_packet_len(Packet::ConnAck(c)) as nat).len() as int;
    assert(w.take(1 + e) =~= spec_fixed_header(w[0], spec_packet_len(Packet::ConnAck(c)) as nat));
}

/// The law of writing and reading for a PUBLISH.
#[verifier::spinoff_prover]
proof fn lemma_publish_reads_back(c: Publish, n: nat, rest: Seq<u8>)
    requires
        spec_packet_result(Packet::Publish(c), n) is Ok,
    ensures
        spec_packet_result(Packet::Publish(c), n) == Ok::<usize, EncodeError>(spec_packet_wire(Packet::Publish(c)).len() as usize),
        spec_packet_len(Packet::Publish(c)) <= VBI_MAX,
        ({
            let w = spec_packet_wire(Packet::Publish(c));
            let e = spec_vbi_encode(spec_packet_len(Packet::Publish(c)) as nat).len() as int;
            &&& w.len() >= 1 + e
            &&& w.take(1 + e) == spec_fixed_header(w[0], spec_packet_len(Packet::Publish(c)) as nat)
        }),
        spec_packet_decode(spec_packet_wire(Packet::Publish(c)) + rest) == Ok::<(PacketView, nat), DecodeError>(
            (Packet::Publish(c)@, spec_packet_wire(Packet::Publish(c)).len()),
        ),
{
    crate::v5::publish::lemma_publish_roundtrip(c, rest);
    assert(crate::codec::variable_byte_integer::spec_vbi_encode(0) =~= seq![0u8]);
    let w = spec_packet_wire(Packet::Publish(c));
    let e = spec_vbi_encode(spec_packet_len(Packet::Publish(c)) as nat).len() as int;
    assert(w.take(1 + e) =~= spec_fixed_header(w[0], spec_packet_len(Packet::Publish(c)) as nat));
}

/// The law of writing and reading for a PUBACK.
#[verifier::spinoff_prover]
proof fn lemma_pub_ack_reads_back(c: PubAck, n: nat, rest: Seq<u8>)
    requires
        spec_packet_result(Packet::PubAck(c), n) is Ok,
    ensures
        spec_packet_result(Packet::PubAck(c), n) == Ok::<usize, EncodeError>(spec_packet_wire(Packet::PubAck(c)).len() as usize),
        spec_packet_len(Packet::PubAck(c)) <= VBI_MAX,
        ({
            let w = spec_packet_wire(Packet::PubAck(c));
            let e = spec_vbi_encode(spec_packet_len(Packet::PubAck(c)) as nat).len() as int;
            &&& w.len() >= 1 + e
            &&& w.take(1 + e) == spec_fixed_header(w[0], spec_packet_len(Packet::PubAck(c)) as nat)
        }),
        spec_packet_decode(spec_packet_wire(Packet::PubAck(c)) + rest) == Ok::<(PacketView, nat), DecodeError>(
            (Packet::PubAck(c)@, spec_packet_wire(Packet::PubAck(c)).len()),
        ),
{
    crate::v5::puback::lemma_puback_roundtrip(c, rest);
    assert(crate::codec::variable_byte_integer::spec_vbi_encode(0) =~= seq![0u8]);
    let w = spec_packet_wire(Packet::PubAck(c));
    let e = spec_vbi_encode(spec_packet_len(Packet::PubAck(c)) as nat).len() as int;
    assert(w.take(1 + e) =~= spec_fixed_header(w[0], spec_packet_len(Packet::PubAck(c)) as nat));
}

/// The law of writing and reading for a PUBREC.
#[verifier::spinoff_prover]
proof fn lemma_pub_rec_reads_back(c: PubRec, n: nat, rest: Seq<u8>)
    requires
        spec_packet_result(Packet::PubRec(c), n) is Ok,
    ensures
        spec_packet_result(Packet::PubRec(c), n) == Ok::<usize, EncodeError>(spec_packet_wire(Packet::PubRec(c)).len() as usize),
        spec_packet_len(Packet::PubRec(c)) <= VBI_MAX,
        ({
            let w = spec_packet_wire(Packet::PubRec(c));
            let e = spec_vbi_encode(spec_packet_len(Packet::PubRec(c)) as nat).len() as int;
            &&& w.len() >= 1 + e
            &&& w.take(1 + e) == spec_fixed_header(w[0], spec_packet_len(Packet::PubRec(c)) as nat)
        }),
        spec_packet_decode(spec_packet_wire(Packet::PubRec(c)) + rest) == Ok::<(PacketView, nat), DecodeError>(
            (Packet::PubRec(c)@, spec_packet_wire(Packet::PubRec(c)).len()),
        ),
{
    crate::v5::pubrec::lemma_pubrec_roundtrip(c, rest);
    assert(crate::codec::variable_byte_integer::spec_vbi_encode(0) =~= seq![0u8]);
    let w = spec_packet_wire(Packet::PubRec(c));
    let e = spec_vbi_encode(spec_packet_len(Packet::PubRec(c)) as nat).len() as int;
    assert(w.take(1 + e) =~= spec_fixed_header(w[0], spec_packet_len(Packet::PubRec(c)) as nat));
}

/// The law of writing and reading for a PUBREL.
#[verifier::spinoff_prover]
proof fn lemma_pub_rel_reads_back(c: PubRel, n: nat, rest: Seq<u8>)
    requires
        spec_packet_result(Packet::PubRel(c), n) is Ok,
    ensures
        spec_packet_result(Packet::PubRel(c), n) == Ok::<usize, EncodeError>(spec_packet_wire(Packet::PubRel(c)).len() as usize),
        spec_packet_len(Packet::PubRel(c)) <= VBI_MAX,
        ({
            let w = spec_packet_wire(Packet::PubRel(c));
            let e = spec_vbi_encode(spec_packet_len(Packet::PubRel(c)) as nat).len() as int;
            &&& w.len() >= 1 + e
            &&& w.take(1 + e) == spec_fixed_header(w[0], spec_packet_len(Packet::PubRel(c)) as nat)
        }),
        spec_packet_decode(spec_packet_wire(Packet::PubRel(c)) + rest) == Ok::<(PacketView, nat), DecodeError>(
            (Packet::PubRel(c)@, spec_packet_wire(Packet::PubRel(c)).len()),
        ),
{
    crate::v5::pubrel::lemma_pubrel_roundtrip(c, rest);
    assert(crate::codec::variable_byte_integer::spec_vbi_encode(0) =~= seq![0u8]);
    let w = spec_packet_wire(Packet::PubRel(c));
    let e = spec_vbi_encode(spec_packet_len(Packet::PubRel(c)) as nat).len() as int;
    assert(w.take(1 + e) =~= spec_fixed_header(w[0], spec_packet_len(Packet::PubRel(c)) as nat));
}

/// The law of writing and reading for a PUBCOMP.
#[verifier::spinoff_prover]
proof fn lemma_pub_comp_reads_back(c: PubComp, n: nat, rest: Seq<u8>)
    requires
        spec_packet_result(Packet::PubComp(c), n) is Ok,
    ensures
        spec_packet_result(Packet::PubComp(c), n) == Ok::<usize, EncodeError>(spec_packet_wire(Packet::PubComp(c)).len() as usize),
        spec_packet_len(Packet::PubComp(c)) <= VBI_MAX,
        ({
            let w = spec_packet_wire(Packet::PubComp(c));
            let e = spec_vbi_encode(spec_packet_len(Packet::PubComp(c)) as nat).len() as int;
            &&& w.len() >= 1 + e
            &&& w.take(1 + e) == spec_fixed_header(w[0], spec_packet_len(Packet::PubComp(c)) as nat)
        }),
        spec_packet_decode(spec_packet_wire(Packet::PubComp(c)) + rest) == Ok::<(PacketView, nat), DecodeError>(
            (Packet::PubComp(c)@, spec_packet_wire(Packet::PubComp(c)).len()),
        ),
{
    crate::v5::pubcomp::lemma_pubcomp_roundtrip(c, rest);
    assert(crate::codec::variable_byte_integer::spec_vbi_encode(0) =~= seq![0u8]);
    let w = spec_packet_wire(Packet::PubComp(c));
    let e = spec_vbi_encode(spec_packet_len(Packet::PubComp(c)) as nat).len() as int;
    assert(w.take(1 + e) =~= spec_fixed_header(w[0], spec_packet_len(Packet::PubComp(c)) as nat));
}

/// The law of writing and reading for a SUBSCRIBE.
#[verifier::spinoff_prover]
proof fn lemma_subscribe_reads_back(c: crate::v5::subscribe::Subscribe, n: nat, rest: Seq<u8>)
    requires
        spec_packet_result(Packet::Subscribe(c), n) is Ok,
    ensures
        spec_packet_result(Packet::Subscribe(c), n) == Ok::<usize, EncodeError>(spec_packet_wire(Packet::Subscribe(c)).len() as usize),
        spec_packet_len(Packet::Subscribe(c)) <= VBI_MAX,
        ({
            let w = spec_packet_wire(Packet::Subscribe(c));
            let e = spec_vbi_encode(spec_packet_len(Packet::Subscribe(c)) as nat).len() as int;
            &&& w.len() >= 1 + e
            &&& w.take(1 + e) == spec_fixed_header(w[0], spec_packet_len(Packet::Subscribe(c)) as nat)
        }),
        spec_packet_decode(spec_packet_wire(Packet::Subscribe(c)) + rest) == Ok::<(PacketView, nat), DecodeError>(
            (Packet::Subscribe(c)@, spec_packet_wire(Packet::Subscribe(c)).len()),
        ),
{
    crate::v5::subscribe::lemma_subscribe_roundtrip(c, rest);
    assert(crate::codec::variable_byte_integer::spec_vbi_encode(0) =~= seq![0u8]);
    let w = spec_packet_wire(Packet::Subscribe(c));
    let e = spec_vbi_encode(spec_packet_len(Packet::Subscribe(c)) as nat).len() as int;
    assert(w.take(1 + e) =~= spec_fixed_header(w[0], spec_packet_len(Packet::Subscribe(c)) as nat));
}

/// The law of writing and reading for a SUBACK.
#[verifier::spinoff_prover]
proof fn lemma_sub_ack_reads_back(c: SubAck, n: nat, rest: Seq<u8>)
    requires
        spec_packet_result(Packet::SubAck(c), n) is Ok,
    ensures
        spec_packet_result(Packet::SubAck(c), n) == Ok::<usize, EncodeError>(spec_packet_wire(Packet::SubAck(c)).len() as usize),
        spec_packet_len(Packet::SubAck(c)) <= VBI_MAX,
        ({
            let w = spec_packet_wire(Packet::SubAck(c));
            let e = spec_vbi_encode(spec_packet_len(Packet::SubAck(c)) as nat).len() as int;
            &&& w.len() >= 1 + e
            &&& w.take(1 + e) == spec_fixed_header(w[0], spec_packet_len(Packet::SubAck(c)) as nat)
        }),
        spec_packet_decode(spec_packet_wire(Packet::SubAck(c)) + rest) == Ok::<(PacketView, nat), DecodeError>(
            (Packet::SubAck(c)@, spec_packet_wire(Packet::SubAck(c)).len()),
        ),
{
    crate::v5::suback::lemma_suback_roundtrip(c, rest);
    assert(crate::codec::variable_byte_integer::spec_vbi_encode(0) =~= seq![0u8]);
    let w = spec_packet_wire(Packet::SubAck(c));
    let e = spec_vbi_encode(spec_packet_len(Packet::SubAck(c)) as nat).len() as int;
    assert(w.take(1 + e) =~= spec_fixed_header(w[0], spec_packet_len(Packet::SubAck(c)) as nat));
}

/// The law of writing and reading for an UNSUBSCRIBE.
#[verifier::spinoff_prover]
proof fn lemma_unsubscribe_reads_back(c: crate::v5::unsubscribe::Unsubscribe, n: nat, rest: Seq<u8>)
    requires
        spec_packet_result(Packet::Unsubscribe(c), n) is Ok,
    ensures
        spec_packet_result(Packet::Unsubscribe(c), n) == Ok::<usize, EncodeError>(spec_packet_wire(Packet::Unsubscribe(c)).len() as usize),
        spec_packet_len(Packet::Unsubscribe(c)) <= VBI_MAX,
        ({
            let w = spec_packet_wire(Packet::Unsubscribe(c));
            let e = spec_vbi_encode(spec_packet_len(Packet::Unsubscribe(c)) as nat).len() as int;
            &&& w.len() >= 1 + e
            &&& w.take(1 + e) == spec_fixed_header(w[0], spec_packet_len(Packet::Unsubscribe(c)) as nat)
        }),
        spec_packet_decode(spec_packet_wire(Packet::Unsubscribe(c)) + rest) == Ok::<(PacketView, nat), DecodeError>(
            (Packet::Unsubscribe(c)@, spec_packet_wire(Packet::Unsubscribe(c)).len()),
        ),
{
    crate::v5::unsubscribe::lemma_unsubscribe_roundtrip(c, rest);
    assert(crate::codec::variable_byte_integer::spec_vbi_encode(0) =~= seq![0u8]);
    let w = spec_packet_wire(Packet::Unsubscribe(c));
    let e = spec_vbi_encode(spec_packet_len(Packet::Unsubscribe(c)) as nat).len() as int;
    assert(w.take(1 + e) =~= spec_fixed_header(w[0], spec_packet_len(Packet::Unsubscribe(c)) as nat));
}

/// The law of writing and reading for an UNSUBACK.
#[verifier::spinoff_prover]
proof fn lemma_unsub_ack_reads_back(c: UnsubAck, n: nat, rest: Seq<u8>)
    requires
        spec_packet_result(Packet::UnsubAck(c), n) is Ok,
    ensures
        spec_packet_result(Packet::UnsubAck(c), n) == Ok::<usize, EncodeError>(spec_packet_wire(Packet::UnsubAck(c)).len() as usize),
        spec_packet_len(Packet::UnsubAck(c)) <= VBI_MAX,
        ({
            let w = spec_packet_wire(Packet::UnsubAck(c));
            let e = spec_vbi_encode(spec_packet_len(Packet::UnsubAck(c)) as nat).len() as int;
            &&& w.len() >= 1 + e
            &&& w.take(1 + e) == spec_fixed_header(w[0], spec_packet_len(Packet::UnsubAck(c)) as nat)
        }),
        spec_packet_decode(spec_packet_wire(Packet::UnsubAck(c)) + rest) == Ok::<(PacketView, nat), DecodeError>(
            (Packet::UnsubAck(c)@, spec_packet_wire(Packet::UnsubAck(c)).len()),
        ),
{
    crate::v5::unsuback::lemma_unsuback_roundtrip(c, rest);
    assert(crate::codec::variable_byte_integer::spec_vbi_encode(0) =~= seq![0u8]);
    let w = spec_packet_wire(Packet::UnsubAck(c));
    let e = spec_vbi_encode(spec_packet_len(Packet::UnsubAck(c)) as nat).len() as int;
    assert(w.take(1 + e) =~= spec_fixed_header(w[0], spec_packet_len(Packet::UnsubAck(c)) as nat));
}

/// The law of writing and reading for a PINGREQ.
#[verifier::spinoff_prover]
proof fn lemma_ping_req_reads_back(c: crate::v5::pingreq::PingReq, n: nat, rest: Seq<u8>)
    requires
        spec_packet_result(Packet::PingReq(c), n) is Ok,
    ensures
        spec_packet_result(Packet::PingReq(c), n) == Ok::<usize, EncodeError>(spec_packet_wire(Packet::PingReq(c)).len() as usize),
        spec_packet_len(Packet::PingReq(c)) <= VBI_MAX,
        ({
            let w = spec_packet_wire(Packet::PingReq(c));
            let e = spec_vbi_encode(spec_packet_len(Packet::PingReq(c)) as nat).len() as int;
            &&& w.len() >= 1 + e
            &&& w.take(1 + e) == spec_fixed_header(w[0], spec_packet_len(Packet::PingReq(c)) as nat)
        }),
        spec_packet_decode(spec_packet_wire(Packet::PingReq(c)) + rest) == Ok::<(PacketView, nat), DecodeError>(
            (Packet::PingReq(c)@, spec_packet_wire(Packet::PingReq(c)).len()),
        ),
{
    crate::v5::pingreq::lemma_pingreq_roundtrip(rest);
    assert(0xC0u8 & 0xF0 == 0xC0u8) by (bit_vector);
    assert(crate::codec::variable_byte_integer::spec_vbi_encode(0) =~= seq![0u8]);
    let w = spec_packet_wire(Packet::PingReq(c));
    let e = spec_vbi_encode(spec_packet_len(Packet::PingReq(c)) as nat).len() as int;
    assert(w.take(1 + e) =~= spec_fixed_header(w[0], spec_packet_len(Packet::PingReq(c)) as nat));
}

/// The law of writing and reading for a PINGRESP.
#[verifier::spinoff_prover]
proof fn lemma_ping_resp_reads_back(c: PingResp, n: nat, rest: Seq<u8>)
    requires
        spec_packet_result(Packet::PingResp(c), n) is Ok,
    ensures
        spec_packet_result(Packet::PingResp(c), n) == Ok::<usize, EncodeError>(spec_packet_wire(Packet::PingResp(c)).len() as usize),
        spec_packet_len(Packet::PingResp(c)) <= VBI_MAX,
        ({
            let w = spec_packet_wire(Packet::PingResp(c));
            let e = spec_vbi_encode(spec_packet_len(Packet::PingResp(c)) as nat).len() as int;
            &&& w.len() >= 1 + e
            &&& w.take(1 + e) == spec_fixed_header(w[0], spec_packet_len(Packet::PingResp(c)) as nat)
        }),
        spec_packet_decode(spec_packet_wire(Packet::PingResp(c)) + rest) == Ok::<(PacketView, nat), DecodeError>(
            (Packet::PingResp(c)@, spec_packet_wire(Packet::PingResp(c)).len()),
        ),
{
    crate::v5::pingresp::lemma_pingresp_roundtrip(rest);
    assert(0xD0u8 & 0xF0 == 0xD0u8) by (bit_vector);
    assert(crate::codec::variable_byte_integer::spec_vbi_encode(0) =~= seq![0u8]);
    let w = spec_packet_wire(Packet::PingResp(c));
    let e = spec_vbi_encode(spec_packet_len(Packet::PingResp(c)) as nat).len() as int;
    assert(w.take(1 + e) =~= spec_fixed_header(w[0], spec_packet_len(Packet::PingResp(c)) as nat));
}

/// The law of writing and reading for a DISCONNECT.
#[verifier::spinoff_prover]
proof fn lemma_disconnect_reads_back(c: Disconnect, n: nat, rest: Seq<u8>)
    requires
        spec_packet_result(Packet::Disconnect(c), n) is Ok,
        c.reason_code.spec_sent_by_server(),
        !crate::v5::property::spec_has_identifier(c.properties@, 0x11),
    ensures
        spec_packet_result(Packet::Disconnect(c), n) == Ok::<usize, EncodeError>(spec_packet_wire(Packet::Disconnect(c)).len() as usize),
        spec_packet_len(Packet::Disconnect(c)) <= VBI_MAX,
        ({
            let w = spec_packet_wire(Packet::Disconnect(c));
            let e = spec_vbi_encode(spec_packet_len(Packet::Disconnect(c)) as nat).len() as int;
            &&& w.len() >= 1 + e
            &&& w.take(1 + e) == spec_fixed_header(w[0], spec_packet_len(Packet::Disconnect(c)) as nat)
        }),
        spec_packet_decode(spec_packet_wire(Packet::Disconnect(c)) + rest) == Ok::<(PacketView, nat), DecodeError>(
            (Packet::Disconnect(c)@, spec_packet_wire(Packet::Disconnect(c)).len()),
        ),
{
    crate::v5::disconnect::lemma_disconnect_roundtrip(c, rest);
    assert(crate::codec::variable_byte_integer::spec_vbi_encode(0) =~= seq![0u8]);
    let w = spec_packet_wire(Packet::Disconnect(c));
    let e = spec_vbi_encode(spec_packet_len(Packet::Disconnect(c)) as nat).len() as int;
    assert(w.take(1 + e) =~= spec_fixed_header(w[0], spec_packet_len(Packet::Disconnect(c)) as nat));
}

/// The law of writing and reading for an AUTH.
#[verifier::spinoff_prover]
proof fn lemma_auth_reads_back(c: Auth, n: nat, rest: Seq<u8>)
    requires
        spec_packet_result(Packet::Auth(c), n) is Ok,
        c.reason_code.spec_sent_by_server(),
    ensures
        spec_packet_result(Packet::Auth(c), n) == Ok::<usize, EncodeError>(spec_packet_wire(Packet::Auth(c)).len() as usize),
        spec_packet_len(Packet::Auth(c)) <= VBI_MAX,
        ({
            let w = spec_packet_wire(Packet::Auth(c));
            let e = spec_vbi_encode(spec_packet_len(Packet::Auth(c)) as nat).len() as int;
            &&& w.len() >= 1 + e
            &&& w.take(1 + e) == spec_fixed_header(w[0], spec_packet_len(Packet::Auth(c)) as nat)
        }),
        spec_packet_decode(spec_packet_wire(Packet::Auth(c)) + rest) == Ok::<(PacketView, nat), DecodeError>(
            (Packet::Auth(c)@, spec_packet_wire(Packet::Auth(c)).len()),
        ),
{
    crate::v5::auth::lemma_auth_roundtrip(c, rest);
    assert(crate::codec::variable_byte_integer::spec_vbi_encode(0) =~= seq![0u8]);
    let w = spec_packet_wire(Packet::Auth(c));
    let e = spec_vbi_encode(spec_packet_len(Packet::Auth(c)) as nat).len() as int;
    assert(w.take(1 + e) =~= spec_fixed_header(w[0], spec_packet_len(Packet::Auth(c)) as nat));
}

} // verus!
