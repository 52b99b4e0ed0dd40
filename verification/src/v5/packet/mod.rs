//! MQTT v5.0 packets of either direction, as one type per direction.

pub mod codec;
pub mod receive;

use vstd::prelude::*;

use crate::codec::variable_byte_integer::{lemma_vbi_encode_len, spec_vbi_len, VariableByteInteger, VBI_MAX};
use crate::codec::wire::spec_splice;
use crate::error::{DecodeError, EncodeError};
use crate::v5::ack_helper::{
    spec_empty_decode, spec_fixed_header_check, spec_reason_code_only_len,
    spec_reason_code_only_result, spec_reason_code_only_wire, spec_reason_code_packet_len,
    spec_reason_code_packet_result,
};
use crate::v5::auth::{spec_auth_check, spec_auth_decode, Auth, AuthReasonCode};
use crate::v5::connack::{
    spec_connack_check, spec_connack_decode, spec_connack_len, spec_connack_result, spec_connack_wire,
    ConnAck, ConnectReasonCode,
};
use crate::v5::connect::{
    spec_connect_check, spec_connect_decode, spec_connect_len, spec_connect_result, spec_connect_wire,
    Connect, ConnectView,
};
use crate::v5::disconnect::{spec_disconnect_check, spec_disconnect_decode, Disconnect, DisconnectReasonCode};
use crate::v5::pingreq::PingReq;
use crate::v5::pingresp::PingResp;
use crate::v5::puback::{spec_puback_check, spec_puback_decode, spec_puback_wire, PubAck, PubAckReasonCode};
use crate::v5::pubcomp::{spec_pubcomp_check, spec_pubcomp_decode, spec_pubcomp_wire, PubComp, PubCompReasonCode};
use crate::v5::property::{spec_first_property_error, PropertyValue};
use crate::v5::publish::{
    spec_publish_check, spec_publish_decode, spec_publish_len, spec_publish_result, spec_publish_wire,
    Publish, PublishView,
};
use crate::v5::pubrec::{spec_pubrec_check, spec_pubrec_decode, spec_pubrec_wire, PubRec, PubRecReasonCode};
use crate::v5::pubrel::{spec_pubrel_check, spec_pubrel_decode, spec_pubrel_wire, PubRel, PubRelReasonCode};
use crate::v5::suback::{
    spec_suback_check, spec_suback_decode, spec_suback_len, spec_suback_wire, SubAck, SubAckReasonCode,
};
use crate::v5::subscribe::{
    spec_sub_views, spec_subscribe_check, spec_subscribe_decode, spec_subscribe_len,
    spec_subscribe_result, spec_subscribe_wire, Subscribe, SubscriptionView,
};
use crate::v5::unsuback::{spec_unsuback_decode, UnsubAck, UnsubAckReasonCode};
use crate::v5::unsubscribe::{
    spec_filter_views, spec_unsubscribe_check, spec_unsubscribe_decode, spec_unsubscribe_len,
    spec_unsubscribe_result, spec_unsubscribe_wire, Unsubscribe,
};

verus! {
/// A packet that a client sends.
#[derive(Debug, Clone, PartialEq, Eq)]
pub enum OutgoingPacket {
    /// A CONNECT packet.
    Connect(Connect),
    /// A PUBLISH packet.
    Publish(Publish),
    /// A PUBACK packet.
    PubAck(PubAck),
    /// A PUBREC packet.
    PubRec(PubRec),
    /// A PUBREL packet.
    PubRel(PubRel),
    /// A PUBCOMP packet.
    PubComp(PubComp),
    /// A SUBSCRIBE packet.
    Subscribe(Subscribe),
    /// An UNSUBSCRIBE packet.
    Unsubscribe(Unsubscribe),
    /// A PINGREQ packet.
    PingReq(PingReq),
    /// A DISCONNECT packet.
    Disconnect(Disconnect),
    /// An AUTH packet.
    Auth(Auth),
}

/// The abstract value of an [`OutgoingPacket`].
pub enum OutgoingView {
    /// A CONNECT packet.
    Connect(ConnectView),
    /// A PUBLISH packet.
    Publish(PublishView),
    /// A PUBACK packet.
    PubAck(u16, PubAckReasonCode, Seq<(u8, PropertyValue)>),
    /// A PUBREC packet.
    PubRec(u16, PubRecReasonCode, Seq<(u8, PropertyValue)>),
    /// A PUBREL packet.
    PubRel(u16, PubRelReasonCode, Seq<(u8, PropertyValue)>),
    /// A PUBCOMP packet.
    PubComp(u16, PubCompReasonCode, Seq<(u8, PropertyValue)>),
    /// A SUBSCRIBE packet.
    Subscribe(u16, Seq<SubscriptionView>, Seq<(u8, PropertyValue)>),
    /// An UNSUBSCRIBE packet.
    Unsubscribe(u16, Seq<Seq<char>>, Seq<(u8, PropertyValue)>),
    /// A PINGREQ packet.
    PingReq,
    /// A DISCONNECT packet.
    Disconnect(DisconnectReasonCode, Seq<(u8, PropertyValue)>),
    /// An AUTH packet.
    Auth(AuthReasonCode, Seq<(u8, PropertyValue)>),
}

impl View for OutgoingPacket {
    type V = OutgoingView;

    open spec fn view(&self) -> OutgoingView {
        match self {
            OutgoingPacket::Connect(p) => OutgoingView::Connect(p@),
            OutgoingPacket::Publish(p) => OutgoingView::Publish(p@),
            OutgoingPacket::PubAck(p) => OutgoingView::PubAck(p.packet_id, p.reason_code, p.properties@),
            OutgoingPacket::PubRec(p) => OutgoingView::PubRec(p.packet_id, p.reason_code, p.properties@),
            OutgoingPacket::PubRel(p) => OutgoingView::PubRel(p.packet_id, p.reason_code, p.properties@),
            OutgoingPacket::PubComp(p) => OutgoingView::PubComp(p.packet_id, p.reason_code, p.properties@),
            OutgoingPacket::Subscribe(p) => OutgoingView::Subscribe(p.packet_id, spec_sub_views(p.subscriptions@), p.properties@),
            OutgoingPacket::Unsubscribe(p) => OutgoingView::Unsubscribe(p.packet_id, spec_filter_views(p.topic_filters@), p.properties@),
            OutgoingPacket::PingReq(_) => OutgoingView::PingReq,
            OutgoingPacket::Disconnect(p) => OutgoingView::Disconnect(p.reason_code, p.properties@),
            OutgoingPacket::Auth(p) => OutgoingView::Auth(p.reason_code, p.properties@),
        }
    }
}

/// What writing the packet into a buffer of `n` bytes returns.
pub open spec fn spec_outgoing_result(packet: OutgoingPacket, n: nat) -> Result<usize, EncodeError> {
    match packet {
        OutgoingPacket::Connect(p) => match spec_connect_check(p@) {
            Err(e) => Err(e),
            Ok(()) => spec_connect_result(p@, n),
        },
        OutgoingPacket::Publish(p) => match spec_publish_check(p@) {
            Err(e) => Err(e),
            Ok(()) => spec_publish_result(p@, n),
        },
        OutgoingPacket::PubAck(p) => match spec_puback_check(p.packet_id, p.reason_code, p.properties@) {
            Err(e) => Err(e),
            Ok(()) => spec_reason_code_packet_result(p.properties@, n, spec_puback_wire(p.packet_id, p.reason_code, p.properties@).len()),
        },
        OutgoingPacket::PubRec(p) => match spec_pubrec_check(p.packet_id, p.reason_code, p.properties@) {
            Err(e) => Err(e),
            Ok(()) => spec_reason_code_packet_result(p.properties@, n, spec_pubrec_wire(p.packet_id, p.reason_code, p.properties@).len()),
        },
        OutgoingPacket::PubRel(p) => match spec_pubrel_check(p.packet_id, p.reason_code, p.properties@) {
            Err(e) => Err(e),
            Ok(()) => spec_reason_code_packet_result(p.properties@, n, spec_pubrel_wire(p.packet_id, p.reason_code, p.properties@).len()),
        },
        OutgoingPacket::PubComp(p) => match spec_pubcomp_check(p.packet_id, p.reason_code, p.properties@) {
            Err(e) => Err(e),
            Ok(()) => spec_reason_code_packet_result(p.properties@, n, spec_pubcomp_wire(p.packet_id, p.reason_code, p.properties@).len()),
        },
        OutgoingPacket::Subscribe(p) => match spec_subscribe_check(p.packet_id, spec_sub_views(p.subscriptions@), p.properties@) {
            Err(e) => Err(e),
            Ok(()) => spec_subscribe_result(p.packet_id, spec_sub_views(p.subscriptions@), p.properties@, n),
        },
        OutgoingPacket::Unsubscribe(p) => match spec_unsubscribe_check(p.packet_id, spec_filter_views(p.topic_filters@), p.properties@) {
            Err(e) => Err(e),
            Ok(()) => spec_unsubscribe_result(p.packet_id, spec_filter_views(p.topic_filters@), p.properties@, n),
        },
        OutgoingPacket::PingReq(_) => if n < 2 { Err(EncodeError::BufferTooSmall) } else { Ok(2) },
        OutgoingPacket::Disconnect(p) => match spec_disconnect_check(p.reason_code, p.properties@) {
            Err(e) => Err(e),
            Ok(()) => spec_reason_code_only_result(p.properties@, n, spec_reason_code_only_wire(0xE0, p.reason_code.spec_as_u8(), p.properties@).len()),
        },
        OutgoingPacket::Auth(p) => match spec_auth_check(p.reason_code, p.properties@) {
            Err(e) => Err(e),
            Ok(()) => spec_reason_code_only_result(p.properties@, n, spec_reason_code_only_wire(0xF0, p.reason_code.spec_as_u8(), p.properties@).len()),
        },
    }
}

/// The wire form of the packet.
pub open spec fn spec_outgoing_wire(packet: OutgoingPacket) -> Seq<u8> {
    match packet {
        OutgoingPacket::Connect(p) => spec_connect_wire(p@),
        OutgoingPacket::Publish(p) => spec_publish_wire(p@),
        OutgoingPacket::PubAck(p) => spec_puback_wire(p.packet_id, p.reason_code, p.properties@),
        OutgoingPacket::PubRec(p) => spec_pubrec_wire(p.packet_id, p.reason_code, p.properties@),
        OutgoingPacket::PubRel(p) => spec_pubrel_wire(p.packet_id, p.reason_code, p.properties@),
        OutgoingPacket::PubComp(p) => spec_pubcomp_wire(p.packet_id, p.reason_code, p.properties@),
        OutgoingPacket::Subscribe(p) => spec_subscribe_wire(p.packet_id, spec_sub_views(p.subscriptions@), p.properties@),
        OutgoingPacket::Unsubscribe(p) => spec_unsubscribe_wire(p.packet_id, spec_filter_views(p.topic_filters@), p.properties@),
        OutgoingPacket::PingReq(_) => seq![0xC0u8, 0x00u8],
        OutgoingPacket::Disconnect(p) => spec_reason_code_only_wire(0xE0, p.reason_code.spec_as_u8(), p.properties@),
        OutgoingPacket::Auth(p) => spec_reason_code_only_wire(0xF0, p.reason_code.spec_as_u8(), p.properties@),
    }
}

/// The remaining length of the encoded packet.
pub open spec fn spec_outgoing_len(packet: OutgoingPacket) -> usize {
    match packet {
        OutgoingPacket::Connect(p) => spec_connect_len(p@),
        OutgoingPacket::Publish(p) => spec_publish_len(p@),
        OutgoingPacket::PubAck(p) => spec_reason_code_packet_len(p.properties@),
        OutgoingPacket::PubRec(p) => spec_reason_code_packet_len(p.properties@),
        OutgoingPacket::PubRel(p) => spec_reason_code_packet_len(p.properties@),
        OutgoingPacket::PubComp(p) => spec_reason_code_packet_len(p.properties@),
        OutgoingPacket::Subscribe(p) => spec_subscribe_len(p.properties@, spec_sub_views(p.subscriptions@)),
        OutgoingPacket::Unsubscribe(p) => spec_unsubscribe_len(p.properties@, spec_filter_views(p.topic_filters@)),
        OutgoingPacket::PingReq(_) => 0,
        OutgoingPacket::Disconnect(p) => spec_reason_code_only_len(p.properties@),
        OutgoingPacket::Auth(p) => spec_reason_code_only_len(p.properties@),
    }
}

/// Whether writing the packet into a buffer of `n` bytes fails before it writes anything.
pub open spec fn spec_outgoing_early(packet: OutgoingPacket, n: nat) -> bool {
    match packet {
        OutgoingPacket::Connect(p) => spec_connect_check(p@) is Err || spec_fixed_header_check(spec_connect_len(p@), n) is Err,
        OutgoingPacket::Publish(p) => spec_publish_check(p@) is Err || spec_fixed_header_check(spec_publish_len(p@), n) is Err,
        OutgoingPacket::PubAck(p) => spec_puback_check(p.packet_id, p.reason_code, p.properties@) is Err || spec_fixed_header_check(spec_reason_code_packet_len(p.properties@), n) is Err,
        OutgoingPacket::PubRec(p) => spec_pubrec_check(p.packet_id, p.reason_code, p.properties@) is Err || spec_fixed_header_check(spec_reason_code_packet_len(p.properties@), n) is Err,
        OutgoingPacket::PubRel(p) => spec_pubrel_check(p.packet_id, p.reason_code, p.properties@) is Err || spec_fixed_header_check(spec_reason_code_packet_len(p.properties@), n) is Err,
        OutgoingPacket::PubComp(p) => spec_pubcomp_check(p.packet_id, p.reason_code, p.properties@) is Err || spec_fixed_header_check(spec_reason_code_packet_len(p.properties@), n) is Err,
        OutgoingPacket::Subscribe(p) => spec_subscribe_check(p.packet_id, spec_sub_views(p.subscriptions@), p.properties@) is Err || spec_fixed_header_check(spec_subscribe_len(p.properties@, spec_sub_views(p.subscriptions@)), n) is Err,
        OutgoingPacket::Unsubscribe(p) => spec_unsubscribe_check(p.packet_id, spec_filter_views(p.topic_filters@), p.properties@) is Err || spec_fixed_header_check(spec_unsubscribe_len(p.properties@, spec_filter_views(p.topic_filters@)), n) is Err,
        OutgoingPacket::PingReq(_) => n < 2,
        OutgoingPacket::Disconnect(p) => spec_disconnect_check(p.reason_code, p.properties@) is Err || spec_fixed_header_check(spec_reason_code_only_len(p.properties@), n) is Err,
        OutgoingPacket::Auth(p) => spec_auth_check(p.reason_code, p.properties@) is Err || spec_fixed_header_check(spec_reason_code_only_len(p.properties@), n) is Err,
    }
}

impl OutgoingPacket {
    /// Returns the remaining length of the encoded packet.
    pub fn encoded_len(&self) -> (r: usize)
        ensures
            r == spec_outgoing_len(*self),
    {
        match self {
            OutgoingPacket::Connect(p) => p.encoded_len(),
            OutgoingPacket::Publish(p) => p.encoded_len(),
            OutgoingPacket::PubAck(p) => p.encoded_len(),
            OutgoingPacket::PubRec(p) => p.encoded_len(),
            OutgoingPacket::PubRel(p) => p.encoded_len(),
            OutgoingPacket::PubComp(p) => p.encoded_len(),
            OutgoingPacket::Subscribe(p) => p.encoded_len(),
            OutgoingPacket::Unsubscribe(p) => p.encoded_len(),
            OutgoingPacket::PingReq(p) => p.encoded_len(),
            OutgoingPacket::Disconnect(p) => p.encoded_len(),
            OutgoingPacket::Auth(p) => p.encoded_len(),
        }
    }

    /// Encodes the packet into `buf` and returns the number of bytes written.
    #[verifier::spinoff_prover]
    #[verifier::rlimit(100)]
    pub fn encode(&self, buf: &mut [u8]) -> (r: Result<usize, EncodeError>)
        ensures
            final(buf)@.len() == old(buf)@.len(),
            r == spec_outgoing_result(*self, old(buf)@.len()),
            r is Ok ==> final(buf)@ == spec_splice(old(buf)@, 0, spec_outgoing_wire(*self)),
            spec_outgoing_early(*self, old(buf)@.len()) ==> final(buf)@ == old(buf)@,
    {
        match self {
            OutgoingPacket::Connect(p) => p.encode(buf),
            OutgoingPacket::Publish(p) => p.encode(buf),
            OutgoingPacket::PubAck(p) => p.encode(buf),
            OutgoingPacket::PubRec(p) => p.encode(buf),
            OutgoingPacket::PubRel(p) => p.encode(buf),
            OutgoingPacket::PubComp(p) => p.encode(buf),
            OutgoingPacket::Subscribe(p) => p.encode(buf),
            OutgoingPacket::Unsubscribe(p) => p.encode(buf),
            OutgoingPacket::PingReq(p) => p.encode(buf),
            OutgoingPacket::Disconnect(p) => p.encode(buf),
            OutgoingPacket::Auth(p) => p.encode(buf),
        }
    }

    /// Encodes the packet into a new vector as long as the whole packet.
    pub fn encode_to_vec(&self) -> (r: Result<Vec<u8>, EncodeError>)
        ensures
            spec_outgoing_len(*self) > VBI_MAX ==> r == Err::<Vec<u8>, EncodeError>(
                EncodeError::PacketTooLarge { size: spec_outgoing_len(*self), limit: VBI_MAX as usize },
            ),
            spec_outgoing_len(*self) <= VBI_MAX ==> {
                let total = 1 + spec_vbi_len(spec_outgoing_len(*self) as nat) + spec_outgoing_len(*self);
                &&& r is Err ==> r == Err::<Vec<u8>, EncodeError>(spec_outgoing_result(*self, total as nat)->Err_0)
                &&& spec_outgoing_result(*self, total as nat) is Ok ==> r is Ok
                &&& r matches Ok(v) ==> v@ == spec_splice(Seq::new(total as nat, |i: int| 0u8), 0, spec_outgoing_wire(*self))
            },
    {
        let remaining_len = self.encoded_len();
        if remaining_len > VariableByteInteger::MAX as usize {
            return Err(
                EncodeError::PacketTooLarge {
                    size: remaining_len,
                    limit: VariableByteInteger::MAX as usize,
                },
            );
        }
        let vbi_len = VariableByteInteger(remaining_len as u32).encoded_len();
        proof {
            lemma_vbi_encode_len(remaining_len as nat);
        }
        let total_len = 1 + vbi_len + remaining_len;
        let mut buf: Vec<u8> = vec![0u8; total_len];
        proof {
            assert(buf@ =~= Seq::new(total_len as nat, |i: int| 0u8));
        }
        match self.encode(buf.as_mut_slice()) {
            Err(e) => Err(e),
            Ok(_) => Ok(buf),
        }
    }
}

/// A packet that a client receives.
#[derive(Debug, Clone, PartialEq, Eq)]
pub enum IncomingPacket {
    /// A CONNACK packet.
    ConnAck(ConnAck),
    /// A PUBLISH packet.
    Publish(Publish),
    /// A PUBACK packet.
    PubAck(PubAck),
    /// A PUBREC packet.
    PubRec(PubRec),
    /// A PUBREL packet.
    PubRel(PubRel),
    /// A PUBCOMP packet.
    PubComp(PubComp),
    /// A SUBACK packet.
    SubAck(SubAck),
    /// An UNSUBACK packet.
    UnsubAck(UnsubAck),
    /// A PINGRESP packet.
    PingResp(PingResp),
    /// A DISCONNECT packet.
    Disconnect(Disconnect),
    /// An AUTH packet.
    Auth(Auth),
}

/// The abstract value of an [`IncomingPacket`].
pub enum IncomingView {
    /// A CONNACK packet.
    ConnAck(bool, ConnectReasonCode, Seq<(u8, PropertyValue)>),
    /// A PUBLISH packet.
    Publish(PublishView),
    /// A PUBACK packet.
    PubAck(u16, PubAckReasonCode, Seq<(u8, PropertyValue)>),
    /// A PUBREC packet.
    PubRec(u16, PubRecReasonCode, Seq<(u8, PropertyValue)>),
    /// A PUBREL packet.
    PubRel(u16, PubRelReasonCode, Seq<(u8, PropertyValue)>),
    /// A PUBCOMP packet.
    PubComp(u16, PubCompReasonCode, Seq<(u8, PropertyValue)>),
    /// A SUBACK packet.
    SubAck(u16, Seq<SubAckReasonCode>, Seq<(u8, PropertyValue)>),
    /// An UNSUBACK packet.
    UnsubAck(u16, Seq<UnsubAckReasonCode>, Seq<(u8, PropertyValue)>),
    /// A PINGRESP packet.
    PingResp,
    /// A DISCONNECT packet.
    Disconnect(DisconnectReasonCode, Seq<(u8, PropertyValue)>),
    /// An AUTH packet.
    Auth(AuthReasonCode, Seq<(u8, PropertyValue)>),
}

impl View for IncomingPacket {
    type V = IncomingView;

    open spec fn view(&self) -> IncomingView {
        match self {
            IncomingPacket::ConnAck(p) => IncomingView::ConnAck(p.session_present, p.reason_code, p.properties@),
            IncomingPacket::Publish(p) => IncomingView::Publish(p@),
            IncomingPacket::PubAck(p) => IncomingView::PubAck(p.packet_id, p.reason_code, p.properties@),
            IncomingPacket::PubRec(p) => IncomingView::PubRec(p.packet_id, p.reason_code, p.properties@),
            IncomingPacket::PubRel(p) => IncomingView::PubRel(p.packet_id, p.reason_code, p.properties@),
            IncomingPacket::PubComp(p) => IncomingView::PubComp(p.packet_id, p.reason_code, p.properties@),
            IncomingPacket::SubAck(p) => IncomingView::SubAck(p.packet_id, p.reason_codes@, p.properties@),
            IncomingPacket::UnsubAck(p) => IncomingView::UnsubAck(p.packet_id, p.reason_codes@, p.properties@),
            IncomingPacket::PingResp(_) => IncomingView::PingResp,
            IncomingPacket::Disconnect(p) => IncomingView::Disconnect(p.reason_code, p.properties@),
            IncomingPacket::Auth(p) => IncomingView::Auth(p.reason_code, p.properties@),
        }
    }
}

/// The result of decoding a packet from the start of `s`, by the packet type
/// in the high nibble of the first byte.
pub open spec fn spec_incoming_decode(s: Seq<u8>) -> Result<(IncomingView, nat), DecodeError> {
    if s.len() == 0 {
        Err(DecodeError::InsufficientData)
    } else {
        let t = s[0] & 0xF0;
        if t == 0x20 {
            match spec_connack_decode(s) {
                Err(e) => Err(e),
                Ok((a, b, c, m)) => Ok((IncomingView::ConnAck(a, b, c), m)),
            }
        } else if t == 0x30 {
            match spec_publish_decode(s) {
                Err(e) => Err(e),
                Ok((v, m)) => Ok((IncomingView::Publish(v), m)),
            }
        } else if t == 0x40 {
            match spec_puback_decode(s) {
                Err(e) => Err(e),
                Ok((a, b, c, m)) => Ok((IncomingView::PubAck(a, b, c), m)),
            }
        } else if t == 0x50 {
            match spec_pubrec_decode(s) {
                Err(e) => Err(e),
                Ok((a, b, c, m)) => Ok((IncomingView::PubRec(a, b, c), m)),
            }
        } else if t == 0x60 {
            match spec_pubrel_decode(s) {
                Err(e) => Err(e),
                Ok((a, b, c, m)) => Ok((IncomingView::PubRel(a, b, c), m)),
            }
        } else if t == 0x70 {
            match spec_pubcomp_decode(s) {
                Err(e) => Err(e),
                Ok((a, b, c, m)) => Ok((IncomingView::PubComp(a, b, c), m)),
            }
        } else if t == 0x90 {
            match spec_suback_decode(s) {
                Err(e) => Err(e),
                Ok((a, b, c, m)) => Ok((IncomingView::SubAck(a, b, c), m)),
            }
        } else if t == 0xB0 {
            match spec_unsuback_decode(s) {
                Err(e) => Err(e),
                Ok((a, b, c, m)) => Ok((IncomingView::UnsubAck(a, b, c), m)),
            }
        } else if t == 0xD0 {
            match spec_empty_decode(s, 0xD0, 0x00) {
                Err(e) => Err(e),
                Ok(m) => Ok((IncomingView::PingResp, m)),
            }
        } else if t == 0xE0 {
            match spec_disconnect_decode(s) {
                Err(e) => Err(e),
                Ok((a, b, m)) => Ok((IncomingView::Disconnect(a, b), m)),
            }
        } else if t == 0xF0 {
            match spec_auth_decode(s) {
                Err(e) => Err(e),
                Ok((a, b, m)) => Ok((IncomingView::Auth(a, b), m)),
            }
        } else if t == 0x10 || t == 0x80 || t == 0xA0 || t == 0xC0 {
            Err(DecodeError::UnexpectedPacket { packet_type: t })
        } else {
            Err(DecodeError::InvalidPacketType)
        }
    }
}

impl IncomingPacket {
    /// Decodes a packet that a server sends from the start of `buf` and returns
    /// it with the number of bytes consumed. Packets that only a client sends
    /// (CONNECT, SUBSCRIBE, UNSUBSCRIBE, PINGREQ) are unexpected.
    #[verifier::spinoff_prover]
    #[verifier::rlimit(60)]
    pub fn decode(buf: &[u8]) -> (r: Result<(Self, usize), DecodeError>)
        ensures
            match r {
                Ok((p, n)) => spec_incoming_decode(buf@) == Ok::<(IncomingView, nat), DecodeError>((p@, n as nat)),
                Err(e) => spec_incoming_decode(buf@) == Err::<(IncomingView, nat), DecodeError>(e),
            },
    {
        if buf.len() == 0 {
            return Err(DecodeError::InsufficientData);
        }
        let t = buf[0] & 0xF0;
        if t == 0x20 {
            match ConnAck::decode(buf) {
                Err(e) => Err(e),
                Ok((p, n)) => Ok((IncomingPacket::ConnAck(p), n)),
            }
        } else if t == 0x30 {
            match Publish::decode(buf) {
                Err(e) => Err(e),
                Ok((p, n)) => Ok((IncomingPacket::Publish(p), n)),
            }
        } else if t == 0x40 {
            match PubAck::decode(buf) {
                Err(e) => Err(e),
                Ok((p, n)) => Ok((IncomingPacket::PubAck(p), n)),
            }
        } else if t == 0x50 {
            match PubRec::decode(buf) {
                Err(e) => Err(e),
                Ok((p, n)) => Ok((IncomingPacket::PubRec(p), n)),
            }
        } else if t == 0x60 {
            match PubRel::decode(buf) {
                Err(e) => Err(e),
                Ok((p, n)) => Ok((IncomingPacket::PubRel(p), n)),
            }
        } else if t == 0x70 {
            match PubComp::decode(buf) {
                Err(e) => Err(e),
                Ok((p, n)) => Ok((IncomingPacket::PubComp(p), n)),
            }
        } else if t == 0x90 {
            match SubAck::decode(buf) {
                Err(e) => Err(e),
                Ok((p, n)) => Ok((IncomingPacket::SubAck(p), n)),
            }
        } else if t == 0xB0 {
            match UnsubAck::decode(buf) {
                Err(e) => Err(e),
                Ok((p, n)) => Ok((IncomingPacket::UnsubAck(p), n)),
            }
        } else if t == 0xD0 {
            match PingResp::decode(buf) {
                Err(e) => Err(e),
                Ok((p, n)) => Ok((IncomingPacket::PingResp(p), n)),
            }
        } else if t == 0xE0 {
            match Disconnect::decode(buf) {
                Err(e) => Err(e),
                Ok((p, n)) => Ok((IncomingPacket::Disconnect(p), n)),
            }
        } else if t == 0xF0 {
            match Auth::decode(buf) {
                Err(e) => Err(e),
                Ok((p, n)) => Ok((IncomingPacket::Auth(p), n)),
            }
        } else if t == 0x10 || t == 0x80 || t == 0xA0 || t == 0xC0 {
            Err(DecodeError::UnexpectedPacket { packet_type: t })
        } else {
            Err(DecodeError::InvalidPacketType)
        }
    }
}

} // verus!
