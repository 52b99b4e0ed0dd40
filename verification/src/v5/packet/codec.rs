//! MQTT v5.0 packets of all types as one type.

use vstd::prelude::*;

use crate::codec::variable_byte_integer::{lemma_vbi_encode_len, spec_vbi_len, VariableByteInteger, VBI_MAX};
use crate::codec::wire::spec_splice;
use crate::error::{DecodeError, EncodeError};
use crate::v5::ack_helper::{
    spec_empty_decode, spec_fixed_header_check, spec_reason_code_only_len,
    spec_reason_code_only_result, spec_reason_code_only_wire, spec_reason_code_packet_len,
    spec_reason_code_packet_result,
};
use crate::v5::auth::{spec_auth_check, spec_auth_decode, Auth, AuthReasonCode};
use crate::v5::connack::{
    spec_connack_check, spec_connack_decode, spec_connack_len, spec_connack_result, spec_connack_wire,
    ConnAck, ConnectReasonCode,
};
use crate::v5::connect::{
    spec_connect_check, spec_connect_decode, spec_connect_len, spec_connect_result, spec_connect_wire,
    Connect, ConnectView,
};
use crate::v5::disconnect::{spec_disconnect_check, spec_disconnect_decode, Disconnect, DisconnectReasonCode};
use crate::v5::pingreq::PingReq;
use crate::v5::pingresp::PingResp;
use crate::v5::puback::{spec_puback_check, spec_puback_decode, spec_puback_wire, PubAck, PubAckReasonCode};
use crate::v5::pubcomp::{spec_pubcomp_check, spec_pubcomp_decode, spec_pubcomp_wire, PubComp, PubCompReasonCode};
use crate::v5::property::{spec_first_property_error, PropertyValue};
use crate::v5::publish::{
    spec_publish_check, spec_publish_decode, spec_publish_len, spec_publish_result, spec_publish_wire,
    Publish, PublishView,
};
use crate::v5::pubrec::{spec_pubrec_check, spec_pubrec_decode, spec_pubrec_wire, PubRec, PubRecReasonCode};
use crate::v5::pubrel::{spec_pubrel_check, spec_pubrel_decode, spec_pubrel_wire, PubRel, PubRelReasonCode};
use crate::v5::suback::{
    spec_suback_check, spec_suback_decode, spec_suback_len, spec_suback_wire, SubAck, SubAckReasonCode,
};
use crate::v5::subscribe::{
    spec_sub_views, spec_subscribe_check, spec_subscribe_decode, spec_subscribe_len,
    spec_subscribe_result, spec_subscribe_wire, Subscribe, SubscriptionView,
};
use crate::v5::unsuback::{
    spec_unsuback_check, spec_unsuback_decode, spec_unsuback_len, spec_unsuback_wire, UnsubAck, UnsubAckReasonCode,
};
use crate::v5::unsubscribe::{
    spec_filter_views, spec_unsubscribe_check, spec_unsubscribe_decode, spec_unsubscribe_len,
    spec_unsubscribe_result, spec_unsubscribe_wire, Unsubscribe,
};


verus! {
/// An MQTT v5.0 packet of any type.
#[derive(Debug, Clone, PartialEq, Eq)]
pub enum Packet {
    /// A CONNECT packet.
    Connect(Connect),
    /// A CONNACK packet.
    ConnAck(ConnAck),
    /// A PUBLISH packet.
    Publish(Publish),
    /// A PUBACK packet.
    PubAck(PubAck),
    /// A PUBREC packet.
    PubRec(PubRec),
    /// A PUBREL packet.
    PubRel(PubRel),
    /// A PUBCOMP packet.
    PubComp(PubComp),
    /// A SUBSCRIBE packet.
    Subscribe(Subscribe),
    /// A SUBACK packet.
    SubAck(SubAck),
    /// An UNSUBSCRIBE packet.
    Unsubscribe(Unsubscribe),
    /// An UNSUBACK packet.
    UnsubAck(UnsubAck),
    /// A PINGREQ packet.
    PingReq(PingReq),
    /// A PINGRESP packet.
    PingResp(PingResp),
    /// A DISCONNECT packet.
    Disconnect(Disconnect),
    /// An AUTH packet.
    Auth(Auth),
}

/// The abstract value of a [`Packet`].
pub enum PacketView {
    /// A CONNECT packet.
    Connect(ConnectView),
    /// A CONNACK packet.
    ConnAck(bool, ConnectReasonCode, Seq<(u8, PropertyValue)>),
    /// A PUBLISH packet.
    Publish(PublishView),
    /// A PUBACK packet.
    PubAck(u16, PubAckReasonCode, Seq<(u8, PropertyValue)>),
    /// A PUBREC packet.
    PubRec(u16, PubRecReasonCode, Seq<(u8, PropertyValue)>),
    /// A PUBREL packet.
    PubRel(u16, PubRelReasonCode, Seq<(u8, PropertyValue)>),
    /// A PUBCOMP packet.
    PubComp(u16, PubCompReasonCode, Seq<(u8, PropertyValue)>),
    /// A SUBSCRIBE packet.
    Subscribe(u16, Seq<SubscriptionView>, Seq<(u8, PropertyValue)>),
    /// A SUBACK packet.
    SubAck(u16, Seq<SubAckReasonCode>, Seq<(u8, PropertyValue)>),
    /// An UNSUBSCRIBE packet.
    Unsubscribe(u16, Seq<Seq<char>>, Seq<(u8, PropertyValue)>),
    /// An UNSUBACK packet.
    UnsubAck(u16, Seq<UnsubAckReasonCode>, Seq<(u8, PropertyValue)>),
    /// A PINGREQ packet.
    PingReq,
    /// A PINGRESP packet.
    PingResp,
    /// A DISCONNECT packet.
    Disconnect(DisconnectReasonCode, Seq<(u8, PropertyValue)>),
    /// An AUTH packet.
    Auth(AuthReasonCode, Seq<(u8, PropertyValue)>),
}

impl View for Packet {
    type V = PacketView;

    open spec fn view(&self) -> PacketView {
        match self {
            Packet::Connect(p) => PacketView::Connect(p@),
            Packet::ConnAck(p) => PacketView::ConnAck(p.session_present, p.reason_code, p.properties@),
            Packet::Publish(p) => PacketView::Publish(p@),
            Packet::PubAck(p) => PacketView::PubAck(p.packet_id, p.reason_code, p.properties@),
            Packet::PubRec(p) => PacketView::PubRec(p.packet_id, p.reason_code, p.properties@),
            Packet::PubRel(p) => PacketView::PubRel(p.packet_id, p.reason_code, p.properties@),
            Packet::PubComp(p) => PacketView::PubComp(p.packet_id, p.reason_code, p.properties@),
            Packet::Subscribe(p) => PacketView::Subscribe(p.packet_id, spec_sub_views(p.subscriptions@), p.properties@),
            Packet::SubAck(p) => PacketView::SubAck(p.packet_id, p.reason_codes@, p.properties@),
            Packet::Unsubscribe(p) => PacketView::Unsubscribe(p.packet_id, spec_filter_views(p.topic_filters@), p.properties@),
            Packet::UnsubAck(p) => PacketView::UnsubAck(p.packet_id, p.reason_codes@, p.properties@),
            Packet::PingReq(_) => PacketView::PingReq,
            Packet::PingResp(_) => PacketView::PingResp,
            Packet::Disconnect(p) => PacketView::Disconnect(p.reason_code, p.properties@),
            Packet::Auth(p) => PacketView::Auth(p.reason_code, p.properties@),
        }
    }
}

/// What writing the packet into a buffer of `n` bytes returns.
pub open spec fn spec_packet_result(packet: Packet, n: nat) -> Result<usize, EncodeError> {
    match packet {
        Packet::Connect(p) => match spec_connect_check(p@) {
            Err(e) => Err(e),
            Ok(()) => spec_connect_result(p@, n),
        },
        Packet::ConnAck(p) => match spec_connack_check(p.session_present, p.reason_code, p.properties@) {
            Err(e) => Err(e),
            Ok(()) => spec_connack_result(p.session_present, p.reason_code, p.properties@, n),
        },
        Packet::Publish(p) => match spec_publish_check(p@) {
            Err(e) => Err(e),
            Ok(()) => spec_publish_result(p@, n),
        },
        Packet::PubAck(p) => match spec_puback_check(p.packet_id, p.reason_code, p.properties@) {
            Err(e) => Err(e),
            Ok(()) => spec_reason_code_packet_result(p.properties@, n, spec_puback_wire(p.packet_id, p.reason_code, p.properties@).len()),
        },
        Packet::PubRec(p) => match spec_pubrec_check(p.packet_id, p.reason_code, p.properties@) {
            Err(e) => Err(e),
            Ok(()) => spec_reason_code_packet_result(p.properties@, n, spec_pubrec_wire(p.packet_id, p.reason_code, p.properties@).len()),
        },
        Packet::PubRel(p) => match spec_pubrel_check(p.packet_id, p.reason_code, p.properties@) {
            Err(e) => Err(e),
            Ok(()) => spec_reason_code_packet_result(p.properties@, n, spec_pubrel_wire(p.packet_id, p.reason_code, p.properties@).len()),
        },
        Packet::PubComp(p) => match spec_pubcomp_check(p.packet_id, p.reason_code, p.properties@) {
            Err(e) => Err(e),
            Ok(()) => spec_reason_code_packet_result(p.properties@, n, spec_pubcomp_wire(p.packet_id, p.reason_code, p.properties@).len()),
        },
        Packet::Subscribe(p) => match spec_subscribe_check(p.packet_id, spec_sub_views(p.subscriptions@), p.properties@) {
            Err(e) => Err(e),
            Ok(()) => spec_subscribe_result(p.packet_id, spec_sub_views(p.subscriptions@), p.properties@, n),
        },
        Packet::SubAck(p) => match spec_suback_check(p.packet_id, p.reason_codes@, p.properties@) {
            Err(e) => Err(e),
            Ok(()) => match spec_fixed_header_check(spec_suback_len(p.properties@, p.reason_codes@.len()), n) { Err(e) => Err(e), Ok(()) => match spec_first_property_error(p.properties@) { Some(e) => Err(e), None => Ok(spec_suback_wire(p.packet_id, p.reason_codes@, p.properties@).len() as usize) } },
        },
        Packet::Unsubscribe(p) => match spec_unsubscribe_check(p.packet_id, spec_filter_views(p.topic_filters@), p.properties@) {
            Err(e) => Err(e),
            Ok(()) => spec_unsubscribe_result(p.packet_id, spec_filter_views(p.topic_filters@), p.properties@, n),
        },
        Packet::UnsubAck(p) => match spec_unsuback_check(p.packet_id, p.reason_codes@, p.properties@) {
            Err(e) => Err(e),
            Ok(()) => match spec_fixed_header_check(spec_unsuback_len(p.properties@, p.reason_codes@.len()), n) { Err(e) => Err(e), Ok(()) => match spec_first_property_error(p.properties@) { Some(e) => Err(e), None => Ok(spec_unsuback_wire(p.packet_id, p.reason_codes@, p.properties@).len() as usize) } },
        },
        Packet::PingReq(_) => if n < 2 { Err(EncodeError::BufferTooSmall) } else { Ok(2) },
        Packet::PingResp(_) => if n < 2 { Err(EncodeError::BufferTooSmall) } else { Ok(2) },
        Packet::Disconnect(p) => match spec_disconnect_check(p.reason_code, p.properties@) {
            Err(e) => Err(e),
            Ok(()) => spec_reason_code_only_result(p.properties@, n, spec_reason_code_only_wire(0xE0, p.reason_code.spec_as_u8(), p.properties@).len()),
        },
        Packet::Auth(p) => match spec_auth_check(p.reason_code, p.properties@) {
            Err(e) => Err(e),
            Ok(()) => spec_reason_code_only_result(p.properties@, n, spec_reason_code_only_wire(0xF0, p.reason_code.spec_as_u8(), p.properties@).len()),
        },
    }
}

/// The wire form of the packet.
pub open spec fn spec_packet_wire(packet: Packet) -> Seq<u8> {
    match packet {
        Packet::Connect(p) => spec_connect_wire(p@),
        Packet::ConnAck(p) => spec_connack_wire(p.session_present, p.reason_code, p.properties@),
        Packet::Publish(p) => spec_publish_wire(p@),
        Packet::PubAck(p) => spec_puback_wire(p.packet_id, p.reason_code, p.properties@),
        Packet::PubRec(p) => spec_pubrec_wire(p.packet_id, p.reason_code, p.properties@),
        Packet::PubRel(p) => spec_pubrel_wire(p.packet_id, p.reason_code, p.properties@),
        Packet::PubComp(p) => spec_pubcomp_wire(p.packet_id, p.reason_code, p.properties@),
        Packet::Subscribe(p) => spec_subscribe_wire(p.packet_id, spec_sub_views(p.subscriptions@), p.properties@),
        Packet::SubAck(p) => spec_suback_wire(p.packet_id, p.reason_codes@, p.properties@),
        Packet::Unsubscribe(p) => spec_unsubscribe_wire(p.packet_id, spec_filter_views(p.topic_filters@), p.properties@),
        Packet::UnsubAck(p) => spec_unsuback_wire(p.packet_id, p.reason_codes@, p.properties@),
        Packet::PingReq(_) => seq![0xC0u8, 0x00u8],
        Packet::PingResp(_) => seq![0xD0u8, 0x00u8],
        Packet::Disconnect(p) => spec_reason_code_only_wire(0xE0, p.reason_code.spec_as_u8(), p.properties@),
        Packet::Auth(p) => spec_reason_code_only_wire(0xF0, p.reason_code.spec_as_u8(), p.properties@),
    }
}

/// The remaining length of the encoded packet.
pub open spec fn spec_packet_len(packet: Packet) -> usize {
    match packet {
        Packet::Connect(p) => spec_connect_len(p@),
        Packet::ConnAck(p) => spec_connack_len(p.properties@),
        Packet::Publish(p) => spec_publish_len(p@),
        Packet::PubAck(p) => spec_reason_code_packet_len(p.properties@),
        Packet::PubRec(p) => spec_reason_code_packet_len(p.properties@),
        Packet::PubRel(p) => spec_reason_code_packet_len(p.properties@),
        Packet::PubComp(p) => spec_reason_code_packet_len(p.properties@),
        Packet::Subscribe(p) => spec_subscribe_len(p.properties@, spec_sub_views(p.subscriptions@)),
        Packet::SubAck(p) => spec_suback_len(p.properties@, p.reason_codes@.len()),
        Packet::Unsubscribe(p) => spec_unsubscribe_len(p.properties@, spec_filter_views(p.topic_filters@)),
        Packet::UnsubAck(p) => spec_unsuback_len(p.properties@, p.reason_codes@.len()),
        Packet::PingReq(_) => 0,
        Packet::PingResp(_) => 0,
        Packet::Disconnect(p) => spec_reason_code_only_len(p.properties@),
        Packet::Auth(p) => spec_reason_code_only_len(p.properties@),
    }
}

/// Whether writing the packet into a buffer of `n` bytes fails before it writes anything.
pub open spec fn spec_packet_early(packet: Packet, n: nat) -> bool {
    match packet {
        Packet::Connect(p) => spec_connect_check(p@) is Err || spec_fixed_header_check(spec_connect_len(p@), n) is Err,
        Packet::ConnAck(p) => spec_connack_check(p.session_present, p.reason_code, p.properties@) is Err || spec_fixed_header_check(spec_connack_len(p.properties@), n) is Err,
        Packet::Publish(p) => spec_publish_check(p@) is Err || spec_fixed_header_check(spec_publish_len(p@), n) is Err,
        Packet::PubAck(p) => spec_puback_check(p.packet_id, p.reason_code, p.properties@) is Err || spec_fixed_header_check(spec_reason_code_packet_len(p.properties@), n) is Err,
        Packet::PubRec(p) => spec_pubrec_check(p.packet_id, p.reason_code, p.properties@) is Err || spec_fixed_header_check(spec_reason_code_packet_len(p.properties@), n) is Err,
        Packet::PubRel(p) => spec_pubrel_check(p.packet_id, p.reason_code, p.properties@) is Err || spec_fixed_header_check(spec_reason_code_packet_len(p.properties@), n) is Err,
        Packet::PubComp(p) => spec_pubcomp_check(p.packet_id, p.reason_code, p.properties@) is Err || spec_fixed_header_check(spec_reason_code_packet_len(p.properties@), n) is Err,
        Packet::Subscribe(p) => spec_subscribe_check(p.packet_id, spec_sub_views(p.subscriptions@), p.properties@) is Err || spec_fixed_header_check(spec_subscribe_len(p.properties@, spec_sub_views(p.subscriptions@)), n) is Err,
        Packet::SubAck(p) => spec_suback_check(p.packet_id, p.reason_codes@, p.properties@) is Err || spec_fixed_header_check(spec_suback_len(p.properties@, p.reason_codes@.len()), n) is Err,
        Packet::Unsubscribe(p) => spec_unsubscribe_check(p.packet_id, spec_filter_views(p.topic_filters@), p.properties@) is Err || spec_fixed_header_check(spec_unsubscribe_len(p.properties@, spec_filter_views(p.topic_filters@)), n) is Err,
        Packet::UnsubAck(p) => spec_unsuback_check(p.packet_id, p.reason_codes@, p.properties@) is Err || spec_fixed_header_check(spec_unsuback_len(p.properties@, p.reason_codes@.len()), n) is Err,
        Packet::PingReq(_) => n < 2,
        Packet::PingResp(_) => n < 2,
        Packet::Disconnect(p) => spec_disconnect_check(p.reason_code, p.properties@) is Err || spec_fixed_header_check(spec_reason_code_only_len(p.properties@), n) is Err,
        Packet::Auth(p) => spec_auth_check(p.reason_code, p.properties@) is Err || spec_fixed_header_check(spec_reason_code_only_len(p.properties@), n) is Err,
    }
}

impl Packet {
    /// Returns the remaining length of the encoded packet.
    pub fn encoded_len(&self) -> (r: usize)
        ensures
            r == spec_packet_len(*self),
    {
        match self {
            Packet::Connect(p) => p.encoded_len(),
            Packet::ConnAck(p) => p.encoded_len(),
            Packet::Publish(p) => p.encoded_len(),
            Packet::PubAck(p) => p.encoded_len(),
            Packet::PubRec(p) => p.encoded_len(),
            Packet::PubRel(p) => p.encoded_len(),
            Packet::PubComp(p) => p.encoded_len(),
            Packet::Subscribe(p) => p.encoded_len(),
            Packet::SubAck(p) => p.encoded_len(),
            Packet::Unsubscribe(p) => p.encoded_len(),
            Packet::UnsubAck(p) => p.encoded_len(),
            Packet::PingReq(_) => 0,
            Packet::PingResp(_) => 0,
            Packet::Disconnect(p) => p.encoded_len(),
            Packet::Auth(p) => p.encoded_len(),
        }
    }

    /// Encodes the packet into `buf` and returns the number of bytes written.
    #[verifier::spinoff_prover]
    #[verifier::rlimit(100)]
    pub fn encode(&self, buf: &mut [u8]) -> (r: Result<usize, EncodeError>)
        ensures
            final(buf)@.len() == old(buf)@.len(),
            r == spec_packet_result(*self, old(buf)@.len()),
            r is Ok ==> final(buf)@ == spec_splice(old(buf)@, 0, spec_packet_wire(*self)),
            spec_packet_early(*self, old(buf)@.len()) ==> final(buf)@ == old(buf)@,
    {
        match self {
            Packet::Connect(p) => p.encode(buf),
            Packet::ConnAck(p) => p.encode(buf),
            Packet::Publish(p) => p.encode(buf),
            Packet::PubAck(p) => p.encode(buf),
            Packet::PubRec(p) => p.encode(buf),
            Packet::PubRel(p) => p.encode(buf),
            Packet::PubComp(p) => p.encode(buf),
            Packet::Subscribe(p) => p.encode(buf),
            Packet::SubAck(p) => p.encode(buf),
            Packet::Unsubscribe(p) => p.encode(buf),
            Packet::UnsubAck(p) => p.encode(buf),
            Packet::PingReq(p) => p.encode(buf),
            Packet::PingResp(p) => p.encode(buf),
            Packet::Disconnect(p) => p.encode(buf),
            Packet::Auth(p) => p.encode(buf),
        }
    }

    /// Encodes the packet into a new vector as long as the whole packet.
    pub fn encode_to_vec(&self) -> (r: Result<Vec<u8>, EncodeError>)
        ensures
            spec_packet_len(*self) > VBI_MAX ==> r == Err::<Vec<u8>, EncodeError>(
                EncodeError::PacketTooLarge { size: spec_packet_len(*self), limit: VBI_MAX as usize },
            ),
            spec_packet_len(*self) <= VBI_MAX ==> {
                let total = 1 + spec_vbi_len(spec_packet_len(*self) as nat) + spec_packet_len(*self);
                &&& r is Err ==> r == Err::<Vec<u8>, EncodeError>(spec_packet_result(*self, total as nat)->Err_0)
                &&& spec_packet_result(*self, total as nat) is Ok ==> r is Ok
                &&& r matches Ok(v) ==> v@ == spec_splice(Seq::new(total as nat, |i: int| 0u8), 0, spec_packet_wire(*self))
            },
    {
        let remaining_len = self.encoded_len();
        if remaining_len > VariableByteInteger::MAX as usize {
            return Err(
                EncodeError::PacketTooLarge {
                    size: remaining_len,
                    limit: VariableByteInteger::MAX as usize,
                },
            );
        }
        let vbi_len = VariableByteInteger(remaining_len as u32).encoded_len();
        proof {
            lemma_vbi_encode_len(remaining_len as nat);
        }
        let total_len = 1 + vbi_len + remaining_len;
        let mut buf: Vec<u8> = vec![0u8; total_len];
        proof {
            assert(buf@ =~= Seq::new(total_len as nat, |i: int| 0u8));
        }
        match self.encode(buf.as_mut_slice()) {
            Err(e) => Err(e),
            Ok(_) => Ok(buf),
        }
    }
}

/// The result of decoding a packet from the start of `s`, by the packet type
/// in the high nibble of the first byte.
pub open spec fn spec_packet_decode(s: Seq<u8>) -> Result<(PacketView, nat), DecodeError> {
    if s.len() == 0 {
        Err(DecodeError::InsufficientData)
    } else {
        let t = s[0] & 0xF0;
        if t == 0x10 {
            match spec_connect_decode(s) {
                Err(e) => Err(e),
                Ok((v, m)) => Ok((PacketView::Connect(v), m)),
            }
        } else if t == 0x20 {
            match spec_connack_decode(s) {
                Err(e) => Err(e),
                Ok((a, b, c, m)) => Ok((PacketView::ConnAck(a, b, c), m)),
            }
        } else if t == 0x30 {
            match spec_publish_decode(s) {
                Err(e) => Err(e),
                Ok((v, m)) => Ok((PacketView::Publish(v), m)),
            }
        } else if t == 0x40 {
            match spec_puback_decode(s) {
                Err(e) => Err(e),
                Ok((a, b, c, m)) => Ok((PacketView::PubAck(a, b, c), m)),
            }
        } else if t == 0x50 {
            match spec_pubrec_decode(s) {
                Err(e) => Err(e),
                Ok((a, b, c, m)) => Ok((PacketView::PubRec(a, b, c), m)),
            }
        } else if t == 0x60 {
            match spec_pubrel_decode(s) {
                Err(e) => Err(e),
                Ok((a, b, c, m)) => Ok((PacketView::PubRel(a, b, c), m)),
            }
        } else if t == 0x70 {
            match spec_pubcomp_decode(s) {
                Err(e) => Err(e),
                Ok((a, b, c, m)) => Ok((PacketView::PubComp(a, b, c), m)),
            }
        } else if t == 0x80 {
            match spec_subscribe_decode(s) {
                Err(e) => Err(e),
                Ok((a, b, c, m)) => Ok((PacketView::Subscribe(a, b, c), m)),
            }
        } else if t == 0x90 {
            match spec_suback_decode(s) {
                Err(e) => Err(e),
                Ok((a, b, c, m)) => Ok((PacketView::SubAck(a, b, c), m)),
            }
        } else if t == 0xA0 {
            match spec_unsubscribe_decode(s) {
                Err(e) => Err(e),
                Ok((a, b, c, m)) => Ok((PacketView::Unsubscribe(a, b, c), m)),
            }
        } else if t == 0xB0 {
            match spec_unsuback_decode(s) {
                Err(e) => Err(e),
                Ok((a, b, c, m)) => Ok((PacketView::UnsubAck(a, b, c), m)),
            }
        } else if t == 0xC0 {
            match spec_empty_decode(s, 0xC0, 0x00) {
                Err(e) => Err(e),
                Ok(m) => Ok((PacketView::PingReq, m)),
            }
        } else if t == 0xD0 {
            match spec_empty_decode(s, 0xD0, 0x00) {
                Err(e) => Err(e),
                Ok(m) => Ok((PacketView::PingResp, m)),
            }
        } else if t == 0xE0 {
            match spec_disconnect_decode(s) {
                Err(e) => Err(e),
                Ok((a, b, m)) => Ok((PacketView::Disconnect(a, b), m)),
            }
        } else if t == 0xF0 {
            match spec_auth_decode(s) {
                Err(e) => Err(e),
                Ok((a, b, m)) => Ok((PacketView::Auth(a, b), m)),
            }
        } else {
            Err(DecodeError::InvalidPacketType)
        }
    }
}

impl Packet {
    /// Decodes a packet of any type, of either direction, from the start of
    /// `buf` and returns it with the number of bytes consumed.
    #[verifier::spinoff_prover]
    #[verifier::rlimit(60)]
    pub fn decode(buf: &[u8]) -> (r: Result<(Self, usize), DecodeError>)
        ensures
            match r {
                Ok((p, n)) => spec_packet_decode(buf@) == Ok::<(PacketView, nat), DecodeError>((p@, n as nat)),
                Err(e) => spec_packet_decode(buf@) == Err::<(PacketView, nat), DecodeError>(e),
            },
    {
        if buf.len() == 0 {
            return Err(DecodeError::InsufficientData);
        }
        let t = buf[0] & 0xF0;
        if t == 0x10 {
            match Connect::decode(buf) {
                Err(e) => Err(e),
                Ok((p, n)) => Ok((Packet::Connect(p), n)),
            }
        } else if t == 0x20 {
            match ConnAck::decode(buf) {
                Err(e) => Err(e),
                Ok((p, n)) => Ok((Packet::ConnAck(p), n)),
            }
        } else if t == 0x30 {
            match Publish::decode(buf) {
                Err(e) => Err(e),
                Ok((p, n)) => Ok((Packet::Publish(p), n)),
            }
        } else if t == 0x40 {
            match PubAck::decode(buf) {
                Err(e) => Err(e),
                Ok((p, n)) => Ok((Packet::PubAck(p), n)),
            }
        } else if t == 0x50 {
            match PubRec::decode(buf) {
                Err(e) => Err(e),
                Ok((p, n)) => Ok((Packet::PubRec(p), n)),
            }
        } else if t == 0x60 {
            match PubRel::decode(buf) {
                Err(e) => Err(e),
                Ok((p, n)) => Ok((Packet::PubRel(p), n)),
            }
        } else if t == 0x70 {
            match PubComp::decode(buf) {
                Err(e) => Err(e),
                Ok((p, n)) => Ok((Packet::PubComp(p), n)),
            }
        } else if t == 0x80 {
            match Subscribe::decode(buf) {
                Err(e) => Err(e),
                Ok((p, n)) => Ok((Packet::Subscribe(p), n)),
            }
        } else if t == 0x90 {
            match SubAck::decode(buf) {
                Err(e) => Err(e),
                Ok((p, n)) => Ok((Packet::SubAck(p), n)),
            }
        } else if t == 0xA0 {
            match Unsubscribe::decode(buf) {
                Err(e) => Err(e),
                Ok((p, n)) => Ok((Packet::Unsubscribe(p), n)),
            }
        } else if t == 0xB0 {
            match UnsubAck::decode(buf) {
                Err(e) => Err(e),
                Ok((p, n)) => Ok((Packet::UnsubAck(p), n)),
            }
        } else if t == 0xC0 {
            match PingReq::decode(buf) {
                Err(e) => Err(e),
                Ok((p, n)) => Ok((Packet::PingReq(p), n)),
            }
        } else if t == 0xD0 {
            match PingResp::decode(buf) {
                Err(e) => Err(e),
                Ok((p, n)) => Ok((Packet::PingResp(p), n)),
            }
        } else if t == 0xE0 {
            match Disconnect::decode(buf) {
                Err(e) => Err(e),
                Ok((p, n)) => Ok((Packet::Disconnect(p), n)),
            }
        } else if t == 0xF0 {
            match Auth::decode(buf) {
                Err(e) => Err(e),
                Ok((p, n)) => Ok((Packet::Auth(p), n)),
            }
        } else {
            Err(DecodeError::InvalidPacketType)
        }
    }
}

/// Decoding the wire form of a packet that can be written, followed by any
/// bytes, gives the packet back and consumes exactly its wire form. A
/// DISCONNECT or AUTH comes back only when its reason code is one that a server
/// sends too, and a DISCONNECT only without a Session Expiry Interval, since
/// the decoder reads them as sent by a server.
#[verifier::spinoff_prover]
pub proof fn lemma_packet_roundtrip(p: Packet, rest: Seq<u8>)
    requires
        spec_packet_result(p, spec_packet_wire(p).len()) is Ok,
        p matches Packet::Disconnect(d) ==> d.reason_code.spec_sent_by_server()
            && !crate::v5::property::spec_has_identifier(d.properties@, 0x11),
        p matches Packet::Auth(a) ==> a.reason_code.spec_sent_by_server(),
    ensures
        spec_packet_decode(spec_packet_wire(p) + rest) == Ok::<(PacketView, nat), DecodeError>(
            (p@, spec_packet_wire(p).len()),
        ),
{
    match p {
        Packet::Connect(c) => lemma_connect_packet_roundtrip(c, rest),
        Packet::ConnAck(c) => lemma_conn_ack_packet_roundtrip(c, rest),
        Packet::Publish(c) => lemma_publish_packet_roundtrip(c, rest),
        Packet::PubAck(c) => lemma_pub_ack_packet_roundtrip(c, rest),
        Packet::PubRec(c) => lemma_pub_rec_packet_roundtrip(c, rest),
        Packet::PubRel(c) => lemma_pub_rel_packet_roundtrip(c, rest),
        Packet::PubComp(c) => lemma_pub_comp_packet_roundtrip(c, rest),
        Packet::Subscribe(c) => lemma_subscribe_packet_roundtrip(c, rest),
        Packet::SubAck(c) => lemma_sub_ack_packet_roundtrip(c, rest),
        Packet::Unsubscribe(c) => lemma_unsubscribe_packet_roundtrip(c, rest),
        Packet::UnsubAck(c) => lemma_unsub_ack_packet_roundtrip(c, rest),
        Packet::PingReq(c) => lemma_pingreq_packet_roundtrip(c, rest),
        Packet::PingResp(c) => lemma_pingresp_packet_roundtrip(c, rest),
        Packet::Disconnect(c) => lemma_disconnect_packet_roundtrip(c, rest),
        Packet::Auth(c) => lemma_auth_packet_roundtrip(c, rest),
    }
}

/// The roundtrip of a packet that is a PINGRESP.
#[verifier::spinoff_prover]
proof fn lemma_pingresp_packet_roundtrip(c: PingResp, rest: Seq<u8>)
    ensures
        spec_packet_decode(spec_packet_wire(Packet::PingResp(c)) + rest) == Ok::<(PacketView, nat), DecodeError>(
            (Packet::PingResp(c)@, spec_packet_wire(Packet::PingResp(c)).len()),
        ),
{
    crate::v5::pingresp::lemma_pingresp_roundtrip(rest);
    assert(0xD0u8 & 0xF0 == 0xD0u8) by (bit_vector);
}

/// The roundtrip of a packet that is a DISCONNECT a server could send.
#[verifier::spinoff_prover]
proof fn lemma_disconnect_packet_roundtrip(c: Disconnect, rest: Seq<u8>)
    requires
        spec_packet_result(Packet::Disconnect(c), spec_packet_wire(Packet::Disconnect(c)).len()) is Ok,
        c.reason_code.spec_sent_by_server(),
        !crate::v5::property::spec_has_identifier(c.properties@, 0x11),
    ensures
        spec_packet_decode(spec_packet_wire(Packet::Disconnect(c)) + rest) == Ok::<(PacketView, nat), DecodeError>(
            (Packet::Disconnect(c)@, spec_packet_wire(Packet::Disconnect(c)).len()),
        ),
{
    crate::v5::disconnect::lemma_disconnect_roundtrip(c, rest);
}

/// The roundtrip of a packet that is an AUTH a server could send.
#[verifier::spinoff_prover]
proof fn lemma_auth_packet_roundtrip(c: Auth, rest: Seq<u8>)
    requires
        spec_packet_result(Packet::Auth(c), spec_packet_wire(Packet::Auth(c)).len()) is Ok,
        c.reason_code.spec_sent_by_server(),
    ensures
        spec_packet_decode(spec_packet_wire(Packet::Auth(c)) + rest) == Ok::<(PacketView, nat), DecodeError>(
            (Packet::Auth(c)@, spec_packet_wire(Packet::Auth(c)).len()),
        ),
{
    crate::v5::auth::lemma_auth_roundtrip(c, rest);
}

/// The roundtrip of a packet that is a CONNECT.
#[verifier::spinoff_prover]
proof fn lemma_connect_packet_roundtrip(c: Connect, rest: Seq<u8>)
    requires
        spec_packet_result(Packet::Connect(c), spec_packet_wire(Packet::Connect(c)).len()) is Ok,
    ensures
        spec_packet_decode(spec_packet_wire(Packet::Connect(c)) + rest) == Ok::<(PacketView, nat), DecodeError>(
            (Packet::Connect(c)@, spec_packet_wire(Packet::Connect(c)).len()),
        ),
{
    crate::v5::connect::lemma_connect_roundtrip(c, rest);
}

/// The roundtrip of a packet that is a CONNACK.
#[verifier::spinoff_prover]
proof fn lemma_conn_ack_packet_roundtrip(c: ConnAck, rest: Seq<u8>)
    requires
        spec_packet_result(Packet::ConnAck(c), spec_packet_wire(Packet::ConnAck(c)).len()) is Ok,
    ensures
        spec_packet_decode(spec_packet_wire(Packet::ConnAck(c)) + rest) == Ok::<(PacketView, nat), DecodeError>(
            (Packet::ConnAck(c)@, spec_packet_wire(Packet::ConnAck(c)).len()),
        ),
{
    crate::v5::connack::lemma_connack_roundtrip(c, rest);
}

/// The roundtrip of a packet that is a PUBLISH.
#[verifier::spinoff_prover]
proof fn lemma_publish_packet_roundtrip(c: Publish, rest: Seq<u8>)
    requires
        spec_packet_result(Packet::Publish(c), spec_packet_wire(Packet::Publish(c)).len()) is Ok,
    ensures
        spec_packet_decode(spec_packet_wire(Packet::Publish(c)) + rest) == Ok::<(PacketView, nat), DecodeError>(
            (Packet::Publish(c)@, spec_packet_wire(Packet::Publish(c)).len()),
        ),
{
    crate::v5::publish::lemma_publish_roundtrip(c, rest);
}

/// The roundtrip of a packet that is a PUBREC.
#[verifier::spinoff_prover]
proof fn lemma_pub_rec_packet_roundtrip(c: PubRec, rest: Seq<u8>)
    requires
        spec_packet_result(Packet::PubRec(c), spec_packet_wire(Packet::PubRec(c)).len()) is Ok,
    ensures
        spec_packet_decode(spec_packet_wire(Packet::PubRec(c)) + rest) == Ok::<(PacketView, nat), DecodeError>(
            (Packet::PubRec(c)@, spec_packet_wire(Packet::PubRec(c)).len()),
        ),
{
    crate::v5::pubrec::lemma_pubrec_roundtrip(c, rest);
}

/// The roundtrip of a packet that is a PUBREL.
#[verifier::spinoff_prover]
proof fn lemma_pub_rel_packet_roundtrip(c: PubRel, rest: Seq<u8>)
    requires
        spec_packet_result(Packet::PubRel(c), spec_packet_wire(Packet::PubRel(c)).len()) is Ok,
    ensures
        spec_packet_decode(spec_packet_wire(Packet::PubRel(c)) + rest) == Ok::<(PacketView, nat), DecodeError>(
            (Packet::PubRel(c)@, spec_packet_wire(Packet::PubRel(c)).len()),
        ),
{
    crate::v5::pubrel::lemma_pubrel_roundtrip(c, rest);
}

/// The roundtrip of a packet that is a SUBSCRIBE.
#[verifier::spinoff_prover]
proof fn lemma_subscribe_packet_roundtrip(c: Subscribe, rest: Seq<u8>)
    requires
        spec_packet_result(Packet::Subscribe(c), spec_packet_wire(Packet::Subscribe(c)).len()) is Ok,
    ensures
        spec_packet_decode(spec_packet_wire(Packet::Subscribe(c)) + rest) == Ok::<(PacketView, nat), DecodeError>(
            (Packet::Subscribe(c)@, spec_packet_wire(Packet::Subscribe(c)).len()),
        ),
{
    crate::v5::subscribe::lemma_subscribe_roundtrip(c, rest);
}

/// The roundtrip of a packet that is a SUBACK.
#[verifier::spinoff_prover]
proof fn lemma_sub_ack_packet_roundtrip(c: SubAck, rest: Seq<u8>)
    requires
        spec_packet_result(Packet::SubAck(c), spec_packet_wire(Packet::SubAck(c)).len()) is Ok,
    ensures
        spec_packet_decode(spec_packet_wire(Packet::SubAck(c)) + rest) == Ok::<(PacketView, nat), DecodeError>(
            (Packet::SubAck(c)@, spec_packet_wire(Packet::SubAck(c)).len()),
        ),
{
    crate::v5::suback::lemma_suback_roundtrip(c, rest);
}

/// The roundtrip of a packet that is a UNSUBSCRIBE.
#[verifier::spinoff_prover]
proof fn lemma_unsubscribe_packet_roundtrip(c: Unsubscribe, rest: Seq<u8>)
    requires
        spec_packet_result(Packet::Unsubscribe(c), spec_packet_wire(Packet::Unsubscribe(c)).len()) is Ok,
    ensures
        spec_packet_decode(spec_packet_wire(Packet::Unsubscribe(c)) + rest) == Ok::<(PacketView, nat), DecodeError>(
            (Packet::Unsubscribe(c)@, spec_packet_wire(Packet::Unsubscribe(c)).len()),
        ),
{
    crate::v5::unsubscribe::lemma_unsubscribe_roundtrip(c, rest);
}

/// The roundtrip of a packet that is a PINGREQ.
#[verifier::spinoff_prover]
proof fn lemma_pingreq_packet_roundtrip(c: PingReq, rest: Seq<u8>)
    ensures
        spec_packet_decode(spec_packet_wire(Packet::PingReq(c)) + rest) == Ok::<(PacketView, nat), DecodeError>(
            (Packet::PingReq(c)@, spec_packet_wire(Packet::PingReq(c)).len()),
        ),
{
    crate::v5::pingreq::lemma_pingreq_roundtrip(rest);
    assert(0xC0u8 & 0xF0 == 0xC0u8) by (bit_vector);
}

/// The roundtrip of a packet that is a PUBACK.
#[verifier::spinoff_prover]
proof fn lemma_pub_ack_packet_roundtrip(c: PubAck, rest: Seq<u8>)
    requires
        spec_packet_result(Packet::PubAck(c), spec_packet_wire(Packet::PubAck(c)).len()) is Ok,
    ensures
        spec_packet_decode(spec_packet_wire(Packet::PubAck(c)) + rest) == Ok::<(PacketView, nat), DecodeError>(
            (Packet::PubAck(c)@, spec_packet_wire(Packet::PubAck(c)).len()),
        ),
{
    crate::v5::puback::lemma_puback_roundtrip(c, rest);
}

/// The roundtrip of a packet that is a PUBCOMP.
#[verifier::spinoff_prover]
proof fn lemma_pub_comp_packet_roundtrip(c: PubComp, rest: Seq<u8>)
    requires
        spec_packet_result(Packet::PubComp(c), spec_packet_wire(Packet::PubComp(c)).len()) is Ok,
    ensures
        spec_packet_decode(spec_packet_wire(Packet::PubComp(c)) + rest) == Ok::<(PacketView, nat), DecodeError>(
            (Packet::PubComp(c)@, spec_packet_wire(Packet::PubComp(c)).len()),
        ),
{
    crate::v5::pubcomp::lemma_pubcomp_roundtrip(c, rest);
}

/// The roundtrip of a packet that is an UNSUBACK.
#[verifier::spinoff_prover]
proof fn lemma_unsub_ack_packet_roundtrip(c: UnsubAck, rest: Seq<u8>)
    requires
        spec_packet_result(Packet::UnsubAck(c), spec_packet_wire(Packet::UnsubAck(c)).len()) is Ok,
    ensures
        spec_packet_decode(spec_packet_wire(Packet::UnsubAck(c)) + rest) == Ok::<(PacketView, nat), DecodeError>(
            (Packet::UnsubAck(c)@, spec_packet_wire(Packet::UnsubAck(c)).len()),
        ),
{
    crate::v5::unsuback::lemma_unsuback_roundtrip(c, rest);
}

} // verus!
