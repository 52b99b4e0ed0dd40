//! MQTT v3.1.1 packets that a client receives, as one type.

use vstd::prelude::*;

use crate::error::DecodeError;
use crate::v311::ack_helper::spec_simple_ack_decode;
use crate::v311::connack::{spec_connack_decode, ConnAck, ConnectReturnCode};
use crate::v311::pubcomp::PubComp;
use crate::v311::publish::{spec_publish_decode, Publish, PublishView};
use crate::v311::suback::{spec_suback_decode, SubAck, SubscribeReturnCode};

verus! {

/// An MQTT v3.1.1 packet that a client receives and that this library
/// represents.
#[derive(Debug, Clone, PartialEq, Eq)]
pub enum IncomingPacket {
    /// A CONNACK packet.
    ConnAck(ConnAck),
    /// A PUBLISH packet.
    Publish(Publish),
    /// A PUBCOMP packet.
    PubComp(PubComp),
    /// A SUBACK packet.
    SubAck(SubAck),
}

/// The abstract value of an [`IncomingPacket`].
pub enum IncomingView {
    /// A CONNACK packet: Session Present and the return code.
    ConnAck(bool, ConnectReturnCode),
    /// A PUBLISH packet.
    Publish(PublishView),
    /// A PUBCOMP packet: its Packet Identifier.
    PubComp(u16),
    /// A SUBACK packet: its Packet Identifier and return codes.
    SubAck(u16, Seq<SubscribeReturnCode>),
}

impl View for IncomingPacket {
    type V = IncomingView;

    open spec fn view(&self) -> IncomingView {
        match self {
            IncomingPacket::ConnAck(p) => IncomingView::ConnAck(p.session_present, p.return_code),
            IncomingPacket::Publish(p) => IncomingView::Publish(p@),
            IncomingPacket::PubComp(p) => IncomingView::PubComp(p.packet_id),
            IncomingPacket::SubAck(p) => IncomingView::SubAck(p.packet_id, p.return_codes@),
        }
    }
}

/// The result of decoding a packet from the start of `s`, by the packet type in
/// the high nibble of the first byte. The other packet types are unexpected;
/// type 0 and type 15 are invalid.
pub open spec fn spec_incoming_decode(s: Seq<u8>) -> Result<(IncomingView, nat), DecodeError> {
    if s.len() == 0 {
        Err(DecodeError::InsufficientData)
    } else {
        let t = s[0] & 0xF0;
        if t == 0x20 {
            match spec_connack_decode(s) {
                Err(e) => Err(e),
                Ok((a, b, n)) => Ok((IncomingView::ConnAck(a, b), n)),
            }
        } else if t == 0x30 {
            match spec_publish_decode(s) {
                Err(e) => Err(e),
                Ok((p, n)) => Ok((IncomingView::Publish(p), n)),
            }
        } else if t == 0x70 {
            match spec_simple_ack_decode(s, 0x70, 0x00) {
                Err(e) => Err(e),
                Ok((id, n)) => Ok((IncomingView::PubComp(id), n)),
            }
        } else if t == 0x90 {
            match spec_suback_decode(s) {
                Err(e) => Err(e),
                Ok((id, codes, n)) => Ok((IncomingView::SubAck(id, codes), n)),
            }
        } else if t == 0x00 || t == 0xF0 {
            Err(DecodeError::InvalidPacketType)
        } else {
            Err(DecodeError::UnexpectedPacket { packet_type: t })
        }
    }
}

impl IncomingPacket {
    /// Decodes a packet from the start of `buf` and returns it with the number
    /// of bytes consumed.
    pub fn decode(buf: &[u8]) -> (r: Result<(Self, usize), DecodeError>)
        ensures
            match r {
                Ok((p, n)) => spec_incoming_decode(buf@) == Ok::<(IncomingView, nat), DecodeError>((p@, n as nat)),
                Err(e) => spec_incoming_decode(buf@) == Err::<(IncomingView, nat), DecodeError>(e),
            },
    {
        if buf.len() == 0 {
            return Err(DecodeError::InsufficientData);
        }
        let t = buf[0] & 0xF0;
        if t == 0x20 {
            match ConnAck::decode(buf) {
                Err(e) => Err(e),
                Ok((p, n)) => Ok((IncomingPacket::ConnAck(p), n)),
            }
        } else if t == 0x30 {
            match Publish::decode(buf) {
                Err(e) => Err(e),
                Ok((p, n)) => Ok((IncomingPacket::Publish(p), n)),
            }
        } else if t == 0x70 {
            match PubComp::decode(buf) {
                Err(e) => Err(e),
                Ok((p, n)) => Ok((IncomingPacket::PubComp(p), n)),
            }
        } else if t == 0x90 {
            match SubAck::decode(buf) {
                Err(e) => Err(e),
                Ok((p, n)) => Ok((IncomingPacket::SubAck(p), n)),
            }
        } else if t == 0x00 || t == 0xF0 {
            Err(DecodeError::InvalidPacketType)
        } else {
            Err(DecodeError::UnexpectedPacket { packet_type: t })
        }
    }
}

} // verus!
