//! MQTT v5.0 DISCONNECT packets (MQTT v5.0 §3.14).

use vstd::prelude::*;

use crate::codec::wire::spec_splice;
use crate::error::{DecodeError, EncodeError, EncodeInvalidField};
use crate::codec::variable_byte_integer::VBI_MAX;
use crate::v5::ack_helper::{
    lemma_reason_code_only_roundtrip,
    decode_reason_code_only_packet, encode_reason_code_only_packet,
    reason_code_only_packet_encoded_len, spec_fixed_header_check, spec_reason_code_only_decode,
    spec_reason_code_only_len, spec_reason_code_only_result, spec_reason_code_only_wire,
};
use crate::v5::property::{
    spec_first_property_error,
    spec_disconnect_ids, spec_has_duplicate, spec_has_identifier, spec_ids_within,
    PacketDirection, Properties, PropertyValue,
};

verus! {

/// MQTT v5.0 Disconnect Reason Code (MQTT v5.0 §3.14.2.1).
#[derive(Debug, Clone, Copy, PartialEq, Eq, Structural)]
pub enum DisconnectReasonCode {
    /// 0x00: Normal disconnection.
    NormalDisconnection,
    /// 0x04: Disconnect with will message.
    DisconnectWithWillMessage,
    /// 0x80: Unspecified error.
    UnspecifiedError,
    /// 0x81: Malformed packet.
    MalformedPacket,
    /// 0x82: Protocol error.
    ProtocolError,
    /// 0x83: Implementation specific error.
    ImplementationSpecificError,
    /// 0x87: Not authorized.
    NotAuthorized,
    /// 0x89: Server busy.
    ServerBusy,
    /// 0x8B: Server shutting down.
    ServerShuttingDown,
    /// 0x8C: Bad authentication method.
    BadAuthenticationMethod,
    /// 0x8D: Keep alive timeout.
    KeepAliveTimeout,
    /// 0x8E: Session taken over.
    SessionTakenOver,
    /// 0x8F: Topic filter invalid.
    TopicFilterInvalid,
    /// 0x90: Topic name invalid.
    TopicNameInvalid,
    /// 0x93: Receive maximum exceeded.
    ReceiveMaximumExceeded,
    /// 0x94: Topic alias invalid.
    TopicAliasInvalid,
    /// 0x95: Packet too large.
    PacketTooLarge,
    /// 0x96: Message rate too high.
    MessageRateTooHigh,
    /// 0x97: Quota exceeded.
    QuotaExceeded,
    /// 0x98: Administrative action.
    AdministrativeAction,
    /// 0x99: Payload format invalid.
    PayloadFormatInvalid,
    /// 0x9A: Retain not supported.
    RetainNotSupported,
    /// 0x9B: QoS not supported.
    QoSNotSupported,
    /// 0x9C: Use another server.
    UseAnotherServer,
    /// 0x9D: Server moved.
    ServerMoved,
    /// 0x9E: Shared subscriptions not supported.
    SharedSubscriptionsNotSupported,
    /// 0x9F: Connection rate exceeded.
    ConnectionRateExceeded,
    /// 0xA0: Maximum connect time.
    MaximumConnectTime,
    /// 0xA1: Subscription identifiers not supported.
    SubscriptionIdentifiersNotSupported,
    /// 0xA2: Wildcard subscriptions not supported.
    WildcardSubscriptionsNotSupported,
}

impl DisconnectReasonCode {
    /// The numeric value of the code.
    pub open spec fn spec_as_u8(self) -> u8 {
        match self {
            DisconnectReasonCode::NormalDisconnection => 0x00,
            DisconnectReasonCode::DisconnectWithWillMessage => 0x04,
            DisconnectReasonCode::UnspecifiedError => 0x80,
            DisconnectReasonCode::MalformedPacket => 0x81,
            DisconnectReasonCode::ProtocolError => 0x82,
            DisconnectReasonCode::ImplementationSpecificError => 0x83,
            DisconnectReasonCode::NotAuthorized => 0x87,
            DisconnectReasonCode::ServerBusy => 0x89,
            DisconnectReasonCode::ServerShuttingDown => 0x8B,
            DisconnectReasonCode::BadAuthenticationMethod => 0x8C,
            DisconnectReasonCode::KeepAliveTimeout => 0x8D,
            DisconnectReasonCode::SessionTakenOver => 0x8E,
            DisconnectReasonCode::TopicFilterInvalid => 0x8F,
            DisconnectReasonCode::TopicNameInvalid => 0x90,
            DisconnectReasonCode::ReceiveMaximumExceeded => 0x93,
            DisconnectReasonCode::TopicAliasInvalid => 0x94,
            DisconnectReasonCode::PacketTooLarge => 0x95,
            DisconnectReasonCode::MessageRateTooHigh => 0x96,
            DisconnectReasonCode::QuotaExceeded => 0x97,
            DisconnectReasonCode::AdministrativeAction => 0x98,
            DisconnectReasonCode::PayloadFormatInvalid => 0x99,
            DisconnectReasonCode::RetainNotSupported => 0x9A,
            DisconnectReasonCode::QoSNotSupported => 0x9B,
            DisconnectReasonCode::UseAnotherServer => 0x9C,
            DisconnectReasonCode::ServerMoved => 0x9D,
            DisconnectReasonCode::SharedSubscriptionsNotSupported => 0x9E,
            DisconnectReasonCode::ConnectionRateExceeded => 0x9F,
            DisconnectReasonCode::MaximumConnectTime => 0xA0,
            DisconnectReasonCode::SubscriptionIdentifiersNotSupported => 0xA1,
            DisconnectReasonCode::WildcardSubscriptionsNotSupported => 0xA2,
        }
    }

    /// The code with the numeric value `value`, if any.
    pub open spec fn spec_from_u8(value: u8) -> Option<DisconnectReasonCode> {
        if value == 0x00 {
            Some(DisconnectReasonCode::NormalDisconnection)
        } else if value == 0x04 {
            Some(DisconnectReasonCode::DisconnectWithWillMessage)
        } else if value == 0x80 {
            Some(DisconnectReasonCode::UnspecifiedError)
        } else if value == 0x81 {
            Some(DisconnectReasonCode::MalformedPacket)
        } else if value == 0x82 {
            Some(DisconnectReasonCode::ProtocolError)
        } else if value == 0x83 {
            Some(DisconnectReasonCode::ImplementationSpecificError)
        } else if value == 0x87 {
            Some(DisconnectReasonCode::NotAuthorized)
        } else if value == 0x89 {
            Some(DisconnectReasonCode::ServerBusy)
        } else if value == 0x8B {
            Some(DisconnectReasonCode::ServerShuttingDown)
        } else if value == 0x8C {
            Some(DisconnectReasonCode::BadAuthenticationMethod)
        } else if value == 0x8D {
            Some(DisconnectReasonCode::KeepAliveTimeout)
        } else if value == 0x8E {
            Some(DisconnectReasonCode::SessionTakenOver)
        } else if value == 0x8F {
            Some(DisconnectReasonCode::TopicFilterInvalid)
        } else if value == 0x90 {
            Some(DisconnectReasonCode::TopicNameInvalid)
        } else if value == 0x93 {
            Some(DisconnectReasonCode::ReceiveMaximumExceeded)
        } else if value == 0x94 {
            Some(DisconnectReasonCode::TopicAliasInvalid)
        } else if value == 0x95 {
            Some(DisconnectReasonCode::PacketTooLarge)
        } else if value == 0x96 {
            Some(DisconnectReasonCode::MessageRateTooHigh)
        } else if value == 0x97 {
            Some(DisconnectReasonCode::QuotaExceeded)
        } else if value == 0x98 {
            Some(DisconnectReasonCode::AdministrativeAction)
        } else if value == 0x99 {
            Some(DisconnectReasonCode::PayloadFormatInvalid)
        } else if value == 0x9A {
            Some(DisconnectReasonCode::RetainNotSupported)
        } else if value == 0x9B {
            Some(DisconnectReasonCode::QoSNotSupported)
        } else if value == 0x9C {
            Some(DisconnectReasonCode::UseAnotherServer)
        } else if value == 0x9D {
            Some(DisconnectReasonCode::ServerMoved)
        } else if value == 0x9E {
            Some(DisconnectReasonCode::SharedSubscriptionsNotSupported)
        } else if value == 0x9F {
            Some(DisconnectReasonCode::ConnectionRateExceeded)
        } else if value == 0xA0 {
            Some(DisconnectReasonCode::MaximumConnectTime)
        } else if value == 0xA1 {
            Some(DisconnectReasonCode::SubscriptionIdentifiersNotSupported)
        } else if value == 0xA2 {
            Some(DisconnectReasonCode::WildcardSubscriptionsNotSupported)
        } else {
            None
        }
    }

    /// Returns the code with the numeric value `value`; other values give `None`.
    pub fn from_u8(value: u8) -> (r: Option<Self>)
        ensures
            r == Self::spec_from_u8(value),
    {
        match value {
            0x00 => Some(DisconnectReasonCode::NormalDisconnection),
            0x04 => Some(DisconnectReasonCode::DisconnectWithWillMessage),
            0x80 => Some(DisconnectReasonCode::UnspecifiedError),
            0x81 => Some(DisconnectReasonCode::MalformedPacket),
            0x82 => Some(DisconnectReasonCode::ProtocolError),
            0x83 => Some(DisconnectReasonCode::ImplementationSpecificError),
            0x87 => Some(DisconnectReasonCode::NotAuthorized),
            0x89 => Some(DisconnectReasonCode::ServerBusy),
            0x8B => Some(DisconnectReasonCode::ServerShuttingDown),
            0x8C => Some(DisconnectReasonCode::BadAuthenticationMethod),
            0x8D => Some(DisconnectReasonCode::KeepAliveTimeout),
            0x8E => Some(DisconnectReasonCode::SessionTakenOver),
            0x8F => Some(DisconnectReasonCode::TopicFilterInvalid),
            0x90 => Some(DisconnectReasonCode::TopicNameInvalid),
            0x93 => Some(DisconnectReasonCode::ReceiveMaximumExceeded),
            0x94 => Some(DisconnectReasonCode::TopicAliasInvalid),
            0x95 => Some(DisconnectReasonCode::PacketTooLarge),
            0x96 => Some(DisconnectReasonCode::MessageRateTooHigh),
            0x97 => Some(DisconnectReasonCode::QuotaExceeded),
            0x98 => Some(DisconnectReasonCode::AdministrativeAction),
            0x99 => Some(DisconnectReasonCode::PayloadFormatInvalid),
            0x9A => Some(DisconnectReasonCode::RetainNotSupported),
            0x9B => Some(DisconnectReasonCode::QoSNotSupported),
            0x9C => Some(DisconnectReasonCode::UseAnotherServer),
            0x9D => Some(DisconnectReasonCode::ServerMoved),
            0x9E => Some(DisconnectReasonCode::SharedSubscriptionsNotSupported),
            0x9F => Some(DisconnectReasonCode::ConnectionRateExceeded),
            0xA0 => Some(DisconnectReasonCode::MaximumConnectTime),
            0xA1 => Some(DisconnectReasonCode::SubscriptionIdentifiersNotSupported),
            0xA2 => Some(DisconnectReasonCode::WildcardSubscriptionsNotSupported),
            _ => None,
        }
    }

    /// Returns the numeric value of the code.
    pub fn as_u8(self) -> (r: u8)
        ensures
            r == self.spec_as_u8(),
    {
        match self {
            DisconnectReasonCode::NormalDisconnection => 0x00,
            DisconnectReasonCode::DisconnectWithWillMessage => 0x04,
            DisconnectReasonCode::UnspecifiedError => 0x80,
            DisconnectReasonCode::MalformedPacket => 0x81,
            DisconnectReasonCode::ProtocolError => 0x82,
            DisconnectReasonCode::ImplementationSpecificError => 0x83,
            DisconnectReasonCode::NotAuthorized => 0x87,
            DisconnectReasonCode::ServerBusy => 0x89,
            DisconnectReasonCode::ServerShuttingDown => 0x8B,
            DisconnectReasonCode::BadAuthenticationMethod => 0x8C,
            DisconnectReasonCode::KeepAliveTimeout => 0x8D,
            DisconnectReasonCode::SessionTakenOver => 0x8E,
            DisconnectReasonCode::TopicFilterInvalid => 0x8F,
            DisconnectReasonCode::TopicNameInvalid => 0x90,
            DisconnectReasonCode::ReceiveMaximumExceeded => 0x93,
            DisconnectReasonCode::TopicAliasInvalid => 0x94,
            DisconnectReasonCode::PacketTooLarge => 0x95,
            DisconnectReasonCode::MessageRateTooHigh => 0x96,
            DisconnectReasonCode::QuotaExceeded => 0x97,
            DisconnectReasonCode::AdministrativeAction => 0x98,
            DisconnectReasonCode::PayloadFormatInvalid => 0x99,
            DisconnectReasonCode::RetainNotSupported => 0x9A,
            DisconnectReasonCode::QoSNotSupported => 0x9B,
            DisconnectReasonCode::UseAnotherServer => 0x9C,
            DisconnectReasonCode::ServerMoved => 0x9D,
            DisconnectReasonCode::SharedSubscriptionsNotSupported => 0x9E,
            DisconnectReasonCode::ConnectionRateExceeded => 0x9F,
            DisconnectReasonCode::MaximumConnectTime => 0xA0,
            DisconnectReasonCode::SubscriptionIdentifiersNotSupported => 0xA1,
            DisconnectReasonCode::WildcardSubscriptionsNotSupported => 0xA2,
        }
    }
}

/// Converting a code to its number and back gives the code.
#[verifier::spinoff_prover]
pub proof fn lemma_disconnect_reason_code_roundtrip(c: DisconnectReasonCode)
    ensures
        DisconnectReasonCode::spec_from_u8(c.spec_as_u8()) == Some(c),
{
}

impl DisconnectReasonCode {
    /// Whether a client may send the code (MQTT v5.0 §3.14.2.1, Table 3-10).
    pub open spec fn spec_sent_by_client(self) -> bool {
        ||| self is NormalDisconnection
        ||| self is DisconnectWithWillMessage
        ||| self is UnspecifiedError
        ||| self is MalformedPacket
        ||| self is ProtocolError
        ||| self is ImplementationSpecificError
        ||| self is BadAuthenticationMethod
        ||| self is TopicNameInvalid
        ||| self is ReceiveMaximumExceeded
        ||| self is TopicAliasInvalid
        ||| self is PacketTooLarge
        ||| self is MessageRateTooHigh
        ||| self is QuotaExceeded
        ||| self is AdministrativeAction
        ||| self is PayloadFormatInvalid
    }

    /// Whether a server may send the code (MQTT v5.0 §3.14.2.1, Table 3-10):
    /// all but Disconnect with Will Message.
    pub open spec fn spec_sent_by_server(self) -> bool {
        !(self is DisconnectWithWillMessage)
    }

    /// Returns whether a client may send the code.
    fn is_sent_by_client(self) -> (r: bool)
        ensures
            r == self.spec_sent_by_client(),
    {
        match self {
            DisconnectReasonCode::NormalDisconnection
            | DisconnectReasonCode::DisconnectWithWillMessage
            | DisconnectReasonCode::UnspecifiedError
            | DisconnectReasonCode::MalformedPacket
            | DisconnectReasonCode::ProtocolError
            | DisconnectReasonCode::ImplementationSpecificError
            | DisconnectReasonCode::BadAuthenticationMethod
            | DisconnectReasonCode::TopicNameInvalid
            | DisconnectReasonCode::ReceiveMaximumExceeded
            | DisconnectReasonCode::TopicAliasInvalid
            | DisconnectReasonCode::PacketTooLarge
            | DisconnectReasonCode::MessageRateTooHigh
            | DisconnectReasonCode::QuotaExceeded
            | DisconnectReasonCode::AdministrativeAction
            | DisconnectReasonCode::PayloadFormatInvalid => true,
            _ => false,
        }
    }

    /// Returns whether a server may send the code.
    fn is_sent_by_server(self) -> (r: bool)
        ensures
            r == self.spec_sent_by_server(),
    {
        match self {
            DisconnectReasonCode::DisconnectWithWillMessage => false,
            _ => true,
        }
    }
}

/// An MQTT v5.0 DISCONNECT packet (MQTT v5.0 §3.14).
#[derive(Debug, Clone, PartialEq, Eq)]
pub struct Disconnect {
    /// The reason code.
    pub reason_code: DisconnectReasonCode,
    /// The properties.
    pub properties: Properties,
}

/// Why a DISCONNECT sent by a client cannot be written, if it cannot: a reason
/// code that a client does not send, properties that DISCONNECT does not allow,
/// or a repeated property.
pub open spec fn spec_disconnect_check(reason_code: DisconnectReasonCode, ps: Seq<(u8, PropertyValue)>) -> Result<(), EncodeError> {
    if !reason_code.spec_sent_by_client() {
        Err(EncodeError::InvalidField { reason: EncodeInvalidField::InvalidReasonCode })
    } else if !spec_ids_within(ps, spec_disconnect_ids()) {
        Err(EncodeError::InvalidField { reason: EncodeInvalidField::PropertyValidationFailed })
    } else if spec_has_duplicate(ps, false) {
        Err(EncodeError::InvalidField { reason: EncodeInvalidField::DuplicatePropertyIdentifier })
    } else {
        Ok(())
    }
}

/// The result of decoding a DISCONNECT sent by a server from the start of `s`:
/// the reason code, the properties and the bytes consumed. A reason code that a
/// server does not send, or a Session Expiry Interval (MQTT v5.0 §3.14.2.2.2,
/// [MQTT-3.14.2-2]), is malformed.
pub open spec fn spec_disconnect_decode(s: Seq<u8>) -> Result<(DisconnectReasonCode, Seq<(u8, PropertyValue)>, nat), DecodeError> {
    match spec_reason_code_only_decode(s, 0xE0, 0x00) {
        Err(e) => Err(e),
        Ok((rc, ps, n)) => match DisconnectReasonCode::spec_from_u8(rc) {
            None => Err(DecodeError::MalformedPacket),
            Some(c) => if !c.spec_sent_by_server() {
                Err(DecodeError::MalformedPacket)
            } else if !(spec_ids_within(ps, spec_disconnect_ids()) && !spec_has_identifier(ps, 0x11)) {
                Err(DecodeError::MalformedPacket)
            } else {
                Ok((c, ps, n))
            },
        },
    }
}

impl Disconnect {
    /// Returns the remaining length of the encoded packet.
    pub fn encoded_len(&self) -> (r: usize)
        ensures
            r == spec_reason_code_only_len(self.properties@),
    {
        reason_code_only_packet_encoded_len(&self.properties)
    }

    /// Encodes the packet, sent by a client, into `buf` and returns the number
    /// of bytes written.
    ///
    /// After an error in a property, the bytes before it have been written.
    pub fn encode(&self, buf: &mut [u8]) -> (r: Result<usize, EncodeError>)
        ensures
            final(buf)@.len() == old(buf)@.len(),
            r == match spec_disconnect_check(self.reason_code, self.properties@) {
                Err(e) => Err::<usize, EncodeError>(e),
                Ok(()) => spec_reason_code_only_result(
                    self.properties@,
                    old(buf)@.len(),
                    spec_reason_code_only_wire(0xE0, self.reason_code.spec_as_u8(), self.properties@).len(),
                ),
            },
            r is Ok ==> final(buf)@ == spec_splice(
                old(buf)@,
                0,
                spec_reason_code_only_wire(0xE0, self.reason_code.spec_as_u8(), self.properties@),
            ),
            spec_disconnect_check(self.reason_code, self.properties@) is Err || spec_fixed_header_check(
                spec_reason_code_only_len(self.properties@),
                old(buf)@.len(),
            ) is Err ==> final(buf)@ == old(buf)@,
    {
        match self.validate() {
            Err(e) => {
                return Err(e);
            },
            Ok(()) => {},
        }
        let r = encode_reason_code_only_packet(buf, 0xE0, 0x00, self.reason_code.as_u8(), &self.properties);
        proof {
            assert((0xE0u8 | 0x00u8) == 0xE0u8) by (bit_vector);
        }
        r
    }

    /// Checks what the packet must satisfy before it is written.
    fn validate(&self) -> (r: Result<(), EncodeError>)
        ensures
            r == spec_disconnect_check(self.reason_code, self.properties@),
    {
        if !self.reason_code.is_sent_by_client() {
            return Err(EncodeError::InvalidField { reason: EncodeInvalidField::InvalidReasonCode });
        }
        if self.properties.validate_for_disconnect_with_direction(PacketDirection::ClientToServer).is_err() {
            return Err(
                EncodeError::InvalidField { reason: EncodeInvalidField::PropertyValidationFailed },
            );
        }
        if self.properties.validate_duplicate_identifiers(false).is_err() {
            return Err(
                EncodeError::InvalidField { reason: EncodeInvalidField::DuplicatePropertyIdentifier },
            );
        }
        Ok(())
    }

    /// Decodes a DISCONNECT sent by a server from the start of `buf` and
    /// returns it with the number of bytes consumed.
    pub fn decode(buf: &[u8]) -> (r: Result<(Self, usize), DecodeError>)
        ensures
            match r {
                Ok((p, n)) => spec_disconnect_decode(buf@) == Ok::<(DisconnectReasonCode, Seq<(u8, PropertyValue)>, nat), DecodeError>(
                    (p.reason_code, p.properties@, n as nat),
                ),
                Err(e) => spec_disconnect_decode(buf@) == Err::<(DisconnectReasonCode, Seq<(u8, PropertyValue)>, nat), DecodeError>(e),
            },
    {
        let (reason_code, properties, consumed) = match decode_reason_code_only_packet(buf, 0xE0, 0x00) {
            Err(e) => {
                return Err(e);
            },
            Ok(x) => x,
        };
        let reason_code = match DisconnectReasonCode::from_u8(reason_code) {
            None => {
                return Err(DecodeError::MalformedPacket);
            },
            Some(c) => c,
        };
        if !reason_code.is_sent_by_server() {
            return Err(DecodeError::MalformedPacket);
        }
        match properties.validate_for_disconnect_with_direction(PacketDirection::ServerToClient) {
            Err(e) => {
                return Err(e);
            },
            Ok(()) => {},
        }
        Ok((Self { reason_code, properties }, consumed))
    }
}

/// Decoding the wire form of a DISCONNECT that a client can write, followed by
/// any bytes, gives its reason code and properties back and consumes exactly
/// the wire form, when the reason code is one that a server sends too and no
/// Session Expiry Interval is among the properties (a server may send neither
/// otherwise).
#[verifier::spinoff_prover]
pub proof fn lemma_disconnect_roundtrip(p: Disconnect, rest: Seq<u8>)
    requires
        spec_disconnect_check(p.reason_code, p.properties@) is Ok,
        p.reason_code.spec_sent_by_server(),
        !spec_has_identifier(p.properties@, 0x11),
        spec_first_property_error(p.properties@) is None,
        spec_reason_code_only_len(p.properties@) <= VBI_MAX,
    ensures
        ({
            let w = spec_reason_code_only_wire(0xE0, p.reason_code.spec_as_u8(), p.properties@);
            spec_disconnect_decode(w + rest) == Ok::<
                (DisconnectReasonCode, Seq<(u8, PropertyValue)>, nat),
                DecodeError,
            >((p.reason_code, p.properties@, w.len()))
        }),
{
    assert((0xE0u8 | 0x00u8) == 0xE0u8 && (0xE0u8 | 0x00u8) & 0xF0 == 0xE0u8 && (0xE0u8 | 0x00u8) & 0x0F == 0x00u8)
        by (bit_vector);
    lemma_reason_code_only_roundtrip(0xE0, 0x00, p.reason_code.spec_as_u8(), p.properties, rest);
    lemma_disconnect_reason_code_roundtrip(p.reason_code);
}

} // verus!
