//! Error types raised while encoding and decoding MQTT packets.

use vstd::prelude::*;

use crate::codec::text::{push_decimal, push_hex2, spec_decimal, spec_hex2};
use crate::codec::wire::spec_splice;
use vstd::string::StringExecFns;

verus! {

/// Errors that can occur while decoding an MQTT packet.
#[derive(Debug, Clone, Copy, PartialEq, Eq, Structural)]
pub enum DecodeError {
    /// Not enough bytes are available to finish decoding.
    InsufficientData,
    /// The packet does not conform to the MQTT specification.
    MalformedPacket,
    /// The packet type field holds an invalid value.
    InvalidPacketType,
    /// A packet type that is valid in itself but must never travel in the
    /// client-receive (server to client) direction.
    UnexpectedPacket {
        /// The upper four bits of the first fixed-header byte.
        packet_type: u8,
    },
    /// The flags field holds a value that is invalid for the packet type.
    InvalidPacketFlags,
    /// A UTF-8 encoded string is not valid UTF-8.
    InvalidUtf8,
    /// The packet exceeds the configured maximum size.
    PacketTooLarge {
        /// The size of the packet.
        size: usize,
        /// The configured limit.
        limit: usize,
    },
}

/// Turns `InsufficientData` into `MalformedPacket`, leaving other errors as they are.
///
/// Inside a frame whose length is already fixed by the Remaining Length, a
/// length field that points past the frame cannot be fixed by more input.
pub open spec fn spec_malformed_if_insufficient(e: DecodeError) -> DecodeError {
    match e {
        DecodeError::InsufficientData => DecodeError::MalformedPacket,
        other => other,
    }
}

/// Turns `InsufficientData` into `MalformedPacket`, leaving other errors as they are.
pub fn malformed_if_insufficient(e: DecodeError) -> (r: DecodeError)
    ensures
        r == spec_malformed_if_insufficient(e),
{
    match e {
        DecodeError::InsufficientData => DecodeError::MalformedPacket,
        other => other,
    }
}

/// The kind of violation reported by [`EncodeError::InvalidField`].
#[derive(Debug, Clone, Copy, PartialEq, Eq, Structural)]
pub enum EncodeInvalidField {
    /// The Topic Name is empty (in v5, without a Topic Alias).
    EmptyTopicName,
    /// The Topic Name contains a wildcard character (`+` or `#`).
    WildcardInTopicName,
    /// QoS is not 0 but the Packet Identifier is missing.
    MissingPacketId,
    /// QoS is 0 but a Packet Identifier is present.
    UnexpectedPacketId,
    /// The Packet Identifier is 0.
    ZeroPacketId,
    /// DUP is set on a QoS 0 message.
    DupWithQos0,
    /// A SUBSCRIBE has no subscriptions.
    EmptySubscriptions,
    /// A SUBSCRIBE or UNSUBSCRIBE has no topic filters.
    EmptyTopicFilters,
    /// A SUBACK or UNSUBACK has no reason codes.
    EmptyReasonCodes,
    /// A SUBACK has no return codes.
    EmptyReturnCodes,
    /// A Topic Filter is syntactically invalid.
    InvalidTopicFilter,
    /// No Local is set on a shared subscription.
    SharedSubscriptionNoLocal,
    /// A property is not allowed for the packet, the direction or the combination.
    PropertyValidationFailed,
    /// A property identifier occurs more than once.
    DuplicatePropertyIdentifier,
    /// A property value is out of range.
    InvalidPropertyValue,
    /// Payload Format Indicator is 1 but the payload is not UTF-8.
    InvalidPayloadUtf8,
    /// The reason code cannot be sent by a client.
    InvalidReasonCode,
    /// Session Present is set together with a non-success code.
    SessionPresentWithNonSuccess,
    /// A UTF-8 string contains U+0000.
    NullInUtf8String,
    /// A password is present without a user name (MQTT v3.1.1).
    PasswordWithoutUsername,
    /// The ClientId is empty but Clean Session is 0 (MQTT v3.1.1).
    EmptyClientIdWithoutCleanSession,
}

/// Errors that can occur while encoding an MQTT packet.
#[derive(Debug, Clone, Copy, PartialEq, Eq, Structural)]
pub enum EncodeError {
    /// The buffer is too small for the encoded packet.
    BufferTooSmall,
    /// The packet exceeds the largest allowed size.
    PacketTooLarge {
        /// The size to encode.
        size: usize,
        /// The size limit.
        limit: usize,
    },
    /// A field value is invalid in its context.
    InvalidField {
        /// Why validation failed.
        reason: EncodeInvalidField,
    },
}

/// What an `encode(&self, buf)` call returns and leaves in `buf`, given what the
/// value encodes to (`Ok` with its bytes, or the error that stops it) and the
/// buffer before the call.
///
/// An error leaves the buffer untouched; a buffer shorter than the encoding is
/// `BufferTooSmall`; otherwise the encoding is written at the start of the buffer
/// and its length returned.
pub open spec fn spec_encode_outcome(encoding: Result<Seq<u8>, EncodeError>, prev: Seq<u8>) -> (
    Result<usize, EncodeError>,
    Seq<u8>,
) {
    match encoding {
        Err(e) => (Err(e), prev),
        Ok(w) => if prev.len() < w.len() {
            (Err(EncodeError::BufferTooSmall), prev)
        } else {
            (Ok(w.len() as usize), spec_splice(prev, 0, w))
        },
    }
}

/// The text of a packet size above a limit: "packet size `size` exceeds
/// limit `limit`", the numbers in decimal.
pub open spec fn spec_too_large_text(size: usize, limit: usize) -> Seq<char> {
    "packet size "@ + spec_decimal(size as nat) + " exceeds limit "@ + spec_decimal(limit as nat)
}

/// The text of a packet type that a client does not receive: "unexpected
/// packet type 0xNN in client-receive direction", the type in two upper-case
/// hexadecimal digits.
pub open spec fn spec_unexpected_type_text(packet_type: u8) -> Seq<char> {
    "unexpected packet type 0x"@ + spec_hex2(packet_type) + " in client-receive direction"@
}

/// The text of an invalid field, from the text of its reason: "invalid field:
/// `reason`".
pub open spec fn spec_invalid_field_text(reason: Seq<char>) -> Seq<char> {
    "invalid field: "@ + reason
}

/// Writes "packet size `size` exceeds limit `limit`".
fn too_large_text(size: usize, limit: usize) -> (r: String)
    ensures
        r@ == spec_too_large_text(size, limit),
{
    let mut s = String::from_str("packet size ");
    push_decimal(&mut s, size as u64);
    s.append(" exceeds limit ");
    push_decimal(&mut s, limit as u64);
    s
}

/// Writes "unexpected packet type 0xNN in client-receive direction".
fn unexpected_type_text(packet_type: u8) -> (r: String)
    ensures
        r@ == spec_unexpected_type_text(packet_type),
{
    let mut s = String::from_str("unexpected packet type 0x");
    push_hex2(&mut s, packet_type);
    s.append(" in client-receive direction");
    s
}

/// Writes "invalid field: `reason`".
fn invalid_field_text(reason: &str) -> (r: String)
    ensures
        r@ == spec_invalid_field_text(reason@),
{
    let mut s = String::from_str("invalid field: ");
    s.append(reason);
    s
}

impl EncodeInvalidField {
    /// The text of the violation.
    pub open spec fn spec_message(self) -> Seq<char> {
        match self {
            EncodeInvalidField::EmptyTopicName => "empty topic name"@,
            EncodeInvalidField::WildcardInTopicName => "wildcard in topic name"@,
            EncodeInvalidField::MissingPacketId => "missing packet identifier"@,
            EncodeInvalidField::UnexpectedPacketId => "unexpected packet identifier"@,
            EncodeInvalidField::ZeroPacketId => "zero packet identifier"@,
            EncodeInvalidField::DupWithQos0 => "dup with qos 0"@,
            EncodeInvalidField::EmptySubscriptions => "empty subscriptions"@,
            EncodeInvalidField::EmptyTopicFilters => "empty topic filters"@,
            EncodeInvalidField::EmptyReasonCodes => "empty reason codes"@,
            EncodeInvalidField::EmptyReturnCodes => "empty return codes"@,
            EncodeInvalidField::InvalidTopicFilter => "invalid topic filter"@,
            EncodeInvalidField::SharedSubscriptionNoLocal => "shared subscription with no local"@,
            EncodeInvalidField::PropertyValidationFailed => "property validation failed"@,
            EncodeInvalidField::DuplicatePropertyIdentifier => "duplicate property identifier"@,
            EncodeInvalidField::InvalidPropertyValue => "invalid property value"@,
            EncodeInvalidField::InvalidPayloadUtf8 => "invalid payload utf-8"@,
            EncodeInvalidField::InvalidReasonCode => "invalid reason code"@,
            EncodeInvalidField::SessionPresentWithNonSuccess => "session present with non-success"@,
            EncodeInvalidField::NullInUtf8String => "null in utf-8 string"@,
            EncodeInvalidField::PasswordWithoutUsername => "password without username"@,
            EncodeInvalidField::EmptyClientIdWithoutCleanSession => "empty client id without clean session"@,
        }
    }

    /// A human-readable description of the violation.
    pub fn message(&self) -> (r: &'static str)
        ensures
            r@ == self.spec_message(),
    {
        match self {
            EncodeInvalidField::EmptyTopicName => "empty topic name",
            EncodeInvalidField::WildcardInTopicName => "wildcard in topic name",
            EncodeInvalidField::MissingPacketId => "missing packet identifier",
            EncodeInvalidField::UnexpectedPacketId => "unexpected packet identifier",
            EncodeInvalidField::ZeroPacketId => "zero packet identifier",
            EncodeInvalidField::DupWithQos0 => "dup with qos 0",
            EncodeInvalidField::EmptySubscriptions => "empty subscriptions",
            EncodeInvalidField::EmptyTopicFilters => "empty topic filters",
            EncodeInvalidField::EmptyReasonCodes => "empty reason codes",
            EncodeInvalidField::EmptyReturnCodes => "empty return codes",
            EncodeInvalidField::InvalidTopicFilter => "invalid topic filter",
            EncodeInvalidField::SharedSubscriptionNoLocal => "shared subscription with no local",
            EncodeInvalidField::PropertyValidationFailed => "property validation failed",
            EncodeInvalidField::DuplicatePropertyIdentifier => "duplicate property identifier",
            EncodeInvalidField::InvalidPropertyValue => "invalid property value",
            EncodeInvalidField::InvalidPayloadUtf8 => "invalid payload utf-8",
            EncodeInvalidField::InvalidReasonCode => "invalid reason code",
            EncodeInvalidField::SessionPresentWithNonSuccess => "session present with non-success",
            EncodeInvalidField::NullInUtf8String => "null in utf-8 string",
            EncodeInvalidField::PasswordWithoutUsername => "password without username",
            EncodeInvalidField::EmptyClientIdWithoutCleanSession => "empty client id without clean session",
        }
    }
}

impl DecodeError {
    /// A human-readable description of the error.
    pub fn message(&self) -> (r: String)
        ensures
            r@ == match *self {
                DecodeError::InsufficientData => "insufficient data to decode packet"@,
                DecodeError::MalformedPacket => "malformed packet"@,
                DecodeError::InvalidPacketType => "invalid packet type"@,
                DecodeError::UnexpectedPacket { packet_type } => spec_unexpected_type_text(packet_type),
                DecodeError::InvalidPacketFlags => "invalid packet flags"@,
                DecodeError::InvalidUtf8 => "invalid UTF-8 string"@,
                DecodeError::PacketTooLarge { size, limit } => spec_too_large_text(size, limit),
            },
    {
        match self {
            DecodeError::InsufficientData => "insufficient data to decode packet".to_owned(),
            DecodeError::MalformedPacket => "malformed packet".to_owned(),
            DecodeError::InvalidPacketType => "invalid packet type".to_owned(),
            DecodeError::UnexpectedPacket { packet_type } => unexpected_type_text(*packet_type),
            DecodeError::InvalidPacketFlags => "invalid packet flags".to_owned(),
            DecodeError::InvalidUtf8 => "invalid UTF-8 string".to_owned(),
            DecodeError::PacketTooLarge { size, limit } => too_large_text(*size, *limit),
        }
    }
}

impl EncodeError {
    /// A human-readable description of the error.
    pub fn message(&self) -> (r: String)
        ensures
            r@ == match *self {
                EncodeError::BufferTooSmall => "buffer too small for encoded packet"@,
                EncodeError::PacketTooLarge { size, limit } => spec_too_large_text(size, limit),
                EncodeError::InvalidField { reason } => spec_invalid_field_text(reason.spec_message()),
            },
    {
        match self {
            EncodeError::BufferTooSmall => "buffer too small for encoded packet".to_owned(),
            EncodeError::PacketTooLarge { size, limit } => too_large_text(*size, *limit),
            EncodeError::InvalidField { reason } => invalid_field_text(reason.message()),
        }
    }
}

} // verus!
