//! MQTT v5.0 properties (MQTT v5.0 §2.2.2).

mod list;
pub mod render;
mod validate;

pub use list::{
    spec_first_property_error, spec_has_duplicate, spec_has_identifier, spec_payload_len,
    spec_properties_body, spec_properties_decode, spec_properties_encode_result,
    spec_properties_len, spec_properties_wire, spec_property_list, PacketDirection, Properties,
    lemma_properties_len_matches, lemma_properties_roundtrip,
};
pub use validate::{
    spec_accept_if, spec_ack_ids, spec_auth_ids, spec_connack_ids, spec_connect_ids,
    spec_disconnect_ids, spec_ids_within, spec_publish_ids, spec_subscribe_ids,
    spec_unsubscribe_ids, spec_will_ids,
};

use vstd::prelude::*;
use vstd::utf8::{decode_utf8, encode_utf8, valid_utf8};

use crate::codec::binary_data::{encode_binary_at, spec_binary_decode, spec_binary_wire};
use crate::codec::utf8_string::{decode_str_at, encode_str_at, spec_str_decode, spec_str_wire, spec_utf8, str_has_null};
use crate::codec::variable_byte_integer::{
    spec_vbi_decode, spec_vbi_encode, spec_vbi_len, VariableByteInteger, VBI_MAX,
};
use crate::codec::wire::{
    bytes_contain, copy_range, read_be16_at, read_be32_at, spec_be16, spec_be32, spec_read_be16,
    spec_read_be32, spec_splice, write_be16_at, write_be32_at,
};
use crate::error::{DecodeError, EncodeError, EncodeInvalidField};

verus! {

/// The kinds of value a property carries (MQTT v5.0 §2.2.2.2).
#[derive(Debug, Clone, Copy, PartialEq, Eq, Structural)]
pub enum ValueKind {
    /// A Byte.
    Byte,
    /// A Two Byte Integer.
    Two,
    /// A Four Byte Integer.
    Four,
    /// A UTF-8 Encoded String.
    Text,
    /// Binary Data.
    Bytes,
    /// A Variable Byte Integer.
    Vbi,
    /// A UTF-8 String Pair.
    Pair,
}

/// The abstract value of a property.
pub enum PropertyValue {
    /// A Byte.
    Byte(u8),
    /// A Two Byte Integer.
    Two(u16),
    /// A Four Byte Integer.
    Four(u32),
    /// A UTF-8 Encoded String.
    Text(Seq<char>),
    /// Binary Data.
    Bytes(Seq<u8>),
    /// A Variable Byte Integer.
    Vbi(u32),
    /// A UTF-8 String Pair.
    Pair(Seq<char>, Seq<char>),
}

/// The kind of an abstract value.
pub open spec fn spec_value_kind(v: PropertyValue) -> ValueKind {
    match v {
        PropertyValue::Byte(_) => ValueKind::Byte,
        PropertyValue::Two(_) => ValueKind::Two,
        PropertyValue::Four(_) => ValueKind::Four,
        PropertyValue::Text(_) => ValueKind::Text,
        PropertyValue::Bytes(_) => ValueKind::Bytes,
        PropertyValue::Vbi(_) => ValueKind::Vbi,
        PropertyValue::Pair(_, _) => ValueKind::Pair,
    }
}

/// A decoded property value, before it becomes a [`Property`].
enum Value {
    Byte(u8),
    Two(u16),
    Four(u32),
    Text(String),
    Bytes(Vec<u8>),
    Vbi(u32),
    Pair(String, String),
}

impl View for Value {
    type V = PropertyValue;

    closed spec fn view(&self) -> PropertyValue {
        match self {
            Value::Byte(v) => PropertyValue::Byte(*v),
            Value::Two(v) => PropertyValue::Two(*v),
            Value::Four(v) => PropertyValue::Four(*v),
            Value::Text(v) => PropertyValue::Text(v@),
            Value::Bytes(v) => PropertyValue::Bytes(v@),
            Value::Vbi(v) => PropertyValue::Vbi(*v),
            Value::Pair(a, b) => PropertyValue::Pair(a@, b@),
        }
    }
}

impl Value {
    spec fn kind(&self) -> ValueKind {
        spec_value_kind(self@)
    }
}

/// One MQTT v5.0 property (MQTT v5.0 §2.2.2.2).
///
/// `{:?}` is derived and shows Authentication Data in full;
/// [`redacted_debug`](Self::redacted_debug) hides it.
#[derive(Debug, Clone, PartialEq, Eq)]
pub enum Property {
    /// 0x01: Payload Format Indicator.
    PayloadFormatIndicator(u8),
    /// 0x02: Message Expiry Interval.
    MessageExpiryInterval(u32),
    /// 0x03: Content Type.
    ContentType(String),
    /// 0x08: Response Topic.
    ResponseTopic(String),
    /// 0x09: Correlation Data.
    CorrelationData(Vec<u8>),
    /// 0x0B: Subscription Identifier.
    SubscriptionIdentifier(VariableByteInteger),
    /// 0x11: Session Expiry Interval.
    SessionExpiryInterval(u32),
    /// 0x12: Assigned Client Identifier.
    AssignedClientIdentifier(String),
    /// 0x13: Server Keep Alive.
    ServerKeepAlive(u16),
    /// 0x15: Authentication Method.
    AuthenticationMethod(String),
    /// 0x16: Authentication Data.
    AuthenticationData(Vec<u8>),
    /// 0x17: Request Problem Information.
    RequestProblemInformation(u8),
    /// 0x18: Will Delay Interval.
    WillDelayInterval(u32),
    /// 0x19: Request Response Information.
    RequestResponseInformation(u8),
    /// 0x1A: Response Information.
    ResponseInformation(String),
    /// 0x1C: Server Reference.
    ServerReference(String),
    /// 0x1F: Reason String.
    ReasonString(String),
    /// 0x21: Receive Maximum.
    ReceiveMaximum(u16),
    /// 0x22: Topic Alias Maximum.
    TopicAliasMaximum(u16),
    /// 0x23: Topic Alias.
    TopicAlias(u16),
    /// 0x24: Maximum QoS.
    MaximumQoS(u8),
    /// 0x25: Retain Available.
    RetainAvailable(u8),
    /// 0x26: User Property.
    UserProperty(String, String),
    /// 0x27: Maximum Packet Size.
    MaximumPacketSize(u32),
    /// 0x28: Wildcard Subscription Available.
    WildcardSubscriptionAvailable(u8),
    /// 0x29: Subscription Identifier Available.
    SubscriptionIdentifierAvailable(u8),
    /// 0x2A: Shared Subscription Available.
    SharedSubscriptionAvailable(u8),
}

impl View for Property {
    type V = (u8, PropertyValue);

    open spec fn view(&self) -> (u8, PropertyValue) {
        match self {
            Property::PayloadFormatIndicator(v) => (0x01, PropertyValue::Byte(*v)),
            Property::MessageExpiryInterval(v) => (0x02, PropertyValue::Four(*v)),
            Property::ContentType(v) => (0x03, PropertyValue::Text(v@)),
            Property::ResponseTopic(v) => (0x08, PropertyValue::Text(v@)),
            Property::CorrelationData(v) => (0x09, PropertyValue::Bytes(v@)),
            Property::SubscriptionIdentifier(v) => (0x0B, PropertyValue::Vbi(v.0)),
            Property::SessionExpiryInterval(v) => (0x11, PropertyValue::Four(*v)),
            Property::AssignedClientIdentifier(v) => (0x12, PropertyValue::Text(v@)),
            Property::ServerKeepAlive(v) => (0x13, PropertyValue::Two(*v)),
            Property::AuthenticationMethod(v) => (0x15, PropertyValue::Text(v@)),
            Property::AuthenticationData(v) => (0x16, PropertyValue::Bytes(v@)),
            Property::RequestProblemInformation(v) => (0x17, PropertyValue::Byte(*v)),
            Property::WillDelayInterval(v) => (0x18, PropertyValue::Four(*v)),
            Property::RequestResponseInformation(v) => (0x19, PropertyValue::Byte(*v)),
            Property::ResponseInformation(v) => (0x1A, PropertyValue::Text(v@)),
            Property::ServerReference(v) => (0x1C, PropertyValue::Text(v@)),
            Property::ReasonString(v) => (0x1F, PropertyValue::Text(v@)),
            Property::ReceiveMaximum(v) => (0x21, PropertyValue::Two(*v)),
            Property::TopicAliasMaximum(v) => (0x22, PropertyValue::Two(*v)),
            Property::TopicAlias(v) => (0x23, PropertyValue::Two(*v)),
            Property::MaximumQoS(v) => (0x24, PropertyValue::Byte(*v)),
            Property::RetainAvailable(v) => (0x25, PropertyValue::Byte(*v)),
            Property::UserProperty(a, b) => (0x26, PropertyValue::Pair(a@, b@)),
            Property::MaximumPacketSize(v) => (0x27, PropertyValue::Four(*v)),
            Property::WildcardSubscriptionAvailable(v) => (0x28, PropertyValue::Byte(*v)),
            Property::SubscriptionIdentifierAvailable(v) => (0x29, PropertyValue::Byte(*v)),
            Property::SharedSubscriptionAvailable(v) => (0x2A, PropertyValue::Byte(*v)),
        }
    }
}

/// The kind of value that the property with identifier `id` carries, or `None`
/// for an identifier that names no property.
pub open spec fn spec_kind(id: u8) -> Option<ValueKind> {
    if id == 0x01 {
        Some(ValueKind::Byte)
    } else if id == 0x02 {
        Some(ValueKind::Four)
    } else if id == 0x03 {
        Some(ValueKind::Text)
    } else if id == 0x08 {
        Some(ValueKind::Text)
    } else if id == 0x09 {
        Some(ValueKind::Bytes)
    } else if id == 0x0B {
        Some(ValueKind::Vbi)
    } else if id == 0x11 {
        Some(ValueKind::Four)
    } else if id == 0x12 {
        Some(ValueKind::Text)
    } else if id == 0x13 {
        Some(ValueKind::Two)
    } else if id == 0x15 {
        Some(ValueKind::Text)
    } else if id == 0x16 {
        Some(ValueKind::Bytes)
    } else if id == 0x17 {
        Some(ValueKind::Byte)
    } else if id == 0x18 {
        Some(ValueKind::Four)
    } else if id == 0x19 {
        Some(ValueKind::Byte)
    } else if id == 0x1A {
        Some(ValueKind::Text)
    } else if id == 0x1C {
        Some(ValueKind::Text)
    } else if id == 0x1F {
        Some(ValueKind::Text)
    } else if id == 0x21 {
        Some(ValueKind::Two)
    } else if id == 0x22 {
        Some(ValueKind::Two)
    } else if id == 0x23 {
        Some(ValueKind::Two)
    } else if id == 0x24 {
        Some(ValueKind::Byte)
    } else if id == 0x25 {
        Some(ValueKind::Byte)
    } else if id == 0x26 {
        Some(ValueKind::Pair)
    } else if id == 0x27 {
        Some(ValueKind::Four)
    } else if id == 0x28 {
        Some(ValueKind::Byte)
    } else if id == 0x29 {
        Some(ValueKind::Byte)
    } else if id == 0x2A {
        Some(ValueKind::Byte)
    } else {
        None
    }
}


/// The value check of a property: the Byte flags (and Maximum QoS) must be 0 or
/// 1, Receive Maximum, Topic Alias, Maximum Packet Size and Subscription
/// Identifier must not be 0, and a Response Topic must be a non-empty Topic Name
/// without wildcards (MQTT v5.0 §3.1.2.11, §3.2.2.3, §3.3.2.3).
pub open spec fn spec_value_check(id: u8, v: PropertyValue) -> Result<(), EncodeError> {
    let invalid = EncodeError::InvalidField { reason: EncodeInvalidField::InvalidPropertyValue };
    match v {
        PropertyValue::Byte(b) => if b > 1 {
            Err(invalid)
        } else {
            Ok(())
        },
        PropertyValue::Two(x) => if (id == 0x21 || id == 0x23) && x == 0 {
            Err(invalid)
        } else {
            Ok(())
        },
        PropertyValue::Four(x) => if id == 0x27 && x == 0 {
            Err(invalid)
        } else {
            Ok(())
        },
        PropertyValue::Vbi(x) => if x == 0 {
            Err(invalid)
        } else {
            Ok(())
        },
        PropertyValue::Text(t) => if id != 0x08 {
            Ok(())
        } else if t.len() == 0 {
            Err(EncodeError::InvalidField { reason: EncodeInvalidField::EmptyTopicName })
        } else if spec_utf8(t).contains(43u8) || spec_utf8(t).contains(35u8) {
            Err(EncodeError::InvalidField { reason: EncodeInvalidField::WildcardInTopicName })
        } else {
            Ok(())
        },
        _ => Ok(()),
    }
}

/// The wire form of a property value.
pub open spec fn spec_value_wire(v: PropertyValue) -> Seq<u8> {
    match v {
        PropertyValue::Byte(b) => seq![b],
        PropertyValue::Two(x) => spec_be16(x),
        PropertyValue::Four(x) => spec_be32(x),
        PropertyValue::Text(t) => spec_str_wire(t),
        PropertyValue::Bytes(d) => spec_binary_wire(d),
        PropertyValue::Vbi(x) => spec_vbi_encode(x as nat),
        PropertyValue::Pair(a, b) => spec_str_wire(a) + spec_str_wire(b),
    }
}

/// The wire form of a property: its identifier byte, then its value.
pub open spec fn spec_property_wire(p: (u8, PropertyValue)) -> Seq<u8> {
    seq![p.0] + spec_value_wire(p.1)
}

/// The error, if any, of writing a string as an MQTT UTF-8 Encoded String.
pub open spec fn spec_text_error(t: Seq<char>) -> Option<EncodeError> {
    if spec_utf8(t).contains(0u8) {
        Some(EncodeError::InvalidField { reason: EncodeInvalidField::NullInUtf8String })
    } else if spec_utf8(t).len() > 65535 {
        Some(EncodeError::PacketTooLarge { size: spec_utf8(t).len() as usize, limit: 65535 })
    } else {
        None
    }
}

/// The error, if any, of writing a value's content: a string with U+0000 or
/// longer than 65535 bytes, binary data longer than 65535 bytes, or a Variable
/// Byte Integer above its maximum.
pub open spec fn spec_content_error(v: PropertyValue) -> Option<EncodeError> {
    match v {
        PropertyValue::Text(t) => spec_text_error(t),
        PropertyValue::Bytes(d) => if d.len() > 65535 {
            Some(EncodeError::PacketTooLarge { size: d.len() as usize, limit: 65535 })
        } else {
            None
        },
        PropertyValue::Vbi(x) => if x > VBI_MAX {
            Some(EncodeError::PacketTooLarge { size: x as usize, limit: VBI_MAX as usize })
        } else {
            None
        },
        PropertyValue::Pair(a, b) => match spec_text_error(a) {
            Some(e) => Some(e),
            None => spec_text_error(b),
        },
        _ => None,
    }
}

/// Whether a property can be written: its value passes the value check and its
/// content fits.
pub open spec fn spec_property_encodable(p: (u8, PropertyValue)) -> bool {
    spec_value_check(p.0, p.1) is Ok && spec_content_error(p.1) is None
}

/// The length of a property's value as [`Property::encoded_len`] counts it
/// (with saturating additions).
pub open spec fn spec_value_len(v: PropertyValue) -> usize {
    match v {
        PropertyValue::Byte(_) => 1,
        PropertyValue::Two(_) => 2,
        PropertyValue::Four(_) => 4,
        PropertyValue::Text(t) => (2usize).saturating_add(spec_utf8(t).len() as usize),
        PropertyValue::Bytes(d) => (2usize).saturating_add(d.len() as usize),
        PropertyValue::Vbi(x) => spec_vbi_len(x as nat) as usize,
        PropertyValue::Pair(a, b) => (2usize).saturating_add(spec_utf8(a).len() as usize).saturating_add(
            2,
        ).saturating_add(spec_utf8(b).len() as usize),
    }
}

/// The encoded length of a property, identifier included.
pub open spec fn spec_property_len(p: (u8, PropertyValue)) -> usize {
    (1usize).saturating_add(spec_value_len(p.1))
}

/// What [`Property::encode`] returns and leaves in the buffer: a failed value
/// check, then a buffer shorter than the encoded length, then a content error;
/// otherwise the property's wire form at the start of the buffer. Of a User
/// Property whose value fails after its key was written, the key stays written
/// after the identifier's place.
pub open spec fn spec_property_encode_outcome(p: (u8, PropertyValue), prev: Seq<u8>) -> (
    Result<usize, EncodeError>,
    Seq<u8>,
) {
    match spec_value_check(p.0, p.1) {
        Err(e) => (Err(e), prev),
        Ok(()) => if prev.len() < spec_property_len(p) {
            (Err(EncodeError::BufferTooSmall), prev)
        } else {
            match spec_content_error(p.1) {
                Some(e) => match p.1 {
                    PropertyValue::Pair(a, b) => if spec_text_error(a) is None {
                        (Err(e), spec_splice(prev, 1, spec_str_wire(a)))
                    } else {
                        (Err(e), prev)
                    },
                    _ => (Err(e), prev),
                },
                None => (
                    Ok(spec_property_wire(p).len() as usize),
                    spec_splice(prev, 0, spec_property_wire(p)),
                ),
            }
        },
    }
}

/// The result of decoding a value of `kind` from the start of `s`.
pub open spec fn spec_decode_value(kind: ValueKind, s: Seq<u8>) -> Result<
    (PropertyValue, nat),
    DecodeError,
> {
    match kind {
        ValueKind::Byte => if s.len() < 1 {
            Err(DecodeError::InsufficientData)
        } else {
            Ok((PropertyValue::Byte(s[0]), 1))
        },
        ValueKind::Two => if s.len() < 2 {
            Err(DecodeError::InsufficientData)
        } else {
            Ok((PropertyValue::Two(spec_read_be16(s, 0)), 2))
        },
        ValueKind::Four => if s.len() < 4 {
            Err(DecodeError::InsufficientData)
        } else {
            Ok((PropertyValue::Four(spec_read_be32(s, 0)), 4))
        },
        ValueKind::Text => match spec_str_decode(s) {
            Err(e) => Err(e),
            Ok((t, n)) => Ok((PropertyValue::Text(t), n)),
        },
        ValueKind::Bytes => match spec_binary_decode(s) {
            Err(e) => Err(e),
            Ok((d, n)) => Ok((PropertyValue::Bytes(d), n)),
        },
        ValueKind::Vbi => match spec_vbi_decode(s) {
            Err(e) => Err(e),
            Ok((x, n)) => Ok((PropertyValue::Vbi(x), n)),
        },
        ValueKind::Pair => match spec_str_decode(s) {
            Err(e) => Err(e),
            Ok((a, n1)) => match spec_str_decode(s.skip(n1 as int)) {
                Err(e) => Err(e),
                Ok((b, n2)) => Ok((PropertyValue::Pair(a, b), n1 + n2)),
            },
        },
    }
}

/// The result of decoding the value of the property with identifier `id` from
/// the start of `s`: an unknown identifier, or a value that fails the value
/// check, is malformed.
pub open spec fn spec_property_value_decode(id: u8, s: Seq<u8>) -> Result<
    ((u8, PropertyValue), nat),
    DecodeError,
> {
    match spec_kind(id) {
        None => Err(DecodeError::MalformedPacket),
        Some(k) => match spec_decode_value(k, s) {
            Err(e) => Err(e),
            Ok((v, n)) => if spec_value_check(id, v) is Err {
                Err(DecodeError::MalformedPacket)
            } else {
                Ok(((id, v), n))
            },
        },
    }
}

/// The result of decoding a property from the start of `s`: the identifier as a
/// Variable Byte Integer (above 0x2A is malformed), then its value. Returns the
/// property and the number of bytes consumed.
pub open spec fn spec_property_decode(s: Seq<u8>) -> Result<((u8, PropertyValue), nat), DecodeError> {
    match spec_vbi_decode(s) {
        Err(e) => Err(e),
        Ok((id, n)) => if id > 0x2A {
            Err(DecodeError::MalformedPacket)
        } else {
            match spec_property_value_decode(id as u8, s.skip(n as int)) {
                Err(e) => Err(e),
                Ok((p, m)) => Ok((p, n + m)),
            }
        },
    }
}

/// Returns the kind of value of the property with identifier `id`.
fn kind_of(id: u8) -> (r: Option<ValueKind>)
    ensures
        r == spec_kind(id),
{
    match id {
        0x01 => Some(ValueKind::Byte),
        0x02 => Some(ValueKind::Four),
        0x03 => Some(ValueKind::Text),
        0x08 => Some(ValueKind::Text),
        0x09 => Some(ValueKind::Bytes),
        0x0B => Some(ValueKind::Vbi),
        0x11 => Some(ValueKind::Four),
        0x12 => Some(ValueKind::Text),
        0x13 => Some(ValueKind::Two),
        0x15 => Some(ValueKind::Text),
        0x16 => Some(ValueKind::Bytes),
        0x17 => Some(ValueKind::Byte),
        0x18 => Some(ValueKind::Four),
        0x19 => Some(ValueKind::Byte),
        0x1A => Some(ValueKind::Text),
        0x1C => Some(ValueKind::Text),
        0x1F => Some(ValueKind::Text),
        0x21 => Some(ValueKind::Two),
        0x22 => Some(ValueKind::Two),
        0x23 => Some(ValueKind::Two),
        0x24 => Some(ValueKind::Byte),
        0x25 => Some(ValueKind::Byte),
        0x26 => Some(ValueKind::Pair),
        0x27 => Some(ValueKind::Four),
        0x28 => Some(ValueKind::Byte),
        0x29 => Some(ValueKind::Byte),
        0x2A => Some(ValueKind::Byte),
        _ => None,
    }
}

/// Builds the property with identifier `id` and value `value`.
fn from_parts(id: u8, value: Value) -> (r: Property)
    requires
        spec_kind(id) == Some(value.kind()),
    ensures
        r@ == (id, value@),
{
    match value {
        Value::Byte(v) => match id {
            0x01 => Property::PayloadFormatIndicator(v),
            0x17 => Property::RequestProblemInformation(v),
            0x19 => Property::RequestResponseInformation(v),
            0x24 => Property::MaximumQoS(v),
            0x25 => Property::RetainAvailable(v),
            0x28 => Property::WildcardSubscriptionAvailable(v),
            0x29 => Property::SubscriptionIdentifierAvailable(v),
            _ => Property::SharedSubscriptionAvailable(v),
        },
        Value::Two(v) => match id {
            0x13 => Property::ServerKeepAlive(v),
            0x21 => Property::ReceiveMaximum(v),
            0x22 => Property::TopicAliasMaximum(v),
            _ => Property::TopicAlias(v),
        },
        Value::Four(v) => match id {
            0x02 => Property::MessageExpiryInterval(v),
            0x11 => Property::SessionExpiryInterval(v),
            0x18 => Property::WillDelayInterval(v),
            _ => Property::MaximumPacketSize(v),
        },
        Value::Text(v) => match id {
            0x03 => Property::ContentType(v),
            0x08 => Property::ResponseTopic(v),
            0x12 => Property::AssignedClientIdentifier(v),
            0x15 => Property::AuthenticationMethod(v),
            0x1A => Property::ResponseInformation(v),
            0x1C => Property::ServerReference(v),
            _ => Property::ReasonString(v),
        },
        Value::Bytes(v) => match id {
            0x09 => Property::CorrelationData(v),
            _ => Property::AuthenticationData(v),
        },
        Value::Vbi(v) => Property::SubscriptionIdentifier(VariableByteInteger(v)),
        Value::Pair(a, b) => Property::UserProperty(a, b),
    }
}

/// Writes `value` as an MQTT UTF-8 Encoded String at `pos`, after checking it.
pub(crate) fn encode_string(value: &str, buf: &mut [u8], pos: usize) -> (r: Result<usize, EncodeError>)
    requires
        pos <= old(buf)@.len(),
        spec_text_error(value@) is None ==> pos + 2 + spec_utf8(value@).len() <= old(buf)@.len(),
    ensures
        spec_text_error(value@) matches Some(e) ==> r == Err::<usize, EncodeError>(e) && final(buf)@ == old(buf)@,
        spec_text_error(value@) is None ==> r == Ok::<usize, EncodeError>(
            (2 + spec_utf8(value@).len()) as usize,
        ) && final(buf)@ == spec_splice(old(buf)@, pos as int, spec_str_wire(value@)),
        final(buf)@.len() == old(buf)@.len(),
{
    if str_has_null(value) {
        return Err(EncodeError::InvalidField { reason: EncodeInvalidField::NullInUtf8String });
    }
    let len = value.as_bytes().len();
    if len > 65535 {
        return Err(EncodeError::PacketTooLarge { size: len, limit: 65535 });
    }
    let n = encode_str_at(value, buf, pos);
    proof {
        crate::codec::wire::lemma_splice_len(old(buf)@, pos as int, spec_str_wire(value@));
    }
    Ok(n)
}

/// Decodes a Byte at `pos`.
fn decode_u8(buf: &[u8], pos: usize) -> (r: Result<(u8, usize), DecodeError>)
    requires
        pos <= buf@.len(),
    ensures
        match spec_decode_value(ValueKind::Byte, buf@.skip(pos as int)) {
            Ok((PropertyValue::Byte(v), n)) => r == Ok::<(u8, usize), DecodeError>((v, n as usize)),
            Err(e) => r == Err::<(u8, usize), DecodeError>(e),
            _ => false,
        },
{
    if buf.len() - pos < 1 {
        return Err(DecodeError::InsufficientData);
    }
    Ok((buf[pos], 1))
}

/// Decodes a Two Byte Integer at `pos`.
fn decode_u16(buf: &[u8], pos: usize) -> (r: Result<(u16, usize), DecodeError>)
    requires
        pos <= buf@.len(),
    ensures
        match spec_decode_value(ValueKind::Two, buf@.skip(pos as int)) {
            Ok((PropertyValue::Two(v), n)) => r == Ok::<(u16, usize), DecodeError>((v, n as usize)),
            Err(e) => r == Err::<(u16, usize), DecodeError>(e),
            _ => false,
        },
{
    if buf.len() - pos < 2 {
        return Err(DecodeError::InsufficientData);
    }
    Ok((read_be16_at(buf, pos), 2))
}

/// Decodes a Four Byte Integer at `pos`.
fn decode_u32(buf: &[u8], pos: usize) -> (r: Result<(u32, usize), DecodeError>)
    requires
        pos <= buf@.len(),
    ensures
        match spec_decode_value(ValueKind::Four, buf@.skip(pos as int)) {
            Ok((PropertyValue::Four(v), n)) => r == Ok::<(u32, usize), DecodeError>((v, n as usize)),
            Err(e) => r == Err::<(u32, usize), DecodeError>(e),
            _ => false,
        },
{
    if buf.len() - pos < 4 {
        return Err(DecodeError::InsufficientData);
    }
    Ok((read_be32_at(buf, pos), 4))
}

/// Decodes a value of `kind` at `pos`.
fn decode_value_of_kind(kind: ValueKind, buf: &[u8], pos: usize) -> (r: Result<(Value, usize), DecodeError>)
    requires
        pos <= buf@.len(),
    ensures
        match r {
            Ok((v, n)) => spec_decode_value(kind, buf@.skip(pos as int)) == Ok::<(PropertyValue, nat), DecodeError>((v@, n as nat)),
            Err(e) => spec_decode_value(kind, buf@.skip(pos as int)) == Err::<(PropertyValue, nat), DecodeError>(e),
        },
{
    let ghost s = buf@.skip(pos as int);
    assert(buf@.subrange(pos as int, buf@.len() as int) =~= s);
    match kind {
        ValueKind::Byte => match decode_u8(buf, pos) {
            Ok((v, n)) => Ok((Value::Byte(v), n)),
            Err(e) => Err(e),
        },
        ValueKind::Two => match decode_u16(buf, pos) {
            Ok((v, n)) => Ok((Value::Two(v), n)),
            Err(e) => Err(e),
        },
        ValueKind::Four => match decode_u32(buf, pos) {
            Ok((v, n)) => Ok((Value::Four(v), n)),
            Err(e) => Err(e),
        },
        ValueKind::Text => match decode_str_at(buf, pos, buf.len()) {
            Ok((v, n)) => Ok((Value::Text(v), n)),
            Err(e) => Err(e),
        },
        ValueKind::Bytes => {
            let r = crate::codec::binary_data::BinaryData::decode(&buf[pos..buf.len()]);
            match r {
                Ok((d, n)) => Ok((Value::Bytes(d.0), n)),
                Err(e) => Err(e),
            }
        },
        ValueKind::Vbi => {
            let r = VariableByteInteger::decode(&buf[pos..buf.len()]);
            match r {
                Ok((v, n)) => Ok((Value::Vbi(v.0), n)),
                Err(e) => Err(e),
            }
        },
        ValueKind::Pair => match decode_str_at(buf, pos, buf.len()) {
            Err(e) => Err(e),
            Ok((a, n1)) => {
                proof {
                    crate::codec::utf8_string::lemma_str_decode_len(s);
                }
                assert(buf@.subrange((pos + n1) as int, buf@.len() as int) =~= s.skip(n1 as int));
                match decode_str_at(buf, pos + n1, buf.len()) {
                    Err(e) => Err(e),
                    Ok((b, n2)) => Ok((Value::Pair(a, b), n1 + n2)),
                }
            },
        },
    }
}

impl Property {
    /// Returns the property's identifier.
    pub fn identifier(&self) -> (r: u8)
        ensures
            r == self@.0,
    {
        match self {
            Property::PayloadFormatIndicator(_) => 0x01,
            Property::MessageExpiryInterval(_) => 0x02,
            Property::ContentType(_) => 0x03,
            Property::ResponseTopic(_) => 0x08,
            Property::CorrelationData(_) => 0x09,
            Property::SubscriptionIdentifier(_) => 0x0B,
            Property::SessionExpiryInterval(_) => 0x11,
            Property::AssignedClientIdentifier(_) => 0x12,
            Property::ServerKeepAlive(_) => 0x13,
            Property::AuthenticationMethod(_) => 0x15,
            Property::AuthenticationData(_) => 0x16,
            Property::RequestProblemInformation(_) => 0x17,
            Property::WillDelayInterval(_) => 0x18,
            Property::RequestResponseInformation(_) => 0x19,
            Property::ResponseInformation(_) => 0x1A,
            Property::ServerReference(_) => 0x1C,
            Property::ReasonString(_) => 0x1F,
            Property::ReceiveMaximum(_) => 0x21,
            Property::TopicAliasMaximum(_) => 0x22,
            Property::TopicAlias(_) => 0x23,
            Property::MaximumQoS(_) => 0x24,
            Property::RetainAvailable(_) => 0x25,
            Property::UserProperty(_, _) => 0x26,
            Property::MaximumPacketSize(_) => 0x27,
            Property::WildcardSubscriptionAvailable(_) => 0x28,
            Property::SubscriptionIdentifierAvailable(_) => 0x29,
            Property::SharedSubscriptionAvailable(_) => 0x2A,
        }
    }

    /// Returns the encoded length of the property, identifier included.
    pub fn encoded_len(&self) -> (r: usize)
        ensures
            r == spec_property_len(self@),
    {
        let value_len: usize = match self {
            Property::PayloadFormatIndicator(v) | Property::RequestProblemInformation(v) | Property::RequestResponseInformation(v) | Property::MaximumQoS(v) | Property::RetainAvailable(v) | Property::WildcardSubscriptionAvailable(v) | Property::SubscriptionIdentifierAvailable(v) | Property::SharedSubscriptionAvailable(v) => 1,
            Property::ServerKeepAlive(v) | Property::ReceiveMaximum(v) | Property::TopicAliasMaximum(v) | Property::TopicAlias(v) => 2,
            Property::MessageExpiryInterval(v) | Property::SessionExpiryInterval(v) | Property::WillDelayInterval(v) | Property::MaximumPacketSize(v) => 4,
            Property::ContentType(v) | Property::ResponseTopic(v) | Property::AssignedClientIdentifier(v) | Property::AuthenticationMethod(v) | Property::ResponseInformation(v) | Property::ServerReference(v) | Property::ReasonString(v) => 2usize.saturating_add(v.as_str().as_bytes().len()),
            Property::CorrelationData(v) | Property::AuthenticationData(v) => 2usize.saturating_add(v.len()),
            Property::SubscriptionIdentifier(v) => v.encoded_len(),
            Property::UserProperty(k, v) => 2usize.saturating_add(k.as_str().as_bytes().len()).saturating_add(
                2,
            ).saturating_add(v.as_str().as_bytes().len()),
        };
        1usize.saturating_add(value_len)
    }

    /// Checks that the property's value lies in the range and has the content
    /// that the specification prescribes.
    pub fn validate_value(&self) -> (r: Result<(), EncodeError>)
        ensures
            r == spec_value_check(self@.0, self@.1),
    {
        let invalid = EncodeError::InvalidField { reason: EncodeInvalidField::InvalidPropertyValue };
        match self {
            Property::PayloadFormatIndicator(v) | Property::RequestProblemInformation(v) | Property::RequestResponseInformation(v) | Property::MaximumQoS(v) | Property::RetainAvailable(v) | Property::WildcardSubscriptionAvailable(v) | Property::SubscriptionIdentifierAvailable(v) | Property::SharedSubscriptionAvailable(v) => {
                if *v > 1 {
                    return Err(invalid);
                }
            },
            Property::ReceiveMaximum(v) | Property::TopicAlias(v) => {
                if *v == 0 {
                    return Err(invalid);
                }
            },
            Property::MaximumPacketSize(v) => {
                if *v == 0 {
                    return Err(invalid);
                }
            },
            Property::SubscriptionIdentifier(v) => {
                if v.0 == 0 {
                    return Err(invalid);
                }
            },
            Property::ResponseTopic(topic) => {
                if topic.as_str().is_empty() {
                    return Err(EncodeError::InvalidField { reason: EncodeInvalidField::EmptyTopicName });
                }
                let b = topic.as_str().as_bytes();
                if bytes_contain(b, 43) || bytes_contain(b, 35) {
                    return Err(EncodeError::InvalidField { reason: EncodeInvalidField::WildcardInTopicName });
                }
            },
            _ => {},
        }
        Ok(())
    }

    /// Encodes the property into `buf` and returns the number of bytes written.
    pub fn encode(&self, buf: &mut [u8]) -> (r: Result<usize, EncodeError>)
        ensures
            (r, final(buf)@) == spec_property_encode_outcome(self@, old(buf)@),
    {
        match self.validate_value() {
            Err(e) => {
                return Err(e);
            },
            Ok(()) => {},
        }
        if buf.len() < self.encoded_len() {
            return Err(EncodeError::BufferTooSmall);
        }
        self.write_checked_at(buf, 0)
    }

    /// Writes the property at `pos`, where it fits.
    pub fn write_at(&self, buf: &mut [u8], pos: usize) -> (r: Result<usize, EncodeError>)
        requires
            pos + spec_property_len(self@) <= old(buf)@.len(),
        ensures
            final(buf)@.len() == old(buf)@.len(),
            r == match spec_value_check(self@.0, self@.1) {
                Err(e) => Err::<usize, EncodeError>(e),
                Ok(()) => match spec_content_error(self@.1) {
                    Some(e) => Err(e),
                    None => Ok(spec_property_wire(self@).len() as usize),
                },
            },
            r is Ok ==> final(buf)@ == spec_splice(old(buf)@, pos as int, spec_property_wire(self@)),
    {
        match self.validate_value() {
            Err(e) => {
                return Err(e);
            },
            Ok(()) => {},
        }
        self.write_checked_at(buf, pos)
    }

    /// Writes the property, whose value passed its check, at `pos`.
    fn write_checked_at(&self, buf: &mut [u8], pos: usize) -> (r: Result<usize, EncodeError>)
        requires
            spec_value_check(self@.0, self@.1) is Ok,
            pos + spec_property_len(self@) <= old(buf)@.len(),
        ensures
            final(buf)@.len() == old(buf)@.len(),
            match spec_content_error(self@.1) {
                Some(e) => r == Err::<usize, EncodeError>(e) && final(buf)@ == match self@.1 {
                    PropertyValue::Pair(a, b) => if spec_text_error(a) is None {
                        spec_splice(old(buf)@, pos + 1, spec_str_wire(a))
                    } else {
                        old(buf)@
                    },
                    _ => old(buf)@,
                },
                None => r == Ok::<usize, EncodeError>(spec_property_wire(self@).len() as usize)
                    && final(buf)@ == spec_splice(old(buf)@, pos as int, spec_property_wire(self@)),
            },
    {
        let buf_len = buf.len();
        assert(pos + 1 <= buf_len);
        let written = match self.encode_value(buf, pos + 1) {
            Err(e) => {
                return Err(e);
            },
            Ok(n) => n,
        };
        buf[pos] = self.identifier();
        proof {
            assert(buf@ =~= spec_splice(old(buf)@, pos as int, spec_property_wire(self@)));
        }
        Ok(1 + written)
    }

    /// Writes the property's value at `pos`.
    #[verifier::rlimit(40)]
    fn encode_value(&self, buf: &mut [u8], pos: usize) -> (r: Result<usize, EncodeError>)
        requires
            spec_value_check(self@.0, self@.1) is Ok,
            1 <= pos,
            pos - 1 + spec_property_len(self@) <= old(buf)@.len(),
        ensures
            final(buf)@.len() == old(buf)@.len(),
            match spec_content_error(self@.1) {
                Some(e) => r == Err::<usize, EncodeError>(e) && final(buf)@ == match self@.1 {
                    PropertyValue::Pair(a, b) => if spec_text_error(a) is None {
                        spec_splice(old(buf)@, pos as int, spec_str_wire(a))
                    } else {
                        old(buf)@
                    },
                    _ => old(buf)@,
                },
                None => r == Ok::<usize, EncodeError>(spec_value_wire(self@.1).len() as usize)
                    && final(buf)@ == spec_splice(old(buf)@, pos as int, spec_value_wire(self@.1)),
            },
    {
        match self {
            Property::PayloadFormatIndicator(v) | Property::RequestProblemInformation(v) | Property::RequestResponseInformation(v) | Property::MaximumQoS(v) | Property::RetainAvailable(v) | Property::WildcardSubscriptionAvailable(v) | Property::SubscriptionIdentifierAvailable(v) | Property::SharedSubscriptionAvailable(v) => {
                buf[pos] = *v;
                assert(buf@ =~= spec_splice(old(buf)@, pos as int, seq![*v]));
                Ok(1)
            },
            Property::ServerKeepAlive(v) | Property::ReceiveMaximum(v) | Property::TopicAliasMaximum(v) | Property::TopicAlias(v) => {
                write_be16_at(buf, pos, *v);
                Ok(2)
            },
            Property::MessageExpiryInterval(v) | Property::SessionExpiryInterval(v) | Property::WillDelayInterval(v) | Property::MaximumPacketSize(v) => {
                write_be32_at(buf, pos, *v);
                Ok(4)
            },
            Property::ContentType(v) | Property::ResponseTopic(v) | Property::AssignedClientIdentifier(v) | Property::AuthenticationMethod(v) | Property::ResponseInformation(v) | Property::ServerReference(v) | Property::ReasonString(v) => encode_string(v.as_str(), buf, pos),
            Property::CorrelationData(v) | Property::AuthenticationData(v) => {
                if v.len() > 65535 {
                    return Err(EncodeError::PacketTooLarge { size: v.len(), limit: 65535 });
                }
                Ok(encode_binary_at(v.as_slice(), buf, pos))
            },
            Property::SubscriptionIdentifier(v) => {
                if v.0 > VBI_MAX {
                    return Err(EncodeError::PacketTooLarge { size: v.0 as usize, limit: VBI_MAX as usize });
                }
                proof {
                    crate::codec::variable_byte_integer::lemma_vbi_encode_len(v.0 as nat);
                }
                Ok(crate::codec::variable_byte_integer::write_vbi_at(buf, pos, v.0))
            },
            Property::UserProperty(k, v) => {
                let n1 = match encode_string(k.as_str(), buf, pos) {
                    Err(e) => {
                        return Err(e);
                    },
                    Ok(n) => n,
                };
                let buf_len = buf.len();
                assert(pos + n1 <= buf_len);
                match encode_string(v.as_str(), buf, pos + n1) {
                    Err(e) => Err(e),
                    Ok(n2) => {
                        proof {
                            crate::codec::wire::lemma_splice_append(
                                old(buf)@,
                                pos as int,
                                spec_str_wire(k@),
                                spec_str_wire(v@),
                            );
                        }
                        Ok(n1 + n2)
                    },
                }
            },
        }
    }

    /// Decodes a property from the start of `buf`: the identifier as a Variable
    /// Byte Integer, then the value. Returns the property and the number of bytes
    /// consumed.
    pub fn decode(buf: &[u8]) -> (r: Result<(Self, usize), DecodeError>)
        ensures
            match r {
                Ok((p, n)) => spec_property_decode(buf@) == Ok::<((u8, PropertyValue), nat), DecodeError>((p@, n as nat)),
                Err(e) => spec_property_decode(buf@) == Err::<((u8, PropertyValue), nat), DecodeError>(e),
            },
    {
        let (identifier, id_len) = match VariableByteInteger::decode(buf) {
            Err(e) => {
                return Err(e);
            },
            Ok(x) => x,
        };
        if identifier.0 > 0x2A {
            return Err(DecodeError::MalformedPacket);
        }
        proof {
            crate::codec::variable_byte_integer::lemma_vbi_decode_canonical(buf@);
        }
        match Self::decode_value(identifier.0 as u8, buf, id_len) {
            Err(e) => Err(e),
            Ok((p, n)) => Ok((p, id_len + n)),
        }
    }

    /// Decodes the value of the property with identifier `identifier` at `pos`,
    /// and checks it.
    fn decode_value(identifier: u8, buf: &[u8], pos: usize) -> (r: Result<(Self, usize), DecodeError>)
        requires
            pos <= buf@.len(),
        ensures
            match r {
                Ok((p, n)) => spec_property_value_decode(identifier, buf@.skip(pos as int)) == Ok::<((u8, PropertyValue), nat), DecodeError>((p@, n as nat)) && n <= buf@.len() - pos,
                Err(e) => spec_property_value_decode(identifier, buf@.skip(pos as int)) == Err::<((u8, PropertyValue), nat), DecodeError>(e),
            },
    {
        let kind = match kind_of(identifier) {
            None => {
                return Err(DecodeError::MalformedPacket);
            },
            Some(k) => k,
        };
        let (value, consumed) = match decode_value_of_kind(kind, buf, pos) {
            Err(e) => {
                return Err(e);
            },
            Ok(x) => x,
        };
        proof {
            lemma_decode_value_len(kind, buf@.skip(pos as int));
        }
        let property = from_parts(identifier, value);
        match property.validate_value() {
            Err(_) => Err(DecodeError::MalformedPacket),
            Ok(()) => Ok((property, consumed)),
        }
    }
}

/// For a property whose value passes its check and whose content fits, the
/// encoded length is the length of its wire form.
pub proof fn lemma_property_len_matches(p: (u8, PropertyValue))
    requires
        spec_content_error(p.1) is None,
    ensures
        spec_property_len(p) == spec_property_wire(p).len(),
{
    match p.1 {
        PropertyValue::Vbi(x) => {
            crate::codec::variable_byte_integer::lemma_vbi_encode_len(x as nat);
        },
        _ => {},
    }
}

/// A decoded value never extends past its input, and takes at least a byte.
pub proof fn lemma_decode_value_len(kind: ValueKind, s: Seq<u8>)
    ensures
        spec_decode_value(kind, s) matches Ok((v, n)) ==> 1 <= n <= s.len() && spec_value_kind(v) == kind,
{
    crate::codec::utf8_string::lemma_str_decode_len(s);
    if let Ok((a, n1)) = spec_str_decode(s) {
        crate::codec::utf8_string::lemma_str_decode_len(s.skip(n1 as int));
    }
    if spec_vbi_decode(s) is Ok {
        crate::codec::variable_byte_integer::lemma_vbi_decode_canonical(s);
    }
}

/// Every property's identifier names the kind of value it carries.
pub proof fn lemma_property_kind(p: Property)
    ensures
        spec_kind(p@.0) == Some(spec_value_kind(p@.1)),
        p@.0 <= 0x2A,
{
    match p {
        Property::PayloadFormatIndicator(..) => {},
        Property::MessageExpiryInterval(..) => {},
        Property::ContentType(..) => {},
        Property::ResponseTopic(..) => {},
        Property::CorrelationData(..) => {},
        Property::SubscriptionIdentifier(..) => {},
        Property::SessionExpiryInterval(..) => {},
        Property::AssignedClientIdentifier(..) => {},
        Property::ServerKeepAlive(..) => {},
        Property::AuthenticationMethod(..) => {},
        Property::AuthenticationData(..) => {},
        Property::RequestProblemInformation(..) => {},
        Property::WillDelayInterval(..) => {},
        Property::RequestResponseInformation(..) => {},
        Property::ResponseInformation(..) => {},
        Property::ServerReference(..) => {},
        Property::ReasonString(..) => {},
        Property::ReceiveMaximum(..) => {},
        Property::TopicAliasMaximum(..) => {},
        Property::TopicAlias(..) => {},
        Property::MaximumQoS(..) => {},
        Property::RetainAvailable(..) => {},
        Property::UserProperty(..) => {},
        Property::MaximumPacketSize(..) => {},
        Property::WildcardSubscriptionAvailable(..) => {},
        Property::SubscriptionIdentifierAvailable(..) => {},
        Property::SharedSubscriptionAvailable(..) => {},
    }
}

/// A Byte, Two Byte or Four Byte Integer value decodes back from its wire form.
#[verifier::spinoff_prover]
#[verifier::rlimit(30)]
proof fn lemma_fixed_roundtrip(v: PropertyValue, rest: Seq<u8>)
    requires
        v is Byte || v is Two || v is Four,
    ensures
        spec_decode_value(spec_value_kind(v), spec_value_wire(v) + rest) == Ok::<(PropertyValue, nat), DecodeError>(
            (v, spec_value_wire(v).len()),
        ),
{
    let w = spec_value_wire(v);
    let s = w + rest;
    match v {
        PropertyValue::Two(x) => {
            crate::codec::wire::lemma_be16_roundtrip(x);
            assert(s[0] == w[0] && s[1] == w[1]);
        },
        PropertyValue::Four(x) => {
            crate::codec::wire::lemma_be32_roundtrip(x);
            assert(s[0] == w[0] && s[1] == w[1] && s[2] == w[2] && s[3] == w[3]);
        },
        _ => {},
    }
}

/// A string value decodes back from its wire form.
#[verifier::spinoff_prover]
#[verifier::rlimit(30)]
proof fn lemma_text_roundtrip(t: Seq<char>, rest: Seq<u8>)
    requires
        spec_text_error(t) is None,
    ensures
        spec_decode_value(ValueKind::Text, spec_str_wire(t) + rest) == Ok::<(PropertyValue, nat), DecodeError>(
            (PropertyValue::Text(t), spec_str_wire(t).len()),
        ),
{
    crate::codec::utf8_string::lemma_str_roundtrip(t, rest);
}

/// A binary value decodes back from its wire form.
#[verifier::spinoff_prover]
#[verifier::rlimit(30)]
proof fn lemma_bytes_roundtrip(d: Seq<u8>, rest: Seq<u8>)
    requires
        d.len() <= 65535,
    ensures
        spec_decode_value(ValueKind::Bytes, spec_binary_wire(d) + rest) == Ok::<(PropertyValue, nat), DecodeError>(
            (PropertyValue::Bytes(d), spec_binary_wire(d).len()),
        ),
{
    crate::codec::binary_data::lemma_binary_roundtrip(d, rest);
    assert(spec_binary_wire(d).len() == 2 + d.len());
}

/// A Variable Byte Integer value decodes back from its wire form.
#[verifier::spinoff_prover]
#[verifier::rlimit(30)]
proof fn lemma_vbi_value_roundtrip(x: u32, rest: Seq<u8>)
    requires
        x <= VBI_MAX,
    ensures
        spec_decode_value(ValueKind::Vbi, spec_vbi_encode(x as nat) + rest) == Ok::<(PropertyValue, nat), DecodeError>(
            (PropertyValue::Vbi(x), spec_vbi_encode(x as nat).len()),
        ),
{
    crate::codec::variable_byte_integer::lemma_vbi_roundtrip(x as nat, rest);
    crate::codec::variable_byte_integer::lemma_vbi_encode_len(x as nat);
}

/// A string pair value decodes back from its wire form.
#[verifier::spinoff_prover]
#[verifier::rlimit(30)]
proof fn lemma_pair_roundtrip(a: Seq<char>, b: Seq<char>, rest: Seq<u8>)
    requires
        spec_text_error(a) is None,
        spec_text_error(b) is None,
    ensures
        spec_decode_value(ValueKind::Pair, spec_str_wire(a) + spec_str_wire(b) + rest) == Ok::<
            (PropertyValue, nat),
            DecodeError,
        >((PropertyValue::Pair(a, b), (spec_str_wire(a) + spec_str_wire(b)).len())),
{
    let s = spec_str_wire(a) + spec_str_wire(b) + rest;
    assert(s =~= spec_str_wire(a) + (spec_str_wire(b) + rest));
    crate::codec::utf8_string::lemma_str_roundtrip(a, spec_str_wire(b) + rest);
    assert(s.skip(spec_str_wire(a).len() as int) =~= spec_str_wire(b) + rest);
    crate::codec::utf8_string::lemma_str_roundtrip(b, rest);
}

/// Decoding a value's wire form, followed by any bytes, gives the value back
/// and consumes exactly its wire form, when its content can be written.
#[verifier::spinoff_prover]
pub proof fn lemma_value_roundtrip(v: PropertyValue, rest: Seq<u8>)
    requires
        spec_content_error(v) is None,
    ensures
        spec_decode_value(spec_value_kind(v), spec_value_wire(v) + rest) == Ok::<(PropertyValue, nat), DecodeError>(
            (v, spec_value_wire(v).len()),
        ),
{
    match v {
        PropertyValue::Text(t) => lemma_text_roundtrip(t, rest),
        PropertyValue::Bytes(d) => lemma_bytes_roundtrip(d, rest),
        PropertyValue::Vbi(x) => lemma_vbi_value_roundtrip(x, rest),
        PropertyValue::Pair(a, b) => lemma_pair_roundtrip(a, b, rest),
        _ => lemma_fixed_roundtrip(v, rest),
    }
}

/// Decoding the wire form of an identifier and value that can be written,
/// where the identifier names the kind of the value, followed by any bytes,
/// gives them back and consumes exactly the wire form.
#[verifier::spinoff_prover]
pub proof fn lemma_property_wire_roundtrip(p: (u8, PropertyValue), rest: Seq<u8>)
    requires
        spec_kind(p.0) == Some(spec_value_kind(p.1)),
        spec_property_encodable(p),
    ensures
        spec_property_decode(spec_property_wire(p) + rest) == Ok::<((u8, PropertyValue), nat), DecodeError>(
            (p, spec_property_wire(p).len()),
        ),
{
    let (id, v) = p;
    assert(id <= 0x2A);
    let s = spec_property_wire(p) + rest;
    assert(spec_vbi_encode(id as nat) =~= seq![id]);
    assert(s =~= spec_vbi_encode(id as nat) + (spec_value_wire(v) + rest));
    crate::codec::variable_byte_integer::lemma_vbi_roundtrip(id as nat, spec_value_wire(v) + rest);
    assert(s.skip(1) =~= spec_value_wire(v) + rest);
    lemma_value_roundtrip(v, rest);
}

/// Decoding the wire form of a property that can be written, followed by any
/// bytes, gives the property back and consumes exactly its wire form.
#[verifier::spinoff_prover]
pub proof fn lemma_property_roundtrip(p: Property, rest: Seq<u8>)
    requires
        spec_property_encodable(p@),
    ensures
        spec_property_decode(spec_property_wire(p@) + rest) == Ok::<((u8, PropertyValue), nat), DecodeError>(
            (p@, spec_property_wire(p@).len()),
        ),
{
    lemma_property_kind(p);
    lemma_property_wire_roundtrip(p@, rest);
}

} // verus!
