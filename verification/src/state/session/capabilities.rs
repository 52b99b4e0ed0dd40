//! What the server announced in its CONNACK (MQTT v5.0 §3.2.2.3), and the checks
//! of outgoing packets against it.

use vstd::prelude::*;

use crate::codec::qos::QoS;
use crate::codec::text::{push_decimal, spec_decimal};
use vstd::string::StringExecFns;
use crate::codec::utf8_string::spec_utf8;
use crate::codec::wire::bytes_contain;
use crate::state::subscribe::{EntryView, SubscriptionEntry};
use crate::topic_filter::{
    spec_has_share_prefix, spec_share_prefix, has_share_prefix, MULTI_LEVEL_WILDCARD, SINGLE_LEVEL_WILDCARD,
};

verus! {

/// The capabilities that the server announced in its CONNACK
/// (MQTT v5.0 §3.2.2.3). A property missing from the CONNACK keeps its default.
///
/// The client must not send packets beyond them: a PUBLISH above Maximum QoS
/// [MQTT-3.2.2-11], a retained PUBLISH without Retain Available [MQTT-3.2.2-14],
/// or a packet above Maximum Packet Size [MQTT-3.2.2-15].
#[derive(Debug, Clone, Copy, PartialEq, Eq, Structural)]
pub struct ServerCapabilities {
    /// The largest packet the server accepts (MQTT v5.0 §3.2.2.3.6); `None` for no
    /// limit.
    pub maximum_packet_size: Option<u32>,
    /// The highest QoS the server supports (MQTT v5.0 §3.2.2.3.4); QoS 2 by default.
    pub maximum_qos: QoS,
    /// Whether retained messages are supported (MQTT v5.0 §3.2.2.3.5).
    pub retain_available: bool,
    /// Whether wildcard subscriptions are supported (MQTT v5.0 §3.2.2.3.11).
    pub wildcard_subscription_available: bool,
    /// Whether Subscription Identifiers are supported (MQTT v5.0 §3.2.2.3.12).
    pub subscription_identifiers_available: bool,
    /// Whether shared subscriptions are supported (MQTT v5.0 §3.2.2.3.13).
    pub shared_subscription_available: bool,
}

/// An outgoing packet that goes beyond the server's capabilities.
#[derive(Debug, Clone, Copy, PartialEq, Eq, Structural)]
pub enum ServerCapabilityError {
    /// The PUBLISH's QoS is above the server's Maximum QoS.
    MaximumQoSExceeded,
    /// A retained PUBLISH, but Retain Available is false.
    RetainNotAvailable,
    /// The packet is larger than the server's Maximum Packet Size.
    MaximumPacketSizeExceeded {
        /// The packet's size.
        size: u32,
        /// The server's Maximum Packet Size.
        limit: u32,
    },
    /// A SUBSCRIBE with a wildcard, but Wildcard Subscription Available is false.
    WildcardSubscriptionNotAvailable,
    /// A SUBSCRIBE with a Subscription Identifier, but Subscription Identifiers
    /// Available is false.
    SubscriptionIdentifierNotAvailable,
    /// A SUBSCRIBE with a shared subscription, but Shared Subscription Available
    /// is false.
    SharedSubscriptionNotAvailable,
}

/// The text of an outgoing packet above the server's Maximum Packet Size:
/// "outgoing packet size `size` exceeds server Maximum Packet Size `limit`",
/// the numbers in decimal.
pub open spec fn spec_size_exceeded_text(size: u32, limit: u32) -> Seq<char> {
    "outgoing packet size "@ + spec_decimal(size as nat) + " exceeds server Maximum Packet Size "@
        + spec_decimal(limit as nat)
}

/// Writes "outgoing packet size `size` exceeds server Maximum Packet Size
/// `limit`".
fn size_exceeded_text(size: u32, limit: u32) -> (r: String)
    ensures
        r@ == spec_size_exceeded_text(size, limit),
{
    let mut s = String::from_str("outgoing packet size ");
    push_decimal(&mut s, size as u64);
    s.append(" exceeds server Maximum Packet Size ");
    push_decimal(&mut s, limit as u64);
    s
}

impl ServerCapabilityError {
    /// A human-readable description of the error, without the sizes.
    pub fn message(&self) -> (r: String)
        ensures
            r@ == match *self {
                ServerCapabilityError::MaximumQoSExceeded => "outgoing PUBLISH QoS exceeds server Maximum QoS"@,
                ServerCapabilityError::RetainNotAvailable => "outgoing PUBLISH has RETAIN=1 but Retain Available is false"@,
                ServerCapabilityError::MaximumPacketSizeExceeded { size, limit } => spec_size_exceeded_text(size, limit),
                ServerCapabilityError::WildcardSubscriptionNotAvailable => "outgoing SUBSCRIBE contains wildcard but Wildcard Subscription Available is false"@,
                ServerCapabilityError::SubscriptionIdentifierNotAvailable => "outgoing SUBSCRIBE contains Subscription Identifier but Subscription Identifiers Available is false"@,
                ServerCapabilityError::SharedSubscriptionNotAvailable => "outgoing SUBSCRIBE contains shared subscription but Shared Subscription Available is false"@,
            },
    {
        match self {
            ServerCapabilityError::MaximumQoSExceeded => "outgoing PUBLISH QoS exceeds server Maximum QoS".to_owned(),
            ServerCapabilityError::RetainNotAvailable => "outgoing PUBLISH has RETAIN=1 but Retain Available is false".to_owned(),
            ServerCapabilityError::MaximumPacketSizeExceeded { size, limit } => size_exceeded_text(*size, *limit),
            ServerCapabilityError::WildcardSubscriptionNotAvailable => "outgoing SUBSCRIBE contains wildcard but Wildcard Subscription Available is false".to_owned(),
            ServerCapabilityError::SubscriptionIdentifierNotAvailable => "outgoing SUBSCRIBE contains Subscription Identifier but Subscription Identifiers Available is false".to_owned(),
            ServerCapabilityError::SharedSubscriptionNotAvailable => "outgoing SUBSCRIBE contains shared subscription but Shared Subscription Available is false".to_owned(),
        }
    }
}

/// The capabilities a server has when its CONNACK announces none.
pub open spec fn spec_default_capabilities() -> ServerCapabilities {
    ServerCapabilities {
        maximum_packet_size: None,
        maximum_qos: QoS::ExactlyOnce,
        retain_available: true,
        wildcard_subscription_available: true,
        subscription_identifiers_available: true,
        shared_subscription_available: true,
    }
}

/// The outcome of checking an outgoing PUBLISH of `qos`, `retain` and
/// `packet_size` bytes: Maximum QoS first, then Retain Available, then Maximum
/// Packet Size.
pub open spec fn spec_validate_publish(
    c: ServerCapabilities,
    qos: QoS,
    retain: bool,
    packet_size: usize,
) -> Result<(), ServerCapabilityError> {
    if qos.spec_as_u8() > c.maximum_qos.spec_as_u8() {
        Err(ServerCapabilityError::MaximumQoSExceeded)
    } else if retain && !c.retain_available {
        Err(ServerCapabilityError::RetainNotAvailable)
    } else {
        match c.maximum_packet_size {
            Some(limit) => if packet_size > limit {
                Err(
                    ServerCapabilityError::MaximumPacketSizeExceeded {
                        size: packet_size as u32,
                        limit,
                    },
                )
            } else {
                Ok(())
            },
            None => Ok(()),
        }
    }
}

/// The outcome of checking one subscription: a wildcard, then a Subscription
/// Identifier, then a shared subscription, each against its capability.
pub open spec fn spec_check_entry(c: ServerCapabilities, e: EntryView) -> Result<
    (),
    ServerCapabilityError,
> {
    let b = spec_utf8(e.topic_filter);
    if !c.wildcard_subscription_available && (b.contains(SINGLE_LEVEL_WILDCARD) || b.contains(
        MULTI_LEVEL_WILDCARD,
    )) {
        Err(ServerCapabilityError::WildcardSubscriptionNotAvailable)
    } else if !c.subscription_identifiers_available && e.subscription_identifier is Some {
        Err(ServerCapabilityError::SubscriptionIdentifierNotAvailable)
    } else if !c.shared_subscription_available && spec_has_share_prefix(b) {
        Err(ServerCapabilityError::SharedSubscriptionNotAvailable)
    } else {
        Ok(())
    }
}

/// The outcome of checking the subscriptions `s` in order: the error of the
/// first one that fails, if any. The Requested QoS is not checked: a server
/// must accept any Requested QoS (MQTT v5.0 §3.2.2.3.4 [MQTT-3.2.2-10]).
pub open spec fn spec_validate_subscribe(c: ServerCapabilities, s: Seq<EntryView>) -> Result<
    (),
    ServerCapabilityError,
>
    decreases s.len(),
{
    if s.len() == 0 {
        Ok(())
    } else {
        match spec_validate_subscribe(c, s.drop_last()) {
            Err(e) => Err(e),
            Ok(()) => spec_check_entry(c, s.last()),
        }
    }
}

/// Once a prefix of the subscriptions fails, the whole list fails the same way.
proof fn lemma_first_error_sticks(c: ServerCapabilities, s: Seq<EntryView>, n: int)
    requires
        0 <= n <= s.len(),
        spec_validate_subscribe(c, s.take(n)) is Err,
    ensures
        spec_validate_subscribe(c, s) == spec_validate_subscribe(c, s.take(n)),
    decreases s.len() - n,
{
    if n < s.len() {
        assert(s.take(n + 1).drop_last() =~= s.take(n));
        lemma_first_error_sticks(c, s, n + 1);
    } else {
        assert(s.take(n) =~= s);
    }
}

impl ServerCapabilities {
    /// Creates the capabilities of a server that announced none.
    pub fn new() -> (r: Self)
        ensures
            r == spec_default_capabilities(),
    {
        Self {
            maximum_packet_size: None,
            maximum_qos: QoS::ExactlyOnce,
            retain_available: true,
            wildcard_subscription_available: true,
            subscription_identifiers_available: true,
            shared_subscription_available: true,
        }
    }

    /// Checks an outgoing PUBLISH against the capabilities: its QoS against
    /// Maximum QoS [MQTT-3.2.2-11], a retained message against Retain Available
    /// [MQTT-3.2.2-14], and `packet_size` against Maximum Packet Size
    /// [MQTT-3.2.2-15], in that order.
    pub fn validate_publish(&self, qos: QoS, retain: bool, packet_size: usize) -> (r: Result<
        (),
        ServerCapabilityError,
    >)
        ensures
            r == spec_validate_publish(*self, qos, retain, packet_size),
    {
        if qos.as_u8() > self.maximum_qos.as_u8() {
            return Err(ServerCapabilityError::MaximumQoSExceeded);
        }
        if retain && !self.retain_available {
            return Err(ServerCapabilityError::RetainNotAvailable);
        }
        if let Some(limit) = self.maximum_packet_size {
            if packet_size > limit as usize {
                return Err(
                    ServerCapabilityError::MaximumPacketSizeExceeded {
                        size: packet_size as u32,
                        limit,
                    },
                );
            }
        }
        Ok(())
    }

    /// Checks an outgoing SUBSCRIBE's subscriptions, in order, against the
    /// capabilities: a wildcard against Wildcard Subscription Available
    /// (MQTT v5.0 §3.2.2.3.11), a Subscription Identifier against Subscription
    /// Identifiers Available (§3.2.2.3.12), and a `$share/` filter against Shared
    /// Subscription Available (§3.2.2.3.13). Returns the first error.
    pub fn validate_subscribe(&self, entries: &[SubscriptionEntry]) -> (r: Result<
        (),
        ServerCapabilityError,
    >)
        ensures
            r == spec_validate_subscribe(*self, entries@.map_values(|e: SubscriptionEntry| e@)),
    {
        let ghost s = entries@.map_values(|e: SubscriptionEntry| e@);
        let mut i: usize = 0;
        while i < entries.len()
            invariant
                i <= entries@.len(),
                s == entries@.map_values(|e: SubscriptionEntry| e@),
                spec_validate_subscribe(*self, s.take(i as int)) is Ok,
            decreases entries@.len() - i,
        {
            let entry = &entries[i];
            let b = entry.topic_filter.as_str().as_bytes();
            assert(s.take(i + 1).drop_last() =~= s.take(i as int));
            assert(s.take(i + 1).last() == entry@);
            let check = if !self.wildcard_subscription_available && (bytes_contain(
                b,
                SINGLE_LEVEL_WILDCARD,
            ) || bytes_contain(b, MULTI_LEVEL_WILDCARD)) {
                Err(ServerCapabilityError::WildcardSubscriptionNotAvailable)
            } else if !self.subscription_identifiers_available
                && entry.subscription_identifier.is_some() {
                Err(ServerCapabilityError::SubscriptionIdentifierNotAvailable)
            } else if !self.shared_subscription_available && has_share_prefix(b) {
                Err(ServerCapabilityError::SharedSubscriptionNotAvailable)
            } else {
                Ok(())
            };
            assert(check == spec_check_entry(*self, entry@));
            if let Err(e) = check {
                proof {
                    lemma_first_error_sticks(*self, s, i + 1);
                }
                return Err(e);
            }
            i = i + 1;
        }
        assert(s.take(i as int) =~= s);
        Ok(())
    }
}

impl Default for ServerCapabilities {
    fn default() -> (r: Self)
        ensures
            r == spec_default_capabilities(),
    {
        Self::new()
    }
}

/// The check of an outgoing PUBLISH refuses only what the server's
/// capabilities rule out: a QoS strictly above its Maximum QoS
/// [MQTT-3.2.2-11], a retained message when Retain Available is false
/// [MQTT-3.2.2-14], and a packet above its Maximum Packet Size [MQTT-3.2.2-15].
/// Any PUBLISH within all three passes, at the Maximum QoS too; and a server
/// that announced nothing (the defaults) accepts every QoS, retained or not, of
/// any size.
pub proof fn lemma_validate_publish_refuses_only_excess(c: ServerCapabilities, qos: QoS, retain: bool, size: usize)
    ensures
        qos.spec_as_u8() <= c.maximum_qos.spec_as_u8() && (retain ==> c.retain_available) && (
        c.maximum_packet_size matches Some(l) ==> size <= l) ==> spec_validate_publish(c, qos, retain, size)
            == Ok::<(), ServerCapabilityError>(()),
        spec_validate_publish(c, qos, retain, size) == Err::<(), ServerCapabilityError>(
            ServerCapabilityError::MaximumQoSExceeded,
        ) ==> qos.spec_as_u8() > c.maximum_qos.spec_as_u8(),
        spec_validate_publish(c, qos, retain, size) == Err::<(), ServerCapabilityError>(
            ServerCapabilityError::RetainNotAvailable,
        ) ==> retain && !c.retain_available,
        spec_validate_publish(spec_default_capabilities(), qos, retain, size) == Ok::<(), ServerCapabilityError>(()),
{
}

} // verus!
