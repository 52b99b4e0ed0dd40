//! The parameters of a received CONNACK and the errors of applying them.

use vstd::prelude::*;

use crate::codec::qos::QoS;
use crate::state::auth::spec_opt_string;
use crate::v311::connack::ConnectReturnCode;
use crate::v5::connack::ConnectReasonCode;

verus! {

/// Why a CONNACK could not be applied.
#[derive(Debug, Clone, Copy, PartialEq, Eq, Structural)]
pub enum ConnackError {
    /// The Reason Code (Return Code) is not a success.
    ConnectionRefused,
    /// Session Present is 1 although Clean Start (Clean Session) is 1
    /// (MQTT v5.0 §3.2.2.1.1 [MQTT-3.2.2-2][MQTT-3.2.2-4], MQTT v3.1.1 §3.2.2.2
    /// [MQTT-3.2.2-1]).
    SessionPresentProtocolError,
    /// Receive Maximum is 0 (MQTT v5.0 §3.2.2.3.3).
    InvalidReceiveMaximum,
    /// Maximum Packet Size is 0 (MQTT v5.0 §3.2.2.3.6).
    InvalidMaximumPacketSize,
    /// Maximum QoS is 2; only 0 and 1 may be sent (MQTT v5.0 §3.2.2.3.4).
    InvalidMaximumQoS,
    /// The session connected with an empty Client Identifier, but the CONNACK's
    /// Assigned Client Identifier is missing or empty (MQTT v5.0 §3.2.2.3.7
    /// [MQTT-3.2.2-16]).
    AssignedClientIdentifierMissing,
    /// The successful CONNACK of an initial authentication has no Authentication
    /// Method (MQTT v5.0 §4.12 [MQTT-4.12.0-5]).
    AuthenticationMethodMissing,
    /// The CONNACK's Authentication Method differs from the CONNECT's
    /// (MQTT v5.0 §4.12 [MQTT-4.12.0-5]).
    AuthenticationMethodMismatch,
    /// The CONNACK carries an Authentication Method although no initial
    /// authentication is in progress (MQTT v5.0 §4.12 [MQTT-4.12.0-6]).
    UnexpectedAuthenticationMethod,
    /// A CONNACK can only be applied in the `Connecting` state
    /// (MQTT v5.0 §3.2 [MQTT-3.2.0-1], MQTT v3.1.1 §3.2 [MQTT-3.2.0-1]).
    InvalidConnectionState,
    /// The kind of reason (MQTT v5.0 Reason Code, MQTT v3.1.1 Return Code) does
    /// not match the session's protocol version.
    VersionMismatch,
    /// A MQTT v3.1.1 session received MQTT v5.0-only CONNACK properties.
    V5OnlyParameters,
}

impl ConnackError {
    /// A human-readable description of the error.
    pub fn message(&self) -> (r: &'static str)
        ensures
            r@ == match *self {
                ConnackError::ConnectionRefused => "CONNACK reason code indicates connection refused"@,
                ConnackError::SessionPresentProtocolError => "session_present=1 received with clean_start=true"@,
                ConnackError::InvalidReceiveMaximum => "CONNACK Receive Maximum must not be 0"@,
                ConnackError::InvalidMaximumPacketSize => "CONNACK Maximum Packet Size must not be 0"@,
                ConnackError::InvalidMaximumQoS => "CONNACK Maximum QoS must not be 2"@,
                ConnackError::AssignedClientIdentifierMissing => "CONNACK for a zero length Client Identifier must contain a non-empty Assigned Client Identifier"@,
                ConnackError::AuthenticationMethodMissing => "successful CONNACK during initial authentication must contain Authentication Method"@,
                ConnackError::AuthenticationMethodMismatch => "CONNACK Authentication Method does not match CONNECT"@,
                ConnackError::UnexpectedAuthenticationMethod => "CONNACK contains Authentication Method but session did not start extended authentication"@,
                ConnackError::InvalidConnectionState => "CONNACK can only be applied in Connecting state"@,
                ConnackError::VersionMismatch => "CONNACK reason code variant does not match session protocol version"@,
                ConnackError::V5OnlyParameters => "CONNACK for MQTT v3.1.1 session contains v5-only parameters"@,
            },
    {
        match self {
            ConnackError::ConnectionRefused => "CONNACK reason code indicates connection refused",
            ConnackError::SessionPresentProtocolError => {
                "session_present=1 received with clean_start=true"
            },
            ConnackError::InvalidReceiveMaximum => "CONNACK Receive Maximum must not be 0",
            ConnackError::InvalidMaximumPacketSize => "CONNACK Maximum Packet Size must not be 0",
            ConnackError::InvalidMaximumQoS => "CONNACK Maximum QoS must not be 2",
            ConnackError::AssignedClientIdentifierMissing => {
                "CONNACK for a zero length Client Identifier must contain a non-empty Assigned Client Identifier"
            },
            ConnackError::AuthenticationMethodMissing => {
                "successful CONNACK during initial authentication must contain Authentication Method"
            },
            ConnackError::AuthenticationMethodMismatch => {
                "CONNACK Authentication Method does not match CONNECT"
            },
            ConnackError::UnexpectedAuthenticationMethod => {
                "CONNACK contains Authentication Method but session did not start extended authentication"
            },
            ConnackError::InvalidConnectionState => {
                "CONNACK can only be applied in Connecting state"
            },
            ConnackError::VersionMismatch => {
                "CONNACK reason code variant does not match session protocol version"
            },
            ConnackError::V5OnlyParameters => {
                "CONNACK for MQTT v3.1.1 session contains v5-only parameters"
            },
        }
    }
}

/// The reason of a CONNACK: a MQTT v5.0 Connect Reason Code or a MQTT v3.1.1
/// Connect Return Code.
#[derive(Debug, Clone, Copy, PartialEq, Eq, Structural)]
pub enum ConnackReason {
    /// A MQTT v5.0 Reason Code.
    V5(ConnectReasonCode),
    /// A MQTT v3.1.1 Return Code.
    V311(ConnectReturnCode),
}

impl ConnackReason {
    /// Whether the reason means that the connection was accepted.
    pub open spec fn spec_is_success(self) -> bool {
        match self {
            ConnackReason::V5(code) => code == ConnectReasonCode::Success,
            ConnackReason::V311(code) => code == ConnectReturnCode::Accepted,
        }
    }

    /// Returns whether the reason means that the connection was accepted.
    pub fn is_success(self) -> (r: bool)
        ensures
            r == self.spec_is_success(),
    {
        match self {
            ConnackReason::V5(code) => code == ConnectReasonCode::Success,
            ConnackReason::V311(code) => code == ConnectReturnCode::Accepted,
        }
    }
}

/// The parameters taken from a CONNACK. A `None` field means that the CONNACK
/// did not carry the property, and its default applies.
#[derive(Debug)]
pub struct ConnackParams {
    /// Whether the server resumed an earlier session.
    pub session_present: bool,
    /// The reason of the CONNACK.
    pub reason_code: ConnackReason,
    /// Session Expiry Interval in seconds.
    pub session_expiry_interval: Option<u32>,
    /// Receive Maximum.
    pub receive_maximum: Option<u16>,
    /// Topic Alias Maximum.
    pub topic_alias_maximum: Option<u16>,
    /// Server Keep Alive in seconds.
    pub server_keep_alive: Option<u16>,
    /// Maximum Packet Size (MQTT v5.0 §3.2.2.3.6).
    pub maximum_packet_size: Option<u32>,
    /// Maximum QoS (MQTT v5.0 §3.2.2.3.4).
    pub maximum_qos: Option<QoS>,
    /// Retain Available (MQTT v5.0 §3.2.2.3.5).
    pub retain_available: Option<bool>,
    /// Wildcard Subscription Available (MQTT v5.0 §3.2.2.3.11).
    pub wildcard_subscription_available: Option<bool>,
    /// Subscription Identifiers Available (MQTT v5.0 §3.2.2.3.12).
    pub subscription_identifiers_available: Option<bool>,
    /// Shared Subscription Available (MQTT v5.0 §3.2.2.3.13).
    pub shared_subscription_available: Option<bool>,
    /// Assigned Client Identifier (MQTT v5.0 §3.2.2.3.7), sent by the server when
    /// the client connected with an empty Client Identifier.
    pub assigned_client_identifier: Option<String>,
    /// Authentication Method (MQTT v5.0 §3.2.2.3.17).
    pub authentication_method: Option<String>,
}

/// The abstract value of [`ConnackParams`].
pub struct ConnackParamsView {
    /// Session Present.
    pub session_present: bool,
    /// The reason.
    pub reason_code: ConnackReason,
    /// Session Expiry Interval.
    pub session_expiry_interval: Option<u32>,
    /// Receive Maximum.
    pub receive_maximum: Option<u16>,
    /// Topic Alias Maximum.
    pub topic_alias_maximum: Option<u16>,
    /// Server Keep Alive.
    pub server_keep_alive: Option<u16>,
    /// Maximum Packet Size.
    pub maximum_packet_size: Option<u32>,
    /// Maximum QoS.
    pub maximum_qos: Option<QoS>,
    /// Retain Available.
    pub retain_available: Option<bool>,
    /// Wildcard Subscription Available.
    pub wildcard_subscription_available: Option<bool>,
    /// Subscription Identifiers Available.
    pub subscription_identifiers_available: Option<bool>,
    /// Shared Subscription Available.
    pub shared_subscription_available: Option<bool>,
    /// Assigned Client Identifier.
    pub assigned_client_identifier: Option<Seq<char>>,
    /// Authentication Method.
    pub authentication_method: Option<Seq<char>>,
}

impl View for ConnackParams {
    type V = ConnackParamsView;

    open spec fn view(&self) -> ConnackParamsView {
        ConnackParamsView {
            session_present: self.session_present,
            reason_code: self.reason_code,
            session_expiry_interval: self.session_expiry_interval,
            receive_maximum: self.receive_maximum,
            topic_alias_maximum: self.topic_alias_maximum,
            server_keep_alive: self.server_keep_alive,
            maximum_packet_size: self.maximum_packet_size,
            maximum_qos: self.maximum_qos,
            retain_available: self.retain_available,
            wildcard_subscription_available: self.wildcard_subscription_available,
            subscription_identifiers_available: self.subscription_identifiers_available,
            shared_subscription_available: self.shared_subscription_available,
            assigned_client_identifier: spec_opt_string(self.assigned_client_identifier),
            authentication_method: spec_opt_string(self.authentication_method),
        }
    }
}

impl ConnackParamsView {
    /// Whether any MQTT v5.0-only property is present. A MQTT v3.1.1 CONNACK
    /// holds only Session Present and the Return Code (MQTT v3.1.1 §3.2.2).
    pub open spec fn spec_has_v5_only_fields(self) -> bool {
        ||| self.session_expiry_interval is Some
        ||| self.receive_maximum is Some
        ||| self.topic_alias_maximum is Some
        ||| self.server_keep_alive is Some
        ||| self.maximum_packet_size is Some
        ||| self.maximum_qos is Some
        ||| self.retain_available is Some
        ||| self.wildcard_subscription_available is Some
        ||| self.subscription_identifiers_available is Some
        ||| self.shared_subscription_available is Some
        ||| self.assigned_client_identifier is Some
        ||| self.authentication_method is Some
    }
}

impl ConnackParams {
    /// Returns whether any MQTT v5.0-only property is present.
    pub fn has_v5_only_fields(&self) -> (r: bool)
        ensures
            r == self@.spec_has_v5_only_fields(),
    {
        self.session_expiry_interval.is_some() || self.receive_maximum.is_some()
            || self.topic_alias_maximum.is_some() || self.server_keep_alive.is_some()
            || self.maximum_packet_size.is_some() || self.maximum_qos.is_some()
            || self.retain_available.is_some() || self.wildcard_subscription_available.is_some()
            || self.subscription_identifiers_available.is_some()
            || self.shared_subscription_available.is_some()
            || self.assigned_client_identifier.is_some() || self.authentication_method.is_some()
    }
}

} // verus!
