//! The session: every state machine of one MQTT connection, and the lifecycle
//! that initialises and resets them.

use vstd::prelude::*;

use crate::codec::limits::{Limits, DEFAULT_MAX_PACKET_SIZE};
use crate::codec::qos::QoS;
use crate::codec::MqttVersion;
use crate::state::auth::{
    spec_auth_received, spec_connack_received, spec_opt_str, AuthAction, AuthError,
    AuthMethodError, AuthState, AuthStateMachine, AuthView,
};
use crate::state::flow_control::{
    spec_flow_initial, FlowControl, FlowControlError, FlowControlView, DEFAULT_RECEIVE_MAXIMUM,
};
use crate::state::keep_alive::{KeepAlive, KeepAliveView, Timestamp};
use crate::state::packet_id::{spec_packet_ids_initial, PacketIdManager, PacketIdView};
use crate::state::qos_flow::{
    spec_ack_received, spec_clear_quota, spec_in_seq_order, spec_pubrec_received,
    spec_pubrel_received, spec_retransmission, Action, FlowError, FlowState, QosFlowManager,
    QosFlowView,
};
use crate::state::session::capabilities::{
    spec_default_capabilities, spec_validate_publish, spec_validate_subscribe, ServerCapabilities,
    ServerCapabilityError,
};
use crate::state::session::params::{
    ConnackError, ConnackParams, ConnackParamsView, ConnackReason,
};
use crate::state::subscribe::{
    spec_entries, spec_strings, spec_suback_fold, spec_unsuback_fold, ActiveView, EntryView,
    SubscriptionEntry, SubscriptionManager, SubscriptionView,
};
use crate::state::topic_alias::{spec_ensure_len, TopicAliasManager, TopicAliasView};

verus! {

/// Errors raised when creating a session.
#[derive(Debug, Clone, Copy, PartialEq, Eq, Structural)]
pub enum SessionError {
    /// An empty Client Identifier with Clean Session (Clean Start) false.
    InvalidClientId,
}

impl SessionError {
    /// A human-readable description of the error.
    pub fn message(&self) -> (r: &'static str)
        ensures
            r@ == match *self {
                SessionError::InvalidClientId => "empty client_id requires clean_session/clean_start to be true"@,
            },
    {
        match self {
            SessionError::InvalidClientId => {
                "empty client_id requires clean_session/clean_start to be true"
            },
        }
    }
}

/// The error of [`Session::handle_suback`].
#[derive(Debug, Clone, Copy, PartialEq, Eq, Structural)]
pub enum HandleSubackError {
    /// No SUBSCRIBE awaits this SUBACK, or the number of Reason Codes differs from
    /// the number of subscriptions (the codes answer the filters in order,
    /// MQTT v5.0 §3.9.3 [MQTT-3.9.3-1]). The Packet Identifier is released either
    /// way.
    PendingNotFound,
}

impl HandleSubackError {
    /// A human-readable description of the error.
    pub fn message(&self) -> (r: &'static str)
        ensures
            r@ == "no pending SUBSCRIBE for the packet identifier, or SUBACK reason code count mismatch"@,
    {
        "no pending SUBSCRIBE for the packet identifier, or SUBACK reason code count mismatch"
    }
}

/// The error of [`Session::handle_unsuback`].
#[derive(Debug, Clone, Copy, PartialEq, Eq, Structural)]
pub enum HandleUnsubackError {
    /// No UNSUBSCRIBE awaits this UNSUBACK, or the number of Reason Codes differs
    /// from the number of filters (MQTT v5.0 §3.11.3 [MQTT-3.11.3-1]). The Packet
    /// Identifier is released either way.
    PendingNotFound,
}

impl HandleUnsubackError {
    /// A human-readable description of the error.
    pub fn message(&self) -> (r: &'static str)
        ensures
            r@ == "no pending UNSUBSCRIBE for the packet identifier, or UNSUBACK reason code count mismatch"@,
    {
        "no pending UNSUBSCRIBE for the packet identifier, or UNSUBACK reason code count mismatch"
    }
}

/// The state of the MQTT connection.
#[derive(Debug, Clone, Copy, PartialEq, Eq, Structural)]
pub enum ConnectionState {
    /// No connection.
    Disconnected,
    /// A CONNECT was sent and its CONNACK is awaited.
    Connecting,
    /// The connection is established.
    Connected,
    /// A DISCONNECT was sent and the connection is ending.
    Disconnecting,
}

/// The abstract state of a [`Session`].
pub struct SessionView {
    /// The protocol version.
    pub protocol_version: MqttVersion,
    /// The connection state.
    pub connection_state: ConnectionState,
    /// The Client Identifier.
    pub client_id: Seq<char>,
    /// Clean Start (MQTT v5.0) or Clean Session (MQTT v3.1.1).
    pub clean_start: bool,
    /// The Session Expiry Interval (MQTT v5.0; 0 under MQTT v3.1.1).
    pub session_expiry_interval: u32,
    /// The Packet Identifier pool.
    pub packet_ids: PacketIdView,
    /// The QoS flows.
    pub qos_flow: QosFlowView,
    /// Flow control.
    pub flow_control: FlowControlView,
    /// The subscriptions.
    pub subscriptions: SubscriptionView,
    /// The Topic Aliases (MQTT v5.0).
    pub topic_aliases: TopicAliasView,
    /// Keep Alive.
    pub keep_alive: KeepAliveView,
    /// Enhanced authentication (MQTT v5.0).
    pub auth: AuthView,
    /// The server's capabilities from its CONNACK (MQTT v5.0).
    pub server_capabilities: ServerCapabilities,
    /// The packet size limits.
    pub limits: Limits,
}

/// The QoS flows with no flow.
pub open spec fn spec_qos_initial() -> QosFlowView {
    QosFlowView { outgoing: Map::empty(), incoming: Map::empty(), next_seq: 0 }
}

/// The subscriptions with no subscription.
pub open spec fn spec_subscriptions_initial() -> SubscriptionView {
    SubscriptionView {
        active: Seq::empty(),
        pending_subscribes: Map::empty(),
        pending_unsubscribes: Map::empty(),
        ids: Map::empty(),
    }
}

/// Discards the session state, which outlives a Network Connection: the QoS
/// flows, the Packet Identifiers and the subscriptions.
pub open spec fn spec_reset_session_state(v: SessionView) -> SessionView {
    SessionView {
        packet_ids: spec_packet_ids_initial(),
        qos_flow: spec_qos_initial(),
        subscriptions: spec_subscriptions_initial(),
        ..v
    }
}

/// Reinitialises what belongs to one Network Connection: flow control and send
/// quota (MQTT v5.0 §4.9), the Topic Alias mappings and the peer's maximum
/// [MQTT-3.3.2-7], authentication, the server's capabilities, and an awaited
/// PINGRESP. Our own Topic Alias Maximum and Receive Maximum stay, being settings
/// for the next CONNECT.
pub open spec fn spec_reset_connection_state(v: SessionView) -> SessionView {
    SessionView {
        flow_control: spec_flow_initial(v.flow_control.own_receive_maximum),
        qos_flow: QosFlowView { outgoing: spec_clear_quota(v.qos_flow.outgoing), ..v.qos_flow },
        topic_aliases: TopicAliasView {
            recv: Seq::empty(),
            send: spec_ensure_len(Seq::empty(), 1),
            peer_maximum: 0,
            ..v.topic_aliases
        },
        auth: AuthView { state: AuthState::Idle, method: None },
        server_capabilities: spec_default_capabilities(),
        keep_alive: KeepAliveView { pingreq_sent_at: None, ..v.keep_alive },
        ..v
    }
}

/// Records a CONNACK: connected, and the session state discarded when Clean
/// Start is set or the server did not resume the session.
pub open spec fn spec_connected(v: SessionView, session_present: bool) -> SessionView {
    let v1 = SessionView { connection_state: ConnectionState::Connected, ..v };
    if v.clean_start || !session_present {
        spec_reset_session_state(v1)
    } else {
        v1
    }
}

/// The checks of a CONNACK that come before the Authentication Method, in
/// order.
pub open spec fn spec_connack_precheck(v: SessionView, p: ConnackParamsView) -> Result<
    (),
    ConnackError,
> {
    let v5 = v.protocol_version == MqttVersion::V5;
    if v.connection_state != ConnectionState::Connecting {
        Err(ConnackError::InvalidConnectionState)
    } else if (p.reason_code is V5) != v5 {
        Err(ConnackError::VersionMismatch)
    } else if !v5 && p.spec_has_v5_only_fields() {
        Err(ConnackError::V5OnlyParameters)
    } else if !p.reason_code.spec_is_success() {
        Err(ConnackError::ConnectionRefused)
    } else if p.session_present && v.clean_start {
        Err(ConnackError::SessionPresentProtocolError)
    } else if v5 && v.client_id.len() == 0 && match p.assigned_client_identifier {
        Some(a) => a.len() == 0,
        None => true,
    } {
        Err(ConnackError::AssignedClientIdentifierMissing)
    } else if p.receive_maximum == Some(0u16) {
        Err(ConnackError::InvalidReceiveMaximum)
    } else if p.maximum_packet_size == Some(0u32) {
        Err(ConnackError::InvalidMaximumPacketSize)
    } else if p.maximum_qos == Some(QoS::ExactlyOnce) {
        Err(ConnackError::InvalidMaximumQoS)
    } else {
        Ok(())
    }
}

/// The error of the Authentication Method check of a CONNACK.
pub open spec fn spec_auth_check_error(e: AuthMethodError) -> ConnackError {
    match e {
        AuthMethodError::Missing => ConnackError::AuthenticationMethodMissing,
        AuthMethodError::Mismatch => ConnackError::AuthenticationMethodMismatch,
        AuthMethodError::Unexpected => ConnackError::UnexpectedAuthenticationMethod,
    }
}

/// The checks of a CONNACK, in order; `Ok` when it can be applied. Under
/// MQTT v5.0 the last check is that of the Authentication Method against the
/// authentication state.
pub open spec fn spec_connack_check(v: SessionView, p: ConnackParamsView) -> Result<
    (),
    ConnackError,
> {
    match spec_connack_precheck(v, p) {
        Err(e) => Err(e),
        Ok(()) => if v.protocol_version == MqttVersion::V5 {
            match spec_connack_received(v.auth.state, v.auth.method, p.authentication_method).0 {
                Err(e) => Err(spec_auth_check_error(e)),
                Ok(()) => Ok(()),
            }
        } else {
            Ok(())
        },
    }
}

/// The server capabilities with the properties of a CONNACK applied.
pub open spec fn spec_apply_capabilities(c: ServerCapabilities, p: ConnackParamsView) -> ServerCapabilities {
    ServerCapabilities {
        maximum_packet_size: match p.maximum_packet_size {
            Some(s) => Some(s),
            None => c.maximum_packet_size,
        },
        maximum_qos: match p.maximum_qos {
            Some(q) => q,
            None => c.maximum_qos,
        },
        retain_available: match p.retain_available {
            Some(a) => a,
            None => c.retain_available,
        },
        wildcard_subscription_available: match p.wildcard_subscription_available {
            Some(a) => a,
            None => c.wildcard_subscription_available,
        },
        subscription_identifiers_available: match p.subscription_identifiers_available {
            Some(a) => a,
            None => c.subscription_identifiers_available,
        },
        shared_subscription_available: match p.shared_subscription_available {
            Some(a) => a,
            None => c.shared_subscription_available,
        },
    }
}

/// The properties of an accepted CONNACK applied to a connected state.
pub open spec fn spec_connack_properties(v2: SessionView, p: ConnackParamsView) -> SessionView {
    SessionView {
        flow_control: match p.receive_maximum {
            Some(m) => FlowControlView { receive_maximum: m, initialized: true, ..v2.flow_control },
            None => v2.flow_control,
        },
        session_expiry_interval: match p.session_expiry_interval {
            Some(i) => i,
            None => v2.session_expiry_interval,
        },
        topic_aliases: match p.topic_alias_maximum {
            Some(m) => TopicAliasView {
                peer_maximum: m,
                send: spec_ensure_len(v2.topic_aliases.send, (m + 1) as nat),
                ..v2.topic_aliases
            },
            None => v2.topic_aliases,
        },
        keep_alive: match p.server_keep_alive {
            Some(s) => KeepAliveView { keep_alive_secs: s, ..v2.keep_alive },
            None => v2.keep_alive,
        },
        server_capabilities: spec_apply_capabilities(v2.server_capabilities, p),
        client_id: match p.assigned_client_identifier {
            Some(a) => if v2.client_id.len() == 0 {
                a
            } else {
                v2.client_id
            },
            None => v2.client_id,
        },
        ..v2
    }
}

/// The state after an accepted CONNACK: the initial authentication completed
/// (MQTT v5.0), connected, then each property that the CONNACK carries
/// applied.
pub open spec fn spec_connack_apply(v: SessionView, p: ConnackParamsView) -> SessionView {
    let v1 = if v.protocol_version == MqttVersion::V5 {
        SessionView {
            auth: AuthView {
                state: spec_connack_received(v.auth.state, v.auth.method, p.authentication_method).1,
                method: v.auth.method,
            },
            ..v
        }
    } else {
        v
    };
    spec_connack_properties(spec_connected(v1, p.session_present), p)
}

/// The retransmission list of a state: each outgoing flow that needs something
/// sent again, with the action, in retransmission order.
pub open spec fn spec_retransmissions(q: QosFlowView, ids: Seq<u16>) -> Seq<(u16, Action)>
    decreases ids.len(),
{
    if ids.len() == 0 {
        Seq::empty()
    } else {
        let r = spec_retransmissions(q, ids.drop_last());
        match spec_retransmission(q, ids.last()) {
            Some(a) => r.push((ids.last(), a)),
            None => r,
        }
    }
}

/// Applies the capability properties of a CONNACK.
fn apply_capabilities(c: ServerCapabilities, params: &ConnackParams) -> (r: ServerCapabilities)
    ensures
        r == spec_apply_capabilities(c, params@),
{
    let mut c = c;
    if let Some(size) = params.maximum_packet_size {
        c.maximum_packet_size = Some(size);
    }
    if let Some(qos) = params.maximum_qos {
        c.maximum_qos = qos;
    }
    if let Some(available) = params.retain_available {
        c.retain_available = available;
    }
    if let Some(available) = params.wildcard_subscription_available {
        c.wildcard_subscription_available = available;
    }
    if let Some(available) = params.subscription_identifiers_available {
        c.subscription_identifiers_available = available;
    }
    if let Some(available) = params.shared_subscription_available {
        c.shared_subscription_available = available;
    }
    c
}

/// One MQTT session: all the state of one MQTT connection.
///
/// Holds each state machine and initialises and resets them as the connection
/// goes through its lifecycle.
#[derive(Debug)]
pub struct Session {
    protocol_version: MqttVersion,
    connection_state: ConnectionState,
    client_id: String,
    clean_start: bool,
    session_expiry_interval: u32,
    packet_id_manager: PacketIdManager,
    qos_flow: QosFlowManager,
    flow_control: FlowControl,
    subscription_manager: SubscriptionManager,
    topic_alias_manager: TopicAliasManager,
    keep_alive: KeepAlive,
    auth_state: AuthStateMachine,
    server_capabilities: ServerCapabilities,
    limits: Limits,
}

impl View for Session {
    type V = SessionView;

    closed spec fn view(&self) -> SessionView {
        SessionView {
            protocol_version: self.protocol_version,
            connection_state: self.connection_state,
            client_id: self.client_id@,
            clean_start: self.clean_start,
            session_expiry_interval: self.session_expiry_interval,
            packet_ids: self.packet_id_manager@,
            qos_flow: self.qos_flow@,
            flow_control: self.flow_control@,
            subscriptions: self.subscription_manager@,
            topic_aliases: self.topic_alias_manager@,
            keep_alive: self.keep_alive@,
            auth: self.auth_state@,
            server_capabilities: self.server_capabilities,
            limits: self.limits,
        }
    }
}

impl Session {
    /// The session's invariant: that of each state machine it holds.
    pub closed spec fn wf(&self) -> bool {
        &&& self.packet_id_manager.wf()
        &&& self.qos_flow.wf()
        &&& self.subscription_manager.wf()
        &&& self.topic_alias_manager.wf()
    }

    /// The state of a fresh session.
    pub open spec fn spec_initial(
        protocol_version: MqttVersion,
        client_id: Seq<char>,
        clean_start: bool,
    ) -> SessionView {
        SessionView {
            protocol_version,
            connection_state: ConnectionState::Disconnected,
            client_id,
            clean_start,
            session_expiry_interval: 0,
            packet_ids: spec_packet_ids_initial(),
            qos_flow: spec_qos_initial(),
            flow_control: spec_flow_initial(DEFAULT_RECEIVE_MAXIMUM),
            subscriptions: spec_subscriptions_initial(),
            topic_aliases: TopicAliasView {
                recv: Seq::empty(),
                send: Seq::empty(),
                own_maximum: 0,
                peer_maximum: 0,
            },
            keep_alive: KeepAliveView { keep_alive_secs: 0, last_activity: 0, pingreq_sent_at: None },
            auth: AuthView { state: AuthState::Idle, method: None },
            server_capabilities: spec_default_capabilities(),
            limits: Limits { max_packet_size: DEFAULT_MAX_PACKET_SIZE },
        }
    }

    /// Creates a session for `protocol_version`.
    ///
    /// Under MQTT v3.1.1 an empty Client Identifier requires Clean Session
    /// (MQTT v3.1.1 §3.1.3.1 [MQTT-3.1.3-7]); otherwise `InvalidClientId` is
    /// returned. Under MQTT v5.0 the server assigns one (§3.1.3.1 [MQTT-3.1.3-6]).
    pub fn new(protocol_version: MqttVersion, client_id: String, clean_start: bool) -> (r: Result<
        Self,
        SessionError,
    >)
        ensures
            protocol_version == MqttVersion::V311 && client_id@.len() == 0 && !clean_start ==> r
                == Err::<Self, SessionError>(SessionError::InvalidClientId),
            !(protocol_version == MqttVersion::V311 && client_id@.len() == 0 && !clean_start) ==> (
            r matches Ok(s) && s.wf() && s@ == Self::spec_initial(
                protocol_version,
                client_id@,
                clean_start,
            )),
    {
        if protocol_version == MqttVersion::V311 && client_id.as_str().is_empty() && !clean_start {
            return Err(SessionError::InvalidClientId);
        }
        let s = Self {
            protocol_version,
            connection_state: ConnectionState::Disconnected,
            client_id,
            clean_start,
            session_expiry_interval: 0,
            packet_id_manager: PacketIdManager::new(),
            qos_flow: QosFlowManager::new(),
            flow_control: FlowControl::new(),
            subscription_manager: SubscriptionManager::new(),
            topic_alias_manager: TopicAliasManager::new(),
            keep_alive: KeepAlive::new(0),
            auth_state: AuthStateMachine::new(),
            server_capabilities: ServerCapabilities::new(),
            limits: Limits::new(),
        };
        Ok(s)
    }

    /// Creates a MQTT v5.0 session.
    pub fn new_v5(client_id: String, clean_start: bool) -> (r: Result<Self, SessionError>)
        ensures
            r matches Ok(s) && s.wf() && s@ == Self::spec_initial(
                MqttVersion::V5,
                client_id@,
                clean_start,
            ),
    {
        Self::new(MqttVersion::V5, client_id, clean_start)
    }

    /// Creates a MQTT v3.1.1 session; an empty Client Identifier requires Clean
    /// Session.
    pub fn new_v311(client_id: String, clean_session: bool) -> (r: Result<Self, SessionError>)
        ensures
            client_id@.len() == 0 && !clean_session ==> r == Err::<Self, SessionError>(
                SessionError::InvalidClientId,
            ),
            !(client_id@.len() == 0 && !clean_session) ==> (r matches Ok(s) && s.wf() && s@
                == Self::spec_initial(MqttVersion::V311, client_id@, clean_session)),
    {
        Self::new(MqttVersion::V311, client_id, clean_session)
    }

    /// Returns the protocol version.
    pub fn protocol_version(&self) -> (r: MqttVersion)
        ensures
            r == self@.protocol_version,
    {
        self.protocol_version
    }

    /// Returns whether this is a MQTT v5.0 session.
    pub fn is_v5(&self) -> (r: bool)
        ensures
            r == (self@.protocol_version == MqttVersion::V5),
    {
        self.protocol_version == MqttVersion::V5
    }

    /// Returns whether this is a MQTT v3.1.1 session.
    pub fn is_v311(&self) -> (r: bool)
        ensures
            r == (self@.protocol_version == MqttVersion::V311),
    {
        self.protocol_version == MqttVersion::V311
    }

    /// Returns the Client Identifier.
    pub fn client_id(&self) -> (r: &str)
        ensures
            r@ == self@.client_id,
    {
        self.client_id.as_str()
    }

    /// Returns the connection state.
    pub fn connection_state(&self) -> (r: ConnectionState)
        ensures
            r == self@.connection_state,
    {
        self.connection_state
    }

    /// Returns Clean Start (Clean Session).
    pub fn clean_start(&self) -> (r: bool)
        ensures
            r == self@.clean_start,
    {
        self.clean_start
    }

    /// Returns the Session Expiry Interval in seconds.
    pub fn session_expiry_interval(&self) -> (r: u32)
        ensures
            r == self@.session_expiry_interval,
    {
        self.session_expiry_interval
    }

    /// Sets the Session Expiry Interval, from the CONNACK's property (0x11) or
    /// the value sent in CONNECT.
    pub fn set_session_expiry_interval(&mut self, interval: u32)
        requires
            old(self).wf(),
        ensures
            final(self).wf(),
            final(self)@ == (SessionView { session_expiry_interval: interval, ..old(self)@ }),
    {
        self.session_expiry_interval = interval;
    }

    /// Returns the packet size limits.
    pub fn limits(&self) -> (r: &Limits)
        ensures
            *r == self@.limits,
    {
        &self.limits
    }

    /// Sets the parameters of the coming CONNECT: the Keep Alive interval, the
    /// Session Expiry Interval, our Topic Alias Maximum, our Receive Maximum
    /// (0x21) and our Maximum Packet Size (0x27; 0 keeps the current limit).
    ///
    /// A Receive Maximum of 0 is a Protocol Error (MQTT v5.0 §3.1.2.11.3):
    /// `InvalidReceiveMaximum` is returned, after the Keep Alive, the Session
    /// Expiry Interval and the Topic Alias Maximum were set.
    pub fn configure_for_connect(
        &mut self,
        keep_alive_secs: u16,
        session_expiry_interval: u32,
        topic_alias_maximum: u16,
        receive_maximum: u16,
        maximum_packet_size: u32,
    ) -> (r: Result<(), FlowControlError>)
        requires
            old(self).wf(),
        ensures
            final(self).wf(),
            ({
                let v1 = SessionView {
                    keep_alive: KeepAliveView { keep_alive_secs, ..old(self)@.keep_alive },
                    session_expiry_interval,
                    topic_aliases: TopicAliasView {
                        own_maximum: topic_alias_maximum,
                        recv: spec_ensure_len(
                            old(self)@.topic_aliases.recv,
                            (topic_alias_maximum + 1) as nat,
                        ),
                        ..old(self)@.topic_aliases
                    },
                    ..old(self)@
                };
                &&& receive_maximum == 0 ==> r == Err::<(), FlowControlError>(
                    FlowControlError::InvalidReceiveMaximum,
                ) && final(self)@ == v1
                &&& receive_maximum != 0 ==> r is Ok && final(self)@ == (SessionView {
                    flow_control: FlowControlView {
                        own_receive_maximum: receive_maximum,
                        ..old(self)@.flow_control
                    },
                    limits: if maximum_packet_size > 0 {
                        Limits { max_packet_size: maximum_packet_size as usize }
                    } else {
                        old(self)@.limits
                    },
                    ..v1
                })
            }),
    {
        self.keep_alive.set_keep_alive(keep_alive_secs);
        self.session_expiry_interval = session_expiry_interval;
        self.topic_alias_manager.set_own_maximum(topic_alias_maximum);
        match self.flow_control.set_own_receive_maximum(receive_maximum) {
            Err(e) => {
                return Err(e);
            },
            Ok(()) => {},
        }
        if maximum_packet_size > 0 {
            self.limits = Limits::new().with_max_packet_size(maximum_packet_size as usize);
        }
        Ok(())
    }

    /// Applies a received CONNACK and records that the connection is established.
    ///
    /// First every check runs, in this order, and an error leaves the whole
    /// session unchanged: the state must be `Connecting`
    /// (MQTT v5.0 §3.2 [MQTT-3.2.0-1]); the reason must be of the session's
    /// version; a MQTT v3.1.1 session accepts no MQTT v5.0 property; the reason
    /// must be a success; Session Present must be 0 under Clean Start
    /// [MQTT-3.2.2-2][MQTT-3.2.2-4]; a session that connected with an empty
    /// Client Identifier needs a non-empty Assigned Client Identifier
    /// [MQTT-3.2.2-16]; Receive Maximum and Maximum Packet Size must not be 0 and
    /// Maximum QoS must not be 2; and under MQTT v5.0 the Authentication Method
    /// must match the authentication state [MQTT-4.12.0-5][MQTT-4.12.0-6]. Then
    /// the initial authentication completes, the session connects (discarding the
    /// session state unless it was resumed), and each property present is
    /// applied.
    ///
    /// A resumed session with no QoS flow and no subscription is accepted: a
    /// client's session state may well be empty (MQTT v5.0 §4.1).
    pub fn apply_connack(&mut self, params: ConnackParams) -> (r: Result<(), ConnackError>)
        requires
            old(self).wf(),
        ensures
            final(self).wf(),
            r == spec_connack_check(old(self)@, params@),
            r is Err ==> final(self)@ == old(self)@,
            r is Ok ==> final(self)@ == spec_connack_apply(old(self)@, params@),
    {
        match self.connack_precheck(&params) {
            Err(e) => {
                return Err(e);
            },
            Ok(()) => {},
        }
        if self.is_v5() {
            let method = match &params.authentication_method {
                Some(m) => Some(m.as_str()),
                None => None,
            };
            match self.auth_state.connack_received(method) {
                Err(AuthMethodError::Missing) => {
                    return Err(ConnackError::AuthenticationMethodMissing);
                },
                Err(AuthMethodError::Mismatch) => {
                    return Err(ConnackError::AuthenticationMethodMismatch);
                },
                Err(AuthMethodError::Unexpected) => {
                    return Err(ConnackError::UnexpectedAuthenticationMethod);
                },
                Ok(()) => {},
            }
        }
        self.connected(params.session_present);
        self.apply_connack_properties(params);
        Ok(())
    }

    /// The checks of a CONNACK that come before the Authentication Method.
    fn connack_precheck(&self, params: &ConnackParams) -> (r: Result<(), ConnackError>)
        ensures
            r == spec_connack_precheck(self@, params@),
    {
        if self.connection_state != ConnectionState::Connecting {
            return Err(ConnackError::InvalidConnectionState);
        }
        let version_matches = match params.reason_code {
            ConnackReason::V5(_) => self.is_v5(),
            ConnackReason::V311(_) => self.is_v311(),
        };
        if !version_matches {
            return Err(ConnackError::VersionMismatch);
        }
        if self.is_v311() && params.has_v5_only_fields() {
            return Err(ConnackError::V5OnlyParameters);
        }
        if !params.reason_code.is_success() {
            return Err(ConnackError::ConnectionRefused);
        }
        if params.session_present && self.clean_start {
            return Err(ConnackError::SessionPresentProtocolError);
        }
        let assigned_missing = match &params.assigned_client_identifier {
            Some(a) => a.as_str().is_empty(),
            None => true,
        };
        if self.is_v5() && self.client_id.as_str().is_empty() && assigned_missing {
            return Err(ConnackError::AssignedClientIdentifierMissing);
        }
        if params.receive_maximum == Some(0u16) {
            return Err(ConnackError::InvalidReceiveMaximum);
        }
        if params.maximum_packet_size == Some(0u32) {
            return Err(ConnackError::InvalidMaximumPacketSize);
        }
        if params.maximum_qos == Some(QoS::ExactlyOnce) {
            return Err(ConnackError::InvalidMaximumQoS);
        }
        Ok(())
    }

    /// Applies the properties of an accepted CONNACK.
    fn apply_connack_properties(&mut self, params: ConnackParams)
        requires
            old(self).wf(),
            params@.receive_maximum != Some(0u16),
        ensures
            final(self).wf(),
            final(self)@ == spec_connack_properties(old(self)@, params@),
    {
        if let Some(max) = params.receive_maximum {
            let _ = self.flow_control.set_receive_maximum(max);
        }
        if let Some(interval) = params.session_expiry_interval {
            self.session_expiry_interval = interval;
        }
        if let Some(max) = params.topic_alias_maximum {
            self.topic_alias_manager.set_peer_maximum(max);
        }
        if let Some(secs) = params.server_keep_alive {
            self.keep_alive.set_keep_alive(secs);
        }
        self.server_capabilities = apply_capabilities(self.server_capabilities, &params);
        if let Some(assigned) = params.assigned_client_identifier {
            if self.client_id.as_str().is_empty() {
                self.client_id = assigned;
            }
        }
    }

    /// Records a sent CONNECT: the connection is `Connecting` and the state of
    /// the connection is reinitialised; the session state stays.
    pub fn connect_sent(&mut self)
        requires
            old(self).wf(),
        ensures
            final(self).wf(),
            final(self)@ == spec_reset_connection_state(
                SessionView { connection_state: ConnectionState::Connecting, ..old(self)@ },
            ),
    {
        self.connection_state = ConnectionState::Connecting;
        self.reset_connection_state();
    }

    /// Records a sent CONNECT that carries the Authentication Method
    /// `authentication_method` (MQTT v5.0 §3.1.2.11.9 [MQTT-3.1.2-30]): as
    /// [`connect_sent`](Self::connect_sent), then the initial authentication
    /// starts. The order matters: resetting the connection state resets
    /// authentication.
    ///
    /// A MQTT v3.1.1 session has no enhanced authentication: `V5OnlyOperation` is
    /// returned and nothing changes.
    pub fn connect_sent_with_auth(&mut self, authentication_method: String) -> (r: Result<
        (),
        AuthError,
    >)
        requires
            old(self).wf(),
        ensures
            final(self).wf(),
            old(self)@.protocol_version != MqttVersion::V5 ==> r == Err::<(), AuthError>(
                AuthError::V5OnlyOperation,
            ) && final(self)@ == old(self)@,
            old(self)@.protocol_version == MqttVersion::V5 ==> r is Ok && final(self)@ == (
            SessionView {
                auth: AuthView {
                    state: AuthState::InitialAuthenticating,
                    method: Some(authentication_method@),
                },
                ..spec_reset_connection_state(
                    SessionView { connection_state: ConnectionState::Connecting, ..old(self)@ },
                )
            }),
    {
        if !self.is_v5() {
            return Err(AuthError::V5OnlyOperation);
        }
        self.connect_sent();
        self.auth_state.connect_with_auth(authentication_method);
        Ok(())
    }

    /// Records a CONNACK: the connection is established, and the session state
    /// (QoS flows, Packet Identifiers, subscriptions) is discarded when Clean
    /// Start is set or `session_present` is false. The CONNACK's properties are
    /// applied by [`apply_connack`](Self::apply_connack).
    pub fn connected(&mut self, session_present: bool)
        requires
            old(self).wf(),
        ensures
            final(self).wf(),
            final(self)@ == spec_connected(old(self)@, session_present),
    {
        self.connection_state = ConnectionState::Connected;
        if self.clean_start || !session_present {
            self.reset_session_state();
        }
    }

    /// Records a sent DISCONNECT: the connection is `Disconnecting`.
    pub fn disconnect_sent(&mut self)
        requires
            old(self).wf(),
        ensures
            final(self).wf(),
            final(self)@ == (SessionView {
                connection_state: ConnectionState::Disconnecting,
                ..old(self)@
            }),
    {
        self.connection_state = ConnectionState::Disconnecting;
    }

    /// Records a DISCONNECT received from the server (MQTT v5.0 only).
    pub fn disconnect_received(&mut self)
        requires
            old(self).wf(),
        ensures
            final(self).wf(),
            final(self)@ == (SessionView {
                connection_state: ConnectionState::Disconnected,
                ..old(self)@
            }),
    {
        self.connection_state = ConnectionState::Disconnected;
    }

    /// Records that the connection was lost or closed.
    pub fn disconnected(&mut self)
        requires
            old(self).wf(),
        ensures
            final(self).wf(),
            final(self)@ == (SessionView {
                connection_state: ConnectionState::Disconnected,
                ..old(self)@
            }),
    {
        self.connection_state = ConnectionState::Disconnected;
    }

    /// Returns whether the connection is established.
    pub fn is_connected(&self) -> (r: bool)
        ensures
            r == (self@.connection_state == ConnectionState::Connected),
    {
        self.connection_state == ConnectionState::Connected
    }

    /// Returns whether the connection is established or being established.
    pub fn is_active(&self) -> (r: bool)
        ensures
            r == (self@.connection_state == ConnectionState::Connected
                || self@.connection_state == ConnectionState::Connecting),
    {
        self.connection_state == ConnectionState::Connected || self.connection_state
            == ConnectionState::Connecting
    }

    /// Records a received PINGRESP: no PINGRESP is awaited any more.
    pub fn pingresp_received(&mut self)
        requires
            old(self).wf(),
        ensures
            final(self).wf(),
            final(self)@ == (SessionView {
                keep_alive: KeepAliveView { pingreq_sent_at: None, ..old(self)@.keep_alive },
                ..old(self)@
            }),
    {
        self.keep_alive.pingresp_received();
    }

    /// Records a PINGREQ sent at `now`: a PINGRESP is awaited, and the Keep
    /// Alive timer restarts (MQTT v5.0 §3.1.2.10 [MQTT-3.1.2-20]).
    pub fn pingreq_sent(&mut self, now: Timestamp)
        requires
            old(self).wf(),
        ensures
            final(self).wf(),
            final(self)@ == (SessionView {
                keep_alive: KeepAliveView {
                    last_activity: now,
                    pingreq_sent_at: Some(now),
                    ..old(self)@.keep_alive
                },
                ..old(self)@
            }),
    {
        self.keep_alive.pingreq_sent(now);
    }

    /// Records that a Control Packet other than PINGREQ was sent at `now`,
    /// restarting the Keep Alive timer.
    pub fn activity(&mut self, now: Timestamp)
        requires
            old(self).wf(),
        ensures
            final(self).wf(),
            final(self)@ == (SessionView {
                keep_alive: KeepAliveView { last_activity: now, ..old(self)@.keep_alive },
                ..old(self)@
            }),
    {
        self.keep_alive.activity(now);
    }

    /// Handles a received AUTH; see [`AuthStateMachine::auth_received`].
    pub fn auth_received(&mut self, reason_code: u8, authentication_method: Option<&str>) -> (r:
        AuthAction)
        requires
            old(self).wf(),
        ensures
            final(self).wf(),
            ({
                let (a, st, m) = spec_auth_received(
                    old(self)@.auth.state,
                    old(self)@.auth.method,
                    reason_code,
                    spec_opt_str(authentication_method),
                );
                r == a && final(self)@ == (SessionView {
                    auth: AuthView { state: st, method: m },
                    ..old(self)@
                })
            }),
    {
        self.auth_state.auth_received(reason_code, authentication_method)
    }

    /// Records a sent AUTH 0x19 (Re-authenticate); see
    /// [`AuthStateMachine::reauthenticate_sent`].
    pub fn reauthenticate_sent(&mut self) -> (r: Result<(), AuthError>)
        requires
            old(self).wf(),
        ensures
            final(self).wf(),
            old(self)@.auth.state == AuthState::Authenticated ==> r is Ok && final(self)@ == (
            SessionView {
                auth: AuthView { state: AuthState::Reauthenticating, ..old(self)@.auth },
                ..old(self)@
            }),
            old(self)@.auth.state != AuthState::Authenticated ==> r == Err::<(), AuthError>(
                AuthError::NotAuthenticated,
            ) && final(self)@ == old(self)@,
    {
        self.auth_state.reauthenticate_sent()
    }

    /// Returns whether an authentication is in progress. The authentication
    /// state follows the AUTH exchange, not the Network Connection: it survives a
    /// disconnection until the next CONNECT.
    pub fn is_authenticating(&self) -> (r: bool)
        ensures
            r == (self@.auth.state == AuthState::InitialAuthenticating || self@.auth.state
                == AuthState::Reauthenticating),
    {
        self.auth_state.is_authenticating()
    }

    /// Returns whether the initial authentication is in progress.
    pub fn is_initial_authenticating(&self) -> (r: bool)
        ensures
            r == (self@.auth.state == AuthState::InitialAuthenticating),
    {
        self.auth_state.is_initial_authenticating()
    }

    /// Returns whether a re-authentication is in progress.
    pub fn is_reauthenticating(&self) -> (r: bool)
        ensures
            r == (self@.auth.state == AuthState::Reauthenticating),
    {
        self.auth_state.is_reauthenticating()
    }

    /// Returns whether authentication is complete (and no re-authentication has
    /// started).
    pub fn is_authenticated(&self) -> (r: bool)
        ensures
            r == (self@.auth.state == AuthState::Authenticated),
    {
        self.auth_state.is_authenticated()
    }

    /// Handles a received PUBACK: a completed QoS 1 flow returns its send quota
    /// and releases its Packet Identifier.
    pub fn handle_puback(&mut self, packet_id: u16) -> (r: Result<Option<Action>, FlowError>)
        requires
            old(self).wf(),
        ensures
            final(self).wf(),
            ({
                let (res, q) = spec_ack_received(
                    old(self)@.qos_flow,
                    packet_id,
                    FlowState::AwaitingPuback,
                );
                &&& r == res
                &&& res matches Ok(Some(_)) ==> final(self)@ == Self::spec_released(
                    SessionView { qos_flow: q, ..old(self)@ },
                    packet_id,
                )
                &&& !(res matches Ok(Some(_))) ==> final(self)@ == old(self)@
            }),
    {
        match self.qos_flow.puback_received(packet_id) {
            Err(e) => Err(e),
            Ok(None) => Ok(None),
            Ok(Some(action)) => {
                self.flow_control.publish_acked();
                self.packet_id_manager.release(packet_id);
                Ok(Some(action))
            },
        }
    }

    /// The state after an outgoing flow ended: its send quota is back and its
    /// Packet Identifier released.
    pub open spec fn spec_released(v: SessionView, packet_id: u16) -> SessionView {
        SessionView {
            flow_control: FlowControlView {
                outstanding_count: if v.flow_control.outstanding_count > 0 {
                    (v.flow_control.outstanding_count - 1) as u16
                } else {
                    0u16
                },
                ..v.flow_control
            },
            packet_ids: if v.packet_ids.in_use.contains(packet_id) {
                PacketIdView {
                    in_use: v.packet_ids.in_use.remove(packet_id),
                    free_list: v.packet_ids.free_list.insert(packet_id),
                    ..v.packet_ids
                }
            } else {
                v.packet_ids
            },
            ..v
        }
    }

    /// The state after a QoS 1 or QoS 2 PUBLISH was recorded: a send quota is
    /// taken and, unless a flow is already recorded for the identifier, its
    /// outgoing flow starts.
    pub open spec fn spec_publish_recorded(v: SessionView, qos: QoS, packet_id: u16) -> SessionView {
        SessionView {
            flow_control: FlowControlView {
                outstanding_count: (v.flow_control.outstanding_count + 1) as u16,
                ..v.flow_control
            },
            qos_flow: if v.qos_flow.outgoing.contains_key(packet_id) {
                v.qos_flow
            } else {
                QosFlowView {
                    outgoing: v.qos_flow.outgoing.insert(
                        packet_id,
                        crate::state::qos_flow::OutgoingFlow {
                            seq: v.qos_flow.next_seq,
                            state: if qos == QoS::AtLeastOnce {
                                FlowState::AwaitingPuback
                            } else {
                                FlowState::AwaitingPubrec
                            },
                            quota_charged: true,
                        },
                    ),
                    next_seq: (v.qos_flow.next_seq + 1) as u64,
                    ..v.qos_flow
                }
            },
            ..v
        }
    }

    /// The state after an outgoing PUBLISH flow was abandoned: its send quota
    /// comes back if an outgoing flow of that identifier was in progress (and
    /// only then, so that a second abort takes no quota from other flows), its
    /// flows in both directions end, and its Packet Identifier is released.
    pub open spec fn spec_publish_aborted(v: SessionView, packet_id: u16) -> SessionView {
        let active = v.qos_flow.outgoing.contains_key(packet_id);
        Self::spec_release_id(
            SessionView {
                flow_control: if active {
                    FlowControlView {
                        outstanding_count: if v.flow_control.outstanding_count > 0 {
                            (v.flow_control.outstanding_count - 1) as u16
                        } else {
                            0u16
                        },
                        ..v.flow_control
                    }
                } else {
                    v.flow_control
                },
                qos_flow: QosFlowView {
                    outgoing: v.qos_flow.outgoing.remove(packet_id),
                    incoming: v.qos_flow.incoming.remove(packet_id),
                    ..v.qos_flow
                },
                ..v
            },
            packet_id,
        )
    }

    /// The state after a SUBSCRIBE with `entries` was recorded.
    pub open spec fn spec_subscribe_recorded(v: SessionView, packet_id: u16, entries: Seq<EntryView>) -> SessionView {
        SessionView {
            subscriptions: SubscriptionView {
                pending_subscribes: v.subscriptions.pending_subscribes.insert(packet_id, entries),
                ..v.subscriptions
            },
            ..v
        }
    }

    /// The state after a SUBSCRIBE was abandoned: its pending entry is dropped and
    /// its Packet Identifier released.
    pub open spec fn spec_subscribe_aborted(v: SessionView, packet_id: u16) -> SessionView {
        Self::spec_release_id(
            SessionView {
                subscriptions: SubscriptionView {
                    pending_subscribes: v.subscriptions.pending_subscribes.remove(packet_id),
                    ..v.subscriptions
                },
                ..v
            },
            packet_id,
        )
    }

    /// The state after an UNSUBSCRIBE with `filters` was recorded.
    pub open spec fn spec_unsubscribe_recorded(v: SessionView, packet_id: u16, filters: Seq<Seq<char>>) -> SessionView {
        SessionView {
            subscriptions: SubscriptionView {
                pending_unsubscribes: v.subscriptions.pending_unsubscribes.insert(packet_id, filters),
                ..v.subscriptions
            },
            ..v
        }
    }

    /// The state after an UNSUBSCRIBE was abandoned: its pending entry is dropped
    /// and its Packet Identifier released.
    pub open spec fn spec_unsubscribe_aborted(v: SessionView, packet_id: u16) -> SessionView {
        Self::spec_release_id(
            SessionView {
                subscriptions: SubscriptionView {
                    pending_unsubscribes: v.subscriptions.pending_unsubscribes.remove(packet_id),
                    ..v.subscriptions
                },
                ..v
            },
            packet_id,
        )
    }

    /// Releases a Packet Identifier in the state.
    pub open spec fn spec_release_id(v: SessionView, packet_id: u16) -> SessionView {
        SessionView {
            packet_ids: if v.packet_ids.in_use.contains(packet_id) {
                PacketIdView {
                    in_use: v.packet_ids.in_use.remove(packet_id),
                    free_list: v.packet_ids.free_list.insert(packet_id),
                    ..v.packet_ids
                }
            } else {
                v.packet_ids
            },
            ..v
        }
    }

    /// Handles a received PUBREC with `reason_code`: the QoS 2 flow goes on, or,
    /// with a Reason Code of 0x80 or more, ends, returning its send quota and
    /// releasing its Packet Identifier.
    pub fn handle_pubrec(&mut self, packet_id: u16, reason_code: u8) -> (r: Result<
        Option<Action>,
        FlowError,
    >)
        requires
            old(self).wf(),
            old(self)@.qos_flow.next_seq < u64::MAX,
        ensures
            final(self).wf(),
            ({
                let (res, q) = spec_pubrec_received(old(self)@.qos_flow, packet_id, reason_code);
                &&& r == res
                &&& res matches Ok(Some(Action::Aborted { .. })) ==> final(self)@
                    == Self::spec_released(SessionView { qos_flow: q, ..old(self)@ }, packet_id)
                &&& !(res matches Ok(Some(Action::Aborted { .. }))) ==> final(self)@ == (
                SessionView { qos_flow: q, ..old(self)@ })
            }),
    {
        match self.qos_flow.pubrec_received(packet_id, reason_code) {
            Err(e) => Err(e),
            Ok(None) => Ok(None),
            Ok(Some(action)) => {
                if let Action::Aborted { .. } = action {
                    self.flow_control.publish_acked();
                    self.packet_id_manager.release(packet_id);
                }
                Ok(Some(action))
            },
        }
    }

    /// Handles a received PUBREL; see [`QosFlowManager::pubrel_received`]. After
    /// sending the PUBCOMP of a `SendPubcomp`, call
    /// [`pubcomp_sent`](Self::pubcomp_sent); not after a `ResendPubcomp`.
    pub fn handle_pubrel(&mut self, packet_id: u16) -> (r: Result<Option<Action>, FlowError>)
        requires
            old(self).wf(),
        ensures
            final(self).wf(),
            ({
                let (res, q) = spec_pubrel_received(old(self)@.qos_flow, packet_id);
                r == res && final(self)@ == (SessionView { qos_flow: q, ..old(self)@ })
            }),
    {
        self.qos_flow.pubrel_received(packet_id)
    }

    /// Handles a received PUBCOMP: a completed QoS 2 flow returns its send quota
    /// and releases its Packet Identifier.
    pub fn handle_pubcomp(&mut self, packet_id: u16) -> (r: Result<Option<Action>, FlowError>)
        requires
            old(self).wf(),
        ensures
            final(self).wf(),
            ({
                let (res, q) = spec_ack_received(
                    old(self)@.qos_flow,
                    packet_id,
                    FlowState::AwaitingPubcomp,
                );
                &&& r == res
                &&& res matches Ok(Some(_)) ==> final(self)@ == Self::spec_released(
                    SessionView { qos_flow: q, ..old(self)@ },
                    packet_id,
                )
                &&& !(res matches Ok(Some(_))) ==> final(self)@ == old(self)@
            }),
    {
        match self.qos_flow.pubcomp_received(packet_id) {
            Err(e) => Err(e),
            Ok(None) => Ok(None),
            Ok(Some(action)) => {
                self.flow_control.publish_acked();
                self.packet_id_manager.release(packet_id);
                Ok(Some(action))
            },
        }
    }

    /// The flow control state after an incoming PUBLISH with `packet_id`: a
    /// retransmission of a message already in an incoming flow is not counted
    /// again (MQTT v5.0 §3.3.4 [MQTT-3.3.4-9]).
    pub open spec fn spec_count_incoming(v: SessionView, packet_id: u16) -> Option<FlowControlView> {
        if v.qos_flow.incoming.contains_key(packet_id) {
            Some(v.flow_control)
        } else if v.flow_control.incoming_count < v.flow_control.own_receive_maximum {
            Some(
                FlowControlView {
                    incoming_count: (v.flow_control.incoming_count + 1) as u16,
                    ..v.flow_control
                },
            )
        } else {
            None
        }
    }

    /// Handles a received QoS 1 PUBLISH: counts it against our Receive Maximum
    /// unless it repeats a message in flight, and asks for a PUBACK. Beyond the
    /// Receive Maximum, `ReceiveMaximumExceeded` is returned and nothing changes;
    /// the caller must then disconnect with Reason Code 0x93 (MQTT v5.0 §4.9).
    pub fn handle_publish_qos1(&mut self, packet_id: u16) -> (r: Result<Action, FlowControlError>)
        requires
            old(self).wf(),
        ensures
            final(self).wf(),
            match Self::spec_count_incoming(old(self)@, packet_id) {
                None => r == Err::<Action, FlowControlError>(
                    FlowControlError::ReceiveMaximumExceeded,
                ) && final(self)@ == old(self)@,
                Some(f) => r == Ok::<Action, FlowControlError>(Action::SendPuback { packet_id })
                    && final(self)@ == (SessionView {
                    flow_control: f,
                    qos_flow: QosFlowView {
                        incoming: old(self)@.qos_flow.incoming.insert(
                            packet_id,
                            FlowState::IncomingAwaitingPuback,
                        ),
                        ..old(self)@.qos_flow
                    },
                    ..old(self)@
                }),
            },
    {
        if !self.qos_flow.has_incoming_flow(packet_id) {
            match self.flow_control.publish_received() {
                Err(e) => {
                    return Err(e);
                },
                Ok(()) => {},
            }
        }
        Ok(self.qos_flow.publish_received_qos1(packet_id))
    }

    /// Handles a received QoS 2 PUBLISH: counts it against our Receive Maximum
    /// unless it repeats a message in flight, and asks for a PUBREC; a repeat is
    /// marked as a duplicate, which must not be delivered onward
    /// (MQTT v5.0 §4.3.3 [MQTT-4.3.3-10]). Beyond the Receive Maximum,
    /// `ReceiveMaximumExceeded` is returned and nothing changes.
    pub fn handle_publish_qos2(&mut self, packet_id: u16) -> (r: Result<Action, FlowControlError>)
        requires
            old(self).wf(),
        ensures
            final(self).wf(),
            match Self::spec_count_incoming(old(self)@, packet_id) {
                None => r == Err::<Action, FlowControlError>(
                    FlowControlError::ReceiveMaximumExceeded,
                ) && final(self)@ == old(self)@,
                Some(f) => r == Ok::<Action, FlowControlError>(
                    Action::SendPubrec {
                        packet_id,
                        is_duplicate: old(self)@.qos_flow.incoming.contains_key(packet_id),
                    },
                ) && final(self)@ == (SessionView {
                    flow_control: f,
                    qos_flow: QosFlowView {
                        incoming: old(self)@.qos_flow.incoming.insert(
                            packet_id,
                            FlowState::AwaitingPubrel,
                        ),
                        ..old(self)@.qos_flow
                    },
                    ..old(self)@
                }),
            },
    {
        if !self.qos_flow.has_incoming_flow(packet_id) {
            match self.flow_control.publish_received() {
                Err(e) => {
                    return Err(e);
                },
                Ok(()) => {},
            }
        }
        Ok(self.qos_flow.publish_received_qos2(packet_id))
    }

    /// The flow control state after an incoming flow ended.
    pub open spec fn spec_incoming_done(f: FlowControlView) -> FlowControlView {
        FlowControlView {
            incoming_count: if f.incoming_count > 0 {
                (f.incoming_count - 1) as u16
            } else {
                0u16
            },
            ..f
        }
    }

    /// Records the PUBACK sent for a received QoS 1 PUBLISH with `packet_id`: its
    /// incoming flow ends and its receive quota is freed.
    pub fn puback_sent(&mut self, packet_id: u16)
        requires
            old(self).wf(),
        ensures
            final(self).wf(),
            final(self)@ == (SessionView {
                qos_flow: QosFlowView {
                    incoming: if old(self)@.qos_flow.incoming.contains_key(packet_id)
                        && old(self)@.qos_flow.incoming[packet_id]
                        == FlowState::IncomingAwaitingPuback {
                        old(self)@.qos_flow.incoming.remove(packet_id)
                    } else {
                        old(self)@.qos_flow.incoming
                    },
                    ..old(self)@.qos_flow
                },
                flow_control: Self::spec_incoming_done(old(self)@.flow_control),
                ..old(self)@
            }),
    {
        self.qos_flow.puback_sent(packet_id);
        self.flow_control.publish_ack_sent();
    }

    /// Records a PUBREC sent for a received QoS 2 PUBLISH. A successful PUBREC
    /// does not end the incoming flow, which goes on until the PUBCOMP
    /// (MQTT v5.0 §3.3.4 [MQTT-3.3.4-9]); a PUBREC with a Reason Code of 0x80 or
    /// more ends it and frees its receive quota.
    pub fn pubrec_sent(&mut self, reason_code: u8)
        requires
            old(self).wf(),
        ensures
            final(self).wf(),
            reason_code >= 0x80 ==> final(self)@ == (SessionView {
                flow_control: Self::spec_incoming_done(old(self)@.flow_control),
                ..old(self)@
            }),
            reason_code < 0x80 ==> final(self)@ == old(self)@,
    {
        if reason_code >= 0x80 {
            self.flow_control.publish_ack_sent();
        }
    }

    /// Records the PUBCOMP sent for a received QoS 2 PUBLISH: its receive quota is
    /// freed.
    pub fn pubcomp_sent(&mut self)
        requires
            old(self).wf(),
        ensures
            final(self).wf(),
            final(self)@ == (SessionView {
                flow_control: Self::spec_incoming_done(old(self)@.flow_control),
                ..old(self)@
            }),
    {
        self.flow_control.publish_ack_sent();
    }

    /// Returns what must be sent again, as `(Packet Identifier, action)` pairs:
    /// unacknowledged QoS 1 and QoS 2 PUBLISH packets and unanswered PUBREL
    /// packets, in retransmission order (MQTT v5.0 §4.6 [MQTT-4.6.0-1]
    /// [MQTT-4.6.0-4]; see [`QosFlowManager::pending_packet_ids`]).
    pub fn pending_retransmissions(&self) -> (r: Vec<(u16, Action)>)
        requires
            self.wf(),
        ensures
            exists|ids: Seq<u16>| #[trigger]
                spec_in_seq_order(self@.qos_flow, ids) && r@ == spec_retransmissions(
                    self@.qos_flow,
                    ids,
                ),
    {
        let ids = self.qos_flow.pending_packet_ids();
        let mut r: Vec<(u16, Action)> = Vec::new();
        let mut i: usize = 0;
        while i < ids.len()
            invariant
                i <= ids@.len(),
                self.wf(),
                r@ == spec_retransmissions(self@.qos_flow, ids@.take(i as int)),
            decreases ids@.len() - i,
        {
            let id = ids[i];
            assert(ids@.take(i + 1).drop_last() =~= ids@.take(i as int));
            if let Some(action) = self.qos_flow.needs_retransmission(id) {
                r.push((id, action));
            }
            i = i + 1;
        }
        assert(ids@.take(i as int) =~= ids@);
        assert(spec_in_seq_order(self@.qos_flow, ids@));
        r
    }

    /// Records a PUBLISH retransmission for `packet_id`.
    ///
    /// If the identifier is an unacknowledged QoS 1 or 2 PUBLISH whose flow has
    /// not yet used send quota on this connection, one send quota is used
    /// (MQTT v5.0 §4.9 [MQTT-4.9.0-2]) and `ResendPublish` returned; without quota,
    /// `ReceiveMaximumExceeded`. If the flow already used quota on this
    /// connection, MQTT v5.0 returns `None` (a PUBLISH is sent again only after a
    /// reconnection [MQTT-4.4.0-1]) and MQTT v3.1.1 returns `ResendPublish`
    /// without using quota again. Anything else returns `None`.
    pub fn resend_publish(&mut self, packet_id: u16) -> (r: Result<Option<Action>, FlowControlError>)
        requires
            old(self).wf(),
        ensures
            final(self).wf(),
            ({
                let v = old(self)@;
                let act = spec_retransmission(v.qos_flow, packet_id);
                if act == Some(Action::ResendPublish { packet_id }) {
                    if v.qos_flow.outgoing[packet_id].quota_charged {
                        final(self)@ == v && r == if v.protocol_version == MqttVersion::V5 {
                            Ok::<Option<Action>, FlowControlError>(None)
                        } else {
                            Ok(act)
                        }
                    } else if v.flow_control.outstanding_count < v.flow_control.receive_maximum {
                        r == Ok::<Option<Action>, FlowControlError>(act) && final(self)@ == (
                        SessionView {
                            flow_control: FlowControlView {
                                outstanding_count: (v.flow_control.outstanding_count + 1) as u16,
                                ..v.flow_control
                            },
                            qos_flow: QosFlowView {
                                outgoing: v.qos_flow.outgoing.insert(
                                    packet_id,
                                    crate::state::qos_flow::OutgoingFlow {
                                        quota_charged: true,
                                        ..v.qos_flow.outgoing[packet_id]
                                    },
                                ),
                                ..v.qos_flow
                            },
                            ..v
                        })
                    } else {
                        r == Err::<Option<Action>, FlowControlError>(
                            FlowControlError::ReceiveMaximumExceeded,
                        ) && final(self)@ == v
                    }
                } else {
                    r == Ok::<Option<Action>, FlowControlError>(None) && final(self)@ == v
                }
            }),
    {
        let action = self.qos_flow.needs_retransmission(packet_id);
        match action {
            Some(Action::ResendPublish { .. }) => {
                if self.qos_flow.is_quota_charged(packet_id) {
                    if self.is_v5() {
                        return Ok(None);
                    }
                    return Ok(action);
                }
                match self.flow_control.publish_sent() {
                    Err(e) => {
                        return Err(e);
                    },
                    Ok(()) => {},
                }
                self.qos_flow.mark_quota_charged(packet_id);
                Ok(action)
            },
            _ => Ok(None),
        }
    }

    /// Records a PUBREL retransmission for `packet_id`: `ResendPubrel` when the
    /// QoS 2 flow awaits its PUBCOMP, otherwise `None`. A PUBREL uses no send
    /// quota (MQTT v5.0 §4.9 [MQTT-4.9.0-2][MQTT-4.9.0-3]).
    pub fn resend_pubrel(&mut self, packet_id: u16) -> (r: Option<Action>)
        requires
            old(self).wf(),
        ensures
            final(self).wf(),
            final(self)@ == old(self)@,
            r == if spec_retransmission(old(self)@.qos_flow, packet_id) == Some(
                Action::ResendPubrel { packet_id },
            ) {
                Some(Action::ResendPubrel { packet_id })
            } else {
                None
            },
    {
        let action = self.qos_flow.needs_retransmission(packet_id);
        match action {
            Some(Action::ResendPubrel { .. }) => action,
            _ => None,
        }
    }

    /// Hands out an unused Packet Identifier for a SUBSCRIBE, UNSUBSCRIBE or QoS 1
    /// or 2 PUBLISH ([MQTT-2.2.1-3]); `None` when all are in use. As
    /// [`PacketIdManager::allocate`], it takes the smallest released identifier
    /// first, else the next never-used one.
    pub fn allocate_packet_id(&mut self) -> (r: Option<u16>)
        requires
            old(self).wf(),
        ensures
            final(self).wf(),
            PacketIdManager::spec_allocated(old(self)@.packet_ids, final(self)@.packet_ids, r),
            r matches Some(id) ==> id != 0 && !old(self)@.packet_ids.in_use.contains(id)
                && final(self)@.packet_ids.in_use == old(self)@.packet_ids.in_use.insert(id),
            r is None <==> forall|id: u16| id != 0 ==> #[trigger] old(self)@.packet_ids.in_use.contains(
                id,
            ),
            final(self)@ == (SessionView { packet_ids: final(self)@.packet_ids, ..old(self)@ }),
    {
        self.packet_id_manager.allocate()
    }

    /// Records a sent QoS 1 or 2 PUBLISH with `packet_id`: one send quota is used
    /// and its outgoing flow starts.
    ///
    /// QoS 0 is `InvalidQoS` and identifier 0 `InvalidPacketId`
    /// ([MQTT-2.2.1-3]); without send quota, `ReceiveMaximumExceeded`
    /// ([MQTT-3.3.4-7], [MQTT-4.9.0-2]). Errors change nothing.
    pub fn publish_sent(&mut self, qos: QoS, packet_id: u16) -> (r: Result<(), FlowControlError>)
        requires
            old(self).wf(),
            old(self)@.qos_flow.next_seq < u64::MAX,
        ensures
            final(self).wf(),
            qos == QoS::AtMostOnce ==> r == Err::<(), FlowControlError>(
                FlowControlError::InvalidQoS,
            ) && final(self)@ == old(self)@,
            qos != QoS::AtMostOnce && packet_id == 0 ==> r == Err::<(), FlowControlError>(
                FlowControlError::InvalidPacketId,
            ) && final(self)@ == old(self)@,
            qos != QoS::AtMostOnce && packet_id != 0 && old(self)@.flow_control.outstanding_count
                >= old(self)@.flow_control.receive_maximum ==> r == Err::<(), FlowControlError>(
                FlowControlError::ReceiveMaximumExceeded,
            ) && final(self)@ == old(self)@,
            qos != QoS::AtMostOnce && packet_id != 0 && old(self)@.flow_control.outstanding_count
                < old(self)@.flow_control.receive_maximum ==> r is Ok && final(self)@
                == Self::spec_publish_recorded(old(self)@, qos, packet_id),
    {
        if qos == QoS::AtMostOnce {
            return Err(FlowControlError::InvalidQoS);
        }
        if packet_id == 0 {
            return Err(FlowControlError::InvalidPacketId);
        }
        match self.flow_control.publish_sent() {
            Err(e) => {
                return Err(e);
            },
            Ok(()) => {},
        }
        if qos == QoS::AtLeastOnce {
            self.qos_flow.publish_sent_qos1(packet_id);
        } else {
            self.qos_flow.publish_sent_qos2(packet_id);
        }
        Ok(())
    }

    /// Ends an outgoing PUBLISH flow that will not complete (sending failed, or
    /// its acknowledgement timed out): its send quota comes back if an outgoing
    /// flow of that identifier was in progress, its flows in both directions
    /// end, and its Packet Identifier is released. Without an outgoing flow (a
    /// second abort, or an abort after the flow completed) the outstanding count
    /// stays as it is.
    pub fn abort_publish(&mut self, packet_id: u16)
        requires
            old(self).wf(),
        ensures
            final(self).wf(),
            final(self)@ == Self::spec_publish_aborted(old(self)@, packet_id),
            !old(self)@.qos_flow.outgoing.contains_key(packet_id)
                ==> final(self)@.flow_control.outstanding_count == old(self)@.flow_control.outstanding_count,
            old(self)@.qos_flow.outgoing.contains_key(packet_id) && old(self)@.flow_control.outstanding_count > 0
                ==> final(self)@.flow_control.outstanding_count == old(self)@.flow_control.outstanding_count - 1,
    {
        if self.qos_flow.has_outgoing_flow(packet_id) {
            self.flow_control.publish_acked();
        }
        self.qos_flow.release(packet_id);
        self.packet_id_manager.release(packet_id);
    }

    /// Releases a Packet Identifier only, when nothing else was recorded for it
    /// (after [`publish_sent`](Self::publish_sent) failed).
    pub fn release_packet_id(&mut self, packet_id: u16)
        requires
            old(self).wf(),
        ensures
            final(self).wf(),
            final(self)@ == Self::spec_release_id(old(self)@, packet_id),
    {
        self.packet_id_manager.release(packet_id);
    }

    /// Records a sent SUBSCRIBE: its subscriptions await the SUBACK. An
    /// identifier of 0 or an empty list records nothing.
    pub fn subscribe_sent(&mut self, packet_id: u16, subscriptions: Vec<SubscriptionEntry>)
        requires
            old(self).wf(),
        ensures
            final(self).wf(),
            packet_id == 0 || subscriptions@.len() == 0 ==> final(self)@ == old(self)@,
            packet_id != 0 && subscriptions@.len() != 0 ==> final(self)@ == Self::spec_subscribe_recorded(
                old(self)@,
                packet_id,
                spec_entries(subscriptions@),
            ),
    {
        self.subscription_manager.subscribe_sent(packet_id, subscriptions);
    }

    /// Records a sent UNSUBSCRIBE: its Topic Filters await the UNSUBACK. An
    /// identifier of 0 or an empty list records nothing.
    pub fn unsubscribe_sent(&mut self, packet_id: u16, topic_filters: Vec<String>)
        requires
            old(self).wf(),
        ensures
            final(self).wf(),
            packet_id == 0 || topic_filters@.len() == 0 ==> final(self)@ == old(self)@,
            packet_id != 0 && topic_filters@.len() != 0 ==> final(self)@ == Self::spec_unsubscribe_recorded(
                old(self)@,
                packet_id,
                spec_strings(topic_filters@),
            ),
    {
        self.subscription_manager.unsubscribe_sent(packet_id, topic_filters);
    }

    /// Abandons a SUBSCRIBE (sending failed, or its SUBACK timed out): the
    /// pending entry is dropped and the Packet Identifier released.
    pub fn abort_subscribe(&mut self, packet_id: u16)
        requires
            old(self).wf(),
        ensures
            final(self).wf(),
            final(self)@ == Self::spec_subscribe_aborted(old(self)@, packet_id),
    {
        let _ = self.subscription_manager.drop_pending_subscribe(packet_id);
        self.packet_id_manager.release(packet_id);
    }

    /// Abandons an UNSUBSCRIBE (sending failed, or its UNSUBACK timed out): the
    /// pending entry is dropped and the Packet Identifier released.
    pub fn abort_unsubscribe(&mut self, packet_id: u16)
        requires
            old(self).wf(),
        ensures
            final(self).wf(),
            final(self)@ == Self::spec_unsubscribe_aborted(old(self)@, packet_id),
    {
        let _ = self.subscription_manager.drop_pending_unsubscribe(packet_id);
        self.packet_id_manager.release(packet_id);
    }

    /// Handles a received SUBACK; see [`SubscriptionManager::suback_received`].
    /// The Packet Identifier is released whatever the outcome.
    pub fn handle_suback(&mut self, packet_id: u16, reason_codes: &[u8]) -> (r: Result<
        Vec<SubscriptionEntry>,
        HandleSubackError,
    >)
        requires
            old(self).wf(),
        ensures
            final(self).wf(),
            Self::spec_release_id(
                SessionView { subscriptions: final(self)@.subscriptions, ..old(self)@ },
                packet_id,
            ) == final(self)@,
            ({
                let s = old(self)@.subscriptions;
                if !s.pending_subscribes.contains_key(packet_id) {
                    r == Err::<Vec<SubscriptionEntry>, HandleSubackError>(
                        HandleSubackError::PendingNotFound,
                    ) && final(self)@.subscriptions == s
                } else {
                    let pending = s.pending_subscribes[packet_id];
                    let (st, confirmed) = spec_suback_fold(
                        ActiveView { active: s.active, ids: s.ids },
                        pending,
                        reason_codes@,
                        pending.len(),
                    );
                    &&& final(self)@.subscriptions.pending_subscribes
                        == s.pending_subscribes.remove(packet_id)
                    &&& final(self)@.subscriptions.pending_unsubscribes == s.pending_unsubscribes
                    &&& reason_codes@.len() != pending.len() ==> r == Err::<
                        Vec<SubscriptionEntry>,
                        HandleSubackError,
                    >(HandleSubackError::PendingNotFound) && final(self)@.subscriptions.active
                        == s.active && final(self)@.subscriptions.ids == s.ids
                    &&& reason_codes@.len() == pending.len() ==> final(self)@.subscriptions.active
                        == st.active && final(self)@.subscriptions.ids == st.ids && (r matches Ok(
                        v,
                    ) && spec_entries(v@) == confirmed)
                }
            }),
    {
        let confirmed = self.subscription_manager.suback_received(packet_id, reason_codes);
        self.packet_id_manager.release(packet_id);
        match confirmed {
            Some(v) => Ok(v),
            None => Err(HandleSubackError::PendingNotFound),
        }
    }

    /// Handles a received UNSUBACK (with no codes under MQTT v3.1.1); see
    /// [`SubscriptionManager::unsuback_received`]. The Packet Identifier is
    /// released whatever the outcome.
    pub fn handle_unsuback(&mut self, packet_id: u16, reason_codes: &[u8]) -> (r: Result<
        Vec<String>,
        HandleUnsubackError,
    >)
        requires
            old(self).wf(),
        ensures
            final(self).wf(),
            Self::spec_release_id(
                SessionView { subscriptions: final(self)@.subscriptions, ..old(self)@ },
                packet_id,
            ) == final(self)@,
            ({
                let s = old(self)@.subscriptions;
                if !s.pending_unsubscribes.contains_key(packet_id) {
                    r == Err::<Vec<String>, HandleUnsubackError>(
                        HandleUnsubackError::PendingNotFound,
                    ) && final(self)@.subscriptions == s
                } else {
                    let pending = s.pending_unsubscribes[packet_id];
                    let (st, removed) = spec_unsuback_fold(
                        ActiveView { active: s.active, ids: s.ids },
                        pending,
                        reason_codes@,
                        pending.len(),
                    );
                    &&& final(self)@.subscriptions.pending_unsubscribes
                        == s.pending_unsubscribes.remove(packet_id)
                    &&& final(self)@.subscriptions.pending_subscribes == s.pending_subscribes
                    &&& reason_codes@.len() != 0 && reason_codes@.len() != pending.len() ==> r
                        == Err::<Vec<String>, HandleUnsubackError>(
                        HandleUnsubackError::PendingNotFound,
                    ) && final(self)@.subscriptions.active == s.active
                        && final(self)@.subscriptions.ids == s.ids
                    &&& reason_codes@.len() == 0 || reason_codes@.len() == pending.len()
                        ==> final(self)@.subscriptions.active == st.active
                        && final(self)@.subscriptions.ids == st.ids && (r matches Ok(v)
                        && spec_strings(v@) == removed)
                }
            }),
    {
        let removed = self.subscription_manager.unsuback_received(packet_id, reason_codes);
        self.packet_id_manager.release(packet_id);
        match removed {
            Some(v) => Ok(v),
            None => Err(HandleUnsubackError::PendingNotFound),
        }
    }

    /// Returns the Packet Identifier pool.
    pub fn packet_id_manager(&self) -> (r: &PacketIdManager)
        ensures
            r@ == self@.packet_ids,
    {
        &self.packet_id_manager
    }

    /// Returns the Packet Identifier pool for changes.
    pub fn packet_id_manager_mut(&mut self) -> (r: &mut PacketIdManager)
        ensures
            r@ == old(self)@.packet_ids,
            final(self)@ == (SessionView { packet_ids: final(r)@, ..old(self)@ }),
            old(self).wf() ==> r.wf(),
            old(self).wf() && final(r).wf() ==> final(self).wf(),
    {
        &mut self.packet_id_manager
    }

    /// Returns the QoS flows.
    pub fn qos_flow(&self) -> (r: &QosFlowManager)
        ensures
            r@ == self@.qos_flow,
    {
        &self.qos_flow
    }

    /// Returns the QoS flows for changes.
    pub fn qos_flow_mut(&mut self) -> (r: &mut QosFlowManager)
        ensures
            r@ == old(self)@.qos_flow,
            final(self)@ == (SessionView { qos_flow: final(r)@, ..old(self)@ }),
            old(self).wf() ==> r.wf(),
            old(self).wf() && final(r).wf() ==> final(self).wf(),
    {
        &mut self.qos_flow
    }

    /// Returns flow control.
    pub fn flow_control(&self) -> (r: &FlowControl)
        ensures
            r@ == self@.flow_control,
    {
        &self.flow_control
    }

    /// Returns flow control for changes.
    pub fn flow_control_mut(&mut self) -> (r: &mut FlowControl)
        ensures
            r@ == old(self)@.flow_control,
            final(self)@ == (SessionView { flow_control: final(r)@, ..old(self)@ }),
            final(self).wf() == old(self).wf(),
    {
        &mut self.flow_control
    }

    /// Returns the subscriptions.
    pub fn subscription_manager(&self) -> (r: &SubscriptionManager)
        ensures
            r@ == self@.subscriptions,
    {
        &self.subscription_manager
    }

    /// Returns the subscriptions for changes.
    pub fn subscription_manager_mut(&mut self) -> (r: &mut SubscriptionManager)
        ensures
            r@ == old(self)@.subscriptions,
            final(self)@ == (SessionView { subscriptions: final(r)@, ..old(self)@ }),
            old(self).wf() ==> r.wf(),
            old(self).wf() && final(r).wf() ==> final(self).wf(),
    {
        &mut self.subscription_manager
    }

    /// Returns the Topic Aliases.
    pub fn topic_alias_manager(&self) -> (r: &TopicAliasManager)
        ensures
            r@ == self@.topic_aliases,
    {
        &self.topic_alias_manager
    }

    /// Returns the Topic Aliases for changes.
    pub fn topic_alias_manager_mut(&mut self) -> (r: &mut TopicAliasManager)
        ensures
            r@ == old(self)@.topic_aliases,
            final(self)@ == (SessionView { topic_aliases: final(r)@, ..old(self)@ }),
            old(self).wf() ==> r.wf(),
            old(self).wf() && final(r).wf() ==> final(self).wf(),
    {
        &mut self.topic_alias_manager
    }

    /// Returns the server's capabilities from its CONNACK.
    pub fn server_capabilities(&self) -> (r: &ServerCapabilities)
        ensures
            *r == self@.server_capabilities,
    {
        &self.server_capabilities
    }

    /// Checks an outgoing PUBLISH against the server's capabilities; see
    /// [`ServerCapabilities::validate_publish`].
    pub fn validate_outgoing_publish(&self, qos: QoS, retain: bool, packet_size: usize) -> (r:
        Result<(), ServerCapabilityError>)
        ensures
            r == spec_validate_publish(self@.server_capabilities, qos, retain, packet_size),
    {
        self.server_capabilities.validate_publish(qos, retain, packet_size)
    }

    /// Checks an outgoing SUBSCRIBE against the server's capabilities; see
    /// [`ServerCapabilities::validate_subscribe`].
    pub fn validate_outgoing_subscribe(&self, entries: &[SubscriptionEntry]) -> (r: Result<
        (),
        ServerCapabilityError,
    >)
        ensures
            r == spec_validate_subscribe(
                self@.server_capabilities,
                entries@.map_values(|e: SubscriptionEntry| e@),
            ),
    {
        self.server_capabilities.validate_subscribe(entries)
    }

    /// Returns Keep Alive.
    pub fn keep_alive(&self) -> (r: &KeepAlive)
        ensures
            r@ == self@.keep_alive,
    {
        &self.keep_alive
    }

    /// Returns Keep Alive for changes.
    pub fn keep_alive_mut(&mut self) -> (r: &mut KeepAlive)
        ensures
            r@ == old(self)@.keep_alive,
            final(self)@ == (SessionView { keep_alive: final(r)@, ..old(self)@ }),
            final(self).wf() == old(self).wf(),
    {
        &mut self.keep_alive
    }

    /// Returns the authentication state machine.
    pub fn auth_state(&self) -> (r: &AuthStateMachine)
        ensures
            r@ == self@.auth,
    {
        &self.auth_state
    }

    /// Returns the authentication state machine for changes.
    pub fn auth_state_mut(&mut self) -> (r: &mut AuthStateMachine)
        ensures
            r@ == old(self)@.auth,
            final(self)@ == (SessionView { auth: final(r)@, ..old(self)@ }),
            final(self).wf() == old(self).wf(),
    {
        &mut self.auth_state
    }

    /// Discards the session state: QoS flows, Packet Identifiers, subscriptions.
    fn reset_session_state(&mut self)
        requires
            old(self).wf(),
        ensures
            final(self).wf(),
            final(self)@ == spec_reset_session_state(old(self)@),
    {
        self.packet_id_manager.reset();
        self.qos_flow.reset();
        self.subscription_manager.reset();
    }

    /// Reinitialises the state of the Network Connection.
    fn reset_connection_state(&mut self)
        requires
            old(self).wf(),
        ensures
            final(self).wf(),
            final(self)@ == spec_reset_connection_state(old(self)@),
    {
        self.flow_control.reset(true);
        self.qos_flow.clear_quota_charges();
        self.topic_alias_manager.reset_mappings();
        self.topic_alias_manager.set_peer_maximum(0);
        self.auth_state.reset();
        self.server_capabilities = ServerCapabilities::new();
        self.keep_alive.pingresp_received();
    }

    /// Resets everything but the protocol version, Client Identifier, Clean
    /// Start and limits: disconnected, Session Expiry Interval 0, and every state
    /// machine back to its initial state.
    pub fn reset(&mut self)
        requires
            old(self).wf(),
        ensures
            final(self).wf(),
            final(self)@ == (SessionView {
                connection_state: ConnectionState::Disconnected,
                session_expiry_interval: 0,
                packet_ids: spec_packet_ids_initial(),
                qos_flow: spec_qos_initial(),
                flow_control: spec_flow_initial(DEFAULT_RECEIVE_MAXIMUM),
                subscriptions: spec_subscriptions_initial(),
                topic_aliases: TopicAliasView {
                    recv: Seq::empty(),
                    send: Seq::empty(),
                    own_maximum: 0,
                    peer_maximum: 0,
                },
                keep_alive: KeepAliveView {
                    keep_alive_secs: 0,
                    last_activity: 0,
                    pingreq_sent_at: None,
                },
                auth: AuthView { state: AuthState::Idle, method: None },
                server_capabilities: spec_default_capabilities(),
                ..old(self)@
            }),
    {
        self.connection_state = ConnectionState::Disconnected;
        self.session_expiry_interval = 0;
        self.packet_id_manager.reset();
        self.qos_flow.reset();
        self.flow_control.reset(false);
        self.subscription_manager.reset();
        self.topic_alias_manager.reset();
        self.keep_alive.reset();
        self.auth_state.reset();
        self.server_capabilities = ServerCapabilities::new();
    }
}

/// Abandoning a QoS 1 or QoS 2 PUBLISH right after it was recorded gives back
/// the send quota it took and ends its flow: flow control and the flows are as
/// before, and its Packet Identifier is released. Only the sequence counter of
/// the flows has moved on.
pub proof fn lemma_abort_publish_undoes_publish_sent(v: SessionView, qos: QoS, packet_id: u16)
    requires
        qos != QoS::AtMostOnce,
        packet_id != 0,
        v.flow_control.outstanding_count < v.flow_control.receive_maximum,
        !v.qos_flow.outgoing.contains_key(packet_id),
        !v.qos_flow.incoming.contains_key(packet_id),
    ensures
        Session::spec_publish_aborted(Session::spec_publish_recorded(v, qos, packet_id), packet_id) == (
        SessionView {
            qos_flow: QosFlowView { next_seq: (v.qos_flow.next_seq + 1) as u64, ..v.qos_flow },
            ..Session::spec_release_id(v, packet_id)
        }),
{
    let w = Session::spec_publish_recorded(v, qos, packet_id);
    assert(w.qos_flow.outgoing.remove(packet_id) =~= v.qos_flow.outgoing);
    assert(w.qos_flow.incoming.remove(packet_id) =~= v.qos_flow.incoming);
}

/// Abandoning a SUBSCRIBE right after it was recorded leaves the subscriptions
/// as they were, with its Packet Identifier released.
pub proof fn lemma_abort_subscribe_undoes_subscribe_sent(v: SessionView, packet_id: u16, entries: Seq<EntryView>)
    requires
        !v.subscriptions.pending_subscribes.contains_key(packet_id),
    ensures
        Session::spec_subscribe_aborted(Session::spec_subscribe_recorded(v, packet_id, entries), packet_id)
            == Session::spec_release_id(v, packet_id),
{
    assert(v.subscriptions.pending_subscribes.insert(packet_id, entries).remove(packet_id)
        =~= v.subscriptions.pending_subscribes);
}

/// Abandoning an UNSUBSCRIBE right after it was recorded leaves the
/// subscriptions as they were, with its Packet Identifier released.
pub proof fn lemma_abort_unsubscribe_undoes_unsubscribe_sent(
    v: SessionView,
    packet_id: u16,
    filters: Seq<Seq<char>>,
)
    requires
        !v.subscriptions.pending_unsubscribes.contains_key(packet_id),
    ensures
        Session::spec_unsubscribe_aborted(Session::spec_unsubscribe_recorded(v, packet_id, filters), packet_id)
            == Session::spec_release_id(v, packet_id),
{
    assert(v.subscriptions.pending_unsubscribes.insert(packet_id, filters).remove(packet_id)
        =~= v.subscriptions.pending_unsubscribes);
}

/// The Client Identifier after an accepted CONNACK (MQTT v5.0 §3.2.2.3.7): a
/// session that connected with an empty Client Identifier takes the one that
/// the server assigned, and under MQTT v5.0 then has a non-empty one; a session
/// with its own Client Identifier keeps it; without an assigned one, it stays.
pub proof fn lemma_connack_client_identifier(v: SessionView, p: ConnackParamsView)
    requires
        spec_connack_check(v, p) is Ok,
    ensures
        v.client_id.len() == 0 && p.assigned_client_identifier is Some ==> spec_connack_apply(v, p).client_id
            == p.assigned_client_identifier->Some_0,
        v.client_id.len() != 0 ==> spec_connack_apply(v, p).client_id == v.client_id,
        p.assigned_client_identifier is None ==> spec_connack_apply(v, p).client_id == v.client_id,
        v.protocol_version == MqttVersion::V5 ==> spec_connack_apply(v, p).client_id.len() > 0,
{
}

/// A QoS 1 or QoS 2 PUBLISH just recorded needs that PUBLISH sent again if
/// the connection is lost before its acknowledgement (MQTT v5.0 §4.4).
pub proof fn lemma_recorded_publish_is_resent(v: SessionView, qos: QoS, packet_id: u16)
    requires
        qos != QoS::AtMostOnce,
        packet_id != 0,
        !v.qos_flow.outgoing.contains_key(packet_id),
    ensures
        spec_retransmission(Session::spec_publish_recorded(v, qos, packet_id).qos_flow, packet_id) == Some(
            Action::ResendPublish { packet_id },
        ),
{
}

} // verus!
