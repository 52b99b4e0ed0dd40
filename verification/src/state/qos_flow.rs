//! QoS 1 and QoS 2 delivery flows (MQTT v5.0 §4.3, MQTT v3.1.1 §4.3).
//!
//! Tracks the handshake state of each Packet Identifier and answers each
//! received packet with the action to take. Client and server pick their Packet
//! Identifiers independently (MQTT v5.0 §2.2.1), so the same identifier may be in
//! use in both directions at once: the two directions are kept apart.

use std::collections::BTreeMap;
use vstd::prelude::*;

use crate::state::keys::u16_keys;

verus! {

broadcast use {vstd::std_specs::btree::group_btree_axioms, vstd::laws_cmp::group_laws_cmp};

/// The state of one Packet Identifier in a QoS flow.
#[derive(Debug, Clone, Copy, PartialEq, Eq, Structural)]
pub enum FlowState {
    /// QoS 1: a PUBLISH was sent and its PUBACK is awaited.
    AwaitingPuback,
    /// QoS 2: a PUBLISH was sent and its PUBREC is awaited.
    AwaitingPubrec,
    /// QoS 2: a PUBREL was sent and its PUBCOMP is awaited.
    AwaitingPubcomp,
    /// QoS 2: a PUBLISH was received and its PUBREL is awaited.
    AwaitingPubrel,
    /// QoS 1: a PUBLISH was received and our PUBACK is still to be sent
    /// (MQTT v5.0 §3.3.4 [MQTT-3.3.4-9]).
    IncomingAwaitingPuback,
}

/// The action that the QoS flow asks of the caller.
#[derive(Debug, Clone, Copy, PartialEq, Eq, Structural)]
pub enum Action {
    /// Send a PUBACK (QoS 1 receipt).
    SendPuback {
        /// The Packet Identifier to acknowledge.
        packet_id: u16,
    },
    /// Send a PUBREC (first step of a QoS 2 receipt).
    SendPubrec {
        /// The Packet Identifier to acknowledge.
        packet_id: u16,
        /// Whether a PUBLISH with this identifier was received again before its
        /// PUBREL; such a duplicate must not be delivered onward
        /// (MQTT v5.0 §4.3.3 [MQTT-4.3.3-10]).
        is_duplicate: bool,
    },
    /// Send a PUBREL (answer to a PUBREC).
    SendPubrel {
        /// The Packet Identifier.
        packet_id: u16,
    },
    /// Send a PUBCOMP (answer to a PUBREL).
    SendPubcomp {
        /// The Packet Identifier.
        packet_id: u16,
    },
    /// Send a PUBCOMP again for a PUBREL without a matching incoming flow
    /// (MQTT v5.0 §4.3.3 [MQTT-4.3.3-11]); the flow already ended, so no receive
    /// quota is freed.
    ResendPubcomp {
        /// The Packet Identifier.
        packet_id: u16,
    },
    /// Send the PUBLISH again, with DUP set.
    ResendPublish {
        /// The Packet Identifier.
        packet_id: u16,
    },
    /// Send the PUBREL again.
    ResendPubrel {
        /// The Packet Identifier.
        packet_id: u16,
    },
    /// The QoS flow is complete.
    Complete {
        /// The Packet Identifier.
        packet_id: u16,
    },
    /// A QoS 2 flow ended on a PUBREC with a Reason Code of 0x80 or more: the
    /// PUBLISH counts as acknowledged and must not be sent again
    /// (MQTT v5.0 §4.4 [MQTT-4.4.0-2]).
    Aborted {
        /// The Packet Identifier.
        packet_id: u16,
    },
}

/// Errors raised by a QoS flow.
#[derive(Debug, Clone, Copy, PartialEq, Eq, Structural)]
pub enum FlowError {
    /// No matching flow exists.
    Unknown,
    /// The received packet does not fit the flow's state, a Protocol Error
    /// (MQTT v5.0 §4.13.1).
    StateMismatch,
}

impl FlowError {
    /// A human-readable description of the error.
    pub fn message(&self) -> (r: &'static str)
        ensures
            r@ == match *self {
                FlowError::Unknown => "no matching QoS flow"@,
                FlowError::StateMismatch => "received packet does not match QoS flow state"@,
            },
    {
        match self {
            FlowError::Unknown => "no matching QoS flow",
            FlowError::StateMismatch => "received packet does not match QoS flow state",
        }
    }
}

/// One outgoing flow: its order key, its state, and whether it has used send
/// quota on the current Network Connection (MQTT v5.0 §4.9).
#[derive(Debug, Clone, Copy, PartialEq, Eq, Structural)]
pub struct OutgoingFlow {
    /// The key that orders the retransmission list: assigned when the PUBLISH is
    /// sent, and again when its first PUBREC arrives.
    pub seq: u64,
    /// The flow's state.
    pub state: FlowState,
    /// Whether the flow has used send quota on the current connection.
    pub quota_charged: bool,
}

/// The abstract state of a [`QosFlowManager`].
pub struct QosFlowView {
    /// Outgoing flows by Packet Identifier.
    pub outgoing: Map<u16, OutgoingFlow>,
    /// Incoming flows by Packet Identifier.
    pub incoming: Map<u16, FlowState>,
    /// The next order key.
    pub next_seq: u64,
}

/// Whether `s` is a state of an outgoing flow.
pub open spec fn spec_outgoing_state(s: FlowState) -> bool {
    s == FlowState::AwaitingPuback || s == FlowState::AwaitingPubrec || s
        == FlowState::AwaitingPubcomp
}

/// Whether `s` is a state of an incoming flow.
pub open spec fn spec_incoming_state(s: FlowState) -> bool {
    s == FlowState::AwaitingPubrel || s == FlowState::IncomingAwaitingPuback
}

/// Whether the outgoing flow of `id` is in state `s`.
pub open spec fn spec_out_in(v: QosFlowView, id: u16, s: FlowState) -> bool {
    v.outgoing.contains_key(id) && v.outgoing[id].state == s
}

/// Whether `ids` lists exactly the outgoing flows of `v`, each once, in order of
/// their order keys.
pub open spec fn spec_in_seq_order(v: QosFlowView, ids: Seq<u16>) -> bool {
    &&& forall|k: u16| v.outgoing.contains_key(k) <==> #[trigger] ids.contains(k)
    &&& ids.no_duplicates()
    &&& forall|i: int, j: int|
        0 <= i < j < ids.len() ==> #[trigger] v.outgoing[ids[i]].seq < #[trigger] v.outgoing[ids[j]].seq
}

/// The QoS 1 and QoS 2 flow state machine.
///
/// Tracks the handshake state of each Packet Identifier, outgoing and incoming
/// apart, and answers each received packet with an action.
#[derive(Debug, Clone)]
pub struct QosFlowManager {
    outgoing: BTreeMap<u16, OutgoingFlow>,
    incoming: BTreeMap<u16, FlowState>,
    next_seq: u64,
}

impl View for QosFlowManager {
    type V = QosFlowView;

    closed spec fn view(&self) -> QosFlowView {
        QosFlowView { outgoing: self.outgoing@, incoming: self.incoming@, next_seq: self.next_seq }
    }
}

/// The invariant of a flow state: outgoing flows hold outgoing states and
/// distinct order keys below `next_seq`, and incoming flows hold incoming states.
pub open spec fn spec_flows_wf(v: QosFlowView) -> bool {
    &&& forall|id: u16| #[trigger]
        v.outgoing.contains_key(id) ==> v.outgoing[id].seq < v.next_seq && spec_outgoing_state(
            v.outgoing[id].state,
        )
    &&& forall|a: u16, b: u16|
        #[trigger] v.outgoing.contains_key(a) && #[trigger] v.outgoing.contains_key(b) && a != b
            ==> v.outgoing[a].seq != v.outgoing[b].seq
    &&& forall|id: u16| #[trigger]
        v.incoming.contains_key(id) ==> spec_incoming_state(v.incoming[id])
    &&& v.outgoing.dom().finite()
    &&& v.incoming.dom().finite()
}

/// A finite set of 16-bit values has at most 65536 elements.
proof fn lemma_u16_set_len(s: Set<u16>)
    requires
        s.finite(),
    ensures
        s.len() <= 65536,
{
    let f = |x: u16| x as int;
    let m = s.map(f);
    assert(vstd::relations::injective_on(f, s));
    vstd::set_lib::lemma_map_size(s, m, f);
    vstd::set_lib::lemma_int_range(0, 65536);
    assert(m.subset_of(vstd::set_lib::set_int_range(0, 65536)));
    vstd::set_lib::lemma_len_subset(m, vstd::set_lib::set_int_range(0, 65536));
}

impl QosFlowManager {
    /// The state machine's invariant.
    pub open spec fn wf(&self) -> bool {
        spec_flows_wf(self@)
    }

    /// Creates a state machine without flows.
    pub fn new() -> (r: Self)
        ensures
            r.wf(),
            r@.outgoing == Map::<u16, OutgoingFlow>::empty(),
            r@.incoming == Map::<u16, FlowState>::empty(),
            r@.next_seq == 0,
    {
        Self { outgoing: BTreeMap::new(), incoming: BTreeMap::new(), next_seq: 0 }
    }

    /// Returns the number of flows, outgoing and incoming together.
    pub fn active_flow_count(&self) -> (r: usize)
        requires
            self.wf(),
        ensures
            r == self@.outgoing.len() + self@.incoming.len(),
    {
        proof {
            lemma_u16_set_len(self@.outgoing.dom());
            lemma_u16_set_len(self@.incoming.dom());
        }
        self.outgoing.len() + self.incoming.len()
    }

    /// Returns whether `packet_id` is in a flow in either direction.
    pub fn is_active(&self, packet_id: u16) -> (r: bool)
        ensures
            r == (self@.outgoing.contains_key(packet_id) || self@.incoming.contains_key(
                packet_id,
            )),
    {
        self.outgoing.contains_key(&packet_id) || self.incoming.contains_key(&packet_id)
    }

    /// Returns whether `packet_id` is in an incoming flow: a QoS 1 PUBLISH whose
    /// PUBACK is not sent yet, or a QoS 2 PUBLISH whose PUBREL has not arrived.
    /// A PUBLISH received again with such an identifier is a retransmission, not
    /// a new unacknowledged message (MQTT v5.0 §3.3.4 [MQTT-3.3.4-9]).
    pub fn has_incoming_flow(&self, packet_id: u16) -> (r: bool)
        ensures
            r == self@.incoming.contains_key(packet_id),
    {
        self.incoming.contains_key(&packet_id)
    }

    /// Returns whether `packet_id` is in an outgoing flow: a PUBLISH sent with
    /// QoS 1 or 2 whose exchange has not completed.
    pub(crate) fn has_outgoing_flow(&self, packet_id: u16) -> (r: bool)
        ensures
            r == self@.outgoing.contains_key(packet_id),
    {
        self.outgoing.contains_key(&packet_id)
    }

    /// Returns whether the outgoing flow of `packet_id` has used send quota on the
    /// current connection; `false` if there is no such flow.
    pub fn is_quota_charged(&self, packet_id: u16) -> (r: bool)
        ensures
            r == (self@.outgoing.contains_key(packet_id) && self@.outgoing[packet_id].quota_charged),
    {
        match self.outgoing.get(&packet_id) {
            Some(flow) => flow.quota_charged,
            None => false,
        }
    }

    /// Records that the outgoing flow of `packet_id` used send quota (on a
    /// retransmission). Does nothing if there is no such flow.
    pub fn mark_quota_charged(&mut self, packet_id: u16)
        requires
            old(self).wf(),
        ensures
            final(self).wf(),
            final(self)@.incoming == old(self)@.incoming,
            final(self)@.next_seq == old(self)@.next_seq,
            old(self)@.outgoing.contains_key(packet_id) ==> final(self)@.outgoing == old(
                self,
            )@.outgoing.insert(
                packet_id,
                OutgoingFlow { quota_charged: true, ..old(self)@.outgoing[packet_id] },
            ),
            !old(self)@.outgoing.contains_key(packet_id) ==> final(self)@.outgoing == old(
                self,
            )@.outgoing,
    {
        let found = match self.outgoing.get(&packet_id) {
            Some(flow) => Some(*flow),
            None => None,
        };
        if let Some(flow) = found {
            self.outgoing.insert(packet_id, OutgoingFlow { quota_charged: true, ..flow });
        }
    }

    /// Clears the send-quota marks of all outgoing flows, for a new Network
    /// Connection: send quota does not carry over between connections
    /// (MQTT v5.0 §4.9).
    pub fn clear_quota_charges(&mut self)
        requires
            old(self).wf(),
        ensures
            final(self).wf(),
            final(self)@.incoming == old(self)@.incoming,
            final(self)@.next_seq == old(self)@.next_seq,
            final(self)@.outgoing == spec_clear_quota(old(self)@.outgoing),
    {
        let keys = u16_keys(&self.outgoing);
        let ghost start = self@;
        let mut i: usize = 0;
        while i < keys.len()
            invariant
                forall|k: u16| start.outgoing.contains_key(k) <==> #[trigger] keys@.contains(k),
                keys@.no_duplicates(),
                i <= keys@.len(),
                start == old(self)@,
                spec_flows_wf(start),
                self@.incoming == start.incoming,
                self@.next_seq == start.next_seq,
                self@.outgoing.dom() == start.outgoing.dom(),
                forall|j: int| #![trigger keys@[j]]
                    0 <= j < i ==> self@.outgoing[keys@[j]] == (OutgoingFlow {
                        quota_charged: false,
                        ..start.outgoing[keys@[j]]
                    }),
                forall|j: int| #![trigger keys@[j]]
                    i <= j < keys@.len() ==> self@.outgoing[keys@[j]] == start.outgoing[keys@[j]],
            decreases keys@.len() - i,
        {
            let id = keys[i];
            assert(keys@.contains(id));
            let flow = *self.outgoing.get(&id).unwrap();
            self.outgoing.insert(id, OutgoingFlow { quota_charged: false, ..flow });
            proof {
                assert(self@.outgoing.dom() =~= start.outgoing.dom());
                assert forall|j: int| #![trigger keys@[j]] 0 <= j < keys@.len() && j != i implies keys@[j]
                    != id by {}
            }
            i = i + 1;
        }
        proof {
            assert forall|id: u16| #[trigger] self@.outgoing.contains_key(id) implies self@.outgoing[id]
                == (OutgoingFlow { quota_charged: false, ..start.outgoing[id] }) by {
                assert(keys@.contains(id));
                let j = keys@.index_of(id);
                assert(keys@[j] == id);
            }
            assert(self@.outgoing =~= spec_clear_quota(start.outgoing));
        }
    }

    /// Records a sent QoS 1 PUBLISH: the identifier awaits its PUBACK. An
    /// identifier of 0, or one already in an outgoing flow, changes nothing.
    pub fn publish_sent_qos1(&mut self, packet_id: u16)
        requires
            old(self).wf(),
            old(self)@.next_seq < u64::MAX,
        ensures
            final(self).wf(),
            final(self)@.incoming == old(self)@.incoming,
            packet_id == 0 || old(self)@.outgoing.contains_key(packet_id) ==> final(self)@ == old(
                self,
            )@,
            packet_id != 0 && !old(self)@.outgoing.contains_key(packet_id) ==> final(self)@ == spec_started(
                old(self)@,
                packet_id,
                FlowState::AwaitingPuback,
            ),
    {
        self.start_outgoing(packet_id, FlowState::AwaitingPuback)
    }

    /// Records a sent QoS 2 PUBLISH: the identifier awaits its PUBREC. An
    /// identifier of 0, or one already in an outgoing flow, changes nothing.
    pub fn publish_sent_qos2(&mut self, packet_id: u16)
        requires
            old(self).wf(),
            old(self)@.next_seq < u64::MAX,
        ensures
            final(self).wf(),
            final(self)@.incoming == old(self)@.incoming,
            packet_id == 0 || old(self)@.outgoing.contains_key(packet_id) ==> final(self)@ == old(
                self,
            )@,
            packet_id != 0 && !old(self)@.outgoing.contains_key(packet_id) ==> final(self)@ == spec_started(
                old(self)@,
                packet_id,
                FlowState::AwaitingPubrec,
            ),
    {
        self.start_outgoing(packet_id, FlowState::AwaitingPubrec)
    }

    /// Starts an outgoing flow in `state`, with a fresh order key.
    fn start_outgoing(&mut self, packet_id: u16, state: FlowState)
        requires
            old(self).wf(),
            old(self)@.next_seq < u64::MAX,
            spec_outgoing_state(state),
        ensures
            final(self).wf(),
            final(self)@.incoming == old(self)@.incoming,
            packet_id == 0 || old(self)@.outgoing.contains_key(packet_id) ==> final(self)@ == old(
                self,
            )@,
            packet_id != 0 && !old(self)@.outgoing.contains_key(packet_id) ==> final(self)@ == spec_started(
                old(self)@,
                packet_id,
                state,
            ),
    {
        if packet_id == 0 || self.outgoing.contains_key(&packet_id) {
            return;
        }
        let seq = self.next_seq;
        self.next_seq = self.next_seq + 1;
        self.outgoing.insert(packet_id, OutgoingFlow { seq, state, quota_charged: true });
    }

    /// Handles a received PUBACK.
    ///
    /// Completes a QoS 1 flow awaiting it (`Complete`); a flow in another state,
    /// or an incoming flow with that identifier, is `StateMismatch`; no flow at
    /// all gives `Ok(None)`. Errors change nothing.
    pub fn puback_received(&mut self, packet_id: u16) -> (r: Result<Option<Action>, FlowError>)
        requires
            old(self).wf(),
        ensures
            final(self).wf(),
            (r, final(self)@) == spec_ack_received(
                old(self)@,
                packet_id,
                FlowState::AwaitingPuback,
            ),
    {
        self.complete_outgoing(packet_id, FlowState::AwaitingPuback)
    }

    /// Handles a received PUBCOMP.
    ///
    /// Completes a QoS 2 flow awaiting it (`Complete`); a flow in another state,
    /// or an incoming flow with that identifier, is `StateMismatch`; no flow at
    /// all gives `Ok(None)`. Errors change nothing.
    pub fn pubcomp_received(&mut self, packet_id: u16) -> (r: Result<Option<Action>, FlowError>)
        requires
            old(self).wf(),
        ensures
            final(self).wf(),
            (r, final(self)@) == spec_ack_received(
                old(self)@,
                packet_id,
                FlowState::AwaitingPubcomp,
            ),
    {
        self.complete_outgoing(packet_id, FlowState::AwaitingPubcomp)
    }

    /// Ends the outgoing flow of `packet_id` if it is in `expected`.
    fn complete_outgoing(&mut self, packet_id: u16, expected: FlowState) -> (r: Result<
        Option<Action>,
        FlowError,
    >)
        requires
            old(self).wf(),
        ensures
            final(self).wf(),
            (r, final(self)@) == spec_ack_received(old(self)@, packet_id, expected),
    {
        let found = match self.outgoing.get(&packet_id) {
            Some(flow) => Some(flow.state),
            None => None,
        };
        match found {
            Some(state) => {
                if state == expected {
                    self.outgoing.remove(&packet_id);
                    Ok(Some(Action::Complete { packet_id }))
                } else {
                    Err(FlowError::StateMismatch)
                }
            },
            None => {
                if self.incoming.contains_key(&packet_id) {
                    Err(FlowError::StateMismatch)
                } else {
                    Ok(None)
                }
            },
        }
    }

    /// Handles a received PUBREC with `reason_code` (0x00 for MQTT v3.1.1).
    ///
    /// With a Reason Code of 0x80 or more, a flow awaiting the PUBREC ends
    /// (`Aborted`; no PUBREL is sent). Otherwise a flow awaiting the PUBREC moves
    /// to awaiting PUBCOMP with a fresh order key, and one already awaiting
    /// PUBCOMP stays as it is; both answer `SendPubrel`
    /// (MQTT v5.0 §4.3.3 [MQTT-4.3.3-4]). A flow in another state, or an incoming
    /// flow with that identifier, is `StateMismatch`; no flow gives `Ok(None)`.
    pub fn pubrec_received(&mut self, packet_id: u16, reason_code: u8) -> (r: Result<
        Option<Action>,
        FlowError,
    >)
        requires
            old(self).wf(),
            old(self)@.next_seq < u64::MAX,
        ensures
            final(self).wf(),
            (r, final(self)@) == spec_pubrec_received(old(self)@, packet_id, reason_code),
    {
        let found = match self.outgoing.get(&packet_id) {
            Some(flow) => Some(*flow),
            None => None,
        };
        match found {
            Some(flow) => {
                if reason_code >= 0x80 {
                    if flow.state == FlowState::AwaitingPubrec {
                        self.outgoing.remove(&packet_id);
                        Ok(Some(Action::Aborted { packet_id }))
                    } else {
                        Err(FlowError::StateMismatch)
                    }
                } else if flow.state == FlowState::AwaitingPubrec {
                    let seq = self.next_seq;
                    self.next_seq = self.next_seq + 1;
                    self.outgoing.insert(
                        packet_id,
                        OutgoingFlow {
                            seq,
                            state: FlowState::AwaitingPubcomp,
                            quota_charged: flow.quota_charged,
                        },
                    );
                    Ok(Some(Action::SendPubrel { packet_id }))
                } else if flow.state == FlowState::AwaitingPubcomp {
                    Ok(Some(Action::SendPubrel { packet_id }))
                } else {
                    Err(FlowError::StateMismatch)
                }
            },
            None => {
                if self.incoming.contains_key(&packet_id) {
                    Err(FlowError::StateMismatch)
                } else {
                    Ok(None)
                }
            },
        }
    }

    /// Handles a received PUBREL.
    ///
    /// An incoming flow awaiting it ends with `SendPubcomp`. Without an incoming
    /// flow the PUBCOMP must still be sent again, since ours may have been lost
    /// (`ResendPubcomp`, MQTT v5.0 §4.3.3 [MQTT-4.3.3-11]), unless the identifier
    /// is in an outgoing flow; that, or an incoming flow in another state, is
    /// `StateMismatch`.
    pub fn pubrel_received(&mut self, packet_id: u16) -> (r: Result<Option<Action>, FlowError>)
        requires
            old(self).wf(),
        ensures
            final(self).wf(),
            (r, final(self)@) == spec_pubrel_received(old(self)@, packet_id),
    {
        let found = match self.incoming.get(&packet_id) {
            Some(s) => Some(*s),
            None => None,
        };
        match found {
            Some(state) => {
                if state == FlowState::AwaitingPubrel {
                    self.incoming.remove(&packet_id);
                    Ok(Some(Action::SendPubcomp { packet_id }))
                } else {
                    Err(FlowError::StateMismatch)
                }
            },
            None => {
                if self.outgoing.contains_key(&packet_id) {
                    Err(FlowError::StateMismatch)
                } else {
                    Ok(Some(Action::ResendPubcomp { packet_id }))
                }
            },
        }
    }

    /// Records a received QoS 1 PUBLISH: a PUBACK is to be sent, and the
    /// identifier stays tracked until [`puback_sent`](Self::puback_sent). A
    /// duplicate is answered with a PUBACK again.
    pub fn publish_received_qos1(&mut self, packet_id: u16) -> (r: Action)
        requires
            old(self).wf(),
        ensures
            final(self).wf(),
            r == (Action::SendPuback { packet_id }),
            final(self)@ == (QosFlowView {
                incoming: old(self)@.incoming.insert(packet_id, FlowState::IncomingAwaitingPuback),
                ..old(self)@
            }),
    {
        self.incoming.insert(packet_id, FlowState::IncomingAwaitingPuback);
        Action::SendPuback { packet_id }
    }

    /// Records that the PUBACK of a received QoS 1 PUBLISH was sent, ending its
    /// incoming flow. Does nothing if no QoS 1 incoming flow has that identifier.
    pub fn puback_sent(&mut self, packet_id: u16)
        requires
            old(self).wf(),
        ensures
            final(self).wf(),
            final(self)@.outgoing == old(self)@.outgoing,
            final(self)@.next_seq == old(self)@.next_seq,
            final(self)@.incoming == if old(self)@.incoming.contains_key(packet_id)
                && old(self)@.incoming[packet_id] == FlowState::IncomingAwaitingPuback {
                old(self)@.incoming.remove(packet_id)
            } else {
                old(self)@.incoming
            },
    {
        let found = match self.incoming.get(&packet_id) {
            Some(s) => Some(*s),
            None => None,
        };
        if found == Some(FlowState::IncomingAwaitingPuback) {
            self.incoming.remove(&packet_id);
        }
    }

    /// Records a received QoS 2 PUBLISH: a PUBREC is to be sent and the
    /// identifier awaits its PUBREL. A PUBLISH received again before its PUBREL is
    /// answered with a PUBREC marked as a duplicate, which must not be delivered
    /// onward (MQTT v5.0 §4.3.3 [MQTT-4.3.3-10]).
    pub fn publish_received_qos2(&mut self, packet_id: u16) -> (r: Action)
        requires
            old(self).wf(),
        ensures
            final(self).wf(),
            r == (Action::SendPubrec {
                packet_id,
                is_duplicate: old(self)@.incoming.contains_key(packet_id),
            }),
            final(self)@ == (QosFlowView {
                incoming: old(self)@.incoming.insert(packet_id, FlowState::AwaitingPubrel),
                ..old(self)@
            }),
    {
        let is_duplicate = self.incoming.contains_key(&packet_id);
        self.incoming.insert(packet_id, FlowState::AwaitingPubrel);
        Action::SendPubrec { packet_id, is_duplicate }
    }

    /// Returns what to send again for the outgoing flow of `packet_id`: the
    /// PUBLISH while a PUBACK or PUBREC is awaited, the PUBREL while a PUBCOMP is
    /// awaited, and `None` when there is no outgoing flow.
    pub fn needs_retransmission(&self, packet_id: u16) -> (r: Option<Action>)
        requires
            self.wf(),
        ensures
            r == spec_retransmission(self@, packet_id),
    {
        let found = match self.outgoing.get(&packet_id) {
            Some(flow) => Some(flow.state),
            None => None,
        };
        match found {
            None => None,
            Some(FlowState::AwaitingPuback) => Some(Action::ResendPublish { packet_id }),
            Some(FlowState::AwaitingPubrec) => Some(Action::ResendPublish { packet_id }),
            Some(FlowState::AwaitingPubcomp) => Some(Action::ResendPubrel { packet_id }),
            Some(_) => None,
        }
    }

    /// Returns the identifiers of all outgoing flows, to be sent again.
    ///
    /// PUBLISH retransmissions come in the order the PUBLISH packets were sent
    /// (MQTT v5.0 §4.6 [MQTT-4.6.0-1]) and PUBREL retransmissions in the order
    /// their first PUBREC arrived ([MQTT-4.6.0-4]); the two groups interleave in
    /// the order of these events. Incoming flows are not included.
    pub fn pending_packet_ids(&self) -> (r: Vec<u16>)
        requires
            self.wf(),
        ensures
            spec_in_seq_order(self@, r@),
    {
        let keys = u16_keys(&self.outgoing);
        let ghost v = self@;
        let mut r: Vec<u16> = Vec::new();
        let mut lo: u64 = 0;
        loop
            invariant
                v == self@,
                spec_flows_wf(v),
                forall|k: u16| v.outgoing.contains_key(k) <==> #[trigger] keys@.contains(k),
                lo <= v.next_seq,
                forall|k: u16| #[trigger] r@.contains(k) ==> v.outgoing.contains_key(k),
                forall|i: int| #![trigger r@[i]] 0 <= i < r@.len() ==> v.outgoing[r@[i]].seq < lo,
                forall|k: u16|
                    v.outgoing.contains_key(k) && v.outgoing[k].seq < lo ==> #[trigger] r@.contains(k),
                forall|i: int, j: int|
                    0 <= i < j < r@.len() ==> #[trigger] v.outgoing[r@[i]].seq < #[trigger] v.outgoing[r@[j]].seq,
            decreases v.next_seq - lo,
        {
            match self.next_after(&keys, lo) {
                None => {
                    proof {
                        assert forall|k: u16| #[trigger] keys@.contains(k) implies r@.contains(k) by {
                            assert(v.outgoing.contains_key(k));
                        }
                        assert forall|i: int, j: int| 0 <= i < j < r@.len() implies r@[i] != r@[j] by {
                            assert(v.outgoing[r@[i]].seq < v.outgoing[r@[j]].seq);
                        }
                    }
                    return r;
                },
                Some(k) => {
                    let seq = self.outgoing.get(&k).unwrap().seq;
                    proof {
                        assert forall|k2: u16|
                            v.outgoing.contains_key(k2) && v.outgoing[k2].seq < seq + 1 implies #[trigger] r@.push(
                            k,
                        ).contains(k2) by {
                            if v.outgoing[k2].seq < lo {
                                assert(r@.contains(k2));
                                let i = r@.index_of(k2);
                                assert(r@.push(k)[i] == k2);
                            } else {
                                assert(keys@.contains(k2));
                                assert(k2 == k);
                                assert(r@.push(k)[r@.len() as int] == k);
                            }
                        }
                    }
                    proof {
                        assert forall|k2: u16| #[trigger] r@.push(k).contains(k2) implies v.outgoing.contains_key(
                            k2,
                        ) by {
                            let i = r@.push(k).index_of(k2);
                            if i < r@.len() {
                                assert(r@[i] == k2);
                                assert(r@.contains(k2));
                            }
                        }
                    }
                    r.push(k);
                    lo = seq + 1;
                },
            }
        }
    }

    /// Finds, among `keys`, the outgoing flow with the smallest order key of at
    /// least `lo`.
    fn next_after(&self, keys: &Vec<u16>, lo: u64) -> (r: Option<u16>)
        requires
            self.wf(),
            forall|k: u16| self@.outgoing.contains_key(k) <==> #[trigger] keys@.contains(k),
        ensures
            r matches Some(k) ==> self@.outgoing.contains_key(k) && self@.outgoing[k].seq >= lo
                && forall|k2: u16| #[trigger]
                self@.outgoing.contains_key(k2) && self@.outgoing[k2].seq >= lo
                    ==> self@.outgoing[k].seq <= self@.outgoing[k2].seq,
            r is None ==> forall|k2: u16| #[trigger]
                self@.outgoing.contains_key(k2) ==> self@.outgoing[k2].seq < lo,
    {
        let mut best: Option<u16> = None;
        let mut best_seq: u64 = 0;
        let mut i: usize = 0;
        while i < keys.len()
            invariant
                i <= keys@.len(),
                self.wf(),
                forall|k: u16| self@.outgoing.contains_key(k) <==> #[trigger] keys@.contains(k),
                best matches Some(b) ==> self@.outgoing.contains_key(b) && self@.outgoing[b].seq
                    == best_seq && best_seq >= lo,
                forall|j: int| #![trigger keys@[j]]
                    0 <= j < i && self@.outgoing[keys@[j]].seq >= lo ==> best is Some
                        && best_seq <= self@.outgoing[keys@[j]].seq,
            decreases keys@.len() - i,
        {
            let k = keys[i];
            assert(keys@.contains(k));
            let s = self.outgoing.get(&k).unwrap().seq;
            if s >= lo && (best.is_none() || s < best_seq) {
                best = Some(k);
                best_seq = s;
            }
            i = i + 1;
        }
        proof {
            assert forall|k2: u16| #[trigger] self@.outgoing.contains_key(k2) && self@.outgoing[k2].seq
                >= lo implies best is Some && best_seq <= self@.outgoing[k2].seq by {
                assert(keys@.contains(k2));
                let j = keys@.index_of(k2);
                assert(keys@[j] == k2);
            }
        }
        best
    }

    /// Drops any flow of `packet_id`, in both directions (on disconnection, for
    /// example).
    pub fn release(&mut self, packet_id: u16)
        requires
            old(self).wf(),
        ensures
            final(self).wf(),
            final(self)@ == (QosFlowView {
                outgoing: old(self)@.outgoing.remove(packet_id),
                incoming: old(self)@.incoming.remove(packet_id),
                ..old(self)@
            }),
    {
        self.outgoing.remove(&packet_id);
        self.incoming.remove(&packet_id);
    }

    /// Drops every flow and restarts the order keys, when the session state is
    /// discarded.
    pub fn reset(&mut self)
        ensures
            final(self).wf(),
            final(self)@.outgoing == Map::<u16, OutgoingFlow>::empty(),
            final(self)@.incoming == Map::<u16, FlowState>::empty(),
            final(self)@.next_seq == 0,
    {
        self.outgoing.clear();
        self.incoming.clear();
        self.next_seq = 0;
    }
}

impl Default for QosFlowManager {
    fn default() -> (r: Self)
        ensures
            r.wf(),
            r@.outgoing == Map::<u16, OutgoingFlow>::empty(),
            r@.incoming == Map::<u16, FlowState>::empty(),
            r@.next_seq == 0,
    {
        Self::new()
    }
}

/// The outgoing flows with their send-quota marks cleared.
pub open spec fn spec_clear_quota(m: Map<u16, OutgoingFlow>) -> Map<u16, OutgoingFlow> {
    m.map_values(|f: OutgoingFlow| OutgoingFlow { quota_charged: false, ..f })
}

/// The outcome of a PUBACK (`expected` = awaiting PUBACK) or PUBCOMP
/// (`expected` = awaiting PUBCOMP) for `id`: the result and the next state.
pub open spec fn spec_ack_received(v: QosFlowView, id: u16, expected: FlowState) -> (
    Result<Option<Action>, FlowError>,
    QosFlowView,
) {
    if v.outgoing.contains_key(id) {
        if v.outgoing[id].state == expected {
            (
                Ok(Some(Action::Complete { packet_id: id })),
                QosFlowView { outgoing: v.outgoing.remove(id), ..v },
            )
        } else {
            (Err(FlowError::StateMismatch), v)
        }
    } else if v.incoming.contains_key(id) {
        (Err(FlowError::StateMismatch), v)
    } else {
        (Ok(None), v)
    }
}

/// The outcome of a PUBREC with `reason_code` for `id`.
pub open spec fn spec_pubrec_received(v: QosFlowView, id: u16, reason_code: u8) -> (
    Result<Option<Action>, FlowError>,
    QosFlowView,
) {
    if v.outgoing.contains_key(id) {
        let flow = v.outgoing[id];
        if reason_code >= 0x80 {
            if flow.state == FlowState::AwaitingPubrec {
                (
                    Ok(Some(Action::Aborted { packet_id: id })),
                    QosFlowView { outgoing: v.outgoing.remove(id), ..v },
                )
            } else {
                (Err(FlowError::StateMismatch), v)
            }
        } else if flow.state == FlowState::AwaitingPubrec {
            (
                Ok(Some(Action::SendPubrel { packet_id: id })),
                QosFlowView {
                    outgoing: v.outgoing.insert(
                        id,
                        OutgoingFlow {
                            seq: v.next_seq,
                            state: FlowState::AwaitingPubcomp,
                            quota_charged: flow.quota_charged,
                        },
                    ),
                    next_seq: (v.next_seq + 1) as u64,
                    ..v
                },
            )
        } else if flow.state == FlowState::AwaitingPubcomp {
            (Ok(Some(Action::SendPubrel { packet_id: id })), v)
        } else {
            (Err(FlowError::StateMismatch), v)
        }
    } else if v.incoming.contains_key(id) {
        (Err(FlowError::StateMismatch), v)
    } else {
        (Ok(None), v)
    }
}

/// The outcome of a PUBREL for `id`.
pub open spec fn spec_pubrel_received(v: QosFlowView, id: u16) -> (
    Result<Option<Action>, FlowError>,
    QosFlowView,
) {
    if v.incoming.contains_key(id) {
        if v.incoming[id] == FlowState::AwaitingPubrel {
            (
                Ok(Some(Action::SendPubcomp { packet_id: id })),
                QosFlowView { incoming: v.incoming.remove(id), ..v },
            )
        } else {
            (Err(FlowError::StateMismatch), v)
        }
    } else if v.outgoing.contains_key(id) {
        (Err(FlowError::StateMismatch), v)
    } else {
        (Ok(Some(Action::ResendPubcomp { packet_id: id })), v)
    }
}

/// What to send again for the outgoing flow of `id`.
pub open spec fn spec_retransmission(v: QosFlowView, id: u16) -> Option<Action> {
    if !v.outgoing.contains_key(id) {
        None
    } else if v.outgoing[id].state == FlowState::AwaitingPubcomp {
        Some(Action::ResendPubrel { packet_id: id })
    } else if v.outgoing[id].state == FlowState::AwaitingPuback || v.outgoing[id].state
        == FlowState::AwaitingPubrec {
        Some(Action::ResendPublish { packet_id: id })
    } else {
        None
    }
}

/// The state after an outgoing flow for `id` starts in state `state`.
pub open spec fn spec_started(v: QosFlowView, id: u16, state: FlowState) -> QosFlowView {
    QosFlowView {
        outgoing: v.outgoing.insert(id, OutgoingFlow { seq: v.next_seq, state, quota_charged: true }),
        next_seq: (v.next_seq + 1) as u64,
        ..v
    }
}

/// A QoS 1 PUBLISH followed by its PUBACK completes the flow and leaves the
/// outgoing flows as they were before the PUBLISH.
pub proof fn lemma_qos1_handshake(v: QosFlowView, id: u16)
    requires
        !v.outgoing.contains_key(id),
    ensures
        spec_ack_received(spec_started(v, id, FlowState::AwaitingPuback), id, FlowState::AwaitingPuback)
            == (Ok::<Option<Action>, FlowError>(Some(Action::Complete { packet_id: id })), QosFlowView {
            next_seq: (v.next_seq + 1) as u64,
            ..v
        }),
{
    assert(v.outgoing.insert(id, OutgoingFlow { seq: v.next_seq, state: FlowState::AwaitingPuback, quota_charged: true }).remove(id)
        =~= v.outgoing);
}

/// A QoS 2 PUBLISH followed by a successful PUBREC asks for a PUBREL; a
/// repeated PUBREC asks for it again without changing anything; the PUBCOMP
/// then completes the flow and leaves the outgoing flows as they were before
/// the PUBLISH.
pub proof fn lemma_qos2_handshake(v: QosFlowView, id: u16, reason_code: u8)
    requires
        !v.outgoing.contains_key(id),
        reason_code < 0x80,
    ensures
        ({
            let v1 = spec_started(v, id, FlowState::AwaitingPubrec);
            let (r2, v2) = spec_pubrec_received(v1, id, reason_code);
            let (r3, v3) = spec_pubrec_received(v2, id, reason_code);
            let (r4, v4) = spec_ack_received(v2, id, FlowState::AwaitingPubcomp);
            &&& r2 == Ok::<Option<Action>, FlowError>(Some(Action::SendPubrel { packet_id: id }))
            &&& r3 == r2 && v3 == v2
            &&& r4 == Ok::<Option<Action>, FlowError>(Some(Action::Complete { packet_id: id }))
            &&& v4.outgoing == v.outgoing
            &&& v4.incoming == v.incoming
        }),
{
    let v1 = spec_started(v, id, FlowState::AwaitingPubrec);
    let v2 = spec_pubrec_received(v1, id, reason_code).1;
    assert(v2.outgoing.remove(id) =~= v.outgoing);
}

/// What a lost exchange needs sent again (MQTT v5.0 §4.4): a PUBLISH not yet
/// acknowledged (its flow awaits PUBACK or PUBREC) is sent again as a PUBLISH,
/// and a PUBREL only once the PUBREC has arrived (the flow awaits PUBCOMP);
/// without an outgoing flow nothing is sent. In particular, right after a QoS
/// 1 or QoS 2 PUBLISH starts its flow, what it needs is that PUBLISH again.
pub proof fn lemma_retransmission_follows_flow(v: QosFlowView, id: u16)
    ensures
        spec_retransmission(spec_started(v, id, FlowState::AwaitingPuback), id) == Some(
            Action::ResendPublish { packet_id: id },
        ),
        spec_retransmission(spec_started(v, id, FlowState::AwaitingPubrec), id) == Some(
            Action::ResendPublish { packet_id: id },
        ),
        spec_retransmission(v, id) == Some(Action::ResendPubrel { packet_id: id }) <==> (v.outgoing.contains_key(id)
            && v.outgoing[id].state == FlowState::AwaitingPubcomp),
        spec_retransmission(v, id) == Some(Action::ResendPublish { packet_id: id }) <==> (v.outgoing.contains_key(id)
            && (v.outgoing[id].state == FlowState::AwaitingPuback || v.outgoing[id].state
            == FlowState::AwaitingPubrec)),
        !v.outgoing.contains_key(id) ==> spec_retransmission(v, id) is None,
        spec_retransmission(v, id) matches Some(a) ==> (a == Action::ResendPublish { packet_id: id } || a
            == Action::ResendPubrel { packet_id: id }),
{
}

} // verus!
