//! Flow control by Receive Maximum (MQTT v5.0 §4.9).
//!
//! Tracks how many QoS 1 and QoS 2 PUBLISH packets are unacknowledged in each
//! direction, against the Receive Maximum of the peer (sending) and our own
//! (receiving).

use vstd::prelude::*;

verus! {

/// The default Receive Maximum (MQTT v5.0 §3.1.2.11.3, §3.2.2.3.3).
pub const DEFAULT_RECEIVE_MAXIMUM: u16 = 65535;

/// Errors raised by flow control.
#[derive(Debug, Clone, Copy, PartialEq, Eq, Structural)]
pub enum FlowControlError {
    /// A QoS 1 or 2 PUBLISH would exceed the Receive Maximum. Received in the
    /// incoming direction, the caller should disconnect with Reason Code 0x93.
    ReceiveMaximumExceeded,
    /// A Receive Maximum of 0 (a Protocol Error, MQTT v5.0 §3.1.2.11.3, §3.2.2.3.3).
    InvalidReceiveMaximum,
    /// A QoS 0 PUBLISH was to be recorded as a flow (MQTT v5.0 §4.9 [MQTT-4.9.0-2]).
    InvalidQoS,
    /// A Packet Identifier of 0 (MQTT v5.0 §2.2.1 [MQTT-2.2.1-3]).
    InvalidPacketId,
}

impl FlowControlError {
    /// A human-readable description of the error.
    pub fn message(&self) -> (r: &'static str)
        ensures
            r@ == match *self {
                FlowControlError::ReceiveMaximumExceeded => "attempted to send or receive a PUBLISH exceeding Receive Maximum"@,
                FlowControlError::InvalidReceiveMaximum => "Receive Maximum must not be 0"@,
                FlowControlError::InvalidQoS => "publish flow must not be recorded for QoS 0"@,
                FlowControlError::InvalidPacketId => "packet identifier must not be 0"@,
            },
    {
        match self {
            FlowControlError::ReceiveMaximumExceeded => {
                "attempted to send or receive a PUBLISH exceeding Receive Maximum"
            },
            FlowControlError::InvalidReceiveMaximum => "Receive Maximum must not be 0",
            FlowControlError::InvalidQoS => "publish flow must not be recorded for QoS 0",
            FlowControlError::InvalidPacketId => "packet identifier must not be 0",
        }
    }
}

/// The abstract state of a [`FlowControl`].
pub struct FlowControlView {
    /// The peer's Receive Maximum.
    pub receive_maximum: u16,
    /// Unacknowledged outgoing QoS 1 and 2 PUBLISH packets.
    pub outstanding_count: u16,
    /// Whether the peer's Receive Maximum was set on this connection.
    pub initialized: bool,
    /// Our own Receive Maximum.
    pub own_receive_maximum: u16,
    /// Unacknowledged incoming QoS 1 and 2 PUBLISH packets.
    pub incoming_count: u16,
}

/// Flow control state.
///
/// Keeps the number of PUBLISH packets that may still be sent under the peer's
/// Receive Maximum, and the number of unacknowledged received PUBLISH packets
/// under our own. Absent a Receive Maximum property, both default to 65535.
#[derive(Debug, Clone)]
pub struct FlowControl {
    receive_maximum: u16,
    outstanding_count: u16,
    initialized: bool,
    own_receive_maximum: u16,
    incoming_count: u16,
}

impl View for FlowControl {
    type V = FlowControlView;

    closed spec fn view(&self) -> FlowControlView {
        FlowControlView {
            receive_maximum: self.receive_maximum,
            outstanding_count: self.outstanding_count,
            initialized: self.initialized,
            own_receive_maximum: self.own_receive_maximum,
            incoming_count: self.incoming_count,
        }
    }
}

/// The state of a fresh flow control, keeping our own Receive Maximum `own`.
pub open spec fn spec_flow_initial(own: u16) -> FlowControlView {
    FlowControlView {
        receive_maximum: DEFAULT_RECEIVE_MAXIMUM,
        outstanding_count: 0,
        initialized: false,
        own_receive_maximum: own,
        incoming_count: 0,
    }
}

impl FlowControl {
    /// Creates flow control with the default Receive Maximum of 65535 in both
    /// directions.
    pub fn new() -> (r: Self)
        ensures
            r@ == spec_flow_initial(DEFAULT_RECEIVE_MAXIMUM),
    {
        Self {
            receive_maximum: DEFAULT_RECEIVE_MAXIMUM,
            outstanding_count: 0,
            initialized: false,
            own_receive_maximum: DEFAULT_RECEIVE_MAXIMUM,
            incoming_count: 0,
        }
    }

    /// Sets the peer's Receive Maximum, from the CONNACK's Receive Maximum
    /// property (MQTT v5.0 §3.2.2.3.3). 0 is rejected and changes nothing.
    pub fn set_receive_maximum(&mut self, max: u16) -> (r: Result<(), FlowControlError>)
        ensures
            max == 0 ==> r == Err::<(), FlowControlError>(FlowControlError::InvalidReceiveMaximum)
                && final(self)@ == old(self)@,
            max != 0 ==> r is Ok && final(self)@ == (FlowControlView {
                receive_maximum: max,
                initialized: true,
                ..old(self)@
            }),
    {
        if max == 0 {
            return Err(FlowControlError::InvalidReceiveMaximum);
        }
        self.receive_maximum = max;
        self.initialized = true;
        Ok(())
    }

    /// Returns the peer's Receive Maximum.
    pub fn receive_maximum(&self) -> (r: u16)
        ensures
            r == self@.receive_maximum,
    {
        self.receive_maximum
    }

    /// Sets our own Receive Maximum, sent in the CONNECT's Receive Maximum
    /// property (MQTT v5.0 §3.1.2.11.3). 0 is rejected and changes nothing.
    pub fn set_own_receive_maximum(&mut self, max: u16) -> (r: Result<(), FlowControlError>)
        ensures
            max == 0 ==> r == Err::<(), FlowControlError>(FlowControlError::InvalidReceiveMaximum)
                && final(self)@ == old(self)@,
            max != 0 ==> r is Ok && final(self)@ == (FlowControlView {
                own_receive_maximum: max,
                ..old(self)@
            }),
    {
        if max == 0 {
            return Err(FlowControlError::InvalidReceiveMaximum);
        }
        self.own_receive_maximum = max;
        Ok(())
    }

    /// Returns our own Receive Maximum.
    pub fn own_receive_maximum(&self) -> (r: u16)
        ensures
            r == self@.own_receive_maximum,
    {
        self.own_receive_maximum
    }

    /// Returns whether another QoS 1 or 2 PUBLISH may be sent.
    pub fn can_send(&self) -> (r: bool)
        ensures
            r == (self@.outstanding_count < self@.receive_maximum),
    {
        self.outstanding_count < self.receive_maximum
    }

    /// Returns how many more PUBLISH packets may be sent (0 if the count is at or
    /// above the Receive Maximum).
    pub fn available(&self) -> (r: u16)
        ensures
            r == if self@.outstanding_count <= self@.receive_maximum {
                (self@.receive_maximum - self@.outstanding_count) as u16
            } else {
                0u16
            },
    {
        self.receive_maximum.saturating_sub(self.outstanding_count)
    }

    /// Records an outgoing QoS 1 or 2 PUBLISH.
    ///
    /// When the Receive Maximum is reached, returns
    /// `ReceiveMaximumExceeded` and leaves the count unchanged.
    pub fn publish_sent(&mut self) -> (r: Result<(), FlowControlError>)
        ensures
            old(self)@.outstanding_count < old(self)@.receive_maximum ==> r is Ok && final(self)@
                == (FlowControlView {
                outstanding_count: (old(self)@.outstanding_count + 1) as u16,
                ..old(self)@
            }),
            old(self)@.outstanding_count >= old(self)@.receive_maximum ==> r == Err::<
                (),
                FlowControlError,
            >(FlowControlError::ReceiveMaximumExceeded) && final(self)@ == old(self)@,
    {
        if !self.can_send() {
            return Err(FlowControlError::ReceiveMaximumExceeded);
        }
        self.outstanding_count = self.outstanding_count + 1;
        Ok(())
    }

    /// Records that an outgoing PUBLISH was acknowledged: a PUBACK or PUBCOMP
    /// (whatever its Reason Code), or a PUBREC with a Reason Code of 0x80 or more
    /// (MQTT v5.0 §4.9). The count does not go below 0.
    pub fn publish_acked(&mut self)
        ensures
            final(self)@ == (FlowControlView {
                outstanding_count: if old(self)@.outstanding_count > 0 {
                    (old(self)@.outstanding_count - 1) as u16
                } else {
                    0u16
                },
                ..old(self)@
            }),
    {
        self.outstanding_count = self.outstanding_count.saturating_sub(1);
    }

    /// Returns the number of unacknowledged outgoing PUBLISH packets.
    pub fn outstanding_count(&self) -> (r: u16)
        ensures
            r == self@.outstanding_count,
    {
        self.outstanding_count
    }

    /// Records an incoming QoS 1 or 2 PUBLISH.
    ///
    /// When our own Receive Maximum is reached, returns
    /// `ReceiveMaximumExceeded` and leaves the count unchanged; the caller must
    /// then disconnect with Reason Code 0x93 (MQTT v5.0 §4.9).
    pub fn publish_received(&mut self) -> (r: Result<(), FlowControlError>)
        ensures
            old(self)@.incoming_count < old(self)@.own_receive_maximum ==> r is Ok && final(self)@
                == (FlowControlView {
                incoming_count: (old(self)@.incoming_count + 1) as u16,
                ..old(self)@
            }),
            old(self)@.incoming_count >= old(self)@.own_receive_maximum ==> r == Err::<
                (),
                FlowControlError,
            >(FlowControlError::ReceiveMaximumExceeded) && final(self)@ == old(self)@,
    {
        if !self.can_receive() {
            return Err(FlowControlError::ReceiveMaximumExceeded);
        }
        self.incoming_count = self.incoming_count + 1;
        Ok(())
    }

    /// Records that the acknowledgement flow of an incoming PUBLISH finished: a
    /// PUBACK sent (QoS 1), a PUBCOMP sent or a PUBREC with a Reason Code of 0x80
    /// or more sent (QoS 2) (MQTT v5.0 §3.3.4 [MQTT-3.3.4-9]). The count does not
    /// go below 0.
    pub fn publish_ack_sent(&mut self)
        ensures
            final(self)@ == (FlowControlView {
                incoming_count: if old(self)@.incoming_count > 0 {
                    (old(self)@.incoming_count - 1) as u16
                } else {
                    0u16
                },
                ..old(self)@
            }),
    {
        self.incoming_count = self.incoming_count.saturating_sub(1);
    }

    /// Returns the number of unacknowledged incoming PUBLISH packets.
    pub fn incoming_count(&self) -> (r: u16)
        ensures
            r == self@.incoming_count,
    {
        self.incoming_count
    }

    /// Returns whether another QoS 1 or 2 PUBLISH may be received.
    pub fn can_receive(&self) -> (r: bool)
        ensures
            r == (self@.incoming_count < self@.own_receive_maximum),
    {
        self.incoming_count < self.own_receive_maximum
    }

    /// Returns how many more PUBLISH packets may be received (0 if the count is
    /// at or above our Receive Maximum).
    pub fn incoming_available(&self) -> (r: u16)
        ensures
            r == if self@.incoming_count <= self@.own_receive_maximum {
                (self@.own_receive_maximum - self@.incoming_count) as u16
            } else {
                0u16
            },
    {
        self.own_receive_maximum.saturating_sub(self.incoming_count)
    }

    /// Returns whether the peer's Receive Maximum was set explicitly.
    pub fn is_initialized(&self) -> (r: bool)
        ensures
            r == self@.initialized,
    {
        self.initialized
    }

    /// Resets the state for a new connection. Our own Receive Maximum is kept
    /// when `keep_own_receive_maximum` is true, and set back to 65535 otherwise.
    pub fn reset(&mut self, keep_own_receive_maximum: bool)
        ensures
            final(self)@ == spec_flow_initial(
                if keep_own_receive_maximum {
                    old(self)@.own_receive_maximum
                } else {
                    DEFAULT_RECEIVE_MAXIMUM
                },
            ),
    {
        let own_receive_maximum = if keep_own_receive_maximum {
            self.own_receive_maximum
        } else {
            DEFAULT_RECEIVE_MAXIMUM
        };
        self.receive_maximum = DEFAULT_RECEIVE_MAXIMUM;
        self.outstanding_count = 0;
        self.initialized = false;
        self.own_receive_maximum = own_receive_maximum;
        self.incoming_count = 0;
    }
}

impl Default for FlowControl {
    fn default() -> (r: Self)
        ensures
            r@ == spec_flow_initial(DEFAULT_RECEIVE_MAXIMUM),
    {
        Self::new()
    }
}

} // verus!
