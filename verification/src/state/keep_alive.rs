//! Keep Alive bookkeeping (MQTT v5.0 §3.1.2.10, MQTT v3.1.1 §3.1.2.10).
//!
//! The caller records when it last sent something with
//! [`KeepAlive::activity`], asks [`KeepAlive::should_send_pingreq`] whether the
//! Keep Alive interval has run out, records a PINGREQ with
//! [`KeepAlive::pingreq_sent`] and its PINGRESP with
//! [`KeepAlive::pingresp_received`], and asks [`KeepAlive::has_timed_out`]
//! whether the PINGRESP is overdue. Times are whatever monotonic unit the caller
//! chooses, normally milliseconds.

use vstd::prelude::*;

verus! {

/// The unit of time the caller injects: a monotonic millisecond counter.
pub type Timestamp = u64;

/// The abstract state of a [`KeepAlive`].
pub struct KeepAliveView {
    /// The Keep Alive interval in seconds; 0 turns the mechanism off.
    pub keep_alive_secs: u16,
    /// When a packet was last sent.
    pub last_activity: u64,
    /// When the PINGREQ being answered was sent, if one is.
    pub pingreq_sent_at: Option<u64>,
}

/// How long `now` is after `then`, or 0 if it is not after it.
pub open spec fn spec_elapsed(now: u64, then: u64) -> u64 {
    if now >= then {
        (now - then) as u64
    } else {
        0
    }
}

/// The Keep Alive interval in milliseconds.
pub open spec fn spec_interval_ms(secs: u16) -> u64 {
    (secs * 1000) as u64
}

/// Keep Alive state.
#[derive(Debug, Clone)]
pub struct KeepAlive {
    keep_alive_secs: u16,
    last_activity: u64,
    pingreq_sent_at: Option<Timestamp>,
}

impl View for KeepAlive {
    type V = KeepAliveView;

    closed spec fn view(&self) -> KeepAliveView {
        KeepAliveView {
            keep_alive_secs: self.keep_alive_secs,
            last_activity: self.last_activity,
            pingreq_sent_at: self.pingreq_sent_at,
        }
    }
}

impl KeepAlive {
    /// Creates the state for the Keep Alive interval `keep_alive_secs` of the
    /// CONNECT; 0 turns the mechanism off.
    pub fn new(keep_alive_secs: u16) -> (r: Self)
        ensures
            r@ == (KeepAliveView { keep_alive_secs, last_activity: 0, pingreq_sent_at: None }),
    {
        Self { keep_alive_secs, last_activity: 0, pingreq_sent_at: None }
    }

    /// Returns the Keep Alive interval in seconds.
    pub fn keep_alive_secs(&self) -> (r: u16)
        ensures
            r == self@.keep_alive_secs,
    {
        self.keep_alive_secs
    }

    /// Changes the Keep Alive interval, for the CONNECT value or a Server Keep
    /// Alive (MQTT v5.0 §3.1.2.10 [MQTT-3.1.2-21], §3.2.2.3.14 [MQTT-3.2.2-21]).
    ///
    /// A PINGRESP being awaited stays awaited.
    pub fn set_keep_alive(&mut self, secs: u16)
        ensures
            final(self)@ == (KeepAliveView { keep_alive_secs: secs, ..old(self)@ }),
    {
        self.keep_alive_secs = secs;
    }

    /// Records that a packet was sent at `now`, restarting the Keep Alive timer.
    pub fn activity(&mut self, now: Timestamp)
        ensures
            final(self)@ == (KeepAliveView { last_activity: now, ..old(self)@ }),
    {
        self.last_activity = now;
    }

    /// Records that a PINGREQ was sent at `now`: a PINGRESP is now awaited and
    /// the Keep Alive timer restarts. A second call overwrites the time.
    pub fn pingreq_sent(&mut self, now: Timestamp)
        ensures
            final(self)@ == (KeepAliveView {
                last_activity: now,
                pingreq_sent_at: Some(now),
                ..old(self)@
            }),
    {
        self.pingreq_sent_at = Some(now);
        self.last_activity = now;
    }

    /// Records that a PINGRESP was received; nothing is awaited any more. Safe to
    /// call when nothing is awaited.
    pub fn pingresp_received(&mut self)
        ensures
            final(self)@ == (KeepAliveView { pingreq_sent_at: None, ..old(self)@ }),
    {
        self.pingreq_sent_at = None;
    }

    /// Returns whether a PINGRESP is awaited.
    pub fn is_awaiting_pingresp(&self) -> (r: bool)
        ensures
            r == self@.pingreq_sent_at is Some,
    {
        self.pingreq_sent_at.is_some()
    }

    /// Returns whether a PINGREQ should be sent at `now`: the whole Keep Alive
    /// interval has passed since the last activity (MQTT v5.0 §3.1.2.10
    /// [MQTT-3.1.2-20], MQTT v3.1.1 §3.1.2.10 [MQTT-3.1.2-23]). Always `false`
    /// when Keep Alive is 0; may be `true` while a PINGRESP is awaited.
    pub fn should_send_pingreq(&self, now: Timestamp) -> (r: bool)
        ensures
            r == (self@.keep_alive_secs != 0 && spec_elapsed(now, self@.last_activity)
                >= spec_interval_ms(self@.keep_alive_secs)),
    {
        if self.keep_alive_secs == 0 {
            return false;
        }
        let keep_alive_ms = (self.keep_alive_secs as u64) * 1000;
        now.saturating_sub(self.last_activity) >= keep_alive_ms
    }

    /// Returns whether the awaited PINGRESP is overdue at `now`: a PINGREQ was
    /// sent at least one Keep Alive interval ago and no PINGRESP came. Always
    /// `false` when Keep Alive is 0 or no PINGRESP is awaited.
    pub fn has_timed_out(&self, now: Timestamp) -> (r: bool)
        ensures
            r == (self@.keep_alive_secs != 0 && match self@.pingreq_sent_at {
                Some(sent_at) => spec_elapsed(now, sent_at) >= spec_interval_ms(
                    self@.keep_alive_secs,
                ),
                None => false,
            }),
    {
        if self.keep_alive_secs == 0 {
            return false;
        }
        match self.pingreq_sent_at {
            None => false,
            Some(sent_at) => {
                let deadline_ms = (self.keep_alive_secs as u64) * 1000;
                now.saturating_sub(sent_at) >= deadline_ms
            },
        }
    }

    /// Resets every field: Keep Alive 0, no activity, nothing awaited.
    pub fn reset(&mut self)
        ensures
            final(self)@ == (KeepAliveView {
                keep_alive_secs: 0,
                last_activity: 0,
                pingreq_sent_at: None,
            }),
    {
        self.keep_alive_secs = 0;
        self.last_activity = 0;
        self.pingreq_sent_at = None;
    }
}

impl Default for KeepAlive {
    fn default() -> (r: Self)
        ensures
            r@ == (KeepAliveView { keep_alive_secs: 0, last_activity: 0, pingreq_sent_at: None }),
    {
        Self::new(0)
    }
}

/// Recording a sent packet restarts the Keep Alive timer: from then on no
/// PINGREQ is due until the whole interval has passed again.
pub proof fn lemma_activity_restarts_timer(before: KeepAliveView, after: KeepAliveView, now: u64, later: u64)
    requires
        after == (KeepAliveView { last_activity: now, ..before }),
        now <= later,
        later - now < spec_interval_ms(after.keep_alive_secs),
    ensures
        !(after.keep_alive_secs != 0 && spec_elapsed(later, after.last_activity) >= spec_interval_ms(
            after.keep_alive_secs,
        )),
{
}

} // verus!
