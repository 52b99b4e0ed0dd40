//! The enhanced authentication state machine (MQTT v5.0 §4.12).
//!
//! Tracks the stages of an AUTH exchange (SCRAM and the like). The state machine
//! is sans-I/O and follows only the sequence of the exchange; computing the
//! authentication data (challenges and responses) is the caller's task.
//!
//! MQTT v3.1.1 has no AUTH packet, so this state machine is MQTT v5.0 only.

use vstd::prelude::*;

use crate::codec::utf8_string::str_eq;

verus! {

/// The authentication state.
///
/// The initial authentication and a re-authentication end differently, so they
/// are separate states:
///
/// - the initial authentication starts with CONNECT and ends with a successful
///   CONNACK (MQTT v5.0 §4.12); an AUTH 0x00 during it does not end it;
/// - a re-authentication starts with the client's AUTH 0x19 and ends with the
///   server's AUTH 0x00 (MQTT v5.0 §4.12.1).
///
/// In every state but `Idle` the state machine holds an Authentication Method.
#[derive(Debug, Clone, Copy, PartialEq, Eq, Structural)]
pub enum AuthState {
    /// No authentication has started, or the state machine was reset.
    Idle,
    /// The initial authentication is in progress: the CONNECT carried an
    /// Authentication Method and a successful CONNACK is awaited.
    InitialAuthenticating,
    /// Authentication is complete.
    Authenticated,
    /// A re-authentication is in progress: an AUTH 0x19 (Re-authenticate) was
    /// sent and an AUTH 0x00 (Success) is awaited.
    Reauthenticating,
}

/// What to do after an AUTH packet was received.
#[derive(Debug, Clone, Copy, PartialEq, Eq, Structural)]
pub enum AuthAction {
    /// Authentication succeeded; no further AUTH exchange is needed.
    Authenticated,
    /// The exchange goes on; the caller sends a response AUTH.
    Continue,
    /// The AUTH arrived in a combination of state and Reason Code that is not
    /// allowed (a protocol violation). The state is reset to `Idle`.
    Failed,
    /// The Authentication Method of the AUTH differs from the one of the CONNECT,
    /// or a required Method is missing (MQTT v5.0 §4.12 [MQTT-4.12.0-5]). A
    /// protocol violation told apart from `Failed`; the state is reset to `Idle`.
    MethodMismatch,
}

/// An enhanced-authentication operation that the session's state does not allow.
#[derive(Debug, Clone, Copy, PartialEq, Eq, Structural)]
pub enum AuthError {
    /// A re-authentication was started in a state other than `Authenticated`.
    NotAuthenticated,
    /// A MQTT v5.0-only enhanced-authentication operation was called on a
    /// MQTT v3.1.1 session.
    V5OnlyOperation,
}

/// An Authentication Method check that failed on a CONNACK.
#[derive(Debug, Clone, Copy, PartialEq, Eq, Structural)]
pub enum AuthMethodError {
    /// A required Authentication Method is missing (MQTT v5.0 §4.12 [MQTT-4.12.0-5]).
    Missing,
    /// The Authentication Method differs from the one of the CONNECT.
    Mismatch,
    /// The CONNACK carries an Authentication Method although no initial
    /// authentication is in progress (MQTT v5.0 §4.12 [MQTT-4.12.0-6]).
    Unexpected,
}

impl AuthError {
    /// A human-readable description of the error.
    pub fn message(&self) -> (r: &'static str)
        ensures
            r@ == match *self {
                AuthError::NotAuthenticated => "reauthenticate is allowed only after initial authentication completes"@,
                AuthError::V5OnlyOperation => "extended authentication is only supported for MQTT v5.0 sessions"@,
            },
    {
        match self {
            AuthError::NotAuthenticated => {
                "reauthenticate is allowed only after initial authentication completes"
            },
            AuthError::V5OnlyOperation => {
                "extended authentication is only supported for MQTT v5.0 sessions"
            },
        }
    }
}

impl AuthMethodError {
    /// A human-readable description of the error.
    pub fn message(&self) -> (r: &'static str)
        ensures
            r@ == match *self {
                AuthMethodError::Missing => "Authentication Method is required but missing"@,
                AuthMethodError::Mismatch => "Authentication Method does not match CONNECT"@,
                AuthMethodError::Unexpected => "Authentication Method is not expected in this state"@,
            },
    {
        match self {
            AuthMethodError::Missing => "Authentication Method is required but missing",
            AuthMethodError::Mismatch => "Authentication Method does not match CONNECT",
            AuthMethodError::Unexpected => "Authentication Method is not expected in this state",
        }
    }
}

/// The characters of an optional string.
pub open spec fn spec_opt_str(m: Option<&str>) -> Option<Seq<char>> {
    match m {
        Some(s) => Some(s@),
        None => None,
    }
}

/// The characters of an optional owned string.
pub open spec fn spec_opt_string(m: Option<String>) -> Option<Seq<char>> {
    match m {
        Some(s) => Some(s@),
        None => None,
    }
}

/// Whether `(state, reason_code)` is one of the three combinations in which an
/// AUTH may arrive: 0x18 (Continue) during either authentication, or 0x00
/// (Success) during a re-authentication.
pub open spec fn spec_auth_legal(state: AuthState, reason_code: u8) -> bool {
    ||| state == AuthState::InitialAuthenticating && reason_code == 0x18
    ||| state == AuthState::Reauthenticating && reason_code == 0x18
    ||| state == AuthState::Reauthenticating && reason_code == 0x00
}

/// The outcome of receiving an AUTH with `reason_code` and `method` in `state`
/// with the stored Method `stored`: the action, the next state and the next
/// stored Method.
///
/// An illegal combination fails. Otherwise the received Method must equal the
/// stored one, except that it may be left out on a re-authentication's
/// Success; a Method that differs or is missing otherwise is a mismatch. Both
/// failures reset the state machine.
pub open spec fn spec_auth_received(
    state: AuthState,
    stored: Option<Seq<char>>,
    reason_code: u8,
    method: Option<Seq<char>>,
) -> (AuthAction, AuthState, Option<Seq<char>>) {
    if !spec_auth_legal(state, reason_code) {
        (AuthAction::Failed, AuthState::Idle, None)
    } else {
        let method_ok = match method {
            Some(m) => stored == Some(m),
            None => state == AuthState::Reauthenticating && reason_code == 0x00,
        };
        if !method_ok {
            (AuthAction::MethodMismatch, AuthState::Idle, None)
        } else if reason_code == 0x18 {
            (AuthAction::Continue, state, stored)
        } else {
            (AuthAction::Authenticated, AuthState::Authenticated, stored)
        }
    }
}

/// The outcome of the Authentication Method check on a successful CONNACK:
/// the result and the next state. The stored Method does not change.
pub open spec fn spec_connack_received(
    state: AuthState,
    stored: Option<Seq<char>>,
    method: Option<Seq<char>>,
) -> (Result<(), AuthMethodError>, AuthState) {
    if state == AuthState::InitialAuthenticating {
        match method {
            None => (Err(AuthMethodError::Missing), state),
            Some(m) => if stored != Some(m) {
                (Err(AuthMethodError::Mismatch), state)
            } else {
                (Ok(()), AuthState::Authenticated)
            },
        }
    } else if method is Some {
        (Err(AuthMethodError::Unexpected), state)
    } else {
        (Ok(()), state)
    }
}

/// The enhanced authentication state machine.
///
/// Follows an authentication from the Method named in CONNECT, through the AUTH
/// exchange, to the successful CONNACK that ends the initial authentication,
/// and a re-authentication from [`reauthenticate_sent`](Self::reauthenticate_sent)
/// to its end.
#[derive(Debug)]
pub struct AuthStateMachine {
    state: AuthState,
    auth_method: Option<String>,
}

/// The abstract state of an [`AuthStateMachine`].
pub struct AuthView {
    /// The state.
    pub state: AuthState,
    /// The stored Authentication Method.
    pub method: Option<Seq<char>>,
}

impl View for AuthStateMachine {
    type V = AuthView;

    open spec fn view(&self) -> AuthView {
        AuthView { state: self.spec_state(), method: self.spec_method() }
    }
}

impl AuthStateMachine {
    /// The machine's invariant: it holds a Method exactly when it is not `Idle`.
    #[verifier::type_invariant]
    spec fn inv(self) -> bool {
        (self.state == AuthState::Idle) == (self.auth_method is None)
    }

    /// The current state.
    pub closed spec fn spec_state(&self) -> AuthState {
        self.state
    }

    /// The stored Authentication Method.
    pub closed spec fn spec_method(&self) -> Option<Seq<char>> {
        spec_opt_string(self.auth_method)
    }

    /// Creates a state machine in the `Idle` state.
    pub fn new() -> (r: Self)
        ensures
            r.spec_state() == AuthState::Idle,
            r.spec_method() is None,
    {
        Self { state: AuthState::Idle, auth_method: None }
    }

    /// Returns the current state.
    pub fn state(&self) -> (r: AuthState)
        ensures
            r == self.spec_state(),
    {
        self.state
    }

    /// Returns the stored Authentication Method.
    ///
    /// It is `Some` exactly when the state is not `Idle`.
    pub fn auth_method(&self) -> (r: Option<&str>)
        ensures
            spec_opt_str(r) == self.spec_method(),
            r is None <==> self.spec_state() == AuthState::Idle,
    {
        proof {
            use_type_invariant(self);
        }
        match &self.auth_method {
            Some(m) => Some(m.as_str()),
            None => None,
        }
    }

    /// Returns whether an authentication (initial or re-authentication) is in
    /// progress.
    pub fn is_authenticating(&self) -> (r: bool)
        ensures
            r == (self.spec_state() == AuthState::InitialAuthenticating || self.spec_state()
                == AuthState::Reauthenticating),
    {
        self.state == AuthState::InitialAuthenticating || self.state == AuthState::Reauthenticating
    }

    /// Returns whether the initial authentication is in progress.
    pub fn is_initial_authenticating(&self) -> (r: bool)
        ensures
            r == (self.spec_state() == AuthState::InitialAuthenticating),
    {
        self.state == AuthState::InitialAuthenticating
    }

    /// Returns whether a re-authentication is in progress.
    pub fn is_reauthenticating(&self) -> (r: bool)
        ensures
            r == (self.spec_state() == AuthState::Reauthenticating),
    {
        self.state == AuthState::Reauthenticating
    }

    /// Returns whether authentication is complete.
    pub fn is_authenticated(&self) -> (r: bool)
        ensures
            r == (self.spec_state() == AuthState::Authenticated),
    {
        self.state == AuthState::Authenticated
    }

    /// Starts the initial authentication: a CONNECT carrying the Authentication
    /// Method `auth_method` was sent (MQTT v5.0 §3.1.2.11.9 [MQTT-3.1.2-30]).
    ///
    /// Sessions start it through `Session::connect_sent_with_auth`.
    pub fn connect_with_auth(&mut self, auth_method: String)
        ensures
            final(self).spec_state() == AuthState::InitialAuthenticating,
            final(self).spec_method() == Some(auth_method@),
            final(self).spec_state() == AuthState::Idle <==> final(self).spec_method() is None,
    {
        *self = Self { state: AuthState::InitialAuthenticating, auth_method: Some(auth_method) };
    }

    /// Handles a received AUTH with `reason_code` (0x00, 0x18 or 0x19) and the
    /// Authentication Method `authentication_method` it carried.
    ///
    /// Only three combinations are legal: 0x18 during either authentication and
    /// 0x00 during a re-authentication; anything else resets the machine and
    /// returns [`AuthAction::Failed`] (an AUTH 0x00 never ends the initial
    /// authentication, a successful CONNACK does). In a legal combination the
    /// Method must equal the stored one; it may be missing only on a
    /// re-authentication's Success. Otherwise the machine is reset and
    /// [`AuthAction::MethodMismatch`] returned (MQTT v5.0 §4.12 [MQTT-4.12.0-5]).
    pub fn auth_received(&mut self, reason_code: u8, authentication_method: Option<&str>) -> (r:
        AuthAction)
        ensures
            (r, final(self).spec_state(), final(self).spec_method()) == spec_auth_received(
                old(self).spec_state(),
                old(self).spec_method(),
                reason_code,
                spec_opt_str(authentication_method),
            ),
            final(self).spec_state() == AuthState::Idle <==> final(self).spec_method() is None,
    {
        proof {
            use_type_invariant(&*self);
        }
        let is_legal = (self.state == AuthState::InitialAuthenticating && reason_code == 0x18) || (
        self.state == AuthState::Reauthenticating && (reason_code == 0x18 || reason_code == 0x00));
        if !is_legal {
            *self = Self { state: AuthState::Idle, auth_method: None };
            return AuthAction::Failed;
        }
        let is_reauth_success = self.state == AuthState::Reauthenticating && reason_code == 0x00;
        let method_ok = match (&self.auth_method, authentication_method) {
            (Some(expected), Some(method)) => str_eq(method, expected.as_str()),
            (_, None) => is_reauth_success,
            (None, Some(_)) => false,
        };
        if !method_ok {
            *self = Self { state: AuthState::Idle, auth_method: None };
            return AuthAction::MethodMismatch;
        }
        if reason_code == 0x18 {
            AuthAction::Continue
        } else {
            self.state = AuthState::Authenticated;
            AuthAction::Authenticated
        }
    }

    /// Checks the Authentication Method of a successful CONNACK and, during the
    /// initial authentication, completes it.
    ///
    /// During the initial authentication a missing Method is
    /// [`AuthMethodError::Missing`] and a different one
    /// [`AuthMethodError::Mismatch`]; an equal one moves to `Authenticated`. In any
    /// other state a Method is [`AuthMethodError::Unexpected`] and its absence is
    /// fine. An error leaves the state unchanged.
    pub fn connack_received(&mut self, authentication_method: Option<&str>) -> (r: Result<
        (),
        AuthMethodError,
    >)
        ensures
            (r, final(self).spec_state()) == spec_connack_received(
                old(self).spec_state(),
                old(self).spec_method(),
                spec_opt_str(authentication_method),
            ),
            final(self).spec_method() == old(self).spec_method(),
            final(self).spec_state() == AuthState::Idle <==> final(self).spec_method() is None,
    {
        proof {
            use_type_invariant(&*self);
        }
        if self.state == AuthState::InitialAuthenticating {
            match authentication_method {
                None => Err(AuthMethodError::Missing),
                Some(method) => {
                    let same = match &self.auth_method {
                        Some(expected) => str_eq(method, expected.as_str()),
                        None => false,
                    };
                    if !same {
                        Err(AuthMethodError::Mismatch)
                    } else {
                        self.state = AuthState::Authenticated;
                        Ok(())
                    }
                },
            }
        } else if authentication_method.is_some() {
            Err(AuthMethodError::Unexpected)
        } else {
            Ok(())
        }
    }

    /// Records that the client sent an AUTH 0x19 (Re-authenticate)
    /// (MQTT v5.0 §4.12.1 [MQTT-4.12.1-1]).
    ///
    /// Allowed only in `Authenticated`; in any other state the state is left
    /// unchanged and [`AuthError::NotAuthenticated`] returned.
    pub fn reauthenticate_sent(&mut self) -> (r: Result<(), AuthError>)
        ensures
            old(self).spec_state() == AuthState::Authenticated ==> r is Ok
                && final(self).spec_state() == AuthState::Reauthenticating,
            old(self).spec_state() != AuthState::Authenticated ==> r == Err::<(), AuthError>(
                AuthError::NotAuthenticated,
            ) && final(self).spec_state() == old(self).spec_state(),
            final(self).spec_method() == old(self).spec_method(),
            final(self).spec_state() == AuthState::Idle <==> final(self).spec_method() is None,
    {
        proof {
            use_type_invariant(&*self);
        }
        if self.state != AuthState::Authenticated {
            return Err(AuthError::NotAuthenticated);
        }
        self.state = AuthState::Reauthenticating;
        Ok(())
    }

    /// Resets the state machine to `Idle`, on disconnection or before a new
    /// connection.
    pub fn reset(&mut self)
        ensures
            final(self).spec_state() == AuthState::Idle,
            final(self).spec_method() is None,
    {
        *self = Self { state: AuthState::Idle, auth_method: None };
    }
}

impl Clone for AuthStateMachine {
    fn clone(&self) -> (r: Self)
        ensures
            r.spec_state() == self.spec_state(),
            r.spec_method() == self.spec_method(),
    {
        proof {
            use_type_invariant(self);
        }
        let auth_method = match &self.auth_method {
            Some(m) => Some(m.clone()),
            None => None,
        };
        Self { state: self.state, auth_method }
    }
}

impl Default for AuthStateMachine {
    fn default() -> (r: Self)
        ensures
            r.spec_state() == AuthState::Idle,
            r.spec_method() is None,
    {
        Self::new()
    }
}

} // verus!
