use shiguredo_mqtt::state::auth::{AuthAction, AuthError, AuthMethodError, AuthState, AuthStateMachine};
fn start_initial(method: &str) -> AuthStateMachine {
    let mut auth = AuthStateMachine::new();
    auth.connect_with_auth(method.into());
    auth
}

fn complete_initial(method: &str) -> AuthStateMachine {
    let mut auth = start_initial(method);
    auth.connack_received(Some(method))
        .expect("初回認証の完了が成功すること");
    auth
}

struct Case {
    desc: &'static str,
    start: fn() -> AuthStateMachine,
    reason_code: u8,
    method: Option<&'static str>,
    expected_action: AuthAction,
    expected_state: AuthState,
}

#[test]
fn auth_received_method_missing_on_continue_is_mismatch() {
    let mut auth = start_initial("X");
    let action = auth.auth_received(0x18, None);
    assert_eq!(action, AuthAction::MethodMismatch);
    assert_eq!(auth.state(), AuthState::Idle);
}

#[test]
fn reauthenticate_from_non_authenticated_is_rejected() {
    let mut auth = AuthStateMachine::new();
    assert_eq!(auth.reauthenticate_sent(), Err(AuthError::NotAuthenticated));
    assert_eq!(auth.state(), AuthState::Idle);

    let mut auth = start_initial("X");
    assert_eq!(auth.reauthenticate_sent(), Err(AuthError::NotAuthenticated));
    assert_eq!(auth.state(), AuthState::InitialAuthenticating);
    assert_eq!(auth.auth_method(), Some("X"));

    let mut auth = complete_initial("X");
    auth.reauthenticate_sent()
        .expect("最初の再認証開始は成功すること");
    assert_eq!(auth.reauthenticate_sent(), Err(AuthError::NotAuthenticated));
    assert_eq!(auth.state(), AuthState::Reauthenticating);
}

#[test]
fn reauth_success_with_none_method_is_accepted() {
    let mut auth = complete_initial("X");
    auth.reauthenticate_sent()
        .expect("再認証開始が成功すること");
    assert_eq!(auth.auth_received(0x00, None), AuthAction::Authenticated);
    assert_eq!(auth.state(), AuthState::Authenticated);
}

#[test]
fn reauth_success_with_mismatched_method_is_mismatch() {
    let mut auth = complete_initial("X");
    auth.reauthenticate_sent()
        .expect("再認証開始が成功すること");
    assert_eq!(
        auth.auth_received(0x00, Some("Y")),
        AuthAction::MethodMismatch
    );
    assert_eq!(auth.state(), AuthState::Idle);
    assert_eq!(auth.auth_method(), None);
}

#[test]
fn connack_missing_method_on_initial_auth_is_missing() {
    let mut auth = start_initial("X");
    assert_eq!(auth.connack_received(None), Err(AuthMethodError::Missing));
    assert_eq!(auth.state(), AuthState::InitialAuthenticating);
    assert_eq!(auth.auth_method(), Some("X"));
}

#[test]
fn connack_mismatched_method_on_initial_auth_is_mismatch() {
    let mut auth = start_initial("X");
    assert_eq!(
        auth.connack_received(Some("Y")),
        Err(AuthMethodError::Mismatch)
    );
    assert_eq!(auth.state(), AuthState::InitialAuthenticating);
    assert_eq!(auth.auth_method(), Some("X"));
}

#[test]
fn connack_method_on_idle_is_unexpected() {
    let mut auth = AuthStateMachine::new();
    assert_eq!(
        auth.connack_received(Some("X")),
        Err(AuthMethodError::Unexpected)
    );
    assert_eq!(auth.state(), AuthState::Idle);
}

#[test]
fn connack_none_on_idle_is_ok() {
    let mut auth = AuthStateMachine::new();
    assert!(auth.connack_received(None).is_ok());
    assert_eq!(auth.state(), AuthState::Idle);
}

#[test]
fn connack_method_on_authenticated_is_unexpected() {
    let mut auth = complete_initial("X");
    assert_eq!(
        auth.connack_received(Some("X")),
        Err(AuthMethodError::Unexpected)
    );
    assert_eq!(auth.state(), AuthState::Authenticated);
}

#[test]
fn connack_method_on_reauthenticating_is_unexpected() {
    let mut auth = complete_initial("X");
    auth.reauthenticate_sent()
        .expect("再認証開始が成功すること");
    assert_eq!(
        auth.connack_received(Some("X")),
        Err(AuthMethodError::Unexpected)
    );
    assert_eq!(auth.state(), AuthState::Reauthenticating);
}

#[test]
fn transition_matrix_covers_all_combinations() {
    let cases: &[Case] = &[
        Case {
            desc: "初回認証中 0x00 一致は Failed",
            start: || start_initial("X"),
            reason_code: 0x00,
            method: Some("X"),
            expected_action: AuthAction::Failed,
            expected_state: AuthState::Idle,
        },
        Case {
            desc: "初回認証中 0x18 一致は Continue",
            start: || start_initial("X"),
            reason_code: 0x18,
            method: Some("X"),
            expected_action: AuthAction::Continue,
            expected_state: AuthState::InitialAuthenticating,
        },
        Case {
            desc: "初回認証中 0x18 不一致は MethodMismatch",
            start: || start_initial("X"),
            reason_code: 0x18,
            method: Some("Y"),
            expected_action: AuthAction::MethodMismatch,
            expected_state: AuthState::Idle,
        },
        Case {
            desc: "初回認証中 0x18 None は MethodMismatch",
            start: || start_initial("X"),
            reason_code: 0x18,
            method: None,
            expected_action: AuthAction::MethodMismatch,
            expected_state: AuthState::Idle,
        },
        Case {
            desc: "初回認証中 0x19 は Failed",
            start: || start_initial("X"),
            reason_code: 0x19,
            method: Some("X"),
            expected_action: AuthAction::Failed,
            expected_state: AuthState::Idle,
        },
        Case {
            desc: "再認証中 0x00 一致は Authenticated",
            start: || {
                let mut a = complete_initial("X");
                a.reauthenticate_sent().expect("再認証開始が成功すること");
                a
            },
            reason_code: 0x00,
            method: Some("X"),
            expected_action: AuthAction::Authenticated,
            expected_state: AuthState::Authenticated,
        },
        Case {
            desc: "再認証中 0x00 None は Authenticated",
            start: || {
                let mut a = complete_initial("X");
                a.reauthenticate_sent().expect("再認証開始が成功すること");
                a
            },
            reason_code: 0x00,
            method: None,
            expected_action: AuthAction::Authenticated,
            expected_state: AuthState::Authenticated,
        },
        Case {
            desc: "再認証中 0x00 不一致は MethodMismatch",
            start: || {
                let mut a = complete_initial("X");
                a.reauthenticate_sent().expect("再認証開始が成功すること");
                a
            },
            reason_code: 0x00,
            method: Some("Y"),
            expected_action: AuthAction::MethodMismatch,
            expected_state: AuthState::Idle,
        },
        Case {
            desc: "再認証中 0x18 一致は Continue",
            start: || {
                let mut a = complete_initial("X");
                a.reauthenticate_sent().expect("再認証開始が成功すること");
                a
            },
            reason_code: 0x18,
            method: Some("X"),
            expected_action: AuthAction::Continue,
            expected_state: AuthState::Reauthenticating,
        },
        Case {
            desc: "再認証中 0x18 None は MethodMismatch",
            start: || {
                let mut a = complete_initial("X");
                a.reauthenticate_sent().expect("再認証開始が成功すること");
                a
            },
            reason_code: 0x18,
            method: None,
            expected_action: AuthAction::MethodMismatch,
            expected_state: AuthState::Idle,
        },
        Case {
            desc: "再認証中 0x19 は Failed",
            start: || {
                let mut a = complete_initial("X");
                a.reauthenticate_sent().expect("再認証開始が成功すること");
                a
            },
            reason_code: 0x19,
            method: Some("X"),
            expected_action: AuthAction::Failed,
            expected_state: AuthState::Idle,
        },
        Case {
            desc: "再認証中 0x18 不一致は MethodMismatch",
            start: || {
                let mut a = complete_initial("X");
                a.reauthenticate_sent().expect("再認証開始が成功すること");
                a
            },
            reason_code: 0x18,
            method: Some("Y"),
            expected_action: AuthAction::MethodMismatch,
            expected_state: AuthState::Idle,
        },
        Case {
            desc: "認証済み 0x00 は Failed",
            start: || complete_initial("X"),
            reason_code: 0x00,
            method: Some("X"),
            expected_action: AuthAction::Failed,
            expected_state: AuthState::Idle,
        },
        Case {
            desc: "認証済み 0x18 は Failed",
            start: || complete_initial("X"),
            reason_code: 0x18,
            method: Some("X"),
            expected_action: AuthAction::Failed,
            expected_state: AuthState::Idle,
        },
        Case {
            desc: "認証済み 0x19 は Failed",
            start: || complete_initial("X"),
            reason_code: 0x19,
            method: Some("X"),
            expected_action: AuthAction::Failed,
            expected_state: AuthState::Idle,
        },
        Case {
            desc: "Idle での 0x00 は Failed",
            start: AuthStateMachine::new,
            reason_code: 0x00,
            method: Some("X"),
            expected_action: AuthAction::Failed,
            expected_state: AuthState::Idle,
        },
        Case {
            desc: "Idle での 0x18 は Failed",
            start: AuthStateMachine::new,
            reason_code: 0x18,
            method: Some("X"),
            expected_action: AuthAction::Failed,
            expected_state: AuthState::Idle,
        },
        Case {
            desc: "Idle での 0x19 は Failed",
            start: AuthStateMachine::new,
            reason_code: 0x19,
            method: Some("X"),
            expected_action: AuthAction::Failed,
            expected_state: AuthState::Idle,
        },
    ];

    for case in cases {
        let mut auth = (case.start)();
        let action = auth.auth_received(case.reason_code, case.method);
        assert_eq!(action, case.expected_action, "{}", case.desc);
        assert_eq!(auth.state(), case.expected_state, "{}", case.desc);
    }
}
