use shiguredo_mqtt::codec::qos::QoS;
use shiguredo_mqtt::state::auth::AuthState;
use shiguredo_mqtt::state::qos_flow::Action;
use shiguredo_mqtt::state::session::{
    ConnackParams, ConnackReason, ConnectionState, ServerCapabilities, Session,
};
use shiguredo_mqtt::state::subscribe::{SubscriptionEntry, SubscriptionManager};
use shiguredo_mqtt::v5::connack::ConnectReasonCode;

fn base() -> ConnackParams {
    ConnackParams {
        session_present: false,
        reason_code: ConnackReason::V5(ConnectReasonCode::Success),
        session_expiry_interval: None,
        receive_maximum: None,
        topic_alias_maximum: None,
        server_keep_alive: None,
        maximum_packet_size: None,
        maximum_qos: None,
        retain_available: None,
        wildcard_subscription_available: None,
        subscription_identifiers_available: None,
        shared_subscription_available: None,
        assigned_client_identifier: None,
        authentication_method: None,
    }
}

#[test]
fn clean_start_resets_session_state() {
    let mut session =
        Session::new_v5("client-1".into(), true).expect("セッションの作成に成功すること");

    session.subscription_manager_mut().subscribe_sent(
        1,
        vec![shiguredo_mqtt::state::subscribe::SubscriptionEntry::new(
            "a/b",
            shiguredo_mqtt::codec::qos::QoS::AtMostOnce,
        )],
    );
    session
        .subscription_manager_mut()
        .suback_received(1, &[0x00]);

    assert_eq!(session.subscription_manager().active_count(), 1);

    session.connect_sent();
    session.connected(false);

    assert_eq!(session.subscription_manager().active_count(), 0);
}

#[test]
fn clean_start_resets_qos_flow_and_packet_ids() {
    let mut session =
        Session::new_v5("client-1".into(), true).expect("セッションの作成に成功すること");

    let id = session
        .packet_id_manager_mut()
        .allocate()
        .expect("パケット識別子を割り当てられること");
    session.qos_flow_mut().publish_sent_qos1(id);
    assert!(session.qos_flow().is_active(id));

    session
        .subscription_manager_mut()
        .subscribe_sent(1, vec![SubscriptionEntry::new("a/b", QoS::AtLeastOnce)]);
    session
        .subscription_manager_mut()
        .suback_received(1, &[0x01]);
    assert_eq!(session.subscription_manager().active_count(), 1);

    session.connect_sent();
    session.connected(false);

    assert_eq!(session.qos_flow().active_flow_count(), 0);
    assert_eq!(session.packet_id_manager().in_use_count(), 0);
    assert_eq!(session.subscription_manager().active_count(), 0);
}

#[test]
fn sub_state_machines_accessible() {
    let mut session =
        Session::new_v5("client-1".into(), true).expect("セッションの作成に成功すること");

    let id = session
        .packet_id_manager_mut()
        .allocate()
        .expect("パケット識別子を割り当てられること");
    assert_eq!(id, 1);

    session.qos_flow_mut().publish_sent_qos1(1);
    assert!(session.qos_flow().is_active(1));

    session.keep_alive_mut().set_keep_alive(60);
    assert_eq!(session.keep_alive().keep_alive_secs(), 60);
}

#[test]
fn session_present_false_resets_state_even_with_clean_start_false() {
    let mut session =
        Session::new_v5("client-1".into(), false).expect("セッションの作成に成功すること");
    session.subscription_manager_mut().subscribe_sent(
        1,
        vec![SubscriptionEntry::new(
            "a/b",
            shiguredo_mqtt::codec::qos::QoS::AtLeastOnce,
        )],
    );
    session
        .subscription_manager_mut()
        .suback_received(1, &[0x01]);
    assert_eq!(session.subscription_manager().active_count(), 1);

    session.connect_sent();
    session.connected(false);

    assert_eq!(session.subscription_manager().active_count(), 0);
}

#[test]
fn reset_clears_all() {
    let mut session =
        Session::new_v5("client-1".into(), true).expect("セッションの作成に成功すること");
    session.connect_sent();
    session.connected(false);
    session
        .packet_id_manager_mut()
        .allocate()
        .expect("パケット識別子を割り当てられること");

    session.reset();

    assert_eq!(session.connection_state(), ConnectionState::Disconnected);
    assert_eq!(session.packet_id_manager().in_use_count(), 0);
    assert_eq!(session.session_expiry_interval(), 0);
}

#[test]
fn reset_clears_all_sub_state_machines() {
    let mut session =
        Session::new_v5("client-1".into(), false).expect("セッションの作成に成功すること");
    session
        .configure_for_connect(60, 300, 16, 10, 1024)
        .expect("CONNECT パラメータを設定できること");
    session.connect_sent();

    session
        .apply_connack(ConnackParams {
            session_present: true,
            reason_code: ConnackReason::V5(ConnectReasonCode::Success),
            session_expiry_interval: Some(300),
            receive_maximum: Some(100),
            topic_alias_maximum: Some(8),
            server_keep_alive: Some(30),
            maximum_packet_size: Some(1024),
            maximum_qos: Some(QoS::AtLeastOnce),
            retain_available: Some(false),
            wildcard_subscription_available: Some(false),
            subscription_identifiers_available: Some(false),
            shared_subscription_available: Some(false),
            assigned_client_identifier: None,
            authentication_method: None,
        })
        .expect("CONNACK を受理すること");

    let publish_id = session
        .packet_id_manager_mut()
        .allocate()
        .expect("PUBLISH 用パケット識別子を割り当てられること");
    session.qos_flow_mut().publish_sent_qos1(publish_id);

    let subscribe_packet_id = 2u16;
    session.subscription_manager_mut().subscribe_sent(
        subscribe_packet_id,
        vec![SubscriptionEntry::new("a/b", QoS::AtMostOnce)],
    );
    session
        .subscription_manager_mut()
        .suback_received(subscribe_packet_id, &[0x00]);
    session
        .topic_alias_manager_mut()
        .resolve_on_receive("a/b", 1)
        .expect("受信エイリアスを解決できること");
    session
        .topic_alias_manager_mut()
        .register_for_send("a/b")
        .expect("送信エイリアスを割り当てられること");
    session
        .auth_state_mut()
        .connect_with_auth("SCRAM-SHA-256".into());

    let expected_before_reset = ServerCapabilities {
        maximum_packet_size: Some(1024),
        maximum_qos: QoS::AtLeastOnce,
        retain_available: false,
        wildcard_subscription_available: false,
        subscription_identifiers_available: false,
        shared_subscription_available: false,
    };
    assert!(session.subscription_manager().is_subscribed("a/b"));
    assert_eq!(session.topic_alias_manager().own_maximum(), 16);
    assert_eq!(session.topic_alias_manager().peer_maximum(), 8);
    assert_eq!(session.topic_alias_manager().alias_count(), 2);
    assert_eq!(
        session.auth_state().state(),
        AuthState::InitialAuthenticating
    );
    assert_eq!(session.server_capabilities(), &expected_before_reset);

    session.reset();

    assert_eq!(session.packet_id_manager().in_use_count(), 0);
    assert_eq!(session.qos_flow().active_flow_count(), 0);
    assert_eq!(session.session_expiry_interval(), 0);
    assert_eq!(session.keep_alive().keep_alive_secs(), 0);
    assert_eq!(session.flow_control().available(), 65535);
    assert_eq!(session.flow_control().own_receive_maximum(), 65535);
    assert!(!session.subscription_manager().is_subscribed("a/b"));
    assert_eq!(session.topic_alias_manager().own_maximum(), 0);
    assert_eq!(session.topic_alias_manager().peer_maximum(), 0);
    assert_eq!(session.topic_alias_manager().alias_count(), 0);
    assert_eq!(session.auth_state().state(), AuthState::Idle);
    assert_eq!(session.server_capabilities(), &ServerCapabilities::new());
}

#[test]
fn apply_connack_clean_start_resets() {
    let mut session =
        Session::new_v5("client-1".into(), true).expect("セッションの作成に成功すること");
    session.subscription_manager_mut().subscribe_sent(
        1,
        vec![SubscriptionEntry::new(
            "a/b",
            shiguredo_mqtt::codec::qos::QoS::AtLeastOnce,
        )],
    );
    session
        .subscription_manager_mut()
        .suback_received(1, &[0x01]);
    assert_eq!(session.subscription_manager().active_count(), 1);

    session.connect_sent();
    session
        .apply_connack(ConnackParams {
            session_present: false,
            reason_code: ConnackReason::V5(ConnectReasonCode::Success),
            session_expiry_interval: None,
            receive_maximum: None,
            topic_alias_maximum: None,
            server_keep_alive: None,
            maximum_packet_size: None,
            maximum_qos: None,
            retain_available: None,
            wildcard_subscription_available: None,
            subscription_identifiers_available: None,
            shared_subscription_available: None,
            assigned_client_identifier: None,
            authentication_method: None,
        })
        .expect("CONNACK を受理すること");

    assert_eq!(session.subscription_manager().active_count(), 0);
}

#[test]
fn connect_sent_resets_connection_scoped_state() {
    let mut session =
        Session::new_v5("client-1".into(), false).expect("セッションの作成に成功すること");
    session
        .configure_for_connect(60, 0, 16, 2, 0)
        .expect("CONNECT パラメータを設定できること");
    session.connect_sent();
    session
        .apply_connack(ConnackParams {
            session_present: false,
            reason_code: ConnackReason::V5(ConnectReasonCode::Success),
            session_expiry_interval: None,
            receive_maximum: Some(5),
            topic_alias_maximum: Some(4),
            server_keep_alive: None,
            maximum_packet_size: None,
            maximum_qos: None,
            retain_available: None,
            wildcard_subscription_available: None,
            subscription_identifiers_available: None,
            shared_subscription_available: None,
            assigned_client_identifier: None,
            authentication_method: None,
        })
        .expect("CONNACK を受理すること");

    session
        .topic_alias_manager_mut()
        .register_for_send("sensor/temperature")
        .expect("送信用エイリアスを割り当てられること");
    session
        .flow_control_mut()
        .publish_sent()
        .expect("フロー制御の送信記録に成功すること");
    session
        .flow_control_mut()
        .publish_received()
        .expect("フロー制御の受信記録に成功すること");
    session
        .auth_state_mut()
        .connect_with_auth("SCRAM-SHA-256".into());
    assert_eq!(session.flow_control().outstanding_count(), 1);
    assert_eq!(session.flow_control().incoming_count(), 1);

    session.disconnected();
    session.connect_sent();

    assert_eq!(
        session
            .topic_alias_manager()
            .find_alias_for_topic("sensor/temperature"),
        None
    );
    assert_eq!(session.topic_alias_manager().peer_maximum(), 0);
    assert_eq!(session.flow_control().receive_maximum(), 65535);
    assert_eq!(session.flow_control().outstanding_count(), 0);
    assert_eq!(session.flow_control().incoming_count(), 0);
    assert!(!session.auth_state().is_authenticating());
    assert_eq!(session.topic_alias_manager().own_maximum(), 16);
    assert_eq!(session.flow_control().own_receive_maximum(), 2);
}

#[test]
fn session_state_survives_reconnect_with_session_present() {
    let mut session =
        Session::new_v5("client-1".into(), false).expect("セッションの作成に成功すること");
    session.connect_sent();
    session.connected(true);

    session.qos_flow_mut().publish_sent_qos1(10);
    session.subscription_manager_mut().subscribe_sent(
        1,
        vec![SubscriptionEntry::new(
            "a/b",
            shiguredo_mqtt::codec::qos::QoS::AtLeastOnce,
        )],
    );
    session
        .subscription_manager_mut()
        .suback_received(1, &[0x01]);

    session.disconnected();
    session.connect_sent();
    session.connected(true);

    assert!(session.qos_flow().is_active(10));
    assert_eq!(session.subscription_manager().active_count(), 1);
}

#[test]
fn subscriptions_can_be_relisted_after_session_discard() {
    let mut session =
        Session::new_v5("client-1".into(), false).expect("セッションの作成に成功すること");
    session.connect_sent();
    session.connected(true);

    let mut entry1 = SubscriptionEntry::new("a/b", shiguredo_mqtt::codec::qos::QoS::AtLeastOnce);
    entry1.no_local = true;
    entry1.retain_handling = shiguredo_mqtt::v5::subscribe::RetainHandling::DoNotSendRetained;
    entry1.subscription_identifier = Some(42);
    let mut entry2 = SubscriptionEntry::new("c/d", shiguredo_mqtt::codec::qos::QoS::ExactlyOnce);
    entry2.retain_as_published = true;

    session
        .subscription_manager_mut()
        .subscribe_sent(1, vec![entry1, entry2]);
    session
        .subscription_manager_mut()
        .suback_received(1, &[0x01, 0x02]);

    let active_entries: Vec<SubscriptionEntry> = session
        .subscription_manager()
        .active_subscriptions()
        .into_iter()
        .cloned()
        .collect();
    assert_eq!(active_entries.len(), 2);

    session.disconnected();
    session.connect_sent();
    session.connected(false);

    assert_eq!(session.subscription_manager().active_count(), 0);

    let resubscribe: Vec<shiguredo_mqtt::v5::subscribe::Subscription> = active_entries
        .into_iter()
        .map(|entry| entry.into())
        .collect();
    assert_eq!(resubscribe.len(), 2);
    let a = resubscribe
        .iter()
        .find(|s| s.topic_filter == "a/b")
        .expect("a/b が含まれること");
    assert!(a.no_local);
    assert_eq!(
        a.retain_handling,
        shiguredo_mqtt::v5::subscribe::RetainHandling::DoNotSendRetained
    );
    let c = resubscribe
        .iter()
        .find(|s| s.topic_filter == "c/d")
        .expect("c/d が含まれること");
    assert!(c.retain_as_published);
}

#[test]
fn apply_connack_accepts_session_present_with_existing_session_state() {
    let mut session =
        Session::new_v5("client-1".into(), false).expect("セッションの作成に成功すること");
    session.subscription_manager_mut().subscribe_sent(
        1,
        vec![SubscriptionEntry::new(
            "a/b",
            shiguredo_mqtt::codec::qos::QoS::AtLeastOnce,
        )],
    );
    session
        .subscription_manager_mut()
        .suback_received(1, &[0x01]);
    assert_eq!(session.subscription_manager().active_count(), 1);

    session.connect_sent();
    let result = session.apply_connack(ConnackParams {
        session_present: true,
        reason_code: ConnackReason::V5(ConnectReasonCode::Success),
        session_expiry_interval: None,
        receive_maximum: None,
        topic_alias_maximum: None,
        server_keep_alive: None,
        maximum_packet_size: None,
        maximum_qos: None,
        retain_available: None,
        wildcard_subscription_available: None,
        subscription_identifiers_available: None,
        shared_subscription_available: None,
        assigned_client_identifier: None,
        authentication_method: None,
    });

    assert_eq!(result, Ok(()));
    assert!(session.is_connected());
    assert_eq!(session.subscription_manager().active_count(), 1);
}

#[test]
fn connack_params_has_v5_only_fields_detects_all_fields() {
    assert!(!base().has_v5_only_fields());

    assert!(
        ConnackParams {
            session_expiry_interval: Some(1),
            ..base()
        }
        .has_v5_only_fields()
    );
    assert!(
        ConnackParams {
            receive_maximum: Some(1),
            ..base()
        }
        .has_v5_only_fields()
    );
    assert!(
        ConnackParams {
            topic_alias_maximum: Some(1),
            ..base()
        }
        .has_v5_only_fields()
    );
    assert!(
        ConnackParams {
            server_keep_alive: Some(1),
            ..base()
        }
        .has_v5_only_fields()
    );
    assert!(
        ConnackParams {
            maximum_packet_size: Some(1),
            ..base()
        }
        .has_v5_only_fields()
    );
    assert!(
        ConnackParams {
            maximum_qos: Some(QoS::AtMostOnce),
            ..base()
        }
        .has_v5_only_fields()
    );
    assert!(
        ConnackParams {
            retain_available: Some(false),
            ..base()
        }
        .has_v5_only_fields()
    );
    assert!(
        ConnackParams {
            wildcard_subscription_available: Some(false),
            ..base()
        }
        .has_v5_only_fields()
    );
    assert!(
        ConnackParams {
            subscription_identifiers_available: Some(false),
            ..base()
        }
        .has_v5_only_fields()
    );
    assert!(
        ConnackParams {
            shared_subscription_available: Some(false),
            ..base()
        }
        .has_v5_only_fields()
    );
    assert!(
        ConnackParams {
            assigned_client_identifier: Some("id".into()),
            ..base()
        }
        .has_v5_only_fields()
    );
    assert!(
        ConnackParams {
            authentication_method: Some("METHOD".into()),
            ..base()
        }
        .has_v5_only_fields()
    );
}

#[test]
fn handle_puback_releases_packet_id_and_restores_send_quota() {
    let mut session =
        Session::new_v5("client-1".into(), true).expect("セッションの作成に成功すること");
    session
        .flow_control_mut()
        .set_receive_maximum(2)
        .expect("Receive Maximum を設定できること");

    let id = session
        .packet_id_manager_mut()
        .allocate()
        .expect("パケット識別子を割り当てられること");
    session
        .flow_control_mut()
        .publish_sent()
        .expect("送信枠を消費できること");
    session.qos_flow_mut().publish_sent_qos1(id);

    let action = session.handle_puback(id);

    assert_eq!(action, Ok(Some(Action::Complete { packet_id: id })));
    assert!(!session.qos_flow().is_active(id));
    assert_eq!(session.flow_control().outstanding_count(), 0);
    assert_eq!(session.packet_id_manager().in_use_count(), 0);
}

#[test]
fn handle_pubrec_returns_send_pubrel() {
    let mut session =
        Session::new_v5("client-1".into(), true).expect("セッションの作成に成功すること");

    let id = session
        .packet_id_manager_mut()
        .allocate()
        .expect("パケット識別子を割り当てられること");
    session.qos_flow_mut().publish_sent_qos2(id);

    let action = session.handle_pubrec(id, 0x00);

    assert_eq!(action, Ok(Some(Action::SendPubrel { packet_id: id })));
    assert!(session.qos_flow().is_active(id));
}

#[test]
fn handle_pubrec_aborted_releases_resources() {
    let mut session =
        Session::new_v5("client-1".into(), true).expect("セッションの作成に成功すること");
    session
        .flow_control_mut()
        .set_receive_maximum(2)
        .expect("Receive Maximum を設定できること");

    let id = session
        .packet_id_manager_mut()
        .allocate()
        .expect("パケット識別子を割り当てられること");
    session
        .flow_control_mut()
        .publish_sent()
        .expect("送信枠を消費できること");
    session.qos_flow_mut().publish_sent_qos2(id);

    let action = session.handle_pubrec(id, 0x87);

    assert_eq!(action, Ok(Some(Action::Aborted { packet_id: id })));
    assert!(!session.qos_flow().is_active(id));
    assert_eq!(session.flow_control().outstanding_count(), 0);
    assert_eq!(session.packet_id_manager().in_use_count(), 0);
}

#[test]
fn handle_pubcomp_releases_resources() {
    let mut session =
        Session::new_v5("client-1".into(), true).expect("セッションの作成に成功すること");
    session
        .flow_control_mut()
        .set_receive_maximum(2)
        .expect("Receive Maximum を設定できること");

    let id = session
        .packet_id_manager_mut()
        .allocate()
        .expect("パケット識別子を割り当てられること");
    session
        .flow_control_mut()
        .publish_sent()
        .expect("送信枠を消費できること");
    session.qos_flow_mut().publish_sent_qos2(id);
    let _ = session.handle_pubrec(id, 0x00);

    let action = session.handle_pubcomp(id);

    assert_eq!(action, Ok(Some(Action::Complete { packet_id: id })));
    assert!(!session.qos_flow().is_active(id));
    assert_eq!(session.flow_control().outstanding_count(), 0);
    assert_eq!(session.packet_id_manager().in_use_count(), 0);
}

#[test]
fn abort_publish_without_outgoing_flow_keeps_other_quota() {
    let mut s = Session::new_v5("client-1".into(), true).unwrap();
    let id = s.allocate_packet_id().unwrap();
    s.publish_sent(QoS::AtLeastOnce, id).unwrap();
    assert_eq!(s.flow_control().outstanding_count(), 1);
    s.qos_flow_mut().publish_received_qos2(77);
    s.abort_publish(77);
    assert_eq!(s.flow_control().outstanding_count(), 1);
    assert!(!s.qos_flow().is_active(77));
    s.abort_publish(id);
    assert_eq!(s.flow_control().outstanding_count(), 0);
    s.abort_publish(id);
    assert_eq!(s.flow_control().outstanding_count(), 0);
}

#[test]
fn allocate_packet_id_reuses_smallest_released() {
    let mut s = Session::new_v5("client-1".into(), true).unwrap();
    let a = s.allocate_packet_id().unwrap();
    let b = s.allocate_packet_id().unwrap();
    let c = s.allocate_packet_id().unwrap();
    assert_eq!((a, b, c), (1, 2, 3));
    s.release_packet_id(c);
    s.release_packet_id(b);
    assert_eq!(s.allocate_packet_id(), Some(2));
    assert_eq!(s.allocate_packet_id(), Some(3));
    assert_eq!(s.allocate_packet_id(), Some(4));
}

#[test]
fn active_subscriptions_come_in_string_order() {
    let mut m = SubscriptionManager::new();
    let filters = ["zeta", "a/b", "B", "\u{e9}t\u{e9}", "a", "a/b/c"];
    let entries: Vec<SubscriptionEntry> =
        filters.iter().map(|f| SubscriptionEntry::new(f, QoS::AtLeastOnce)).collect();
    m.subscribe_sent(1, entries);
    m.suback_received(1, &[1, 1, 1, 1, 1, 1]);
    let got: Vec<String> = m.active_subscriptions().iter().map(|e| e.topic_filter.clone()).collect();
    let mut expected: Vec<String> = filters.iter().map(|f| f.to_string()).collect();
    expected.sort();
    assert_eq!(got, expected);
}
