use shiguredo_mqtt::codec::qos::QoS;
use shiguredo_mqtt::codec::variable_byte_integer::VariableByteInteger;
use shiguredo_mqtt::codec::MqttVersion;
use shiguredo_mqtt::decoder::Decoder;
use shiguredo_mqtt::v311;
use shiguredo_mqtt::v5::connect::{Connect, Will};
use shiguredo_mqtt::v5::property::{Properties, Property};

#[test]
fn property_authentication_data_is_redacted() {
    let p = Property::AuthenticationData(vec![1, 2, 3]);
    assert_eq!(p.redacted_debug(), "AuthenticationData(\"<redacted>\")");
    assert!(!p.redacted_debug().contains("1, 2, 3"));
}

#[test]
fn other_properties_render_as_debug_does() {
    let cases = vec![
        Property::PayloadFormatIndicator(1),
        Property::MessageExpiryInterval(3600),
        Property::ContentType("text/\"plain\"".to_string()),
        Property::CorrelationData(vec![0, 255]),
        Property::SubscriptionIdentifier(VariableByteInteger(7)),
        Property::ServerKeepAlive(30),
        Property::UserProperty("k".to_string(), "v\n".to_string()),
        Property::CorrelationData(vec![]),
    ];
    for p in cases {
        assert_eq!(p.redacted_debug(), format!("{:?}", p));
    }
}

#[test]
fn properties_render_in_order_with_redaction() {
    let mut ps = Properties::new();
    ps.push(Property::AuthenticationMethod("SCRAM-SHA-256".to_string()));
    ps.push(Property::AuthenticationData(vec![9, 9]));
    assert_eq!(
        ps.redacted_debug(),
        "Properties([AuthenticationMethod(\"SCRAM-SHA-256\"), AuthenticationData(\"<redacted>\")])"
    );
    assert_eq!(Properties::new().redacted_debug(), "Properties([])");
}

#[test]
fn v5_connect_hides_password_and_will_payload() {
    let c = Connect {
        client_id: "client-1".to_string(),
        clean_start: true,
        keep_alive: 60,
        properties: Properties::new(),
        will: Some(Will {
            topic: "last/will".to_string(),
            payload: b"secret-will".to_vec(),
            qos: QoS::AtLeastOnce,
            retain: false,
            properties: Properties::new(),
        }),
        username: Some("user".to_string()),
        password: Some(b"hunter2".to_vec()),
    };
    let text = c.redacted_debug();
    assert_eq!(
        text,
        "Connect { client_id: \"client-1\", clean_start: true, keep_alive: 60, properties: Properties([]), \
         will: Some(Will { topic: \"last/will\", payload: \"<redacted>\", qos: AtLeastOnce, retain: false, \
         properties: Properties([]) }), username: Some(\"user\"), password: Some(\"<redacted>\") }"
    );
    assert!(!text.contains("hunter2"));
    let bare = Connect { will: None, username: None, password: None, ..c };
    assert!(bare.redacted_debug().ends_with("will: None, username: None, password: None }"));
}

#[test]
fn v311_connect_hides_password_and_will_message() {
    let c = v311::connect::Connect {
        client_id: "c".to_string(),
        clean_session: false,
        keep_alive: 0,
        will: Some(v311::connect::Will {
            topic: "t".to_string(),
            payload: vec![1],
            qos: QoS::ExactlyOnce,
            retain: true,
        }),
        username: None,
        password: Some(vec![7]),
    };
    assert_eq!(
        c.redacted_debug(),
        "Connect { client_id: \"c\", clean_session: false, keep_alive: 0, will: Some(Will { topic: \"t\", \
         payload: \"<redacted>\", qos: ExactlyOnce, retain: true }), username: None, password: Some(\"<redacted>\") }"
    );
}

#[test]
fn decoder_shows_only_buffer_length() {
    let mut d = Decoder::new(MqttVersion::V5);
    d.feed(&[0x30, 0x05, 0x00]).expect("feeds");
    assert_eq!(d.decode(), Ok(None));
    assert_eq!(
        d.redacted_debug(),
        "Decoder { version: V5, limits: Limits { max_packet_size: 268435456 }, buf: \"<3 bytes>\", \
         buf_offset: 0, phase: Payload }"
    );
}
