use shiguredo_mqtt::codec::qos::QoS;
use shiguredo_mqtt::error::{DecodeError, EncodeError, EncodeInvalidField};
use shiguredo_mqtt::v311;
use shiguredo_mqtt::v5::auth::{Auth, AuthReasonCode};
use shiguredo_mqtt::v5::connack::{ConnAck, ConnectReasonCode};
use shiguredo_mqtt::v5::disconnect::{Disconnect, DisconnectReasonCode};
use shiguredo_mqtt::v5::pingresp::PingResp;
use shiguredo_mqtt::v5::property::{Properties, Property};
use shiguredo_mqtt::v5::publish::Publish;
use shiguredo_mqtt::v5::pubrec::{PubRec, PubRecReasonCode};
use shiguredo_mqtt::v5::pubrel::{PubRel, PubRelReasonCode};
use shiguredo_mqtt::v5::suback::{SubAck, SubAckReasonCode};
use shiguredo_mqtt::v5::subscribe::{RetainHandling, Subscribe, Subscription};
use shiguredo_mqtt::v5::unsubscribe::Unsubscribe;

fn encoded<F: Fn(&mut [u8]) -> Result<usize, EncodeError>>(f: F) -> Vec<u8> {
    let mut buf = vec![0u8; 64];
    let n = f(&mut buf).expect("encodes");
    buf.truncate(n);
    buf
}

#[test]
fn pubrec_roundtrip_exact_bytes() {
    let p = PubRec {
        packet_id: 10,
        reason_code: PubRecReasonCode::Success,
        properties: Properties::new(),
    };
    let bytes = encoded(|b| p.encode(b));
    assert_eq!(bytes, vec![0x50, 0x04, 0x00, 0x0A, 0x00, 0x00]);
    let mut with_tail = bytes.clone();
    with_tail.extend_from_slice(&[0xAA, 0xBB]);
    assert_eq!(PubRec::decode(&with_tail), Ok((p, 6)));
}

#[test]
fn pubrel_roundtrip_with_reason_string() {
    let mut props = Properties::new();
    props.push(Property::ReasonString("x".to_string()));
    let p = PubRel {
        packet_id: 0x1234,
        reason_code: PubRelReasonCode::PacketIdentifierNotFound,
        properties: props,
    };
    let bytes = encoded(|b| p.encode(b));
    assert_eq!(
        bytes,
        vec![0x62, 0x08, 0x12, 0x34, 0x92, 0x04, 0x1F, 0x00, 0x01, b'x']
    );
    assert_eq!(PubRel::decode(&bytes), Ok((p, 10)));
}

#[test]
fn pubrec_zero_packet_id_is_refused() {
    let p = PubRec {
        packet_id: 0,
        reason_code: PubRecReasonCode::Success,
        properties: Properties::new(),
    };
    let mut buf = [0u8; 16];
    assert_eq!(
        p.encode(&mut buf),
        Err(EncodeError::InvalidField { reason: EncodeInvalidField::ZeroPacketId })
    );
    assert_eq!(buf, [0u8; 16]);
}

#[test]
fn pubrec_buffer_too_small() {
    let p = PubRec {
        packet_id: 1,
        reason_code: PubRecReasonCode::Success,
        properties: Properties::new(),
    };
    let mut buf = [0u8; 5];
    assert_eq!(p.encode(&mut buf), Err(EncodeError::BufferTooSmall));
}

#[test]
fn disconnect_roundtrip_exact_bytes() {
    let mut props = Properties::new();
    props.push(Property::ReasonString("bye".to_string()));
    let p = Disconnect {
        reason_code: DisconnectReasonCode::NormalDisconnection,
        properties: props,
    };
    let bytes = encoded(|b| p.encode(b));
    assert_eq!(
        bytes,
        vec![0xE0, 0x08, 0x00, 0x06, 0x1F, 0x00, 0x03, b'b', b'y', b'e']
    );
    assert_eq!(Disconnect::decode(&bytes), Ok((p, 10)));
}

#[test]
fn auth_roundtrip_exact_bytes() {
    let mut props = Properties::new();
    props.push(Property::AuthenticationMethod("m".to_string()));
    let p = Auth {
        reason_code: AuthReasonCode::ContinueAuthentication,
        properties: props,
    };
    let bytes = encoded(|b| p.encode(b));
    assert_eq!(bytes, vec![0xF0, 0x06, 0x18, 0x04, 0x15, 0x00, 0x01, b'm']);
    assert_eq!(Auth::decode(&bytes), Ok((p, 8)));
}

#[test]
fn pingresp_roundtrip() {
    let bytes = encoded(|b| PingResp.encode(b));
    assert_eq!(bytes, vec![0xD0, 0x00]);
    assert_eq!(PingResp::decode(&[0xD0, 0x00, 0x30]), Ok((PingResp, 2)));
    assert_eq!(PingResp::decode(&[0xD1, 0x00]), Err(DecodeError::InvalidPacketFlags));
    assert_eq!(PingResp::decode(&[0xD0, 0x01, 0x00]), Err(DecodeError::MalformedPacket));
}

#[test]
fn connack_v5_roundtrip_exact_bytes() {
    let mut props = Properties::new();
    props.push(Property::ReceiveMaximum(10));
    let p = ConnAck {
        session_present: false,
        reason_code: ConnectReasonCode::Success,
        properties: props,
    };
    let bytes = encoded(|b| p.encode(b));
    assert_eq!(bytes, vec![0x20, 0x06, 0x00, 0x00, 0x03, 0x21, 0x00, 0x0A]);
    assert_eq!(ConnAck::decode(&bytes), Ok((p, 8)));
}

#[test]
fn connack_v5_session_present_with_failure_is_refused() {
    let p = ConnAck {
        session_present: true,
        reason_code: ConnectReasonCode::UnspecifiedError,
        properties: Properties::new(),
    };
    let mut buf = [0u8; 16];
    assert_eq!(
        p.encode(&mut buf),
        Err(EncodeError::InvalidField {
            reason: EncodeInvalidField::SessionPresentWithNonSuccess
        })
    );
}

#[test]
fn suback_v5_roundtrip_exact_bytes() {
    let p = SubAck {
        packet_id: 1,
        reason_codes: vec![SubAckReasonCode::GrantedQoS1, SubAckReasonCode::GrantedQoS0],
        properties: Properties::new(),
    };
    let bytes = encoded(|b| p.encode(b));
    assert_eq!(bytes, vec![0x90, 0x05, 0x00, 0x01, 0x00, 0x01, 0x00]);
    assert_eq!(SubAck::decode(&bytes), Ok((p, 7)));
}

#[test]
fn subscribe_v5_roundtrip_exact_bytes() {
    let p = Subscribe {
        packet_id: 3,
        subscriptions: vec![Subscription {
            topic_filter: "a/#".to_string(),
            qos: QoS::AtLeastOnce,
            no_local: true,
            retain_as_published: false,
            retain_handling: RetainHandling::DoNotSendRetained,
        }],
        properties: Properties::new(),
    };
    let bytes = encoded(|b| p.encode(b));
    assert_eq!(
        bytes,
        vec![0x82, 0x09, 0x00, 0x03, 0x00, 0x00, 0x03, b'a', b'/', b'#', 0x25]
    );
    assert_eq!(Subscribe::decode(&bytes), Ok((p, 11)));
}

#[test]
fn subscribe_v5_shared_no_local_is_refused() {
    let p = Subscribe {
        packet_id: 3,
        subscriptions: vec![Subscription {
            topic_filter: "$share/g/a".to_string(),
            qos: QoS::AtMostOnce,
            no_local: true,
            retain_as_published: false,
            retain_handling: RetainHandling::SendRetained,
        }],
        properties: Properties::new(),
    };
    let mut buf = [0u8; 64];
    assert_eq!(
        p.encode(&mut buf),
        Err(EncodeError::InvalidField {
            reason: EncodeInvalidField::SharedSubscriptionNoLocal
        })
    );
}

#[test]
fn unsubscribe_v5_roundtrip_exact_bytes() {
    let p = Unsubscribe {
        packet_id: 4,
        topic_filters: vec!["x".to_string()],
        properties: Properties::new(),
    };
    let bytes = encoded(|b| p.encode(b));
    assert_eq!(bytes, vec![0xA2, 0x06, 0x00, 0x04, 0x00, 0x00, 0x01, b'x']);
    assert_eq!(Unsubscribe::decode(&bytes), Ok((p, 8)));
}

#[test]
fn publish_v5_roundtrip_exact_bytes() {
    let p = Publish {
        dup: false,
        qos: QoS::AtMostOnce,
        retain: false,
        topic: "t".to_string(),
        packet_id: None,
        properties: Properties::new(),
        payload: vec![1, 2, 3],
    };
    let bytes = encoded(|b| p.encode(b));
    assert_eq!(bytes, vec![0x30, 0x07, 0x00, 0x01, b't', 0x00, 1, 2, 3]);
    let mut with_tail = bytes.clone();
    with_tail.push(0xE0);
    assert_eq!(Publish::decode(&with_tail), Ok((p, 9)));
}

#[test]
fn publish_v5_qos2_dup_retain_roundtrip() {
    let mut props = Properties::new();
    props.push(Property::MessageExpiryInterval(60));
    let p = Publish {
        dup: true,
        qos: QoS::ExactlyOnce,
        retain: true,
        topic: "a/b".to_string(),
        packet_id: Some(7),
        properties: props,
        payload: b"hello".to_vec(),
    };
    let bytes = encoded(|b| p.encode(b));
    assert_eq!(bytes[0], 0x3D);
    assert_eq!(Publish::decode(&bytes), Ok((p, bytes.len())));
}

#[test]
fn publish_v5_invalid_utf8_payload_is_refused() {
    let mut props = Properties::new();
    props.push(Property::PayloadFormatIndicator(1));
    let p = Publish {
        dup: false,
        qos: QoS::AtMostOnce,
        retain: false,
        topic: "t".to_string(),
        packet_id: None,
        properties: props,
        payload: vec![0xC3, 0x28],
    };
    let mut buf = [0u8; 64];
    assert_eq!(
        p.encode(&mut buf),
        Err(EncodeError::InvalidField { reason: EncodeInvalidField::InvalidPayloadUtf8 })
    );
}

#[test]
fn publish_v5_qos0_with_packet_id_is_refused() {
    let p = Publish {
        dup: false,
        qos: QoS::AtMostOnce,
        retain: false,
        topic: "t".to_string(),
        packet_id: Some(1),
        properties: Properties::new(),
        payload: vec![],
    };
    let mut buf = [0u8; 64];
    assert_eq!(
        p.encode(&mut buf),
        Err(EncodeError::InvalidField { reason: EncodeInvalidField::UnexpectedPacketId })
    );
}

#[test]
fn publish_v5_decode_qos3_is_invalid_flags() {
    assert_eq!(
        Publish::decode(&[0x36, 0x03, 0x00, 0x01, b't']),
        Err(DecodeError::InvalidPacketFlags)
    );
}

#[test]
fn v311_publish_roundtrip_exact_bytes() {
    let p = v311::publish::Publish {
        dup: false,
        qos: QoS::AtLeastOnce,
        retain: true,
        topic: "a/b".to_string(),
        packet_id: Some(5),
        payload: b"hi".to_vec(),
    };
    let bytes = encoded(|b| p.encode(b));
    assert_eq!(
        bytes,
        vec![0x33, 0x09, 0x00, 0x03, b'a', b'/', b'b', 0x00, 0x05, b'h', b'i']
    );
    assert_eq!(v311::publish::Publish::decode(&bytes), Ok((p, 11)));
}

#[test]
fn v311_publish_wildcard_topic_is_refused() {
    let p = v311::publish::Publish {
        dup: false,
        qos: QoS::AtMostOnce,
        retain: false,
        topic: "a/+".to_string(),
        packet_id: None,
        payload: vec![],
    };
    let mut buf = [0u8; 64];
    assert_eq!(
        p.encode(&mut buf),
        Err(EncodeError::InvalidField { reason: EncodeInvalidField::WildcardInTopicName })
    );
}

#[test]
fn v311_pubcomp_roundtrip() {
    let p = v311::pubcomp::PubComp { packet_id: 7 };
    let bytes = encoded(|b| p.encode(b));
    assert_eq!(bytes, vec![0x70, 0x02, 0x00, 0x07]);
    assert_eq!(v311::pubcomp::PubComp::decode(&bytes), Ok((p, 4)));
    assert_eq!(
        v311::pubcomp::PubComp::decode(&[0x70, 0x02, 0x00, 0x00]),
        Err(DecodeError::MalformedPacket)
    );
}

#[test]
fn v311_connack_roundtrip() {
    let p = v311::connack::ConnAck {
        session_present: true,
        return_code: v311::connack::ConnectReturnCode::Accepted,
    };
    let bytes = encoded(|b| p.encode(b));
    assert_eq!(bytes, vec![0x20, 0x02, 0x01, 0x00]);
    assert_eq!(v311::connack::ConnAck::decode(&bytes), Ok((p, 4)));
}

#[test]
fn v311_disconnect_roundtrip() {
    let bytes = encoded(|b| v311::disconnect::Disconnect.encode(b));
    assert_eq!(bytes, vec![0xE0, 0x00]);
    assert_eq!(
        v311::disconnect::Disconnect::decode(&bytes),
        Ok((v311::disconnect::Disconnect, 2))
    );
}

#[test]
fn v311_suback_roundtrip() {
    let p = v311::suback::SubAck {
        packet_id: 2,
        return_codes: vec![
            v311::suback::SubscribeReturnCode::SuccessQoS2,
            v311::suback::SubscribeReturnCode::Failure,
        ],
    };
    let bytes = encoded(|b| p.encode(b));
    assert_eq!(bytes, vec![0x90, 0x04, 0x00, 0x02, 0x02, 0x80]);
    assert_eq!(v311::suback::SubAck::decode(&bytes), Ok((p, 6)));
}

#[test]
fn v311_subscribe_roundtrip() {
    let p = v311::subscribe::Subscribe {
        packet_id: 9,
        topic_filters: vec![v311::subscribe::Subscription {
            topic_filter: "s/+".to_string(),
            qos: QoS::ExactlyOnce,
        }],
    };
    let bytes = encoded(|b| p.encode(b));
    assert_eq!(
        bytes,
        vec![0x82, 0x08, 0x00, 0x09, 0x00, 0x03, b's', b'/', b'+', 0x02]
    );
    assert_eq!(v311::subscribe::Subscribe::decode(&bytes), Ok((p, 10)));
}

#[test]
fn connect_v5_roundtrip_exact_bytes() {
    let p = shiguredo_mqtt::v5::connect::Connect {
        client_id: "c".to_string(),
        clean_start: true,
        keep_alive: 60,
        properties: Properties::new(),
        will: None,
        username: None,
        password: None,
    };
    let bytes = encoded(|b| p.encode(b));
    assert_eq!(
        bytes,
        vec![
            0x10, 0x0E, 0x00, 0x04, b'M', b'Q', b'T', b'T', 0x05, 0x02, 0x00, 0x3C, 0x00, 0x00,
            0x01, b'c'
        ]
    );
    assert_eq!(shiguredo_mqtt::v5::connect::Connect::decode(&bytes), Ok((p, 16)));
}

#[test]
fn connect_v311_roundtrip_with_will_and_credentials() {
    let p = v311::connect::Connect {
        client_id: "c".to_string(),
        clean_session: true,
        keep_alive: 60,
        will: Some(v311::connect::Will {
            topic: "w".to_string(),
            payload: vec![1],
            qos: QoS::AtLeastOnce,
            retain: true,
        }),
        username: Some("u".to_string()),
        password: Some(vec![2]),
    };
    let bytes = encoded(|b| p.encode(b));
    assert_eq!(
        bytes,
        vec![
            0x10, 0x19, 0x00, 0x04, b'M', b'Q', b'T', b'T', 0x04, 0xEE, 0x00, 0x3C, 0x00, 0x01,
            b'c', 0x00, 0x01, b'w', 0x00, 0x01, 1, 0x00, 0x01, b'u', 0x00, 0x01, 2
        ]
    );
    assert_eq!(v311::connect::Connect::decode(&bytes), Ok((p, 27)));
}

#[test]
fn connect_v311_password_without_username_is_refused() {
    let p = v311::connect::Connect {
        client_id: "c".to_string(),
        clean_session: true,
        keep_alive: 0,
        will: None,
        username: None,
        password: Some(vec![1]),
    };
    let mut buf = [0u8; 64];
    assert_eq!(
        p.encode(&mut buf),
        Err(EncodeError::InvalidField { reason: EncodeInvalidField::PasswordWithoutUsername })
    );
}
