use shiguredo_mqtt::codec::binary_data::BinaryData;
use shiguredo_mqtt::codec::qos::QoS;
use shiguredo_mqtt::codec::utf8_string::Utf8String;
use shiguredo_mqtt::codec::variable_byte_integer::VariableByteInteger;
use shiguredo_mqtt::error::{DecodeError, EncodeError, EncodeInvalidField};
use shiguredo_mqtt::state::packet_id::PacketIdManager;
use shiguredo_mqtt::state::qos_flow::{Action, FlowError, QosFlowManager};
use shiguredo_mqtt::state::session::{ServerCapabilityError, Session};
use shiguredo_mqtt::state::subscribe::SubscriptionEntry;
use shiguredo_mqtt::state::topic_alias::TopicAliasManager;
use shiguredo_mqtt::v5::property::{Properties, Property};

fn vbi_bytes(v: u32) -> Vec<u8> {
    let mut buf = [0u8; 4];
    let n = VariableByteInteger(v).encode(&mut buf).expect("encodes");
    buf[..n].to_vec()
}

#[test]
fn vbi_exact_encodings() {
    assert_eq!(vbi_bytes(0), vec![0x00]);
    assert_eq!(vbi_bytes(127), vec![0x7F]);
    assert_eq!(vbi_bytes(128), vec![0x80, 0x01]);
    assert_eq!(vbi_bytes(16_383), vec![0xFF, 0x7F]);
    assert_eq!(vbi_bytes(16_384), vec![0x80, 0x80, 0x01]);
    assert_eq!(vbi_bytes(268_435_455), vec![0xFF, 0xFF, 0xFF, 0x7F]);
}

#[test]
fn vbi_roundtrip_with_trailing_bytes() {
    for v in [0u32, 1, 127, 128, 300, 16_383, 16_384, 2_097_151, 2_097_152, 268_435_455] {
        let mut bytes = vbi_bytes(v);
        let n = bytes.len();
        bytes.push(0xAB);
        assert_eq!(VariableByteInteger::decode(&bytes), Ok((VariableByteInteger(v), n)));
    }
}

#[test]
fn vbi_errors() {
    let mut buf = [0u8; 4];
    assert_eq!(
        VariableByteInteger(268_435_456).encode(&mut buf),
        Err(EncodeError::PacketTooLarge { size: 268_435_456, limit: 268_435_455 })
    );
    let mut small = [0u8; 1];
    assert_eq!(VariableByteInteger(128).encode(&mut small), Err(EncodeError::BufferTooSmall));
    assert_eq!(VariableByteInteger::decode(&[0x80]), Err(DecodeError::InsufficientData));
    assert_eq!(VariableByteInteger::decode(&[0x80, 0x00]), Err(DecodeError::MalformedPacket));
    assert_eq!(
        VariableByteInteger::decode(&[0xFF, 0xFF, 0xFF, 0xFF]),
        Err(DecodeError::MalformedPacket)
    );
}

#[test]
fn utf8_string_roundtrip_and_errors() {
    let mut buf = [0u8; 8];
    let n = Utf8String("ab".to_string()).encode(&mut buf).expect("encodes");
    assert_eq!(&buf[..n], &[0x00, 0x02, b'a', b'b']);
    assert_eq!(Utf8String::decode(&buf[..n]), Ok((Utf8String("ab".to_string()), 4)));
    assert_eq!(Utf8String::decode(&[0x00, 0x02, 0xC3, 0x28]), Err(DecodeError::InvalidUtf8));
    assert_eq!(Utf8String::decode(&[0x00, 0x01, 0x00]), Err(DecodeError::MalformedPacket));
    assert_eq!(Utf8String::decode(&[0x00, 0x03, b'a']), Err(DecodeError::InsufficientData));
    assert_eq!(
        Utf8String("a\0".to_string()).encode(&mut buf),
        Err(EncodeError::InvalidField { reason: EncodeInvalidField::NullInUtf8String })
    );
}

#[test]
fn binary_data_roundtrip() {
    let mut buf = [0u8; 8];
    let n = BinaryData(vec![1, 2, 3]).encode(&mut buf).expect("encodes");
    assert_eq!(&buf[..n], &[0x00, 0x03, 1, 2, 3]);
    assert_eq!(BinaryData::decode(&buf[..n]), Ok((BinaryData(vec![1, 2, 3]), 5)));
}

#[test]
fn property_roundtrip_exact_bytes() {
    let cases: Vec<(Property, Vec<u8>)> = vec![
        (Property::MessageExpiryInterval(0x0102_0304), vec![0x02, 1, 2, 3, 4]),
        (Property::SubscriptionIdentifier(VariableByteInteger(268_435_455)), vec![0x0B, 0xFF, 0xFF, 0xFF, 0x7F]),
        (
            Property::UserProperty("k".to_string(), "v".to_string()),
            vec![0x26, 0x00, 0x01, b'k', 0x00, 0x01, b'v'],
        ),
        (Property::CorrelationData(vec![9]), vec![0x09, 0x00, 0x01, 9]),
        (Property::ReceiveMaximum(10), vec![0x21, 0x00, 0x0A]),
        (Property::PayloadFormatIndicator(1), vec![0x01, 0x01]),
    ];
    for (p, expected) in cases {
        let mut buf = [0u8; 16];
        let n = p.encode(&mut buf).expect("encodes");
        assert_eq!(buf[..n].to_vec(), expected);
        assert_eq!(Property::decode(&buf[..n]), Ok((p, n)));
    }
}

#[test]
fn property_unknown_identifier_is_malformed() {
    assert_eq!(Property::decode(&[0x05, 0x00]), Err(DecodeError::MalformedPacket));
}

#[test]
fn properties_roundtrip_and_duplicates() {
    let mut props = Properties::new();
    props.push(Property::ContentType("c".to_string()));
    props.push(Property::UserProperty("a".to_string(), "b".to_string()));
    props.push(Property::UserProperty("a".to_string(), "b".to_string()));
    let mut buf = [0u8; 32];
    let n = props.encode(&mut buf).expect("encodes");
    assert_eq!(n, 1 + 4 + 7 + 7);
    assert_eq!(Properties::decode(&buf[..n]), Ok((props, n)));

    let twice = [0x04, 0x01, 0x00, 0x01, 0x01];
    assert_eq!(Properties::decode(&twice), Err(DecodeError::MalformedPacket));
    let sub_ids = [0x04, 0x0B, 0x01, 0x0B, 0x02];
    assert_eq!(Properties::decode(&sub_ids), Err(DecodeError::MalformedPacket));
    let mut expected = Properties::new();
    expected.push(Property::SubscriptionIdentifier(VariableByteInteger(1)));
    expected.push(Property::SubscriptionIdentifier(VariableByteInteger(2)));
    assert_eq!(Properties::decode_for_publish(&sub_ids), Ok((expected, 5)));
}

#[test]
fn properties_length_past_the_end_is_malformed() {
    assert_eq!(Properties::decode(&[0x03, 0x01, 0x00]), Err(DecodeError::MalformedPacket));
}

#[test]
fn released_id_is_handed_out_again() {
    let mut m = PacketIdManager::new();
    assert_eq!(m.allocate(), Some(1));
    assert_eq!(m.allocate(), Some(2));
    assert_eq!(m.allocate(), Some(3));
    m.release(2);
    assert_eq!(m.in_use_count(), 2);
    assert_eq!(m.allocate(), Some(2));
    m.release(3);
    m.release(1);
    assert_eq!(m.allocate(), Some(1));
    assert_eq!(m.allocate(), Some(3));
    assert_eq!(m.allocate(), Some(4));
}

#[test]
fn abort_publish_gives_back_quota_and_identifier() {
    let mut s = Session::new_v5("c".to_string(), true).expect("session");
    let id = s.allocate_packet_id().expect("id");
    s.publish_sent(QoS::ExactlyOnce, id).expect("recorded");
    assert_eq!(s.flow_control().outstanding_count(), 1);
    assert!(s.qos_flow().is_active(id));
    s.abort_publish(id);
    assert_eq!(s.flow_control().outstanding_count(), 0);
    assert!(!s.qos_flow().is_active(id));
    assert_eq!(s.packet_id_manager().in_use_count(), 0);
    assert_eq!(s.allocate_packet_id(), Some(id));
}

#[test]
fn abort_subscribe_releases_identifier() {
    let mut s = Session::new_v5("c".to_string(), true).expect("session");
    let id = s.allocate_packet_id().expect("id");
    s.subscribe_sent(id, vec![SubscriptionEntry::new("a/b", QoS::AtLeastOnce)]);
    s.abort_subscribe(id);
    assert_eq!(s.packet_id_manager().in_use_count(), 0);
    assert_eq!(s.allocate_packet_id(), Some(id));
}

#[test]
fn topic_alias_register_then_find() {
    let mut m = TopicAliasManager::new();
    assert_eq!(m.register_for_send("a"), None);
    m.set_peer_maximum(2);
    assert_eq!(m.register_for_send("a"), Some(1));
    assert_eq!(m.register_for_send("b"), Some(2));
    assert_eq!(m.register_for_send("a"), Some(1));
    assert_eq!(m.register_for_send("c"), None);
    assert_eq!(m.find_alias_for_topic("b"), Some(2));
    assert_eq!(m.find_alias_for_topic("c"), None);
}

#[test]
fn topic_alias_received_mapping_resolves() {
    let mut m = TopicAliasManager::new();
    m.set_own_maximum(3);
    assert_eq!(m.resolve_on_receive("x", 2), Some("x".to_string()));
    assert_eq!(m.resolve_on_receive("", 2), Some("x".to_string()));
    assert_eq!(m.resolve_on_receive("", 1), None);
    assert_eq!(m.resolve_on_receive("y", 4), None);
    assert_eq!(m.resolve_on_receive("z", 0), Some("z".to_string()));
}

#[test]
fn error_messages_carry_their_values() {
    assert_eq!(
        DecodeError::PacketTooLarge { size: 12, limit: 8 }.message(),
        "packet size 12 exceeds limit 8"
    );
    assert_eq!(
        DecodeError::UnexpectedPacket { packet_type: 0x80 }.message(),
        "unexpected packet type 0x80 in client-receive direction"
    );
    assert_eq!(DecodeError::MalformedPacket.message(), "malformed packet");
    assert_eq!(
        EncodeError::InvalidField { reason: EncodeInvalidField::ZeroPacketId }.message(),
        "invalid field: zero packet identifier"
    );
    assert_eq!(
        EncodeError::PacketTooLarge { size: 300, limit: 255 }.message(),
        "packet size 300 exceeds limit 255"
    );
    assert_eq!(
        ServerCapabilityError::MaximumPacketSizeExceeded { size: 10, limit: 5 }.message(),
        "outgoing packet size 10 exceeds server Maximum Packet Size 5"
    );
}

#[test]
fn error_messages_write_numbers_exactly() {
    assert_eq!(
        DecodeError::PacketTooLarge { size: 0, limit: 268435455 }.message(),
        "packet size 0 exceeds limit 268435455"
    );
    assert_eq!(
        DecodeError::UnexpectedPacket { packet_type: 0x0A }.message(),
        "unexpected packet type 0x0A in client-receive direction"
    );
    assert_eq!(
        DecodeError::UnexpectedPacket { packet_type: 0xF0 }.message(),
        "unexpected packet type 0xF0 in client-receive direction"
    );
    assert_eq!(
        ServerCapabilityError::MaximumPacketSizeExceeded { size: 4294967295, limit: 1000 }.message(),
        "outgoing packet size 4294967295 exceeds server Maximum Packet Size 1000"
    );
}

#[test]
fn qos2_handshake_completes() {
    let mut q = QosFlowManager::new();
    q.publish_sent_qos2(5);
    assert!(q.is_active(5));
    assert_eq!(q.pubrec_received(5, 0x00), Ok(Some(Action::SendPubrel { packet_id: 5 })));
    assert_eq!(q.pubrec_received(5, 0x00), Ok(Some(Action::SendPubrel { packet_id: 5 })));
    assert_eq!(q.pubcomp_received(5), Ok(Some(Action::Complete { packet_id: 5 })));
    assert!(!q.is_active(5));
    assert_eq!(q.pubcomp_received(5), Ok(None));
}

#[test]
fn qos1_handshake_completes() {
    let mut q = QosFlowManager::new();
    q.publish_sent_qos1(9);
    assert_eq!(q.pubcomp_received(9), Err(FlowError::StateMismatch));
    assert_eq!(q.puback_received(9), Ok(Some(Action::Complete { packet_id: 9 })));
    assert_eq!(q.active_flow_count(), 0);
}
