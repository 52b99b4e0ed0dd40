use shiguredo_mqtt::codec::limits::Limits;
use shiguredo_mqtt::codec::qos::QoS;
use shiguredo_mqtt::codec::MqttVersion;
use shiguredo_mqtt::decoder::{Decoder, VersionedIncomingPacket};
use shiguredo_mqtt::error::DecodeError;
use shiguredo_mqtt::v311;
use shiguredo_mqtt::v5;
use shiguredo_mqtt::v5::packet::codec::Packet;
use shiguredo_mqtt::v5::pingresp::PingResp;
use shiguredo_mqtt::v5::property::Properties;
use shiguredo_mqtt::v5::publish::Publish;
use shiguredo_mqtt::v5::suback::{SubAck, SubAckReasonCode};

fn publish_bytes() -> (Publish, Vec<u8>) {
    let p = Publish {
        dup: false,
        qos: QoS::AtLeastOnce,
        retain: false,
        topic: "a/b".to_string(),
        packet_id: Some(3),
        properties: Properties::new(),
        payload: b"payload".to_vec(),
    };
    let mut buf = vec![0u8; 64];
    let n = p.encode(&mut buf).expect("encodes");
    buf.truncate(n);
    (p, buf)
}

#[test]
fn fragmented_packet_comes_out_once_complete() {
    let (p, bytes) = publish_bytes();
    let mut decoder = Decoder::new(MqttVersion::V5);
    for (i, byte) in bytes.iter().enumerate() {
        decoder.feed(&[*byte]).expect("feeds");
        let r = decoder.decode().expect("decodes");
        if i + 1 < bytes.len() {
            assert_eq!(r, None);
        } else {
            assert_eq!(
                r,
                Some(VersionedIncomingPacket::V5(v5::IncomingPacket::Publish(p.clone())))
            );
        }
    }
    assert_eq!(decoder.decode(), Ok(None));
}

#[test]
fn consecutive_packets_come_out_in_order() {
    let (p, mut bytes) = publish_bytes();
    bytes.extend_from_slice(&[0xD0, 0x00]);
    let mut decoder = Decoder::new(MqttVersion::V5);
    decoder.feed(&bytes).expect("feeds");
    assert_eq!(
        decoder.decode(),
        Ok(Some(VersionedIncomingPacket::V5(v5::IncomingPacket::Publish(p))))
    );
    assert_eq!(
        decoder.decode(),
        Ok(Some(VersionedIncomingPacket::V5(v5::IncomingPacket::PingResp(PingResp))))
    );
    assert_eq!(decoder.decode(), Ok(None));
}

#[test]
fn client_to_server_packet_is_unexpected() {
    let mut decoder = Decoder::new(MqttVersion::V5);
    decoder.feed(&[0x82, 0x02, 0x00, 0x01]).expect("feeds");
    assert_eq!(
        decoder.decode(),
        Err(DecodeError::UnexpectedPacket { packet_type: 0x80 })
    );
}

#[test]
fn v311_decoder_reads_connack() {
    let mut decoder = Decoder::new(MqttVersion::V311);
    decoder.feed(&[0x20, 0x02, 0x00, 0x00]).expect("feeds");
    assert_eq!(
        decoder.decode(),
        Ok(Some(VersionedIncomingPacket::V311(v311::packet::IncomingPacket::ConnAck(
            v311::connack::ConnAck {
                session_present: false,
                return_code: v311::connack::ConnectReturnCode::Accepted,
            }
        ))))
    );
}

#[test]
fn packet_above_limit_is_refused_and_decoder_resets() {
    let mut decoder = Decoder::new(MqttVersion::V5).with_limits(Limits::new().with_max_packet_size(8));
    decoder.feed(&[0x30, 0x0A]).expect("feeds");
    assert_eq!(
        decoder.decode(),
        Err(DecodeError::PacketTooLarge { size: 12, limit: 8 })
    );
    decoder.feed(&[0xD0, 0x00]).expect("feeds");
    assert_eq!(
        decoder.decode(),
        Ok(Some(VersionedIncomingPacket::V5(v5::IncomingPacket::PingResp(PingResp))))
    );
}

#[test]
fn feeding_beyond_limit_is_refused() {
    let mut decoder = Decoder::new(MqttVersion::V5).with_limits(Limits::new().with_max_packet_size(4));
    assert_eq!(
        decoder.feed(&[0u8; 10]),
        Err(DecodeError::PacketTooLarge { size: 10, limit: 9 })
    );
    assert_eq!(decoder.decode(), Ok(None));
}

#[test]
fn malformed_remaining_length_is_reported() {
    let mut decoder = Decoder::new(MqttVersion::V5);
    decoder.feed(&[0x30, 0xFF, 0xFF, 0xFF, 0xFF]).expect("feeds");
    assert_eq!(decoder.decode(), Err(DecodeError::MalformedPacket));
}

#[test]
fn truncated_packet_is_malformed_once_its_length_arrived() {
    let mut decoder = Decoder::new(MqttVersion::V5);
    decoder.feed(&[0xD0, 0x01, 0x00]).expect("feeds");
    assert_eq!(decoder.decode(), Err(DecodeError::MalformedPacket));
}

#[test]
fn encoded_packets_come_back_from_the_decoder() {
    let suback = SubAck {
        packet_id: 42,
        reason_codes: vec![SubAckReasonCode::GrantedQoS2],
        properties: Properties::new(),
    };
    let bytes = Packet::SubAck(suback.clone()).encode_to_vec().expect("encodes");
    assert_eq!(Packet::decode(&bytes), Ok((Packet::SubAck(suback.clone()), bytes.len())));
    let mut decoder = Decoder::new(MqttVersion::V5);
    decoder.feed(&bytes[..3]).expect("feeds");
    assert_eq!(decoder.decode(), Ok(None));
    decoder.feed(&bytes[3..]).expect("feeds");
    assert_eq!(
        decoder.decode(),
        Ok(Some(VersionedIncomingPacket::V5(v5::IncomingPacket::SubAck(suback))))
    );
}

#[test]
fn v311_fragmented_stream_comes_out_in_order() {
    let bytes: Vec<u8> = vec![0x20, 0x02, 0x01, 0x00, 0x70, 0x02, 0x00, 0x09, 0x90, 0x03, 0x00, 0x05, 0x01];
    let expected = vec![
        VersionedIncomingPacket::V311(v311::packet::IncomingPacket::ConnAck(v311::connack::ConnAck {
            session_present: true,
            return_code: v311::connack::ConnectReturnCode::Accepted,
        })),
        VersionedIncomingPacket::V311(v311::packet::IncomingPacket::PubComp(v311::pubcomp::PubComp {
            packet_id: 9,
        })),
        VersionedIncomingPacket::V311(v311::packet::IncomingPacket::SubAck(v311::suback::SubAck {
            packet_id: 5,
            return_codes: vec![v311::suback::SubscribeReturnCode::SuccessQoS1],
        })),
    ];
    for split in 0..=bytes.len() {
        for split2 in split..=bytes.len() {
            let mut decoder = Decoder::new(MqttVersion::V311);
            let mut got = Vec::new();
            for chunk in [&bytes[..split], &bytes[split..split2], &bytes[split2..]] {
                decoder.feed(chunk).expect("feeds");
                while let Some(p) = decoder.decode().expect("decodes") {
                    got.push(p);
                }
            }
            assert_eq!(got, expected);
        }
    }
}
