use shiguredo_mqtt::codec::MqttVersion;
use shiguredo_mqtt::decoder::{Decoder, VersionedIncomingPacket};
use shiguredo_mqtt::error::{DecodeError, EncodeError, EncodeInvalidField};
use shiguredo_mqtt::v5;
use shiguredo_mqtt::v5::packet::codec::Packet;
use shiguredo_mqtt::v5::pingreq::PingReq;
use shiguredo_mqtt::v5::property::{Properties, Property};
use shiguredo_mqtt::v5::puback::{PubAck, PubAckReasonCode};
use shiguredo_mqtt::v5::pubcomp::{PubComp, PubCompReasonCode};
use shiguredo_mqtt::v5::unsuback::{UnsubAck, UnsubAckReasonCode};
use shiguredo_mqtt::v5::OutgoingPacket;

fn encoded<F: Fn(&mut [u8]) -> Result<usize, EncodeError>>(f: F) -> Vec<u8> {
    let mut buf = vec![0u8; 64];
    let n = f(&mut buf).expect("encodes");
    buf.truncate(n);
    buf
}

#[test]
fn puback_roundtrip_exact_bytes() {
    let p = PubAck {
        packet_id: 10,
        reason_code: PubAckReasonCode::Success,
        properties: Properties::new(),
    };
    let bytes = encoded(|b| p.encode(b));
    assert_eq!(bytes, vec![0x40, 0x04, 0x00, 0x0A, 0x00, 0x00]);
    let mut with_tail = bytes.clone();
    with_tail.extend_from_slice(&[0xAA]);
    assert_eq!(PubAck::decode(&with_tail), Ok((p, 6)));
}

#[test]
fn puback_short_form_is_success() {
    assert_eq!(
        PubAck::decode(&[0x40, 0x02, 0x00, 0x05]),
        Ok((
            PubAck {
                packet_id: 5,
                reason_code: PubAckReasonCode::Success,
                properties: Properties::new(),
            },
            4
        ))
    );
}

#[test]
fn puback_no_matching_subscribers_is_read_but_not_written() {
    let p = PubAck {
        packet_id: 3,
        reason_code: PubAckReasonCode::NoMatchingSubscribers,
        properties: Properties::new(),
    };
    let mut buf = [0u8; 16];
    assert_eq!(
        p.encode(&mut buf),
        Err(EncodeError::InvalidField { reason: EncodeInvalidField::InvalidReasonCode })
    );
    assert_eq!(buf, [0u8; 16]);
    assert_eq!(PubAck::decode(&[0x40, 0x03, 0x00, 0x03, 0x10]), Ok((p, 5)));
}

#[test]
fn puback_unknown_reason_code_is_malformed() {
    assert_eq!(
        PubAck::decode(&[0x40, 0x03, 0x00, 0x03, 0x92]),
        Err(DecodeError::MalformedPacket)
    );
}

#[test]
fn pubcomp_roundtrip_with_reason_string() {
    let mut props = Properties::new();
    props.push(Property::ReasonString("x".to_string()));
    let p = PubComp {
        packet_id: 0x1234,
        reason_code: PubCompReasonCode::PacketIdentifierNotFound,
        properties: props,
    };
    let bytes = encoded(|b| p.encode(b));
    assert_eq!(bytes, vec![0x70, 0x08, 0x12, 0x34, 0x92, 0x04, 0x1F, 0x00, 0x01, b'x']);
    assert_eq!(PubComp::decode(&bytes), Ok((p, 10)));
}

#[test]
fn pubcomp_zero_packet_id_is_refused() {
    let p = PubComp {
        packet_id: 0,
        reason_code: PubCompReasonCode::Success,
        properties: Properties::new(),
    };
    let mut buf = [0u8; 8];
    assert_eq!(
        p.encode(&mut buf),
        Err(EncodeError::InvalidField { reason: EncodeInvalidField::ZeroPacketId })
    );
}

#[test]
fn unsuback_roundtrip_exact_bytes() {
    let p = UnsubAck {
        packet_id: 7,
        reason_codes: vec![UnsubAckReasonCode::Success, UnsubAckReasonCode::NoSubscriptionExisted],
        properties: Properties::new(),
    };
    let bytes = encoded(|b| p.encode(b));
    assert_eq!(bytes, vec![0xB0, 0x05, 0x00, 0x07, 0x00, 0x00, 0x11]);
    assert_eq!(UnsubAck::decode(&bytes), Ok((p, 7)));
}

#[test]
fn unsuback_without_reason_codes_is_refused() {
    let p = UnsubAck { packet_id: 7, reason_codes: vec![], properties: Properties::new() };
    let mut buf = [0u8; 8];
    assert_eq!(
        p.encode(&mut buf),
        Err(EncodeError::InvalidField { reason: EncodeInvalidField::EmptyReasonCodes })
    );
    assert_eq!(
        UnsubAck::decode(&[0xB0, 0x03, 0x00, 0x07, 0x00]),
        Err(DecodeError::MalformedPacket)
    );
}

#[test]
fn unsuback_unknown_reason_code_is_malformed() {
    assert_eq!(
        UnsubAck::decode(&[0xB0, 0x04, 0x00, 0x07, 0x00, 0x01]),
        Err(DecodeError::MalformedPacket)
    );
}

#[test]
fn pingreq_is_two_bytes() {
    let bytes = encoded(|b| PingReq.encode(b));
    assert_eq!(bytes, vec![0xC0, 0x00]);
    assert_eq!(PingReq::decode(&[0xC0, 0x00, 0x30]), Ok((PingReq, 2)));
    assert_eq!(PingReq::decode(&[0xC1, 0x00]), Err(DecodeError::InvalidPacketFlags));
    let mut small = [0u8; 1];
    assert_eq!(PingReq.encode(&mut small), Err(EncodeError::BufferTooSmall));
}

#[test]
fn outgoing_pingreq_and_puback_encode() {
    assert_eq!(OutgoingPacket::PingReq(PingReq).encode_to_vec(), Ok(vec![0xC0, 0x00]));
    let ack = PubAck { packet_id: 1, reason_code: PubAckReasonCode::Success, properties: Properties::new() };
    assert_eq!(
        OutgoingPacket::PubAck(ack).encode_to_vec(),
        Ok(vec![0x40, 0x04, 0x00, 0x01, 0x00, 0x00])
    );
}

#[test]
fn codec_packet_reads_every_ack_type() {
    let unsuback = UnsubAck {
        packet_id: 9,
        reason_codes: vec![UnsubAckReasonCode::NotAuthorized],
        properties: Properties::new(),
    };
    let bytes = Packet::UnsubAck(unsuback.clone()).encode_to_vec().expect("encodes");
    assert_eq!(Packet::decode(&bytes), Ok((Packet::UnsubAck(unsuback), bytes.len())));
    assert_eq!(Packet::decode(&[0xC0, 0x00]), Ok((Packet::PingReq(PingReq), 2)));
    let comp = PubComp { packet_id: 2, reason_code: PubCompReasonCode::Success, properties: Properties::new() };
    let bytes = Packet::PubComp(comp.clone()).encode_to_vec().expect("encodes");
    assert_eq!(Packet::decode(&bytes), Ok((Packet::PubComp(comp), bytes.len())));
}

#[test]
fn decoder_reads_puback_pubcomp_unsuback_from_server() {
    let mut decoder = Decoder::new(MqttVersion::V5);
    decoder
        .feed(&[0x40, 0x02, 0x00, 0x01, 0x70, 0x02, 0x00, 0x02, 0xB0, 0x04, 0x00, 0x03, 0x00, 0x00])
        .expect("feeds");
    assert_eq!(
        decoder.decode(),
        Ok(Some(VersionedIncomingPacket::V5(v5::IncomingPacket::PubAck(PubAck {
            packet_id: 1,
            reason_code: PubAckReasonCode::Success,
            properties: Properties::new(),
        }))))
    );
    assert_eq!(
        decoder.decode(),
        Ok(Some(VersionedIncomingPacket::V5(v5::IncomingPacket::PubComp(PubComp {
            packet_id: 2,
            reason_code: PubCompReasonCode::Success,
            properties: Properties::new(),
        }))))
    );
    assert_eq!(
        decoder.decode(),
        Ok(Some(VersionedIncomingPacket::V5(v5::IncomingPacket::UnsubAck(UnsubAck {
            packet_id: 3,
            reason_codes: vec![UnsubAckReasonCode::Success],
            properties: Properties::new(),
        }))))
    );
    assert_eq!(decoder.decode(), Ok(None));
}

#[test]
fn decoder_refuses_pingreq_from_server() {
    let mut decoder = Decoder::new(MqttVersion::V5);
    decoder.feed(&[0xC0, 0x00]).expect("feeds");
    assert_eq!(decoder.decode(), Err(DecodeError::UnexpectedPacket { packet_type: 0xC0 }));
}

#[test]
fn written_length_is_header_plus_remaining_length() {
    let mut props = Properties::new();
    props.push(Property::ReasonString("r".repeat(200)));
    let p = Packet::UnsubAck(UnsubAck {
        packet_id: 4,
        reason_codes: vec![UnsubAckReasonCode::Success],
        properties: props,
    });
    let mut buf = vec![0u8; 512];
    let k = p.encode(&mut buf).expect("encodes");
    let rl = p.encoded_len();
    let vbi = shiguredo_mqtt::codec::variable_byte_integer::VariableByteInteger(rl as u32).encoded_len();
    assert_eq!(vbi, 2);
    assert_eq!(k, 1 + vbi + rl);
    assert_eq!(Packet::decode(&buf[..k]), Ok((p, k)));
}
