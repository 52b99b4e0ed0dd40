use shiguredo_mqtt::codec::variable_byte_integer::VariableByteInteger;
use shiguredo_mqtt::error::{DecodeError, EncodeError, EncodeInvalidField};
use shiguredo_mqtt::v5::property::{PacketDirection, Properties, Property};

#[test]
fn packet_specific_property_validation() {
    let mut props = Properties::new();
    props.push(Property::ReceiveMaximum(10));
    assert_eq!(
        props.validate_for_publish(),
        Err(DecodeError::MalformedPacket)
    );

    let mut props = Properties::new();
    props.push(Property::MaximumQoS(1));
    assert_eq!(
        props.validate_for_connect(),
        Err(DecodeError::MalformedPacket)
    );
}

#[test]
fn validate_duplicate_identifiers_rejects_non_user_property_duplicates() {
    let mut props = Properties::new();
    props.push(Property::SessionExpiryInterval(60));
    props.push(Property::SessionExpiryInterval(120));
    assert_eq!(
        props.validate_duplicate_identifiers(false),
        Err(EncodeError::InvalidField {
            reason: EncodeInvalidField::DuplicatePropertyIdentifier,
        })
    );
}

#[test]
fn validate_duplicate_identifiers_allows_user_property_duplicates() {
    let mut props = Properties::new();
    props.push(Property::UserProperty("a".to_string(), "1".to_string()));
    props.push(Property::UserProperty("b".to_string(), "2".to_string()));
    assert!(props.validate_duplicate_identifiers(false).is_ok());
}

#[test]
fn validate_duplicate_identifiers_rejects_assigned_client_identifier_duplicates() {
    let mut props = Properties::new();
    props.push(Property::AssignedClientIdentifier("a".to_string()));
    props.push(Property::AssignedClientIdentifier("b".to_string()));
    assert_eq!(
        props.validate_duplicate_identifiers(false),
        Err(EncodeError::InvalidField {
            reason: EncodeInvalidField::DuplicatePropertyIdentifier,
        })
    );
}

#[test]
fn validate_duplicate_identifiers_allows_subscription_id_duplicates_for_publish() {
    let mut props = Properties::new();
    props.push(Property::SubscriptionIdentifier(VariableByteInteger(1)));
    props.push(Property::SubscriptionIdentifier(VariableByteInteger(2)));
    assert!(props.validate_duplicate_identifiers(true).is_ok());
}

#[test]
fn validate_duplicate_identifiers_rejects_subscription_id_duplicates_for_others() {
    let mut props = Properties::new();
    props.push(Property::SubscriptionIdentifier(VariableByteInteger(1)));
    props.push(Property::SubscriptionIdentifier(VariableByteInteger(2)));
    assert_eq!(
        props.validate_duplicate_identifiers(false),
        Err(EncodeError::InvalidField {
            reason: EncodeInvalidField::DuplicatePropertyIdentifier,
        })
    );
}

#[test]
fn validate_for_publish_rejects_subscription_identifier_for_client_to_server() {
    let mut props = Properties::new();
    props.push(Property::SubscriptionIdentifier(VariableByteInteger(1)));
    assert_eq!(
        props.validate_for_publish_with_direction(PacketDirection::ClientToServer),
        Err(DecodeError::MalformedPacket)
    );
}

#[test]
fn validate_for_publish_allows_subscription_identifier_for_server_to_client() {
    let mut props = Properties::new();
    props.push(Property::SubscriptionIdentifier(VariableByteInteger(1)));
    assert!(
        props
            .validate_for_publish_with_direction(PacketDirection::ServerToClient)
            .is_ok()
    );
}

#[test]
fn validate_for_disconnect_rejects_session_expiry_interval_for_server_to_client() {
    let mut props = Properties::new();
    props.push(Property::SessionExpiryInterval(60));
    assert_eq!(
        props.validate_for_disconnect_with_direction(PacketDirection::ServerToClient),
        Err(DecodeError::MalformedPacket)
    );
}

#[test]
fn validate_for_disconnect_allows_session_expiry_interval_for_client_to_server() {
    let mut props = Properties::new();
    props.push(Property::SessionExpiryInterval(60));
    assert!(
        props
            .validate_for_disconnect_with_direction(PacketDirection::ClientToServer)
            .is_ok()
    );
}

fn properties_with(property: Property) -> Properties {
    let mut properties = Properties::new();
    properties.push(property);
    properties
}


#[test]
fn empty_properties_are_valid_for_connect() {
    assert!(Properties::new().validate_for_connect().is_ok());
}

#[test]
fn empty_properties_are_valid_for_connack() {
    assert!(Properties::new().validate_for_connack().is_ok());
}

#[test]
fn empty_properties_are_valid_for_publish() {
    assert!(Properties::new().validate_for_publish().is_ok());
}

#[test]
fn empty_properties_are_valid_for_puback() {
    assert!(Properties::new().validate_for_puback().is_ok());
}

#[test]
fn empty_properties_are_valid_for_pubrec() {
    assert!(Properties::new().validate_for_pubrec().is_ok());
}

#[test]
fn empty_properties_are_valid_for_pubrel() {
    assert!(Properties::new().validate_for_pubrel().is_ok());
}

#[test]
fn empty_properties_are_valid_for_pubcomp() {
    assert!(Properties::new().validate_for_pubcomp().is_ok());
}

#[test]
fn empty_properties_are_valid_for_subscribe() {
    assert!(Properties::new().validate_for_subscribe().is_ok());
}

#[test]
fn empty_properties_are_valid_for_suback() {
    assert!(Properties::new().validate_for_suback().is_ok());
}

#[test]
fn empty_properties_are_valid_for_unsubscribe() {
    assert!(Properties::new().validate_for_unsubscribe().is_ok());
}

#[test]
fn empty_properties_are_valid_for_unsuback() {
    assert!(Properties::new().validate_for_unsuback().is_ok());
}

#[test]
fn empty_properties_are_valid_for_disconnect() {
    assert!(Properties::new().validate_for_disconnect().is_ok());
}

#[test]
fn empty_properties_are_valid_for_will() {
    assert!(Properties::new().validate_for_will().is_ok());
}

#[test]
fn empty_properties_are_invalid_for_auth() {
    assert_eq!(
        Properties::new().validate_for_auth(),
        Err(DecodeError::MalformedPacket)
    );
}


#[test]
fn connect_accepts_session_expiry_interval() {
    let properties = properties_with(Property::SessionExpiryInterval(60));
    assert!(properties.validate_for_connect().is_ok());
}

#[test]
fn connect_accepts_authentication_method() {
    let properties = properties_with(Property::AuthenticationMethod("method".to_string()));
    assert!(properties.validate_for_connect().is_ok());
}

#[test]
fn connect_accepts_authentication_method_and_data() {
    let mut properties = Properties::new();
    properties.push(Property::AuthenticationMethod("method".to_string()));
    properties.push(Property::AuthenticationData(vec![0x01]));
    assert!(properties.validate_for_connect().is_ok());
}

#[test]
fn connack_accepts_receive_maximum() {
    let properties = properties_with(Property::ReceiveMaximum(10));
    assert!(properties.validate_for_connack().is_ok());
}

#[test]
fn connack_accepts_authentication_method() {
    let properties = properties_with(Property::AuthenticationMethod("method".to_string()));
    assert!(properties.validate_for_connack().is_ok());
}

#[test]
fn connack_accepts_authentication_method_and_data() {
    let mut properties = Properties::new();
    properties.push(Property::AuthenticationMethod("method".to_string()));
    properties.push(Property::AuthenticationData(vec![0x01]));
    assert!(properties.validate_for_connack().is_ok());
}

#[test]
fn publish_accepts_payload_format_indicator() {
    let properties = properties_with(Property::PayloadFormatIndicator(0));
    assert!(properties.validate_for_publish().is_ok());
}

#[test]
fn puback_accepts_reason_string() {
    let properties = properties_with(Property::ReasonString("reason".to_string()));
    assert!(properties.validate_for_puback().is_ok());
}

#[test]
fn pubrec_accepts_reason_string() {
    let properties = properties_with(Property::ReasonString("reason".to_string()));
    assert!(properties.validate_for_pubrec().is_ok());
}

#[test]
fn pubrel_accepts_reason_string() {
    let properties = properties_with(Property::ReasonString("reason".to_string()));
    assert!(properties.validate_for_pubrel().is_ok());
}

#[test]
fn pubcomp_accepts_reason_string() {
    let properties = properties_with(Property::ReasonString("reason".to_string()));
    assert!(properties.validate_for_pubcomp().is_ok());
}

#[test]
fn subscribe_accepts_subscription_identifier() {
    let properties = properties_with(Property::SubscriptionIdentifier(VariableByteInteger(1)));
    assert!(properties.validate_for_subscribe().is_ok());
}

#[test]
fn suback_accepts_reason_string() {
    let properties = properties_with(Property::ReasonString("reason".to_string()));
    assert!(properties.validate_for_suback().is_ok());
}

#[test]
fn unsubscribe_accepts_user_property() {
    let properties = properties_with(Property::UserProperty("k".to_string(), "v".to_string()));
    assert!(properties.validate_for_unsubscribe().is_ok());
}

#[test]
fn unsuback_accepts_reason_string() {
    let properties = properties_with(Property::ReasonString("reason".to_string()));
    assert!(properties.validate_for_unsuback().is_ok());
}

#[test]
fn disconnect_accepts_session_expiry_interval() {
    let properties = properties_with(Property::SessionExpiryInterval(60));
    assert!(properties.validate_for_disconnect().is_ok());
}

#[test]
fn auth_accepts_authentication_method() {
    let properties = properties_with(Property::AuthenticationMethod("method".to_string()));
    assert!(properties.validate_for_auth().is_ok());
}

#[test]
fn auth_accepts_authentication_method_and_data() {
    let mut properties = Properties::new();
    properties.push(Property::AuthenticationMethod("method".to_string()));
    properties.push(Property::AuthenticationData(vec![0x01]));
    assert!(properties.validate_for_auth().is_ok());
}

#[test]
fn will_accepts_will_delay_interval() {
    let properties = properties_with(Property::WillDelayInterval(60));
    assert!(properties.validate_for_will().is_ok());
}


#[test]
fn connect_rejects_payload_format_indicator() {
    let properties = properties_with(Property::PayloadFormatIndicator(0));
    assert_eq!(
        properties.validate_for_connect(),
        Err(DecodeError::MalformedPacket)
    );
}

#[test]
fn connect_rejects_authentication_data_without_method() {
    let properties = properties_with(Property::AuthenticationData(vec![0x01]));
    assert_eq!(
        properties.validate_for_connect(),
        Err(DecodeError::MalformedPacket)
    );
}

#[test]
fn connack_rejects_payload_format_indicator() {
    let properties = properties_with(Property::PayloadFormatIndicator(0));
    assert_eq!(
        properties.validate_for_connack(),
        Err(DecodeError::MalformedPacket)
    );
}

#[test]
fn connack_accepts_authentication_data_without_method() {
    let properties = properties_with(Property::AuthenticationData(vec![0x01]));
    assert!(properties.validate_for_connack().is_ok());
}

#[test]
fn publish_rejects_session_expiry_interval() {
    let properties = properties_with(Property::SessionExpiryInterval(60));
    assert_eq!(
        properties.validate_for_publish(),
        Err(DecodeError::MalformedPacket)
    );
}

#[test]
fn puback_rejects_topic_alias() {
    let properties = properties_with(Property::TopicAlias(1));
    assert_eq!(
        properties.validate_for_puback(),
        Err(DecodeError::MalformedPacket)
    );
}

#[test]
fn pubrec_rejects_topic_alias() {
    let properties = properties_with(Property::TopicAlias(1));
    assert_eq!(
        properties.validate_for_pubrec(),
        Err(DecodeError::MalformedPacket)
    );
}

#[test]
fn pubrel_rejects_topic_alias() {
    let properties = properties_with(Property::TopicAlias(1));
    assert_eq!(
        properties.validate_for_pubrel(),
        Err(DecodeError::MalformedPacket)
    );
}

#[test]
fn pubcomp_rejects_topic_alias() {
    let properties = properties_with(Property::TopicAlias(1));
    assert_eq!(
        properties.validate_for_pubcomp(),
        Err(DecodeError::MalformedPacket)
    );
}

#[test]
fn subscribe_rejects_payload_format_indicator() {
    let properties = properties_with(Property::PayloadFormatIndicator(0));
    assert_eq!(
        properties.validate_for_subscribe(),
        Err(DecodeError::MalformedPacket)
    );
}

#[test]
fn suback_rejects_payload_format_indicator() {
    let properties = properties_with(Property::PayloadFormatIndicator(0));
    assert_eq!(
        properties.validate_for_suback(),
        Err(DecodeError::MalformedPacket)
    );
}

#[test]
fn unsubscribe_rejects_payload_format_indicator() {
    let properties = properties_with(Property::PayloadFormatIndicator(0));
    assert_eq!(
        properties.validate_for_unsubscribe(),
        Err(DecodeError::MalformedPacket)
    );
}

#[test]
fn unsuback_rejects_payload_format_indicator() {
    let properties = properties_with(Property::PayloadFormatIndicator(0));
    assert_eq!(
        properties.validate_for_unsuback(),
        Err(DecodeError::MalformedPacket)
    );
}

#[test]
fn disconnect_rejects_payload_format_indicator() {
    let properties = properties_with(Property::PayloadFormatIndicator(0));
    assert_eq!(
        properties.validate_for_disconnect(),
        Err(DecodeError::MalformedPacket)
    );
}

#[test]
fn auth_rejects_payload_format_indicator() {
    let properties = properties_with(Property::PayloadFormatIndicator(0));
    assert_eq!(
        properties.validate_for_auth(),
        Err(DecodeError::MalformedPacket)
    );
}

#[test]
fn auth_rejects_authentication_data_without_method() {
    let properties = properties_with(Property::AuthenticationData(vec![0x01]));
    assert_eq!(
        properties.validate_for_auth(),
        Err(DecodeError::MalformedPacket)
    );
}

#[test]
fn auth_rejects_missing_authentication_method() {
    let properties = properties_with(Property::ReasonString("reason".to_string()));
    assert_eq!(
        properties.validate_for_auth(),
        Err(DecodeError::MalformedPacket)
    );
}

#[test]
fn will_rejects_session_expiry_interval() {
    let properties = properties_with(Property::SessionExpiryInterval(60));
    assert_eq!(
        properties.validate_for_will(),
        Err(DecodeError::MalformedPacket)
    );
}
