//! Which properties each MQTT v5.0 packet may carry.

use vstd::prelude::*;

use crate::codec::wire::bytes_contain;
use crate::error::DecodeError;
use crate::v5::property::{spec_has_identifier, PacketDirection, Properties, Property, PropertyValue};

verus! {

/// Whether every property of `ps` has one of the identifiers in `allowed`.
pub open spec fn spec_ids_within(ps: Seq<(u8, PropertyValue)>, allowed: Seq<u8>) -> bool {
    forall|i: int| 0 <= i < ps.len() ==> allowed.contains(#[trigger] ps[i].0)
}

/// `Ok(())` when `ok` holds, else a malformed packet.
pub open spec fn spec_accept_if(ok: bool) -> Result<(), DecodeError> {
    if ok {
        Ok(())
    } else {
        Err(DecodeError::MalformedPacket)
    }
}

/// The properties of CONNECT (MQTT v5.0 §3.1.2.11).
pub open spec fn spec_connect_ids() -> Seq<u8> {
    seq![0x11u8, 0x21, 0x27, 0x22, 0x19, 0x17, 0x26, 0x15, 0x16]
}

/// The properties of CONNACK (MQTT v5.0 §3.2.2.3).
pub open spec fn spec_connack_ids() -> Seq<u8> {
    seq![
        0x11u8, 0x21, 0x24, 0x25, 0x27, 0x12, 0x22, 0x1F, 0x26, 0x28, 0x29, 0x2A, 0x13, 0x1A, 0x1C,
        0x15, 0x16,
    ]
}

/// The properties of PUBLISH in either direction (MQTT v5.0 §3.3.2.3).
pub open spec fn spec_publish_ids() -> Seq<u8> {
    seq![0x01u8, 0x02, 0x03, 0x08, 0x09, 0x0B, 0x23, 0x26]
}

/// The properties of the acknowledgements PUBACK, PUBREC, PUBREL, PUBCOMP,
/// SUBACK and UNSUBACK: Reason String and User Property.
pub open spec fn spec_ack_ids() -> Seq<u8> {
    seq![0x1Fu8, 0x26]
}

/// The properties of SUBSCRIBE (MQTT v5.0 §3.8.2.1).
pub open spec fn spec_subscribe_ids() -> Seq<u8> {
    seq![0x0Bu8, 0x26]
}

/// The properties of UNSUBSCRIBE (MQTT v5.0 §3.10.2.1).
pub open spec fn spec_unsubscribe_ids() -> Seq<u8> {
    seq![0x26u8]
}

/// The properties of DISCONNECT in either direction (MQTT v5.0 §3.14.2.2).
pub open spec fn spec_disconnect_ids() -> Seq<u8> {
    seq![0x11u8, 0x1C, 0x1F, 0x26]
}

/// The properties of AUTH (MQTT v5.0 §3.15.2.2).
pub open spec fn spec_auth_ids() -> Seq<u8> {
    seq![0x15u8, 0x16, 0x1F, 0x26]
}

/// The properties of a CONNECT packet's Will (MQTT v5.0 §3.1.3.2).
pub open spec fn spec_will_ids() -> Seq<u8> {
    seq![0x18u8, 0x01, 0x02, 0x03, 0x08, 0x09, 0x26]
}

/// Whether `p` is one of the properties that MQTT v5.0 §3.3.2.3 lists for
/// PUBLISH, named by its variant.
pub open spec fn spec_is_publish_property(p: Property) -> bool {
    ||| p is PayloadFormatIndicator
    ||| p is MessageExpiryInterval
    ||| p is ContentType
    ||| p is ResponseTopic
    ||| p is CorrelationData
    ||| p is SubscriptionIdentifier
    ||| p is TopicAlias
    ||| p is UserProperty
}

/// Which properties a PUBLISH may carry (MQTT v5.0 §3.3.2.3): the PUBLISH
/// check accepts a property list exactly when each of its properties is a
/// Payload Format Indicator, Message Expiry Interval, Content Type, Response
/// Topic, Correlation Data, Subscription Identifier, Topic Alias or User
/// Property. So a Topic Alias passes, and a property of the connection, such as
/// Topic Alias Maximum or Receive Maximum, is refused.
pub proof fn lemma_publish_properties(props: Seq<Property>)
    ensures
        spec_ids_within(props.map_values(|p: Property| p@), spec_publish_ids()) <==> forall|i: int|
            0 <= i < props.len() ==> spec_is_publish_property(#[trigger] props[i]),
{
    let ps = props.map_values(|p: Property| p@);
    let ids = spec_publish_ids();
    assert forall|i: int| 0 <= i < props.len() implies (ids.contains(#[trigger] ps[i].0)
        <==> spec_is_publish_property(props[i])) by {
        assert(ps[i] == props[i]@);
        let id = ps[i].0;
        if ids.contains(id) {
            let k = choose|k: int| 0 <= k < ids.len() && ids[k] == id;
            assert(k == 0 || k == 1 || k == 2 || k == 3 || k == 4 || k == 5 || k == 6 || k == 7);
        } else {
            assert(ids[0] == 0x01 && ids[1] == 0x02 && ids[2] == 0x03 && ids[3] == 0x08);
            assert(ids[4] == 0x09 && ids[5] == 0x0B && ids[6] == 0x23 && ids[7] == 0x26);
        }
    }
    if spec_ids_within(ps, ids) {
        assert forall|i: int| 0 <= i < props.len() implies spec_is_publish_property(#[trigger] props[i]) by {
            assert(ids.contains(ps[i].0));
        }
    } else {
        let i = choose|i: int| 0 <= i < ps.len() && !ids.contains(#[trigger] ps[i].0);
        assert(!spec_is_publish_property(props[i]));
    }
}

impl Properties {
    /// Checks the properties of a CONNECT packet: only its own identifiers, and
    /// Authentication Data only with an Authentication Method (MQTT v5.0
    /// §3.1.2.11.10).
    pub fn validate_for_connect(&self) -> (r: Result<(), DecodeError>)
        ensures
            r == spec_accept_if(
                spec_ids_within(self@, spec_connect_ids()) && (spec_has_identifier(self@, 0x16)
                    ==> spec_has_identifier(self@, 0x15)),
            ),
    {
        let allowed: [u8; 9] = [0x11, 0x21, 0x27, 0x22, 0x19, 0x17, 0x26, 0x15, 0x16];
        assert(allowed@ =~= spec_connect_ids());
        match self.validate_against(&allowed) {
            Err(e) => {
                return Err(e);
            },
            Ok(()) => {},
        }
        if self.has_identifier(0x16) && !self.has_identifier(0x15) {
            return Err(DecodeError::MalformedPacket);
        }
        Ok(())
    }

    /// Checks the properties of a CONNACK packet. Authentication Data without
    /// an Authentication Method is not refused here.
    pub fn validate_for_connack(&self) -> (r: Result<(), DecodeError>)
        ensures
            r == spec_accept_if(spec_ids_within(self@, spec_connack_ids())),
    {
        let allowed: [u8; 17] = [
            0x11, 0x21, 0x24, 0x25, 0x27, 0x12, 0x22, 0x1F, 0x26, 0x28, 0x29, 0x2A, 0x13, 0x1A,
            0x1C, 0x15, 0x16,
        ];
        assert(allowed@ =~= spec_connack_ids());
        self.validate_against(&allowed)
    }

    /// Checks the properties of a PUBLISH packet against those allowed in
    /// either direction.
    pub fn validate_for_publish(&self) -> (r: Result<(), DecodeError>)
        ensures
            r == spec_accept_if(spec_ids_within(self@, spec_publish_ids())),
    {
        let allowed: [u8; 8] = [0x01, 0x02, 0x03, 0x08, 0x09, 0x0B, 0x23, 0x26];
        assert(allowed@ =~= spec_publish_ids());
        self.validate_against(&allowed)
    }

    /// Checks the properties of a PUBLISH packet sent in `direction`: a client
    /// sends no Subscription Identifier (MQTT v5.0 §3.3.4, [MQTT-3.3.4-6]).
    pub fn validate_for_publish_with_direction(&self, direction: PacketDirection) -> (r: Result<(), DecodeError>)
        ensures
            r == spec_accept_if(
                spec_ids_within(self@, spec_publish_ids()) && !(direction
                    == PacketDirection::ClientToServer && spec_has_identifier(self@, 0x0B)),
            ),
    {
        match self.validate_for_publish() {
            Err(e) => {
                return Err(e);
            },
            Ok(()) => {},
        }
        if direction == PacketDirection::ClientToServer && self.has_identifier(0x0B) {
            return Err(DecodeError::MalformedPacket);
        }
        Ok(())
    }

    /// Checks the properties of a PUBACK packet.
    pub fn validate_for_puback(&self) -> (r: Result<(), DecodeError>)
        ensures
            r == spec_accept_if(spec_ids_within(self@, spec_ack_ids())),
    {
        self.validate_ack()
    }

    /// Checks the properties of a PUBREC packet.
    pub fn validate_for_pubrec(&self) -> (r: Result<(), DecodeError>)
        ensures
            r == spec_accept_if(spec_ids_within(self@, spec_ack_ids())),
    {
        self.validate_ack()
    }

    /// Checks the properties of a PUBREL packet.
    pub fn validate_for_pubrel(&self) -> (r: Result<(), DecodeError>)
        ensures
            r == spec_accept_if(spec_ids_within(self@, spec_ack_ids())),
    {
        self.validate_ack()
    }

    /// Checks the properties of a PUBCOMP packet.
    pub fn validate_for_pubcomp(&self) -> (r: Result<(), DecodeError>)
        ensures
            r == spec_accept_if(spec_ids_within(self@, spec_ack_ids())),
    {
        self.validate_ack()
    }

    /// Checks the properties of a SUBSCRIBE packet.
    pub fn validate_for_subscribe(&self) -> (r: Result<(), DecodeError>)
        ensures
            r == spec_accept_if(spec_ids_within(self@, spec_subscribe_ids())),
    {
        let allowed: [u8; 2] = [0x0B, 0x26];
        assert(allowed@ =~= spec_subscribe_ids());
        self.validate_against(&allowed)
    }

    /// Checks the properties of a SUBACK packet.
    pub fn validate_for_suback(&self) -> (r: Result<(), DecodeError>)
        ensures
            r == spec_accept_if(spec_ids_within(self@, spec_ack_ids())),
    {
        self.validate_ack()
    }

    /// Checks the properties of an UNSUBSCRIBE packet.
    pub fn validate_for_unsubscribe(&self) -> (r: Result<(), DecodeError>)
        ensures
            r == spec_accept_if(spec_ids_within(self@, spec_unsubscribe_ids())),
    {
        let allowed: [u8; 1] = [0x26];
        assert(allowed@ =~= spec_unsubscribe_ids());
        self.validate_against(&allowed)
    }

    /// Checks the properties of an UNSUBACK packet.
    pub fn validate_for_unsuback(&self) -> (r: Result<(), DecodeError>)
        ensures
            r == spec_accept_if(spec_ids_within(self@, spec_ack_ids())),
    {
        self.validate_ack()
    }

    /// Checks the properties of a DISCONNECT packet against those allowed in
    /// either direction.
    pub fn validate_for_disconnect(&self) -> (r: Result<(), DecodeError>)
        ensures
            r == spec_accept_if(spec_ids_within(self@, spec_disconnect_ids())),
    {
        let allowed: [u8; 4] = [0x11, 0x1C, 0x1F, 0x26];
        assert(allowed@ =~= spec_disconnect_ids());
        self.validate_against(&allowed)
    }

    /// Checks the properties of a DISCONNECT packet sent in `direction`: a
    /// server sends no Session Expiry Interval (MQTT v5.0 §3.14.2.2.2,
    /// [MQTT-3.14.2-2]).
    pub fn validate_for_disconnect_with_direction(&self, direction: PacketDirection) -> (r: Result<(), DecodeError>)
        ensures
            r == spec_accept_if(
                spec_ids_within(self@, spec_disconnect_ids()) && !(direction
                    == PacketDirection::ServerToClient && spec_has_identifier(self@, 0x11)),
            ),
    {
        match self.validate_for_disconnect() {
            Err(e) => {
                return Err(e);
            },
            Ok(()) => {},
        }
        if direction == PacketDirection::ServerToClient && self.has_identifier(0x11) {
            return Err(DecodeError::MalformedPacket);
        }
        Ok(())
    }

    /// Checks the properties of an AUTH packet, which must carry an
    /// Authentication Method (MQTT v5.0 §3.15.2.2.2).
    pub fn validate_for_auth(&self) -> (r: Result<(), DecodeError>)
        ensures
            r == spec_accept_if(
                spec_ids_within(self@, spec_auth_ids()) && spec_has_identifier(self@, 0x15),
            ),
    {
        let allowed: [u8; 4] = [0x15, 0x16, 0x1F, 0x26];
        assert(allowed@ =~= spec_auth_ids());
        match self.validate_against(&allowed) {
            Err(e) => {
                return Err(e);
            },
            Ok(()) => {},
        }
        if !self.has_identifier(0x15) {
            return Err(DecodeError::MalformedPacket);
        }
        Ok(())
    }

    /// Checks the properties of a CONNECT packet's Will.
    pub fn validate_for_will(&self) -> (r: Result<(), DecodeError>)
        ensures
            r == spec_accept_if(spec_ids_within(self@, spec_will_ids())),
    {
        let allowed: [u8; 7] = [0x18, 0x01, 0x02, 0x03, 0x08, 0x09, 0x26];
        assert(allowed@ =~= spec_will_ids());
        self.validate_against(&allowed)
    }

    /// Checks the properties of an acknowledgement: Reason String and User
    /// Property only.
    fn validate_ack(&self) -> (r: Result<(), DecodeError>)
        ensures
            r == spec_accept_if(spec_ids_within(self@, spec_ack_ids())),
    {
        let allowed: [u8; 2] = [0x1F, 0x26];
        assert(allowed@ =~= spec_ack_ids());
        self.validate_against(&allowed)
    }

    /// Checks that every identifier is one of `allowed`.
    fn validate_against(&self, allowed: &[u8]) -> (r: Result<(), DecodeError>)
        ensures
            r == spec_accept_if(spec_ids_within(self@, allowed@)),
    {
        let properties = self.as_slice();
        let mut i: usize = 0;
        while i < properties.len()
            invariant
                i <= properties@.len(),
                properties@.map_values(|p: crate::v5::property::Property| p@) == self@,
                forall|j: int| 0 <= j < i ==> allowed@.contains(#[trigger] self@[j].0),
            decreases properties@.len() - i,
        {
            let identifier = properties[i].identifier();
            if !bytes_contain(allowed, identifier) {
                assert(self@[i as int].0 == identifier);
                return Err(DecodeError::MalformedPacket);
            }
            i = i + 1;
        }
        Ok(())
    }
}

} // verus!
