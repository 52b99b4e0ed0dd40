//! MQTT v5.0 AUTH packets (MQTT v5.0 §3.15).

use vstd::prelude::*;

use crate::codec::wire::spec_splice;
use crate::error::{DecodeError, EncodeError, EncodeInvalidField};
use crate::codec::variable_byte_integer::VBI_MAX;
use crate::v5::ack_helper::{
    lemma_fixed_header_roundtrip, spec_fixed_header,
    decode_fixed_header, encode_reason_code_only_packet, reason_code_only_packet_encoded_len,
    spec_fixed_header_check, spec_fixed_header_decode, spec_reason_code_only_len,
    spec_reason_code_only_result, spec_reason_code_only_wire,
};
use crate::v5::property::{
    lemma_properties_len_matches, lemma_properties_roundtrip, spec_first_property_error,
    spec_properties_wire,
    spec_auth_ids, spec_has_duplicate, spec_has_identifier, spec_ids_within, spec_properties_decode,
    Properties, Property, PropertyValue,
};

verus! {

/// MQTT v5.0 Authenticate Reason Code (MQTT v5.0 §3.15.2.1).
#[derive(Debug, Clone, Copy, PartialEq, Eq, Structural)]
pub enum AuthReasonCode {
    /// 0x00: Success.
    Success,
    /// 0x18: Continue authentication.
    ContinueAuthentication,
    /// 0x19: Re authenticate.
    ReAuthenticate,
}

impl AuthReasonCode {
    /// The numeric value of the code.
    pub open spec fn spec_as_u8(self) -> u8 {
        match self {
            AuthReasonCode::Success => 0x00,
            AuthReasonCode::ContinueAuthentication => 0x18,
            AuthReasonCode::ReAuthenticate => 0x19,
        }
    }

    /// The code with the numeric value `value`, if any.
    pub open spec fn spec_from_u8(value: u8) -> Option<AuthReasonCode> {
        if value == 0x00 {
            Some(AuthReasonCode::Success)
        } else if value == 0x18 {
            Some(AuthReasonCode::ContinueAuthentication)
        } else if value == 0x19 {
            Some(AuthReasonCode::ReAuthenticate)
        } else {
            None
        }
    }

    /// Returns the code with the numeric value `value`; other values give `None`.
    pub fn from_u8(value: u8) -> (r: Option<Self>)
        ensures
            r == Self::spec_from_u8(value),
    {
        match value {
            0x00 => Some(AuthReasonCode::Success),
            0x18 => Some(AuthReasonCode::ContinueAuthentication),
            0x19 => Some(AuthReasonCode::ReAuthenticate),
            _ => None,
        }
    }

    /// Returns the numeric value of the code.
    pub fn as_u8(self) -> (r: u8)
        ensures
            r == self.spec_as_u8(),
    {
        match self {
            AuthReasonCode::Success => 0x00,
            AuthReasonCode::ContinueAuthentication => 0x18,
            AuthReasonCode::ReAuthenticate => 0x19,
        }
    }
}

impl AuthReasonCode {
    /// Whether a client may send the code (MQTT v5.0 §3.15.2.1, Table 3-11).
    pub open spec fn spec_sent_by_client(self) -> bool {
        self is ContinueAuthentication || self is ReAuthenticate
    }

    /// Whether a server may send the code (MQTT v5.0 §3.15.2.1, Table 3-11).
    pub open spec fn spec_sent_by_server(self) -> bool {
        self is Success || self is ContinueAuthentication
    }

    /// Returns whether a client may send the code.
    fn is_sent_by_client(self) -> (r: bool)
        ensures
            r == self.spec_sent_by_client(),
    {
        match self {
            AuthReasonCode::ContinueAuthentication | AuthReasonCode::ReAuthenticate => true,
            _ => false,
        }
    }

    /// Returns whether a server may send the code.
    fn is_sent_by_server(self) -> (r: bool)
        ensures
            r == self.spec_sent_by_server(),
    {
        match self {
            AuthReasonCode::Success | AuthReasonCode::ContinueAuthentication => true,
            _ => false,
        }
    }
}

/// Converting a code to its number and back gives the code.
#[verifier::spinoff_prover]
pub proof fn lemma_auth_reason_code_roundtrip(c: AuthReasonCode)
    ensures
        AuthReasonCode::spec_from_u8(c.spec_as_u8()) == Some(c),
{
}

/// An MQTT v5.0 AUTH packet (MQTT v5.0 §3.15).
#[derive(Debug, Clone, PartialEq, Eq)]
pub struct Auth {
    /// The reason code.
    pub reason_code: AuthReasonCode,
    /// The properties.
    pub properties: Properties,
}

/// The text of the first property in `ps` with identifier `id`, if that
/// property carries text.
pub open spec fn spec_find_text(ps: Seq<(u8, PropertyValue)>, id: u8) -> Option<Seq<char>>
    decreases ps.len(),
{
    if ps.len() == 0 {
        None
    } else if ps[0].0 == id {
        match ps[0].1 {
            PropertyValue::Text(t) => Some(t),
            _ => None,
        }
    } else {
        spec_find_text(ps.drop_first(), id)
    }
}

/// Why an AUTH packet cannot be written, if it cannot: a reason code that a
/// client does not send, properties that AUTH does not allow or without an
/// Authentication Method, or a repeated property.
pub open spec fn spec_auth_check(reason_code: AuthReasonCode, ps: Seq<(u8, PropertyValue)>) -> Result<(), EncodeError> {
    if !reason_code.spec_sent_by_client() {
        Err(EncodeError::InvalidField { reason: EncodeInvalidField::InvalidReasonCode })
    } else if !(spec_ids_within(ps, spec_auth_ids()) && spec_has_identifier(ps, 0x15)) {
        Err(EncodeError::InvalidField { reason: EncodeInvalidField::PropertyValidationFailed })
    } else if spec_has_duplicate(ps, false) {
        Err(EncodeError::InvalidField { reason: EncodeInvalidField::DuplicatePropertyIdentifier })
    } else {
        Ok(())
    }
}

/// The result of decoding an AUTH packet sent by a server from the start of
/// `s`: the reason code, the properties and the bytes consumed. A remaining
/// length of 0 stands for Success without properties (MQTT v5.0 §3.15.2.1); a
/// reason code that a server does not send, or properties without an
/// Authentication Method, are malformed.
pub open spec fn spec_auth_decode(s: Seq<u8>) -> Result<(AuthReasonCode, Seq<(u8, PropertyValue)>, nat), DecodeError> {
    match spec_fixed_header_decode(s, 0xF0, 0x00) {
        Err(e) => Err(e),
        Ok((rem, h)) => if rem == 0 {
            Ok((AuthReasonCode::Success, Seq::empty(), h))
        } else {
            match AuthReasonCode::spec_from_u8(s[h as int]) {
                None => Err(DecodeError::MalformedPacket),
                Some(c) => if !c.spec_sent_by_server() {
                    Err(DecodeError::MalformedPacket)
                } else {
                    let props = if rem == 1 {
                        Ok((Seq::empty(), 0nat))
                    } else {
                        spec_properties_decode(s.subrange(h + 1 as int, h + rem as int), false)
                    };
                    match props {
                        Err(e) => Err(e),
                        Ok((ps, n)) => if 1 + n != rem {
                            Err(DecodeError::MalformedPacket)
                        } else if !(spec_ids_within(ps, spec_auth_ids()) && spec_has_identifier(ps, 0x15)) {
                            Err(DecodeError::MalformedPacket)
                        } else {
                            Ok((c, ps, h + rem))
                        },
                    }
                },
            }
        },
    }
}

impl Auth {
    /// Returns the remaining length of the encoded packet.
    pub fn encoded_len(&self) -> (r: usize)
        ensures
            r == spec_reason_code_only_len(self.properties@),
    {
        reason_code_only_packet_encoded_len(&self.properties)
    }

    /// Returns the Authentication Method (MQTT v5.0 §3.15.2.2.2), if any.
    pub fn authentication_method(&self) -> (r: Option<&str>)
        ensures
            match r {
                Some(m) => spec_find_text(self.properties@, 0x15) == Some(m@),
                None => spec_find_text(self.properties@, 0x15) is None,
            },
    {
        let properties = self.properties.as_slice();
        let ghost ps = self.properties@;
        let mut i: usize = 0;
        assert(ps.skip(0) =~= ps);
        while i < properties.len()
            invariant
                i <= properties@.len(),
                properties@.map_values(|p: Property| p@) == ps,
                ps == self.properties@,
                spec_find_text(ps, 0x15) == spec_find_text(ps.skip(i as int), 0x15),
            decreases properties@.len() - i,
        {
            proof {
                assert(ps.skip(i as int)[0] == ps[i as int]);
                assert(ps.skip(i as int).drop_first() =~= ps.skip(i + 1));
            }
            match &properties[i] {
                Property::AuthenticationMethod(method) => {
                    assert(ps[i as int] == properties@[i as int]@);
                    return Some(method.as_str());
                },
                _ => {},
            }
            i = i + 1;
        }
        None
    }

    /// Encodes the packet into `buf` and returns the number of bytes written.
    ///
    /// After an error in a property, the bytes before it have been written.
    pub fn encode(&self, buf: &mut [u8]) -> (r: Result<usize, EncodeError>)
        ensures
            final(buf)@.len() == old(buf)@.len(),
            r == match spec_auth_check(self.reason_code, self.properties@) {
                Err(e) => Err::<usize, EncodeError>(e),
                Ok(()) => spec_reason_code_only_result(
                    self.properties@,
                    old(buf)@.len(),
                    spec_reason_code_only_wire(0xF0, self.reason_code.spec_as_u8(), self.properties@).len(),
                ),
            },
            r is Ok ==> final(buf)@ == spec_splice(
                old(buf)@,
                0,
                spec_reason_code_only_wire(0xF0, self.reason_code.spec_as_u8(), self.properties@),
            ),
            spec_auth_check(self.reason_code, self.properties@) is Err || spec_fixed_header_check(
                spec_reason_code_only_len(self.properties@),
                old(buf)@.len(),
            ) is Err ==> final(buf)@ == old(buf)@,
    {
        match self.validate() {
            Err(e) => {
                return Err(e);
            },
            Ok(()) => {},
        }
        let r = encode_reason_code_only_packet(buf, 0xF0, 0x00, self.reason_code.as_u8(), &self.properties);
        proof {
            assert((0xF0u8 | 0x00u8) == 0xF0u8) by (bit_vector);
        }
        r
    }

    /// Checks what the packet must satisfy before it is written.
    fn validate(&self) -> (r: Result<(), EncodeError>)
        ensures
            r == spec_auth_check(self.reason_code, self.properties@),
    {
        if !self.reason_code.is_sent_by_client() {
            return Err(EncodeError::InvalidField { reason: EncodeInvalidField::InvalidReasonCode });
        }
        if self.properties.validate_for_auth().is_err() {
            return Err(
                EncodeError::InvalidField { reason: EncodeInvalidField::PropertyValidationFailed },
            );
        }
        if self.properties.validate_duplicate_identifiers(false).is_err() {
            return Err(
                EncodeError::InvalidField { reason: EncodeInvalidField::DuplicatePropertyIdentifier },
            );
        }
        Ok(())
    }

    /// Decodes an AUTH packet sent by a server from the start of `buf` and
    /// returns it with the number of bytes consumed.
    pub fn decode(buf: &[u8]) -> (r: Result<(Self, usize), DecodeError>)
        ensures
            match r {
                Ok((p, n)) => spec_auth_decode(buf@) == Ok::<(AuthReasonCode, Seq<(u8, PropertyValue)>, nat), DecodeError>(
                    (p.reason_code, p.properties@, n as nat),
                ),
                Err(e) => spec_auth_decode(buf@) == Err::<(AuthReasonCode, Seq<(u8, PropertyValue)>, nat), DecodeError>(e),
            },
    {
        let (remaining_len, header_len, end) = match decode_fixed_header(buf, 0xF0, 0x00) {
            Err(e) => {
                return Err(e);
            },
            Ok(x) => x,
        };
        if remaining_len == 0 {
            return Ok((Self { reason_code: AuthReasonCode::Success, properties: Properties::new() }, end));
        }
        let reason_code = match AuthReasonCode::from_u8(buf[header_len]) {
            None => {
                return Err(DecodeError::MalformedPacket);
            },
            Some(c) => c,
        };
        if !reason_code.is_sent_by_server() {
            return Err(DecodeError::MalformedPacket);
        }
        let properties_offset = header_len + 1;
        let (properties, n) = if properties_offset == end {
            (Properties::new(), 0)
        } else {
            match Properties::decode(&buf[properties_offset..end]) {
                Err(e) => {
                    return Err(e);
                },
                Ok(x) => x,
            }
        };
        if properties_offset + n != end {
            return Err(DecodeError::MalformedPacket);
        }
        match properties.validate_for_auth() {
            Err(e) => {
                return Err(e);
            },
            Ok(()) => {},
        }
        Ok((Self { reason_code, properties }, end))
    }
}

/// Decoding the wire form of an AUTH packet that a client can write, followed
/// by any bytes, gives its reason code and properties back and consumes exactly
/// the wire form, when the reason code is one that a server sends too
/// (Continue authentication).
#[verifier::spinoff_prover]
pub proof fn lemma_auth_roundtrip(p: Auth, rest: Seq<u8>)
    requires
        spec_auth_check(p.reason_code, p.properties@) is Ok,
        p.reason_code.spec_sent_by_server(),
        spec_first_property_error(p.properties@) is None,
        spec_reason_code_only_len(p.properties@) <= VBI_MAX,
    ensures
        ({
            let w = spec_reason_code_only_wire(0xF0, p.reason_code.spec_as_u8(), p.properties@);
            spec_auth_decode(w + rest) == Ok::<(AuthReasonCode, Seq<(u8, PropertyValue)>, nat), DecodeError>(
                (p.reason_code, p.properties@, w.len()),
            )
        }),
{
    assert((0xF0u8 | 0x00u8) == 0xF0u8 && (0xF0u8 | 0x00u8) & 0xF0 == 0xF0u8 && (0xF0u8 | 0x00u8) & 0x0F == 0x00u8)
        by (bit_vector);
    let ps = p.properties@;
    let rc = p.reason_code.spec_as_u8();
    let rem = spec_reason_code_only_len(ps) as nat;
    lemma_properties_len_matches(ps);
    let pw = spec_properties_wire(ps);
    let body = seq![rc] + pw;
    let header = spec_fixed_header(0xF0, rem);
    let s = spec_reason_code_only_wire(0xF0, rc, ps) + rest;
    assert(s =~= header + (body + rest));
    lemma_fixed_header_roundtrip(0xF0, 0x00, rem, body + rest);
    let h = header.len() as int;
    assert(s[h] == rc);
    lemma_auth_reason_code_roundtrip(p.reason_code);
    assert(s.subrange(h + 1, h + rem) =~= pw + Seq::<u8>::empty());
    lemma_properties_roundtrip(p.properties, false, Seq::<u8>::empty());
}

} // verus!
