//! The redacted rendering of properties: what `Debug` would write, with
//! Authentication Data hidden.

use vstd::prelude::*;
use vstd::string::StringExecFns;

use crate::codec::text::{
    lemma_join_push, push_bytes_text, push_decimal, push_str_debug, spec_bytes_text, spec_decimal,
    spec_join, spec_str_debug,
};
use crate::v5::property::{Properties, Property, PropertyValue};

verus! {

/// The name of the property with identifier `id`, as its variant is named.
pub open spec fn spec_property_name(id: u8) -> Seq<char> {
    if id == 0x01 {
        "PayloadFormatIndicator"@
    } else if id == 0x02 {
        "MessageExpiryInterval"@
    } else if id == 0x03 {
        "ContentType"@
    } else if id == 0x08 {
        "ResponseTopic"@
    } else if id == 0x09 {
        "CorrelationData"@
    } else if id == 0x0B {
        "SubscriptionIdentifier"@
    } else if id == 0x11 {
        "SessionExpiryInterval"@
    } else if id == 0x12 {
        "AssignedClientIdentifier"@
    } else if id == 0x13 {
        "ServerKeepAlive"@
    } else if id == 0x15 {
        "AuthenticationMethod"@
    } else if id == 0x16 {
        "AuthenticationData"@
    } else if id == 0x17 {
        "RequestProblemInformation"@
    } else if id == 0x18 {
        "WillDelayInterval"@
    } else if id == 0x19 {
        "RequestResponseInformation"@
    } else if id == 0x1A {
        "ResponseInformation"@
    } else if id == 0x1C {
        "ServerReference"@
    } else if id == 0x1F {
        "ReasonString"@
    } else if id == 0x21 {
        "ReceiveMaximum"@
    } else if id == 0x22 {
        "TopicAliasMaximum"@
    } else if id == 0x23 {
        "TopicAlias"@
    } else if id == 0x24 {
        "MaximumQoS"@
    } else if id == 0x25 {
        "RetainAvailable"@
    } else if id == 0x26 {
        "UserProperty"@
    } else if id == 0x27 {
        "MaximumPacketSize"@
    } else if id == 0x28 {
        "WildcardSubscriptionAvailable"@
    } else if id == 0x29 {
        "SubscriptionIdentifierAvailable"@
    } else if id == 0x2A {
        "SharedSubscriptionAvailable"@
    } else {
        Seq::empty()
    }
}

/// A property's value as `Debug` writes it: numbers in decimal, strings
/// quoted and escaped, binary data as its bytes in brackets.
pub open spec fn spec_value_text(v: PropertyValue) -> Seq<char> {
    match v {
        PropertyValue::Byte(x) => spec_decimal(x as nat),
        PropertyValue::Two(x) => spec_decimal(x as nat),
        PropertyValue::Four(x) => spec_decimal(x as nat),
        PropertyValue::Text(t) => spec_str_debug(t),
        PropertyValue::Bytes(b) => spec_bytes_text(b),
        PropertyValue::Vbi(x) => "VariableByteInteger"@ + "("@ + spec_decimal(x as nat) + ")"@,
        PropertyValue::Pair(a, b) => spec_str_debug(a) + ", "@ + spec_str_debug(b),
    }
}

/// The redacted rendering of a property: its name and its value in
/// parentheses, except that Authentication Data, which may hold proof material
/// such as that of SCRAM, shows as `"<redacted>"`.
pub open spec fn spec_property_text(p: (u8, PropertyValue)) -> Seq<char> {
    if p.0 == 0x16 {
        "AuthenticationData"@ + "("@ + "\"<redacted>\""@ + ")"@
    } else {
        spec_property_name(p.0) + "("@ + spec_value_text(p.1) + ")"@
    }
}

/// The redacted rendering of a property list: `Properties([...])`, with the
/// redacted renderings of the properties in order.
pub open spec fn spec_properties_text(ps: Seq<(u8, PropertyValue)>) -> Seq<char> {
    "Properties(["@ + spec_join(ps.map_values(|p: (u8, PropertyValue)| spec_property_text(p))) + "])"@
}

/// Appends the redacted rendering of `p` to `s`.
pub fn push_property_text(s: &mut String, p: &Property)
    ensures
        final(s)@ == old(s)@ + spec_property_text(p@),
{
    let ghost start = s@;
    match p {
        Property::PayloadFormatIndicator(v) => {
            s.append("PayloadFormatIndicator");
            s.append("(");
            push_decimal(s, *v as u64);
            s.append(")");
        },
        Property::MessageExpiryInterval(v) => {
            s.append("MessageExpiryInterval");
            s.append("(");
            push_decimal(s, *v as u64);
            s.append(")");
        },
        Property::ContentType(v) => {
            s.append("ContentType");
            s.append("(");
            push_str_debug(s, v.as_str());
            s.append(")");
        },
        Property::ResponseTopic(v) => {
            s.append("ResponseTopic");
            s.append("(");
            push_str_debug(s, v.as_str());
            s.append(")");
        },
        Property::CorrelationData(v) => {
            s.append("CorrelationData");
            s.append("(");
            push_bytes_text(s, v.as_slice());
            s.append(")");
        },
        Property::SubscriptionIdentifier(v) => {
            s.append("SubscriptionIdentifier");
            s.append("(");
            s.append("VariableByteInteger");
            s.append("(");
            push_decimal(s, v.0 as u64);
            s.append(")");
            s.append(")");
        },
        Property::SessionExpiryInterval(v) => {
            s.append("SessionExpiryInterval");
            s.append("(");
            push_decimal(s, *v as u64);
            s.append(")");
        },
        Property::AssignedClientIdentifier(v) => {
            s.append("AssignedClientIdentifier");
            s.append("(");
            push_str_debug(s, v.as_str());
            s.append(")");
        },
        Property::ServerKeepAlive(v) => {
            s.append("ServerKeepAlive");
            s.append("(");
            push_decimal(s, *v as u64);
            s.append(")");
        },
        Property::AuthenticationMethod(v) => {
            s.append("AuthenticationMethod");
            s.append("(");
            push_str_debug(s, v.as_str());
            s.append(")");
        },
        Property::AuthenticationData(_) => {
            s.append("AuthenticationData");
            s.append("(");
            s.append("\"<redacted>\"");
            s.append(")");
        },
        Property::RequestProblemInformation(v) => {
            s.append("RequestProblemInformation");
            s.append("(");
            push_decimal(s, *v as u64);
            s.append(")");
        },
        Property::WillDelayInterval(v) => {
            s.append("WillDelayInterval");
            s.append("(");
            push_decimal(s, *v as u64);
            s.append(")");
        },
        Property::RequestResponseInformation(v) => {
            s.append("RequestResponseInformation");
            s.append("(");
            push_decimal(s, *v as u64);
            s.append(")");
        },
        Property::ResponseInformation(v) => {
            s.append("ResponseInformation");
            s.append("(");
            push_str_debug(s, v.as_str());
            s.append(")");
        },
        Property::ServerReference(v) => {
            s.append("ServerReference");
            s.append("(");
            push_str_debug(s, v.as_str());
            s.append(")");
        },
        Property::ReasonString(v) => {
            s.append("ReasonString");
            s.append("(");
            push_str_debug(s, v.as_str());
            s.append(")");
        },
        Property::ReceiveMaximum(v) => {
            s.append("ReceiveMaximum");
            s.append("(");
            push_decimal(s, *v as u64);
            s.append(")");
        },
        Property::TopicAliasMaximum(v) => {
            s.append("TopicAliasMaximum");
            s.append("(");
            push_decimal(s, *v as u64);
            s.append(")");
        },
        Property::TopicAlias(v) => {
            s.append("TopicAlias");
            s.append("(");
            push_decimal(s, *v as u64);
            s.append(")");
        },
        Property::MaximumQoS(v) => {
            s.append("MaximumQoS");
            s.append("(");
            push_decimal(s, *v as u64);
            s.append(")");
        },
        Property::RetainAvailable(v) => {
            s.append("RetainAvailable");
            s.append("(");
            push_decimal(s, *v as u64);
            s.append(")");
        },
        Property::UserProperty(a, b) => {
            s.append("UserProperty");
            s.append("(");
            push_str_debug(s, a.as_str());
            s.append(", ");
            push_str_debug(s, b.as_str());
            s.append(")");
        },
        Property::MaximumPacketSize(v) => {
            s.append("MaximumPacketSize");
            s.append("(");
            push_decimal(s, *v as u64);
            s.append(")");
        },
        Property::WildcardSubscriptionAvailable(v) => {
            s.append("WildcardSubscriptionAvailable");
            s.append("(");
            push_decimal(s, *v as u64);
            s.append(")");
        },
        Property::SubscriptionIdentifierAvailable(v) => {
            s.append("SubscriptionIdentifierAvailable");
            s.append("(");
            push_decimal(s, *v as u64);
            s.append(")");
        },
        Property::SharedSubscriptionAvailable(v) => {
            s.append("SharedSubscriptionAvailable");
            s.append("(");
            push_decimal(s, *v as u64);
            s.append(")");
        },
    }
    proof {
        assert(s@ =~= start + spec_property_text(p@));
    }
}

impl Property {
    /// The property as its `Debug` would show it, with Authentication Data
    /// hidden as `"<redacted>"`. `{:?}` itself is derived and does not hide
    /// it: use this rendering where properties are logged.
    pub fn redacted_debug(&self) -> (r: String)
        ensures
            r@ == spec_property_text(self@),
    {
        let mut s = String::new();
        push_property_text(&mut s, self);
        proof {
            assert(s@ =~= Seq::<char>::empty() + spec_property_text(self@));
        }
        s
    }
}

/// Appends the redacted rendering of a property list to `s`.
pub fn push_properties_text(s: &mut String, ps: &Properties)
    ensures
        final(s)@ == old(s)@ + spec_properties_text(ps@),
{
    let items = ps.as_slice();
    let ghost parts = ps@.map_values(|p: (u8, PropertyValue)| spec_property_text(p));
    let ghost start = s@;
    s.append("Properties([");
    let mut i: usize = 0;
    while i < items.len()
        invariant
            i <= items@.len(),
            items@.map_values(|p: Property| p@) == ps@,
            parts == ps@.map_values(|p: (u8, PropertyValue)| spec_property_text(p)),
            s@ == start + "Properties(["@ + spec_join(parts.take(i as int)),
        decreases items@.len() - i,
    {
        proof {
            lemma_join_push(parts, i as int);
            assert(parts[i as int] == spec_property_text(items@[i as int]@));
        }
        if i > 0 {
            s.append(", ");
        }
        push_property_text(s, &items[i]);
        proof {
            assert(s@ =~= start + "Properties(["@ + spec_join(parts.take(i + 1)));
        }
        i = i + 1;
    }
    s.append("])");
    proof {
        assert(parts.take(i as int) =~= parts);
        assert(s@ =~= start + spec_properties_text(ps@));
    }
}

impl Properties {
    /// The list as its `Debug` would show it, with Authentication Data hidden
    /// as `"<redacted>"`. `{:?}` itself is derived and does not hide it: use
    /// this rendering where properties are logged.
    pub fn redacted_debug(&self) -> (r: String)
        ensures
            r@ == spec_properties_text(self@),
    {
        let mut s = String::new();
        push_properties_text(&mut s, self);
        proof {
            assert(s@ =~= Seq::<char>::empty() + spec_properties_text(self@));
        }
        s
    }
}

} // verus!
