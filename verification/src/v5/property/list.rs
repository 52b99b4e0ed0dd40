//! Property lists (MQTT v5.0 §2.2.2): a Variable Byte Integer length, then the
//! properties.

use std::collections::BTreeSet;
use vstd::prelude::*;
use vstd::std_specs::iter::IteratorSpec;
use vstd::std_specs::slice::{axiom_spec_slice_iter, spec_slice_iter};

use crate::codec::variable_byte_integer::{
    lemma_vbi_decode_canonical, lemma_vbi_encode_len, spec_vbi_decode, spec_vbi_encode,
    spec_vbi_len, write_vbi_at, VariableByteInteger, VBI_MAX,
};
use crate::codec::wire::{lemma_splice_append, lemma_splice_len, spec_splice};
use crate::error::{malformed_if_insufficient, spec_malformed_if_insufficient, DecodeError, EncodeError, EncodeInvalidField};
use crate::v5::property::{
    lemma_property_kind, lemma_property_len_matches, lemma_property_wire_roundtrip, spec_kind, spec_value_kind, spec_content_error, spec_property_decode, spec_property_encodable,
    spec_property_encode_outcome, spec_property_len, spec_property_wire, spec_value_check,
    Property, PropertyValue,
};

verus! {

broadcast use {vstd::std_specs::btree::group_btree_axioms, vstd::laws_cmp::group_laws_cmp};

/// The direction in which a MQTT v5.0 packet travels; some properties are
/// allowed in one direction only.
#[derive(Debug, Clone, Copy, PartialEq, Eq, Structural)]
pub enum PacketDirection {
    /// From the client to the server.
    ClientToServer,
    /// From the server to the client.
    ServerToClient,
}

/// A list of MQTT v5.0 properties.
///
/// `{:?}` is derived and shows Authentication Data in full;
/// [`redacted_debug`](Self::redacted_debug) hides it.
#[derive(Debug, Clone, PartialEq, Eq)]
pub struct Properties(Vec<Property>);

impl View for Properties {
    type V = Seq<(u8, PropertyValue)>;

    closed spec fn view(&self) -> Seq<(u8, PropertyValue)> {
        self.0@.map_values(|p: Property| p@)
    }
}

impl Default for Properties {
    /// An empty list.
    fn default() -> (r: Self)
        ensures
            r@ == Seq::<(u8, PropertyValue)>::empty(),
    {
        Self::new()
    }
}

/// The sum of the encoded lengths of the properties, with saturating additions.
pub open spec fn spec_payload_len(ps: Seq<(u8, PropertyValue)>) -> usize
    decreases ps.len(),
{
    if ps.len() == 0 {
        0
    } else {
        spec_payload_len(ps.drop_last()).saturating_add(spec_property_len(ps.last()))
    }
}

/// The encoded length of a property list, its length prefix included; `usize::MAX`
/// when the properties exceed the largest Variable Byte Integer.
pub open spec fn spec_properties_len(ps: Seq<(u8, PropertyValue)>) -> usize {
    let l = spec_payload_len(ps);
    if l > VBI_MAX {
        usize::MAX
    } else {
        (spec_vbi_len(l as nat) as usize).saturating_add(l)
    }
}

/// The wire forms of the properties, one after another.
pub open spec fn spec_properties_body(ps: Seq<(u8, PropertyValue)>) -> Seq<u8>
    decreases ps.len(),
{
    if ps.len() == 0 {
        Seq::empty()
    } else {
        spec_properties_body(ps.drop_last()) + spec_property_wire(ps.last())
    }
}

/// The wire form of a property list: the length of the properties, then the
/// properties.
pub open spec fn spec_properties_wire(ps: Seq<(u8, PropertyValue)>) -> Seq<u8> {
    spec_vbi_encode(spec_properties_body(ps).len()) + spec_properties_body(ps)
}

/// The error of the first property that cannot be written, if any.
pub open spec fn spec_first_property_error(ps: Seq<(u8, PropertyValue)>) -> Option<EncodeError>
    decreases ps.len(),
{
    if ps.len() == 0 {
        None
    } else {
        match spec_first_property_error(ps.drop_last()) {
            Some(e) => Some(e),
            None => match spec_value_check(ps.last().0, ps.last().1) {
                Err(e) => Some(e),
                Ok(()) => spec_content_error(ps.last().1),
            },
        }
    }
}

/// Whether the identifier `id` may occur only once in a list; User Property
/// may repeat, and so may Subscription Identifier when `allow_sub_id` is set
/// (in a PUBLISH).
pub open spec fn spec_counted(id: u8, allow_sub_id: bool) -> bool {
    id != 0x26 && !(allow_sub_id && id == 0x0B)
}

/// Whether an identifier that may occur only once occurs twice.
pub open spec fn spec_has_duplicate(ps: Seq<(u8, PropertyValue)>, allow_sub_id: bool) -> bool {
    exists|i: int, j: int|
        0 <= i < j < ps.len() && #[trigger] ps[i].0 == #[trigger] ps[j].0 && spec_counted(
            ps[i].0,
            allow_sub_id,
        )
}

/// Whether `ps` holds a property with identifier `id`.
pub open spec fn spec_has_identifier(ps: Seq<(u8, PropertyValue)>, id: u8) -> bool {
    exists|i: int| 0 <= i < ps.len() && #[trigger] ps[i].0 == id
}

/// A result of decoding the rest of a list, with `pre` decoded before it.
pub open spec fn spec_prepend(
    pre: Seq<(u8, PropertyValue)>,
    r: Result<Seq<(u8, PropertyValue)>, DecodeError>,
) -> Result<Seq<(u8, PropertyValue)>, DecodeError> {
    match r {
        Ok(ps) => Ok(pre + ps),
        Err(e) => Err(e),
    }
}

/// A decoded property takes at least a byte and never extends past its input.
pub proof fn lemma_property_decode_len(s: Seq<u8>)
    ensures
        spec_property_decode(s) matches Ok((p, n)) ==> 1 <= n <= s.len(),
{
    if let Ok((id, n)) = spec_vbi_decode(s) {
        lemma_vbi_decode_canonical(s);
        if id <= 0x2A {
            if let Some(k) = crate::v5::property::spec_kind(id as u8) {
                crate::v5::property::lemma_decode_value_len(k, s.skip(n as int));
            }
        }
    }
}

/// The properties that fill the bytes `region` exactly, decoded one after
/// another; a property cut short by the end of the region is malformed.
pub open spec fn spec_property_list(region: Seq<u8>) -> Result<Seq<(u8, PropertyValue)>, DecodeError>
    decreases region.len(),
{
    if region.len() == 0 {
        Ok(Seq::empty())
    } else {
        match spec_property_decode(region) {
            Err(DecodeError::InsufficientData) => Err(DecodeError::MalformedPacket),
            Err(e) => Err(e),
            Ok((p, n)) => {
                proof {
                    lemma_property_decode_len(region);
                }
                spec_prepend(seq![p], spec_property_list(region.skip(n as int)))
            },
        }
    }
}

/// The result of decoding a property list from the start of `s`: the length,
/// the properties that fill it, and the check for repeated identifiers.
/// Returns the properties and the number of bytes consumed. The input is the
/// rest of a frame, so a length or a property that runs past it is malformed.
pub open spec fn spec_properties_decode(s: Seq<u8>, allow_sub_id: bool) -> Result<
    (Seq<(u8, PropertyValue)>, nat),
    DecodeError,
> {
    match spec_vbi_decode(s) {
        Err(e) => Err(spec_malformed_if_insufficient(e)),
        Ok((len, n)) => if s.len() < n + len {
            Err(DecodeError::MalformedPacket)
        } else {
            match spec_property_list(s.subrange(n as int, n + len)) {
                Err(e) => Err(e),
                Ok(ps) => if spec_has_duplicate(ps, allow_sub_id) {
                    Err(DecodeError::MalformedPacket)
                } else {
                    Ok((ps, (n + len) as nat))
                },
            }
        },
    }
}

/// What [`Properties::encode`] returns: the total too large for the length
/// prefix, then a buffer shorter than the encoded length, then the first
/// property that cannot be written; otherwise the list's wire form is written
/// at the start of the buffer.
pub open spec fn spec_properties_encode_result(ps: Seq<(u8, PropertyValue)>, buf_len: nat) -> Result<
    usize,
    EncodeError,
> {
    if spec_payload_len(ps) > VBI_MAX {
        Err(EncodeError::PacketTooLarge { size: spec_payload_len(ps), limit: VBI_MAX as usize })
    } else if buf_len < spec_properties_len(ps) {
        Err(EncodeError::BufferTooSmall)
    } else {
        match spec_first_property_error(ps) {
            Some(e) => Err(e),
            None => Ok(spec_properties_wire(ps).len() as usize),
        }
    }
}

/// Without a failing property, the saturating sum of the lengths is the length
/// of the properties' wire forms (as long as it stays below the saturation).
proof fn lemma_payload_len(ps: Seq<(u8, PropertyValue)>)
    requires
        spec_first_property_error(ps) is None,
    ensures
        spec_payload_len(ps) == usize::MAX || spec_payload_len(ps) == spec_properties_body(ps).len(),
        spec_payload_len(ps) <= VBI_MAX ==> spec_payload_len(ps) == spec_properties_body(ps).len(),
    decreases ps.len(),
{
    if ps.len() > 0 {
        lemma_payload_len(ps.drop_last());
        lemma_property_len_matches(ps.last());
        lemma_payload_monotone(ps.drop_last(), ps.last());
    }
}

/// The saturating sum only grows.
proof fn lemma_payload_monotone(ps: Seq<(u8, PropertyValue)>, p: (u8, PropertyValue))
    ensures
        spec_payload_len(ps.push(p)) >= spec_payload_len(ps),
        spec_payload_len(ps.push(p)) >= spec_property_len(p),
{
    assert(ps.push(p).drop_last() =~= ps);
}

/// For properties that can all be written and whose total fits the length
/// prefix, the encoded length is the length of the wire form.
pub proof fn lemma_properties_len_matches(ps: Seq<(u8, PropertyValue)>)
    requires
        spec_first_property_error(ps) is None,
        spec_payload_len(ps) <= VBI_MAX,
    ensures
        spec_properties_len(ps) == spec_properties_wire(ps).len(),
        spec_properties_len(ps) <= VBI_MAX + 4,
{
    lemma_payload_len(ps);
    lemma_vbi_encode_len(spec_payload_len(ps) as nat);
}

/// The sums over longer prefixes are no smaller.
proof fn lemma_payload_prefix(ps: Seq<(u8, PropertyValue)>, i: int, j: int)
    requires
        0 <= i <= j <= ps.len(),
    ensures
        spec_payload_len(ps.take(i)) <= spec_payload_len(ps.take(j)),
    decreases j - i,
{
    if i < j {
        lemma_payload_prefix(ps, i, j - 1);
        assert(ps.take(j).drop_last() =~= ps.take(j - 1));
    }
}

/// Once a property of a prefix fails, its failure is the first of every longer
/// prefix.
proof fn lemma_first_error_sticks(ps: Seq<(u8, PropertyValue)>, i: int, j: int)
    requires
        0 <= i <= j <= ps.len(),
        spec_first_property_error(ps.take(i)) is Some,
    ensures
        spec_first_property_error(ps.take(j)) == spec_first_property_error(ps.take(i)),
    decreases j - i,
{
    if i < j {
        lemma_first_error_sticks(ps, i, j - 1);
        assert(ps.take(j).drop_last() =~= ps.take(j - 1));
    }
}

/// Decoding more of a list after `pre` and then `q` is decoding it after
/// `pre` followed by `q`.
proof fn lemma_prepend_push(
    pre: Seq<(u8, PropertyValue)>,
    q: (u8, PropertyValue),
    r: Result<Seq<(u8, PropertyValue)>, DecodeError>,
)
    ensures
        spec_prepend(pre, spec_prepend(seq![q], r)) == spec_prepend(pre.push(q), r),
{
    if let Ok(ps) = r {
        assert(pre + (seq![q] + ps) =~= pre.push(q) + ps);
    }
}

/// With no property failing, every property of the list can be written.
proof fn lemma_each_encodable(ps: Seq<(u8, PropertyValue)>)
    requires
        spec_first_property_error(ps) is None,
    ensures
        forall|i: int| 0 <= i < ps.len() ==> spec_property_encodable(#[trigger] ps[i]),
    decreases ps.len(),
{
    if ps.len() > 0 {
        lemma_each_encodable(ps.drop_last());
        assert forall|i: int| 0 <= i < ps.len() implies spec_property_encodable(#[trigger] ps[i]) by {
            if i < ps.len() - 1 {
                assert(ps[i] == ps.drop_last()[i]);
            }
        }
    }
}

/// The wire forms of a non-empty list start with that of its first property.
proof fn lemma_body_front(ps: Seq<(u8, PropertyValue)>)
    requires
        ps.len() > 0,
    ensures
        spec_properties_body(ps) == spec_property_wire(ps[0]) + spec_properties_body(ps.drop_first()),
    decreases ps.len(),
{
    if ps.len() == 1 {
        assert(ps.drop_first() =~= Seq::<(u8, PropertyValue)>::empty());
        let e = ps.drop_last();
        assert(e.len() == 0);
        assert(spec_properties_body(e) == Seq::<u8>::empty());
        assert(ps.last() == ps[0]);
        assert(spec_properties_body(ps) =~= Seq::<u8>::empty() + spec_property_wire(ps[0]));
        assert(Seq::<u8>::empty() + spec_property_wire(ps[0]) =~= spec_property_wire(ps[0]));
        assert(spec_property_wire(ps[0]) + Seq::<u8>::empty() =~= spec_property_wire(ps[0]));
    } else {
        let dl = ps.drop_last();
        let df = ps.drop_first();
        lemma_body_front(dl);
        assert(dl.drop_first() =~= df.drop_last());
        assert(df.last() == ps.last());
        assert(dl[0] == ps[0]);
        let a = spec_property_wire(ps[0]);
        let b = spec_properties_body(df.drop_last());
        let c = spec_property_wire(ps.last());
        assert((a + b) + c =~= a + (b + c));
    }
}

/// The wire forms of properties that can be written, each under an identifier
/// that names its value's kind, decode back to the properties.
proof fn lemma_list_of_body(ps: Seq<(u8, PropertyValue)>)
    requires
        forall|i: int| 0 <= i < ps.len() ==> spec_property_encodable(#[trigger] ps[i]),
        forall|i: int| 0 <= i < ps.len() ==> spec_kind(#[trigger] ps[i].0) == Some(spec_value_kind(ps[i].1)),
    ensures
        spec_property_list(spec_properties_body(ps)) == Ok::<Seq<(u8, PropertyValue)>, DecodeError>(ps),
    decreases ps.len(),
{
    if ps.len() == 0 {
        assert(spec_properties_body(ps).len() == 0);
        assert(ps =~= Seq::<(u8, PropertyValue)>::empty());
    } else {
        let p = ps[0];
        let tail = ps.drop_first();
        lemma_body_front(ps);
        assert forall|i: int| 0 <= i < tail.len() implies spec_property_encodable(#[trigger] tail[i]) by {
            assert(tail[i] == ps[i + 1]);
        }
        assert forall|i: int| 0 <= i < tail.len() implies spec_kind(#[trigger] tail[i].0) == Some(
            spec_value_kind(tail[i].1),
        ) by {
            assert(tail[i] == ps[i + 1]);
        }
        lemma_list_of_body(tail);
        let region = spec_properties_body(ps);
        lemma_property_wire_roundtrip(p, spec_properties_body(tail));
        let n = spec_property_wire(p).len();
        assert(region.skip(n as int) =~= spec_properties_body(tail));
        assert(region.len() > 0);
        assert(spec_property_decode(region) == Ok::<((u8, PropertyValue), nat), DecodeError>((p, n)));
        assert(spec_property_list(region) == spec_prepend(seq![p], spec_property_list(spec_properties_body(tail))));
        assert(seq![p] + tail =~= ps);
    }
}

/// Decoding the wire form of a list of properties that can all be written,
/// whose total fits the length prefix and in which no identifier that may
/// occur once occurs twice, followed by any bytes, gives the list back and
/// consumes exactly its wire form.
#[verifier::spinoff_prover]
pub proof fn lemma_properties_roundtrip(props: Properties, allow_sub_id: bool, rest: Seq<u8>)
    requires
        spec_first_property_error(props@) is None,
        spec_payload_len(props@) <= VBI_MAX,
        !spec_has_duplicate(props@, allow_sub_id),
    ensures
        spec_properties_decode(spec_properties_wire(props@) + rest, allow_sub_id) == Ok::<
            (Seq<(u8, PropertyValue)>, nat),
            DecodeError,
        >((props@, spec_properties_wire(props@).len())),
{
    let ps = props@;
    assert forall|i: int| 0 <= i < ps.len() implies spec_kind(#[trigger] ps[i].0) == Some(
        spec_value_kind(ps[i].1),
    ) by {
        lemma_property_kind(props.0@[i]);
    }
    lemma_each_encodable(ps);
    lemma_payload_len(ps);
    let body = spec_properties_body(ps);
    let len = body.len();
    let s = spec_properties_wire(ps) + rest;
    assert(s =~= spec_vbi_encode(len) + (body + rest));
    crate::codec::variable_byte_integer::lemma_vbi_roundtrip(len, body + rest);
    lemma_vbi_encode_len(len);
    let n = spec_vbi_len(len);
    assert(s.subrange(n as int, (n + len) as int) =~= body);
    lemma_list_of_body(ps);
}

/// Prepending nothing leaves a result as it is.
proof fn lemma_prepend_empty(r: Result<Seq<(u8, PropertyValue)>, DecodeError>)
    ensures
        spec_prepend(Seq::empty(), r) == r,
{
    if let Ok(ps) = r {
        assert(Seq::<(u8, PropertyValue)>::empty() + ps =~= ps);
    }
}

impl Properties {
    /// Creates an empty list.
    pub fn new() -> (r: Self)
        ensures
            r@ == Seq::<(u8, PropertyValue)>::empty(),
    {
        let r = Self(Vec::new());
        assert(r@ =~= Seq::<(u8, PropertyValue)>::empty());
        r
    }

    /// Appends a property.
    pub fn push(&mut self, property: Property)
        ensures
            final(self)@ == old(self)@.push(property@),
    {
        self.0.push(property);
        assert(self@ =~= old(self)@.push(property@));
    }

    /// Returns an iterator over the properties, in order.
    pub fn iter(&self) -> (r: std::slice::Iter<'_, Property>)
        ensures
            IteratorSpec::remaining(&r).map_values(|p: &Property| p@) == self@,
    {
        let s = self.0.as_slice();
        let r = s.iter();
        proof {
            axiom_spec_slice_iter(s);
            assert(IteratorSpec::remaining(&r).map_values(|p: &Property| p@) =~= self@);
        }
        r
    }

    /// Returns the properties as a slice.
    pub fn as_slice(&self) -> (r: &[Property])
        ensures
            r@.map_values(|p: Property| p@) == self@,
    {
        self.0.as_slice()
    }

    /// Returns whether a property with identifier `identifier` is present.
    pub fn has_identifier(&self, identifier: u8) -> (r: bool)
        ensures
            r == spec_has_identifier(self@, identifier),
    {
        let mut i: usize = 0;
        while i < self.0.len()
            invariant
                i <= self@.len(),
                self@.len() == self.0@.len(),
                forall|j: int| 0 <= j < i ==> #[trigger] self@[j].0 != identifier,
            decreases self@.len() - i,
        {
            if self.0[i].identifier() == identifier {
                assert(self@[i as int].0 == identifier);
                return true;
            }
            i = i + 1;
        }
        false
    }

    /// The sum of the encoded lengths of the properties (saturating).
    fn property_payload_len(&self) -> (r: usize)
        ensures
            r == spec_payload_len(self@),
    {
        let mut total: usize = 0;
        let mut i: usize = 0;
        while i < self.0.len()
            invariant
                i <= self@.len(),
                self@.len() == self.0@.len(),
                total == spec_payload_len(self@.take(i as int)),
            decreases self@.len() - i,
        {
            assert(self@.take(i + 1).drop_last() =~= self@.take(i as int));
            total = total.saturating_add(self.0[i].encoded_len());
            i = i + 1;
        }
        assert(self@.take(i as int) =~= self@);
        total
    }

    /// Returns the encoded length of the list, its length prefix included.
    pub fn encoded_len(&self) -> (r: usize)
        ensures
            r == spec_properties_len(self@),
    {
        let properties_len = self.property_payload_len();
        if properties_len > VariableByteInteger::MAX as usize {
            return usize::MAX;
        }
        let vbi_len = VariableByteInteger(properties_len as u32).encoded_len();
        vbi_len.saturating_add(properties_len)
    }

    /// Encodes the list into `buf` and returns the number of bytes written.
    ///
    /// After an error in a property, the bytes before it have been written.
    pub fn encode(&self, buf: &mut [u8]) -> (r: Result<usize, EncodeError>)
        ensures
            r == spec_properties_encode_result(self@, old(buf)@.len()),
            final(buf)@.len() == old(buf)@.len(),
            r is Ok ==> final(buf)@ == spec_splice(old(buf)@, 0, spec_properties_wire(self@)),
            spec_payload_len(self@) > VBI_MAX || old(buf)@.len() < spec_properties_len(self@)
                ==> final(buf)@ == old(buf)@,
    {
        let properties_len = self.property_payload_len();
        if properties_len > VariableByteInteger::MAX as usize {
            return Err(
                EncodeError::PacketTooLarge {
                    size: properties_len,
                    limit: VariableByteInteger::MAX as usize,
                },
            );
        }
        if buf.len() < self.encoded_len() {
            return Err(EncodeError::BufferTooSmall);
        }
        self.encode_at(buf, 0)
    }

    /// Writes the list at `pos`, where it fits.
    pub fn encode_at(&self, buf: &mut [u8], pos: usize) -> (r: Result<usize, EncodeError>)
        requires
            spec_payload_len(self@) <= VBI_MAX,
            pos + spec_properties_len(self@) <= old(buf)@.len(),
        ensures
            final(buf)@.len() == old(buf)@.len(),
            r == match spec_first_property_error(self@) {
                Some(e) => Err::<usize, EncodeError>(e),
                None => Ok(spec_properties_wire(self@).len() as usize),
            },
            r is Ok ==> final(buf)@ == spec_splice(old(buf)@, pos as int, spec_properties_wire(self@)),
    {
        let len = self.property_payload_len();
        proof {
            lemma_vbi_encode_len(len as nat);
        }
        let vbi_len = write_vbi_at(buf, pos, len as u32);
        let ghost start = buf@;
        let buf_len = buf.len();
        assert(pos + vbi_len <= buf_len);
        let mut offset = pos + vbi_len;
        let mut i: usize = 0;
        while i < self.0.len()
            invariant
                i <= self@.len(),
                self@.len() == self.0@.len(),
                len == spec_payload_len(self@),
                len <= VBI_MAX,
                pos + spec_properties_len(self@) <= buf@.len(),
                buf@.len() == old(buf)@.len(),
                buf_len == buf@.len(),
                start == spec_splice(old(buf)@, pos as int, spec_vbi_encode(len as nat)),
                vbi_len == spec_vbi_len(len as nat),
                spec_first_property_error(self@.take(i as int)) is None,
                offset == pos + vbi_len + spec_properties_body(self@.take(i as int)).len(),
                buf@ == spec_splice(start, (pos + vbi_len) as int, spec_properties_body(self@.take(i as int))),
            decreases self@.len() - i,
        {
            let ghost body = spec_properties_body(self@.take(i as int));
            proof {
                assert(self@.take(i + 1).drop_last() =~= self@.take(i as int));
                assert(self@.take(self@.len() as int) =~= self@);
                lemma_payload_prefix(self@, i + 1, self@.len() as int);
                lemma_payload_len(self@.take(i as int));
                lemma_vbi_encode_len(len as nat);
            }
            match self.0[i].write_at(buf, offset) {
                Err(e) => {
                    proof {
                        lemma_first_error_sticks(self@, i + 1, self@.len() as int);
                    }
                    return Err(e);
                },
                Ok(n) => {
                    proof {
                        lemma_property_len_matches(self@[i as int]);
                        lemma_splice_append(
                            start,
                            (pos + vbi_len) as int,
                            body,
                            spec_property_wire(self@[i as int]),
                        );
                    }
                    offset = offset + n;
                },
            }
            i = i + 1;
        }
        proof {
            assert(self@.take(i as int) =~= self@);
            lemma_payload_len(self@);
            lemma_vbi_encode_len(len as nat);
            lemma_splice_append(
                old(buf)@,
                pos as int,
                spec_vbi_encode(len as nat),
                spec_properties_body(self@),
            );
        }
        Ok(offset - pos)
    }
    /// Decodes a property list from the start of `buf`, which ends where the
    /// packet ends. Returns the properties and the number of bytes consumed.
    ///
    /// A length that runs past `buf`, a property cut short, or an identifier
    /// repeated where it may occur once only is malformed.
    pub fn decode(buf: &[u8]) -> (r: Result<(Self, usize), DecodeError>)
        ensures
            match r {
                Ok((p, n)) => spec_properties_decode(buf@, false) == Ok::<(Seq<(u8, PropertyValue)>, nat), DecodeError>((p@, n as nat)),
                Err(e) => spec_properties_decode(buf@, false) == Err::<(Seq<(u8, PropertyValue)>, nat), DecodeError>(e),
            },
    {
        Self::decode_with_options(buf, false)
    }

    /// Decodes the property list of a PUBLISH packet, in which Subscription
    /// Identifier may repeat; otherwise as [`Properties::decode`].
    pub fn decode_for_publish(buf: &[u8]) -> (r: Result<(Self, usize), DecodeError>)
        ensures
            match r {
                Ok((p, n)) => spec_properties_decode(buf@, true) == Ok::<(Seq<(u8, PropertyValue)>, nat), DecodeError>((p@, n as nat)),
                Err(e) => spec_properties_decode(buf@, true) == Err::<(Seq<(u8, PropertyValue)>, nat), DecodeError>(e),
            },
    {
        Self::decode_with_options(buf, true)
    }

    /// Decodes a property list; `allow_duplicate_subscription_id` lets
    /// Subscription Identifier repeat.
    pub fn decode_with_options(buf: &[u8], allow_duplicate_subscription_id: bool) -> (r: Result<(Self, usize), DecodeError>)
        ensures
            match r {
                Ok((p, n)) => spec_properties_decode(buf@, allow_duplicate_subscription_id) == Ok::<(Seq<(u8, PropertyValue)>, nat), DecodeError>((p@, n as nat)),
                Err(e) => spec_properties_decode(buf@, allow_duplicate_subscription_id) == Err::<(Seq<(u8, PropertyValue)>, nat), DecodeError>(e),
            },
    {
        let (len_field, vbi_len) = match VariableByteInteger::decode(buf) {
            Err(e) => {
                return Err(malformed_if_insufficient(e));
            },
            Ok(x) => x,
        };
        proof {
            lemma_vbi_decode_canonical(buf@);
        }
        let properties_len = len_field.0 as usize;
        let mut offset = vbi_len;
        let end = offset + properties_len;
        if buf.len() < end {
            return Err(DecodeError::MalformedPacket);
        }
        let ghost region = buf@.subrange(vbi_len as int, end as int);
        let mut properties: Vec<Property> = Vec::new();
        proof {
            lemma_prepend_empty(spec_property_list(region));
            assert(properties@.map_values(|p: Property| p@) =~= Seq::<(u8, PropertyValue)>::empty());
        }
        while offset < end
            invariant
                vbi_len <= offset <= end <= buf@.len(),
                spec_vbi_decode(buf@) == Ok::<(u32, nat), DecodeError>((len_field.0, vbi_len as nat)),
                end == vbi_len + len_field.0,
                region == buf@.subrange(vbi_len as int, end as int),
                spec_property_list(region) == spec_prepend(
                    properties@.map_values(|p: Property| p@),
                    spec_property_list(buf@.subrange(offset as int, end as int)),
                ),
            decreases end - offset,
        {
            let ghost rest = buf@.subrange(offset as int, end as int);
            let ghost before = properties@.map_values(|p: Property| p@);
            let (property, consumed) = match Property::decode(&buf[offset..end]) {
                Ok(x) => x,
                Err(DecodeError::InsufficientData) => {
                    proof {
                        assert(spec_property_list(rest) == Err::<Seq<(u8, PropertyValue)>, DecodeError>(DecodeError::MalformedPacket));
                    }
                    return Err(DecodeError::MalformedPacket);
                },
                Err(e) => {
                    proof {
                        assert(spec_property_list(rest) == Err::<Seq<(u8, PropertyValue)>, DecodeError>(e));
                    }
                    return Err(e);
                },
            };
            proof {
                lemma_property_decode_len(rest);
                assert(rest.skip(consumed as int) =~= buf@.subrange(offset + consumed, end as int));
                lemma_prepend_push(
                    before,
                    property@,
                    spec_property_list(rest.skip(consumed as int)),
                );
            }
            properties.push(property);
            proof {
                assert(properties@.map_values(|p: Property| p@) =~= before.push(property@));
            }
            offset = offset + consumed;
        }
        proof {
            assert(buf@.subrange(offset as int, end as int) =~= Seq::<u8>::empty());
            assert(properties@.map_values(|p: Property| p@) + Seq::<(u8, PropertyValue)>::empty()
                =~= properties@.map_values(|p: Property| p@));
        }
        let properties = Self(properties);
        match properties.validate_duplicate_identifiers(allow_duplicate_subscription_id) {
            Err(_) => Err(DecodeError::MalformedPacket),
            Ok(()) => Ok((properties, offset)),
        }
    }

    /// Checks that no identifier repeats but User Property, and Subscription
    /// Identifier when `allow_duplicate_subscription_id` is set.
    pub fn validate_duplicate_identifiers(&self, allow_duplicate_subscription_id: bool) -> (r: Result<(), EncodeError>)
        ensures
            r is Ok <==> !spec_has_duplicate(self@, allow_duplicate_subscription_id),
            r is Err ==> r == Err::<(), EncodeError>(
                EncodeError::InvalidField { reason: EncodeInvalidField::DuplicatePropertyIdentifier },
            ),
    {
        let allow = allow_duplicate_subscription_id;
        let mut seen: BTreeSet<u8> = BTreeSet::new();
        let mut i: usize = 0;
        while i < self.0.len()
            invariant
                i <= self@.len(),
                self@.len() == self.0@.len(),
                allow == allow_duplicate_subscription_id,
                forall|id: u8|
                    #[trigger] seen@.contains(id) <==> (spec_counted(id, allow) && spec_has_identifier(
                        self@.take(i as int),
                        id,
                    )),
                !spec_has_duplicate(self@.take(i as int), allow),
            decreases self@.len() - i,
        {
            let identifier = self.0[i].identifier();
            proof {
                assert(self@.take(i + 1).take(i as int) =~= self@.take(i as int));
                assert(self@.take(i + 1)[i as int] == self@[i as int]);
            }
            if identifier != 0x26 && !(allow && identifier == 0x0B) {
                let fresh = seen.insert(identifier);
                if !fresh {
                    proof {
                        assert(spec_has_identifier(self@.take(i as int), identifier));
                        let j = choose|j: int| 0 <= j < i && #[trigger] self@.take(i as int)[j].0 == identifier;
                        assert(self@[j].0 == self@[i as int].0);
                        assert(spec_counted(self@[j].0, allow));
                        assert(spec_has_duplicate(self@, allow));
                    }
                    return Err(
                        EncodeError::InvalidField {
                            reason: EncodeInvalidField::DuplicatePropertyIdentifier,
                        },
                    );
                }
            }
            proof {
                let next = self@.take(i + 1);
                assert forall|id: u8|
                    spec_has_identifier(next, id) <==> (spec_has_identifier(self@.take(i as int), id)
                        || id == identifier) by {
                    if spec_has_identifier(next, id) {
                        let j = choose|j: int| 0 <= j < next.len() && #[trigger] next[j].0 == id;
                        if j < i {
                            assert(self@.take(i as int)[j].0 == id);
                        }
                    }
                    if spec_has_identifier(self@.take(i as int), id) {
                        let j = choose|j: int| 0 <= j < i && #[trigger] self@.take(i as int)[j].0 == id;
                        assert(next[j].0 == id);
                    }
                    if id == identifier {
                        assert(next[i as int].0 == id);
                    }
                }
                if spec_has_duplicate(next, allow) {
                    let (a, b) = choose|a: int, b: int|
                        0 <= a < b < next.len() && #[trigger] next[a].0 == #[trigger] next[b].0
                            && spec_counted(next[a].0, allow);
                    if b < i {
                        assert(self@.take(i as int)[a].0 == self@.take(i as int)[b].0);
                    } else {
                        assert(self@.take(i as int)[a].0 == identifier);
                    }
                }
            }
            i = i + 1;
        }
        proof {
            assert(self@.take(i as int) =~= self@);
        }
        Ok(())
    }
}

} // verus!
