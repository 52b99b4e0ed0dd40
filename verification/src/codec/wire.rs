//! Byte-level helpers shared by the packet codecs: big-endian integers, copies
//! into an output buffer, and the bridge to UTF-8 strings.

use vstd::prelude::*;
use vstd::utf8::{decode_utf8, valid_utf8};

verus! {

/// `prev` with the bytes from `pos` on replaced by `data`.
pub open spec fn spec_splice(prev: Seq<u8>, pos: int, data: Seq<u8>) -> Seq<u8> {
    prev.take(pos) + data + prev.skip(pos + data.len())
}

/// The two-byte big-endian encoding of `v`.
pub open spec fn spec_be16(v: u16) -> Seq<u8> {
    seq![(v / 256) as u8, (v % 256) as u8]
}

/// The four-byte big-endian encoding of `v`.
pub open spec fn spec_be32(v: u32) -> Seq<u8> {
    seq![(v / 16777216) as u8, ((v / 65536) % 256) as u8, ((v / 256) % 256) as u8, (v % 256) as u8]
}

/// The 16-bit big-endian value stored at `pos` in `s`.
pub open spec fn spec_read_be16(s: Seq<u8>, pos: int) -> u16 {
    (s[pos] * 256 + s[pos + 1]) as u16
}

/// The 32-bit big-endian value stored at `pos` in `s`.
pub open spec fn spec_read_be32(s: Seq<u8>, pos: int) -> u32 {
    (s[pos] * 16777216 + s[pos + 1] * 65536 + s[pos + 2] * 256 + s[pos + 3]) as u32
}

/// Writing `a` then `b` right after it is writing `a + b`.
pub proof fn lemma_splice_append(prev: Seq<u8>, pos: int, a: Seq<u8>, b: Seq<u8>)
    requires
        0 <= pos,
        pos + a.len() + b.len() <= prev.len(),
    ensures
        spec_splice(spec_splice(prev, pos, a), pos + a.len(), b) == spec_splice(prev, pos, a + b),
{
    assert(spec_splice(spec_splice(prev, pos, a), pos + a.len(), b) =~= spec_splice(
        prev,
        pos,
        a + b,
    ));
}

/// A splice keeps the length of the buffer.
pub proof fn lemma_splice_len(prev: Seq<u8>, pos: int, a: Seq<u8>)
    requires
        0 <= pos,
        pos + a.len() <= prev.len(),
    ensures
        spec_splice(prev, pos, a).len() == prev.len(),
        spec_splice(prev, pos, a).subrange(pos, pos + a.len()) == a,
{
    assert(spec_splice(prev, pos, a).subrange(pos, pos + a.len()) =~= a);
}

/// Reading back a 16-bit value gives the value written.
#[verifier::spinoff_prover]
pub proof fn lemma_be16_roundtrip(v: u16)
    ensures
        spec_read_be16(spec_be16(v), 0) == v,
{
}

/// A subrange of a subrange is a subrange.
pub proof fn lemma_subrange_in_subrange(s: Seq<u8>, i: int, j: int, k: int)
    requires
        0 <= i <= j <= s.len(),
        0 <= k <= j - i,
    ensures
        s.subrange(i + k, j) == s.subrange(i, j).subrange(k, j - i),
{
    assert(s.subrange(i + k, j) =~= s.subrange(i, j).subrange(k, j - i));
}

/// Skipping `a` in `a + b` leaves `b`.
pub proof fn lemma_skip_concat(a: Seq<u8>, b: Seq<u8>)
    ensures
        (a + b).skip(a.len() as int) == b,
{
    assert((a + b).skip(a.len() as int) =~= b);
}

/// Skipping twice is skipping the sum.
pub proof fn lemma_skip_skip(s: Seq<u8>, i: int, j: int)
    requires
        0 <= i,
        0 <= j,
        i + j <= s.len(),
    ensures
        s.skip(i).skip(j) == s.skip(i + j),
{
    assert(s.skip(i).skip(j) =~= s.skip(i + j));
}

/// What follows `a` in `a + b` is `b`.
pub proof fn lemma_concat_tail(a: Seq<u8>, b: Seq<u8>)
    ensures
        (a + b).subrange(a.len() as int, (a + b).len() as int) == b,
{
    assert((a + b).subrange(a.len() as int, (a + b).len() as int) =~= b);
}

/// Reading back a 32-bit value gives the value written.
#[verifier::spinoff_prover]
pub proof fn lemma_be32_roundtrip(v: u32)
    ensures
        spec_read_be32(spec_be32(v), 0) == v,
{
    let b = spec_be32(v);
    assert(b[0] * 16777216 + b[1] * 65536 + b[2] * 256 + b[3] == v) by (nonlinear_arith)
        requires
            b[0] == v / 16777216,
            b[1] == (v / 65536) % 256,
            b[2] == (v / 256) % 256,
            b[3] == v % 256,
            v <= 0xffff_ffff,
    ;
}

/// Writes `v` big-endian at `pos`.
pub fn write_be16_at(buf: &mut [u8], pos: usize, v: u16)
    requires
        pos + 2 <= old(buf)@.len(),
    ensures
        final(buf)@ == spec_splice(old(buf)@, pos as int, spec_be16(v)),
        final(buf)@.len() == old(buf)@.len(),
{
    buf[pos] = (v / 256) as u8;
    buf[pos + 1] = (v % 256) as u8;
    assert(buf@ =~= spec_splice(old(buf)@, pos as int, spec_be16(v)));
}

/// Writes `v` big-endian at `pos`.
pub fn write_be32_at(buf: &mut [u8], pos: usize, v: u32)
    requires
        pos + 4 <= old(buf)@.len(),
    ensures
        final(buf)@ == spec_splice(old(buf)@, pos as int, spec_be32(v)),
        final(buf)@.len() == old(buf)@.len(),
{
    buf[pos] = (v / 16777216) as u8;
    buf[pos + 1] = ((v / 65536) % 256) as u8;
    buf[pos + 2] = ((v / 256) % 256) as u8;
    buf[pos + 3] = (v % 256) as u8;
    assert(buf@ =~= spec_splice(old(buf)@, pos as int, spec_be32(v)));
}

/// Reads a big-endian 16-bit value at `pos`.
pub fn read_be16_at(buf: &[u8], pos: usize) -> (r: u16)
    requires
        pos + 2 <= buf@.len(),
    ensures
        r == spec_read_be16(buf@, pos as int),
{
    (buf[pos] as u16) * 256 + (buf[pos + 1] as u16)
}

/// Reads a big-endian 32-bit value at `pos`.
pub fn read_be32_at(buf: &[u8], pos: usize) -> (r: u32)
    requires
        pos + 4 <= buf@.len(),
    ensures
        r == spec_read_be32(buf@, pos as int),
{
    (buf[pos] as u32) * 16777216 + (buf[pos + 1] as u32) * 65536 + (buf[pos + 2] as u32) * 256 + (
    buf[pos + 3] as u32)
}

/// Copies `data` into `buf` at `pos`.
pub fn write_bytes_at(buf: &mut [u8], pos: usize, data: &[u8])
    requires
        pos + data@.len() <= old(buf)@.len(),
    ensures
        final(buf)@ == spec_splice(old(buf)@, pos as int, data@),
        final(buf)@.len() == old(buf)@.len(),
{
    let ghost orig = buf@;
    let mut i: usize = 0;
    while i < data.len()
        invariant
            i <= data@.len(),
            pos + data@.len() <= orig.len(),
            buf@.len() == orig.len(),
            pos + data@.len() <= buf.len(),
            buf@ == spec_splice(orig, pos as int, data@.take(i as int)),
        decreases data@.len() - i,
    {
        buf[pos + i] = data[i];
        i = i + 1;
        assert(buf@ =~= spec_splice(orig, pos as int, data@.take(i as int)));
    }
    assert(data@.take(i as int) =~= data@);
}

/// Copies `buf[start..end]` into a new vector.
pub fn copy_range(buf: &[u8], start: usize, end: usize) -> (r: Vec<u8>)
    requires
        start <= end <= buf@.len(),
    ensures
        r@ == buf@.subrange(start as int, end as int),
{
    let mut r: Vec<u8> = Vec::new();
    let mut i = start;
    while i < end
        invariant
            start <= i <= end,
            end <= buf@.len(),
            r@ == buf@.subrange(start as int, i as int),
        decreases end - i,
    {
        r.push(buf[i]);
        i = i + 1;
        assert(r@ =~= buf@.subrange(start as int, i as int));
    }
    r
}

/// Whether `s[start..end]` contains the byte `b`.
pub fn range_contains(s: &[u8], start: usize, end: usize, b: u8) -> (r: bool)
    requires
        start <= end <= s@.len(),
    ensures
        r == s@.subrange(start as int, end as int).contains(b),
{
    let mut i = start;
    while i < end
        invariant
            start <= i <= end,
            end <= s@.len(),
            !s@.subrange(start as int, i as int).contains(b),
        decreases end - i,
    {
        if s[i] == b {
            assert(s@.subrange(start as int, end as int)[i - start] == b);
            return true;
        }
        i = i + 1;
        assert forall|j: int| 0 <= j < i - start implies s@.subrange(start as int, i as int)[j]
            != b by {
            if j < i - 1 - start {
                assert(s@.subrange(start as int, i as int)[j] == s@.subrange(
                    start as int,
                    i - 1,
                )[j]);
            }
        }
    }
    false
}

/// Whether `s` contains the byte `b`.
pub fn bytes_contain(s: &[u8], b: u8) -> (r: bool)
    ensures
        r == s@.contains(b),
{
    let r = range_contains(s, 0, s.len(), b);
    assert(s@.subrange(0, s@.len() as int) =~= s@);
    r
}

/// Whether two byte slices are equal.
pub fn bytes_eq(a: &[u8], b: &[u8]) -> (r: bool)
    ensures
        r == (a@ == b@),
{
    if a.len() != b.len() {
        return false;
    }
    let mut i: usize = 0;
    while i < a.len()
        invariant
            a@.len() == b@.len(),
            i <= a@.len(),
            a@.take(i as int) == b@.take(i as int),
        decreases a@.len() - i,
    {
        if a[i] != b[i] {
            return false;
        }
        assert(a@.take(i + 1) =~= a@.take(i as int).push(a@[i as int]));
        assert(b@.take(i + 1) =~= b@.take(i as int).push(b@[i as int]));
        i = i + 1;
    }
    assert(a@ =~= a@.take(i as int));
    assert(b@ =~= b@.take(i as int));
    true
}

/// Whether `a` comes strictly before `b` in lexicographic byte order, the order
/// in which std compares strings.
pub open spec fn spec_bytes_lt(a: Seq<u8>, b: Seq<u8>) -> bool
    decreases a.len(),
{
    if a.len() == 0 {
        b.len() > 0
    } else if b.len() == 0 {
        false
    } else if a[0] != b[0] {
        a[0] < b[0]
    } else {
        spec_bytes_lt(a.drop_first(), b.drop_first())
    }
}

/// No sequence comes before itself in lexicographic byte order.
pub proof fn lemma_bytes_lt_irreflexive(a: Seq<u8>)
    ensures
        !spec_bytes_lt(a, a),
    decreases a.len(),
{
    if a.len() > 0 {
        lemma_bytes_lt_irreflexive(a.drop_first());
    }
}

/// Of two different sequences, one comes before the other.
pub proof fn lemma_bytes_lt_total(a: Seq<u8>, b: Seq<u8>)
    ensures
        a != b ==> spec_bytes_lt(a, b) || spec_bytes_lt(b, a),
    decreases a.len(),
{
    if a.len() > 0 && b.len() > 0 && a[0] == b[0] {
        lemma_bytes_lt_total(a.drop_first(), b.drop_first());
        if a.drop_first() == b.drop_first() {
            assert(a =~= seq![a[0]] + a.drop_first());
            assert(b =~= seq![b[0]] + b.drop_first());
        }
    }
    if a.len() == 0 && b.len() == 0 {
        assert(a =~= b);
    }
}

/// Lexicographic byte order is asymmetric.
pub proof fn lemma_bytes_lt_asymmetric(a: Seq<u8>, b: Seq<u8>)
    ensures
        spec_bytes_lt(a, b) ==> !spec_bytes_lt(b, a),
    decreases a.len(),
{
    if a.len() > 0 && b.len() > 0 {
        lemma_bytes_lt_asymmetric(a.drop_first(), b.drop_first());
    }
}

/// Lexicographic byte order is transitive.
pub proof fn lemma_bytes_lt_trans(a: Seq<u8>, b: Seq<u8>, c: Seq<u8>)
    ensures
        spec_bytes_lt(a, b) && spec_bytes_lt(b, c) ==> spec_bytes_lt(a, c),
    decreases a.len(),
{
    if a.len() > 0 && b.len() > 0 && c.len() > 0 {
        lemma_bytes_lt_trans(a.drop_first(), b.drop_first(), c.drop_first());
    }
}

/// Compares two byte slices in lexicographic order.
pub fn bytes_lt(a: &[u8], b: &[u8]) -> (r: bool)
    ensures
        r == spec_bytes_lt(a@, b@),
{
    let mut i: usize = 0;
    assert(a@.skip(0) =~= a@);
    assert(b@.skip(0) =~= b@);
    while i < a.len() && i < b.len()
        invariant
            i <= a@.len(),
            i <= b@.len(),
            spec_bytes_lt(a@, b@) == spec_bytes_lt(a@.skip(i as int), b@.skip(i as int)),
        decreases a@.len() - i,
    {
        if a[i] != b[i] {
            return a[i] < b[i];
        }
        assert(a@.skip(i as int).drop_first() =~= a@.skip(i + 1));
        assert(b@.skip(i as int).drop_first() =~= b@.skip(i + 1));
        i = i + 1;
    }
    i == a.len() && i < b.len()
}

/// Calls `String::from_utf8`, which takes ownership of the bytes and turns them
/// into a `String` exactly when they are valid UTF-8.
///
/// Trusted: the contract claims that std accepts exactly the byte sequences that
/// vstd's `valid_utf8` describes, and that the characters of the resulting
/// string are vstd's `decode_utf8` of the bytes.
#[verifier::external_body]
pub(crate) fn string_from_utf8(bytes: Vec<u8>) -> (r: Option<String>)
    ensures
        r is Some <==> valid_utf8(bytes@),
        r matches Some(s) ==> s@ == decode_utf8(bytes@),
{
    String::from_utf8(bytes).ok()
}

/// Calls `core::str::from_utf8` and reports whether it accepted the bytes.
///
/// Trusted: the contract claims that std accepts exactly the byte sequences that
/// vstd's `valid_utf8` describes.
#[verifier::external_body]
pub(crate) fn is_valid_utf8(bytes: &[u8]) -> (r: bool)
    ensures
        r == valid_utf8(bytes@),
{
    core::str::from_utf8(bytes).is_ok()
}

} // verus!
