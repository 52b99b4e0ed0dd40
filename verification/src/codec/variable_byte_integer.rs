//! Encoding and decoding of the MQTT Variable Byte Integer (MQTT v5.0 §1.5.5).

use vstd::prelude::*;

use crate::codec::wire::spec_splice;
use crate::error::{DecodeError, EncodeError};

verus! {

/// The largest value a Variable Byte Integer can represent.
pub const VBI_MAX: u32 = 268_435_455;

/// Number of bytes of the canonical encoding of `v`.
pub open spec fn spec_vbi_len(v: nat) -> nat {
    if v <= 127 {
        1
    } else if v <= 16_383 {
        2
    } else if v <= 2_097_151 {
        3
    } else {
        4
    }
}

/// The canonical base-128 encoding of `v`: seven bits per byte, least significant
/// group first, continuation bit (0x80) set on every byte but the last.
pub open spec fn spec_vbi_encode(v: nat) -> Seq<u8>
    decreases v,
{
    if v < 128 {
        seq![v as u8]
    } else {
        seq![(v % 128 + 128) as u8] + spec_vbi_encode(v / 128)
    }
}

/// The value of a sequence of base-128 digits, least significant first; the
/// continuation bit of each byte is ignored.
pub open spec fn spec_vbi_digits(s: Seq<u8>) -> nat
    decreases s.len(),
{
    if s.len() == 0 {
        0
    } else {
        (s[0] % 128) as nat + 128 * spec_vbi_digits(s.drop_first())
    }
}

/// The length of the Variable Byte Integer at the start of `s` as seen from
/// index `i`: the position after the first byte without continuation bit,
/// looking at no more than four bytes.
pub open spec fn spec_vbi_terminator(s: Seq<u8>, i: nat) -> Option<nat>
    decreases 4 - i,
{
    if i >= 4 || i >= s.len() {
        None
    } else if s[i as int] < 128 {
        Some(i + 1)
    } else {
        spec_vbi_terminator(s, i + 1)
    }
}

/// The result of decoding a Variable Byte Integer from the start of `s`: the value
/// and the number of bytes it occupies.
///
/// Four continuation bytes in a row are malformed; fewer than four continuation
/// bytes at the end of `s` call for more data; a value whose encoding is not the
/// shortest one is malformed (MQTT v5.0 §1.5.5 [MQTT-1.5.5-1]).
pub open spec fn spec_vbi_decode(s: Seq<u8>) -> Result<(u32, nat), DecodeError> {
    match spec_vbi_terminator(s, 0) {
        None => if s.len() < 4 {
            Err(DecodeError::InsufficientData)
        } else {
            Err(DecodeError::MalformedPacket)
        },
        Some(n) => {
            let v = spec_vbi_digits(s.take(n as int));
            if spec_vbi_len(v) == n {
                Ok((v as u32, n))
            } else {
                Err(DecodeError::MalformedPacket)
            }
        },
    }
}

/// The power `128^i`.
pub open spec fn pow128(i: nat) -> nat
    decreases i,
{
    if i == 0 {
        1
    } else {
        128 * pow128((i - 1) as nat)
    }
}

/// The length of the canonical encoding is the length the encoding function reports.
pub proof fn lemma_vbi_encode_len(v: nat)
    requires
        v <= VBI_MAX,
    ensures
        spec_vbi_encode(v).len() == spec_vbi_len(v),
        1 <= spec_vbi_len(v) <= 4,
    decreases v,
{
    if v >= 128 {
        lemma_vbi_encode_len(v / 128);
    }
}

/// Every byte but the last of the canonical encoding has the continuation bit set,
/// and its digits add up to the value.
pub proof fn lemma_vbi_encode_shape(v: nat)
    requires
        v <= VBI_MAX,
    ensures
        forall|j: int|
            0 <= j < spec_vbi_encode(v).len() - 1 ==> #[trigger] spec_vbi_encode(v)[j] >= 128,
        spec_vbi_encode(v)[spec_vbi_encode(v).len() - 1] < 128,
        spec_vbi_digits(spec_vbi_encode(v)) == v,
    decreases v,
{
    lemma_vbi_encode_len(v);
    if v >= 128 {
        lemma_vbi_encode_shape(v / 128);
        lemma_vbi_encode_len(v / 128);
        let e = spec_vbi_encode(v);
        let t = spec_vbi_encode(v / 128);
        assert(e.drop_first() =~= t);
        assert forall|j: int| 0 <= j < e.len() - 1 implies #[trigger] e[j] >= 128 by {
            if j > 0 {
                assert(e[j] == t[j - 1]);
            }
        }
        assert(e[e.len() - 1] == t[t.len() - 1]);
        assert(e[0] % 128 == v % 128);
        assert(v == v % 128 + 128 * (v / 128));
        assert(spec_vbi_digits(e) == (e[0] % 128) as nat + 128 * spec_vbi_digits(t));
    } else {
        let e = spec_vbi_encode(v);
        assert(e.drop_first() =~= Seq::<u8>::empty());
        assert(spec_vbi_digits(e.drop_first()) == 0);
        assert(spec_vbi_digits(e) == (e[0] % 128) as nat);
    }
}

/// The digits of a prefix grow by one digit at a time.
pub proof fn lemma_vbi_digits_push(s: Seq<u8>, i: nat)
    requires
        i < s.len(),
    ensures
        spec_vbi_digits(s.take(i as int + 1)) == spec_vbi_digits(s.take(i as int)) + (s[i as int]
            % 128) as nat * pow128(i),
    decreases i,
{
    if i == 0 {
        assert(s.take(1).drop_first() =~= Seq::<u8>::empty());
        assert(s.take(0) =~= Seq::<u8>::empty());
        assert(spec_vbi_digits(s.take(1).drop_first()) == 0);
        assert(spec_vbi_digits(s.take(0)) == 0);
        assert(spec_vbi_digits(s.take(1)) == (s.take(1)[0] % 128) as nat);
        assert(pow128(0) == 1);
    } else {
        let t = s.drop_first();
        lemma_vbi_digits_push(t, (i - 1) as nat);
        assert(s.take(i as int + 1).drop_first() =~= t.take(i as int));
        assert(s.take(i as int).drop_first() =~= t.take(i - 1));
        assert(t[i - 1] == s[i as int]);
        assert(pow128(i) == 128 * pow128((i - 1) as nat));
        assert(s.take(i as int + 1)[0] == s[0]);
        assert(s.take(i as int)[0] == s[0]);
        assert(spec_vbi_digits(s.take(i as int + 1)) == (s[0] % 128) as nat + 128 * spec_vbi_digits(t.take(i as int)));
        assert(spec_vbi_digits(s.take(i as int)) == (s[0] % 128) as nat + 128 * spec_vbi_digits(t.take(i - 1)));
        assert(128 * ((t[i - 1] % 128) as nat * pow128((i - 1) as nat)) == (s[i as int]
            % 128) as nat * pow128(i)) by (nonlinear_arith)
            requires
                t[i - 1] == s[i as int],
                pow128(i) == 128 * pow128((i - 1) as nat),
        ;
    }
}

/// Decoding the canonical encoding, followed by anything, gives back the value
/// and the length of the encoding.
#[verifier::spinoff_prover]
pub proof fn lemma_vbi_roundtrip(v: nat, rest: Seq<u8>)
    requires
        v <= VBI_MAX,
    ensures
        spec_vbi_decode(spec_vbi_encode(v) + rest) == Ok::<(u32, nat), DecodeError>(
            (v as u32, spec_vbi_len(v)),
        ),
{
    lemma_vbi_encode_len(v);
    lemma_vbi_encode_shape(v);
    let e = spec_vbi_encode(v);
    let s = e + rest;
    let n = spec_vbi_len(v);
    lemma_vbi_terminator_at(s, 0, n);
    assert(s.take(n as int) =~= e);
}

/// The terminator search finds the first byte without continuation bit.
proof fn lemma_vbi_terminator_at(s: Seq<u8>, i: nat, n: nat)
    requires
        i < n <= 4,
        n <= s.len(),
        forall|j: int| i <= j < n - 1 ==> #[trigger] s[j] >= 128,
        s[n - 1] < 128,
    ensures
        spec_vbi_terminator(s, i) == Some(n),
    decreases n - i,
{
    if i + 1 < n {
        assert(s[i as int] >= 128);
        lemma_vbi_terminator_at(s, i + 1, n);
    }
}

/// A successful decode covers exactly the canonical encoding of the value it returns.
pub proof fn lemma_vbi_decode_canonical(s: Seq<u8>)
    requires
        spec_vbi_decode(s) is Ok,
    ensures
        ({
            let (v, n) = spec_vbi_decode(s)->Ok_0;
            &&& v <= VBI_MAX
            &&& n == spec_vbi_len(v as nat)
            &&& n <= s.len()
            &&& s.take(n as int) == spec_vbi_encode(v as nat)
        }),
{
    let n = spec_vbi_terminator(s, 0)->Some_0;
    lemma_vbi_terminator_props(s, 0);
    let v = spec_vbi_digits(s.take(n as int));
    assert(spec_vbi_len(v) == n);
    // The digits of n bytes stay below 128^n.
    lemma_vbi_digits_bound(s.take(n as int));
    assert(s.take(n as int).len() == n);
    reveal_with_fuel(pow128, 5);
    assert(v <= VBI_MAX);
    lemma_vbi_encode_len(v);
    lemma_vbi_encode_shape(v);
    // Both sequences are digit strings of v of the same length with the same
    // continuation bits, so they are equal.
    lemma_vbi_digits_unique(s.take(n as int), spec_vbi_encode(v));
}

/// A Variable Byte Integer that decodes from `s` decodes the same from `s`
/// followed by any bytes.
pub proof fn lemma_vbi_decode_prefix(s: Seq<u8>, t: Seq<u8>)
    requires
        spec_vbi_decode(s) is Ok,
    ensures
        spec_vbi_decode(s + t) == spec_vbi_decode(s),
{
    let n = spec_vbi_terminator(s, 0)->Some_0;
    lemma_vbi_terminator_props(s, 0);
    let u = s + t;
    assert forall|j: int| 0 <= j < n - 1 implies #[trigger] u[j] >= 128 by {
        assert(u[j] == s[j]);
    }
    assert(u[n - 1] == s[n - 1]);
    lemma_vbi_terminator_at(u, 0, n);
    assert(u.take(n as int) =~= s.take(n as int));
}

/// What the terminator search returns.
/// Cutting bytes off behind a Variable Byte Integer changes nothing of it;
/// cutting into it leaves one whose end has not arrived yet.
pub proof fn lemma_vbi_decode_take(u: Seq<u8>, k: nat)
    requires
        spec_vbi_decode(u) is Ok,
        k <= u.len(),
    ensures
        spec_vbi_decode(u)->Ok_0.1 <= k ==> spec_vbi_decode(u.take(k as int)) == spec_vbi_decode(u),
        k < spec_vbi_decode(u)->Ok_0.1 ==> spec_vbi_decode(u.take(k as int)) == Err::<(u32, nat), DecodeError>(
            DecodeError::InsufficientData,
        ),
{
    let n = spec_vbi_terminator(u, 0)->Some_0;
    lemma_vbi_terminator_props(u, 0);
    let s = u.take(k as int);
    if n <= k {
        assert forall|j: int| 0 <= j < n - 1 implies #[trigger] s[j] >= 128 by {
            assert(s[j] == u[j]);
        }
        assert(s[n - 1] == u[n - 1]);
        lemma_vbi_terminator_at(s, 0, n);
        assert(s.take(n as int) =~= u.take(n as int));
    } else {
        lemma_vbi_terminator_none(s, 0);
    }
}

/// Without a byte below 128 from position `i` on, in at most four bytes, no
/// Variable Byte Integer ends.
proof fn lemma_vbi_terminator_none(s: Seq<u8>, i: nat)
    requires
        s.len() < 4,
        forall|j: int| i <= j < s.len() ==> #[trigger] s[j] >= 128,
    ensures
        spec_vbi_terminator(s, i) is None,
    decreases 4 - i,
{
    if i < 4 && i < s.len() {
        lemma_vbi_terminator_none(s, i + 1);
    }
}

proof fn lemma_vbi_terminator_props(s: Seq<u8>, i: nat)
    requires
        spec_vbi_terminator(s, i) is Some,
    ensures
        ({
            let n = spec_vbi_terminator(s, i)->Some_0;
            &&& i < n <= 4
            &&& n <= s.len()
            &&& forall|j: int| i <= j < n - 1 ==> #[trigger] s[j] >= 128
            &&& s[n - 1] < 128
        }),
    decreases 4 - i,
{
    if i < 4 && i < s.len() && s[i as int] >= 128 {
        lemma_vbi_terminator_props(s, i + 1);
    }
}

/// The digits of `s` are below `128^len`.
proof fn lemma_vbi_digits_bound(s: Seq<u8>)
    ensures
        spec_vbi_digits(s) < pow128(s.len()),
    decreases s.len(),
{
    if s.len() > 0 {
        lemma_vbi_digits_bound(s.drop_first());
        let d = spec_vbi_digits(s.drop_first());
        let p = pow128(s.drop_first().len());
        assert(pow128(s.len()) == 128 * p);
        assert((s[0] % 128) as nat + 128 * d < 128 * p) by (nonlinear_arith)
            requires
                d < p,
                (s[0] % 128) < 128,
        ;
    }
}

/// Two digit strings of the same length, with continuation bits on all bytes but
/// the last and the same value, are equal.
proof fn lemma_vbi_digits_unique(a: Seq<u8>, b: Seq<u8>)
    requires
        a.len() == b.len(),
        a.len() >= 1,
        forall|j: int| 0 <= j < a.len() - 1 ==> #[trigger] a[j] >= 128,
        forall|j: int| 0 <= j < b.len() - 1 ==> #[trigger] b[j] >= 128,
        a[a.len() - 1] < 128,
        b[b.len() - 1] < 128,
        spec_vbi_digits(a) == spec_vbi_digits(b),
    ensures
        a == b,
    decreases a.len(),
{
    let da = spec_vbi_digits(a.drop_first());
    let db = spec_vbi_digits(b.drop_first());
    let x = (a[0] % 128) as nat;
    let y = (b[0] % 128) as nat;
    assert(x + 128 * da == y + 128 * db);
    assert(x == y && da == db) by (nonlinear_arith)
        requires
            x + 128 * da == y + 128 * db,
            x < 128,
            y < 128,
    ;
    if a.len() == 1 {
        assert(a[0] < 128 && b[0] < 128);
        assert(a =~= b);
    } else {
        assert(a[0] >= 128 && b[0] >= 128);
        lemma_vbi_digits_unique(a.drop_first(), b.drop_first());
        assert(a[0] == b[0]);
        assert(a =~= b) by {
            assert forall|j: int| 0 <= j < a.len() implies a[j] == b[j] by {
                if j > 0 {
                    assert(a[j] == a.drop_first()[j - 1]);
                    assert(b[j] == b.drop_first()[j - 1]);
                }
            }
        }
    }
}

/// An MQTT Variable Byte Integer.
///
/// Encoded base-128 with a continuation bit; the largest value is 268,435,455.
#[derive(Debug, Clone, Copy, PartialEq, Eq, PartialOrd, Ord, Hash)]
pub struct VariableByteInteger(pub u32);

impl VariableByteInteger {
    /// The largest value a Variable Byte Integer can represent.
    pub const MAX: u32 = 268_435_455;

    /// Returns the length of the encoding in bytes.
    pub fn encoded_len(&self) -> (r: usize)
        ensures
            r == spec_vbi_len(self.0 as nat),
    {
        if self.0 <= 127 {
            1
        } else if self.0 <= 16_383 {
            2
        } else if self.0 <= 2_097_151 {
            3
        } else {
            4
        }
    }

    /// Encodes the value into `buf` and returns the number of bytes written.
    ///
    /// When `buf` is too short, the bytes that fit have been written before the
    /// error is reported.
    pub fn encode(&self, buf: &mut [u8]) -> (r: Result<usize, EncodeError>)
        ensures
            final(buf)@.len() == old(buf)@.len(),
            self.0 > VBI_MAX ==> r == Err::<usize, EncodeError>(
                EncodeError::PacketTooLarge { size: self.0 as usize, limit: VBI_MAX as usize },
            ) && final(buf)@ == old(buf)@,
            self.0 <= VBI_MAX && old(buf)@.len() < spec_vbi_len(self.0 as nat) ==> r == Err::<
                usize,
                EncodeError,
            >(EncodeError::BufferTooSmall) && final(buf)@ == spec_vbi_encode(self.0 as nat).take(
                old(buf)@.len() as int,
            ),
            self.0 <= VBI_MAX && old(buf)@.len() >= spec_vbi_len(self.0 as nat) ==> r == Ok::<
                usize,
                EncodeError,
            >(spec_vbi_len(self.0 as nat) as usize) && final(buf)@ == spec_splice(
                old(buf)@,
                0,
                spec_vbi_encode(self.0 as nat),
            ),
    {
        if self.0 > Self::MAX {
            return Err(
                EncodeError::PacketTooLarge { size: self.0 as usize, limit: Self::MAX as usize },
            );
        }
        proof {
            lemma_vbi_encode_len(self.0 as nat);
        }
        let ghost full = spec_vbi_encode(self.0 as nat);
        let ghost orig = buf@;
        let mut value = self.0;
        let mut i: usize = 0;
        loop
            invariant
                buf@.len() == orig.len(),
                orig == old(buf)@,
                full == spec_vbi_encode(self.0 as nat),
                full.len() == spec_vbi_len(self.0 as nat),
                self.0 <= VBI_MAX,
                value <= VBI_MAX,
                i <= buf@.len(),
                i < full.len(),
                full == buf@.take(i as int) + spec_vbi_encode(value as nat),
                buf@.skip(i as int) == orig.skip(i as int),
            decreases full.len() - i,
        {
            proof {
                lemma_vbi_encode_len(value as nat);
            }
            if i >= buf.len() {
                proof {
                    assert(buf@ =~= buf@.take(i as int));
                    assert(full.take(i as int) =~= buf@.take(i as int));
                }
                return Err(EncodeError::BufferTooSmall);
            }
            let mut byte = (value % 128) as u8;
            let next = value / 128;
            if next > 0 {
                byte = byte + 128;
            }
            let ghost prev = buf@;
            buf[i] = byte;
            proof {
                assert(buf@.take(i as int + 1) =~= prev.take(i as int).push(byte));
                assert(buf@.skip(i as int + 1) =~= orig.skip(i as int + 1)) by {
                    assert(prev.skip(i as int).skip(1) =~= prev.skip(i as int + 1));
                    assert(orig.skip(i as int).skip(1) =~= orig.skip(i as int + 1));
                }
                if value >= 128 {
                    assert(spec_vbi_encode(value as nat) == seq![byte] + spec_vbi_encode(
                        next as nat,
                    ));
                } else {
                    assert(spec_vbi_encode(value as nat) == seq![byte]);
                }
            }
            i = i + 1;
            value = next;
            if value == 0 {
                proof {
                    assert(full =~= buf@.take(i as int));
                    assert(buf@ =~= spec_splice(orig, 0, full)) by {
                        assert(buf@ =~= buf@.take(i as int) + buf@.skip(i as int));
                    }
                }
                return Ok(i);
            }
            proof {
                assert(full =~= buf@.take(i as int) + spec_vbi_encode(value as nat));
            }
        }
    }

    /// Decodes a Variable Byte Integer from the start of `buf`.
    ///
    /// Returns the value and the number of bytes it occupies.
    pub fn decode(buf: &[u8]) -> (r: Result<(Self, usize), DecodeError>)
        ensures
            r matches Ok((v, n)) ==> spec_vbi_decode(buf@) == Ok::<(u32, nat), DecodeError>(
                (v.0, n as nat),
            ),
            r matches Err(e) ==> spec_vbi_decode(buf@) == Err::<(u32, nat), DecodeError>(e),
    {
        let mut value: u32 = 0;
        let mut i: usize = 0;
        loop
            invariant
                i <= 4,
                i <= buf@.len(),
                value == spec_vbi_digits(buf@.take(i as int)),
                value < pow128(i as nat),
                forall|j: int| 0 <= j < i ==> #[trigger] buf@[j] >= 128,
                spec_vbi_terminator(buf@, 0) == spec_vbi_terminator(buf@, i as nat),
            decreases 4 - i,
        {
            if i >= 4 {
                return Err(DecodeError::MalformedPacket);
            }
            if i >= buf.len() {
                return Err(DecodeError::InsufficientData);
            }
            let byte = buf[i];
            let multiplier: u32 = if i == 0 {
                1
            } else if i == 1 {
                128
            } else if i == 2 {
                16384
            } else {
                2097152
            };
            proof {
                reveal_with_fuel(pow128, 5);
                lemma_vbi_digits_push(buf@, i as nat);
                assert((byte % 128) as nat * multiplier + value < pow128(i as nat + 1))
                    by (nonlinear_arith)
                    requires
                        value < multiplier,
                        multiplier == pow128(i as nat),
                        pow128(i as nat + 1) == 128 * pow128(i as nat),
                        byte % 128 < 128,
                ;
            }
            value = value + ((byte % 128) as u32) * multiplier;
            i = i + 1;
            if byte < 128 {
                proof {
                    lemma_vbi_terminator_at(buf@, 0, i as nat);
                }
                if value > Self::MAX {
                    return Err(DecodeError::MalformedPacket);
                }
                let expected_len = Self(value).encoded_len();
                if i != expected_len {
                    return Err(DecodeError::MalformedPacket);
                }
                return Ok((Self(value), i));
            }
            proof {
                assert(spec_vbi_terminator(buf@, (i - 1) as nat) == spec_vbi_terminator(buf@, i as nat));
            }
        }
    }
}

/// Writes the encoding of `v` at `pos` and returns its length.
pub fn write_vbi_at(buf: &mut [u8], pos: usize, v: u32) -> (n: usize)
    requires
        v <= VBI_MAX,
        pos + spec_vbi_len(v as nat) <= old(buf)@.len(),
    ensures
        n == spec_vbi_len(v as nat),
        final(buf)@ == spec_splice(old(buf)@, pos as int, spec_vbi_encode(v as nat)),
        final(buf)@.len() == old(buf)@.len(),
{
    let mut tmp = [0u8; 4];
    proof {
        lemma_vbi_encode_len(v as nat);
    }
    let n = match VariableByteInteger(v).encode(&mut tmp) {
        Ok(n) => n,
        Err(_) => {
            assert(false);
            0
        },
    };
    let bytes = &tmp[0..n];
    assert(bytes@ =~= spec_vbi_encode(v as nat));
    crate::codec::wire::write_bytes_at(buf, pos, bytes);
    n
}

} // verus!
