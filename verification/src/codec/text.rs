//! Values written as text: numbers for error messages, and the redacted
//! renderings of packets that hold secrets.

use vstd::prelude::*;
use vstd::string::StringExecFns;

use crate::codec::qos::QoS;

verus! {

/// The character of the decimal digit `d`.
pub open spec fn spec_digit(d: nat) -> char {
    ((d + 48) as u32) as char
}

/// The decimal digits of `n`, most significant first, without leading zeros.
pub open spec fn spec_decimal(n: nat) -> Seq<char>
    decreases n,
{
    if n < 10 {
        seq![spec_digit(n)]
    } else {
        spec_decimal(n / 10).push(spec_digit(n % 10))
    }
}

/// The character of the hexadecimal digit `d`, upper case.
pub open spec fn spec_hex_digit(d: nat) -> char {
    if d < 10 {
        spec_digit(d)
    } else {
        ((d + 55) as u32) as char
    }
}

/// The byte `b` in two upper-case hexadecimal digits.
pub open spec fn spec_hex2(b: u8) -> Seq<char> {
    seq![spec_hex_digit((b / 16) as nat), spec_hex_digit((b % 16) as nat)]
}

/// The text of one hexadecimal digit (a decimal one below 10).
fn hex_digit_text(d: u8) -> (r: &'static str)
    requires
        d < 16,
    ensures
        r@ == seq![spec_hex_digit(d as nat)],
{
    match d {
        0 => {
            proof { reveal_strlit("0"); }
            "0"
        },
        1 => {
            proof { reveal_strlit("1"); }
            "1"
        },
        2 => {
            proof { reveal_strlit("2"); }
            "2"
        },
        3 => {
            proof { reveal_strlit("3"); }
            "3"
        },
        4 => {
            proof { reveal_strlit("4"); }
            "4"
        },
        5 => {
            proof { reveal_strlit("5"); }
            "5"
        },
        6 => {
            proof { reveal_strlit("6"); }
            "6"
        },
        7 => {
            proof { reveal_strlit("7"); }
            "7"
        },
        8 => {
            proof { reveal_strlit("8"); }
            "8"
        },
        9 => {
            proof { reveal_strlit("9"); }
            "9"
        },
        10 => {
            proof { reveal_strlit("A"); }
            "A"
        },
        11 => {
            proof { reveal_strlit("B"); }
            "B"
        },
        12 => {
            proof { reveal_strlit("C"); }
            "C"
        },
        13 => {
            proof { reveal_strlit("D"); }
            "D"
        },
        14 => {
            proof { reveal_strlit("E"); }
            "E"
        },
        _ => {
            proof { reveal_strlit("F"); }
            "F"
        },
    }
}

/// Appends the decimal digits of `n` to `s`.
pub fn push_decimal(s: &mut String, n: u64)
    ensures
        final(s)@ == old(s)@ + spec_decimal(n as nat),
    decreases n,
{
    if n >= 10 {
        push_decimal(s, n / 10);
    }
    s.append(hex_digit_text((n % 10) as u8));
    proof {
        assert(old(s)@ + spec_decimal(n as nat) =~= s@);
    }
}

/// Appends `b` in two upper-case hexadecimal digits to `s`.
pub fn push_hex2(s: &mut String, b: u8)
    ensures
        final(s)@ == old(s)@ + spec_hex2(b),
{
    s.append(hex_digit_text(b / 16));
    s.append(hex_digit_text(b % 16));
    proof {
        assert(old(s)@ + spec_hex2(b) =~= s@);
    }
}

/// The parts one after another, with ", " between two of them.
pub open spec fn spec_join(parts: Seq<Seq<char>>) -> Seq<char>
    decreases parts.len(),
{
    if parts.len() == 0 {
        Seq::empty()
    } else if parts.len() == 1 {
        parts[0]
    } else {
        spec_join(parts.drop_last()) + ", "@ + parts.last()
    }
}

/// Bytes as std's `Debug` writes them: their decimal values in brackets.
pub open spec fn spec_bytes_text(b: Seq<u8>) -> Seq<char> {
    "["@ + spec_join(b.map_values(|x: u8| spec_decimal(x as nat))) + "]"@
}

/// A flag as std writes it.
pub open spec fn spec_bool_text(b: bool) -> Seq<char> {
    if b {
        "true"@
    } else {
        "false"@
    }
}

/// A QoS level as its `Debug` writes it: the name of its variant.
pub open spec fn spec_qos_text(q: QoS) -> Seq<char> {
    match q {
        QoS::AtMostOnce => "AtMostOnce"@,
        QoS::AtLeastOnce => "AtLeastOnce"@,
        QoS::ExactlyOnce => "ExactlyOnce"@,
    }
}

/// What std's `Debug` writes for the string `s`: it in double quotes, with
/// quotes, backslashes, control characters and characters that do not print
/// escaped.
pub uninterp spec fn spec_str_debug(s: Seq<char>) -> Seq<char>;

/// Formats `s` with `format!("{:?}", s)`.
///
/// Trusted: std's `Debug` for `str` depends on the string alone; what it
/// writes (the escaping rules) is named, not stated.
#[verifier::external_body]
fn str_debug(s: &str) -> (r: String)
    ensures
        r@ == spec_str_debug(s@),
{
    format!("{:?}", s)
}

/// Appends what std's `Debug` writes for `t` to `s`.
pub fn push_str_debug(s: &mut String, t: &str)
    ensures
        final(s)@ == old(s)@ + spec_str_debug(t@),
{
    let d = str_debug(t);
    s.append(d.as_str());
}

/// Appends a flag to `s`.
pub fn push_bool(s: &mut String, b: bool)
    ensures
        final(s)@ == old(s)@ + spec_bool_text(b),
{
    if b {
        s.append("true");
    } else {
        s.append("false");
    }
}

/// Appends a QoS level to `s`.
pub fn push_qos(s: &mut String, q: QoS)
    ensures
        final(s)@ == old(s)@ + spec_qos_text(q),
{
    match q {
        QoS::AtMostOnce => s.append("AtMostOnce"),
        QoS::AtLeastOnce => s.append("AtLeastOnce"),
        QoS::ExactlyOnce => s.append("ExactlyOnce"),
    }
}

/// Joining one more part.
pub proof fn lemma_join_push(parts: Seq<Seq<char>>, i: int)
    requires
        0 <= i < parts.len(),
    ensures
        spec_join(parts.take(i + 1)) == spec_join(parts.take(i)) + (if i == 0 {
            Seq::<char>::empty()
        } else {
            ", "@
        }) + parts[i],
{
    assert(parts.take(i + 1).drop_last() =~= parts.take(i));
    if i == 0 {
        assert(spec_join(parts.take(0)) =~= Seq::<char>::empty());
        assert(Seq::<char>::empty() + Seq::<char>::empty() + parts[0] =~= parts[0]);
    }
}

/// Appends bytes as std's `Debug` writes them to `s`.
pub fn push_bytes_text(s: &mut String, b: &[u8])
    ensures
        final(s)@ == old(s)@ + spec_bytes_text(b@),
{
    let ghost parts = b@.map_values(|x: u8| spec_decimal(x as nat));
    let ghost start = s@;
    s.append("[");
    let mut i: usize = 0;
    while i < b.len()
        invariant
            i <= b@.len(),
            parts == b@.map_values(|x: u8| spec_decimal(x as nat)),
            s@ == start + "["@ + spec_join(parts.take(i as int)),
        decreases b@.len() - i,
    {
        proof {
            lemma_join_push(parts, i as int);
        }
        if i > 0 {
            s.append(", ");
        }
        push_decimal(s, b[i] as u64);
        proof {
            assert(s@ =~= start + "["@ + spec_join(parts.take(i + 1)));
        }
        i = i + 1;
    }
    s.append("]");
    proof {
        assert(parts.take(i as int) =~= parts);
        assert(s@ =~= start + spec_bytes_text(b@));
    }
}

} // verus!
