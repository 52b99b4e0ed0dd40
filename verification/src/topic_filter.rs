//! Syntax checks for MQTT Topic Filters.
//!
//! The checks run on the UTF-8 bytes of a filter. The three characters that the
//! rules speak of, `/`, `+` and `#`, are ASCII, and in UTF-8 an ASCII byte never
//! occurs inside the encoding of another character, so a byte-level check and a
//! character-level check agree.

use vstd::prelude::*;

use crate::codec::utf8_string::spec_utf8;

verus! {

/// The byte of `/`, the topic level separator.
pub const LEVEL_SEPARATOR: u8 = 47;

/// The byte of `+`, the single-level wildcard.
pub const SINGLE_LEVEL_WILDCARD: u8 = 43;

/// The byte of `#`, the multi-level wildcard.
pub const MULTI_LEVEL_WILDCARD: u8 = 35;

/// Whether the byte at `i` starts a topic level (it is first, or follows a `/`).
pub open spec fn spec_starts_level(s: Seq<u8>, i: int) -> bool {
    i == 0 || s[i - 1] == LEVEL_SEPARATOR
}

/// Whether the byte at `i` ends a topic level (it is last, or a `/` follows it).
pub open spec fn spec_ends_level(s: Seq<u8>, i: int) -> bool {
    i + 1 == s.len() || s[i + 1] == LEVEL_SEPARATOR
}

/// Whether the wildcard rules hold at byte `i` of `s`: a `+` fills a whole
/// level, and a `#` fills a whole level that is the last one.
pub open spec fn spec_wildcard_ok_at(s: Seq<u8>, i: int) -> bool {
    &&& s[i] == SINGLE_LEVEL_WILDCARD ==> spec_starts_level(s, i) && spec_ends_level(s, i)
    &&& s[i] == MULTI_LEVEL_WILDCARD ==> spec_starts_level(s, i) && i + 1 == s.len()
}

/// Whether the bytes `s` form a syntactically valid Topic Filter
/// (MQTT v5.0 §4.7.1, MQTT v3.1.1 §4.7.1): it is not empty, `+` only ever stands
/// as a whole level, and `#` only ever stands as the whole last level. Empty
/// levels are allowed.
pub open spec fn spec_topic_filter_bytes_valid(s: Seq<u8>) -> bool {
    s.len() > 0 && forall|i: int| 0 <= i < s.len() ==> #[trigger] spec_wildcard_ok_at(s, i)
}

/// Whether the string `f` is a syntactically valid Topic Filter.
pub open spec fn spec_topic_filter_valid(f: Seq<char>) -> bool {
    spec_topic_filter_bytes_valid(spec_utf8(f))
}

/// The bytes of `$share/`, the prefix of a shared subscription.
pub open spec fn spec_share_prefix() -> Seq<u8> {
    seq![36u8, 115u8, 104u8, 97u8, 114u8, 101u8, 47u8]
}

/// Whether `s` starts with `$share/`.
pub open spec fn spec_has_share_prefix(s: Seq<u8>) -> bool {
    s.len() >= 7 && s.take(7) == spec_share_prefix()
}

/// Whether `p` is the position of the first `/` in `s`.
pub open spec fn spec_first_separator(s: Seq<u8>, p: int) -> bool {
    0 <= p < s.len() && s[p] == LEVEL_SEPARATOR && forall|j: int|
        0 <= j < p ==> #[trigger] s[j] != LEVEL_SEPARATOR
}

/// Whether the shared subscription body `rest` (what follows `$share/`) is valid
/// when its first `/` is at `p`: the ShareName before it is not empty and holds
/// no wildcard, and the filter after it is a valid Topic Filter
/// (MQTT v5.0 §4.8.2).
pub open spec fn spec_shared_body_valid_at(rest: Seq<u8>, p: int) -> bool {
    &&& p > 0
    &&& !rest.take(p).contains(SINGLE_LEVEL_WILDCARD)
    &&& !rest.take(p).contains(MULTI_LEVEL_WILDCARD)
    &&& spec_topic_filter_bytes_valid(rest.skip(p + 1))
}

/// Whether the bytes `s` form a valid MQTT v5.0 Topic Filter: either a shared
/// subscription `$share/{ShareName}/{filter}`, split at the first `/` after the
/// prefix, or a plain Topic Filter.
pub open spec fn spec_v5_topic_filter_bytes_valid(s: Seq<u8>) -> bool {
    if spec_has_share_prefix(s) {
        let rest = s.skip(7);
        exists|p: int| #[trigger]
            spec_first_separator(rest, p) && spec_shared_body_valid_at(rest, p)
    } else {
        spec_topic_filter_bytes_valid(s)
    }
}

/// Whether the string `f` is a valid MQTT v5.0 Topic Filter.
pub open spec fn spec_v5_topic_filter_valid(f: Seq<char>) -> bool {
    spec_v5_topic_filter_bytes_valid(spec_utf8(f))
}

/// Checks the Topic Filter syntax of `b[start..end]`.
pub fn topic_filter_range_valid(b: &[u8], start: usize, end: usize) -> (r: bool)
    requires
        start <= end <= b@.len(),
    ensures
        r == spec_topic_filter_bytes_valid(b@.subrange(start as int, end as int)),
{
    let ghost s = b@.subrange(start as int, end as int);
    if start == end {
        return false;
    }
    let mut i = start;
    while i < end
        invariant
            start <= i <= end,
            end <= b@.len(),
            s == b@.subrange(start as int, end as int),
            forall|k: int| 0 <= k < i - start ==> #[trigger] spec_wildcard_ok_at(s, k),
        decreases end - i,
    {
        let c = b[i];
        let first = i == start || b[i - 1] == LEVEL_SEPARATOR;
        let last_byte = i + 1 == end;
        let before_sep = !last_byte && b[i + 1] == LEVEL_SEPARATOR;
        assert(first == spec_starts_level(s, i - start));
        assert(last_byte || before_sep <==> spec_ends_level(s, i - start));
        if c == SINGLE_LEVEL_WILDCARD && !(first && (last_byte || before_sep)) {
            assert(!spec_wildcard_ok_at(s, i - start));
            return false;
        }
        if c == MULTI_LEVEL_WILDCARD && !(first && last_byte) {
            assert(!spec_wildcard_ok_at(s, i - start));
            return false;
        }
        assert(spec_wildcard_ok_at(s, i - start));
        i = i + 1;
    }
    true
}

/// Checks the Topic Filter syntax of `filter` (MQTT v5.0 §4.7.1
/// [MQTT-4.7.1-1][MQTT-4.7.1-2], MQTT v3.1.1 §4.7.1 [MQTT-4.7.1-2][MQTT-4.7.1-3]).
///
/// `#` is allowed only alone as the last level, and `+` only alone as a whole level.
pub fn is_valid_topic_filter(filter: &str) -> (r: bool)
    ensures
        r == spec_topic_filter_valid(filter@),
{
    let b = filter.as_bytes();
    let r = topic_filter_range_valid(b, 0, b.len());
    assert(b@.subrange(0, b@.len() as int) =~= b@);
    r
}

/// Finds the first `/` in `b[start..end]`, if any, as an index into `b`.
fn find_separator(b: &[u8], start: usize, end: usize) -> (r: Option<usize>)
    requires
        start <= end <= b@.len(),
    ensures
        r matches Some(p) ==> start <= p < end && spec_first_separator(
            b@.subrange(start as int, end as int),
            p - start,
        ),
        r is None ==> !b@.subrange(start as int, end as int).contains(LEVEL_SEPARATOR),
{
    let ghost s = b@.subrange(start as int, end as int);
    let mut i = start;
    while i < end
        invariant
            start <= i <= end,
            end <= b@.len(),
            s == b@.subrange(start as int, end as int),
            forall|j: int| 0 <= j < i - start ==> #[trigger] s[j] != LEVEL_SEPARATOR,
        decreases end - i,
    {
        if b[i] == LEVEL_SEPARATOR {
            return Some(i);
        }
        assert(s[i - start] != LEVEL_SEPARATOR);
        i = i + 1;
    }
    proof {
        if s.contains(LEVEL_SEPARATOR) {
            let k = choose|k: int| 0 <= k < s.len() && s[k] == LEVEL_SEPARATOR;
            assert(s[k] != LEVEL_SEPARATOR);
        }
    }
    None
}

/// Whether `b[start..end]` contains the byte `c`.
fn range_has(b: &[u8], start: usize, end: usize, c: u8) -> (r: bool)
    requires
        start <= end <= b@.len(),
    ensures
        r == b@.subrange(start as int, end as int).contains(c),
{
    crate::codec::wire::range_contains(b, start, end, c)
}

/// Checks an MQTT v5.0 Topic Filter, which may be a shared subscription
/// `$share/{ShareName}/{filter}` (MQTT v5.0 §4.8.2).
///
/// The ShareName is split off at the first `/` after `$share/`; it must not be
/// empty and must not hold `+` or `#` [MQTT-4.8.2-1][MQTT-4.8.2-2].
pub fn is_valid_v5_topic_filter(filter: &str) -> (r: bool)
    ensures
        r == spec_v5_topic_filter_valid(filter@),
{
    let b = filter.as_bytes();
    let n = b.len();
    let ghost s = b@;
    let has_prefix = n >= 7 && b[0] == 36 && b[1] == 115 && b[2] == 104 && b[3] == 97 && b[4] == 114
        && b[5] == 101 && b[6] == 47;
    proof {
        if n >= 7 {
            if has_prefix {
                assert(s.take(7) =~= spec_share_prefix());
            } else {
                if s.take(7) == spec_share_prefix() {
                    assert(s.take(7)[0] == 36u8);
                    assert(s.take(7)[1] == 115u8);
                    assert(s.take(7)[2] == 104u8);
                    assert(s.take(7)[3] == 97u8);
                    assert(s.take(7)[4] == 114u8);
                    assert(s.take(7)[5] == 101u8);
                    assert(s.take(7)[6] == 47u8);
                }
            }
        }
    }
    if !has_prefix {
        let r = topic_filter_range_valid(b, 0, n);
        assert(b@.subrange(0, n as int) =~= b@);
        return r;
    }
    let ghost rest = s.skip(7);
    assert(b@.subrange(7, n as int) =~= rest);
    match find_separator(b, 7, n) {
        None => {
            proof {
                assert forall|p: int| #[trigger] spec_first_separator(rest, p) implies false by {
                    assert(rest[p] == LEVEL_SEPARATOR);
                    assert(rest.contains(LEVEL_SEPARATOR));
                }
            }
            false
        },
        Some(slash) => {
            let ghost p = slash - 7;
            assert(rest.take(p) =~= b@.subrange(7, slash as int));
            assert(rest.skip(p + 1) =~= b@.subrange(slash + 1, n as int));
            proof {
                assert forall|q: int| #[trigger] spec_first_separator(rest, q) implies q == p by {
                    if q < p {
                        assert(rest[q] != LEVEL_SEPARATOR);
                    } else if q > p {
                        assert(rest[p] != LEVEL_SEPARATOR);
                    }
                }
            }
            if slash == 7 || range_has(b, 7, slash, SINGLE_LEVEL_WILDCARD) || range_has(
                b,
                7,
                slash,
                MULTI_LEVEL_WILDCARD,
            ) {
                return false;
            }
            let r = topic_filter_range_valid(b, slash + 1, n);
            assert(r ==> spec_first_separator(rest, p) && spec_shared_body_valid_at(rest, p));
            r
        },
    }
}

/// Whether the bytes start with `$share/`.
pub fn has_share_prefix(b: &[u8]) -> (r: bool)
    ensures
        r == spec_has_share_prefix(b@),
{
    let r = b.len() >= 7 && b[0] == 36 && b[1] == 115 && b[2] == 104 && b[3] == 97 && b[4] == 114
        && b[5] == 101 && b[6] == 47;
    proof {
        if b@.len() >= 7 {
            if r {
                assert(b@.take(7) =~= spec_share_prefix());
            } else if b@.take(7) == spec_share_prefix() {
                assert(b@.take(7)[0] == 36u8);
                assert(b@.take(7)[1] == 115u8);
                assert(b@.take(7)[2] == 104u8);
                assert(b@.take(7)[3] == 97u8);
                assert(b@.take(7)[4] == 114u8);
                assert(b@.take(7)[5] == 101u8);
                assert(b@.take(7)[6] == 47u8);
            }
        }
    }
    r
}

} // verus!
