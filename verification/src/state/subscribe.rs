//! Subscription bookkeeping.
//!
//! Tracks SUBSCRIBE and UNSUBSCRIBE packets until their SUBACK or UNSUBACK, and
//! the subscriptions that the server confirmed.

use std::collections::BTreeMap;
use vstd::prelude::*;

use crate::codec::qos::QoS;
use crate::codec::utf8_string::{spec_utf8, str_eq};
use crate::codec::wire::{
    bytes_lt, lemma_bytes_lt_asymmetric, lemma_bytes_lt_irreflexive, lemma_bytes_lt_total,
    lemma_bytes_lt_trans, spec_bytes_lt,
};
use crate::state::keys::u16_keys;
use crate::v5::subscribe::{RetainHandling, Subscription};

verus! {

broadcast use {vstd::std_specs::btree::group_btree_axioms, vstd::laws_cmp::group_laws_cmp};

/// One subscription.
#[derive(Debug, PartialEq, Eq)]
pub struct SubscriptionEntry {
    /// The Topic Filter.
    pub topic_filter: String,
    /// The maximum QoS requested.
    pub requested_qos: QoS,
    /// The QoS granted, set once the SUBACK arrived.
    pub granted_qos: Option<QoS>,
    /// The No Local option (MQTT v5.0 §3.8.3.1); `false` under MQTT v3.1.1.
    pub no_local: bool,
    /// The Retain As Published option (MQTT v5.0 §3.8.3.1); `false` under
    /// MQTT v3.1.1.
    pub retain_as_published: bool,
    /// The Retain Handling option (MQTT v5.0 §3.8.3.1); stays `SendRetained`
    /// under MQTT v3.1.1, which behaves the same way.
    pub retain_handling: RetainHandling,
    /// The Subscription Identifier (MQTT v5.0 §3.8.2.1.2); unused under
    /// MQTT v3.1.1.
    pub subscription_identifier: Option<u32>,
}

/// The abstract value of a [`SubscriptionEntry`].
pub struct EntryView {
    /// The Topic Filter.
    pub topic_filter: Seq<char>,
    /// The maximum QoS requested.
    pub requested_qos: QoS,
    /// The QoS granted.
    pub granted_qos: Option<QoS>,
    /// The No Local option.
    pub no_local: bool,
    /// The Retain As Published option.
    pub retain_as_published: bool,
    /// The Retain Handling option.
    pub retain_handling: RetainHandling,
    /// The Subscription Identifier.
    pub subscription_identifier: Option<u32>,
}

impl View for SubscriptionEntry {
    type V = EntryView;

    open spec fn view(&self) -> EntryView {
        EntryView {
            topic_filter: self.topic_filter@,
            requested_qos: self.requested_qos,
            granted_qos: self.granted_qos,
            no_local: self.no_local,
            retain_as_published: self.retain_as_published,
            retain_handling: self.retain_handling,
            subscription_identifier: self.subscription_identifier,
        }
    }
}

impl SubscriptionEntry {
    /// Creates an entry for `topic_filter` and `requested_qos`, with the MQTT v5.0
    /// options at their defaults and no Subscription Identifier.
    pub fn new(topic_filter: &str, requested_qos: QoS) -> (r: Self)
        ensures
            r@ == (EntryView {
                topic_filter: topic_filter@,
                requested_qos,
                granted_qos: None,
                no_local: false,
                retain_as_published: false,
                retain_handling: RetainHandling::SendRetained,
                subscription_identifier: None,
            }),
    {
        Self {
            topic_filter: topic_filter.to_owned(),
            requested_qos,
            granted_qos: None,
            no_local: false,
            retain_as_published: false,
            retain_handling: RetainHandling::SendRetained,
            subscription_identifier: None,
        }
    }
}

impl Clone for SubscriptionEntry {
    fn clone(&self) -> (r: Self)
        ensures
            r@ == self@,
    {
        Self {
            topic_filter: self.topic_filter.clone(),
            requested_qos: self.requested_qos,
            granted_qos: self.granted_qos,
            no_local: self.no_local,
            retain_as_published: self.retain_as_published,
            retain_handling: self.retain_handling,
            subscription_identifier: self.subscription_identifier,
        }
    }
}

impl Default for SubscriptionEntry {
    fn default() -> (r: Self)
        ensures
            r@ == (EntryView {
                topic_filter: Seq::empty(),
                requested_qos: QoS::AtMostOnce,
                granted_qos: None,
                no_local: false,
                retain_as_published: false,
                retain_handling: RetainHandling::SendRetained,
                subscription_identifier: None,
            }),
    {
        Self {
            topic_filter: String::new(),
            requested_qos: QoS::AtMostOnce,
            granted_qos: None,
            no_local: false,
            retain_as_published: false,
            retain_handling: RetainHandling::SendRetained,
            subscription_identifier: None,
        }
    }
}

impl From<Subscription> for SubscriptionEntry {
    /// Builds an entry from a MQTT v5.0 SUBSCRIBE item. The Subscription
    /// Identifier travels in the SUBSCRIBE's properties, not in the item, so it
    /// stays `None`.
    fn from(subscription: Subscription) -> (r: Self) {
        Self {
            topic_filter: subscription.topic_filter,
            requested_qos: subscription.qos,
            granted_qos: None,
            no_local: subscription.no_local,
            retain_as_published: subscription.retain_as_published,
            retain_handling: subscription.retain_handling,
            subscription_identifier: None,
        }
    }
}

impl vstd::std_specs::convert::FromSpecImpl<Subscription> for SubscriptionEntry {
    open spec fn obeys_from_spec() -> bool {
        true
    }

    open spec fn from_spec(subscription: Subscription) -> Self {
        Self {
            topic_filter: subscription.topic_filter,
            requested_qos: subscription.qos,
            granted_qos: None,
            no_local: subscription.no_local,
            retain_as_published: subscription.retain_as_published,
            retain_handling: subscription.retain_handling,
            subscription_identifier: None,
        }
    }
}

/// The sort key of an entry: the UTF-8 bytes of its Topic Filter.
pub open spec fn spec_key(e: EntryView) -> Seq<u8> {
    spec_utf8(e.topic_filter)
}

/// Whether the entries are in strictly increasing order of Topic Filter, as
/// std orders strings; so no Topic Filter occurs twice.
pub open spec fn spec_sorted(s: Seq<EntryView>) -> bool {
    forall|i: int, j: int|
        0 <= i < j < s.len() ==> spec_bytes_lt(#[trigger] spec_key(s[i]), #[trigger] spec_key(s[j]))
}

/// The position of the first entry whose key is not below `k`.
pub open spec fn spec_lower_bound(s: Seq<EntryView>, k: Seq<u8>) -> nat
    decreases s.len(),
{
    if s.len() == 0 {
        0
    } else if spec_bytes_lt(spec_key(s[0]), k) {
        1 + spec_lower_bound(s.drop_first(), k)
    } else {
        0
    }
}

/// Whether position `j` holds the entry for Topic Filter `f`.
pub open spec fn spec_holds_at(s: Seq<EntryView>, j: int, f: Seq<char>) -> bool {
    0 <= j < s.len() && s[j].topic_filter == f
}

/// The entry for Topic Filter `f`, if any.
pub open spec fn spec_find(s: Seq<EntryView>, f: Seq<char>) -> Option<EntryView> {
    let j = spec_lower_bound(s, spec_utf8(f)) as int;
    if spec_holds_at(s, j, f) {
        Some(s[j])
    } else {
        None
    }
}

/// `s` with `e` stored under its Topic Filter: it replaces the entry with the
/// same Topic Filter, or is inserted where the order puts it.
pub open spec fn spec_upsert(s: Seq<EntryView>, e: EntryView) -> Seq<EntryView> {
    let j = spec_lower_bound(s, spec_key(e)) as int;
    if spec_holds_at(s, j, e.topic_filter) {
        s.update(j, e)
    } else {
        s.insert(j, e)
    }
}

/// `s` without the entry for Topic Filter `f`.
pub open spec fn spec_remove_filter(s: Seq<EntryView>, f: Seq<char>) -> Seq<EntryView> {
    let j = spec_lower_bound(s, spec_utf8(f)) as int;
    if spec_holds_at(s, j, f) {
        s.remove(j)
    } else {
        s
    }
}

/// `s` without any occurrence of `f`.
pub open spec fn spec_remove_all(s: Seq<Seq<char>>, f: Seq<char>) -> Seq<Seq<char>>
    decreases s.len(),
{
    if s.len() == 0 {
        s
    } else {
        let r = spec_remove_all(s.drop_last(), f);
        if s.last() == f {
            r
        } else {
            r.push(s.last())
        }
    }
}

/// The Subscription Identifier index `ids` without Topic Filter `f` under `id`;
/// an identifier left without filters is dropped.
pub open spec fn spec_unlink(ids: Map<u32, Seq<Seq<char>>>, f: Seq<char>, id: u32) -> Map<
    u32,
    Seq<Seq<char>>,
> {
    if ids.contains_key(id) {
        let l = spec_remove_all(ids[id], f);
        if l.len() == 0 {
            ids.remove(id)
        } else {
            ids.insert(id, l)
        }
    } else {
        ids
    }
}

/// The Subscription Identifier index `ids` with Topic Filter `f` appended under
/// `id`.
pub open spec fn spec_link(ids: Map<u32, Seq<Seq<char>>>, f: Seq<char>, id: u32) -> Map<
    u32,
    Seq<Seq<char>>,
> {
    ids.insert(
        id,
        if ids.contains_key(id) {
            ids[id]
        } else {
            Seq::empty()
        }.push(f),
    )
}

/// The confirmed subscriptions and the Subscription Identifier index.
pub struct ActiveView {
    /// The confirmed subscriptions, in Topic Filter order.
    pub active: Seq<EntryView>,
    /// Subscription Identifier to Topic Filters, in the order they were linked.
    pub ids: Map<u32, Seq<Seq<char>>>,
}

/// The index without the link of the confirmed entry for `f`, if that entry
/// has a Subscription Identifier.
pub open spec fn spec_unlink_old(st: ActiveView, f: Seq<char>) -> Map<u32, Seq<Seq<char>>> {
    match spec_find(st.active, f) {
        Some(old) => match old.subscription_identifier {
            Some(oid) => spec_unlink(st.ids, f, oid),
            None => st.ids,
        },
        None => st.ids,
    }
}

/// The effect of one SUBACK Reason Code `code` on the pending entry `e`: a code
/// of 0x02 or less confirms it with that QoS, replacing any subscription to the
/// same Topic Filter (whose Subscription Identifier link goes first); a failure
/// code drops it. Returns the new state and the confirmed entry.
pub open spec fn spec_suback_step(st: ActiveView, e: EntryView, code: u8) -> (
    ActiveView,
    Option<EntryView>,
) {
    if code > 2 {
        (st, None)
    } else {
        let e2 = EntryView { granted_qos: QoS::spec_from_u8(code), ..e };
        let ids1 = spec_unlink_old(st, e.topic_filter);
        let ids2 = match e.subscription_identifier {
            Some(id) => spec_link(ids1, e.topic_filter, id),
            None => ids1,
        };
        (ActiveView { active: spec_upsert(st.active, e2), ids: ids2 }, Some(e2))
    }
}

/// The effect of the first `n` Reason Codes of a SUBACK on the pending entries.
pub open spec fn spec_suback_fold(
    st: ActiveView,
    pending: Seq<EntryView>,
    codes: Seq<u8>,
    n: nat,
) -> (ActiveView, Seq<EntryView>)
    decreases n,
{
    if n == 0 {
        (st, Seq::empty())
    } else {
        let (st1, confirmed) = spec_suback_fold(st, pending, codes, (n - 1) as nat);
        let (st2, c) = spec_suback_step(st1, pending[n - 1], codes[n - 1]);
        (
            st2,
            match c {
                Some(x) => confirmed.push(x),
                None => confirmed,
            },
        )
    }
}

/// Whether an UNSUBACK Reason Code means that the subscription is gone on the
/// server: 0x00 (Success) or 0x11 (No subscription existed). MQTT v3.1.1 sends no
/// codes, and then every filter is gone.
pub open spec fn spec_removed_on_server(codes: Seq<u8>, i: int) -> bool {
    codes.len() == 0 || codes[i] == 0x00 || codes[i] == 0x11
}

/// The effect of the UNSUBACK on the `i`-th pending filter `f`: if it is gone
/// on the server and confirmed locally, its entry and link are dropped and the
/// filter is reported.
pub open spec fn spec_unsuback_step(st: ActiveView, f: Seq<char>, gone: bool) -> (
    ActiveView,
    Option<Seq<char>>,
) {
    if !gone {
        (st, None)
    } else {
        match spec_find(st.active, f) {
            None => (st, None),
            Some(old) => {
                let ids = match old.subscription_identifier {
                    Some(id) => spec_unlink(st.ids, f, id),
                    None => st.ids,
                };
                (ActiveView { active: spec_remove_filter(st.active, f), ids }, Some(f))
            },
        }
    }
}

/// The effect of the UNSUBACK on the first `n` pending filters.
pub open spec fn spec_unsuback_fold(
    st: ActiveView,
    pending: Seq<Seq<char>>,
    codes: Seq<u8>,
    n: nat,
) -> (ActiveView, Seq<Seq<char>>)
    decreases n,
{
    if n == 0 {
        (st, Seq::empty())
    } else {
        let (st1, removed) = spec_unsuback_fold(st, pending, codes, (n - 1) as nat);
        let (st2, c) = spec_unsuback_step(
            st1,
            pending[n - 1],
            spec_removed_on_server(codes, n - 1),
        );
        (
            st2,
            match c {
                Some(x) => removed.push(x),
                None => removed,
            },
        )
    }
}

/// The confirmed entries for the Topic Filters `filters`, in their order.
pub open spec fn spec_collect(active: Seq<EntryView>, filters: Seq<Seq<char>>) -> Seq<EntryView>
    decreases filters.len(),
{
    if filters.len() == 0 {
        Seq::empty()
    } else {
        let r = spec_collect(active, filters.drop_last());
        match spec_find(active, filters.last()) {
            Some(e) => r.push(e),
            None => r,
        }
    }
}

/// The views of a vector of entries.
pub open spec fn spec_entries(v: Seq<SubscriptionEntry>) -> Seq<EntryView> {
    v.map_values(|e: SubscriptionEntry| e@)
}

/// The characters of a vector of strings.
pub open spec fn spec_strings(v: Seq<String>) -> Seq<Seq<char>> {
    v.map_values(|s: String| s@)
}

/// The abstract state of a [`SubscriptionManager`].
pub struct SubscriptionView {
    /// The confirmed subscriptions, in Topic Filter order.
    pub active: Seq<EntryView>,
    /// SUBSCRIBE packets awaiting their SUBACK.
    pub pending_subscribes: Map<u16, Seq<EntryView>>,
    /// UNSUBSCRIBE packets awaiting their UNSUBACK.
    pub pending_unsubscribes: Map<u16, Seq<Seq<char>>>,
    /// Subscription Identifier to Topic Filters.
    pub ids: Map<u32, Seq<Seq<char>>>,
}

/// Subscription bookkeeping.
///
/// A sent SUBSCRIBE is kept until its SUBACK, which moves the accepted
/// subscriptions to the confirmed list.
#[derive(Debug)]
pub struct SubscriptionManager {
    active: Vec<SubscriptionEntry>,
    pending_subscribes: BTreeMap<u16, Vec<SubscriptionEntry>>,
    pending_unsubscribes: BTreeMap<u16, Vec<String>>,
    subscription_ids: BTreeMap<u32, Vec<String>>,
}

impl View for SubscriptionManager {
    type V = SubscriptionView;

    closed spec fn view(&self) -> SubscriptionView {
        SubscriptionView {
            active: spec_entries(self.active@),
            pending_subscribes: self.pending_subscribes@.map_values(
                |v: Vec<SubscriptionEntry>| spec_entries(v@),
            ),
            pending_unsubscribes: self.pending_unsubscribes@.map_values(
                |v: Vec<String>| spec_strings(v@),
            ),
            ids: self.subscription_ids@.map_values(|v: Vec<String>| spec_strings(v@)),
        }
    }
}

/// Copies a vector of strings.
fn clone_strings(v: &Vec<String>) -> (r: Vec<String>)
    ensures
        spec_strings(r@) == spec_strings(v@),
{
    let mut r: Vec<String> = Vec::new();
    let mut i: usize = 0;
    while i < v.len()
        invariant
            i <= v@.len(),
            r@.len() == i,
            spec_strings(r@) == spec_strings(v@).take(i as int),
        decreases v@.len() - i,
    {
        let c = v[i].clone();
        assert(c@ == v@[i as int]@);
        r.push(c);
        i = i + 1;
        assert(spec_strings(r@) =~= spec_strings(v@).take(i as int));
    }
    assert(spec_strings(v@).take(i as int) =~= spec_strings(v@));
    r
}

/// Copies a vector of entries.
fn clone_entries(v: &Vec<SubscriptionEntry>) -> (r: Vec<SubscriptionEntry>)
    ensures
        spec_entries(r@) == spec_entries(v@),
{
    let mut r: Vec<SubscriptionEntry> = Vec::new();
    let mut i: usize = 0;
    while i < v.len()
        invariant
            i <= v@.len(),
            r@.len() == i,
            spec_entries(r@) == spec_entries(v@).take(i as int),
        decreases v@.len() - i,
    {
        let c = v[i].clone();
        assert(c@ == v@[i as int]@);
        r.push(c);
        i = i + 1;
        assert(spec_entries(r@) =~= spec_entries(v@).take(i as int));
    }
    assert(spec_entries(v@).take(i as int) =~= spec_entries(v@));
    r
}

/// Equal keys mean equal Topic Filters.
proof fn lemma_key_injective(a: Seq<char>, b: Seq<char>)
    ensures
        (spec_utf8(a) == spec_utf8(b)) == (a == b),
{
    vstd::utf8::encode_utf8_decode_utf8(a);
    vstd::utf8::encode_utf8_decode_utf8(b);
}

/// The lower bound is the position that splits the entries below `k` from the
/// others.
proof fn lemma_lower_bound(s: Seq<EntryView>, k: Seq<u8>, i: int)
    requires
        0 <= i <= s.len(),
        forall|j: int| 0 <= j < i ==> spec_bytes_lt(#[trigger] spec_key(s[j]), k),
        i < s.len() ==> !spec_bytes_lt(spec_key(s[i]), k),
    ensures
        spec_lower_bound(s, k) == i,
    decreases i,
{
    if i > 0 {
        assert(spec_bytes_lt(spec_key(s[0]), k));
        assert forall|j: int| 0 <= j < i - 1 implies spec_bytes_lt(
            #[trigger] spec_key(s.drop_first()[j]),
            k,
        ) by {
            assert(s.drop_first()[j] == s[j + 1]);
        }
        lemma_lower_bound(s.drop_first(), k, i - 1);
    }
}

/// In sorted entries, the entries from the lower bound on have keys of at least
/// `k`, and those after a position holding `k` have larger keys.
proof fn lemma_sorted_after_bound(s: Seq<EntryView>, k: Seq<u8>, j: int)
    requires
        spec_sorted(s),
        0 <= j <= s.len(),
        forall|m: int| 0 <= m < j ==> spec_bytes_lt(#[trigger] spec_key(s[m]), k),
        j < s.len() ==> !spec_bytes_lt(spec_key(s[j]), k),
    ensures
        forall|m: int| j <= m < s.len() ==> !spec_bytes_lt(#[trigger] spec_key(s[m]), k),
        j < s.len() && spec_key(s[j]) != k ==> forall|m: int|
            j <= m < s.len() ==> spec_bytes_lt(k, #[trigger] spec_key(s[m])),
{
    assert forall|m: int| j <= m < s.len() implies !spec_bytes_lt(#[trigger] spec_key(s[m]), k) by {
        if m > j {
            lemma_bytes_lt_trans(spec_key(s[j]), spec_key(s[m]), k);
            lemma_bytes_lt_total(spec_key(s[j]), k);
            lemma_bytes_lt_asymmetric(spec_key(s[j]), spec_key(s[m]));
            if spec_bytes_lt(spec_key(s[m]), k) {
                lemma_bytes_lt_total(k, spec_key(s[j]));
                if spec_key(s[j]) != k {
                    lemma_bytes_lt_trans(k, spec_key(s[j]), spec_key(s[m]));
                    lemma_bytes_lt_asymmetric(k, spec_key(s[m]));
                }
            }
        }
    }
    if j < s.len() && spec_key(s[j]) != k {
        lemma_bytes_lt_total(spec_key(s[j]), k);
        assert forall|m: int| j <= m < s.len() implies spec_bytes_lt(k, #[trigger] spec_key(s[m])) by {
            if m > j {
                lemma_bytes_lt_trans(k, spec_key(s[j]), spec_key(s[m]));
            }
        }
    }
}

/// Storing an entry under its Topic Filter keeps the entries sorted.
proof fn lemma_upsert_sorted(s: Seq<EntryView>, e: EntryView)
    requires
        spec_sorted(s),
    ensures
        spec_sorted(spec_upsert(s, e)),
{
    let k = spec_key(e);
    let j = spec_lower_bound(s, k) as int;
    lemma_lower_bound_props(s, k);
    lemma_sorted_after_bound(s, k, j);
    if spec_holds_at(s, j, e.topic_filter) {
        let t = s.update(j, e);
        assert forall|a: int, b: int| 0 <= a < b < t.len() implies spec_bytes_lt(
            #[trigger] spec_key(t[a]),
            #[trigger] spec_key(t[b]),
        ) by {}
    } else {
        lemma_key_injective(e.topic_filter, if j < s.len() { s[j].topic_filter } else { e.topic_filter });
        let t = s.insert(j, e);
        assert forall|a: int, b: int| 0 <= a < b < t.len() implies spec_bytes_lt(
            #[trigger] spec_key(t[a]),
            #[trigger] spec_key(t[b]),
        ) by {
            if a < j && b == j {
            } else if a == j && b > j {
                assert(t[b] == s[b - 1]);
            } else if a < j && b > j {
                assert(t[b] == s[b - 1]);
            } else if a > j {
                assert(t[a] == s[a - 1]);
                assert(t[b] == s[b - 1]);
            }
        }
    }
}

/// What the lower bound satisfies.
proof fn lemma_lower_bound_props(s: Seq<EntryView>, k: Seq<u8>)
    ensures
        spec_lower_bound(s, k) <= s.len(),
        forall|m: int| 0 <= m < spec_lower_bound(s, k) ==> spec_bytes_lt(#[trigger] spec_key(s[m]), k),
        spec_lower_bound(s, k) < s.len() ==> !spec_bytes_lt(spec_key(s[spec_lower_bound(s, k) as int]), k),
    decreases s.len(),
{
    if s.len() > 0 && spec_bytes_lt(spec_key(s[0]), k) {
        lemma_lower_bound_props(s.drop_first(), k);
        assert forall|m: int| 0 <= m < spec_lower_bound(s, k) implies spec_bytes_lt(
            #[trigger] spec_key(s[m]),
            k,
        ) by {
            if m > 0 {
                assert(s[m] == s.drop_first()[m - 1]);
            }
        }
    }
}

/// Removing an entry keeps the entries sorted.
proof fn lemma_remove_sorted(s: Seq<EntryView>, f: Seq<char>)
    requires
        spec_sorted(s),
    ensures
        spec_sorted(spec_remove_filter(s, f)),
{
    let j = spec_lower_bound(s, spec_utf8(f)) as int;
    if spec_holds_at(s, j, f) {
        let t = s.remove(j);
        assert forall|a: int, b: int| 0 <= a < b < t.len() implies spec_bytes_lt(
            #[trigger] spec_key(t[a]),
            #[trigger] spec_key(t[b]),
        ) by {
            if a < j && b < j {
            } else if a < j {
                assert(t[b] == s[b + 1]);
            } else {
                assert(t[a] == s[a + 1]);
                assert(t[b] == s[b + 1]);
            }
        }
    }
}

/// Finds the position of the first confirmed entry whose Topic Filter is not
/// below `f`.
fn lower_bound(active: &Vec<SubscriptionEntry>, f: &str) -> (r: usize)
    ensures
        r == spec_lower_bound(spec_entries(active@), spec_utf8(f@)),
{
    let ghost s = spec_entries(active@);
    let k = f.as_bytes();
    let mut i: usize = 0;
    while i < active.len() && bytes_lt(active[i].topic_filter.as_str().as_bytes(), k)
        invariant
            i <= active@.len(),
            s == spec_entries(active@),
            k@ == spec_utf8(f@),
            forall|j: int| 0 <= j < i ==> spec_bytes_lt(#[trigger] spec_key(s[j]), k@),
        decreases active@.len() - i,
    {
        i = i + 1;
    }
    proof {
        lemma_lower_bound(s, k@, i as int);
    }
    i
}

/// Finds the position of the confirmed entry for `f`, if any.
fn find_index(active: &Vec<SubscriptionEntry>, f: &str) -> (r: Option<usize>)
    ensures
        r matches Some(j) ==> j == spec_lower_bound(spec_entries(active@), spec_utf8(f@))
            && spec_holds_at(spec_entries(active@), j as int, f@),
        r is None ==> spec_find(spec_entries(active@), f@) is None,
{
    let j = lower_bound(active, f);
    if j < active.len() && str_eq(active[j].topic_filter.as_str(), f) {
        Some(j)
    } else {
        None
    }
}

/// Removes every occurrence of `f` from a list of filters.
fn remove_all(v: &Vec<String>, f: &str) -> (r: Vec<String>)
    ensures
        spec_strings(r@) == spec_remove_all(spec_strings(v@), f@),
{
    let ghost s = spec_strings(v@);
    let mut r: Vec<String> = Vec::new();
    let mut i: usize = 0;
    while i < v.len()
        invariant
            i <= v@.len(),
            s == spec_strings(v@),
            spec_strings(r@) == spec_remove_all(s.take(i as int), f@),
        decreases v@.len() - i,
    {
        assert(s.take(i + 1).drop_last() =~= s.take(i as int));
        if !str_eq(v[i].as_str(), f) {
            r.push(v[i].clone());
            assert(spec_strings(r@) =~= spec_remove_all(s.take(i + 1), f@));
        }
        i = i + 1;
    }
    assert(s.take(i as int) =~= s);
    r
}

impl SubscriptionManager {
    /// The manager's invariant: the confirmed entries are sorted by Topic Filter,
    /// and the maps are finite.
    pub open spec fn wf(&self) -> bool {
        &&& spec_sorted(self@.active)
        &&& self@.pending_subscribes.dom().finite()
        &&& self@.pending_unsubscribes.dom().finite()
        &&& self@.ids.dom().finite()
    }

    /// The confirmed subscriptions and identifier index.
    pub open spec fn spec_active(&self) -> ActiveView {
        ActiveView { active: self@.active, ids: self@.ids }
    }

    /// Creates a manager without subscriptions.
    pub fn new() -> (r: Self)
        ensures
            r.wf(),
            r@.active == Seq::<EntryView>::empty(),
            r@.pending_subscribes == Map::<u16, Seq<EntryView>>::empty(),
            r@.pending_unsubscribes == Map::<u16, Seq<Seq<char>>>::empty(),
            r@.ids == Map::<u32, Seq<Seq<char>>>::empty(),
    {
        let r = Self {
            active: Vec::new(),
            pending_subscribes: BTreeMap::new(),
            pending_unsubscribes: BTreeMap::new(),
            subscription_ids: BTreeMap::new(),
        };
        assert(r@.active =~= Seq::<EntryView>::empty());
        assert(r@.pending_subscribes =~= Map::<u16, Seq<EntryView>>::empty());
        assert(r@.pending_unsubscribes =~= Map::<u16, Seq<Seq<char>>>::empty());
        assert(r@.ids =~= Map::<u32, Seq<Seq<char>>>::empty());
        r
    }

    /// Returns the number of confirmed subscriptions.
    pub fn active_count(&self) -> (r: usize)
        ensures
            r == self@.active.len(),
    {
        self.active.len()
    }

    /// Returns whether `topic_filter` is subscribed (confirmed).
    pub fn is_subscribed(&self, topic_filter: &str) -> (r: bool)
        ensures
            r == spec_find(self@.active, topic_filter@) is Some,
    {
        find_index(&self.active, topic_filter).is_some()
    }

    /// Returns the confirmed subscriptions, in Topic Filter order.
    ///
    /// After a CONNACK with Session Present 0 the client discards the session
    /// (MQTT v5.0 §3.2.2.1.1 [MQTT-3.2.2-5]); this list lets it subscribe again.
    pub fn active_subscriptions(&self) -> (r: Vec<&SubscriptionEntry>)
        ensures
            r@.map_values(|e: &SubscriptionEntry| e@) == self@.active,
    {
        let mut r: Vec<&SubscriptionEntry> = Vec::new();
        let mut i: usize = 0;
        while i < self.active.len()
            invariant
                i <= self.active@.len(),
                r@.len() == i,
                r@.map_values(|e: &SubscriptionEntry| e@) == self@.active.take(i as int),
            decreases self.active@.len() - i,
        {
            let e = &self.active[i];
            assert(e@ == self@.active[i as int]);
            r.push(e);
            i = i + 1;
            assert(r@.map_values(|e: &SubscriptionEntry| e@) =~= self@.active.take(i as int));
        }
        assert(self@.active.take(i as int) =~= self@.active);
        r
    }

    /// Returns the confirmed subscriptions made with Subscription Identifier
    /// `id`, in the order they were linked (MQTT v5.0 §3.8.2.1.2): a received
    /// PUBLISH carries the identifiers of the subscriptions it matched.
    pub fn find_by_subscription_identifier(&self, id: u32) -> (r: Vec<&SubscriptionEntry>)
        ensures
            r@.map_values(|e: &SubscriptionEntry| e@) == if self@.ids.contains_key(id) {
                spec_collect(self@.active, self@.ids[id])
            } else {
                Seq::empty()
            },
    {
        let mut r: Vec<&SubscriptionEntry> = Vec::new();
        match self.subscription_ids.get(&id) {
            None => {
                assert(r@.map_values(|e: &SubscriptionEntry| e@) =~= Seq::<EntryView>::empty());
                r
            },
            Some(filters) => {
                let ghost fs = spec_strings(filters@);
                let mut i: usize = 0;
                while i < filters.len()
                    invariant
                        i <= filters@.len(),
                        fs == spec_strings(filters@),
                        r@.map_values(|e: &SubscriptionEntry| e@) == spec_collect(
                            self@.active,
                            fs.take(i as int),
                        ),
                    decreases filters@.len() - i,
                {
                    assert(fs.take(i + 1).drop_last() =~= fs.take(i as int));
                    if let Some(j) = find_index(&self.active, filters[i].as_str()) {
                        r.push(&self.active[j]);
                    }
                    i = i + 1;
                    assert(r@.map_values(|e: &SubscriptionEntry| e@) =~= spec_collect(
                        self@.active,
                        fs.take(i as int),
                    ));
                }
                assert(fs.take(i as int) =~= fs);
                r
            },
        }
    }

    /// Records a sent SUBSCRIBE: its subscriptions await the SUBACK. An
    /// identifier of 0 or an empty list changes nothing.
    pub fn subscribe_sent(&mut self, packet_id: u16, subscriptions: Vec<SubscriptionEntry>)
        requires
            old(self).wf(),
        ensures
            final(self).wf(),
            packet_id == 0 || subscriptions@.len() == 0 ==> final(self)@ == old(self)@,
            packet_id != 0 && subscriptions@.len() != 0 ==> final(self)@ == (SubscriptionView {
                pending_subscribes: old(self)@.pending_subscribes.insert(
                    packet_id,
                    spec_entries(subscriptions@),
                ),
                ..old(self)@
            }),
    {
        if packet_id == 0 || subscriptions.len() == 0 {
            return;
        }
        self.pending_subscribes.insert(packet_id, subscriptions);
        assert(self@.pending_subscribes =~= old(self)@.pending_subscribes.insert(
            packet_id,
            spec_entries(subscriptions@),
        ));
    }

    /// Drops the SUBSCRIBE awaiting its SUBACK under `packet_id` (when sending it
    /// failed, or its SUBACK timed out), returning its subscriptions.
    pub fn drop_pending_subscribe(&mut self, packet_id: u16) -> (r: Option<Vec<SubscriptionEntry>>)
        requires
            old(self).wf(),
        ensures
            final(self).wf(),
            final(self)@ == (SubscriptionView {
                pending_subscribes: old(self)@.pending_subscribes.remove(packet_id),
                ..old(self)@
            }),
            match r {
                Some(v) => old(self)@.pending_subscribes.contains_key(packet_id)
                    && spec_entries(v@) == old(self)@.pending_subscribes[packet_id],
                None => !old(self)@.pending_subscribes.contains_key(packet_id),
            },
    {
        let r = self.pending_subscribes.remove(&packet_id);
        assert(self@.pending_subscribes =~= old(self)@.pending_subscribes.remove(packet_id));
        r
    }

    /// Handles a SUBACK for `packet_id` with its Reason Codes (MQTT v3.1.1:
    /// return codes).
    ///
    /// Without a pending SUBSCRIBE, returns `None` and changes nothing. The
    /// pending SUBSCRIBE is dropped; if the number of codes differs from the
    /// number of subscriptions, nothing is confirmed and `None` is returned.
    /// Otherwise each code of 0x02 or less confirms its subscription with that
    /// QoS, replacing an earlier subscription to the same Topic Filter, and the
    /// confirmed entries are returned in order.
    pub fn suback_received(&mut self, packet_id: u16, reason_codes: &[u8]) -> (r: Option<
        Vec<SubscriptionEntry>,
    >)
        requires
            old(self).wf(),
        ensures
            final(self).wf(),
            !old(self)@.pending_subscribes.contains_key(packet_id) ==> r is None && final(self)@
                == old(self)@,
            old(self)@.pending_subscribes.contains_key(packet_id) ==> {
                let pending = old(self)@.pending_subscribes[packet_id];
                let (st, confirmed) = spec_suback_fold(
                    old(self).spec_active(),
                    pending,
                    reason_codes@,
                    pending.len(),
                );
                &&& final(self)@.pending_subscribes == old(self)@.pending_subscribes.remove(
                    packet_id,
                )
                &&& final(self)@.pending_unsubscribes == old(self)@.pending_unsubscribes
                &&& reason_codes@.len() != pending.len() ==> r is None && final(self).spec_active()
                    == old(self).spec_active()
                &&& reason_codes@.len() == pending.len() ==> final(self).spec_active() == st && (
                r matches Some(v) && spec_entries(v@) == confirmed)
            },
    {
        let removed = self.pending_subscribes.remove(&packet_id);
        assert(self@.pending_subscribes =~= old(self)@.pending_subscribes.remove(packet_id));
        let pending = match removed {
            None => {
                assert(old(self)@.pending_subscribes.remove(packet_id) =~= old(self)@.pending_subscribes);
                return None;
            },
            Some(p) => p,
        };
        if reason_codes.len() != pending.len() {
            return None;
        }
        let ghost st0 = old(self).spec_active();
        let ghost pv = spec_entries(pending@);
        let mut confirmed: Vec<SubscriptionEntry> = Vec::new();
        let mut i: usize = 0;
        while i < pending.len()
            invariant
                i <= pending@.len(),
                reason_codes@.len() == pending@.len(),
                pv == spec_entries(pending@),
                self.wf(),
                self@.pending_subscribes == old(self)@.pending_subscribes.remove(packet_id),
                self@.pending_unsubscribes == old(self)@.pending_unsubscribes,
                (self.spec_active(), spec_entries(confirmed@)) == spec_suback_fold(
                    st0,
                    pv,
                    reason_codes@,
                    i as nat,
                ),
            decreases pending@.len() - i,
        {
            let code = reason_codes[i];
            if code <= 2 {
                let mut entry = pending[i].clone();
                entry.granted_qos = QoS::from_u8(code);
                self.confirm(entry, &mut confirmed);
            }
            i = i + 1;
        }
        Some(confirmed)
    }

    /// Confirms `entry`: unlinks the identifier of the entry it replaces, links
    /// its own, stores it, and appends it to `confirmed`.
    fn confirm(&mut self, entry: SubscriptionEntry, confirmed: &mut Vec<SubscriptionEntry>)
        requires
            old(self).wf(),
        ensures
            final(self).wf(),
            final(self)@.pending_subscribes == old(self)@.pending_subscribes,
            final(self)@.pending_unsubscribes == old(self)@.pending_unsubscribes,
            final(self).spec_active() == (ActiveView {
                active: spec_upsert(old(self)@.active, entry@),
                ids: match entry@.subscription_identifier {
                    Some(id) => spec_link(
                        spec_unlink_old(old(self).spec_active(), entry@.topic_filter),
                        entry@.topic_filter,
                        id,
                    ),
                    None => spec_unlink_old(old(self).spec_active(), entry@.topic_filter),
                },
            }),
            spec_entries(final(confirmed)@) == spec_entries(old(confirmed)@).push(entry@),
    {
        let filter = entry.topic_filter.as_str();
        let found = find_index(&self.active, filter);
        if let Some(j) = found {
            if let Some(old_id) = self.active[j].subscription_identifier {
                self.remove_subscription_identifier(filter, old_id);
            }
        }
        assert(self@.ids == spec_unlink_old(old(self).spec_active(), entry@.topic_filter));
        if let Some(id) = entry.subscription_identifier {
            let mut list = match self.subscription_ids.get(&id) {
                Some(l) => {
                    assert(self@.ids[id] == spec_strings(l@));
                    clone_strings(l)
                },
                None => Vec::new(),
            };
            assert(spec_strings(list@) == if self@.ids.contains_key(id) {
                self@.ids[id]
            } else {
                Seq::empty()
            });
            let ghost before = spec_strings(list@);
            list.push(entry.topic_filter.clone());
            assert(spec_strings(list@) =~= before.push(entry@.topic_filter));
            self.subscription_ids.insert(id, list);
            assert(self@.ids =~= spec_link(
                spec_unlink_old(old(self).spec_active(), entry@.topic_filter),
                entry@.topic_filter,
                id,
            ));
        }
        self.upsert(entry.clone());
        confirmed.push(entry);
        assert(spec_entries(confirmed@) =~= spec_entries(old(confirmed)@).push(entry@));
    }

    /// Stores `entry` under its Topic Filter in the confirmed list.
    fn upsert(&mut self, entry: SubscriptionEntry)
        requires
            old(self).wf(),
        ensures
            final(self).wf(),
            final(self)@ == (SubscriptionView {
                active: spec_upsert(old(self)@.active, entry@),
                ..old(self)@
            }),
    {
        let j = lower_bound(&self.active, entry.topic_filter.as_str());
        proof {
            lemma_lower_bound_props(self@.active, spec_key(entry@));
            lemma_upsert_sorted(self@.active, entry@);
            lemma_key_injective(entry@.topic_filter, entry@.topic_filter);
        }
        if j < self.active.len() && str_eq(
            self.active[j].topic_filter.as_str(),
            entry.topic_filter.as_str(),
        ) {
            self.active.set(j, entry);
        } else {
            self.active.insert(j, entry);
        }
        assert(self@.active =~= spec_upsert(old(self)@.active, entry@));
    }

    /// Removes `topic_filter` from the filters linked to identifier `id`, and
    /// drops the identifier when no filter is left.
    fn remove_subscription_identifier(&mut self, topic_filter: &str, id: u32)
        requires
            old(self).wf(),
        ensures
            final(self).wf(),
            final(self)@ == (SubscriptionView {
                ids: spec_unlink(old(self)@.ids, topic_filter@, id),
                ..old(self)@
            }),
    {
        let kept = match self.subscription_ids.get(&id) {
            None => {
                return;
            },
            Some(filters) => remove_all(filters, topic_filter),
        };
        if kept.len() == 0 {
            self.subscription_ids.remove(&id);
        } else {
            self.subscription_ids.insert(id, kept);
        }
        assert(self@.ids =~= spec_unlink(old(self)@.ids, topic_filter@, id));
    }

    /// Records a sent UNSUBSCRIBE: its Topic Filters await the UNSUBACK. An
    /// identifier of 0 or an empty list changes nothing.
    pub fn unsubscribe_sent(&mut self, packet_id: u16, topic_filters: Vec<String>)
        requires
            old(self).wf(),
        ensures
            final(self).wf(),
            packet_id == 0 || topic_filters@.len() == 0 ==> final(self)@ == old(self)@,
            packet_id != 0 && topic_filters@.len() != 0 ==> final(self)@ == (SubscriptionView {
                pending_unsubscribes: old(self)@.pending_unsubscribes.insert(
                    packet_id,
                    spec_strings(topic_filters@),
                ),
                ..old(self)@
            }),
    {
        if packet_id == 0 || topic_filters.len() == 0 {
            return;
        }
        self.pending_unsubscribes.insert(packet_id, topic_filters);
        assert(self@.pending_unsubscribes =~= old(self)@.pending_unsubscribes.insert(
            packet_id,
            spec_strings(topic_filters@),
        ));
    }

    /// Drops the UNSUBSCRIBE awaiting its UNSUBACK under `packet_id`, returning its
    /// Topic Filters.
    pub fn drop_pending_unsubscribe(&mut self, packet_id: u16) -> (r: Option<Vec<String>>)
        requires
            old(self).wf(),
        ensures
            final(self).wf(),
            final(self)@ == (SubscriptionView {
                pending_unsubscribes: old(self)@.pending_unsubscribes.remove(packet_id),
                ..old(self)@
            }),
            match r {
                Some(v) => old(self)@.pending_unsubscribes.contains_key(packet_id) && spec_strings(
                    v@,
                ) == old(self)@.pending_unsubscribes[packet_id],
                None => !old(self)@.pending_unsubscribes.contains_key(packet_id),
            },
    {
        let r = self.pending_unsubscribes.remove(&packet_id);
        assert(self@.pending_unsubscribes =~= old(self)@.pending_unsubscribes.remove(packet_id));
        r
    }

    /// Handles an UNSUBACK for `packet_id` with its Reason Codes (none under
    /// MQTT v3.1.1).
    ///
    /// Without a pending UNSUBSCRIBE, returns `None` and changes nothing. The
    /// pending UNSUBSCRIBE is dropped; if codes were sent and their number
    /// differs from the number of filters, nothing changes further and `None` is
    /// returned. Otherwise each filter whose code is 0x00 or 0x11 (or every filter,
    /// without codes) is removed from the confirmed list, and the removed filters
    /// are returned in order; a code of 0x80 or more keeps the subscription.
    pub fn unsuback_received(&mut self, packet_id: u16, reason_codes: &[u8]) -> (r: Option<
        Vec<String>,
    >)
        requires
            old(self).wf(),
        ensures
            final(self).wf(),
            !old(self)@.pending_unsubscribes.contains_key(packet_id) ==> r is None && final(self)@
                == old(self)@,
            old(self)@.pending_unsubscribes.contains_key(packet_id) ==> {
                let pending = old(self)@.pending_unsubscribes[packet_id];
                let (st, removed) = spec_unsuback_fold(
                    old(self).spec_active(),
                    pending,
                    reason_codes@,
                    pending.len(),
                );
                &&& final(self)@.pending_unsubscribes == old(self)@.pending_unsubscribes.remove(
                    packet_id,
                )
                &&& final(self)@.pending_subscribes == old(self)@.pending_subscribes
                &&& reason_codes@.len() != 0 && reason_codes@.len() != pending.len() ==> r is None
                    && final(self).spec_active() == old(self).spec_active()
                &&& reason_codes@.len() == 0 || reason_codes@.len() == pending.len() ==> final(self).spec_active() == st && (r matches Some(v) && spec_strings(v@) == removed)
            },
    {
        let removed = self.pending_unsubscribes.remove(&packet_id);
        assert(self@.pending_unsubscribes =~= old(self)@.pending_unsubscribes.remove(packet_id));
        let pending = match removed {
            None => {
                assert(old(self)@.pending_unsubscribes.remove(packet_id) =~= old(self)@.pending_unsubscribes);
                return None;
            },
            Some(p) => p,
        };
        if reason_codes.len() != 0 && reason_codes.len() != pending.len() {
            return None;
        }
        let ghost st0 = old(self).spec_active();
        let ghost pv = spec_strings(pending@);
        let mut removed: Vec<String> = Vec::new();
        let mut i: usize = 0;
        while i < pending.len()
            invariant
                i <= pending@.len(),
                reason_codes@.len() == 0 || reason_codes@.len() == pending@.len(),
                pv == spec_strings(pending@),
                self.wf(),
                self@.pending_unsubscribes == old(self)@.pending_unsubscribes.remove(packet_id),
                self@.pending_subscribes == old(self)@.pending_subscribes,
                (self.spec_active(), spec_strings(removed@)) == spec_unsuback_fold(
                    st0,
                    pv,
                    reason_codes@,
                    i as nat,
                ),
            decreases pending@.len() - i,
        {
            let gone = reason_codes.len() == 0 || reason_codes[i] == 0x00 || reason_codes[i]
                == 0x11;
            if gone {
                if self.unsubscribe_one(pending[i].as_str()) {
                    removed.push(pending[i].clone());
                }
            }
            i = i + 1;
        }
        Some(removed)
    }

    /// Removes the confirmed entry for `filter` and its identifier link, and
    /// reports whether there was one.
    fn unsubscribe_one(&mut self, filter: &str) -> (r: bool)
        requires
            old(self).wf(),
        ensures
            final(self).wf(),
            final(self)@.pending_subscribes == old(self)@.pending_subscribes,
            final(self)@.pending_unsubscribes == old(self)@.pending_unsubscribes,
            final(self).spec_active() == spec_unsuback_step(old(self).spec_active(), filter@, true).0,
            r == spec_unsuback_step(old(self).spec_active(), filter@, true).1 is Some,
    {
        match find_index(&self.active, filter) {
            None => false,
            Some(j) => {
                let old_id = self.active[j].subscription_identifier;
                proof {
                    lemma_remove_sorted(self@.active, filter@);
                }
                self.active.remove(j);
                assert(self@.active =~= spec_remove_filter(old(self)@.active, filter@));
                if let Some(id) = old_id {
                    self.remove_subscription_identifier(filter, id);
                }
                true
            },
        }
    }

    /// Returns the identifiers of the SUBSCRIBE packets awaiting their SUBACK, in
    /// increasing order.
    pub fn pending_subscribe_ids(&self) -> (r: Vec<u16>)
        ensures
            forall|k: u16| self@.pending_subscribes.contains_key(k) <==> #[trigger] r@.contains(k),
            forall|i: int, j: int| 0 <= i < j < r@.len() ==> r@[i] < r@[j],
    {
        u16_keys(&self.pending_subscribes)
    }

    /// Returns the identifiers of the UNSUBSCRIBE packets awaiting their UNSUBACK,
    /// in increasing order.
    pub fn pending_unsubscribe_ids(&self) -> (r: Vec<u16>)
        ensures
            forall|k: u16| self@.pending_unsubscribes.contains_key(k) <==> #[trigger] r@.contains(
                k,
            ),
            forall|i: int, j: int| 0 <= i < j < r@.len() ==> r@[i] < r@[j],
    {
        u16_keys(&self.pending_unsubscribes)
    }

    /// Clears all state.
    pub fn reset(&mut self)
        ensures
            final(self).wf(),
            final(self)@.active == Seq::<EntryView>::empty(),
            final(self)@.pending_subscribes == Map::<u16, Seq<EntryView>>::empty(),
            final(self)@.pending_unsubscribes == Map::<u16, Seq<Seq<char>>>::empty(),
            final(self)@.ids == Map::<u32, Seq<Seq<char>>>::empty(),
    {
        self.active.clear();
        self.pending_subscribes.clear();
        self.pending_unsubscribes.clear();
        self.subscription_ids.clear();
        assert(self@.active =~= Seq::<EntryView>::empty());
        assert(self@.pending_subscribes =~= Map::<u16, Seq<EntryView>>::empty());
        assert(self@.pending_unsubscribes =~= Map::<u16, Seq<Seq<char>>>::empty());
        assert(self@.ids =~= Map::<u32, Seq<Seq<char>>>::empty());
    }
}

impl Clone for SubscriptionManager {
    fn clone(&self) -> (r: Self) {
        Self {
            active: clone_entries(&self.active),
            pending_subscribes: self.pending_subscribes.clone(),
            pending_unsubscribes: self.pending_unsubscribes.clone(),
            subscription_ids: self.subscription_ids.clone(),
        }
    }
}

impl Default for SubscriptionManager {
    fn default() -> (r: Self)
        ensures
            r.wf(),
            r@.active == Seq::<EntryView>::empty(),
            r@.pending_subscribes == Map::<u16, Seq<EntryView>>::empty(),
            r@.pending_unsubscribes == Map::<u16, Seq<Seq<char>>>::empty(),
            r@.ids == Map::<u32, Seq<Seq<char>>>::empty(),
    {
        Self::new()
    }
}

/// After removing the entry for `f` from sorted entries, no entry is for `f`;
/// and an entry for another filter `g` remains only if it was there before.
proof fn lemma_remove_filter_absent(s: Seq<EntryView>, f: Seq<char>, g: Seq<char>)
    requires
        spec_sorted(s),
    ensures
        forall|m: int| 0 <= m < spec_remove_filter(s, f).len() ==> (#[trigger] spec_remove_filter(s, f)[m]).topic_filter != f,
        (forall|m: int| 0 <= m < s.len() ==> (#[trigger] s[m]).topic_filter != g) ==> forall|m: int|
            0 <= m < spec_remove_filter(s, f).len() ==> (#[trigger] spec_remove_filter(s, f)[m]).topic_filter != g,
{
    let k = spec_utf8(f);
    let j = spec_lower_bound(s, k) as int;
    lemma_lower_bound_props(s, k);
    lemma_sorted_after_bound(s, k, j);
    let t = spec_remove_filter(s, f);
    if spec_holds_at(s, j, f) {
        assert forall|m: int| 0 <= m < t.len() implies (#[trigger] t[m]).topic_filter != f by {
            let m2 = if m < j { m } else { m + 1 };
            assert(t[m] == s[m2]);
            lemma_key_injective(s[m2].topic_filter, f);
            lemma_bytes_lt_irreflexive(k);
            if m2 > j {
                assert(spec_bytes_lt(spec_key(s[j]), spec_key(s[m2])));
            } else {
                assert(spec_bytes_lt(spec_key(s[m2]), k));
            }
        }
        assert forall|m: int| 0 <= m < t.len() && (forall|m1: int| 0 <= m1 < s.len() ==> (#[trigger] s[m1]).topic_filter != g)
            implies (#[trigger] t[m]).topic_filter != g by {
            let m2 = if m < j { m } else { m + 1 };
            assert(t[m] == s[m2]);
        }
    } else {
        assert forall|m: int| 0 <= m < t.len() implies (#[trigger] t[m]).topic_filter != f by {
            assert(t[m] == s[m]);
            lemma_key_injective(s[m].topic_filter, f);
            lemma_bytes_lt_irreflexive(k);
            if m < j {
                assert(spec_bytes_lt(spec_key(s[m]), k));
            } else {
                lemma_key_injective(s[j].topic_filter, f);
                assert(spec_key(s[j]) != k);
                assert(spec_bytes_lt(k, spec_key(s[m])));
            }
        }
    }
}

/// The UNSUBACK fold keeps the entries sorted, and every pending filter whose
/// Reason Code says that it is gone on the server is no longer confirmed.
proof fn lemma_unsuback_fold_removes(st: ActiveView, pending: Seq<Seq<char>>, codes: Seq<u8>, n: nat)
    requires
        spec_sorted(st.active),
        n <= pending.len(),
    ensures
        spec_sorted(spec_unsuback_fold(st, pending, codes, n).0.active),
        forall|i: int, m: int|
            0 <= i < n && spec_removed_on_server(codes, i) && 0 <= m < spec_unsuback_fold(st, pending, codes, n).0.active.len()
                ==> (#[trigger] spec_unsuback_fold(st, pending, codes, n).0.active[m]).topic_filter != #[trigger] pending[i],
    decreases n,
{
    if n > 0 {
        let n1 = (n - 1) as nat;
        lemma_unsuback_fold_removes(st, pending, codes, n1);
        let st1 = spec_unsuback_fold(st, pending, codes, n1).0;
        let f = pending[n - 1];
        let st2 = spec_unsuback_fold(st, pending, codes, n).0;
        if spec_removed_on_server(codes, n - 1) && spec_find(st1.active, f) is Some {
            lemma_remove_sorted(st1.active, f);
            assert forall|i: int, m: int|
                0 <= i < n && spec_removed_on_server(codes, i) && 0 <= m < st2.active.len()
                    implies (#[trigger] st2.active[m]).topic_filter != #[trigger] pending[i] by {
                lemma_remove_filter_absent(st1.active, f, pending[i]);
                if i < n - 1 {
                    assert forall|m1: int| 0 <= m1 < st1.active.len() implies (#[trigger] st1.active[m1]).topic_filter
                        != pending[i] by {
                        assert(spec_unsuback_fold(st, pending, codes, n1).0.active[m1] == st1.active[m1]);
                    }
                }
            }
        } else {
            assert(st2 == st1);
            assert forall|i: int, m: int|
                0 <= i < n && spec_removed_on_server(codes, i) && 0 <= m < st2.active.len()
                    implies (#[trigger] st2.active[m]).topic_filter != #[trigger] pending[i] by {
                if i == n - 1 {
                    lemma_remove_filter_absent(st1.active, f, f);
                    let j = spec_lower_bound(st1.active, spec_utf8(f)) as int;
                    assert(!spec_holds_at(st1.active, j, f));
                    assert(spec_remove_filter(st1.active, f) == st1.active);
                    assert(spec_remove_filter(st1.active, f)[m] == st1.active[m]);
                } else {
                    assert(spec_unsuback_fold(st, pending, codes, n1).0.active[m] == st1.active[m]);
                }
            }
        }
    }
}

/// The UNSUBACK fold over codes that all report a failure (0x80 or more)
/// changes nothing and reports nothing.
proof fn lemma_unsuback_fold_failures(st: ActiveView, pending: Seq<Seq<char>>, codes: Seq<u8>, n: nat)
    requires
        n <= pending.len(),
        n <= codes.len(),
        forall|i: int| 0 <= i < n ==> #[trigger] codes[i] >= 0x80,
    ensures
        spec_unsuback_fold(st, pending, codes, n) == (st, Seq::<Seq<char>>::empty()),
    decreases n,
{
    if n > 0 {
        lemma_unsuback_fold_failures(st, pending, codes, (n - 1) as nat);
        assert(codes[n - 1] >= 0x80);
    }
}

/// What an UNSUBACK does to the confirmed subscriptions (MQTT v5.0 §3.11.3):
/// every Topic Filter whose Reason Code is 0x00 (Success) or 0x11 (No
/// subscription existed), or every one under MQTT v3.1.1, which sends no codes,
/// is no longer confirmed afterwards; a single confirmed filter so answered is
/// reported as removed; and when every code is a failure (0x80 or more), the
/// confirmed subscriptions stay as they are and nothing is reported.
pub proof fn lemma_unsuback_effect(st: ActiveView, pending: Seq<Seq<char>>, codes: Seq<u8>)
    requires
        spec_sorted(st.active),
        codes.len() == 0 || codes.len() == pending.len(),
    ensures
        forall|i: int, m: int|
            0 <= i < pending.len() && (codes.len() == 0 || codes[i] == 0x00 || codes[i] == 0x11) && 0 <= m
                < spec_unsuback_fold(st, pending, codes, pending.len()).0.active.len()
                ==> (#[trigger] spec_unsuback_fold(st, pending, codes, pending.len()).0.active[m]).topic_filter
                != #[trigger] pending[i],
        pending.len() == 1 && (codes.len() == 0 || codes[0] == 0x00 || codes[0] == 0x11) && spec_find(
            st.active,
            pending[0],
        ) is Some ==> spec_unsuback_fold(st, pending, codes, 1).1 == seq![pending[0]],
        codes.len() == pending.len() && (forall|i: int| 0 <= i < codes.len() ==> #[trigger] codes[i] >= 0x80)
            ==> spec_unsuback_fold(st, pending, codes, pending.len()) == (st, Seq::<Seq<char>>::empty()),
{
    lemma_unsuback_fold_removes(st, pending, codes, pending.len());
    if codes.len() == pending.len() && (forall|i: int| 0 <= i < codes.len() ==> #[trigger] codes[i] >= 0x80) {
        lemma_unsuback_fold_failures(st, pending, codes, pending.len());
    }
    if pending.len() == 1 {
        assert(spec_unsuback_fold(st, pending, codes, 0) == (st, Seq::<Seq<char>>::empty()));
        assert(Seq::<Seq<char>>::empty().push(pending[0]) =~= seq![pending[0]]);
    }
}

} // verus!
