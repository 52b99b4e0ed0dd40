//! Topic Alias mappings (MQTT v5.0 §3.3.2.3.4).
//!
//! On receipt an alias is resolved to a Topic Name; for sending a Topic Name is
//! registered under an alias. Alias 0 is never mapped, and the mappings are
//! cleared on every new connection.

use vstd::prelude::*;

use crate::codec::utf8_string::str_eq;
use crate::state::auth::spec_opt_string;

verus! {

/// A table of alias entries as a sequence: the entry at index `a` is the Topic
/// Name mapped to alias `a`, if any.
pub open spec fn spec_table(v: Seq<Option<String>>) -> Seq<Option<Seq<char>>> {
    v.map_values(|e: Option<String>| spec_opt_string(e))
}

/// The entry for `alias` in `t`; indices beyond the table hold nothing.
pub open spec fn spec_lookup(t: Seq<Option<Seq<char>>>, alias: int) -> Option<Seq<char>> {
    if 0 <= alias < t.len() {
        t[alias]
    } else {
        None
    }
}

/// `t` lengthened with empty entries to at least `n` entries.
pub open spec fn spec_ensure_len(t: Seq<Option<Seq<char>>>, n: nat) -> Seq<Option<Seq<char>>> {
    if t.len() >= n {
        t
    } else {
        t + Seq::new((n - t.len()) as nat, |i: int| None::<Seq<char>>)
    }
}

/// The number of mapped entries in `t`.
pub open spec fn spec_count_mapped(t: Seq<Option<Seq<char>>>) -> nat
    decreases t.len(),
{
    if t.len() == 0 {
        0
    } else {
        spec_count_mapped(t.drop_last()) + if t.last() is Some {
            1nat
        } else {
            0nat
        }
    }
}

/// Whether `alias` is the smallest alias in `1..=max` that `t` maps to `topic`.
pub open spec fn spec_first_alias_of(
    t: Seq<Option<Seq<char>>>,
    max: u16,
    topic: Seq<char>,
    alias: u16,
) -> bool {
    &&& 0 < alias <= max
    &&& spec_lookup(t, alias as int) == Some(topic)
    &&& forall|a: int| 0 < a < alias ==> #[trigger] spec_lookup(t, a) != Some(topic)
}

/// Whether no alias in `1..=max` is mapped to `topic` in `t`.
pub open spec fn spec_no_alias_of(t: Seq<Option<Seq<char>>>, max: u16, topic: Seq<char>) -> bool {
    forall|a: int| 0 < a <= max ==> #[trigger] spec_lookup(t, a) != Some(topic)
}

/// Whether every alias in `1..=max` is mapped in `t`.
pub open spec fn spec_all_mapped(t: Seq<Option<Seq<char>>>, max: u16) -> bool {
    forall|a: int| 0 < a <= max ==> #[trigger] spec_lookup(t, a) is Some
}

/// The abstract state of a [`TopicAliasManager`].
pub struct TopicAliasView {
    /// Received aliases: alias to Topic Name.
    pub recv: Seq<Option<Seq<char>>>,
    /// Aliases registered for sending: alias to Topic Name.
    pub send: Seq<Option<Seq<char>>>,
    /// Our Topic Alias Maximum, sent in CONNECT.
    pub own_maximum: u16,
    /// The peer's Topic Alias Maximum, from CONNACK.
    pub peer_maximum: u16,
}

/// Appending an entry to a table appends its characters to the table's view.
proof fn lemma_table_push(v: Seq<Option<String>>, e: Option<String>)
    ensures
        spec_table(v.push(e)) == spec_table(v).push(spec_opt_string(e)),
        spec_table(v).len() == v.len(),
{
    assert(spec_table(v.push(e)) =~= spec_table(v).push(spec_opt_string(e)));
}

/// Lengthening one entry further appends one empty entry.
proof fn lemma_ensure_len_push(t: Seq<Option<Seq<char>>>, n: nat)
    requires
        n >= t.len(),
    ensures
        spec_ensure_len(t, n).push(None) == spec_ensure_len(t, n + 1),
        spec_ensure_len(t, n).len() == n,
{
    assert(spec_ensure_len(t, n).push(None) =~= spec_ensure_len(t, n + 1));
}

/// The length of a lengthened table.
proof fn lemma_ensure_len_len(t: Seq<Option<Seq<char>>>, n: nat)
    ensures
        spec_ensure_len(t, n).len() == if t.len() >= n {
            t.len()
        } else {
            n
        },
        forall|a: int| #[trigger] spec_lookup(spec_ensure_len(t, n), a) == spec_lookup(t, a),
{
    assert forall|a: int| #[trigger] spec_lookup(spec_ensure_len(t, n), a) == spec_lookup(t, a) by {
        if t.len() < n && t.len() <= a < n {
            assert(spec_ensure_len(t, n)[a] == None::<Seq<char>>);
        }
    }
}

/// Lengthens `table` with empty entries to at least `index + 1` entries.
fn ensure_capacity(table: &mut Vec<Option<String>>, index: usize)
    requires
        index <= 65535,
    ensures
        spec_table(final(table)@) == spec_ensure_len(spec_table(old(table)@), (index + 1) as nat),
{
    let ghost start = spec_table(table@);
    while table.len() <= index
        invariant
            index <= 65535,
            spec_table(table@) == spec_ensure_len(start, table@.len()),
            table@.len() == start.len() || table@.len() <= index + 1,
            table@.len() >= start.len(),
        decreases index + 1 - table@.len(),
    {
        let ghost before = table@;
        proof {
            lemma_table_push(before, None);
            lemma_ensure_len_push(start, before.len());
        }
        table.push(None);
    }
    proof {
        lemma_table_push(table@, None);
    }
}

/// The two-way Topic Alias state machine.
#[derive(Debug)]
pub struct TopicAliasManager {
    alias_to_topic: Vec<Option<String>>,
    topic_to_alias: Vec<Option<String>>,
    own_maximum: u16,
    peer_maximum: u16,
}

impl View for TopicAliasManager {
    type V = TopicAliasView;

    closed spec fn view(&self) -> TopicAliasView {
        TopicAliasView {
            recv: spec_table(self.alias_to_topic@),
            send: spec_table(self.topic_to_alias@),
            own_maximum: self.own_maximum,
            peer_maximum: self.peer_maximum,
        }
    }
}

/// Clones an optional string.
fn clone_entry(e: &Option<String>) -> (r: Option<String>)
    ensures
        spec_opt_string(r) == spec_opt_string(*e),
{
    match e {
        Some(s) => Some(s.clone()),
        None => None,
    }
}

impl TopicAliasManager {
    /// The manager's invariant: both tables stay within the 65536 entries that
    /// aliases 0 to 65535 need.
    pub open spec fn wf(&self) -> bool {
        self@.recv.len() <= 65536 && self@.send.len() <= 65536
    }

    /// Creates a manager without mappings and with both maxima 0, so that no
    /// alias can be used.
    pub fn new() -> (r: Self)
        ensures
            r.wf(),
            r@ == (TopicAliasView {
                recv: Seq::empty(),
                send: Seq::empty(),
                own_maximum: 0,
                peer_maximum: 0,
            }),
    {
        let r = Self {
            alias_to_topic: Vec::new(),
            topic_to_alias: Vec::new(),
            own_maximum: 0,
            peer_maximum: 0,
        };
        assert(r@.recv =~= Seq::empty());
        assert(r@.send =~= Seq::empty());
        r
    }

    /// Sets our Topic Alias Maximum, from the CONNECT's Topic Alias Maximum
    /// property: the largest alias we accept from the peer.
    pub fn set_own_maximum(&mut self, max: u16)
        requires
            old(self).wf(),
        ensures
            final(self).wf(),
            final(self)@ == (TopicAliasView {
                own_maximum: max,
                recv: spec_ensure_len(old(self)@.recv, (max + 1) as nat),
                ..old(self)@
            }),
    {
        self.own_maximum = max;
        ensure_capacity(&mut self.alias_to_topic, max as usize);
    }

    /// Sets the peer's Topic Alias Maximum, from the CONNACK's Topic Alias
    /// Maximum property: the largest alias the peer accepts from us.
    pub fn set_peer_maximum(&mut self, max: u16)
        requires
            old(self).wf(),
        ensures
            final(self).wf(),
            final(self)@ == (TopicAliasView {
                peer_maximum: max,
                send: spec_ensure_len(old(self)@.send, (max + 1) as nat),
                ..old(self)@
            }),
    {
        self.peer_maximum = max;
        ensure_capacity(&mut self.topic_to_alias, max as usize);
    }

    /// Returns the peer's Topic Alias Maximum.
    pub fn peer_maximum(&self) -> (r: u16)
        ensures
            r == self@.peer_maximum,
    {
        self.peer_maximum
    }

    /// Returns our Topic Alias Maximum.
    pub fn own_maximum(&self) -> (r: u16)
        ensures
            r == self@.own_maximum,
    {
        self.own_maximum
    }

    /// Resolves the Topic Alias of a received PUBLISH.
    ///
    /// With alias 0 the Topic Name is returned as it is (`None` if it is empty).
    /// An alias above our maximum resolves to `None`. With an empty Topic Name the
    /// alias is looked up; otherwise the alias is mapped to the Topic Name, which
    /// is returned.
    pub fn resolve_on_receive(&mut self, topic_name: &str, topic_alias: u16) -> (r: Option<String>)
        requires
            old(self).wf(),
        ensures
            final(self).wf(),
            topic_alias == 0 ==> final(self)@ == old(self)@ && spec_opt_string(r) == (if topic_name@.len()
                == 0 {
                None
            } else {
                Some(topic_name@)
            }),
            topic_alias != 0 && topic_alias > old(self)@.own_maximum ==> final(self)@ == old(self)@
                && r is None,
            topic_alias != 0 && topic_alias <= old(self)@.own_maximum && topic_name@.len() == 0
                ==> final(self)@ == old(self)@ && spec_opt_string(r) == spec_lookup(
                old(self)@.recv,
                topic_alias as int,
            ),
            topic_alias != 0 && topic_alias <= old(self)@.own_maximum && topic_name@.len() != 0
                ==> final(self)@ == (TopicAliasView {
                recv: spec_ensure_len(old(self)@.recv, (topic_alias + 1) as nat).update(
                    topic_alias as int,
                    Some(topic_name@),
                ),
                ..old(self)@
            }) && spec_opt_string(r) == Some(topic_name@),
    {
        if topic_alias == 0 {
            if topic_name.is_empty() {
                return None;
            }
            return Some(topic_name.to_owned());
        }
        if topic_alias > self.own_maximum {
            return None;
        }
        let idx = topic_alias as usize;
        if topic_name.is_empty() {
            if idx < self.alias_to_topic.len() {
                clone_entry(&self.alias_to_topic[idx])
            } else {
                None
            }
        } else {
            ensure_capacity(&mut self.alias_to_topic, idx);
            proof {
                lemma_table_push(self.alias_to_topic@, None);
            }
            self.alias_to_topic.set(idx, Some(topic_name.to_owned()));
            assert(spec_table(self.alias_to_topic@) =~= spec_ensure_len(
                old(self)@.recv,
                (topic_alias + 1) as nat,
            ).update(topic_alias as int, Some(topic_name@)));
            Some(topic_name.to_owned())
        }
    }

    /// Looks up the alias registered for sending `topic_name`: the smallest alias
    /// in `1..=peer_maximum` mapped to it, or `None`.
    pub fn find_alias_for_topic(&self, topic_name: &str) -> (r: Option<u16>)
        requires
            self.wf(),
        ensures
            r matches Some(a) ==> spec_first_alias_of(
                self@.send,
                self@.peer_maximum,
                topic_name@,
                a,
            ),
            r is None ==> spec_no_alias_of(self@.send, self@.peer_maximum, topic_name@),
    {
        if self.peer_maximum == 0 {
            return None;
        }
        let ghost t = self@.send;
        let mut i: usize = 0;
        while i < self.topic_to_alias.len()
            invariant
                t == spec_table(self.topic_to_alias@),
                t.len() <= 65536,
                i <= t.len(),
                forall|a: int| 0 < a < i && a <= self.peer_maximum ==> #[trigger] spec_lookup(t, a)
                    != Some(topic_name@),
            decreases t.len() - i,
        {
            let hit = match &self.topic_to_alias[i] {
                Some(name) => str_eq(name.as_str(), topic_name),
                None => false,
            };
            assert(hit == (spec_lookup(t, i as int) == Some(topic_name@)));
            if hit {
                let alias = i as u16;
                if alias > 0 && alias <= self.peer_maximum {
                    return Some(alias);
                }
            }
            i = i + 1;
        }
        None
    }

    /// Registers `topic_name` for sending and returns its alias.
    ///
    /// An alias already registered for it is returned. Otherwise the smallest free
    /// alias in `1..=peer_maximum` is mapped to it. When every alias is taken, or
    /// the peer's maximum is 0, `None` is returned and no mapping changes.
    #[verifier::loop_isolation(false)]
    pub fn register_for_send(&mut self, topic_name: &str) -> (r: Option<u16>)
        requires
            old(self).wf(),
        ensures
            final(self).wf(),
            final(self)@.recv == old(self)@.recv,
            final(self)@.own_maximum == old(self)@.own_maximum,
            final(self)@.peer_maximum == old(self)@.peer_maximum,
            old(self)@.peer_maximum == 0 ==> r is None && final(self)@ == old(self)@,
            r matches Some(a) ==> 0 < a <= old(self)@.peer_maximum && spec_lookup(
                final(self)@.send,
                a as int,
            ) == Some(topic_name@),
            old(self)@.peer_maximum != 0 && !spec_no_alias_of(
                old(self)@.send,
                old(self)@.peer_maximum,
                topic_name@,
            ) ==> final(self)@ == old(self)@ && (r matches Some(a) && spec_first_alias_of(
                old(self)@.send,
                old(self)@.peer_maximum,
                topic_name@,
                a,
            )),
            old(self)@.peer_maximum != 0 && spec_no_alias_of(
                old(self)@.send,
                old(self)@.peer_maximum,
                topic_name@,
            ) ==> match r {
                Some(a) => {
                    &&& spec_lookup(old(self)@.send, a as int) is None
                    &&& forall|b: int| 0 < b < a ==> #[trigger] spec_lookup(old(self)@.send, b) is Some
                    &&& final(self)@.send == spec_ensure_len(
                        old(self)@.send,
                        (old(self)@.peer_maximum + 1) as nat,
                    ).update(a as int, Some(topic_name@))
                },
                None => spec_all_mapped(old(self)@.send, old(self)@.peer_maximum) && forall|
                    a: int,
                | #[trigger] spec_lookup(final(self)@.send, a) == spec_lookup(old(self)@.send, a),
            },
    {
        if self.peer_maximum == 0 {
            return None;
        }
        if let Some(alias) = self.find_alias_for_topic(topic_name) {
            return Some(alias);
        }
        let max = self.peer_maximum as usize;
        ensure_capacity(&mut self.topic_to_alias, max);
        proof {
            lemma_table_push(self.topic_to_alias@, None);
        }
        let ghost t0 = old(self)@.send;
        let ghost t1 = spec_table(self.topic_to_alias@);
        proof {
            lemma_ensure_len_len(t0, (max + 1) as nat);
        }
        let mut alias: usize = 1;
        while alias <= max
            invariant
                1 <= alias <= max + 1,
                max <= 65535,
                max == old(self)@.peer_maximum,
                t1 == spec_table(self.topic_to_alias@),
                t1 == spec_ensure_len(t0, (max + 1) as nat),
                t1.len() >= max + 1,
                t1.len() == self.topic_to_alias@.len(),
                t0.len() <= 65536,
                spec_no_alias_of(t0, old(self)@.peer_maximum, topic_name@),
                t1.len() <= 65536,
                forall|a: int| #[trigger] spec_lookup(t1, a) == spec_lookup(t0, a),
                forall|b: int| 0 < b < alias ==> #[trigger] spec_lookup(t0, b) is Some,
                self.own_maximum == old(self)@.own_maximum,
                self.peer_maximum == old(self)@.peer_maximum,
                spec_table(self.alias_to_topic@) == old(self)@.recv,
            decreases max + 1 - alias,
        {
            assert(spec_lookup(t1, alias as int) == spec_lookup(t0, alias as int));
            if self.topic_to_alias[alias].is_none() {
                self.topic_to_alias.set(alias, Some(topic_name.to_owned()));
                assert(spec_table(self.topic_to_alias@) =~= t1.update(
                    alias as int,
                    Some(topic_name@),
                ));
                return Some(alias as u16);
            }
            alias = alias + 1;
        }
        None
    }

    /// Clears the mappings in both directions, keeping the maxima.
    ///
    /// Topic Alias mappings must not outlive a Network Connection
    /// (MQTT v5.0 §3.3.2.3.4 [MQTT-3.3.2-7]); call it for every new connection.
    pub fn reset_mappings(&mut self)
        ensures
            final(self).wf(),
            final(self)@ == (TopicAliasView {
                recv: Seq::empty(),
                send: Seq::empty(),
                ..old(self)@
            }),
    {
        self.alias_to_topic.clear();
        self.topic_to_alias.clear();
        assert(spec_table(self.alias_to_topic@) =~= Seq::empty());
        assert(spec_table(self.topic_to_alias@) =~= Seq::empty());
    }

    /// Clears all mappings and both maxima.
    pub fn reset(&mut self)
        ensures
            final(self).wf(),
            final(self)@ == (TopicAliasView {
                recv: Seq::empty(),
                send: Seq::empty(),
                own_maximum: 0,
                peer_maximum: 0,
            }),
    {
        self.alias_to_topic.clear();
        self.topic_to_alias.clear();
        self.own_maximum = 0;
        self.peer_maximum = 0;
        assert(spec_table(self.alias_to_topic@) =~= Seq::empty());
        assert(spec_table(self.topic_to_alias@) =~= Seq::empty());
    }

    /// Returns the number of mapped aliases, in both directions together.
    pub fn alias_count(&self) -> (r: usize)
        requires
            self.wf(),
        ensures
            r == spec_count_mapped(self@.recv) + spec_count_mapped(self@.send),
    {
        let a = count_mapped(&self.alias_to_topic);
        let b = count_mapped(&self.topic_to_alias);
        a + b
    }
}

/// Counts the mapped entries of a table.
fn count_mapped(v: &Vec<Option<String>>) -> (r: usize)
    requires
        v@.len() <= 65536,
    ensures
        r == spec_count_mapped(spec_table(v@)),
        r <= v@.len(),
{
    let mut n: usize = 0;
    let mut i: usize = 0;
    while i < v.len()
        invariant
            i <= v@.len() <= 65536,
            n == spec_count_mapped(spec_table(v@).take(i as int)),
            n <= i,
        decreases v@.len() - i,
    {
        let ghost t = spec_table(v@);
        assert(t.take(i + 1).drop_last() =~= t.take(i as int));
        if v[i].is_some() {
            n = n + 1;
        }
        i = i + 1;
    }
    assert(spec_table(v@).take(i as int) =~= spec_table(v@));
    n
}

impl Clone for TopicAliasManager {
    fn clone(&self) -> (r: Self)
        ensures
            r@ == self@,
    {
        Self {
            alias_to_topic: clone_table(&self.alias_to_topic),
            topic_to_alias: clone_table(&self.topic_to_alias),
            own_maximum: self.own_maximum,
            peer_maximum: self.peer_maximum,
        }
    }
}

/// Copies a table entry by entry.
fn clone_table(v: &Vec<Option<String>>) -> (r: Vec<Option<String>>)
    ensures
        spec_table(r@) == spec_table(v@),
        r@.len() == v@.len(),
{
    let mut r: Vec<Option<String>> = Vec::new();
    let mut i: usize = 0;
    while i < v.len()
        invariant
            i <= v@.len(),
            r@.len() == i,
            spec_table(r@) == spec_table(v@).take(i as int),
        decreases v@.len() - i,
    {
        r.push(clone_entry(&v[i]));
        i = i + 1;
        assert(spec_table(r@) =~= spec_table(v@).take(i as int));
    }
    assert(spec_table(v@).take(i as int) =~= spec_table(v@));
    r
}

impl Default for TopicAliasManager {
    fn default() -> (r: Self)
        ensures
            r.wf(),
            r@ == (TopicAliasView {
                recv: Seq::empty(),
                send: Seq::empty(),
                own_maximum: 0,
                peer_maximum: 0,
            }),
    {
        Self::new()
    }
}

/// A received alias that was mapped to a Topic Name resolves to that Topic
/// Name afterwards, until the mappings are cleared.
pub proof fn lemma_received_alias_resolves(v: TopicAliasView, topic: Seq<char>, alias: u16)
    requires
        alias != 0,
        alias <= v.own_maximum,
        v.recv.len() <= 65536,
    ensures
        spec_lookup(spec_ensure_len(v.recv, (alias + 1) as nat).update(alias as int, Some(topic)), alias as int)
            == Some(topic),
{
    lemma_ensure_len_len(v.recv, (alias + 1) as nat);
}

/// A Topic Name newly registered for sending under the smallest free alias is
/// then found under that alias, and under no other: the alias that
/// [`TopicAliasManager::find_alias_for_topic`] reports is the one that
/// [`TopicAliasManager::register_for_send`] handed out.
pub proof fn lemma_registered_alias_found(
    send: Seq<Option<Seq<char>>>,
    max: u16,
    topic: Seq<char>,
    alias: u16,
    found: u16,
)
    requires
        spec_no_alias_of(send, max, topic),
        0 < alias <= max,
        spec_lookup(send, alias as int) is None,
        forall|b: int| 0 < b < alias ==> #[trigger] spec_lookup(send, b) is Some,
        spec_first_alias_of(
            spec_ensure_len(send, (max + 1) as nat).update(alias as int, Some(topic)),
            max,
            topic,
            found,
        ),
    ensures
        found == alias,
        spec_first_alias_of(
            spec_ensure_len(send, (max + 1) as nat).update(alias as int, Some(topic)),
            max,
            topic,
            alias,
        ),
{
    let t = spec_ensure_len(send, (max + 1) as nat);
    let u = t.update(alias as int, Some(topic));
    lemma_ensure_len_len(send, (max + 1) as nat);
    assert forall|a: int| 0 < a < alias implies #[trigger] spec_lookup(u, a) != Some(topic) by {
        assert(spec_lookup(u, a) == spec_lookup(t, a));
        assert(spec_lookup(t, a) == spec_lookup(send, a));
    }
    assert(spec_lookup(u, alias as int) == Some(topic));
    if found < alias {
        assert(spec_lookup(u, found as int) != Some(topic));
    }
    if found > alias {
        assert(spec_lookup(u, alias as int) == Some(topic));
    }
}

} // verus!
