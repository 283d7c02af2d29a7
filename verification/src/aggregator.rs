//! Key-based merging of CPU-time measurements.
//!
//! The aggregator's single consuming task receives completion events keyed by
//! an opaque token and merges each into a map from token to accumulated
//! usage. The map is owned by that one task alone; the channel that carries
//! the events is the surrounding binary's concern. The invariant carried here
//! is the one the design rests on: every entry equals the field-wise sum of
//! every measurement ever delivered for its token.

use vstd::prelude::*;
use crate::usage::TimingInfo;
use crate::usage::lemma_sum_permutation;
use crate::usage::merged;
use crate::usage::sum_usages;
use crate::usage::zero_usage;

verus! {

/// Message consumed by the aggregator's task.
#[derive(Clone, Copy, Debug, PartialEq, Eq, Structural)]
pub enum LoggingMessage {
    /// One resolved completion primitive's measurement, keyed by its token.
    ProcessCompleted { token: u32, timing_info: TimingInfo },
    /// Ask for a stable snapshot of the merged map; mutates nothing.
    Dump,
}

/// Whether some pair in `s` carries token `t`.
pub open spec fn has_token(s: Seq<(u32, TimingInfo)>, t: u32) -> bool {
    exists|i: int| 0 <= i < s.len() && (#[trigger] s[i]).0 == t
}

/// The index of the pair carrying token `t`, where one exists.
pub open spec fn token_index(s: Seq<(u32, TimingInfo)>, t: u32) -> int {
    choose|i: int| 0 <= i < s.len() && (#[trigger] s[i]).0 == t
}

/// The measurement stored for token `t`, if any pair carries it.
pub open spec fn lookup(s: Seq<(u32, TimingInfo)>, t: u32) -> Option<TimingInfo> {
    if has_token(s, t) {
        Some(s[token_index(s, t)].1)
    } else {
        None
    }
}

/// Tokens strictly ascending: sorted, and no token twice.
pub open spec fn strictly_sorted(s: Seq<(u32, TimingInfo)>) -> bool {
    forall|i: int, j: int| 0 <= i < j < s.len() ==> s[i].0 < s[j].0
}

/// The measurements delivered for token `t`, in delivery order.
pub open spec fn usages_for(s: Seq<(u32, TimingInfo)>, t: u32) -> Seq<TimingInfo>
    decreases s.len(),
{
    if s.len() == 0 {
        Seq::empty()
    } else {
        let rest = usages_for(s.drop_last(), t);
        if s.last().0 == t {
            rest.push(s.last().1)
        } else {
            rest
        }
    }
}

/// In a strictly sorted sequence the pair at any index is the one `lookup`
/// finds for its token.
pub proof fn lemma_lookup_at(s: Seq<(u32, TimingInfo)>, i: int)
    requires
        strictly_sorted(s),
        0 <= i < s.len(),
    ensures
        lookup(s, s[i].0) == Some(s[i].1),
{
    let t = s[i].0;
    assert(has_token(s, t));
    let j = token_index(s, t);
    if j < i {
        assert(s[j].0 < s[i].0);
    } else if i < j {
        assert(s[i].0 < s[j].0);
    }
}

/// Delivering one more pair extends exactly its own token's measurements.
proof fn lemma_usages_for_push(s: Seq<(u32, TimingInfo)>, t: u32, p: (u32, TimingInfo))
    ensures
        p.0 == t ==> usages_for(s.push(p), t) == usages_for(s, t).push(p.1),
        p.0 != t ==> usages_for(s.push(p), t) == usages_for(s, t),
{
    assert(s.push(p).drop_last() =~= s);
    assert(s.push(p).last() == p);
}

/// A token no pair carries has no measurements.
proof fn lemma_usages_for_absent(s: Seq<(u32, TimingInfo)>, t: u32)
    requires
        !has_token(s, t),
    ensures
        usages_for(s, t) =~= Seq::<TimingInfo>::empty(),
    decreases s.len(),
{
    if s.len() > 0 {
        assert(!has_token(s.drop_last(), t)) by {
            if has_token(s.drop_last(), t) {
                let i = token_index(s.drop_last(), t);
                assert(s[i].0 == t);
            }
        }
        lemma_usages_for_absent(s.drop_last(), t);
        assert(s[s.len() - 1].0 != t);
    }
}

/// Appending one measurement combines it into the sum last.
proof fn lemma_sum_usages_push(s: Seq<TimingInfo>, u: TimingInfo)
    ensures
        sum_usages(s.push(u)) == merged(sum_usages(s), u),
{
    assert(s.push(u).drop_last() =~= s);
    assert(s.push(u).last() == u);
}

/// The map from token to accumulated CPU usage, owned exclusively by the
/// aggregator's single consuming task. Entries are kept in strictly
/// ascending token order, so a dump enumerates them in a stable sorted
/// order. The ghost delivery history records every event ever merged; the
/// well-formedness invariant ties each entry to the sum over that history.
pub struct AggregationMap {
    entries: Vec<(u32, TimingInfo)>,
    deliveries: Ghost<Seq<(u32, TimingInfo)>>,
}

impl AggregationMap {
    /// The stored entries, ascending by token.
    pub closed spec fn entries_seq(self) -> Seq<(u32, TimingInfo)> {
        self.entries@
    }

    /// Every `(token, usage)` event ever merged, in delivery order.
    pub closed spec fn deliveries_seq(self) -> Seq<(u32, TimingInfo)> {
        self.deliveries@
    }

    /// The entry stored for a token, if any.
    pub open spec fn entry_for(self, t: u32) -> Option<TimingInfo> {
        lookup(self.entries_seq(), t)
    }

    /// The entry stored for a token, an absent one read as the zero usage.
    pub open spec fn entry_or_zero(self, t: u32) -> TimingInfo {
        match self.entry_for(t) {
            Some(u) => u,
            None => zero_usage(),
        }
    }

    /// Entries are strictly sorted by token; a token has an entry exactly
    /// when something was delivered for it; and each entry equals the
    /// field-wise sum of every measurement ever delivered for its token.
    pub open spec fn wf(self) -> bool {
        &&& strictly_sorted(self.entries_seq())
        &&& forall|t: u32| has_token(self.entries_seq(), t) <==> has_token(self.deliveries_seq(), t)
        &&& forall|i: int|
            0 <= i < self.entries_seq().len() ==> (#[trigger] self.entries_seq()[i]).1
                == sum_usages(usages_for(self.deliveries_seq(), self.entries_seq()[i].0))
    }

    /// An empty map: no entries, nothing delivered yet.
    pub fn new() -> (m: AggregationMap)
        ensures
            m.wf(),
            m.entries_seq() == Seq::<(u32, TimingInfo)>::empty(),
            m.deliveries_seq() == Seq::<(u32, TimingInfo)>::empty(),
            forall|t: u32| m.entry_for(t) is None,
    {
        let m = AggregationMap { entries: Vec::new(), deliveries: Ghost(Seq::empty()) };
        proof {
            assert forall|t: u32| m.entry_for(t) is None by {
                assert(!has_token(m.entries_seq(), t));
            }
        }
        m
    }

    /// Merge one delivered measurement into the entry for its token, an
    /// absent entry read as the zero usage. Every other entry stays as it
    /// was, and the entries stay strictly sorted by token.
    #[verifier::loop_isolation(false)]
    pub fn record(&mut self, token: u32, usage: TimingInfo)
        requires
            old(self).wf(),
        ensures
            final(self).wf(),
            final(self).deliveries_seq() == old(self).deliveries_seq().push((token, usage)),
            final(self).entry_for(token) == Some(merged(old(self).entry_or_zero(token), usage)),
            forall|t: u32| t != token ==> final(self).entry_for(t) == old(self).entry_for(t),
    {
        let ghost d = self.deliveries@;
        let ghost d2 = d.push((token, usage));
        let ghost olds = self.entries@;

        let mut i: usize = 0;
        while i < self.entries.len() && self.entries[i].0 < token
            invariant
                i <= self.entries.len(),
                forall|k: int| 0 <= k < i ==> (#[trigger] self.entries@[k]).0 < token,
            decreases self.entries.len() - i,
        {
            i = i + 1;
        }

        proof {
            lemma_usages_for_push(d, token, (token, usage));
            assert forall|t: u32| t != token implies usages_for(d2, t) == usages_for(d, t) by {
                lemma_usages_for_push(d, t, (token, usage));
            }
            assert forall|t: u32| t != token implies (has_token(d2, t) <==> has_token(d, t)) by {
                if has_token(d2, t) {
                    let k = token_index(d2, t);
                    assert(d2[k].0 == t);
                    assert(k < d.len() && d[k] == d2[k]);
                }
                if has_token(d, t) {
                    let k = token_index(d, t);
                    assert(d2[k] == d[k]);
                }
            }
            assert(has_token(d2, token)) by {
                assert(d2[d2.len() - 1].0 == token);
            }
        }

        if i < self.entries.len() && self.entries[i].0 == token {
            let cur = self.entries[i].1;
            let m = cur.merge(&usage);
            self.entries[i] = (token, m);
            self.deliveries = Ghost(d2);
            proof {
                let news = self.entries@;
                assert(news =~= olds.update(i as int, (token, m)));
                lemma_sum_usages_push(usages_for(d, token), usage);
                lemma_lookup_at(olds, i as int);
                assert(lookup(olds, token) == Some(cur));
                assert forall|t: u32| has_token(news, t) <==> has_token(olds, t) by {
                    if has_token(news, t) {
                        let k = token_index(news, t);
                        assert(olds[k].0 == news[k].0);
                    }
                    if has_token(olds, t) {
                        let k = token_index(olds, t);
                        assert(news[k].0 == olds[k].0);
                    }
                }
                assert(strictly_sorted(news));
                assert forall|k: int| 0 <= k < news.len() implies (#[trigger] news[k]).1
                    == sum_usages(usages_for(d2, news[k].0)) by {
                    if k == i as int {
                        assert(news[k].1 == merged(sum_usages(usages_for(d, token)), usage));
                    } else {
                        assert(news[k] == olds[k]);
                        assert(olds[k].0 != token) by {
                            if k < i as int {
                                assert(olds[k].0 < olds[i as int].0);
                            } else {
                                assert(olds[i as int].0 < olds[k].0);
                            }
                        }
                    }
                }
                lemma_lookup_at(news, i as int);
                assert forall|t: u32| t != token implies lookup(news, t) == lookup(olds, t) by {
                    if has_token(olds, t) {
                        let k = token_index(olds, t);
                        assert(news[k].0 == t);
                        lemma_lookup_at(olds, k);
                        lemma_lookup_at(news, k);
                    } else {
                        assert(!has_token(news, t)) by {
                            if has_token(news, t) {
                                let k = token_index(news, t);
                                assert(olds[k].0 == t);
                            }
                        }
                    }
                }
            }
        } else {
            proof {
                assert(!has_token(olds, token)) by {
                    if has_token(olds, token) {
                        let k = token_index(olds, token);
                        if k < i as int {
                            assert(olds[k].0 < token);
                        } else {
                            assert(i < olds.len());
                            if k > i as int {
                                assert(olds[i as int].0 < olds[k].0);
                            }
                        }
                    }
                }
                assert(!has_token(d, token));
                lemma_usages_for_absent(d, token);
                lemma_sum_usages_push(usages_for(d, token), usage);
                assert(sum_usages(usages_for(d2, token)) == merged(zero_usage(), usage));
            }
            let entry = (token, usage);
            self.entries.insert(i, entry);
            self.deliveries = Ghost(d2);
            proof {
                let news = self.entries@;
                assert(news == olds.insert(i as int, entry));
                olds.insert_ensures(i as int, entry);
                assert(strictly_sorted(news)) by {
                    assert forall|p: int, q: int| 0 <= p < q < news.len() implies news[p].0
                        < news[q].0 by {
                        if p < i as int && q > i as int {
                            assert(news[p] == olds[p] && news[q] == olds[q - 1]);
                            if q - 1 == i as int {
                                assert(olds[i as int].0 > token || i == olds.len());
                            }
                        }
                    }
                }
                assert forall|t: u32| has_token(news, t) <==> (has_token(olds, t) || t == token) by {
                    if has_token(news, t) {
                        let k = token_index(news, t);
                        if k < i as int {
                            assert(olds[k].0 == t);
                        } else if k > i as int {
                            assert(olds[k - 1].0 == t);
                        }
                    }
                    if has_token(olds, t) {
                        let k = token_index(olds, t);
                        if k < i as int {
                            assert(news[k].0 == t);
                        } else {
                            assert(news[k + 1].0 == t);
                        }
                    }
                    if t == token {
                        assert(news[i as int].0 == token);
                    }
                }
                assert forall|k: int| 0 <= k < news.len() implies (#[trigger] news[k]).1
                    == sum_usages(usages_for(d2, news[k].0)) by {
                    if k == i as int {
                    } else if k < i as int {
                        assert(news[k] == olds[k]);
                        assert(olds[k].0 != token);
                    } else {
                        assert(news[k] == olds[k - 1]);
                        assert(olds[k - 1].0 != token);
                    }
                }
                lemma_lookup_at(news, i as int);
                assert forall|t: u32| t != token implies lookup(news, t) == lookup(olds, t) by {
                    if has_token(olds, t) {
                        let k = token_index(olds, t);
                        lemma_lookup_at(olds, k);
                        if k < i as int {
                            assert(news[k].0 == t);
                            lemma_lookup_at(news, k);
                        } else {
                            assert(news[k + 1].0 == t);
                            lemma_lookup_at(news, k + 1);
                        }
                    } else {
                        assert(!has_token(news, t));
                    }
                }
            }
        }
    }

    /// The current entry for a token.
    #[verifier::loop_isolation(false)]
    pub fn get(&self, token: u32) -> (r: Option<TimingInfo>)
        requires
            self.wf(),
        ensures
            r == self.entry_for(token),
    {
        let mut i: usize = 0;
        while i < self.entries.len()
            invariant
                i <= self.entries.len(),
                forall|k: int| 0 <= k < i ==> (#[trigger] self.entries@[k]).0 != token,
            decreases self.entries.len() - i,
        {
            if self.entries[i].0 == token {
                proof {
                    lemma_lookup_at(self.entries@, i as int);
                }
                return Some(self.entries[i].1);
            }
            i = i + 1;
        }
        proof {
            assert(!has_token(self.entries_seq(), token)) by {
                if has_token(self.entries_seq(), token) {
                    let k = token_index(self.entries_seq(), token);
                    assert(self.entries@[k].0 == token);
                }
            }
        }
        None
    }

    /// A stable snapshot of the current map, ascending by token: exactly the
    /// current entries, produced without mutating anything. An empty map
    /// yields an empty snapshot.
    #[verifier::loop_isolation(false)]
    pub fn dump(&self) -> (snap: Vec<(u32, TimingInfo)>)
        requires
            self.wf(),
        ensures
            snap@ == self.entries_seq(),
            strictly_sorted(snap@),
            forall|i: int|
                0 <= i < snap@.len() ==> self.entry_for((#[trigger] snap@[i]).0) == Some(
                    snap@[i].1,
                ),
    {
        let mut snap: Vec<(u32, TimingInfo)> = Vec::new();
        let mut i: usize = 0;
        while i < self.entries.len()
            invariant
                i <= self.entries.len(),
                snap@ == self.entries@.subrange(0, i as int),
            decreases self.entries.len() - i,
        {
            snap.push(self.entries[i]);
            proof {
                assert(snap@ =~= self.entries@.subrange(0, i + 1));
            }
            i = i + 1;
        }
        proof {
            assert(snap@ =~= self.entries_seq());
            assert forall|i: int|
                0 <= i < snap@.len() implies self.entry_for((#[trigger] snap@[i]).0) == Some(
                snap@[i].1,
            ) by {
                lemma_lookup_at(self.entries_seq(), i);
            }
        }
        snap
    }

    /// Apply one received message, exactly as the consuming task does: merge
    /// a completion into the map, or answer a dump request with a snapshot,
    /// touching nothing.
    pub fn handle(&mut self, msg: LoggingMessage) -> (snap: Option<Vec<(u32, TimingInfo)>>)
        requires
            old(self).wf(),
        ensures
            final(self).wf(),
            msg matches LoggingMessage::ProcessCompleted { token, timing_info } ==> ({
                &&& snap is None
                &&& final(self).deliveries_seq() == old(self).deliveries_seq().push(
                    (token, timing_info),
                )
                &&& final(self).entry_for(token) == Some(
                    merged(old(self).entry_or_zero(token), timing_info),
                )
                &&& forall|t: u32| t != token ==> final(self).entry_for(t) == old(self).entry_for(t)
            }),
            msg is Dump ==> ({
                &&& *final(self) == *old(self)
                &&& snap matches Some(s) && s@ == old(self).entries_seq()
                &&& strictly_sorted(snap->0@)
            }),
    {
        match msg {
            LoggingMessage::ProcessCompleted { token, timing_info } => {
                self.record(token, timing_info);
                None
            },
            LoggingMessage::Dump => Some(self.dump()),
        }
    }
}

/// For any number of completions delivered for one token, in whatever order,
/// the entry for that token equals the field-wise sum of all of them: the
/// stored entry matches the sum of any reordering of its deliveries.
pub proof fn lemma_entry_is_order_independent_sum(
    m: AggregationMap,
    t: u32,
    reordered: Seq<TimingInfo>,
)
    requires
        m.wf(),
        has_token(m.deliveries_seq(), t),
        reordered.to_multiset() == usages_for(m.deliveries_seq(), t).to_multiset(),
    ensures
        m.entry_for(t) == Some(sum_usages(reordered)),
{
    assert(has_token(m.entries_seq(), t));
    let i = token_index(m.entries_seq(), t);
    assert(m.entries_seq()[i].0 == t);
    lemma_lookup_at(m.entries_seq(), i);
    lemma_sum_permutation(reordered, usages_for(m.deliveries_seq(), t));
}

} // verus!
