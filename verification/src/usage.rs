//! CPU-time measurements and their field-wise combination.

use vstd::prelude::*;

verus! {

/// One CPU-time component: whole seconds plus sub-second microseconds, at the
/// granularity of the operating system's resource-usage report.
#[derive(Clone, Copy, Debug, PartialEq, Eq, Structural)]
pub struct TimeVal {
    pub seconds: i64,
    pub micros: i64,
}

/// The CPU time a finished process spent in user mode and in kernel mode.
///
/// Values are combined field by field with two's-complement (wrapping)
/// 64-bit addition and no microsecond-to-second carry. This is the plain
/// field-wise rule, chosen over true duration arithmetic so that combination
/// is total, commutative and associative for every pair of values.
#[derive(Clone, Copy, Debug, PartialEq, Eq, Structural)]
pub struct TimingInfo {
    pub user_time: TimeVal,
    pub sys_time: TimeVal,
}

/// Two's-complement addition of two 64-bit signed values.
pub open spec fn wadd(a: i64, b: i64) -> i64 {
    vstd::wrapping::i64_specs::wrapping_add(a, b)
}

/// The measurement with every field zero: the identity of `merge`.
pub open spec fn zero_usage() -> TimingInfo {
    TimingInfo {
        user_time: TimeVal { seconds: 0, micros: 0 },
        sys_time: TimeVal { seconds: 0, micros: 0 },
    }
}

/// Field-wise combination of two measurements.
pub open spec fn merged(a: TimingInfo, b: TimingInfo) -> TimingInfo {
    TimingInfo {
        user_time: TimeVal {
            seconds: wadd(a.user_time.seconds, b.user_time.seconds),
            micros: wadd(a.user_time.micros, b.user_time.micros),
        },
        sys_time: TimeVal {
            seconds: wadd(a.sys_time.seconds, b.sys_time.seconds),
            micros: wadd(a.sys_time.micros, b.sys_time.micros),
        },
    }
}

impl TimingInfo {
    /// The measurement with every field zero.
    pub fn zero() -> (r: TimingInfo)
        ensures
            r == zero_usage(),
    {
        TimingInfo {
            user_time: TimeVal { seconds: 0, micros: 0 },
            sys_time: TimeVal { seconds: 0, micros: 0 },
        }
    }

    /// Build a measurement from the four raw CPU-time fields of the OS
    /// resource-usage report: user time and system time, each as whole
    /// seconds plus sub-second microseconds.
    pub fn from_parts(
        user_seconds: i64,
        user_micros: i64,
        sys_seconds: i64,
        sys_micros: i64,
    ) -> (r: TimingInfo)
        ensures
            r == (TimingInfo {
                user_time: TimeVal { seconds: user_seconds, micros: user_micros },
                sys_time: TimeVal { seconds: sys_seconds, micros: sys_micros },
            }),
    {
        TimingInfo {
            user_time: TimeVal { seconds: user_seconds, micros: user_micros },
            sys_time: TimeVal { seconds: sys_seconds, micros: sys_micros },
        }
    }

    /// Combine two measurements field by field, without carry normalization.
    pub fn merge(&self, other: &TimingInfo) -> (r: TimingInfo)
        ensures
            r == merged(*self, *other),
    {
        TimingInfo {
            user_time: TimeVal {
                seconds: self.user_time.seconds.wrapping_add(other.user_time.seconds),
                micros: self.user_time.micros.wrapping_add(other.user_time.micros),
            },
            sys_time: TimeVal {
                seconds: self.sys_time.seconds.wrapping_add(other.sys_time.seconds),
                micros: self.sys_time.micros.wrapping_add(other.sys_time.micros),
            },
        }
    }
}

/// Combining measurements is commutative.
pub proof fn lemma_merge_commutative(a: TimingInfo, b: TimingInfo)
    ensures
        merged(a, b) == merged(b, a),
{
}

/// Combining measurements is associative.
pub proof fn lemma_merge_associative(a: TimingInfo, b: TimingInfo, c: TimingInfo)
    ensures
        merged(merged(a, b), c) == merged(a, merged(b, c)),
{
}

/// Combining with the all-zero measurement changes nothing, on either side.
pub proof fn lemma_merge_zero_identity(a: TimingInfo)
    ensures
        merged(a, zero_usage()) == a,
        merged(zero_usage(), a) == a,
{
}

/// The field-wise sum of a sequence of measurements, combined left to right.
pub open spec fn sum_usages(s: Seq<TimingInfo>) -> TimingInfo
    decreases s.len(),
{
    if s.len() == 0 {
        zero_usage()
    } else {
        merged(sum_usages(s.drop_last()), s.last())
    }
}

/// Any one element of a sequence may be taken out and combined last without
/// changing the sum.
pub proof fn lemma_sum_remove(s: Seq<TimingInfo>, i: int)
    requires
        0 <= i < s.len(),
    ensures
        sum_usages(s) == merged(sum_usages(s.remove(i)), s[i]),
    decreases s.len(),
{
    if i == s.len() - 1 {
        assert(s.remove(i) =~= s.drop_last());
    } else {
        let dl = s.drop_last();
        lemma_sum_remove(dl, i);
        assert(s.remove(i).drop_last() =~= dl.remove(i));
        assert(s.remove(i).last() == s.last());
        lemma_merge_associative(sum_usages(dl.remove(i)), s.last(), s[i]);
        lemma_merge_commutative(s.last(), s[i]);
        lemma_merge_associative(sum_usages(dl.remove(i)), s[i], s.last());
    }
}

/// The sum of a sequence of measurements does not depend on their order:
/// two sequences holding the same measurements, each the same number of
/// times, sum to the same value.
pub proof fn lemma_sum_permutation(s1: Seq<TimingInfo>, s2: Seq<TimingInfo>)
    requires
        s1.to_multiset() == s2.to_multiset(),
    ensures
        sum_usages(s1) == sum_usages(s2),
    decreases s1.len(),
{
    broadcast use vstd::seq_lib::group_to_multiset_ensures;

    if s1.len() == 0 {
        assert(s2.len() == s2.to_multiset().len());
    } else {
        let x = s1.last();
        assert(s1[s1.len() - 1] == x);
        assert(s1.contains(x));
        assert(s2.to_multiset().count(x) > 0);
        assert(s2.contains(x));
        let j = choose|j: int| 0 <= j < s2.len() && s2[j] == x;
        assert(s1.drop_last() =~= s1.remove(s1.len() - 1));
        assert(s1.remove(s1.len() - 1).to_multiset() == s1.to_multiset().remove(x));
        assert(s2.remove(j).to_multiset() == s2.to_multiset().remove(x));
        lemma_sum_permutation(s1.drop_last(), s2.remove(j));
        lemma_sum_remove(s2, j);
    }
}

} // verus!
