//! Per-window outcomes and the statistics over a completed run.
//!
//! Outcomes are ranked by ending capital, with the survived duration as
//! tie-break: among equal ending capitals, the window that took longer
//! ranks higher. Dates play no part in the ranking.

use vstd::prelude::*;

verus! {

use core::cmp::Ordering;

broadcast use vstd::seq_lib::group_to_multiset_ensures;

/// The outcome of one simulated window.
#[derive(Debug)]
pub struct Period {
    /// Months actually completed before depletion or window end.
    pub duration: usize,
    /// Capital at window end, deflated to start-of-window purchasing power,
    /// floored at zero, in whole currency units.
    pub end_capital: u64,
    /// Label of the first month in the window.
    pub date_start: String,
    /// Label of the last month in the window.
    pub date_end: String,
}

/// Mathematical image of a [`Period`].
pub ghost struct PeriodV {
    pub duration: int,
    pub end_capital: int,
    pub date_start: Seq<char>,
    pub date_end: Seq<char>,
}

impl View for Period {
    type V = PeriodV;

    open spec fn view(&self) -> PeriodV {
        PeriodV {
            duration: self.duration as int,
            end_capital: self.end_capital as int,
            date_start: self.date_start@,
            date_end: self.date_end@,
        }
    }
}

/// `a` ranks strictly above `b`: higher ending capital, or among equal
/// ending capitals the longer survived duration.
pub open spec fn rank_above(a: PeriodV, b: PeriodV) -> bool {
    ||| a.end_capital > b.end_capital
    ||| (a.end_capital == b.end_capital && a.duration > b.duration)
}

/// `a` and `b` rank equal: same `(ending capital, duration)` key,
/// independent of dates.
pub open spec fn rank_eq(a: PeriodV, b: PeriodV) -> bool {
    a.end_capital == b.end_capital && a.duration == b.duration
}

/// `a` ranks at least as high as `b`.
pub open spec fn rank_geq(a: PeriodV, b: PeriodV) -> bool {
    rank_above(a, b) || rank_eq(a, b)
}

/// The sequence is sorted best-first under the ranking order.
pub open spec fn sorted_desc(s: Seq<PeriodV>) -> bool {
    forall|i: int, j: int| 0 <= i < j < s.len() ==> rank_geq(#[trigger] s[i], #[trigger] s[j])
}

/// The ranking order is transitive: if `a` ranks above `b` and `b` above
/// `c`, then `a` ranks above `c`.
pub proof fn lemma_rank_transitive(a: PeriodV, b: PeriodV, c: PeriodV)
    requires
        rank_above(a, b),
        rank_above(b, c),
    ensures
        rank_above(a, c),
{
}

/// The ranking order is consistent: any two outcomes are either ranked
/// one above the other or rank equal, and never two of these at once.
pub proof fn lemma_rank_consistent(a: PeriodV, b: PeriodV)
    ensures
        rank_above(a, b) || rank_above(b, a) || rank_eq(a, b),
        !(rank_above(a, b) && rank_above(b, a)),
        !(rank_above(a, b) && rank_eq(a, b)),
        !(rank_above(b, a) && rank_eq(a, b)),
{
}

impl Period {
    /// Ranking comparison as a total preorder over outcomes: `Greater`
    /// when `self` ranks strictly above `other`, `Less` otherwise (also
    /// for rank-equal outcomes).
    pub fn cmp(&self, other: &Period) -> (r: Ordering)
        ensures
            r == (if rank_above(self@, other@) {
                Ordering::Greater
            } else {
                Ordering::Less
            }),
    {
        if self.end_capital > other.end_capital {
            Ordering::Greater
        } else if self.end_capital == other.end_capital {
            if self.duration > other.duration {
                Ordering::Greater
            } else {
                Ordering::Less
            }
        } else {
            Ordering::Less
        }
    }

    /// Whether `self` ranks at least as high as `other`.
    pub fn ranks_geq(&self, other: &Period) -> (r: bool)
        ensures
            r == rank_geq(self@, other@),
    {
        self.end_capital > other.end_capital || (self.end_capital == other.end_capital
            && self.duration >= other.duration)
    }
}

impl PartialEq for Period {
    /// Outcomes are equal for ranking purposes when their keys are.
    fn eq(&self, other: &Period) -> (r: bool) {
        self.duration == other.duration && self.end_capital == other.end_capital
    }
}

impl vstd::std_specs::cmp::PartialEqSpecImpl for Period {
    open spec fn obeys_eq_spec() -> bool {
        true
    }

    open spec fn eq_spec(&self, other: &Period) -> bool {
        rank_eq(self@, other@)
    }
}

impl Eq for Period {

}

impl PartialOrd for Period {
    fn partial_cmp(&self, other: &Period) -> (r: Option<Ordering>) {
        Some(self.cmp(other))
    }
}

impl vstd::std_specs::cmp::PartialOrdSpecImpl for Period {
    open spec fn obeys_partial_cmp_spec() -> bool {
        true
    }

    open spec fn partial_cmp_spec(&self, other: &Period) -> Option<Ordering> {
        if rank_above(self@, other@) {
            Some(Ordering::Greater)
        } else {
            Some(Ordering::Less)
        }
    }
}

/// All per-window outcomes of a run, ranked best-first, with the count of
/// windows that ended above the survival threshold.
#[derive(Debug)]
pub struct Results {
    /// Number of windows whose deflated ending capital exceeded the
    /// configured minimum.
    pub successful: usize,
    /// Total number of simulated windows.
    pub samples: usize,
    /// All outcomes, sorted best-first under the ranking order.
    pub periods: Vec<Period>,
}

/// The outcome sequence as mathematical values.
pub open spec fn periods_view(ps: Seq<Period>) -> Seq<PeriodV> {
    ps.map_values(|p: Period| p@)
}

/// The median of a ranked outcome sequence: the middle ending capital for
/// odd counts, the average of the two middle ending capitals for even
/// counts.
pub open spec fn median_of(s: Seq<PeriodV>) -> int
    recommends
        s.len() >= 1,
{
    let n = s.len() as int;
    if n % 2 == 0 {
        (s[n / 2 - 1].end_capital + s[n / 2].end_capital) / 2
    } else {
        s[n / 2].end_capital
    }
}

/// The first `n` outcomes (the best, on a ranked set), `n` clamped to the
/// available count.
pub open spec fn head_of(s: Seq<PeriodV>, n: int) -> Seq<PeriodV> {
    let k = if n <= s.len() {
        n
    } else {
        s.len() as int
    };
    s.take(k)
}

/// The last `n` outcomes (the worst, on a ranked set), `n` clamped to the
/// available count.
pub open spec fn tail_of(s: Seq<PeriodV>, n: int) -> Seq<PeriodV> {
    let k = if n <= s.len() {
        n
    } else {
        s.len() as int
    };
    s.skip(s.len() - k)
}

impl Results {
    /// The outcomes as mathematical values.
    pub open spec fn view_periods(&self) -> Seq<PeriodV> {
        periods_view(self.periods@)
    }

    /// A well-formed result set: outcomes ranked best-first, one per
    /// sample, and no more successes than samples.
    pub open spec fn wf(&self) -> bool {
        &&& sorted_desc(self.view_periods())
        &&& self.periods@.len() == self.samples
        &&& self.successful <= self.samples
        &&& self.samples >= 1
    }

    /// The success ratio in thousandths of a percent, rounded down:
    /// `successful / samples * 100`, exactly 100_000 when every window
    /// succeeded.
    pub fn success_ratio_milli(&self) -> (r: u64)
        requires
            self.samples >= 1,
            self.successful <= self.samples,
        ensures
            r == self.successful * 100_000int / (self.samples as int),
            r <= 100_000,
    {
        let wide: u128 = (self.successful as u128) * 100_000u128 / (self.samples as u128);
        proof {
            vstd::arithmetic::div_mod::lemma_div_is_ordered(
                self.successful * 100_000int,
                self.samples * 100_000int,
                self.samples as int,
            );
            vstd::arithmetic::div_mod::lemma_div_by_multiple(100_000int, self.samples as int);
        }
        wide as u64
    }

    /// The median ending capital of the ranked outcomes; the set must not
    /// be empty.
    pub fn median(&self) -> (r: u64)
        requires
            self.periods@.len() >= 1,
        ensures
            r == median_of(self.view_periods()),
    {
        let size: usize = self.periods.len();
        if size % 2 == 0 {
            let lo: u64 = self.periods[size / 2 - 1].end_capital;
            let hi: u64 = self.periods[size / 2].end_capital;
            let avg: u128 = ((lo as u128) + (hi as u128)) / 2;
            avg as u64
        } else {
            self.periods[size / 2].end_capital
        }
    }

    /// The `n` best-ranked outcomes, `n` clamped to the available count.
    pub fn head(&self, n: usize) -> (r: &[Period])
        ensures
            periods_view(r@) == head_of(self.view_periods(), n as int),
    {
        let end: usize = if n <= self.periods.len() {
            n
        } else {
            self.periods.len()
        };
        let r = vstd::slice::slice_subrange(self.periods.as_slice(), 0, end);
        proof {
            assert(periods_view(r@) =~= head_of(self.view_periods(), n as int));
        }
        r
    }

    /// The `n` worst-ranked outcomes, `n` clamped to the available count.
    pub fn tail(&self, n: usize) -> (r: &[Period])
        ensures
            periods_view(r@) == tail_of(self.view_periods(), n as int),
    {
        let k: usize = if n <= self.periods.len() {
            n
        } else {
            self.periods.len()
        };
        let start: usize = self.periods.len() - k;
        let r = vstd::slice::slice_subrange(self.periods.as_slice(), start, self.periods.len());
        proof {
            assert(periods_view(r@) =~= tail_of(self.view_periods(), n as int));
        }
        r
    }
}

/// The head of the first `n` outcomes and the tail of the remaining ones
/// partition the full outcome sequence: together, in order and without
/// duplication, they are exactly the ranked set.
pub proof fn lemma_head_tail_partition(s: Seq<PeriodV>, n: int)
    requires
        0 <= n <= s.len(),
    ensures
        head_of(s, n) + tail_of(s, s.len() - n) == s,
{
    assert(head_of(s, n) + tail_of(s, s.len() - n) =~= s);
}

/// Sequences with the same elements still have the same elements after
/// both are mapped by the same function.
pub proof fn lemma_to_multiset_map<A, B>(s: Seq<A>, t: Seq<A>, f: spec_fn(A) -> B)
    requires
        s.to_multiset() == t.to_multiset(),
    ensures
        s.map_values(f).to_multiset() == t.map_values(f).to_multiset(),
    decreases s.len(),
{
    if s.len() == 0 {
        assert(s.to_multiset().len() == 0);
        assert(t.to_multiset().len() == t.len());
        assert(t.len() == 0);
        assert(s.map_values(f) =~= Seq::<B>::empty());
        assert(t.map_values(f) =~= Seq::<B>::empty());
    } else {
        let a = s.last();
        let s1 = s.drop_last();
        assert(s.contains(a));
        assert(t.to_multiset().count(a) > 0);
        assert(t.contains(a));
        let j = choose|j: int| 0 <= j < t.len() && t[j] == a;
        let t1 = t.remove(j);
        assert(s1 =~= s.remove(s.len() - 1));
        assert(s1.to_multiset() == s.to_multiset().remove(a));
        assert(t1.to_multiset() == t.to_multiset().remove(a));
        lemma_to_multiset_map(s1, t1, f);
        let ms = s.map_values(f);
        let mt = t.map_values(f);
        assert(ms =~= s1.map_values(f).push(f(a)));
        assert(ms.to_multiset() == s1.map_values(f).to_multiset().insert(f(a)));
        assert(mt.remove(j) =~= t1.map_values(f));
        assert(mt.remove(j).to_multiset() == mt.to_multiset().remove(mt[j]));
        assert(mt[j] == f(a));
        assert(mt.contains(f(a)));
        assert(mt.to_multiset().count(f(a)) > 0);
        assert(ms.to_multiset() =~= mt.to_multiset());
    }
}

/// Sorts outcomes best-first under the ranking order, keeping exactly the
/// same outcomes.
pub fn sort_periods(v: Vec<Period>) -> (r: Vec<Period>)
    ensures
        sorted_desc(periods_view(r@)),
        r@.to_multiset() == v@.to_multiset(),
        r@.len() == v@.len(),
{
    let mut rest = v;
    let ghost orig = rest@;
    let mut out: Vec<Period> = Vec::new();
    while rest.len() > 0
        invariant
            out@.to_multiset().add(rest@.to_multiset()) == orig.to_multiset(),
            out@.len() + rest@.len() == orig.len(),
            sorted_desc(periods_view(out@)),
            forall|i: int, j: int|
                0 <= i < out@.len() && 0 <= j < rest@.len() ==> rank_geq(
                    (#[trigger] out@[i])@,
                    (#[trigger] rest@[j])@,
                ),
        decreases rest@.len(),
    {
        let mut best: usize = 0;
        let mut k: usize = 1;
        while k < rest.len()
            invariant
                0 <= best < rest@.len(),
                1 <= k <= rest@.len(),
                forall|t: int| 0 <= t < k ==> rank_geq(rest@[best as int]@, (#[trigger] rest@[t])@),
            decreases rest@.len() - k,
        {
            if !rest[best].ranks_geq(&rest[k]) {
                proof {
                    assert forall|t: int| 0 <= t < k implies rank_geq(
                        rest@[k as int]@,
                        (#[trigger] rest@[t])@,
                    ) by {
                        assert(rank_geq(rest@[best as int]@, rest@[t]@));
                    }
                }
                best = k;
            }
            k = k + 1;
        }
        let ghost rest_pre = rest@;
        let ghost out_pre = out@;
        let m = rest.remove(best);
        out.push(m);
        proof {
            assert(rest@ == rest_pre.remove(best as int));
            assert(rest_pre.remove(best as int).to_multiset() == rest_pre.to_multiset().remove(
                rest_pre[best as int],
            ));
            assert(out@ == out_pre.push(m));
            assert(out_pre.push(m).to_multiset() == out_pre.to_multiset().insert(m));
            assert(rest_pre.to_multiset().count(m) > 0);
            assert(out@.to_multiset().add(rest@.to_multiset()) =~= orig.to_multiset());
            let po = periods_view(out@);
            let pre = periods_view(out_pre);
            assert forall|i: int, j: int| 0 <= i < j < po.len() implies rank_geq(
                #[trigger] po[i],
                #[trigger] po[j],
            ) by {
                assert(po[i] == out@[i]@ && po[j] == out@[j]@);
                assert(out@[i] == out_pre[i]);
                if j < out_pre.len() {
                    assert(out@[j] == out_pre[j]);
                    assert(pre[i] == out_pre[i]@ && pre[j] == out_pre[j]@);
                    assert(rank_geq(pre[i], pre[j]));
                } else {
                    assert(out@[j] == m);
                    assert(m == rest_pre[best as int]);
                    assert(rank_geq(out_pre[i]@, rest_pre[best as int]@));
                }
            }
            assert forall|i: int, j: int|
                0 <= i < out@.len() && 0 <= j < rest@.len() implies rank_geq(
                (#[trigger] out@[i])@,
                (#[trigger] rest@[j])@,
            ) by {
                let src: int = if j < best {
                    j
                } else {
                    j + 1
                };
                assert(rest@[j] == rest_pre[src]);
                if i < out_pre.len() {
                    assert(out@[i] == out_pre[i]);
                    assert(rank_geq(out_pre[i]@, rest_pre[src]@));
                } else {
                    assert(out@[i] == m);
                    assert(m == rest_pre[best as int]);
                    assert(rank_geq(rest_pre[best as int]@, rest_pre[src]@));
                }
            }
        }
    }
    out
}

/// The median depends only on which outcomes are in the set, never on the
/// order they arrived in: two ranked sets holding the same outcomes have
/// the same median.
pub proof fn lemma_median_permutation_invariant(a: Seq<PeriodV>, b: Seq<PeriodV>)
    requires
        a.len() >= 1,
        a.to_multiset() == b.to_multiset(),
        sorted_desc(a),
        sorted_desc(b),
    ensures
        median_of(a) == median_of(b),
{
    let key = |p: PeriodV| (p.end_capital, p.duration);
    let leq = |x: (int, int), y: (int, int)| x.0 > y.0 || (x.0 == y.0 && x.1 >= y.1);
    let ka = a.map_values(key);
    let kb = b.map_values(key);
    lemma_to_multiset_map(a, b, key);
    assert(a.to_multiset().len() == a.len());
    assert(b.to_multiset().len() == b.len());
    assert(a.len() == b.len());
    assert(vstd::relations::sorted_by(ka, leq)) by {
        assert forall|i: int, j: int| 0 <= i < j < ka.len() implies #[trigger] leq(ka[i], ka[j]) by {
            assert(rank_geq(a[i], a[j]));
        }
    }
    assert(vstd::relations::sorted_by(kb, leq)) by {
        assert forall|i: int, j: int| 0 <= i < j < kb.len() implies #[trigger] leq(kb[i], kb[j]) by {
            assert(rank_geq(b[i], b[j]));
        }
    }
    assert(vstd::relations::total_ordering(leq)) by {
        assert(vstd::relations::reflexive(leq));
        assert(vstd::relations::antisymmetric(leq));
        assert(vstd::relations::transitive(leq));
        assert(vstd::relations::strongly_connected(leq));
    }
    vstd::seq_lib::lemma_sorted_unique(ka, kb, leq);
    let n = a.len() as int;
    if n % 2 == 0 {
        assert(ka[n / 2 - 1] == kb[n / 2 - 1] && ka[n / 2] == kb[n / 2]);
        assert(a[n / 2 - 1].end_capital == b[n / 2 - 1].end_capital);
        assert(a[n / 2].end_capital == b[n / 2].end_capital);
    } else {
        assert(ka[n / 2] == kb[n / 2]);
        assert(a[n / 2].end_capital == b[n / 2].end_capital);
    }
}

} // verus!
