//! The rolling-window simulation engine.
//!
//! One run replays the spending plan once per possible start month: capital
//! evolves month by month under investment returns, fees, withdrawals,
//! yearly taxes and inflation, stopping early on depletion. Each window
//! yields one outcome; the run collects them all, ranked, together with the
//! count of windows that ended above the survival threshold.
//!
//! The whole evolution is stated by the spec functions below over exact
//! integer arithmetic; the executable engine is proved to compute exactly
//! those values.

use vstd::prelude::*;

verus! {

use crate::SCALE;
use crate::CAP_MAX;
use crate::CUM_MAX;
use crate::SimError;
use crate::series::HistoricalRecord;
use crate::series::MonthlyReturn;
use crate::series::MonthV;
use crate::series::months_view;
use crate::series::series_wf;
use crate::series::month_wf;
use crate::series::records_view;
use crate::series::derived_series;
use crate::series::all_pairs_ok;
use crate::series::build_returns;
use crate::taxes::TaxStrategy;
use crate::taxes::tax_owed;
use crate::taxes::strategy_of_name;
use crate::taxes::strategy_from_name;
use crate::taxes::tax_for;
use crate::results::Period;
use crate::results::Results;
use crate::results::periods_view;
use crate::results::sorted_desc;
use crate::results::sort_periods;
use crate::results::lemma_to_multiset_map;
use vstd::arithmetic::mul::lemma_mul_upper_bound;
use vstd::arithmetic::div_mod::lemma_div_nonincreasing;
use vstd::arithmetic::div_mod::lemma_div_pos_is_pos;
use vstd::arithmetic::div_mod::lemma_div_is_ordered;

/// The parameters of one simulation run.
pub struct Vars {
    /// Starting capital, in whole currency units.
    pub initial_capital: u64,
    /// Yearly withdrawal once capital has dipped below the start, in whole
    /// currency units.
    pub initial_withdrawal_min: u64,
    /// Yearly withdrawal while capital is at or above the start.
    pub initial_withdrawal_max: u64,
    /// Survival threshold on the deflated ending capital.
    pub minimum_remaining: u64,
    /// Yearly fee percentage, in [`SCALE`] sub-units (0.5% is 5_000).
    pub yearly_fees: u64,
    /// Window length in years; every window spans `years * 12` months.
    pub years: usize,
    /// Tax policy name; unrecognized names select the tax-free policy.
    pub tax_strategy: String,
}

/// Mathematical image of [`Vars`], with the window length in months and
/// the tax policy already resolved.
pub ghost struct VarsV {
    pub initial_capital: int,
    pub withdrawal_min: int,
    pub withdrawal_max: int,
    pub minimum_remaining: int,
    pub yearly_fees: int,
    pub duration: int,
    pub strategy: TaxStrategy,
}

impl View for Vars {
    type V = VarsV;

    open spec fn view(&self) -> VarsV {
        VarsV {
            initial_capital: self.initial_capital as int,
            withdrawal_min: self.initial_withdrawal_min as int,
            withdrawal_max: self.initial_withdrawal_max as int,
            minimum_remaining: self.minimum_remaining as int,
            yearly_fees: self.yearly_fees as int,
            duration: self.years * 12,
            strategy: strategy_of_name(self.tax_strategy@),
        }
    }
}

impl Vars {
    /// Machine limits on the parameters: the fee percentage stays within
    /// 100% a year and the window length in months fits a `usize`.
    pub open spec fn wf(&self) -> bool {
        &&& self.yearly_fees <= 100 * SCALE
        &&& self.years * 12 <= usize::MAX
    }
}

/// The running state of one window after some number of months.
pub ghost struct WState {
    /// Nominal capital; negative only in the month depletion happened.
    pub capital: int,
    /// Cumulative inflation factor, in [`SCALE`] sub-units, at least 1.
    pub cum_inflation: int,
    /// Months whose accounting has completed.
    pub survived: int,
    /// Whether the window has depleted: once set the state is frozen.
    pub done: bool,
}

/// The cumulative inflation factor after one more month: multiplied by
/// `1 + inflation_rate`, floored, and clamped to stay positive.
pub open spec fn next_cum(cum: int, m: MonthV) -> int {
    let raw = cum * (SCALE + m.inflation_rate) / (SCALE as int);
    if raw >= 1 {
        raw
    } else {
        1
    }
}

/// The capital after one more month `m_abs` (absolute index into the
/// series): grown by the total return, less fees, less the yearly tax when
/// the absolute index is a multiple of 12, less the inflation-adjusted
/// withdrawal. The withdrawal uses the reduced yearly amount as soon as
/// capital sits below the starting capital.
pub open spec fn next_capital(cap: int, cum2: int, m_abs: int, m: MonthV, v: VarsV) -> int {
    let grown = cap * (SCALE + m.total_return) / (SCALE as int);
    let gains = grown - cap;
    let fees = cap * v.yearly_fees / (1200 * SCALE);
    let wd_base = if cap < v.initial_capital {
        v.withdrawal_min
    } else {
        v.withdrawal_max
    };
    let wd = wd_base * cum2 / (12 * SCALE);
    let tax = if m_abs % 12 == 0 {
        tax_owed(v.strategy, cap, gains)
    } else {
        0
    };
    grown - fees - tax - wd
}

/// The state of the window starting at `p` after `k` months: each month
/// advances the cumulative inflation first, then the capital; once capital
/// reaches or falls below zero the state freezes (depletion).
pub open spec fn window_state(data: Seq<MonthV>, v: VarsV, p: int, k: int) -> WState
    decreases k,
{
    if k <= 0 {
        WState {
            capital: v.initial_capital,
            cum_inflation: SCALE as int,
            survived: 0,
            done: false,
        }
    } else {
        let prev = window_state(data, v, p, k - 1);
        if prev.done {
            prev
        } else {
            let cum2 = next_cum(prev.cum_inflation, data[p + k - 1]);
            let cap2 = next_capital(prev.capital, cum2, p + k - 1, data[p + k - 1], v);
            WState {
                capital: cap2,
                cum_inflation: cum2,
                survived: prev.survived + 1,
                done: cap2 <= 0,
            }
        }
    }
}

/// The state of the window starting at `p` when all its months are spent.
pub open spec fn window_final(data: Seq<MonthV>, v: VarsV, p: int) -> WState {
    window_state(data, v, p, v.duration)
}

/// The window's ending capital: floored at zero and deflated back to
/// start-of-window purchasing power.
pub open spec fn window_ending_capital(data: Seq<MonthV>, v: VarsV, p: int) -> int {
    let st = window_final(data, v, p);
    let pos = if st.capital > 0 {
        st.capital
    } else {
        0
    };
    pos * SCALE / st.cum_inflation
}

/// A window succeeds when its deflated ending capital exceeds the
/// configured minimum.
pub open spec fn window_success(data: Seq<MonthV>, v: VarsV, p: int) -> bool {
    window_ending_capital(data, v, p) > v.minimum_remaining
}

/// The outcome of the window starting at `p`.
pub open spec fn window_outcome(data: Seq<MonthV>, v: VarsV, p: int) -> crate::results::PeriodV {
    crate::results::PeriodV {
        duration: window_final(data, v, p).survived,
        end_capital: window_ending_capital(data, v, p),
        date_start: data[p].date,
        date_end: data[p + v.duration - 1].date,
    }
}

/// How many of the first `n` windows succeed.
pub open spec fn success_count(data: Seq<MonthV>, v: VarsV, n: int) -> int
    decreases n,
{
    if n <= 0 {
        0
    } else {
        success_count(data, v, n - 1) + if window_success(data, v, n - 1) {
            1int
        } else {
            0int
        }
    }
}

/// The outcomes of the first `n` windows, in start order.
pub open spec fn outcome_seq(data: Seq<MonthV>, v: VarsV, n: int) -> Seq<crate::results::PeriodV> {
    Seq::new(n as nat, |i: int| window_outcome(data, v, i))
}

/// A window state within the bounds under which every machine word of the
/// engine is wide enough.
pub open spec fn state_fits(st: WState) -> bool {
    &&& st.capital <= CAP_MAX
    &&& st.cum_inflation <= CUM_MAX
}

/// Every reachable state of every window of the run stays within machine
/// bounds, and every ending capital fits the result word. This is the
/// machine-limit precondition of [`Simulator::run`].
pub open spec fn run_fits(data: Seq<MonthV>, v: VarsV) -> bool {
    &&& forall|p: int, k: int|
        0 <= p && p + v.duration <= data.len() && 0 <= k <= v.duration ==> state_fits(
            #[trigger] window_state(data, v, p, k),
        )
    &&& forall|p: int|
        0 <= p && p + v.duration <= data.len() ==> #[trigger] window_ending_capital(data, v, p)
            <= u64::MAX
}

/// The cumulative inflation factor never leaves the positive range.
pub proof fn lemma_cum_positive(data: Seq<MonthV>, v: VarsV, p: int, k: int)
    requires
        k >= 0,
    ensures
        window_state(data, v, p, k).cum_inflation >= 1,
    decreases k,
{
    if k > 0 {
        lemma_cum_positive(data, v, p, k - 1);
    }
}

/// A window never survives more months than were simulated, and its
/// deflated ending capital is never negative.
pub proof fn lemma_outcome_invariants(data: Seq<MonthV>, v: VarsV, p: int, k: int)
    requires
        k >= 0,
    ensures
        0 <= window_state(data, v, p, k).survived <= k,
        k == v.duration ==> window_ending_capital(data, v, p) >= 0,
    decreases k,
{
    if k > 0 {
        lemma_outcome_invariants(data, v, p, k - 1);
    }
    if k == v.duration {
        let st = window_final(data, v, p);
        lemma_cum_positive(data, v, p, k);
        let pos = if st.capital > 0 {
            st.capital
        } else {
            0
        };
        lemma_div_pos_is_pos(pos * SCALE, st.cum_inflation);
    }
}

/// A depleted window stays frozen for all its remaining months.
pub proof fn lemma_window_frozen(data: Seq<MonthV>, v: VarsV, p: int, k1: int, k2: int)
    requires
        0 <= k1 <= k2,
        window_state(data, v, p, k1).done,
    ensures
        window_state(data, v, p, k2) == window_state(data, v, p, k1),
    decreases k2 - k1,
{
    if k2 > k1 {
        lemma_window_frozen(data, v, p, k1, k2 - 1);
    }
}

/// With nothing withdrawn, no fees, the tax-free policy and non-negative
/// monthly returns, capital never falls below its starting value, so no
/// window ever depletes: every month of the window is survived.
pub proof fn lemma_zero_withdrawal_window_survives(
    data: Seq<MonthV>,
    v: VarsV,
    p: int,
    k: int,
)
    requires
        v.withdrawal_min == 0,
        v.withdrawal_max == 0,
        v.yearly_fees == 0,
        v.strategy == TaxStrategy::TaxFree,
        v.initial_capital >= 1,
        0 <= p,
        p + v.duration <= data.len(),
        0 <= k <= v.duration,
        forall|i: int| p <= i < p + v.duration ==> #[trigger] data[i].total_return >= 0,
    ensures
        window_state(data, v, p, k).capital >= v.initial_capital,
        window_state(data, v, p, k).survived == k,
        !window_state(data, v, p, k).done,
    decreases k,
{
    if k > 0 {
        lemma_zero_withdrawal_window_survives(data, v, p, k - 1);
        let prev = window_state(data, v, p, k - 1);
        let m = data[p + k - 1];
        let cum2 = next_cum(prev.cum_inflation, m);
        let cap = prev.capital;
        assert(m.total_return >= 0);
        assert(cap * (SCALE + m.total_return) >= cap * (SCALE as int)) by (nonlinear_arith)
            requires
                cap >= 1,
                m.total_return >= 0;
        lemma_div_is_ordered(
            cap * (SCALE as int),
            cap * (SCALE + m.total_return),
            SCALE as int,
        );
        vstd::arithmetic::div_mod::lemma_div_by_multiple(cap, SCALE as int);
        assert(cap * (SCALE as int) / (SCALE as int) == cap);
        assert(next_capital(cap, cum2, p + k - 1, m, v) >= cap) by {
            assert(cap * v.yearly_fees == 0) by (nonlinear_arith)
                requires
                    v.yearly_fees == 0;
            assert(0int * cum2 == 0) by (nonlinear_arith);
            vstd::arithmetic::div_mod::lemma_div_of0(1200 * SCALE as int);
            vstd::arithmetic::div_mod::lemma_div_of0(12 * SCALE as int);
        }
    }
}

/// The law above, over every window of a run at once: with zero
/// withdrawals, zero fees and the tax-free policy, `duration_survived`
/// equals the full window length for every window.
pub proof fn lemma_zero_withdrawal_full_survival(data: Seq<MonthV>, v: VarsV)
    requires
        v.withdrawal_min == 0,
        v.withdrawal_max == 0,
        v.yearly_fees == 0,
        v.strategy == TaxStrategy::TaxFree,
        v.initial_capital >= 1,
        forall|i: int| 0 <= i < data.len() ==> #[trigger] data[i].total_return >= 0,
    ensures
        forall|p: int|
            0 <= p && p + v.duration <= data.len() && v.duration >= 0 ==> {
                &&& (#[trigger] window_final(data, v, p)).survived == v.duration
                &&& window_final(data, v, p).capital >= v.initial_capital
                &&& !window_final(data, v, p).done
            },
{
    assert forall|p: int|
        0 <= p && p + v.duration <= data.len() && v.duration >= 0 implies {
        &&& (#[trigger] window_final(data, v, p)).survived == v.duration
        &&& window_final(data, v, p).capital >= v.initial_capital
        &&& !window_final(data, v, p).done
    } by {
        lemma_zero_withdrawal_window_survives(data, v, p, v.duration);
    }
}

/// With non-positive inflation the cumulative deflator never rises above
/// one, so deflation cannot shrink the ending capital.
proof fn lemma_nonpositive_inflation_cum_bounded(data: Seq<MonthV>, v: VarsV, p: int, k: int)
    requires
        0 <= k,
        forall|i: int| p <= i < p + k ==> #[trigger] data[i].inflation_rate <= 0,
    ensures
        window_state(data, v, p, k).cum_inflation <= SCALE,
    decreases k,
{
    if k > 0 {
        lemma_nonpositive_inflation_cum_bounded(data, v, p, k - 1);
        let prev = window_state(data, v, p, k - 1);
        if !prev.done {
            let cum = prev.cum_inflation;
            let m = data[p + k - 1];
            lemma_cum_positive(data, v, p, k - 1);
            assert(cum * (SCALE + m.inflation_rate) <= cum * (SCALE as int)) by (nonlinear_arith)
                requires
                    cum >= 1,
                    m.inflation_rate <= 0;
            lemma_div_is_ordered(
                cum * (SCALE + m.inflation_rate),
                cum * (SCALE as int),
                SCALE as int,
            );
            vstd::arithmetic::div_mod::lemma_div_by_multiple(cum, SCALE as int);
        }
    }
}

/// When every window among the first `n` succeeds, all `n` are counted.
pub proof fn lemma_all_succeed_count(data: Seq<MonthV>, v: VarsV, n: int)
    requires
        forall|p: int| 0 <= p < n ==> #[trigger] window_success(data, v, p),
    ensures
        success_count(data, v, n) == if n >= 0 {
            n
        } else {
            0
        },
    decreases n,
{
    if n > 0 {
        lemma_all_succeed_count(data, v, n - 1);
    }
}

/// With nothing withdrawn, no fees, the tax-free policy, non-negative
/// returns and non-positive inflation, every window whose starting capital
/// exceeds the survival threshold succeeds: all windows of such a run are
/// counted successful.
pub proof fn lemma_zero_withdrawal_all_succeed(data: Seq<MonthV>, v: VarsV)
    requires
        v.withdrawal_min == 0,
        v.withdrawal_max == 0,
        v.yearly_fees == 0,
        v.strategy == TaxStrategy::TaxFree,
        v.initial_capital >= 1,
        v.initial_capital > v.minimum_remaining,
        v.duration >= 0,
        forall|i: int| 0 <= i < data.len() ==> #[trigger] data[i].total_return >= 0,
        forall|i: int| 0 <= i < data.len() ==> #[trigger] data[i].inflation_rate <= 0,
    ensures
        forall|p: int|
            0 <= p && p + v.duration <= data.len() ==> #[trigger] window_success(data, v, p),
        forall|n: int|
            0 <= n && n + v.duration <= data.len() + 1 ==> #[trigger] success_count(data, v, n)
                == n,
{
    assert forall|p: int|
        0 <= p && p + v.duration <= data.len() implies #[trigger] window_success(
        data,
        v,
        p,
    ) by {
        lemma_zero_withdrawal_window_survives(data, v, p, v.duration);
        lemma_nonpositive_inflation_cum_bounded(data, v, p, v.duration);
        lemma_cum_positive(data, v, p, v.duration);
        let st = window_final(data, v, p);
        let cap = st.capital;
        assert(cap >= v.initial_capital);
        vstd::arithmetic::div_mod::lemma_div_by_multiple(cap, SCALE as int);
        vstd::arithmetic::div_mod::lemma_div_is_ordered_by_denominator(
            cap * (SCALE as int),
            st.cum_inflation,
            SCALE as int,
        );
        assert(window_ending_capital(data, v, p) >= cap);
    }
    assert forall|n: int|
        0 <= n && n + v.duration <= data.len() + 1 implies #[trigger] success_count(data, v, n)
        == n by {
        lemma_all_succeed_count(data, v, n);
    }
}

/// The simulation engine: the derived monthly series, held immutable for
/// the engine's life.
pub struct Simulator {
    data: Vec<MonthlyReturn>,
}

impl View for Simulator {
    type V = Seq<MonthV>;

    closed spec fn view(&self) -> Seq<MonthV> {
        months_view(self.data@)
    }
}

impl Simulator {
    /// Every month of the held series is well-formed.
    pub open spec fn wf(&self) -> bool {
        series_wf(self@)
    }

    /// Wraps an already-derived series whose rates are in range.
    pub fn from_returns(data: Vec<MonthlyReturn>) -> (s: Simulator)
        requires
            series_wf(months_view(data@)),
        ensures
            s@ == months_view(data@),
            s.wf(),
    {
        Simulator { data }
    }

    /// Derives the monthly series from raw records and wraps it; fails
    /// exactly as [`build_returns`] does.
    pub fn from_records(records: &Vec<HistoricalRecord>) -> (r: Result<Simulator, SimError>)
        ensures
            records@.len() < 2 ==> r == Err::<Simulator, SimError>(SimError::InsufficientData),
            records@.len() >= 2 && all_pairs_ok(records_view(records@)) ==> {
                &&& r matches Ok(s)
                &&& s@ == derived_series(records_view(records@))
                &&& s.wf()
            },
            records@.len() >= 2 && !all_pairs_ok(records_view(records@)) ==> r == Err::<
                Simulator,
                SimError,
            >(SimError::MalformedRecord),
    {
        match build_returns(records) {
            Ok(months) => Ok(Simulator { data: months }),
            Err(e) => Err(e),
        }
    }

    /// Months of derived data the engine holds.
    pub fn len(&self) -> (n: usize)
        ensures
            n == self@.len(),
    {
        self.data.len()
    }

    /// Runs the full rolling-window backtest: one window per start index,
    /// stride 1. Fails with `InvalidWindow` when the requested duration is
    /// zero or exceeds the series; otherwise returns every window's
    /// outcome, ranked best-first, with the success count.
    pub fn run(&self, vars: Vars) -> (r: Result<Results, SimError>)
        requires
            self.wf(),
            vars.wf(),
            run_fits(self@, vars@),
        ensures
            vars@.duration < 1 || vars@.duration > self@.len() ==> r == Err::<Results, SimError>(
                SimError::InvalidWindow,
            ),
            1 <= vars@.duration <= self@.len() ==> {
                &&& r matches Ok(res)
                &&& res.samples == self@.len() - vars@.duration + 1
                &&& res.periods@.len() == res.samples
                &&& res.successful == success_count(self@, vars@, res.samples as int)
                &&& periods_view(res.periods@).to_multiset() == outcome_seq(
                    self@,
                    vars@,
                    res.samples as int,
                ).to_multiset()
                &&& sorted_desc(periods_view(res.periods@))
                &&& res.wf()
            },
    {
        let ghost data = self@;
        let ghost v = vars@;
        let months: usize = vars.years * 12;
        let len: usize = self.data.len();
        if months == 0 || months > len {
            return Err(SimError::InvalidWindow);
        }
        let samples: usize = len - months + 1;
        let strategy: TaxStrategy = strategy_from_name(&vars.tax_strategy);
        let mut successful: usize = 0;
        let mut periods: Vec<Period> = Vec::new();
        let mut p: usize = 0;
        while p < samples
            invariant
                data == self@,
                v == vars@,
                vars.wf(),
                series_wf(data),
                run_fits(data, v),
                len == data.len(),
                months == v.duration,
                1 <= months <= len,
                samples == len - months + 1,
                0 <= p <= samples,
                strategy == v.strategy,
                periods@.len() == p,
                periods_view(periods@) == outcome_seq(data, v, p as int),
                successful == success_count(data, v, p as int),
                successful <= p,
            decreases samples - p,
        {
            let mut capital: i128 = vars.initial_capital as i128;
            let mut cum: u128 = SCALE as u128;
            let mut m: usize = 0;
            while m < months
                invariant_except_break
                    data == self@,
                    v == vars@,
                    vars.wf(),
                    series_wf(data),
                    run_fits(data, v),
                    len == data.len(),
                    months == v.duration,
                    1 <= months <= len,
                    samples == len - months + 1,
                    0 <= p < samples,
                    strategy == v.strategy,
                    0 <= m <= months,
                    !window_state(data, v, p as int, m as int).done,
                    capital == window_state(data, v, p as int, m as int).capital,
                    cum == window_state(data, v, p as int, m as int).cum_inflation,
                    m == window_state(data, v, p as int, m as int).survived,
                    capital >= 0,
                    cum >= 1,
                ensures
                    0 <= m <= months,
                    capital == window_state(data, v, p as int, months as int).capital,
                    cum == window_state(data, v, p as int, months as int).cum_inflation,
                    m == window_state(data, v, p as int, months as int).survived,
                    cum >= 1,
                decreases months - m,
            {
                let ghost st = window_state(data, v, p as int, m as int);
                proof {
                    assert(state_fits(window_state(data, v, p as int, m as int)));
                    assert(state_fits(window_state(data, v, p as int, m as int + 1)));
                    assert(month_wf(data[p + m]));
                }
                let mr = &self.data[p + m];
                proof {
                    assert(mr@ == data[p + m]);
                }
                let infl_off: u128 = ((SCALE as i64) + mr.inflation_rate) as u128;
                let roi_off: u128 = ((SCALE as i64) + mr.total_return) as u128;
                proof {
                    lemma_mul_upper_bound(
                        cum as int,
                        CUM_MAX as int,
                        infl_off as int,
                        (SCALE + crate::RATE_MAX) as int,
                    );
                    lemma_div_pos_is_pos(cum * infl_off, SCALE as int);
                }
                let cum_raw: u128 = cum * infl_off / (SCALE as u128);
                let cum2: u128 = if cum_raw >= 1 {
                    cum_raw
                } else {
                    1
                };
                proof {
                    assert(cum2 == next_cum(st.cum_inflation, data[p + m]));
                    assert(window_state(data, v, p as int, m as int + 1).cum_inflation == cum2);
                    assert(cum2 <= CUM_MAX);
                }
                cum = cum2;
                let cap_u: u128 = capital as u128;
                proof {
                    lemma_mul_upper_bound(
                        cap_u as int,
                        CAP_MAX as int,
                        roi_off as int,
                        (SCALE + crate::RATE_MAX) as int,
                    );
                    lemma_div_pos_is_pos(cap_u * roi_off, SCALE as int);
                    lemma_div_nonincreasing(cap_u * roi_off, SCALE as int);
                    lemma_mul_upper_bound(
                        cap_u as int,
                        CAP_MAX as int,
                        vars.yearly_fees as int,
                        100 * SCALE as int,
                    );
                    lemma_div_nonincreasing(cap_u * vars.yearly_fees, 1200 * SCALE as int);
                    lemma_div_pos_is_pos(cap_u * vars.yearly_fees, 1200 * SCALE as int);
                }
                let grown: u128 = cap_u * roi_off / (SCALE as u128);
                let fees: u128 = cap_u * (vars.yearly_fees as u128) / (1200u128 * (SCALE as u128));
                let wd_base: u64 = if capital < vars.initial_capital as i128 {
                    vars.initial_withdrawal_min
                } else {
                    vars.initial_withdrawal_max
                };
                proof {
                    lemma_mul_upper_bound(
                        wd_base as int,
                        u64::MAX as int,
                        cum as int,
                        CUM_MAX as int,
                    );
                    lemma_div_nonincreasing((wd_base as int) * (cum as int), 12 * SCALE as int);
                    lemma_div_pos_is_pos((wd_base as int) * (cum as int), 12 * SCALE as int);
                }
                let wd: u128 = (wd_base as u128) * cum / (12u128 * (SCALE as u128));
                let idx: usize = p + m;
                let tax: u128 = if idx % 12 == 0 {
                    let gains: i128 = grown as i128 - capital;
                    tax_for(strategy, cap_u, gains)
                } else {
                    0u128
                };
                capital = grown as i128 - fees as i128 - tax as i128 - wd as i128;
                m = m + 1;
                proof {
                    assert(capital == next_capital(
                        st.capital,
                        cum as int,
                        idx as int,
                        data[idx as int],
                        v,
                    ));
                    assert(capital == window_state(data, v, p as int, m as int).capital);
                    assert(m == window_state(data, v, p as int, m as int).survived);
                }
                if capital <= 0 {
                    proof {
                        assert(window_state(data, v, p as int, m as int).done);
                        lemma_window_frozen(data, v, p as int, m as int, months as int);
                    }
                    break ;
                }
            }
            proof {
                assert(state_fits(window_state(data, v, p as int, months as int)));
            }
            let final_pos: u128 = if capital > 0 {
                capital as u128
            } else {
                0u128
            };
            proof {
                lemma_div_pos_is_pos(final_pos * SCALE, cum as int);
            }
            let ending_wide: u128 = final_pos * (SCALE as u128) / cum;
            proof {
                assert(ending_wide == window_ending_capital(data, v, p as int));
                assert(window_ending_capital(data, v, p as int) <= u64::MAX);
            }
            let end_capital: u64 = ending_wide as u64;
            if end_capital > vars.minimum_remaining {
                successful = successful + 1;
            }
            let date_start: String = self.data[p].date.clone();
            let date_end: String = self.data[p + months - 1].date.clone();
            let period = Period { duration: m, end_capital, date_start, date_end };
            proof {
                assert(period@ == window_outcome(data, v, p as int));
            }
            let ghost periods_pre = periods@;
            periods.push(period);
            p = p + 1;
            proof {
                let pv = periods_view(periods@);
                let tgt = outcome_seq(data, v, p as int);
                assert(periods@ == periods_pre.push(period));
                assert forall|j: int| 0 <= j < p as int implies pv[j] == tgt[j] by {
                    if j < p as int - 1 {
                        assert(periods@[j] == periods_pre[j]);
                        assert(pv[j] == periods_view(periods_pre)[j]);
                        assert(periods_view(periods_pre)[j] == outcome_seq(data, v, p - 1)[j]);
                    } else {
                        assert(periods@[j] == period);
                    }
                }
                assert(pv =~= tgt);
            }
        }
        let ghost unsorted = periods@;
        let sorted = sort_periods(periods);
        proof {
            lemma_to_multiset_map(sorted@, unsorted, |q: Period| q@);
            assert(periods_view(unsorted) == outcome_seq(data, v, samples as int));
        }
        let res = Results { successful, samples, periods: sorted };
        Ok(res)
    }
}

} // verus!
