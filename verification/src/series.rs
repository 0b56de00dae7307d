//! Raw historical records and the derivation of the monthly return series.
//!
//! Each consecutive pair of records yields one derived month: the total
//! return combines price appreciation with a monthly-equivalent dividend
//! yield, and the inflation rate is the relative change of the consumer
//! price index.

use vstd::prelude::*;

verus! {

use crate::SCALE;
use crate::RATE_MAX;
use crate::SimError;
use vstd::arithmetic::div_mod::lemma_div_pos_is_pos;
use vstd::arithmetic::div_mod::lemma_div_nonincreasing;

/// One raw month of market data, chronologically ordered input.
#[derive(Debug)]
pub struct HistoricalRecord {
    /// Calendar-month label.
    pub date: String,
    /// Market price index level, in [`SCALE`] sub-units.
    pub price: u64,
    /// Dividend paid that month, in [`SCALE`] sub-units; 0 when absent.
    pub dividend: u64,
    /// Consumer-price-index level, in [`SCALE`] sub-units.
    pub cpi: u64,
}

/// Mathematical image of a [`HistoricalRecord`].
pub ghost struct RecordV {
    pub date: Seq<char>,
    pub price: int,
    pub dividend: int,
    pub cpi: int,
}

impl View for HistoricalRecord {
    type V = RecordV;

    open spec fn view(&self) -> RecordV {
        RecordV {
            date: self.date@,
            price: self.price as int,
            dividend: self.dividend as int,
            cpi: self.cpi as int,
        }
    }
}

/// One derived month: dated by the later record of its pair.
#[derive(Debug)]
pub struct MonthlyReturn {
    /// Label of the later record in the pair.
    pub date: String,
    /// Total monthly return (price change plus monthly-equivalent dividend
    /// yield), in [`SCALE`] sub-units.
    pub total_return: i64,
    /// Monthly inflation rate, in [`SCALE`] sub-units.
    pub inflation_rate: i64,
}

/// Mathematical image of a [`MonthlyReturn`].
pub ghost struct MonthV {
    pub date: Seq<char>,
    pub total_return: int,
    pub inflation_rate: int,
}

impl View for MonthlyReturn {
    type V = MonthV;

    open spec fn view(&self) -> MonthV {
        MonthV {
            date: self.date@,
            total_return: self.total_return as int,
            inflation_rate: self.inflation_rate as int,
        }
    }
}

/// The record sequence as mathematical values.
pub open spec fn records_view(rs: Seq<HistoricalRecord>) -> Seq<RecordV> {
    rs.map_values(|x: HistoricalRecord| x@)
}

/// The derived-month sequence as mathematical values.
pub open spec fn months_view(ms: Seq<MonthlyReturn>) -> Seq<MonthV> {
    ms.map_values(|m: MonthlyReturn| m@)
}

/// A record whose levels can serve as divisors of the pair formulas.
pub open spec fn record_usable(r: RecordV) -> bool {
    &&& r.price >= 1
    &&& r.cpi >= 1
}

/// Total return derived from a consecutive pair of records:
/// `price[t]/price[t-1] - 1 + dividend[t]/price[t]/12`, in fixed point.
pub open spec fn pair_return(prev: RecordV, cur: RecordV) -> int {
    cur.price * SCALE / prev.price - SCALE + cur.dividend * SCALE / (12 * cur.price)
}

/// Inflation rate derived from a consecutive pair: `cpi[t]/cpi[t-1] - 1`.
pub open spec fn pair_inflation(prev: RecordV, cur: RecordV) -> int {
    cur.cpi * SCALE / prev.cpi - SCALE
}

/// Both records of a pair are usable and the derived rates are representable.
pub open spec fn pair_ok(prev: RecordV, cur: RecordV) -> bool {
    &&& record_usable(prev)
    &&& record_usable(cur)
    &&& pair_return(prev, cur) <= RATE_MAX
    &&& pair_inflation(prev, cur) <= RATE_MAX
}

/// The derived month of one consecutive pair.
pub open spec fn derived_month(prev: RecordV, cur: RecordV) -> MonthV {
    MonthV {
        date: cur.date,
        total_return: pair_return(prev, cur),
        inflation_rate: pair_inflation(prev, cur),
    }
}

/// The full derived series: one month per consecutive pair, in order.
pub open spec fn derived_series(rs: Seq<RecordV>) -> Seq<MonthV>
    recommends
        rs.len() >= 1,
{
    Seq::new((rs.len() - 1) as nat, |i: int| derived_month(rs[i], rs[i + 1]))
}

/// Every consecutive pair of the record sequence is in range.
pub open spec fn all_pairs_ok(rs: Seq<RecordV>) -> bool {
    forall|i: int| 0 <= i < rs.len() - 1 ==> #[trigger] pair_ok(rs[i], rs[i + 1])
}

/// A derived month whose rates lie in the representable band.
pub open spec fn month_wf(m: MonthV) -> bool {
    &&& -(SCALE as int) <= m.total_return <= RATE_MAX
    &&& -(SCALE as int) <= m.inflation_rate <= RATE_MAX
}

/// Every month of a derived series is well-formed.
pub open spec fn series_wf(s: Seq<MonthV>) -> bool {
    forall|i: int| 0 <= i < s.len() ==> month_wf(#[trigger] s[i])
}

/// The rates derived from a usable pair never fall below -100%.
proof fn lemma_pair_rates_low_bound(prev: RecordV, cur: RecordV)
    requires
        record_usable(prev),
        record_usable(cur),
        prev.dividend >= 0,
        cur.dividend >= 0,
    ensures
        pair_return(prev, cur) >= -(SCALE as int),
        pair_inflation(prev, cur) >= -(SCALE as int),
{
    lemma_div_pos_is_pos(cur.price * SCALE, prev.price);
    lemma_div_pos_is_pos(cur.dividend * SCALE, 12 * cur.price);
    lemma_div_pos_is_pos(cur.cpi * SCALE, prev.cpi);
}

/// Derives the monthly return series from raw records: one entry per
/// consecutive pair, preserving order. Fails with `InsufficientData` on
/// fewer than 2 records and with `MalformedRecord` on a zero price or
/// index level or a derived rate beyond [`RATE_MAX`]; otherwise returns
/// exactly the derived series.
pub fn build_returns(records: &Vec<HistoricalRecord>) -> (r: Result<Vec<MonthlyReturn>, SimError>)
    ensures
        records@.len() < 2 ==> r == Err::<Vec<MonthlyReturn>, SimError>(
            SimError::InsufficientData,
        ),
        records@.len() >= 2 && all_pairs_ok(records_view(records@)) ==> {
            &&& r matches Ok(months)
            &&& months_view(months@) == derived_series(records_view(records@))
            &&& series_wf(months_view(months@))
        },
        records@.len() >= 2 && !all_pairs_ok(records_view(records@)) ==> r == Err::<
            Vec<MonthlyReturn>,
            SimError,
        >(SimError::MalformedRecord),
{
    let ghost rs = records_view(records@);
    if records.len() < 2 {
        return Err(SimError::InsufficientData);
    }
    let mut months: Vec<MonthlyReturn> = Vec::new();
    let mut i: usize = 1;
    while i < records.len()
        invariant
            1 <= i <= records.len(),
            2 <= records.len(),
            rs == records_view(records@),
            rs.len() == records.len(),
            forall|j: int| 0 <= j < i - 1 ==> #[trigger] pair_ok(rs[j], rs[j + 1]),
            months_view(months@) == derived_series(rs).take(i - 1),
        decreases records.len() - i,
    {
        let prev = &records[i - 1];
        let cur = &records[i];
        assert(prev@ == rs[i - 1] && cur@ == rs[i as int]);
        if prev.price < 1 || prev.cpi < 1 || cur.price < 1 || cur.cpi < 1 {
            assert(!pair_ok(rs[i - 1], rs[i - 1 + 1]));
            return Err(SimError::MalformedRecord);
        }
        let a: u128 = (cur.price as u128) * (SCALE as u128);
        let rel: u128 = a / (prev.price as u128);
        let b: u128 = (cur.dividend as u128) * (SCALE as u128);
        let dy: u128 = b / (12u128 * (cur.price as u128));
        let c: u128 = (cur.cpi as u128) * (SCALE as u128);
        let ci: u128 = c / (prev.cpi as u128);
        proof {
            lemma_div_nonincreasing(a as int, prev.price as int);
            lemma_div_nonincreasing(b as int, 12 * cur.price as int);
            lemma_div_nonincreasing(c as int, prev.cpi as int);
        }
        let roi_wide: i128 = (rel + dy) as i128 - (SCALE as i128);
        let infl_wide: i128 = ci as i128 - (SCALE as i128);
        assert(roi_wide == pair_return(rs[i - 1], rs[i as int]));
        assert(infl_wide == pair_inflation(rs[i - 1], rs[i as int]));
        if roi_wide > RATE_MAX as i128 || infl_wide > RATE_MAX as i128 {
            assert(!pair_ok(rs[i - 1], rs[i - 1 + 1]));
            return Err(SimError::MalformedRecord);
        }
        proof {
            lemma_pair_rates_low_bound(rs[i - 1], rs[i as int]);
        }
        let month = MonthlyReturn {
            date: cur.date.clone(),
            total_return: roi_wide as i64,
            inflation_rate: infl_wide as i64,
        };
        assert(month@ == derived_month(rs[i - 1], rs[i as int]));
        let ghost pre = months@;
        months.push(month);
        assert(pair_ok(rs[i - 1], rs[i - 1 + 1]));
        proof {
            let ms_new = months_view(months@);
            let tgt = derived_series(rs).take(i as int);
            assert(months@.len() == pre.len() + 1);
            assert(months_view(pre).len() == pre.len());
            assert(pre.len() == i - 1);
            assert(derived_series(rs).len() == rs.len() - 1);
            assert(ms_new.len() == i && tgt.len() == i);
            assert forall|j: int| 0 <= j < i as int implies ms_new[j] == tgt[j] by {
                assert(tgt[j] == derived_series(rs)[j]);
                if j < i as int - 1 {
                    assert(months@[j] == pre[j]);
                    assert(ms_new[j] == months_view(pre)[j]);
                    assert(months_view(pre)[j] == derived_series(rs).take(i - 1)[j]);
                } else {
                    assert(months@[j] == month);
                    assert(ms_new[j] == month@);
                }
            }
            assert(months_view(months@) =~= derived_series(rs).take(i as int));
        }
        i = i + 1;
    }
    proof {
        assert(derived_series(rs).take(i - 1) =~= derived_series(rs));
        assert(all_pairs_ok(rs));
        let ms = months_view(months@);
        assert forall|j: int| 0 <= j < ms.len() implies month_wf(#[trigger] ms[j]) by {
            assert(pair_ok(rs[j], rs[j + 1]));
            lemma_pair_rates_low_bound(rs[j], rs[j + 1]);
        }
    }
    Ok(months)
}

} // verus!
