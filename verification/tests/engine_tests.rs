use drawdown_sim::engine::Simulator;
use drawdown_sim::engine::Vars;
use drawdown_sim::series::MonthlyReturn;
use drawdown_sim::series::HistoricalRecord;
use drawdown_sim::SimError;

fn months(rates: &[(i64, i64)]) -> Vec<MonthlyReturn> {
    rates
        .iter()
        .enumerate()
        .map(|(i, &(total_return, inflation_rate))| MonthlyReturn {
            date: format!("m{:03}", i),
            total_return,
            inflation_rate,
        })
        .collect()
}

fn flat_months(n: usize, total_return: i64, inflation_rate: i64) -> Vec<MonthlyReturn> {
    months(&vec![(total_return, inflation_rate); n])
}

fn vars(
    initial_capital: u64,
    withdrawal: u64,
    years: usize,
    minimum_remaining: u64,
) -> Vars {
    Vars {
        initial_capital,
        initial_withdrawal_min: withdrawal,
        initial_withdrawal_max: withdrawal,
        minimum_remaining,
        yearly_fees: 0,
        years,
        tax_strategy: String::new(),
    }
}

#[test]
fn test_from_records_end_to_end() {
    let records: Vec<HistoricalRecord> = (0..14)
        .map(|i| HistoricalRecord {
            date: format!("r{:02}", i),
            price: 100_000_000,
            dividend: 0,
            cpi: 100_000_000,
        })
        .collect();
    let sim = Simulator::from_records(&records).unwrap();
    assert_eq!(sim.len(), 13);
    let results = sim.run(vars(500, 0, 1, 0)).unwrap();
    assert_eq!(results.samples, 2);
    assert_eq!(results.successful, 2);
    assert_eq!(results.periods[0].end_capital, 500);
    assert_eq!(results.periods[0].duration, 12);
}

#[test]
fn test_exact_depletion_at_window_end() {
    // Constant 0% return and inflation, 1200 starting capital, 1200 yearly
    // withdrawal over one 12-month window: 100 leaves each month, capital
    // reaches 0 exactly at month 12.
    let sim = Simulator::from_returns(flat_months(12, 0, 0));
    let results = sim.run(vars(1200, 1200, 1, 0)).unwrap();
    assert_eq!(results.samples, 1);
    assert_eq!(results.periods.len(), 1);
    assert_eq!(results.periods[0].duration, 12);
    assert_eq!(results.periods[0].end_capital, 0);
    assert_eq!(results.successful, 0);
    assert_eq!(results.success_ratio_milli(), 0);
}

#[test]
fn test_zero_withdrawal_always_succeeds() {
    // 30-year windows over a positive-return series with no withdrawal,
    // fees or taxes: every window ends above zero.
    let sim = Simulator::from_returns(flat_months(370, 10_000, 0));
    let results = sim.run(vars(100, 0, 30, 0)).unwrap();
    assert_eq!(results.samples, 11);
    assert_eq!(results.successful, 11);
    assert_eq!(results.success_ratio_milli(), 100_000);
    for p in results.periods.iter() {
        assert_eq!(p.duration, 360);
        assert!(p.end_capital > 0);
    }
}

#[test]
fn test_success_needs_strictly_more_than_minimum() {
    // Flat market, no withdrawal: every window ends at exactly 100, which
    // beats a minimum of 99 but not a minimum of 100.
    let sim = Simulator::from_returns(flat_months(12, 0, 0));
    let results = sim.run(vars(100, 0, 1, 99)).unwrap();
    assert_eq!(results.successful, 1);
    assert_eq!(results.success_ratio_milli(), 100_000);
    let results = sim.run(vars(100, 0, 1, 100)).unwrap();
    assert_eq!(results.successful, 0);
    assert_eq!(results.periods[0].end_capital, 100);
}

#[test]
fn test_duration_equal_to_series_gives_one_window() {
    let sim = Simulator::from_returns(flat_months(24, 0, 0));
    let results = sim.run(vars(100, 0, 2, 0)).unwrap();
    assert_eq!(results.samples, 1);
    assert_eq!(results.periods.len(), 1);
    assert_eq!(results.periods[0].date_start, "m000");
    assert_eq!(results.periods[0].date_end, "m023");
}

#[test]
fn test_duration_beyond_series_is_invalid_window() {
    let sim = Simulator::from_returns(flat_months(24, 0, 0));
    let err = sim.run(vars(100, 0, 3, 0)).unwrap_err();
    assert_eq!(err, SimError::InvalidWindow);
    let err = sim.run(vars(100, 0, 0, 0)).unwrap_err();
    assert_eq!(err, SimError::InvalidWindow);
}

#[test]
fn test_early_depletion_shortens_duration() {
    // 200 a month out of 1200: depleted after 6 of the 12 months.
    let sim = Simulator::from_returns(flat_months(12, 0, 0));
    let results = sim.run(vars(1200, 2400, 1, 0)).unwrap();
    assert_eq!(results.periods[0].duration, 6);
    assert_eq!(results.periods[0].end_capital, 0);
    assert_eq!(results.successful, 0);
}

#[test]
fn test_ending_capital_is_deflated() {
    // 10% monthly inflation, no nominal growth: 110 of starting capital
    // buys what 100 did at the window's start... over 12 months the
    // deflator compounds.
    let sim = Simulator::from_returns(flat_months(12, 0, 100_000));
    let results = sim.run(vars(1_000_000, 0, 1, 0)).unwrap();
    // cumulative fixed-point factor after 12 months: 3_138_425 sub-units;
    // 1_000_000 deflated by it is 318_631, floored.
    assert_eq!(results.periods[0].end_capital, 318_631);
}

#[test]
fn test_outcomes_sorted_descending_with_dates() {
    // 13 months: only the last has a 100% return, so the later window ends
    // twice as high and ranks first.
    let mut rates = vec![(0i64, 0i64); 13];
    rates[12] = (1_000_000, 0);
    let sim = Simulator::from_returns(months(&rates));
    let results = sim.run(vars(100, 0, 1, 0)).unwrap();
    assert_eq!(results.samples, 2);
    assert_eq!(results.periods[0].end_capital, 200);
    assert_eq!(results.periods[0].date_start, "m001");
    assert_eq!(results.periods[0].date_end, "m012");
    assert_eq!(results.periods[1].end_capital, 100);
    assert_eq!(results.periods[1].date_start, "m000");
    assert_eq!(results.periods[1].date_end, "m011");
}

#[test]
fn test_wealth_tax_charged_yearly() {
    // One 12-month window under the 2020 wealth tax, flat market: the tax
    // falls due in the first month (absolute index 0) only.
    let sim = Simulator::from_returns(flat_months(12, 0, 0));
    let v = Vars {
        initial_capital: 100_000,
        initial_withdrawal_min: 0,
        initial_withdrawal_max: 0,
        minimum_remaining: 0,
        yearly_fees: 0,
        years: 1,
        tax_strategy: "vermogensbelasting 2020".to_string(),
    };
    let results = sim.run(v).unwrap();
    // 69_154 taxable * 1.789% * 30% = 371
    assert_eq!(results.periods[0].end_capital, 100_000 - 371);
}

#[test]
fn test_fees_reduce_capital() {
    // 1.2% yearly fee = 0.1% monthly on a flat market over one 12-month
    // window: each month charges 0.1% of current capital, floored.
    let sim = Simulator::from_returns(flat_months(12, 0, 0));
    let v = Vars {
        initial_capital: 1_000_000,
        initial_withdrawal_min: 0,
        initial_withdrawal_max: 0,
        minimum_remaining: 0,
        yearly_fees: 1_200_000,
        years: 1,
        tax_strategy: String::new(),
    };
    let results = sim.run(v).unwrap();
    let mut expected: u64 = 1_000_000;
    for _ in 0..12 {
        expected -= expected / 1000;
    }
    assert_eq!(results.periods[0].end_capital, expected);
}

#[test]
fn test_withdrawal_switches_to_min_after_dip() {
    // The max rate (1200 a year) applies while capital is at or above the
    // start; from the moment it dips below, the min rate (0) applies, so
    // the window glides at 1100 after the first month.
    let sim = Simulator::from_returns(flat_months(12, 0, 0));
    let v = Vars {
        initial_capital: 1200,
        initial_withdrawal_min: 0,
        initial_withdrawal_max: 1200,
        minimum_remaining: 0,
        yearly_fees: 0,
        years: 1,
        tax_strategy: String::new(),
    };
    let results = sim.run(v).unwrap();
    assert_eq!(results.periods[0].duration, 12);
    assert_eq!(results.periods[0].end_capital, 1100);
    assert_eq!(results.successful, 1);
    assert_eq!(results.success_ratio_milli(), 100_000);
}
