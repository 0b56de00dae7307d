use drawdown_sim::series::HistoricalRecord;
use drawdown_sim::series::build_returns;
use drawdown_sim::SimError;

fn record(date: &str, price: u64, dividend: u64, cpi: u64) -> HistoricalRecord {
    HistoricalRecord { date: date.to_string(), price, dividend, cpi }
}

#[test]
fn test_build_returns_insufficient_data() {
    let none: Vec<HistoricalRecord> = Vec::new();
    assert_eq!(build_returns(&none).unwrap_err(), SimError::InsufficientData);
    let one = vec![record("1990-01", 100_000_000, 0, 100_000_000)];
    assert_eq!(build_returns(&one).unwrap_err(), SimError::InsufficientData);
}

#[test]
fn test_build_returns_exact_values() {
    // 10% price rise, a dividend of 12 units on a price of 110 units, 2% CPI rise.
    let records = vec![
        record("1990-01", 100_000_000, 0, 100_000_000),
        record("1990-02", 110_000_000, 12_000_000, 102_000_000),
    ];
    let months = build_returns(&records).unwrap();
    assert_eq!(months.len(), 1);
    assert_eq!(months[0].date, "1990-02");
    // price part: 110/100 - 1 = 0.10 -> 100_000; dividend part:
    // 12 / 110 / 12 = 1/110 -> 9_090 (floored).
    assert_eq!(months[0].total_return, 109_090);
    // 102/100 - 1 = 0.02 -> 20_000.
    assert_eq!(months[0].inflation_rate, 20_000);
}

#[test]
fn test_build_returns_preserves_order() {
    let records = vec![
        record("a", 100_000_000, 0, 100_000_000),
        record("b", 100_000_000, 0, 100_000_000),
        record("c", 200_000_000, 0, 100_000_000),
    ];
    let months = build_returns(&records).unwrap();
    assert_eq!(months.len(), 2);
    assert_eq!(months[0].date, "b");
    assert_eq!(months[1].date, "c");
    assert_eq!(months[0].total_return, 0);
    assert_eq!(months[1].total_return, 1_000_000);
}

#[test]
fn test_build_returns_malformed_zero_price() {
    let records = vec![
        record("a", 0, 0, 100_000_000),
        record("b", 100_000_000, 0, 100_000_000),
    ];
    assert_eq!(build_returns(&records).unwrap_err(), SimError::MalformedRecord);
}

#[test]
fn test_build_returns_malformed_zero_cpi() {
    let records = vec![
        record("a", 100_000_000, 0, 100_000_000),
        record("b", 100_000_000, 0, 0),
    ];
    assert_eq!(build_returns(&records).unwrap_err(), SimError::MalformedRecord);
}
