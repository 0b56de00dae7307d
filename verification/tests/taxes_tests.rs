use drawdown_sim::taxes::TaxStrategy;
use drawdown_sim::taxes::strategy_from_name;
use drawdown_sim::taxes::tax_for;

#[test]
fn test_strategy_selection_by_name() {
    let s = strategy_from_name(&"vermogensbelasting 2020".to_string());
    assert_eq!(s, TaxStrategy::Vermogensbelasting2020);
    let s = strategy_from_name(&"vermogensbelasting 2022".to_string());
    assert_eq!(s, TaxStrategy::Vermogensbelasting2022);
}

#[test]
fn test_unknown_strategy_falls_back_to_tax_free() {
    assert_eq!(strategy_from_name(&String::new()), TaxStrategy::TaxFree);
    assert_eq!(strategy_from_name(&"box 3".to_string()), TaxStrategy::TaxFree);
    assert_eq!(
        strategy_from_name(&"vermogensbelasting 2021".to_string()),
        TaxStrategy::TaxFree
    );
}

#[test]
fn test_tax_free_owes_nothing() {
    assert_eq!(tax_for(TaxStrategy::TaxFree, 1_000_000, 50_000), 0);
    assert_eq!(tax_for(TaxStrategy::TaxFree, 0, -10), 0);
}

#[test]
fn test_wealth_tax_2020_first_bracket() {
    // taxable 69_154, all in the first bracket:
    // 69_154 * 1.789% * 30% = 371 (floored).
    assert_eq!(tax_for(TaxStrategy::Vermogensbelasting2020, 100_000, 0), 371);
}

#[test]
fn test_wealth_tax_2020_all_brackets() {
    assert_eq!(tax_for(TaxStrategy::Vermogensbelasting2020, 2_000_000, 0), 27_364);
}

#[test]
fn test_wealth_tax_2022_values() {
    assert_eq!(tax_for(TaxStrategy::Vermogensbelasting2022, 100_000, 0), 278);
    assert_eq!(tax_for(TaxStrategy::Vermogensbelasting2022, 2_000_000, 0), 29_556);
}

#[test]
fn test_wealth_tax_under_allowance_is_zero() {
    assert_eq!(tax_for(TaxStrategy::Vermogensbelasting2020, 30_846, 0), 0);
    assert_eq!(tax_for(TaxStrategy::Vermogensbelasting2022, 50_650, 0), 0);
}

#[test]
fn test_wealth_tax_ignores_actual_gain() {
    let low = tax_for(TaxStrategy::Vermogensbelasting2020, 100_000, -1_000_000);
    let high = tax_for(TaxStrategy::Vermogensbelasting2020, 100_000, 1_000_000);
    assert_eq!(low, high);
}
