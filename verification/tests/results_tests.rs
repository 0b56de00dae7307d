use drawdown_sim::results::Period;
use drawdown_sim::results::Results;
use drawdown_sim::results::sort_periods;
use core::cmp::Ordering;

fn period(duration: usize, end_capital: u64) -> Period {
    Period {
        duration,
        end_capital,
        date_start: "s".to_string(),
        date_end: "e".to_string(),
    }
}

fn result_set(capitals: &[u64]) -> Results {
    let periods: Vec<Period> = capitals.iter().map(|&c| period(12, c)).collect();
    Results { successful: 0, samples: periods.len(), periods }
}

#[test]
fn test_median_odd_is_middle_element() {
    let rs = result_set(&[500, 300, 100]);
    assert_eq!(rs.median(), 300);
}

#[test]
fn test_median_even_is_average_of_middles() {
    let rs = result_set(&[500, 300, 200, 100]);
    assert_eq!(rs.median(), 250);
}

#[test]
fn test_median_single() {
    let rs = result_set(&[42]);
    assert_eq!(rs.median(), 42);
}

#[test]
fn test_head_and_tail_slices() {
    let rs = result_set(&[500, 300, 100]);
    let best = rs.head(2);
    assert_eq!(best.len(), 2);
    assert_eq!(best[0].end_capital, 500);
    assert_eq!(best[1].end_capital, 300);
    let worst = rs.tail(1);
    assert_eq!(worst.len(), 1);
    assert_eq!(worst[0].end_capital, 100);
}

#[test]
fn test_head_and_tail_clamp_to_available() {
    let rs = result_set(&[500, 300]);
    assert_eq!(rs.head(10).len(), 2);
    assert_eq!(rs.tail(10).len(), 2);
    assert_eq!(rs.head(0).len(), 0);
    assert_eq!(rs.tail(0).len(), 0);
}

#[test]
fn test_head_tail_partition_no_duplication() {
    let rs = result_set(&[500, 300, 200, 100]);
    for n in 0..=4usize {
        let head = rs.head(n);
        let tail = rs.tail(4 - n);
        let mut joined: Vec<u64> = head.iter().map(|p| p.end_capital).collect();
        joined.extend(tail.iter().map(|p| p.end_capital));
        assert_eq!(joined, vec![500, 300, 200, 100]);
    }
}

#[test]
fn test_period_ranking_comparison() {
    let a = period(10, 200);
    let b = period(10, 100);
    assert_eq!(a.cmp(&b), Ordering::Greater);
    assert_eq!(b.cmp(&a), Ordering::Less);
    // tie on capital: longer duration ranks higher
    let c = period(12, 100);
    assert_eq!(c.cmp(&b), Ordering::Greater);
    assert_eq!(b.cmp(&c), Ordering::Less);
}

#[test]
fn test_period_equality_ignores_dates() {
    let a = Period {
        duration: 12,
        end_capital: 100,
        date_start: "x".to_string(),
        date_end: "y".to_string(),
    };
    let b = Period {
        duration: 12,
        end_capital: 100,
        date_start: "p".to_string(),
        date_end: "q".to_string(),
    };
    assert!(a == b);
    let c = period(11, 100);
    assert!(a != c);
}

#[test]
fn test_sort_periods_descending_with_tie_break() {
    let v = vec![period(5, 100), period(9, 300), period(8, 100), period(1, 300)];
    let sorted = sort_periods(v);
    let keys: Vec<(u64, usize)> =
        sorted.iter().map(|p| (p.end_capital, p.duration)).collect();
    assert_eq!(keys, vec![(300, 9), (300, 1), (100, 8), (100, 5)]);
}

#[test]
fn test_median_invariant_under_input_order() {
    let a = sort_periods(vec![period(1, 500), period(2, 100), period(3, 300)]);
    let b = sort_periods(vec![period(3, 300), period(1, 500), period(2, 100)]);
    let ra = Results { successful: 0, samples: 3, periods: a };
    let rb = Results { successful: 0, samples: 3, periods: b };
    assert_eq!(ra.median(), rb.median());
    assert_eq!(ra.median(), 300);
}

#[test]
fn test_ranking_transitive_on_values() {
    let a = period(5, 300);
    let b = period(9, 200);
    let c = period(9, 100);
    assert_eq!(a.cmp(&b), Ordering::Greater);
    assert_eq!(b.cmp(&c), Ordering::Greater);
    assert_eq!(a.cmp(&c), Ordering::Greater);
}

#[test]
fn test_success_ratio_exact() {
    let mut rs = result_set(&[500, 300, 100]);
    rs.successful = 3;
    assert_eq!(rs.success_ratio_milli(), 100_000);
    rs.successful = 1;
    assert_eq!(rs.success_ratio_milli(), 33_333);
    rs.successful = 0;
    assert_eq!(rs.success_ratio_milli(), 0);
}
