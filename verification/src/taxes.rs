//! Tax policies applied once per completed 12-month cycle.
//!
//! A policy maps `(capital, annual gain)` to the tax owed. Besides the
//! tax-free policy there are two presumed-yield wealth taxes: both charge a
//! fixed percentage of a presumed return on capital, read off a fixed
//! bracket table, regardless of the actual gain. Policies are selected by
//! exact name; an unrecognized name silently resolves to the tax-free
//! policy.

use vstd::prelude::*;

verus! {

use crate::SCALE;
use crate::CAP_MAX;

/// A named, pure tax policy.
#[derive(Clone, Copy, Debug, PartialEq, Eq, Structural)]
pub enum TaxStrategy {
    /// No tax is ever owed.
    TaxFree,
    /// Presumed-yield wealth tax, 2020 bracket table, 30% of the presumed
    /// return.
    Vermogensbelasting2020,
    /// Presumed-yield wealth tax, 2022 bracket table, 31% of the presumed
    /// return.
    Vermogensbelasting2022,
}

/// Tax-free allowance of the 2020 table, in currency units.
pub const ALLOWANCE_2020: u64 = 30_846;

/// Upper bound of the first 2020 bracket, over the taxable base.
pub const BRACKET1_2020: u64 = 72_797;

/// Upper bound of the second 2020 bracket, over the taxable base.
pub const BRACKET2_2020: u64 = 1_005_572;

/// Presumed yearly yields of the three 2020 brackets, in [`SCALE`] sub-units.
pub const YIELD1_2020: u64 = 17_890;

pub const YIELD2_2020: u64 = 41_850;

pub const YIELD3_2020: u64 = 52_800;

/// Percentage of the presumed yield owed under the 2020 table.
pub const RATE_2020: u64 = 30;

/// Tax-free allowance of the 2022 table, in currency units.
pub const ALLOWANCE_2022: u64 = 50_650;

/// Upper bound of the first 2022 bracket, over the taxable base.
pub const BRACKET1_2022: u64 = 50_650;

/// Upper bound of the second 2022 bracket, over the taxable base.
pub const BRACKET2_2022: u64 = 962_350;

/// Presumed yearly yields of the three 2022 brackets, in [`SCALE`] sub-units.
pub const YIELD1_2022: u64 = 18_200;

pub const YIELD2_2022: u64 = 43_700;

pub const YIELD3_2022: u64 = 55_300;

/// Percentage of the presumed yield owed under the 2022 table.
pub const RATE_2022: u64 = 31;

/// A presumed-yield wealth tax over a three-bracket table: capital above
/// the allowance is split at the two bracket bounds, each part is presumed
/// to yield its bracket's rate, and `rate_pct` percent of that presumed
/// yield is owed.
pub open spec fn bracket_tax(
    capital: int,
    allowance: int,
    b1: int,
    b2: int,
    y1: int,
    y2: int,
    y3: int,
    rate_pct: int,
) -> int {
    let taxable = if capital > allowance {
        capital - allowance
    } else {
        0
    };
    let t1 = if taxable < b1 {
        taxable
    } else {
        b1
    };
    let t2 = if taxable > b1 {
        (if taxable < b2 {
            taxable
        } else {
            b2
        }) - b1
    } else {
        0
    };
    let t3 = if taxable > b2 {
        taxable - b2
    } else {
        0
    };
    (t1 * y1 + t2 * y2 + t3 * y3) * rate_pct / (100 * SCALE)
}

/// Tax owed under a policy for one yearly assessment. The wealth-tax
/// policies read only the capital; the actual gain is ignored by design.
pub open spec fn tax_owed(s: TaxStrategy, capital: int, gains: int) -> int {
    match s {
        TaxStrategy::TaxFree => 0,
        TaxStrategy::Vermogensbelasting2020 => bracket_tax(
            capital,
            ALLOWANCE_2020 as int,
            BRACKET1_2020 as int,
            BRACKET2_2020 as int,
            YIELD1_2020 as int,
            YIELD2_2020 as int,
            YIELD3_2020 as int,
            RATE_2020 as int,
        ),
        TaxStrategy::Vermogensbelasting2022 => bracket_tax(
            capital,
            ALLOWANCE_2022 as int,
            BRACKET1_2022 as int,
            BRACKET2_2022 as int,
            YIELD1_2022 as int,
            YIELD2_2022 as int,
            YIELD3_2022 as int,
            RATE_2022 as int,
        ),
    }
}

/// The policy a strategy name selects: exact match, with silent fallback
/// to the tax-free policy on any unrecognized name.
pub open spec fn strategy_of_name(name: Seq<char>) -> TaxStrategy {
    if name == "vermogensbelasting 2020"@ {
        TaxStrategy::Vermogensbelasting2020
    } else if name == "vermogensbelasting 2022"@ {
        TaxStrategy::Vermogensbelasting2022
    } else {
        TaxStrategy::TaxFree
    }
}

/// Resolves a strategy name to its policy, tax-free for unknown names.
pub fn strategy_from_name(name: &String) -> (s: TaxStrategy)
    ensures
        s == strategy_of_name(name@),
{
    let n2020: String = "vermogensbelasting 2020".to_owned();
    let n2022: String = "vermogensbelasting 2022".to_owned();
    if *name == n2020 {
        TaxStrategy::Vermogensbelasting2020
    } else if *name == n2022 {
        TaxStrategy::Vermogensbelasting2022
    } else {
        TaxStrategy::TaxFree
    }
}

/// One yearly tax assessment on the given capital and that year's gain.
pub fn tax_for(s: TaxStrategy, capital: u128, gains: i128) -> (t: u128)
    requires
        capital <= CAP_MAX,
    ensures
        t == tax_owed(s, capital as int, gains as int),
        t <= capital,
{
    match s {
        TaxStrategy::TaxFree => 0u128,
        TaxStrategy::Vermogensbelasting2020 => bracket_tax_exec(
            capital,
            ALLOWANCE_2020,
            BRACKET1_2020,
            BRACKET2_2020,
            YIELD1_2020,
            YIELD2_2020,
            YIELD3_2020,
            RATE_2020,
        ),
        TaxStrategy::Vermogensbelasting2022 => bracket_tax_exec(
            capital,
            ALLOWANCE_2022,
            BRACKET1_2022,
            BRACKET2_2022,
            YIELD1_2022,
            YIELD2_2022,
            YIELD3_2022,
            RATE_2022,
        ),
    }
}

/// Evaluates one bracket table on the given capital.
fn bracket_tax_exec(
    capital: u128,
    allowance: u64,
    b1: u64,
    b2: u64,
    y1: u64,
    y2: u64,
    y3: u64,
    rate_pct: u64,
) -> (t: u128)
    requires
        capital <= CAP_MAX,
        b1 <= b2,
        y1 <= SCALE && y2 <= SCALE && y3 <= SCALE,
        rate_pct <= 100,
    ensures
        t == bracket_tax(
            capital as int,
            allowance as int,
            b1 as int,
            b2 as int,
            y1 as int,
            y2 as int,
            y3 as int,
            rate_pct as int,
        ),
        t <= capital,
{
    let taxable: u128 = if capital > allowance as u128 {
        capital - allowance as u128
    } else {
        0
    };
    let t1: u128 = if taxable < b1 as u128 {
        taxable
    } else {
        b1 as u128
    };
    let t2: u128 = if taxable > b1 as u128 {
        (if taxable < b2 as u128 {
            taxable
        } else {
            b2 as u128
        }) - b1 as u128
    } else {
        0
    };
    let t3: u128 = if taxable > b2 as u128 {
        taxable - b2 as u128
    } else {
        0
    };
    proof {
        assert(t1 + t2 + t3 == taxable);
        vstd::arithmetic::mul::lemma_mul_upper_bound(t1 as int, taxable as int, y1 as int, SCALE as int);
        vstd::arithmetic::mul::lemma_mul_upper_bound(t2 as int, taxable as int, y2 as int, SCALE as int);
        vstd::arithmetic::mul::lemma_mul_upper_bound(t3 as int, taxable as int, y3 as int, SCALE as int);
    }
    let presumed: u128 = t1 * y1 as u128 + t2 * y2 as u128 + t3 * y3 as u128;
    proof {
        assert(t1 * (y1 as int) + t2 * (y2 as int) + t3 * (y3 as int) <= taxable * (SCALE as int))
            by (nonlinear_arith)
            requires
                0 <= t1 && 0 <= t2 && 0 <= t3,
                0 <= y1 <= SCALE && 0 <= y2 <= SCALE && 0 <= y3 <= SCALE,
                t1 + t2 + t3 == taxable;
        vstd::arithmetic::mul::lemma_mul_upper_bound(
            presumed as int,
            (CAP_MAX as int) * (SCALE as int),
            rate_pct as int,
            100,
        );
    }
    let scaled: u128 = presumed * rate_pct as u128;
    let t: u128 = scaled / (100u128 * SCALE as u128);
    proof {
        lemma_bracket_tax_le_capital(capital as int, taxable as int, t1 as int, t2 as int, t3 as int,
            y1 as int, y2 as int, y3 as int, rate_pct as int);
    }
    t
}

/// The bracket tax never exceeds the capital it is assessed on: each
/// bracket's presumed yield stays below 100%, and only a percentage of the
/// presumed yield is owed.
proof fn lemma_bracket_tax_le_capital(
    capital: int,
    taxable: int,
    t1: int,
    t2: int,
    t3: int,
    y1: int,
    y2: int,
    y3: int,
    rate_pct: int,
)
    requires
        0 <= t1 && 0 <= t2 && 0 <= t3,
        t1 + t2 + t3 == taxable,
        0 <= taxable <= capital,
        0 <= y1 <= SCALE && 0 <= y2 <= SCALE && 0 <= y3 <= SCALE,
        0 <= rate_pct <= 100,
    ensures
        (t1 * y1 + t2 * y2 + t3 * y3) * rate_pct / (100 * SCALE) <= capital,
{
    let presumed = t1 * y1 + t2 * y2 + t3 * y3;
    assert(t1 * y1 <= t1 * SCALE) by (nonlinear_arith)
        requires 0 <= t1 && y1 <= SCALE;
    assert(t2 * y2 <= t2 * SCALE) by (nonlinear_arith)
        requires 0 <= t2 && y2 <= SCALE;
    assert(t3 * y3 <= t3 * SCALE) by (nonlinear_arith)
        requires 0 <= t3 && y3 <= SCALE;
    assert(presumed <= taxable * SCALE) by (nonlinear_arith)
        requires
            t1 * y1 <= t1 * SCALE,
            t2 * y2 <= t2 * SCALE,
            t3 * y3 <= t3 * SCALE,
            presumed == t1 * y1 + t2 * y2 + t3 * y3,
            t1 + t2 + t3 == taxable;
    assert(0 <= presumed) by (nonlinear_arith)
        requires 0 <= t1 && 0 <= t2 && 0 <= t3 && 0 <= y1 && 0 <= y2 && 0 <= y3,
            presumed == t1 * y1 + t2 * y2 + t3 * y3;
    assert(presumed * rate_pct <= taxable * SCALE * 100) by (nonlinear_arith)
        requires 0 <= presumed && presumed <= taxable * SCALE && 0 <= rate_pct <= 100;
    assert(taxable * SCALE * 100 == taxable * (100 * SCALE)) by (nonlinear_arith);
    vstd::arithmetic::mul::lemma_mul_nonnegative(presumed, rate_pct);
    vstd::arithmetic::div_mod::lemma_div_is_ordered(
        presumed * rate_pct,
        taxable * (100 * SCALE),
        100 * SCALE,
    );
    vstd::arithmetic::div_mod::lemma_div_by_multiple(taxable, 100 * SCALE);
    assert(taxable * (100 * SCALE) / (100 * SCALE) == taxable);
}

} // verus!
