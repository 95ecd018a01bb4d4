use vstd::prelude::*;
use crate::constants::MONTHLY_RATE_DIVISOR;

verus! {

/// One month's interest on `balance` at `annual_rate`: the balance times a twelfth of the
/// annual rate, rounded toward zero. A non-positive balance or a negative rate earns nothing.
pub open spec fn monthly_interest(balance: int, annual_rate: int) -> int {
    if balance <= 0 || annual_rate < 0 {
        0
    } else {
        (balance * annual_rate) / (MONTHLY_RATE_DIVISOR as int)
    }
}

/// Interest never is negative.
pub proof fn lemma_monthly_interest_nonnegative(balance: int, annual_rate: int)
    ensures
        monthly_interest(balance, annual_rate) >= 0,
{
    if balance > 0 && annual_rate >= 0 {
        assert(balance * annual_rate >= 0) by (nonlinear_arith)
            requires
                balance > 0,
                annual_rate >= 0,
        ;
        assert((balance * annual_rate) / 1_200_000_000 >= 0);
    }
}

/// At a rate of at most `max_rate`, a month's interest is at most that share of the balance.
pub proof fn lemma_monthly_interest_bounded(balance: int, annual_rate: int, max_rate: int)
    requires
        balance >= 0,
        0 <= annual_rate <= max_rate,
    ensures
        monthly_interest(balance, annual_rate) * 1_200_000_000 <= balance * max_rate,
{
    if balance > 0 {
        let p = balance * annual_rate;
        assert(0 <= p <= balance * max_rate) by (nonlinear_arith)
            requires
                balance > 0,
                0 <= annual_rate <= max_rate,
                p == balance * annual_rate,
        ;
        assert((p / 1_200_000_000) * 1_200_000_000 <= p) by (nonlinear_arith)
            requires
                p >= 0,
        ;
    } else {
        assert(balance * max_rate >= 0) by (nonlinear_arith)
            requires
                balance >= 0,
                max_rate >= 0,
        ;
    }
}

/// A lower balance earns no more interest at the same rate.
pub proof fn lemma_monthly_interest_monotone(lower: int, higher: int, annual_rate: int)
    requires
        lower <= higher,
    ensures
        monthly_interest(lower, annual_rate) <= monthly_interest(higher, annual_rate),
{
    lemma_monthly_interest_nonnegative(higher, annual_rate);
    if lower > 0 && annual_rate >= 0 {
        let a = lower * annual_rate;
        let b = higher * annual_rate;
        assert(0 <= a <= b) by (nonlinear_arith)
            requires
                0 < lower <= higher,
                annual_rate >= 0,
                a == lower * annual_rate,
                b == higher * annual_rate,
        ;
        assert(a / 1_200_000_000 <= b / 1_200_000_000) by (nonlinear_arith)
            requires
                0 <= a <= b,
        ;
    }
}

/// Calculate monthly interest on a balance given an annual interest rate
pub fn calculate_monthly_interest(balance: i64, annual_rate: i64) -> (interest: i128)
    ensures
        interest == monthly_interest(balance as int, annual_rate as int),
{
    if balance <= 0 || annual_rate < 0 {
        return 0;
    }
    let wide_balance: i128 = balance as i128;
    let wide_rate: i128 = annual_rate as i128;
    assert(0 <= wide_balance * wide_rate <= 0x7fff_ffff_ffff_ffff * 0x7fff_ffff_ffff_ffff)
        by (nonlinear_arith)
        requires
            0 <= wide_balance <= 0x7fff_ffff_ffff_ffff,
            0 <= wide_rate <= 0x7fff_ffff_ffff_ffff,
    ;
    (wide_balance * wide_rate) / (MONTHLY_RATE_DIVISOR as i128)
}

/// What a series of payments cost beyond the principal they retired.
pub open spec fn total_interest(initial_balance: int, final_balance: int, total_payments: int) -> int {
    let principal_paid = initial_balance - final_balance;
    if total_payments <= 0 {
        0
    } else if total_payments > principal_paid {
        total_payments - principal_paid
    } else {
        0
    }
}

/// Calculate the total interest paid over a series of payments
pub fn calculate_total_interest(initial_balance: i64, final_balance: i64, total_payments: i64) -> (interest: i128)
    ensures
        interest == total_interest(initial_balance as int, final_balance as int, total_payments as int),
{
    if total_payments <= 0 {
        return 0;
    }
    // Total interest = total payments - (initial balance - final balance)
    let principal_paid: i128 = initial_balance as i128 - final_balance as i128;
    if total_payments as i128 > principal_paid {
        total_payments as i128 - principal_paid
    } else {
        0
    }
}

/// One, as the factor by which a balance grows is counted: a hundred percent in millionths
/// of a percentage point.
pub const WHOLE: i128 = 100_000_000;

/// The least monthly rate for which the effective annual rate is calculated: -100%.
pub const MIN_MONTHLY_RATE: i64 = -100_000_000;

/// The greatest monthly rate for which the effective annual rate is calculated: 100%.
pub const MAX_MONTHLY_RATE: i64 = 100_000_000;

/// The factor by which a balance grows in `months` months at a monthly rate, in hundred
/// millionths; each month's product is rounded toward zero.
pub open spec fn growth(monthly_rate: int, months: nat) -> int
    decreases months,
{
    if months == 0 {
        WHOLE as int
    } else {
        (growth(monthly_rate, (months - 1) as nat) * (WHOLE + monthly_rate)) / (WHOLE as int)
    }
}

/// The annual rate that a monthly rate comes to when interest is added every month, in
/// millionths of a percentage point.
pub open spec fn effective_annual_rate(monthly_rate: int) -> int {
    growth(monthly_rate, 12) - WHOLE
}

/// In `months` months at a monthly rate between -100% and 100%, a balance grows to no
/// more than two to the power `months` times itself, and does not fall below nothing.
pub proof fn lemma_growth_bounds(monthly_rate: int, months: nat)
    requires
        MIN_MONTHLY_RATE <= monthly_rate <= MAX_MONTHLY_RATE,
    ensures
        0 <= growth(monthly_rate, months) <= WHOLE * vstd::arithmetic::power2::pow2(months),
    decreases months,
{
    vstd::arithmetic::power2::lemma2_to64();
    if months > 0 {
        lemma_growth_bounds(monthly_rate, (months - 1) as nat);
        let before = growth(monthly_rate, (months - 1) as nat);
        let factor = WHOLE + monthly_rate;
        let bound = WHOLE * vstd::arithmetic::power2::pow2((months - 1) as nat);
        vstd::arithmetic::power2::lemma_pow2_unfold(months);
        assert(0 <= before * factor <= bound * (2 * WHOLE)) by (nonlinear_arith)
            requires
                0 <= before <= bound,
                0 <= factor <= 2 * WHOLE,
        ;
        assert((before * factor) / (WHOLE as int) <= (bound * (2 * WHOLE)) / (WHOLE as int)) by (nonlinear_arith)
            requires
                0 <= before * factor <= bound * (2 * WHOLE),
                WHOLE > 0,
        ;
        assert((bound * (2 * WHOLE)) / (WHOLE as int) == bound * 2) by (nonlinear_arith)
            requires
                WHOLE > 0,
        ;
        assert((before * factor) / (WHOLE as int) >= 0) by (nonlinear_arith)
            requires
                0 <= before * factor,
                WHOLE > 0,
        ;
    }
}

/// Calculate effective annual rate from monthly interest rate
pub fn calculate_effective_annual_rate(monthly_rate: i64) -> (annual_rate: i128)
    requires
        MIN_MONTHLY_RATE <= monthly_rate <= MAX_MONTHLY_RATE,
    ensures
        annual_rate == effective_annual_rate(monthly_rate as int),
{
    let factor: i128 = WHOLE + monthly_rate as i128;
    let mut grown: i128 = WHOLE;
    let mut month: u8 = 0;
    while month < 12
        invariant
            month <= 12,
            factor == WHOLE + monthly_rate,
            MIN_MONTHLY_RATE <= monthly_rate <= MAX_MONTHLY_RATE,
            grown == growth(monthly_rate as int, month as nat),
        decreases 12 - month,
    {
        proof {
            lemma_growth_bounds(monthly_rate as int, month as nat);
            vstd::arithmetic::power2::lemma2_to64();
            vstd::arithmetic::power2::lemma_pow2_strictly_increases(month as nat, 12);
            assert(0 <= grown * factor <= (WHOLE * 4096) * (2 * WHOLE)) by (nonlinear_arith)
                requires
                    0 <= grown <= WHOLE * 4096,
                    0 <= factor <= 2 * WHOLE,
            ;
        }
        grown = (grown * factor) / WHOLE;
        month += 1;
    }
    proof {
        lemma_growth_bounds(monthly_rate as int, 12);
    }
    grown - WHOLE
}

/// The balance after a month's interest and one payment, never below zero.
pub open spec fn balance_after_payment(balance: int, annual_rate: int, payment: int) -> int {
    let owed = balance + monthly_interest(balance, annual_rate) - payment;
    if owed > 0 {
        owed
    } else {
        0
    }
}

/// Calculate new balance after applying monthly interest and payment
pub fn apply_payment_with_interest(balance: i64, annual_rate: i64, payment: i64) -> (new_balance: i128)
    ensures
        new_balance == balance_after_payment(balance as int, annual_rate as int, payment as int),
{
    let interest = calculate_monthly_interest(balance, annual_rate);
    proof {
        lemma_monthly_interest_nonnegative(balance as int, annual_rate as int);
        if balance > 0 && annual_rate >= 0 {
            let b = balance as int;
            let r = annual_rate as int;
            assert(b * r <= 0x7fff_ffff_ffff_ffff * 0x7fff_ffff_ffff_ffff) by (nonlinear_arith)
                requires
                    0 <= b <= 0x7fff_ffff_ffff_ffff,
                    0 <= r <= 0x7fff_ffff_ffff_ffff,
            ;
        }
    }
    let new_balance: i128 = balance as i128 + interest - payment as i128;
    if new_balance > 0 {
        new_balance
    } else {
        0
    }
}

} // verus!
