//! Fixed-point amounts: `Uint128` amounts are plain `u128`, and a decimal
//! is a `u128` count of 10^-18 units, as cosmwasm-std stores it.

use vstd::prelude::*;

verus! {

/// Number of atomic units in one whole decimal (10^18).
pub const DECIMAL_FRACTIONAL: u128 = 1_000_000_000_000_000_000u128;

/// A non-negative fixed-point number with 18 fractional digits.
#[derive(Clone, Copy, Debug, PartialEq, Eq, Structural)]
pub struct Decimal {
    pub atomics: u128,
}

/// `floor(value * numerator / denominator)` over the integers.
pub open spec fn ratio(value: int, numerator: int, denominator: int) -> int {
    value * numerator / denominator
}

/// `Uint128::multiply_ratio` of cosmwasm-std: the product is taken in 256 bits,
/// divided by the denominator with truncation, and converted back to 128 bits.
/// The contract claims exactly that result; the call panics on a zero denominator
/// and on a result above `u128::MAX`, which `requires` leaves out.
#[verifier::external_body]
pub(crate) fn multiply_ratio(value: u128, numerator: u128, denominator: u128) -> (r: u128)
    requires
        denominator > 0,
        ratio(value as int, numerator as int, denominator as int) <= u128::MAX,
    ensures
        r as int == ratio(value as int, numerator as int, denominator as int),
{
    cosmwasm_std::Uint128::new(value).multiply_ratio(numerator, denominator).u128()
}

impl Decimal {
    pub fn zero() -> (r: Decimal)
        ensures
            r.atomics == 0,
    {
        Decimal { atomics: 0 }
    }

    pub fn one() -> (r: Decimal)
        ensures
            r.atomics == DECIMAL_FRACTIONAL,
    {
        Decimal { atomics: DECIMAL_FRACTIONAL }
    }

    /// `x` percent.
    pub fn percent(x: u64) -> (r: Decimal)
        ensures
            r.atomics == x as int * 10_000_000_000_000_000,
    {
        Decimal { atomics: (x as u128) * 10_000_000_000_000_000u128 }
    }

    /// `x` per mille.
    pub fn permille(x: u64) -> (r: Decimal)
        ensures
            r.atomics == x as int * 1_000_000_000_000_000,
    {
        Decimal { atomics: (x as u128) * 1_000_000_000_000_000u128 }
    }

    pub fn is_zero(&self) -> (r: bool)
        ensures
            r == (self.atomics == 0),
    {
        self.atomics == 0
    }

    /// `numerator / denominator`, truncated to 18 fractional digits.
    pub fn from_ratio(numerator: u128, denominator: u128) -> (r: Decimal)
        requires
            denominator > 0,
            ratio(numerator as int, DECIMAL_FRACTIONAL as int, denominator as int) <= u128::MAX,
        ensures
            r.atomics as int == ratio(numerator as int, DECIMAL_FRACTIONAL as int, denominator as int),
    {
        Decimal { atomics: multiply_ratio(numerator, DECIMAL_FRACTIONAL, denominator) }
    }

    pub fn add(self, other: Decimal) -> (r: Decimal)
        requires
            self.atomics + other.atomics <= u128::MAX,
        ensures
            r.atomics == self.atomics + other.atomics,
    {
        Decimal { atomics: self.atomics + other.atomics }
    }

    pub fn sub(self, other: Decimal) -> (r: Decimal)
        requires
            self.atomics >= other.atomics,
        ensures
            r.atomics == self.atomics - other.atomics,
    {
        Decimal { atomics: self.atomics - other.atomics }
    }

    pub fn le(&self, other: &Decimal) -> (r: bool)
        ensures
            r == (self.atomics <= other.atomics),
    {
        self.atomics <= other.atomics
    }

    pub fn lt(&self, other: &Decimal) -> (r: bool)
        ensures
            r == (self.atomics < other.atomics),
    {
        self.atomics < other.atomics
    }
}

/// `Decimal::from_ratio(n, d)` in atomics.
pub open spec fn dec_ratio(n: int, d: int) -> int {
    ratio(n, DECIMAL_FRACTIONAL as int, d)
}

/// `amount * d` as cosmwasm-std defines `Uint128 * Decimal`: the amount times the
/// decimal's atomics, divided by 10^18, truncated.
pub open spec fn spec_mul_dec(amount: int, d: Decimal) -> int {
    ratio(amount, d.atomics as int, DECIMAL_FRACTIONAL as int)
}

/// `amount * d`, truncated towards zero.
pub fn mul_dec(amount: u128, d: Decimal) -> (r: u128)
    requires
        spec_mul_dec(amount as int, d) <= u128::MAX,
    ensures
        r as int == spec_mul_dec(amount as int, d),
{
    if amount == 0 || d.atomics == 0 {
        proof {
            lemma_ratio_zero(amount as int, d.atomics as int, DECIMAL_FRACTIONAL as int);
        }
        0
    } else {
        multiply_ratio(amount, d.atomics, DECIMAL_FRACTIONAL)
    }
}

pub proof fn lemma_ratio_zero(v: int, n: int, d: int)
    requires
        d > 0,
        v == 0 || n == 0,
    ensures
        ratio(v, n, d) == 0,
{
    assert(v * n == 0) by (nonlinear_arith)
        requires
            v == 0 || n == 0,
    ;
}

/// A ratio whose numerator does not exceed its denominator does not exceed the value.
pub proof fn lemma_ratio_le_value(v: int, n: int, d: int)
    requires
        v >= 0,
        0 <= n <= d,
        d > 0,
    ensures
        0 <= ratio(v, n, d) <= v,
{
    assert(0 <= v * n <= v * d) by (nonlinear_arith)
        requires
            v >= 0,
            0 <= n <= d,
    ;
    assert((v * d) / d == v) by (nonlinear_arith)
        requires
            d > 0,
    ;
    vstd::arithmetic::div_mod::lemma_div_is_ordered(v * n, v * d, d);
    vstd::arithmetic::div_mod::lemma_div_pos_is_pos(v * n, d);
}

/// Splitting a weight `n = s + t` between two durations `a` and `b` and rounding
/// each part down never exceeds the longer of the two durations.
pub proof fn lemma_weighted_parts_le_max(a: int, b: int, s: int, t: int)
    requires
        a >= 0,
        b >= 0,
        s >= 0,
        t >= 0,
        s + t > 0,
    ensures
        ratio(a, s, s + t) + ratio(b, t, s + t) <= if a >= b { a } else { b },
{
    let n = s + t;
    let m = if a >= b { a } else { b };
    assert(a * s + b * t <= m * n) by (nonlinear_arith)
        requires
            a >= 0, b >= 0, s >= 0, t >= 0, n == s + t, m >= a, m >= b,
    ;
    vstd::arithmetic::div_mod::lemma_fundamental_div_mod(a * s, n);
    vstd::arithmetic::div_mod::lemma_fundamental_div_mod(b * t, n);
    vstd::arithmetic::div_mod::lemma_mod_bound(a * s, n);
    vstd::arithmetic::div_mod::lemma_mod_bound(b * t, n);
    let q1 = (a * s) / n;
    let q2 = (b * t) / n;
    assert(n * (q1 + q2) <= a * s + b * t) by (nonlinear_arith)
        requires
            a * s == n * q1 + (a * s) % n,
            b * t == n * q2 + (b * t) % n,
            (a * s) % n >= 0,
            (b * t) % n >= 0,
    ;
    assert(q1 + q2 <= m) by (nonlinear_arith)
        requires
            n * (q1 + q2) <= a * s + b * t,
            a * s + b * t <= m * n,
            n > 0,
    ;
}

/// Shares for `amount` at the rate `total_share / total_balance`, rounded down, and
/// then rounded up once if they fall short, are worth at least `amount` at the
/// inverse rate.
pub proof fn lemma_share_rounded_up_covers(amount: int, total_share: int, total_balance: int)
    requires
        amount >= 0,
        total_share > 0,
        total_balance > 0,
    ensures
        ({
            let sh = ratio(amount, total_share, total_balance);
            let up = if ratio(sh, total_balance, total_share) < amount { sh + 1 } else { sh };
            ratio(up, total_balance, total_share) >= amount
        }),
{
    let sh = ratio(amount, total_share, total_balance);
    if ratio(sh, total_balance, total_share) < amount {
        let x = amount * total_share;
        vstd::arithmetic::div_mod::lemma_fundamental_div_mod(x, total_balance);
        vstd::arithmetic::div_mod::lemma_mod_bound(x, total_balance);
        assert(x == total_balance * sh + x % total_balance);
        assert(x <= (sh + 1) * total_balance) by (nonlinear_arith)
            requires
                x == total_balance * sh + x % total_balance,
                x % total_balance < total_balance,
        ;
        vstd::arithmetic::div_mod::lemma_div_is_ordered(x, (sh + 1) * total_balance, total_share);
        vstd::arithmetic::div_mod::lemma_div_by_multiple(amount, total_share);
        assert(amount * total_share == x);
    }
}

/// `floor(x / d) + floor(y / d) <= floor((x + y + z) / d)` for non-negative terms.
pub proof fn lemma_floor_sum_le(x: int, y: int, z: int, d: int)
    requires
        x >= 0,
        y >= 0,
        z >= 0,
        d > 0,
    ensures
        x / d + y / d <= (x + y + z) / d,
{
    vstd::arithmetic::div_mod::lemma_fundamental_div_mod(x, d);
    vstd::arithmetic::div_mod::lemma_fundamental_div_mod(y, d);
    vstd::arithmetic::div_mod::lemma_mod_bound(x, d);
    vstd::arithmetic::div_mod::lemma_mod_bound(y, d);
    let q = x / d + y / d;
    assert(d * q <= x + y + z) by (nonlinear_arith)
        requires
            x == d * (x / d) + x % d,
            y == d * (y / d) + y % d,
            x % d >= 0,
            y % d >= 0,
            z >= 0,
            q == x / d + y / d,
    ;
    vstd::arithmetic::div_mod::lemma_div_is_ordered(d * q, x + y + z, d);
    vstd::arithmetic::div_mod::lemma_div_by_multiple(q, d);
    assert(d * q == q * d) by (nonlinear_arith);
}

/// Shares bought at the rate `total_share / total_balance`, rounded down, are worth
/// no more than what paid for them once they and the payment join the totals.
pub proof fn lemma_bought_shares_not_worth_more(amount: int, total_share: int, total_balance: int)
    requires
        amount >= 0,
        total_share > 0,
        total_balance > 0,
    ensures
        ratio(amount, total_share, total_balance) >= 0,
        ratio(ratio(amount, total_share, total_balance), total_balance + amount, total_share + ratio(amount, total_share, total_balance)) <= amount,
{
    let sh = ratio(amount, total_share, total_balance);
    let x = amount * total_share;
    assert(amount * total_share >= 0) by (nonlinear_arith)
        requires amount >= 0, total_share > 0;
    vstd::arithmetic::div_mod::lemma_div_pos_is_pos(x, total_balance);
    vstd::arithmetic::div_mod::lemma_fundamental_div_mod(x, total_balance);
    vstd::arithmetic::div_mod::lemma_mod_bound(x, total_balance);
    assert(total_balance * sh <= x);
    let n = total_share + sh;
    assert(sh * (total_balance + amount) <= amount * n) by (nonlinear_arith)
        requires
            total_balance * sh <= amount * total_share,
            n == total_share + sh,
    ;
    vstd::arithmetic::div_mod::lemma_div_is_ordered(sh * (total_balance + amount), amount * n, n);
    vstd::arithmetic::div_mod::lemma_div_by_multiple(amount, n);
}


/// `floor(x / d) * d <= x` for non-negative `x` and positive `d`.
pub proof fn lemma_floor_times_le(x: int, d: int)
    requires
        x >= 0,
        d > 0,
    ensures
        0 <= (x / d) * d <= x,
{
    vstd::arithmetic::div_mod::lemma_fundamental_div_mod(x, d);
    vstd::arithmetic::div_mod::lemma_mod_bound(x, d);
    vstd::arithmetic::div_mod::lemma_div_pos_is_pos(x, d);
    assert((x / d) * d == d * (x / d)) by (nonlinear_arith);
    assert((x / d) * d >= 0) by (nonlinear_arith)
        requires x / d >= 0, d > 0;
}

} // verus!
