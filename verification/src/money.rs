//! Decimal money amounts, computed by `rust_decimal`.
use vstd::prelude::*;

use crate::text::{decimal_of, digit};
use rust_decimal::Decimal;

verus! {

/// Largest mantissa of a decimal amount (96 bits).
pub const MAX_MANTISSA: i128 = 79_228_162_514_264_337_593_543_950_335;

/// Largest scale of a decimal amount.
pub const MAX_SCALE: u32 = 28;

/// The amount `mantissa * 10^(-scale)`.
#[derive(Debug, Clone, Copy, PartialEq, Eq, Structural)]
pub struct Amount {
    pub mantissa: i128,
    pub scale: u32,
}

/// `10^n`.
pub open spec fn pow10(n: nat) -> nat
    decreases n,
{
    if n == 0 {
        1
    } else {
        10 * pow10((n - 1) as nat)
    }
}

/// `m` fits the 96 bits of a mantissa.
pub open spec fn fits(m: int) -> bool {
    -MAX_MANTISSA <= m <= MAX_MANTISSA
}

/// `n` in decimal with exactly `width` digits (its lowest ones).
pub open spec fn padded(n: nat, width: nat) -> Seq<char>
    decreases width,
{
    if width == 0 {
        Seq::empty()
    } else {
        padded(n / 10, (width - 1) as nat).push(digit((n % 10) as int))
    }
}

/// `m * 10^(-s)` written with its sign, at least one digit before the point
/// and exactly `s` digits after it (no point where `s` is zero).
pub open spec fn amount_text(m: int, s: nat) -> Seq<char> {
    let sign = if m < 0 {
        seq!['-']
    } else {
        Seq::empty()
    };
    let n: nat = if m < 0 {
        (-m) as nat
    } else {
        m as nat
    };
    let whole = decimal_of(n / pow10(s));
    let tail = if s == 0 {
        Seq::empty()
    } else {
        seq!['.'] + padded(n, s)
    };
    sign + whole + tail
}

impl Amount {
    /// The amount is one that 96 bits and a scale of at most 28 can hold.
    pub open spec fn wf(self) -> bool {
        fits(self.mantissa as int) && self.scale <= MAX_SCALE
    }

    /// The mantissa of this amount at the finer scale `s`.
    pub open spec fn at_scale(self, s: nat) -> int {
        self.mantissa * pow10((s - self.scale) as nat)
    }

    /// The finer of the two scales.
    pub open spec fn finer(self, other: Amount) -> nat {
        if self.scale >= other.scale {
            self.scale as nat
        } else {
            other.scale as nat
        }
    }

    /// This amount is below `other`.
    pub open spec fn below(self, other: Amount) -> bool {
        self.at_scale(self.finer(other)) < other.at_scale(self.finer(other))
    }

    /// Both amounts and their sum fit at the finer scale.
    pub open spec fn sum_fits(self, other: Amount) -> bool {
        let s = self.finer(other);
        &&& fits(self.at_scale(s))
        &&& fits(other.at_scale(s))
        &&& fits(self.at_scale(s) + other.at_scale(s))
    }

    /// Both amounts and their difference fit at the finer scale.
    pub open spec fn difference_fits(self, other: Amount) -> bool {
        let s = self.finer(other);
        &&& fits(self.at_scale(s))
        &&& fits(other.at_scale(s))
        &&& fits(self.at_scale(s) - other.at_scale(s))
    }

    /// The sum is what `rust_decimal` computes; `None` where it overflows.
    pub open spec fn plus_spec(self, other: Amount) -> Option<Amount> {
        decimal_sum(self.mantissa, self.scale, other.mantissa, other.scale)
    }

    /// The difference is what `rust_decimal` computes; `None` where it overflows.
    pub open spec fn minus_spec(self, other: Amount) -> Option<Amount> {
        decimal_difference(self.mantissa, self.scale, other.mantissa, other.scale)
    }
}

/// Zero.
pub open spec fn zero_amount() -> Amount {
    Amount { mantissa: 0, scale: 0 }
}

/// What `Decimal::checked_add` returns for the two amounts.
pub uninterp spec fn decimal_sum(am: i128, ascale: u32, bm: i128, bscale: u32) -> Option<Amount>;

/// What `Decimal::checked_sub` returns for the two amounts.
pub uninterp spec fn decimal_difference(am: i128, ascale: u32, bm: i128, bscale: u32) -> Option<
    Amount,
>;

/// `Decimal::checked_add`. Where both operands and the sum fit 96 bits at the
/// finer of the two scales the sum is exact; otherwise the result is only
/// named (the crate rounds to fewer decimals, or reports an overflow as
/// `None`).
#[verifier::external_body]
fn decimal_add(a: Amount, b: Amount) -> (r: Option<Amount>)
    requires
        a.wf(),
        b.wf(),
    ensures
        r == decimal_sum(a.mantissa, a.scale, b.mantissa, b.scale),
        r matches Some(c) ==> c.wf(),
        (match r {
            Some(c) => a.sum_fits(b) ==> (c.scale <= a.finer(b) && c.at_scale(a.finer(b)) == a.at_scale(
                a.finer(b),
            ) + b.at_scale(a.finer(b))),
            None => !a.sum_fits(b),
        }),
{
    let x = Decimal::from_i128_with_scale(a.mantissa, a.scale);
    let y = Decimal::from_i128_with_scale(b.mantissa, b.scale);
    match x.checked_add(y) {
        Some(d) => Some(Amount { mantissa: d.mantissa(), scale: d.scale() }),
        None => None,
    }
}

/// `Decimal::checked_sub`. Where both operands and the difference fit 96 bits
/// at the finer of the two scales the difference is exact; otherwise the
/// result is only named.
#[verifier::external_body]
fn decimal_sub(a: Amount, b: Amount) -> (r: Option<Amount>)
    requires
        a.wf(),
        b.wf(),
    ensures
        r == decimal_difference(a.mantissa, a.scale, b.mantissa, b.scale),
        r matches Some(c) ==> c.wf(),
        (match r {
            Some(c) => a.difference_fits(b) ==> (c.scale <= a.finer(b) && c.at_scale(a.finer(b)) == a.at_scale(
                a.finer(b),
            ) - b.at_scale(a.finer(b))),
            None => !a.difference_fits(b),
        }),
{
    let x = Decimal::from_i128_with_scale(a.mantissa, a.scale);
    let y = Decimal::from_i128_with_scale(b.mantissa, b.scale);
    match x.checked_sub(y) {
        Some(d) => Some(Amount { mantissa: d.mantissa(), scale: d.scale() }),
        None => None,
    }
}

/// `<` on `Decimal`: the numeric order of the two amounts, whatever their scales.
#[verifier::external_body]
fn decimal_less(a: Amount, b: Amount) -> (r: bool)
    requires
        a.wf(),
        b.wf(),
    ensures
        r == a.below(b),
{
    let x = Decimal::from_i128_with_scale(a.mantissa, a.scale);
    let y = Decimal::from_i128_with_scale(b.mantissa, b.scale);
    x < y
}

/// `Decimal::to_string`: the plain decimal notation with all `scale` decimals.
#[verifier::external_body]
fn decimal_text(a: Amount) -> (r: String)
    requires
        a.wf(),
    ensures
        r@ == amount_text(a.mantissa as int, a.scale as nat),
{
    Decimal::from_i128_with_scale(a.mantissa, a.scale).to_string()
}

impl Amount {
    /// The amount zero.
    pub fn zero() -> (r: Amount)
        ensures
            r == zero_amount(),
            r.wf(),
    {
        Amount { mantissa: 0, scale: 0 }
    }

    /// Whether the amount is one that 96 bits and a scale of at most 28 can hold.
    pub fn is_valid(&self) -> (b: bool)
        ensures
            b == self.wf(),
    {
        -MAX_MANTISSA <= self.mantissa && self.mantissa <= MAX_MANTISSA && self.scale <= MAX_SCALE
    }

    /// The sum; `None` where it overflows.
    pub fn plus(self, other: Amount) -> (r: Option<Amount>)
        requires
            self.wf(),
            other.wf(),
        ensures
            r == self.plus_spec(other),
            r matches Some(c) ==> c.wf(),
            self.sum_fits(other) ==> (r matches Some(c) && c.scale <= self.finer(other)
                && c.at_scale(self.finer(other)) == self.at_scale(self.finer(other))
                + other.at_scale(self.finer(other))),
    {
        decimal_add(self, other)
    }

    /// The difference; `None` where it overflows.
    pub fn minus(self, other: Amount) -> (r: Option<Amount>)
        requires
            self.wf(),
            other.wf(),
        ensures
            r == self.minus_spec(other),
            r matches Some(c) ==> c.wf(),
            self.difference_fits(other) ==> (r matches Some(c) && c.scale <= self.finer(other)
                && c.at_scale(self.finer(other)) == self.at_scale(self.finer(other))
                - other.at_scale(self.finer(other))),
    {
        decimal_sub(self, other)
    }

    /// Whether this amount is below `other`.
    pub fn less(self, other: Amount) -> (r: bool)
        requires
            self.wf(),
            other.wf(),
        ensures
            r == self.below(other),
    {
        decimal_less(self, other)
    }

    /// The amount, or zero where it is negative.
    pub fn at_least_zero(self) -> (r: Amount)
        requires
            self.wf(),
        ensures
            r == (if self.mantissa < 0 {
                zero_amount()
            } else {
                self
            }),
            r.wf(),
            !r.below(zero_amount()),
    {
        proof {
            lemma_below_zero(self);
            lemma_below_zero(zero_amount());
        }
        if self.less(Amount::zero()) {
            Amount::zero()
        } else {
            self
        }
    }

    /// Plain decimal notation.
    pub fn text(self) -> (r: String)
        requires
            self.wf(),
        ensures
            r@ == amount_text(self.mantissa as int, self.scale as nat),
    {
        decimal_text(self)
    }
}

proof fn lemma_pow10_positive(n: nat)
    ensures
        pow10(n) >= 1,
    decreases n,
{
    if n > 0 {
        lemma_pow10_positive((n - 1) as nat);
    }
}

/// An amount is below zero exactly when its mantissa is negative.
pub proof fn lemma_below_zero(a: Amount)
    ensures
        a.below(zero_amount()) == (a.mantissa < 0),
{
    let s = a.finer(zero_amount());
    let p = pow10((s - a.scale) as nat);
    lemma_pow10_positive((s - a.scale) as nat);
    let q = pow10(s);
    let m = a.mantissa as int;
    assert(0 * q == 0) by (nonlinear_arith);
    assert(m < 0 ==> m * p < 0) by (nonlinear_arith)
        requires
            p >= 1,
    ;
    assert(m >= 0 ==> m * p >= 0) by (nonlinear_arith)
        requires
            p >= 1,
    ;
}

// ---------------------------------------------------------------------------
// Laws
// ---------------------------------------------------------------------------
proof fn lemma_pow10_adds(a: nat, b: nat)
    ensures
        pow10(a + b) == pow10(a) * pow10(b),
    decreases a,
{
    if a > 0 {
        lemma_pow10_adds((a - 1) as nat, b);
        let x = pow10((a - 1) as nat);
        let y = pow10(b);
        assert((10 * x) * y == 10 * (x * y)) by (nonlinear_arith);
    } else {
        assert(1 * pow10(b) == pow10(b)) by (nonlinear_arith);
    }
}

/// Amounts are ordered as numbers, whatever their scales: `a / 10^n` is below
/// `b / 10^m` exactly when `a * 10^m` is below `b * 10^n`.
pub proof fn law_amounts_are_ordered_as_numbers(a: Amount, b: Amount)
    ensures
        a.below(b) <==> a.mantissa * pow10(b.scale as nat) < b.mantissa * pow10(a.scale as nat),
{
    let m = a.mantissa as int;
    let n = b.mantissa as int;
    if a.scale >= b.scale {
        let d = (a.scale - b.scale) as nat;
        lemma_pow10_adds(d, b.scale as nat);
        lemma_pow10_positive(b.scale as nat);
        let q = pow10(d) as int;
        let p = pow10(b.scale as nat) as int;
        let one = pow10((a.finer(b) - a.scale) as nat) as int;
        assert(m * one == m) by (nonlinear_arith)
            requires
                one == 1,
        ;
        assert((m < n * q) <==> (m * p < n * (q * p))) by (nonlinear_arith)
            requires
                p >= 1,
        ;
    } else {
        let d = (b.scale - a.scale) as nat;
        lemma_pow10_adds(d, a.scale as nat);
        lemma_pow10_positive(a.scale as nat);
        let q = pow10(d) as int;
        let p = pow10(a.scale as nat) as int;
        let one = pow10((a.finer(b) - b.scale) as nat) as int;
        assert(n * one == n) by (nonlinear_arith)
            requires
                one == 1,
        ;
        assert((m * q < n) <==> (m * (q * p) < n * p)) by (nonlinear_arith)
            requires
                p >= 1,
        ;
    }
}

} // verus!
