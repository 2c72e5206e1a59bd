//! Amounts of the chain's currency, held as the decimal number `mantissa / 10^scale`
//! and computed with `rust_decimal`.
use vstd::prelude::*;
use rust_decimal::Decimal;

verus! {

/// The largest mantissa a decimal amount can hold (96 bits).
pub open spec fn max_mantissa() -> int {
    0xFFFF_FFFF_FFFF_FFFF_FFFF_FFFF
}

pub open spec fn pow10(n: nat) -> int
    decreases n,
{
    if n == 0 {
        1
    } else {
        10 * pow10((n - 1) as nat)
    }
}

/// A decimal amount: `mantissa / 10^scale`.
#[derive(Clone, Copy, Debug)]
pub struct Amount {
    pub mantissa: i128,
    pub scale: u32,
}

/// The sign of `a - b`, as -1, 0 or 1.
pub open spec fn sign_of_difference(a: int, b: int) -> i8 {
    if a < b {
        -1i8
    } else if a == b {
        0i8
    } else {
        1i8
    }
}

impl Amount {
    /// A decimal amount can hold this value: scale at most 28, mantissa within 96 bits.
    pub open spec fn wf(self) -> bool {
        &&& self.scale <= 28
        &&& -max_mantissa() <= self.mantissa <= max_mantissa()
    }

    /// The numeric order of two amounts: -1, 0 or 1 as `self` is below, equal to or above `other`.
    pub open spec fn compare(self, other: Amount) -> i8 {
        sign_of_difference(
            self.mantissa * pow10(other.scale as nat),
            other.mantissa * pow10(self.scale as nat),
        )
    }

    /// Equal as numbers (`1.0` equals `1.00`).
    pub open spec fn same_value(self, other: Amount) -> bool {
        self.compare(other) == 0
    }

    pub open spec fn pair(self) -> (i128, u32) {
        (self.mantissa, self.scale)
    }

    pub open spec fn from_pair(p: (i128, u32)) -> Amount {
        Amount { mantissa: p.0, scale: p.1 }
    }

    /// The amount `mantissa / 10^scale`.
    pub fn new(mantissa: i128, scale: u32) -> (a: Amount)
        ensures
            a.mantissa == mantissa,
            a.scale == scale,
    {
        Amount { mantissa, scale }
    }

    /// Zero, as `Decimal::ZERO` holds it (scale 0).
    pub fn zero() -> (a: Amount)
        ensures
            a.mantissa == 0,
            a.scale == 0,
            a.wf(),
    {
        Amount { mantissa: 0, scale: 0 }
    }

    /// Numeric comparison: -1, 0 or 1.
    pub fn cmp_value(&self, other: &Amount) -> (r: i8)
        requires
            self.wf(),
            other.wf(),
        ensures
            r == self.compare(*other),
    {
        decimal_compare(self, other)
    }

    /// Numeric equality.
    pub fn eq_value(&self, other: &Amount) -> (r: bool)
        requires
            self.wf(),
            other.wf(),
        ensures
            r == self.same_value(*other),
    {
        decimal_compare(self, other) == 0
    }

    /// Numerically greater.
    pub fn gt_value(&self, other: &Amount) -> (r: bool)
        requires
            self.wf(),
            other.wf(),
        ensures
            r == (self.compare(*other) == 1),
    {
        decimal_compare(self, other) == 1
    }
}

/// The result of `Decimal::checked_add` on two amounts given as (mantissa, scale).
pub uninterp spec fn decimal_checked_add(a: (i128, u32), b: (i128, u32)) -> Option<(i128, u32)>;

/// The result of `Decimal::checked_sub` on two amounts given as (mantissa, scale).
pub uninterp spec fn decimal_checked_sub(a: (i128, u32), b: (i128, u32)) -> Option<(i128, u32)>;

/// The result of `Decimal::checked_mul` on two amounts given as (mantissa, scale).
pub uninterp spec fn decimal_checked_mul(a: (i128, u32), b: (i128, u32)) -> Option<(i128, u32)>;

/// The result of `Decimal::checked_div` on two amounts given as (mantissa, scale).
pub uninterp spec fn decimal_checked_div(a: (i128, u32), b: (i128, u32)) -> Option<(i128, u32)>;

/// `m / d` rounded to an integer, a half going to the even neighbour.
pub open spec fn half_to_even(m: nat, d: nat) -> nat {
    let q = m / d;
    let r = m % d;
    if 2 * r > d || (2 * r == d && q % 2 == 1) {
        q + 1
    } else {
        q
    }
}

/// `a` rounded to `dp` fractional digits as `Decimal::round_dp` does: unchanged when it
/// has at most `dp` of them; otherwise the magnitude of the mantissa is divided by
/// `10^(scale - dp)` with halves going to even, the sign is kept and the scale is `dp`.
pub open spec fn rounded(a: Amount, dp: u32) -> Amount {
    if a.scale <= dp {
        a
    } else {
        let m: nat = if a.mantissa < 0 { (-a.mantissa) as nat } else { a.mantissa as nat };
        let q = half_to_even(m, pow10((a.scale - dp) as nat) as nat);
        Amount { mantissa: (if a.mantissa < 0 { -(q as int) } else { q as int }) as i128, scale: dp }
    }
}

/// The amount a checked operation gave, as an `Amount`.
pub open spec fn lift(r: Option<(i128, u32)>) -> Option<Amount> {
    match r {
        Some(p) => Some(Amount::from_pair(p)),
        None => None,
    }
}

/// `Decimal::checked_add`. Claims: the result is the named `decimal_checked_add` of the
/// operands, and a result that is there is a valid decimal.
#[verifier::external_body]
fn decimal_add(a: &Amount, b: &Amount) -> (r: Option<Amount>)
    requires
        a.wf(),
        b.wf(),
    ensures
        r == lift(decimal_checked_add(a.pair(), b.pair())),
        r matches Some(x) ==> x.wf(),
{
    let x = Decimal::from_i128_with_scale(a.mantissa, a.scale);
    let y = Decimal::from_i128_with_scale(b.mantissa, b.scale);
    match x.checked_add(y) {
        Some(d) => Some(Amount { mantissa: d.mantissa(), scale: d.scale() }),
        None => None,
    }
}

/// `Decimal::checked_sub`. Claims: the result is the named `decimal_checked_sub` of the
/// operands, and a result that is there is a valid decimal.
#[verifier::external_body]
fn decimal_sub(a: &Amount, b: &Amount) -> (r: Option<Amount>)
    requires
        a.wf(),
        b.wf(),
    ensures
        r == lift(decimal_checked_sub(a.pair(), b.pair())),
        r matches Some(x) ==> x.wf(),
{
    let x = Decimal::from_i128_with_scale(a.mantissa, a.scale);
    let y = Decimal::from_i128_with_scale(b.mantissa, b.scale);
    match x.checked_sub(y) {
        Some(d) => Some(Amount { mantissa: d.mantissa(), scale: d.scale() }),
        None => None,
    }
}

/// `Decimal::checked_mul`. Claims: the result is the named `decimal_checked_mul` of the
/// operands, and a result that is there is a valid decimal.
#[verifier::external_body]
fn decimal_mul(a: &Amount, b: &Amount) -> (r: Option<Amount>)
    requires
        a.wf(),
        b.wf(),
    ensures
        r == lift(decimal_checked_mul(a.pair(), b.pair())),
        r matches Some(x) ==> x.wf(),
{
    let x = Decimal::from_i128_with_scale(a.mantissa, a.scale);
    let y = Decimal::from_i128_with_scale(b.mantissa, b.scale);
    match x.checked_mul(y) {
        Some(d) => Some(Amount { mantissa: d.mantissa(), scale: d.scale() }),
        None => None,
    }
}

/// `Decimal::checked_div`. Claims: the result is the named `decimal_checked_div` of the
/// operands, and a result that is there is a valid decimal.
#[verifier::external_body]
fn decimal_div(a: &Amount, b: &Amount) -> (r: Option<Amount>)
    requires
        a.wf(),
        b.wf(),
    ensures
        r == lift(decimal_checked_div(a.pair(), b.pair())),
        r matches Some(x) ==> x.wf(),
{
    let x = Decimal::from_i128_with_scale(a.mantissa, a.scale);
    let y = Decimal::from_i128_with_scale(b.mantissa, b.scale);
    match x.checked_div(y) {
        Some(d) => Some(Amount { mantissa: d.mantissa(), scale: d.scale() }),
        None => None,
    }
}

/// `Decimal::round_dp` (midpoint to even). Claims: the result is `rounded(a, dp)`, as the
/// source computes it (`round_dp_with_strategy`: `*self` when `scale <= dp`; otherwise the
/// 96-bit magnitude divided by `10^(scale - dp)`, one added when the remainder is above
/// half, or exactly half with an odd quotient; the sign kept; scale `dp`), and it is a
/// valid decimal.
#[verifier::external_body]
fn decimal_round(a: &Amount, dp: u32) -> (r: Amount)
    requires
        a.wf(),
    ensures
        r == rounded(*a, dp),
        r.wf(),
{
    let d = Decimal::from_i128_with_scale(a.mantissa, a.scale).round_dp(dp);
    Amount { mantissa: d.mantissa(), scale: d.scale() }
}

/// `Ord::cmp` on `Decimal`, its three answers as -1, 0 and 1. Claims: the numeric order
/// of the two amounts.
#[verifier::external_body]
fn decimal_compare(a: &Amount, b: &Amount) -> (r: i8)
    requires
        a.wf(),
        b.wf(),
    ensures
        r == a.compare(*b),
{
    let x = Decimal::from_i128_with_scale(a.mantissa, a.scale);
    let y = Decimal::from_i128_with_scale(b.mantissa, b.scale);
    match x.cmp(&y) {
        std::cmp::Ordering::Less => -1,
        std::cmp::Ordering::Equal => 0,
        std::cmp::Ordering::Greater => 1,
    }
}

impl Amount {
    /// Checked sum.
    pub fn checked_add(&self, other: &Amount) -> (r: Option<Amount>)
        requires
            self.wf(),
            other.wf(),
        ensures
            r == lift(decimal_checked_add(self.pair(), other.pair())),
            r matches Some(x) ==> x.wf(),
    {
        decimal_add(self, other)
    }

    /// Checked difference.
    pub fn checked_sub(&self, other: &Amount) -> (r: Option<Amount>)
        requires
            self.wf(),
            other.wf(),
        ensures
            r == lift(decimal_checked_sub(self.pair(), other.pair())),
            r matches Some(x) ==> x.wf(),
    {
        decimal_sub(self, other)
    }

    /// Checked product.
    pub fn checked_mul(&self, other: &Amount) -> (r: Option<Amount>)
        requires
            self.wf(),
            other.wf(),
        ensures
            r == lift(decimal_checked_mul(self.pair(), other.pair())),
            r matches Some(x) ==> x.wf(),
    {
        decimal_mul(self, other)
    }

    /// Checked quotient.
    pub fn checked_div(&self, other: &Amount) -> (r: Option<Amount>)
        requires
            self.wf(),
            other.wf(),
        ensures
            r == lift(decimal_checked_div(self.pair(), other.pair())),
            r matches Some(x) ==> x.wf(),
    {
        decimal_div(self, other)
    }

    /// Rounded to `dp` fractional digits, halves to even (see `rounded`).
    pub fn round_dp(&self, dp: u32) -> (r: Amount)
        requires
            self.wf(),
        ensures
            r == rounded(*self, dp),
            r.wf(),
            self.scale <= dp ==> r == *self,
    {
        decimal_round(self, dp)
    }
}

} // verus!
