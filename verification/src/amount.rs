//! Unsigned 256-bit quantities of the smallest currency unit.
//!
//! An [`Amount`] keeps the four 64-bit words of the number, least significant
//! first. Its view is the natural number they spell. Sums, differences,
//! products and quotients are computed by `casper_types::U256`.

use odra_core::casper_types::U256;
use vstd::arithmetic::div_mod::{lemma_fundamental_div_mod, lemma_hoist_over_denominator};
use vstd::prelude::*;

verus! {

/// The largest number an [`Amount`] can hold, two to the power 256 less one.
pub open spec fn max_amount() -> nat {
    0xffff_ffff_ffff_ffff_ffff_ffff_ffff_ffff_ffff_ffff_ffff_ffff_ffff_ffff_ffff_ffffnat
}

/// The number that four words spell, least significant word first: the words
/// weigh one, two to the power 64, two to the power 128 and two to the power
/// 192.
pub open spec fn words_value(w0: u64, w1: u64, w2: u64, w3: u64) -> nat {
    (w0 as nat) + (w1 as nat) * 0x1_0000_0000_0000_0000nat + (w2 as nat)
        * 0x1_0000_0000_0000_0000_0000_0000_0000_0000nat + (w3 as nat)
        * 0x1_0000_0000_0000_0000_0000_0000_0000_0000_0000_0000_0000_0000nat
}

/// An unsigned 256-bit integer.
#[derive(Clone, Copy, Debug, PartialEq, Eq, Structural)]
pub struct Amount {
    w0: u64,
    w1: u64,
    w2: u64,
    w3: u64,
}

impl View for Amount {
    type V = nat;

    closed spec fn view(&self) -> nat {
        words_value(self.w0, self.w1, self.w2, self.w3)
    }
}

/// Calls `U256::checked_add` of `casper_types` on the numbers that the words
/// spell. Taken on trust: it returns the sum of the two numbers, or `None` when the
/// sum does not fit in 256 bits.
#[verifier::external_body]
fn u256_checked_add(a: Amount, b: Amount) -> (r: Option<Amount>)
    ensures
        match r {
            Some(s) => s@ == a@ + b@,
            None => a@ + b@ > max_amount(),
        },
{
    let x = U256([a.w0, a.w1, a.w2, a.w3]);
    let y = U256([b.w0, b.w1, b.w2, b.w3]);
    match x.checked_add(y) {
        Some(s) => Some(Amount { w0: s.0[0], w1: s.0[1], w2: s.0[2], w3: s.0[3] }),
        None => None,
    }
}

/// Calls `U256::checked_sub` of `casper_types` on the numbers that the words
/// spell. Taken on trust: it returns the first number less the second, or `None`
/// when the second is the larger.
#[verifier::external_body]
fn u256_checked_sub(a: Amount, b: Amount) -> (r: Option<Amount>)
    ensures
        match r {
            Some(d) => d@ == a@ - b@,
            None => a@ < b@,
        },
{
    let x = U256([a.w0, a.w1, a.w2, a.w3]);
    let y = U256([b.w0, b.w1, b.w2, b.w3]);
    match x.checked_sub(y) {
        Some(d) => Some(Amount { w0: d.0[0], w1: d.0[1], w2: d.0[2], w3: d.0[3] }),
        None => None,
    }
}

/// Calls `U256::checked_mul` of `casper_types` on the numbers that the words
/// spell. Taken on trust: it returns the product of the two numbers, or `None` when
/// the product does not fit in 256 bits.
#[verifier::external_body]
fn u256_checked_mul(a: Amount, b: Amount) -> (r: Option<Amount>)
    ensures
        match r {
            Some(p) => p@ == a@ * b@,
            None => a@ * b@ > max_amount(),
        },
{
    let x = U256([a.w0, a.w1, a.w2, a.w3]);
    let y = U256([b.w0, b.w1, b.w2, b.w3]);
    match x.checked_mul(y) {
        Some(p) => Some(Amount { w0: p.0[0], w1: p.0[1], w2: p.0[2], w3: p.0[3] }),
        None => None,
    }
}

/// Calls `U256::checked_div` of `casper_types` on the numbers that the words
/// spell. Taken on trust: it returns the quotient of the first number by the second,
/// rounded down, or `None` when the second is zero.
#[verifier::external_body]
fn u256_checked_div(a: Amount, b: Amount) -> (r: Option<Amount>)
    ensures
        match r {
            Some(q) => b@ > 0 && q@ == a@ / b@,
            None => b@ == 0,
        },
{
    let x = U256([a.w0, a.w1, a.w2, a.w3]);
    let y = U256([b.w0, b.w1, b.w2, b.w3]);
    match x.checked_div(y) {
        Some(q) => Some(Amount { w0: q.0[0], w1: q.0[1], w2: q.0[2], w3: q.0[3] }),
        None => None,
    }
}

impl Amount {
    /// The amount that four words spell, least significant word first.
    pub fn from_words(w0: u64, w1: u64, w2: u64, w3: u64) -> (r: Amount)
        ensures
            r@ == words_value(w0, w1, w2, w3),
    {
        Amount { w0, w1, w2, w3 }
    }

    /// The four words of the amount, least significant first.
    pub fn words(&self) -> (r: (u64, u64, u64, u64))
        ensures
            self@ == words_value(r.0, r.1, r.2, r.3),
    {
        (self.w0, self.w1, self.w2, self.w3)
    }

    /// Zero.
    pub fn zero() -> (r: Amount)
        ensures
            r@ == 0,
    {
        Amount { w0: 0, w1: 0, w2: 0, w3: 0 }
    }

    /// The amount whose view is `n`, for `n` that fits in 64 bits.
    pub closed spec fn of(n: nat) -> Amount {
        Amount { w0: n as u64, w1: 0, w2: 0, w3: 0 }
    }

    /// The amount equal to a 64-bit number.
    pub fn from_u64(value: u64) -> (r: Amount)
        ensures
            r@ == value,
            r == Amount::of(value as nat),
    {
        Amount { w0: value, w1: 0, w2: 0, w3: 0 }
    }

    /// The amount as a 64-bit number, or `None` when it does not fit.
    pub fn to_u64(&self) -> (r: Option<u64>)
        ensures
            match r {
                Some(n) => n == self@,
                None => self@ > u64::MAX,
            },
    {
        if self.w1 == 0 && self.w2 == 0 && self.w3 == 0 {
            Some(self.w0)
        } else {
            None
        }
    }

    /// The amount equal to a 128-bit number.
    pub fn from_u128(value: u128) -> (r: Amount)
        ensures
            r@ == value,
    {
        let low: u128 = value % 0x1_0000_0000_0000_0000;
        let high: u128 = value / 0x1_0000_0000_0000_0000;
        Amount { w0: low as u64, w1: high as u64, w2: 0, w3: 0 }
    }

    /// Whether the amount is zero.
    pub fn is_zero(&self) -> (r: bool)
        ensures
            r == (self@ == 0),
    {
        self.w0 == 0 && self.w1 == 0 && self.w2 == 0 && self.w3 == 0
    }

    /// Whether this amount is at most the other.
    pub fn le(&self, other: &Amount) -> (r: bool)
        ensures
            r == (self@ <= other@),
    {
        if self.w3 != other.w3 {
            self.w3 < other.w3
        } else if self.w2 != other.w2 {
            self.w2 < other.w2
        } else if self.w1 != other.w1 {
            self.w1 < other.w1
        } else {
            self.w0 <= other.w0
        }
    }

    /// Whether this amount is less than the other.
    pub fn lt(&self, other: &Amount) -> (r: bool)
        ensures
            r == (self@ < other@),
    {
        !other.le(self)
    }

    /// The sum, or `None` when it does not fit in 256 bits.
    pub fn checked_add(self, other: Amount) -> (r: Option<Amount>)
        ensures
            match r {
                Some(s) => s@ == self@ + other@ && self@ + other@ <= max_amount(),
                None => self@ + other@ > max_amount(),
            },
    {
        let r = u256_checked_add(self, other);
        proof {
            if let Some(s) = r {
                s.lemma_bounded();
            }
        }
        r
    }

    /// The difference, or `None` when `other` is the larger.
    pub fn checked_sub(self, other: Amount) -> (r: Option<Amount>)
        ensures
            match r {
                Some(d) => d@ == self@ - other@ && other@ <= self@,
                None => self@ < other@,
            },
    {
        u256_checked_sub(self, other)
    }

    /// The product, or `None` when it does not fit in 256 bits.
    pub fn checked_mul(self, other: Amount) -> (r: Option<Amount>)
        ensures
            match r {
                Some(p) => p@ == self@ * other@ && self@ * other@ <= max_amount(),
                None => self@ * other@ > max_amount(),
            },
    {
        let r = u256_checked_mul(self, other);
        proof {
            if let Some(p) = r {
                p.lemma_bounded();
            }
        }
        r
    }

    /// The quotient rounded down, or `None` when `other` is zero.
    pub fn checked_div(self, other: Amount) -> (r: Option<Amount>)
        ensures
            match r {
                Some(q) => other@ > 0 && q@ == self@ / other@,
                None => other@ == 0,
            },
    {
        u256_checked_div(self, other)
    }

    /// `self * factor / divisor`, rounded down, or `None` when that quotient
    /// does not fit in 256 bits. The product itself may be larger than that:
    /// it is never formed.
    pub fn mul_div(self, factor: u128, divisor: u64) -> (r: Option<Amount>)
        requires
            divisor > 0,
        ensures
            match r {
                Some(q) => q@ == self@ * factor / (divisor as int) && q@ <= max_amount(),
                None => self@ * factor / (divisor as int) > max_amount(),
            },
    {
        let d = Amount::from_u64(divisor);
        let k = Amount::from_u128(factor);
        let whole = self.checked_div(d).unwrap();
        proof {
            lemma_fundamental_div_mod(self@ as int, divisor as int);
            assert(whole@ * divisor == divisor * whole@) by (nonlinear_arith);
            self.lemma_bounded();
        }
        let covered = whole.checked_mul(d).unwrap();
        let rest = self.checked_sub(covered).unwrap();
        assert(rest@ == self@ % (divisor as nat));
        assert(rest@ < divisor);
        proof {
            assert(rest@ * factor <= 0xffff_ffff_ffff_ffff
                * 0xffff_ffff_ffff_ffff_ffff_ffff_ffff_ffff) by (nonlinear_arith)
                requires
                    rest@ <= 0xffff_ffff_ffff_ffff,
                    factor <= 0xffff_ffff_ffff_ffff_ffff_ffff_ffff_ffff,
            ;
        }
        let partial = rest.checked_mul(k).unwrap();
        let low = partial.checked_div(d).unwrap();
        proof {
            // self * factor == (whole * factor) * divisor + rest * factor
            assert(self@ * factor == (whole@ * factor) * divisor + rest@ * factor)
                by (nonlinear_arith)
                requires
                    self@ == whole@ * divisor + rest@,
            ;
            lemma_hoist_over_denominator(
                (rest@ * factor) as int,
                (whole@ * factor) as int,
                divisor as nat,
            );
            assert(self@ * factor / (divisor as int) == whole@ * factor + low@);
        }
        match whole.checked_mul(k) {
            Some(high) => high.checked_add(low),
            None => {
                proof {
                    low.lemma_bounded();
                }
                None
            },
        }
    }

    /// Every amount is at most [`max_amount`].
    pub proof fn lemma_bounded(self)
        ensures
            self@ <= max_amount(),
    {
    }

    /// `Amount::of` gives the amount with the view asked for: the amount of
    /// a 64-bit number has that number as its view, and an amount is the
    /// amount of its view.
    pub proof fn lemma_of(self, n: u64)
        ensures
            Amount::of(n as nat)@ == n,
            self@ == n ==> self == Amount::of(n as nat),
    {
        if self@ == n {
            self.lemma_view_injective(Amount::of(n as nat));
        }
    }

    /// Two amounts with the same view are the same amount.
    pub proof fn lemma_view_injective(self, other: Amount)
        requires
            self@ == other@,
        ensures
            self == other,
    {
        let a1: int = self.w1 + self.w2 * 0x1_0000_0000_0000_0000int + self.w3
            * 0x1_0000_0000_0000_0000_0000_0000_0000_0000int;
        let b1: int = other.w1 + other.w2 * 0x1_0000_0000_0000_0000int + other.w3
            * 0x1_0000_0000_0000_0000_0000_0000_0000_0000int;
        assert(self@ == self.w0 + a1 * 0x1_0000_0000_0000_0000int);
        assert(other@ == other.w0 + b1 * 0x1_0000_0000_0000_0000int);
        assert(a1 == b1 && self.w0 == other.w0);
        let a2: int = self.w2 + self.w3 * 0x1_0000_0000_0000_0000int;
        let b2: int = other.w2 + other.w3 * 0x1_0000_0000_0000_0000int;
        assert(a1 == self.w1 + a2 * 0x1_0000_0000_0000_0000int);
        assert(b1 == other.w1 + b2 * 0x1_0000_0000_0000_0000int);
        assert(a2 == b2 && self.w1 == other.w1);
    }
}

} // verus!
