//! Unsigned 512-bit quantities of the smallest currency unit, the width in
//! which the host hands over attached values.
//!
//! A [`WideAmount`] keeps the eight 64-bit words of the number, least
//! significant first. Its view is the natural number they spell. Sums,
//! differences and quotients are computed by `casper_types::U512`.

use crate::amount::{max_amount, words_value, Amount};
use odra_core::casper_types::U512;
use vstd::prelude::*;

verus! {

/// The largest number a [`WideAmount`] can hold, two to the power 512 less
/// one.
pub open spec fn max_wide_amount() -> nat {
    0xffff_ffff_ffff_ffff_ffff_ffff_ffff_ffff_ffff_ffff_ffff_ffff_ffff_ffff_ffff_ffff_ffff_ffff_ffff_ffff_ffff_ffff_ffff_ffff_ffff_ffff_ffff_ffff_ffff_ffff_ffff_ffffnat
}

/// The number that eight words spell, least significant word first: the
/// four upper words weigh two to the power 256 times what they would weigh
/// as the four words of a 256-bit number.
pub open spec fn wide_value(
    w0: u64,
    w1: u64,
    w2: u64,
    w3: u64,
    w4: u64,
    w5: u64,
    w6: u64,
    w7: u64,
) -> nat {
    words_value(w0, w1, w2, w3) + words_value(w4, w5, w6, w7)
        * 0x1_0000_0000_0000_0000_0000_0000_0000_0000_0000_0000_0000_0000_0000_0000_0000_0000nat
}

/// An unsigned 512-bit integer.
#[derive(Clone, Copy, Debug, PartialEq, Eq, Structural)]
pub struct WideAmount {
    w0: u64,
    w1: u64,
    w2: u64,
    w3: u64,
    w4: u64,
    w5: u64,
    w6: u64,
    w7: u64,
}

impl View for WideAmount {
    type V = nat;

    closed spec fn view(&self) -> nat {
        wide_value(
            self.w0,
            self.w1,
            self.w2,
            self.w3,
            self.w4,
            self.w5,
            self.w6,
            self.w7,
        )
    }
}

/// Calls `U512::checked_add` of `casper_types` on the numbers that the words
/// spell. Taken on trust: it returns the sum of the two numbers, or `None` when the
/// sum does not fit in 512 bits.
#[verifier::external_body]
fn u512_checked_add(a: WideAmount, b: WideAmount) -> (r: Option<WideAmount>)
    ensures
        match r {
            Some(s) => s@ == a@ + b@,
            None => a@ + b@ > max_wide_amount(),
        },
{
    let x = U512([a.w0, a.w1, a.w2, a.w3, a.w4, a.w5, a.w6, a.w7]);
    let y = U512([b.w0, b.w1, b.w2, b.w3, b.w4, b.w5, b.w6, b.w7]);
    match x.checked_add(y) {
        Some(U512([w0, w1, w2, w3, w4, w5, w6, w7])) => Some(
            WideAmount { w0, w1, w2, w3, w4, w5, w6, w7 },
        ),
        None => None,
    }
}

/// Calls `U512::checked_sub` of `casper_types` on the numbers that the words
/// spell. Taken on trust: it returns the first number less the second, or `None`
/// when the second is the larger.
#[verifier::external_body]
fn u512_checked_sub(a: WideAmount, b: WideAmount) -> (r: Option<WideAmount>)
    ensures
        match r {
            Some(d) => d@ == a@ - b@,
            None => a@ < b@,
        },
{
    let x = U512([a.w0, a.w1, a.w2, a.w3, a.w4, a.w5, a.w6, a.w7]);
    let y = U512([b.w0, b.w1, b.w2, b.w3, b.w4, b.w5, b.w6, b.w7]);
    match x.checked_sub(y) {
        Some(U512([w0, w1, w2, w3, w4, w5, w6, w7])) => Some(
            WideAmount { w0, w1, w2, w3, w4, w5, w6, w7 },
        ),
        None => None,
    }
}

/// Calls `U512::checked_div` of `casper_types` on the numbers that the words
/// spell. Taken on trust: it returns the quotient of the first number by the second,
/// rounded down, or `None` when the second is zero.
#[verifier::external_body]
fn u512_checked_div(a: WideAmount, b: WideAmount) -> (r: Option<WideAmount>)
    ensures
        match r {
            Some(q) => b@ > 0 && q@ == a@ / b@,
            None => b@ == 0,
        },
{
    let x = U512([a.w0, a.w1, a.w2, a.w3, a.w4, a.w5, a.w6, a.w7]);
    let y = U512([b.w0, b.w1, b.w2, b.w3, b.w4, b.w5, b.w6, b.w7]);
    match x.checked_div(y) {
        Some(U512([w0, w1, w2, w3, w4, w5, w6, w7])) => Some(
            WideAmount { w0, w1, w2, w3, w4, w5, w6, w7 },
        ),
        None => None,
    }
}

impl WideAmount {
    /// The amount that eight words spell, least significant word first.
    pub fn from_words(words: [u64; 8]) -> (r: WideAmount)
        ensures
            r@ == wide_value(
                words[0],
                words[1],
                words[2],
                words[3],
                words[4],
                words[5],
                words[6],
                words[7],
            ),
    {
        WideAmount {
            w0: words[0],
            w1: words[1],
            w2: words[2],
            w3: words[3],
            w4: words[4],
            w5: words[5],
            w6: words[6],
            w7: words[7],
        }
    }

    /// The eight words of the amount, least significant first.
    pub fn words(&self) -> (r: [u64; 8])
        ensures
            self@ == wide_value(r[0], r[1], r[2], r[3], r[4], r[5], r[6], r[7]),
    {
        [self.w0, self.w1, self.w2, self.w3, self.w4, self.w5, self.w6, self.w7]
    }

    /// Zero.
    pub fn zero() -> (r: WideAmount)
        ensures
            r@ == 0,
    {
        WideAmount { w0: 0, w1: 0, w2: 0, w3: 0, w4: 0, w5: 0, w6: 0, w7: 0 }
    }

    /// The amount equal to a 64-bit number.
    pub fn from_u64(value: u64) -> (r: WideAmount)
        ensures
            r@ == value,
    {
        WideAmount { w0: value, w1: 0, w2: 0, w3: 0, w4: 0, w5: 0, w6: 0, w7: 0 }
    }

    /// The same number in 512 bits.
    pub fn widen(amount: Amount) -> (r: WideAmount)
        ensures
            r@ == amount@,
    {
        let w = amount.words();
        WideAmount { w0: w.0, w1: w.1, w2: w.2, w3: w.3, w4: 0, w5: 0, w6: 0, w7: 0 }
    }

    /// The same number in 256 bits, or `None` when it does not fit.
    pub fn narrow(&self) -> (r: Option<Amount>)
        ensures
            match r {
                Some(amount) => amount@ == self@,
                None => self@ > max_amount(),
            },
    {
        if self.w4 == 0 && self.w5 == 0 && self.w6 == 0 && self.w7 == 0 {
            Some(Amount::from_words(self.w0, self.w1, self.w2, self.w3))
        } else {
            None
        }
    }

    /// Whether the amount is zero.
    pub fn is_zero(&self) -> (r: bool)
        ensures
            r == (self@ == 0),
    {
        self.w0 == 0 && self.w1 == 0 && self.w2 == 0 && self.w3 == 0 && self.w4 == 0 && self.w5
            == 0 && self.w6 == 0 && self.w7 == 0
    }

    /// Whether this amount is at most the other.
    pub fn le(&self, other: &WideAmount) -> (r: bool)
        ensures
            r == (self@ <= other@),
    {
        let ghost low = words_value(self.w0, self.w1, self.w2, self.w3);
        let ghost other_low = words_value(other.w0, other.w1, other.w2, other.w3);
        assert(low
            < 0x1_0000_0000_0000_0000_0000_0000_0000_0000_0000_0000_0000_0000_0000_0000_0000_0000nat);
        assert(other_low
            < 0x1_0000_0000_0000_0000_0000_0000_0000_0000_0000_0000_0000_0000_0000_0000_0000_0000nat);
        if self.w7 != other.w7 {
            self.w7 < other.w7
        } else if self.w6 != other.w6 {
            self.w6 < other.w6
        } else if self.w5 != other.w5 {
            self.w5 < other.w5
        } else if self.w4 != other.w4 {
            self.w4 < other.w4
        } else if self.w3 != other.w3 {
            self.w3 < other.w3
        } else if self.w2 != other.w2 {
            self.w2 < other.w2
        } else if self.w1 != other.w1 {
            self.w1 < other.w1
        } else {
            self.w0 <= other.w0
        }
    }

    /// Whether this amount is less than the other.
    pub fn lt(&self, other: &WideAmount) -> (r: bool)
        ensures
            r == (self@ < other@),
    {
        !other.le(self)
    }

    /// The sum, or `None` when it does not fit in 512 bits.
    pub fn checked_add(self, other: WideAmount) -> (r: Option<WideAmount>)
        ensures
            match r {
                Some(s) => s@ == self@ + other@ && self@ + other@ <= max_wide_amount(),
                None => self@ + other@ > max_wide_amount(),
            },
    {
        let r = u512_checked_add(self, other);
        proof {
            if let Some(s) = r {
                s.lemma_bounded();
            }
        }
        r
    }

    /// The difference, or `None` when `other` is the larger.
    pub fn checked_sub(self, other: WideAmount) -> (r: Option<WideAmount>)
        ensures
            match r {
                Some(d) => d@ == self@ - other@ && other@ <= self@,
                None => self@ < other@,
            },
    {
        u512_checked_sub(self, other)
    }

    /// The quotient rounded down, or `None` when `other` is zero.
    pub fn checked_div(self, other: WideAmount) -> (r: Option<WideAmount>)
        ensures
            match r {
                Some(q) => other@ > 0 && q@ == self@ / other@,
                None => other@ == 0,
            },
    {
        u512_checked_div(self, other)
    }

    /// Every amount is at most [`max_wide_amount`].
    pub proof fn lemma_bounded(self)
        ensures
            self@ <= max_wide_amount(),
    {
    }
}

} // verus!
