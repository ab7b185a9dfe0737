//! Totals of sequences of natural numbers, and how they move when the
//! sequence grows or one of its entries changes.

use vstd::prelude::*;

verus! {

/// The sum of the numbers of a sequence.
pub open spec fn total(s: Seq<nat>) -> nat
    decreases s.len(),
{
    if s.len() == 0 {
        0
    } else {
        total(s.drop_last()) + s.last()
    }
}

/// A number appended adds itself to the total.
pub proof fn lemma_total_push(s: Seq<nat>, x: nat)
    ensures
        total(s.push(x)) == total(s) + x,
{
    assert(s.push(x).drop_last() =~= s);
}

/// A changed entry moves the total by the difference.
pub proof fn lemma_total_update(s: Seq<nat>, i: int, x: nat)
    requires
        0 <= i < s.len(),
    ensures
        total(s.update(i, x)) + s[i] == total(s) + x,
    decreases s.len(),
{
    if i == s.len() - 1 {
        assert(s.update(i, x).drop_last() =~= s.drop_last());
    } else {
        assert(s.update(i, x).drop_last() =~= s.drop_last().update(i, x));
        lemma_total_update(s.drop_last(), i, x);
    }
}

/// No entry exceeds the total.
pub proof fn lemma_total_bounds(s: Seq<nat>, i: int)
    requires
        0 <= i < s.len(),
    ensures
        s[i] <= total(s),
    decreases s.len(),
{
    if i < s.len() - 1 {
        lemma_total_bounds(s.drop_last(), i);
    }
}

/// The total of the first `n + 1` numbers is the total of the first `n` and
/// the next number; the total of a part is at most the total of the whole.
pub proof fn lemma_total_take(s: Seq<nat>, n: int)
    requires
        0 <= n < s.len(),
    ensures
        total(s.take(n + 1)) == total(s.take(n)) + s[n],
        total(s.take(n + 1)) <= total(s),
        total(s.take(s.len() as int)) == total(s),
    decreases s.len() - n,
{
    assert(s.take(n + 1).drop_last() =~= s.take(n));
    assert(s.take(s.len() as int) =~= s);
    if n + 1 < s.len() {
        lemma_total_take(s, n + 1);
        assert(s.take(n + 2).drop_last() =~= s.take(n + 1));
    }
}

/// The views of the items of a sequence, in the same order.
pub open spec fn views<T: View>(s: Seq<T>) -> Seq<T::V> {
    Seq::new(s.len(), |i: int| s[i]@)
}

} // verus!
