//! The accumulate-and-average capability: a sample type declares an
//! accumulator, a zero value, an accumulate step, and a divide-to-sample step.
//! Any sample type implementing it can be retained and cascaded without
//! touching the cascade algorithm.

use vstd::prelude::*;

verus! {

/// Integer division that truncates toward zero, as the executable `/` does on
/// signed operands.
pub open spec fn div_trunc(a: int, b: int) -> int {
    if a >= 0 {
        a / b
    } else {
        -((-a) / b)
    }
}

/// Divides a signed 64-bit total by a positive count, truncating toward zero.
/// Total over every divisor a `usize` can hold, so an accumulator can be
/// divided by any element count.
pub fn div_trunc_i64(a: i64, d: u64) -> (r: i64)
    requires
        d >= 1,
    ensures
        r == div_trunc(a as int, d as int),
{
    if d <= i64::MAX as u64 {
        a / (d as i64)
    } else if a == i64::MIN && d == 9223372036854775808u64 {
        proof {
            vstd::arithmetic::div_mod::lemma_div_by_self(d as int);
        }
        -1
    } else {
        proof {
            if a >= 0 {
                vstd::arithmetic::div_mod::lemma_basic_div(a as int, d as int);
            } else {
                vstd::arithmetic::div_mod::lemma_basic_div(-(a as int), d as int);
            }
        }
        0
    }
}

/// The per-sample-type averaging contract. `spec_empty`, `spec_cumulate` and
/// `spec_divide` are the mathematical meaning that the three executable
/// methods are held to, so that the cascade's contract can speak of the
/// averaged carry exactly.
pub trait Average<D>: Sized {
    /// The widened running-total type.
    type Acc;

    /// The identity/zero accumulator.
    spec fn spec_empty() -> Self::Acc;

    /// The accumulator after one sample is folded in.
    spec fn spec_cumulate(self, cumulated_data: Self::Acc) -> Self::Acc;

    /// The sample whose fields are each the accumulated field divided by the
    /// element count.
    spec fn spec_divide(cumulated_data: Self::Acc, nb_elements: int) -> D;

    fn empty_cumulator() -> (r: Self::Acc)
        ensures
            r == Self::spec_empty(),
    ;

    fn cumulate(&self, cumulated_data: &mut Self::Acc)
        ensures
            *final(cumulated_data) == self.spec_cumulate(*old(cumulated_data)),
    ;

    fn divide(cumulated_data: &Self::Acc, nb_elements: usize) -> (r: D)
        requires
            nb_elements >= 1,
        ensures
            r == Self::spec_divide(*cumulated_data, nb_elements as int),
    ;
}

/// The accumulator that results from folding in the `n` oldest items of `s`,
/// oldest first.
pub open spec fn fold_prefix<T: Average<T>>(s: Seq<T>, n: nat) -> T::Acc
    decreases n,
{
    if n == 0 {
        T::spec_empty()
    } else {
        s[n - 1].spec_cumulate(fold_prefix(s, (n - 1) as nat))
    }
}

} // verus!
