//! Sums of products, the one piece of arithmetic that every layer shares.

use vstd::prelude::*;
use crate::scalar::Scalar;

verus! {

/// The sum of `a[k] * b[k]` over the first `n` positions, added up from the
/// left and starting from zero.
pub open spec fn dot_upto<S: Scalar>(a: Seq<S>, b: Seq<S>, n: nat) -> S
    decreases n,
{
    if n == 0 {
        S::spec_zero()
    } else {
        dot_upto(a, b, (n - 1) as nat).spec_plus(a[n - 1].spec_times(b[n - 1]))
    }
}

/// The sum of `a[k] * b[k]` over all positions of `a`.
pub open spec fn dot<S: Scalar>(a: Seq<S>, b: Seq<S>) -> S {
    dot_upto(a, b, a.len())
}

/// Column `j` of a matrix given by its rows.
pub open spec fn column<S>(m: Seq<Seq<S>>, j: int) -> Seq<S> {
    Seq::new(m.len(), |i: int| m[i][j])
}

/// The product of a matrix, given by its rows, and a vector.
pub open spec fn mat_vec<S: Scalar>(m: Seq<Seq<S>>, x: Seq<S>) -> Seq<S> {
    Seq::new(m.len(), |i: int| dot(m[i], x))
}

/// The product of a row vector and a matrix with `cols` columns.
pub open spec fn vec_mat<S: Scalar>(d: Seq<S>, m: Seq<Seq<S>>, cols: nat) -> Seq<S> {
    Seq::new(cols, |j: int| dot(d, column(m, j)))
}

/// Computes the sum of products of two slices of equal length.
pub fn dot_product<S: Scalar>(a: &[S], b: &[S]) -> (r: S)
    requires
        a@.len() == b@.len(),
    ensures
        r == dot(a@, b@),
{
    let mut sum = S::zero();
    let mut k: usize = 0;
    while k < a.len()
        invariant
            a@.len() == b@.len(),
            k <= a@.len(),
            sum == dot_upto(a@, b@, k as nat),
        decreases a@.len() - k,
    {
        sum = sum.plus(a[k].times(b[k]));
        k += 1;
    }
    sum
}

} // verus!
