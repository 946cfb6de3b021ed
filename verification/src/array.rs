//! Fixed-size arrays: a specification-level constructor, and the one place
//! where a vector of known length becomes an array.

use vstd::prelude::*;
use vstd::array::spec_array_update;
use arrayvec::ArrayVec;

verus! {

/// The array whose first `n` items are those of `items`.
pub open spec fn array_prefix<S, const N: usize>(items: Seq<S>, n: nat) -> [S; N]
    decreases n,
{
    if n == 0 {
        arbitrary()
    } else {
        spec_array_update(array_prefix::<S, N>(items, (n - 1) as nat), n - 1, items[n - 1])
    }
}

/// The array that holds exactly `items`, for `items` of length `N`.
pub open spec fn array_of<S, const N: usize>(items: Seq<S>) -> [S; N] {
    array_prefix::<S, N>(items, N as nat)
}

proof fn lemma_array_prefix<S, const N: usize>(items: Seq<S>, n: nat)
    requires
        n <= N,
        items.len() == N,
    ensures
        forall|k: int| 0 <= k < n ==> array_prefix::<S, N>(items, n)@[k] == items[k],
    decreases n,
{
    if n > 0 {
        lemma_array_prefix::<S, N>(items, (n - 1) as nat);
    }
}

/// `array_of` holds what it was made from.
pub proof fn lemma_array_of<S, const N: usize>(items: Seq<S>)
    requires
        items.len() == N,
    ensures
        array_of::<S, N>(items)@ == items,
{
    lemma_array_prefix::<S, N>(items, N as nat);
}

/// An array is determined by what it holds.
pub proof fn lemma_array_of_view<S, const N: usize>(a: [S; N])
    ensures
        array_of::<S, N>(a@) == a,
{
    lemma_array_of::<S, N>(a@);
}

/// Collects `items` into an array through `ArrayVec`'s `FromIterator` and
/// `ArrayVec::into_inner`.
///
/// Collecting fails loudly on more than `N` items and on a capacity beyond
/// `u32::MAX`, so both are ruled out. `into_inner` then hands the array out
/// exactly when it is full, with the items in the order they came in.
#[verifier::external_body]
pub(crate) fn collect_array<S: Copy, const N: usize>(items: &Vec<S>) -> (r: Option<[S; N]>)
    requires
        items.len() <= N,
        N <= u32::MAX,
    ensures
        r is Some <==> items.len() == N,
        r is Some ==> r->0@ == items@,
{
    items.iter().copied().collect::<ArrayVec<S, N>>().into_inner().ok()
}

} // verus!
