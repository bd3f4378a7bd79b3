//! The random draws of the search. Nothing here is proved: each contract
//! states what the generator's own code shows of every outcome.

use rand::rngs::StdRng;
use rand::seq::SliceRandom;
use rand::Rng;
use vstd::prelude::*;

verus! {

/// The seedable generator that the search draws from. Its state is not
/// modelled.
#[verifier::external_type_specification]
#[verifier::external_body]
pub struct ExStdRng(StdRng);

/// Whether `chosen` holds the items of `slice` at the positions `at`, no
/// position taken twice.
pub open spec fn picked(slice: Seq<usize>, at: Seq<int>, chosen: Seq<usize>) -> bool {
    &&& at.len() == chosen.len()
    &&& forall|k: int| 0 <= k < at.len() ==> 0 <= #[trigger] at[k] < slice.len()
    &&& forall|k: int| 0 <= k < at.len() ==> #[trigger] chosen[k] == slice[at[k]]
    &&& forall|j: int, k: int| 0 <= j < k < at.len() ==> at[j] != at[k]
}

/// `Rng::gen_range` on the inclusive range `low ..= high`. It panics on an
/// empty range, which the precondition leaves out; what it returns lies in
/// the range.
#[verifier::external_body]
pub(crate) fn gen_range(rng: &mut StdRng, low: i64, high: i64) -> (value: i64)
    requires
        low <= high,
    ensures
        low <= value <= high,
{
    rng.gen_range(low..=high)
}

/// `SliceRandom::choose_multiple` on a slice of indices: it hands out the
/// items at `amount` distinct positions of the slice, or at all positions
/// when the slice has fewer, in an order of its own. On a slice too long to
/// be indexed in 32 bits it asks, where it checks its own arguments, for
/// fewer items than the slice has; the precondition leaves the rest out.
#[verifier::external_body]
pub(crate) fn choose_multiple(rng: &mut StdRng, slice: &Vec<usize>, amount: usize) -> (chosen: Vec<usize>)
    requires
        slice@.len() <= u32::MAX || amount < slice@.len(),
    ensures
        chosen@.len() == (if amount <= slice@.len() { amount as nat } else { slice@.len() }),
        exists|at: Seq<int>| picked(slice@, at, chosen@),
{
    slice.choose_multiple(rng, amount).copied().collect()
}

} // verus!
