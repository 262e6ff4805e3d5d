//! The thread-local random generator of `rand`, seen through the few draws the game makes.
//!
//! Every draw depends on chance, so no contract here says which value comes back;
//! each one states only what holds of every outcome.

use rand::seq::SliceRandom;
use rand::Rng;
use vstd::prelude::*;

verus! {

/// Calls `rand::Rng::gen_range(0..bound)` on `rand::thread_rng()`.
/// Claimed: the number drawn lies in `0..bound` (the range is not empty, so the call does not panic).
/// Not claimed: which number comes.
#[verifier::external_body]
pub(crate) fn random_below(bound: u64) -> (r: u64)
    requires
        bound > 0,
    ensures
        r < bound,
{
    rand::thread_rng().gen_range(0..bound)
}

/// Calls `rand::Rng::gen_ratio(numerator, denominator)` on `rand::thread_rng()`.
/// Claimed, as the documentation of `gen_ratio` promises: a ratio of zero never gives `true`
/// and a ratio of one always does. Not claimed: the outcome in between.
#[verifier::external_body]
pub(crate) fn random_ratio(numerator: u32, denominator: u32) -> (r: bool)
    requires
        0 < denominator,
        numerator <= denominator,
    ensures
        numerator == 0 ==> !r,
        numerator == denominator ==> r,
{
    rand::thread_rng().gen_ratio(numerator, denominator)
}

/// Calls `rand::seq::SliceRandom::shuffle` on the vector, with `rand::thread_rng()`.
/// Claimed: the result is a rearrangement of the same items (the source swaps items in place).
/// Not claimed: which order comes.
#[verifier::external_body]
pub(crate) fn shuffle_in_place<T>(v: &mut Vec<T>)
    ensures
        final(v)@.to_multiset() == old(v)@.to_multiset(),
{
    v.as_mut_slice().shuffle(&mut rand::thread_rng());
}

/// Calls `rand::seq::SliceRandom::choose` on the vector, with `rand::thread_rng()`, and copies
/// the item out. Claimed: nothing comes back exactly when the vector is empty, and what comes
/// back is one of its items. Not claimed: which one.
#[verifier::external_body]
pub(crate) fn choose_one<T: Copy>(v: &Vec<T>) -> (r: Option<T>)
    ensures
        r is None <==> v@.len() == 0,
        r matches Some(x) ==> v@.contains(x),
{
    v.as_slice().choose(&mut rand::thread_rng()).copied()
}

/// The items of `picked` were taken from `from` at pairwise different positions, in some order.
pub open spec fn taken_at_distinct_positions<T>(from: Seq<T>, picked: Seq<T>) -> bool {
    exists|pos: Seq<int>|
        #![trigger pos.len()]
        pos.len() == picked.len()
        && (forall|i: int| 0 <= i < pos.len() ==> 0 <= #[trigger] pos[i] < from.len())
        && (forall|i: int| 0 <= i < pos.len() ==> picked[i] == from[#[trigger] pos[i]])
        && (forall|i: int, j: int| 0 <= i < j < pos.len() ==> pos[i] != pos[j])
}

/// Calls `rand::seq::SliceRandom::choose_multiple(amount)` on the vector, with
/// `rand::thread_rng()`, and copies the items out. Claimed, as the source shows (it samples
/// `min(amount, len)` distinct indices): as many items as asked for, or all of them if there
/// are fewer, each taken from its own position. Not claimed: which ones, nor their order.
#[verifier::external_body]
pub(crate) fn choose_several<T: Copy>(v: &Vec<T>, amount: usize) -> (r: Vec<T>)
    ensures
        r@.len() == if amount <= v@.len() { amount as int } else { v@.len() as int },
        taken_at_distinct_positions(v@, r@),
{
    v.as_slice().choose_multiple(&mut rand::thread_rng(), amount).copied().collect()
}

} // verus!
