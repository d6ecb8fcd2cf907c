//! The library's source of chance.

use rand::seq::SliceRandom;
use rand::Rng;
use vstd::prelude::*;

verus! {

/// `Rng::gen_range` of `rand`, on the thread's generator and an inclusive
/// range: some number of the range. The contract leaves out the empty range,
/// on which `gen_range` panics.
#[verifier::external_body]
fn random_between(low: u64, high: u64) -> (n: u64)
    requires
        low <= high,
    ensures
        low <= n <= high,
{
    rand::thread_rng().gen_range(low..=high)
}

/// `SliceRandom::shuffle` of `rand`, on the thread's generator: the same
/// items in some order.
#[verifier::external_body]
pub(crate) fn shuffle<T>(items: &mut Vec<T>)
    ensures
        final(items)@.to_multiset() == old(items)@.to_multiset(),
{
    items.shuffle(&mut rand::thread_rng())
}

/// Some index into a list of `len` items.
pub fn random_index(len: usize) -> (i: usize)
    requires
        len > 0,
    ensures
        i < len,
{
    random_between(0, (len - 1) as u64) as usize
}

/// Some number from `low` to `high`, both included.
pub fn random_in_range(low: i64, high: i64) -> (n: i64)
    requires
        low <= high,
    ensures
        low <= n <= high,
{
    let span: u64 = range_span(low, high);
    let offset: u64 = random_between(0, span);
    range_member(low, offset)
}

/// How far `high` lies above `low`: the largest offset that a draw from the
/// range can have.
pub fn range_span(low: i64, high: i64) -> (span: u64)
    requires
        low <= high,
    ensures
        span == high - low,
{
    (high as i128 - low as i128) as u64
}

/// The number that lies `offset` above `low`: what a draw from a range stands
/// for, once its offset is drawn.
pub fn range_member(low: i64, offset: u64) -> (n: i64)
    requires
        low + offset <= i64::MAX,
    ensures
        n == low + offset,
{
    (low as i128 + offset as i128) as i64
}

} // verus!
