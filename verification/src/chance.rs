//! Random draws. Probabilities are whole numbers of millionths, so that the
//! rules that use them can be stated over integers.

use vstd::prelude::*;
use rand::Rng;

verus! {

/// The number of equally likely outcomes of one draw: a rate of
/// `PROBABILITY_SCALE` stands for certainty.
pub const PROBABILITY_SCALE: i64 = 1_000_000;

/// Trusted: calls `rand::Rng::gen_range` on the thread's generator with the
/// half-open range `low..high`. The contract claims only that the number
/// drawn lies in that range; `gen_range` panics on an empty range, which the
/// precondition excludes.
#[verifier::external_body]
pub(crate) fn random_range(low: i64, high: i64) -> (r: i64)
    requires
        low < high,
    ensures
        low <= r < high,
{
    rand::thread_rng().gen_range(low..high)
}

/// A uniformly drawn integer from `min` up to, but not including, `max`.
pub fn random_int(min: u8, max: u8) -> (r: u8)
    requires
        min < max,
    ensures
        min <= r < max,
{
    random_range(min as i64, max as i64) as u8
}

/// A uniformly drawn position in a list of `len` items.
pub fn random_index(len: usize) -> (i: usize)
    requires
        0 < len <= i64::MAX,
    ensures
        i < len,
{
    random_range(0, len as i64) as usize
}

/// Whether an event of the given rate happens on the given draw.
pub open spec fn happens(draw: int, rate: int) -> bool {
    draw < rate
}

/// Decides an event of the given rate on a draw that was already made.
pub fn decide(draw: i64, rate: i64) -> (b: bool)
    ensures
        b == happens(draw as int, rate as int),
{
    draw < rate
}

/// Makes one fresh draw and decides an event of the given rate on it. A rate
/// of zero or less never happens; a rate of `PROBABILITY_SCALE` or more
/// always does.
pub fn chance(rate: i64) -> (b: bool)
    ensures
        rate <= 0 ==> !b,
        rate >= PROBABILITY_SCALE ==> b,
{
    let draw = random_range(0, PROBABILITY_SCALE);
    decide(draw, rate)
}

} // verus!
