//! The library's only source of randomness: reward kinds, reward magnitudes
//! and countdown draws all start from one trusted range draw.

use vstd::prelude::*;
use rand::Rng;

verus! {

/// Relies on rand::Rng::gen_range (on rand::thread_rng): draws a value from
/// the half-open range `lo..hi`. It panics only on an empty range, which the
/// precondition rules out; nothing more than the bounds can be promised of a
/// random result.
#[verifier::external_body]
pub(crate) fn rand_range(lo: u64, hi: u64) -> (r: u64)
    requires
        lo < hi,
    ensures
        lo <= r < hi,
{
    rand::thread_rng().gen_range(lo..hi)
}

/// A well-formed video-reward countdown: a whole number of half-hours,
/// between half an hour and five and a half hours.
pub open spec fn valid_countdown(c: u64) -> bool {
    1800 <= c <= 19800 && c % 1800 == 0
}

/// Draws a fresh video-reward countdown.
pub fn random_video_reward_time() -> (r: u64)
    ensures
        valid_countdown(r),
{
    let k = rand_range(1, 12);
    proof {
        vstd::arithmetic::div_mod::lemma_mod_multiples_basic(k as int, 1800);
    }
    k * 1800
}

} // verus!
