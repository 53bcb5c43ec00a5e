//! Verified core of a voice-presence study-session tracker.
//!
//! The library models the live session registry, the settlement of a closed
//! session into a coin ledger, session history, streak days and reward
//! triggers, and the derived leaderboard rank. All persistent state is held
//! in plain in-memory structures with stated invariants; delivery of
//! notifications and durable storage live outside the library.

use vstd::prelude::*;

mod random;
pub mod ledger;
pub mod session;
pub mod registry;
pub mod records;
pub mod streak;
pub mod countdown;
pub mod rewards;
pub mod leaderboard;
pub mod store;
pub mod settle;
pub mod interactions;

pub use random::{random_video_reward_time, valid_countdown};

verus! {

/// Earnings configuration: how many coins one whole minute of study pays.
pub struct StudyEarnings {
    pub coins_per_minute: u64,
}

/// Channel configuration. A voice channel counts as a study channel unless
/// it is listed in `slacking_voice_channels`.
pub struct Channels {
    pub dm_backup_channel: u64,
    pub starboard_channel: u64,
    pub slacking_voice_channels: Vec<u64>,
}

impl Channels {
    /// A channel qualifies for studying iff it is not in the exclusion list.
    pub fn is_study_vc(&self, channel_id: u64) -> (r: bool)
        ensures
            r == !self.slacking_voice_channels@.contains(channel_id),
    {
        !contains_u64(&self.slacking_voice_channels, channel_id)
    }
}

/// Linear membership test on a vector of channel or user ids.
pub fn contains_u64(v: &Vec<u64>, x: u64) -> (r: bool)
    ensures
        r == v@.contains(x),
{
    let mut i: usize = 0;
    while i < v.len()
        invariant
            i <= v@.len(),
            forall|j: int| 0 <= j < i ==> v@[j] != x,
        decreases v@.len() - i,
    {
        if v[i] == x {
            return true;
        }
        i = i + 1;
    }
    false
}

} // verus!
