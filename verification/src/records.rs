//! The persisted shapes settlement writes: session history records and the
//! per-user study-result delivery preference.

use vstd::prelude::*;

verus! {

/// A settled study session, as persisted: lengths in whole seconds, the end
/// instant in epoch seconds, and the linked coin transaction (an index into
/// the coin ledger).
#[derive(Clone, Copy, PartialEq, Eq, Structural)]
pub struct StudySessionRecord {
    pub id: u64,
    pub user: u64,
    pub length: u64,
    pub video_length: u64,
    pub ended: u64,
    pub coin_reward_ref: usize,
}

/// Where a user's settlement results are delivered.
#[derive(Clone, Copy, PartialEq, Eq, Structural, Debug)]
pub enum ResultsMode {
    Off,
    Dm,
    Guild,
}

} // verus!
