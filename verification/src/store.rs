//! The durable state settlement writes to, modeled in memory: the coin
//! ledger, the session history, per-user video-reward countdowns, the
//! append-only reward claim log, boosters, leaderboard opt-outs and study
//! result preferences.

use vstd::prelude::*;
use std::collections::HashMap;
use crate::ledger::{balance_of, CoinEntry, CoinLedger};
use crate::leaderboard::{
    lemma_total_len_push, lemma_total_len_remove, lemma_total_len_update, total_len,
};
use crate::random::{random_video_reward_time, valid_countdown};
use crate::records::{ResultsMode, StudySessionRecord};
use crate::rewards::{Reward, RewardReason};

verus! {

broadcast use vstd::std_specs::hash::group_hash_axioms;

/// One granted reward in the append-only claim log; its index is its id.
#[derive(Clone, Copy, PartialEq, Eq, Structural)]
pub struct RewardEntry {
    pub user: u64,
    pub reward: Reward,
    pub reason: RewardReason,
}

/// One granted booster: a multiplier in hundredths and an expiry instant in
/// epoch seconds.
#[derive(Clone, Copy, PartialEq, Eq, Structural)]
pub struct BoosterEntry {
    pub user: u64,
    pub multiplier: u16,
    pub expires: u64,
}

/// The rejection of a corrective deduction.
#[derive(Clone, Copy, PartialEq, Eq, Structural, Debug)]
pub enum DeductError {
    /// No session of that id belongs to the user.
    SessionNotFound,
    /// The corrected video time exceeds the stored one or the corrected total.
    VideoExceedsLength,
    /// The corrected total time exceeds the stored one.
    LengthExceedsOriginal,
}

/// The index of the user's session with the given id, if one exists.
pub open spec fn find_session(s: Seq<StudySessionRecord>, user: u64, id: u64) -> Option<int> {
    if exists|i: int| 0 <= i < s.len() && (#[trigger] s[i]).id == id && s[i].user == user {
        Some(choose|i: int| 0 <= i < s.len() && (#[trigger] s[i]).id == id && s[i].user == user)
    } else {
        None
    }
}

/// Finds the index of the user's session with the given id, if any.
fn find_session_exec(sessions: &Vec<StudySessionRecord>, user: u64, id: u64) -> (r: Option<usize>)
    ensures
        match r {
            Some(f) => f < sessions@.len() && sessions@[f as int].id == id
                && sessions@[f as int].user == user,
            None => forall|k: int|
                0 <= k < sessions@.len() ==> !((#[trigger] sessions@[k]).id == id
                    && sessions@[k].user == user),
        },
{
    let mut i: usize = 0;
    while i < sessions.len()
        invariant
            i <= sessions@.len(),
            forall|k: int|
                0 <= k < i ==> !((#[trigger] sessions@[k]).id == id && sessions@[k].user == user),
        decreases sessions@.len() - i,
    {
        let rec = sessions[i];
        if rec.id == id && rec.user == user {
            return Some(i);
        }
        i = i + 1;
    }
    None
}

/// The persistent state of the system, as settlement sees it.
pub struct Store {
    pub ledger: CoinLedger,
    pub sessions: Vec<StudySessionRecord>,
    pub next_session_id: u64,
    pub countdowns: HashMap<u64, u64>,
    pub rewards: Vec<RewardEntry>,
    pub boosters: Vec<BoosterEntry>,
    pub optouts: Vec<u64>,
    pub results_modes: HashMap<u64, ResultsMode>,
}

impl Store {
    /// Standing invariants: non-negative balances, unique session ids below
    /// the id counter, countdowns positive and at most one draw's maximum,
    /// and a total session length that still fits the clock's type.
    pub open spec fn wf(&self) -> bool {
        &&& self.ledger.wf()
        &&& forall|i: int, j: int|
            0 <= i < j < self.sessions@.len() ==> (#[trigger] self.sessions@[i]).id != (
            #[trigger] self.sessions@[j]).id
        &&& forall|i: int|
            0 <= i < self.sessions@.len() ==> (#[trigger] self.sessions@[i]).id
                < self.next_session_id
        &&& forall|u: u64|
            self.countdowns@.contains_key(u) ==> 1 <= #[trigger] self.countdowns@[u] <= 19800
        &&& total_len(self.sessions@) <= u64::MAX
    }

    pub fn new() -> (r: Store)
        ensures
            r.wf(),
            r.ledger@ =~= Seq::<CoinEntry>::empty(),
            r.sessions@ =~= Seq::<StudySessionRecord>::empty(),
            r.next_session_id == 0,
            r.countdowns@ =~= Map::<u64, u64>::empty(),
            r.rewards@ =~= Seq::<RewardEntry>::empty(),
            r.boosters@ =~= Seq::<BoosterEntry>::empty(),
            r.optouts@ =~= Seq::<u64>::empty(),
            r.results_modes@ =~= Map::<u64, ResultsMode>::empty(),
    {
        Store {
            ledger: CoinLedger::new(),
            sessions: Vec::new(),
            next_session_id: 0,
            countdowns: HashMap::new(),
            rewards: Vec::new(),
            boosters: Vec::new(),
            optouts: Vec::new(),
            results_modes: HashMap::new(),
        }
    }

    /// The user's coin balance.
    pub fn user_balance(&self, user: u64) -> (b: u64)
        requires
            self.wf(),
        ensures
            b == balance_of(self.ledger@, user),
    {
        self.ledger.user_balance(user)
    }

    /// The user's study-result delivery preference; direct messages unless
    /// they chose otherwise.
    pub fn user_results_mode(&self, user: u64) -> (m: ResultsMode)
        ensures
            m == if self.results_modes@.contains_key(user) {
                self.results_modes@[user]
            } else {
                ResultsMode::Dm
            },
    {
        match self.results_modes.get(&user) {
            Some(m) => *m,
            None => ResultsMode::Dm,
        }
    }

    /// Stores the user's study-result delivery preference.
    pub fn set_results_mode(&mut self, user: u64, mode: ResultsMode)
        requires
            old(self).wf(),
        ensures
            final(self).wf(),
            final(self).results_modes@ == old(self).results_modes@.insert(user, mode),
            final(self).ledger@ == old(self).ledger@,
            final(self).sessions@ == old(self).sessions@,
            final(self).next_session_id == old(self).next_session_id,
            final(self).countdowns@ == old(self).countdowns@,
            final(self).rewards@ == old(self).rewards@,
            final(self).boosters@ == old(self).boosters@,
            final(self).optouts@ == old(self).optouts@,
    {
        self.results_modes.insert(user, mode);
    }

    /// Opts the user out of the leaderboard.
    pub fn set_leaderboard_optout(&mut self, user: u64)
        requires
            old(self).wf(),
        ensures
            final(self).wf(),
            final(self).optouts@ == old(self).optouts@.push(user),
            final(self).ledger@ == old(self).ledger@,
            final(self).sessions@ == old(self).sessions@,
            final(self).next_session_id == old(self).next_session_id,
            final(self).countdowns@ == old(self).countdowns@,
            final(self).rewards@ == old(self).rewards@,
            final(self).boosters@ == old(self).boosters@,
            final(self).results_modes@ == old(self).results_modes@,
    {
        self.optouts.push(user);
    }

    /// The user's current countdown, drawing and storing a fresh one first
    /// if the user has none yet.
    pub fn ensure_countdown(&mut self, user: u64) -> (c: u64)
        requires
            old(self).wf(),
        ensures
            final(self).wf(),
            1 <= c <= 19800,
            final(self).countdowns@.contains_key(user) && final(self).countdowns@[user] == c,
            old(self).countdowns@.contains_key(user) ==> c == old(self).countdowns@[user]
                && final(self).countdowns@ == old(self).countdowns@,
            !old(self).countdowns@.contains_key(user) ==> valid_countdown(c)
                && final(self).countdowns@ == old(self).countdowns@.insert(user, c),
            final(self).ledger@ == old(self).ledger@,
            final(self).sessions@ == old(self).sessions@,
            final(self).next_session_id == old(self).next_session_id,
            final(self).rewards@ == old(self).rewards@,
            final(self).boosters@ == old(self).boosters@,
            final(self).optouts@ == old(self).optouts@,
            final(self).results_modes@ == old(self).results_modes@,
    {
        match self.countdowns.get(&user) {
            Some(c) => *c,
            None => {
                let c = random_video_reward_time();
                self.countdowns.insert(user, c);
                c
            },
        }
    }

    /// Writes the user's remaining countdown after a settlement.
    pub fn set_countdown(&mut self, user: u64, value: u64)
        requires
            old(self).wf(),
            1 <= value <= 19800,
        ensures
            final(self).wf(),
            final(self).countdowns@ == old(self).countdowns@.insert(user, value),
            final(self).ledger@ == old(self).ledger@,
            final(self).sessions@ == old(self).sessions@,
            final(self).next_session_id == old(self).next_session_id,
            final(self).rewards@ == old(self).rewards@,
            final(self).boosters@ == old(self).boosters@,
            final(self).optouts@ == old(self).optouts@,
            final(self).results_modes@ == old(self).results_modes@,
    {
        self.countdowns.insert(user, value);
    }

    /// The atomic write of settlement: one coin transaction and one session
    /// record linked to it, committed together — in this model the pair
    /// cannot split. Returns the new session's id.
    pub fn record_session(
        &mut self,
        user: u64,
        coins: u64,
        length: u64,
        video_length: u64,
        ended: u64,
    ) -> (sid: u64)
        requires
            old(self).wf(),
            coins <= i64::MAX,
            balance_of(old(self).ledger@, user) + coins <= i64::MAX,
            total_len(old(self).sessions@) + length <= u64::MAX,
            old(self).next_session_id < u64::MAX,
        ensures
            final(self).wf(),
            sid == old(self).next_session_id,
            final(self).next_session_id == old(self).next_session_id + 1,
            final(self).ledger@ == old(self).ledger@.push(
                (CoinEntry { user, delta: coins as i64 }),
            ),
            final(self).sessions@ == old(self).sessions@.push(
                (StudySessionRecord {
                    id: sid,
                    user,
                    length,
                    video_length,
                    ended,
                    coin_reward_ref: old(self).ledger@.len() as usize,
                }),
            ),
            final(self).countdowns@ == old(self).countdowns@,
            final(self).rewards@ == old(self).rewards@,
            final(self).boosters@ == old(self).boosters@,
            final(self).optouts@ == old(self).optouts@,
            final(self).results_modes@ == old(self).results_modes@,
    {
        let coin_reward_ref = self.ledger.len();
        self.ledger.add_coins(user, coins);
        let sid = self.next_session_id;
        self.next_session_id = sid + 1;
        let rec = StudySessionRecord { id: sid, user, length, video_length, ended, coin_reward_ref };
        self.sessions.push(rec);
        proof {
            lemma_total_len_push(old(self).sessions@, rec);
            let newv = self.sessions@;
            let oldv = old(self).sessions@;
            assert forall|i: int, j: int|
                0 <= i < j < newv.len() implies (#[trigger] newv[i]).id != (
            #[trigger] newv[j]).id by {
                if j < newv.len() - 1 {
                    assert(newv[i] == oldv[i] && newv[j] == oldv[j]);
                } else {
                    assert(newv[i] == oldv[i]);
                    assert(oldv[i].id < sid);
                }
            }
        }
        sid
    }

    /// Applies one reward grant and logs the claim; the returned id is the
    /// claim's index in the log. A coin grant is a credit, which the ledger
    /// never rejects; a booster is stored with its expiry; a role grant only
    /// logs the claim.
    pub fn user_claim_reward(
        &mut self,
        user: u64,
        reward: Reward,
        reason: RewardReason,
        now_epoch: u64,
    ) -> (id: usize)
        requires
            old(self).wf(),
            match reward {
                Reward::Coins(amount) => amount <= i64::MAX && balance_of(old(self).ledger@, user)
                    + amount <= i64::MAX,
                Reward::Booster { multiplier, expiration } => now_epoch + expiration <= u64::MAX,
                Reward::Role(_) => true,
            },
        ensures
            final(self).wf(),
            id == old(self).rewards@.len(),
            final(self).rewards@ == old(self).rewards@.push(
                (RewardEntry { user, reward, reason }),
            ),
            match reward {
                Reward::Coins(amount) => final(self).ledger@ == old(self).ledger@.push(
                    (CoinEntry { user, delta: amount as i64 }),
                ) && final(self).boosters@ == old(self).boosters@,
                Reward::Booster { multiplier, expiration } => final(self).ledger@
                    == old(self).ledger@ && final(self).boosters@ == old(self).boosters@.push(
                    (BoosterEntry { user, multiplier, expires: (now_epoch + expiration) as u64 }),
                ),
                Reward::Role(_) => final(self).ledger@ == old(self).ledger@
                    && final(self).boosters@ == old(self).boosters@,
            },
            final(self).sessions@ == old(self).sessions@,
            final(self).next_session_id == old(self).next_session_id,
            final(self).countdowns@ == old(self).countdowns@,
            final(self).optouts@ == old(self).optouts@,
            final(self).results_modes@ == old(self).results_modes@,
    {
        match reward {
            Reward::Coins(amount) => {
                self.ledger.add_coins(user, amount);
            },
            Reward::Booster { multiplier, expiration } => {
                self.boosters.push(
                    BoosterEntry { user, multiplier, expires: now_epoch + expiration },
                );
            },
            Reward::Role(_) => {},
        }
        let id = self.rewards.len();
        self.rewards.push(RewardEntry { user, reward, reason });
        id
    }

    /// Looks up a claimed reward by id — only its owner sees it.
    pub fn get_reward(&self, user: u64, id: usize) -> (r: Option<RewardEntry>)
        ensures
            match r {
                Some(e) => id < self.rewards@.len() && e == self.rewards@[id as int] && e.user
                    == user,
                None => id >= self.rewards@.len() || self.rewards@[id as int].user != user,
            },
    {
        if id < self.rewards.len() {
            let e = self.rewards[id];
            if e.user == user {
                Some(e)
            } else {
                None
            }
        } else {
            None
        }
    }

    /// Corrects or deletes a settled session: a zero corrected length deletes
    /// the record; otherwise the corrected times must not exceed what stands.
    /// Rejected corrections change nothing. Returns whether it deleted.
    pub fn deduct_session(
        &mut self,
        user: u64,
        session_id: u64,
        new_length: u64,
        new_video_length: u64,
    ) -> (r: Result<bool, DeductError>)
        requires
            old(self).wf(),
        ensures
            final(self).wf(),
            final(self).ledger@ == old(self).ledger@,
            final(self).next_session_id == old(self).next_session_id,
            final(self).countdowns@ == old(self).countdowns@,
            final(self).rewards@ == old(self).rewards@,
            final(self).boosters@ == old(self).boosters@,
            final(self).optouts@ == old(self).optouts@,
            final(self).results_modes@ == old(self).results_modes@,
            ({
                let found = find_session(old(self).sessions@, user, session_id);
                match r {
                    Ok(deleted) => {
                        &&& found is Some
                        &&& deleted == (new_length == 0)
                        &&& deleted ==> final(self).sessions@ == old(self).sessions@.remove(
                            found->0,
                        )
                        &&& !deleted ==> {
                            let orig = old(self).sessions@[found->0];
                            &&& new_video_length <= orig.video_length
                            &&& new_video_length <= new_length
                            &&& new_length <= orig.length
                            &&& final(self).sessions@ == old(self).sessions@.update(
                                found->0,
                                (StudySessionRecord {
                                    length: new_length,
                                    video_length: new_video_length,
                                    ..orig
                                }),
                            )
                        }
                    },
                    Err(DeductError::SessionNotFound) => found is None && final(self).sessions@
                        == old(self).sessions@,
                    Err(DeductError::VideoExceedsLength) => {
                        &&& found is Some
                        &&& new_length > 0
                        &&& (new_video_length > old(self).sessions@[found->0].video_length
                            || new_video_length > new_length)
                        &&& final(self).sessions@ == old(self).sessions@
                    },
                    Err(DeductError::LengthExceedsOriginal) => {
                        &&& found is Some
                        &&& new_length > 0
                        &&& new_video_length <= old(self).sessions@[found->0].video_length
                        &&& new_video_length <= new_length
                        &&& new_length > old(self).sessions@[found->0].length
                        &&& final(self).sessions@ == old(self).sessions@
                    },
                }
            }),
    {
        let found = find_session_exec(&self.sessions, user, session_id);
        let idx = match found {
            Some(f) => f,
            None => {
                proof {
                    assert(find_session(self.sessions@, user, session_id) is None);
                }
                return Err(DeductError::SessionNotFound);
            },
        };
        proof {
            let s = self.sessions@;
            assert(s[idx as int].id == session_id && s[idx as int].user == user);
            let c = choose|i: int|
                0 <= i < s.len() && (#[trigger] s[i]).id == session_id && s[i].user == user;
            assert(s[c].id == s[idx as int].id);
            // session ids are unique, so the found index is the chosen one
            assert(c == idx);
            assert(find_session(s, user, session_id) == Some(idx as int));
        }
        let orig = self.sessions[idx];
        if new_length == 0 {
            self.sessions.remove(idx);
            proof {
                let newv = self.sessions@;
                let oldv = old(self).sessions@;
                lemma_total_len_remove(oldv, idx as int);
                assert forall|a: int, b: int|
                    0 <= a < b < newv.len() implies (#[trigger] newv[a]).id != (
                #[trigger] newv[b]).id by {
                    let a2: int = if a < idx {
                        a
                    } else {
                        a + 1
                    };
                    let b2: int = if b < idx {
                        b
                    } else {
                        b + 1
                    };
                    assert(newv[a] == oldv[a2] && newv[b] == oldv[b2]);
                }
                assert forall|a: int|
                    0 <= a < newv.len() implies (#[trigger] newv[a]).id
                    < self.next_session_id by {
                    let a2: int = if a < idx {
                        a
                    } else {
                        a + 1
                    };
                    assert(newv[a] == oldv[a2]);
                }
            }
            return Ok(true);
        }
        if new_video_length > orig.video_length || new_video_length > new_length {
            return Err(DeductError::VideoExceedsLength);
        }
        if new_length > orig.length {
            return Err(DeductError::LengthExceedsOriginal);
        }
        let updated = StudySessionRecord {
            length: new_length,
            video_length: new_video_length,
            ..orig
        };
        self.sessions.set(idx, updated);
        proof {
            let newv = self.sessions@;
            let oldv = old(self).sessions@;
            lemma_total_len_update(oldv, idx as int, updated);
            assert forall|a: int, b: int|
                0 <= a < b < newv.len() implies (#[trigger] newv[a]).id != (
            #[trigger] newv[b]).id by {
                assert(newv[a].id == oldv[a].id && newv[b].id == oldv[b].id);
            }
            assert forall|a: int|
                0 <= a < newv.len() implies (#[trigger] newv[a]).id < self.next_session_id by {
                assert(newv[a].id == oldv[a].id);
            }
        }
        Ok(false)
    }
}

} // verus!
