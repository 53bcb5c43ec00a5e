//! The settlement engine: closes a session and settles it atomically into
//! the store — coin credit, history record, streak and rank snapshots before
//! and after, countdown deposits with their reward triggers, and the reward
//! grants — then assembles the immutable result for the notification sink.
//!
//! A simulated (administrative) session goes through the same path: build it
//! with `synthetic_session` and hand it here, serialized per user by the
//! caller.

use vstd::prelude::*;
use crate::countdown::{settle_spec, settle_video};
use crate::ledger::{balance_of, CoinEntry};
use crate::leaderboard::{place_spec, total_len, user_place};
use crate::random::valid_countdown;
use crate::records::StudySessionRecord;
use crate::rewards::{valid_random_reward, Reward, RewardReason};
use crate::session::SessionState;
use crate::store::Store;
use crate::streak::{streak_spec, user_streak};
use crate::StudyEarnings;

verus! {

/// The immutable snapshot of one settled session, produced once and handed
/// to the notification sink exactly once.
pub struct SettlementResult {
    pub user: u64,
    pub session_id: u64,
    /// End of the session, in epoch seconds.
    pub ended: u64,
    /// Total, video and break time, in whole seconds.
    pub length: u64,
    pub video_length: u64,
    pub breaks: u64,
    /// Video time left until the next video reward; absent when the session
    /// had no video time.
    pub next_video_reward: Option<u64>,
    pub coins: u64,
    /// Streak (after, before).
    pub streak: (u16, u16),
    /// Current place, paired with the place before the session, if any.
    pub leaderboard_place: Option<(u16, Option<u16>)>,
    /// One (reason, reward id) pair per granted reward.
    pub rewards: Vec<(RewardReason, usize)>,
}

/// The room a settlement needs inside the machine's integer types: the coin
/// formula, the grant budget against the user's balance, the history total,
/// the id counter, the u16 rank walk and the booster expiry must all fit.
pub open spec fn settlement_fits(
    store: Store,
    user: u64,
    length: int,
    coins_per_minute: int,
    now_epoch: u64,
) -> bool {
    let coins = (length / 60) * coins_per_minute;
    &&& 0 <= coins <= i64::MAX
    &&& balance_of(store.ledger@, user) + coins + 700 * (length / 1800 + 2) <= i64::MAX
    &&& total_len(store.sessions@) + length <= u64::MAX
    &&& now_epoch + 191 * 3600 <= u64::MAX
    &&& store.next_session_id < u64::MAX
    &&& store.sessions@.len() + 2 <= u16::MAX
}

/// The record a settlement at `now_epoch` appends for a session of the given
/// lengths.
pub open spec fn settled_record(
    store: Store,
    user: u64,
    length: u64,
    video_length: u64,
    now_epoch: u64,
) -> StudySessionRecord {
    StudySessionRecord {
        id: store.next_session_id,
        user,
        length,
        video_length,
        ended: now_epoch,
        coin_reward_ref: store.ledger@.len() as usize,
    }
}

/// Settles a closed-out session for `user` into the store.
///
/// `state` is the session removed from the registry (or built by
/// `synthetic_session`); `now_mono` is the monotonic reading that closes it,
/// `now_epoch` the wall clock it is recorded under, and `window_start` the
/// current leaderboard window. Returns the settlement result iff `alert` is
/// set; the settlement itself is committed either way.
#[verifier::rlimit(100)]
pub fn finish_session(
    store: &mut Store,
    user: u64,
    state: SessionState,
    now_mono: u64,
    now_epoch: u64,
    window_start: u64,
    earnings: &StudyEarnings,
    alert: bool,
) -> (r: Option<SettlementResult>)
    requires
        old(store).wf(),
        state.wf(now_mono as int),
        settlement_fits(
            *old(store),
            user,
            now_mono - state.start,
            earnings.coins_per_minute as int,
            now_epoch,
        ),
    ensures
        final(store).wf(),
        r is Some <==> alert,
        ({
            let length = (now_mono - state.start) as u64;
            let video_length = state.video.total_at(now_mono as int) as u64;
            let breaks = state.breaks.total_at(now_mono as int) as u64;
            let coins = ((length / 60) * (earnings.coins_per_minute as int)) as u64;
            let rec = settled_record(*old(store), user, length, video_length, now_epoch);
            let streak_before = streak_spec(old(store).sessions@, user);
            let streak_after = streak_spec(old(store).sessions@.push(rec), user);
            let changed = streak_before != streak_after;
            let base_rewards = old(store).rewards@.len() as int;
            let base_ledger = old(store).ledger@.len() as int;
            let n_grants = final(store).rewards@.len() - base_rewards;
            let n_video = n_grants - if changed {
                1int
            } else {
                0int
            };
            // exactly one session record, linked to one coin transaction
            &&& final(store).sessions@ == old(store).sessions@.push(rec)
            &&& final(store).next_session_id == old(store).next_session_id + 1
            &&& final(store).ledger@.len() > base_ledger
            &&& final(store).ledger@.take(base_ledger) == old(store).ledger@
            &&& final(store).ledger@[base_ledger] == (CoinEntry { user, delta: coins as i64 })
            // after the credit, only this user's coin grants touch the ledger
            &&& forall|t: int|
                base_ledger + 1 <= t < final(store).ledger@.len() ==> (#[trigger] final(store).ledger@[t]).user == user && 100 <= final(store).ledger@[t].delta <= 700
            // reward claims: the daily trigger first if the streak moved,
            // then one per fully consumed countdown cycle
            &&& n_grants >= if changed {
                1int
            } else {
                0int
            }
            &&& final(store).rewards@.take(base_rewards) == old(store).rewards@
            &&& forall|t: int|
                base_rewards <= t < final(store).rewards@.len() ==> {
                    let e = #[trigger] final(store).rewards@[t];
                    &&& e.user == user
                    &&& valid_random_reward(e.reward)
                    &&& e.reason == if changed && t == base_rewards {
                        RewardReason::Daily
                    } else {
                        RewardReason::Video
                    }
                }
            // the countdown moved by the settle relation over valid draws
            &&& final(store).countdowns@.contains_key(user)
            &&& final(store).countdowns@ == old(store).countdowns@.insert(
                user,
                final(store).countdowns@[user],
            )
            &&& exists|c0: u64, draws: Seq<u64>|
                {
                    &&& (old(store).countdowns@.contains_key(user) ==> c0 == old(store).countdowns@[user])
                    &&& (!old(store).countdowns@.contains_key(user) ==> valid_countdown(c0))
                    &&& 1 <= c0 <= 19800
                    &&& (forall|j: int|
                        0 <= j < draws.len() ==> valid_countdown(#[trigger] draws[j]))
                    &&& settle_spec(c0 as int, video_length as int, draws) == Some(
                        (n_video, final(store).countdowns@[user] as int),
                    )
                }
            // boosters only grow by this user's booster grants
            &&& final(store).boosters@.take(old(store).boosters@.len() as int) == old(store).boosters@
            &&& forall|t: int|
                old(store).boosters@.len() <= t < final(store).boosters@.len() ==> {
                    let b = #[trigger] final(store).boosters@[t];
                    &&& b.user == user
                    &&& 150 <= b.multiplier <= 240
                    &&& now_epoch + 3600 <= b.expires <= now_epoch + 687600
                }
            &&& final(store).optouts@ == old(store).optouts@
            &&& final(store).results_modes@ == old(store).results_modes@
            // the assembled result reports exactly what was settled
            &&& match r {
                Some(res) => {
                    &&& res.user == user
                    &&& res.session_id == old(store).next_session_id
                    &&& res.ended == now_epoch
                    &&& res.length == length
                    &&& res.video_length == video_length
                    &&& res.breaks == breaks
                    &&& res.coins == coins
                    &&& res.streak.1 == streak_before
                    &&& res.streak.0 == streak_after
                    &&& res.next_video_reward == (if video_length > 0 {
                        Some(final(store).countdowns@[user])
                    } else {
                        None::<u64>
                    })
                    &&& (match res.leaderboard_place {
                        Some(pair) => place_spec(
                            old(store).sessions@.push(rec),
                            old(store).optouts@,
                            window_start,
                            user,
                        ) == Some(pair.0 as int) && (match pair.1 {
                            Some(b) => place_spec(
                                old(store).sessions@,
                                old(store).optouts@,
                                window_start,
                                user,
                            ) == Some(b as int),
                            None => place_spec(
                                old(store).sessions@,
                                old(store).optouts@,
                                window_start,
                                user,
                            ) is None,
                        }),
                        None => place_spec(
                            old(store).sessions@.push(rec),
                            old(store).optouts@,
                            window_start,
                            user,
                        ) is None,
                    })
                    &&& res.rewards@.len() == n_grants
                    &&& forall|t: int|
                        0 <= t < n_grants ==> (#[trigger] res.rewards@[t]).1 == base_rewards + t
                            && res.rewards@[t].0 == final(store).rewards@[base_rewards + t].reason
                },
                None => true,
            }
        }),
{
    let mut state = state;
    state.sum_video_progress(now_mono);
    state.sum_break_progress(now_mono);

    let length = now_mono - state.start;
    let video_length = state.video.accumulated;
    let breaks = state.breaks.accumulated;
    let coins = (length / 60) * earnings.coins_per_minute;

    let lb_place_before = user_place(&store.sessions, &store.optouts, window_start, user);
    let streak_before = user_streak(&store.sessions, user);

    let session_id = store.record_session(user, coins, length, video_length, now_epoch);
    let ghost rec = settled_record(*old(store), user, length, video_length, now_epoch);

    let lb_place_after = user_place(&store.sessions, &store.optouts, window_start, user);
    let streak_after = user_streak(&store.sessions, user);
    let changed = streak_before != streak_after;

    let c0 = store.ensure_countdown(user);
    let (n_video, remaining) = settle_video(c0, video_length);
    store.set_countdown(user, remaining);
    proof {
        assert(store.countdowns@ =~= old(store).countdowns@.insert(user, remaining));
        // one reward per consumed cycle never outruns the half-hour budget
        if n_video >= 1 {
            vstd::arithmetic::div_mod::lemma_fundamental_div_mod(length as int, 1800);
            assert(1800 * (n_video - 1) < length);
            assert(n_video <= length as int / 1800 + 1);
        }
    }

    let mut reasons: Vec<RewardReason> = Vec::new();
    if changed {
        reasons.push(RewardReason::Daily);
    }
    let mut k: u64 = 0;
    while k < n_video
        invariant
            k <= n_video,
            reasons@.len() == k + if changed {
                1int
            } else {
                0int
            },
            forall|t: int|
                0 <= t < reasons@.len() ==> reasons@[t] == if changed && t == 0 {
                    RewardReason::Daily
                } else {
                    RewardReason::Video
                },
        decreases n_video - k,
    {
        reasons.push(RewardReason::Video);
        k = k + 1;
    }

    proof {
        assert(reasons@.len() <= length as int / 1800 + 2);
        crate::ledger::lemma_balance_push(
            old(store).ledger@,
            CoinEntry { user, delta: coins as i64 },
            user,
        );
        assert(balance_of(store.ledger@, user) == balance_of(old(store).ledger@, user) + coins);
        assert(700 * reasons@.len() <= 700 * (length as int / 1800 + 2));
    }
    let granted = grant_rewards(store, user, &reasons, now_epoch);
    proof {
        assert(store.ledger@.take(old(store).ledger@.len() as int) =~= old(store).ledger@);
    }

    if alert {
        let next_video_reward: Option<u64> = if video_length > 0 {
            Some(remaining)
        } else {
            None
        };
        Some(
            SettlementResult {
                user,
                session_id,
                ended: now_epoch,
                length,
                video_length,
                breaks,
                next_video_reward,
                coins,
                streak: (streak_after, streak_before),
                leaderboard_place: match lb_place_after {
                    Some(after) => Some((after, lb_place_before)),
                    None => None,
                },
                rewards: granted,
            },
        )
    } else {
        None
    }
}

/// Requests one grant per triggered reason, in order, and logs each claim.
/// Every grant is a random reward in the documented ranges; coin grants are
/// credits against the user's balance and the only ledger writes made here.
#[verifier::rlimit(100)]
fn grant_rewards(
    store: &mut Store,
    user: u64,
    reasons: &Vec<RewardReason>,
    now_epoch: u64,
) -> (granted: Vec<(RewardReason, usize)>)
    requires
        old(store).wf(),
        balance_of(old(store).ledger@, user) + 700 * reasons@.len() <= i64::MAX,
        now_epoch + 191 * 3600 <= u64::MAX,
    ensures
        final(store).wf(),
        granted@.len() == reasons@.len(),
        final(store).rewards@.len() == old(store).rewards@.len() + reasons@.len(),
        final(store).rewards@.take(old(store).rewards@.len() as int) == old(store).rewards@,
        forall|t: int|
            old(store).rewards@.len() <= t < final(store).rewards@.len() ==> {
                let e = #[trigger] final(store).rewards@[t];
                &&& e.user == user
                &&& valid_random_reward(e.reward)
                &&& e.reason == reasons@[t - old(store).rewards@.len()]
            },
        forall|t: int|
            0 <= t < reasons@.len() ==> (#[trigger] granted@[t]).0 == reasons@[t] && granted@[t].1
                == old(store).rewards@.len() + t,
        final(store).ledger@.len() >= old(store).ledger@.len(),
        final(store).ledger@.take(old(store).ledger@.len() as int) == old(store).ledger@,
        forall|t: int|
            old(store).ledger@.len() <= t < final(store).ledger@.len() ==> (#[trigger] final(store).ledger@[t]).user == user && 100 <= final(store).ledger@[t].delta <= 700,
        balance_of(final(store).ledger@, user) <= balance_of(old(store).ledger@, user) + 700
            * reasons@.len(),
        final(store).boosters@.len() >= old(store).boosters@.len(),
        final(store).boosters@.take(old(store).boosters@.len() as int) == old(store).boosters@,
        forall|t: int|
            old(store).boosters@.len() <= t < final(store).boosters@.len() ==> {
                let b = #[trigger] final(store).boosters@[t];
                &&& b.user == user
                &&& 150 <= b.multiplier <= 240
                &&& now_epoch + 3600 <= b.expires <= now_epoch + 687600
            },
        final(store).sessions@ == old(store).sessions@,
        final(store).next_session_id == old(store).next_session_id,
        final(store).countdowns@ == old(store).countdowns@,
        final(store).optouts@ == old(store).optouts@,
        final(store).results_modes@ == old(store).results_modes@,
{
    let ghost base_rewards = store.rewards@;
    let ghost base_ledger = store.ledger@;
    let ghost base_boosters = store.boosters@;
    let mut granted: Vec<(RewardReason, usize)> = Vec::new();
    let mut gi: usize = 0;
    while gi < reasons.len()
        invariant
            gi <= reasons@.len(),
            store.wf(),
            granted@.len() == gi,
            base_rewards == old(store).rewards@,
            base_ledger == old(store).ledger@,
            base_boosters == old(store).boosters@,
            balance_of(base_ledger, user) + 700 * reasons@.len() <= i64::MAX,
            now_epoch + 191 * 3600 <= u64::MAX,
            store.rewards@.len() == base_rewards.len() + gi,
            store.rewards@.take(base_rewards.len() as int) == base_rewards,
            forall|t: int|
                base_rewards.len() <= t < store.rewards@.len() ==> {
                    let e = #[trigger] store.rewards@[t];
                    &&& e.user == user
                    &&& valid_random_reward(e.reward)
                    &&& e.reason == reasons@[t - base_rewards.len()]
                },
            forall|t: int|
                0 <= t < gi ==> (#[trigger] granted@[t]).0 == reasons@[t] && granted@[t].1
                    == base_rewards.len() + t,
            store.ledger@.len() >= base_ledger.len(),
            store.ledger@.take(base_ledger.len() as int) == base_ledger,
            forall|t: int|
                base_ledger.len() <= t < store.ledger@.len() ==> (#[trigger] store.ledger@[
                t]).user == user && 100 <= store.ledger@[t].delta <= 700,
            balance_of(store.ledger@, user) <= balance_of(base_ledger, user) + 700 * gi,
            store.boosters@.len() >= base_boosters.len(),
            store.boosters@.take(base_boosters.len() as int) == base_boosters,
            forall|t: int|
                base_boosters.len() <= t < store.boosters@.len() ==> {
                    let b = #[trigger] store.boosters@[t];
                    &&& b.user == user
                    &&& 150 <= b.multiplier <= 240
                    &&& now_epoch + 3600 <= b.expires <= now_epoch + 687600
                },
            store.sessions@ == old(store).sessions@,
            store.next_session_id == old(store).next_session_id,
            store.countdowns@ == old(store).countdowns@,
            store.optouts@ == old(store).optouts@,
            store.results_modes@ == old(store).results_modes@,
        decreases reasons@.len() - gi,
    {
        let reason = reasons[gi];
        let reward = Reward::random();
        proof {
            if let Reward::Coins(amount) = reward {
                assert(balance_of(store.ledger@, user) + amount <= i64::MAX);
            }
        }
        let ghost pre_claim_ledger = store.ledger@;
        let id = store.user_claim_reward(user, reward, reason, now_epoch);
        granted.push((reason, id));
        proof {
            assert(store.rewards@.take(base_rewards.len() as int) =~= base_rewards);
            match reward {
                Reward::Coins(amount) => {
                    crate::ledger::lemma_balance_push(
                        pre_claim_ledger,
                        CoinEntry { user, delta: amount as i64 },
                        user,
                    );
                    assert(store.ledger@.take(base_ledger.len() as int) =~= base_ledger);
                },
                Reward::Booster { multiplier, expiration } => {
                    assert(store.boosters@.take(base_boosters.len() as int) =~= base_boosters);
                },
                Reward::Role(_) => {},
            }
        }
        gi = gi + 1;
    }
    granted
}

} // verus!
