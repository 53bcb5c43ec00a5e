//! The video-minute reward countdown. Settlement deposits a session's video
//! time against the user's remaining countdown: every fully consumed
//! countdown cycle triggers one reward and draws a fresh countdown; the final
//! remainder is subtracted from the last drawn value.

use vstd::prelude::*;
use crate::random::{random_video_reward_time, valid_countdown};

verus! {

/// Running a deposit against a countdown, given the list of fresh draws the
/// loop would consume: the number of rewards triggered and the remaining
/// countdown, or nothing if the draw list runs out.
pub open spec fn settle_spec(countdown: int, deposit: int, draws: Seq<u64>) -> Option<(int, int)>
    decreases draws.len(),
{
    if deposit < countdown {
        Some((0int, countdown - deposit))
    } else if draws.len() == 0 {
        None
    } else {
        bump(settle_spec(draws[0] as int, deposit - countdown, draws.skip(1)), 1)
    }
}

/// Adds `n` already-triggered rewards onto a settle outcome.
pub open spec fn bump(r: Option<(int, int)>, n: int) -> Option<(int, int)> {
    match r {
        Some(p) => Some((p.0 + n, p.1)),
        None => None,
    }
}

/// The sum of the first `k` draws.
pub open spec fn draws_sum(draws: Seq<u64>, k: int) -> int
    decreases k,
{
    if k <= 0 {
        0
    } else {
        draws_sum(draws, k - 1) + draws[k - 1]
    }
}

proof fn lemma_draws_sum_skip(draws: Seq<u64>, k: int)
    requires
        draws.len() >= 1,
        0 <= k < draws.len(),
    ensures
        draws_sum(draws, k + 1) == draws[0] + draws_sum(draws.skip(1), k),
    decreases k,
{
    if k == 0 {
        assert(draws_sum(draws, 0) == 0);
        assert(draws_sum(draws.skip(1), 0) == 0);
        assert(draws_sum(draws, 1) == draws_sum(draws, 0) + draws[0]);
    } else {
        lemma_draws_sum_skip(draws, k - 1);
        assert(draws.skip(1)[k - 1] == draws[k]);
        assert(draws_sum(draws, k + 1) == draws_sum(draws, k) + draws[k]);
        assert(draws_sum(draws.skip(1), k) == draws_sum(draws.skip(1), k - 1) + draws.skip(1)[k
            - 1]);
    }
}

/// Law: a settled deposit triggers exactly one reward per fully consumed
/// countdown cycle — the current countdown first, then one fresh draw per
/// further cycle — and leaves the correct remainder of the last draw, which
/// is always positive.
pub proof fn lemma_settle_cycles(c: int, d: int, draws: Seq<u64>, n: int, f: int)
    requires
        c >= 1,
        d >= 0,
        forall|j: int| 0 <= j < draws.len() ==> #[trigger] draws[j] >= 1,
        settle_spec(c, d, draws) == Some((n, f)),
    ensures
        0 <= n <= draws.len(),
        n == 0 ==> d < c && f == c - d,
        n >= 1 ==> c + draws_sum(draws, n - 1) <= d < c + draws_sum(draws, n) && f == draws[n - 1]
            + (c + draws_sum(draws, n - 1)) - d,
        f >= 1,
    decreases draws.len(),
{
    if d < c {
    } else {
        let tail = draws.skip(1);
        assert(forall|j: int| 0 <= j < tail.len() ==> #[trigger] tail[j] >= 1) by {
            assert forall|j: int| 0 <= j < tail.len() implies #[trigger] tail[j] >= 1 by {
                assert(tail[j] == draws[j + 1]);
            }
        }
        let inner = settle_spec(draws[0] as int, d - c, tail);
        assert(inner == Some((n - 1, f)));
        lemma_settle_cycles(draws[0] as int, d - c, tail, n - 1, f);
        if n - 1 == 0 {
            assert(draws_sum(draws, 0) == 0);
            assert(draws_sum(draws, 1) == draws[0]);
        } else {
            lemma_draws_sum_skip(draws, n - 2);
            lemma_draws_sum_skip(draws, n - 1);
            assert(tail[n - 2] == draws[n - 1]);
        }
    }
}

/// Law: a deposit exactly equal to the countdown triggers exactly one reward
/// and resets the countdown to the freshly drawn value.
pub proof fn lemma_deposit_equal_resets(c: u64, draws: Seq<u64>)
    requires
        c >= 1,
        draws.len() >= 1,
        forall|j: int| 0 <= j < draws.len() ==> #[trigger] draws[j] >= 1,
    ensures
        settle_spec(c as int, c as int, draws) == Some((1int, draws[0] as int)),
{
    assert(settle_spec(draws[0] as int, 0, draws.skip(1)) == Some((0int, draws[0] as int)));
}

/// Runs a deposit against a countdown with an explicit list of fresh draws —
/// the reproducible form of the settlement loop. Returns the rewards
/// triggered and the remaining countdown, or nothing if the draws run out.
pub fn settle_video_deposit(countdown: u64, deposit: u64, draws: &Vec<u64>) -> (r: Option<
    (u64, u64),
>)
    requires
        countdown >= 1,
        forall|j: int| 0 <= j < draws@.len() ==> #[trigger] draws@[j] >= 1,
    ensures
        match r {
            Some(p) => settle_spec(countdown as int, deposit as int, draws@) == Some(
                (p.0 as int, p.1 as int),
            ),
            None => settle_spec(countdown as int, deposit as int, draws@) is None,
        },
{
    proof {
        assert(draws@.skip(0) =~= draws@);
    }
    let mut c = countdown;
    let mut d = deposit;
    let mut n: u64 = 0;
    let mut i: usize = 0;
    while d >= c
        invariant
            c >= 1,
            n == i,
            i <= draws@.len(),
            forall|j: int| 0 <= j < draws@.len() ==> #[trigger] draws@[j] >= 1,
            settle_spec(countdown as int, deposit as int, draws@) == bump(
                settle_spec(c as int, d as int, draws@.skip(i as int)),
                n as int,
            ),
        decreases d,
    {
        if i >= draws.len() {
            proof {
                assert(draws@.skip(i as int) =~= Seq::<u64>::empty());
            }
            return None;
        }
        let fresh = draws[i];
        proof {
            assert(draws@.skip(i as int)[0] == draws@[i as int]);
            assert(draws@.skip(i as int).skip(1) =~= draws@.skip(i + 1));
        }
        n = n + 1;
        d = d - c;
        c = fresh;
        i = i + 1;
    }
    proof {
        assert(settle_spec(c as int, d as int, draws@.skip(i as int)) == Some((0int, c - d)));
    }
    Some((n, c - d))
}

/// Deposits a session's video time against a countdown, drawing fresh
/// countdowns as cycles are consumed. Returns the number of video rewards
/// triggered and the remaining countdown, which is consistent with the
/// settle relation for the sequence of values actually drawn — every draw a
/// well-formed countdown.
pub fn settle_video(countdown: u64, deposit: u64) -> (r: (u64, u64))
    requires
        countdown >= 1,
    ensures
        exists|draws: Seq<u64>|
            (forall|j: int| 0 <= j < draws.len() ==> valid_countdown(#[trigger] draws[j]))
                && settle_spec(countdown as int, deposit as int, draws) == Some(
                (r.0 as int, r.1 as int),
            ) && draws.len() == r.0,
        1 <= r.1 <= if countdown > 19800 {
            countdown as int
        } else {
            19800int
        },
        deposit < countdown ==> r.0 == 0 && r.1 == countdown - deposit,
        r.0 >= 1 ==> 1800 * (r.0 - 1) < deposit,
{
    let mut c = countdown;
    let mut d = deposit;
    let mut n: u64 = 0;
    let ghost mut draws: Seq<u64> = Seq::empty();
    while d >= c
        invariant
            c >= 1,
            n == draws.len(),
            d <= deposit,
            n <= deposit - d,
            n >= 1 ==> deposit - d > 1800 * (n - 1),
            forall|j: int| 0 <= j < draws.len() ==> valid_countdown(#[trigger] draws[j]),
            n >= 1 ==> valid_countdown(c),
            n == 0 ==> c == countdown && d == deposit,
            forall|rest: Seq<u64>|
                settle_spec(countdown as int, deposit as int, #[trigger] (draws + rest)) == bump(
                    settle_spec(c as int, d as int, rest),
                    n as int,
                ),
        decreases d,
    {
        let fresh = random_video_reward_time();
        proof {
            let draws2 = draws.push(fresh);
            assert forall|rest: Seq<u64>|
                settle_spec(countdown as int, deposit as int, #[trigger] (draws2 + rest)) == bump(
                    settle_spec(fresh as int, d - c, rest),
                    n + 1,
                ) by {
                let mid = seq![fresh] + rest;
                assert(draws2 + rest =~= draws + mid);
                assert(settle_spec(countdown as int, deposit as int, draws + mid) == bump(
                    settle_spec(c as int, d as int, mid),
                    n as int,
                ));
                assert(mid[0] == fresh);
                assert(mid.skip(1) =~= rest);
                assert(settle_spec(c as int, d as int, mid) == bump(
                    settle_spec(fresh as int, d - c, rest),
                    1,
                ));
            }
            draws = draws2;
        }
        n = n + 1;
        d = d - c;
        c = fresh;
    }
    proof {
        assert(draws + Seq::<u64>::empty() =~= draws);
        assert(settle_spec(countdown as int, deposit as int, draws) == bump(
            settle_spec(c as int, d as int, Seq::<u64>::empty()),
            n as int,
        ));
        assert(settle_spec(c as int, d as int, Seq::<u64>::empty()) == Some((0int, c - d)));
        if n == 0 {
            assert(c - d <= countdown);
        } else {
            assert(valid_countdown(c));
            assert(c - d <= 19800);
        }
    }
    (n, c - d)
}

} // verus!
