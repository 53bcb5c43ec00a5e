//! Streak derivation: the number of immediately consecutive calendar days,
//! walking backward from the most recent day with a qualifying session (one
//! longer than ten minutes), stopping at the first gap.

use vstd::prelude::*;
use crate::records::StudySessionRecord;

verus! {

/// A session qualifies for the streak iff it belongs to the user and ran
/// longer than ten minutes.
pub open spec fn qualifying(r: StudySessionRecord, user: u64) -> bool {
    r.user == user && r.length > 600
}

/// The calendar day (whole days since the epoch) a session ended on.
pub open spec fn day_of(ended: u64) -> u64 {
    ended / 86400
}

/// Strictly descending: distinct days, most recent first.
pub open spec fn desc_distinct(days: Seq<u64>) -> bool {
    forall|i: int, j: int| 0 <= i < j < days.len() ==> days[i] > days[j]
}

/// The streak over distinct days in descending order: the length of the run
/// of consecutive days starting at the most recent one; zero days give a
/// zero streak, and the first gap stops the walk.
pub open spec fn streak_run(days: Seq<u64>) -> nat
    decreases days.len(),
{
    if days.len() == 0 {
        0
    } else if days.len() == 1 {
        1
    } else if days[1] == days[0] - 1 {
        1 + streak_run(days.skip(1))
    } else {
        1
    }
}

/// The streak never exceeds the number of days it walks.
pub proof fn lemma_streak_run_le_len(days: Seq<u64>)
    ensures
        streak_run(days) <= days.len(),
    decreases days.len(),
{
    if days.len() > 1 {
        lemma_streak_run_le_len(days.skip(1));
    }
}

/// The user has a qualifying session ending on day `d`.
pub open spec fn has_qualifying_on_day(
    sessions: Seq<StudySessionRecord>,
    user: u64,
    d: u64,
) -> bool {
    exists|i: int|
        0 <= i < sessions.len() && qualifying(#[trigger] sessions[i], user) && day_of(
            sessions[i].ended,
        ) == d
}

/// Same, restricted to the first `n` records.
pub open spec fn has_qualifying_on_day_prefix(
    sessions: Seq<StudySessionRecord>,
    user: u64,
    d: u64,
    n: int,
) -> bool {
    exists|i: int|
        0 <= i < n <= sessions.len() && qualifying(#[trigger] sessions[i], user) && day_of(
            sessions[i].ended,
        ) == d
}

/// Two descending distinct day lists with the same members are one list.
pub proof fn lemma_desc_days_unique(a: Seq<u64>, b: Seq<u64>)
    requires
        desc_distinct(a),
        desc_distinct(b),
        forall|x: u64| a.contains(x) <==> b.contains(x),
    ensures
        a == b,
    decreases a.len(),
{
    if a.len() == 0 {
        if b.len() > 0 {
            assert(b.contains(b[0]));
            assert(a.contains(b[0]));
        }
        assert(a =~= b);
    } else {
        assert(a.contains(a[0]));
        assert(b.contains(a[0]));
        let j = choose|j: int| 0 <= j < b.len() && b[j] == a[0];
        assert(b[0] >= a[0]);
        assert(b.contains(b[0]));
        assert(a.contains(b[0]));
        let k = choose|k: int| 0 <= k < a.len() && a[k] == b[0];
        assert(a[0] >= b[0]);
        assert(a[0] == b[0]);
        let at = a.skip(1);
        let bt = b.skip(1);
        assert forall|x: u64| at.contains(x) <==> bt.contains(x) by {
            if at.contains(x) {
                let i = choose|i: int| 0 <= i < at.len() && at[i] == x;
                assert(a[i + 1] == x);
                assert(a.contains(x));
                assert(x < a[0]);
                assert(b.contains(x));
                let m = choose|m: int| 0 <= m < b.len() && b[m] == x;
                assert(m != 0);
                assert(bt[m - 1] == x);
                assert(bt.contains(x));
            }
            if bt.contains(x) {
                let i = choose|i: int| 0 <= i < bt.len() && bt[i] == x;
                assert(b[i + 1] == x);
                assert(b.contains(x));
                assert(x < b[0]);
                assert(a.contains(x));
                let m = choose|m: int| 0 <= m < a.len() && a[m] == x;
                assert(m != 0);
                assert(at[m - 1] == x);
                assert(at.contains(x));
            }
        }
        lemma_desc_days_unique(at, bt);
        assert forall|k: int| 0 <= k < a.len() implies a[k] == b[k] by {
            if k > 0 {
                assert(at[k - 1] == a[k]);
                assert(bt[k - 1] == b[k]);
            }
        }
        assert(a =~= b);
    }
}

/// Law: the streak is a function of the qualifying-day history alone, so
/// recomputing it over unchanged history always gives the same count.
pub proof fn lemma_streak_idempotent(a: Seq<u64>, b: Seq<u64>)
    requires
        desc_distinct(a),
        desc_distinct(b),
        forall|x: u64| a.contains(x) <==> b.contains(x),
    ensures
        streak_run(a) == streak_run(b),
{
    lemma_desc_days_unique(a, b);
}

/// Inserts a day into a descending distinct list, keeping it one.
fn insert_desc(days: &mut Vec<u64>, d: u64)
    requires
        desc_distinct(old(days)@),
    ensures
        desc_distinct(final(days)@),
        forall|x: u64| final(days)@.contains(x) <==> (old(days)@.contains(x) || x == d),
        final(days)@.len() <= old(days)@.len() + 1,
{
    let mut i: usize = 0;
    while i < days.len() && days[i] > d
        invariant
            i <= days@.len(),
            days@ == old(days)@,
            desc_distinct(days@),
            forall|j: int| 0 <= j < i ==> days@[j] > d,
        decreases days@.len() - i,
    {
        i = i + 1;
    }
    if i < days.len() && days[i] == d {
        proof {
            assert(days@.contains(d));
        }
        return ;
    }
    proof {
        assert forall|j: int| i <= j < days@.len() implies days@[j] < d by {
            assert(days@[i as int] <= d);
            assert(days@[i as int] != d);
            if j > i {
                assert(days@[j] < days@[i as int]);
            }
        }
    }
    days.insert(i, d);
    proof {
        let newv = days@;
        let oldv = old(days)@;
        assert forall|x: u64| newv.contains(x) <==> (oldv.contains(x) || x == d) by {
            if newv.contains(x) {
                let k = choose|k: int| 0 <= k < newv.len() && newv[k] == x;
                if k < i {
                    assert(oldv[k] == x);
                    assert(oldv.contains(x));
                } else if k == i {
                    assert(x == d);
                } else {
                    assert(oldv[k - 1] == x);
                    assert(oldv.contains(x));
                }
            }
            if oldv.contains(x) {
                let k = choose|k: int| 0 <= k < oldv.len() && oldv[k] == x;
                if k < i {
                    assert(newv[k] == x);
                } else {
                    assert(newv[k + 1] == x);
                }
                assert(newv.contains(x));
            }
            if x == d {
                assert(newv[i as int] == x);
                assert(newv.contains(x));
            }
        }
        assert forall|p: int, q: int| 0 <= p < q < newv.len() implies newv[p] > newv[q] by {
            if q < i {
                assert(newv[p] == oldv[p] && newv[q] == oldv[q]);
            } else if p > i {
                assert(newv[p] == oldv[p - 1] && newv[q] == oldv[q - 1]);
            } else if p == i {
                assert(newv[p] == d && newv[q] == oldv[q - 1]);
            } else if q == i {
                assert(newv[p] == oldv[p] && newv[q] == d);
            } else {
                assert(p < i < q);
                assert(newv[p] == oldv[p] && newv[q] == oldv[q - 1]);
                assert(oldv[p] > d && d > oldv[q - 1]);
            }
        }
    }
}

/// The user's distinct qualifying days, most recent first.
pub fn qualifying_days_desc(sessions: &Vec<StudySessionRecord>, user: u64) -> (days: Vec<u64>)
    ensures
        desc_distinct(days@),
        forall|d: u64| days@.contains(d) <==> has_qualifying_on_day(sessions@, user, d),
        days@.len() <= sessions@.len(),
{
    let mut days: Vec<u64> = Vec::new();
    let mut i: usize = 0;
    while i < sessions.len()
        invariant
            i <= sessions@.len(),
            desc_distinct(days@),
            days@.len() <= i,
            forall|d: u64|
                days@.contains(d) <==> has_qualifying_on_day_prefix(
                    sessions@,
                    user,
                    d,
                    i as int,
                ),
        decreases sessions@.len() - i,
    {
        let r = sessions[i];
        if r.user == user && r.length > 600 {
            insert_desc(&mut days, r.ended / 86400);
        }
        proof {
            assert forall|d: u64|
                days@.contains(d) <==> has_qualifying_on_day_prefix(
                    sessions@,
                    user,
                    d,
                    i + 1,
                ) by {
                if has_qualifying_on_day_prefix(sessions@, user, d, i + 1) {
                    let k = choose|k: int|
                        0 <= k < i + 1 && qualifying(#[trigger] sessions@[k], user) && day_of(
                            sessions@[k].ended,
                        ) == d;
                    if k < i {
                        assert(has_qualifying_on_day_prefix(sessions@, user, d, i as int));
                    } else {
                        assert(sessions@[i as int] == r);
                        assert(qualifying(r, user));
                        assert(d == day_of(r.ended));
                    }
                }
                if days@.contains(d) {
                    if qualifying(r, user) && d == day_of(r.ended) {
                        assert(qualifying(sessions@[i as int], user));
                        assert(has_qualifying_on_day_prefix(sessions@, user, d, i + 1));
                    } else {
                        assert(has_qualifying_on_day_prefix(sessions@, user, d, i as int));
                        let k = choose|k: int|
                            0 <= k < i && qualifying(#[trigger] sessions@[k], user) && day_of(
                                sessions@[k].ended,
                            ) == d;
                        assert(has_qualifying_on_day_prefix(sessions@, user, d, i + 1));
                    }
                }
            }
        }
        i = i + 1;
    }
    days
}

/// The streak of a descending distinct day list, walked executably.
pub fn streak_from_days(days: &Vec<u64>) -> (r: u16)
    requires
        days@.len() <= u16::MAX,
    ensures
        r == streak_run(days@),
{
    proof {
        lemma_streak_run_le_len(days@);
        assert(days@.skip(0) =~= days@);
    }
    streak_run_from(days, 0)
}

fn streak_run_from(days: &Vec<u64>, i: usize) -> (r: u16)
    requires
        i <= days@.len(),
        days@.len() - i <= u16::MAX,
    ensures
        r == streak_run(days@.skip(i as int)),
    decreases days@.len() - i,
{
    proof {
        lemma_streak_run_le_len(days@.skip(i as int));
    }
    if i >= days.len() {
        0
    } else if i + 1 >= days.len() {
        1
    } else if days[i] >= 1 && days[i + 1] == days[i] - 1 {
        proof {
            assert(days@.skip(i as int).skip(1) =~= days@.skip(i + 1));
            lemma_streak_run_le_len(days@.skip(i + 1));
        }
        1 + streak_run_from(days, i + 1)
    } else {
        1
    }
}


/// The run of consecutive qualifying days walking downward from day `d`.
pub open spec fn days_run_down(sessions: Seq<StudySessionRecord>, user: u64, d: u64) -> nat
    decreases d,
{
    if has_qualifying_on_day(sessions, user, d) {
        if d == 0 {
            1
        } else {
            1 + days_run_down(sessions, user, (d - 1) as u64)
        }
    } else {
        0
    }
}

/// The most recent qualifying day; meaningful only when one exists.
pub open spec fn max_qualifying_day(sessions: Seq<StudySessionRecord>, user: u64) -> u64 {
    choose|d: u64|
        has_qualifying_on_day(sessions, user, d) && forall|e: u64|
            has_qualifying_on_day(sessions, user, e) ==> e <= d
}

/// The streak as a function of the history: zero without a qualifying day,
/// else the consecutive run walking downward from the most recent one.
pub open spec fn streak_spec(sessions: Seq<StudySessionRecord>, user: u64) -> nat {
    if exists|d: u64| has_qualifying_on_day(sessions, user, d) {
        days_run_down(sessions, user, max_qualifying_day(sessions, user))
    } else {
        0
    }
}

/// The same run, walked over a day list instead of the history.
pub open spec fn seq_run_down(days: Seq<u64>, d: u64) -> nat
    decreases d,
{
    if days.contains(d) {
        if d == 0 {
            1
        } else {
            1 + seq_run_down(days, (d - 1) as u64)
        }
    } else {
        0
    }
}

proof fn lemma_run_down_eq(
    days: Seq<u64>,
    sessions: Seq<StudySessionRecord>,
    user: u64,
    x: u64,
)
    requires
        forall|d: u64| days.contains(d) <==> has_qualifying_on_day(sessions, user, d),
    ensures
        seq_run_down(days, x) == days_run_down(sessions, user, x),
    decreases x,
{
    if days.contains(x) && x > 0 {
        lemma_run_down_eq(days, sessions, user, (x - 1) as u64);
    }
}

proof fn lemma_seq_run_down_skip(days: Seq<u64>, x: u64)
    requires
        desc_distinct(days),
        days.len() >= 1,
        x < days[0],
    ensures
        seq_run_down(days, x) == seq_run_down(days.skip(1), x),
    decreases x,
{
    let tail = days.skip(1);
    assert(days.contains(x) <==> tail.contains(x)) by {
        if days.contains(x) {
            let k = choose|k: int| 0 <= k < days.len() && days[k] == x;
            assert(k != 0);
            assert(tail[k - 1] == x);
            assert(tail.contains(x));
        }
        if tail.contains(x) {
            let k = choose|k: int| 0 <= k < tail.len() && tail[k] == x;
            assert(days[k + 1] == x);
            assert(days.contains(x));
        }
    }
    if days.contains(x) && x > 0 {
        lemma_seq_run_down_skip(days, (x - 1) as u64);
    }
}

proof fn lemma_streak_run_seq(days: Seq<u64>)
    requires
        desc_distinct(days),
        days.len() > 0,
    ensures
        streak_run(days) == seq_run_down(days, days[0]),
    decreases days.len(),
{
    let d0 = days[0];
    assert(days.contains(d0));
    if days.len() == 1 {
        if d0 > 0 {
            assert(!days.contains((d0 - 1) as u64)) by {
                if days.contains((d0 - 1) as u64) {
                    let k = choose|k: int| 0 <= k < days.len() && days[k] == (d0 - 1) as u64;
                }
            }
            assert(seq_run_down(days, (d0 - 1) as u64) == 0);
            assert(seq_run_down(days, d0) == 1);
        }
    } else if days[1] == d0 - 1 {
        let tail = days.skip(1);
        assert(tail[0] == days[1]);
        assert forall|i: int, j: int| 0 <= i < j < tail.len() implies tail[i] > tail[j] by {
            assert(tail[i] == days[i + 1] && tail[j] == days[j + 1]);
        }
        lemma_streak_run_seq(tail);
        lemma_seq_run_down_skip(days, days[1]);
        assert(seq_run_down(days, d0) == 1 + seq_run_down(days, (d0 - 1) as u64));
    } else {
        if d0 > 0 {
            assert(!days.contains((d0 - 1) as u64)) by {
                if days.contains((d0 - 1) as u64) {
                    let k = choose|k: int| 0 <= k < days.len() && days[k] == (d0 - 1) as u64;
                    assert(k != 0);
                    if k > 1 {
                        assert(days[k] < days[1]);
                    }
                    assert(days[1] < d0);
                }
            }
            assert(seq_run_down(days, (d0 - 1) as u64) == 0);
            assert(seq_run_down(days, d0) == 1);
        }
    }
}

/// The user's current streak, derived from the session history.
pub fn user_streak(sessions: &Vec<StudySessionRecord>, user: u64) -> (r: u16)
    requires
        sessions@.len() <= u16::MAX,
    ensures
        r == streak_spec(sessions@, user),
{
    let days = qualifying_days_desc(sessions, user);
    let r = streak_from_days(&days);
    proof {
        if days@.len() == 0 {
            if exists|d: u64| has_qualifying_on_day(sessions@, user, d) {
                let d = choose|d: u64| has_qualifying_on_day(sessions@, user, d);
                assert(days@.contains(d));
            }
        } else {
            let d0 = days@[0];
            assert(days@.contains(d0));
            assert(has_qualifying_on_day(sessions@, user, d0));
            assert forall|e: u64| has_qualifying_on_day(sessions@, user, e) implies e <= d0 by {
                assert(days@.contains(e));
                let k = choose|k: int| 0 <= k < days@.len() && days@[k] == e;
                if k > 0 {
                    assert(days@[k] < days@[0]);
                }
            }
            assert(exists|d: u64|
                has_qualifying_on_day(sessions@, user, d) && forall|e: u64|
                    has_qualifying_on_day(sessions@, user, e) ==> e <= d);
            let m = max_qualifying_day(sessions@, user);
            assert(has_qualifying_on_day(sessions@, user, m) && forall|e: u64|
                has_qualifying_on_day(sessions@, user, e) ==> e <= m);
            assert(m == d0);
            lemma_streak_run_seq(days@);
            lemma_run_down_eq(days@, sessions@, user, d0);
        }
    }
    r
}

} // verus!
