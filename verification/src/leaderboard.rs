//! Monthly leaderboard derivation: per-user sums of session lengths inside a
//! window, ranks over those sums, and the monthly reward tiers.
//!
//! Ranks assign distinct sequential places even to equal sums; which of two
//! equal sums comes first is deliberately not promised, beyond every rank
//! being consistent with the sums.

use vstd::prelude::*;
use crate::records::StudySessionRecord;
use crate::rewards::Reward;
use crate::contains_u64;

verus! {

/// A record counts toward the window iff it ended after the window start.
pub open spec fn in_window(r: StudySessionRecord, window_start: u64) -> bool {
    r.ended > window_start
}

/// The total length of all records, windowed or not.
pub open spec fn total_len(s: Seq<StudySessionRecord>) -> int
    decreases s.len(),
{
    if s.len() == 0 {
        0
    } else {
        total_len(s.drop_last()) + s.last().length
    }
}

/// The user's studied seconds inside the window.
pub open spec fn window_sum(s: Seq<StudySessionRecord>, user: u64, window_start: u64) -> int
    decreases s.len(),
{
    if s.len() == 0 {
        0
    } else {
        window_sum(s.drop_last(), user, window_start) + if s.last().user == user && in_window(
            s.last(),
            window_start,
        ) {
            s.last().length as int
        } else {
            0int
        }
    }
}

pub proof fn lemma_window_sum_bounds(s: Seq<StudySessionRecord>, user: u64, window_start: u64)
    ensures
        0 <= window_sum(s, user, window_start) <= total_len(s),
    decreases s.len(),
{
    if s.len() > 0 {
        lemma_window_sum_bounds(s.drop_last(), user, window_start);
    }
}

pub proof fn lemma_total_len_push(s: Seq<StudySessionRecord>, r: StudySessionRecord)
    ensures
        total_len(s.push(r)) == total_len(s) + r.length,
{
    assert(s.push(r).drop_last() =~= s);
}

pub proof fn lemma_total_len_update(s: Seq<StudySessionRecord>, i: int, r: StudySessionRecord)
    requires
        0 <= i < s.len(),
    ensures
        total_len(s.update(i, r)) == total_len(s) - s[i].length + r.length,
    decreases s.len(),
{
    let t = s.update(i, r);
    if i == s.len() - 1 {
        assert(t.drop_last() =~= s.drop_last());
        assert(t.last() == r);
    } else {
        assert(t.drop_last() =~= s.drop_last().update(i, r));
        assert(t.last() == s.last());
        lemma_total_len_update(s.drop_last(), i, r);
    }
}

pub proof fn lemma_total_len_remove(s: Seq<StudySessionRecord>, i: int)
    requires
        0 <= i < s.len(),
    ensures
        total_len(s.remove(i)) == total_len(s) - s[i].length,
    decreases s.len(),
{
    let t = s.remove(i);
    if i == s.len() - 1 {
        assert(t =~= s.drop_last());
    } else {
        assert(t.drop_last() =~= s.drop_last().remove(i));
        assert(t.last() == s.last());
        lemma_total_len_remove(s.drop_last(), i);
    }
}

proof fn lemma_total_len_take_le(s: Seq<StudySessionRecord>, i: int)
    requires
        0 <= i <= s.len(),
    ensures
        total_len(s.take(i)) <= total_len(s),
        0 <= total_len(s.take(i)),
    decreases s.len() - i,
{
    lemma_window_sum_bounds(s.take(i), 0, 0);
    if i == s.len() {
        assert(s.take(i) =~= s);
    } else {
        assert(s.take(i + 1).drop_last() =~= s.take(i));
        assert(s.take(i + 1).last() == s[i]);
        lemma_total_len_take_le(s, i + 1);
    }
}

/// The user has at least one session inside the window.
pub open spec fn has_window_session(s: Seq<StudySessionRecord>, window_start: u64, u: u64) -> bool {
    exists|i: int|
        0 <= i < s.len() && (#[trigger] s[i]).user == u && in_window(s[i], window_start)
}

/// The user is ranked at all: has a window session and is not opted out.
pub open spec fn participant(
    s: Seq<StudySessionRecord>,
    optouts: Seq<u64>,
    window_start: u64,
    u: u64,
) -> bool {
    !optouts.contains(u) && has_window_session(s, window_start, u)
}

/// Index `i` holds its user's first in-window record.
pub open spec fn first_window_occurrence(
    s: Seq<StudySessionRecord>,
    window_start: u64,
    i: int,
) -> bool {
    &&& 0 <= i < s.len()
    &&& in_window(s[i], window_start)
    &&& forall|j: int|
        0 <= j < i ==> !((#[trigger] s[j]).user == s[i].user && in_window(s[j], window_start))
}

/// `v` is ranked above `u`: a strictly larger window sum, or an equal sum
/// broken by the smaller id.
pub open spec fn outranks(
    s: Seq<StudySessionRecord>,
    window_start: u64,
    v: u64,
    u: u64,
) -> bool {
    ||| window_sum(s, v, window_start) > window_sum(s, u, window_start)
    ||| (window_sum(s, v, window_start) == window_sum(s, u, window_start) && v < u)
}

/// How many distinct ranked users outrank `u`, counted over the first `n`
/// records (one count per user, at their first in-window record).
pub open spec fn count_outranking(
    s: Seq<StudySessionRecord>,
    optouts: Seq<u64>,
    window_start: u64,
    u: u64,
    n: int,
) -> int
    decreases n,
{
    if n <= 0 {
        0
    } else {
        count_outranking(s, optouts, window_start, u, n - 1) + if first_window_occurrence(
            s,
            window_start,
            n - 1,
        ) && !optouts.contains(s[n - 1].user) && outranks(s, window_start, s[n - 1].user, u) {
            1int
        } else {
            0int
        }
    }
}

/// The user's 1-based monthly rank: none when opted out or without a window
/// session, else one more than the number of users ranked above.
pub open spec fn place_spec(
    s: Seq<StudySessionRecord>,
    optouts: Seq<u64>,
    window_start: u64,
    u: u64,
) -> Option<int> {
    if participant(s, optouts, window_start, u) {
        Some(1 + count_outranking(s, optouts, window_start, u, s.len() as int))
    } else {
        None
    }
}

/// The user's studied seconds inside the window, computed over the history.
pub fn window_sum_exec(sessions: &Vec<StudySessionRecord>, user: u64, window_start: u64) -> (sum:
    u64)
    requires
        total_len(sessions@) <= u64::MAX,
    ensures
        sum == window_sum(sessions@, user, window_start),
{
    let mut sum: u64 = 0;
    let mut i: usize = 0;
    while i < sessions.len()
        invariant
            i <= sessions@.len(),
            total_len(sessions@) <= u64::MAX,
            sum == window_sum(sessions@.take(i as int), user, window_start),
        decreases sessions@.len() - i,
    {
        let r = sessions[i];
        proof {
            assert(sessions@.take(i + 1).drop_last() =~= sessions@.take(i as int));
            assert(sessions@.take(i + 1).last() == sessions@[i as int]);
            lemma_window_sum_bounds(sessions@.take(i + 1), user, window_start);
            lemma_total_len_take_le(sessions@, i + 1);
        }
        if r.user == user && r.ended > window_start {
            sum = sum + r.length;
        }
        i = i + 1;
    }
    proof {
        assert(sessions@.take(sessions@.len() as int) =~= sessions@);
    }
    sum
}

/// Whether index `i` holds its user's first in-window record.
fn is_first_window_occurrence(
    sessions: &Vec<StudySessionRecord>,
    window_start: u64,
    i: usize,
) -> (r: bool)
    requires
        i < sessions@.len(),
    ensures
        r == first_window_occurrence(sessions@, window_start, i as int),
{
    let rec = sessions[i];
    if rec.ended <= window_start {
        return false;
    }
    let mut j: usize = 0;
    while j < i
        invariant
            j <= i < sessions@.len(),
            in_window(sessions@[i as int], window_start),
            rec == sessions@[i as int],
            forall|k: int|
                0 <= k < j ==> !((#[trigger] sessions@[k]).user == sessions@[i as int].user
                    && in_window(sessions@[k], window_start)),
        decreases i - j,
    {
        let e = sessions[j];
        if e.user == rec.user && e.ended > window_start {
            return false;
        }
        j = j + 1;
    }
    true
}

/// The user's current monthly rank over the given window: 1-based, derived
/// from per-user window sums; equal sums get distinct sequential ranks.
pub fn user_place(
    sessions: &Vec<StudySessionRecord>,
    optouts: &Vec<u64>,
    window_start: u64,
    user: u64,
) -> (r: Option<u16>)
    requires
        total_len(sessions@) <= u64::MAX,
        sessions@.len() < u16::MAX,
    ensures
        match r {
            Some(p) => place_spec(sessions@, optouts@, window_start, user) == Some(p as int),
            None => place_spec(sessions@, optouts@, window_start, user) is None,
        },
{
    if contains_u64(optouts, user) {
        return None;
    }
    let mut found: bool = false;
    let mut i: usize = 0;
    while i < sessions.len()
        invariant
            i <= sessions@.len(),
            found == exists|k: int|
                0 <= k < i && (#[trigger] sessions@[k]).user == user && in_window(
                    sessions@[k],
                    window_start,
                ),
        decreases sessions@.len() - i,
    {
        let rec = sessions[i];
        if rec.user == user && rec.ended > window_start {
            found = true;
        }
        i = i + 1;
    }
    if !found {
        return None;
    }
    let my_sum = window_sum_exec(sessions, user, window_start);
    let mut count: usize = 0;
    let mut i: usize = 0;
    while i < sessions.len()
        invariant
            i <= sessions@.len(),
            count <= i,
            total_len(sessions@) <= u64::MAX,
            my_sum == window_sum(sessions@, user, window_start),
            count == count_outranking(sessions@, optouts@, window_start, user, i as int),
        decreases sessions@.len() - i,
    {
        let rec = sessions[i];
        if is_first_window_occurrence(sessions, window_start, i) && !contains_u64(
            optouts,
            rec.user,
        ) {
            let their_sum = window_sum_exec(sessions, rec.user, window_start);
            if their_sum > my_sum || (their_sum == my_sum && rec.user < user) {
                count = count + 1;
            }
        }
        i = i + 1;
    }
    Some((count + 1) as u16)
}

/// Sorted by window sum, largest first.
pub open spec fn sorted_desc_by_sum(v: Seq<(u64, u64)>) -> bool {
    forall|i: int, j: int| 0 <= i < j < v.len() ==> (#[trigger] v[i]).1 >= (#[trigger] v[j]).1
}

/// No user appears twice.
pub open spec fn distinct_users(v: Seq<(u64, u64)>) -> bool {
    forall|i: int, j: int| 0 <= i < j < v.len() ==> (#[trigger] v[i]).0 != (#[trigger] v[j]).0
}

/// The board lists the user somewhere.
pub open spec fn lists_user(v: Seq<(u64, u64)>, u: u64) -> bool {
    exists|k: int| 0 <= k < v.len() && (#[trigger] v[k]).0 == u
}

/// How many ranked users the first `n` records introduce (one per user, at
/// their first in-window record, skipping opted-out users).
pub open spec fn count_participants(
    s: Seq<StudySessionRecord>,
    optouts: Seq<u64>,
    window_start: u64,
    n: int,
) -> int
    decreases n,
{
    if n <= 0 {
        0
    } else {
        count_participants(s, optouts, window_start, n - 1) + if first_window_occurrence(
            s,
            window_start,
            n - 1,
        ) && !optouts.contains(s[n - 1].user) {
            1int
        } else {
            0int
        }
    }
}

/// Inserts a (user, sum) pair into a sum-sorted board, keeping it sorted.
fn insert_pair_desc(board: &mut Vec<(u64, u64)>, p: (u64, u64))
    requires
        sorted_desc_by_sum(old(board)@),
        distinct_users(old(board)@),
        !lists_user(old(board)@, p.0),
    ensures
        sorted_desc_by_sum(final(board)@),
        distinct_users(final(board)@),
        final(board)@.len() == old(board)@.len() + 1,
        forall|q: (u64, u64)|
            final(board)@.contains(q) <==> (old(board)@.contains(q) || q == p),
        forall|u: u64| lists_user(final(board)@, u) <==> (lists_user(old(board)@, u) || u == p.0),
{
    let mut i: usize = 0;
    while i < board.len() && board[i].1 > p.1
        invariant
            i <= board@.len(),
            board@ == old(board)@,
            sorted_desc_by_sum(board@),
            forall|j: int| 0 <= j < i ==> (#[trigger] board@[j]).1 > p.1,
        decreases board@.len() - i,
    {
        i = i + 1;
    }
    board.insert(i, p);
    proof {
        let newv = board@;
        let oldv = old(board)@;
        assert forall|x: (u64, u64)| newv.contains(x) <==> (oldv.contains(x) || x == p) by {
            if newv.contains(x) {
                let k = choose|k: int| 0 <= k < newv.len() && newv[k] == x;
                if k < i {
                    assert(oldv[k] == x);
                    assert(oldv.contains(x));
                } else if k == i {
                    assert(x == p);
                } else {
                    assert(oldv[k - 1] == x);
                    assert(oldv.contains(x));
                }
            }
            if oldv.contains(x) {
                let k = choose|k: int| 0 <= k < oldv.len() && oldv[k] == x;
                if k < i {
                    assert(newv[k] == x);
                } else {
                    assert(newv[k + 1] == x);
                }
                assert(newv.contains(x));
            }
            if x == p {
                assert(newv[i as int] == x);
                assert(newv.contains(x));
            }
        }
        assert forall|a: int, b: int| 0 <= a < b < newv.len() implies (#[trigger] newv[a]).1 >= (
        #[trigger] newv[b]).1 by {
            if b < i {
                assert(newv[a] == oldv[a] && newv[b] == oldv[b]);
            } else if a > i {
                assert(newv[a] == oldv[a - 1] && newv[b] == oldv[b - 1]);
            } else if a == i {
                assert(newv[a] == p && newv[b] == oldv[b - 1]);
                assert(oldv[i as int].1 <= p.1);
                assert(oldv[b - 1].1 <= oldv[i as int].1);
            } else if b == i {
                assert(newv[a] == oldv[a] && newv[b] == p);
            } else {
                assert(a < i < b);
                assert(newv[a] == oldv[a] && newv[b] == oldv[b - 1]);
                assert(oldv[a].1 > p.1);
                assert(p.1 >= oldv[b - 1].1) by {
                    if i < oldv.len() {
                        assert(oldv[i as int].1 <= p.1);
                        if b - 1 > i {
                            assert(oldv[b - 1].1 <= oldv[i as int].1);
                        }
                    }
                }
            }
        }
        assert forall|a: int, b: int| 0 <= a < b < newv.len() implies (#[trigger] newv[a]).0 != (
        #[trigger] newv[b]).0 by {
            if a == i {
                assert(newv[b] == oldv[b - 1]);
                assert(oldv.contains(oldv[b - 1]));
                if newv[a].0 == newv[b].0 {
                    assert(lists_user(oldv, p.0));
                }
            } else if b == i {
                assert(newv[a] == oldv[a]);
                assert(oldv.contains(oldv[a]));
                if newv[a].0 == newv[b].0 {
                    assert(lists_user(oldv, p.0));
                }
            } else {
                let a2: int = if a < i { a } else { a - 1 };
                let b2: int = if b < i { b } else { b - 1 };
                assert(newv[a] == oldv[a2] && newv[b] == oldv[b2]);
            }
        }
        assert forall|u: u64| lists_user(newv, u) <==> (lists_user(oldv, u) || u == p.0) by {
            if lists_user(newv, u) {
                let k = choose|k: int| 0 <= k < newv.len() && (#[trigger] newv[k]).0 == u;
                assert(newv.contains(newv[k]));
                if newv[k] == p {
                    assert(u == p.0);
                } else {
                    assert(oldv.contains(newv[k]));
                    let m = choose|m: int| 0 <= m < oldv.len() && oldv[m] == newv[k];
                    assert(lists_user(oldv, u));
                }
            }
            if lists_user(oldv, u) {
                let k = choose|k: int| 0 <= k < oldv.len() && (#[trigger] oldv[k]).0 == u;
                assert(oldv.contains(oldv[k]));
                assert(newv.contains(oldv[k]));
                let m = choose|m: int| 0 <= m < newv.len() && newv[m] == oldv[k];
                assert(lists_user(newv, u));
            }
            if u == p.0 {
                assert(newv[i as int].0 == u);
                assert(lists_user(newv, u));
            }
        }
    }
}

/// The current leaderboard inside a window: ranked users with their window
/// sums, largest first, cut to `limit` entries if one is given. A ranked
/// user left off a cut board never has a larger sum than any listed entry.
pub fn fetch_leaderboard(
    sessions: &Vec<StudySessionRecord>,
    optouts: &Vec<u64>,
    window_start: u64,
    limit: Option<usize>,
) -> (board: Vec<(u64, u64)>)
    requires
        total_len(sessions@) <= u64::MAX,
    ensures
        sorted_desc_by_sum(board@),
        distinct_users(board@),
        forall|k: int|
            0 <= k < board@.len() ==> participant(
                sessions@,
                optouts@,
                window_start,
                (#[trigger] board@[k]).0,
            ) && board@[k].1 == window_sum(sessions@, board@[k].0, window_start),
        board@.len() == ({
            let all = count_participants(
                sessions@,
                optouts@,
                window_start,
                sessions@.len() as int,
            );
            match limit {
                Some(l) => if l <= all {
                    l as int
                } else {
                    all
                },
                None => all,
            }
        }),
        forall|u: u64|
            participant(sessions@, optouts@, window_start, u) && !lists_user(board@, u)
                && board@.len() > 0 ==> window_sum(sessions@, u, window_start) <= board@[
            board@.len() - 1].1,
        limit is None ==> forall|u: u64|
            participant(sessions@, optouts@, window_start, u) ==> lists_user(board@, u),
{
    let mut board: Vec<(u64, u64)> = Vec::new();
    let mut i: usize = 0;
    while i < sessions.len()
        invariant
            i <= sessions@.len(),
            total_len(sessions@) <= u64::MAX,
            sorted_desc_by_sum(board@),
            distinct_users(board@),
            board@.len() == count_participants(sessions@, optouts@, window_start, i as int),
            forall|k: int|
                0 <= k < board@.len() ==> participant(
                    sessions@,
                    optouts@,
                    window_start,
                    (#[trigger] board@[k]).0,
                ) && board@[k].1 == window_sum(sessions@, board@[k].0, window_start),
            forall|u: u64|
                lists_user(board@, u) <==> (!optouts@.contains(u) && exists|k: int|
                    0 <= k < i && (#[trigger] sessions@[k]).user == u && in_window(
                        sessions@[k],
                        window_start,
                    )),
        decreases sessions@.len() - i,
    {
        let rec = sessions[i];
        if is_first_window_occurrence(sessions, window_start, i) && !contains_u64(
            optouts,
            rec.user,
        ) {
            proof {
                assert(!lists_user(board@, rec.user));
            }
            let their_sum = window_sum_exec(sessions, rec.user, window_start);
            let ghost old_board = board@;
            insert_pair_desc(&mut board, (rec.user, their_sum));
            proof {
                assert(sessions@[i as int].user == rec.user && in_window(
                    sessions@[i as int],
                    window_start,
                ));
                assert(participant(sessions@, optouts@, window_start, rec.user));
                assert forall|k: int|
                    0 <= k < board@.len() implies participant(
                    sessions@,
                    optouts@,
                    window_start,
                    (#[trigger] board@[k]).0,
                ) && board@[k].1 == window_sum(sessions@, board@[k].0, window_start) by {
                    assert(board@.contains(board@[k]));
                    if board@[k] != (rec.user, their_sum) {
                        assert(old_board.contains(board@[k]));
                        let m = choose|m: int|
                            0 <= m < old_board.len() && old_board[m] == board@[k];
                    }
                }
            }
        }
        proof {
            assert forall|u: u64|
                lists_user(board@, u) <==> (!optouts@.contains(u) && exists|k: int|
                    0 <= k < i + 1 && (#[trigger] sessions@[k]).user == u && in_window(
                        sessions@[k],
                        window_start,
                    )) by {
                let fwo = first_window_occurrence(sessions@, window_start, i as int);
                if !optouts@.contains(u) && exists|k: int|
                    0 <= k < i + 1 && (#[trigger] sessions@[k]).user == u && in_window(
                        sessions@[k],
                        window_start,
                    ) {
                    let k = choose|k: int|
                        0 <= k < i + 1 && (#[trigger] sessions@[k]).user == u && in_window(
                            sessions@[k],
                            window_start,
                        );
                    if k < i {
                        assert(lists_user(board@, u));
                    } else {
                        assert(sessions@[i as int].user == u);
                        if !fwo {
                            let j = choose|j: int|
                                0 <= j < i && (#[trigger] sessions@[j]).user
                                    == sessions@[i as int].user && in_window(
                                    sessions@[j],
                                    window_start,
                                );
                            assert(lists_user(board@, u));
                        }
                    }
                }
            }
        }
        i = i + 1;
    }
    proof {
        assert forall|u: u64|
            participant(sessions@, optouts@, window_start, u) implies lists_user(board@, u) by {
            let k = choose|k: int|
                0 <= k < sessions@.len() && (#[trigger] sessions@[k]).user == u && in_window(
                    sessions@[k],
                    window_start,
                );
        }
    }
    let full_len = board.len();
    match limit {
        Some(l) => {
            if l < full_len {
                let ghost fullv = board@;
                board.truncate(l);
                proof {
                    assert(board@ =~= fullv.subrange(0, l as int));
                    assert forall|u: u64|
                        participant(sessions@, optouts@, window_start, u) && !lists_user(
                            board@,
                            u,
                        ) && board@.len() > 0 implies window_sum(sessions@, u, window_start)
                        <= board@[board@.len() - 1].1 by {
                        assert(lists_user(fullv, u));
                        let k = choose|k: int|
                            0 <= k < fullv.len() && (#[trigger] fullv[k]).0 == u;
                        if k < l {
                            assert(board@[k].0 == u);
                            assert(lists_user(board@, u));
                        }
                        assert(fullv[k].1 <= fullv[l - 1].1);
                        assert(fullv[k].1 == window_sum(sessions@, u, window_start));
                        assert(board@[l - 1] == fullv[l - 1]);
                    }
                }
            }
        },
        None => {},
    }
    board
}

/// Membership in a pushed sequence: the old members plus the new element.
proof fn lemma_push_contains(s: Seq<u64>, e: u64, x: u64)
    ensures
        s.push(e).contains(x) <==> (s.contains(x) || x == e),
{
    if s.push(e).contains(x) {
        let k = choose|k: int| 0 <= k < s.push(e).len() && s.push(e)[k] == x;
        if k < s.len() {
            assert(s[k] == x);
        }
    }
    if s.contains(x) {
        let k = choose|k: int| 0 <= k < s.len() && s[k] == x;
        assert(s.push(e)[k] == x);
    }
    assert(s.push(e)[s.len() as int] == e);
}

/// Users who gave more than ten hours inside the window (opting out of the
/// leaderboard does not forfeit the community gift).
pub fn community_gift_recipients(
    sessions: &Vec<StudySessionRecord>,
    window_start: u64,
) -> (users: Vec<u64>)
    requires
        total_len(sessions@) <= u64::MAX,
    ensures
        forall|i: int, j: int| 0 <= i < j < users@.len() ==> users@[i] != users@[j],
        forall|u: u64|
            users@.contains(u) <==> (has_window_session(sessions@, window_start, u) && window_sum(
                sessions@,
                u,
                window_start,
            ) > 36000),
{
    let mut users: Vec<u64> = Vec::new();
    let mut i: usize = 0;
    while i < sessions.len()
        invariant
            i <= sessions@.len(),
            total_len(sessions@) <= u64::MAX,
            forall|a: int, b: int| 0 <= a < b < users@.len() ==> users@[a] != users@[b],
            forall|u: u64|
                users@.contains(u) <==> ((exists|k: int|
                    0 <= k < i && (#[trigger] sessions@[k]).user == u && in_window(
                        sessions@[k],
                        window_start,
                    )) && window_sum(sessions@, u, window_start) > 36000),
        decreases sessions@.len() - i,
    {
        let rec = sessions[i];
        let ghost oldu = users@;
        let fwo = is_first_window_occurrence(sessions, window_start, i);
        if fwo {
            let their_sum = window_sum_exec(sessions, rec.user, window_start);
            if their_sum > 36000 {
                proof {
                    assert(!oldu.contains(rec.user));
                }
                users.push(rec.user);
                proof {
                    assert forall|a: int, b: int|
                        0 <= a < b < users@.len() implies users@[a] != users@[b] by {
                        if b == users@.len() - 1 {
                            assert(users@[a] == oldu[a]);
                            assert(oldu.contains(oldu[a]));
                        }
                    }
                }
            }
        }
        proof {
            assert forall|u: u64|
                users@.contains(u) <==> ((exists|k: int|
                    0 <= k < i + 1 && (#[trigger] sessions@[k]).user == u && in_window(
                        sessions@[k],
                        window_start,
                    )) && window_sum(sessions@, u, window_start) > 36000) by {
                if users@ != oldu {
                    lemma_push_contains(oldu, rec.user, u);
                }
                if (exists|k: int|
                    0 <= k < i + 1 && (#[trigger] sessions@[k]).user == u && in_window(
                        sessions@[k],
                        window_start,
                    )) && window_sum(sessions@, u, window_start) > 36000 {
                    let k = choose|k: int|
                        0 <= k < i + 1 && (#[trigger] sessions@[k]).user == u && in_window(
                            sessions@[k],
                            window_start,
                        );
                    if k == i && !first_window_occurrence(sessions@, window_start, i as int) {
                        let j = choose|j: int|
                            0 <= j < i && (#[trigger] sessions@[j]).user
                                == sessions@[i as int].user && in_window(
                                sessions@[j],
                                window_start,
                            );
                        assert(oldu.contains(u));
                    }
                }
            }
        }
        i = i + 1;
    }
    users
}

/// The monthly podium rewards: coin grant plus month-long booster for each
/// of the first three places.
pub fn top_leaderboard_rewards() -> (r: Vec<Vec<Reward>>)
    ensures
        r@.len() == 3,
        r@[0]@ =~= seq![
            Reward::Coins(10000),
            (Reward::Booster { multiplier: 800, expiration: 2592000 }),
        ],
        r@[1]@ =~= seq![
            Reward::Coins(4000),
            (Reward::Booster { multiplier: 600, expiration: 2592000 }),
        ],
        r@[2]@ =~= seq![
            Reward::Coins(2000),
            (Reward::Booster { multiplier: 400, expiration: 2592000 }),
        ],
{
    let expiration: u64 = 2592000;
    let first: Vec<Reward> = vec![
        Reward::Coins(10000),
        Reward::Booster { multiplier: 800, expiration },
    ];
    let second: Vec<Reward> = vec![
        Reward::Coins(4000),
        Reward::Booster { multiplier: 600, expiration },
    ];
    let third: Vec<Reward> = vec![
        Reward::Coins(2000),
        Reward::Booster { multiplier: 400, expiration },
    ];
    vec![first, second, third]
}

} // verus!
