use study_sessions::records::StudySessionRecord;
use study_sessions::streak::{qualifying_days_desc, streak_from_days, user_streak};

fn session(user: u64, length: u64, day: u64) -> StudySessionRecord {
    StudySessionRecord {
        id: day,
        user,
        length,
        video_length: 0,
        ended: day * 86400 + 3600,
        coin_reward_ref: 0,
    }
}

#[test]
fn consecutive_days_count_from_most_recent() {
    assert_eq!(streak_from_days(&vec![100, 99, 98]), 3);
    assert_eq!(streak_from_days(&vec![100, 99, 97, 96]), 2);
    assert_eq!(streak_from_days(&vec![100, 98]), 1);
    assert_eq!(streak_from_days(&vec![42]), 1);
    assert_eq!(streak_from_days(&vec![]), 0);
}

#[test]
fn first_qualifying_day_gives_streak_one() {
    let sessions = vec![session(1, 900, 100)];
    assert_eq!(user_streak(&sessions, 1), 1);
    assert_eq!(user_streak(&sessions, 2), 0);
}

#[test]
fn ten_minutes_or_less_does_not_qualify() {
    let sessions = vec![session(1, 600, 100)];
    assert_eq!(user_streak(&sessions, 1), 0);
    let sessions = vec![session(1, 601, 100)];
    assert_eq!(user_streak(&sessions, 1), 1);
}

#[test]
fn gap_breaks_the_streak() {
    let sessions = vec![session(1, 900, 97), session(1, 900, 100)];
    assert_eq!(user_streak(&sessions, 1), 1);
    let sessions = vec![session(1, 900, 98), session(1, 900, 99), session(1, 900, 100)];
    assert_eq!(user_streak(&sessions, 1), 3);
}

#[test]
fn several_sessions_on_one_day_count_once() {
    let sessions = vec![
        session(1, 900, 100),
        StudySessionRecord { id: 7, user: 1, length: 2000, video_length: 0, ended: 100 * 86400 + 7200, coin_reward_ref: 0 },
        session(1, 900, 99),
    ];
    let days = qualifying_days_desc(&sessions, 1);
    assert_eq!(days, vec![100, 99]);
    assert_eq!(user_streak(&sessions, 1), 2);
}

#[test]
fn unsorted_history_still_counts_correctly() {
    let sessions = vec![session(1, 900, 98), session(1, 900, 100), session(1, 900, 99)];
    assert_eq!(user_streak(&sessions, 1), 3);
}
