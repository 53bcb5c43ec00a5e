use study_sessions::records::ResultsMode;
use study_sessions::rewards::RewardReason;
use study_sessions::session::synthetic_session;
use study_sessions::settle::finish_session;
use study_sessions::store::{DeductError, Store};
use study_sessions::StudyEarnings;

const DAY: u64 = 86400;

fn earnings() -> StudyEarnings {
    StudyEarnings { coins_per_minute: 10 }
}

#[test]
fn ninety_five_minutes_no_video_pays_950() {
    let mut store = Store::new();
    let now_mono: u64 = 5700; // 95 minutes
    let state = synthetic_session(now_mono, 5700, 0).unwrap();
    let res = finish_session(&mut store, 1, state, now_mono, 100 * DAY + 6000, 100 * DAY, &earnings(), true)
        .expect("alert asks for a result");
    assert_eq!(res.coins, 950);
    assert_eq!(res.length, 5700);
    assert_eq!(res.video_length, 0);
    assert_eq!(res.next_video_reward, None);
    // no video reward was triggered; the first qualifying day still pays the
    // daily reward
    assert!(res.rewards.iter().all(|r| r.0 != RewardReason::Video));
    assert_eq!(res.rewards.len(), 1);
    assert_eq!(res.rewards[0].0, RewardReason::Daily);
    assert_eq!(res.streak, (1, 0));
    // the session credit is on the books, plus whatever the daily grant was
    let balance = store.user_balance(1);
    assert!(balance >= 950);
    let granted = balance - 950;
    assert!(granted == 0 || (granted % 100 == 0 && granted <= 700));
    assert_eq!(store.sessions.len(), 1);
    assert_eq!(store.sessions[0].length, 5700);
    assert_eq!(store.sessions[0].video_length, 0);
}

#[test]
fn forty_minutes_video_triggers_exactly_one_video_reward() {
    let mut store = Store::new();
    store.set_countdown(7, 1800); // countdown initialized to 30 minutes
    let now_mono: u64 = 2400; // 40 minutes, all of it video
    let state = synthetic_session(now_mono, 2400, 2400).unwrap();
    let res = finish_session(&mut store, 7, state, now_mono, 200 * DAY + 3000, 200 * DAY, &earnings(), true)
        .unwrap();
    assert_eq!(res.video_length, 2400);
    let video_rewards = res.rewards.iter().filter(|r| r.0 == RewardReason::Video).count();
    assert_eq!(video_rewards, 1);
    // remaining countdown = freshly drawn value minus the 10-minute leftover
    let remaining = *store.countdowns.get(&7).unwrap();
    assert_eq!(res.next_video_reward, Some(remaining));
    let fresh = remaining + 600;
    assert!((1800..=19800).contains(&fresh));
    assert_eq!(fresh % 1800, 0);
    // daily first, then the video trigger
    assert_eq!(res.rewards.len(), 2);
    assert_eq!(res.rewards[0].0, RewardReason::Daily);
    assert_eq!(res.rewards[1].0, RewardReason::Video);
}

#[test]
fn gap_resets_streak_to_one_on_settlement() {
    let mut store = Store::new();
    // a qualifying session three days before the new one
    store.record_session(1, 0, 900, 0, 97 * DAY + 100);
    let now_mono: u64 = 900;
    let state = synthetic_session(now_mono, 900, 0).unwrap();
    let res = finish_session(&mut store, 1, state, now_mono, 100 * DAY + 2000, 99 * DAY, &earnings(), true)
        .unwrap();
    // the gap breaks continuity: the streak resets to 1, it is not resumed
    assert_eq!(res.streak, (1, 1));
    assert!(res.rewards.iter().all(|r| r.0 != RewardReason::Daily));
}

#[test]
fn consecutive_day_extends_streak_and_pays_daily() {
    let mut store = Store::new();
    store.record_session(1, 0, 900, 0, 99 * DAY + 100);
    let now_mono: u64 = 900;
    let state = synthetic_session(now_mono, 900, 0).unwrap();
    let res = finish_session(&mut store, 1, state, now_mono, 100 * DAY + 2000, 98 * DAY, &earnings(), true)
        .unwrap();
    assert_eq!(res.streak, (2, 1));
    assert_eq!(res.rewards.len(), 1);
    assert_eq!(res.rewards[0].0, RewardReason::Daily);
}

#[test]
fn silent_settlement_still_commits() {
    let mut store = Store::new();
    let state = synthetic_session(600, 600, 0).unwrap();
    let res = finish_session(&mut store, 1, state, 600, 1000, 0, &earnings(), false);
    assert!(res.is_none());
    assert_eq!(store.sessions.len(), 1);
    assert_eq!(store.user_balance(1), 100);
}

#[test]
fn leaderboard_place_is_reported_before_and_after() {
    let mut store = Store::new();
    // another user already leads the window
    store.record_session(2, 0, 9000, 0, 100 * DAY + 50);
    let state = synthetic_session(600, 600, 0).unwrap();
    let res = finish_session(&mut store, 1, state, 600, 100 * DAY + 600, 100 * DAY, &earnings(), true)
        .unwrap();
    // user 1 had no place before; now second behind user 2
    assert_eq!(res.leaderboard_place, Some((2, None)));
}

#[test]
fn simulated_video_longer_than_total_is_rejected() {
    assert!(synthetic_session(100, 50, 60).is_err());
    assert!(synthetic_session(100, 50, 50).is_ok());
}

#[test]
fn deduction_validates_before_touching_anything() {
    let mut store = Store::new();
    let state = synthetic_session(1000, 1000, 500).unwrap();
    finish_session(&mut store, 1, state, 1000, 5000, 0, &earnings(), false);
    let sid = store.sessions[0].id;

    assert_eq!(store.deduct_session(1, sid + 1, 100, 0), Err(DeductError::SessionNotFound));
    assert_eq!(store.deduct_session(2, sid, 100, 0), Err(DeductError::SessionNotFound));
    assert_eq!(store.deduct_session(1, sid, 2000, 0), Err(DeductError::LengthExceedsOriginal));
    assert_eq!(store.deduct_session(1, sid, 800, 900), Err(DeductError::VideoExceedsLength));
    assert_eq!(store.deduct_session(1, sid, 300, 400), Err(DeductError::VideoExceedsLength));
    assert_eq!(store.sessions[0].length, 1000);
    assert_eq!(store.sessions[0].video_length, 500);

    assert_eq!(store.deduct_session(1, sid, 800, 400), Ok(false));
    assert_eq!(store.sessions[0].length, 800);
    assert_eq!(store.sessions[0].video_length, 400);

    assert_eq!(store.deduct_session(1, sid, 0, 0), Ok(true));
    assert!(store.sessions.is_empty());
}

#[test]
fn results_mode_defaults_to_dm() {
    let mut store = Store::new();
    assert_eq!(store.user_results_mode(1), ResultsMode::Dm);
    store.set_results_mode(1, ResultsMode::Guild);
    assert_eq!(store.user_results_mode(1), ResultsMode::Guild);
    store.set_results_mode(1, ResultsMode::Off);
    assert_eq!(store.user_results_mode(1), ResultsMode::Off);
}
