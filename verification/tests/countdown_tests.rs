use study_sessions::countdown::{settle_video, settle_video_deposit};

#[test]
fn deposit_below_countdown_just_subtracts() {
    let r = settle_video_deposit(1800, 600, &vec![]);
    assert_eq!(r, Some((0, 1200)));
}

#[test]
fn deposit_equal_to_countdown_triggers_once_and_resets() {
    let r = settle_video_deposit(1800, 1800, &vec![5400]);
    assert_eq!(r, Some((1, 5400)));
}

#[test]
fn forty_minutes_against_thirty_leaves_fresh_minus_ten() {
    // 40 minutes of video, countdown at 30 minutes: exactly one reward, and
    // the ten-minute leftover comes off the freshly drawn value
    let fresh: u64 = 5400;
    let r = settle_video_deposit(1800, 2400, &vec![fresh]);
    assert_eq!(r, Some((1, fresh - 600)));
}

#[test]
fn one_reward_per_fully_consumed_cycle() {
    // consumes 1800, then 3600, leaving 100 to subtract from 7200
    let r = settle_video_deposit(1800, 1800 + 3600 + 100, &vec![3600, 7200]);
    assert_eq!(r, Some((2, 7100)));
}

#[test]
fn running_out_of_draws_is_reported() {
    assert_eq!(settle_video_deposit(1800, 4000, &vec![]), None);
    assert_eq!(settle_video_deposit(1800, 4000, &vec![1000, 1000, 1000, 1000]), Some((3, 800)));
}

#[test]
fn random_settle_matches_deterministic_small_case() {
    let (rewards, remaining) = settle_video(1800, 600);
    assert_eq!(rewards, 0);
    assert_eq!(remaining, 1200);
}

#[test]
fn random_settle_bounds_hold() {
    for deposit in [1800u64, 2400, 10000, 50000] {
        let (rewards, remaining) = settle_video(1800, deposit);
        assert!(rewards >= 1);
        assert!((1..=19800).contains(&remaining));
    }
}
