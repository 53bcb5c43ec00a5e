use study_sessions::leaderboard::{
    community_gift_recipients, fetch_leaderboard, top_leaderboard_rewards, user_place,
    window_sum_exec,
};
use study_sessions::records::StudySessionRecord;
use study_sessions::rewards::Reward;

fn session(user: u64, length: u64, ended: u64) -> StudySessionRecord {
    StudySessionRecord { id: ended, user, length, video_length: 0, ended, coin_reward_ref: 0 }
}

fn history() -> Vec<StudySessionRecord> {
    vec![
        session(1, 400, 100),
        session(2, 900, 110),
        session(1, 200, 120),
        session(3, 300, 130),
        // outside the window below when window_start >= 200
        session(3, 5000, 50),
    ]
}

#[test]
fn window_sums_respect_the_window() {
    let s = history();
    assert_eq!(window_sum_exec(&s, 1, 90), 600);
    assert_eq!(window_sum_exec(&s, 3, 90), 300);
    assert_eq!(window_sum_exec(&s, 3, 0), 5300);
    assert_eq!(window_sum_exec(&s, 9, 0), 0);
}

#[test]
fn places_follow_descending_sums() {
    let s = history();
    let optouts: Vec<u64> = vec![];
    assert_eq!(user_place(&s, &optouts, 90, 2), Some(1));
    assert_eq!(user_place(&s, &optouts, 90, 1), Some(2));
    assert_eq!(user_place(&s, &optouts, 90, 3), Some(3));
    assert_eq!(user_place(&s, &optouts, 90, 42), None);
}

#[test]
fn opted_out_users_are_not_ranked() {
    let s = history();
    let optouts: Vec<u64> = vec![2];
    assert_eq!(user_place(&s, &optouts, 90, 2), None);
    assert_eq!(user_place(&s, &optouts, 90, 1), Some(1));
    assert_eq!(user_place(&s, &optouts, 90, 3), Some(2));
}

#[test]
fn no_window_session_means_no_place() {
    let s = history();
    let optouts: Vec<u64> = vec![];
    // user 3 only studied before the window opened
    assert_eq!(user_place(&s, &optouts, 130, 3), None);
}

#[test]
fn leaderboard_is_sorted_and_cut_to_limit() {
    let s = history();
    let optouts: Vec<u64> = vec![];
    let full = fetch_leaderboard(&s, &optouts, 90, None);
    assert_eq!(full, vec![(2, 900), (1, 600), (3, 300)]);
    let top2 = fetch_leaderboard(&s, &optouts, 90, Some(2));
    assert_eq!(top2, vec![(2, 900), (1, 600)]);
    let all = fetch_leaderboard(&s, &optouts, 90, Some(10));
    assert_eq!(all.len(), 3);
}

#[test]
fn community_gift_needs_more_than_ten_hours() {
    let s = vec![session(1, 36000, 100), session(2, 36001, 110)];
    let users = community_gift_recipients(&s, 90);
    assert_eq!(users, vec![2]);
}

#[test]
fn podium_rewards_match_the_tiers() {
    let tiers = top_leaderboard_rewards();
    assert_eq!(tiers.len(), 3);
    assert_eq!(tiers[0][0], Reward::Coins(10000));
    assert_eq!(tiers[0][1], Reward::Booster { multiplier: 800, expiration: 2592000 });
    assert_eq!(tiers[1][0], Reward::Coins(4000));
    assert_eq!(tiers[1][1], Reward::Booster { multiplier: 600, expiration: 2592000 });
    assert_eq!(tiers[2][0], Reward::Coins(2000));
    assert_eq!(tiers[2][1], Reward::Booster { multiplier: 400, expiration: 2592000 });
}
