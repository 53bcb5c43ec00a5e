use study_sessions::ledger::CoinLedger;
use study_sessions::rewards::{Reward, RewardReason};
use study_sessions::store::Store;

#[test]
fn overdraft_is_rejected_and_balance_unchanged() {
    let mut ledger = CoinLedger::new();
    assert!(ledger.add_coins(1, 100));
    assert!(!ledger.sub_coins(1, 150));
    assert_eq!(ledger.user_balance(1), 100);
    assert!(ledger.sub_coins(1, 100));
    assert_eq!(ledger.user_balance(1), 0);
    assert!(!ledger.sub_coins(1, 1));
}

#[test]
fn balances_are_kept_per_user() {
    let mut ledger = CoinLedger::new();
    ledger.add_coins(1, 300);
    ledger.add_coins(2, 40);
    assert!(ledger.sub_coins(1, 250));
    assert_eq!(ledger.user_balance(1), 50);
    assert_eq!(ledger.user_balance(2), 40);
    assert_eq!(ledger.user_balance(3), 0);
}

#[test]
fn take_coins_reports_balance_and_cost() {
    let mut ledger = CoinLedger::new();
    ledger.add_coins(4, 30);
    let err = ledger.take_coins(4, 50).unwrap_err();
    assert_eq!(err.balance, 30);
    assert_eq!(err.cost, 50);
    assert_eq!(ledger.user_balance(4), 30);
    assert!(ledger.take_coins(4, 30).is_ok());
    assert_eq!(ledger.user_balance(4), 0);
}

#[test]
fn claim_coin_reward_credits_and_logs() {
    let mut store = Store::new();
    let id = store.user_claim_reward(9, Reward::Coins(300), RewardReason::Daily, 1000);
    assert_eq!(id, 0);
    assert_eq!(store.user_balance(9), 300);
    let entry = store.get_reward(9, id).expect("owner sees the claim");
    assert_eq!(entry.reason, RewardReason::Daily);
    assert_eq!(entry.reward, Reward::Coins(300));
    assert!(store.get_reward(8, id).is_none());
    assert!(store.get_reward(9, 5).is_none());
}

#[test]
fn claim_booster_reward_stores_expiry() {
    let mut store = Store::new();
    store.user_claim_reward(9, Reward::Booster { multiplier: 200, expiration: 7200 }, RewardReason::Video, 1000);
    assert_eq!(store.user_balance(9), 0);
    assert_eq!(store.boosters.len(), 1);
    assert_eq!(store.boosters[0].multiplier, 200);
    assert_eq!(store.boosters[0].expires, 8200);
}

#[test]
fn random_rewards_stay_in_documented_ranges() {
    for _ in 0..200 {
        match Reward::random() {
            Reward::Coins(amount) => {
                assert!((100..=700).contains(&amount));
                assert_eq!(amount % 100, 0);
            }
            Reward::Booster { multiplier, expiration } => {
                assert!((150..=240).contains(&multiplier));
                assert_eq!(multiplier % 10, 0);
                assert!((3600..=191 * 3600).contains(&expiration));
                assert_eq!(expiration % 3600, 0);
            }
            Reward::Role(_) => panic!("a random draw never grants a role"),
        }
    }
}

#[test]
fn countdown_draws_are_whole_half_hours() {
    for _ in 0..200 {
        let c = study_sessions::random_video_reward_time();
        assert!((1800..=19800).contains(&c));
        assert_eq!(c % 1800, 0);
    }
}
