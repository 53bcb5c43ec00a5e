//! Reward kinds and the random draw behind every granted reward: roughly 70%
//! a bounded multiple-of-100 coin amount, otherwise a booster with a bounded
//! multiplier and a bounded whole-hour expiration.

use vstd::prelude::*;
use crate::random::rand_range;

verus! {

/// What a granted reward is: a coin amount, a temporary multiplier with an
/// expiration (in seconds), or a role grant.
#[derive(Clone, Copy, PartialEq, Eq, Structural, Debug)]
pub enum Reward {
    Coins(u64),
    Booster { multiplier: u16, expiration: u64 },
    Role(u64),
}

/// Why a reward was granted.
#[derive(Clone, Copy, PartialEq, Eq, Structural, Debug)]
pub enum RewardReason {
    Daily,
    Video,
    MonthlyTop,
    MonthlyCommunity,
}

/// The range a randomly drawn reward always falls in: coins are a positive
/// multiple of 100 up to 700; boosters carry a multiple-of-10 multiplier in
/// the 150..=240 range and a whole-hour expiration below eight days.
pub open spec fn valid_random_reward(r: Reward) -> bool {
    match r {
        Reward::Coins(amount) => 100 <= amount <= 700 && amount % 100 == 0,
        Reward::Booster { multiplier, expiration } => {
            &&& 150 <= multiplier <= 240
            &&& multiplier % 10 == 0
            &&& 3600 <= expiration <= 191 * 3600
            &&& expiration % 3600 == 0
        },
        Reward::Role(_) => false,
    }
}

impl Reward {
    /// Draws a random reward: with probability near 70% a coin amount,
    /// otherwise a booster. Only the ranges can be promised of the draw.
    pub fn random() -> (r: Reward)
        ensures
            valid_random_reward(r),
    {
        let roll = rand_range(0, 100);
        if roll < 70 {
            let units = rand_range(1, 8);
            proof {
                vstd::arithmetic::div_mod::lemma_mod_multiples_basic(units as int, 100);
            }
            Reward::Coins(units * 100)
        } else {
            let tens = rand_range(15, 25);
            let hours = rand_range(1, 192);
            proof {
                vstd::arithmetic::div_mod::lemma_mod_multiples_basic(tens as int, 10);
                vstd::arithmetic::div_mod::lemma_mod_multiples_basic(hours as int, 3600);
            }
            Reward::Booster { multiplier: (tens * 10) as u16, expiration: hours * 3600 }
        }
    }
}

} // verus!
