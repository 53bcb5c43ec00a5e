//! Append-only coin ledger. Each entry is a signed delta against one user's
//! balance; a debit that would drive that user's running balance negative is
//! rejected without being recorded.

use vstd::prelude::*;

verus! {

/// One ledger row: a signed coin delta for one user.
#[derive(Clone, Copy)]
pub struct CoinEntry {
    pub user: u64,
    pub delta: i64,
}

/// The running balance of `user` over a ledger prefix.
pub open spec fn balance_of(entries: Seq<CoinEntry>, user: u64) -> int
    decreases entries.len(),
{
    if entries.len() == 0 {
        0
    } else {
        balance_of(entries.drop_last(), user) + if entries.last().user == user {
            entries.last().delta as int
        } else {
            0int
        }
    }
}

/// Appending an entry moves only that entry's user's balance, by its delta.
pub proof fn lemma_balance_push(entries: Seq<CoinEntry>, e: CoinEntry, user: u64)
    ensures
        balance_of(entries.push(e), user) == balance_of(entries, user) + if e.user == user {
            e.delta as int
        } else {
            0int
        },
{
    assert(entries.push(e).drop_last() =~= entries);
}

/// Append-only signed coin ledger.
pub struct CoinLedger {
    entries: Vec<CoinEntry>,
}

impl View for CoinLedger {
    type V = Seq<CoinEntry>;

    closed spec fn view(&self) -> Seq<CoinEntry> {
        self.entries@
    }
}

impl CoinLedger {
    /// Every user's running balance is non-negative, and small enough that
    /// one more signed 64-bit delta can be summed against it.
    pub open spec fn wf(&self) -> bool {
        forall|u: u64| 0 <= #[trigger] balance_of(self@, u) <= i64::MAX
    }

    pub fn new() -> (r: CoinLedger)
        ensures
            r@ =~= Seq::<CoinEntry>::empty(),
            r.wf(),
    {
        CoinLedger { entries: Vec::new() }
    }

    /// How many entries the ledger holds; the next entry gets this index.
    pub fn len(&self) -> (n: usize)
        ensures
            n == self@.len(),
    {
        self.entries.len()
    }

    /// The user's current balance: the sum of all of their deltas.
    pub fn user_balance(&self, user: u64) -> (b: u64)
        requires
            self.wf(),
        ensures
            b == balance_of(self@, user),
    {
        let mut acc: i128 = 0;
        let mut i: usize = 0;
        while i < self.entries.len()
            invariant
                i <= self.entries@.len(),
                acc == balance_of(self.entries@.take(i as int), user),
                -(i as int) * 0x8000_0000_0000_0000 <= acc <= (i as int) * 0x8000_0000_0000_0000,
            decreases self.entries@.len() - i,
        {
            let e = self.entries[i];
            proof {
                assert(self.entries@.take(i + 1).drop_last() =~= self.entries@.take(i as int));
                assert(self.entries@.take(i + 1).last() == self.entries@[i as int]);
            }
            if e.user == user {
                acc = acc + e.delta as i128;
            }
            i = i + 1;
        }
        proof {
            assert(self.entries@.take(self.entries@.len() as int) =~= self@);
            assert(0 <= balance_of(self@, user) <= i64::MAX);
        }
        acc as u64
    }

    /// Records one signed transaction for `user`, unless it would drive the
    /// running balance negative; a rejected transaction changes nothing.
    pub fn coin_transaction(&mut self, user: u64, delta: i64) -> (ok: bool)
        requires
            old(self).wf(),
            balance_of(old(self)@, user) + delta <= i64::MAX,
        ensures
            final(self).wf(),
            ok == (balance_of(old(self)@, user) + delta >= 0),
            ok ==> final(self)@ == old(self)@.push((CoinEntry { user, delta })),
            !ok ==> final(self)@ == old(self)@,
    {
        let b = self.user_balance(user);
        let sum: i128 = b as i128 + delta as i128;
        if sum >= 0 {
            self.entries.push(CoinEntry { user, delta });
            proof {
                let oldv = self@.drop_last();
                assert(oldv =~= old(self)@);
                assert(final(self)@ == old(self)@.push(CoinEntry { user, delta }));
                assert forall|u: u64| 0 <= #[trigger] balance_of(self@, u) <= i64::MAX by {
                    lemma_balance_push(old(self)@, CoinEntry { user, delta }, u);
                }
            }
            true
        } else {
            false
        }
    }

    /// Credits `coins` to `user`. A credit never fails.
    pub fn add_coins(&mut self, user: u64, coins: u64) -> (ok: bool)
        requires
            old(self).wf(),
            coins <= i64::MAX,
            balance_of(old(self)@, user) + coins <= i64::MAX,
        ensures
            final(self).wf(),
            ok,
            final(self)@ == old(self)@.push((CoinEntry { user, delta: coins as i64 })),
    {
        self.coin_transaction(user, coins as i64)
    }

    /// Takes `cost` coins from `user` for a purchase; on a short balance the
    /// ledger is untouched and the error reports the standing balance.
    pub fn take_coins(&mut self, user: u64, cost: u64) -> (r: Result<(), InsufficientFundsError>)
        requires
            old(self).wf(),
            cost <= i64::MAX,
        ensures
            final(self).wf(),
            match r {
                Ok(()) => balance_of(old(self)@, user) >= cost && final(self)@ == old(
                    self,
                )@.push((CoinEntry { user, delta: (-(cost as int)) as i64 })),
                Err(e) => {
                    &&& balance_of(old(self)@, user) < cost
                    &&& final(self)@ == old(self)@
                    &&& e.balance == balance_of(old(self)@, user)
                    &&& e.cost == cost
                },
            },
    {
        if self.sub_coins(user, cost) {
            Ok(())
        } else {
            let balance = self.user_balance(user);
            Err(InsufficientFundsError { balance, cost })
        }
    }

    /// Debits `coins` from `user`; rejected iff the balance is short.
    pub fn sub_coins(&mut self, user: u64, coins: u64) -> (ok: bool)
        requires
            old(self).wf(),
            coins <= i64::MAX,
        ensures
            final(self).wf(),
            ok == (balance_of(old(self)@, user) >= coins),
            ok ==> final(self)@ == old(self)@.push(
                (CoinEntry { user, delta: (-(coins as int)) as i64 }),
            ),
            !ok ==> final(self)@ == old(self)@,
    {
        self.coin_transaction(user, -(coins as i64))
    }
}

/// A rejected debit: the user's standing balance and the cost that was asked.
#[derive(Clone, Copy, PartialEq, Eq, Structural, Debug)]
pub struct InsufficientFundsError {
    pub balance: u64,
    pub cost: u64,
}

} // verus!
