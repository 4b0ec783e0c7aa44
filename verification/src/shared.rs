//! The ledger behind a lock, for actors that call at the same time.
//!
//! A [`SharedLedger`] is handed out by shared reference. Each withdrawal takes the lock, tests
//! the floor and debits while it holds it, and gives the lock back: between the test and the
//! debit no other call sees or moves the balance. Nothing in that stretch can panic, so the
//! lock is never left held and never found broken by a later call.
//!
//! What the lock keeps true is that the balance is the end of a run: of the calls served so
//! far, in the order in which they were served, from the balance the ledger was made with.

use vstd::prelude::*;
use vstd::rwlock::{RwLock, RwLockPredicate};
use crate::ledger::{answer, Ledger, LedgerError, WithdrawOutcome, MIN_RESERVE};
use crate::runs::{balance_after_all, reachable};

verus! {

/// The ledger as the lock holds it, with the run that brought it where it is.
struct Served {
    ledger: Ledger,
    run: Ghost<Seq<int>>,
}

/// What the lock keeps true of what it holds: the floor that the ledger was made with, and
/// a balance that is the end of the run served so far.
struct Kept {
    floor: u64,
    start: i64,
}

impl RwLockPredicate<Served> for Kept {
    closed spec fn inv(self, served: Served) -> bool {
        &&& served.ledger.min_reserve() == self.floor
        &&& served.ledger.balance() == balance_after_all(
            self.start as int,
            self.floor as int,
            served.run@,
        )
    }
}

/// One ledger for any number of actors.
pub struct SharedLedger {
    lock: RwLock<Served, Kept>,
}

impl SharedLedger {
    /// The floor, fixed when the ledger is made.
    pub closed spec fn min_reserve(&self) -> u64 {
        self.lock.pred().floor
    }

    /// The balance that the ledger was made with.
    pub closed spec fn initial_balance(&self) -> i64 {
        self.lock.pred().start
    }

    /// Whether `balance` is one that the ledger can hold: the end of some run from the balance
    /// it was made with.
    pub open spec fn can_hold(&self, balance: i64) -> bool {
        reachable(self.initial_balance() as int, self.min_reserve() as int, balance as int)
    }

    /// A shared ledger that starts at `initial_balance` above the floor [`MIN_RESERVE`].
    pub fn new(initial_balance: i64) -> (shared: SharedLedger)
        ensures
            shared.initial_balance() == initial_balance,
            shared.min_reserve() == MIN_RESERVE,
    {
        SharedLedger::with_reserve(initial_balance, MIN_RESERVE)
    }

    /// A shared ledger that starts at `initial_balance` above a floor of the caller's choosing.
    pub fn with_reserve(initial_balance: i64, min_reserve: u64) -> (shared: SharedLedger)
        ensures
            shared.initial_balance() == initial_balance,
            shared.min_reserve() == min_reserve,
    {
        let served = Served {
            ledger: Ledger::with_reserve(initial_balance, min_reserve),
            run: Ghost(Seq::empty()),
        };
        let lock = RwLock::new(served, Ghost(Kept { floor: min_reserve, start: initial_balance }));
        SharedLedger { lock }
    }

    /// Tries to take `amount` out, as one step that no other call can come into.
    ///
    /// An amount of zero or less is rejected before the lock is asked for. Otherwise the
    /// answer is the one that [`Ledger::withdraw`] gives for the balance found under the lock.
    /// Which balance that is depends on the calls served before this one; it is one that the
    /// ledger can hold.
    pub fn withdraw(&self, amount: i64) -> (res: Result<WithdrawOutcome, LedgerError>)
        ensures
            amount <= 0 ==> res == Err::<WithdrawOutcome, LedgerError>(LedgerError::InvalidAmount),
            amount > 0 ==> exists|found: i64|
                self.can_hold(found) && res == #[trigger] answer(found, self.min_reserve(), amount),
    {
        if amount <= 0 {
            return Err(LedgerError::InvalidAmount);
        }
        let (served, held) = self.lock.acquire_write();
        let Served { mut ledger, run } = served;
        let ghost found = ledger.balance();
        let res = ledger.withdraw(amount);
        let ghost longer = run@.push(amount as int);
        proof {
            assert(longer.drop_last() =~= run@);
        }
        held.release_write(Served { ledger, run: Ghost(longer) });
        assert(self.can_hold(found) && res == answer(found, self.min_reserve(), amount));
        res
    }

    /// The balance at the moment of the call: one that the ledger can hold. Once every actor
    /// is done and has been waited for, it is the balance that their run left.
    pub fn balance(&self) -> (balance: i64)
        ensures
            self.can_hold(balance),
    {
        let held = self.lock.acquire_read();
        let balance = held.borrow().ledger.balance();
        held.release_read();
        balance
    }
}

} // verus!
