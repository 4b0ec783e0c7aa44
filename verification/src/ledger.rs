//! The ledger itself: one balance, one floor, and the rule that joins them.
//!
//! Amounts are whole numbers of hundredths of a currency unit, so `500` stands for 5.00.
//! The floor is tested against the balance as it is *before* a debit, and the debit is never
//! cut short: a withdrawal made from a balance at or above the floor is paid in full even when
//! that leaves less than the floor, or less than nothing.

use vstd::prelude::*;
use crate::runs::capacity;

verus! {

/// The floor of a ledger made with [`Ledger::new`]: 5.00.
pub const MIN_RESERVE: u64 = 500;

/// How a withdrawal of a valid amount ended.
#[derive(Clone, Copy, Debug, PartialEq, Eq, Structural)]
pub enum WithdrawOutcome {
    /// The balance was below the floor and stays as it was.
    Refused { current_balance: i64 },
    /// The amount was debited in full.
    Completed { amount: i64, remaining_balance: i64 },
}

/// Why a call was rejected before the balance was looked at.
#[derive(Clone, Copy, Debug, PartialEq, Eq, Structural)]
pub enum LedgerError {
    /// The amount asked for was zero or negative.
    InvalidAmount,
}

/// Whether a withdrawal of `amount` from `balance` is debited, under the floor `floor`.
pub open spec fn debits(balance: int, floor: int, amount: int) -> bool {
    amount > 0 && balance >= floor
}

/// The balance that a withdrawal of `amount` leaves behind.
pub open spec fn balance_after(balance: int, floor: int, amount: int) -> int {
    if debits(balance, floor, amount) {
        balance - amount
    } else {
        balance
    }
}

/// What a withdrawal of `amount` answers when it finds the balance `balance`.
pub open spec fn answer(balance: i64, floor: u64, amount: i64) -> Result<WithdrawOutcome, LedgerError> {
    if amount <= 0 {
        Err(LedgerError::InvalidAmount)
    } else if balance < floor {
        Ok(WithdrawOutcome::Refused { current_balance: balance })
    } else {
        Ok(WithdrawOutcome::Completed { amount, remaining_balance: (balance - amount) as i64 })
    }
}

/// A balance with its floor, owned by one caller at a time.
pub struct Ledger {
    balance: i64,
    min_reserve: u64,
}

impl Ledger {
    /// The current balance.
    pub closed spec fn spec_balance(&self) -> i64 {
        self.balance
    }

    /// The floor, fixed when the ledger is made.
    pub closed spec fn spec_min_reserve(&self) -> u64 {
        self.min_reserve
    }

    /// A ledger that holds `initial_balance` above the floor [`MIN_RESERVE`].
    pub fn new(initial_balance: i64) -> (ledger: Ledger)
        ensures
            ledger.spec_balance() == initial_balance,
            ledger.spec_min_reserve() == MIN_RESERVE,
    {
        Ledger { balance: initial_balance, min_reserve: MIN_RESERVE }
    }

    /// A ledger that holds `initial_balance` above a floor of the caller's choosing.
    pub fn with_reserve(initial_balance: i64, min_reserve: u64) -> (ledger: Ledger)
        ensures
            ledger.spec_balance() == initial_balance,
            ledger.spec_min_reserve() == min_reserve,
    {
        Ledger { balance: initial_balance, min_reserve }
    }

    /// The current balance.
    #[verifier::when_used_as_spec(spec_balance)]
    pub fn balance(&self) -> (balance: i64)
        ensures
            balance == self.spec_balance(),
    {
        self.balance
    }

    /// The floor.
    #[verifier::when_used_as_spec(spec_min_reserve)]
    pub fn min_reserve(&self) -> (floor: u64)
        ensures
            floor == self.spec_min_reserve(),
    {
        self.min_reserve
    }

    /// Whether the balance is below the floor, so that the next withdrawal is refused.
    pub fn is_below_reserve(&self) -> (below: bool)
        ensures
            below == (self.balance() < self.min_reserve()),
    {
        self.balance < 0 || (self.balance as u64) < self.min_reserve
    }

    /// How many withdrawals of `amount` the ledger still pays as it stands.
    pub fn withdrawals_left(&self, amount: i64) -> (left: u64)
        ensures
            left == capacity(self.balance() as int, self.min_reserve() as int, amount as int),
    {
        if amount <= 0 || self.is_below_reserve() {
            0
        } else {
            let room: u64 = self.balance() as u64 - self.min_reserve();
            room / (amount as u64) + 1
        }
    }

    /// Tries to take `amount` out.
    ///
    /// An amount of zero or less is rejected with [`LedgerError::InvalidAmount`]. Otherwise the
    /// balance as it stands is held against the floor: below it the call is refused, at or above
    /// it the whole amount is debited. The floor never changes.
    pub fn withdraw(&mut self, amount: i64) -> (res: Result<WithdrawOutcome, LedgerError>)
        ensures
            res == answer(old(self).balance(), old(self).min_reserve(), amount),
            final(self).balance() == balance_after(
                old(self).balance() as int,
                old(self).min_reserve() as int,
                amount as int,
            ),
            final(self).min_reserve() == old(self).min_reserve(),
    {
        if amount <= 0 {
            return Err(LedgerError::InvalidAmount);
        }
        if self.is_below_reserve() {
            return Ok(WithdrawOutcome::Refused { current_balance: self.balance });
        }
        self.balance = self.balance - amount;
        Ok(WithdrawOutcome::Completed { amount, remaining_balance: self.balance })
    }
}

} // verus!
