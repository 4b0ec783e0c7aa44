//! A tally: how many calls ended in which way.

use vstd::prelude::*;
use crate::ledger::{LedgerError, WithdrawOutcome};

verus! {

/// How the calls of a run ended, by kind.
#[derive(Clone, Copy, Debug, PartialEq, Eq, Structural)]
pub struct Tally {
    /// Withdrawals that were debited.
    pub completed: u32,
    /// Withdrawals that found the balance below the floor.
    pub refused: u32,
    /// Calls that asked for an amount of zero or less.
    pub rejected: u32,
}

impl Tally {
    /// The number of calls counted so far.
    pub open spec fn calls(&self) -> int {
        self.completed + self.refused + self.rejected
    }

    /// The tally of no calls.
    pub fn new() -> (tally: Tally)
        ensures
            tally == (Tally { completed: 0, refused: 0, rejected: 0 }),
    {
        Tally { completed: 0, refused: 0, rejected: 0 }
    }

    /// Counts one more call under the kind of its answer.
    pub fn record(&mut self, answer: &Result<WithdrawOutcome, LedgerError>)
        requires
            old(self).calls() < u32::MAX,
        ensures
            *final(self) == match *answer {
                Ok(WithdrawOutcome::Completed { .. }) => Tally {
                    completed: (old(self).completed + 1) as u32,
                    ..*old(self)
                },
                Ok(WithdrawOutcome::Refused { .. }) => Tally {
                    refused: (old(self).refused + 1) as u32,
                    ..*old(self)
                },
                Err(LedgerError::InvalidAmount) => Tally {
                    rejected: (old(self).rejected + 1) as u32,
                    ..*old(self)
                },
            },
    {
        match answer {
            Ok(WithdrawOutcome::Completed { .. }) => {
                self.completed = self.completed + 1;
            },
            Ok(WithdrawOutcome::Refused { .. }) => {
                self.refused = self.refused + 1;
            },
            Err(LedgerError::InvalidAmount) => {
                self.rejected = self.rejected + 1;
            },
        }
    }
}

} // verus!
