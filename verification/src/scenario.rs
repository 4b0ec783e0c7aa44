//! A scenario: one ledger, a number of actors, one amount that each of them asks for once.
//!
//! A scenario can be run here with its actors served in turn, and what it comes to can be
//! told without running it. Every actor asks for the same amount, so the order in which they
//! are served changes nothing: a run on threads has to come to the same report.

use vstd::prelude::*;
use crate::ledger::Ledger;
use crate::runs::{
    at_most, balance_after_all, capacity, completed_count, law_fixed_amount_run, repeated,
    served_in, serves_each_once,
};
use crate::tally::Tally;

verus! {

/// The values that a scenario is made from.
#[derive(Clone, Copy, Debug, PartialEq, Eq, Structural)]
pub struct Scenario {
    /// The balance that the ledger starts with.
    pub initial_balance: i64,
    /// The amount that each actor asks for.
    pub withdrawal_amount: i64,
    /// The number of actors; each makes one call.
    pub actor_count: u32,
    /// The floor of the ledger.
    pub min_reserve: u64,
}

/// What a scenario came to when all its actors were done.
#[derive(Clone, Copy, Debug, PartialEq, Eq, Structural)]
pub struct Report {
    /// How the calls ended.
    pub tally: Tally,
    /// The balance that was left.
    pub final_balance: i64,
}

impl Default for Scenario {
    /// Ten actors, each asking for 5.00 of a balance of 20.00 above a floor of 5.00.
    fn default() -> (scenario: Scenario)
        ensures
            scenario == (Scenario {
                initial_balance: 2000,
                withdrawal_amount: 500,
                actor_count: 10,
                min_reserve: 500,
            }),
    {
        Scenario { initial_balance: 2000, withdrawal_amount: 500, actor_count: 10, min_reserve: 500 }
    }
}

impl Scenario {
    /// The calls of the scenario: one for each actor, each for the same amount.
    pub open spec fn calls(&self) -> Seq<int> {
        repeated(self.withdrawal_amount as int, self.actor_count as nat)
    }

    /// How many of the scenario's withdrawals complete: as many as the starting balance pays,
    /// or all of them if the actors are fewer. An amount of zero or less completes none.
    pub open spec fn completes(&self) -> nat {
        at_most(
            self.actor_count as nat,
            capacity(
                self.initial_balance as int,
                self.min_reserve as int,
                self.withdrawal_amount as int,
            ),
        )
    }

    /// The report that the scenario comes to, in whatever order its calls are served.
    pub open spec fn outcome(&self) -> Report {
        if self.withdrawal_amount <= 0 {
            Report {
                tally: Tally { completed: 0, refused: 0, rejected: self.actor_count },
                final_balance: self.initial_balance,
            }
        } else {
            Report {
                tally: Tally {
                    completed: self.completes() as u32,
                    refused: (self.actor_count - self.completes()) as u32,
                    rejected: 0,
                },
                final_balance: (self.initial_balance - self.withdrawal_amount * self.completes()) as i64,
            }
        }
    }

    /// Tells what the scenario comes to, without running it.
    pub fn forecast(&self) -> (report: Report)
        ensures
            report == self.outcome(),
    {
        let calls = self.actor_count;
        let amount = self.withdrawal_amount;
        if amount <= 0 {
            return Report {
                tally: Tally { completed: 0, refused: 0, rejected: calls },
                final_balance: self.initial_balance,
            };
        }
        let ledger = Ledger::with_reserve(self.initial_balance, self.min_reserve);
        let left = ledger.withdrawals_left(amount);
        let completed: u32 = if calls as u64 <= left {
            calls
        } else {
            left as u32
        };
        let mut final_balance = self.initial_balance;
        if completed > 0 {
            proof {
                lemma_all_but_last_fit(
                    self.initial_balance as int,
                    self.min_reserve as int,
                    amount as int,
                    completed as int,
                );
                assert(amount * completed == amount * (completed - 1) + amount) by (nonlinear_arith);
            }
            final_balance = final_balance - amount * (completed as i64 - 1) - amount;
        } else {
            assert(amount * 0 == 0);
        }
        Report { tally: Tally { completed, refused: calls - completed, rejected: 0 }, final_balance }
    }

    /// Runs the scenario with its actors served in turn: on a ledger of its own, each actor's
    /// call is made in full before the next one's.
    pub fn run_in_turn(&self) -> (report: Report)
        ensures
            report == self.outcome(),
    {
        let mut ledger = Ledger::with_reserve(self.initial_balance, self.min_reserve);
        let tally = ledger.withdraw_times(self.withdrawal_amount, self.actor_count);
        proof {
            let amounts = repeated(self.withdrawal_amount as int, self.actor_count as nat);
            if self.withdrawal_amount > 0 {
                law_fixed_amount_run(
                    self.initial_balance as int,
                    self.min_reserve as int,
                    amounts,
                    self.withdrawal_amount as int,
                );
            } else {
                lemma_invalid_amounts_move_nothing(
                    self.initial_balance as int,
                    self.min_reserve as int,
                    self.withdrawal_amount as int,
                    self.actor_count as nat,
                );
            }
        }
        Report { tally, final_balance: ledger.balance() }
    }
}

/// In whatever order the actors of a scenario are served, their run comes to the scenario's
/// outcome: the same withdrawals are counted as completed, and the same balance is left.
pub proof fn law_scenario_comes_out_the_same(scenario: Scenario, order: Seq<int>)
    requires
        serves_each_once(order, scenario.actor_count as nat),
    ensures
        completed_count(
            scenario.initial_balance as int,
            scenario.min_reserve as int,
            served_in(scenario.calls(), order),
        ) == scenario.outcome().tally.completed,
        balance_after_all(
            scenario.initial_balance as int,
            scenario.min_reserve as int,
            served_in(scenario.calls(), order),
        ) == scenario.outcome().final_balance,
{
    let start = scenario.initial_balance as int;
    let floor = scenario.min_reserve as int;
    let amount = scenario.withdrawal_amount as int;
    assert(served_in(scenario.calls(), order) =~= scenario.calls());
    if amount > 0 {
        law_fixed_amount_run(start, floor, scenario.calls(), amount);
        let done = scenario.completes() as int;
        if done > 0 {
            lemma_all_but_last_fit(start, floor, amount, done);
            assert(amount * done == amount * (done - 1) + amount) by (nonlinear_arith);
        } else {
            assert(amount * 0 == 0);
        }
    } else {
        lemma_invalid_amounts_move_nothing(start, floor, amount, scenario.actor_count as nat);
    }
}

/// A run of calls that ask for zero or less debits nothing.
proof fn lemma_invalid_amounts_move_nothing(balance: int, floor: int, amount: int, calls: nat)
    requires
        amount <= 0,
    ensures
        balance_after_all(balance, floor, repeated(amount, calls)) == balance,
        completed_count(balance, floor, repeated(amount, calls)) == 0,
    decreases calls,
{
    if calls > 0 {
        lemma_invalid_amounts_move_nothing(balance, floor, amount, (calls - 1) as nat);
        assert(repeated(amount, calls).drop_last() =~= repeated(amount, (calls - 1) as nat));
    }
}

/// Of the withdrawals that a balance pays, all but the last leave it at or above the floor.
proof fn lemma_all_but_last_fit(balance: int, floor: int, amount: int, completed: int)
    requires
        amount > 0,
        0 < completed <= capacity(balance, floor, amount),
    ensures
        0 <= amount * (completed - 1) <= balance - floor,
{
    vstd::arithmetic::div_mod::lemma_fundamental_div_mod(balance - floor, amount);
    vstd::arithmetic::div_mod::lemma_mod_bound(balance - floor, amount);
    let whole = (balance - floor) / amount;
    assert(0 <= amount * (completed - 1) <= amount * whole) by (nonlinear_arith)
        requires
            amount > 0,
            0 <= completed - 1 <= whole,
    ;
}

} // verus!
