//! Runs: withdrawals served one after the other, and what holds of every run.
//!
//! However many actors call at once, the ledger serves one call at a time, so what it does is
//! a run: the amounts asked for, in the order in which the calls were served. The functions
//! here say what a run leaves behind, and the proofs say what no order of service can change.

use vstd::prelude::*;
use crate::ledger::{answer, balance_after, debits, Ledger, LedgerError, WithdrawOutcome};
use crate::tally::Tally;

verus! {

/// The balance after the withdrawals `amounts`, served in that order from `balance`.
pub open spec fn balance_after_all(balance: int, floor: int, amounts: Seq<int>) -> int
    decreases amounts.len(),
{
    if amounts.len() == 0 {
        balance
    } else {
        balance_after(balance_after_all(balance, floor, amounts.drop_last()), floor, amounts.last())
    }
}

/// The balance that the call at position `i` of the run finds.
pub open spec fn balance_before(balance: int, floor: int, amounts: Seq<int>, i: int) -> int {
    balance_after_all(balance, floor, amounts.take(i))
}

/// How many withdrawals of the run are debited.
pub open spec fn completed_count(balance: int, floor: int, amounts: Seq<int>) -> nat
    decreases amounts.len(),
{
    if amounts.len() == 0 {
        0
    } else {
        let earlier = amounts.drop_last();
        let last: nat = if debits(balance_after_all(balance, floor, earlier), floor, amounts.last()) {
            1
        } else {
            0
        };
        completed_count(balance, floor, earlier) + last
    }
}

/// The sum of the amounts that the run debits.
pub open spec fn debited_total(balance: int, floor: int, amounts: Seq<int>) -> int
    decreases amounts.len(),
{
    if amounts.len() == 0 {
        0
    } else {
        let earlier = amounts.drop_last();
        let last = if debits(balance_after_all(balance, floor, earlier), floor, amounts.last()) {
            amounts.last()
        } else {
            0
        };
        debited_total(balance, floor, earlier) + last
    }
}

/// The sum of all the amounts that the calls of the run ask for.
pub open spec fn asked_total(amounts: Seq<int>) -> int
    decreases amounts.len(),
{
    if amounts.len() == 0 {
        0
    } else {
        asked_total(amounts.drop_last()) + amounts.last()
    }
}

/// The positions of the calls that find the balance at or above the floor and are debited.
pub open spec fn debited_calls(balance: int, floor: int, amounts: Seq<int>) -> Set<int> {
    Set::new(
        |i: int|
            0 <= i < amounts.len() && debits(
                balance_before(balance, floor, amounts, i),
                floor,
                amounts[i],
            ),
    )
}

/// Whether some run from `start` ends at `balance`.
pub open spec fn reachable(start: int, floor: int, balance: int) -> bool {
    exists|amounts: Seq<int>| balance == #[trigger] balance_after_all(start, floor, amounts)
}

/// The run of `calls` withdrawals of one and the same `amount`.
pub open spec fn repeated(amount: int, calls: nat) -> Seq<int> {
    Seq::new(calls, |i: int| amount)
}

/// How many withdrawals of `amount` a balance still pays: none below the floor, else one for
/// each whole `amount` that lies between floor and balance, and one more.
pub open spec fn capacity(balance: int, floor: int, amount: int) -> nat {
    if amount <= 0 || balance < floor {
        0
    } else {
        ((balance - floor) / amount + 1) as nat
    }
}

/// The smaller of two counts.
pub open spec fn at_most(calls: nat, limit: nat) -> nat {
    if calls <= limit {
        calls
    } else {
        limit
    }
}

/// Whether `order` is an order of service for `calls` calls: it names every call by its
/// position, each of them once.
pub open spec fn serves_each_once(order: Seq<int>, calls: nat) -> bool {
    &&& order.len() == calls
    &&& forall|k: int| 0 <= k < order.len() ==> 0 <= #[trigger] order[k] < calls
    &&& order.no_duplicates()
}

/// The run that the calls `amounts` make when they are served in the order `order`.
pub open spec fn served_in(amounts: Seq<int>, order: Seq<int>) -> Seq<int> {
    Seq::new(order.len(), |k: int| amounts[order[k]])
}

/// Whether every call of the run asks for `amount`.
pub open spec fn all_ask(amounts: Seq<int>, amount: int) -> bool {
    forall|i: int| 0 <= i < amounts.len() ==> amounts[i] == amount
}

/// The amounts of `calls` as mathematical integers.
pub open spec fn amounts_of(calls: Seq<i64>) -> Seq<int> {
    calls.map_values(|amount: i64| amount as int)
}

impl Ledger {
    /// Serves the calls `amounts` one after the other, in that order, and hands back the
    /// answer to each: the one that a withdrawal gives on the balance that it finds.
    pub fn withdraw_each(&mut self, amounts: &[i64]) -> (answers: Vec<
        Result<WithdrawOutcome, LedgerError>,
    >)
        ensures
            final(self).min_reserve() == old(self).min_reserve(),
            final(self).balance() == balance_after_all(
                old(self).balance() as int,
                old(self).min_reserve() as int,
                amounts_of(amounts@),
            ),
            answers.len() == amounts.len(),
            forall|i: int|
                0 <= i < amounts.len() ==> #[trigger] answers[i] == answer(
                    balance_before(
                        old(self).balance() as int,
                        old(self).min_reserve() as int,
                        amounts_of(amounts@),
                        i,
                    ) as i64,
                    old(self).min_reserve(),
                    amounts[i],
                ),
    {
        let ghost start = self.balance() as int;
        let ghost floor = self.min_reserve() as int;
        let ghost run = amounts_of(amounts@);
        let mut answers: Vec<Result<WithdrawOutcome, LedgerError>> = Vec::new();
        let mut served: usize = 0;
        while served < amounts.len()
            invariant
                served <= amounts.len(),
                run == amounts_of(amounts@),
                self.min_reserve() == floor,
                self.balance() == balance_before(start, floor, run, served as int),
                answers.len() == served,
                forall|i: int|
                    0 <= i < served ==> #[trigger] answers[i] == answer(
                        balance_before(start, floor, run, i) as i64,
                        self.min_reserve(),
                        amounts[i],
                    ),
            decreases amounts.len() - served,
        {
            let given = self.withdraw(amounts[served]);
            proof {
                let longer = run.take(served + 1);
                assert(longer.drop_last() =~= run.take(served as int));
                assert(longer.last() == amounts[served as int]);
            }
            answers.push(given);
            served = served + 1;
        }
        proof {
            assert(run.take(amounts.len() as int) =~= run);
        }
        answers
    }

    /// Makes `calls` withdrawals of `amount`, one after the other, and counts how they end.
    pub fn withdraw_times(&mut self, amount: i64, calls: u32) -> (tally: Tally)
        ensures
            final(self).min_reserve() == old(self).min_reserve(),
            final(self).balance() == balance_after_all(
                old(self).balance() as int,
                old(self).min_reserve() as int,
                repeated(amount as int, calls as nat),
            ),
            tally.completed == completed_count(
                old(self).balance() as int,
                old(self).min_reserve() as int,
                repeated(amount as int, calls as nat),
            ),
            tally.rejected == if amount <= 0 {
                calls
            } else {
                0
            },
            tally.calls() == calls,
    {
        let ghost start = self.balance() as int;
        let ghost floor = self.min_reserve() as int;
        let mut tally = Tally::new();
        let mut served: u32 = 0;
        while served < calls
            invariant
                served <= calls,
                self.min_reserve() == floor,
                self.balance() == balance_after_all(start, floor, repeated(amount as int, served as nat)),
                tally.completed == completed_count(
                    start,
                    floor,
                    repeated(amount as int, served as nat),
                ),
                tally.rejected == if amount <= 0 {
                    served
                } else {
                    0
                },
                tally.calls() == served,
            decreases calls - served,
        {
            let given = self.withdraw(amount);
            proof {
                let longer = repeated(amount as int, (served + 1) as nat);
                assert(longer.drop_last() =~= repeated(amount as int, served as nat));
                assert(longer.last() == amount);
            }
            tally.record(&given);
            served = served + 1;
        }
        tally
    }
}

/// A run ends at the starting balance less the amounts that it debited: nothing is lost on
/// the way and nothing is taken that no call asked for.
pub proof fn law_balance_is_start_less_debits(balance: int, floor: int, amounts: Seq<int>)
    ensures
        balance_after_all(balance, floor, amounts) == balance - debited_total(balance, floor, amounts),
    decreases amounts.len(),
{
    if amounts.len() > 0 {
        law_balance_is_start_less_debits(balance, floor, amounts.drop_last());
    }
}

/// The withdrawals that complete are exactly the calls that find the balance at or above the
/// floor: their number is the number of those calls.
pub proof fn law_completed_are_calls_above_floor(balance: int, floor: int, amounts: Seq<int>)
    ensures
        debited_calls(balance, floor, amounts).finite(),
        debited_calls(balance, floor, amounts).len() == completed_count(balance, floor, amounts),
    decreases amounts.len(),
{
    let calls = debited_calls(balance, floor, amounts);
    if amounts.len() == 0 {
        assert(calls =~= Set::<int>::empty());
    } else {
        let earlier = amounts.drop_last();
        let n = earlier.len() as int;
        law_completed_are_calls_above_floor(balance, floor, earlier);
        assert forall|i: int| 0 <= i < n implies #[trigger] amounts.take(i) == earlier.take(i) by {
            assert(amounts.take(i) =~= earlier.take(i));
        }
        assert(amounts.take(n) =~= earlier);
        let before = debited_calls(balance, floor, earlier);
        if debits(balance_after_all(balance, floor, earlier), floor, amounts.last()) {
            assert(calls =~= before.insert(n));
        } else {
            assert(calls =~= before);
        }
    }
}

/// A run may be split at its first call: what the rest does, it does from the balance that
/// the first call leaves.
pub proof fn lemma_first_call_then_rest(balance: int, floor: int, amounts: Seq<int>)
    requires
        amounts.len() > 0,
    ensures
        balance_after_all(balance, floor, amounts) == balance_after_all(
            balance_after(balance, floor, amounts[0]),
            floor,
            amounts.drop_first(),
        ),
        completed_count(balance, floor, amounts) == completed_count(
            balance_after(balance, floor, amounts[0]),
            floor,
            amounts.drop_first(),
        ) + if debits(balance, floor, amounts[0]) {
            1nat
        } else {
            0nat
        },
    decreases amounts.len(),
{
    let rest = amounts.drop_first();
    if amounts.len() == 1 {
        assert(amounts.drop_last() =~= rest);
        assert(balance_after_all(balance, floor, rest) == balance);
        assert(completed_count(balance, floor, rest) == 0);
    } else {
        let earlier = amounts.drop_last();
        lemma_first_call_then_rest(balance, floor, earlier);
        assert(earlier.drop_first() =~= rest.drop_last());
        assert(rest.last() == amounts.last());
        assert(earlier[0] == amounts[0]);
    }
}

/// A balance below the floor is at rest: no run moves it, and no call of the run completes.
pub proof fn law_below_floor_nothing_moves(balance: int, floor: int, amounts: Seq<int>)
    requires
        balance < floor,
    ensures
        balance_after_all(balance, floor, amounts) == balance,
        completed_count(balance, floor, amounts) == 0,
    decreases amounts.len(),
{
    if amounts.len() > 0 {
        law_below_floor_nothing_moves(balance, floor, amounts.drop_last());
    }
}

/// No run raises the balance, and none takes more than all its calls asked for together: a
/// call is debited once or not at all.
pub proof fn law_no_call_is_debited_twice(balance: int, floor: int, amounts: Seq<int>)
    requires
        forall|i: int| 0 <= i < amounts.len() ==> amounts[i] > 0,
    ensures
        balance - asked_total(amounts) <= balance_after_all(balance, floor, amounts) <= balance,
        completed_count(balance, floor, amounts) <= amounts.len(),
    decreases amounts.len(),
{
    if amounts.len() > 0 {
        law_no_call_is_debited_twice(balance, floor, amounts.drop_last());
    }
}

/// The balances that some run ends at are the starting balance itself and, where that
/// stands at or above the floor, every balance below it.
pub proof fn law_reachable_balances(start: int, floor: int, balance: int)
    ensures
        reachable(start, floor, balance) <==> (balance == start || (start >= floor && balance < start)),
{
    if reachable(start, floor, balance) {
        let amounts = choose|amounts: Seq<int>| balance == balance_after_all(start, floor, amounts);
        lemma_run_only_lowers(start, floor, amounts);
        if start < floor {
            law_below_floor_nothing_moves(start, floor, amounts);
        }
    }
    if balance == start {
        assert(balance == balance_after_all(start, floor, Seq::<int>::empty()));
    } else if start >= floor && balance < start {
        let one_call = seq![start - balance];
        assert(one_call.drop_last() =~= Seq::<int>::empty());
        assert(one_call.last() == start - balance);
        assert(balance_after_all(start, floor, one_call.drop_last()) == start);
        assert(balance == balance_after_all(start, floor, one_call));
    }
}

/// No run raises the balance.
proof fn lemma_run_only_lowers(balance: int, floor: int, amounts: Seq<int>)
    ensures
        balance_after_all(balance, floor, amounts) <= balance,
    decreases amounts.len(),
{
    if amounts.len() > 0 {
        lemma_run_only_lowers(balance, floor, amounts.drop_last());
    }
}

/// From a balance that stands exactly at the floor, the call served first is debited and no
/// other: whatever the amounts and however many calls race for it, one withdrawal completes.
pub proof fn law_at_the_floor_one_call_completes(floor: int, amounts: Seq<int>)
    requires
        amounts.len() > 0,
        forall|i: int| 0 <= i < amounts.len() ==> amounts[i] > 0,
    ensures
        completed_count(floor, floor, amounts) == 1,
        balance_after_all(floor, floor, amounts) == floor - amounts[0],
        debited_calls(floor, floor, amounts) == set![0int],
{
    lemma_first_call_then_rest(floor, floor, amounts);
    law_below_floor_nothing_moves(floor - amounts[0], floor, amounts.drop_first());
    assert(amounts.take(0) =~= Seq::<int>::empty());
    assert forall|i: int| 0 < i < amounts.len() implies !debits(
        #[trigger] balance_before(floor, floor, amounts, i),
        floor,
        amounts[i],
    ) by {
        let served = amounts.take(i);
        lemma_first_call_then_rest(floor, floor, served);
        law_below_floor_nothing_moves(floor - amounts[0], floor, served.drop_first());
    }
    assert(debited_calls(floor, floor, amounts) =~= set![0int]);
}

/// With one amount for every call, the run ends at the starting balance less that amount for
/// each withdrawal that completed.
pub proof fn law_final_balance_counts_completed(
    balance: int,
    floor: int,
    amounts: Seq<int>,
    amount: int,
)
    requires
        all_ask(amounts, amount),
    ensures
        balance_after_all(balance, floor, amounts) == balance - amount * completed_count(
            balance,
            floor,
            amounts,
        ),
    decreases amounts.len(),
{
    if amounts.len() == 0 {
        assert(amount * 0 == 0);
    } else {
        let earlier = amounts.drop_last();
        law_final_balance_counts_completed(balance, floor, earlier, amount);
        let done = completed_count(balance, floor, earlier) as int;
        assert(amounts.last() == amount);
        assert(amount * (done + 1) == amount * done + amount) by (nonlinear_arith);
    }
}

/// With one valid amount for every call, as many withdrawals complete as the starting balance
/// pays, or all of them if the calls are fewer; the balance ends that many amounts lower.
pub proof fn law_fixed_amount_run(balance: int, floor: int, amounts: Seq<int>, amount: int)
    requires
        amount > 0,
        all_ask(amounts, amount),
    ensures
        completed_count(balance, floor, amounts) == at_most(
            amounts.len(),
            capacity(balance, floor, amount),
        ),
        balance_after_all(balance, floor, amounts) == balance - amount * at_most(
            amounts.len(),
            capacity(balance, floor, amount),
        ),
    decreases amounts.len(),
{
    law_final_balance_counts_completed(balance, floor, amounts, amount);
    if amounts.len() > 0 {
        let earlier = amounts.drop_last();
        law_fixed_amount_run(balance, floor, earlier, amount);
        let served = earlier.len() as int;
        let limit = capacity(balance, floor, amount) as int;
        if balance >= floor {
            lemma_capacity_brackets(balance - floor, amount);
            if served < limit {
                assert(amount * served <= amount * (limit - 1)) by (nonlinear_arith)
                    requires
                        amount > 0,
                        served <= limit - 1,
                ;
            }
        }
    }
}

/// With one valid amount for every call, the withdrawals that complete are the ones served
/// first: a call is debited if and only if fewer calls than the starting balance pays were
/// served before it.
pub proof fn law_first_served_are_paid(balance: int, floor: int, amounts: Seq<int>, amount: int)
    requires
        amount > 0,
        all_ask(amounts, amount),
    ensures
        forall|i: int|
            0 <= i < amounts.len() ==> (debits(
                #[trigger] balance_before(balance, floor, amounts, i),
                floor,
                amounts[i],
            ) <==> i < capacity(balance, floor, amount)),
{
    let limit = capacity(balance, floor, amount) as int;
    assert forall|i: int| 0 <= i < amounts.len() implies (debits(
        #[trigger] balance_before(balance, floor, amounts, i),
        floor,
        amounts[i],
    ) <==> i < limit) by {
        law_fixed_amount_run(balance, floor, amounts.take(i), amount);
        let done = at_most(i as nat, capacity(balance, floor, amount)) as int;
        if balance >= floor {
            lemma_capacity_brackets(balance - floor, amount);
            if i < limit {
                assert(amount * done <= amount * (limit - 1)) by (nonlinear_arith)
                    requires
                        amount > 0,
                        done <= limit - 1,
                ;
            }
        } else {
            assert(amount * 0 == 0);
        }
    }
}

/// Whole division brackets its dividend: `amount` goes `room / amount` times into `room`, and
/// not once more.
proof fn lemma_capacity_brackets(room: int, amount: int)
    requires
        room >= 0,
        amount > 0,
    ensures
        room / amount >= 0,
        amount * (room / amount) <= room < amount * (room / amount + 1),
{
    vstd::arithmetic::div_mod::lemma_fundamental_div_mod(room, amount);
    vstd::arithmetic::div_mod::lemma_mod_bound(room, amount);
    vstd::arithmetic::div_mod::lemma_div_pos_is_pos(room, amount);
    assert(amount * (room / amount + 1) == amount * (room / amount) + amount) by (nonlinear_arith);
}

/// With one amount for every call, the order of service changes nothing: served in one
/// order or in another, the same number of withdrawals completes and the same balance is left.
pub proof fn law_order_of_service_is_immaterial(
    balance: int,
    floor: int,
    amounts: Seq<int>,
    amount: int,
    one: Seq<int>,
    other: Seq<int>,
)
    requires
        all_ask(amounts, amount),
        serves_each_once(one, amounts.len()),
        serves_each_once(other, amounts.len()),
    ensures
        balance_after_all(balance, floor, served_in(amounts, one)) == balance_after_all(
            balance,
            floor,
            served_in(amounts, other),
        ),
        completed_count(balance, floor, served_in(amounts, one)) == completed_count(
            balance,
            floor,
            served_in(amounts, other),
        ),
{
    assert(served_in(amounts, one) =~= amounts);
    assert(served_in(amounts, other) =~= amounts);
}

/// With one amount for every call, no order of service takes more than another: however the
/// calls race, the balance ends no lower than the start less one amount for each withdrawal
/// that completes when the same calls are served in any order one cares to name.
pub proof fn law_no_order_debits_more(
    balance: int,
    floor: int,
    amounts: Seq<int>,
    amount: int,
    raced: Seq<int>,
    named: Seq<int>,
)
    requires
        all_ask(amounts, amount),
        serves_each_once(raced, amounts.len()),
        serves_each_once(named, amounts.len()),
    ensures
        balance_after_all(balance, floor, served_in(amounts, raced)) >= balance - amount
            * completed_count(balance, floor, served_in(amounts, named)),
{
    law_order_of_service_is_immaterial(balance, floor, amounts, amount, raced, named);
    assert(served_in(amounts, raced) =~= amounts);
    law_final_balance_counts_completed(balance, floor, served_in(amounts, raced), amount);
}

/// With one valid amount for every call, no run overdraws by more than a single withdrawal:
/// a balance that starts at or above the floor ends no lower than one amount below it,
/// and never lower than its capacity allows, however many calls are made.
pub proof fn law_overdraft_is_bounded(balance: int, floor: int, amounts: Seq<int>, amount: int)
    requires
        amount > 0,
        all_ask(amounts, amount),
    ensures
        balance_after_all(balance, floor, amounts) >= balance - amount * capacity(
            balance,
            floor,
            amount,
        ),
        balance >= floor ==> balance_after_all(balance, floor, amounts) >= floor - amount,
{
    law_fixed_amount_run(balance, floor, amounts, amount);
    let limit = capacity(balance, floor, amount) as int;
    let done = at_most(amounts.len(), capacity(balance, floor, amount)) as int;
    assert(amount * done <= amount * limit) by (nonlinear_arith)
        requires
            amount > 0,
            done <= limit,
    ;
    if balance >= floor {
        lemma_capacity_brackets(balance - floor, amount);
        assert(amount * limit == amount * ((balance - floor) / amount) + amount) by (nonlinear_arith)
            requires
                limit == (balance - floor) / amount + 1,
        ;
    }
}

} // verus!
