use shared_ledger::ledger::{LedgerError, WithdrawOutcome};
use shared_ledger::scenario::Scenario;
use shared_ledger::tally::Tally;
use shared_ledger::shared::SharedLedger;

fn run_by_shared_reference(scenario: &Scenario, order: &[usize]) -> (Tally, i64) {
    let ledger = SharedLedger::with_reserve(scenario.initial_balance, scenario.min_reserve);
    let actors: Vec<&SharedLedger> = (0..scenario.actor_count).map(|_| &ledger).collect();
    let mut tally = Tally::new();
    for &actor in order {
        tally.record(&actors[actor].withdraw(scenario.withdrawal_amount));
    }
    (tally, ledger.balance())
}

#[test]
fn shared_ledger_starts_at_its_initial_balance() {
    assert_eq!(SharedLedger::new(2000).balance(), 2000);
    assert_eq!(SharedLedger::with_reserve(-3, 50).balance(), -3);
}

#[test]
fn shared_withdraw_answers_as_the_ledger_does() {
    let ledger = SharedLedger::new(1000);
    assert_eq!(
        ledger.withdraw(500),
        Ok(WithdrawOutcome::Completed { amount: 500, remaining_balance: 500 })
    );
    assert_eq!(
        ledger.withdraw(500),
        Ok(WithdrawOutcome::Completed { amount: 500, remaining_balance: 0 })
    );
    assert_eq!(ledger.withdraw(500), Ok(WithdrawOutcome::Refused { current_balance: 0 }));
    assert_eq!(ledger.balance(), 0);
}

#[test]
fn shared_withdraw_rejects_zero_and_negative_amounts() {
    let ledger = SharedLedger::new(2000);
    assert_eq!(ledger.withdraw(-100), Err(LedgerError::InvalidAmount));
    assert_eq!(ledger.withdraw(0), Err(LedgerError::InvalidAmount));
    assert_eq!(ledger.balance(), 2000);
}

#[test]
fn shared_ledger_gives_the_lock_back_after_every_call() {
    let ledger = SharedLedger::new(700);
    for _ in 0..1000 {
        let _ = ledger.withdraw(1);
        let _ = ledger.withdraw(0);
        let _ = ledger.balance();
    }
    assert_eq!(ledger.balance(), 499);
    assert_eq!(ledger.withdraw(1), Ok(WithdrawOutcome::Refused { current_balance: 499 }));
}

#[test]
fn ten_actors_on_twenty_units_complete_four_withdrawals_in_any_order() {
    let scenario = Scenario::default();
    let orders: [[usize; 10]; 3] =
        [[0, 1, 2, 3, 4, 5, 6, 7, 8, 9], [9, 8, 7, 6, 5, 4, 3, 2, 1, 0], [3, 7, 0, 9, 1, 8, 2, 6, 4, 5]];
    for order in orders {
        let (tally, balance) = run_by_shared_reference(&scenario, &order);
        assert_eq!(tally, Tally { completed: 4, refused: 6, rejected: 0 });
        assert_eq!(balance, 0);
        assert_eq!(balance, scenario.initial_balance - 500 * tally.completed as i64);
    }
}

#[test]
fn two_actors_at_the_floor_cannot_both_succeed() {
    let scenario =
        Scenario { initial_balance: 500, withdrawal_amount: 500, actor_count: 2, min_reserve: 500 };
    for order in [[0usize, 1], [1, 0]] {
        let (tally, balance) = run_by_shared_reference(&scenario, &order);
        assert_eq!(tally, Tally { completed: 1, refused: 1, rejected: 0 });
        assert_eq!(balance, 0);
    }
}

#[test]
fn shared_and_owned_runs_leave_the_same_balance() {
    for initial_balance in [0i64, 499, 500, 1700, 2000, 5000] {
        for actor_count in [1u32, 2, 8, 16] {
            let scenario =
                Scenario { initial_balance, withdrawal_amount: 500, actor_count, min_reserve: 500 };
            let order: Vec<usize> = (0..actor_count as usize).rev().collect();
            let in_turn = scenario.run_in_turn();
            let (tally, balance) = run_by_shared_reference(&scenario, &order);
            assert_eq!(tally, in_turn.tally);
            assert_eq!(balance, in_turn.final_balance);
        }
    }
}
