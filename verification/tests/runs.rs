use shared_ledger::ledger::{Ledger, LedgerError, WithdrawOutcome};
use shared_ledger::tally::Tally;

#[test]
fn withdraw_each_answers_every_call_on_the_balance_it_finds() {
    let mut ledger = Ledger::new(1700);
    let answers = ledger.withdraw_each(&[500, 0, -3, 700, 900, 1]);
    assert_eq!(
        answers,
        vec![
            Ok(WithdrawOutcome::Completed { amount: 500, remaining_balance: 1200 }),
            Err(LedgerError::InvalidAmount),
            Err(LedgerError::InvalidAmount),
            Ok(WithdrawOutcome::Completed { amount: 700, remaining_balance: 500 }),
            Ok(WithdrawOutcome::Completed { amount: 900, remaining_balance: -400 }),
            Ok(WithdrawOutcome::Refused { current_balance: -400 }),
        ]
    );
    assert_eq!(ledger.balance(), -400);
    assert_eq!(ledger.min_reserve(), 500);
}

#[test]
fn withdraw_each_with_no_calls_changes_nothing() {
    let mut ledger = Ledger::new(1700);
    assert_eq!(ledger.withdraw_each(&[]), vec![]);
    assert_eq!(ledger.balance(), 1700);
}

#[test]
fn unequal_amounts_depend_on_the_order_of_service() {
    let mut one = Ledger::new(500);
    one.withdraw_each(&[500, 100]);
    assert_eq!(one.balance(), 0);
    let mut other = Ledger::new(500);
    other.withdraw_each(&[100, 500]);
    assert_eq!(other.balance(), 400);
}

#[test]
fn completed_calls_are_the_calls_that_found_the_floor_kept() {
    let amounts = [300i64, 900, 1, 250, 4000, 7, 500, 500];
    for start in [0i64, 499, 500, 1201, 5000, 12_000] {
        let mut ledger = Ledger::new(start);
        let mut at_or_above = 0u32;
        let mut debited = 0i64;
        let mut tally = Tally::new();
        for amount in amounts {
            let found = ledger.balance();
            let answer = ledger.withdraw(amount);
            if found >= 500 {
                at_or_above += 1;
                debited += amount;
                assert_eq!(
                    answer,
                    Ok(WithdrawOutcome::Completed { amount, remaining_balance: found - amount })
                );
            } else {
                assert_eq!(answer, Ok(WithdrawOutcome::Refused { current_balance: found }));
            }
            tally.record(&answer);
        }
        assert_eq!(tally.completed, at_or_above);
        assert_eq!(tally.refused, amounts.len() as u32 - at_or_above);
        assert_eq!(ledger.balance(), start - debited);
    }
}

#[test]
fn withdraw_each_and_withdraw_times_agree_on_equal_amounts() {
    for start in [0i64, 500, 1300, 2000] {
        let mut each = Ledger::new(start);
        let answers = each.withdraw_each(&[500; 10]);
        let mut tally = Tally::new();
        for answer in &answers {
            tally.record(answer);
        }
        let mut times = Ledger::new(start);
        assert_eq!(times.withdraw_times(500, 10), tally);
        assert_eq!(times.balance(), each.balance());
    }
}

#[test]
fn at_the_floor_only_the_first_served_call_completes() {
    let mut ledger = Ledger::with_reserve(800, 800);
    let answers = ledger.withdraw_each(&[1, 800, 5000, 3]);
    assert_eq!(answers[0], Ok(WithdrawOutcome::Completed { amount: 1, remaining_balance: 799 }));
    for answer in &answers[1..] {
        assert_eq!(*answer, Ok(WithdrawOutcome::Refused { current_balance: 799 }));
    }
    assert_eq!(ledger.balance(), 799);
}

#[test]
fn no_run_of_equal_amounts_overdraws_by_more_than_one_withdrawal() {
    for start in [500i64, 501, 999, 1000, 1750, 2000] {
        for amount in [1i64, 499, 500, 501, 1800] {
            for calls in [1u32, 2, 5, 50] {
                let mut ledger = Ledger::new(start);
                let left = ledger.withdrawals_left(amount);
                let tally = ledger.withdraw_times(amount, calls);
                assert!(ledger.balance() >= 500 - amount);
                assert!(ledger.balance() >= start - amount * left as i64);
                assert_eq!(tally.completed as u64, left.min(calls as u64));
            }
        }
    }
}
