use token_ledger::error::ContractError;
use token_ledger::ledger::BalanceLedger;

#[test]
fn empty_ledger_answers_zero() {
    let ledger = BalanceLedger::new();
    assert_eq!(ledger.get_balance(1, 0), 0);
    assert_eq!(ledger.get_balance(1, u64::MAX), 0);
    assert_eq!(ledger.current_balance(1), 0);
}

#[test]
fn credit_then_debit_restores_balance() {
    let mut ledger = BalanceLedger::new();
    ledger.credit(1, 100, 1).unwrap();
    let before = ledger.current_balance(1);
    ledger.credit(1, 40, 2).unwrap();
    assert_eq!(ledger.current_balance(1), 140);
    ledger.debit(1, 40, 3).unwrap();
    assert_eq!(ledger.current_balance(1), before);
    assert_eq!(ledger.get_balance(1, 1), before);
    assert_eq!(ledger.get_balance(1, 3), before);
}

#[test]
fn point_in_time_queries_see_history() {
    let mut ledger = BalanceLedger::new();
    ledger.credit(7, 100, 10).unwrap();
    ledger.credit(7, 50, 20).unwrap();
    ledger.debit(7, 30, 30).unwrap();
    assert_eq!(ledger.get_balance(7, 9), 0);
    assert_eq!(ledger.get_balance(7, 10), 100);
    assert_eq!(ledger.get_balance(7, 19), 100);
    assert_eq!(ledger.get_balance(7, 20), 150);
    assert_eq!(ledger.get_balance(7, 29), 150);
    assert_eq!(ledger.get_balance(7, 30), 120);
    assert_eq!(ledger.get_balance(7, u64::MAX), 120);
}

#[test]
fn debit_more_than_balance_is_refused() {
    let mut ledger = BalanceLedger::new();
    ledger.credit(1, 10, 1).unwrap();
    let r = ledger.debit(1, 11, 2);
    assert_eq!(r, Err(ContractError::InsufficientFunds));
    assert_eq!(ledger.current_balance(1), 10);
    let r2 = ledger.debit(2, 1, 2);
    assert_eq!(r2, Err(ContractError::InsufficientFunds));
}

#[test]
fn credit_past_maximum_is_refused() {
    let mut ledger = BalanceLedger::new();
    ledger.credit(1, u128::MAX, 1).unwrap();
    let r = ledger.credit(1, 1, 2);
    assert_eq!(r, Err(ContractError::Overflow));
    assert_eq!(ledger.current_balance(1), u128::MAX);
}

#[test]
fn latest_write_at_a_height_wins() {
    let mut ledger = BalanceLedger::new();
    ledger.credit(1, 10, 5).unwrap();
    ledger.credit(1, 20, 5).unwrap();
    assert_eq!(ledger.get_balance(1, 5), 30);
    assert_eq!(ledger.get_balance(1, 4), 0);
    assert_eq!(ledger.current_balance(1), 30);
}

#[test]
fn accounts_do_not_interfere() {
    let mut ledger = BalanceLedger::new();
    ledger.credit(1, 100, 1).unwrap();
    ledger.credit(2, 200, 2).unwrap();
    ledger.debit(1, 50, 3).unwrap();
    assert_eq!(ledger.current_balance(1), 50);
    assert_eq!(ledger.current_balance(2), 200);
    assert_eq!(ledger.get_balance(2, 2), 200);
}
