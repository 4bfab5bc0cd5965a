use token_ledger::error::ContractError;
use token_ledger::txlog::TransactionLog;
use token_ledger::state::TransactionMetadata;
use token_ledger::vesting::VestingSchedule;

fn schedule(total: u128, start: u64, cliff: u64, end: u64, claimed: u128) -> VestingSchedule {
    VestingSchedule {
        beneficiary: 2,
        start_time: start,
        cliff_time: cliff,
        end_time: end,
        total_amount: total,
        claimed_amount: claimed,
        last_claim_time: None,
    }
}

#[test]
fn vesting_boundary_values() {
    let s = schedule(1000, 0, 100, 1000, 0);
    assert_eq!(s.claimable(50), Ok(0));
    assert_eq!(s.claimable(550), Ok(550));
    assert_eq!(s.claimable(1000), Ok(1000));
}

#[test]
fn claimable_is_nondecreasing_in_time() {
    let s = schedule(1000, 0, 100, 1000, 0);
    let mut prev: u128 = 0;
    let mut t: u64 = 100;
    while t <= 1000 {
        let v = s.claimable(t).unwrap();
        assert!(v >= prev);
        prev = v;
        t += 50;
    }
}

#[test]
fn claimable_at_cliff_and_past_end() {
    let s = schedule(1000, 0, 100, 1000, 0);
    assert_eq!(s.claimable(99), Ok(0));
    assert_eq!(s.claimable(100), Ok(100));
    assert_eq!(s.claimable(5000), Ok(1000));
}

#[test]
fn claimable_subtracts_already_claimed() {
    let s = schedule(1000, 0, 100, 1000, 550);
    assert_eq!(s.claimable(550), Ok(0));
    assert_eq!(s.claimable(770), Ok(220));
    assert_eq!(s.claimable(1000), Ok(450));
}

#[test]
fn claimable_truncates_the_ratio() {
    // 1000 * 333 / 999 = 333333 / 999 = 333 (truncating).
    let s = schedule(1000, 0, 0, 999, 0);
    assert_eq!(s.claimable(333), Ok(333));
    // 7 * 3 / 9 = 2 with truncation.
    let s2 = schedule(7, 0, 0, 9, 0);
    assert_eq!(s2.claimable(3), Ok(2));
}

#[test]
fn claimable_vested_product_overflow_is_refused() {
    let s = schedule(u128::MAX, 0, 0, u64::MAX, 0);
    assert_eq!(s.claimable(2), Err(ContractError::Overflow));
    // Past the end there is no product to overflow.
    assert_eq!(s.claimable(u64::MAX), Ok(u128::MAX));
}

#[test]
fn daily_volume_counts_only_the_window() {
    let mut log = TransactionLog::new();
    let mut add = |log: &mut TransactionLog, t: u64, amount: u128, nonce: u64| {
        log.append_record(
            9,
            TransactionMetadata { timestamp: t, amount, signature: Vec::new(), nonce },
        );
    };
    add(&mut log, 100, 10, 0);
    add(&mut log, 101, 20, 1);
    add(&mut log, 200, 40, 2);
    // Window (100, 200]: the record at t=100 is excluded, 101 and 200 count.
    assert_eq!(log.daily_volume(9, 200, 100), Some(60));
    // A different account sees nothing.
    assert_eq!(log.daily_volume(8, 200, 100), Some(0));
    // A wide window sees everything.
    assert_eq!(log.daily_volume(9, 200, 1000), Some(70));
}

#[test]
fn recent_inflow_counts_only_the_window() {
    let mut log = TransactionLog::new();
    log.append_inflow(4, 50, 500);
    log.append_inflow(4, 120, 70);
    log.append_inflow(5, 130, 1000);
    assert_eq!(log.recent_inflow(4, 150, 100), Some(70));
    assert_eq!(log.recent_inflow(4, 150, 120), Some(570));
    assert_eq!(log.recent_inflow(5, 150, 100), Some(1000));
    assert_eq!(log.recent_inflow(6, 150, 100), Some(0));
}

#[test]
fn last_transfer_time_finds_the_latest() {
    let mut log = TransactionLog::new();
    assert_eq!(log.last_transfer_time(9), None);
    log.append_record(
        9,
        TransactionMetadata { timestamp: 10, amount: 1, signature: Vec::new(), nonce: 0 },
    );
    log.append_record(
        8,
        TransactionMetadata { timestamp: 20, amount: 1, signature: Vec::new(), nonce: 0 },
    );
    log.append_record(
        9,
        TransactionMetadata { timestamp: 30, amount: 1, signature: Vec::new(), nonce: 1 },
    );
    assert_eq!(log.last_transfer_time(9), Some(30));
    assert_eq!(log.last_transfer_time(8), Some(20));
}
