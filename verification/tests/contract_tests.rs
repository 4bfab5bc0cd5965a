use k256::ecdsa::signature::Signer;
use k256::ecdsa::{Signature, SigningKey};
use token_ledger::contract::TokenState;
use token_ledger::error::ContractError;
use token_ledger::state::{AllowanceEntry, RiskParameters, TokenConfig};
use token_ledger::vesting::VestingSchedule;
use token_ledger::Env;

const OWNER: u64 = 1;

fn make_keypair(seed: u8) -> (SigningKey, Vec<u8>) {
    let sk = SigningKey::from_slice(&[seed; 32]).unwrap();
    let pk = sk.verifying_key().to_sec1_bytes().to_vec();
    (sk, pk)
}

fn sign_bytes(sk: &SigningKey, msg: &[u8]) -> Vec<u8> {
    let sig: Signature = sk.sign(msg);
    sig.to_bytes().to_vec()
}

fn transfer_msg_bytes(sender: u64, recipient: u64, amount: u128) -> Vec<u8> {
    let mut v = Vec::new();
    v.extend_from_slice(&sender.to_be_bytes());
    v.extend_from_slice(&recipient.to_be_bytes());
    v.extend_from_slice(&amount.to_be_bytes());
    v
}

fn vesting_msg_bytes(caller: u64, beneficiary: u64, amount: u128, start: u64, end: u64) -> Vec<u8> {
    let mut v = Vec::new();
    v.extend_from_slice(&caller.to_be_bytes());
    v.extend_from_slice(&beneficiary.to_be_bytes());
    v.extend_from_slice(&amount.to_be_bytes());
    v.extend_from_slice(&start.to_be_bytes());
    v.extend_from_slice(&end.to_be_bytes());
    v
}

fn risk(max_tx: u128, daily: u128, holding: u64, cooling: u64) -> RiskParameters {
    RiskParameters {
        max_tx_value: max_tx,
        daily_limit: daily,
        min_holding_period: holding,
        max_accounts_per_block: 10,
        cooling_period: cooling,
    }
}

fn setup(params: RiskParameters, supply: u128) -> (TokenState, SigningKey) {
    let config = TokenConfig {
        name: "Token".to_string(),
        symbol: "TKN".to_string(),
        decimals: 6,
        total_supply: supply,
        owner: OWNER,
        paused: false,
        transfer_limit: 0,
        rate_limit_window: 86_400,
        version: "2".to_string(),
    };
    let mut state = TokenState::new(config, params).unwrap();
    let (sk, pk) = make_keypair(7);
    state.register_key(OWNER, pk);
    (state, sk)
}

fn env(height: u64, time: u64) -> Env {
    Env { height, time }
}

fn transfer(
    state: &mut TokenState,
    sk: &SigningKey,
    e: Env,
    sender: u64,
    recipient: u64,
    amount: u128,
    nonce: u64,
) -> Result<u64, ContractError> {
    let sig = sign_bytes(sk, &transfer_msg_bytes(sender, recipient, amount));
    state.execute_transfer(e, sender, recipient, amount, nonce, &sig)
}

#[test]
fn setup_refuses_zero_limits() {
    let config = TokenConfig {
        name: "Token".to_string(),
        symbol: "TKN".to_string(),
        decimals: 6,
        total_supply: 1,
        owner: OWNER,
        paused: false,
        transfer_limit: 0,
        rate_limit_window: 86_400,
        version: "2".to_string(),
    };
    let r = TokenState::new(config, risk(1000, 0, 1, 1));
    assert!(matches!(r, Err(ContractError::InvalidRiskParameters)));
}

#[test]
fn transfer_moves_funds_and_logs() {
    let (mut state, sk) = setup(risk(5000, 100_000, 1, 1), 1_000_000);
    let r = transfer(&mut state, &sk, env(1, 100), OWNER, 2, 1500, 0);
    assert_eq!(r, Ok(0));
    assert_eq!(state.query_balance(OWNER).balance, 998_500);
    assert_eq!(state.query_balance(2).balance, 1500);
    assert_eq!(state.nonces.next_nonce(OWNER), 1);
}

#[test]
fn transfer_value_too_high() {
    // Scenario: a ceiling of 1000 refuses a transfer of 1500.
    let (mut state, sk) = setup(risk(1000, 5000, 1, 1), 1_000_000);
    let r = transfer(&mut state, &sk, env(1, 100), OWNER, 2, 1500, 0);
    assert_eq!(r, Err(ContractError::TransactionValueTooHigh));
    assert_eq!(state.query_balance(2).balance, 0);
}

#[test]
fn third_transfer_breaks_daily_limit() {
    // Scenario: three transfers of 2000 inside the rate window with a
    // daily limit of 5000; the third fails (4000 + 2000 > 5000).
    let (mut state, sk) = setup(risk(3000, 5000, 1, 1), 1_000_000);
    assert_eq!(transfer(&mut state, &sk, env(1, 100), OWNER, 2, 2000, 0), Ok(0));
    assert_eq!(transfer(&mut state, &sk, env(2, 200), OWNER, 2, 2000, 1), Ok(1));
    let r = transfer(&mut state, &sk, env(3, 300), OWNER, 2, 2000, 2);
    assert_eq!(r, Err(ContractError::DailyLimitExceeded));
    assert_eq!(state.query_balance(2).balance, 4000);
}

#[test]
fn cooling_period_blocks_rapid_transfers() {
    let (mut state, sk) = setup(risk(5000, 1_000_000, 1, 100), 1_000_000);
    assert_eq!(transfer(&mut state, &sk, env(1, 1000), OWNER, 2, 10, 0), Ok(0));
    let r = transfer(&mut state, &sk, env(2, 1050), OWNER, 2, 10, 1);
    assert_eq!(r, Err(ContractError::CoolingPeriod));
    assert_eq!(transfer(&mut state, &sk, env(3, 1100), OWNER, 2, 10, 1), Ok(1));
}

#[test]
fn fresh_funds_must_age_before_moving() {
    let (mut state, sk) = setup(risk(5000, 1_000_000, 1000, 1), 1_000_000);
    let (sk2, pk2) = make_keypair(9);
    state.register_key(2, pk2);
    assert_eq!(transfer(&mut state, &sk, env(1, 100), OWNER, 2, 2000, 0), Ok(0));
    // At t=500 the 2000 received at t=100 is still fresh: nothing movable.
    let r = transfer(&mut state, &sk2, env(2, 500), 2, 3, 1000, 0);
    assert_eq!(r, Err(ContractError::InsufficientFunds));
    // At t=1200 the funds have aged past the 1000-second holding period.
    assert_eq!(transfer(&mut state, &sk2, env(3, 1200), 2, 3, 1000, 0), Ok(0));
    assert_eq!(state.query_balance(3).balance, 1000);
}

#[test]
fn replayed_nonce_is_rejected() {
    let (mut state, sk) = setup(risk(5000, 1_000_000, 1, 1), 1_000_000);
    assert_eq!(transfer(&mut state, &sk, env(1, 100), OWNER, 2, 10, 0), Ok(0));
    // The same (account, nonce) pair a second time: refused.
    let r = transfer(&mut state, &sk, env(2, 200), OWNER, 2, 10, 0);
    assert_eq!(r, Err(ContractError::InvalidNonce));
    // A nonce from the future is refused too.
    let r2 = transfer(&mut state, &sk, env(2, 200), OWNER, 2, 10, 5);
    assert_eq!(r2, Err(ContractError::InvalidNonce));
    // The expected next nonce goes through.
    assert_eq!(transfer(&mut state, &sk, env(2, 200), OWNER, 2, 10, 1), Ok(1));
}

#[test]
fn nonce_counter_exhaustion_retires_the_account() {
    let (mut state, sk) = setup(risk(5000, 1_000_000, 1, 1), 1_000_000);
    state.nonces.set_next(OWNER, u64::MAX);
    let r = transfer(&mut state, &sk, env(1, 100), OWNER, 2, 10, u64::MAX);
    assert_eq!(r, Err(ContractError::NonceOverflow));
}

#[test]
fn bad_signature_is_rejected() {
    let (mut state, sk) = setup(risk(5000, 1_000_000, 1, 1), 1_000_000);
    // Signed over a different amount than submitted.
    let sig = sign_bytes(&sk, &transfer_msg_bytes(OWNER, 2, 11));
    let r = state.execute_transfer(env(1, 100), OWNER, 2, 10, 0, &sig);
    assert_eq!(r, Err(ContractError::InvalidSignature));
    // An unregistered sender authorizes nothing, however well it signs.
    state.ledger.credit(2, 100, 1).unwrap();
    let (sk2, _) = make_keypair(9);
    let sig2 = sign_bytes(&sk2, &transfer_msg_bytes(2, 3, 10));
    let r2 = state.execute_transfer(env(2, 100), 2, 3, 10, 0, &sig2);
    assert_eq!(r2, Err(ContractError::InvalidSignature));
}

#[test]
fn recipient_balance_overflow_is_refused() {
    let (mut state, sk) = setup(risk(5000, 1_000_000, 1, 1), 1_000_000);
    state.ledger.credit(2, u128::MAX, 1).unwrap();
    let r = transfer(&mut state, &sk, env(2, 100), OWNER, 2, 10, 0);
    assert_eq!(r, Err(ContractError::Overflow));
    assert_eq!(state.query_balance(2).balance, u128::MAX);
}

#[test]
fn pause_blocks_transfers_until_unpause() {
    // Scenario: the owner pauses; a transfer fails with Paused; unpausing
    // restores normal behaviour.
    let (mut state, sk) = setup(risk(5000, 1_000_000, 1, 1), 1_000_000);
    assert_eq!(state.execute_pause(2), Err(ContractError::Unauthorized));
    assert_eq!(state.execute_pause(OWNER), Ok(()));
    let r = transfer(&mut state, &sk, env(1, 100), OWNER, 2, 10, 0);
    assert_eq!(r, Err(ContractError::Paused));
    assert_eq!(state.execute_unpause(2), Err(ContractError::Unauthorized));
    assert_eq!(state.execute_unpause(OWNER), Ok(()));
    assert_eq!(transfer(&mut state, &sk, env(2, 200), OWNER, 2, 10, 0), Ok(0));
}

#[test]
fn pause_blocks_claims_but_not_admin() {
    let (mut state, sk) = setup(risk(5000, 1_000_000, 1, 1), 1_000_000);
    let sig = sign_bytes(&sk, &vesting_msg_bytes(OWNER, 2, 1000, 0, 1000));
    assert_eq!(
        state.execute_create_vesting_schedule(env(1, 0), OWNER, 2, 1000, 0, 100, 1000, &sig),
        Ok(())
    );
    assert_eq!(state.execute_pause(OWNER), Ok(()));
    assert_eq!(state.execute_claim_vesting(env(2, 550), 2), Err(ContractError::Paused));
    // Admin operations stay available while paused.
    assert_eq!(state.execute_update_risk_parameters(OWNER, risk(1, 1, 1, 1)), Ok(()));
    assert_eq!(state.execute_unpause(OWNER), Ok(()));
    assert_eq!(state.execute_claim_vesting(env(3, 550), 2), Ok(550));
}

#[test]
fn vesting_claim_scenario() {
    // Scenario: a grant of 1000 over [0, 1000] with cliff 100; a claim at
    // t=550 yields 550, a later claim at t=1000 the remaining 450.
    let (mut state, sk) = setup(risk(5000, 1_000_000, 1, 1), 1_000_000);
    let sig = sign_bytes(&sk, &vesting_msg_bytes(OWNER, 2, 1000, 0, 1000));
    assert_eq!(
        state.execute_create_vesting_schedule(env(1, 0), OWNER, 2, 1000, 0, 100, 1000, &sig),
        Ok(())
    );
    assert_eq!(state.query_balance(OWNER).balance, 999_000);
    assert_eq!(state.execute_claim_vesting(env(2, 50), 2), Err(ContractError::NoVestingToClaim));
    assert_eq!(state.execute_claim_vesting(env(3, 550), 2), Ok(550));
    assert_eq!(state.query_balance(2).balance, 550);
    assert_eq!(state.execute_claim_vesting(env(4, 1000), 2), Ok(450));
    assert_eq!(state.query_balance(2).balance, 1000);
    assert_eq!(
        state.execute_claim_vesting(env(5, 1001), 2),
        Err(ContractError::NoVestingToClaim)
    );
    let schedules = state.query_vesting_schedules(2).schedules;
    assert_eq!(schedules.len(), 1);
    assert_eq!(schedules[0].claimed_amount, 1000);
    assert_eq!(schedules[0].last_claim_time, Some(1000));
}

#[test]
fn claim_sums_multiple_grants() {
    let (mut state, sk) = setup(risk(5000, 1_000_000, 1, 1), 1_000_000);
    let sig1 = sign_bytes(&sk, &vesting_msg_bytes(OWNER, 2, 1000, 0, 1000));
    let sig2 = sign_bytes(&sk, &vesting_msg_bytes(OWNER, 2, 600, 0, 600));
    assert_eq!(
        state.execute_create_vesting_schedule(env(1, 0), OWNER, 2, 1000, 0, 100, 1000, &sig1),
        Ok(())
    );
    assert_eq!(
        state.execute_create_vesting_schedule(env(2, 0), OWNER, 2, 600, 0, 0, 600, &sig2),
        Ok(())
    );
    // At t=600: 600 from the first grant, all 600 of the second.
    assert_eq!(state.execute_claim_vesting(env(3, 600), 2), Ok(1200));
    assert_eq!(state.query_balance(2).balance, 1200);
}

#[test]
fn create_vesting_schedule_checks() {
    let (mut state, sk) = setup(risk(5000, 1_000_000, 1, 1), 1_000_000);
    let sig = sign_bytes(&sk, &vesting_msg_bytes(OWNER, 2, 1000, 0, 1000));
    // Only the owner may grant.
    assert_eq!(
        state.execute_create_vesting_schedule(env(1, 0), 2, 2, 1000, 0, 100, 1000, &sig),
        Err(ContractError::Unauthorized)
    );
    // start must precede end.
    let sig_eq = sign_bytes(&sk, &vesting_msg_bytes(OWNER, 2, 1000, 1000, 1000));
    assert_eq!(
        state.execute_create_vesting_schedule(env(1, 0), OWNER, 2, 1000, 1000, 1000, 1000, &sig_eq),
        Err(ContractError::InvalidVestingSchedule)
    );
    // The cliff must lie between start and end.
    assert_eq!(
        state.execute_create_vesting_schedule(env(1, 0), OWNER, 2, 1000, 0, 2000, 1000, &sig),
        Err(ContractError::InvalidVestingSchedule)
    );
    // The signature must cover (caller, beneficiary, amount, start, end).
    let bad = sign_bytes(&sk, &vesting_msg_bytes(OWNER, 2, 999, 0, 1000));
    assert_eq!(
        state.execute_create_vesting_schedule(env(1, 0), OWNER, 2, 1000, 0, 100, 1000, &bad),
        Err(ContractError::InvalidSignature)
    );
    // The escrow must be covered by the caller's balance.
    let big = sign_bytes(&sk, &vesting_msg_bytes(OWNER, 2, 2_000_000, 0, 1000));
    assert_eq!(
        state.execute_create_vesting_schedule(env(1, 0), OWNER, 2, 2_000_000, 0, 100, 1000, &big),
        Err(ContractError::InsufficientFunds)
    );
    // A valid grant escrows the total.
    assert_eq!(
        state.execute_create_vesting_schedule(env(1, 0), OWNER, 2, 1000, 0, 100, 1000, &sig),
        Ok(())
    );
    assert_eq!(state.query_balance(OWNER).balance, 999_000);
}

#[test]
fn claim_overflow_is_refused_atomically() {
    let (mut state, _sk) = setup(risk(5000, 1_000_000, 1, 1), 1_000_000);
    state.vesting.push_schedule(VestingSchedule {
        beneficiary: 2,
        start_time: 0,
        cliff_time: 0,
        end_time: u64::MAX,
        total_amount: u128::MAX,
        claimed_amount: 0,
        last_claim_time: None,
    });
    let r = state.execute_claim_vesting(env(1, 2), 2);
    assert_eq!(r, Err(ContractError::Overflow));
    // Nothing was claimed and nothing credited.
    assert_eq!(state.query_balance(2).balance, 0);
    assert_eq!(state.query_vesting_schedules(2).schedules[0].claimed_amount, 0);
}

#[test]
fn update_risk_parameters_checks() {
    let (mut state, _sk) = setup(risk(5000, 1_000_000, 1, 1), 1_000_000);
    assert_eq!(
        state.execute_update_risk_parameters(2, risk(1, 1, 1, 1)),
        Err(ContractError::Unauthorized)
    );
    assert_eq!(
        state.execute_update_risk_parameters(OWNER, risk(1000, 0, 1, 1)),
        Err(ContractError::InvalidRiskParameters)
    );
    assert_eq!(state.execute_update_risk_parameters(OWNER, risk(7, 8, 9, 10)), Ok(()));
    assert_eq!(state.risk_params, risk(7, 8, 9, 10));
}

#[test]
fn allowance_queries() {
    let (mut state, _sk) = setup(risk(5000, 1_000_000, 1, 1), 1_000_000);
    assert_eq!(state.query_allowance(1, 2).allowance, 0);
    state.allowances.entries.push(AllowanceEntry { owner: 1, spender: 2, amount: 42 });
    assert_eq!(state.query_allowance(1, 2).allowance, 42);
    assert_eq!(state.query_allowance(2, 1).allowance, 0);
}

#[test]
fn vesting_query_filters_by_beneficiary() {
    let (mut state, sk) = setup(risk(5000, 1_000_000, 1, 1), 1_000_000);
    let sig2 = sign_bytes(&sk, &vesting_msg_bytes(OWNER, 2, 100, 0, 1000));
    let sig3 = sign_bytes(&sk, &vesting_msg_bytes(OWNER, 3, 200, 0, 1000));
    let sig2b = sign_bytes(&sk, &vesting_msg_bytes(OWNER, 2, 300, 0, 2000));
    state.execute_create_vesting_schedule(env(1, 0), OWNER, 2, 100, 0, 10, 1000, &sig2).unwrap();
    state.execute_create_vesting_schedule(env(2, 0), OWNER, 3, 200, 0, 10, 1000, &sig3).unwrap();
    state.execute_create_vesting_schedule(env(3, 0), OWNER, 2, 300, 0, 10, 2000, &sig2b).unwrap();
    let of2 = state.query_vesting_schedules(2).schedules;
    assert_eq!(of2.len(), 2);
    assert_eq!(of2[0].total_amount, 100);
    assert_eq!(of2[1].total_amount, 300);
    let of3 = state.query_vesting_schedules(3).schedules;
    assert_eq!(of3.len(), 1);
    assert_eq!(of3[0].total_amount, 200);
    assert!(state.query_vesting_schedules(4).schedules.is_empty());
}

#[test]
fn error_messages_name_the_condition() {
    assert_eq!(ContractError::Paused.message(), "contract is paused");
    assert_eq!(ContractError::Unauthorized.message(), "unauthorized operation");
    assert_eq!(ContractError::InvalidNonce.message(), "invalid or replayed nonce");
    assert_eq!(ContractError::Overflow.message(), "arithmetic overflow");
}

#[test]
fn transfer_to_self_keeps_the_balance() {
    let (mut state, sk) = setup(risk(5000, 1_000_000, 1, 1), 1_000_000);
    assert_eq!(transfer(&mut state, &sk, env(1, 100), OWNER, OWNER, 500, 0), Ok(0));
    assert_eq!(state.query_balance(OWNER).balance, 1_000_000);
}
