use vstd::prelude::*;

use crate::error::ContractError;
use crate::ledger::BalanceLedger;
use crate::state::{NonceStore, RiskParameters};
use crate::txlog::{inflow_in, last_out_in, volume_in, TransactionLog};

verus! {

/// The sender's latest transfer lies within the cooling period of `now`.
pub open spec fn cooling_hit(log: TransactionLog, sender: u64, now: u64, cooling: u64) -> bool {
    match last_out_in(log.records@, sender) {
        Some(t) => t + cooling > now,
        None => false,
    }
}

/// The part of the sender's balance covered by aged funds: the current
/// balance less whatever arrived within the holding period, floored at 0.
pub open spec fn movable_of(
    ledger: BalanceLedger,
    log: TransactionLog,
    sender: u64,
    now: u64,
    holding: u64,
) -> int {
    let bal = ledger.current_of(sender) as int;
    let fresh = inflow_in(log.inflows@, sender, now, holding);
    if fresh >= bal {
        0
    } else {
        bal - fresh
    }
}

/// The risk engine's verdict on a proposed transfer, its checks in this
/// fixed order: per-transaction ceiling, rolling daily volume over the
/// rate window, nonce-counter exhaustion, cooling period, and coverage by
/// aged funds.
pub open spec fn spec_validate(
    log: TransactionLog,
    ledger: BalanceLedger,
    nonces: NonceStore,
    sender: u64,
    amount: u128,
    now: u64,
    params: RiskParameters,
    window: u64,
) -> Result<(), ContractError> {
    if amount > params.max_tx_value {
        Err(ContractError::TransactionValueTooHigh)
    } else if volume_in(log.records@, sender, now, window) + amount > params.daily_limit {
        Err(ContractError::DailyLimitExceeded)
    } else if nonces.next_of(sender) == u64::MAX {
        Err(ContractError::NonceOverflow)
    } else if cooling_hit(log, sender, now, params.cooling_period) {
        Err(ContractError::CoolingPeriod)
    } else if amount > movable_of(ledger, log, sender, now, params.min_holding_period) {
        Err(ContractError::InsufficientFunds)
    } else {
        Ok(())
    }
}

/// Validates a proposed transfer of `amount` by `sender` at time `now`
/// against the configured limits and the recorded history; `window` is the
/// configured rate-limit window. Decides exactly as `spec_validate` does.
pub fn validate_transaction(
    log: &TransactionLog,
    ledger: &BalanceLedger,
    nonces: &NonceStore,
    sender: u64,
    amount: u128,
    now: u64,
    params: &RiskParameters,
    window: u64,
) -> (r: Result<(), ContractError>)
    requires
        log.wf(),
        ledger.wf(),
        nonces.wf(),
    ensures
        r == spec_validate(*log, *ledger, *nonces, sender, amount, now, *params, window),
{
    if amount > params.max_tx_value {
        return Err(ContractError::TransactionValueTooHigh);
    }
    match log.daily_volume(sender, now, window) {
        None => {
            return Err(ContractError::DailyLimitExceeded);
        },
        Some(vol) => {
            if amount > u128::MAX - vol {
                return Err(ContractError::DailyLimitExceeded);
            }
            if vol + amount > params.daily_limit {
                return Err(ContractError::DailyLimitExceeded);
            }
        },
    }
    if nonces.next_nonce(sender) == u64::MAX {
        return Err(ContractError::NonceOverflow);
    }
    match log.last_transfer_time(sender) {
        Some(t) => {
            if t > now || now - t < params.cooling_period {
                return Err(ContractError::CoolingPeriod);
            }
        },
        None => {},
    }
    let bal = ledger.current_balance(sender);
    match log.recent_inflow(sender, now, params.min_holding_period) {
        None => {
            if amount > 0 {
                return Err(ContractError::InsufficientFunds);
            }
        },
        Some(fresh) => {
            let movable = if fresh >= bal {
                0
            } else {
                bal - fresh
            };
            if amount > movable {
                return Err(ContractError::InsufficientFunds);
            }
        },
    }
    Ok(())
}

} // verus!
