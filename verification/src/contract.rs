use vstd::prelude::*;

use crate::error::ContractError;
use crate::ledger::BalanceLedger;
use crate::messages::{
    spec_transfer_msg,
    spec_vesting_msg,
    transfer_message,
    vesting_message,
};
use crate::security::{signature_ok, SecurityModule};
use crate::state::{
    AllowanceStore,
    NonceStore,
    RiskParameters,
    TokenConfig,
    TransactionMetadata,
};
use crate::txlog::{has_record, Inflow, TransactionLog, TxRecord};
use crate::validation::{spec_validate, validate_transaction};
use crate::vesting::{
    any_mul_overflow,
    filter_beneficiary,
    lemma_claimable_bounds,
    spec_total_claimable,
    updated_schedule,
    VestingEngine,
    VestingSchedule,
};
use crate::Env;

verus! {

/// The complete persisted state of the contract: configuration, limits,
/// the versioned ledger, the transaction log, sequence counters, vesting
/// grants, allowances and the key registry. Only the execute operations
/// below mutate it, each atomically: a failed operation changes nothing.
#[derive(Debug)]
pub struct TokenState {
    pub config: TokenConfig,
    pub risk_params: RiskParameters,
    pub ledger: BalanceLedger,
    pub log: TransactionLog,
    pub nonces: NonceStore,
    pub vesting: VestingEngine,
    pub allowances: AllowanceStore,
    pub auth: SecurityModule,
}

/// The balance an account currently holds.
pub struct BalanceResponse {
    pub balance: u128,
}

/// The allowance an owner granted a spender.
pub struct AllowanceResponse {
    pub allowance: u128,
}

/// The vesting grants recorded for an account.
pub struct VestingSchedulesResponse {
    pub schedules: Vec<VestingSchedule>,
}

/// A submitted nonce is accepted only when it is exactly the account's
/// next expected sequence number.
pub open spec fn nonce_accepted(s: TokenState, sender: u64, nonce: u64) -> bool {
    nonce == s.nonces.next_of(sender)
}

/// Replay rejection: once an account's counter has moved past a nonce —
/// as it does the moment a transfer with that nonce succeeds — no
/// submission carrying that nonce is ever accepted again, so a second
/// submission of the same (account, nonce) pair fails.
pub proof fn lemma_replay_rejected(s: TokenState, sender: u64, nonce: u64)
    requires
        s.nonces.next_of(sender) > nonce,
    ensures
        !nonce_accepted(s, sender, nonce),
{
}

impl TokenState {
    /// Every component is well-formed, the configured limits are positive,
    /// and every logged transfer carries a nonce its account's counter has
    /// already moved past.
    pub open spec fn wf(self) -> bool {
        &&& self.ledger.wf()
        &&& self.log.wf()
        &&& self.nonces.wf()
        &&& self.vesting.wf()
        &&& self.allowances.wf()
        &&& self.auth.wf()
        &&& self.risk_params.valid()
        &&& forall|j: int|
            0 <= j < self.log.records@.len() ==> (#[trigger] self.log.records@[j]).meta.nonce
                < self.nonces.next_of(self.log.records@[j].account)
    }

    /// The block context never runs behind what the state has recorded.
    pub open spec fn env_ok(self, env: Env) -> bool {
        &&& env.height >= self.ledger.last_height
        &&& env.time >= self.log.last_time
    }

    /// Sets up the contract: validates the limits, then starts with the
    /// whole supply credited to the owner at height 0 and everything else
    /// empty. Fails with `InvalidRiskParameters`, creating nothing, exactly
    /// when some limit is zero.
    pub fn new(config: TokenConfig, params: RiskParameters) -> (r: Result<
        TokenState,
        ContractError,
    >)
        ensures
            r is Ok <==> params.valid(),
            r is Err ==> r == Err::<TokenState, ContractError>(ContractError::InvalidRiskParameters),
            r is Ok ==> {
                let s = r->Ok_0;
                &&& s.wf()
                &&& s.config == config
                &&& s.risk_params == params
                &&& s.ledger.current_of(config.owner) == config.total_supply
                &&& forall|b: u64| b != config.owner ==> s.ledger.current_of(b) == 0
                &&& forall|a: u64| s.nonces.next_of(a) == 0
                &&& s.vesting.schedules@ == Seq::<VestingSchedule>::empty()
                &&& s.log.records@ == Seq::<TxRecord>::empty()
                &&& s.log.inflows@ == Seq::<Inflow>::empty()
                &&& forall|a: u64| s.auth.key_of(a) is None
                &&& forall|o: u64, p: u64| s.allowances.allowance_of(o, p) == 0
                &&& s.ledger.last_height == 0
                &&& s.log.last_time == 0
            },
    {
        if !params.check_valid() {
            return Err(ContractError::InvalidRiskParameters);
        }
        let owner = config.owner;
        let supply = config.total_supply;
        let mut ledger = BalanceLedger::new();
        match ledger.credit(owner, supply, 0) {
            Ok(()) => {},
            Err(_) => {
                proof {
                    assert(false);
                }
                return Err(ContractError::InvalidRiskParameters);
            },
        }
        Ok(
            TokenState {
                config,
                risk_params: params,
                ledger,
                log: TransactionLog::new(),
                nonces: NonceStore::new(),
                vesting: VestingEngine::new(),
                allowances: AllowanceStore::new(),
                auth: SecurityModule::new(),
            },
        )
    }

    /// Registers (or replaces) the persisted public key of `account`,
    /// touching nothing else. Keys are supplied at account setup; the
    /// contract never fabricates one.
    pub fn register_key(&mut self, account: u64, key: Vec<u8>)
        requires
            old(self).wf(),
        ensures
            final(self).wf(),
            final(self).auth.key_of(account) == Some(key@),
            forall|b: u64| b != account ==> final(self).auth.key_of(b) == old(self).auth.key_of(b),
            final(self).config == old(self).config,
            final(self).risk_params == old(self).risk_params,
            final(self).ledger == old(self).ledger,
            final(self).log == old(self).log,
            final(self).nonces == old(self).nonces,
            final(self).vesting == old(self).vesting,
            final(self).allowances == old(self).allowances,
    {
        self.auth.register_key(account, key);
    }

    /// The verdict the transfer path reaches before any state is touched,
    /// its checks in this fixed order: pause flag, the risk engine's five
    /// checks, the signature over (sender, recipient, amount), nonce
    /// sequencing, and representability of the recipient's new balance.
    pub open spec fn transfer_checks(
        self,
        env: Env,
        sender: u64,
        recipient: u64,
        amount: u128,
        nonce: u64,
        sig: Seq<u8>,
    ) -> Result<u64, ContractError> {
        if self.config.paused {
            Err(ContractError::Paused)
        } else {
            match spec_validate(
                self.log,
                self.ledger,
                self.nonces,
                sender,
                amount,
                env.time,
                self.risk_params,
                self.config.rate_limit_window,
            ) {
                Err(e) => Err(e),
                Ok(_) => if !signature_ok(
                    self.auth,
                    sender,
                    spec_transfer_msg(sender, recipient, amount),
                    sig,
                ) {
                    Err(ContractError::InvalidSignature)
                } else if !nonce_accepted(self, sender, nonce) {
                    Err(ContractError::InvalidNonce)
                } else if recipient != sender && self.ledger.current_of(recipient) + amount
                    > u128::MAX {
                    Err(ContractError::Overflow)
                } else {
                    Ok(nonce)
                },
            }
        }
    }

    /// Executes a transfer of `amount` from `sender` to `recipient`,
    /// carrying the sender's next nonce and a signature over the message
    /// bytes. Exactly when every check of `transfer_checks` passes, the
    /// sender is debited and the recipient credited at `env.height`, the
    /// sender's counter advances past the nonce, and the transfer is
    /// logged; any failure leaves the state untouched.
    pub fn execute_transfer(
        &mut self,
        env: Env,
        sender: u64,
        recipient: u64,
        amount: u128,
        nonce: u64,
        signature: &[u8],
    ) -> (r: Result<u64, ContractError>)
        requires
            old(self).wf(),
            old(self).env_ok(env),
        ensures
            r == old(self).transfer_checks(env, sender, recipient, amount, nonce, signature@),
            r is Err ==> *final(self) == *old(self),
            r is Ok ==> {
                &&& final(self).wf()
                &&& final(self).config == old(self).config
                &&& final(self).risk_params == old(self).risk_params
                &&& final(self).vesting == old(self).vesting
                &&& final(self).allowances == old(self).allowances
                &&& final(self).auth == old(self).auth
                &&& final(self).nonces.next_of(sender) == nonce + 1
                &&& forall|b: u64|
                    b != sender ==> final(self).nonces.next_of(b) == old(self).nonces.next_of(b)
                &&& final(self).log.records@.len() == old(self).log.records@.len() + 1
                &&& forall|j: int|
                    0 <= j < old(self).log.records@.len()
                        ==> final(self).log.records@[j] == old(self).log.records@[j]
                &&& final(self).log.records@.last().account == sender
                &&& final(self).log.records@.last().meta.nonce == nonce
                &&& final(self).log.records@.last().meta.amount == amount
                &&& final(self).log.records@.last().meta.timestamp == env.time
                &&& final(self).log.records@.last().meta.signature@ == signature@
                &&& final(self).log.inflows@ == old(self).log.inflows@.push(
                    Inflow { account: recipient, timestamp: env.time, amount },
                )
                &&& final(self).ledger.last_height == env.height
                &&& sender != recipient ==> {
                    &&& final(self).ledger.current_of(sender)
                        == old(self).ledger.current_of(sender) - amount
                    &&& final(self).ledger.current_of(recipient)
                        == old(self).ledger.current_of(recipient) + amount
                }
                &&& sender == recipient ==> final(self).ledger.current_of(sender)
                    == old(self).ledger.current_of(sender)
                &&& forall|b: u64|
                    b != sender && b != recipient ==> final(self).ledger.history_of(b)
                        == old(self).ledger.history_of(b)
                &&& forall|b: u64, q: u64|
                    q < env.height ==> final(self).ledger.balance_at(b, q)
                        == old(self).ledger.balance_at(b, q)
            },
    {
        if self.config.paused {
            return Err(ContractError::Paused);
        }
        match validate_transaction(
            &self.log,
            &self.ledger,
            &self.nonces,
            sender,
            amount,
            env.time,
            &self.risk_params,
            self.config.rate_limit_window,
        ) {
            Err(e) => {
                return Err(e);
            },
            Ok(_) => {},
        }
        let msg = transfer_message(sender, recipient, amount);
        if !self.auth.verify_signature(sender, msg.as_slice(), signature) {
            return Err(ContractError::InvalidSignature);
        }
        let expected = self.nonces.next_nonce(sender);
        if nonce != expected {
            return Err(ContractError::InvalidNonce);
        }
        let sender_bal = self.ledger.current_balance(sender);
        proof {
            crate::txlog::lemma_inflow_nonneg(
                self.log.inflows@,
                sender,
                env.time,
                self.risk_params.min_holding_period,
            );
            assert(amount <= sender_bal);
        }
        if recipient != sender {
            let rec_bal = self.ledger.current_balance(recipient);
            if amount > u128::MAX - rec_bal {
                return Err(ContractError::Overflow);
            }
        }
        let ghost pre = *self;
        match self.ledger.debit(sender, amount, env.height) {
            Ok(_) => {},
            Err(_) => {
                proof {
                    assert(false);
                }
                return Err(ContractError::Overflow);
            },
        }
        let ghost mid = self.ledger;
        match self.ledger.credit(recipient, amount, env.height) {
            Ok(_) => {},
            Err(_) => {
                proof {
                    assert(false);
                }
                return Err(ContractError::Overflow);
            },
        }
        self.nonces.set_next(sender, nonce + 1);
        let meta = TransactionMetadata {
            timestamp: env.time,
            amount,
            signature: vstd::slice::slice_to_vec(signature),
            nonce,
        };
        proof {
            if has_record(pre.log.records@, sender, nonce) {
                let j = choose|j: int|
                    0 <= j < pre.log.records@.len() && (#[trigger] pre.log.records@[j]).account
                        == sender && pre.log.records@[j].meta.nonce == nonce;
                assert(pre.log.records@[j].meta.nonce < pre.nonces.next_of(sender));
            }
        }
        self.log.append_record(sender, meta);
        self.log.append_inflow(recipient, env.time, amount);
        proof {
            assert forall|b: u64, q: u64| q < env.height implies self.ledger.balance_at(b, q)
                == pre.ledger.balance_at(b, q) by {
                if b != sender {
                    assert(mid.balance_at(b, q) == pre.ledger.balance_at(b, q));
                }
                if b != recipient {
                    assert(self.ledger.balance_at(b, q) == mid.balance_at(b, q));
                }
            }
            assert forall|j: int| 0 <= j < self.log.records@.len() implies (
            #[trigger] self.log.records@[j]).meta.nonce < self.nonces.next_of(
                self.log.records@[j].account,
            ) by {
                if j < pre.log.records@.len() {
                    assert(self.log.records@[j] == pre.log.records@[j]);
                    if pre.log.records@[j].account == sender {
                        assert(pre.log.records@[j].meta.nonce < pre.nonces.next_of(sender));
                    }
                }
            }
        }
        Ok(nonce)
    }

    /// The verdict the grant-creation path reaches before any state is
    /// touched: only the owner may grant, the times must be ordered, the
    /// signature over (caller, beneficiary, amount, start, end) must
    /// verify, and the escrow must be covered by the caller's balance.
    pub open spec fn create_schedule_checks(
        self,
        sender: u64,
        beneficiary: u64,
        amount: u128,
        start_time: u64,
        cliff_time: u64,
        end_time: u64,
        sig: Seq<u8>,
    ) -> Result<(), ContractError> {
        let times_ok = start_time < end_time && start_time <= cliff_time && cliff_time <= end_time;
        if sender != self.config.owner {
            Err(ContractError::Unauthorized)
        } else if !times_ok {
            Err(ContractError::InvalidVestingSchedule)
        } else if !signature_ok(
            self.auth,
            sender,
            spec_vesting_msg(sender, beneficiary, amount, start_time, end_time),
            sig,
        ) {
            Err(ContractError::InvalidSignature)
        } else if amount > self.ledger.current_of(sender) {
            Err(ContractError::InsufficientFunds)
        } else {
            Ok(())
        }
    }

    /// Creates a vesting grant for `beneficiary` and escrows its total
    /// from the caller's balance at `env.height`. Exactly when every check
    /// of `create_schedule_checks` passes, the grant is appended with
    /// nothing claimed yet; any failure leaves the state untouched.
    pub fn execute_create_vesting_schedule(
        &mut self,
        env: Env,
        sender: u64,
        beneficiary: u64,
        amount: u128,
        start_time: u64,
        cliff_time: u64,
        end_time: u64,
        signature: &[u8],
    ) -> (r: Result<(), ContractError>)
        requires
            old(self).wf(),
            old(self).env_ok(env),
        ensures
            r == old(self).create_schedule_checks(
                sender,
                beneficiary,
                amount,
                start_time,
                cliff_time,
                end_time,
                signature@,
            ),
            r is Err ==> *final(self) == *old(self),
            r is Ok ==> {
                &&& final(self).wf()
                &&& final(self).config == old(self).config
                &&& final(self).risk_params == old(self).risk_params
                &&& final(self).log == old(self).log
                &&& final(self).nonces == old(self).nonces
                &&& final(self).allowances == old(self).allowances
                &&& final(self).auth == old(self).auth
                &&& final(self).vesting.schedules@ == old(self).vesting.schedules@.push(
                    VestingSchedule {
                        beneficiary,
                        start_time,
                        cliff_time,
                        end_time,
                        total_amount: amount,
                        claimed_amount: 0,
                        last_claim_time: None,
                    },
                )
                &&& final(self).ledger.current_of(sender) == old(self).ledger.current_of(sender)
                    - amount
                &&& forall|b: u64|
                    b != sender ==> final(self).ledger.history_of(b)
                        == old(self).ledger.history_of(b)
                &&& forall|b: u64, q: u64|
                    q < env.height ==> final(self).ledger.balance_at(b, q)
                        == old(self).ledger.balance_at(b, q)
                &&& final(self).ledger.last_height == env.height
            },
    {
        if sender != self.config.owner {
            return Err(ContractError::Unauthorized);
        }
        let schedule = VestingSchedule {
            beneficiary,
            start_time,
            cliff_time,
            end_time,
            total_amount: amount,
            claimed_amount: 0,
            last_claim_time: None,
        };
        if !schedule.check_valid_times() {
            return Err(ContractError::InvalidVestingSchedule);
        }
        let msg = vesting_message(sender, beneficiary, amount, start_time, end_time);
        if !self.auth.verify_signature(sender, msg.as_slice(), signature) {
            return Err(ContractError::InvalidSignature);
        }
        let bal = self.ledger.current_balance(sender);
        if amount > bal {
            return Err(ContractError::InsufficientFunds);
        }
        self.vesting.push_schedule(schedule);
        match self.ledger.debit(sender, amount, env.height) {
            Ok(_) => {},
            Err(_) => {
                proof {
                    assert(false);
                }
                return Err(ContractError::InsufficientFunds);
            },
        }
        Ok(())
    }

    /// The verdict the claim path reaches before any state is touched:
    /// the pause flag, representability of each vested portion and of the
    /// total, whether anything is claimable at all, and representability
    /// of the beneficiary's new balance.
    pub open spec fn claim_checks(self, env: Env, sender: u64) -> Result<u128, ContractError> {
        let total = spec_total_claimable(self.vesting.schedules@, sender, env.time);
        if self.config.paused {
            Err(ContractError::Paused)
        } else if any_mul_overflow(self.vesting.schedules@, sender, env.time) || total
            > u128::MAX {
            Err(ContractError::Overflow)
        } else if total == 0 {
            Err(ContractError::NoVestingToClaim)
        } else if self.ledger.current_of(sender) + total > u128::MAX {
            Err(ContractError::Overflow)
        } else {
            Ok(total as u128)
        }
    }

    /// Claims everything vested to `sender` at `env.time`: every eligible
    /// grant absorbs its claimable portion and the aggregate is credited
    /// at `env.height` and recorded as an inflow, all together or not at
    /// all. No grant's claimed amount ever decreases or passes its total.
    pub fn execute_claim_vesting(&mut self, env: Env, sender: u64) -> (r: Result<
        u128,
        ContractError,
    >)
        requires
            old(self).wf(),
            old(self).env_ok(env),
        ensures
            r == old(self).claim_checks(env, sender),
            r is Err ==> *final(self) == *old(self),
            r is Ok ==> {
                &&& final(self).wf()
                &&& final(self).config == old(self).config
                &&& final(self).risk_params == old(self).risk_params
                &&& final(self).nonces == old(self).nonces
                &&& final(self).allowances == old(self).allowances
                &&& final(self).auth == old(self).auth
                &&& final(self).vesting.schedules@.len() == old(self).vesting.schedules@.len()
                &&& forall|j: int|
                    0 <= j < old(self).vesting.schedules@.len()
                        ==> final(self).vesting.schedules@[j] == updated_schedule(
                        old(self).vesting.schedules@[j],
                        sender,
                        env.time,
                    )
                &&& forall|j: int|
                    0 <= j < old(self).vesting.schedules@.len()
                        ==> (#[trigger] final(self).vesting.schedules@[j]).claimed_amount
                        >= old(self).vesting.schedules@[j].claimed_amount
                &&& final(self).ledger.current_of(sender) == old(self).ledger.current_of(sender)
                    + r->Ok_0
                &&& forall|b: u64|
                    b != sender ==> final(self).ledger.history_of(b)
                        == old(self).ledger.history_of(b)
                &&& forall|b: u64, q: u64|
                    q < env.height ==> final(self).ledger.balance_at(b, q)
                        == old(self).ledger.balance_at(b, q)
                &&& final(self).ledger.last_height == env.height
                &&& final(self).log.records@ == old(self).log.records@
                &&& final(self).log.inflows@ == old(self).log.inflows@.push(
                    Inflow { account: sender, timestamp: env.time, amount: r->Ok_0 },
                )
            },
    {
        if self.config.paused {
            return Err(ContractError::Paused);
        }
        let total = match self.vesting.total_claimable(sender, env.time) {
            Err(e) => {
                return Err(e);
            },
            Ok(t) => t,
        };
        if total == 0 {
            return Err(ContractError::NoVestingToClaim);
        }
        let bal = self.ledger.current_balance(sender);
        if total > u128::MAX - bal {
            return Err(ContractError::Overflow);
        }
        let ghost pre = *self;
        self.vesting.apply_claims(sender, env.time);
        proof {
            assert forall|j: int| 0 <= j < self.vesting.schedules@.len() implies (#[trigger] self
                .vesting
                .schedules@[j]).claimed_amount >= pre.vesting.schedules@[j].claimed_amount by {
                lemma_claimable_bounds(pre.vesting.schedules@[j], env.time);
            }
        }
        match self.ledger.credit(sender, total, env.height) {
            Ok(_) => {},
            Err(_) => {
                proof {
                    assert(false);
                }
                return Err(ContractError::Overflow);
            },
        }
        self.log.append_inflow(sender, env.time, total);
        Ok(total)
    }

    /// Replaces the risk parameters. Only the owner may, and every new
    /// limit must be positive; a refusal changes nothing.
    pub fn execute_update_risk_parameters(&mut self, sender: u64, new_params: RiskParameters) -> (r:
        Result<(), ContractError>)
        requires
            old(self).wf(),
        ensures
            r is Ok <==> sender == old(self).config.owner && new_params.valid(),
            r == Err::<(), ContractError>(ContractError::Unauthorized)
                <==> sender != old(self).config.owner,
            r == Err::<(), ContractError>(ContractError::InvalidRiskParameters)
                <==> sender == old(self).config.owner && !new_params.valid(),
            r is Err ==> *final(self) == *old(self),
            r is Ok ==> *final(self) == (TokenState { risk_params: new_params, ..*old(self) }),
            final(self).wf(),
    {
        if sender != self.config.owner {
            return Err(ContractError::Unauthorized);
        }
        if !new_params.check_valid() {
            return Err(ContractError::InvalidRiskParameters);
        }
        self.risk_params = new_params;
        Ok(())
    }

    /// Halts transfers and claims. Only the owner may; admin operations
    /// stay available while paused.
    pub fn execute_pause(&mut self, sender: u64) -> (r: Result<(), ContractError>)
        requires
            old(self).wf(),
        ensures
            r is Ok <==> sender == old(self).config.owner,
            r is Err ==> r == Err::<(), ContractError>(ContractError::Unauthorized) && *final(self)
                == *old(self),
            r is Ok ==> *final(self) == (TokenState {
                config: TokenConfig { paused: true, ..old(self).config },
                ..*old(self)
            }),
            final(self).wf(),
    {
        if sender != self.config.owner {
            return Err(ContractError::Unauthorized);
        }
        self.config.paused = true;
        Ok(())
    }

    /// Resumes transfers and claims. Only the owner may.
    pub fn execute_unpause(&mut self, sender: u64) -> (r: Result<(), ContractError>)
        requires
            old(self).wf(),
        ensures
            r is Ok <==> sender == old(self).config.owner,
            r is Err ==> r == Err::<(), ContractError>(ContractError::Unauthorized) && *final(self)
                == *old(self),
            r is Ok ==> *final(self) == (TokenState {
                config: TokenConfig { paused: false, ..old(self).config },
                ..*old(self)
            }),
            final(self).wf(),
    {
        if sender != self.config.owner {
            return Err(ContractError::Unauthorized);
        }
        self.config.paused = false;
        Ok(())
    }

    /// The balance `address` currently holds.
    pub fn query_balance(&self, address: u64) -> (r: BalanceResponse)
        requires
            self.wf(),
        ensures
            r.balance == self.ledger.current_of(address),
    {
        BalanceResponse { balance: self.ledger.current_balance(address) }
    }

    /// The allowance `owner` granted `spender`, 0 if never set.
    pub fn query_allowance(&self, owner: u64, spender: u64) -> (r: AllowanceResponse)
        requires
            self.wf(),
        ensures
            r.allowance == self.allowances.allowance_of(owner, spender),
    {
        AllowanceResponse { allowance: self.allowances.allowance(owner, spender) }
    }

    /// Copies of the vesting grants recorded for `address`.
    pub fn query_vesting_schedules(&self, address: u64) -> (r: VestingSchedulesResponse)
        requires
            self.wf(),
        ensures
            r.schedules@ == filter_beneficiary(self.vesting.schedules@, address),
    {
        VestingSchedulesResponse { schedules: self.vesting.schedules_of(address) }
    }
}

} // verus!
