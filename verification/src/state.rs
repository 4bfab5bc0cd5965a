use vstd::prelude::*;

verus! {

/// Static token configuration. The owner is fixed at setup; the pause flag
/// is toggled only through the owner-gated admin operations.
#[derive(Clone, Debug)]
pub struct TokenConfig {
    pub name: String,
    pub symbol: String,
    pub decimals: u8,
    pub total_supply: u128,
    pub owner: u64,
    pub paused: bool,
    pub transfer_limit: u128,
    /// Width in seconds of the trailing window the daily-volume cap is
    /// computed over.
    pub rate_limit_window: u64,
    pub version: String,
}

/// Tunable limits the risk engine enforces; every limit is positive once
/// validated.
#[derive(Clone, Copy, Debug, PartialEq, Eq, Structural)]
pub struct RiskParameters {
    pub max_tx_value: u128,
    pub daily_limit: u128,
    /// Seconds received funds must age before they may be moved again.
    pub min_holding_period: u64,
    pub max_accounts_per_block: u32,
    /// Minimum seconds between successive outbound transfers of an account.
    pub cooling_period: u64,
}

impl RiskParameters {
    /// All limits are positive.
    pub open spec fn valid(self) -> bool {
        &&& self.max_tx_value > 0
        &&& self.daily_limit > 0
        &&& self.min_holding_period > 0
        &&& self.max_accounts_per_block > 0
        &&& self.cooling_period > 0
    }

    /// Runtime check matching `valid`.
    pub fn check_valid(&self) -> (r: bool)
        ensures
            r == self.valid(),
    {
        self.max_tx_value > 0 && self.daily_limit > 0 && self.min_holding_period > 0
            && self.max_accounts_per_block > 0 && self.cooling_period > 0
    }
}

/// What is recorded about one executed transfer, keyed by (account, nonce).
#[derive(Clone, Debug)]
pub struct TransactionMetadata {
    pub timestamp: u64,
    pub amount: u128,
    pub signature: Vec<u8>,
    pub nonce: u64,
}

/// One account's next expected sequence number.
#[derive(Clone, Copy, Debug)]
pub struct NonceEntry {
    pub account: u64,
    pub next: u64,
}

/// The next expected nonce recorded for `a`, or 0 if none is recorded.
pub open spec fn next_in(entries: Seq<NonceEntry>, a: u64) -> u64
    decreases entries.len(),
{
    if entries.len() == 0 {
        0
    } else if entries[0].account == a {
        entries[0].next
    } else {
        next_in(entries.drop_first(), a)
    }
}

/// Per-account strictly increasing sequence counters; a consumed nonce is
/// never accepted again.
#[derive(Debug)]
pub struct NonceStore {
    pub entries: Vec<NonceEntry>,
}

impl NonceStore {
    /// Each account is recorded at most once.
    pub open spec fn wf(self) -> bool {
        forall|i: int, j: int|
            0 <= i < j < self.entries@.len() ==> self.entries@[i].account
                != self.entries@[j].account
    }

    /// The next expected nonce of `a`.
    pub open spec fn next_of(self, a: u64) -> u64 {
        next_in(self.entries@, a)
    }

    /// A store with every counter at 0.
    pub fn new() -> (r: NonceStore)
        ensures
            r.wf(),
            forall|a: u64| r.next_of(a) == 0,
    {
        NonceStore { entries: Vec::new() }
    }

    fn find(&self, a: u64) -> (r: Option<usize>)
        ensures
            match r {
                Some(i) => i < self.entries@.len() && self.entries@[i as int].account == a
                    && forall|j: int| 0 <= j < i ==> self.entries@[j].account != a,
                None => forall|j: int|
                    0 <= j < self.entries@.len() ==> self.entries@[j].account != a,
            },
    {
        let mut k: usize = 0;
        while k < self.entries.len()
            invariant
                k <= self.entries@.len(),
                forall|j: int| 0 <= j < k ==> self.entries@[j].account != a,
            decreases self.entries@.len() - k,
        {
            if self.entries[k].account == a {
                return Some(k);
            }
            k += 1;
        }
        None
    }

    /// The next expected nonce of `a`.
    pub fn next_nonce(&self, a: u64) -> (r: u64)
        requires
            self.wf(),
        ensures
            r == self.next_of(a),
    {
        match self.find(a) {
            Some(i) => {
                proof {
                    lemma_next_in_first_match(self.entries@, a, i as int);
                }
                self.entries[i].next
            },
            None => {
                proof {
                    lemma_next_in_absent(self.entries@, a);
                }
                0
            },
        }
    }

    /// Records `n` as the next expected nonce of `a`, leaving every other
    /// account's counter unchanged.
    pub fn set_next(&mut self, a: u64, n: u64)
        requires
            old(self).wf(),
        ensures
            final(self).wf(),
            final(self).next_of(a) == n,
            forall|b: u64| b != a ==> final(self).next_of(b) == old(self).next_of(b),
    {
        match self.find(a) {
            Some(i) => {
                let ghost pre = self.entries@;
                self.entries[i] = NonceEntry { account: a, next: n };
                proof {
                    lemma_next_in_first_match(pre, a, i as int);
                    lemma_next_in_first_match(self.entries@, a, i as int);
                    assert forall|b: u64| b != a implies next_in(self.entries@, b) == next_in(
                        pre,
                        b,
                    ) by {
                        lemma_next_in_agree(pre, self.entries@, b);
                    }
                }
            },
            None => {
                let ghost pre = self.entries@;
                self.entries.push(NonceEntry { account: a, next: n });
                proof {
                    assert(self.entries@ =~= pre.push(NonceEntry { account: a, next: n }));
                    lemma_next_in_push(pre, NonceEntry { account: a, next: n }, a);
                    lemma_next_in_absent(pre, a);
                    assert forall|b: u64| b != a implies next_in(self.entries@, b) == next_in(
                        pre,
                        b,
                    ) by {
                        lemma_next_in_push(pre, NonceEntry { account: a, next: n }, b);
                        if !(exists|j: int|
                            0 <= j < pre.len() && (#[trigger] pre[j]).account == b) {
                            lemma_next_in_absent(pre, b);
                        }
                    }
                }
            },
        }
    }
}

proof fn lemma_next_in_first_match(entries: Seq<NonceEntry>, a: u64, i: int)
    requires
        0 <= i < entries.len(),
        entries[i].account == a,
        forall|j: int| 0 <= j < i ==> entries[j].account != a,
    ensures
        next_in(entries, a) == entries[i].next,
    decreases entries.len(),
{
    if i > 0 {
        lemma_next_in_first_match(entries.drop_first(), a, i - 1);
    }
}

proof fn lemma_next_in_absent(entries: Seq<NonceEntry>, a: u64)
    requires
        forall|j: int| 0 <= j < entries.len() ==> entries[j].account != a,
    ensures
        next_in(entries, a) == 0,
    decreases entries.len(),
{
    if entries.len() > 0 {
        lemma_next_in_absent(entries.drop_first(), a);
    }
}

proof fn lemma_next_in_agree(e1: Seq<NonceEntry>, e2: Seq<NonceEntry>, b: u64)
    requires
        e1.len() == e2.len(),
        forall|j: int| 0 <= j < e1.len() ==> e1[j].account == e2[j].account,
        forall|j: int| 0 <= j < e1.len() && e1[j].account == b ==> e1[j].next == e2[j].next,
    ensures
        next_in(e1, b) == next_in(e2, b),
    decreases e1.len(),
{
    if e1.len() > 0 && e1[0].account != b {
        lemma_next_in_agree(e1.drop_first(), e2.drop_first(), b);
    }
}

proof fn lemma_next_in_push(entries: Seq<NonceEntry>, e: NonceEntry, x: u64)
    ensures
        next_in(entries.push(e), x) == if exists|j: int|
            0 <= j < entries.len() && (#[trigger] entries[j]).account == x {
            next_in(entries, x)
        } else if e.account == x {
            e.next
        } else {
            0
        },
    decreases entries.len(),
{
    if entries.len() == 0 {
        assert(entries.push(e)[0] == e);
        assert(entries.push(e).drop_first() =~= Seq::<NonceEntry>::empty());
        if e.account != x {
            assert(next_in(Seq::<NonceEntry>::empty(), x) == 0);
        }
    } else {
        assert(entries.push(e)[0] == entries[0]);
        if entries[0].account == x {
            assert(exists|j: int| 0 <= j < entries.len() && (#[trigger] entries[j]).account == x);
        } else {
            assert(entries.push(e).drop_first() =~= entries.drop_first().push(e));
            lemma_next_in_push(entries.drop_first(), e, x);
            if exists|j: int| 0 <= j < entries.len() && (#[trigger] entries[j]).account == x {
                let j = choose|j: int|
                    0 <= j < entries.len() && (#[trigger] entries[j]).account == x;
                assert(entries.drop_first()[j - 1].account == x);
            } else {
                assert forall|j2: int| 0 <= j2 < entries.drop_first().len() implies (
                #[trigger] entries.drop_first()[j2]).account != x by {
                    assert(entries.drop_first()[j2] == entries[j2 + 1]);
                }
            }
        }
    }
}

/// One owner-to-spender allowance.
#[derive(Clone, Copy, Debug)]
pub struct AllowanceEntry {
    pub owner: u64,
    pub spender: u64,
    pub amount: u128,
}

/// The allowance recorded for the pair, or 0 if none is.
pub open spec fn allowance_in(entries: Seq<AllowanceEntry>, owner: u64, spender: u64) -> u128
    decreases entries.len(),
{
    if entries.len() == 0 {
        0
    } else if entries[0].owner == owner && entries[0].spender == spender {
        entries[0].amount
    } else {
        allowance_in(entries.drop_first(), owner, spender)
    }
}

/// Per (owner, spender) spending allowances.
#[derive(Debug)]
pub struct AllowanceStore {
    pub entries: Vec<AllowanceEntry>,
}

impl AllowanceStore {
    /// Each (owner, spender) pair is recorded at most once.
    pub open spec fn wf(self) -> bool {
        forall|i: int, j: int|
            0 <= i < j < self.entries@.len() ==> !(self.entries@[i].owner
                == self.entries@[j].owner && self.entries@[i].spender
                == self.entries@[j].spender)
    }

    /// The allowance of the pair.
    pub open spec fn allowance_of(self, owner: u64, spender: u64) -> u128 {
        allowance_in(self.entries@, owner, spender)
    }

    /// A store with every allowance at 0.
    pub fn new() -> (r: AllowanceStore)
        ensures
            r.wf(),
            forall|o: u64, s: u64| r.allowance_of(o, s) == 0,
    {
        AllowanceStore { entries: Vec::new() }
    }

    /// The allowance granted by `owner` to `spender`, 0 if never set.
    pub fn allowance(&self, owner: u64, spender: u64) -> (r: u128)
        ensures
            r == self.allowance_of(owner, spender),
    {
        let mut k: usize = 0;
        proof {
            assert(self.entries@.skip(0) =~= self.entries@);
        }
        while k < self.entries.len()
            invariant
                k <= self.entries@.len(),
                allowance_in(self.entries@, owner, spender) == allowance_in(
                    self.entries@.skip(k as int),
                    owner,
                    spender,
                ),
            decreases self.entries@.len() - k,
        {
            proof {
                assert(self.entries@.skip(k as int)[0] == self.entries@[k as int]);
                assert(self.entries@.skip(k as int).drop_first() =~= self.entries@.skip(
                    k as int + 1,
                ));
            }
            let e = self.entries[k];
            if e.owner == owner && e.spender == spender {
                return e.amount;
            }
            k += 1;
        }
        proof {
            assert(self.entries@.skip(self.entries@.len() as int) =~= Seq::<
                AllowanceEntry,
            >::empty());
        }
        0
    }
}

} // verus!
