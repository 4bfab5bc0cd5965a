use vstd::prelude::*;

use crate::error::ContractError;

verus! {

/// One balance value together with the ledger height at which it took
/// effect; appended on every debit or credit and never overwritten.
#[derive(Clone, Copy, Debug)]
pub struct BalanceSnapshot {
    pub height: u64,
    pub balance: u128,
}

/// The full snapshot history of one account, oldest first.
#[derive(Debug)]
pub struct AccountHistory {
    pub account: u64,
    pub snaps: Vec<BalanceSnapshot>,
}

/// Height-versioned per-account balance store. Reads never mutate; writes
/// append a snapshot, preserving the full history for point-in-time queries.
#[derive(Debug)]
pub struct BalanceLedger {
    pub accounts: Vec<AccountHistory>,
    /// The highest height any write has carried; writes never go backwards.
    pub last_height: u64,
}

/// Heights never decrease along a history.
pub open spec fn sorted_by_height(s: Seq<BalanceSnapshot>) -> bool {
    forall|i: int, j: int| 0 <= i <= j < s.len() ==> s[i].height <= s[j].height
}

/// Every snapshot took effect at or before height `h`.
pub open spec fn heights_at_most(s: Seq<BalanceSnapshot>, h: u64) -> bool {
    forall|i: int| 0 <= i < s.len() ==> s[i].height <= h
}

/// The snapshot history recorded for `a`: the first entry carrying that
/// account, or the empty history if none does.
pub open spec fn history_in(accs: Seq<AccountHistory>, a: u64) -> Seq<BalanceSnapshot>
    decreases accs.len(),
{
    if accs.len() == 0 {
        Seq::empty()
    } else if accs[0].account == a {
        accs[0].snaps@
    } else {
        history_in(accs.drop_first(), a)
    }
}

/// The balance a history answers for a query at height `h`: the latest
/// appended snapshot whose height is at most `h`, or 0 if there is none.
pub open spec fn snaps_balance_at(s: Seq<BalanceSnapshot>, h: u64) -> u128
    decreases s.len(),
{
    if s.len() == 0 {
        0
    } else if s.last().height <= h {
        s.last().balance
    } else {
        snaps_balance_at(s.drop_last(), h)
    }
}

impl BalanceLedger {
    /// Accounts are recorded once each; every history is non-empty, ordered
    /// by height, and contains no height above `last_height`.
    pub open spec fn wf(self) -> bool {
        &&& forall|i: int, j: int|
            0 <= i < j < self.accounts@.len() ==> self.accounts@[i].account
                != self.accounts@[j].account
        &&& forall|i: int|
            0 <= i < self.accounts@.len() ==> (#[trigger] self.accounts@[i]).snaps@.len() > 0
        &&& forall|i: int|
            0 <= i < self.accounts@.len() ==> sorted_by_height(
                (#[trigger] self.accounts@[i]).snaps@,
            )
        &&& forall|i: int|
            0 <= i < self.accounts@.len() ==> heights_at_most(
                (#[trigger] self.accounts@[i]).snaps@,
                self.last_height,
            )
    }

    /// The snapshot history of `a`.
    pub open spec fn history_of(self, a: u64) -> Seq<BalanceSnapshot> {
        history_in(self.accounts@, a)
    }

    /// The balance of `a` as of height `h`.
    pub open spec fn balance_at(self, a: u64, h: u64) -> u128 {
        snaps_balance_at(self.history_of(a), h)
    }

    /// The balance of `a` after the latest write.
    pub open spec fn current_of(self, a: u64) -> u128 {
        if self.history_of(a).len() == 0 {
            0
        } else {
            self.history_of(a).last().balance
        }
    }
}

/// What one successful write leaves behind: a well-formed ledger whose
/// current balance for `a` is `new_bal`, whose answers for `a` below the
/// write height are unchanged and at or above it are `new_bal`, and whose
/// other accounts are untouched.
pub open spec fn snapshot_appended(
    pre: BalanceLedger,
    post: BalanceLedger,
    a: u64,
    new_bal: u128,
    height: u64,
) -> bool {
    &&& post.wf()
    &&& post.last_height == height
    &&& post.current_of(a) == new_bal
    &&& forall|b: u64| b != a ==> post.history_of(b) == pre.history_of(b)
    &&& forall|q: u64| q < height ==> post.balance_at(a, q) == pre.balance_at(a, q)
    &&& forall|q: u64| q >= height ==> post.balance_at(a, q) == new_bal
}

proof fn lemma_history_in_first_match(accs: Seq<AccountHistory>, a: u64, i: int)
    requires
        0 <= i < accs.len(),
        accs[i].account == a,
        forall|j: int| 0 <= j < i ==> accs[j].account != a,
    ensures
        history_in(accs, a) == accs[i].snaps@,
    decreases accs.len(),
{
    if i > 0 {
        lemma_history_in_first_match(accs.drop_first(), a, i - 1);
    }
}

proof fn lemma_history_in_absent(accs: Seq<AccountHistory>, a: u64)
    requires
        forall|j: int| 0 <= j < accs.len() ==> accs[j].account != a,
    ensures
        history_in(accs, a) == Seq::<BalanceSnapshot>::empty(),
    decreases accs.len(),
{
    if accs.len() > 0 {
        lemma_history_in_absent(accs.drop_first(), a);
    }
}

/// Two account lists that agree on every entry carrying `b` record the same
/// history for `b`.
proof fn lemma_history_in_agree(a1: Seq<AccountHistory>, a2: Seq<AccountHistory>, b: u64)
    requires
        a1.len() == a2.len(),
        forall|j: int| 0 <= j < a1.len() ==> a1[j].account == a2[j].account,
        forall|j: int| 0 <= j < a1.len() && a1[j].account == b ==> a1[j].snaps@ == a2[j].snaps@,
    ensures
        history_in(a1, b) == history_in(a2, b),
    decreases a1.len(),
{
    if a1.len() > 0 && a1[0].account != b {
        lemma_history_in_agree(a1.drop_first(), a2.drop_first(), b);
    }
}

/// Appending a history at the end changes no recorded account's history,
/// and gives a previously absent account the appended one.
proof fn lemma_history_in_push(accs: Seq<AccountHistory>, h: AccountHistory, x: u64)
    ensures
        history_in(accs.push(h), x) == if exists|j: int|
            0 <= j < accs.len() && (#[trigger] accs[j]).account == x {
            history_in(accs, x)
        } else if h.account == x {
            h.snaps@
        } else {
            Seq::<BalanceSnapshot>::empty()
        },
    decreases accs.len(),
{
    if accs.len() == 0 {
        assert(accs.push(h)[0] == h);
        assert(accs.push(h).drop_first() =~= Seq::<AccountHistory>::empty());
        if h.account != x {
            assert(history_in(Seq::<AccountHistory>::empty(), x)
                == Seq::<BalanceSnapshot>::empty());
            assert(history_in(accs.push(h), x) == Seq::<BalanceSnapshot>::empty());
        }
    } else {
        assert(accs.push(h)[0] == accs[0]);
        if accs[0].account == x {
            assert(exists|j: int| 0 <= j < accs.len() && (#[trigger] accs[j]).account == x);
            assert(history_in(accs.push(h), x) == accs[0].snaps@);
            assert(history_in(accs, x) == accs[0].snaps@);
        } else {
            assert(accs.push(h).drop_first() =~= accs.drop_first().push(h));
            lemma_history_in_push(accs.drop_first(), h, x);
            assert(history_in(accs.push(h), x) == history_in(accs.drop_first().push(h), x));
            assert(history_in(accs, x) == history_in(accs.drop_first(), x));
            if exists|j: int| 0 <= j < accs.len() && (#[trigger] accs[j]).account == x {
                let j = choose|j: int| 0 <= j < accs.len() && (#[trigger] accs[j]).account == x;
                assert(accs.drop_first()[j - 1].account == x);
                assert(exists|j2: int|
                    0 <= j2 < accs.drop_first().len() && (#[trigger] accs.drop_first()[j2]).account
                        == x);
            } else {
                assert forall|j2: int| 0 <= j2 < accs.drop_first().len() implies (
                #[trigger] accs.drop_first()[j2]).account != x by {
                    assert(accs.drop_first()[j2] == accs[j2 + 1]);
                }
            }
        }
    }
}

proof fn lemma_snaps_balance_at_all_above(s: Seq<BalanceSnapshot>, h: u64)
    requires
        forall|j: int| 0 <= j < s.len() ==> s[j].height > h,
    ensures
        snaps_balance_at(s, h) == 0,
    decreases s.len(),
{
    if s.len() > 0 {
        lemma_snaps_balance_at_all_above(s.drop_last(), h);
    }
}

/// If `s[i]` is the latest snapshot at or below `h`, it answers the query.
proof fn lemma_snaps_balance_at_found(s: Seq<BalanceSnapshot>, h: u64, i: int)
    requires
        0 <= i < s.len(),
        s[i].height <= h,
        forall|j: int| i < j < s.len() ==> s[j].height > h,
    ensures
        snaps_balance_at(s, h) == s[i].balance,
    decreases s.len(),
{
    if i < s.len() - 1 {
        lemma_snaps_balance_at_found(s.drop_last(), h, i);
    }
}

proof fn lemma_snaps_balance_at_push(s: Seq<BalanceSnapshot>, x: BalanceSnapshot, h: u64)
    ensures
        snaps_balance_at(s.push(x), h) == if x.height <= h {
            x.balance
        } else {
            snaps_balance_at(s, h)
        },
{
    assert(s.push(x).drop_last() =~= s);
    assert(s.push(x).last() == x);
}

/// Balances can never go negative: every answer the ledger gives is a
/// non-negative amount. `debit` refuses any amount above the current
/// balance instead of underflowing, so this holds across every sequence
/// of operations.
pub proof fn lemma_balance_never_negative(l: BalanceLedger, a: u64, h: u64)
    ensures
        l.balance_at(a, h) >= 0,
{
}

/// A query at or above the latest write height answers the current balance.
pub proof fn lemma_balance_at_top(l: BalanceLedger, a: u64, q: u64)
    requires
        l.wf(),
        q >= l.last_height,
    ensures
        l.balance_at(a, q) == l.current_of(a),
{
    lemma_history_props(l, a);
    let s = l.history_of(a);
    if s.len() > 0 {
        assert(s[s.len() - 1].height <= l.last_height);
    }
}

/// The recorded history of any account inherits the ledger's invariants.
proof fn lemma_history_props(l: BalanceLedger, a: u64)
    requires
        l.wf(),
    ensures
        l.history_of(a).len() > 0 ==> exists|i: int|
            0 <= i < l.accounts@.len() && l.history_of(a) == (#[trigger] l.accounts@[i]).snaps@,
{
    lemma_history_in_witness(l.accounts@, a);
}

proof fn lemma_history_in_witness(accs: Seq<AccountHistory>, a: u64)
    ensures
        history_in(accs, a).len() > 0 ==> exists|i: int|
            0 <= i < accs.len() && history_in(accs, a) == (#[trigger] accs[i]).snaps@,
    decreases accs.len(),
{
    if accs.len() > 0 && accs[0].account != a {
        lemma_history_in_witness(accs.drop_first(), a);
        if history_in(accs, a).len() > 0 {
            let i = choose|i: int|
                0 <= i < accs.drop_first().len() && history_in(accs.drop_first(), a) == (
                #[trigger] accs.drop_first()[i]).snaps@;
            assert(history_in(accs, a) == accs[i + 1].snaps@);
        }
    }
}

/// Crediting `x` to `a` and then debiting `x` from `a` restores every
/// answer the ledger gives: queries below the credit height or at and above
/// the debit height are unchanged, the current balance of `a` is back at
/// its pre-credit value, and no other account is touched at any point.
pub proof fn lemma_credit_debit_roundtrip(
    l0: BalanceLedger,
    l1: BalanceLedger,
    l2: BalanceLedger,
    a: u64,
    x: u128,
    h1: u64,
    h2: u64,
)
    requires
        l0.wf(),
        h1 >= l0.last_height,
        h2 >= h1,
        l0.current_of(a) + x <= u128::MAX,
        snapshot_appended(l0, l1, a, (l0.current_of(a) + x) as u128, h1),
        snapshot_appended(l1, l2, a, (l1.current_of(a) - x) as u128, h2),
    ensures
        l2.current_of(a) == l0.current_of(a),
        forall|q: u64| q < h1 || q >= h2 ==> l2.balance_at(a, q) == l0.balance_at(a, q),
        forall|b: u64| b != a ==> l2.history_of(b) == l0.history_of(b),
{
    assert forall|q: u64| q < h1 || q >= h2 implies l2.balance_at(a, q) == l0.balance_at(a, q) by {
        if q >= h2 {
            lemma_balance_at_top(l0, a, q);
        }
    }
}

impl BalanceLedger {
    /// An empty ledger: no account has any snapshot.
    pub fn new() -> (r: BalanceLedger)
        ensures
            r.wf(),
            r.last_height == 0,
            forall|a: u64| r.history_of(a) == Seq::<BalanceSnapshot>::empty(),
            forall|a: u64, h: u64| r.balance_at(a, h) == 0,
            forall|a: u64| r.current_of(a) == 0,
    {
        BalanceLedger { accounts: Vec::new(), last_height: 0 }
    }

    /// The index of the history recorded for `account`, if any.
    fn find_account(&self, account: u64) -> (r: Option<usize>)
        ensures
            match r {
                Some(i) => i < self.accounts@.len() && self.accounts@[i as int].account == account
                    && forall|j: int| 0 <= j < i ==> self.accounts@[j].account != account,
                None => forall|j: int|
                    0 <= j < self.accounts@.len() ==> self.accounts@[j].account != account,
            },
    {
        let mut k: usize = 0;
        while k < self.accounts.len()
            invariant
                k <= self.accounts@.len(),
                forall|j: int| 0 <= j < k ==> self.accounts@[j].account != account,
            decreases self.accounts@.len() - k,
        {
            if self.accounts[k].account == account {
                return Some(k);
            }
            k += 1;
        }
        None
    }

    /// The balance of `account` as of `at_height`: the latest snapshot at or
    /// before that height, or 0 if none exists. Found by binary search over
    /// the account's height-ordered history.
    pub fn get_balance(&self, account: u64, at_height: u64) -> (r: u128)
        requires
            self.wf(),
        ensures
            r == self.balance_at(account, at_height),
    {
        match self.find_account(account) {
            None => {
                proof {
                    lemma_history_in_absent(self.accounts@, account);
                }
                0
            },
            Some(i) => {
                proof {
                    lemma_history_in_first_match(self.accounts@, account, i as int);
                }
                let snaps = &self.accounts[i].snaps;
                let mut lo: usize = 0;
                let mut hi: usize = snaps.len();
                while lo < hi
                    invariant
                        lo <= hi <= snaps@.len(),
                        sorted_by_height(snaps@),
                        forall|j: int| 0 <= j < lo ==> snaps@[j].height <= at_height,
                        forall|j: int| hi <= j < snaps@.len() ==> snaps@[j].height > at_height,
                    decreases hi - lo,
                {
                    let mid = lo + (hi - lo) / 2;
                    if snaps[mid].height <= at_height {
                        lo = mid + 1;
                    } else {
                        hi = mid;
                    }
                }
                if lo == 0 {
                    proof {
                        lemma_snaps_balance_at_all_above(snaps@, at_height);
                    }
                    0
                } else {
                    proof {
                        lemma_snaps_balance_at_found(snaps@, at_height, lo - 1);
                    }
                    snaps[lo - 1].balance
                }
            },
        }
    }

    /// The balance of `account` after the latest write.
    pub fn current_balance(&self, account: u64) -> (r: u128)
        requires
            self.wf(),
        ensures
            r == self.current_of(account),
    {
        match self.find_account(account) {
            None => {
                proof {
                    lemma_history_in_absent(self.accounts@, account);
                }
                0
            },
            Some(i) => {
                proof {
                    lemma_history_in_first_match(self.accounts@, account, i as int);
                }
                let snaps = &self.accounts[i].snaps;
                snaps[snaps.len() - 1].balance
            },
        }
    }

    /// Appends an incremented snapshot for `account` at `height`. Fails with
    /// `Overflow`, touching nothing, exactly when the sum would exceed the
    /// maximum representable amount.
    pub fn credit(&mut self, account: u64, amount: u128, height: u64) -> (r: Result<
        (),
        ContractError,
    >)
        requires
            old(self).wf(),
            height >= old(self).last_height,
        ensures
            r is Ok <==> old(self).current_of(account) + amount <= u128::MAX,
            r is Ok ==> snapshot_appended(
                *old(self),
                *final(self),
                account,
                (old(self).current_of(account) + amount) as u128,
                height,
            ),
            r is Err ==> *final(self) == *old(self) && r == Err::<(), ContractError>(
                ContractError::Overflow,
            ),
    {
        match self.find_account(account) {
            Some(i) => {
                proof {
                    lemma_history_in_first_match(self.accounts@, account, i as int);
                }
                let snaps_len = self.accounts[i].snaps.len();
                let cur = self.accounts[i].snaps[snaps_len - 1].balance;
                if amount > u128::MAX - cur {
                    return Err(ContractError::Overflow);
                }
                let new_bal = cur + amount;
                let ghost pre = *self;
                let hist = &mut self.accounts[i];
                hist.snaps.push(BalanceSnapshot { height, balance: new_bal });
                self.last_height = height;
                proof {
                    self.lemma_after_update(pre, account, i as int, new_bal, height);
                }
                Ok(())
            },
            None => {
                proof {
                    lemma_history_in_absent(self.accounts@, account);
                }
                let ghost pre = *self;
                let mut snaps: Vec<BalanceSnapshot> = Vec::new();
                snaps.push(BalanceSnapshot { height, balance: amount });
                self.accounts.push(AccountHistory { account, snaps });
                self.last_height = height;
                proof {
                    self.lemma_after_push(pre, account, amount, height);
                }
                Ok(())
            },
        }
    }

    /// Appends a decremented snapshot for `account` at `height`. Fails with
    /// `InsufficientFunds`, touching nothing, exactly when `amount` exceeds
    /// the current balance.
    pub fn debit(&mut self, account: u64, amount: u128, height: u64) -> (r: Result<
        (),
        ContractError,
    >)
        requires
            old(self).wf(),
            height >= old(self).last_height,
        ensures
            r is Ok <==> amount <= old(self).current_of(account),
            r is Ok ==> snapshot_appended(
                *old(self),
                *final(self),
                account,
                (old(self).current_of(account) - amount) as u128,
                height,
            ),
            r is Err ==> *final(self) == *old(self) && r == Err::<(), ContractError>(
                ContractError::InsufficientFunds,
            ),
    {
        match self.find_account(account) {
            Some(i) => {
                proof {
                    lemma_history_in_first_match(self.accounts@, account, i as int);
                }
                let snaps_len = self.accounts[i].snaps.len();
                let cur = self.accounts[i].snaps[snaps_len - 1].balance;
                if amount > cur {
                    return Err(ContractError::InsufficientFunds);
                }
                let new_bal = cur - amount;
                let ghost pre = *self;
                let hist = &mut self.accounts[i];
                hist.snaps.push(BalanceSnapshot { height, balance: new_bal });
                self.last_height = height;
                proof {
                    self.lemma_after_update(pre, account, i as int, new_bal, height);
                }
                Ok(())
            },
            None => {
                proof {
                    lemma_history_in_absent(self.accounts@, account);
                }
                if amount > 0 {
                    return Err(ContractError::InsufficientFunds);
                }
                let ghost pre = *self;
                let mut snaps: Vec<BalanceSnapshot> = Vec::new();
                snaps.push(BalanceSnapshot { height, balance: 0 });
                self.accounts.push(AccountHistory { account, snaps });
                self.last_height = height;
                proof {
                    self.lemma_after_push(pre, account, 0, height);
                }
                Ok(())
            },
        }
    }

    /// After pushing one snapshot onto the first-matching history and
    /// raising `last_height`, the write is a `snapshot_appended` step.
    proof fn lemma_after_update(
        self,
        pre: BalanceLedger,
        account: u64,
        i: int,
        new_bal: u128,
        height: u64,
    )
        requires
            pre.wf(),
            height >= pre.last_height,
            0 <= i < pre.accounts@.len(),
            pre.accounts@[i].account == account,
            forall|j: int| 0 <= j < i ==> pre.accounts@[j].account != account,
            self.accounts@.len() == pre.accounts@.len(),
            forall|j: int| 0 <= j < pre.accounts@.len() && j != i ==> self.accounts@[j]
                == pre.accounts@[j],
            self.accounts@[i].account == account,
            self.accounts@[i].snaps@ == pre.accounts@[i].snaps@.push(
                BalanceSnapshot { height, balance: new_bal },
            ),
            self.last_height == height,
        ensures
            snapshot_appended(pre, self, account, new_bal, height),
    {
        let snap = BalanceSnapshot { height, balance: new_bal };
        let olds = pre.accounts@[i].snaps@;
        lemma_history_in_first_match(pre.accounts@, account, i);
        lemma_history_in_first_match(self.accounts@, account, i);
        assert(self.history_of(account) == olds.push(snap));
        // Other accounts keep their histories.
        assert forall|b: u64| b != account implies self.history_of(b) == pre.history_of(b) by {
            lemma_history_in_agree(pre.accounts@, self.accounts@, b);
        }
        // Well-formedness of the grown history.
        assert forall|p: int, q: int|
            0 <= p <= q < olds.push(snap).len() implies olds.push(snap)[p].height <= olds.push(
            snap,
        )[q].height by {
            if q < olds.len() {
            } else {
                assert(olds.push(snap)[q] == snap);
                if p < olds.len() {
                    assert(olds[p].height <= pre.last_height);
                }
            }
        }
        assert(self.wf());
        // Point-in-time answers.
        assert forall|q: u64| q < height implies self.balance_at(account, q) == pre.balance_at(
            account,
            q,
        ) by {
            lemma_snaps_balance_at_push(olds, snap, q);
        }
        assert forall|q: u64| q >= height implies self.balance_at(account, q) == new_bal by {
            lemma_snaps_balance_at_push(olds, snap, q);
        }
    }

    /// After appending a fresh one-snapshot history for an account the
    /// ledger had never recorded, the write is a `snapshot_appended` step.
    proof fn lemma_after_push(self, pre: BalanceLedger, account: u64, new_bal: u128, height: u64)
        requires
            pre.wf(),
            height >= pre.last_height,
            forall|j: int| 0 <= j < pre.accounts@.len() ==> pre.accounts@[j].account != account,
            self.accounts@.len() == pre.accounts@.len() + 1,
            forall|j: int| 0 <= j < pre.accounts@.len() ==> self.accounts@[j] == pre.accounts@[j],
            self.accounts@.last().account == account,
            self.accounts@.last().snaps@ == seq![BalanceSnapshot { height, balance: new_bal }],
            self.last_height == height,
        ensures
            snapshot_appended(pre, self, account, new_bal, height),
    {
        let snap = BalanceSnapshot { height, balance: new_bal };
        let h2 = self.accounts@.last();
        assert(self.accounts@ =~= pre.accounts@.push(h2));
        lemma_history_in_push(pre.accounts@, h2, account);
        assert(self.history_of(account) =~= seq![snap]);
        lemma_history_in_absent(pre.accounts@, account);
        assert forall|b: u64| b != account implies self.history_of(b) == pre.history_of(b) by {
            lemma_history_in_push(pre.accounts@, h2, b);
            if !(exists|j: int| 0 <= j < pre.accounts@.len() && (#[trigger] pre.accounts@[j]).account == b) {
                lemma_history_in_absent(pre.accounts@, b);
            }
        }
        assert(pre.history_of(account).len() == 0);
        assert forall|q: u64| q < height implies self.balance_at(account, q) == pre.balance_at(
            account,
            q,
        ) by {
            assert(seq![snap].drop_last() =~= Seq::<BalanceSnapshot>::empty());
        }
        assert forall|q: u64| q >= height implies self.balance_at(account, q) == new_bal by {
            assert(seq![snap].last() == snap);
        }
    }
}

} // verus!
