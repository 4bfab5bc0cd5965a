use vstd::prelude::*;

use crate::state::TransactionMetadata;

verus! {

/// One executed transfer, keyed by (account, nonce); appended on success,
/// never mutated or deleted.
#[derive(Clone, Debug)]
pub struct TxRecord {
    pub account: u64,
    pub meta: TransactionMetadata,
}

/// One credit received by an account, with the time it arrived; the
/// holding-period check reads these to tell aged funds from fresh ones.
#[derive(Clone, Copy, Debug)]
pub struct Inflow {
    pub account: u64,
    pub timestamp: u64,
    pub amount: u128,
}

/// Append-only record of executed transfers and received credits, used to
/// reconstruct rolling volume and fund age without unbounded rescans.
#[derive(Debug)]
pub struct TransactionLog {
    pub records: Vec<TxRecord>,
    pub inflows: Vec<Inflow>,
    /// The latest timestamp any append has carried; appends never go
    /// backwards in time.
    pub last_time: u64,
}

/// `t` lies in the trailing window `(now - w, now]`.
pub open spec fn in_window(t: u64, now: u64, w: u64) -> bool {
    t <= now && t + w > now
}

/// What one record adds to an account's volume over a window.
pub open spec fn record_contrib(r: TxRecord, a: u64, now: u64, w: u64) -> int {
    if r.account == a && in_window(r.meta.timestamp, now, w) {
        r.meta.amount as int
    } else {
        0
    }
}

/// The amount `a` transferred out inside the window `(now - w, now]`.
pub open spec fn volume_in(recs: Seq<TxRecord>, a: u64, now: u64, w: u64) -> int
    decreases recs.len(),
{
    if recs.len() == 0 {
        0
    } else {
        volume_in(recs.drop_last(), a, now, w) + record_contrib(recs.last(), a, now, w)
    }
}

/// What one inflow adds to an account's received sum over a window.
pub open spec fn inflow_contrib(f: Inflow, a: u64, now: u64, w: u64) -> int {
    if f.account == a && in_window(f.timestamp, now, w) {
        f.amount as int
    } else {
        0
    }
}

/// The amount `a` received inside the window `(now - w, now]`.
pub open spec fn inflow_in(fs: Seq<Inflow>, a: u64, now: u64, w: u64) -> int
    decreases fs.len(),
{
    if fs.len() == 0 {
        0
    } else {
        inflow_in(fs.drop_last(), a, now, w) + inflow_contrib(fs.last(), a, now, w)
    }
}

/// The timestamp of the latest transfer `a` executed, if any.
pub open spec fn last_out_in(recs: Seq<TxRecord>, a: u64) -> Option<u64>
    decreases recs.len(),
{
    if recs.len() == 0 {
        None
    } else if recs.last().account == a {
        Some(recs.last().meta.timestamp)
    } else {
        last_out_in(recs.drop_last(), a)
    }
}

/// A record for the pair (account `a`, nonce `n`) exists.
pub open spec fn has_record(recs: Seq<TxRecord>, a: u64, n: u64) -> bool {
    exists|j: int| 0 <= j < recs.len() && (#[trigger] recs[j]).account == a && recs[j].meta.nonce == n
}

pub open spec fn record_times_sorted(recs: Seq<TxRecord>) -> bool {
    forall|i: int, j: int|
        0 <= i <= j < recs.len() ==> recs[i].meta.timestamp <= recs[j].meta.timestamp
}

pub open spec fn inflow_times_sorted(fs: Seq<Inflow>) -> bool {
    forall|i: int, j: int| 0 <= i <= j < fs.len() ==> fs[i].timestamp <= fs[j].timestamp
}

impl TransactionLog {
    /// Appends carry non-decreasing timestamps bounded by `last_time`, and
    /// no (account, nonce) pair is recorded twice.
    pub open spec fn wf(self) -> bool {
        &&& record_times_sorted(self.records@)
        &&& forall|i: int|
            0 <= i < self.records@.len() ==> (#[trigger] self.records@[i]).meta.timestamp
                <= self.last_time
        &&& forall|i: int, j: int|
            0 <= i < j < self.records@.len() ==> !((#[trigger] self.records@[i]).account == (
            #[trigger] self.records@[j]).account && self.records@[i].meta.nonce
                == self.records@[j].meta.nonce)
        &&& inflow_times_sorted(self.inflows@)
        &&& forall|i: int|
            0 <= i < self.inflows@.len() ==> (#[trigger] self.inflows@[i]).timestamp
                <= self.last_time
    }

    /// An empty log.
    pub fn new() -> (r: TransactionLog)
        ensures
            r.wf(),
            r.records@ == Seq::<TxRecord>::empty(),
            r.inflows@ == Seq::<Inflow>::empty(),
            r.last_time == 0,
    {
        TransactionLog { records: Vec::new(), inflows: Vec::new(), last_time: 0 }
    }

    /// Appends the record of one executed transfer.
    pub fn append_record(&mut self, account: u64, meta: TransactionMetadata)
        requires
            old(self).wf(),
            meta.timestamp >= old(self).last_time,
            !has_record(old(self).records@, account, meta.nonce),
        ensures
            final(self).wf(),
            final(self).records@ == old(self).records@.push(TxRecord { account, meta }),
            final(self).inflows@ == old(self).inflows@,
            final(self).last_time == meta.timestamp,
    {
        let ghost pre = self.records@;
        self.last_time = meta.timestamp;
        self.records.push(TxRecord { account, meta });
        proof {
            assert forall|i: int, j: int|
                0 <= i < j < self.records@.len() implies !((#[trigger] self.records@[i]).account
                == (#[trigger] self.records@[j]).account && self.records@[i].meta.nonce
                == self.records@[j].meta.nonce) by {
                if j == pre.len() as int {
                    if self.records@[i].account == account && self.records@[i].meta.nonce
                        == self.records@[j].meta.nonce {
                        assert(has_record(pre, account, self.records@[j].meta.nonce));
                    }
                }
            }
        }
    }

    /// Appends the record of one received credit.
    pub fn append_inflow(&mut self, account: u64, timestamp: u64, amount: u128)
        requires
            old(self).wf(),
            timestamp >= old(self).last_time,
        ensures
            final(self).wf(),
            final(self).inflows@ == old(self).inflows@.push(
                Inflow { account, timestamp, amount },
            ),
            final(self).records@ == old(self).records@,
            final(self).last_time == timestamp,
    {
        self.last_time = timestamp;
        self.inflows.push(Inflow { account, timestamp, amount });
    }

    /// The amount `account` transferred out inside the trailing window
    /// `(now - window, now]`, or `None` if that sum is not representable.
    /// Scans backwards only while records can still lie in the window.
    pub fn daily_volume(&self, account: u64, now: u64, window: u64) -> (r: Option<u128>)
        requires
            self.wf(),
        ensures
            r is Some ==> r->0 == volume_in(self.records@, account, now, window),
            r is None ==> volume_in(self.records@, account, now, window) > u128::MAX,
    {
        let ghost s = self.records@;
        let mut i: usize = self.records.len();
        let mut acc: u128 = 0;
        proof {
            assert(s.take(s.len() as int) =~= s);
        }
        while i > 0
            invariant
                i <= s.len(),
                s == self.records@,
                self.wf(),
                acc + volume_in(s.take(i as int), account, now, window) == volume_in(
                    s,
                    account,
                    now,
                    window,
                ),
            decreases i,
        {
            let t = self.records[i - 1].meta.timestamp;
            proof {
                assert(s.take(i as int).drop_last() =~= s.take(i as int - 1));
                assert(s.take(i as int).last() == s[i as int - 1]);
            }
            if window <= now && t <= now - window {
                proof {
                    assert forall|j: int|
                        0 <= j < s.take(i as int).len() implies record_contrib(
                        #[trigger] s.take(i as int)[j],
                        account,
                        now,
                        window,
                    ) == 0 by {
                        assert(s[j].meta.timestamp <= s[i as int - 1].meta.timestamp);
                    }
                    lemma_volume_all_zero(s.take(i as int), account, now, window);
                }
                return Some(acc);
            }
            if self.records[i - 1].account == account && t <= now {
                let amount = self.records[i - 1].meta.amount;
                proof {
                    lemma_volume_nonneg(s.take(i as int - 1), account, now, window);
                }
                if amount > u128::MAX - acc {
                    return None;
                }
                acc += amount;
            }
            i -= 1;
        }
        proof {
            assert(s.take(0) =~= Seq::<TxRecord>::empty());
        }
        Some(acc)
    }

    /// The amount `account` received inside the trailing window
    /// `(now - window, now]`, or `None` if that sum is not representable.
    pub fn recent_inflow(&self, account: u64, now: u64, window: u64) -> (r: Option<u128>)
        requires
            self.wf(),
        ensures
            r is Some ==> r->0 == inflow_in(self.inflows@, account, now, window),
            r is None ==> inflow_in(self.inflows@, account, now, window) > u128::MAX,
    {
        let ghost s = self.inflows@;
        let mut i: usize = self.inflows.len();
        let mut acc: u128 = 0;
        proof {
            assert(s.take(s.len() as int) =~= s);
        }
        while i > 0
            invariant
                i <= s.len(),
                s == self.inflows@,
                self.wf(),
                acc + inflow_in(s.take(i as int), account, now, window) == inflow_in(
                    s,
                    account,
                    now,
                    window,
                ),
            decreases i,
        {
            let t = self.inflows[i - 1].timestamp;
            proof {
                assert(s.take(i as int).drop_last() =~= s.take(i as int - 1));
                assert(s.take(i as int).last() == s[i as int - 1]);
            }
            if window <= now && t <= now - window {
                proof {
                    assert forall|j: int|
                        0 <= j < s.take(i as int).len() implies inflow_contrib(
                        #[trigger] s.take(i as int)[j],
                        account,
                        now,
                        window,
                    ) == 0 by {
                        assert(s[j].timestamp <= s[i as int - 1].timestamp);
                    }
                    lemma_inflow_all_zero(s.take(i as int), account, now, window);
                }
                return Some(acc);
            }
            if self.inflows[i - 1].account == account && t <= now {
                let amount = self.inflows[i - 1].amount;
                proof {
                    lemma_inflow_nonneg(s.take(i as int - 1), account, now, window);
                }
                if amount > u128::MAX - acc {
                    return None;
                }
                acc += amount;
            }
            i -= 1;
        }
        proof {
            assert(s.take(0) =~= Seq::<Inflow>::empty());
        }
        Some(acc)
    }

    /// The timestamp of the latest transfer `account` executed, if any.
    pub fn last_transfer_time(&self, account: u64) -> (r: Option<u64>)
        ensures
            r == last_out_in(self.records@, account),
    {
        let ghost s = self.records@;
        let mut i: usize = self.records.len();
        proof {
            assert(s.take(s.len() as int) =~= s);
        }
        while i > 0
            invariant
                i <= s.len(),
                s == self.records@,
                last_out_in(s, account) == last_out_in(s.take(i as int), account),
            decreases i,
        {
            proof {
                assert(s.take(i as int).drop_last() =~= s.take(i as int - 1));
                assert(s.take(i as int).last() == s[i as int - 1]);
            }
            if self.records[i - 1].account == account {
                return Some(self.records[i - 1].meta.timestamp);
            }
            i -= 1;
        }
        proof {
            assert(s.take(0) =~= Seq::<TxRecord>::empty());
        }
        None
    }
}

/// Windowed sums of non-negative amounts are non-negative.
proof fn lemma_volume_nonneg(recs: Seq<TxRecord>, a: u64, now: u64, w: u64)
    ensures
        volume_in(recs, a, now, w) >= 0,
    decreases recs.len(),
{
    if recs.len() > 0 {
        lemma_volume_nonneg(recs.drop_last(), a, now, w);
    }
}

pub proof fn lemma_inflow_nonneg(fs: Seq<Inflow>, a: u64, now: u64, w: u64)
    ensures
        inflow_in(fs, a, now, w) >= 0,
    decreases fs.len(),
{
    if fs.len() > 0 {
        lemma_inflow_nonneg(fs.drop_last(), a, now, w);
    }
}

proof fn lemma_volume_all_zero(recs: Seq<TxRecord>, a: u64, now: u64, w: u64)
    requires
        forall|j: int| 0 <= j < recs.len() ==> record_contrib(#[trigger] recs[j], a, now, w) == 0,
    ensures
        volume_in(recs, a, now, w) == 0,
    decreases recs.len(),
{
    if recs.len() > 0 {
        assert(recs.drop_last() =~= recs.take(recs.len() - 1));
        assert forall|j: int|
            0 <= j < recs.drop_last().len() implies record_contrib(
            #[trigger] recs.drop_last()[j],
            a,
            now,
            w,
        ) == 0 by {
            assert(recs.drop_last()[j] == recs[j]);
        }
        lemma_volume_all_zero(recs.drop_last(), a, now, w);
        assert(record_contrib(recs.last(), a, now, w) == 0);
    }
}

proof fn lemma_inflow_all_zero(fs: Seq<Inflow>, a: u64, now: u64, w: u64)
    requires
        forall|j: int| 0 <= j < fs.len() ==> inflow_contrib(#[trigger] fs[j], a, now, w) == 0,
    ensures
        inflow_in(fs, a, now, w) == 0,
    decreases fs.len(),
{
    if fs.len() > 0 {
        assert forall|j: int|
            0 <= j < fs.drop_last().len() implies inflow_contrib(
            #[trigger] fs.drop_last()[j],
            a,
            now,
            w,
        ) == 0 by {
            assert(fs.drop_last()[j] == fs[j]);
        }
        lemma_inflow_all_zero(fs.drop_last(), a, now, w);
        assert(inflow_contrib(fs.last(), a, now, w) == 0);
    }
}

} // verus!
