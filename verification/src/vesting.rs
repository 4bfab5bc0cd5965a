use vstd::prelude::*;

use crate::error::ContractError;
use vstd::arithmetic::div_mod::{
    lemma_div_is_ordered,
    lemma_div_multiples_vanish,
    lemma_div_pos_is_pos,
};
use vstd::arithmetic::mul::{
    lemma_mul_inequality,
    lemma_mul_is_commutative,
    lemma_mul_nonnegative,
};

verus! {

/// One vesting grant: a time-linear entitlement from `start_time` to
/// `end_time`, claimable only from `cliff_time` on, escrowed at creation.
#[derive(Clone, Copy, Debug)]
pub struct VestingSchedule {
    pub beneficiary: u64,
    pub start_time: u64,
    pub cliff_time: u64,
    pub end_time: u64,
    pub total_amount: u128,
    pub claimed_amount: u128,
    pub last_claim_time: Option<u64>,
}

impl VestingSchedule {
    /// The times a grant must carry to be accepted.
    pub open spec fn valid_times(self) -> bool {
        &&& self.start_time < self.end_time
        &&& self.start_time <= self.cliff_time <= self.end_time
    }

    /// Runtime check matching `valid_times`.
    pub fn check_valid_times(&self) -> (r: bool)
        ensures
            r == self.valid_times(),
    {
        self.start_time < self.end_time && self.start_time <= self.cliff_time && self.cliff_time
            <= self.end_time
    }

    /// Valid times, and never more claimed than granted.
    pub open spec fn wf(self) -> bool {
        &&& self.valid_times()
        &&& self.claimed_amount <= self.total_amount
    }

    /// The amount claimable from this grant at time `now`: nothing before
    /// the cliff, the unclaimed remainder from the end on, and in between
    /// the time-linear vested portion `total * elapsed / duration` less
    /// what was already claimed. A grant already claimed past the portion
    /// vested by `now` yields nothing.
    pub open spec fn spec_claimable(self, now: u64) -> int {
        if now < self.cliff_time {
            0
        } else if now >= self.end_time {
            self.total_amount - self.claimed_amount
        } else {
            let vested = self.total_amount * (now - self.start_time) / (self.end_time
                - self.start_time);
            if vested >= self.claimed_amount {
                vested - self.claimed_amount
            } else {
                0
            }
        }
    }

    /// The one computation step of `spec_claimable` that can exceed the
    /// representable range: the product of the grant total and the elapsed
    /// time, between cliff and end.
    pub open spec fn claim_mul_overflows(self, now: u64) -> bool {
        &&& self.cliff_time <= now < self.end_time
        &&& self.total_amount * (now - self.start_time) > u128::MAX
    }

    /// The amount claimable at `now`; fails with `Overflow` exactly when
    /// the vested-portion product is not representable.
    pub fn claimable(&self, now: u64) -> (r: Result<u128, ContractError>)
        requires
            self.wf(),
        ensures
            r is Ok <==> !self.claim_mul_overflows(now),
            r is Ok ==> r->Ok_0 == self.spec_claimable(now),
            r is Err ==> r == Err::<u128, ContractError>(ContractError::Overflow),
    {
        if now < self.cliff_time {
            Ok(0)
        } else if now >= self.end_time {
            Ok(self.total_amount - self.claimed_amount)
        } else {
            let elapsed = (now - self.start_time) as u128;
            let duration = (self.end_time - self.start_time) as u128;
            match self.total_amount.checked_mul(elapsed) {
                None => Err(ContractError::Overflow),
                Some(prod) => {
                    let vested = prod / duration;
                    if vested >= self.claimed_amount {
                        Ok(vested - self.claimed_amount)
                    } else {
                        Ok(0)
                    }
                },
            }
        }
    }
}

/// Between cliff and end, the vested portion lies between 0 and the grant
/// total.
pub proof fn lemma_vested_le_total(s: VestingSchedule, now: u64)
    requires
        s.wf(),
        s.cliff_time <= now < s.end_time,
    ensures
        0 <= s.total_amount * (now - s.start_time) / (s.end_time - s.start_time)
            <= s.total_amount,
{
    let t = s.total_amount as int;
    let el = now - s.start_time;
    let d = s.end_time - s.start_time;
    lemma_mul_nonnegative(t, el);
    lemma_div_pos_is_pos(t * el, d);
    lemma_mul_inequality(el, d, t);
    lemma_mul_is_commutative(t, el);
    lemma_mul_is_commutative(t, d);
    lemma_div_is_ordered(t * el, d * t, d);
    lemma_div_multiples_vanish(t, d);
}

/// What is claimable is never negative and never exceeds the unclaimed
/// remainder of the grant; with `claimed_amount <= total_amount` this is
/// what keeps a claim from pushing `claimed_amount` past `total_amount`.
pub proof fn lemma_claimable_bounds(s: VestingSchedule, now: u64)
    requires
        s.wf(),
    ensures
        0 <= s.spec_claimable(now) <= s.total_amount - s.claimed_amount,
{
    if s.cliff_time <= now < s.end_time {
        lemma_vested_le_total(s, now);
    }
}

/// The claimable amount of a grant never decreases as time moves forward:
/// zero before the cliff, time-linear between cliff and end, and the whole
/// unclaimed remainder from the end on.
pub proof fn lemma_claimable_monotone(s: VestingSchedule, t1: u64, t2: u64)
    requires
        s.wf(),
        t1 <= t2,
    ensures
        s.spec_claimable(t1) <= s.spec_claimable(t2),
{
    lemma_claimable_bounds(s, t1);
    lemma_claimable_bounds(s, t2);
    if s.cliff_time <= t1 && t1 < s.end_time {
        lemma_vested_le_total(s, t1);
        if t2 < s.end_time {
            let t = s.total_amount as int;
            let e1 = t1 - s.start_time;
            let e2 = t2 - s.start_time;
            let d = s.end_time - s.start_time;
            lemma_mul_inequality(e1, e2, t);
            lemma_mul_is_commutative(t, e1);
            lemma_mul_is_commutative(t, e2);
            lemma_div_is_ordered(t * e1, t * e2, d);
        }
    }
}

/// The result of one claim on one grant: eligible grants absorb their
/// claimable portion and remember the claim time; everything else is left
/// untouched.
pub open spec fn updated_schedule(s: VestingSchedule, b: u64, now: u64) -> VestingSchedule {
    if s.beneficiary == b && now >= s.cliff_time {
        VestingSchedule {
            claimed_amount: (s.claimed_amount + s.spec_claimable(now)) as u128,
            last_claim_time: Some(now),
            ..s
        }
    } else {
        s
    }
}

/// The grants recorded for `b`, in creation order.
pub open spec fn filter_beneficiary(ss: Seq<VestingSchedule>, b: u64) -> Seq<VestingSchedule>
    decreases ss.len(),
{
    if ss.len() == 0 {
        Seq::empty()
    } else if ss.last().beneficiary == b {
        filter_beneficiary(ss.drop_last(), b).push(ss.last())
    } else {
        filter_beneficiary(ss.drop_last(), b)
    }
}

/// The sum of what `b` can claim at `now` over all grants.
pub open spec fn spec_total_claimable(ss: Seq<VestingSchedule>, b: u64, now: u64) -> int
    decreases ss.len(),
{
    if ss.len() == 0 {
        0
    } else {
        spec_total_claimable(ss.drop_last(), b, now) + if ss.last().beneficiary == b {
            ss.last().spec_claimable(now)
        } else {
            0
        }
    }
}

/// Some grant of `b` hits the vested-portion overflow at `now`.
pub open spec fn any_mul_overflow(ss: Seq<VestingSchedule>, b: u64, now: u64) -> bool {
    exists|j: int|
        0 <= j < ss.len() && (#[trigger] ss[j]).beneficiary == b && ss[j].claim_mul_overflows(now)
}

/// All vesting grants, every one well-formed.
#[derive(Debug)]
pub struct VestingEngine {
    pub schedules: Vec<VestingSchedule>,
}

impl VestingEngine {
    pub open spec fn wf(self) -> bool {
        forall|i: int| 0 <= i < self.schedules@.len() ==> (#[trigger] self.schedules@[i]).wf()
    }

    /// An engine with no grants.
    pub fn new() -> (r: VestingEngine)
        ensures
            r.wf(),
            r.schedules@ == Seq::<VestingSchedule>::empty(),
    {
        VestingEngine { schedules: Vec::new() }
    }

    /// Appends a new grant.
    pub fn push_schedule(&mut self, s: VestingSchedule)
        requires
            old(self).wf(),
            s.wf(),
        ensures
            final(self).wf(),
            final(self).schedules@ == old(self).schedules@.push(s),
    {
        self.schedules.push(s);
    }

    /// Copies of the grants recorded for `beneficiary`, in creation order.
    pub fn schedules_of(&self, beneficiary: u64) -> (r: Vec<VestingSchedule>)
        ensures
            r@ == filter_beneficiary(self.schedules@, beneficiary),
    {
        let ghost s = self.schedules@;
        let mut out: Vec<VestingSchedule> = Vec::new();
        let mut i: usize = 0;
        proof {
            assert(s.take(0) =~= Seq::<VestingSchedule>::empty());
        }
        while i < self.schedules.len()
            invariant
                i <= s.len(),
                s == self.schedules@,
                out@ == filter_beneficiary(s.take(i as int), beneficiary),
            decreases s.len() - i,
        {
            proof {
                assert(s.take(i as int + 1).drop_last() =~= s.take(i as int));
                assert(s.take(i as int + 1).last() == s[i as int]);
            }
            if self.schedules[i].beneficiary == beneficiary {
                out.push(self.schedules[i]);
            }
            i += 1;
        }
        proof {
            assert(s.take(s.len() as int) =~= s);
        }
        out
    }

    /// The sum of what `beneficiary` can claim at `now`; fails with
    /// `Overflow` exactly when a grant's vested portion or the running sum
    /// is not representable. Reads only.
    pub fn total_claimable(&self, beneficiary: u64, now: u64) -> (r: Result<u128, ContractError>)
        requires
            self.wf(),
        ensures
            r is Ok <==> !any_mul_overflow(self.schedules@, beneficiary, now)
                && spec_total_claimable(self.schedules@, beneficiary, now) <= u128::MAX,
            r is Ok ==> r->Ok_0 == spec_total_claimable(self.schedules@, beneficiary, now),
            r is Err ==> r == Err::<u128, ContractError>(ContractError::Overflow),
    {
        let ghost s = self.schedules@;
        let mut acc: u128 = 0;
        let mut i: usize = 0;
        proof {
            assert(s.take(0) =~= Seq::<VestingSchedule>::empty());
        }
        while i < self.schedules.len()
            invariant
                i <= s.len(),
                s == self.schedules@,
                self.wf(),
                acc == spec_total_claimable(s.take(i as int), beneficiary, now),
                !any_mul_overflow(s.take(i as int), beneficiary, now),
            decreases s.len() - i,
        {
            proof {
                assert(s.take(i as int + 1).drop_last() =~= s.take(i as int));
                assert(s.take(i as int + 1).last() == s[i as int]);
            }
            let sched = self.schedules[i];
            if sched.beneficiary == beneficiary {
                match sched.claimable(now) {
                    Err(_) => {
                        proof {
                            assert(s[i as int].beneficiary == beneficiary
                                && s[i as int].claim_mul_overflows(now));
                        }
                        return Err(ContractError::Overflow);
                    },
                    Ok(v) => {
                        if v > u128::MAX - acc {
                            proof {
                                lemma_prefix_le_total(s, beneficiary, now, i as int + 1);
                            }
                            return Err(ContractError::Overflow);
                        }
                        acc += v;
                    },
                }
            }
            proof {
                assert forall|j: int|
                    0 <= j < s.take(i as int + 1).len() && (#[trigger] s.take(
                        i as int + 1,
                    )[j]).beneficiary == beneficiary implies !s.take(
                    i as int + 1,
                )[j].claim_mul_overflows(now) by {
                    assert(s.take(i as int + 1)[j] == s[j]);
                    if j < i as int {
                        assert(s.take(i as int)[j] == s[j]);
                    }
                }
            }
            i += 1;
        }
        proof {
            assert(s.take(s.len() as int) =~= s);
        }
        Ok(acc)
    }

    /// Applies one claim at `now` for `beneficiary`: every eligible grant
    /// absorbs its claimable portion and remembers the claim time; nothing
    /// else changes. The caller has ruled out overflow via
    /// `total_claimable`, so this cannot fail.
    pub fn apply_claims(&mut self, beneficiary: u64, now: u64)
        requires
            old(self).wf(),
            !any_mul_overflow(old(self).schedules@, beneficiary, now),
        ensures
            final(self).wf(),
            final(self).schedules@.len() == old(self).schedules@.len(),
            forall|j: int|
                0 <= j < old(self).schedules@.len() ==> final(self).schedules@[j]
                    == updated_schedule(old(self).schedules@[j], beneficiary, now),
    {
        let ghost pre = self.schedules@;
        let mut i: usize = 0;
        while i < self.schedules.len()
            invariant
                i <= pre.len(),
                self.schedules@.len() == pre.len(),
                self.wf(),
                !any_mul_overflow(pre, beneficiary, now),
                forall|j: int| i <= j < pre.len() ==> self.schedules@[j] == pre[j],
                forall|j: int|
                    0 <= j < i ==> self.schedules@[j] == updated_schedule(pre[j], beneficiary, now),
            decreases pre.len() - i,
        {
            let sched = self.schedules[i];
            if sched.beneficiary == beneficiary && now >= sched.cliff_time {
                let v = match sched.claimable(now) {
                    Ok(v) => v,
                    Err(_) => {
                        proof {
                            assert(pre[i as int].beneficiary == beneficiary
                                && pre[i as int].claim_mul_overflows(now));
                            assert(false);
                        }
                        0
                    },
                };
                proof {
                    lemma_claimable_bounds(sched, now);
                }
                let slot = &mut self.schedules[i];
                slot.claimed_amount = slot.claimed_amount + v;
                slot.last_claim_time = Some(now);
            }
            i += 1;
        }
    }
}

/// A claimed amount never exceeds its grant's total: it is part of every
/// grant's well-formedness, which every operation of the engine preserves,
/// and claims only ever increase it.
pub proof fn lemma_claimed_bounded(e: VestingEngine, j: int)
    requires
        e.wf(),
        0 <= j < e.schedules@.len(),
    ensures
        e.schedules@[j].claimed_amount <= e.schedules@[j].total_amount,
{
}

/// A prefix of the grant list never claims more in total than the whole
/// list: contributions are non-negative.
proof fn lemma_prefix_le_total(ss: Seq<VestingSchedule>, b: u64, now: u64, j: int)
    requires
        forall|i: int| 0 <= i < ss.len() ==> (#[trigger] ss[i]).wf(),
        0 <= j <= ss.len(),
    ensures
        spec_total_claimable(ss.take(j), b, now) <= spec_total_claimable(ss, b, now),
    decreases ss.len() - j,
{
    if j == ss.len() {
        assert(ss.take(j) =~= ss);
    } else {
        assert(ss.take(j + 1).drop_last() =~= ss.take(j));
        assert(ss.take(j + 1).last() == ss[j]);
        lemma_claimable_bounds(ss[j], now);
        lemma_prefix_le_total(ss, b, now, j + 1);
    }
}

} // verus!
