//! Time-weighted reward accrual over a pool's reward-rate timeline.
use vstd::prelude::*;
use vstd::arithmetic::div_mod::lemma_div_is_ordered;
use crate::error::CoreError;
use crate::pool::{timeline_ordered, RateChange};

verus! {

/// Beyond this many seconds since the last claim a position accrues nothing more.
pub const TWO_YEARS: u64 = 63072000;

/// Where the window of entry `c` starts for a position last claimed at `last`.
pub open spec fn window_start(c: RateChange, last: int) -> int {
    if c.since < last { last } else { c.since as int }
}

/// One entry's reward: `held * window * rate / total`, floored.
pub open spec fn segment_reward(c: RateChange, timer: int, last: int, held: int, total: int) -> int {
    held * (timer - window_start(c, last)) * c.rate / total
}

/// The reward of the entries `h[0..i]`, walked newest first: the newest window
/// ends at `timer`, each older window ends where the newer one starts, and the
/// walk stops after the first entry that began at or before `last`.
pub open spec fn reward_from(h: Seq<RateChange>, i: nat, timer: int, last: int, held: int, total: int) -> int
    decreases i,
{
    if i == 0 {
        0
    } else {
        let c = h[i - 1];
        let term = segment_reward(c, timer, last, held, total);
        if c.since <= last {
            term
        } else {
            term + reward_from(h, (i - 1) as nat, window_start(c, last), last, held, total)
        }
    }
}

/// Every product that `reward_from` forms fits in a `u128`.
pub open spec fn reward_fits(h: Seq<RateChange>, i: nat, timer: int, last: int, held: int) -> bool
    decreases i,
{
    if i == 0 {
        true
    } else {
        let c = h[i - 1];
        let window = timer - window_start(c, last);
        &&& held * window <= u128::MAX
        &&& held * window * c.rate <= u128::MAX
        &&& (c.since <= last || reward_fits(h, (i - 1) as nat, window_start(c, last), last, held))
    }
}

/// The reward owed at `now` to `held` shares of `total`, last claimed at `last`.
pub open spec fn accrual_spec(h: Seq<RateChange>, held: u128, last: u64, now: u64, total: u128) -> Result<u128, CoreError> {
    let reward = reward_from(h, h.len(), now as int, last as int, held as int, total as int);
    if now < last {
        Err(CoreError::ArithmeticFault)
    } else if now - last >= TWO_YEARS {
        Ok(0)
    } else if h.len() > 0 && now < h.last().since {
        Err(CoreError::ArithmeticFault)
    } else if total == 0 || !reward_fits(h, h.len(), now as int, last as int, held as int)
        || reward > u128::MAX {
        Err(CoreError::ArithmeticFault)
    } else {
        Ok(reward as u128)
    }
}

/// With the walk's windows non-negative, no segment reward is negative.
pub proof fn lemma_reward_nonneg(h: Seq<RateChange>, i: nat, timer: int, last: int, held: int, total: int)
    requires
        timeline_ordered(h),
        i <= h.len(),
        i > 0 ==> h[i - 1].since <= timer,
        last <= timer,
        0 <= held,
        0 < total,
    ensures
        0 <= reward_from(h, i, timer, last, held, total),
    decreases i,
{
    if i > 0 {
        let c = h[i - 1];
        let w = timer - window_start(c, last);
        assert(0 <= held * w * c.rate) by (nonlinear_arith)
            requires 0 <= held, 0 <= w, 0 <= c.rate;
        lemma_div_is_ordered(0, held * w * c.rate, total);
        if c.since > last {
            if i > 1 {
                assert(h[i - 2].since < h[i - 1].since);
            }
            lemma_reward_nonneg(h, (i - 1) as nat, window_start(c, last), last, held, total);
        }
    }
}

/// The entries of `h[0..i]` that bear on a claim last made at `last`, newest
/// first: every entry that began after `last`, then the one in force at `last`.
pub open spec fn changes_since(h: Seq<RateChange>, i: nat, last: u64) -> Seq<RateChange>
    decreases i,
{
    if i == 0 {
        Seq::empty()
    } else if h[i - 1].since <= last {
        seq![h[i - 1]]
    } else {
        seq![h[i - 1]] + changes_since(h, (i - 1) as nat, last)
    }
}

/// The timeline entries that a claim last made at `last` accrues under, newest first.
pub fn get_reward_rate_changes_since(h: &Vec<RateChange>, last: u64) -> (r: Vec<RateChange>)
    ensures
        r@ == changes_since(h@, h@.len(), last),
{
    let mut out: Vec<RateChange> = Vec::new();
    let mut i: usize = h.len();
    let mut done = false;
    while i > 0 && !done
        invariant
            i <= h@.len(),
            done ==> out@ == changes_since(h@, h@.len(), last),
            !done ==> out@ + changes_since(h@, i as nat, last) == changes_since(h@, h@.len(), last),
        decreases i + (if done { 0int } else { 1int }),
    {
        let c = h[i - 1];
        let ghost before = out@;
        out.push(c);
        if c.since <= last {
            proof {
                assert(out@ =~= before + changes_since(h@, i as nat, last));
            }
            done = true;
        } else {
            proof {
                assert(before + changes_since(h@, i as nat, last)
                    =~= out@ + changes_since(h@, (i - 1) as nat, last));
            }
            i = i - 1;
        }
    }
    proof {
        if !done {
            assert(out@ + changes_since(h@, 0, last) =~= out@);
        }
    }
    out
}

/// The reward owed on `held` shares out of `total`, over the timeline `h`, from the
/// last claim at `last` to `now`; nothing once two years have passed unclaimed.
pub fn accrued_reward(h: &Vec<RateChange>, held: u128, last: u64, now: u64, total: u128) -> (r: Result<u128, CoreError>)
    requires
        timeline_ordered(h@),
    ensures
        r == accrual_spec(h@, held, last, now, total),
{
    if now < last {
        return Err(CoreError::ArithmeticFault);
    }
    if now - last >= TWO_YEARS {
        return Ok(0);
    }
    let n = h.len();
    if n > 0 && now < h[n - 1].since {
        return Err(CoreError::ArithmeticFault);
    }
    if total == 0 {
        return Err(CoreError::ArithmeticFault);
    }
    let ghost full = reward_from(h@, n as nat, now as int, last as int, held as int, total as int);
    let ghost fits = reward_fits(h@, n as nat, now as int, last as int, held as int);
    let mut acc: u128 = 0;
    let mut timer: u64 = now;
    let mut i: usize = n;
    while i > 0
        invariant
            timeline_ordered(h@),
            n == h@.len(),
            i <= n,
            total > 0,
            now - last < TWO_YEARS,
            n > 0 ==> h@[n - 1].since <= now,
            full == reward_from(h@, n as nat, now as int, last as int, held as int, total as int),
            fits == reward_fits(h@, n as nat, now as int, last as int, held as int),
            last <= timer <= now,
            i > 0 ==> h@[i - 1].since <= timer,
            full == acc + reward_from(h@, i as nat, timer as int, last as int, held as int, total as int),
            fits == reward_fits(h@, i as nat, timer as int, last as int, held as int),
        decreases i,
    {
        let c = h[i - 1];
        let start = if c.since < last { last } else { c.since };
        let window = timer - start;
        let w: u128 = window as u128;
        let p1 = match held.checked_mul(w) {
            Some(v) => v,
            None => return Err(CoreError::ArithmeticFault),
        };
        let p2 = match p1.checked_mul(c.rate) {
            Some(v) => v,
            None => return Err(CoreError::ArithmeticFault),
        };
        let term = p2 / total;
        proof {
            if c.since > last && i > 1 {
                assert(h@[i - 2].since < h@[i - 1].since);
            }
            if c.since > last {
                lemma_reward_nonneg(h@, (i - 1) as nat, start as int, last as int, held as int, total as int);
            }
        }
        acc = match acc.checked_add(term) {
            Some(v) => v,
            None => return Err(CoreError::ArithmeticFault),
        };
        if c.since <= last {
            i = 0;
        } else {
            timer = start;
            i = i - 1;
            proof {
                if i > 0 {
                    assert(h@[i - 1].since < h@[i as int].since);
                }
            }
        }
    }
    Ok(acc)
}

/// More shares and a later end of the newest window never earn less, and never
/// overflow where the larger case does not.
pub proof fn lemma_reward_grows(
    h: Seq<RateChange>,
    i: nat,
    t1: int,
    t2: int,
    last: int,
    held1: int,
    held2: int,
    total: int,
)
    requires
        timeline_ordered(h),
        i <= h.len(),
        i > 0 ==> h[i - 1].since <= t1,
        last <= t1 <= t2,
        0 <= held1 <= held2,
        0 < total,
    ensures
        reward_fits(h, i, t2, last, held2) ==> reward_fits(h, i, t1, last, held1),
        reward_from(h, i, t1, last, held1, total) <= reward_from(h, i, t2, last, held2, total),
    decreases i,
{
    if i > 0 {
        let c = h[i - 1];
        let s = window_start(c, last);
        let w1 = t1 - s;
        let w2 = t2 - s;
        assert(0 <= held1 * w1 <= held2 * w2) by (nonlinear_arith)
            requires 0 <= held1 <= held2, 0 <= w1 <= w2;
        assert(held1 * w1 * c.rate <= held2 * w2 * c.rate) by (nonlinear_arith)
            requires 0 <= held1 * w1 <= held2 * w2, 0 <= c.rate;
        lemma_div_is_ordered(held1 * w1 * c.rate, held2 * w2 * c.rate, total);
        if c.since > last {
            if i > 1 {
                assert(h[i - 2].since < h[i - 1].since);
            }
            lemma_reward_grows(h, (i - 1) as nat, s, s, last, held1, held2, total);
        }
    }
}

/// Accrual is monotonic in elapsed time and in shares held, for a fixed timeline,
/// as long as the later claim still falls within the two-year cap.
pub proof fn lemma_accrual_monotone(
    h: Seq<RateChange>,
    held1: u128,
    held2: u128,
    last: u64,
    now1: u64,
    now2: u64,
    total: u128,
)
    requires
        timeline_ordered(h),
        held1 <= held2,
        last <= now1 <= now2,
        now2 - last < TWO_YEARS,
        h.len() > 0 ==> h.last().since <= now1,
        accrual_spec(h, held2, last, now2, total) is Ok,
    ensures
        accrual_spec(h, held1, last, now1, total) is Ok,
        accrual_spec(h, held1, last, now1, total)->Ok_0 <= accrual_spec(h, held2, last, now2, total)->Ok_0,
{
    lemma_reward_grows(h, h.len(), now1 as int, now2 as int, last as int, held1 as int, held2 as int, total as int);
    lemma_reward_nonneg(h, h.len(), now1 as int, last as int, held1 as int, total as int);
}

} // verus!
