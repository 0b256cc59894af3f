//! Cooldown queues of withdrawal and unstake requests.
use vstd::prelude::*;

verus! {

/// A request to take out `amount`, made at `requested_at`.
#[derive(Clone, Copy, Debug, PartialEq, Eq, Structural)]
pub struct WithdrawRequest {
    pub amount: u128,
    pub requested_at: u64,
}

/// A request has matured once `cooldown` seconds have passed since it was made.
pub open spec fn is_matured(r: WithdrawRequest, now: u64, cooldown: u64) -> bool {
    now >= r.requested_at + cooldown
}

/// The requests of `s` that have matured (`matured == true`) or not, in order.
pub open spec fn select(s: Seq<WithdrawRequest>, now: u64, cooldown: u64, matured: bool) -> Seq<WithdrawRequest>
    decreases s.len(),
{
    if s.len() == 0 {
        Seq::empty()
    } else {
        let rest = select(s.drop_last(), now, cooldown, matured);
        if is_matured(s.last(), now, cooldown) == matured {
            rest.push(s.last())
        } else {
            rest
        }
    }
}

/// Splits a queue into its matured requests and those still cooling down, each
/// kept in queue order.
pub fn split_matured(queue: &Vec<WithdrawRequest>, now: u64, cooldown: u64)
    -> (r: (Vec<WithdrawRequest>, Vec<WithdrawRequest>))
    ensures
        r.0@ == select(queue@, now, cooldown, true),
        r.1@ == select(queue@, now, cooldown, false),
{
    let mut done: Vec<WithdrawRequest> = Vec::new();
    let mut waiting: Vec<WithdrawRequest> = Vec::new();
    let mut i: usize = 0;
    while i < queue.len()
        invariant
            i <= queue@.len(),
            done@ == select(queue@.subrange(0, i as int), now, cooldown, true),
            waiting@ == select(queue@.subrange(0, i as int), now, cooldown, false),
        decreases queue@.len() - i,
    {
        let r = queue[i];
        proof {
            assert(queue@.subrange(0, i + 1).drop_last() =~= queue@.subrange(0, i as int));
            assert(queue@.subrange(0, i + 1).last() == r);
        }
        if now >= r.requested_at && now - r.requested_at >= cooldown {
            done.push(r);
        } else {
            waiting.push(r);
        }
        i = i + 1;
    }
    proof {
        assert(queue@.subrange(0, i as int) =~= queue@);
    }
    (done, waiting)
}

} // verus!
