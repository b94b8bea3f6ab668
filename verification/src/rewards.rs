//! The part of the reward rules that is decided on whole numbers: which
//! loyalty step a node has reached by its uptime.

use vstd::prelude::*;

verus! {

/// The seconds of a day.
pub const SECONDS_PER_DAY: u64 = 86_400;

/// Whether an uptime in seconds has reached a step that asks for `days` days.
pub open spec fn reached(days: u64, uptime_seconds: u64) -> bool {
    days * SECONDS_PER_DAY <= uptime_seconds
}

/// The loyalty step of a node: among the steps that its uptime has
/// reached, the one that asks for the most days, and the later one where two
/// ask for the same; `None` where the uptime has reached no step. A step is
/// given by the days that it asks for.
pub open spec fn loyalty_step(steps: Seq<u64>, uptime_seconds: u64) -> Option<int>
    decreases steps.len(),
{
    if steps.len() == 0 {
        None
    } else {
        let earlier = loyalty_step(steps.drop_last(), uptime_seconds);
        if reached(steps.last(), uptime_seconds) && (earlier is None || steps[earlier->0]
            <= steps.last()) {
            Some(steps.len() - 1)
        } else {
            earlier
        }
    }
}

/// The steps ask for more and more days.
pub open spec fn ascending(steps: Seq<u64>) -> bool {
    forall|i: int, j: int| 0 <= i <= j < steps.len() ==> steps[i] <= steps[j]
}

/// The loyalty step is a reached step that no other reached step beats.
pub proof fn lemma_loyalty_step(steps: Seq<u64>, uptime_seconds: u64)
    ensures
        match loyalty_step(steps, uptime_seconds) {
            Some(k) => {
                &&& 0 <= k < steps.len()
                &&& reached(steps[k], uptime_seconds)
                &&& forall|i: int|
                    0 <= i < steps.len() && reached(#[trigger] steps[i], uptime_seconds)
                        ==> steps[i] < steps[k] || (steps[i] == steps[k] && i <= k)
            },
            None => forall|i: int|
                0 <= i < steps.len() ==> !reached(#[trigger] steps[i], uptime_seconds),
        },
    decreases steps.len(),
{
    if steps.len() > 0 {
        let front = steps.drop_last();
        lemma_loyalty_step(front, uptime_seconds);
        assert forall|i: int| 0 <= i < front.len() implies front[i] == steps[i] by {}
        match loyalty_step(steps, uptime_seconds) {
            Some(k) => {
                assert forall|i: int|
                    0 <= i < steps.len() && reached(
                        #[trigger] steps[i],
                        uptime_seconds,
                    ) implies steps[i] < steps[k] || (steps[i] == steps[k] && i <= k) by {
                    if i < front.len() {
                        assert(front[i] == steps[i]);
                    }
                }
            },
            None => {
                assert forall|i: int| 0 <= i < steps.len() implies !reached(
                    #[trigger] steps[i],
                    uptime_seconds,
                ) by {
                    if i < front.len() {
                        assert(front[i] == steps[i]);
                    }
                }
            },
        }
    }
}

/// Finds the loyalty step of a node by its uptime.
pub fn compute_loyalty_step(steps: &Vec<u64>, uptime_seconds: u64) -> (r: Option<usize>)
    ensures
        match r {
            Some(k) => loyalty_step(steps@, uptime_seconds) == Some(k as int),
            None => loyalty_step(steps@, uptime_seconds) is None,
        },
{
    let mut best: Option<usize> = None;
    let mut i: usize = 0;
    while i < steps.len()
        invariant
            i <= steps@.len(),
            match best {
                Some(k) => k < i && loyalty_step(steps@.take(i as int), uptime_seconds) == Some(
                    k as int,
                ),
                None => loyalty_step(steps@.take(i as int), uptime_seconds) is None,
            },
        decreases steps@.len() - i,
    {
        proof {
            let next = steps@.take(i + 1);
            assert(next.drop_last() =~= steps@.take(i as int));
            assert(next.last() == steps@[i as int]);
            if best is Some {
                assert(next[best->0 as int] == steps@[best->0 as int]);
            }
        }
        let days: u64 = steps[i];
        if days as u128 * SECONDS_PER_DAY as u128 <= uptime_seconds as u128 {
            let takes: bool = match best {
                Some(k) => steps[k] <= days,
                None => true,
            };
            if takes {
                best = Some(i);
            }
        }
        i = i + 1;
    }
    proof {
        assert(steps@.take(i as int) =~= steps@);
    }
    best
}

} // verus!
