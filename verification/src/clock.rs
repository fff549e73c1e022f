//! The clock: an immutable list of scheduled jobs and the per-tick
//! dispatch logic that evaluates and runs the due ones.
//!
//! The perpetual one-second timer itself is asynchronous plumbing and
//! lives with the host; what it does on every tick — capture one
//! timestamp, compute the due set against that single instant, run the
//! due jobs in registration order and record each outcome in isolation —
//! is [`Clock::tick`].

use vstd::prelude::*;

use crate::job::{Job, JobError, ScheduledJob};
use crate::schedule::Timestamp;

verus! {

/// What the dispatch unit records for one due job in one tick: which job
/// ran and what its executor reported. Failures are recorded here for
/// the diagnostics sink and go nowhere else.
pub struct TickOutcome {
    /// The job's index in registration order.
    pub job: usize,
    /// The job's diagnostic name.
    pub name: String,
    /// The executor's verdict for this run.
    pub result: Result<(), JobError>,
}

/// The scheduler: an ordered, read-only collection of scheduled jobs,
/// established at construction and never mutated afterwards. The clock
/// itself holds no per-tick state; each tick is independent of every
/// earlier one.
pub struct Clock<J: Job> {
    jobs: Vec<ScheduledJob<J>>,
}

impl<J: Job> Clock<J> {
    /// The registered jobs, in registration order.
    pub closed spec fn jobs_seq(self) -> Seq<ScheduledJob<J>> {
        self.jobs@
    }

    /// Whether the job at index `i` is due at the instant `t`.
    pub open spec fn due_at(self, i: int, t: Timestamp) -> bool {
        self.jobs_seq()[i].spec_cron().fires_at(t)
    }

    /// Build a scheduler over a fixed job list; the list is frozen from
    /// here on.
    pub fn new(jobs: Vec<ScheduledJob<J>>) -> (r: Clock<J>)
        ensures
            r.jobs_seq() == jobs@,
    {
        Clock { jobs }
    }

    /// The registered jobs, read-only.
    pub fn jobs(&self) -> (r: &Vec<ScheduledJob<J>>)
        ensures
            r@ == self.jobs_seq(),
    {
        &self.jobs
    }

    /// Evaluate every job against the single captured instant `now`,
    /// before anything is dispatched: the indices, in registration
    /// order, of exactly the jobs whose predicate fires at `now`.
    pub fn due_jobs(&self, now: &Timestamp) -> (r: Vec<usize>)
        ensures
            forall|k: int|
                0 <= k < r@.len() ==> (#[trigger] r@[k]) < self.jobs_seq().len() && self.due_at(
                    r@[k] as int,
                    *now,
                ),
            forall|i: usize|
                i < self.jobs_seq().len() && self.due_at(i as int, *now) ==> r@.contains(i),
            forall|k1: int, k2: int| 0 <= k1 < k2 < r@.len() ==> r@[k1] < r@[k2],
    {
        let mut due: Vec<usize> = Vec::new();
        let mut i: usize = 0;
        while i < self.jobs.len()
            invariant
                i <= self.jobs_seq().len(),
                forall|k: int|
                    0 <= k < due@.len() ==> (#[trigger] due@[k]) < i && self.due_at(
                        due@[k] as int,
                        *now,
                    ),
                forall|j: usize| j < i && self.due_at(j as int, *now) ==> due@.contains(j),
                forall|k1: int, k2: int| 0 <= k1 < k2 < due@.len() ==> due@[k1] < due@[k2],
            decreases self.jobs_seq().len() - i,
        {
            let ghost old_due = due@;
            if self.jobs[i].should_run(now) {
                due.push(i);
            }
            proof {
                assert forall|j: usize| j < i + 1 && self.due_at(j as int, *now) implies due@
                    .contains(j) by {
                    if j < i {
                        assert(old_due.contains(j));
                        let w = choose|w: int| 0 <= w < old_due.len() && old_due[w] == j;
                        assert(due@[w] == j);
                    } else {
                        assert(due@[due@.len() - 1] == j);
                    }
                }
            }
            i += 1;
        }
        due
    }

    /// One tick's dispatch unit. Evaluate every job against the single
    /// captured instant `now`; then run the due jobs in registration
    /// order, each to completion, recording every outcome. A failure is
    /// recorded for the diagnostics sink and isolated there: it reaches
    /// neither the remaining jobs of this tick nor the caller, so the
    /// tick loop can run forever across any number of failures. A tick
    /// with no due jobs does no work and is not an error.
    pub fn tick(&self, now: &Timestamp) -> (r: Vec<TickOutcome>)
        ensures
            forall|k: int|
                0 <= k < r@.len() ==> (#[trigger] r@[k]).job < self.jobs_seq().len() && self.due_at(
                    r@[k].job as int,
                    *now,
                ),
            forall|i: usize|
                i < self.jobs_seq().len() && self.due_at(i as int, *now) ==> exists|k: int|
                    0 <= k < r@.len() && (#[trigger] r@[k]).job == i,
            forall|k1: int, k2: int| 0 <= k1 < k2 < r@.len() ==> r@[k1].job < r@[k2].job,
    {
        let due = self.due_jobs(now);
        let mut outcomes: Vec<TickOutcome> = Vec::new();
        let mut k: usize = 0;
        while k < due.len()
            invariant
                k <= due@.len(),
                outcomes@.len() == k,
                forall|m: int| 0 <= m < k ==> (#[trigger] outcomes@[m]).job == due@[m],
                forall|m: int|
                    0 <= m < due@.len() ==> (#[trigger] due@[m]) < self.jobs_seq().len()
                        && self.due_at(due@[m] as int, *now),
                forall|i: usize|
                    i < self.jobs_seq().len() && self.due_at(i as int, *now) ==> due@.contains(i),
                forall|k1: int, k2: int| 0 <= k1 < k2 < due@.len() ==> due@[k1] < due@[k2],
            decreases due@.len() - k,
        {
            let idx = due[k];
            let entry = &self.jobs[idx];
            let name = entry.job().job_name();
            let result = entry.schedule();
            outcomes.push(TickOutcome { job: idx, name, result });
            k += 1;
        }
        proof {
            assert forall|i: usize|
                i < self.jobs_seq().len() && self.due_at(i as int, *now) implies exists|k2: int|
                0 <= k2 < outcomes@.len() && (#[trigger] outcomes@[k2]).job == i by {
                assert(due@.contains(i));
                let m = choose|m: int| 0 <= m < due@.len() && due@[m] == i;
                assert(outcomes@[m].job == i);
            }
        }
        outcomes
    }
}

/// Within one tick, every job's due-ness is evaluated against the exact
/// same captured timestamp: two jobs whose predicates agree at that
/// instant are either both due or both not due in that tick.
pub proof fn lemma_single_instant<J: Job>(c: Clock<J>, t: Timestamp, i: int, j: int)
    requires
        0 <= i < c.jobs_seq().len(),
        0 <= j < c.jobs_seq().len(),
        c.jobs_seq()[i].spec_cron().fires_at(t) == c.jobs_seq()[j].spec_cron().fires_at(t),
    ensures
        c.due_at(i, t) <==> c.due_at(j, t),
{
}

/// A job whose predicate does not fire at the captured instant is never
/// dispatched in that tick: no outcome of the tick names it, however
/// many ticks are taken and whatever the other jobs' executors did.
pub proof fn lemma_not_due_not_run<J: Job>(
    c: Clock<J>,
    t: Timestamp,
    outcomes: Seq<TickOutcome>,
    i: int,
)
    requires
        forall|k: int|
            0 <= k < outcomes.len() ==> (#[trigger] outcomes[k]).job < c.jobs_seq().len()
                && c.due_at(outcomes[k].job as int, t),
        0 <= i < c.jobs_seq().len(),
        !c.due_at(i, t),
    ensures
        forall|k: int| 0 <= k < outcomes.len() ==> (#[trigger] outcomes[k]).job != i,
{
}

/// Two strictly increasing index lists with the same members are the
/// same list.
proof fn lemma_sorted_unique(a: Seq<usize>, b: Seq<usize>)
    requires
        forall|k1: int, k2: int| 0 <= k1 < k2 < a.len() ==> a[k1] < a[k2],
        forall|k1: int, k2: int| 0 <= k1 < k2 < b.len() ==> b[k1] < b[k2],
        forall|x: usize| a.contains(x) <==> b.contains(x),
    ensures
        a == b,
    decreases a.len(),
{
    if a.len() == 0 {
        if b.len() > 0 {
            assert(b.contains(b[0]));
            assert(a.contains(b[0]));
        }
        assert(a =~= b);
    } else {
        assert(a.contains(a[0]));
        assert(b.contains(a[0]));
        let m = choose|m: int| 0 <= m < b.len() && b[m] == a[0];
        assert(b[0] <= a[0]);
        assert(b.contains(b[0]));
        assert(a.contains(b[0]));
        let m2 = choose|m2: int| 0 <= m2 < a.len() && a[m2] == b[0];
        assert(a[0] == b[0]);
        let a1 = a.drop_first();
        let b1 = b.drop_first();
        assert forall|k1: int, k2: int| 0 <= k1 < k2 < a1.len() implies a1[k1] < a1[k2] by {
            assert(a[k1 + 1] < a[k2 + 1]);
        }
        assert forall|k1: int, k2: int| 0 <= k1 < k2 < b1.len() implies b1[k1] < b1[k2] by {
            assert(b[k1 + 1] < b[k2 + 1]);
        }
        assert forall|x: usize| a1.contains(x) implies b1.contains(x) by {
            let k = choose|k: int| 0 <= k < a1.len() && a1[k] == x;
            assert(a[k + 1] == x);
            assert(a[0] < x);
            assert(a.contains(x));
            assert(b.contains(x));
            let j = choose|j: int| 0 <= j < b.len() && b[j] == x;
            assert(j != 0);
            assert(b1[j - 1] == x);
        }
        assert forall|x: usize| b1.contains(x) implies a1.contains(x) by {
            let k = choose|k: int| 0 <= k < b1.len() && b1[k] == x;
            assert(b[k + 1] == x);
            assert(b[0] < x);
            assert(b.contains(x));
            assert(a.contains(x));
            let j = choose|j: int| 0 <= j < a.len() && a[j] == x;
            assert(j != 0);
            assert(a1[j - 1] == x);
        }
        lemma_sorted_unique(a1, b1);
        assert(a.len() == b.len());
        assert forall|i: int| 0 <= i < a.len() implies a[i] == b[i] by {
            if i > 0 {
                assert(a1[i - 1] == a[i]);
                assert(b1[i - 1] == b[i]);
            }
        }
        assert(a =~= b);
    }
}

/// The due set of a tick is deterministic: any two index lists that are
/// strictly increasing and name exactly the jobs due at the captured
/// instant — as [`Clock::due_jobs`] guarantees of its result — are the
/// same list, computed before anything is dispatched.
pub proof fn lemma_due_set_deterministic<J: Job>(
    c: Clock<J>,
    t: Timestamp,
    a: Seq<usize>,
    b: Seq<usize>,
)
    requires
        forall|k: int|
            0 <= k < a.len() ==> (#[trigger] a[k]) < c.jobs_seq().len() && c.due_at(a[k] as int, t),
        forall|i: usize| i < c.jobs_seq().len() && c.due_at(i as int, t) ==> a.contains(i),
        forall|k1: int, k2: int| 0 <= k1 < k2 < a.len() ==> a[k1] < a[k2],
        forall|k: int|
            0 <= k < b.len() ==> (#[trigger] b[k]) < c.jobs_seq().len() && c.due_at(b[k] as int, t),
        forall|i: usize| i < c.jobs_seq().len() && c.due_at(i as int, t) ==> b.contains(i),
        forall|k1: int, k2: int| 0 <= k1 < k2 < b.len() ==> b[k1] < b[k2],
    ensures
        a == b,
{
    assert forall|x: usize| a.contains(x) implies b.contains(x) by {
        let k = choose|k: int| 0 <= k < a.len() && a[k] == x;
        assert(x < c.jobs_seq().len() && c.due_at(x as int, t));
    }
    assert forall|x: usize| b.contains(x) implies a.contains(x) by {
        let k = choose|k: int| 0 <= k < b.len() && b[k] == x;
        assert(x < c.jobs_seq().len() && c.due_at(x as int, t));
    }
    lemma_sorted_unique(a, b);
}

/// The scheduler never stops attempting a due job's run, however many
/// ticks pass and whatever any executor reported on any earlier tick:
/// in every tick report that covers its due jobs — as [`Clock::tick`]
/// guarantees — the job is run again on each tick where it is due.
pub proof fn lemma_never_stops<J: Job>(
    c: Clock<J>,
    instants: Seq<Timestamp>,
    reports: Seq<Seq<TickOutcome>>,
    i: usize,
)
    requires
        reports.len() == instants.len(),
        forall|n: int|
            0 <= n < reports.len() ==> (forall|j: usize|
                j < c.jobs_seq().len() && c.due_at(j as int, #[trigger] instants[n]) ==> exists|
                    k: int,
                |
                    0 <= k < reports[n].len() && (#[trigger] reports[n][k]).job == j),
        i < c.jobs_seq().len(),
    ensures
        forall|n: int|
            0 <= n < reports.len() && c.due_at(i as int, #[trigger] instants[n]) ==> exists|k: int|
                0 <= k < reports[n].len() && (#[trigger] reports[n][k]).job == i,
{
}

/// Failure isolation: in any tick outcome that covers every due job —
/// as [`Clock::tick`] guarantees — each due job has its own recorded
/// run, whatever every other job's executor reported. One job's failure
/// removes no sibling's run from the tick.
pub proof fn lemma_failure_isolated<J: Job>(
    c: Clock<J>,
    t: Timestamp,
    outcomes: Seq<TickOutcome>,
    i: usize,
)
    requires
        forall|j: usize|
            j < c.jobs_seq().len() && c.due_at(j as int, t) ==> exists|k: int|
                0 <= k < outcomes.len() && (#[trigger] outcomes[k]).job == j,
        i < c.jobs_seq().len(),
        c.due_at(i as int, t),
    ensures
        exists|k: int| 0 <= k < outcomes.len() && (#[trigger] outcomes[k]).job == i,
{
}

} // verus!
