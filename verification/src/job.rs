//! Scheduled jobs: an executor coupled to a schedule predicate and a
//! bound payload.

use vstd::prelude::*;

use crate::schedule::{field_at, five_fields, spec_parse, Cron, ScheduleError, Timestamp};

verus! {

/// The failure an executor reports for one run of a job. It is caught at
/// the job boundary and reported, never propagated to sibling jobs or to
/// the tick loop.
#[derive(Clone, Debug)]
pub struct JobError {
    /// A description of what went wrong, for the diagnostics sink.
    pub detail: String,
}

impl JobError {
    pub fn new(detail: String) -> (r: JobError)
        ensures
            r.detail == detail,
    {
        JobError { detail }
    }

    /// The failure's description.
    pub fn detail(&self) -> (r: &String)
        ensures
            *r == self.detail,
    {
        &self.detail
    }
}

/// A unit of work the scheduler can dispatch: any value offering one
/// execution operation over a structured payload, identified by a stable
/// diagnostic name. Job authors outside this crate implement it; the
/// scheduler sees nothing of a run but its success or failure.
pub trait Job {
    /// The job's stable name, used only for diagnostics.
    fn job_name(&self) -> String;

    /// Perform the job's work on the bound payload. The run may suspend
    /// on whatever the executor does and may fail; the outcome belongs
    /// to the executor alone.
    fn execute(&self, args: &serde_json::Value) -> Result<(), JobError>;
}

/// One registered job: an executor bound to an immutable payload and a
/// schedule predicate, fixed at registration and never mutated.
pub struct ScheduledJob<J: Job> {
    job: J,
    args: serde_json::Value,
    cron: Cron,
}

impl<J: Job> ScheduledJob<J> {
    /// The schedule predicate this job was registered with.
    pub closed spec fn spec_cron(self) -> Cron {
        self.cron
    }

    /// The executor this job was registered with.
    pub closed spec fn spec_job(self) -> J {
        self.job
    }

    /// The payload this job was registered with.
    pub closed spec fn spec_args(self) -> serde_json::Value {
        self.args
    }

    /// Register a job from an already parsed schedule predicate.
    pub fn new(job: J, args: serde_json::Value, cron: Cron) -> (r: ScheduledJob<J>)
        ensures
            r.spec_job() == job,
            r.spec_args() == args,
            r.spec_cron() == cron,
    {
        ScheduledJob { job, args, cron }
    }

    /// Register a job from a schedule expression. A malformed expression
    /// fails here, at registration time, with the parser's error; no job
    /// that would silently never run is produced.
    pub fn register(job: J, args: serde_json::Value, expr: &str) -> (r: Result<
        ScheduledJob<J>,
        ScheduleError,
    >)
        ensures
            r is Ok <==> spec_parse(expr@) is Some,
            r matches Ok(j) ==> Some(j.spec_cron()) == spec_parse(expr@) && j.spec_job() == job
                && j.spec_args() == args,
            r == Err::<ScheduledJob<J>, ScheduleError>(ScheduleError::FieldCount) <==> !five_fields(
                expr@,
            ),
            forall|k: u8|
                r == Err::<ScheduledJob<J>, ScheduleError>(ScheduleError::Field(k)) <==> (
                five_fields(expr@) && k < 5 && field_at(expr@, k as int) is None && (forall|m: int|
                    0 <= m < k ==> field_at(expr@, m) is Some)),
    {
        match Cron::parse(expr) {
            Ok(cron) => Ok(ScheduledJob { job, args, cron }),
            Err(e) => Err(e),
        }
    }

    /// Whether this job is due at the instant `time`: a pure query of
    /// the predicate and the timestamp alone; it never fails and has no
    /// side effect.
    pub fn should_run(&self, time: &Timestamp) -> (r: bool)
        ensures
            r == self.spec_cron().fires_at(*time),
    {
        self.cron.should_run(time)
    }

    /// Run the job now: invoke the executor once with the bound payload
    /// and hand its verdict back. The outcome is the executor's alone;
    /// this job and its registration are left untouched whatever comes
    /// back.
    pub fn schedule(&self) -> Result<(), JobError> {
        self.job.execute(&self.args)
    }

    /// The job's executor, for diagnostics.
    pub fn job(&self) -> (r: &J)
        ensures
            *r == self.spec_job(),
    {
        &self.job
    }
}

} // verus!
