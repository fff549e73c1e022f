//! Scenario tests for the scheduler: due-ness, dispatch, failure
//! isolation, and registration-time validation.

use std::cell::Cell;

use rum::clock::Clock;
use rum::job::{Job, JobError, ScheduledJob};
use rum::schedule::{Cron, CronField, ScheduleError, Timestamp};

struct CountingJob {
    name: String,
    runs: Cell<usize>,
    fail: bool,
}

impl CountingJob {
    fn new(name: &str, fail: bool) -> CountingJob {
        CountingJob { name: name.to_string(), runs: Cell::new(0), fail }
    }
}

impl Job for CountingJob {
    fn job_name(&self) -> String {
        self.name.clone()
    }

    fn execute(&self, _args: &serde_json::Value) -> Result<(), JobError> {
        self.runs.set(self.runs.get() + 1);
        if self.fail {
            Err(JobError::new("executor failed".to_string()))
        } else {
            Ok(())
        }
    }
}

fn at_minute(minute: u8) -> Timestamp {
    Timestamp::new(minute, 12, 15, 6, 3)
}

fn job(name: &str, expr: &str, fail: bool) -> ScheduledJob<CountingJob> {
    ScheduledJob::register(CountingJob::new(name, fail), serde_json::Value::Null, expr)
        .expect("valid schedule expression")
}

#[test]
fn is_due_is_deterministic_and_pure() {
    let j = job("every-tick", "* * * * *", false);
    let t = at_minute(7);
    let first = j.should_run(&t);
    let second = j.should_run(&t);
    assert_eq!(first, second);
    assert!(first);
    // evaluating due-ness never runs the executor
    assert_eq!(j.job().runs.get(), 0);
}

#[test]
fn equivalent_predicates_agree_within_one_tick() {
    let clock = Clock::new(vec![
        job("first", "30 * * * *", false),
        job("second", "30 * * * *", false),
    ]);
    let due = clock.due_jobs(&at_minute(30));
    assert_eq!(due, vec![0usize, 1usize]);
    let due_elsewhere = clock.due_jobs(&at_minute(29));
    assert!(due_elsewhere.is_empty());
}

#[test]
fn failures_are_isolated_between_siblings() {
    let clock = Clock::new(vec![
        job("a", "* * * * *", false),
        job("b", "* * * * *", true),
        job("c", "* * * * *", false),
    ]);
    let outcomes = clock.tick(&at_minute(0));
    assert_eq!(outcomes.len(), 3);
    assert!(outcomes[0].result.is_ok());
    assert!(outcomes[1].result.is_err());
    assert!(outcomes[2].result.is_ok());
    let jobs = clock.jobs();
    assert_eq!(jobs[0].job().runs.get(), 1);
    assert_eq!(jobs[1].job().runs.get(), 1);
    assert_eq!(jobs[2].job().runs.get(), 1);
}

#[test]
fn a_failing_job_never_stops_the_ticks() {
    let clock = Clock::new(vec![job("always-failing", "* * * * *", true)]);
    let ticks: u8 = 5;
    for i in 0..ticks {
        let outcomes = clock.tick(&at_minute(i));
        assert_eq!(outcomes.len(), 1);
        assert!(outcomes[0].result.is_err());
        assert_eq!(outcomes[0].name, "always-failing");
    }
    assert_eq!(clock.jobs()[0].job().runs.get(), ticks as usize);
}

#[test]
fn a_never_matching_predicate_never_runs() {
    let clock = Clock::new(vec![job("never", "59 23 31 12 6", false)]);
    for i in 0u8..10 {
        let outcomes = clock.tick(&at_minute(i));
        assert!(outcomes.is_empty());
    }
    assert_eq!(clock.jobs()[0].job().runs.get(), 0);
}

#[test]
fn malformed_expressions_fail_at_registration() {
    assert_eq!(Cron::parse("* * * *"), Err(ScheduleError::FieldCount));
    assert_eq!(Cron::parse("* * * * * *"), Err(ScheduleError::FieldCount));
    assert_eq!(Cron::parse(""), Err(ScheduleError::FieldCount));
    assert_eq!(Cron::parse("60 * * * *"), Err(ScheduleError::Field(0)));
    assert_eq!(Cron::parse("* 24 * * *"), Err(ScheduleError::Field(1)));
    assert_eq!(Cron::parse("* * 0 * *"), Err(ScheduleError::Field(2)));
    assert_eq!(Cron::parse("* * * 13 *"), Err(ScheduleError::Field(3)));
    assert_eq!(Cron::parse("* * * * 7"), Err(ScheduleError::Field(4)));
    // a doubled separator makes six fields, one of them empty
    assert_eq!(Cron::parse("*  * * * *"), Err(ScheduleError::FieldCount));
    assert_eq!(Cron::parse(" * * * * *"), Err(ScheduleError::FieldCount));
    assert_eq!(Cron::parse("* * * * * "), Err(ScheduleError::FieldCount));
    assert_eq!(Cron::parse("x * * * *"), Err(ScheduleError::Field(0)));
    assert!(!ScheduleError::FieldCount.message().is_empty());
    assert!(!ScheduleError::Field(0).message().is_empty());
    let rejected = ScheduledJob::register(
        CountingJob::new("bad", false),
        serde_json::Value::Null,
        "not a schedule",
    );
    assert!(rejected.is_err());
}

#[test]
fn well_formed_expressions_parse_exactly() {
    let c = Cron::parse("30 12 1 6 0").expect("valid expression");
    assert_eq!(c.minute, CronField::Exact(30));
    assert_eq!(c.hour, CronField::Exact(12));
    assert_eq!(c.day, CronField::Exact(1));
    assert_eq!(c.month, CronField::Exact(6));
    assert_eq!(c.weekday, CronField::Exact(0));
    assert!(c.should_run(&Timestamp::new(30, 12, 1, 6, 0)));
    assert!(!c.should_run(&Timestamp::new(31, 12, 1, 6, 0)));
    let any = Cron::parse("* * * * *").expect("valid expression");
    assert_eq!(any.minute, CronField::Any);
    assert!(any.should_run(&Timestamp::new(0, 0, 1, 1, 0)));
    let padded = Cron::parse("05 09 07 06 0").expect("two-digit fields");
    assert_eq!(padded.minute, CronField::Exact(5));
    assert_eq!(padded.hour, CronField::Exact(9));
}

#[test]
fn three_ticks_run_a_thrice_and_b_once() {
    // A is due every tick; B only where the minute is 1, which happens
    // on the second of the three ticks.
    let clock = Clock::new(vec![
        job("a", "* * * * *", false),
        job("b", "1 * * * *", false),
    ]);
    for minute in 0u8..3 {
        clock.tick(&at_minute(minute));
    }
    assert_eq!(clock.jobs()[0].job().runs.get(), 3);
    assert_eq!(clock.jobs()[1].job().runs.get(), 1);
}

#[test]
fn zero_jobs_tick_does_no_work() {
    let clock: Clock<CountingJob> = Clock::new(Vec::new());
    let outcomes = clock.tick(&at_minute(0));
    assert!(outcomes.is_empty());
}

#[test]
fn now_utc_is_well_formed() {
    let t = Timestamp::now_utc();
    assert!(t.minute < 60);
    assert!(t.hour < 24);
    assert!((1..=31).contains(&t.day));
    assert!((1..=12).contains(&t.month));
    assert!(t.weekday < 7);
}
