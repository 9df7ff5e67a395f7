//! The runtime status of a job, and which jobs are due.
use crate::history::known;
use crate::text::{clone_opt, same};
use crate::types::{
    blank_status, OffsiteReplicationConfig, OffsiteReplicationJob, OffsiteReplicationJobStatus,
    OffsiteReplicationRun, OffsiteReplicationRuntimeStatus,
};
use vstd::prelude::*;

verus! {

/// What the state file of a job says.
pub enum JobRunState {
    /// The job has not run yet.
    Created,
    /// A worker is running the job.
    Started,
    /// The job has run, with the error message where it failed.
    Finished(Option<String>),
}

/// What the job's state and its schedule say together.
pub struct ScheduleStatus {
    /// The next scheduled run.
    pub next_run: Option<i64>,
    /// When the last run ended. A job's status tells when the last run started, and does not use it.
    pub last_run_endtime: Option<i64>,
    /// When the last run's task started, where the task's ID tells.
    pub last_run_started: Option<i64>,
    /// How the last run ended.
    pub last_run_state: Option<String>,
}

/// The last of the runs that succeeded.
pub open spec fn last_success(runs: Seq<OffsiteReplicationRun>) -> Option<i64>
    decreases runs.len(),
{
    if runs.len() == 0 {
        None
    } else if runs.last().success {
        Some(runs.last().end_time)
    } else {
        last_success(runs.drop_last())
    }
}

/// How many of the runs failed.
pub open spec fn failures(runs: Seq<OffsiteReplicationRun>) -> nat
    decreases runs.len(),
{
    if runs.len() == 0 {
        0
    } else {
        failures(runs.drop_last()) + (if runs.last().success {
            0nat
        } else {
            1nat
        })
    }
}

/// What the state file and the schedule say of a job.
pub open spec fn state_status(
    state: Option<JobRunState>,
    schedule: Option<ScheduleStatus>,
) -> OffsiteReplicationRuntimeStatus {
    match state {
        None => blank_status(),
        Some(state) => {
            let told = match state {
                JobRunState::Created => blank_status(),
                JobRunState::Started => OffsiteReplicationRuntimeStatus {
                    running: true,
                    ..blank_status()
                },
                JobRunState::Finished(error) => OffsiteReplicationRuntimeStatus {
                    last_error: error,
                    ..blank_status()
                },
            };
            match schedule {
                None => told,
                Some(schedule) => OffsiteReplicationRuntimeStatus {
                    next_run: schedule.next_run,
                    last_run: schedule.last_run_started,
                    last_error: match schedule.last_run_state {
                        Some(word) => if word@ != "OK"@ {
                            Some(word)
                        } else {
                            told.last_error
                        },
                        None => told.last_error,
                    },
                    ..told
                },
            }
        },
    }
}

/// The status with what the recorded runs say.
pub open spec fn with_history(
    status: OffsiteReplicationRuntimeStatus,
    runs: Seq<OffsiteReplicationRun>,
) -> OffsiteReplicationRuntimeStatus {
    let counted = OffsiteReplicationRuntimeStatus {
        run_count: Some(runs.len() as u64),
        failure_count: Some(failures(runs) as u64),
        last_success: last_success(runs),
        ..status
    };
    if runs.len() == 0 {
        counted
    } else {
        let last = runs.last();
        OffsiteReplicationRuntimeStatus {
            last_run: Some(last.start_time),
            last_duration: Some(last.duration),
            last_transfer_bytes: last.transferred_bytes,
            last_snapshot: last.snapshot,
            last_error: if last.success {
                status.last_error
            } else {
                known(status.last_error, last.error)
            },
            ..counted
        }
    }
}

/// The runtime status of a job, from its state file, its schedule and its recorded runs.
pub open spec fn status_of(
    state: Option<JobRunState>,
    schedule: Option<ScheduleStatus>,
    runs: Option<Seq<OffsiteReplicationRun>>,
) -> OffsiteReplicationRuntimeStatus {
    match runs {
        None => state_status(state, schedule),
        Some(runs) => with_history(state_status(state, schedule), runs),
    }
}

pub open spec fn opt_runs(o: Option<Vec<OffsiteReplicationRun>>) -> Option<
    Seq<OffsiteReplicationRun>,
> {
    match o {
        Some(v) => Some(v@),
        None => None,
    }
}

fn read_state(state: &Option<JobRunState>, schedule: &Option<ScheduleStatus>) -> (r:
    OffsiteReplicationRuntimeStatus)
    ensures
        r == state_status(*state, *schedule),
{
    let mut status = OffsiteReplicationRuntimeStatus::default();
    if let Some(state) = state {
        match state {
            JobRunState::Created => {},
            JobRunState::Started => {
                status.running = true;
            },
            JobRunState::Finished(error) => {
                status.last_error = clone_opt(error);
            },
        }
        if let Some(schedule) = schedule {
            status.next_run = schedule.next_run;
            status.last_run = schedule.last_run_started;
            if let Some(word) = &schedule.last_run_state {
                if !same(word.as_str(), "OK") {
                    status.last_error = Some(word.clone());
                }
            }
        }
    }
    status
}

fn count_failures(runs: &Vec<OffsiteReplicationRun>) -> (r: u64)
    ensures
        r == failures(runs@),
        r <= runs.len(),
{
    let mut count: u64 = 0;
    let mut i: usize = 0;
    assert(runs@.take(0) =~= seq![]);
    while i < runs.len()
        invariant
            i <= runs.len(),
            count == failures(runs@.take(i as int)),
            count <= i,
        decreases runs.len() - i,
    {
        assert(runs@.take(i + 1).drop_last() =~= runs@.take(i as int));
        if !runs[i].success {
            count += 1;
        }
        i += 1;
    }
    assert(runs@.take(runs@.len() as int) =~= runs@);
    count
}

fn find_last_success(runs: &Vec<OffsiteReplicationRun>) -> (r: Option<i64>)
    ensures
        r == last_success(runs@),
{
    let mut i: usize = runs.len();
    assert(runs@.take(runs@.len() as int) =~= runs@);
    while i > 0
        invariant
            i <= runs.len(),
            last_success(runs@.take(i as int)) == last_success(runs@),
        decreases i,
    {
        assert(runs@.take(i as int).last() == runs@[i - 1]);
        if runs[i - 1].success {
            return Some(runs[i - 1].end_time);
        }
        assert(runs@.take(i as int).drop_last() =~= runs@.take(i - 1));
        i -= 1;
    }
    None
}

/// The runtime status of a job, from its state file, its schedule and its recorded runs, as far as
/// each could be read.
pub fn runtime_status(
    state: &Option<JobRunState>,
    schedule: &Option<ScheduleStatus>,
    history: &Option<Vec<OffsiteReplicationRun>>,
) -> (r: OffsiteReplicationRuntimeStatus)
    ensures
        r == status_of(*state, *schedule, opt_runs(*history)),
{
    let mut status = read_state(state, schedule);
    if let Some(runs) = history {
        status.run_count = Some(runs.len() as u64);
        status.failure_count = Some(count_failures(runs));
        status.last_success = find_last_success(runs);
        if runs.len() > 0 {
            let last = &runs[runs.len() - 1];
            status.last_run = Some(last.start_time);
            status.last_duration = Some(last.duration);
            status.last_transfer_bytes = last.transferred_bytes;
            status.last_snapshot = clone_opt(&last.snapshot);
            if !last.success && status.last_error.is_none() {
                status.last_error = clone_opt(&last.error);
            }
        }
    }
    status
}

/// The job with its runtime status.
pub fn to_status(
    job: OffsiteReplicationJob,
    state: &Option<JobRunState>,
    schedule: &Option<ScheduleStatus>,
    history: &Option<Vec<OffsiteReplicationRun>>,
) -> (r: OffsiteReplicationJobStatus)
    ensures
        r.job == job,
        r.status == status_of(*state, *schedule, opt_runs(*history)),
{
    let status = runtime_status(state, schedule, history);
    OffsiteReplicationJobStatus { job, status }
}

/// When the schedule of a job lets it run next.
#[derive(Clone, Copy, Debug, PartialEq, Eq, Structural)]
pub enum NextRun {
    /// The schedule, the last run or the next one could not be determined.
    Unknown,
    /// Never again.
    Never,
    /// At the given time (epoch seconds).
    At(i64),
}

/// What decides whether a job is due.
#[derive(Clone, Copy, Debug, PartialEq, Eq, Structural)]
pub struct DueCheck {
    /// When the job runs next.
    pub next: NextRun,
    /// The present time (epoch seconds).
    pub now: i64,
}

/// The job is to be started: it is not disabled, and its next run is not in the future.
pub open spec fn is_due(job: OffsiteReplicationJob, check: DueCheck) -> bool {
    !job.disable && match check.next {
        NextRun::At(time) => time <= check.now,
        _ => false,
    }
}

/// The jobs that are due, in the order in which they are configured.
pub open spec fn due_jobs(jobs: Seq<OffsiteReplicationJob>, checks: Seq<DueCheck>) -> Seq<
    OffsiteReplicationJob,
>
    decreases jobs.len(),
{
    if jobs.len() == 0 {
        seq![]
    } else {
        let n = jobs.len() - 1;
        let front = due_jobs(jobs.drop_last(), checks);
        if n < checks.len() && is_due(jobs[n], checks[n]) {
            front.push(jobs[n])
        } else {
            front
        }
    }
}

/// Whether the job is to be started.
pub fn due_now(job: &OffsiteReplicationJob, check: DueCheck) -> (r: bool)
    ensures
        r == is_due(*job, check),
{
    if job.disable {
        return false;
    }
    match check.next {
        NextRun::At(time) => time <= check.now,
        _ => false,
    }
}

/// The jobs to start. A job without a check is not started.
pub fn run_due_jobs(config: &OffsiteReplicationConfig, checks: &Vec<DueCheck>) -> (r: Vec<
    OffsiteReplicationJob,
>)
    ensures
        r@ == due_jobs(config.jobs@, checks@),
{
    let ghost jobs = config.jobs@;
    let mut due: Vec<OffsiteReplicationJob> = Vec::new();
    let mut i: usize = 0;
    assert(jobs.take(0) =~= seq![]);
    assert(due@ =~= due_jobs(jobs.take(0), checks@));
    while i < config.jobs.len()
        invariant
            i <= config.jobs.len(),
            jobs == config.jobs@,
            due@ == due_jobs(jobs.take(i as int), checks@),
        decreases config.jobs.len() - i,
    {
        assert(jobs.take(i + 1).drop_last() =~= jobs.take(i as int));
        if i < checks.len() && due_now(&config.jobs[i], checks[i]) {
            due.push(config.jobs[i].clone());
        }
        i += 1;
    }
    assert(jobs.take(jobs.len() as int) =~= jobs);
    due
}

/// A disabled job is never started.
pub proof fn law_disabled_jobs_are_never_due(
    jobs: Seq<OffsiteReplicationJob>,
    checks: Seq<DueCheck>,
)
    ensures
        forall|i: int| 0 <= i < due_jobs(jobs, checks).len() ==> !(#[trigger] due_jobs(jobs, checks)[i]).disable,
        due_jobs(jobs, checks).len() <= jobs.len(),
    decreases jobs.len(),
{
    if jobs.len() > 0 {
        law_disabled_jobs_are_never_due(jobs.drop_last(), checks);
    }
}

/// A job that is due stays due while time goes on and its next run stays the same.
pub proof fn law_due_job_stays_due(job: OffsiteReplicationJob, check: DueCheck, later: i64)
    requires
        is_due(job, check),
        check.now <= later,
    ensures
        is_due(job, (DueCheck { now: later, ..check })),
{
}

/// The counts in a status fit together: no more runs failed than there were, and there is a last
/// success exactly where not every run failed.
pub proof fn law_status_counts_fit(runs: Seq<OffsiteReplicationRun>)
    ensures
        failures(runs) <= runs.len(),
        last_success(runs) is None <==> failures(runs) == runs.len(),
    decreases runs.len(),
{
    if runs.len() > 0 {
        law_status_counts_fit(runs.drop_last());
    }
}

/// A status tells of the last recorded run, whatever else is known of the job: when it started, how
/// long it took and, where it succeeded, when it was complete.
pub proof fn law_status_tells_of_last_run(
    state: Option<JobRunState>,
    schedule: Option<ScheduleStatus>,
    runs: Seq<OffsiteReplicationRun>,
)
    requires
        runs.len() > 0,
    ensures
        ({
            let status = status_of(state, schedule, Some(runs));
            &&& status.last_run == Some(runs.last().start_time)
            &&& status.last_duration == Some(runs.last().duration)
            &&& status.last_snapshot == runs.last().snapshot
            &&& runs.last().success ==> status.last_success == Some(runs.last().end_time)
        }),
{
}

/// A job is due from the time of its next run on, unless it is disabled. One whose next run is not
/// known, or that never runs again, is not due.
pub proof fn law_job_is_due_from_its_next_run_on(job: OffsiteReplicationJob, time: i64, now: i64)
    ensures
        !job.disable && time <= now ==> is_due(job, (DueCheck { next: NextRun::At(time), now })),
        !is_due(job, (DueCheck { next: NextRun::At(time), now })) <==> (job.disable || now < time),
        !is_due(job, (DueCheck { next: NextRun::Unknown, now })),
        !is_due(job, (DueCheck { next: NextRun::Never, now })),
{
}

proof fn lemma_due_of_front(
    jobs: Seq<OffsiteReplicationJob>,
    checks: Seq<DueCheck>,
    check: DueCheck,
)
    requires
        jobs.len() <= checks.len(),
    ensures
        due_jobs(jobs, checks.push(check)) == due_jobs(jobs, checks),
    decreases jobs.len(),
{
    if jobs.len() > 0 {
        lemma_due_of_front(jobs.drop_last(), checks, check);
        assert(checks.push(check)[jobs.len() - 1] == checks[jobs.len() - 1]);
    }
}

/// Every job is checked by itself. A further job that is enabled and whose time has come is started
/// after those before it, and any other further job changes nothing; so no due job is left out.
pub proof fn law_every_due_job_is_started(
    jobs: Seq<OffsiteReplicationJob>,
    checks: Seq<DueCheck>,
    job: OffsiteReplicationJob,
    check: DueCheck,
)
    requires
        jobs.len() == checks.len(),
    ensures
        due_jobs(seq![], checks).len() == 0,
        due_jobs(jobs.push(job), checks) == due_jobs(jobs, checks),
        due_jobs(jobs.push(job), checks.push(check)) == (if !job.disable && (
        check.next matches NextRun::At(time) && time <= check.now) {
            due_jobs(jobs, checks).push(job)
        } else {
            due_jobs(jobs, checks)
        }),
{
    lemma_due_of_front(jobs, checks, check);
    assert(jobs.push(job).drop_last() =~= jobs);
    assert(checks.push(check)[jobs.len() as int] == check);
}

/// Every failed run is counted, once, and no other.
pub proof fn law_failed_runs_are_counted(
    runs: Seq<OffsiteReplicationRun>,
    run: OffsiteReplicationRun,
)
    ensures
        failures(seq![]) == 0,
        run.success ==> failures(runs.push(run)) == failures(runs),
        !run.success ==> failures(runs.push(run)) == failures(runs) + 1,
{
    assert(runs.push(run).drop_last() =~= runs);
}

/// The last success is the end of the last run that succeeded, whatever failed after it.
pub proof fn law_last_success_is_that_of_the_last_good_run(
    runs: Seq<OffsiteReplicationRun>,
    k: int,
)
    requires
        0 <= k < runs.len(),
        runs[k].success,
        forall|i: int| k < i < runs.len() ==> !(#[trigger] runs[i]).success,
    ensures
        last_success(runs) == Some(runs[k].end_time),
    decreases runs.len(),
{
    if k < runs.len() - 1 {
        let front = runs.drop_last();
        assert(!runs[runs.len() - 1].success);
        assert forall|i: int| k < i < front.len() implies !(#[trigger] front[i]).success by {
            assert(front[i] == runs[i]);
        }
        law_last_success_is_that_of_the_last_good_run(front, k);
    }
}

/// Without a run that succeeded there is no last success.
pub proof fn law_no_success_without_a_good_run(runs: Seq<OffsiteReplicationRun>)
    requires
        forall|i: int| 0 <= i < runs.len() ==> !(#[trigger] runs[i]).success,
    ensures
        last_success(runs) is None,
    decreases runs.len(),
{
    if runs.len() > 0 {
        let front = runs.drop_last();
        assert(!runs[runs.len() - 1].success);
        assert forall|i: int| 0 <= i < front.len() implies !(#[trigger] front[i]).success by {
            assert(front[i] == runs[i]);
        }
        law_no_success_without_a_good_run(front);
    }
}

/// What each part of a status comes from: the state file tells whether the job is running, the
/// schedule when it runs next, and the recorded runs how many there were, how many failed, and what
/// the last one sent.
pub proof fn law_parts_of_a_status(
    state: Option<JobRunState>,
    schedule: Option<ScheduleStatus>,
    runs: Seq<OffsiteReplicationRun>,
)
    requires
        runs.len() <= u64::MAX,
    ensures
        ({
            let status = status_of(state, schedule, Some(runs));
            let unread = status_of(state, schedule, None);
            &&& status.running <==> (state matches Some(JobRunState::Started))
            &&& status.next_run == (if state is Some && schedule is Some {
                schedule->0.next_run
            } else {
                None
            })
            &&& status.run_count matches Some(n) && n == runs.len()
            &&& status.failure_count matches Some(n) && n == failures(runs)
            &&& status.last_success == last_success(runs)
            &&& runs.len() > 0 ==> status.last_transfer_bytes == runs.last().transferred_bytes
            &&& runs.len() == 0 ==> status.last_run == unread.last_run && status.last_error
                == unread.last_error && status.last_transfer_bytes is None
                && status.last_snapshot is None && status.last_duration is None
            &&& unread.run_count is None && unread.failure_count is None
                && unread.last_success is None && unread.last_snapshot is None
            &&& unread.running == status.running && unread.next_run == status.next_run
            &&& state is Some && schedule is Some ==> unread.last_run
                == schedule->0.last_run_started
            &&& state is None ==> unread == status_of(None, None, None)
        }),
{
    law_status_counts_fit(runs);
}

/// The error in a status is the one that the schedule tells, else the one in the state file, else
/// that of the last recorded run, where that failed.
pub proof fn law_error_of_a_status(
    state: Option<JobRunState>,
    schedule: Option<ScheduleStatus>,
    runs: Seq<OffsiteReplicationRun>,
)
    ensures
        ({
            let told = status_of(state, schedule, None).last_error;
            let scheduled = if state is Some && schedule is Some {
                schedule->0.last_run_state
            } else {
                None
            };
            let status = status_of(state, schedule, Some(runs));
            &&& scheduled matches Some(word) ==> (word@ != "OK"@ ==> told == Some(word))
            &&& (scheduled is None || scheduled->0@ == "OK"@) ==> told == (match state {
                Some(JobRunState::Finished(error)) => error,
                _ => None,
            })
            &&& told is Some ==> status.last_error == told
            &&& told is None && runs.len() > 0 && !runs.last().success ==> status.last_error
                == runs.last().error
            &&& told is None && (runs.len() == 0 || runs.last().success)
                ==> status.last_error is None
        }),
{
}

} // verus!
