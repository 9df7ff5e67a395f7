//! Summaries of jobs, runs and recovery points.
use crate::display::{max_of, min_of, one_if};
use crate::history::known;
use crate::order::{
    before, in_order, is_rank, law_sorted_items_are_in_order, law_sorting_keeps_the_items,
    lemma_before_irreflexive, lemma_before_transitive, lemma_not_before_transitive, less,
    sort_ranked, sorted, Ranked,
};
use crate::text::{clone_opt, opt_text, same};
use crate::types::{OffsiteRecoveryPoint, OffsiteReplicationJobStatus, OffsiteReplicationRun};
use vstd::prelude::*;

verus! {

// ---------------------------------------------------------------------------------------------
// Jobs
// ---------------------------------------------------------------------------------------------

/// A count that may be missing.
pub open spec fn or_zero(n: Option<u64>) -> u64 {
    match n {
        Some(n) => n,
        None => 0,
    }
}

/// The runs of a job that succeeded: all but those that failed.
pub open spec fn succeeded_runs(item: OffsiteReplicationJobStatus) -> int {
    max_of(or_zero(item.status.run_count) - or_zero(item.status.failure_count), 0)
}

/// A summary of jobs.
pub struct JobsOverviewView {
    pub total: nat,
    pub enabled: nat,
    pub running: nat,
    pub healthy: nat,
    pub failing: nat,
    pub failures: int,
    pub transferred: int,
    pub next_run: Option<i64>,
    pub runs: int,
    pub successes: int,
}

/// The earlier of two times.
pub open spec fn earlier(a: Option<i64>, b: Option<i64>) -> Option<i64> {
    match (a, b) {
        (Some(x), Some(y)) => if y < x {
            b
        } else {
            a
        },
        (Some(_), None) => a,
        (None, _) => b,
    }
}

/// The summary of the jobs.
pub open spec fn overview_of(jobs: Seq<OffsiteReplicationJobStatus>) -> JobsOverviewView
    decreases jobs.len(),
{
    if jobs.len() == 0 {
        JobsOverviewView {
            total: 0,
            enabled: 0,
            running: 0,
            healthy: 0,
            failing: 0,
            failures: 0,
            transferred: 0,
            next_run: None,
            runs: 0,
            successes: 0,
        }
    } else {
        let front = overview_of(jobs.drop_last());
        let item = jobs.last();
        JobsOverviewView {
            total: front.total + 1,
            enabled: front.enabled + one_if(!item.job.disable),
            running: front.running + one_if(item.status.running),
            healthy: front.healthy + one_if(item.status.last_error is None),
            failing: front.failing + one_if(
                item.status.last_error is Some || or_zero(item.status.failure_count) > 0,
            ),
            failures: front.failures + or_zero(item.status.failure_count),
            transferred: front.transferred + or_zero(item.status.last_transfer_bytes),
            next_run: earlier(front.next_run, item.status.next_run),
            runs: front.runs + or_zero(item.status.run_count),
            successes: front.successes + succeeded_runs(item),
        }
    }
}

/// The totals of a summary are small enough to be counted.
pub open spec fn totals_fit(view: JobsOverviewView) -> bool {
    view.failures <= u64::MAX && view.transferred <= u64::MAX && view.runs <= u64::MAX
}

/// A summary of jobs.
#[derive(Debug, PartialEq)]
pub struct JobsOverview {
    /// All jobs.
    pub total: usize,
    /// Jobs that are not disabled.
    pub enabled: usize,
    /// Jobs that are running.
    pub running: usize,
    /// Jobs without a last error.
    pub healthy: usize,
    /// Jobs with a last error or a recorded failure.
    pub failing: usize,
    /// Recorded failures of all jobs.
    pub failures: u64,
    /// Bytes of all jobs' last transfers.
    pub transferred: u64,
    /// The first next run.
    pub next_run: Option<i64>,
    /// Recorded runs of all jobs.
    pub runs: u64,
    /// Recorded successes of all jobs.
    pub successes: u64,
}

impl View for JobsOverview {
    type V = JobsOverviewView;

    open spec fn view(&self) -> JobsOverviewView {
        JobsOverviewView {
            total: self.total as nat,
            enabled: self.enabled as nat,
            running: self.running as nat,
            healthy: self.healthy as nat,
            failing: self.failing as nat,
            failures: self.failures as int,
            transferred: self.transferred as int,
            next_run: self.next_run,
            runs: self.runs as int,
            successes: self.successes as int,
        }
    }
}

proof fn lemma_overview_grows(jobs: Seq<OffsiteReplicationJobStatus>, n: int)
    requires
        0 <= n <= jobs.len(),
    ensures
        overview_of(jobs.take(n)).failures <= overview_of(jobs).failures,
        overview_of(jobs.take(n)).transferred <= overview_of(jobs).transferred,
        overview_of(jobs.take(n)).runs <= overview_of(jobs).runs,
    decreases jobs.len() - n,
{
    if n < jobs.len() {
        lemma_overview_grows(jobs, n + 1);
        assert(jobs.take(n + 1).drop_last() =~= jobs.take(n));
    } else {
        assert(jobs.take(n) =~= jobs);
    }
}

proof fn lemma_overview_bounds(jobs: Seq<OffsiteReplicationJobStatus>)
    ensures
        ({
            let view = overview_of(jobs);
            &&& view.total == jobs.len()
            &&& view.enabled <= view.total
            &&& view.running <= view.total
            &&& view.healthy <= view.total
            &&& view.failing <= view.total
            &&& 0 <= view.successes <= view.runs
            &&& 0 <= view.failures
            &&& 0 <= view.transferred
        }),
    decreases jobs.len(),
{
    if jobs.len() > 0 {
        lemma_overview_bounds(jobs.drop_last());
    }
}

fn count(n: Option<u64>) -> (r: u64)
    ensures
        r == or_zero(n),
{
    match n {
        Some(n) => n,
        None => 0,
    }
}

fn earlier_of(a: Option<i64>, b: Option<i64>) -> (r: Option<i64>)
    ensures
        r == earlier(a, b),
{
    match (a, b) {
        (Some(x), Some(y)) => if y < x {
            b
        } else {
            a
        },
        (Some(_), None) => a,
        (None, _) => b,
    }
}

/// How many runs of a job succeeded.
pub fn good_runs(item: &OffsiteReplicationJobStatus) -> (r: u64)
    ensures
        r == succeeded_runs(*item),
{
    let failed: u64 = count(item.status.failure_count);
    let runs: u64 = count(item.status.run_count);
    if failed < runs {
        runs - failed
    } else {
        0
    }
}

/// The summary of the jobs; nothing is given where a total is too large to be counted.
pub fn jobs_overview(jobs: &Vec<OffsiteReplicationJobStatus>) -> (r: Option<JobsOverview>)
    ensures
        match r {
            Some(overview) => totals_fit(overview_of(jobs@)) && overview@ == overview_of(jobs@),
            None => !totals_fit(overview_of(jobs@)),
        },
{
    let ghost all = jobs@;
    let mut o = JobsOverview {
        total: 0,
        enabled: 0,
        running: 0,
        healthy: 0,
        failing: 0,
        failures: 0,
        transferred: 0,
        next_run: None,
        runs: 0,
        successes: 0,
    };
    let mut i: usize = 0;
    assert(all.take(0) =~= seq![]);
    while i < jobs.len()
        invariant
            i <= jobs.len(),
            all == jobs@,
            o@ == overview_of(all.take(i as int)),
            o.total == i,
            o.enabled <= i,
            o.running <= i,
            o.healthy <= i,
            o.failing <= i,
            o.successes <= o.runs,
        decreases jobs.len() - i,
    {
        proof {
            assert(all.take(i + 1).drop_last() =~= all.take(i as int));
            assert(all.take(i + 1).last() == jobs@[i as int]);
            lemma_overview_grows(all, i + 1);
            lemma_overview_bounds(all.take(i + 1));
        }
        let item = &jobs[i];
        let failed: u64 = count(item.status.failure_count);
        let run_count: u64 = count(item.status.run_count);
        let good: u64 = good_runs(item);
        let failures: u64 = match o.failures.checked_add(failed) {
            Some(n) => n,
            None => {
                return None;
            },
        };
        let transferred: u64 = match o.transferred.checked_add(
            count(item.status.last_transfer_bytes),
        ) {
            Some(n) => n,
            None => {
                return None;
            },
        };
        let runs: u64 = match o.runs.checked_add(run_count) {
            Some(n) => n,
            None => {
                return None;
            },
        };
        o.failures = failures;
        o.transferred = transferred;
        o.runs = runs;
        o.successes = o.successes + good;
        o.total = o.total + 1;
        if !item.job.disable {
            o.enabled = o.enabled + 1;
        }
        if item.status.running {
            o.running = o.running + 1;
        }
        if item.status.last_error.is_none() {
            o.healthy = o.healthy + 1;
        }
        if item.status.last_error.is_some() || failed > 0 {
            o.failing = o.failing + 1;
        }
        o.next_run = earlier_of(o.next_run, item.status.next_run);
        i += 1;
    }
    assert(all.take(all.len() as int) =~= all);
    Some(o)
}

/// Jobs are listed by how much they fail: more failures first, then more runs, then by ID.
impl Ranked for OffsiteReplicationJobStatus {
    open spec fn ranks_before(self, other: Self) -> bool {
        let (a, b) = (or_zero(self.status.failure_count), or_zero(other.status.failure_count));
        let (m, n) = (or_zero(self.status.run_count), or_zero(other.status.run_count));
        a > b || (a == b && (m > n || (m == n && before(self.job.id@, other.job.id@))))
    }

    fn is_before(&self, other: &Self) -> (r: bool) {
        let a: u64 = count(self.status.failure_count);
        let b: u64 = count(other.status.failure_count);
        let m: u64 = count(self.status.run_count);
        let n: u64 = count(other.status.run_count);
        a > b || (a == b && (m > n || (m == n && less(
            self.job.id.as_str(),
            other.job.id.as_str(),
        ))))
    }
}

/// Jobs are ranked by an order, so that the list of their reliability is in it.
pub proof fn law_jobs_are_ranked_by_reliability()
    ensures
        is_rank::<OffsiteReplicationJobStatus>(),
{
    assert forall|a: OffsiteReplicationJobStatus, b: OffsiteReplicationJobStatus|
        #[trigger] a.ranks_before(b) implies !b.ranks_before(a) by {
        if before(a.job.id@, b.job.id@) && before(b.job.id@, a.job.id@) {
            lemma_before_transitive(a.job.id@, b.job.id@, a.job.id@);
            lemma_before_irreflexive(a.job.id@);
        }
    }
    assert forall|
        a: OffsiteReplicationJobStatus,
        b: OffsiteReplicationJobStatus,
        c: OffsiteReplicationJobStatus,
    |
        !(#[trigger] a.ranks_before(b)) && !(#[trigger] b.ranks_before(c)) implies !a.ranks_before(
        c,
    ) by {
        if !before(a.job.id@, b.job.id@) && !before(b.job.id@, c.job.id@) {
            lemma_not_before_transitive(a.job.id@, b.job.id@, c.job.id@);
        }
    }
}

/// A job as a row of a table.
#[derive(Debug, PartialEq)]
pub struct JobRow {
    /// The job.
    pub item: OffsiteReplicationJobStatus,
}

/// The rows of a table are listed by the IDs of their jobs.
impl Ranked for JobRow {
    open spec fn ranks_before(self, other: Self) -> bool {
        before(self.item.job.id@, other.item.job.id@)
    }

    fn is_before(&self, other: &Self) -> (r: bool) {
        less(self.item.job.id.as_str(), other.item.job.id.as_str())
    }
}

/// The rows of the jobs.
pub open spec fn rows_of(jobs: Seq<OffsiteReplicationJobStatus>) -> Seq<JobRow> {
    Seq::new(jobs.len(), |i: int| JobRow { item: jobs[i] })
}

/// The rows of a table of jobs, by ID.
pub fn jobs_by_id(jobs: &Vec<OffsiteReplicationJobStatus>) -> (r: Vec<JobRow>)
    ensures
        r@ == sorted(rows_of(jobs@)),
{
    let ghost all = rows_of(jobs@);
    let mut rows: Vec<JobRow> = Vec::new();
    let mut i: usize = 0;
    while i < jobs.len()
        invariant
            i <= jobs.len(),
            all == rows_of(jobs@),
            rows@ == all.take(i as int),
        decreases jobs.len() - i,
    {
        rows.push(JobRow { item: jobs[i].clone() });
        i += 1;
        assert(rows@ =~= all.take(i as int));
    }
    assert(rows@ =~= all);
    sort_ranked(rows)
}

/// The rows of a table are ranked by an order, so that the table is in it.
pub proof fn law_rows_are_ranked()
    ensures
        is_rank::<JobRow>(),
{
    assert forall|a: JobRow, b: JobRow| #[trigger] a.ranks_before(b) implies !b.ranks_before(a) by {
        let (x, y) = (a.item.job.id@, b.item.job.id@);
        if before(y, x) {
            lemma_before_transitive(x, y, x);
            lemma_before_irreflexive(x);
        }
    }
    assert forall|a: JobRow, b: JobRow, c: JobRow|
        !(#[trigger] a.ranks_before(b)) && !(#[trigger] b.ranks_before(c)) implies !a.ranks_before(
        c,
    ) by {
        lemma_not_before_transitive(a.item.job.id@, b.item.job.id@, c.item.job.id@);
    }
}

/// How reliable a job is.
#[derive(Clone, Copy, Debug, PartialEq, Eq, Structural)]
pub enum Reliability {
    /// It has no runs, and is running.
    Starting,
    /// It has no runs.
    Idle,
    /// Runs that succeeded, runs that failed, and whether the last one left an error.
    Rated(u64, u64, bool),
}

/// How reliable a job is: no more runs failed than there were.
pub open spec fn reliability_of(item: OffsiteReplicationJobStatus) -> Reliability {
    let runs = or_zero(item.status.run_count);
    let failed = min_of(or_zero(item.status.failure_count) as int, runs as int);
    if runs == 0 {
        if item.status.running {
            Reliability::Starting
        } else {
            Reliability::Idle
        }
    } else {
        Reliability::Rated(
            (runs - failed) as u64,
            failed as u64,
            item.status.last_error is Some,
        )
    }
}

/// How reliable a job is.
pub fn job_reliability(item: &OffsiteReplicationJobStatus) -> (r: Reliability)
    ensures
        r == reliability_of(*item),
{
    let runs: u64 = count(item.status.run_count);
    let recorded: u64 = count(item.status.failure_count);
    let failed: u64 = if recorded < runs {
        recorded
    } else {
        runs
    };
    if runs == 0 {
        if item.status.running {
            return Reliability::Starting;
        }
        return Reliability::Idle;
    }
    Reliability::Rated(runs - failed, failed, item.status.last_error.is_some())
}

/// The jobs by how much they fail.
pub fn jobs_by_reliability(jobs: Vec<OffsiteReplicationJobStatus>) -> (r: Vec<
    OffsiteReplicationJobStatus,
>)
    ensures
        r@ == sorted(jobs@),
{
    sort_ranked(jobs)
}

// ---------------------------------------------------------------------------------------------
// Runs
// ---------------------------------------------------------------------------------------------

/// Runs are listed with the latest start first.
impl Ranked for OffsiteReplicationRun {
    open spec fn ranks_before(self, other: Self) -> bool {
        self.start_time > other.start_time
    }

    fn is_before(&self, other: &Self) -> (r: bool) {
        self.start_time > other.start_time
    }
}

/// Recovery points are listed with the latest end first.
impl Ranked for OffsiteRecoveryPoint {
    open spec fn ranks_before(self, other: Self) -> bool {
        self.end_time > other.end_time
    }

    fn is_before(&self, other: &Self) -> (r: bool) {
        self.end_time > other.end_time
    }
}

/// Runs and recovery points are ranked by an order, so that the lists are in it: the newest first.
pub proof fn law_runs_and_points_are_ranked()
    ensures
        is_rank::<OffsiteReplicationRun>(),
        is_rank::<OffsiteRecoveryPoint>(),
{
}

/// A summary of runs.
pub struct RunsSummaryView {
    pub total: nat,
    pub successes: nat,
    pub duration: int,
    pub transferred: int,
    pub latest_snapshot: Option<Seq<char>>,
    pub latest_error: Option<Seq<char>>,
}

/// The first snapshot that is recorded.
pub open spec fn first_snapshot(runs: Seq<OffsiteReplicationRun>) -> Option<Seq<char>>
    decreases runs.len(),
{
    if runs.len() == 0 {
        None
    } else {
        match first_snapshot(runs.drop_last()) {
            Some(snapshot) => Some(snapshot),
            None => opt_text(runs.last().snapshot),
        }
    }
}

/// The place of the first run that failed.
pub open spec fn first_failed(runs: Seq<OffsiteReplicationRun>) -> Option<int>
    decreases runs.len(),
{
    if runs.len() == 0 {
        None
    } else {
        match first_failed(runs.drop_last()) {
            Some(i) => Some(i),
            None => if runs.last().success {
                None
            } else {
                Some(runs.len() - 1)
            },
        }
    }
}

pub open spec fn success_count(runs: Seq<OffsiteReplicationRun>) -> nat
    decreases runs.len(),
{
    if runs.len() == 0 {
        0
    } else {
        success_count(runs.drop_last()) + one_if(runs.last().success)
    }
}

pub open spec fn total_duration(runs: Seq<OffsiteReplicationRun>) -> int
    decreases runs.len(),
{
    if runs.len() == 0 {
        0
    } else {
        total_duration(runs.drop_last()) + runs.last().duration
    }
}

pub open spec fn total_transferred(runs: Seq<OffsiteReplicationRun>) -> int
    decreases runs.len(),
{
    if runs.len() == 0 {
        0
    } else {
        total_transferred(runs.drop_last()) + or_zero(runs.last().transferred_bytes)
    }
}

/// The error of the first run that failed.
pub open spec fn first_error(runs: Seq<OffsiteReplicationRun>) -> Option<Seq<char>> {
    match first_failed(runs) {
        Some(i) => opt_text(runs[i].error),
        None => None,
    }
}

/// The summary of the runs.
pub open spec fn runs_summary_of(runs: Seq<OffsiteReplicationRun>) -> RunsSummaryView {
    RunsSummaryView {
        total: runs.len(),
        successes: success_count(runs),
        duration: total_duration(runs),
        transferred: total_transferred(runs),
        latest_snapshot: first_snapshot(runs),
        latest_error: first_error(runs),
    }
}

/// The totals stay in range while the runs are added up.
pub open spec fn run_totals_fit(runs: Seq<OffsiteReplicationRun>) -> bool {
    forall|n: int|
        0 <= n <= runs.len() ==> i64::MIN <= #[trigger] total_duration(runs.take(n)) <= i64::MAX
            && total_transferred(runs.take(n)) <= u64::MAX
}

/// A summary of runs.
#[derive(Debug, PartialEq)]
pub struct RunsSummary {
    /// All runs.
    pub total: usize,
    /// Runs that succeeded.
    pub successes: usize,
    /// Seconds of all runs.
    pub duration: i64,
    /// Bytes of all runs.
    pub transferred: u64,
    /// The first snapshot in the list.
    pub latest_snapshot: Option<String>,
    /// The error of the first run in the list that failed.
    pub latest_error: Option<String>,
}

impl View for RunsSummary {
    type V = RunsSummaryView;

    open spec fn view(&self) -> RunsSummaryView {
        RunsSummaryView {
            total: self.total as nat,
            successes: self.successes as nat,
            duration: self.duration as int,
            transferred: self.transferred as int,
            latest_snapshot: opt_text(self.latest_snapshot),
            latest_error: opt_text(self.latest_error),
        }
    }
}

/// The summary of the runs; nothing is given where a total gets out of range.
pub fn runs_summary(runs: &Vec<OffsiteReplicationRun>) -> (r: Option<RunsSummary>)
    ensures
        match r {
            Some(summary) => run_totals_fit(runs@) && summary@ == runs_summary_of(runs@),
            None => !run_totals_fit(runs@),
        },
{
    let ghost all = runs@;
    let mut s = RunsSummary {
        total: 0,
        successes: 0,
        duration: 0,
        transferred: 0,
        latest_snapshot: None,
        latest_error: None,
    };
    let mut failed = false;
    let mut i: usize = 0;
    assert(all.take(0) =~= seq![]);
    while i < runs.len()
        invariant
            i <= runs.len(),
            all == runs@,
            s.total == i,
            s.successes <= i,
            s.successes == success_count(all.take(i as int)),
            s.duration == total_duration(all.take(i as int)),
            s.transferred == total_transferred(all.take(i as int)),
            opt_text(s.latest_snapshot) == first_snapshot(all.take(i as int)),
            failed == (first_failed(all.take(i as int)) is Some),
            first_failed(all.take(i as int)) matches Some(k) ==> 0 <= k < i,
            opt_text(s.latest_error) == first_error(all.take(i as int)),
            forall|n: int|
                0 <= n <= i ==> i64::MIN <= #[trigger] total_duration(all.take(n)) <= i64::MAX
                    && total_transferred(all.take(n)) <= u64::MAX,
        decreases runs.len() - i,
    {
        let ghost then = all.take(i as int);
        let ghost now = all.take(i + 1);
        proof {
            assert(now.drop_last() =~= then);
            assert(now.last() == runs@[i as int]);
            if let Some(k) = first_failed(then) {
                assert(now[k] == then[k]);
            }
        }
        let run = &runs[i];
        let bytes: u64 = count(run.transferred_bytes);
        match (s.duration.checked_add(run.duration), s.transferred.checked_add(bytes)) {
            (Some(duration), Some(transferred)) => {
                s.duration = duration;
                s.transferred = transferred;
            },
            _ => {
                assert(!(i64::MIN <= total_duration(all.take(i + 1)) <= i64::MAX
                    && total_transferred(all.take(i + 1)) <= u64::MAX));
                return None;
            },
        }
        s.total = s.total + 1;
        if run.success {
            s.successes = s.successes + 1;
        } else if !failed {
            failed = true;
            s.latest_error = clone_opt(&run.error);
        }
        if s.latest_snapshot.is_none() {
            s.latest_snapshot = clone_opt(&run.snapshot);
        }
        i += 1;
    }
    assert(all.take(all.len() as int) =~= all);
    Some(s)
}

/// The newest runs of a list that has them first, the oldest of them first, as a graph shows them.
pub open spec fn graph_runs(runs: Seq<OffsiteReplicationRun>, limit: int) -> Seq<
    OffsiteReplicationRun,
> {
    runs.take(min_of(runs.len() as int, limit)).reverse()
}

/// The runs of a graph.
pub fn latest_runs_for_graph(runs: &Vec<OffsiteReplicationRun>, limit: usize) -> (r: Vec<
    OffsiteReplicationRun,
>)
    ensures
        r@ == graph_runs(runs@, limit as int),
{
    let n: usize = if runs.len() < limit {
        runs.len()
    } else {
        limit
    };
    let ghost head = runs@.take(n as int);
    let mut out: Vec<OffsiteReplicationRun> = Vec::new();
    let mut i: usize = n;
    while i > 0
        invariant
            i <= n <= runs.len(),
            head == runs@.take(n as int),
            out@.len() == n - i,
            forall|k: int| 0 <= k < n - i ==> #[trigger] out@[k] == head[n - 1 - k],
        decreases i,
    {
        i -= 1;
        out.push(runs[i].clone());
    }
    assert(out@ =~= head.reverse());
    out
}

/// A point of the graphs.
#[derive(Clone, Copy, Debug, PartialEq, Eq, Structural)]
pub struct GraphPoint {
    /// When the run ended.
    pub time: i64,
    /// Its duration, which is not negative.
    pub duration: i64,
    /// The bytes sent, or estimated.
    pub bytes: Option<u64>,
    /// Whether it succeeded.
    pub success: bool,
}

/// The point of a run.
pub open spec fn graph_point(run: OffsiteReplicationRun) -> GraphPoint {
    GraphPoint {
        time: run.end_time,
        duration: max_of(run.duration as int, 0) as i64,
        bytes: known(run.transferred_bytes, run.estimated_bytes),
        success: run.success,
    }
}

/// The points of the graphs of the newest runs.
pub fn history_graph_series(runs: &Vec<OffsiteReplicationRun>, limit: usize) -> (r: Vec<GraphPoint>)
    ensures
        r@ == graph_runs(runs@, limit as int).map_values(
            |run: OffsiteReplicationRun| graph_point(run),
        ),
{
    let points = latest_runs_for_graph(runs, limit);
    let ghost all = graph_runs(runs@, limit as int);
    let mut out: Vec<GraphPoint> = Vec::new();
    let mut i: usize = 0;
    while i < points.len()
        invariant
            i <= points.len(),
            points@ == all,
            out@.len() == i,
            forall|k: int| 0 <= k < i ==> #[trigger] out@[k] == graph_point(all[k]),
        decreases points.len() - i,
    {
        let run = &points[i];
        out.push(
            GraphPoint {
                time: run.end_time,
                duration: if run.duration < 0 {
                    0
                } else {
                    run.duration
                },
                bytes: if run.transferred_bytes.is_some() {
                    run.transferred_bytes
                } else {
                    run.estimated_bytes
                },
                success: run.success,
            },
        );
        i += 1;
    }
    assert(out@ =~= all.map_values(|run: OffsiteReplicationRun| graph_point(run)));
    out
}

// ---------------------------------------------------------------------------------------------
// Runs by transfer mode
// ---------------------------------------------------------------------------------------------

/// The runs of one transfer mode.
#[derive(Debug, PartialEq)]
pub struct RunModeSummaryRow {
    /// The mode.
    pub mode: String,
    /// Runs that succeeded.
    pub ok_count: u64,
    /// Runs that failed.
    pub error_count: u64,
}

/// Modes are listed by how much their runs fail: more failures first, then more successes, then by
/// name.
impl Ranked for RunModeSummaryRow {
    open spec fn ranks_before(self, other: Self) -> bool {
        self.error_count > other.error_count || (self.error_count == other.error_count && (
        self.ok_count > other.ok_count || (self.ok_count == other.ok_count && before(
            self.mode@,
            other.mode@,
        ))))
    }

    fn is_before(&self, other: &Self) -> (r: bool) {
        self.error_count > other.error_count || (self.error_count == other.error_count && (
        self.ok_count > other.ok_count || (self.ok_count == other.ok_count && less(
            self.mode.as_str(),
            other.mode.as_str(),
        ))))
    }
}

/// The mode of a run; `unknown` is the word for a mode that is not recorded.
pub open spec fn mode_of(run: OffsiteReplicationRun, unknown: Seq<char>) -> Seq<char> {
    match run.transfer_mode {
        Some(mode) => mode@,
        None => unknown,
    }
}

/// How many of the first `n` runs have the mode, and succeeded or failed as given.
pub open spec fn mode_count(
    runs: Seq<OffsiteReplicationRun>,
    unknown: Seq<char>,
    mode: Seq<char>,
    success: bool,
    n: int,
) -> nat
    decreases n,
{
    if n <= 0 {
        0
    } else {
        mode_count(runs, unknown, mode, success, n - 1) + one_if(
            mode_of(runs[n - 1], unknown) == mode && runs[n - 1].success == success,
        )
    }
}

/// One row for each mode among the first `n` runs, with the runs of that mode counted.
pub open spec fn is_mode_rows(
    runs: Seq<OffsiteReplicationRun>,
    unknown: Seq<char>,
    rows: Seq<RunModeSummaryRow>,
    n: int,
) -> bool {
    &&& forall|i: int, j: int|
        0 <= i < j < rows.len() ==> (#[trigger] rows[i]).mode@ != (#[trigger] rows[j]).mode@
    &&& forall|i: int|
        0 <= i < rows.len() ==> (#[trigger] rows[i]).ok_count == mode_count(
            runs,
            unknown,
            rows[i].mode@,
            true,
            n,
        ) && rows[i].error_count == mode_count(runs, unknown, rows[i].mode@, false, n)
            && rows[i].ok_count + rows[i].error_count > 0
    &&& forall|k: int|
        0 <= k < n ==> exists|i: int|
            0 <= i < rows.len() && (#[trigger] rows[i]).mode@ == mode_of(#[trigger] runs[k], unknown)
}

proof fn lemma_mode_counts(
    runs: Seq<OffsiteReplicationRun>,
    unknown: Seq<char>,
    mode: Seq<char>,
    n: int,
)
    requires
        0 <= n,
    ensures
        mode_count(runs, unknown, mode, true, n) + mode_count(runs, unknown, mode, false, n) <= n,
        (forall|k: int| 0 <= k < n ==> mode_of(#[trigger] runs[k], unknown) != mode) ==> mode_count(
            runs,
            unknown,
            mode,
            true,
            n,
        ) == 0 && mode_count(runs, unknown, mode, false, n) == 0,
    decreases n,
{
    if n > 0 {
        lemma_mode_counts(runs, unknown, mode, n - 1);
    }
}

fn row_of(rows: &Vec<RunModeSummaryRow>, mode: &str) -> (r: Option<usize>)
    ensures
        match r {
            Some(i) => i < rows.len() && rows@[i as int].mode@ == mode@,
            None => forall|i: int| 0 <= i < rows.len() ==> (#[trigger] rows@[i]).mode@ != mode@,
        },
{
    let mut i: usize = 0;
    while i < rows.len()
        invariant
            i <= rows.len(),
            forall|k: int| 0 <= k < i ==> (#[trigger] rows@[k]).mode@ != mode@,
        decreases rows.len() - i,
    {
        if same(rows[i].mode.as_str(), mode) {
            return Some(i);
        }
        i += 1;
    }
    None
}

fn group_by_mode(runs: &Vec<OffsiteReplicationRun>, unknown: &str) -> (rows: Vec<RunModeSummaryRow>)
    ensures
        is_mode_rows(runs@, unknown@, rows@, runs@.len() as int),
{
    let ghost all = runs@;
    let mut rows: Vec<RunModeSummaryRow> = Vec::new();
    let mut n: usize = 0;
    while n < runs.len()
        invariant
            n <= runs.len(),
            all == runs@,
            is_mode_rows(all, unknown@, rows@, n as int),
        decreases runs.len() - n,
    {
        let ghost before = rows@;
        let mode = match &runs[n].transfer_mode {
            Some(mode) => mode.clone(),
            None => unknown.to_owned(),
        };
        let ghost name = mode@;
        assert(name == mode_of(all[n as int], unknown@));
        let success = runs[n].success;
        match row_of(&rows, mode.as_str()) {
            Some(i) => {
                proof {
                    lemma_mode_counts(all, unknown@, name, n as int);
                }
                let row = &rows[i];
                let changed = RunModeSummaryRow {
                    mode,
                    ok_count: if success {
                        row.ok_count + 1
                    } else {
                        row.ok_count
                    },
                    error_count: if success {
                        row.error_count
                    } else {
                        row.error_count + 1
                    },
                };
                rows[i] = changed;
                proof {
                    let after = rows@;
                    assert forall|k: int| 0 <= k < after.len() implies (#[trigger] after[k]).mode@
                        == before[k].mode@ by {}
                    assert forall|k: int| 0 <= k < n + 1 implies exists|j: int|
                        0 <= j < after.len() && (#[trigger] after[j]).mode@ == mode_of(
                            #[trigger] all[k],
                            unknown@,
                        ) by {
                        if k < n {
                            let j = choose|j: int|
                                0 <= j < before.len() && (#[trigger] before[j]).mode@ == mode_of(
                                    all[k],
                                    unknown@,
                                );
                            assert(after[j].mode@ == before[j].mode@);
                        } else {
                            assert(after[i as int].mode@ == name);
                        }
                    }
                    assert forall|k: int| 0 <= k < after.len() implies (
                    #[trigger] after[k]).ok_count == mode_count(
                        all,
                        unknown@,
                        after[k].mode@,
                        true,
                        n + 1,
                    ) && after[k].error_count == mode_count(
                        all,
                        unknown@,
                        after[k].mode@,
                        false,
                        n + 1,
                    ) && after[k].ok_count + after[k].error_count > 0 by {
                        assert(before[k].ok_count + before[k].error_count > 0);
                        if k != i {
                            assert(after[k] == before[k]);
                            assert(before[k].mode@ != before[i as int].mode@);
                        }
                    }
                }
            },
            None => {
                proof {
                    assert forall|k: int| 0 <= k < n implies mode_of(#[trigger] all[k], unknown@)
                        != name by {
                        let j = choose|j: int|
                            0 <= j < before.len() && (#[trigger] before[j]).mode@ == mode_of(
                                all[k],
                                unknown@,
                            );
                        assert(before[j].mode@ != name);
                    }
                    lemma_mode_counts(all, unknown@, name, n as int);
                }
                rows.push(
                    RunModeSummaryRow {
                        mode,
                        ok_count: if success {
                            1
                        } else {
                            0
                        },
                        error_count: if success {
                            0
                        } else {
                            1
                        },
                    },
                );
                proof {
                    let after = rows@;
                    assert forall|k: int| 0 <= k < n + 1 implies exists|j: int|
                        0 <= j < after.len() && (#[trigger] after[j]).mode@ == mode_of(
                            #[trigger] all[k],
                            unknown@,
                        ) by {
                        if k < n {
                            let j = choose|j: int|
                                0 <= j < before.len() && (#[trigger] before[j]).mode@ == mode_of(
                                    all[k],
                                    unknown@,
                                );
                            assert(after[j] == before[j]);
                        } else {
                            assert(after[before.len() as int].mode@ == name);
                        }
                    }
                    assert forall|k: int| 0 <= k < after.len() implies (
                    #[trigger] after[k]).ok_count == mode_count(
                        all,
                        unknown@,
                        after[k].mode@,
                        true,
                        n + 1,
                    ) && after[k].error_count == mode_count(
                        all,
                        unknown@,
                        after[k].mode@,
                        false,
                        n + 1,
                    ) && after[k].ok_count + after[k].error_count > 0 by {
                        if k < before.len() {
                            assert(after[k] == before[k]);
                            assert(before[k].mode@ != name);
                        }
                    }
                }
            },
        }
        n += 1;
    }
    rows
}

proof fn lemma_sorted_mode_rows(
    runs: Seq<OffsiteReplicationRun>,
    unknown: Seq<char>,
    rows: Seq<RunModeSummaryRow>,
)
    requires
        is_mode_rows(runs, unknown, rows, runs.len() as int),
    ensures
        is_mode_rows(runs, unknown, sorted(rows), runs.len() as int),
{
    broadcast use vstd::seq_lib::group_to_multiset_ensures;

    let list = sorted(rows);
    law_sorting_keeps_the_items(rows);
    assert(rows.no_duplicates()) by {
        assert forall|i: int, j: int| 0 <= i < j < rows.len() implies rows[i] != rows[j] by {
            assert(rows[i].mode@ != rows[j].mode@);
        }
    }
    rows.lemma_multiset_has_no_duplicates();
    assert forall|m: RunModeSummaryRow| #[trigger] list.to_multiset().contains(m) implies list.to_multiset().count(m) == 1 by {
        assert(rows.to_multiset().contains(m));
    }
    list.lemma_multiset_has_no_duplicates_conv();
    assert forall|i: int| 0 <= i < list.len() implies rows.contains(#[trigger] list[i]) by {
        assert(list.to_multiset().count(list[i]) > 0);
    }
    assert forall|i: int, j: int| 0 <= i < j < list.len() implies (#[trigger] list[i]).mode@ != (
    #[trigger] list[j]).mode@ by {
        assert(rows.contains(list[i]) && rows.contains(list[j]));
        let k = choose|k: int| 0 <= k < rows.len() && rows[k] == list[i];
        let l = choose|l: int| 0 <= l < rows.len() && rows[l] == list[j];
        assert(list[i] != list[j]);
        if k < l {
            assert(rows[k].mode@ != rows[l].mode@);
        } else {
            assert(rows[l].mode@ != rows[k].mode@);
        }
    }
    assert forall|i: int| 0 <= i < list.len() implies (#[trigger] list[i]).ok_count == mode_count(
        runs,
        unknown,
        list[i].mode@,
        true,
        runs.len() as int,
    ) && list[i].error_count == mode_count(
        runs,
        unknown,
        list[i].mode@,
        false,
        runs.len() as int,
    ) && list[i].ok_count + list[i].error_count > 0 by {
        assert(rows.contains(list[i]));
        let k = choose|k: int| 0 <= k < rows.len() && rows[k] == list[i];
        assert(rows[k].ok_count + rows[k].error_count > 0);
    }
    assert forall|k: int| 0 <= k < runs.len() implies exists|i: int|
        0 <= i < list.len() && (#[trigger] list[i]).mode@ == mode_of(
            #[trigger] runs[k],
            unknown,
        ) by {
        let j = choose|j: int|
            0 <= j < rows.len() && (#[trigger] rows[j]).mode@ == mode_of(runs[k], unknown);
        assert(rows.to_multiset().count(rows[j]) > 0);
        assert(list.contains(rows[j]));
        let i = choose|i: int| 0 <= i < list.len() && list[i] == rows[j];
        assert(list[i].mode@ == mode_of(runs[k], unknown));
    }
}

/// Modes are ranked by an order.
pub proof fn law_modes_are_ranked()
    ensures
        is_rank::<RunModeSummaryRow>(),
{
    assert forall|a: RunModeSummaryRow, b: RunModeSummaryRow| #[trigger]
        a.ranks_before(b) implies !b.ranks_before(a) by {
        if before(a.mode@, b.mode@) && before(b.mode@, a.mode@) {
            lemma_before_transitive(a.mode@, b.mode@, a.mode@);
            lemma_before_irreflexive(a.mode@);
        }
    }
    assert forall|a: RunModeSummaryRow, b: RunModeSummaryRow, c: RunModeSummaryRow|
        !(#[trigger] a.ranks_before(b)) && !(#[trigger] b.ranks_before(c)) implies !a.ranks_before(
        c,
    ) by {
        if !before(a.mode@, b.mode@) && !before(b.mode@, c.mode@) {
            lemma_not_before_transitive(a.mode@, b.mode@, c.mode@);
        }
    }
}

/// The runs counted by transfer mode, the mode with the most failures first.
pub fn run_mode_summary(runs: &Vec<OffsiteReplicationRun>, unknown: &str) -> (r: Vec<
    RunModeSummaryRow,
>)
    ensures
        is_mode_rows(runs@, unknown@, r@, runs@.len() as int),
        in_order(r@),
{
    let rows = group_by_mode(runs, unknown);
    proof {
        lemma_sorted_mode_rows(runs@, unknown@, rows@);
        law_modes_are_ranked();
        law_sorted_items_are_in_order(rows@);
    }
    sort_ranked(rows)
}

// ---------------------------------------------------------------------------------------------
// Recovery points
// ---------------------------------------------------------------------------------------------

/// Recovery points by transfer mode.
#[derive(Clone, Copy, Debug, PartialEq, Eq, Structural)]
pub struct RecoveryCounts {
    /// Full transfers.
    pub full: usize,
    /// Incremental transfers.
    pub incremental: usize,
    /// All others.
    pub unknown: usize,
    /// All points.
    pub all: usize,
}

pub open spec fn mode_is(point: OffsiteRecoveryPoint, mode: Seq<char>) -> bool {
    opt_text(point.transfer_mode) == Some(mode)
}

/// How many of the points have the mode.
pub open spec fn points_with_mode(points: Seq<OffsiteRecoveryPoint>, mode: Seq<char>) -> nat
    decreases points.len(),
{
    if points.len() == 0 {
        0
    } else {
        points_with_mode(points.drop_last(), mode) + one_if(mode_is(points.last(), mode))
    }
}

/// The points by transfer mode.
pub fn recovery_counts(points: &Vec<OffsiteRecoveryPoint>) -> (r: RecoveryCounts)
    ensures
        r.full == points_with_mode(points@, "full"@),
        r.incremental == points_with_mode(points@, "incremental"@),
        r.full + r.incremental + r.unknown == r.all,
        r.all == points@.len(),
{
    proof {
        reveal_strlit("full");
        reveal_strlit("incremental");
    }
    let ghost all = points@;
    let mut counts = RecoveryCounts { full: 0, incremental: 0, unknown: 0, all: points.len() };
    let mut i: usize = 0;
    assert(all.take(0) =~= seq![]);
    assert("full"@ != "incremental"@) by {
        assert("full"@.len() != "incremental"@.len());
    }
    while i < points.len()
        invariant
            i <= points.len(),
            all == points@,
            "full"@ != "incremental"@,
            counts.all == points.len(),
            counts.full == points_with_mode(all.take(i as int), "full"@),
            counts.incremental == points_with_mode(all.take(i as int), "incremental"@),
            counts.full + counts.incremental + counts.unknown == i,
        decreases points.len() - i,
    {
        assert(all.take(i + 1).drop_last() =~= all.take(i as int));
        let (full, incremental) = match &points[i].transfer_mode {
            Some(mode) => (same(mode.as_str(), "full"), same(mode.as_str(), "incremental")),
            None => (false, false),
        };
        if full {
            counts.full = counts.full + 1;
        } else if incremental {
            counts.incremental = counts.incremental + 1;
        } else {
            counts.unknown = counts.unknown + 1;
        }
        i += 1;
    }
    assert(all.take(all.len() as int) =~= all);
    counts
}

// ---------------------------------------------------------------------------------------------
// Laws
// ---------------------------------------------------------------------------------------------

/// The counts of a summary of jobs fit together.
pub proof fn law_overview_counts_fit(jobs: Seq<OffsiteReplicationJobStatus>)
    ensures
        overview_of(jobs).total == jobs.len(),
        overview_of(jobs).enabled <= jobs.len(),
        overview_of(jobs).running <= jobs.len(),
        overview_of(jobs).healthy <= jobs.len(),
        overview_of(jobs).healthy + overview_of(jobs).failing >= jobs.len(),
        overview_of(jobs).successes <= overview_of(jobs).runs,
    decreases jobs.len(),
{
    if jobs.len() > 0 {
        law_overview_counts_fit(jobs.drop_last());
    }
}

/// The rating of a job adds up to its runs.
pub proof fn law_reliability_adds_up(item: OffsiteReplicationJobStatus)
    ensures
        reliability_of(item) matches Reliability::Rated(good, failed, _) ==> good + failed
            == or_zero(item.status.run_count),
{
}

/// A graph shows no more runs than asked for, and every one of them is one of the newest.
pub proof fn law_graph_shows_the_newest_runs(runs: Seq<OffsiteReplicationRun>, limit: int)
    requires
        limit >= 0,
    ensures
        graph_runs(runs, limit).len() <= limit,
        graph_runs(runs, limit).len() <= runs.len(),
        forall|i: int|
            0 <= i < graph_runs(runs, limit).len() ==> #[trigger] graph_runs(runs, limit)[i]
                == runs[graph_runs(runs, limit).len() - 1 - i],
{
}

/// A further job is counted once in each part of the overview that it belongs to: with its failures,
/// its last transfer, its runs and those of them that succeeded.
pub proof fn law_overview_counts_every_job(
    jobs: Seq<OffsiteReplicationJobStatus>,
    item: OffsiteReplicationJobStatus,
)
    ensures
        ({
            let before = overview_of(jobs);
            let after = overview_of(jobs.push(item));
            let failures = match item.status.failure_count {
                Some(n) => n as int,
                None => 0,
            };
            let runs = match item.status.run_count {
                Some(n) => n as int,
                None => 0,
            };
            let bytes = match item.status.last_transfer_bytes {
                Some(n) => n as int,
                None => 0,
            };
            &&& after.total == before.total + 1
            &&& item.job.disable ==> after.enabled == before.enabled
            &&& !item.job.disable ==> after.enabled == before.enabled + 1
            &&& item.status.running ==> after.running == before.running + 1
            &&& !item.status.running ==> after.running == before.running
            &&& item.status.last_error is None ==> after.healthy == before.healthy + 1
            &&& item.status.last_error is Some ==> after.healthy == before.healthy
            &&& item.status.last_error is Some || failures > 0 ==> after.failing == before.failing + 1
            &&& item.status.last_error is None && failures == 0 ==> after.failing == before.failing
            &&& after.failures == before.failures + failures
            &&& after.transferred == before.transferred + bytes
            &&& after.runs == before.runs + runs
            &&& failures <= runs ==> after.successes == before.successes + (runs - failures)
            &&& failures > runs ==> after.successes == before.successes
        }),
        overview_of(seq![]).total == 0 && overview_of(seq![]).enabled == 0 && overview_of(
            seq![],
        ).running == 0 && overview_of(seq![]).healthy == 0 && overview_of(seq![]).failing == 0,
        overview_of(seq![]).failures == 0 && overview_of(seq![]).transferred == 0 && overview_of(
            seq![],
        ).runs == 0 && overview_of(seq![]).successes == 0,
{
    assert(jobs.push(item).drop_last() =~= jobs);
}

/// The overview's next run is the first of the jobs' next runs: one of them, and none is earlier.
pub proof fn law_overview_tells_the_first_next_run(jobs: Seq<OffsiteReplicationJobStatus>)
    ensures
        forall|i: int|
            0 <= i < jobs.len() && (#[trigger] jobs[i]).status.next_run is Some ==> overview_of(
                jobs,
            ).next_run is Some && overview_of(jobs).next_run->0 <= jobs[i].status.next_run->0,
        overview_of(jobs).next_run is Some ==> exists|i: int|
            0 <= i < jobs.len() && (#[trigger] jobs[i]).status.next_run == overview_of(
                jobs,
            ).next_run,
    decreases jobs.len(),
{
    if jobs.len() > 0 {
        let front = jobs.drop_last();
        law_overview_tells_the_first_next_run(front);
        let before = overview_of(front).next_run;
        let after = overview_of(jobs).next_run;
        assert forall|i: int|
            0 <= i < jobs.len() && (#[trigger] jobs[i]).status.next_run is Some implies after is Some
            && after->0 <= jobs[i].status.next_run->0 by {
            if i < front.len() {
                assert(front[i] == jobs[i]);
            }
        }
        if after is Some {
            if after == before && before is Some {
                let i = choose|i: int|
                    0 <= i < front.len() && (#[trigger] front[i]).status.next_run == before;
                assert(jobs[i].status.next_run == after);
            } else {
                assert(jobs[jobs.len() - 1].status.next_run == after);
            }
        }
    }
}

/// The jobs with the most failures come first, then those with the most runs, then by ID; a count
/// that is not known is zero.
pub proof fn law_least_reliable_jobs_come_first(
    a: OffsiteReplicationJobStatus,
    b: OffsiteReplicationJobStatus,
)
    ensures
        ({
            let failures_a = match a.status.failure_count {
                Some(n) => n as int,
                None => 0,
            };
            let failures_b = match b.status.failure_count {
                Some(n) => n as int,
                None => 0,
            };
            let runs_a = match a.status.run_count {
                Some(n) => n as int,
                None => 0,
            };
            let runs_b = match b.status.run_count {
                Some(n) => n as int,
                None => 0,
            };
            &&& failures_a > failures_b ==> a.ranks_before(b) && !b.ranks_before(a)
            &&& failures_a == failures_b && runs_a > runs_b ==> a.ranks_before(b)
                && !b.ranks_before(a)
            &&& failures_a == failures_b && runs_a == runs_b ==> (a.ranks_before(b) <==> before(
                a.job.id@,
                b.job.id@,
            ))
        }),
{
}

/// Rows stand by the ID of their job, runs and recovery points by their time, the newest first, and
/// modes by their failures and then by their successes, the most first.
pub proof fn law_lists_are_ranked_by(
    x: JobRow,
    y: JobRow,
    a: OffsiteReplicationRun,
    b: OffsiteReplicationRun,
    p: OffsiteRecoveryPoint,
    q: OffsiteRecoveryPoint,
    m: RunModeSummaryRow,
    n: RunModeSummaryRow,
)
    ensures
        x.ranks_before(y) <==> before(x.item.job.id@, y.item.job.id@),
        a.ranks_before(b) <==> a.start_time > b.start_time,
        p.ranks_before(q) <==> p.end_time > q.end_time,
        m.error_count > n.error_count ==> m.ranks_before(n) && !n.ranks_before(m),
        m.error_count == n.error_count && m.ok_count > n.ok_count ==> m.ranks_before(n)
            && !n.ranks_before(m),
        m.error_count == n.error_count && m.ok_count == n.ok_count ==> (m.ranks_before(n)
            <==> before(m.mode@, n.mode@)),
{
}

/// A job is rated by its runs: those that failed, which are never more than there were, and the rest.
/// Without a run there is nothing to rate.
pub proof fn law_jobs_are_rated_by_their_runs(item: OffsiteReplicationJobStatus)
    ensures
        ({
            let none = item.status.run_count is None || item.status.run_count->0 == 0;
            let failures = match item.status.failure_count {
                Some(n) => n as int,
                None => 0,
            };
            &&& none && item.status.running ==> reliability_of(item) is Starting
            &&& none && !item.status.running ==> reliability_of(item) is Idle
            &&& !none ==> (reliability_of(item) matches Reliability::Rated(good, failed, left)
                && left == (item.status.last_error is Some) && (failures <= item.status.run_count->0
                ==> failed == failures && good == item.status.run_count->0 - failures) && (failures
                > item.status.run_count->0 ==> failed == item.status.run_count->0 && good == 0))
        }),
{
}

/// Every run counts in the totals: its success, its duration and the bytes that it sent, where they
/// are known.
pub proof fn law_totals_count_every_run(
    runs: Seq<OffsiteReplicationRun>,
    run: OffsiteReplicationRun,
)
    ensures
        ({
            let before = runs_summary_of(runs);
            let after = runs_summary_of(runs.push(run));
            &&& after.total == before.total + 1
            &&& run.success ==> after.successes == before.successes + 1
            &&& !run.success ==> after.successes == before.successes
            &&& after.duration == before.duration + run.duration
            &&& run.transferred_bytes matches Some(n) ==> after.transferred == before.transferred + n
            &&& run.transferred_bytes is None ==> after.transferred == before.transferred
        }),
        runs_summary_of(seq![]).total == 0 && runs_summary_of(seq![]).successes == 0,
        runs_summary_of(seq![]).duration == 0 && runs_summary_of(seq![]).transferred == 0,
{
    assert(runs.push(run).drop_last() =~= runs);
}

proof fn lemma_first_snapshot(runs: Seq<OffsiteReplicationRun>, k: int)
    requires
        0 <= k < runs.len(),
        runs[k].snapshot is Some,
        forall|i: int| 0 <= i < k ==> (#[trigger] runs[i]).snapshot is None,
    ensures
        first_snapshot(runs) == Some(runs[k].snapshot->0@),
    decreases runs.len(),
{
    let front = runs.drop_last();
    if k < runs.len() - 1 {
        assert forall|i: int| 0 <= i < k implies (#[trigger] front[i]).snapshot is None by {
            assert(front[i] == runs[i]);
        }
        lemma_first_snapshot(front, k);
    } else {
        assert forall|i: int| 0 <= i < front.len() implies (#[trigger] front[i]).snapshot is None by {
            assert(front[i] == runs[i]);
        }
        lemma_no_snapshot(front);
    }
}

proof fn lemma_no_snapshot(runs: Seq<OffsiteReplicationRun>)
    requires
        forall|i: int| 0 <= i < runs.len() ==> (#[trigger] runs[i]).snapshot is None,
    ensures
        first_snapshot(runs) is None,
    decreases runs.len(),
{
    if runs.len() > 0 {
        let front = runs.drop_last();
        assert forall|i: int| 0 <= i < front.len() implies (#[trigger] front[i]).snapshot is None by {
            assert(front[i] == runs[i]);
        }
        assert(runs[runs.len() - 1].snapshot is None);
        lemma_no_snapshot(front);
    }
}

proof fn lemma_first_failed(runs: Seq<OffsiteReplicationRun>, k: int)
    requires
        0 <= k < runs.len(),
        !runs[k].success,
        forall|i: int| 0 <= i < k ==> (#[trigger] runs[i]).success,
    ensures
        first_failed(runs) == Some(k),
    decreases runs.len(),
{
    let front = runs.drop_last();
    if k < runs.len() - 1 {
        assert forall|i: int| 0 <= i < k implies (#[trigger] front[i]).success by {
            assert(front[i] == runs[i]);
        }
        lemma_first_failed(front, k);
    } else {
        assert forall|i: int| 0 <= i < front.len() implies (#[trigger] front[i]).success by {
            assert(front[i] == runs[i]);
        }
        lemma_none_failed(front);
    }
}

proof fn lemma_none_failed(runs: Seq<OffsiteReplicationRun>)
    requires
        forall|i: int| 0 <= i < runs.len() ==> (#[trigger] runs[i]).success,
    ensures
        first_failed(runs) is None,
    decreases runs.len(),
{
    if runs.len() > 0 {
        let front = runs.drop_last();
        assert forall|i: int| 0 <= i < front.len() implies (#[trigger] front[i]).success by {
            assert(front[i] == runs[i]);
        }
        assert(runs[runs.len() - 1].success);
        lemma_none_failed(front);
    }
}

/// The latest snapshot is the first in the list that is recorded at all, and the latest error that of
/// the first run in the list that failed.
pub proof fn law_latest_come_first(runs: Seq<OffsiteReplicationRun>, k: int)
    requires
        0 <= k < runs.len(),
    ensures
        runs[k].snapshot is Some && (forall|i: int|
            0 <= i < k ==> (#[trigger] runs[i]).snapshot is None) ==> runs_summary_of(
            runs,
        ).latest_snapshot == Some(runs[k].snapshot->0@),
        !runs[k].success && (forall|i: int| 0 <= i < k ==> (#[trigger] runs[i]).success)
            ==> runs_summary_of(runs).latest_error == opt_text(runs[k].error),
        (forall|i: int| 0 <= i < runs.len() ==> (#[trigger] runs[i]).success) ==> runs_summary_of(
            runs,
        ).latest_error is None,
{
    if runs[k].snapshot is Some && (forall|i: int|
        0 <= i < k ==> (#[trigger] runs[i]).snapshot is None) {
        lemma_first_snapshot(runs, k);
    }
    if !runs[k].success && (forall|i: int| 0 <= i < k ==> (#[trigger] runs[i]).success) {
        lemma_first_failed(runs, k);
    }
    if forall|i: int| 0 <= i < runs.len() ==> (#[trigger] runs[i]).success {
        lemma_none_failed(runs);
    }
}

/// A graph shows as many runs as it may.
pub proof fn law_graph_leaves_no_run_out(runs: Seq<OffsiteReplicationRun>, limit: int)
    requires
        limit >= 0,
    ensures
        runs.len() <= limit ==> graph_runs(runs, limit) == runs.reverse(),
        runs.len() > limit ==> graph_runs(runs, limit).len() == limit,
{
    if runs.len() <= limit {
        assert(runs.take(runs.len() as int) =~= runs);
    }
}

/// A point of a graph shows when its run ended, how long it took, what it sent or else was estimated
/// to send, and whether it succeeded.
pub proof fn law_points_show_their_run(run: OffsiteReplicationRun)
    ensures
        graph_point(run).time == run.end_time,
        graph_point(run).success == run.success,
        run.duration >= 0 ==> graph_point(run).duration == run.duration,
        run.duration < 0 ==> graph_point(run).duration == 0,
        run.transferred_bytes is Some ==> graph_point(run).bytes == run.transferred_bytes,
        run.transferred_bytes is None ==> graph_point(run).bytes == run.estimated_bytes,
{
}

/// Every run counts for its own mode, as a success or as a failure; a run without a recorded mode
/// counts for the unknown one.
pub proof fn law_runs_count_for_their_mode(
    runs: Seq<OffsiteReplicationRun>,
    unknown: Seq<char>,
    mode: Seq<char>,
    success: bool,
    n: int,
)
    requires
        0 <= n < runs.len(),
    ensures
        ({
            let own = match runs[n].transfer_mode {
                Some(word) => word@,
                None => unknown,
            };
            let before = mode_count(runs, unknown, mode, success, n);
            let after = mode_count(runs, unknown, mode, success, n + 1);
            &&& own == mode && runs[n].success == success ==> after == before + 1
            &&& own != mode || runs[n].success != success ==> after == before
        }),
        mode_count(runs, unknown, mode, success, 0) == 0,
{
}

/// Every recovery point counts for its own mode.
pub proof fn law_points_count_for_their_mode(
    points: Seq<OffsiteRecoveryPoint>,
    point: OffsiteRecoveryPoint,
    mode: Seq<char>,
)
    ensures
        (point.transfer_mode matches Some(word) && word@ == mode) ==> points_with_mode(
            points.push(point),
            mode,
        ) == points_with_mode(points, mode) + 1,
        point.transfer_mode is None || point.transfer_mode->0@ != mode ==> points_with_mode(
            points.push(point),
            mode,
        ) == points_with_mode(points, mode),
        points_with_mode(seq![], mode) == 0,
{
    assert(points.push(point).drop_last() =~= points);
}

/// Every job has a row of its own.
pub proof fn law_every_job_has_a_row(jobs: Seq<OffsiteReplicationJobStatus>, i: int)
    requires
        0 <= i < jobs.len(),
    ensures
        rows_of(jobs).len() == jobs.len(),
        rows_of(jobs)[i].item == jobs[i],
{
}

/// An overview is given as long as its totals are numbers of 64 bits.
pub proof fn law_totals_are_numbers_of_64_bits(view: JobsOverviewView)
    ensures
        totals_fit(view) <==> view.failures < 0x1_0000_0000_0000_0000 && view.transferred
            < 0x1_0000_0000_0000_0000 && view.runs < 0x1_0000_0000_0000_0000,
{
}

/// The rows of the modes leave no run out: every run's mode has a row, which counts the run.
pub proof fn law_every_run_is_in_a_mode_row(
    runs: Seq<OffsiteReplicationRun>,
    unknown: Seq<char>,
    rows: Seq<RunModeSummaryRow>,
    k: int,
) -> (i: int)
    requires
        is_mode_rows(runs, unknown, rows, runs.len() as int),
        0 <= k < runs.len(),
    ensures
        0 <= i < rows.len(),
        rows[i].mode@ == (match runs[k].transfer_mode {
            Some(mode) => mode@,
            None => unknown,
        }),
        runs[k].success ==> rows[i].ok_count > 0,
        !runs[k].success ==> rows[i].error_count > 0,
        forall|j: int| 0 <= j < rows.len() && j != i ==> (#[trigger] rows[j]).mode@ != rows[i].mode@,
{
    let i = choose|i: int|
        0 <= i < rows.len() && (#[trigger] rows[i]).mode@ == mode_of(runs[k], unknown);
    lemma_run_is_counted(runs, unknown, rows[i].mode@, k, runs.len() as int);
    assert forall|j: int| 0 <= j < rows.len() && j != i implies (#[trigger] rows[j]).mode@
        != rows[i].mode@ by {
        if j < i {
            assert(rows[j].mode@ != rows[i].mode@);
        } else {
            assert(rows[i].mode@ != rows[j].mode@);
        }
    }
    i
}

proof fn lemma_run_is_counted(
    runs: Seq<OffsiteReplicationRun>,
    unknown: Seq<char>,
    mode: Seq<char>,
    k: int,
    n: int,
)
    requires
        0 <= k < n <= runs.len(),
        mode_of(runs[k], unknown) == mode,
    ensures
        mode_count(runs, unknown, mode, runs[k].success, n) > 0,
    decreases n,
{
    if k < n - 1 {
        lemma_run_is_counted(runs, unknown, mode, k, n - 1);
    }
}

} // verus!
