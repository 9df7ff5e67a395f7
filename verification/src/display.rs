//! What the panel shows: labels, filters, choices and summaries.
use crate::history::known;
use crate::number::{
    decimal, law_decimal_reads_back, lemma_decimal, parse_unsigned, parsed, signed_decimal,
    to_decimal, to_signed_decimal,
};
use crate::pieces::{lines, lines_of};
use crate::sync::{guest_type_name, push_decimal};
use crate::text::{after_last, blank, contains, fold, is_blank, is_digit, lemma_occurs_within, lemma_trimmed_already, lower_char, lowered, occurs, same, tail_after, texts, to_lower, trimmed};
use crate::types::{
    GuestType, OffsiteRecoveryPoint, OffsiteReplicationJob, OffsiteReplicationJobStatus,
    OffsiteReplicationRun,
};
use vstd::prelude::*;

verus! {

// ---------------------------------------------------------------------------------------------
// Labels
// ---------------------------------------------------------------------------------------------

/// How a job stands.
#[derive(Debug, PartialEq)]
pub enum StatusLabel {
    /// A worker is running it.
    Running,
    /// It is disabled.
    Disabled,
    /// Its last run failed, with the given message.
    Failed(String),
    /// Nothing is wrong with it.
    Good,
}

/// How a job stands: running goes before disabled, and that before an error.
pub open spec fn status_label_of(item: OffsiteReplicationJobStatus) -> StatusLabel {
    if item.status.running {
        StatusLabel::Running
    } else if item.job.disable {
        StatusLabel::Disabled
    } else {
        match item.status.last_error {
            Some(error) => StatusLabel::Failed(error),
            None => StatusLabel::Good,
        }
    }
}

/// How a job stands.
pub fn status_text(item: &OffsiteReplicationJobStatus) -> (r: StatusLabel)
    ensures
        r == status_label_of(*item),
{
    if item.status.running {
        return StatusLabel::Running;
    }
    if item.job.disable {
        return StatusLabel::Disabled;
    }
    match &item.status.last_error {
        Some(error) => StatusLabel::Failed(error.clone()),
        None => StatusLabel::Good,
    }
}

/// The name of a guest type.
pub fn guest_type_text(guest_type: GuestType) -> (r: &'static str)
    ensures
        r@ == guest_type_name(guest_type),
{
    match guest_type {
        GuestType::Qemu => "qemu",
        GuestType::Lxc => "lxc",
    }
}

/// The guest of a job: its type and its ID.
pub open spec fn guest_label_of(job: OffsiteReplicationJob) -> Seq<char> {
    guest_type_name(job.guest_type) + ":"@ + decimal(job.vmid as nat)
}

/// The guest of a job: its type and its ID.
pub fn guest_label(job: &OffsiteReplicationJob) -> (r: String)
    ensures
        r@ == guest_label_of(*job),
{
    let mut label = guest_type_text(job.guest_type).to_owned();
    label.append(":");
    push_decimal(&mut label, job.vmid as u64);
    label
}

/// The source of a job.
pub fn source_label(job: &OffsiteReplicationJob) -> (r: String)
    ensures
        r@ == job.source_remote@ + " / "@ + job.source_node@,
{
    let mut label = job.source_remote.clone();
    label.append(" / ");
    label.append(job.source_node.as_str());
    label
}

/// The target of a job, with its dataset.
pub fn target_label(job: &OffsiteReplicationJob) -> (r: String)
    ensures
        r@ == job.target_remote@ + " / "@ + job.target_node@ + " ("@ + job.target_dataset@ + ")"@,
{
    let mut label = job.target_remote.clone();
    label.append(" / ");
    label.append(job.target_node.as_str());
    label.append(" (");
    label.append(job.target_dataset.as_str());
    label.append(")");
    label
}

/// The way that a job's data takes.
pub fn path_label(job: &OffsiteReplicationJob) -> (r: String)
    ensures
        r@ == job.source_remote@ + " -> "@ + job.target_remote@,
{
    let mut label = job.source_remote.clone();
    label.append(" -> ");
    label.append(job.target_remote.as_str());
    label
}

/// The key of a run in a list.
pub open spec fn run_key_of(run: OffsiteReplicationRun) -> Seq<char> {
    signed_decimal(run.start_time as int) + "-"@ + signed_decimal(run.end_time as int) + "-"@ + (
    match run.snapshot {
        Some(snapshot) => snapshot@,
        None => ""@,
    })
}

/// The key of a run in a list.
pub fn history_run_key(run: &OffsiteReplicationRun) -> (r: String)
    ensures
        r@ == run_key_of(*run),
{
    let mut key = to_signed_decimal(run.start_time);
    let end = to_signed_decimal(run.end_time);
    key.append("-");
    key.append(end.as_str());
    key.append("-");
    match &run.snapshot {
        Some(snapshot) => key.append(snapshot.as_str()),
        None => key.append(""),
    }
    key
}

/// The first line that is not blank.
pub open spec fn first_filled(all: Seq<Seq<char>>) -> Option<Seq<char>>
    decreases all.len(),
{
    if all.len() == 0 {
        None
    } else if !is_blank(all[0]) {
        Some(all[0])
    } else {
        first_filled(all.skip(1))
    }
}

/// The detail of a run: its error, else the first line of its output that is not blank.
pub open spec fn run_detail_of(run: OffsiteReplicationRun) -> Seq<char> {
    match run.error {
        Some(error) => error@,
        None => match first_filled(lines_of(run.output@)) {
            Some(line) => line,
            None => "-"@,
        },
    }
}

/// The detail of a run.
pub fn run_detail(run: &OffsiteReplicationRun) -> (r: String)
    ensures
        r@ == run_detail_of(*run),
{
    if let Some(error) = &run.error {
        return error.clone();
    }
    let list = lines(run.output.as_str());
    let ghost all = lines_of(run.output@);
    let mut i: usize = 0;
    assert(all.skip(0) =~= all);
    while i < list.len()
        invariant
            i <= list.len(),
            all == texts(list@),
            all == lines_of(run.output@),
            run.error is None,
            first_filled(all.skip(i as int)) == first_filled(all),
        decreases list.len() - i,
    {
        assert(all.skip(i as int)[0] == list@[i as int]@);
        if !blank(list[i].as_str()) {
            return list[i].clone();
        }
        assert(all.skip(i as int).skip(1) =~= all.skip(i + 1));
        i += 1;
    }
    assert(all.len() == list.len());
    "-".to_owned()
}

/// The bytes that were sent, or estimated where they are not known.
pub fn sent_bytes(transferred: Option<u64>, estimated: Option<u64>) -> (r: Option<u64>)
    ensures
        r == known(transferred, estimated),
{
    if transferred.is_some() {
        transferred
    } else {
        estimated
    }
}

/// Whether one of the recovery points is the snapshot's.
pub open spec fn is_recoverable_snapshot(
    points: Seq<OffsiteRecoveryPoint>,
    snapshot: Seq<char>,
) -> bool {
    exists|i: int| 0 <= i < points.len() && (#[trigger] points[i]).snapshot@ == snapshot
}

/// Whether a run can be recovered from; nothing is said of a run without a snapshot.
pub open spec fn run_recoverable(points: Seq<OffsiteRecoveryPoint>, run: OffsiteReplicationRun) -> Option<
    bool,
> {
    match run.snapshot {
        Some(snapshot) => Some(is_recoverable_snapshot(points, snapshot@)),
        None => None,
    }
}

/// Whether one of the recovery points is the snapshot's.
pub fn snapshot_recoverable(points: &Vec<OffsiteRecoveryPoint>, snapshot: &str) -> (r: bool)
    ensures
        r == is_recoverable_snapshot(points@, snapshot@),
{
    let mut i: usize = 0;
    while i < points.len()
        invariant
            i <= points.len(),
            forall|k: int| 0 <= k < i ==> (#[trigger] points@[k]).snapshot@ != snapshot@,
        decreases points.len() - i,
    {
        if same(points[i].snapshot.as_str(), snapshot) {
            return true;
        }
        i += 1;
    }
    false
}

/// Whether a run can be recovered from, as the history shows it.
pub fn recoverable_mark(points: &Vec<OffsiteRecoveryPoint>, run: &OffsiteReplicationRun) -> (r: Option<
    bool,
>)
    ensures
        r == run_recoverable(points@, *run),
{
    match &run.snapshot {
        Some(snapshot) => Some(snapshot_recoverable(points, snapshot.as_str())),
        None => None,
    }
}

/// What follows the last `@` of a snapshot.
pub fn snapshot_tail(snapshot: &str) -> (r: String)
    ensures
        r@ == after_last(snapshot@, "@"@),
{
    tail_after(snapshot, "@")
}

// ---------------------------------------------------------------------------------------------
// Filters
// ---------------------------------------------------------------------------------------------

/// The text of a job in which a filter is searched.
pub open spec fn job_haystack(job: OffsiteReplicationJob) -> Seq<char> {
    lowered(
        job.id@ + " "@ + guest_type_name(job.guest_type) + " "@ + decimal(job.vmid as nat) + " "@
            + job.source_remote@ + " "@ + job.source_node@ + " "@ + job.target_remote@ + " "@
            + job.target_node@ + " "@ + job.target_dataset@ + " "@ + job.schedule@,
    )
}

/// Whether the filter, which is trimmed and in lower case, is found in the job.
pub fn job_matches_filter(item: &OffsiteReplicationJobStatus, filter: &str) -> (r: bool)
    ensures
        r == occurs(job_haystack(item.job), filter@),
{
    let job = &item.job;
    let mut text = job.id.clone();
    text.append(" ");
    text.append(guest_type_text(job.guest_type));
    text.append(" ");
    push_decimal(&mut text, job.vmid as u64);
    text.append(" ");
    text.append(job.source_remote.as_str());
    text.append(" ");
    text.append(job.source_node.as_str());
    text.append(" ");
    text.append(job.target_remote.as_str());
    text.append(" ");
    text.append(job.target_node.as_str());
    text.append(" ");
    text.append(job.target_dataset.as_str());
    text.append(" ");
    text.append(job.schedule.as_str());
    let haystack = to_lower(text.as_str());
    contains(haystack.as_str(), filter)
}

/// The job is shown under the filter text; an empty filter shows all.
pub open spec fn job_shown(item: OffsiteReplicationJobStatus, filter_text: Seq<char>) -> bool {
    let filter = lowered(trimmed(filter_text));
    filter.len() == 0 || occurs(job_haystack(item.job), filter)
}

/// The jobs that are shown, in order.
pub open spec fn shown_jobs(jobs: Seq<OffsiteReplicationJobStatus>, filter_text: Seq<char>) -> Seq<
    OffsiteReplicationJobStatus,
>
    decreases jobs.len(),
{
    if jobs.len() == 0 {
        seq![]
    } else {
        let front = shown_jobs(jobs.drop_last(), filter_text);
        if job_shown(jobs.last(), filter_text) {
            front.push(jobs.last())
        } else {
            front
        }
    }
}

/// The jobs that are shown under the filter text.
pub fn filter_jobs(jobs: &Vec<OffsiteReplicationJobStatus>, filter_text: &str) -> (r: Vec<
    OffsiteReplicationJobStatus,
>)
    ensures
        r@ == shown_jobs(jobs@, filter_text@),
{
    let filter = fold(filter_text);
    let ghost all = jobs@;
    let mut shown: Vec<OffsiteReplicationJobStatus> = Vec::new();
    let mut i: usize = 0;
    assert(all.take(0) =~= seq![]);
    assert(shown@ =~= shown_jobs(all.take(0), filter_text@));
    while i < jobs.len()
        invariant
            i <= jobs.len(),
            all == jobs@,
            filter@ == lowered(trimmed(filter_text@)),
            shown@ == shown_jobs(all.take(i as int), filter_text@),
        decreases jobs.len() - i,
    {
        assert(all.take(i + 1).drop_last() =~= all.take(i as int));
        if filter.as_str().is_empty() || job_matches_filter(&jobs[i], filter.as_str()) {
            shown.push(jobs[i].clone());
        }
        i += 1;
    }
    assert(all.take(all.len() as int) =~= all);
    shown
}

/// The filters of the history.
#[derive(Debug)]
pub struct HistoryFilters {
    /// Text in the snapshot.
    pub text: String,
    /// Text in the details.
    pub details: String,
    /// `all`, `ok` or `error`.
    pub result: String,
    /// `all`, or a transfer mode.
    pub mode: String,
    /// `all`, `yes` or `no`.
    pub recoverable: String,
}

/// What the filters of the history say.
pub struct HistoryFiltersView {
    pub text: Seq<char>,
    pub details: Seq<char>,
    pub result: Seq<char>,
    pub mode: Seq<char>,
    pub recoverable: Seq<char>,
}

impl View for HistoryFilters {
    type V = HistoryFiltersView;

    open spec fn view(&self) -> HistoryFiltersView {
        HistoryFiltersView {
            text: self.text@,
            details: self.details@,
            result: self.result@,
            mode: self.mode@,
            recoverable: self.recoverable@,
        }
    }
}

/// No filter of the history is set.
pub open spec fn no_history_filters() -> HistoryFiltersView {
    HistoryFiltersView {
        text: ""@,
        details: ""@,
        result: "all"@,
        mode: "all"@,
        recoverable: "all"@,
    }
}

impl HistoryFilters {
    /// No filter is set.
    pub fn new() -> (r: HistoryFilters)
        ensures
            r@ == no_history_filters(),
    {
        HistoryFilters {
            text: "".to_owned(),
            details: "".to_owned(),
            result: "all".to_owned(),
            mode: "all".to_owned(),
            recoverable: "all".to_owned(),
        }
    }
}

/// The filters of the recovery points.
#[derive(Debug)]
pub struct RecoveryFilters {
    /// Text in the snapshot.
    pub text: String,
    /// `all`, or a transfer mode.
    pub mode: String,
    /// `all`, `yes` or `no`.
    pub recoverable: String,
}

/// What the filters of the recovery points say.
pub struct RecoveryFiltersView {
    pub text: Seq<char>,
    pub mode: Seq<char>,
    pub recoverable: Seq<char>,
}

impl View for RecoveryFilters {
    type V = RecoveryFiltersView;

    open spec fn view(&self) -> RecoveryFiltersView {
        RecoveryFiltersView {
            text: self.text@,
            mode: self.mode@,
            recoverable: self.recoverable@,
        }
    }
}

/// No filter of the recovery points is set.
pub open spec fn no_recovery_filters() -> RecoveryFiltersView {
    RecoveryFiltersView { text: ""@, mode: "all"@, recoverable: "all"@ }
}

impl RecoveryFilters {
    /// No filter is set.
    pub fn new() -> (r: RecoveryFilters)
        ensures
            r@ == no_recovery_filters(),
    {
        RecoveryFilters {
            text: "".to_owned(),
            mode: "all".to_owned(),
            recoverable: "all".to_owned(),
        }
    }
}

/// The transfer mode as filters name it.
pub open spec fn mode_name(mode: Option<String>) -> Seq<char> {
    match mode {
        Some(mode) => lowered(mode@),
        None => lowered("unknown"@),
    }
}

/// The mode passes the filter.
pub open spec fn mode_passes(filter: Seq<char>, mode: Option<String>) -> bool {
    filter == "all"@ || mode_name(mode) == filter
}

/// What can be recovered from, or cannot, passes the filter.
pub open spec fn recoverable_passes(filter: Seq<char>, recoverable: bool) -> bool {
    !(filter == "yes"@ && !recoverable) && !(filter == "no"@ && recoverable)
}

/// The text passes the filter text: it has the filter in it, whatever the letter case.
pub open spec fn text_passes(filter_text: Seq<char>, text: Seq<char>) -> bool {
    let filter = lowered(trimmed(filter_text));
    filter.len() == 0 || occurs(lowered(text), filter)
}

/// The run is shown under the filters.
pub open spec fn run_shown(
    filters: HistoryFiltersView,
    points: Seq<OffsiteRecoveryPoint>,
    run: OffsiteReplicationRun,
) -> bool {
    &&& !(filters.result == "ok"@ && !run.success)
    &&& !(filters.result == "error"@ && run.success)
    &&& mode_passes(filters.mode, run.transfer_mode)
    &&& recoverable_passes(filters.recoverable, run_recoverable(points, run) == Some(true))
    &&& text_passes(
        filters.text,
        match run.snapshot {
            Some(snapshot) => snapshot@,
            None => ""@,
        },
    )
    &&& text_passes(
        filters.details,
        match run.error {
            Some(error) => error@,
            None => run.output@,
        },
    )
}

/// The runs that are shown, in order.
pub open spec fn shown_runs(
    filters: HistoryFiltersView,
    points: Seq<OffsiteRecoveryPoint>,
    runs: Seq<OffsiteReplicationRun>,
) -> Seq<OffsiteReplicationRun>
    decreases runs.len(),
{
    if runs.len() == 0 {
        seq![]
    } else {
        let front = shown_runs(filters, points, runs.drop_last());
        if run_shown(filters, points, runs.last()) {
            front.push(runs.last())
        } else {
            front
        }
    }
}

/// The recovery point is shown under the filters.
pub open spec fn point_shown(
    filters: RecoveryFiltersView,
    points: Seq<OffsiteRecoveryPoint>,
    point: OffsiteRecoveryPoint,
) -> bool {
    &&& mode_passes(filters.mode, point.transfer_mode)
    &&& recoverable_passes(
        filters.recoverable,
        is_recoverable_snapshot(points, point.snapshot@),
    )
    &&& text_passes(filters.text, point.snapshot@)
}

/// The recovery points that are shown, of the first `n`, in order.
pub open spec fn shown_points(
    filters: RecoveryFiltersView,
    points: Seq<OffsiteRecoveryPoint>,
    n: int,
) -> Seq<OffsiteRecoveryPoint>
    decreases n,
{
    if n <= 0 {
        seq![]
    } else {
        let front = shown_points(filters, points, n - 1);
        if point_shown(filters, points, points[n - 1]) {
            front.push(points[n - 1])
        } else {
            front
        }
    }
}

fn check_mode(filter: &str, mode: &Option<String>) -> (r: bool)
    ensures
        r == mode_passes(filter@, *mode),
{
    if same(filter, "all") {
        return true;
    }
    let name = match mode {
        Some(mode) => to_lower(mode.as_str()),
        None => to_lower("unknown"),
    };
    same(name.as_str(), filter)
}

fn check_recoverable(filter: &str, recoverable: bool) -> (r: bool)
    ensures
        r == recoverable_passes(filter@, recoverable),
{
    !(same(filter, "yes") && !recoverable) && !(same(filter, "no") && recoverable)
}

fn check_text(filter_text: &str, text: &str) -> (r: bool)
    ensures
        r == text_passes(filter_text@, text@),
{
    let filter = fold(filter_text);
    if filter.as_str().is_empty() {
        return true;
    }
    let haystack = to_lower(text);
    contains(haystack.as_str(), filter.as_str())
}

fn check_run(
    filters: &HistoryFilters,
    points: &Vec<OffsiteRecoveryPoint>,
    run: &OffsiteReplicationRun,
) -> (r: bool)
    ensures
        r == run_shown(filters@, points@, *run),
{
    if same(filters.result.as_str(), "ok") && !run.success {
        return false;
    }
    if same(filters.result.as_str(), "error") && run.success {
        return false;
    }
    if !check_mode(filters.mode.as_str(), &run.transfer_mode) {
        return false;
    }
    let recoverable = match recoverable_mark(points, run) {
        Some(mark) => mark,
        None => false,
    };
    if !check_recoverable(filters.recoverable.as_str(), recoverable) {
        return false;
    }
    let snapshot_passes = match &run.snapshot {
        Some(snapshot) => check_text(filters.text.as_str(), snapshot.as_str()),
        None => check_text(filters.text.as_str(), ""),
    };
    if !snapshot_passes {
        return false;
    }
    match &run.error {
        Some(error) => check_text(filters.details.as_str(), error.as_str()),
        None => check_text(filters.details.as_str(), run.output.as_str()),
    }
}

/// The runs that are shown under the filters.
pub fn filter_runs(
    filters: &HistoryFilters,
    points: &Vec<OffsiteRecoveryPoint>,
    runs: &Vec<OffsiteReplicationRun>,
) -> (r: Vec<OffsiteReplicationRun>)
    ensures
        r@ == shown_runs(filters@, points@, runs@),
{
    let ghost all = runs@;
    let mut shown: Vec<OffsiteReplicationRun> = Vec::new();
    let mut i: usize = 0;
    assert(all.take(0) =~= seq![]);
    assert(shown@ =~= shown_runs(filters@, points@, all.take(0)));
    while i < runs.len()
        invariant
            i <= runs.len(),
            all == runs@,
            shown@ == shown_runs(filters@, points@, all.take(i as int)),
        decreases runs.len() - i,
    {
        assert(all.take(i + 1).drop_last() =~= all.take(i as int));
        if check_run(filters, points, &runs[i]) {
            shown.push(runs[i].clone());
        }
        i += 1;
    }
    assert(all.take(all.len() as int) =~= all);
    shown
}

/// The recovery points that are shown under the filters.
pub fn filter_points(filters: &RecoveryFilters, points: &Vec<OffsiteRecoveryPoint>) -> (r: Vec<
    OffsiteRecoveryPoint,
>)
    ensures
        r@ == shown_points(filters@, points@, points@.len() as int),
{
    let mut shown: Vec<OffsiteRecoveryPoint> = Vec::new();
    let mut i: usize = 0;
    while i < points.len()
        invariant
            i <= points.len(),
            shown@ == shown_points(filters@, points@, i as int),
        decreases points.len() - i,
    {
        let point = &points[i];
        if check_mode(filters.mode.as_str(), &point.transfer_mode) && check_recoverable(
            filters.recoverable.as_str(),
            snapshot_recoverable(points, point.snapshot.as_str()),
        ) && check_text(filters.text.as_str(), point.snapshot.as_str()) {
            shown.push(point.clone());
        }
        i += 1;
    }
    shown
}

pub open spec fn one_if(b: bool) -> nat {
    if b {
        1
    } else {
        0
    }
}

/// How many filters of the history are set.
pub open spec fn history_filters_set(f: HistoryFiltersView) -> nat {
    one_if(f.result != "all"@) + one_if(f.mode != "all"@) + one_if(f.recoverable != "all"@)
        + one_if(!is_blank(f.text)) + one_if(!is_blank(f.details))
}

/// How many filters of the recovery points are set.
pub open spec fn recovery_filters_set(f: RecoveryFiltersView) -> nat {
    one_if(f.mode != "all"@) + one_if(f.recoverable != "all"@) + one_if(!is_blank(f.text))
}

/// How many filters of the history are set.
pub fn history_filters_active_count(filters: &HistoryFilters) -> (r: usize)
    ensures
        r == history_filters_set(filters@),
{
    let mut count: usize = 0;
    if !same(filters.result.as_str(), "all") {
        count += 1;
    }
    if !same(filters.mode.as_str(), "all") {
        count += 1;
    }
    if !same(filters.recoverable.as_str(), "all") {
        count += 1;
    }
    if !blank(filters.text.as_str()) {
        count += 1;
    }
    if !blank(filters.details.as_str()) {
        count += 1;
    }
    count
}

/// How many filters of the recovery points are set.
pub fn recovery_filters_active_count(filters: &RecoveryFilters) -> (r: usize)
    ensures
        r == recovery_filters_set(filters@),
{
    let mut count: usize = 0;
    if !same(filters.mode.as_str(), "all") {
        count += 1;
    }
    if !same(filters.recoverable.as_str(), "all") {
        count += 1;
    }
    if !blank(filters.text.as_str()) {
        count += 1;
    }
    count
}

// ---------------------------------------------------------------------------------------------
// How many runs are shown
// ---------------------------------------------------------------------------------------------

/// The runs that are asked for where nothing else is chosen.
pub const HISTORY_PAGE_SIZE: u64 = 200;

pub open spec fn min_of(a: int, b: int) -> int {
    if a < b {
        a
    } else {
        b
    }
}

pub open spec fn max_of(a: int, b: int) -> int {
    if a < b {
        b
    } else {
        a
    }
}

/// The number that a chosen text stands for, between one and the limit.
pub open spec fn chosen_rows(limit: int, value: Seq<char>) -> int {
    let top = max_of(limit, 1);
    let number = match parsed(value, usize::MAX as nat) {
        Some(n) => n as int,
        None => min_of(HISTORY_PAGE_SIZE as int, top),
    };
    min_of(max_of(number, 1), top)
}

/// The choice of how many runs are shown, as it is kept: `all`, or a number between one and the
/// limit.
pub open spec fn rows_choice_of(limit: int, value: Seq<char>) -> Seq<char> {
    let word = lowered(trimmed(value));
    if word == "all"@ {
        "all"@
    } else {
        decimal(chosen_rows(limit, word) as nat)
    }
}

fn pick_rows(limit: u64, value: &str) -> (r: u64)
    ensures
        r == chosen_rows(limit as int, value@),
{
    let top: u64 = if limit < 1 {
        1
    } else {
        limit
    };
    let fallback: u64 = if HISTORY_PAGE_SIZE < top {
        HISTORY_PAGE_SIZE
    } else {
        top
    };
    let number: u64 = match parse_unsigned(value, usize::MAX as u64) {
        Some(n) => n,
        None => fallback,
    };
    let at_least_one: u64 = if number < 1 {
        1
    } else {
        number
    };
    if at_least_one < top {
        at_least_one
    } else {
        top
    }
}

/// The choice of how many runs are shown, as it is kept.
pub fn normalized_history_rows_choice_for_limit(configured_limit: u64, value: &str) -> (r: String)
    ensures
        r@ == rows_choice_of(configured_limit as int, value@),
{
    let word = fold(value);
    if same(word.as_str(), "all") {
        return "all".to_owned();
    }
    to_decimal(pick_rows(configured_limit, word.as_str()))
}

/// How many runs a choice asks for.
pub open spec fn requested_rows(configured: int, choice: Seq<char>) -> int {
    let word = rows_choice_of(configured, choice);
    if word == "all"@ {
        configured
    } else {
        min_of(
            max_of(
                match parsed(word, usize::MAX as nat) {
                    Some(n) => n as int,
                    None => min_of(HISTORY_PAGE_SIZE as int, configured),
                },
                1,
            ),
            configured,
        )
    }
}

/// How many runs a choice asks for.
pub fn requested_history_limit(configured: u64, choice: &str) -> (r: u64)
    ensures
        r == requested_rows(configured as int, choice@),
{
    let word = normalized_history_rows_choice_for_limit(configured, choice);
    if same(word.as_str(), "all") {
        return configured;
    }
    let number: u64 = match parse_unsigned(word.as_str(), usize::MAX as u64) {
        Some(n) => n,
        None => if HISTORY_PAGE_SIZE < configured {
            HISTORY_PAGE_SIZE
        } else {
            configured
        },
    };
    let at_least_one: u64 = if number < 1 {
        1
    } else {
        number
    };
    if at_least_one < configured {
        at_least_one
    } else {
        configured
    }
}

/// The round numbers of runs to choose from, below the limit.
pub open spec fn round_numbers(limit: u64) -> Seq<u64> {
    (if limit > 100 {
        seq![100u64]
    } else {
        seq![]
    }) + (if limit > 200 {
        seq![200u64]
    } else {
        seq![]
    }) + (if limit > 500 {
        seq![500u64]
    } else {
        seq![]
    }) + (if limit > 1000 {
        seq![1000u64]
    } else {
        seq![]
    })
}

/// The choices of how many runs are shown: the round numbers below the limit, the limit and `all`.
pub open spec fn rows_items_of(limit: u64) -> Seq<Seq<char>> {
    let numbers = round_numbers(limit).push(limit);
    Seq::new(numbers.len(), |i: int| decimal(numbers[i] as nat)).push("all"@)
}

/// The choices of how many runs are shown.
pub fn history_rows_items_for_limit(configured_limit: u64) -> (r: Vec<String>)
    ensures
        texts(r@) == rows_items_of(configured_limit),
{
    let mut items: Vec<String> = Vec::new();
    if configured_limit > 100 {
        items.push(to_decimal(100));
    }
    if configured_limit > 200 {
        items.push(to_decimal(200));
    }
    if configured_limit > 500 {
        items.push(to_decimal(500));
    }
    if configured_limit > 1000 {
        items.push(to_decimal(1000));
    }
    items.push(to_decimal(configured_limit));
    items.push("all".to_owned());
    assert(texts(items@) =~= rows_items_of(configured_limit));
    items
}

// ---------------------------------------------------------------------------------------------
// Laws
// ---------------------------------------------------------------------------------------------

proof fn lemma_decimal_is_a_choice(n: nat)
    ensures
        lowered(trimmed(decimal(n))) == decimal(n),
        decimal(n) != "all"@,
{
    reveal_strlit("all");
    lemma_decimal(n);
    let s = decimal(n);
    assert(is_digit(s[0]) && is_digit(s[s.len() - 1]));
    lemma_trimmed_already(s);
    assert(lowered(s) =~= s) by {
        assert forall|i: int| 0 <= i < s.len() implies lower_char(#[trigger] s[i]) == s[i] by {
            assert(is_digit(s[i]));
        }
    }
    assert("all"@[0] == 'a');
}

/// A choice of how many runs are shown that is kept is kept as it is, and asks for at least one run
/// and for no more than the limit.
pub proof fn law_rows_choice_stays_in_range(limit: int, value: Seq<char>)
    requires
        1 <= limit <= usize::MAX,
    ensures
        rows_choice_of(limit, rows_choice_of(limit, value)) == rows_choice_of(limit, value),
        1 <= requested_rows(limit, value) <= limit,
        rows_choice_of(limit, value) != "all"@ ==> rows_choice_of(limit, value) == decimal(
            requested_rows(limit, value) as nat,
        ),
        rows_choice_of(limit, value) == "all"@ ==> requested_rows(limit, value) == limit,
{
    let word = lowered(trimmed(value));
    if word == "all"@ {
        reveal_strlit("all");
        lemma_trimmed_already("all"@);
        assert(lowered("all"@) =~= "all"@);
    } else {
        let n = chosen_rows(limit, word) as nat;
        lemma_decimal_is_a_choice(n);
        law_decimal_reads_back(n, usize::MAX as nat);
    }
}

proof fn lemma_blank_filter()
    ensures
        lowered(trimmed(""@)).len() == 0,
        is_blank(""@),
{
    reveal_strlit("");
    assert(""@ =~= seq![]);
}

/// An empty filter shows all jobs.
pub proof fn law_empty_filter_shows_all_jobs(jobs: Seq<OffsiteReplicationJobStatus>)
    ensures
        shown_jobs(jobs, ""@) == jobs,
    decreases jobs.len(),
{
    lemma_blank_filter();
    if jobs.len() > 0 {
        law_empty_filter_shows_all_jobs(jobs.drop_last());
        assert(jobs.drop_last().push(jobs.last()) =~= jobs);
    } else {
        assert(shown_jobs(jobs, ""@) =~= jobs);
    }
}

/// Cleared filters show the whole history, and none of them counts as set.
pub proof fn law_cleared_filters_show_all_runs(
    points: Seq<OffsiteRecoveryPoint>,
    runs: Seq<OffsiteReplicationRun>,
)
    ensures
        shown_runs(no_history_filters(), points, runs) == runs,
        history_filters_set(no_history_filters()) == 0,
    decreases runs.len(),
{
    lemma_blank_filter();
    reveal_strlit("all");
    reveal_strlit("ok");
    reveal_strlit("error");
    reveal_strlit("yes");
    reveal_strlit("no");
    assert("all"@.len() != "ok"@.len() && "all"@.len() != "error"@.len() && "all"@.len()
        != "no"@.len());
    assert("all"@[0] != "yes"@[0]);
    if runs.len() > 0 {
        law_cleared_filters_show_all_runs(points, runs.drop_last());
        assert(runs.drop_last().push(runs.last()) =~= runs);
    } else {
        assert(shown_runs(no_history_filters(), points, runs) =~= runs);
    }
}

proof fn lemma_cleared_filters_show_points(points: Seq<OffsiteRecoveryPoint>, n: int)
    requires
        0 <= n <= points.len(),
    ensures
        shown_points(no_recovery_filters(), points, n) == points.take(n),
    decreases n,
{
    lemma_blank_filter();
    reveal_strlit("all");
    reveal_strlit("yes");
    reveal_strlit("no");
    assert("all"@.len() != "no"@.len());
    assert("all"@[0] != "yes"@[0]);
    if n > 0 {
        lemma_cleared_filters_show_points(points, n - 1);
        assert(points.take(n - 1).push(points[n - 1]) =~= points.take(n));
    } else {
        assert(shown_points(no_recovery_filters(), points, n) =~= points.take(n));
    }
}

/// Cleared filters show all recovery points, and none of them counts as set.
pub proof fn law_cleared_filters_show_all_points(points: Seq<OffsiteRecoveryPoint>)
    ensures
        shown_points(no_recovery_filters(), points, points.len() as int) == points,
        recovery_filters_set(no_recovery_filters()) == 0,
{
    lemma_blank_filter();
    lemma_cleared_filters_show_points(points, points.len() as int);
    assert(points.take(points.len() as int) =~= points);
}

/// A filter shows the jobs that it lets through, and no others.
pub proof fn law_filter_shows_jobs_that_pass(
    jobs: Seq<OffsiteReplicationJobStatus>,
    filter_text: Seq<char>,
    item: OffsiteReplicationJobStatus,
)
    ensures
        shown_jobs(jobs, filter_text).contains(item) <==> jobs.contains(item) && job_shown(
            item,
            filter_text,
        ),
    decreases jobs.len(),
{
    if jobs.len() > 0 {
        let front = jobs.drop_last();
        let shown = shown_jobs(front, filter_text);
        law_filter_shows_jobs_that_pass(front, filter_text, item);
        assert(jobs =~= front.push(jobs.last()));
        lemma_contains_push(front, jobs.last(), item);
        lemma_contains_push(shown, jobs.last(), item);
    }
}

/// The filters show the runs that they let through, and no others.
pub proof fn law_filters_show_runs_that_pass(
    filters: HistoryFiltersView,
    points: Seq<OffsiteRecoveryPoint>,
    runs: Seq<OffsiteReplicationRun>,
    run: OffsiteReplicationRun,
)
    ensures
        shown_runs(filters, points, runs).contains(run) <==> runs.contains(run) && run_shown(
            filters,
            points,
            run,
        ),
    decreases runs.len(),
{
    if runs.len() > 0 {
        let front = runs.drop_last();
        let shown = shown_runs(filters, points, front);
        law_filters_show_runs_that_pass(filters, points, front, run);
        assert(runs =~= front.push(runs.last()));
        lemma_contains_push(front, runs.last(), run);
        lemma_contains_push(shown, runs.last(), run);
    }
}

proof fn lemma_contains_push<T>(s: Seq<T>, x: T, y: T)
    ensures
        s.push(x).contains(y) <==> s.contains(y) || x == y,
{
    if s.contains(y) {
        let i = choose|i: int| 0 <= i < s.len() && s[i] == y;
        assert(s.push(x)[i] == y);
    }
    assert(s.push(x)[s.len() as int] == x);
    if s.push(x).contains(y) && x != y {
        let i = choose|i: int| 0 <= i < s.push(x).len() && s.push(x)[i] == y;
        assert(s[i] == y);
    }
}

/// A job that is running is shown as such, whatever else is said of it; one that is not running is
/// shown as disabled where it is, and only else by its error.
pub proof fn law_label_tells_the_most_urgent(item: OffsiteReplicationJobStatus)
    ensures
        item.status.running ==> status_label_of(item) is Running,
        !item.status.running && item.job.disable ==> status_label_of(item) is Disabled,
        !item.status.running && !item.job.disable ==> (item.status.last_error matches Some(error)
            ==> status_label_of(item) == StatusLabel::Failed(error)),
        !item.status.running && !item.job.disable && item.status.last_error is None
            ==> status_label_of(item) is Good,
{
}

/// A guest is labelled by its kind and its ID.
pub proof fn law_guest_is_labelled(job: OffsiteReplicationJob)
    ensures
        job.guest_type == GuestType::Qemu ==> guest_label_of(job) == "qemu"@ + ":"@ + decimal(
            job.vmid as nat,
        ),
        job.guest_type == GuestType::Lxc ==> guest_label_of(job) == "lxc"@ + ":"@ + decimal(
            job.vmid as nat,
        ),
{
}

proof fn lemma_first_filled(all: Seq<Seq<char>>, k: int)
    requires
        0 <= k < all.len(),
        !is_blank(all[k]),
        forall|i: int| 0 <= i < k ==> is_blank(#[trigger] all[i]),
    ensures
        first_filled(all) == Some(all[k]),
    decreases k,
{
    if k > 0 {
        let rest = all.skip(1);
        assert(is_blank(all[0]));
        assert forall|i: int| 0 <= i < k - 1 implies is_blank(#[trigger] rest[i]) by {
            assert(rest[i] == all[i + 1]);
        }
        assert(rest[k - 1] == all[k]);
        lemma_first_filled(rest, k - 1);
    }
}

/// The detail of a run is its error, where it has one; else the first line of its output with
/// anything in it.
pub proof fn law_detail_is_error_or_first_line(run: OffsiteReplicationRun, k: int)
    ensures
        run.error matches Some(error) ==> run_detail_of(run) == error@,
        run.error is None && 0 <= k < lines_of(run.output@).len() && !is_blank(
            lines_of(run.output@)[k],
        ) && (forall|i: int| 0 <= i < k ==> is_blank(#[trigger] lines_of(run.output@)[i]))
            ==> run_detail_of(run) == lines_of(run.output@)[k],
        run.error is None && lines_of(run.output@).len() == 0 ==> run_detail_of(run) == "-"@,
{
    let all = lines_of(run.output@);
    if run.error is None && 0 <= k < all.len() && !is_blank(all[k]) && (forall|i: int|
        0 <= i < k ==> is_blank(#[trigger] lines_of(run.output@)[i])) {
        assert forall|i: int| 0 <= i < k implies is_blank(#[trigger] all[i]) by {
            assert(is_blank(lines_of(run.output@)[i]));
        }
        lemma_first_filled(all, k);
    }
}

proof fn lemma_occurs_lowered(a: Seq<char>, s: Seq<char>, b: Seq<char>, p: Seq<char>)
    requires
        occurs(lowered(s), p),
    ensures
        occurs(lowered(a + s + b), p),
{
    assert(lowered(a + s + b) =~= lowered(a) + lowered(s) + lowered(b));
    lemma_occurs_within(lowered(a), lowered(s), lowered(b), p);
}

proof fn lemma_one_more_field(h: Seq<char>, f: Seq<char>, p: Seq<char>)
    ensures
        occurs(lowered(h), p) || occurs(lowered(f), p) ==> occurs(lowered(h + " "@ + f), p),
{
    let nothing = Seq::<char>::empty();
    if occurs(lowered(h), p) {
        assert(h + " "@ + f =~= nothing + h + (" "@ + f));
        lemma_occurs_lowered(nothing, h, " "@ + f, p);
    } else if occurs(lowered(f), p) {
        assert(h + " "@ + f =~= (h + " "@) + f + nothing);
        lemma_occurs_lowered(h + " "@, f, nothing, p);
    }
}

proof fn lemma_field_is_found(
    id: Seq<char>,
    kind: Seq<char>,
    vmid: Seq<char>,
    source: Seq<char>,
    source_node: Seq<char>,
    target: Seq<char>,
    target_node: Seq<char>,
    dataset: Seq<char>,
    schedule: Seq<char>,
    p: Seq<char>,
)
    requires
        occurs(lowered(id), p) || occurs(lowered(kind), p) || occurs(lowered(vmid), p) || occurs(lowered(source), p) || occurs(lowered(source_node), p) || occurs(lowered(target), p) || occurs(lowered(target_node), p) || occurs(lowered(dataset), p) || occurs(lowered(schedule), p),
    ensures
        occurs(lowered(id + " "@ + kind + " "@ + vmid + " "@ + source + " "@ + source_node + " "@ + target + " "@ + target_node + " "@ + dataset + " "@ + schedule), p),
{
    let h0 = id;
    let h1 = h0 + " "@ + kind;
    lemma_one_more_field(h0, kind, p);
    let h2 = h1 + " "@ + vmid;
    lemma_one_more_field(h1, vmid, p);
    let h3 = h2 + " "@ + source;
    lemma_one_more_field(h2, source, p);
    let h4 = h3 + " "@ + source_node;
    lemma_one_more_field(h3, source_node, p);
    let h5 = h4 + " "@ + target;
    lemma_one_more_field(h4, target, p);
    let h6 = h5 + " "@ + target_node;
    lemma_one_more_field(h5, target_node, p);
    let h7 = h6 + " "@ + dataset;
    lemma_one_more_field(h6, dataset, p);
    let h8 = h7 + " "@ + schedule;
    lemma_one_more_field(h7, schedule, p);
}

/// A job is found by what stands in any of its fields, in whatever letter case: its ID, its guest's
/// kind and ID, its remotes and nodes, its dataset and its schedule.
pub proof fn law_job_is_found_by_any_field(item: OffsiteReplicationJobStatus, filter_text: Seq<char>)
    requires
        ({
            let job = item.job;
            let filter = lowered(trimmed(filter_text));
            occurs(lowered(job.id@), filter) || occurs(lowered(guest_type_name(job.guest_type)), filter) || occurs(lowered(decimal(job.vmid as nat)), filter) || occurs(lowered(job.source_remote@), filter) || occurs(lowered(job.source_node@), filter) || occurs(lowered(job.target_remote@), filter) || occurs(lowered(job.target_node@), filter) || occurs(lowered(job.target_dataset@), filter) || occurs(lowered(job.schedule@), filter)
        }),
    ensures
        job_shown(item, filter_text),
{
    let job = item.job;
    lemma_field_is_found(
        job.id@,
        guest_type_name(job.guest_type),
        decimal(job.vmid as nat),
        job.source_remote@,
        job.source_node@,
        job.target_remote@,
        job.target_node@,
        job.target_dataset@,
        job.schedule@,
        lowered(trimmed(filter_text)),
    );
}

/// The letter case of a filter does not matter, nor does the white space around it.
pub proof fn law_filters_fold_letter_case(
    filters: HistoryFiltersView,
    text: Seq<char>,
    filter_text: Seq<char>,
)
    ensures
        text_passes(filter_text, text) == text_passes(filter_text, lowered(text)),
        occurs(lowered(text), lowered(trimmed(filter_text))) ==> text_passes(filter_text, text),
        is_blank(filter_text) ==> text_passes(filter_text, text),
        !is_blank(filter_text) && !occurs(lowered(text), lowered(trimmed(filter_text)))
            ==> !text_passes(filter_text, text),
{
    crate::text::law_lowering_twice_is_lowering_once(text);
}

/// Jobs, runs and recovery points are filtered one by one and keep their order: a further one is
/// shown behind the others where it passes, and changes nothing else.
pub proof fn law_filters_keep_the_order(
    jobs: Seq<OffsiteReplicationJobStatus>,
    item: OffsiteReplicationJobStatus,
    filter_text: Seq<char>,
    filters: HistoryFiltersView,
    points: Seq<OffsiteRecoveryPoint>,
    runs: Seq<OffsiteReplicationRun>,
    run: OffsiteReplicationRun,
)
    ensures
        job_shown(item, filter_text) ==> shown_jobs(jobs.push(item), filter_text) == shown_jobs(
            jobs,
            filter_text,
        ).push(item),
        !job_shown(item, filter_text) ==> shown_jobs(jobs.push(item), filter_text) == shown_jobs(
            jobs,
            filter_text,
        ),
        run_shown(filters, points, run) ==> shown_runs(filters, points, runs.push(run))
            == shown_runs(filters, points, runs).push(run),
        !run_shown(filters, points, run) ==> shown_runs(filters, points, runs.push(run))
            == shown_runs(filters, points, runs),
        shown_jobs(seq![], filter_text).len() == 0,
        shown_runs(filters, points, seq![]).len() == 0,
{
    assert(jobs.push(item).drop_last() =~= jobs);
    assert(runs.push(run).drop_last() =~= runs);
}

/// The recovery points that are shown are those that pass, in order.
pub proof fn law_filters_show_points_that_pass(
    filters: RecoveryFiltersView,
    points: Seq<OffsiteRecoveryPoint>,
    n: int,
)
    requires
        0 <= n < points.len(),
    ensures
        shown_points(filters, points, 0).len() == 0,
        point_shown(filters, points, points[n]) ==> shown_points(filters, points, n + 1)
            == shown_points(filters, points, n).push(points[n]),
        !point_shown(filters, points, points[n]) ==> shown_points(filters, points, n + 1)
            == shown_points(filters, points, n),
{
}

proof fn lemma_filter_words()
    ensures
        "all"@ != "ok"@,
        "all"@ != "error"@,
        "all"@ != "yes"@,
        "all"@ != "no"@,
        "ok"@ != "error"@,
        "yes"@ != "no"@,
{
    reveal_strlit("all");
    reveal_strlit("ok");
    reveal_strlit("error");
    reveal_strlit("yes");
    reveal_strlit("no");
    assert("all"@.len() == 3 && "ok"@.len() == 2 && "error"@.len() == 5 && "no"@.len() == 2
        && "yes"@.len() == 3);
    assert("all"@[0] == 'a' && "yes"@[0] == 'y');
}

/// What each filter of the history lets through where it alone is set: results by success, modes by
/// name, what can be recovered from and what cannot, and texts in the snapshot and in the details.
pub proof fn law_each_history_filter(
    points: Seq<OffsiteRecoveryPoint>,
    run: OffsiteReplicationRun,
    word: Seq<char>,
)
    ensures
        ({
            let none = no_history_filters();
            let recoverable = run.snapshot matches Some(snapshot) && exists|i: int|
                0 <= i < points.len() && (#[trigger] points[i]).snapshot@ == snapshot@;
            &&& run_shown(none, points, run)
            &&& run_shown((HistoryFiltersView { result: "ok"@, ..none }), points, run)
                <==> run.success
            &&& run_shown((HistoryFiltersView { result: "error"@, ..none }), points, run)
                <==> !run.success
            &&& word != "all"@ ==> (run_shown(
                (HistoryFiltersView { mode: word, ..none }),
                points,
                run,
            ) <==> word == (match run.transfer_mode {
                Some(mode) => lowered(mode@),
                None => lowered("unknown"@),
            }))
            &&& run_shown((HistoryFiltersView { recoverable: "yes"@, ..none }), points, run)
                <==> recoverable
            &&& run_shown((HistoryFiltersView { recoverable: "no"@, ..none }), points, run)
                <==> !recoverable
            &&& !is_blank(word) ==> (run_shown(
                (HistoryFiltersView { text: word, ..none }),
                points,
                run,
            ) <==> occurs(
                lowered(
                    match run.snapshot {
                        Some(snapshot) => snapshot@,
                        None => ""@,
                    },
                ),
                lowered(trimmed(word)),
            ))
            &&& !is_blank(word) ==> (run_shown(
                (HistoryFiltersView { details: word, ..none }),
                points,
                run,
            ) <==> occurs(
                lowered(
                    match run.error {
                        Some(error) => error@,
                        None => run.output@,
                    },
                ),
                lowered(trimmed(word)),
            ))
        }),
{
    lemma_blank_filter();
    lemma_filter_words();
}

/// The filters of the history count together: a run is shown exactly where each of them alone shows
/// it.
pub proof fn law_history_filters_count_together(
    f: HistoryFiltersView,
    points: Seq<OffsiteRecoveryPoint>,
    run: OffsiteReplicationRun,
)
    ensures
        ({
            let none = no_history_filters();
            run_shown(f, points, run) <==> {
                &&& run_shown((HistoryFiltersView { text: f.text, ..none }), points, run)
                &&& run_shown((HistoryFiltersView { details: f.details, ..none }), points, run)
                &&& run_shown((HistoryFiltersView { result: f.result, ..none }), points, run)
                &&& run_shown((HistoryFiltersView { mode: f.mode, ..none }), points, run)
                &&& run_shown(
                    (HistoryFiltersView { recoverable: f.recoverable, ..none }),
                    points,
                    run,
                )
            }
        }),
{
    lemma_blank_filter();
    lemma_filter_words();
}

/// What each filter of the recovery points lets through where it alone is set, and that they count
/// together.
pub proof fn law_each_recovery_filter(
    f: RecoveryFiltersView,
    points: Seq<OffsiteRecoveryPoint>,
    point: OffsiteRecoveryPoint,
)
    ensures
        ({
            let none = no_recovery_filters();
            let recoverable = exists|i: int|
                0 <= i < points.len() && (#[trigger] points[i]).snapshot@ == point.snapshot@;
            &&& point_shown(none, points, point)
            &&& f.mode != "all"@ ==> (point_shown(
                (RecoveryFiltersView { mode: f.mode, ..none }),
                points,
                point,
            ) <==> f.mode == (match point.transfer_mode {
                Some(mode) => lowered(mode@),
                None => lowered("unknown"@),
            }))
            &&& point_shown((RecoveryFiltersView { recoverable: "yes"@, ..none }), points, point)
                <==> recoverable
            &&& point_shown((RecoveryFiltersView { recoverable: "no"@, ..none }), points, point)
                <==> !recoverable
            &&& !is_blank(f.text) ==> (point_shown(
                (RecoveryFiltersView { text: f.text, ..none }),
                points,
                point,
            ) <==> occurs(lowered(point.snapshot@), lowered(trimmed(f.text))))
            &&& point_shown(f, points, point) <==> {
                &&& point_shown((RecoveryFiltersView { text: f.text, ..none }), points, point)
                &&& point_shown((RecoveryFiltersView { mode: f.mode, ..none }), points, point)
                &&& point_shown(
                    (RecoveryFiltersView { recoverable: f.recoverable, ..none }),
                    points,
                    point,
                )
            }
        }),
{
    lemma_blank_filter();
    lemma_filter_words();
}

/// Each filter that is set counts as one.
pub proof fn law_set_filters_are_counted(f: HistoryFiltersView, g: RecoveryFiltersView)
    ensures
        f.result != "all"@ ==> history_filters_set(f) == history_filters_set(
            (HistoryFiltersView { result: "all"@, ..f }),
        ) + 1,
        f.mode != "all"@ ==> history_filters_set(f) == history_filters_set(
            (HistoryFiltersView { mode: "all"@, ..f }),
        ) + 1,
        f.recoverable != "all"@ ==> history_filters_set(f) == history_filters_set(
            (HistoryFiltersView { recoverable: "all"@, ..f }),
        ) + 1,
        !is_blank(f.text) ==> history_filters_set(f) == history_filters_set(
            (HistoryFiltersView { text: ""@, ..f }),
        ) + 1,
        !is_blank(f.details) ==> history_filters_set(f) == history_filters_set(
            (HistoryFiltersView { details: ""@, ..f }),
        ) + 1,
        g.mode != "all"@ ==> recovery_filters_set(g) == recovery_filters_set(
            (RecoveryFiltersView { mode: "all"@, ..g }),
        ) + 1,
        g.recoverable != "all"@ ==> recovery_filters_set(g) == recovery_filters_set(
            (RecoveryFiltersView { recoverable: "all"@, ..g }),
        ) + 1,
        !is_blank(g.text) ==> recovery_filters_set(g) == recovery_filters_set(
            (RecoveryFiltersView { text: ""@, ..g }),
        ) + 1,
{
    lemma_blank_filter();
}

/// A number of runs that is chosen is kept where it lies between one and the limit; a larger one
/// becomes the limit, and zero becomes one.
pub proof fn law_chosen_number_is_kept(limit: int, n: nat)
    requires
        1 <= limit <= usize::MAX,
        n <= usize::MAX,
    ensures
        1 <= n <= limit ==> rows_choice_of(limit, decimal(n)) == decimal(n) && requested_rows(
            limit,
            decimal(n),
        ) == n,
        n > limit ==> requested_rows(limit, decimal(n)) == limit,
        n == 0 ==> requested_rows(limit, decimal(n)) == 1,
{
    lemma_decimal_is_a_choice(n);
    law_decimal_reads_back(n, usize::MAX as nat);
    law_rows_choice_stays_in_range(limit, decimal(n));
    let kept = chosen_rows(limit, decimal(n)) as nat;
    lemma_decimal_is_a_choice(kept);
    law_decimal_reads_back(kept, usize::MAX as nat);
}

/// A choice that is neither a number nor `all` asks for the page of 200 runs, or for all where the
/// limit is lower.
pub proof fn law_unknown_choice_asks_for_a_page(limit: int, value: Seq<char>)
    requires
        1 <= limit <= usize::MAX,
        lowered(trimmed(value)) != "all"@,
        parsed(lowered(trimmed(value)), usize::MAX as nat) is None,
    ensures
        limit >= 200 ==> requested_rows(limit, value) == 200,
        limit < 200 ==> requested_rows(limit, value) == limit,
{
    law_rows_choice_stays_in_range(limit, value);
    let kept = chosen_rows(limit, lowered(trimmed(value))) as nat;
    lemma_decimal_is_a_choice(kept);
    law_decimal_reads_back(kept, usize::MAX as nat);
}

/// The choices are the round numbers below the limit, from the smallest on, then the limit itself and
/// `all`.
pub proof fn law_choices_go_up_to_the_limit(limit: u64, i: int)
    ensures
        ({
            let numbers = round_numbers(limit);
            let items = rows_items_of(limit);
            &&& items.len() == numbers.len() + 2
            &&& items.last() == "all"@
            &&& items[items.len() - 2] == decimal(limit as nat)
            &&& 0 <= i < numbers.len() ==> items[i] == decimal(numbers[i] as nat) && numbers[i]
                < limit && (numbers[i] == 100 || numbers[i] == 200 || numbers[i] == 500
                || numbers[i] == 1000)
            &&& 0 < i < numbers.len() ==> numbers[i - 1] < numbers[i]
            &&& limit > 100 ==> numbers.contains(100u64)
            &&& limit > 200 ==> numbers.contains(200u64)
            &&& limit > 500 ==> numbers.contains(500u64)
            &&& limit > 1000 ==> numbers.contains(1000u64)
        }),
{
    let numbers = round_numbers(limit);
    if limit > 100 {
        assert(numbers[0] == 100);
    }
    if limit > 200 {
        assert(numbers[1] == 200);
    }
    if limit > 500 {
        assert(numbers[2] == 500);
    }
    if limit > 1000 {
        assert(numbers[3] == 1000);
    }
}

} // verus!
