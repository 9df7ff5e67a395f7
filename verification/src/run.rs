//! Replication runs and failovers: what is recorded, and what is run next.
use crate::command::{connection_host, normalize_host_for_connection};
use crate::failover::{build_qemu_failover_script, failover_script};
use crate::history::{annotate_run, annotated};
use crate::ids::{
    config_dir, history_file, history_path, recovery_config_dir_for_job, recovery_storage_id,
    storage_id, WORKER_TYPE,
};
use crate::names::{
    guest_name_verdict, runtime_verdict, snapshot_verdict, validate_runtime_job,
    verify_offsite_recovered_name, verify_offsite_snapshot,
};
use crate::number::{decimal, signed_decimal, to_signed_decimal};
use crate::qemu::{parse_qemu_config, parsed_config, ParsedQemuConfig};
use crate::shell::escaped;
use crate::snapshots::{
    candidates_of, lineage_prefix, resolve_selected_target_snapshot, resolved,
    selected_lineage_prefix_from_target_snapshot, source_snapshot_to_target_snapshot_candidates,
    texts_outcome,
};
use crate::sync::{
    build_remote_script, option_summary, push_decimal, push_escaped, remote_script,
    run_option_summary,
};
use crate::text::{blank, has_prefix, has_suffix, is_blank, texts};
use crate::types::{
    outcome, text_outcome, Error, GuestType, OffsiteFailoverRequest, OffsiteReplicationJob,
    OffsiteReplicationRun, RunView,
};
use vstd::prelude::*;

verus! {

/// How a task ended.
#[derive(Debug, PartialEq)]
pub enum TaskState {
    /// It succeeded, at the given time.
    Done(i64),
    /// It failed, at the given time and with the given message.
    Failed(i64, String),
}

/// How a task ended.
pub enum TaskView {
    Done(int),
    Failed(int, Seq<char>),
}

impl View for TaskState {
    type V = TaskView;

    open spec fn view(&self) -> TaskView {
        match self {
            TaskState::Done(time) => TaskView::Done(*time as int),
            TaskState::Failed(time, message) => TaskView::Failed(*time as int, message@),
        }
    }
}

/// What came of a replication run.
#[derive(Debug)]
pub struct RunReport {
    /// The record of the run.
    pub run: OffsiteReplicationRun,
    /// How the task ended.
    pub state: TaskState,
    /// The text for the task's log.
    pub log: String,
}

/// The text that is recorded of a run: the output, and the options in a line of their own.
pub open spec fn run_text(job: OffsiteReplicationJob, output: Seq<char>) -> Seq<char> {
    (if is_blank(output) {
        output
    } else {
        output.push('\n')
    }) + option_summary(job) + "\n"@
}

/// The exit status in words.
pub open spec fn status_words(code: Option<i32>) -> Seq<char> {
    match code {
        Some(code) => signed_decimal(code as int),
        None => "signal"@,
    }
}

/// A duration that is not negative.
pub open spec fn at_least_zero(duration: int) -> int {
    if duration < 0 {
        0
    } else {
        duration
    }
}

/// The record of a run as it was observed.
pub open spec fn observed_run(
    job: OffsiteReplicationJob,
    success: bool,
    code: Option<i32>,
    output: Seq<char>,
    duration: int,
    endtime: int,
) -> RunView {
    RunView {
        start_time: endtime - at_least_zero(duration),
        end_time: endtime,
        duration: at_least_zero(duration),
        success,
        transfer_mode: None,
        source_snapshot: None,
        snapshot: None,
        estimated_bytes: None,
        transferred_bytes: None,
        error: if success {
            None
        } else {
            Some("ssh/pve-zsync exited with status "@ + status_words(code))
        },
        output: run_text(job, output),
    }
}

/// Whether the guest's configuration was stored for the run, where `stored` tells what came of it.
/// Without a snapshot there is nothing to store it for.
pub open spec fn capture_of(run: RunView, stored: Result<(), Seq<char>>) -> Result<(), Seq<char>> {
    match run.snapshot {
        None => Err("replication succeeded but no recovery snapshot was recorded"@),
        Some(_) => stored,
    }
}

/// The message that a run is no recovery point.
pub open spec fn capture_failed(e: Seq<char>) -> Seq<char> {
    "replication completed, but persisting recovery config failed: "@ + e
}

/// The record of a run after the guest's configuration was stored, or not: a run whose
/// configuration was not stored has failed.
pub open spec fn closed_run(run: RunView, stored: Result<(), Seq<char>>) -> RunView {
    if !run.success {
        run
    } else {
        match capture_of(run, stored) {
            Ok(_) => run,
            Err(e) => RunView {
                success: false,
                error: Some(capture_failed(e)),
                output: (if is_blank(run.output) {
                    run.output
                } else {
                    run.output.push('\n')
                }) + "WARNING: "@ + capture_failed(e) + "\n"@,
                ..run
            },
        }
    }
}

/// How the task of a run ends.
pub open spec fn run_state(run: RunView) -> TaskView {
    if run.success {
        TaskView::Done(run.end_time)
    } else {
        TaskView::Failed(
            run.end_time,
            match run.error {
                Some(message) => message,
                None => "off-site replication failed"@,
            },
        )
    }
}

/// The text for the task's log.
pub open spec fn run_log(text: Seq<char>, run: RunView) -> Seq<char> {
    if run.success && run.snapshot is Some {
        text + "captured guest config for recovery point "@ + run.snapshot->0 + "\n"@
    } else {
        text
    }
}

pub open spec fn stored_view(r: Result<(), String>) -> Result<(), Seq<char>> {
    match r {
        Ok(_) => Ok(()),
        Err(message) => Err(message@),
    }
}

/// The script of a replication run to the node with the given host.
pub fn replication_script(job: &OffsiteReplicationJob, target_host: &str) -> (r: Result<
    String,
    Error,
>)
    requires
        job.rate_limit_mib matches Some(limit) ==> limit * 1024 <= u64::MAX,
    ensures
        text_outcome(r) == (match runtime_verdict(*job) {
            Err(e) => Err(e),
            Ok(_) => Ok(remote_script(*job, connection_host(target_host@))),
        }),
{
    if let Err(e) = validate_runtime_job(job) {
        return Err(e);
    }
    let host = normalize_host_for_connection(target_host);
    Ok(build_remote_script(job, host.as_str()))
}

fn text_of_run(job: &OffsiteReplicationJob, output: String) -> (r: String)
    ensures
        r@ == run_text(*job, output@),
{
    let summary = run_option_summary(job);
    let mut text = output;
    if !blank(text.as_str()) {
        text.push('\n');
    }
    text.append(summary.as_str());
    text.append("\n");
    text
}

/// The record of a run as it was observed, with what its output says of the transfer. `sizes` gives
/// in bytes the sizes in the recorded text.
pub fn observe_run(
    job: &OffsiteReplicationJob,
    success: bool,
    code: Option<i32>,
    output: String,
    duration: i64,
    endtime: i64,
    sizes: &Vec<Option<u64>>,
) -> (r: OffsiteReplicationRun)
    requires
        endtime - at_least_zero(duration as int) >= i64::MIN,
    ensures
        r@ == annotated(
            observed_run(*job, success, code, output@, duration as int, endtime as int),
            sizes@,
        ),
{
    let lasted: i64 = if duration < 0 {
        0
    } else {
        duration
    };
    let error = if success {
        None
    } else {
        let mut message = "ssh/pve-zsync exited with status ".to_owned();
        let words = match code {
            Some(code) => to_signed_decimal(code as i64),
            None => "signal".to_owned(),
        };
        message.append(words.as_str());
        Some(message)
    };
    let run = OffsiteReplicationRun {
        start_time: endtime - lasted,
        end_time: endtime,
        duration: lasted,
        success,
        transfer_mode: None,
        source_snapshot: None,
        snapshot: None,
        estimated_bytes: None,
        transferred_bytes: None,
        error,
        output: text_of_run(job, output),
    };
    annotate_run(run, sizes)
}

/// The text that is recorded of a run, in which `sizes` of a run are found.
pub fn recorded_text(job: &OffsiteReplicationJob, output: String) -> (r: String)
    ensures
        r@ == run_text(*job, output@),
{
    text_of_run(job, output)
}

/// Closes an observed run: the guest's configuration was stored for its snapshot, or was not.
pub fn close_run(run: OffsiteReplicationRun, stored: &Result<(), String>) -> (r:
    OffsiteReplicationRun)
    ensures
        r@ == closed_run(run@, stored_view(*stored)),
{
    if !run.success {
        return run;
    }
    let failure: Option<String> = if run.snapshot.is_none() {
        Some("replication succeeded but no recovery snapshot was recorded".to_owned())
    } else {
        match stored {
            Ok(_) => None,
            Err(message) => Some(message.clone()),
        }
    };
    match failure {
        None => run,
        Some(reason) => {
            let mut message =
                "replication completed, but persisting recovery config failed: ".to_owned();
            message.append(reason.as_str());
            let mut run = run;
            let mut output = run.output.clone();
            if !blank(output.as_str()) {
                output.push('\n');
            }
            output.append("WARNING: ");
            output.append(message.as_str());
            output.append("\n");
            run.success = false;
            run.error = Some(message);
            run.output = output;
            run
        },
    }
}

/// What came of a replication run whose script left the given output, and for whose snapshot the
/// guest's configuration was stored as `stored` tells.
pub fn run_over_ssh(
    job: &OffsiteReplicationJob,
    success: bool,
    code: Option<i32>,
    output: String,
    duration: i64,
    endtime: i64,
    sizes: &Vec<Option<u64>>,
    stored: &Result<(), String>,
) -> (r: RunReport)
    requires
        endtime - at_least_zero(duration as int) >= i64::MIN,
    ensures
        ({
            let observed = annotated(
                observed_run(*job, success, code, output@, duration as int, endtime as int),
                sizes@,
            );
            let closed = closed_run(observed, stored_view(*stored));
            &&& r.run@ == closed
            &&& r.state@ == run_state(closed)
            &&& r.log@ == run_log(run_text(*job, output@), closed)
        }),
{
    let mut log = text_of_run(job, output.clone());
    let observed = observe_run(job, success, code, output, duration, endtime, sizes);
    proof {
        crate::history::law_annotating_keeps_what_was_observed(
            observed_run(*job, success, code, output@, duration as int, endtime as int),
            sizes@,
        );
    }
    let run = close_run(observed, stored);
    let state = if run.success {
        TaskState::Done(endtime)
    } else {
        match &run.error {
            Some(message) => TaskState::Failed(endtime, message.clone()),
            None => TaskState::Failed(endtime, "off-site replication failed".to_owned()),
        }
    };
    if run.success {
        if let Some(snapshot) = &run.snapshot {
            log.append("captured guest config for recovery point ");
            log.append(snapshot.as_str());
            log.append("\n");
        }
    }
    RunReport { run, state, log }
}

/// The record of a run that failed before its script was run.
pub open spec fn failed_run_view(job: OffsiteReplicationJob, endtime: int, message: Seq<char>) -> RunView {
    RunView {
        start_time: endtime,
        end_time: endtime,
        duration: 0,
        success: false,
        transfer_mode: None,
        source_snapshot: None,
        snapshot: None,
        estimated_bytes: None,
        transferred_bytes: None,
        error: Some(message),
        output: option_summary(job),
    }
}

/// The record of a run that failed before its script was run.
pub fn failed_run(job: &OffsiteReplicationJob, endtime: i64, message: &str) -> (r:
    OffsiteReplicationRun)
    ensures
        r@ == failed_run_view(*job, endtime as int, message@),
{
    OffsiteReplicationRun {
        start_time: endtime,
        end_time: endtime,
        duration: 0,
        success: false,
        transfer_mode: None,
        source_snapshot: None,
        snapshot: None,
        estimated_bytes: None,
        transferred_bytes: None,
        error: Some(message.to_owned()),
        output: run_option_summary(job),
    }
}

/// What came of a run that failed before its script was run: its record, and how its task ends.
pub fn failed_report(job: &OffsiteReplicationJob, endtime: i64, message: &str) -> (r: (
    OffsiteReplicationRun,
    TaskState,
))
    ensures
        r.0@ == failed_run_view(*job, endtime as int, message@),
        r.1@ == TaskView::Failed(endtime as int, message@),
{
    (failed_run(job, endtime, message), TaskState::Failed(endtime, message.to_owned()))
}

/// What a worker answers whose task ended as given.
pub fn task_result(state: &TaskState) -> (r: Result<(), Error>)
    ensures
        outcome(r) == (match state@ {
            TaskView::Done(_) => Ok(()),
            TaskView::Failed(_, message) => Err(message),
        }),
{
    match state {
        TaskState::Done(_) => Ok(()),
        TaskState::Failed(_, message) => Err(Error { message: message.clone() }),
    }
}

// ---------------------------------------------------------------------------------------------
// Failover
// ---------------------------------------------------------------------------------------------

/// The job and the request are in order.
pub open spec fn failover_verdict(job: OffsiteReplicationJob, request: OffsiteFailoverRequest) -> Result<
    (),
    Seq<char>,
> {
    if runtime_verdict(job) is Err {
        runtime_verdict(job)
    } else if snapshot_verdict(request.snapshot@) is Err {
        snapshot_verdict(request.snapshot@)
    } else {
        match request.recovered_name {
            Some(name) => guest_name_verdict(name@),
            None => Ok(()),
        }
    }
}

/// Checks the job and the request of a failover.
pub fn validate_failover(job: &OffsiteReplicationJob, request: &OffsiteFailoverRequest) -> (r:
    Result<(), Error>)
    ensures
        outcome(r) == failover_verdict(*job, *request),
{
    if let Err(e) = validate_runtime_job(job) {
        return Err(e);
    }
    if let Err(e) = verify_offsite_snapshot(request.snapshot.as_str()) {
        return Err(e);
    }
    if let Some(name) = &request.recovered_name {
        return verify_offsite_recovered_name(name.as_str());
    }
    Ok(())
}

/// The scripts that ask the target for a snapshot, one for each place at which it may stand.
pub open spec fn availability_scripts_of(places: Seq<Seq<char>>) -> Seq<Seq<char>> {
    Seq::new(places.len(), |i: int| "zfs list -H -o name "@ + escaped(places[i]))
}

/// The scripts that ask the target for a snapshot, in the order in which they are to be run until
/// one succeeds.
pub fn availability_scripts(job: &OffsiteReplicationJob, source_snapshot: &str) -> (r: Result<
    Vec<String>,
    Error,
>)
    ensures
        texts_outcome(r) == (match candidates_of(job.target_dataset@, source_snapshot@) {
            Ok(places) => Ok(availability_scripts_of(places)),
            Err(e) => Err(e),
        }),
{
    match source_snapshot_to_target_snapshot_candidates(job, source_snapshot) {
        Err(e) => Err(e),
        Ok(places) => {
            let mut scripts: Vec<String> = Vec::new();
            let mut i: usize = 0;
            while i < places.len()
                invariant
                    i <= places.len(),
                    scripts.len() == i,
                    forall|k: int|
                        0 <= k < i ==> (#[trigger] scripts@[k])@ == availability_scripts_of(
                            texts(places@),
                        )[k],
                decreases places.len() - i,
            {
                let mut script = "zfs list -H -o name ".to_owned();
                push_escaped(&mut script, places[i].as_str());
                scripts.push(script);
                i += 1;
            }
            assert(texts(scripts@) =~= availability_scripts_of(texts(places@)));
            Ok(scripts)
        },
    }
}

/// Whether the selected snapshot is still there, given whether one of the places was found.
pub fn ensure_recovery_snapshot_available(
    job: &OffsiteReplicationJob,
    source_snapshot: &str,
    found: bool,
) -> (r: Result<(), Error>)
    ensures
        outcome(r) == (if found {
            Ok(())
        } else {
            Err(
                "selected recovery snapshot '"@ + source_snapshot@
                    + "' is no longer available on target dataset '"@ + job.target_dataset@ + "'"@,
            )
        }),
{
    if found {
        Ok(())
    } else {
        Err(
            Error::of5(
                "selected recovery snapshot '",
                source_snapshot,
                "' is no longer available on target dataset '",
                job.target_dataset.as_str(),
                "'",
            ),
        )
    }
}

/// The ID of the worker of a failover.
pub fn failover_worker_id(job: &OffsiteReplicationJob, request: &OffsiteFailoverRequest) -> (r:
    String)
    ensures
        r@ == job.id@ + "-"@ + decimal(request.recovery_vmid as nat),
{
    let mut id = job.id.clone();
    id.append("-");
    push_decimal(&mut id, request.recovery_vmid as u64);
    id
}

/// What `begin_failover` answers.
pub open spec fn failover_start(job: OffsiteReplicationJob, request: OffsiteFailoverRequest) -> Result<
    (),
    Seq<char>,
> {
    if failover_verdict(job, request) is Err {
        failover_verdict(job, request)
    } else if job.guest_type != GuestType::Qemu {
        Err("failover is currently implemented only for QEMU guests"@)
    } else {
        Ok(())
    }
}

/// Checks, before the stored configuration is loaded, that a failover can be run.
pub fn begin_failover(job: &OffsiteReplicationJob, request: &OffsiteFailoverRequest) -> (r: Result<
    (),
    Error,
>)
    ensures
        outcome(r) == failover_start(*job, *request),
{
    if let Err(e) = validate_failover(job, request) {
        return Err(e);
    }
    if job.guest_type != GuestType::Qemu {
        return Err(Error::new("failover is currently implemented only for QEMU guests"));
    }
    Ok(())
}

/// What `failover_places` answers.
pub open spec fn failover_places_of(
    job: OffsiteReplicationJob,
    request: OffsiteFailoverRequest,
    config: Seq<char>,
) -> Result<Seq<Seq<char>>, Seq<char>> {
    if failover_start(job, request) is Err {
        Err(failover_start(job, request)->Err_0)
    } else if parsed_config(config, job.vmid as nat) is Err {
        Err(parsed_config(config, job.vmid as nat)->Err_0)
    } else {
        candidates_of(job.target_dataset@, request.snapshot@)
    }
}

/// The places on the target that a failover has to know of, given the stored configuration.
pub fn failover_places(
    job: &OffsiteReplicationJob,
    request: &OffsiteFailoverRequest,
    stored_config: &str,
) -> (r: Result<Vec<String>, Error>)
    ensures
        texts_outcome(r) == failover_places_of(*job, *request, stored_config@),
{
    if let Err(e) = begin_failover(job, request) {
        return Err(e);
    }
    if let Err(e) = parse_qemu_config(stored_config, job.vmid) {
        return Err(e);
    }
    source_snapshot_to_target_snapshot_candidates(job, request.snapshot.as_str())
}

/// What `execute_failover` answers.
pub open spec fn failover_of(
    job: OffsiteReplicationJob,
    request: OffsiteFailoverRequest,
    config: Seq<char>,
    existing: Seq<Seq<char>>,
) -> Result<Seq<char>, Seq<char>> {
    if failover_start(job, request) is Err {
        Err(failover_start(job, request)->Err_0)
    } else {
        match parsed_config(config, job.vmid as nat) {
            Err(e) => Err(e),
            Ok(parsed) => match resolved(job.target_dataset@, request.snapshot@, existing) {
                Err(e) => Err(e),
                Ok(target_snapshot) => failover_script(
                    job,
                    request,
                    parsed,
                    storage_id(job.id@),
                    lineage_prefix(job.target_dataset@, target_snapshot),
                ),
            },
        }
    }
}

/// The script of a failover, given the stored configuration and what exists on the target.
pub fn execute_failover(
    job: &OffsiteReplicationJob,
    request: &OffsiteFailoverRequest,
    stored_config: &str,
    existing: &Vec<String>,
) -> (r: Result<String, Error>)
    ensures
        text_outcome(r) == failover_of(*job, *request, stored_config@, texts(existing@)),
{
    if let Err(e) = begin_failover(job, request) {
        return Err(e);
    }
    let parsed: ParsedQemuConfig = match parse_qemu_config(stored_config, job.vmid) {
        Ok(parsed) => parsed,
        Err(e) => {
            return Err(e);
        },
    };
    let target_storage_id = recovery_storage_id(job.id.as_str());
    let target_snapshot = match resolve_selected_target_snapshot(
        job,
        request.snapshot.as_str(),
        existing,
    ) {
        Ok(found) => found,
        Err(e) => {
            return Err(e);
        },
    };
    let lineage = selected_lineage_prefix_from_target_snapshot(job, target_snapshot.as_str());
    build_qemu_failover_script(job, request, &parsed, target_storage_id.as_str(), &lineage)
}

// ---------------------------------------------------------------------------------------------
// What is kept of a job beside its configuration
// ---------------------------------------------------------------------------------------------

/// The state file of a job: the worker type and the job's ID.
#[derive(Debug, PartialEq)]
pub struct StateFile {
    /// The worker type.
    pub worker_type: String,
    /// The job's ID.
    pub job_id: String,
}

/// What is kept of a job on the managing host.
#[derive(Debug, PartialEq)]
pub struct LocalArtifacts {
    /// The state file, which is removed first.
    pub state: StateFile,
    /// The history file, which is removed next.
    pub history_file: String,
    /// The directory of the stored configurations, which is removed last.
    pub config_dir: String,
}

/// The state file that a new job needs.
pub fn ensure_job_state(job_id: &str) -> (r: StateFile)
    ensures
        r.worker_type@ == WORKER_TYPE@,
        r.job_id@ == job_id@,
{
    StateFile { worker_type: WORKER_TYPE.to_owned(), job_id: job_id.to_owned() }
}

/// The state file to remove with a job.
pub fn remove_job_state(job_id: &str) -> (r: StateFile)
    ensures
        r.worker_type@ == WORKER_TYPE@,
        r.job_id@ == job_id@,
{
    StateFile { worker_type: WORKER_TYPE.to_owned(), job_id: job_id.to_owned() }
}

/// All that is to be removed with a job, in order.
pub fn remove_job_local_artifacts(state_dir: &str, job_id: &str) -> (r: LocalArtifacts)
    ensures
        r.state.worker_type@ == WORKER_TYPE@,
        r.state.job_id@ == job_id@,
        r.history_file@ == history_file(state_dir@, job_id@),
        r.config_dir@ == config_dir(state_dir@, job_id@),
{
    LocalArtifacts {
        state: remove_job_state(job_id),
        history_file: history_path(state_dir, job_id),
        config_dir: recovery_config_dir_for_job(state_dir, job_id),
    }
}

// ---------------------------------------------------------------------------------------------
// Laws
// ---------------------------------------------------------------------------------------------

/// A run is recorded as a success exactly where its script succeeded, its output names a snapshot
/// and the guest's configuration was stored; so every recorded success can be recovered from.
pub proof fn law_recorded_success_has_snapshot_and_config(
    job: OffsiteReplicationJob,
    success: bool,
    code: Option<i32>,
    output: Seq<char>,
    duration: int,
    endtime: int,
    sizes: Seq<Option<u64>>,
    stored: Result<(), Seq<char>>,
)
    ensures
        ({
            let observed = annotated(
                observed_run(job, success, code, output, duration, endtime),
                sizes,
            );
            let closed = closed_run(observed, stored);
            &&& closed.success <==> success && observed.snapshot is Some && stored is Ok
            &&& closed.success <==> run_state(closed) is Done
            &&& closed.success <==> closed.error is None
        }),
{
    crate::history::law_annotating_keeps_what_was_observed(
        observed_run(job, success, code, output, duration, endtime),
        sizes,
    );
}

/// A run's times fit together.
pub proof fn law_run_times_fit(
    job: OffsiteReplicationJob,
    success: bool,
    code: Option<i32>,
    output: Seq<char>,
    duration: int,
    endtime: int,
    sizes: Seq<Option<u64>>,
    stored: Result<(), Seq<char>>,
)
    ensures
        ({
            let observed = annotated(
                observed_run(job, success, code, output, duration, endtime),
                sizes,
            );
            let closed = closed_run(observed, stored);
            &&& closed.duration >= 0
            &&& closed.start_time + closed.duration == closed.end_time
            &&& closed.end_time == endtime
        }),
{
    crate::history::law_annotating_keeps_what_was_observed(
        observed_run(job, success, code, output, duration, endtime),
        sizes,
    );
}

/// Every failover that gets as far as its script has one: where the job, the request and the stored
/// configuration are in order and one of the snapshot's places exists, the script is built.
pub proof fn law_failover_in_order_has_a_script(
    job: OffsiteReplicationJob,
    request: OffsiteFailoverRequest,
    config: Seq<char>,
    existing: Seq<Seq<char>>,
)
    requires
        failover_start(job, request) is Ok,
        parsed_config(config, job.vmid as nat) is Ok,
        resolved(job.target_dataset@, request.snapshot@, existing) is Ok,
    ensures
        failover_of(job, request, config, existing) is Ok,
{
    let target_snapshot = resolved(job.target_dataset@, request.snapshot@, existing)->Ok_0;
    crate::failover::law_script_can_be_built_for_read_configuration(
        job,
        request,
        config,
        storage_id(job.id@),
        lineage_prefix(job.target_dataset@, target_snapshot),
    );
}

/// Every listed recovery point can be promoted, however it was transferred, as long as it is there:
/// where the job and the request are in order and the stored configuration can be read, the script
/// is built.
pub proof fn law_listed_point_can_be_promoted(
    job: OffsiteReplicationJob,
    request: OffsiteFailoverRequest,
    config: Seq<char>,
    runs: Seq<OffsiteReplicationRun>,
    configs: Seq<bool>,
    existing: Seq<Seq<char>>,
)
    requires
        failover_start(job, request) is Ok,
        parsed_config(config, job.vmid as nat) is Ok,
        crate::recovery::has_point(
            crate::recovery::points_of(
                job.target_dataset@,
                runs,
                configs,
                existing,
                runs.len() as int,
            ),
            request.snapshot@,
        ),
    ensures
        failover_of(job, request, config, existing) is Ok,
{
    crate::recovery::law_listed_point_is_in_place(
        job.target_dataset@,
        runs,
        configs,
        existing,
        runs.len() as int,
        request.snapshot@,
    );
    law_failover_in_order_has_a_script(job, request, config, existing);
}

/// A run is recorded with the time that it took, and a clock that ran backwards counts as none.
pub proof fn law_run_lasts_as_long_as_it_took(
    job: OffsiteReplicationJob,
    success: bool,
    code: Option<i32>,
    output: Seq<char>,
    duration: int,
    endtime: int,
    sizes: Seq<Option<u64>>,
    stored: Result<(), Seq<char>>,
)
    ensures
        ({
            let observed = annotated(
                observed_run(job, success, code, output, duration, endtime),
                sizes,
            );
            let closed = closed_run(observed, stored);
            &&& duration >= 0 ==> closed.duration == duration && closed.start_time == endtime
                - duration
            &&& duration < 0 ==> closed.duration == 0 && closed.start_time == endtime
        }),
{
    crate::history::law_annotating_keeps_what_was_observed(
        observed_run(job, success, code, output, duration, endtime),
        sizes,
    );
}

/// The recorded text starts with the output and ends with the line of options; where there was
/// output, the options start a line of their own.
pub proof fn law_recorded_text_holds_output_and_options(
    job: OffsiteReplicationJob,
    output: Seq<char>,
)
    ensures
        has_prefix(run_text(job, output), output),
        has_suffix(run_text(job, output), option_summary(job) + "\n"@),
        !is_blank(output) ==> run_text(job, output) == output + "\n"@ + option_summary(job)
            + "\n"@,
        is_blank(output) ==> run_text(job, output) == output + option_summary(job) + "\n"@,
{
    reveal_strlit("\n");
    let text = run_text(job, output);
    let summary = option_summary(job);
    let end = summary + "\n"@;
    assert(text.take(output.len() as int) =~= output);
    assert(text.skip(text.len() - end.len()) =~= end);
    assert(output.push('\n') =~= output + "\n"@);
}

/// A run whose script failed is recorded with the script's exit status, or the word that a signal
/// ended it, and stays as it was observed.
pub proof fn law_failed_script_is_told(
    job: OffsiteReplicationJob,
    code: Option<i32>,
    output: Seq<char>,
    duration: int,
    endtime: int,
    sizes: Seq<Option<u64>>,
    stored: Result<(), Seq<char>>,
)
    ensures
        ({
            let observed = annotated(
                observed_run(job, false, code, output, duration, endtime),
                sizes,
            );
            let closed = closed_run(observed, stored);
            let error = "ssh/pve-zsync exited with status "@ + (match code {
                Some(code) => signed_decimal(code as int),
                None => "signal"@,
            });
            &&& closed == observed
            &&& closed.error == Some(error)
            &&& run_state(closed) == TaskView::Failed(endtime, error)
            &&& closed.output == run_text(job, output)
            &&& run_log(run_text(job, output), closed) == run_text(job, output)
        }),
{
    crate::history::law_annotating_keeps_what_was_observed(
        observed_run(job, false, code, output, duration, endtime),
        sizes,
    );
}

/// A run whose script succeeded stays a success where its recovery point is complete; it is left as
/// it was observed, and the log names the recovery point.
pub proof fn law_complete_run_is_a_success(
    job: OffsiteReplicationJob,
    code: Option<i32>,
    output: Seq<char>,
    duration: int,
    endtime: int,
    sizes: Seq<Option<u64>>,
)
    requires
        annotated(
            observed_run(job, true, code, output, duration, endtime),
            sizes,
        ).snapshot is Some,
    ensures
        ({
            let observed = annotated(
                observed_run(job, true, code, output, duration, endtime),
                sizes,
            );
            let closed = closed_run(observed, Ok(()));
            &&& closed == observed
            &&& run_state(closed) == TaskView::Done(endtime)
            &&& run_log(run_text(job, output), closed) == run_text(job, output)
                + "captured guest config for recovery point "@ + closed.snapshot->0 + "\n"@
        }),
{
    crate::history::law_annotating_keeps_what_was_observed(
        observed_run(job, true, code, output, duration, endtime),
        sizes,
    );
}

/// A run without a complete recovery point has failed although its script succeeded: the reason is
/// its error, and a warning with it is added to the recorded text. Nothing else of it changes.
pub proof fn law_incomplete_run_has_failed(
    job: OffsiteReplicationJob,
    code: Option<i32>,
    output: Seq<char>,
    duration: int,
    endtime: int,
    sizes: Seq<Option<u64>>,
    stored: Result<(), Seq<char>>,
)
    requires
        stored is Err || annotated(
            observed_run(job, true, code, output, duration, endtime),
            sizes,
        ).snapshot is None,
    ensures
        ({
            let observed = annotated(
                observed_run(job, true, code, output, duration, endtime),
                sizes,
            );
            let closed = closed_run(observed, stored);
            let reason = if observed.snapshot is None {
                "replication succeeded but no recovery snapshot was recorded"@
            } else {
                stored->Err_0
            };
            let error = "replication completed, but persisting recovery config failed: "@ + reason;
            &&& !closed.success
            &&& closed.error == Some(error)
            &&& run_state(closed) == TaskView::Failed(endtime, error)
            &&& has_prefix(closed.output, run_text(job, output))
            &&& has_suffix(closed.output, "WARNING: "@ + error + "\n"@)
            &&& closed == (RunView {
                success: false,
                error: closed.error,
                output: closed.output,
                ..observed
            })
            &&& run_log(run_text(job, output), closed) == run_text(job, output)
        }),
{
    crate::history::law_annotating_keeps_what_was_observed(
        observed_run(job, true, code, output, duration, endtime),
        sizes,
    );
    let observed = annotated(observed_run(job, true, code, output, duration, endtime), sizes);
    let closed = closed_run(observed, stored);
    let reason = if observed.snapshot is None {
        "replication succeeded but no recovery snapshot was recorded"@
    } else {
        stored->Err_0
    };
    let error = "replication completed, but persisting recovery config failed: "@ + reason;
    let end = "WARNING: "@ + error + "\n"@;
    assert(closed.output.take(observed.output.len() as int) =~= observed.output);
    assert(closed.output.skip(closed.output.len() - end.len()) =~= end);
}

/// A run that failed before its script was run is recorded at the time of the failure, with the
/// failure's message and the job's options, and without a recovery point.
pub proof fn law_early_failure_is_recorded(
    job: OffsiteReplicationJob,
    endtime: int,
    message: Seq<char>,
)
    ensures
        ({
            let run = failed_run_view(job, endtime, message);
            &&& run.start_time == endtime && run.end_time == endtime && run.duration == 0
            &&& !run.success
            &&& run.error == Some(message)
            &&& run.snapshot is None && run.source_snapshot is None && run.transfer_mode is None
            &&& run.estimated_bytes is None && run.transferred_bytes is None
            &&& run.output == option_summary(job)
        }),
{
}

/// A failover is begun exactly for a virtual machine whose job can be run, with an accepted snapshot
/// and, where a name is requested, an accepted name. The first of these that does not hold is told.
pub proof fn law_failovers_that_are_begun(
    job: OffsiteReplicationJob,
    request: OffsiteFailoverRequest,
)
    ensures
        failover_start(job, request) is Ok <==> (runtime_verdict(job) is Ok && snapshot_verdict(
            request.snapshot@,
        ) is Ok && (request.recovered_name matches Some(name) ==> guest_name_verdict(name@) is Ok)
            && job.guest_type == GuestType::Qemu),
        runtime_verdict(job) is Err ==> failover_start(job, request) == runtime_verdict(job),
        runtime_verdict(job) is Ok && snapshot_verdict(request.snapshot@) is Err ==> failover_start(
            job,
            request,
        ) == snapshot_verdict(request.snapshot@),
        failover_verdict(job, request) is Ok && job.guest_type == GuestType::Lxc ==> failover_start(
            job,
            request,
        ) == Err::<(), Seq<char>>("failover is currently implemented only for QEMU guests"@),
{
}

/// The target is asked for a snapshot at each of its places, in order.
pub proof fn law_target_is_asked_at_every_place(places: Seq<Seq<char>>, i: int)
    requires
        0 <= i < places.len(),
    ensures
        availability_scripts_of(places).len() == places.len(),
        availability_scripts_of(places)[i] == "zfs list -H -o name "@ + escaped(places[i]),
{
}

/// A failover needs its snapshot: where none of the places exists, there is no script.
pub proof fn law_missing_snapshot_stops_the_failover(
    job: OffsiteReplicationJob,
    request: OffsiteFailoverRequest,
    config: Seq<char>,
    existing: Seq<Seq<char>>,
)
    requires
        candidates_of(job.target_dataset@, request.snapshot@) matches Ok(c) && forall|x: Seq<char>|
            #[trigger] c.contains(x) ==> !existing.contains(x),
    ensures
        failover_of(job, request, config, existing) is Err,
{
    crate::snapshots::law_resolved_snapshot_exists(
        job.target_dataset@,
        request.snapshot@,
        existing,
    );
    let c = candidates_of(job.target_dataset@, request.snapshot@)->Ok_0;
    if let Ok(found) = resolved(job.target_dataset@, request.snapshot@, existing) {
        assert(c.contains(found));
    }
}

/// The disks are received from the lineage of the place at which the selected snapshot was found,
/// and the recovered guest's volumes stand on the job's own storage.
pub proof fn law_failover_follows_the_selected_snapshot(
    job: OffsiteReplicationJob,
    request: OffsiteFailoverRequest,
    config: Seq<char>,
    existing: Seq<Seq<char>>,
    k: int,
)
    requires
        failover_start(job, request) is Ok,
        parsed_config(config, job.vmid as nat) is Ok,
        candidates_of(job.target_dataset@, request.snapshot@) is Ok,
        0 <= k < candidates_of(job.target_dataset@, request.snapshot@)->Ok_0.len(),
        existing.contains(candidates_of(job.target_dataset@, request.snapshot@)->Ok_0[k]),
        forall|i: int|
            0 <= i < k ==> !existing.contains(
                #[trigger] candidates_of(job.target_dataset@, request.snapshot@)->Ok_0[i],
            ),
    ensures
        failover_of(job, request, config, existing) == failover_script(
            job,
            request,
            parsed_config(config, job.vmid as nat)->Ok_0,
            storage_id(job.id@),
            lineage_prefix(
                job.target_dataset@,
                candidates_of(job.target_dataset@, request.snapshot@)->Ok_0[k],
            ),
        ),
{
    crate::snapshots::law_first_existing_place_is_resolved(
        job.target_dataset@,
        request.snapshot@,
        existing,
        k,
    );
}

/// The places that a failover asks about are those of its snapshot; it asks about none before the job,
/// the request and the stored configuration were found in order.
pub proof fn law_failover_asks_about_its_snapshot(
    job: OffsiteReplicationJob,
    request: OffsiteFailoverRequest,
    config: Seq<char>,
)
    ensures
        failover_start(job, request) matches Err(why) ==> failover_places_of(job, request, config)
            == Err::<Seq<Seq<char>>, Seq<char>>(why),
        failover_start(job, request) is Ok ==> (parsed_config(config, job.vmid as nat) matches Err(
            why,
        ) ==> failover_places_of(job, request, config) == Err::<Seq<Seq<char>>, Seq<char>>(why)),
        failover_start(job, request) is Ok && parsed_config(config, job.vmid as nat) is Ok
            ==> failover_places_of(job, request, config) == candidates_of(
            job.target_dataset@,
            request.snapshot@,
        ),
{
}

} // verus!
