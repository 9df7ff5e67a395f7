//! The data that off-site replication works on.
use crate::text::{clone_opt, opt_text};
use vstd::prelude::*;

verus! {

/// Why an operation was refused, in words for the user.
#[derive(Debug)]
pub struct Error {
    /// The message.
    pub message: String,
}

impl View for Error {
    type V = Seq<char>;

    open spec fn view(&self) -> Seq<char> {
        self.message@
    }
}

impl Error {
    /// An error with the given message.
    pub fn new(message: &str) -> (e: Error)
        ensures
            e@ == message@,
    {
        Error { message: message.to_owned() }
    }

    /// The message made of three parts, most often a text in quotes.
    pub fn of3(a: &str, b: &str, c: &str) -> (e: Error)
        ensures
            e@ == a@ + b@ + c@,
    {
        let mut message = a.to_owned();
        message.append(b);
        message.append(c);
        Error { message }
    }

    /// The message made of five parts.
    pub fn of5(a: &str, b: &str, c: &str, d: &str, x: &str) -> (e: Error)
        ensures
            e@ == a@ + b@ + c@ + d@ + x@,
    {
        let mut message = a.to_owned();
        message.append(b);
        message.append(c);
        message.append(d);
        message.append(x);
        Error { message }
    }
}

/// A result with the message in the place of the error.
pub open spec fn outcome<T>(r: Result<T, Error>) -> Result<T, Seq<char>> {
    match r {
        Ok(v) => Ok(v),
        Err(e) => Err(e@),
    }
}

/// A result with texts in the place of the string and of the error.
pub open spec fn text_outcome(r: Result<String, Error>) -> Result<Seq<char>, Seq<char>> {
    match r {
        Ok(s) => Ok(s@),
        Err(e) => Err(e@),
    }
}

/// Type of a guest.
#[derive(Clone, Copy, Debug, PartialEq, Eq, Structural)]
pub enum GuestType {
    /// A virtual machine.
    Qemu,
    /// A container.
    Lxc,
}

/// Replication stream mode used for ZFS send/receive.
#[derive(Clone, Copy, Debug, Default, PartialEq, Eq, Structural)]
pub enum OffsiteZfsStreamMode {
    /// Automatically choose raw mode when source datasets are encrypted.
    #[default]
    Auto,
    /// Always use plain stream mode.
    Plain,
    /// Always use raw stream mode (`zfs send -w`) for encrypted datasets.
    Raw,
}

/// The name of a stream mode.
pub open spec fn stream_mode_name(mode: OffsiteZfsStreamMode) -> Seq<char> {
    match mode {
        OffsiteZfsStreamMode::Auto => "auto"@,
        OffsiteZfsStreamMode::Plain => "plain"@,
        OffsiteZfsStreamMode::Raw => "raw"@,
    }
}

impl OffsiteZfsStreamMode {
    /// Returns kebab-case string representation.
    pub fn as_str(self) -> (r: &'static str)
        ensures
            r@ == stream_mode_name(self),
    {
        match self {
            OffsiteZfsStreamMode::Auto => "auto",
            OffsiteZfsStreamMode::Plain => "plain",
            OffsiteZfsStreamMode::Raw => "raw",
        }
    }
}

/// Runs kept in the history of a job that does not say how many.
pub const DEFAULT_OFFSITE_REPLICATION_HISTORY_LIMIT: u64 = 200;

/// The history limit of a job that does not give one.
pub fn default_offsite_history_limit() -> (r: u64)
    ensures
        r == DEFAULT_OFFSITE_REPLICATION_HISTORY_LIMIT,
{
    DEFAULT_OFFSITE_REPLICATION_HISTORY_LIMIT
}

/// The stream mode of a job that does not give one.
pub fn default_zfs_stream_mode() -> (r: OffsiteZfsStreamMode)
    ensures
        r == OffsiteZfsStreamMode::Auto,
{
    OffsiteZfsStreamMode::Auto
}

/// Whether an SSH preparation that does not say so installs the public key.
pub fn default_install_authorized_keys() -> (r: bool)
    ensures
        r,
{
    true
}

/// Off-site replication job definition.
#[derive(Debug, PartialEq)]
pub struct OffsiteReplicationJob {
    /// Job ID.
    pub id: String,
    /// Source PVE remote.
    pub source_remote: String,
    /// Source node name.
    pub source_node: String,
    /// Guest type.
    pub guest_type: GuestType,
    /// Guest ID.
    pub vmid: u32,
    /// Target PVE remote.
    pub target_remote: String,
    /// Target node name.
    pub target_node: String,
    /// Target ZFS dataset (pool/path) on the target node.
    pub target_dataset: String,
    /// Schedule in calendar-event format.
    pub schedule: String,
    /// Maximum number of snapshots kept by pve-zsync.
    pub max_snapshots: u64,
    /// Maximum number of recorded runs retained for this job.
    pub history_limit: u64,
    /// Optional bandwidth limit in MiB/s.
    pub rate_limit_mib: Option<u64>,
    /// ZFS stream mode policy (`auto`, `plain`, `raw`).
    pub zfs_stream_mode: OffsiteZfsStreamMode,
    /// SSH user on source node.
    pub source_user: String,
    /// SSH user on target node.
    pub target_user: String,
    /// SSH private key path on the managing host used to execute remote commands.
    pub ssh_private_key: String,
    /// Try qemu guest-agent freeze/thaw around sync for QEMU guests.
    pub qga_fsfreeze: bool,
    /// Optional free-form comment.
    pub comment: Option<String>,
    /// Disable this job.
    pub disable: bool,
}

impl Clone for OffsiteReplicationJob {
    fn clone(&self) -> (r: Self)
        ensures
            r == *self,
    {
        OffsiteReplicationJob {
            id: self.id.clone(),
            source_remote: self.source_remote.clone(),
            source_node: self.source_node.clone(),
            guest_type: self.guest_type,
            vmid: self.vmid,
            target_remote: self.target_remote.clone(),
            target_node: self.target_node.clone(),
            target_dataset: self.target_dataset.clone(),
            schedule: self.schedule.clone(),
            max_snapshots: self.max_snapshots,
            history_limit: self.history_limit,
            rate_limit_mib: self.rate_limit_mib,
            zfs_stream_mode: self.zfs_stream_mode,
            source_user: self.source_user.clone(),
            target_user: self.target_user.clone(),
            ssh_private_key: self.ssh_private_key.clone(),
            qga_fsfreeze: self.qga_fsfreeze,
            comment: clone_opt(&self.comment),
            disable: self.disable,
        }
    }
}

/// Updater payload for replacing an off-site replication job by path ID.
#[derive(Debug, PartialEq)]
pub struct OffsiteReplicationJobUpdater {
    /// Source PVE remote.
    pub source_remote: String,
    /// Source node name.
    pub source_node: String,
    /// Guest type.
    pub guest_type: GuestType,
    /// Guest ID.
    pub vmid: u32,
    /// Target PVE remote.
    pub target_remote: String,
    /// Target node name.
    pub target_node: String,
    /// Target ZFS dataset (pool/path) on the target node.
    pub target_dataset: String,
    /// Schedule in calendar-event format.
    pub schedule: String,
    /// Maximum number of snapshots kept by pve-zsync.
    pub max_snapshots: u64,
    /// Maximum number of recorded runs retained for this job.
    pub history_limit: u64,
    /// Optional bandwidth limit in MiB/s.
    pub rate_limit_mib: Option<u64>,
    /// ZFS stream mode policy (`auto`, `plain`, `raw`).
    pub zfs_stream_mode: OffsiteZfsStreamMode,
    /// SSH user on source node.
    pub source_user: String,
    /// SSH user on target node.
    pub target_user: String,
    /// SSH private key path on the managing host used to execute remote commands.
    pub ssh_private_key: String,
    /// Try qemu guest-agent freeze/thaw around sync for QEMU guests.
    pub qga_fsfreeze: bool,
    /// Optional free-form comment.
    pub comment: Option<String>,
    /// Disable this job.
    pub disable: bool,
}

/// Runtime status for an off-site replication job.
#[derive(Debug, PartialEq)]
pub struct OffsiteReplicationRuntimeStatus {
    /// Whether the job currently has an active worker task.
    pub running: bool,
    /// Last start time (epoch seconds), if known.
    pub last_run: Option<i64>,
    /// Last successful completion time (epoch seconds), if known.
    pub last_success: Option<i64>,
    /// Last run duration in seconds, if known.
    pub last_duration: Option<i64>,
    /// Last transferred size in bytes, if known.
    pub last_transfer_bytes: Option<u64>,
    /// Last replicated snapshot, if known.
    pub last_snapshot: Option<String>,
    /// Last error message, if any.
    pub last_error: Option<String>,
    /// Next scheduled run time (epoch seconds), if known.
    pub next_run: Option<i64>,
    /// Number of recorded runs.
    pub run_count: Option<u64>,
    /// Number of recorded failed runs.
    pub failure_count: Option<u64>,
}

impl Default for OffsiteReplicationRuntimeStatus {
    fn default() -> (r: Self)
        ensures
            r == blank_status(),
    {
        OffsiteReplicationRuntimeStatus {
            running: false,
            last_run: None,
            last_success: None,
            last_duration: None,
            last_transfer_bytes: None,
            last_snapshot: None,
            last_error: None,
            next_run: None,
            run_count: None,
            failure_count: None,
        }
    }
}

impl Clone for OffsiteReplicationRuntimeStatus {
    fn clone(&self) -> (r: Self)
        ensures
            r == *self,
    {
        OffsiteReplicationRuntimeStatus {
            running: self.running,
            last_run: self.last_run,
            last_success: self.last_success,
            last_duration: self.last_duration,
            last_transfer_bytes: self.last_transfer_bytes,
            last_snapshot: clone_opt(&self.last_snapshot),
            last_error: clone_opt(&self.last_error),
            next_run: self.next_run,
            run_count: self.run_count,
            failure_count: self.failure_count,
        }
    }
}

/// The status of a job of which nothing is known.
pub open spec fn blank_status() -> OffsiteReplicationRuntimeStatus {
    OffsiteReplicationRuntimeStatus {
        running: false,
        last_run: None,
        last_success: None,
        last_duration: None,
        last_transfer_bytes: None,
        last_snapshot: None,
        last_error: None,
        next_run: None,
        run_count: None,
        failure_count: None,
    }
}

/// Job plus runtime status.
#[derive(Debug, PartialEq)]
pub struct OffsiteReplicationJobStatus {
    /// Job configuration.
    pub job: OffsiteReplicationJob,
    /// Runtime status.
    pub status: OffsiteReplicationRuntimeStatus,
}

impl Clone for OffsiteReplicationJobStatus {
    fn clone(&self) -> (r: Self)
        ensures
            r == *self,
    {
        OffsiteReplicationJobStatus { job: self.job.clone(), status: self.status.clone() }
    }
}

/// A single replication run record.
#[derive(Debug, PartialEq)]
pub struct OffsiteReplicationRun {
    /// Start time (epoch seconds).
    pub start_time: i64,
    /// End time (epoch seconds).
    pub end_time: i64,
    /// Total duration in seconds.
    pub duration: i64,
    /// Whether the run completed successfully.
    pub success: bool,
    /// Parsed transfer mode (`full` or `incremental`), if known.
    pub transfer_mode: Option<String>,
    /// Source snapshot used for the transfer, if known.
    pub source_snapshot: Option<String>,
    /// Replicated snapshot/recovery point, if known.
    pub snapshot: Option<String>,
    /// Estimated transfer size in bytes, if known.
    pub estimated_bytes: Option<u64>,
    /// Actual transferred size in bytes, if known.
    pub transferred_bytes: Option<u64>,
    /// Optional error text.
    pub error: Option<String>,
    /// Combined output from the executed command.
    pub output: String,
}

/// What a run record says.
pub struct RunView {
    pub start_time: int,
    pub end_time: int,
    pub duration: int,
    pub success: bool,
    pub transfer_mode: Option<Seq<char>>,
    pub source_snapshot: Option<Seq<char>>,
    pub snapshot: Option<Seq<char>>,
    pub estimated_bytes: Option<u64>,
    pub transferred_bytes: Option<u64>,
    pub error: Option<Seq<char>>,
    pub output: Seq<char>,
}

impl View for OffsiteReplicationRun {
    type V = RunView;

    open spec fn view(&self) -> RunView {
        RunView {
            start_time: self.start_time as int,
            end_time: self.end_time as int,
            duration: self.duration as int,
            success: self.success,
            transfer_mode: opt_text(self.transfer_mode),
            source_snapshot: opt_text(self.source_snapshot),
            snapshot: opt_text(self.snapshot),
            estimated_bytes: self.estimated_bytes,
            transferred_bytes: self.transferred_bytes,
            error: opt_text(self.error),
            output: self.output@,
        }
    }
}

impl Clone for OffsiteReplicationRun {
    fn clone(&self) -> (r: Self)
        ensures
            r == *self,
    {
        OffsiteReplicationRun {
            start_time: self.start_time,
            end_time: self.end_time,
            duration: self.duration,
            success: self.success,
            transfer_mode: clone_opt(&self.transfer_mode),
            source_snapshot: clone_opt(&self.source_snapshot),
            snapshot: clone_opt(&self.snapshot),
            estimated_bytes: self.estimated_bytes,
            transferred_bytes: self.transferred_bytes,
            error: clone_opt(&self.error),
            output: self.output.clone(),
        }
    }
}

/// A recovery point derived from a successful off-site replication run.
#[derive(Debug, PartialEq)]
pub struct OffsiteRecoveryPoint {
    /// Recovery snapshot identifier as recorded by the replication job.
    pub snapshot: String,
    /// Completion time of the successful replication run.
    pub end_time: i64,
    /// Parsed transfer mode (`full` or `incremental`), if known.
    pub transfer_mode: Option<String>,
    /// Estimated transfer size in bytes, if known.
    pub estimated_bytes: Option<u64>,
    /// Actual transferred size in bytes, if known.
    pub transferred_bytes: Option<u64>,
}

impl Clone for OffsiteRecoveryPoint {
    fn clone(&self) -> (r: Self)
        ensures
            r == *self,
    {
        OffsiteRecoveryPoint {
            snapshot: self.snapshot.clone(),
            end_time: self.end_time,
            transfer_mode: clone_opt(&self.transfer_mode),
            estimated_bytes: self.estimated_bytes,
            transferred_bytes: self.transferred_bytes,
        }
    }
}

/// Parameters for promoting a replicated recovery point on the target remote.
#[derive(Debug, Default, PartialEq)]
pub struct OffsiteFailoverRequest {
    /// Recovery snapshot identifier to promote.
    pub snapshot: String,
    /// VMID to create on the recovery target.
    pub recovery_vmid: u32,
    /// Optional recovered guest name override.
    pub recovered_name: Option<String>,
    /// Start the guest after registration on the target.
    pub start_guest: bool,
}

/// Parameters for moving a recovered guest back to the source.
#[derive(Debug, Default, PartialEq)]
pub struct OffsiteFailbackRequest {
    /// VMID of the recovered guest on the target.
    pub recovery_vmid: u32,
    /// VMID to restore on the source.
    pub restore_vmid: u32,
    /// Optional guest name override.
    pub recovered_name: Option<String>,
}

/// Parameters for SSH setup preparation for off-site replication jobs.
#[derive(Debug, Default, PartialEq)]
pub struct OffsiteSshPrepareRequest {
    /// Source PVE remote.
    pub source_remote: String,
    /// Source node name.
    pub source_node: String,
    /// Source guest VMID used for permission checks.
    pub vmid: u32,
    /// Target PVE remote.
    pub target_remote: String,
    /// Target node name.
    pub target_node: String,
    /// SSH user on source node.
    pub source_user: String,
    /// SSH user on target node.
    pub target_user: String,
    /// SSH private key path on the managing host.
    pub ssh_private_key: String,
    /// Install/verify public key in authorized_keys on both nodes.
    pub install_authorized_keys: bool,
    /// Copy private key material to source node for source->target pve-zsync hop.
    pub copy_key_to_source: bool,
}

/// One step result for SSH setup preparation.
#[derive(Debug, Default, PartialEq)]
pub struct OffsiteSshPrepareStep {
    /// Stable machine-readable status code.
    pub code: Option<String>,
    /// Optional field hint for UI highlighting.
    pub field: Option<String>,
    /// Step name.
    pub name: String,
    /// Whether this step succeeded.
    pub ok: bool,
    /// Short status message.
    pub message: String,
    /// Optional remediation guidance.
    pub remediation: Option<String>,
}

/// What a preparation step says.
pub struct StepView {
    pub code: Option<Seq<char>>,
    pub field: Option<Seq<char>>,
    pub name: Seq<char>,
    pub ok: bool,
    pub message: Seq<char>,
    pub remediation: Option<Seq<char>>,
}

impl View for OffsiteSshPrepareStep {
    type V = StepView;

    open spec fn view(&self) -> StepView {
        StepView {
            code: opt_text(self.code),
            field: opt_text(self.field),
            name: self.name@,
            ok: self.ok,
            message: self.message@,
            remediation: opt_text(self.remediation),
        }
    }
}

/// What the steps say.
pub open spec fn steps_view(v: Seq<OffsiteSshPrepareStep>) -> Seq<StepView> {
    Seq::new(v.len(), |i: int| v[i]@)
}

/// Overall SSH setup preparation result.
#[derive(Debug, Default, PartialEq)]
pub struct OffsiteSshPrepareResult {
    /// Whether all requested steps passed.
    pub ok: bool,
    /// Resolved source host.
    pub source_host: String,
    /// Resolved target host.
    pub target_host: String,
    /// Step-by-step execution results.
    pub steps: Vec<OffsiteSshPrepareStep>,
}

/// Parameters for generating an SSH keypair on the managing host.
#[derive(Debug, Default, PartialEq)]
pub struct OffsiteSshKeygenRequest {
    /// Source PVE remote for privilege check.
    pub source_remote: String,
    /// Source guest VMID used for permission checks.
    pub vmid: u32,
    /// Target PVE remote for privilege check.
    pub target_remote: String,
    /// SSH private key path to create on the managing host.
    pub ssh_private_key: String,
    /// Whether an existing keypair may be replaced.
    pub overwrite: bool,
}

/// Result for SSH key generation request.
#[derive(Debug, Default, PartialEq)]
pub struct OffsiteSshKeygenResult {
    /// Whether key generation finished successfully.
    pub ok: bool,
    /// Result status code: created, overwritten, exists, or failed.
    pub status: String,
    /// Effective SSH private key path on the managing host.
    pub ssh_private_key: String,
    /// Optional fingerprint of resulting public key.
    pub fingerprint: Option<String>,
    /// User-facing status message.
    pub message: String,
}

/// Stored off-site replication configuration.
#[derive(Debug, Default, PartialEq)]
pub struct OffsiteReplicationConfig {
    /// Job list.
    pub jobs: Vec<OffsiteReplicationJob>,
}

} // verus!
