//! The configured jobs: who may see and change them, and how they are changed.
use crate::names::{
    dataset_verdict, guest_name_verdict, is_safe_id, key_path_verdict, runtime_verdict, safe_id,
    snapshot_verdict, ssh_user_verdict, verify_offsite_recovered_name, verify_offsite_snapshot,
    verify_offsite_ssh_key_path, verify_offsite_ssh_user, verify_offsite_target_dataset,
};
use crate::number::{decimal, to_decimal};
use crate::text::{same, texts};
use crate::types::{
    outcome, Error, OffsiteFailbackRequest, OffsiteFailoverRequest, OffsiteReplicationConfig,
    OffsiteReplicationJob, OffsiteReplicationJobUpdater, OffsiteSshKeygenRequest,
    OffsiteSshPrepareRequest,
};
use vstd::prelude::*;

verus! {

// ---------------------------------------------------------------------------------------------
// Checks
// ---------------------------------------------------------------------------------------------

/// What `validate_job` answers for a job whose schedule can be parsed, or not.
pub open spec fn job_verdict(job: OffsiteReplicationJob, schedule_valid: bool) -> Result<
    (),
    Seq<char>,
> {
    if !is_safe_id(job.id@) {
        Err("invalid job id '"@ + job.id@ + "'"@)
    } else if job.source_remote@ == job.target_remote@ {
        Err("source and target remotes must differ"@)
    } else if dataset_verdict(job.target_dataset@) is Err {
        dataset_verdict(job.target_dataset@)
    } else if ssh_user_verdict(job.source_user@) is Err {
        ssh_user_verdict(job.source_user@)
    } else if ssh_user_verdict(job.target_user@) is Err {
        ssh_user_verdict(job.target_user@)
    } else if key_path_verdict(job.ssh_private_key@) is Err {
        key_path_verdict(job.ssh_private_key@)
    } else if job.source_user@ != "root"@ {
        Err(
            "source_user must be 'root' for VMID-based replication (current pve-zsync backend requirement)"@,
        )
    } else if !schedule_valid {
        Err("invalid schedule '"@ + job.schedule@ + "'"@)
    } else if job.max_snapshots == 0 {
        Err("max snapshots must be greater than zero"@)
    } else if job.history_limit == 0 {
        Err("history limit must be greater than zero"@)
    } else {
        Ok(())
    }
}

/// Checks a job that is to be stored. `schedule_valid` tells whether its schedule can be parsed.
pub fn validate_job(job: &OffsiteReplicationJob, schedule_valid: bool) -> (r: Result<(), Error>)
    ensures
        outcome(r) == job_verdict(*job, schedule_valid),
{
    if !safe_id(job.id.as_str()) {
        return Err(Error::of3("invalid job id '", job.id.as_str(), "'"));
    }
    if same(job.source_remote.as_str(), job.target_remote.as_str()) {
        return Err(Error::new("source and target remotes must differ"));
    }
    if let Err(e) = verify_offsite_target_dataset(job.target_dataset.as_str()) {
        return Err(e);
    }
    if let Err(e) = verify_offsite_ssh_user(job.source_user.as_str()) {
        return Err(e);
    }
    if let Err(e) = verify_offsite_ssh_user(job.target_user.as_str()) {
        return Err(e);
    }
    if let Err(e) = verify_offsite_ssh_key_path(job.ssh_private_key.as_str()) {
        return Err(e);
    }
    if !same(job.source_user.as_str(), "root") {
        return Err(
            Error::new(
                "source_user must be 'root' for VMID-based replication (current pve-zsync backend requirement)",
            ),
        );
    }
    if !schedule_valid {
        return Err(Error::of3("invalid schedule '", job.schedule.as_str(), "'"));
    }
    if job.max_snapshots == 0 {
        return Err(Error::new("max snapshots must be greater than zero"));
    }
    if job.history_limit == 0 {
        return Err(Error::new("history limit must be greater than zero"));
    }
    Ok(())
}

/// What `validate_ssh_prepare_request` answers.
pub open spec fn prepare_request_verdict(request: OffsiteSshPrepareRequest) -> Result<(), Seq<char>> {
    if ssh_user_verdict(request.source_user@) is Err {
        ssh_user_verdict(request.source_user@)
    } else if ssh_user_verdict(request.target_user@) is Err {
        ssh_user_verdict(request.target_user@)
    } else {
        key_path_verdict(request.ssh_private_key@)
    }
}

/// Checks the request of an SSH preparation.
pub fn validate_ssh_prepare_request(request: &OffsiteSshPrepareRequest) -> (r: Result<(), Error>)
    ensures
        outcome(r) == prepare_request_verdict(*request),
{
    if let Err(e) = verify_offsite_ssh_user(request.source_user.as_str()) {
        return Err(e);
    }
    if let Err(e) = verify_offsite_ssh_user(request.target_user.as_str()) {
        return Err(e);
    }
    verify_offsite_ssh_key_path(request.ssh_private_key.as_str())
}

/// Checks the request of a key generation.
pub fn validate_ssh_keygen_request(request: &OffsiteSshKeygenRequest) -> (r: Result<(), Error>)
    ensures
        outcome(r) == key_path_verdict(request.ssh_private_key@),
{
    verify_offsite_ssh_key_path(request.ssh_private_key.as_str())
}

/// What the check of an optional guest's name answers.
pub open spec fn name_verdict(name: Option<String>) -> Result<(), Seq<char>> {
    match name {
        Some(name) => guest_name_verdict(name@),
        None => Ok(()),
    }
}

fn check_name(name: &Option<String>) -> (r: Result<(), Error>)
    ensures
        outcome(r) == name_verdict(*name),
{
    match name {
        Some(name) => verify_offsite_recovered_name(name.as_str()),
        None => Ok(()),
    }
}

/// Checks the request of a failover.
pub fn validate_failover_request(request: &OffsiteFailoverRequest) -> (r: Result<(), Error>)
    ensures
        outcome(r) == (if snapshot_verdict(request.snapshot@) is Err {
            snapshot_verdict(request.snapshot@)
        } else {
            name_verdict(request.recovered_name)
        }),
{
    if let Err(e) = verify_offsite_snapshot(request.snapshot.as_str()) {
        return Err(e);
    }
    check_name(&request.recovered_name)
}

/// Checks the request of a failback.
pub fn validate_failback_request(request: &OffsiteFailbackRequest) -> (r: Result<(), Error>)
    ensures
        outcome(r) == (if request.recovery_vmid == 0 {
            Err("recovery VMID must be greater than zero"@)
        } else if request.restore_vmid == 0 {
            Err("restore VMID must be greater than zero"@)
        } else {
            name_verdict(request.recovered_name)
        }),
{
    if request.recovery_vmid == 0 {
        return Err(Error::new("recovery VMID must be greater than zero"));
    }
    if request.restore_vmid == 0 {
        return Err(Error::new("restore VMID must be greater than zero"));
    }
    check_name(&request.recovered_name)
}

// ---------------------------------------------------------------------------------------------
// Privileges
// ---------------------------------------------------------------------------------------------

/// The access path of a guest on a remote.
pub open spec fn guest_path_of(remote: Seq<char>, vmid: u32) -> Seq<Seq<char>> {
    seq!["resource"@, remote, "guest"@, decimal(vmid as nat)]
}

/// The access path of a remote.
pub open spec fn remote_path_of(remote: Seq<char>) -> Seq<Seq<char>> {
    seq!["resource"@, remote]
}

/// The access path of the guest that a job or a request is about.
pub fn check_source_guest_privs_for(source_remote: &str, vmid: u32) -> (r: Vec<String>)
    ensures
        texts(r@) == guest_path_of(source_remote@, vmid),
{
    let mut path: Vec<String> = Vec::new();
    path.push("resource".to_owned());
    path.push(source_remote.to_owned());
    path.push("guest".to_owned());
    path.push(to_decimal(vmid as u64));
    assert(texts(path@) =~= guest_path_of(source_remote@, vmid));
    path
}

/// The access path of the job's guest.
pub fn check_source_guest_privs(job: &OffsiteReplicationJob) -> (r: Vec<String>)
    ensures
        texts(r@) == guest_path_of(job.source_remote@, job.vmid),
{
    check_source_guest_privs_for(job.source_remote.as_str(), job.vmid)
}

/// The access path of the target: replication and recovery touch datasets and guests there.
pub fn check_target_remote_privs(remote: &str) -> (r: Vec<String>)
    ensures
        texts(r@) == remote_path_of(remote@),
{
    let mut path: Vec<String> = Vec::new();
    path.push("resource".to_owned());
    path.push(remote.to_owned());
    assert(texts(path@) =~= remote_path_of(remote@));
    path
}

/// What access paths say.
pub open spec fn paths_view(paths: Seq<Vec<String>>) -> Seq<Seq<Seq<char>>> {
    Seq::new(paths.len(), |i: int| texts(paths[i]@))
}

/// The access paths of what a request is about: the guest on the source, then the target.
pub open spec fn request_access_of(source: Seq<char>, vmid: u32, target: Seq<char>) -> Seq<
    Seq<Seq<char>>,
> {
    seq![guest_path_of(source, vmid), remote_path_of(target)]
}

/// The access paths of what a job is about.
pub open spec fn job_access_of(job: OffsiteReplicationJob) -> Seq<Seq<Seq<char>>> {
    request_access_of(job.source_remote@, job.vmid, job.target_remote@)
}

/// The access paths of what the replacement of a job is about: the guests of the stored job and of
/// the new one, then their targets.
pub open spec fn update_access_of(stored: OffsiteReplicationJob, job: OffsiteReplicationJob) -> Seq<
    Seq<Seq<char>>,
> {
    seq![
        guest_path_of(stored.source_remote@, stored.vmid),
        guest_path_of(job.source_remote@, job.vmid),
        remote_path_of(stored.target_remote@),
        remote_path_of(job.target_remote@),
    ]
}

/// The access paths that are checked before anything is done for a request.
pub fn request_access(source_remote: &str, vmid: u32, target_remote: &str) -> (r: Vec<Vec<String>>)
    ensures
        paths_view(r@) == request_access_of(source_remote@, vmid, target_remote@),
{
    let mut paths: Vec<Vec<String>> = Vec::new();
    paths.push(check_source_guest_privs_for(source_remote, vmid));
    paths.push(check_target_remote_privs(target_remote));
    assert(paths_view(paths@) =~= request_access_of(source_remote@, vmid, target_remote@));
    paths
}

/// The access paths that are checked before anything is done with a job.
pub fn job_access(job: &OffsiteReplicationJob) -> (r: Vec<Vec<String>>)
    ensures
        paths_view(r@) == job_access_of(*job),
{
    request_access(job.source_remote.as_str(), job.vmid, job.target_remote.as_str())
}

/// The access paths that are checked before a job is replaced.
pub fn update_access(stored: &OffsiteReplicationJob, job: &OffsiteReplicationJob) -> (r: Vec<
    Vec<String>,
>)
    ensures
        paths_view(r@) == update_access_of(*stored, *job),
{
    let mut paths: Vec<Vec<String>> = Vec::new();
    paths.push(check_source_guest_privs(stored));
    paths.push(check_source_guest_privs(job));
    paths.push(check_target_remote_privs(stored.target_remote.as_str()));
    paths.push(check_target_remote_privs(job.target_remote.as_str()));
    assert(paths_view(paths@) =~= update_access_of(*stored, *job));
    paths
}

/// What a user may do with a job's guest and with its target.
#[derive(Clone, Copy, Debug, PartialEq, Eq, Structural)]
pub struct Access {
    /// On the source's guest.
    pub source: bool,
    /// On the target's remote.
    pub target: bool,
}

/// The jobs that a user may see, in order: both on the source and on the target.
pub open spec fn visible_jobs(jobs: Seq<OffsiteReplicationJob>, access: Seq<Access>) -> Seq<
    OffsiteReplicationJob,
>
    decreases jobs.len(),
{
    if jobs.len() == 0 {
        seq![]
    } else {
        let n = jobs.len() - 1;
        let front = visible_jobs(jobs.drop_last(), access);
        if n < access.len() && access[n].source && access[n].target {
            front.push(jobs[n])
        } else {
            front
        }
    }
}

/// The jobs that a user may see. A job without a known access is not seen.
pub fn list_jobs(config: &OffsiteReplicationConfig, access: &Vec<Access>) -> (r: Vec<
    OffsiteReplicationJob,
>)
    ensures
        r@ == visible_jobs(config.jobs@, access@),
{
    let ghost jobs = config.jobs@;
    let mut seen: Vec<OffsiteReplicationJob> = Vec::new();
    let mut i: usize = 0;
    assert(jobs.take(0) =~= seq![]);
    assert(seen@ =~= visible_jobs(jobs.take(0), access@));
    while i < config.jobs.len()
        invariant
            i <= config.jobs.len(),
            jobs == config.jobs@,
            seen@ == visible_jobs(jobs.take(i as int), access@),
        decreases config.jobs.len() - i,
    {
        assert(jobs.take(i + 1).drop_last() =~= jobs.take(i as int));
        if i < access.len() && access[i].source && access[i].target {
            seen.push(config.jobs[i].clone());
        }
        i += 1;
    }
    assert(jobs.take(jobs.len() as int) =~= jobs);
    seen
}

// ---------------------------------------------------------------------------------------------
// The list of jobs
// ---------------------------------------------------------------------------------------------

/// Why a request about a job is refused.
#[derive(Debug)]
pub enum Refusal {
    /// There is no such job.
    NotFound(String),
    /// Another reason.
    Refused(Error),
}

/// Why a request about a job is refused.
pub enum RefusalView {
    NotFound(Seq<char>),
    Refused(Seq<char>),
}

impl View for Refusal {
    type V = RefusalView;

    open spec fn view(&self) -> RefusalView {
        match self {
            Refusal::NotFound(message) => RefusalView::NotFound(message@),
            Refusal::Refused(e) => RefusalView::Refused(e@),
        }
    }
}

impl Refusal {
    /// The message.
    pub fn message(&self) -> (r: String)
        ensures
            r@ == (match self@ {
                RefusalView::NotFound(message) => message,
                RefusalView::Refused(message) => message,
            }),
    {
        match self {
            Refusal::NotFound(message) => message.clone(),
            Refusal::Refused(e) => e.message.clone(),
        }
    }
}

/// The place of the first job with the given ID.
pub open spec fn job_at(jobs: Seq<OffsiteReplicationJob>, id: Seq<char>) -> Option<int>
    decreases jobs.len(),
{
    if jobs.len() == 0 {
        None
    } else {
        match job_at(jobs.drop_last(), id) {
            Some(i) => Some(i),
            None => if jobs.last().id@ == id {
                Some(jobs.len() - 1)
            } else {
                None
            },
        }
    }
}

/// No two jobs have the same ID.
pub open spec fn ids_differ(jobs: Seq<OffsiteReplicationJob>) -> bool {
    forall|i: int, j: int|
        0 <= i < j < jobs.len() ==> (#[trigger] jobs[i]).id@ != (#[trigger] jobs[j]).id@
}

/// A place that `job_at` gives holds a job with the ID, and none before it does.
pub proof fn lemma_job_at(jobs: Seq<OffsiteReplicationJob>, id: Seq<char>)
    ensures
        match job_at(jobs, id) {
            Some(i) => 0 <= i < jobs.len() && jobs[i].id@ == id && forall|k: int|
                0 <= k < i ==> (#[trigger] jobs[k]).id@ != id,
            None => forall|k: int| 0 <= k < jobs.len() ==> (#[trigger] jobs[k]).id@ != id,
        },
    decreases jobs.len(),
{
    if jobs.len() > 0 {
        let front = jobs.drop_last();
        lemma_job_at(front, id);
        match job_at(front, id) {
            Some(i) => {
                assert(jobs[i] == front[i]);
                assert forall|k: int| 0 <= k < i implies (#[trigger] jobs[k]).id@ != id by {
                    assert(jobs[k] == front[k]);
                }
            },
            None => {
                assert forall|k: int| 0 <= k < front.len() implies (#[trigger] jobs[k]).id@
                    != id by {
                    assert(jobs[k] == front[k]);
                }
            },
        }
    }
}

fn position_of(jobs: &Vec<OffsiteReplicationJob>, id: &str) -> (r: Option<usize>)
    ensures
        match r {
            Some(i) => job_at(jobs@, id@) == Some(i as int) && i < jobs.len(),
            None => job_at(jobs@, id@) is None,
        },
{
    proof {
        lemma_job_at(jobs@, id@);
    }
    let mut i: usize = 0;
    while i < jobs.len()
        invariant
            i <= jobs.len(),
            forall|k: int| 0 <= k < i ==> (#[trigger] jobs@[k]).id@ != id@,
            match job_at(jobs@, id@) {
                Some(i) => 0 <= i < jobs@.len() && jobs@[i].id@ == id@ && forall|k: int|
                    0 <= k < i ==> (#[trigger] jobs@[k]).id@ != id@,
                None => forall|k: int| 0 <= k < jobs@.len() ==> (#[trigger] jobs@[k]).id@ != id@,
            },
        decreases jobs.len() - i,
    {
        if same(jobs[i].id.as_str(), id) {
            return Some(i);
        }
        i += 1;
    }
    None
}

/// The job with the given ID.
pub fn find_job<'a>(jobs: &'a Vec<OffsiteReplicationJob>, id: &str) -> (r: Option<
    &'a OffsiteReplicationJob,
>)
    ensures
        match r {
            Some(job) => job_at(jobs@, id@) matches Some(i) && *job == jobs@[i],
            None => job_at(jobs@, id@) is None,
        },
{
    match position_of(jobs, id) {
        Some(i) => Some(&jobs[i]),
        None => None,
    }
}

/// The message that there is no such job.
pub open spec fn missing_message(id: Seq<char>) -> Seq<char> {
    "job '"@ + id + "' does not exist"@
}

fn missing(id: &str) -> (r: Refusal)
    ensures
        r@ == RefusalView::NotFound(missing_message(id@)),
{
    let e = Error::of3("job '", id, "' does not exist");
    Refusal::NotFound(e.message)
}

/// The job with the given ID, as it is stored.
pub fn read_job(config: &OffsiteReplicationConfig, id: &str) -> (r: Result<
    OffsiteReplicationJob,
    Refusal,
>)
    ensures
        match r {
            Ok(job) => job_at(config.jobs@, id@) matches Some(i) && job == config.jobs@[i],
            Err(refusal) => job_at(config.jobs@, id@) is None && refusal@ == RefusalView::NotFound(
                missing_message(id@),
            ),
        },
{
    match find_job(&config.jobs, id) {
        Some(job) => Ok(job.clone()),
        None => Err(missing(id)),
    }
}

/// Why a new job is refused, where it is.
pub open spec fn creation_refusal(
    jobs: Seq<OffsiteReplicationJob>,
    job: OffsiteReplicationJob,
    schedule_valid: bool,
) -> Option<Seq<char>> {
    if job_verdict(job, schedule_valid) is Err {
        Some(job_verdict(job, schedule_valid)->Err_0)
    } else if job_at(jobs, job.id@) is Some {
        Some("job '"@ + job.id@ + "' already exists"@)
    } else {
        None
    }
}

/// Adds a job at the end of the list.
pub fn create_job(
    config: &mut OffsiteReplicationConfig,
    job: OffsiteReplicationJob,
    schedule_valid: bool,
) -> (r: Result<(), Error>)
    ensures
        match creation_refusal(old(config).jobs@, job, schedule_valid) {
            Some(message) => r matches Err(e) && e@ == message && final(config).jobs@ == old(
                config,
            ).jobs@,
            None => r is Ok && final(config).jobs@ == old(config).jobs@.push(job),
        },
{
    if let Err(e) = validate_job(&job, schedule_valid) {
        return Err(e);
    }
    if find_job(&config.jobs, job.id.as_str()).is_some() {
        return Err(Error::of3("job '", job.id.as_str(), "' already exists"));
    }
    config.jobs.push(job);
    Ok(())
}

/// The job that an update makes of the stored one.
pub open spec fn updated_job(job: OffsiteReplicationJob, id: Seq<char>, update: OffsiteReplicationJobUpdater) -> bool {
    &&& job.id@ == id
    &&& job.source_remote == update.source_remote
    &&& job.source_node == update.source_node
    &&& job.guest_type == update.guest_type
    &&& job.vmid == update.vmid
    &&& job.target_remote == update.target_remote
    &&& job.target_node == update.target_node
    &&& job.target_dataset == update.target_dataset
    &&& job.schedule == update.schedule
    &&& job.max_snapshots == update.max_snapshots
    &&& job.history_limit == update.history_limit
    &&& job.rate_limit_mib == update.rate_limit_mib
    &&& job.zfs_stream_mode == update.zfs_stream_mode
    &&& job.source_user == update.source_user
    &&& job.target_user == update.target_user
    &&& job.ssh_private_key == update.ssh_private_key
    &&& job.qga_fsfreeze == update.qga_fsfreeze
    &&& job.comment == update.comment
    &&& job.disable == update.disable
}

/// The job with the given ID and the fields of the update.
pub fn job_from_update(id: &str, update: OffsiteReplicationJobUpdater) -> (r: OffsiteReplicationJob)
    ensures
        updated_job(r, id@, update),
{
    OffsiteReplicationJob {
        id: id.to_owned(),
        source_remote: update.source_remote,
        source_node: update.source_node,
        guest_type: update.guest_type,
        vmid: update.vmid,
        target_remote: update.target_remote,
        target_node: update.target_node,
        target_dataset: update.target_dataset,
        schedule: update.schedule,
        max_snapshots: update.max_snapshots,
        history_limit: update.history_limit,
        rate_limit_mib: update.rate_limit_mib,
        zfs_stream_mode: update.zfs_stream_mode,
        source_user: update.source_user,
        target_user: update.target_user,
        ssh_private_key: update.ssh_private_key,
        qga_fsfreeze: update.qga_fsfreeze,
        comment: update.comment,
        disable: update.disable,
    }
}

/// Puts a job in the place of the stored one with the same ID.
pub fn update_job(
    config: &mut OffsiteReplicationConfig,
    job: OffsiteReplicationJob,
    schedule_valid: bool,
) -> (r: Result<(), Refusal>)
    ensures
        match job_verdict(job, schedule_valid) {
            Err(message) => r matches Err(refusal) && refusal@ == RefusalView::Refused(message)
                && final(config).jobs@ == old(config).jobs@,
            Ok(_) => match job_at(old(config).jobs@, job.id@) {
                None => r matches Err(refusal) && refusal@ == RefusalView::NotFound(
                    missing_message(job.id@),
                ) && final(config).jobs@ == old(config).jobs@,
                Some(i) => r is Ok && final(config).jobs@ == old(config).jobs@.update(i, job),
            },
        },
{
    if let Err(e) = validate_job(&job, schedule_valid) {
        return Err(Refusal::Refused(e));
    }
    match position_of(&config.jobs, job.id.as_str()) {
        None => Err(missing(job.id.as_str())),
        Some(i) => {
            config.jobs[i] = job;
            Ok(())
        },
    }
}

/// The jobs without those that have the given ID.
pub open spec fn jobs_without(jobs: Seq<OffsiteReplicationJob>, id: Seq<char>) -> Seq<
    OffsiteReplicationJob,
>
    decreases jobs.len(),
{
    if jobs.len() == 0 {
        seq![]
    } else {
        let front = jobs_without(jobs.drop_last(), id);
        if jobs.last().id@ == id {
            front
        } else {
            front.push(jobs.last())
        }
    }
}

/// Removes the job with the given ID.
pub fn delete_job(config: &mut OffsiteReplicationConfig, id: &str) -> (r: Result<(), Refusal>)
    ensures
        match job_at(old(config).jobs@, id@) {
            None => r matches Err(refusal) && refusal@ == RefusalView::NotFound(
                missing_message(id@),
            ) && final(config).jobs@ == old(config).jobs@,
            Some(_) => r is Ok && final(config).jobs@ == jobs_without(old(config).jobs@, id@),
        },
{
    if position_of(&config.jobs, id).is_none() {
        return Err(missing(id));
    }
    let ghost all = config.jobs@;
    let mut kept: Vec<OffsiteReplicationJob> = Vec::new();
    let mut i: usize = 0;
    assert(all.take(0) =~= seq![]);
    assert(kept@ =~= jobs_without(all.take(0), id@));
    while i < config.jobs.len()
        invariant
            i <= config.jobs.len(),
            all == config.jobs@,
            kept@ == jobs_without(all.take(i as int), id@),
        decreases config.jobs.len() - i,
    {
        assert(all.take(i + 1).drop_last() =~= all.take(i as int));
        if !same(config.jobs[i].id.as_str(), id) {
            kept.push(config.jobs[i].clone());
        }
        i += 1;
    }
    assert(all.take(all.len() as int) =~= all);
    config.jobs = kept;
    Ok(())
}

/// The number of runs to list: a number that is too large asks for all of them.
pub fn listed_runs(limit: Option<u64>) -> (r: Option<usize>)
    ensures
        r == (match limit {
            Some(n) => if n <= usize::MAX {
                Some(n as usize)
            } else {
                None
            },
            None => None,
        }),
{
    match limit {
        Some(n) => if n <= usize::MAX as u64 {
            Some(n as usize)
        } else {
            None
        },
        None => None,
    }
}

// ---------------------------------------------------------------------------------------------
// Laws
// ---------------------------------------------------------------------------------------------

/// A job that is accepted for storing is accepted when it is run.
pub proof fn law_stored_jobs_can_be_run(job: OffsiteReplicationJob, schedule_valid: bool)
    requires
        job_verdict(job, schedule_valid) is Ok,
    ensures
        runtime_verdict(job) is Ok,
{
}

/// Whoever replaces a job needs access to all that the stored job is about and to all that the new
/// one is about.
pub proof fn law_update_needs_access_to_both_jobs(
    stored: OffsiteReplicationJob,
    job: OffsiteReplicationJob,
)
    ensures
        forall|i: int|
            0 <= i < job_access_of(stored).len() ==> update_access_of(stored, job).contains(
                #[trigger] job_access_of(stored)[i],
            ),
        forall|i: int|
            0 <= i < job_access_of(job).len() ==> update_access_of(stored, job).contains(
                #[trigger] job_access_of(job)[i],
            ),
{
    let all = update_access_of(stored, job);
    assert(all[0] == job_access_of(stored)[0] && all[2] == job_access_of(stored)[1]);
    assert(all[1] == job_access_of(job)[0] && all[3] == job_access_of(job)[1]);
}

/// Adding a job that is not refused keeps all IDs different, and the job is found afterwards; the
/// others are found as before.
pub proof fn law_created_job_is_found(
    jobs: Seq<OffsiteReplicationJob>,
    job: OffsiteReplicationJob,
    schedule_valid: bool,
)
    requires
        ids_differ(jobs),
        creation_refusal(jobs, job, schedule_valid) is None,
    ensures
        ids_differ(jobs.push(job)),
        job_at(jobs.push(job), job.id@) == Some(jobs.len() as int),
        forall|id: Seq<char>| id != job.id@ ==> #[trigger] job_at(jobs.push(job), id) == job_at(jobs, id),
{
    let after = jobs.push(job);
    assert(after.drop_last() =~= jobs);
    lemma_job_at(jobs, job.id@);
    assert forall|i: int, j: int| 0 <= i < j < after.len() implies (#[trigger] after[i]).id@ != (
    #[trigger] after[j]).id@ by {
        if j < jobs.len() {
            assert(jobs[i].id@ != jobs[j].id@);
        } else {
            assert(jobs[i].id@ != job.id@);
        }
    }
}

/// Replacing a job by one with the same ID keeps all IDs different and leaves every other job as it
/// is.
pub proof fn law_update_touches_one_job(
    jobs: Seq<OffsiteReplicationJob>,
    job: OffsiteReplicationJob,
)
    requires
        ids_differ(jobs),
        job_at(jobs, job.id@) is Some,
    ensures
        ({
            let i = job_at(jobs, job.id@)->0;
            let after = jobs.update(i, job);
            &&& ids_differ(after)
            &&& after.len() == jobs.len()
            &&& after[i] == job
            &&& forall|k: int| 0 <= k < jobs.len() && k != i ==> #[trigger] after[k] == jobs[k]
        }),
{
    lemma_job_at(jobs, job.id@);
}

proof fn lemma_without(jobs: Seq<OffsiteReplicationJob>, id: Seq<char>)
    ensures
        forall|k: int|
            0 <= k < jobs_without(jobs, id).len() ==> (#[trigger] jobs_without(jobs, id)[k]).id@
                != id && jobs.contains(jobs_without(jobs, id)[k]),
        forall|k: int|
            0 <= k < jobs.len() && jobs[k].id@ != id ==> jobs_without(jobs, id).contains(
                #[trigger] jobs[k],
            ),
    decreases jobs.len(),
{
    if jobs.len() > 0 {
        let front = jobs.drop_last();
        lemma_without(front, id);
        let kept = jobs_without(front, id);
        let after = jobs_without(jobs, id);
        assert forall|k: int| 0 <= k < after.len() implies (#[trigger] after[k]).id@ != id
            && jobs.contains(after[k]) by {
            if k < kept.len() {
                assert(after[k] == kept[k]);
                assert(front.contains(kept[k]));
                let m = choose|m: int| 0 <= m < front.len() && front[m] == kept[k];
                assert(jobs[m] == kept[k]);
            } else {
                assert(after[k] == jobs.last());
            }
        }
        assert forall|k: int| 0 <= k < jobs.len() && jobs[k].id@ != id implies after.contains(
            #[trigger] jobs[k],
        ) by {
            if k < front.len() {
                assert(front[k] == jobs[k]);
                assert(kept.contains(front[k]));
                let m = choose|m: int| 0 <= m < kept.len() && kept[m] == front[k];
                assert(after[m] == jobs[k]);
            } else {
                assert(after.last() == jobs[k]);
            }
        }
    }
}

proof fn lemma_without_differ(jobs: Seq<OffsiteReplicationJob>, id: Seq<char>)
    requires
        ids_differ(jobs),
    ensures
        ids_differ(jobs_without(jobs, id)),
    decreases jobs.len(),
{
    if jobs.len() > 0 {
        let front = jobs.drop_last();
        assert(ids_differ(front)) by {
            assert forall|i: int, j: int| 0 <= i < j < front.len() implies (#[trigger] front[i]).id@
                != (#[trigger] front[j]).id@ by {
                assert(jobs[i].id@ != jobs[j].id@);
            }
        }
        lemma_without_differ(front, id);
        lemma_without(front, id);
        let kept = jobs_without(front, id);
        let after = jobs_without(jobs, id);
        assert forall|i: int, j: int| 0 <= i < j < after.len() implies (#[trigger] after[i]).id@
            != (#[trigger] after[j]).id@ by {
            if j < kept.len() {
                assert(kept[i].id@ != kept[j].id@);
            } else {
                assert(after[i] == kept[i]);
                assert(front.contains(kept[i]));
                let m = choose|m: int| 0 <= m < front.len() && front[m] == kept[i];
                assert(jobs[m].id@ != jobs[jobs.len() - 1].id@);
            }
        }
    }
}

/// A removed job is not found afterwards, the other jobs stay, and all IDs stay different.
pub proof fn law_deleted_job_is_gone(jobs: Seq<OffsiteReplicationJob>, id: Seq<char>)
    requires
        ids_differ(jobs),
    ensures
        job_at(jobs_without(jobs, id), id) is None,
        ids_differ(jobs_without(jobs, id)),
        forall|k: int|
            0 <= k < jobs.len() && jobs[k].id@ != id ==> jobs_without(jobs, id).contains(
                #[trigger] jobs[k],
            ),
        forall|k: int|
            0 <= k < jobs_without(jobs, id).len() ==> jobs.contains(
                #[trigger] jobs_without(jobs, id)[k],
            ),
{
    lemma_without(jobs, id);
    lemma_without_differ(jobs, id);
    lemma_job_at(jobs_without(jobs, id), id);
}

proof fn lemma_nothing_removed(jobs: Seq<OffsiteReplicationJob>, id: Seq<char>)
    requires
        job_at(jobs, id) is None,
    ensures
        jobs_without(jobs, id) == jobs,
    decreases jobs.len(),
{
    if jobs.len() > 0 {
        lemma_job_at(jobs, id);
        lemma_nothing_removed(jobs.drop_last(), id);
        assert(jobs.drop_last().push(jobs.last()) =~= jobs);
    } else {
        assert(jobs =~= seq![]);
    }
}

/// To add a job and to remove it again leaves the list as it was.
pub proof fn law_creating_and_deleting_leaves_the_list(
    jobs: Seq<OffsiteReplicationJob>,
    job: OffsiteReplicationJob,
    schedule_valid: bool,
)
    requires
        creation_refusal(jobs, job, schedule_valid) is None,
    ensures
        jobs_without(jobs.push(job), job.id@) == jobs,
{
    assert(jobs.push(job).drop_last() =~= jobs);
    lemma_nothing_removed(jobs, job.id@);
}

/// Every job that a user sees is a stored one.
pub proof fn law_visible_jobs_are_stored(jobs: Seq<OffsiteReplicationJob>, access: Seq<Access>)
    ensures
        forall|k: int|
            0 <= k < visible_jobs(jobs, access).len() ==> exists|i: int|
                0 <= i < jobs.len() && i < access.len() && jobs[i] == #[trigger] visible_jobs(
                    jobs,
                    access,
                )[k] && (#[trigger] access[i]).source && access[i].target,
    decreases jobs.len(),
{
    if jobs.len() > 0 {
        let n = jobs.len() - 1;
        let front = jobs.drop_last();
        law_visible_jobs_are_stored(front, access);
        let before = visible_jobs(front, access);
        let after = visible_jobs(jobs, access);
        assert forall|k: int| 0 <= k < after.len() implies exists|i: int|
            0 <= i < jobs.len() && i < access.len() && jobs[i] == #[trigger] after[k] && (
            #[trigger] access[i]).source && access[i].target by {
            if k < before.len() {
                assert(after[k] == before[k]);
                let i = choose|i: int|
                    0 <= i < front.len() && i < access.len() && front[i] == before[k] && (
                    #[trigger] access[i]).source && access[i].target;
                assert(jobs[i] == after[k] && access[i].source);
            } else {
                assert(jobs[n] == after[k] && access[n].source);
            }
        }
    }
}

/// A job is stored exactly where all of this holds: its ID is a safe one, its remotes differ, its
/// dataset, users and key path are accepted, it logs in on the source as `root`, its schedule can be
/// parsed, and it keeps at least one snapshot and one run.
pub proof fn law_jobs_that_are_stored(job: OffsiteReplicationJob, schedule_valid: bool)
    ensures
        job_verdict(job, schedule_valid) is Ok <==> (is_safe_id(job.id@) && job.source_remote@
            != job.target_remote@ && dataset_verdict(job.target_dataset@) is Ok && ssh_user_verdict(
            job.source_user@,
        ) is Ok && ssh_user_verdict(job.target_user@) is Ok && key_path_verdict(
            job.ssh_private_key@,
        ) is Ok && job.source_user@ == "root"@ && schedule_valid && job.max_snapshots >= 1
            && job.history_limit >= 1),
{
}

/// Each reason for which a job is refused is told as it is, as long as those before it do not hold.
pub proof fn law_jobs_that_are_refused(job: OffsiteReplicationJob, schedule_valid: bool)
    ensures
        ({
            let answer = job_verdict(job, schedule_valid);
            let named = is_safe_id(job.id@) && job.source_remote@ != job.target_remote@
                && dataset_verdict(job.target_dataset@) is Ok && ssh_user_verdict(
                job.source_user@,
            ) is Ok && ssh_user_verdict(job.target_user@) is Ok && key_path_verdict(
                job.ssh_private_key@,
            ) is Ok;
            &&& !is_safe_id(job.id@) ==> answer == Err::<(), Seq<char>>(
                "invalid job id '"@ + job.id@ + "'"@,
            )
            &&& is_safe_id(job.id@) && job.source_remote@ == job.target_remote@ ==> answer == Err::<
                (),
                Seq<char>,
            >("source and target remotes must differ"@)
            &&& named && job.source_user@ == "root"@ && !schedule_valid ==> answer == Err::<
                (),
                Seq<char>,
            >("invalid schedule '"@ + job.schedule@ + "'"@)
            &&& named && job.source_user@ == "root"@ && schedule_valid && job.max_snapshots == 0
                ==> answer == Err::<(), Seq<char>>("max snapshots must be greater than zero"@)
            &&& named && job.source_user@ == "root"@ && schedule_valid && job.max_snapshots > 0
                && job.history_limit == 0 ==> answer == Err::<(), Seq<char>>(
                "history limit must be greater than zero"@,
            )
        }),
{
}

/// A request to prepare SSH is accepted exactly where both users and the key path are.
pub proof fn law_prepare_requests_that_are_accepted(request: OffsiteSshPrepareRequest)
    ensures
        prepare_request_verdict(request) is Ok <==> (ssh_user_verdict(request.source_user@) is Ok
            && ssh_user_verdict(request.target_user@) is Ok && key_path_verdict(
            request.ssh_private_key@,
        ) is Ok),
        ssh_user_verdict(request.source_user@) is Err ==> prepare_request_verdict(request)
            == ssh_user_verdict(request.source_user@),
{
}

/// A recovered guest may go without a name; one that is given has to be accepted.
pub proof fn law_recovered_name_is_optional(name: Option<String>)
    ensures
        name is None ==> name_verdict(name) is Ok,
        name matches Some(text) ==> name_verdict(name) == guest_name_verdict(text@),
{
}

/// Access is asked for twice: to the guest on the source, by its ID, and to the target's remote.
pub proof fn law_access_is_asked_for_guest_and_target(job: OffsiteReplicationJob)
    ensures
        job_access_of(job).len() == 2,
        job_access_of(job)[0] == seq![
            "resource"@,
            job.source_remote@,
            "guest"@,
            decimal(job.vmid as nat),
        ],
        job_access_of(job)[1] == seq!["resource"@, job.target_remote@],
{
}

proof fn lemma_visible_of_front(
    jobs: Seq<OffsiteReplicationJob>,
    access: Seq<Access>,
    more: Access,
)
    requires
        jobs.len() <= access.len(),
    ensures
        visible_jobs(jobs, access.push(more)) == visible_jobs(jobs, access),
    decreases jobs.len(),
{
    if jobs.len() > 0 {
        lemma_visible_of_front(jobs.drop_last(), access, more);
        assert(access.push(more)[jobs.len() - 1] == access[jobs.len() - 1]);
    }
}

/// A user sees exactly the jobs for which there is access to both sides: a further job is seen after
/// the others where both are granted, and otherwise nothing changes.
pub proof fn law_user_sees_every_permitted_job(
    jobs: Seq<OffsiteReplicationJob>,
    access: Seq<Access>,
    job: OffsiteReplicationJob,
    more: Access,
)
    requires
        jobs.len() == access.len(),
    ensures
        visible_jobs(seq![], access).len() == 0,
        more.source && more.target ==> visible_jobs(jobs.push(job), access.push(more))
            == visible_jobs(jobs, access).push(job),
        !more.source || !more.target ==> visible_jobs(jobs.push(job), access.push(more))
            == visible_jobs(jobs, access),
        visible_jobs(jobs.push(job), access) == visible_jobs(jobs, access),
{
    lemma_visible_of_front(jobs, access, more);
    assert(jobs.push(job).drop_last() =~= jobs);
    assert(access.push(more)[jobs.len() as int] == more);
}

/// A job keeps its ID when it is updated, and everything else of it is what the update says.
pub proof fn law_update_sets_every_field(
    job: OffsiteReplicationJob,
    id: Seq<char>,
    update: OffsiteReplicationJobUpdater,
)
    requires
        updated_job(job, id, update),
    ensures
        job.id@ == id,
        job.source_remote == update.source_remote && job.source_node == update.source_node,
        job.target_remote == update.target_remote && job.target_node == update.target_node,
        job.guest_type == update.guest_type && job.vmid == update.vmid,
        job.target_dataset == update.target_dataset && job.schedule == update.schedule,
        job.max_snapshots == update.max_snapshots && job.history_limit == update.history_limit,
        job.rate_limit_mib == update.rate_limit_mib,
        job.zfs_stream_mode == update.zfs_stream_mode && job.qga_fsfreeze == update.qga_fsfreeze,
        job.source_user == update.source_user && job.target_user == update.target_user,
        job.ssh_private_key == update.ssh_private_key,
        job.comment == update.comment && job.disable == update.disable,
{
}

/// A job is refused as a new one exactly where it is not acceptable or its ID is taken.
pub proof fn law_new_jobs_that_are_refused(
    jobs: Seq<OffsiteReplicationJob>,
    job: OffsiteReplicationJob,
    schedule_valid: bool,
)
    ensures
        ({
            let taken = exists|k: int| 0 <= k < jobs.len() && (#[trigger] jobs[k]).id@ == job.id@;
            let answer = creation_refusal(jobs, job, schedule_valid);
            &&& answer is None <==> (job_verdict(job, schedule_valid) is Ok && !taken)
            &&& job_verdict(job, schedule_valid) is Ok && taken ==> answer == Some(
                "job '"@ + job.id@ + "' already exists"@,
            )
            &&& job_verdict(job, schedule_valid) matches Err(message) ==> answer == Some(message)
        }),
{
    lemma_job_at(jobs, job.id@);
}

/// The jobs that stay when one is removed keep their order: what is removed of a list is removed of
/// each of its parts.
pub proof fn law_remaining_jobs_keep_their_order(
    jobs: Seq<OffsiteReplicationJob>,
    more: Seq<OffsiteReplicationJob>,
    id: Seq<char>,
)
    ensures
        jobs_without(jobs + more, id) == jobs_without(jobs, id) + jobs_without(more, id),
    decreases more.len(),
{
    if more.len() == 0 {
        assert(jobs + more =~= jobs);
        assert(jobs_without(jobs, id) + jobs_without(more, id) =~= jobs_without(jobs, id));
    } else {
        assert((jobs + more).drop_last() =~= jobs + more.drop_last());
        law_remaining_jobs_keep_their_order(jobs, more.drop_last(), id);
        assert(jobs_without(jobs + more, id) =~= jobs_without(jobs, id) + jobs_without(more, id));
    }
}

/// A job that is not there is told by its ID.
pub proof fn law_missing_job_is_told(id: Seq<char>)
    ensures
        missing_message(id) == "job '"@ + id + "' does not exist"@,
{
}

} // verus!
