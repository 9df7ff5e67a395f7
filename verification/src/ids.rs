//! Names that are made from IDs: file names, storage IDs, dataset components.
use crate::text::{alnum, chars_of, is_alnum, text_of};
use vstd::prelude::*;

verus! {

/// The worker type of replication runs.
pub const WORKER_TYPE: &'static str = "offsite-replication";

/// The worker type of failovers.
pub const FAILOVER_WORKER_TYPE: &'static str = "offsite-failover";

/// The directory of the history files, below the state directory.
pub const HISTORY_SUBDIR: &'static str = "/offsite-replication-history";

/// The directory of the stored guest configurations, below the state directory.
pub const RECOVERY_CONFIG_SUBDIR: &'static str = "/offsite-replication-configs";

/// The most characters that a recovery storage ID has.
pub const STORAGE_ID_MAX: usize = 31;

pub open spec fn is_id_char(c: char) -> bool {
    is_alnum(c) || c == '-' || c == '_'
}

pub open spec fn is_dataset_char(c: char) -> bool {
    is_alnum(c) || c == '-' || c == '_' || c == '.' || c == ':'
}

/// The ID with `_` in the place of every character but letters, digits, `-` and `_`.
pub open spec fn sanitized(s: Seq<char>) -> Seq<char> {
    Seq::new(
        s.len(),
        |i: int|
            if is_id_char(s[i]) {
                s[i]
            } else {
                '_'
            },
    )
}

/// The component with `_` in the place of every character that a dataset's name may not have.
pub open spec fn dataset_sanitized(s: Seq<char>) -> Seq<char> {
    Seq::new(
        s.len(),
        |i: int|
            if is_dataset_char(s[i]) {
                s[i]
            } else {
                '_'
            },
    )
}

/// A relative path below a directory.
pub open spec fn below(dir: Seq<char>, name: Seq<char>) -> Seq<char> {
    if dir.len() == 0 || dir.last() == '/' {
        dir + name
    } else {
        dir + "/"@ + name
    }
}

/// The history file of a job.
pub open spec fn history_file(state_dir: Seq<char>, id: Seq<char>) -> Seq<char> {
    below(state_dir + HISTORY_SUBDIR@, sanitized(id) + ".json"@)
}

/// The directory of the guest configurations that were stored for a job.
pub open spec fn config_dir(state_dir: Seq<char>, id: Seq<char>) -> Seq<char> {
    below(state_dir + RECOVERY_CONFIG_SUBDIR@, sanitized(id))
}

/// The guest configuration that was stored for a snapshot.
pub open spec fn config_file(state_dir: Seq<char>, id: Seq<char>, snapshot: Seq<char>) -> Seq<
    char,
> {
    below(config_dir(state_dir, id), sanitized(snapshot) + ".conf"@)
}

/// The storage that a failover of the job attaches its disks from.
pub open spec fn storage_id(id: Seq<char>) -> Seq<char> {
    let full = "offsite-"@ + sanitized(id);
    if full.len() > STORAGE_ID_MAX {
        full.take(STORAGE_ID_MAX as int)
    } else {
        full
    }
}

/// The ID with `_` in the place of every character but letters, digits, `-` and `_`.
pub fn sanitize_id(id: &str) -> (r: String)
    ensures
        r@ == sanitized(id@),
{
    let v = chars_of(id);
    let mut out = String::new();
    let mut i: usize = 0;
    while i < v.len()
        invariant
            i <= v.len(),
            v@ == id@,
            out@ == sanitized(id@).take(i as int),
        decreases v.len() - i,
    {
        let c: char = v[i];
        if alnum(c) || c == '-' || c == '_' {
            out.push(c);
        } else {
            out.push('_');
        }
        assert(out@ =~= sanitized(id@).take(i + 1));
        i += 1;
    }
    assert(out@ =~= sanitized(id@));
    out
}

/// The component with `_` in the place of every character that a dataset's name may not have.
pub fn sanitize_dataset_component(component: &str) -> (r: String)
    ensures
        r@ == dataset_sanitized(component@),
{
    let v = chars_of(component);
    let mut out = String::new();
    let mut i: usize = 0;
    while i < v.len()
        invariant
            i <= v.len(),
            v@ == component@,
            out@ == dataset_sanitized(component@).take(i as int),
        decreases v.len() - i,
    {
        let c: char = v[i];
        if alnum(c) || c == '-' || c == '_' || c == '.' || c == ':' {
            out.push(c);
        } else {
            out.push('_');
        }
        assert(out@ =~= dataset_sanitized(component@).take(i + 1));
        i += 1;
    }
    assert(out@ =~= dataset_sanitized(component@));
    out
}

fn push_path(dir: &str, name: &str) -> (r: String)
    ensures
        r@ == below(dir@, name@),
{
    let v = chars_of(dir);
    let mut path = dir.to_owned();
    if v.len() > 0 && v[v.len() - 1] != '/' {
        path.append("/");
    }
    path.append(name);
    path
}

/// The history file of a job.
pub fn history_path(state_dir: &str, job_id: &str) -> (r: String)
    ensures
        r@ == history_file(state_dir@, job_id@),
{
    let mut dir = state_dir.to_owned();
    dir.append(HISTORY_SUBDIR);
    let mut name = sanitize_id(job_id);
    name.append(".json");
    push_path(dir.as_str(), name.as_str())
}

/// The directory of the guest configurations that were stored for a job.
pub fn recovery_config_dir_for_job(state_dir: &str, job_id: &str) -> (r: String)
    ensures
        r@ == config_dir(state_dir@, job_id@),
{
    let mut dir = state_dir.to_owned();
    dir.append(RECOVERY_CONFIG_SUBDIR);
    let name = sanitize_id(job_id);
    push_path(dir.as_str(), name.as_str())
}

/// The guest configuration that was stored for a snapshot.
pub fn recovery_config_path(state_dir: &str, job_id: &str, snapshot: &str) -> (r: String)
    ensures
        r@ == config_file(state_dir@, job_id@, snapshot@),
{
    let dir = recovery_config_dir_for_job(state_dir, job_id);
    let mut name = sanitize_id(snapshot);
    name.append(".conf");
    push_path(dir.as_str(), name.as_str())
}

/// The storage that a failover of the job attaches its disks from.
pub fn recovery_storage_id(job_id: &str) -> (r: String)
    ensures
        r@ == storage_id(job_id@),
{
    let mut full = "offsite-".to_owned();
    let name = sanitize_id(job_id);
    full.append(name.as_str());
    let v = chars_of(full.as_str());
    if v.len() > STORAGE_ID_MAX {
        assert(full@.subrange(0, STORAGE_ID_MAX as int) =~= full@.take(STORAGE_ID_MAX as int));
        text_of(&v, 0, STORAGE_ID_MAX)
    } else {
        full
    }
}

/// A sanitized ID is as long as the ID and has only letters, digits, `-` and `_`; so it names a
/// file in the directory that it is put below.
pub proof fn law_sanitized_id_is_a_file_name(s: Seq<char>)
    ensures
        sanitized(s).len() == s.len(),
        forall|i: int| 0 <= i < s.len() ==> is_id_char(#[trigger] sanitized(s)[i]),
        !sanitized(s).contains('/'),
        !sanitized(s).contains('.'),
{
}

/// To sanitize an ID twice is to sanitize it once.
pub proof fn law_sanitizing_twice_is_sanitizing_once(s: Seq<char>)
    ensures
        sanitized(sanitized(s)) == sanitized(s),
        dataset_sanitized(dataset_sanitized(s)) == dataset_sanitized(s),
{
    assert(sanitized(sanitized(s)) =~= sanitized(s));
    assert(dataset_sanitized(dataset_sanitized(s)) =~= dataset_sanitized(s));
}

/// An ID of letters, digits, `-` and `_` is kept as it is.
pub proof fn law_clean_id_is_kept(s: Seq<char>)
    requires
        forall|i: int| 0 <= i < s.len() ==> is_id_char(s[i]),
    ensures
        sanitized(s) == s,
{
    assert(sanitized(s) =~= s);
}

/// A recovery storage ID is bounded, starts with `offsite-` and has only letters, digits, `-`
/// and `_`, whatever the job's ID holds.
pub proof fn law_storage_id_is_bounded_and_clean(id: Seq<char>)
    ensures
        8 <= storage_id(id).len() <= STORAGE_ID_MAX,
        storage_id(id).take(8) == "offsite-"@,
        forall|i: int| 0 <= i < storage_id(id).len() ==> is_id_char(#[trigger] storage_id(id)[i]),
{
    reveal_strlit("offsite-");
    let full = "offsite-"@ + sanitized(id);
    assert(full.take(8) =~= "offsite-"@);
    assert(storage_id(id).take(8) =~= "offsite-"@);
    assert forall|i: int| 0 <= i < full.len() implies is_id_char(full[i]) by {
        if i >= 8 {
            assert(full[i] == sanitized(id)[i - 8]);
        }
    }
}

/// Each character of an ID is kept or replaced by itself: letters, digits, `-` and `_` stay, and in a
/// dataset's name `.` and `:` stay too; in the place of any other stands `_`.
pub proof fn law_characters_are_replaced_one_by_one(s: Seq<char>, i: int)
    requires
        0 <= i < s.len(),
    ensures
        sanitized(s).len() == s.len(),
        dataset_sanitized(s).len() == s.len(),
        ({
            let kept = ('a' <= s[i] && s[i] <= 'z') || ('A' <= s[i] && s[i] <= 'Z') || ('0' <= s[i]
                && s[i] <= '9') || s[i] == '-' || s[i] == '_';
            &&& kept ==> sanitized(s)[i] == s[i] && dataset_sanitized(s)[i] == s[i]
            &&& !kept ==> sanitized(s)[i] == '_'
            &&& (s[i] == '.' || s[i] == ':') ==> dataset_sanitized(s)[i] == s[i]
            &&& !kept && s[i] != '.' && s[i] != ':' ==> dataset_sanitized(s)[i] == '_'
        }),
{
}

/// What is kept of a job stands below the state directory, under the job's sanitized ID: the runs in
/// one file, and each snapshot's guest configuration in a file of the job's directory.
pub proof fn law_files_of_a_job(state_dir: Seq<char>, id: Seq<char>, snapshot: Seq<char>)
    requires
        id.len() > 0,
    ensures
        history_file(state_dir, id) == state_dir + "/offsite-replication-history"@ + "/"@
            + sanitized(id) + ".json"@,
        config_dir(state_dir, id) == state_dir + "/offsite-replication-configs"@ + "/"@ + sanitized(
            id,
        ),
        config_file(state_dir, id, snapshot) == config_dir(state_dir, id) + "/"@ + sanitized(
            snapshot,
        ) + ".conf"@,
{
    let runs = state_dir + HISTORY_SUBDIR@;
    let configs = state_dir + RECOVERY_CONFIG_SUBDIR@;
    assert(runs.last() == 'y' && runs.len() > 0) by {
        reveal_strlit("/offsite-replication-history");
    }
    assert(configs.last() == 's' && configs.len() > 0) by {
        reveal_strlit("/offsite-replication-configs");
    }
    let dir = config_dir(state_dir, id);
    assert(dir.last() == sanitized(id).last());
    assert(is_id_char(sanitized(id)[id.len() - 1]));
    assert(history_file(state_dir, id) =~= runs + "/"@ + sanitized(id) + ".json"@);
    assert(config_file(state_dir, id, snapshot) =~= dir + "/"@ + sanitized(snapshot) + ".conf"@);
}

/// The storage of a job is named after it: the whole sanitized ID where that fits into 31 characters,
/// and otherwise as much of it as fits.
pub proof fn law_storage_is_named_after_the_job(id: Seq<char>)
    ensures
        id.len() <= 23 ==> storage_id(id) == "offsite-"@ + sanitized(id),
        id.len() > 23 ==> storage_id(id).len() == 31 && storage_id(id) == "offsite-"@ + sanitized(
            id,
        ).take(23),
{
    reveal_strlit("offsite-");
    if id.len() > 23 {
        assert(storage_id(id) =~= "offsite-"@ + sanitized(id).take(23));
    }
}

/// A name below a directory stands behind one slash, whether or not the directory's own name ends in
/// one.
pub proof fn law_name_below_a_directory(dir: Seq<char>, name: Seq<char>)
    ensures
        dir.len() > 0 && dir.last() != '/' ==> below(dir, name) == dir + "/"@ + name,
        below(dir + "/"@, name) == dir + "/"@ + name,
        below(""@, name) == name,
{
    reveal_strlit("/");
    reveal_strlit("");
    assert((dir + "/"@).last() == '/');
    assert(""@ + name =~= name);
}

} // verus!
