//! The script that promotes a recovery point to a virtual machine on the target.
use crate::ids::{dataset_sanitized, sanitize_dataset_component};
use crate::number::decimal;
use crate::names::snapshot_verdict;
use crate::qemu::{
    law_parsed_disks_can_be_recovered, parsed_config, recover_disk_basename, recovered_basename,
    DiskView, ParsedQemuConfig, ParsedQemuDisk, QemuView,
};
use crate::shell::escaped;
use crate::snapshots::{candidates_of, target_dataset_for_source_dataset, target_for_source};
use crate::sync::{push_decimal, push_escaped};
use crate::text::{
    cut_first, cut_last, has_prefix, lemma_occurs_within,
    lemma_order_where_put, lemma_stands_where_put, occurs, opt_text, rsplit_once, same, split_once,
    stand_in_order, starts_with,
};
use crate::types::{text_outcome, Error, OffsiteFailoverRequest, OffsiteReplicationJob};
use vstd::prelude::*;

verus! {

/// How every failover script starts.
pub const FAILOVER_HEAD: &'static str = r#"set -euo pipefail
STATUS=1
CREATED_VM=0
CREATED_DATASETS_FILE=$(mktemp)
"#;

/// The cleanup on failure, up to the guest that is stopped.
pub const CLEANUP_BEFORE: &'static str = r#"cleanup() {
  if [ "$STATUS" -ne 0 ]; then
    if [ "$CREATED_VM" = "1" ]; then
      qm stop "#;

/// The cleanup on failure, up to the guest that is destroyed.
pub const CLEANUP_BETWEEN: &'static str = " >/dev/null 2>&1 || true\n      qm destroy ";

/// The cleanup on failure, to its end.
pub const CLEANUP_AFTER: &'static str = r#" --purge 1 >/dev/null 2>&1 || true
    fi
    # Track created datasets line-by-line to keep rollback robust for any dataset name shape.
    if [ -f "$CREATED_DATASETS_FILE" ]; then
      while IFS= read -r dataset; do
        [ -n "$dataset" ] || continue
        zfs destroy -r "$dataset" >/dev/null 2>&1 || true
      done < "$CREATED_DATASETS_FILE"
    fi
  fi
  rm -f "$CREATED_DATASETS_FILE"
}
trap cleanup EXIT
"#;

/// The shell function that finds a disk's snapshot, up to the message that none is there.
pub const RESOLVE_BODY: &'static str = r#"
resolve_recovery_snapshot() {
  source_base="$1"
  occurrence="$2"
  lineage_prefix="${3:-}"
  legacy="$TARGET_DATASET/$source_base@$SNAP_SUFFIX"
  if [ -z "$lineage_prefix" ] && [ "$occurrence" -eq 1 ] && zfs list -H -o name "$legacy" >/dev/null 2>&1; then
    echo "$legacy"
    return 0
  fi

  matches="$(zfs list -H -t snapshot -o name -s creation -r "$TARGET_DATASET" 2>/dev/null | while IFS= read -r snap; do
    case "$snap" in
      *@$SNAP_SUFFIX)
        ds="${snap%@*}"
        leaf="${ds##*/}"
        if [ -n "$lineage_prefix" ]; then
          expected="$lineage_prefix""__""$source_base"
          [ "$leaf" = "$expected" ] || continue
          printf '%s\n' "$snap"
          continue
        fi
        if [ "$leaf" = "$source_base" ]; then
          printf '%s\n' "$snap"
          continue
        fi
        case "$leaf" in
          *__"$source_base") printf '%s\n' "$snap" ;;
        esac
        ;;
    esac
  done)"

  matches_clean="$(printf '%s\n' "$matches" | sed '/^$/d')"
  count="$(printf '%s\n' "$matches_clean" | sed '/^$/d' | wc -l)"
  if [ "$count" -ge "$occurrence" ]; then
    printf '%s\n' "$matches_clean" | sed -n "${occurrence}p"
    return 0
  fi

  if [ "$count" -eq 0 ]; then
    echo "#;

/// The same function, up to the message that several are there.
pub const RESOLVE_ELSE: &'static str = " >&2\n  else\n    echo ";

/// The same function, to its end.
pub const RESOLVE_END: &'static str = r#" >&2
    printf '%s\n' "$matches_clean" >&2
  fi
  return 1
}
"#;

/// What follows the `@` of a snapshot.
pub open spec fn snapshot_suffix(snapshot: Seq<char>) -> Result<Seq<char>, Seq<char>> {
    match cut_last(snapshot, "@"@) {
        Some((_, suffix)) => Ok(suffix),
        None => Err("snapshot is missing '@' separator"@),
    }
}

/// What follows the `@` of a snapshot.
pub fn extract_snapshot_suffix(snapshot: &str) -> (r: Result<String, Error>)
    ensures
        text_outcome(r) == snapshot_suffix(snapshot@),
{
    match rsplit_once(snapshot, "@") {
        Some((_, suffix)) => Ok(suffix),
        None => Err(Error::new("snapshot is missing '@' separator")),
    }
}

/// The dataset that the selected snapshot's dataset stands in.
pub open spec fn source_parent(snapshot: Seq<char>) -> Option<Seq<char>> {
    match cut_first(snapshot, "@"@) {
        None => None,
        Some((dataset, _)) => match cut_last(dataset, "/"@) {
            None => None,
            Some((parent, _)) => Some(parent),
        },
    }
}

/// The name of the recovered guest: the requested one, else the guest's own with `-dr`, else one
/// made from the recovered guest's ID.
pub open spec fn recovered_name_of(request: OffsiteFailoverRequest, parsed: QemuView) -> Seq<char> {
    match request.recovered_name {
        Some(name) => name@,
        None => match parsed.name {
            Some(name) => name + "-dr"@,
            None => "recovery-"@ + decimal(request.recovery_vmid as nat),
        },
    }
}

/// How many of the first `n` disks have the given name on the source.
pub open spec fn named(disks: Seq<DiskView>, name: Seq<char>, n: int) -> nat
    decreases n,
{
    if n <= 0 {
        0
    } else {
        named(disks, name, n - 1) + (if disks[n - 1].source_basename == name {
            1nat
        } else {
            0nat
        })
    }
}

/// Another disk has the same name on the source.
pub open spec fn is_duplicate(disks: Seq<DiskView>, i: int) -> bool {
    named(disks, disks[i].source_basename, disks.len() as int) > 1
}

/// The message that the recovered guest's ID is taken.
pub open spec fn vmid_taken_message(request: OffsiteFailoverRequest) -> Seq<char> {
    "target VMID "@ + decimal(request.recovery_vmid as nat) + " already exists"@
}

fn vmid_taken(request: &OffsiteFailoverRequest) -> (r: String)
    ensures
        r@ == vmid_taken_message(*request),
{
    let mut out = "target VMID ".to_owned();
    push_decimal(&mut out, request.recovery_vmid as u64);
    out.append(" already exists");
    out
}

/// The part before the disks: cleanup on failure, checks, and the function that finds a snapshot.
pub open spec fn preamble_part(
    job: OffsiteReplicationJob,
    request: OffsiteFailoverRequest,
    storage: Seq<char>,
    suffix: Seq<char>,
) -> Seq<char> {
    FAILOVER_HEAD@ + CLEANUP_BEFORE@ + decimal(request.recovery_vmid as nat) + CLEANUP_BETWEEN@
        + decimal(request.recovery_vmid as nat) + CLEANUP_AFTER@ + "if qm status "@
        + decimal(request.recovery_vmid as nat) + " >/dev/null 2>&1; then\n  echo "@
        + escaped(vmid_taken_message(request)) + " >&2\n  exit 1\nfi\n"@
        + "if ! pvesm status --storage "@ + escaped(storage)
        + " >/dev/null 2>&1; then\n  pvesm add zfspool "@ + escaped(storage) + " --pool "@
        + escaped(job.target_dataset@) + " --content images,rootdir --sparse 1\nfi\n"@
        + "SNAP_SUFFIX="@ + escaped(suffix) + "\nTARGET_DATASET="@ + escaped(job.target_dataset@)
        + RESOLVE_BODY@ + escaped("missing target recovery snapshot for selected suffix"@)
        + RESOLVE_ELSE@ + escaped("ambiguous target recovery snapshots for selected suffix"@)
        + RESOLVE_END@
}

fn preamble_text(
    job: &OffsiteReplicationJob,
    request: &OffsiteFailoverRequest,
    target_storage_id: &str,
    snapshot_suffix: &str,
) -> (r: String)
    ensures
        r@ == preamble_part(*job, *request, target_storage_id@, snapshot_suffix@),
{
    let taken = vmid_taken(request);
    let mut out = FAILOVER_HEAD.to_owned();
    out.append(CLEANUP_BEFORE);
    push_decimal(&mut out, request.recovery_vmid as u64);
    out.append(CLEANUP_BETWEEN);
    push_decimal(&mut out, request.recovery_vmid as u64);
    out.append(CLEANUP_AFTER);
    out.append("if qm status ");
    push_decimal(&mut out, request.recovery_vmid as u64);
    out.append(" >/dev/null 2>&1; then\n  echo ");
    push_escaped(&mut out, taken.as_str());
    out.append(" >&2\n  exit 1\nfi\n");
    out.append("if ! pvesm status --storage ");
    push_escaped(&mut out, target_storage_id);
    out.append(" >/dev/null 2>&1; then\n  pvesm add zfspool ");
    push_escaped(&mut out, target_storage_id);
    out.append(" --pool ");
    push_escaped(&mut out, job.target_dataset.as_str());
    out.append(" --content images,rootdir --sparse 1\nfi\n");
    out.append("SNAP_SUFFIX=");
    push_escaped(&mut out, snapshot_suffix);
    out.append("\nTARGET_DATASET=");
    push_escaped(&mut out, job.target_dataset.as_str());
    out.append(RESOLVE_BODY);
    push_escaped(&mut out, "missing target recovery snapshot for selected suffix");
    out.append(RESOLVE_ELSE);
    push_escaped(&mut out, "ambiguous target recovery snapshots for selected suffix");
    out.append(RESOLVE_END);
    out
}

/// The message that a recovered dataset exists already.
pub open spec fn dataset_taken_message(dataset: Seq<char>) -> Seq<char> {
    "target recovery dataset '"@ + dataset + "' already exists"@
}

fn dataset_taken(dataset: &str) -> (r: String)
    ensures
        r@ == dataset_taken_message(dataset@),
{
    let mut out = "target recovery dataset '".to_owned();
    out.append(dataset);
    out.append("' already exists");
    out
}

/// The message that the key of a recovered dataset is not loaded.
pub open spec fn key_missing_message(dataset: Seq<char>) -> Seq<char> {
    "target recovery dataset '"@ + dataset
        + "' is encrypted but key is unavailable; load key on target before failover"@
}

fn key_missing(dataset: &str) -> (r: String)
    ensures
        r@ == key_missing_message(dataset@),
{
    let mut out = "target recovery dataset '".to_owned();
    out.append(dataset);
    out.append("' is encrypted but key is unavailable; load key on target before failover");
    out
}

/// The check that a recovered dataset does not exist yet.
pub open spec fn check_part(dataset: Seq<char>) -> Seq<char> {
    "zfs list -H -o name "@ + escaped(dataset) + " >/dev/null 2>&1 && { echo "@
        + escaped(dataset_taken_message(dataset)) + " >&2; exit 1; }\n"@
}

fn check_text(dataset: &str) -> (r: String)
    ensures
        r@ == check_part(dataset@),
{
    let taken = dataset_taken(dataset);
    let mut out = "zfs list -H -o name ".to_owned();
    push_escaped(&mut out, dataset);
    out.append(" >/dev/null 2>&1 && { echo ");
    push_escaped(&mut out, taken.as_str());
    out.append(" >&2; exit 1; }\n");
    out
}

/// The part that receives a disk and checks that its key is loaded.
pub open spec fn receive_part(dataset: Seq<char>) -> Seq<char> {
    "printf '%s\\n' "@ + escaped(dataset)
        + " >> \"$CREATED_DATASETS_FILE\"\nzfs send -w \"$source_snapshot\" | zfs recv -u "@
        + escaped(dataset) + "\nif [ \"$(zfs get -H -o value encryption "@ + escaped(dataset)
        + " 2>/dev/null || echo off)\" != \"off\" ]; then\n  key_status=\"$(zfs get -H -o value keystatus "@
        + escaped(dataset)
        + " 2>/dev/null || echo unavailable)\"\n  if [ \"$key_status\" != \"available\" ]; then\n    echo "@
        + escaped(key_missing_message(dataset)) + " >&2\n    exit 1\n  fi\nfi\n"@
}

fn receive_text(dataset: &str) -> (r: String)
    ensures
        r@ == receive_part(dataset@),
{
    let missing = key_missing(dataset);
    let mut out = "printf '%s\\n' ".to_owned();
    push_escaped(&mut out, dataset);
    out.append(" >> \"$CREATED_DATASETS_FILE\"\nzfs send -w \"$source_snapshot\" | zfs recv -u ");
    push_escaped(&mut out, dataset);
    out.append("\nif [ \"$(zfs get -H -o value encryption ");
    push_escaped(&mut out, dataset);
    out.append(" 2>/dev/null || echo off)\" != \"off\" ]; then\n  key_status=\"$(zfs get -H -o value keystatus ");
    push_escaped(&mut out, dataset);
    out.append(" 2>/dev/null || echo unavailable)\"\n  if [ \"$key_status\" != \"available\" ]; then\n    echo ");
    push_escaped(&mut out, missing.as_str());
    out.append(" >&2\n    exit 1\n  fi\nfi\n");
    out
}

/// The line that gives the recovered guest a setting.
pub open spec fn set_line(vmid: u32, key: Seq<char>, value: Seq<char>) -> Seq<char> {
    "qm set "@ + decimal(vmid as nat) + " --"@ + key + " "@ + escaped(value) + "\n"@
}

fn set_text(vmid: u32, key: &str, value: &str) -> (r: String)
    ensures
        r@ == set_line(vmid, key@, value@),
{
    let mut out = "qm set ".to_owned();
    push_decimal(&mut out, vmid as u64);
    out.append(" --");
    out.append(key);
    out.append(" ");
    push_escaped(&mut out, value);
    out.append("\n");
    out
}

/// The message that a network setting is left out.
pub open spec fn network_skipped_message(key: Seq<char>, value: Seq<char>) -> Seq<char> {
    "WARN: skipped recovered network setting '"@ + key + "="@ + value
        + "', configure networking manually on the recovery VM"@
}

fn network_skipped(key: &str, value: &str) -> (r: String)
    ensures
        r@ == network_skipped_message(key@, value@),
{
    let mut out = "WARN: skipped recovered network setting '".to_owned();
    out.append(key);
    out.append("=");
    out.append(value);
    out.append("', configure networking manually on the recovery VM");
    out
}

/// The line that warns of a network setting: the target's networks may be others than the source's.
pub open spec fn network_line(key: Seq<char>, value: Seq<char>) -> Seq<char> {
    "echo "@ + escaped(network_skipped_message(key, value)) + " >&2\n"@
}

fn network_text(key: &str, value: &str) -> (r: String)
    ensures
        r@ == network_line(key@, value@),
{
    let skipped = network_skipped(key, value);
    let mut out = "echo ".to_owned();
    push_escaped(&mut out, skipped.as_str());
    out.append(" >&2\n");
    out
}

/// The message that a boot setting is left out.
pub open spec fn boot_skipped_message(key: Seq<char>, value: Seq<char>) -> Seq<char> {
    "WARN: skipping incompatible recovered boot setting '"@ + key + "="@ + value + "'"@
}

fn boot_skipped(key: &str, value: &str) -> (r: String)
    ensures
        r@ == boot_skipped_message(key@, value@),
{
    let mut out = "WARN: skipping incompatible recovered boot setting '".to_owned();
    out.append(key);
    out.append("=");
    out.append(value);
    out.append("'");
    out
}

/// The line that tries a boot setting: it may name a device that was not replayed.
pub open spec fn boot_line(vmid: u32, key: Seq<char>, value: Seq<char>) -> Seq<char> {
    "qm set "@ + decimal(vmid as nat) + " --"@ + key + " "@ + escaped(value)
        + " >/dev/null 2>&1 || echo "@ + escaped(boot_skipped_message(key, value)) + " >&2\n"@
}

fn boot_text(vmid: u32, key: &str, value: &str) -> (r: String)
    ensures
        r@ == boot_line(vmid, key@, value@),
{
    let skipped = boot_skipped(key, value);
    let mut out = "qm set ".to_owned();
    push_decimal(&mut out, vmid as u64);
    out.append(" --");
    out.append(key);
    out.append(" ");
    push_escaped(&mut out, value);
    out.append(" >/dev/null 2>&1 || echo ");
    push_escaped(&mut out, skipped.as_str());
    out.append(" >&2\n");
    out
}

/// The part that creates the recovered guest.
pub open spec fn create_part(request: OffsiteFailoverRequest, parsed: QemuView) -> Seq<char> {
    "qm create "@ + decimal(request.recovery_vmid as nat) + " --name "@
        + escaped(recovered_name_of(request, parsed)) + "\nCREATED_VM=1\n"@
}

fn create_text(request: &OffsiteFailoverRequest, parsed: &ParsedQemuConfig) -> (r: String)
    ensures
        r@ == create_part(*request, parsed@),
{
    let name = recovered_name(request, parsed);
    let mut out = "qm create ".to_owned();
    push_decimal(&mut out, request.recovery_vmid as u64);
    out.append(" --name ");
    push_escaped(&mut out, name.as_str());
    out.append("\nCREATED_VM=1\n");
    out
}

/// The message that the recovered guest is there.
pub open spec fn prepared_message(
    job: OffsiteReplicationJob,
    request: OffsiteFailoverRequest,
) -> Seq<char> {
    "prepared recovery VM "@ + decimal(request.recovery_vmid as nat) + " on target node "@
        + job.target_node@
}

fn prepared_words(job: &OffsiteReplicationJob, request: &OffsiteFailoverRequest) -> (r: String)
    ensures
        r@ == prepared_message(*job, *request),
{
    let mut out = "prepared recovery VM ".to_owned();
    push_decimal(&mut out, request.recovery_vmid as u64);
    out.append(" on target node ");
    out.append(job.target_node.as_str());
    out
}

/// The part that ends the script.
pub open spec fn closing_part(
    job: OffsiteReplicationJob,
    request: OffsiteFailoverRequest,
) -> Seq<char> {
    "STATUS=0\ntrap - EXIT\n"@ + "echo "@ + escaped(prepared_message(job, request)) + "\n"@
}

fn closing_text(job: &OffsiteReplicationJob, request: &OffsiteFailoverRequest) -> (r: String)
    ensures
        r@ == closing_part(*job, *request),
{
    let prepared = prepared_words(job, request);
    let mut out = "STATUS=0\ntrap - EXIT\n".to_owned();
    out.append("echo ");
    push_escaped(&mut out, prepared.as_str());
    out.append("\n");
    out
}

/// The part that settles which snapshot a disk is received from: the preferred one where it exists.
pub open spec fn choose_part(
    preferred_in: Option<Seq<char>>,
    basename: Seq<char>,
    occurrence: nat,
    hint: Seq<char>,
) -> Seq<char> {
    match preferred_in {
        Some(preferred) => "if zfs list -H -o name "@ + escaped(preferred)
            + " >/dev/null 2>&1; then\n  source_snapshot="@ + escaped(preferred)
            + "\nelse\n  source_snapshot=\"$(resolve_recovery_snapshot "@ + escaped(basename) + " "@
            + decimal(occurrence) + " "@ + escaped(hint) + ")\"\nfi\n"@,
        None => "source_snapshot=\"$(resolve_recovery_snapshot "@ + escaped(basename) + " "@
            + decimal(occurrence) + " "@ + escaped(hint) + ")\"\n"@,
    }
}

fn choose_text(
    preferred_in: &Option<String>,
    basename: &str,
    occurrence: u64,
    hint: &str,
) -> (r: String)
    ensures
        r@ == choose_part(opt_text(*preferred_in), basename@, occurrence as nat, hint@),
{
    match preferred_in {
        Some(preferred) => {
            let mut out = "if zfs list -H -o name ".to_owned();
            push_escaped(&mut out, preferred.as_str());
            out.append(" >/dev/null 2>&1; then\n  source_snapshot=");
            push_escaped(&mut out, preferred.as_str());
            out.append("\nelse\n  source_snapshot=\"$(resolve_recovery_snapshot ");
            push_escaped(&mut out, basename);
            out.append(" ");
            push_decimal(&mut out, occurrence);
            out.append(" ");
            push_escaped(&mut out, hint);
            out.append(")\"\nfi\n");
            out
        },
        None => {
            let mut out = "source_snapshot=\"$(resolve_recovery_snapshot ".to_owned();
            push_escaped(&mut out, basename);
            out.append(" ");
            push_decimal(&mut out, occurrence);
            out.append(" ");
            push_escaped(&mut out, hint);
            out.append(")\"\n");
            out
        },
    }
}

/// The dataset that a disk is recovered into; a duplicate has its key at the end of the name.
pub open spec fn recovery_dataset(
    job: OffsiteReplicationJob,
    disks: Seq<DiskView>,
    i: int,
    base: Seq<char>,
) -> Seq<char> {
    job.target_dataset@ + "/"@ + (if is_duplicate(disks, i) {
        base + "-"@ + dataset_sanitized(disks[i].key)
    } else {
        base
    })
}

/// The snapshot that a disk is best received from: the one beside the selected snapshot's dataset.
/// Nothing is preferred for a duplicate.
pub open spec fn preferred_snapshot(
    job: OffsiteReplicationJob,
    request: OffsiteFailoverRequest,
    suffix: Seq<char>,
    disks: Seq<DiskView>,
    i: int,
) -> Option<Seq<char>> {
    match source_parent(request.snapshot@) {
        Some(parent) if !is_duplicate(disks, i) => Some(
            target_for_source(job.target_dataset@, parent + "/"@ + disks[i].source_basename) + "@"@
                + suffix,
        ),
        _ => None,
    }
}

/// The lineage that a disk is searched in. A duplicate is searched in all of them.
pub open spec fn lineage_hint(lineage: Option<Seq<char>>, disks: Seq<DiskView>, i: int) -> Seq<
    char,
> {
    match lineage {
        Some(prefix) if !is_duplicate(disks, i) => prefix,
        _ => ""@,
    }
}

/// The part of one disk, whose name is recovered as `base`.
pub open spec fn disk_part(
    job: OffsiteReplicationJob,
    request: OffsiteFailoverRequest,
    suffix: Seq<char>,
    lineage: Option<Seq<char>>,
    disks: Seq<DiskView>,
    i: int,
    base: Seq<char>,
) -> Seq<char> {
    let dataset = recovery_dataset(job, disks, i, base);
    check_part(dataset) + choose_part(
        preferred_snapshot(job, request, suffix, disks, i),
        disks[i].source_basename,
        named(disks, disks[i].source_basename, i + 1),
        lineage_hint(lineage, disks, i),
    ) + receive_part(dataset)
}

/// The parts of the first `n` disks; a disk of another guest is refused.
pub open spec fn disk_parts(
    job: OffsiteReplicationJob,
    request: OffsiteFailoverRequest,
    suffix: Seq<char>,
    lineage: Option<Seq<char>>,
    disks: Seq<DiskView>,
    n: int,
) -> Result<Seq<char>, Seq<char>>
    decreases n,
{
    if n <= 0 {
        Ok(Seq::empty())
    } else {
        match disk_parts(job, request, suffix, lineage, disks, n - 1) {
            Err(e) => Err(e),
            Ok(front) => match recovered_basename(
                disks[n - 1].source_basename,
                job.vmid as nat,
                request.recovery_vmid as nat,
            ) {
                Err(e) => Err(e),
                Ok(base) => Ok(
                    front + disk_part(job, request, suffix, lineage, disks, n - 1, base),
                ),
            },
        }
    }
}

/// The value that attaches a disk: its volume and its options.
pub open spec fn attach_value(storage: Seq<char>, base: Seq<char>, options: Option<Seq<char>>) -> Seq<
    char,
> {
    let volume = storage + ":"@ + base;
    match options {
        Some(options) => volume + ","@ + options,
        None => volume,
    }
}

/// The lines that attach the first `n` disks; a disk of another guest is refused.
pub open spec fn attach_lines(
    job: OffsiteReplicationJob,
    request: OffsiteFailoverRequest,
    storage: Seq<char>,
    disks: Seq<DiskView>,
    n: int,
) -> Result<Seq<char>, Seq<char>>
    decreases n,
{
    if n <= 0 {
        Ok(Seq::empty())
    } else {
        match attach_lines(job, request, storage, disks, n - 1) {
            Err(e) => Err(e),
            Ok(front) => match recovered_basename(
                disks[n - 1].source_basename,
                job.vmid as nat,
                request.recovery_vmid as nat,
            ) {
                Err(e) => Err(e),
                Ok(base) => Ok(
                    front + set_line(
                        request.recovery_vmid,
                        disks[n - 1].key,
                        attach_value(storage, base, disks[n - 1].attach_options),
                    ),
                ),
            },
        }
    }
}

/// How a setting is replayed.
#[derive(Clone, Copy, PartialEq, Eq, Structural)]
pub enum Replay {
    /// Not at all: the recovered guest has a name of its own.
    Name,
    /// Not at all, with a warning.
    Network,
    /// After the disks, and without it where it fails.
    Boot,
    /// Before the disks.
    Direct,
}

/// How the setting with the given key is replayed.
pub open spec fn replay_of(key: Seq<char>) -> Replay {
    if key == "name"@ {
        Replay::Name
    } else if has_prefix(key, "net"@) {
        Replay::Network
    } else if key == "boot"@ || key == "bootdisk"@ {
        Replay::Boot
    } else {
        Replay::Direct
    }
}

/// The line of a setting.
pub open spec fn setting_line(vmid: u32, key: Seq<char>, value: Seq<char>) -> Seq<char> {
    match replay_of(key) {
        Replay::Name => Seq::empty(),
        Replay::Network => network_line(key, value),
        Replay::Boot => boot_line(vmid, key, value),
        Replay::Direct => set_line(vmid, key, value),
    }
}

/// The lines of those settings that are replayed in the given way.
pub open spec fn setting_lines(
    vmid: u32,
    settings: Seq<(Seq<char>, Seq<char>)>,
    way: Replay,
) -> Seq<char>
    decreases settings.len(),
{
    if settings.len() == 0 {
        Seq::empty()
    } else {
        let front = setting_lines(vmid, settings.drop_last(), way);
        let (key, value) = settings.last();
        if replay_of(key) == way {
            front + setting_line(vmid, key, value)
        } else {
            front
        }
    }
}

/// The line that starts the recovered guest, where that was requested.
pub open spec fn start_line(request: OffsiteFailoverRequest) -> Seq<char> {
    if request.start_guest {
        "qm start "@ + decimal(request.recovery_vmid as nat) + "\n"@
    } else {
        Seq::empty()
    }
}

/// The script that promotes a recovery point.
pub open spec fn failover_script(
    job: OffsiteReplicationJob,
    request: OffsiteFailoverRequest,
    parsed: QemuView,
    storage: Seq<char>,
    lineage: Option<Seq<char>>,
) -> Result<Seq<char>, Seq<char>> {
    let vmid = request.recovery_vmid;
    let disks = parsed.disks;
    match snapshot_suffix(request.snapshot@) {
        Err(e) => Err(e),
        Ok(suffix) => match disk_parts(job, request, suffix, lineage, disks, disks.len() as int) {
            Err(e) => Err(e),
            Ok(received) => match attach_lines(job, request, storage, disks, disks.len() as int) {
                Err(e) => Err(e),
                Ok(attached) => Ok(
                    preamble_part(job, request, storage, suffix) + received + create_part(
                        request,
                        parsed,
                    ) + setting_lines(vmid, parsed.settings, Replay::Direct) + setting_lines(
                        vmid,
                        parsed.settings,
                        Replay::Network,
                    ) + attached + setting_lines(vmid, parsed.settings, Replay::Boot) + start_line(
                        request,
                    ) + closing_part(job, request),
                ),
            },
        },
    }
}

fn source_parent_of(snapshot: &str) -> (r: Option<String>)
    ensures
        opt_text(r) == source_parent(snapshot@),
{
    match split_once(snapshot, "@") {
        None => None,
        Some((dataset, _)) => match rsplit_once(dataset.as_str(), "/") {
            None => None,
            Some((parent, _)) => Some(parent),
        },
    }
}

fn recovered_name(request: &OffsiteFailoverRequest, parsed: &ParsedQemuConfig) -> (r: String)
    ensures
        r@ == recovered_name_of(*request, parsed@),
{
    match &request.recovered_name {
        Some(name) => name.clone(),
        None => match &parsed.name {
            Some(name) => {
                let mut recovered = name.clone();
                recovered.append("-dr");
                recovered
            },
            None => {
                let mut recovered = "recovery-".to_owned();
                push_decimal(&mut recovered, request.recovery_vmid as u64);
                recovered
            },
        },
    }
}

fn count_named(disks: &Vec<ParsedQemuDisk>, name: &str, n: usize) -> (r: u64)
    requires
        n <= disks.len(),
    ensures
        r == named(crate::qemu::disks_view(disks@), name@, n as int),
        r <= n,
{
    let ghost all = crate::qemu::disks_view(disks@);
    let mut count: u64 = 0;
    let mut i: usize = 0;
    while i < n
        invariant
            i <= n <= disks.len(),
            all == crate::qemu::disks_view(disks@),
            count == named(all, name@, i as int),
            count <= i,
        decreases n - i,
    {
        if same(disks[i].source_basename.as_str(), name) {
            count += 1;
        }
        i += 1;
    }
    count
}

fn disk_text(
    job: &OffsiteReplicationJob,
    request: &OffsiteFailoverRequest,
    suffix: &str,
    lineage: &Option<String>,
    disks: &Vec<ParsedQemuDisk>,
    i: usize,
    base: String,
) -> (r: String)
    requires
        i < disks.len(),
    ensures
        r@ == disk_part(
            *job,
            *request,
            suffix@,
            opt_text(*lineage),
            crate::qemu::disks_view(disks@),
            i as int,
            base@,
        ),
{
    let basename = disks[i].source_basename.as_str();
    let total = count_named(disks, basename, disks.len());
    let occurrence = count_named(disks, basename, i + 1);
    let duplicate = total > 1;
    let ghost all = crate::qemu::disks_view(disks@);
    assert(all[i as int] == disks@[i as int]@);
    assert(duplicate == is_duplicate(all, i as int));

    let mut target_basename = base;
    if duplicate {
        let key = sanitize_dataset_component(disks[i].key.as_str());
        target_basename.append("-");
        target_basename.append(key.as_str());
    }
    let mut target_dataset = job.target_dataset.clone();
    target_dataset.append("/");
    target_dataset.append(target_basename.as_str());

    let hint = if duplicate {
        "".to_owned()
    } else {
        match lineage {
            Some(prefix) => prefix.clone(),
            None => "".to_owned(),
        }
    };
    let preferred: Option<String> = if duplicate {
        None
    } else {
        match source_parent_of(request.snapshot.as_str()) {
            Some(parent) => {
                let mut dataset = parent;
                dataset.append("/");
                dataset.append(basename);
                let mut snapshot = target_dataset_for_source_dataset(
                    job.target_dataset.as_str(),
                    dataset.as_str(),
                );
                snapshot.append("@");
                snapshot.append(suffix);
                Some(snapshot)
            },
            None => None,
        }
    };
    let choice = choose_text(&preferred, basename, occurrence, hint.as_str());
    let receive = receive_text(target_dataset.as_str());
    let mut part = check_text(target_dataset.as_str());
    part.append(choice.as_str());
    part.append(receive.as_str());
    part
}

fn disks_text(
    job: &OffsiteReplicationJob,
    request: &OffsiteFailoverRequest,
    suffix: &str,
    lineage: &Option<String>,
    disks: &Vec<ParsedQemuDisk>,
) -> (r: Result<String, Error>)
    ensures
        text_outcome(r) == disk_parts(
            *job,
            *request,
            suffix@,
            opt_text(*lineage),
            crate::qemu::disks_view(disks@),
            disks@.len() as int,
        ),
{
    let ghost all = crate::qemu::disks_view(disks@);
    let mut parts = String::new();
    let mut i: usize = 0;
    assert(parts@ =~= Seq::<char>::empty());
    while i < disks.len()
        invariant
            i <= disks.len(),
            all == crate::qemu::disks_view(disks@),
            disk_parts(*job, *request, suffix@, opt_text(*lineage), all, i as int) == Ok::<
                Seq<char>,
                Seq<char>,
            >(parts@),
        decreases disks.len() - i,
    {
        assert(all[i as int] == disks@[i as int]@);
        match recover_disk_basename(
            disks[i].source_basename.as_str(),
            job.vmid,
            request.recovery_vmid,
        ) {
            Err(e) => {
                let ghost error = Err::<Seq<char>, Seq<char>>(e@);
                proof {
                    assert(disk_parts(
                        *job,
                        *request,
                        suffix@,
                        opt_text(*lineage),
                        all,
                        i + 1,
                    ) == error);
                    lemma_disk_error(
                        *job,
                        *request,
                        suffix@,
                        opt_text(*lineage),
                        all,
                        i + 1,
                        all.len() as int,
                    );
                }
                return Err(e);
            },
            Ok(base) => {
                let part = disk_text(job, request, suffix, lineage, disks, i, base);
                parts.append(part.as_str());
            },
        }
        i += 1;
    }
    assert(all.len() == disks.len());
    Ok(parts)
}

proof fn lemma_disk_error(
    job: OffsiteReplicationJob,
    request: OffsiteFailoverRequest,
    suffix: Seq<char>,
    lineage: Option<Seq<char>>,
    disks: Seq<DiskView>,
    m: int,
    n: int,
)
    requires
        m <= n,
        disk_parts(job, request, suffix, lineage, disks, m) is Err,
    ensures
        disk_parts(job, request, suffix, lineage, disks, n) == disk_parts(
            job,
            request,
            suffix,
            lineage,
            disks,
            m,
        ),
    decreases n - m,
{
    if m < n {
        lemma_disk_error(job, request, suffix, lineage, disks, m, n - 1);
    }
}

proof fn lemma_attach_error(
    job: OffsiteReplicationJob,
    request: OffsiteFailoverRequest,
    storage: Seq<char>,
    disks: Seq<DiskView>,
    m: int,
    n: int,
)
    requires
        m <= n,
        attach_lines(job, request, storage, disks, m) is Err,
    ensures
        attach_lines(job, request, storage, disks, n) == attach_lines(
            job,
            request,
            storage,
            disks,
            m,
        ),
    decreases n - m,
{
    if m < n {
        lemma_attach_error(job, request, storage, disks, m, n - 1);
    }
}

fn attach_text(
    job: &OffsiteReplicationJob,
    request: &OffsiteFailoverRequest,
    storage: &str,
    disks: &Vec<ParsedQemuDisk>,
) -> (r: Result<String, Error>)
    ensures
        text_outcome(r) == attach_lines(
            *job,
            *request,
            storage@,
            crate::qemu::disks_view(disks@),
            disks@.len() as int,
        ),
{
    let ghost all = crate::qemu::disks_view(disks@);
    let mut lines = String::new();
    let mut i: usize = 0;
    assert(lines@ =~= Seq::<char>::empty());
    while i < disks.len()
        invariant
            i <= disks.len(),
            all == crate::qemu::disks_view(disks@),
            attach_lines(*job, *request, storage@, all, i as int) == Ok::<Seq<char>, Seq<char>>(
                lines@,
            ),
        decreases disks.len() - i,
    {
        assert(all[i as int] == disks@[i as int]@);
        match recover_disk_basename(
            disks[i].source_basename.as_str(),
            job.vmid,
            request.recovery_vmid,
        ) {
            Err(e) => {
                proof {
                    lemma_attach_error(*job, *request, storage@, all, i + 1, all.len() as int);
                }
                return Err(e);
            },
            Ok(base) => {
                let mut value = storage.to_owned();
                value.append(":");
                value.append(base.as_str());
                if let Some(options) = &disks[i].attach_options {
                    value.append(",");
                    value.append(options.as_str());
                }
                let line = set_text(request.recovery_vmid, disks[i].key.as_str(), value.as_str());
                lines.append(line.as_str());
            },
        }
        i += 1;
    }
    assert(all.len() == disks.len());
    Ok(lines)
}

fn replay_way(key: &str) -> (r: Replay)
    ensures
        r == replay_of(key@),
{
    if same(key, "name") {
        Replay::Name
    } else if starts_with(key, "net") {
        Replay::Network
    } else if same(key, "boot") || same(key, "bootdisk") {
        Replay::Boot
    } else {
        Replay::Direct
    }
}

fn settings_text(vmid: u32, settings: &Vec<(String, String)>, way: Replay) -> (r: String)
    requires
        way != Replay::Name,
    ensures
        r@ == setting_lines(vmid, crate::qemu::settings_view(settings@), way),
{
    let ghost all = crate::qemu::settings_view(settings@);
    let mut lines = String::new();
    let mut i: usize = 0;
    assert(all.take(0) =~= seq![]);
    assert(lines@ =~= Seq::<char>::empty());
    while i < settings.len()
        invariant
            i <= settings.len(),
            way != Replay::Name,
            all == crate::qemu::settings_view(settings@),
            lines@ == setting_lines(vmid, all.take(i as int), way),
        decreases settings.len() - i,
    {
        assert(all.take(i + 1).drop_last() =~= all.take(i as int));
        assert(all.take(i + 1).last() == (settings@[i as int].0@, settings@[i as int].1@));
        let key = settings[i].0.as_str();
        let value = settings[i].1.as_str();
        if replay_way(key) == way {
            let line = match way {
                Replay::Network => network_text(key, value),
                Replay::Boot => boot_text(vmid, key, value),
                _ => set_text(vmid, key, value),
            };
            lines.append(line.as_str());
        }
        i += 1;
    }
    assert(all.len() == settings.len());
    assert(all.take(all.len() as int) =~= all);
    lines
}

fn start_text(request: &OffsiteFailoverRequest) -> (r: String)
    ensures
        r@ == start_line(*request),
{
    if request.start_guest {
        let mut line = "qm start ".to_owned();
        push_decimal(&mut line, request.recovery_vmid as u64);
        line.append("\n");
        line
    } else {
        String::new()
    }
}

/// The script that promotes a recovery point to a virtual machine on the target.
pub fn build_qemu_failover_script(
    job: &OffsiteReplicationJob,
    request: &OffsiteFailoverRequest,
    parsed: &ParsedQemuConfig,
    target_storage_id: &str,
    selected_lineage_prefix: &Option<String>,
) -> (r: Result<String, Error>)
    ensures
        text_outcome(r) == failover_script(
            *job,
            *request,
            parsed@,
            target_storage_id@,
            opt_text(*selected_lineage_prefix),
        ),
{
    let suffix = match extract_snapshot_suffix(request.snapshot.as_str()) {
        Ok(suffix) => suffix,
        Err(e) => {
            return Err(e);
        },
    };
    let received = match disks_text(
        job,
        request,
        suffix.as_str(),
        selected_lineage_prefix,
        &parsed.disks,
    ) {
        Ok(received) => received,
        Err(e) => {
            return Err(e);
        },
    };
    let attached = match attach_text(job, request, target_storage_id, &parsed.disks) {
        Ok(attached) => attached,
        Err(e) => {
            return Err(e);
        },
    };
    let vmid: u32 = request.recovery_vmid;
    let created = create_text(request, parsed);
    let direct = settings_text(vmid, &parsed.settings, Replay::Direct);
    let network = settings_text(vmid, &parsed.settings, Replay::Network);
    let boot = settings_text(vmid, &parsed.settings, Replay::Boot);
    let start = start_text(request);
    let closing = closing_text(job, request);

    let mut script = preamble_text(job, request, target_storage_id, suffix.as_str());
    script.append(received.as_str());
    script.append(created.as_str());
    script.append(direct.as_str());
    script.append(network.as_str());
    script.append(attached.as_str());
    script.append(boot.as_str());
    script.append(start.as_str());
    script.append(closing.as_str());
    Ok(script)
}

// ---------------------------------------------------------------------------------------------
// Laws
// ---------------------------------------------------------------------------------------------

proof fn lemma_parts_ok(
    job: OffsiteReplicationJob,
    request: OffsiteFailoverRequest,
    suffix: Seq<char>,
    lineage: Option<Seq<char>>,
    storage: Seq<char>,
    disks: Seq<DiskView>,
    n: int,
)
    requires
        0 <= n <= disks.len(),
        forall|i: int|
            0 <= i < disks.len() ==> recovered_basename(
                (#[trigger] disks[i]).source_basename,
                job.vmid as nat,
                request.recovery_vmid as nat,
            ) is Ok,
    ensures
        disk_parts(job, request, suffix, lineage, disks, n) is Ok,
        attach_lines(job, request, storage, disks, n) is Ok,
    decreases n,
{
    if n > 0 {
        lemma_parts_ok(job, request, suffix, lineage, storage, disks, n - 1);
        assert(recovered_basename(
            disks[n - 1].source_basename,
            job.vmid as nat,
            request.recovery_vmid as nat,
        ) is Ok);
    }
}

/// A script can be built for every accepted snapshot and every configuration of the job's guest
/// that was read.
pub proof fn law_script_can_be_built_for_read_configuration(
    job: OffsiteReplicationJob,
    request: OffsiteFailoverRequest,
    config: Seq<char>,
    storage: Seq<char>,
    lineage: Option<Seq<char>>,
)
    requires
        snapshot_verdict(request.snapshot@) is Ok,
        parsed_config(config, job.vmid as nat) is Ok,
    ensures
        failover_script(
            job,
            request,
            parsed_config(config, job.vmid as nat)->Ok_0,
            storage,
            lineage,
        ) is Ok,
{
    let parsed = parsed_config(config, job.vmid as nat)->Ok_0;
    let suffix = snapshot_suffix(request.snapshot@)->Ok_0;
    law_parsed_disks_can_be_recovered(config, job.vmid as nat, request.recovery_vmid as nat);
    lemma_parts_ok(
        job,
        request,
        suffix,
        lineage,
        storage,
        parsed.disks,
        parsed.disks.len() as int,
    );
}

/// A requested name is given to the recovered guest as it is.
pub proof fn law_requested_name_is_kept(request: OffsiteFailoverRequest, parsed: QemuView)
    requires
        request.recovered_name is Some,
    ensures
        recovered_name_of(request, parsed) == request.recovered_name->0@,
{
}

proof fn lemma_named_monotone(disks: Seq<DiskView>, name: Seq<char>, m: int, n: int)
    requires
        0 <= m <= n,
    ensures
        named(disks, name, m) <= named(disks, name, n),
    decreases n,
{
    if m < n {
        lemma_named_monotone(disks, name, m, n - 1);
    }
}

/// Disks that have the same name on the source are told apart by how often the name came before:
/// the later one has the higher number, and each is at least one.
pub proof fn law_duplicates_are_numbered_apart(disks: Seq<DiskView>, i: int, j: int)
    requires
        0 <= i < j < disks.len(),
        disks[i].source_basename == disks[j].source_basename,
    ensures
        is_duplicate(disks, i),
        is_duplicate(disks, j),
        1 <= named(disks, disks[i].source_basename, i + 1) < named(
            disks,
            disks[j].source_basename,
            j + 1,
        ),
{
    let name = disks[i].source_basename;
    lemma_named_monotone(disks, name, i + 1, j);
    lemma_named_monotone(disks, name, j + 1, disks.len() as int);
}

/// No network setting is replayed: the script only warns of it.
pub proof fn law_network_settings_are_not_replayed(vmid: u32, key: Seq<char>, value: Seq<char>)
    requires
        has_prefix(key, "net"@),
    ensures
        setting_line(vmid, key, value) == network_line(key, value),
{
    reveal_strlit("net");
    reveal_strlit("name");
    if key == "name"@ {
        assert(key[1] == 'a');
        assert(key.take(3)[1] == 'e');
    }
}

proof fn lemma_attach_line_occurs(
    job: OffsiteReplicationJob,
    request: OffsiteFailoverRequest,
    storage: Seq<char>,
    disks: Seq<DiskView>,
    n: int,
    i: int,
)
    requires
        0 <= i < n,
        attach_lines(job, request, storage, disks, n) is Ok,
    ensures
        recovered_basename(
            disks[i].source_basename,
            job.vmid as nat,
            request.recovery_vmid as nat,
        ) is Ok,
        occurs(
            attach_lines(job, request, storage, disks, n)->Ok_0,
            set_line(
                request.recovery_vmid,
                disks[i].key,
                attach_value(
                    storage,
                    recovered_basename(
                        disks[i].source_basename,
                        job.vmid as nat,
                        request.recovery_vmid as nat,
                    )->Ok_0,
                    disks[i].attach_options,
                ),
            ),
        ),
    decreases n,
{
    let nothing = Seq::<char>::empty();
    let lines = attach_lines(job, request, storage, disks, n)->Ok_0;
    let front = attach_lines(job, request, storage, disks, n - 1)->Ok_0;
    let base = recovered_basename(
        disks[n - 1].source_basename,
        job.vmid as nat,
        request.recovery_vmid as nat,
    )->Ok_0;
    let line = set_line(
        request.recovery_vmid,
        disks[n - 1].key,
        attach_value(storage, base, disks[n - 1].attach_options),
    );
    if i == n - 1 {
        assert(lines =~= front + line + nothing);
        lemma_stands_where_put(front, line, nothing);
    } else {
        lemma_attach_line_occurs(job, request, storage, disks, n - 1, i);
        let base_i = recovered_basename(
            disks[i].source_basename,
            job.vmid as nat,
            request.recovery_vmid as nat,
        )->Ok_0;
        assert(lines =~= nothing + front + line);
        lemma_occurs_within(
            nothing,
            front,
            line,
            set_line(
                request.recovery_vmid,
                disks[i].key,
                attach_value(storage, base_i, disks[i].attach_options),
            ),
        );
    }
}

proof fn lemma_receive_part_occurs(
    job: OffsiteReplicationJob,
    request: OffsiteFailoverRequest,
    suffix: Seq<char>,
    lineage: Option<Seq<char>>,
    disks: Seq<DiskView>,
    n: int,
    i: int,
)
    requires
        0 <= i < n,
        disk_parts(job, request, suffix, lineage, disks, n) is Ok,
    ensures
        recovered_basename(
            disks[i].source_basename,
            job.vmid as nat,
            request.recovery_vmid as nat,
        ) is Ok,
        occurs(
            disk_parts(job, request, suffix, lineage, disks, n)->Ok_0,
            disk_part(
                job,
                request,
                suffix,
                lineage,
                disks,
                i,
                recovered_basename(
                    disks[i].source_basename,
                    job.vmid as nat,
                    request.recovery_vmid as nat,
                )->Ok_0,
            ),
        ),
    decreases n,
{
    let nothing = Seq::<char>::empty();
    let parts = disk_parts(job, request, suffix, lineage, disks, n)->Ok_0;
    let front = disk_parts(job, request, suffix, lineage, disks, n - 1)->Ok_0;
    let base = recovered_basename(
        disks[n - 1].source_basename,
        job.vmid as nat,
        request.recovery_vmid as nat,
    )->Ok_0;
    let part = disk_part(job, request, suffix, lineage, disks, n - 1, base);
    if i == n - 1 {
        assert(parts =~= front + part + nothing);
        lemma_stands_where_put(front, part, nothing);
    } else {
        lemma_receive_part_occurs(job, request, suffix, lineage, disks, n - 1, i);
        let base_i = recovered_basename(
            disks[i].source_basename,
            job.vmid as nat,
            request.recovery_vmid as nat,
        )->Ok_0;
        assert(parts =~= nothing + front + part);
        lemma_occurs_within(
            nothing,
            front,
            part,
            disk_part(job, request, suffix, lineage, disks, i, base_i),
        );
    }
}

proof fn lemma_setting_line_occurs(
    vmid: u32,
    settings: Seq<(Seq<char>, Seq<char>)>,
    way: Replay,
    i: int,
)
    requires
        0 <= i < settings.len(),
        replay_of(settings[i].0) == way,
    ensures
        occurs(
            setting_lines(vmid, settings, way),
            setting_line(vmid, settings[i].0, settings[i].1),
        ),
    decreases settings.len(),
{
    let nothing = Seq::<char>::empty();
    let all = setting_lines(vmid, settings, way);
    let front = setting_lines(vmid, settings.drop_last(), way);
    let line = setting_line(vmid, settings[i].0, settings[i].1);
    if i == settings.len() - 1 {
        assert(all =~= front + line + nothing);
        lemma_stands_where_put(front, line, nothing);
    } else {
        assert(settings.drop_last()[i] == settings[i]);
        lemma_setting_line_occurs(vmid, settings.drop_last(), way, i);
        let (key, value) = settings.last();
        let last = if replay_of(key) == way {
            setting_line(vmid, key, value)
        } else {
            nothing
        };
        assert(all =~= nothing + front + last);
        lemma_occurs_within(nothing, front, last, line);
    }
}

/// The guest is started last, and only on request. A request that starts the guest and one that
/// does not give scripts that differ in one line: it starts the recovered guest and stands right
/// before the end. Every disk is attached and every boot setting is tried before it.
pub proof fn law_guest_is_started_last(
    job: OffsiteReplicationJob,
    request: OffsiteFailoverRequest,
    other: OffsiteFailoverRequest,
    parsed: QemuView,
    storage: Seq<char>,
    lineage: Option<Seq<char>>,
) -> (parts: (Seq<char>, Seq<char>))
    requires
        request.start_guest,
        other == (OffsiteFailoverRequest { start_guest: false, ..request }),
        failover_script(job, request, parsed, storage, lineage) is Ok,
    ensures
        failover_script(job, request, parsed, storage, lineage)->Ok_0 == parts.0 + ("qm start "@
            + decimal(request.recovery_vmid as nat) + "\n"@) + parts.1,
        failover_script(job, other, parsed, storage, lineage) == Ok::<Seq<char>, Seq<char>>(
            parts.0 + parts.1,
        ),
        parts.1 == "STATUS=0\ntrap - EXIT\n"@ + "echo "@ + escaped(
            "prepared recovery VM "@ + decimal(request.recovery_vmid as nat) + " on target node "@
                + job.target_node@,
        ) + "\n"@,
        forall|i: int|
            0 <= i < parsed.disks.len() ==> occurs(
                parts.0,
                "qm set "@ + decimal(request.recovery_vmid as nat) + " --"@ + (
                #[trigger] parsed.disks[i]).key + " "@ + escaped(
                    attach_value(
                        storage,
                        recovered_basename(
                            parsed.disks[i].source_basename,
                            job.vmid as nat,
                            request.recovery_vmid as nat,
                        )->Ok_0,
                        parsed.disks[i].attach_options,
                    ),
                ) + "\n"@,
            ),
        forall|i: int|
            0 <= i < parsed.settings.len() && ((#[trigger] parsed.settings[i]).0 == "boot"@
                || parsed.settings[i].0 == "bootdisk"@) ==> occurs(
                parts.0,
                boot_line(request.recovery_vmid, parsed.settings[i].0, parsed.settings[i].1),
            ),
{
    let vmid = request.recovery_vmid;
    let disks = parsed.disks;
    let n = disks.len() as int;
    let nothing = Seq::<char>::empty();
    let suffix = snapshot_suffix(request.snapshot@)->Ok_0;
    lemma_same_disks(job, request, other, suffix, lineage, storage, disks, n);
    let received = disk_parts(job, request, suffix, lineage, disks, n)->Ok_0;
    let attached = attach_lines(job, request, storage, disks, n)->Ok_0;
    let boot = setting_lines(vmid, parsed.settings, Replay::Boot);
    let front = preamble_part(job, request, storage, suffix) + received + create_part(
        request,
        parsed,
    ) + setting_lines(vmid, parsed.settings, Replay::Direct) + setting_lines(
        vmid,
        parsed.settings,
        Replay::Network,
    );
    let a = front + attached + boot;
    let start = "qm start "@ + decimal(request.recovery_vmid as nat) + "\n"@;
    let end = closing_part(job, request);
    assert(preamble_part(job, request, storage, suffix) == preamble_part(
        job,
        other,
        storage,
        suffix,
    ));
    assert(a + nothing + end =~= a + end);
    assert forall|i: int| 0 <= i < disks.len() implies occurs(
        a,
        "qm set "@ + decimal(vmid as nat) + " --"@ + (#[trigger] disks[i]).key + " "@ + escaped(
            attach_value(
                storage,
                recovered_basename(
                    disks[i].source_basename,
                    job.vmid as nat,
                    vmid as nat,
                )->Ok_0,
                disks[i].attach_options,
            ),
        ) + "\n"@,
    ) by {
        lemma_attach_line_occurs(job, request, storage, disks, n, i);
        let base = recovered_basename(
            disks[i].source_basename,
            job.vmid as nat,
            vmid as nat,
        )->Ok_0;
        lemma_occurs_within(
            front,
            attached,
            boot,
            set_line(vmid, disks[i].key, attach_value(storage, base, disks[i].attach_options)),
        );
    }
    assert forall|i: int|
        0 <= i < parsed.settings.len() && ((#[trigger] parsed.settings[i]).0 == "boot"@
            || parsed.settings[i].0 == "bootdisk"@) implies occurs(
        a,
        boot_line(vmid, parsed.settings[i].0, parsed.settings[i].1),
    ) by {
        lemma_boot_keys(parsed.settings[i].0);
        lemma_setting_line_occurs(vmid, parsed.settings, Replay::Boot, i);
        assert(a =~= (front + attached) + boot + nothing);
        lemma_occurs_within(
            front + attached,
            boot,
            nothing,
            boot_line(vmid, parsed.settings[i].0, parsed.settings[i].1),
        );
    }
    (a, end)
}

proof fn lemma_boot_keys(key: Seq<char>)
    requires
        key == "boot"@ || key == "bootdisk"@,
    ensures
        replay_of(key) == Replay::Boot,
{
    reveal_strlit("boot");
    reveal_strlit("bootdisk");
    reveal_strlit("net");
    reveal_strlit("name");
    assert(key[0] == 'b');
    if has_prefix(key, "net"@) {
        assert(key.take(3)[0] == 'n');
    }
    if key == "name"@ {
        assert(key[0] == 'n');
    }
}

proof fn lemma_same_disks(
    job: OffsiteReplicationJob,
    request: OffsiteFailoverRequest,
    other: OffsiteFailoverRequest,
    suffix: Seq<char>,
    lineage: Option<Seq<char>>,
    storage: Seq<char>,
    disks: Seq<DiskView>,
    n: int,
)
    requires
        other == (OffsiteFailoverRequest { start_guest: false, ..request }),
    ensures
        disk_parts(job, other, suffix, lineage, disks, n) == disk_parts(
            job,
            request,
            suffix,
            lineage,
            disks,
            n,
        ),
        attach_lines(job, other, storage, disks, n) == attach_lines(
            job,
            request,
            storage,
            disks,
            n,
        ),
    decreases n,
{
    if n > 0 {
        lemma_same_disks(job, request, other, suffix, lineage, storage, disks, n - 1);
    }
}

/// The parts of the script before and after the line that creates the recovered guest.
spec fn around_create(
    job: OffsiteReplicationJob,
    request: OffsiteFailoverRequest,
    parsed: QemuView,
    storage: Seq<char>,
    lineage: Option<Seq<char>>,
) -> (Seq<char>, Seq<char>, Seq<char>) {
    let vmid = request.recovery_vmid;
    let n = parsed.disks.len() as int;
    let suffix = snapshot_suffix(request.snapshot@)->Ok_0;
    let received = disk_parts(job, request, suffix, lineage, parsed.disks, n)->Ok_0;
    let attached = attach_lines(job, request, storage, parsed.disks, n)->Ok_0;
    let set = setting_lines(vmid, parsed.settings, Replay::Direct) + setting_lines(
        vmid,
        parsed.settings,
        Replay::Network,
    );
    let end = attached + (setting_lines(vmid, parsed.settings, Replay::Boot) + start_line(request)
        + closing_part(job, request));
    (preamble_part(job, request, storage, suffix) + received, set, end)
}

proof fn lemma_around_create(
    job: OffsiteReplicationJob,
    request: OffsiteFailoverRequest,
    parsed: QemuView,
    storage: Seq<char>,
    lineage: Option<Seq<char>>,
)
    requires
        failover_script(job, request, parsed, storage, lineage) is Ok,
    ensures
        ({
            let (a, b, c) = around_create(job, request, parsed, storage, lineage);
            failover_script(job, request, parsed, storage, lineage)->Ok_0 == a + create_part(
                request,
                parsed,
            ) + (b + c)
        }),
{
    let vmid = request.recovery_vmid;
    let n = parsed.disks.len() as int;
    let suffix = snapshot_suffix(request.snapshot@)->Ok_0;
    lemma_nine_parts(
        preamble_part(job, request, storage, suffix),
        disk_parts(job, request, suffix, lineage, parsed.disks, n)->Ok_0,
        create_part(request, parsed),
        setting_lines(vmid, parsed.settings, Replay::Direct),
        setting_lines(vmid, parsed.settings, Replay::Network),
        attach_lines(job, request, storage, parsed.disks, n)->Ok_0,
        setting_lines(vmid, parsed.settings, Replay::Boot),
        start_line(request),
        closing_part(job, request),
    );
}

proof fn lemma_nine_parts(
    a: Seq<char>,
    b: Seq<char>,
    c: Seq<char>,
    d: Seq<char>,
    e: Seq<char>,
    f: Seq<char>,
    g: Seq<char>,
    h: Seq<char>,
    i: Seq<char>,
)
    ensures
        a + b + c + d + e + f + g + h + i == (a + b) + c + ((d + e) + (f + (g + h + i))),
{
    assert(a + b + c + d + e + f + g + h + i =~= (a + b) + c + ((d + e) + (f + (g + h + i))));
}

/// The guest is created only when every disk has been received, and each disk is attached only
/// after that. Before anything is received, the script checks that the recovered guest's ID is free.
pub proof fn law_guest_is_created_after_its_disks(
    job: OffsiteReplicationJob,
    request: OffsiteFailoverRequest,
    parsed: QemuView,
    storage: Seq<char>,
    lineage: Option<Seq<char>>,
) -> (parts: (Seq<char>, Seq<char>, Seq<char>))
    requires
        failover_script(job, request, parsed, storage, lineage) is Ok,
    ensures
        failover_script(job, request, parsed, storage, lineage)->Ok_0 == parts.0 + parts.1 + (
        "qm create "@ + decimal(request.recovery_vmid as nat) + " --name "@ + escaped(
            recovered_name_of(request, parsed),
        ) + "\nCREATED_VM=1\n"@) + parts.2,
        stand_in_order(
            parts.0,
            seq![
                "trap cleanup EXIT\n"@,
                "if qm status "@ + decimal(request.recovery_vmid as nat)
                    + " >/dev/null 2>&1; then\n  echo "@ + escaped(
                    "target VMID "@ + decimal(request.recovery_vmid as nat) + " already exists"@,
                ) + " >&2\n  exit 1\nfi\n"@,
                "SNAP_SUFFIX="@ + escaped(snapshot_suffix(request.snapshot@)->Ok_0) + "\n"@,
            ],
        ),
        forall|i: int|
            0 <= i < parsed.disks.len() ==> occurs(
                parts.1,
                "zfs send -w \"$source_snapshot\" | zfs recv -u "@ + escaped(
                    recovery_dataset(
                        job,
                        parsed.disks,
                        i,
                        recovered_basename(
                            (#[trigger] parsed.disks[i]).source_basename,
                            job.vmid as nat,
                            request.recovery_vmid as nat,
                        )->Ok_0,
                    ),
                ) + "\n"@,
            ),
        forall|i: int|
            0 <= i < parsed.disks.len() ==> occurs(
                parts.2,
                "qm set "@ + decimal(request.recovery_vmid as nat) + " --"@ + (
                #[trigger] parsed.disks[i]).key + " "@ + escaped(
                    attach_value(
                        storage,
                        recovered_basename(
                            parsed.disks[i].source_basename,
                            job.vmid as nat,
                            request.recovery_vmid as nat,
                        )->Ok_0,
                        parsed.disks[i].attach_options,
                    ),
                ) + "\n"@,
            ),
{
    let vmid = request.recovery_vmid;
    let disks = parsed.disks;
    let n = disks.len() as int;
    let nothing = Seq::<char>::empty();
    let suffix = snapshot_suffix(request.snapshot@)->Ok_0;
    let received = disk_parts(job, request, suffix, lineage, disks, n)->Ok_0;
    let attached = attach_lines(job, request, storage, disks, n)->Ok_0;
    let preamble = preamble_part(job, request, storage, suffix);
    let (_, set, end) = around_create(job, request, parsed, storage, lineage);
    lemma_around_create(job, request, parsed, storage, lineage);
    lemma_preamble(job, request, storage, suffix);
    assert forall|i: int| 0 <= i < disks.len() implies occurs(
        received,
        "zfs send -w \"$source_snapshot\" | zfs recv -u "@ + escaped(
            recovery_dataset(
                job,
                disks,
                i,
                recovered_basename(
                    (#[trigger] disks[i]).source_basename,
                    job.vmid as nat,
                    vmid as nat,
                )->Ok_0,
            ),
        ) + "\n"@,
    ) by {
        let base = recovered_basename(disks[i].source_basename, job.vmid as nat, vmid as nat)->Ok_0;
        let dataset = recovery_dataset(job, disks, i, base);
        let line = "zfs send -w \"$source_snapshot\" | zfs recv -u "@ + escaped(dataset) + "\n"@;
        lemma_receive_part_occurs(job, request, suffix, lineage, disks, n, i);
        lemma_receive_line(dataset);
        let part = disk_part(job, request, suffix, lineage, disks, i, base);
        let choice = choose_part(
            preferred_snapshot(job, request, suffix, disks, i),
            disks[i].source_basename,
            named(disks, disks[i].source_basename, i + 1),
            lineage_hint(lineage, disks, i),
        );
        assert(part =~= (check_part(dataset) + choice) + receive_part(dataset) + nothing);
        lemma_occurs_within(check_part(dataset) + choice, receive_part(dataset), nothing, line);
        lemma_occurs_in_occurring(received, part, line);
    }
    let rest = setting_lines(vmid, parsed.settings, Replay::Boot) + start_line(request)
        + closing_part(job, request);
    assert forall|i: int| 0 <= i < disks.len() implies occurs(
        set + end,
        "qm set "@ + decimal(vmid as nat) + " --"@ + (#[trigger] disks[i]).key + " "@ + escaped(
            attach_value(
                storage,
                recovered_basename(
                    disks[i].source_basename,
                    job.vmid as nat,
                    vmid as nat,
                )->Ok_0,
                disks[i].attach_options,
            ),
        ) + "\n"@,
    ) by {
        lemma_attach_line_occurs(job, request, storage, disks, n, i);
        let base = recovered_basename(disks[i].source_basename, job.vmid as nat, vmid as nat)->Ok_0;
        assert(set + end =~= set + attached + rest);
        lemma_occurs_within(
            set,
            attached,
            rest,
            set_line(vmid, disks[i].key, attach_value(storage, base, disks[i].attach_options)),
        );
    }
    (preamble, received, set + end)
}

proof fn lemma_occurs_in_occurring(s: Seq<char>, part: Seq<char>, line: Seq<char>)
    requires
        occurs(s, part),
        occurs(part, line),
    ensures
        occurs(s, line),
{
    let i = choose|i: int| crate::text::stands_at(s, part, i);
    assert(s =~= s.take(i) + part + s.skip(i + part.len())) by {
        assert forall|k: int| 0 <= k < part.len() implies s[i + k] == part[k] by {
            assert(s.subrange(i, i + part.len())[k] == part[k]);
        }
    }
    lemma_occurs_within(s.take(i), part, s.skip(i + part.len()), line);
}

proof fn lemma_receive_line(dataset: Seq<char>)
    ensures
        occurs(
            receive_part(dataset),
            "zfs send -w \"$source_snapshot\" | zfs recv -u "@ + escaped(dataset) + "\n"@,
        ),
{
    let name = escaped(dataset);
    let line = "zfs send -w \"$source_snapshot\" | zfs recv -u "@ + name + "\n"@;
    assert(" >> \"$CREATED_DATASETS_FILE\"\nzfs send -w \"$source_snapshot\" | zfs recv -u "@
        =~= " >> \"$CREATED_DATASETS_FILE\"\n"@
        + "zfs send -w \"$source_snapshot\" | zfs recv -u "@) by {
        reveal_strlit(
            " >> \"$CREATED_DATASETS_FILE\"\nzfs send -w \"$source_snapshot\" | zfs recv -u ",
        );
        reveal_strlit(" >> \"$CREATED_DATASETS_FILE\"\n");
        reveal_strlit("zfs send -w \"$source_snapshot\" | zfs recv -u ");
    }
    assert("\nif [ \"$(zfs get -H -o value encryption "@ =~= "\n"@
        + "if [ \"$(zfs get -H -o value encryption "@) by {
        reveal_strlit("\nif [ \"$(zfs get -H -o value encryption ");
        reveal_strlit("\n");
        reveal_strlit("if [ \"$(zfs get -H -o value encryption ");
    }
    let before = "printf '%s\\n' "@ + name + " >> \"$CREATED_DATASETS_FILE\"\n"@;
    let tail = name
        + " 2>/dev/null || echo off)\" != \"off\" ]; then\n  key_status=\"$(zfs get -H -o value keystatus "@
        + name
        + " 2>/dev/null || echo unavailable)\"\n  if [ \"$key_status\" != \"available\" ]; then\n    echo "@
        + escaped(key_missing_message(dataset)) + " >&2\n    exit 1\n  fi\nfi\n"@;
    let rest = "if [ \"$(zfs get -H -o value encryption "@ + tail;
    assert(receive_part(dataset) =~= before + line + rest);
    lemma_stands_where_put(before, line, rest);
}

proof fn lemma_preamble(
    job: OffsiteReplicationJob,
    request: OffsiteFailoverRequest,
    storage: Seq<char>,
    suffix: Seq<char>,
)
    ensures
        stand_in_order(
            preamble_part(job, request, storage, suffix),
            seq![
                "trap cleanup EXIT\n"@,
                "if qm status "@ + decimal(request.recovery_vmid as nat)
                    + " >/dev/null 2>&1; then\n  echo "@ + escaped(
                    "target VMID "@ + decimal(request.recovery_vmid as nat) + " already exists"@,
                ) + " >&2\n  exit 1\nfi\n"@,
                "SNAP_SUFFIX="@ + escaped(suffix) + "\n"@,
            ],
        ),
{
    let id = decimal(request.recovery_vmid as nat);
    let trap = "trap cleanup EXIT\n"@;
    let cleanup = CLEANUP_AFTER@.take(CLEANUP_AFTER@.len() - trap.len());
    assert(CLEANUP_AFTER@ =~= cleanup + trap) by {
        reveal_strlit("trap cleanup EXIT\n");
        reveal_strlit(
            " --purge 1 >/dev/null 2>&1 || true\n    fi\n    # Track created datasets line-by-line to keep rollback robust for any dataset name shape.\n    if [ -f \"$CREATED_DATASETS_FILE\" ]; then\n      while IFS= read -r dataset; do\n        [ -n \"$dataset\" ] || continue\n        zfs destroy -r \"$dataset\" >/dev/null 2>&1 || true\n      done < \"$CREATED_DATASETS_FILE\"\n    fi\n  fi\n  rm -f \"$CREATED_DATASETS_FILE\"\n}\ntrap cleanup EXIT\n",
        );
    }
    assert("\nTARGET_DATASET="@ =~= "\n"@ + "TARGET_DATASET="@) by {
        reveal_strlit("\nTARGET_DATASET=");
        reveal_strlit("\n");
        reveal_strlit("TARGET_DATASET=");
    }
    let taken = "if qm status "@ + id + " >/dev/null 2>&1; then\n  echo "@ + escaped(
        vmid_taken_message(request),
    ) + " >&2\n  exit 1\nfi\n"@;
    let named_suffix = "SNAP_SUFFIX="@ + escaped(suffix) + "\n"@;
    let head = FAILOVER_HEAD@ + CLEANUP_BEFORE@ + id + CLEANUP_BETWEEN@ + id;
    let storing = "if ! pvesm status --storage "@ + escaped(storage)
        + " >/dev/null 2>&1; then\n  pvesm add zfspool "@ + escaped(storage) + " --pool "@ + escaped(
        job.target_dataset@,
    ) + " --content images,rootdir --sparse 1\nfi\n"@;
    let resolve = escaped(job.target_dataset@) + RESOLVE_BODY@ + escaped(
        "missing target recovery snapshot for selected suffix"@,
    ) + RESOLVE_ELSE@ + escaped("ambiguous target recovery snapshots for selected suffix"@)
        + RESOLVE_END@;
    let first = head + CLEANUP_AFTER@ + "if qm status "@ + id
        + " >/dev/null 2>&1; then\n  echo "@ + escaped(vmid_taken_message(request))
        + " >&2\n  exit 1\nfi\n"@;
    let second = first + "if ! pvesm status --storage "@ + escaped(storage)
        + " >/dev/null 2>&1; then\n  pvesm add zfspool "@ + escaped(storage) + " --pool "@ + escaped(
        job.target_dataset@,
    ) + " --content images,rootdir --sparse 1\nfi\n"@;
    let third = second + "SNAP_SUFFIX="@ + escaped(suffix) + "\nTARGET_DATASET="@;
    assert(first =~= head + CLEANUP_AFTER@ + taken);
    assert(second =~= first + storing);
    assert(third =~= second + named_suffix + "TARGET_DATASET="@);
    assert(preamble_part(job, request, storage, suffix) =~= third + resolve);
    lemma_three_in_order(
        head,
        cleanup,
        trap,
        taken,
        storing,
        named_suffix,
        "TARGET_DATASET="@ + resolve,
    );
    assert(third + resolve =~= head + (cleanup + trap) + taken + storing + named_suffix + (
    "TARGET_DATASET="@ + resolve));
}

proof fn lemma_three_in_order(
    head: Seq<char>,
    cleanup: Seq<char>,
    trap: Seq<char>,
    taken: Seq<char>,
    storing: Seq<char>,
    suffix: Seq<char>,
    rest: Seq<char>,
)
    ensures
        stand_in_order(
            head + (cleanup + trap) + taken + storing + suffix + rest,
            seq![trap, taken, suffix],
        ),
{
    let nothing = Seq::<char>::empty();
    let parts = seq![trap, taken, suffix];
    let q1 = parts.skip(1);
    let q2 = q1.skip(1);
    assert(q2.skip(1) =~= seq![]);
    let r1 = storing + suffix + rest;
    let r0 = nothing + taken + r1;
    assert(head + (cleanup + trap) + taken + storing + suffix + rest =~= (head + cleanup) + trap
        + r0);
    lemma_order_where_put(storing, suffix, rest, q2);
    lemma_order_where_put(nothing, taken, r1, q1);
    lemma_order_where_put(head + cleanup, trap, r0, parts);
}

/// Settings are replayed around the disks: the plain ones, and the warnings of network settings,
/// stand before the first disk is attached, and the boot settings, which may name a disk, after the
/// last one.
pub proof fn law_settings_are_replayed_around_the_disks(
    job: OffsiteReplicationJob,
    request: OffsiteFailoverRequest,
    parsed: QemuView,
    storage: Seq<char>,
    lineage: Option<Seq<char>>,
) -> (parts: (Seq<char>, Seq<char>, Seq<char>))
    requires
        failover_script(job, request, parsed, storage, lineage) is Ok,
    ensures
        failover_script(job, request, parsed, storage, lineage)->Ok_0 == parts.0 + parts.1 + parts.2,
        attach_lines(job, request, storage, parsed.disks, parsed.disks.len() as int) == Ok::<
            Seq<char>,
            Seq<char>,
        >(parts.1),
        forall|i: int|
            0 <= i < parsed.settings.len() && (#[trigger] parsed.settings[i]).0 != "name"@
                && !has_prefix(parsed.settings[i].0, "net"@) && parsed.settings[i].0 != "boot"@
                && parsed.settings[i].0 != "bootdisk"@ ==> occurs(
                parts.0,
                "qm set "@ + decimal(request.recovery_vmid as nat) + " --"@ + parsed.settings[i].0
                    + " "@ + escaped(parsed.settings[i].1) + "\n"@,
            ),
        forall|i: int|
            0 <= i < parsed.settings.len() && has_prefix(
                (#[trigger] parsed.settings[i]).0,
                "net"@,
            ) ==> occurs(
                parts.0,
                "echo "@ + escaped(
                    "WARN: skipped recovered network setting '"@ + parsed.settings[i].0 + "="@
                        + parsed.settings[i].1
                        + "', configure networking manually on the recovery VM"@,
                ) + " >&2\n"@,
            ),
        forall|i: int|
            0 <= i < parsed.settings.len() && ((#[trigger] parsed.settings[i]).0 == "boot"@
                || parsed.settings[i].0 == "bootdisk"@) ==> occurs(
                parts.2,
                "qm set "@ + decimal(request.recovery_vmid as nat) + " --"@ + parsed.settings[i].0
                    + " "@ + escaped(parsed.settings[i].1) + " >/dev/null 2>&1 || echo "@ + escaped(
                    "WARN: skipping incompatible recovered boot setting '"@ + parsed.settings[i].0
                        + "="@ + parsed.settings[i].1 + "'"@,
                ) + " >&2\n"@,
            ),
{
    let vmid = request.recovery_vmid;
    let settings = parsed.settings;
    let n = parsed.disks.len() as int;
    let nothing = Seq::<char>::empty();
    let suffix = snapshot_suffix(request.snapshot@)->Ok_0;
    let attached = attach_lines(job, request, storage, parsed.disks, n)->Ok_0;
    let direct = setting_lines(vmid, settings, Replay::Direct);
    let network = setting_lines(vmid, settings, Replay::Network);
    let boot = setting_lines(vmid, settings, Replay::Boot);
    let tail = start_line(request) + closing_part(job, request);
    let (a, set, end) = around_create(job, request, parsed, storage, lineage);
    lemma_around_create(job, request, parsed, storage, lineage);
    let front = a + create_part(request, parsed);
    let rest = boot + start_line(request) + closing_part(job, request);
    lemma_regroup(a, create_part(request, parsed), set, attached, rest);
    assert forall|i: int|
        0 <= i < settings.len() && (#[trigger] settings[i]).0 != "name"@ && !has_prefix(
            settings[i].0,
            "net"@,
        ) && settings[i].0 != "boot"@ && settings[i].0 != "bootdisk"@ implies occurs(
        front + set,
        set_line(vmid, settings[i].0, settings[i].1),
    ) by {
        let line = set_line(vmid, settings[i].0, settings[i].1);
        lemma_setting_line_occurs(vmid, settings, Replay::Direct, i);
        assert(front + set =~= front + direct + network);
        lemma_occurs_within(front, direct, network, line);
    }
    assert forall|i: int|
        0 <= i < settings.len() && has_prefix((#[trigger] settings[i]).0, "net"@) implies occurs(
        front + set,
        network_line(settings[i].0, settings[i].1),
    ) by {
        let line = network_line(settings[i].0, settings[i].1);
        law_network_settings_are_not_replayed(vmid, settings[i].0, settings[i].1);
        lemma_network_key(settings[i].0);
        lemma_setting_line_occurs(vmid, settings, Replay::Network, i);
        assert(front + set =~= (front + direct) + network + nothing);
        lemma_occurs_within(front + direct, network, nothing, line);
    }
    assert forall|i: int|
        0 <= i < settings.len() && ((#[trigger] settings[i]).0 == "boot"@ || settings[i].0
            == "bootdisk"@) implies occurs(
        rest,
        boot_line(vmid, settings[i].0, settings[i].1),
    ) by {
        let line = boot_line(vmid, settings[i].0, settings[i].1);
        lemma_boot_keys(settings[i].0);
        lemma_setting_line_occurs(vmid, settings, Replay::Boot, i);
        assert(rest =~= nothing + boot + tail);
        lemma_occurs_within(nothing, boot, tail, line);
    }
    (front + set, attached, rest)
}

proof fn lemma_regroup(
    a: Seq<char>,
    create: Seq<char>,
    set: Seq<char>,
    attached: Seq<char>,
    rest: Seq<char>,
)
    ensures
        a + create + (set + (attached + rest)) == (a + create + set) + attached + rest,
{
    assert(a + create + (set + (attached + rest)) =~= (a + create + set) + attached + rest);
}

proof fn lemma_network_key(key: Seq<char>)
    requires
        has_prefix(key, "net"@),
    ensures
        replay_of(key) == Replay::Network,
{
    reveal_strlit("net");
    reveal_strlit("name");
    if key == "name"@ {
        assert(key[1] == 'a');
        assert(key.take(3)[1] == 'e');
    }
}

/// Without a requested name, the recovered guest has the source's name with `-dr` behind it, or one
/// made from its own ID.
pub proof fn law_default_name_is_made_from_the_source(
    request: OffsiteFailoverRequest,
    parsed: QemuView,
)
    requires
        request.recovered_name is None,
    ensures
        parsed.name matches Some(name) ==> recovered_name_of(request, parsed) == name + "-dr"@,
        parsed.name is None ==> recovered_name_of(request, parsed) == "recovery-"@ + decimal(
            request.recovery_vmid as nat,
        ),
{
}

/// A disk is checked, its snapshot is settled, and only then it is received; each time its own
/// dataset is named.
pub proof fn law_disk_is_checked_before_it_is_received(
    job: OffsiteReplicationJob,
    request: OffsiteFailoverRequest,
    suffix: Seq<char>,
    lineage: Option<Seq<char>>,
    disks: Seq<DiskView>,
    i: int,
    base: Seq<char>,
)
    requires
        0 <= i < disks.len(),
    ensures
        ({
            let dataset = recovery_dataset(job, disks, i, base);
            stand_in_order(
                disk_part(job, request, suffix, lineage, disks, i, base),
                seq![
                    "zfs list -H -o name "@ + escaped(dataset) + " >/dev/null 2>&1 && { echo "@
                        + escaped("target recovery dataset '"@ + dataset + "' already exists"@)
                        + " >&2; exit 1; }\n"@,
                    "source_snapshot=\"$(resolve_recovery_snapshot "@ + escaped(
                        disks[i].source_basename,
                    ) + " "@ + decimal(named(disks, disks[i].source_basename, i + 1)) + " "@,
                    "zfs send -w \"$source_snapshot\" | zfs recv -u "@ + escaped(dataset) + "\n"@,
                ],
            )
        }),
{
    let dataset = recovery_dataset(job, disks, i, base);
    let basename = disks[i].source_basename;
    let occurrence = named(disks, basename, i + 1);
    let preferred = preferred_snapshot(job, request, suffix, disks, i);
    let hint = lineage_hint(lineage, disks, i);
    let first = check_part(dataset);
    let second = "source_snapshot=\"$(resolve_recovery_snapshot "@ + escaped(basename) + " "@
        + decimal(occurrence) + " "@;
    let third = "zfs send -w \"$source_snapshot\" | zfs recv -u "@ + escaped(dataset) + "\n"@;
    let choice = choose_part(preferred, basename, occurrence, hint);
    let receive = receive_part(dataset);
    lemma_resolve_call(preferred, basename, occurrence, hint);
    lemma_receive_line(dataset);
    let j = choose|j: int| crate::text::stands_at(choice, second, j);
    let k = choose|k: int| crate::text::stands_at(receive, third, k);
    lemma_taken_apart(choice, second, j);
    lemma_taken_apart(receive, third, k);
    lemma_check_choose_receive(
        first,
        choice.take(j),
        second,
        choice.skip(j + second.len()),
        receive.take(k),
        third,
        receive.skip(k + third.len()),
    );
}

proof fn lemma_taken_apart(s: Seq<char>, p: Seq<char>, i: int)
    requires
        crate::text::stands_at(s, p, i),
    ensures
        s == s.take(i) + p + s.skip(i + p.len()),
{
    assert(s =~= s.take(i) + p + s.skip(i + p.len())) by {
        assert forall|k: int| 0 <= k < p.len() implies s[i + k] == p[k] by {
            assert(s.subrange(i, i + p.len())[k] == p[k]);
        }
    }
}

proof fn lemma_check_choose_receive(
    first: Seq<char>,
    a: Seq<char>,
    second: Seq<char>,
    b: Seq<char>,
    c: Seq<char>,
    third: Seq<char>,
    d: Seq<char>,
)
    ensures
        stand_in_order(
            first + (a + second + b) + (c + third + d),
            seq![first, second, third],
        ),
{
    let nothing = Seq::<char>::empty();
    let parts = seq![first, second, third];
    let q1 = parts.skip(1);
    let q2 = q1.skip(1);
    assert(q2.skip(1) =~= seq![]);
    let r1 = (b + c) + third + d;
    let r0 = a + second + r1;
    assert(first + (a + second + b) + (c + third + d) =~= nothing + first + r0);
    lemma_order_where_put(b + c, third, d, q2);
    lemma_order_where_put(a, second, r1, q1);
    lemma_order_where_put(nothing, first, r0, parts);
}

proof fn lemma_resolve_call(
    preferred_in: Option<Seq<char>>,
    basename: Seq<char>,
    occurrence: nat,
    hint: Seq<char>,
)
    ensures
        occurs(
            choose_part(preferred_in, basename, occurrence, hint),
            "source_snapshot=\"$(resolve_recovery_snapshot "@ + escaped(basename) + " "@ + decimal(
                occurrence,
            ) + " "@,
        ),
{
    let call = "source_snapshot=\"$(resolve_recovery_snapshot "@ + escaped(basename) + " "@
        + decimal(occurrence) + " "@;
    let nothing = Seq::<char>::empty();
    let part = choose_part(preferred_in, basename, occurrence, hint);
    match preferred_in {
        Some(preferred) => {
            assert("\nelse\n  source_snapshot=\"$(resolve_recovery_snapshot "@ =~= "\nelse\n  "@
                + "source_snapshot=\"$(resolve_recovery_snapshot "@) by {
                reveal_strlit("\nelse\n  source_snapshot=\"$(resolve_recovery_snapshot ");
                reveal_strlit("\nelse\n  ");
                reveal_strlit("source_snapshot=\"$(resolve_recovery_snapshot ");
            }
            let before = "if zfs list -H -o name "@ + escaped(preferred)
                + " >/dev/null 2>&1; then\n  source_snapshot="@ + escaped(preferred)
                + "\nelse\n  "@;
            let after = escaped(hint) + ")\"\nfi\n"@;
            assert(part =~= before + call + after);
            lemma_stands_where_put(before, call, after);
        },
        None => {
            let after = escaped(hint) + ")\"\n"@;
            assert(part =~= nothing + call + after);
            lemma_stands_where_put(nothing, call, after);
        },
    }
}

/// The snapshot that is preferred for a disk is one of the places at which the disk's snapshot of
/// the selected run may stand on the target.
pub proof fn law_preferred_snapshot_is_a_candidate(
    job: OffsiteReplicationJob,
    request: OffsiteFailoverRequest,
    suffix: Seq<char>,
    disks: Seq<DiskView>,
    i: int,
    parent: Seq<char>,
)
    requires
        0 <= i < disks.len(),
        !is_duplicate(disks, i),
        source_parent(request.snapshot@) == Some(parent),
        !suffix.contains('@'),
    ensures
        preferred_snapshot(job, request, suffix, disks, i) matches Some(preferred) && candidates_of(
            job.target_dataset@,
            parent + "/"@ + disks[i].source_basename + "@"@ + suffix,
        ) matches Ok(candidates) && candidates.contains(preferred),
{
    let source = parent + "/"@ + disks[i].source_basename;
    crate::snapshots::lemma_primary_is_candidate(job.target_dataset@, source, suffix);
}

/// Disks that have the same name on the source are received into datasets of their own, where their
/// keys differ as dataset names.
pub proof fn law_duplicates_have_datasets_of_their_own(
    job: OffsiteReplicationJob,
    disks: Seq<DiskView>,
    i: int,
    j: int,
    base: Seq<char>,
)
    requires
        0 <= i < j < disks.len(),
        disks[i].source_basename == disks[j].source_basename,
        dataset_sanitized(disks[i].key) != dataset_sanitized(disks[j].key),
    ensures
        recovery_dataset(job, disks, i, base) != recovery_dataset(job, disks, j, base),
{
    law_duplicates_are_numbered_apart(disks, i, j);
    let x = dataset_sanitized(disks[i].key);
    let y = dataset_sanitized(disks[j].key);
    let a = recovery_dataset(job, disks, i, base);
    let b = recovery_dataset(job, disks, j, base);
    let front = job.target_dataset@ + "/"@ + (base + "-"@);
    assert(a =~= front + x);
    assert(b =~= front + y);
    if a == b {
        assert((front + x).skip(front.len() as int) =~= x);
        assert((front + y).skip(front.len() as int) =~= y);
    }
}

/// A disk that is alone with its name is received into the dataset of that name, below the job's
/// dataset on the target.
pub proof fn law_lone_disk_keeps_its_name(
    job: OffsiteReplicationJob,
    disks: Seq<DiskView>,
    i: int,
    base: Seq<char>,
)
    requires
        0 <= i < disks.len(),
        forall|j: int|
            0 <= j < disks.len() && j != i ==> (#[trigger] disks[j]).source_basename
                != disks[i].source_basename,
    ensures
        recovery_dataset(job, disks, i, base) == job.target_dataset@ + "/"@ + base,
{
    lemma_named_once(disks, i, disks.len() as int);
}

proof fn lemma_named_once(disks: Seq<DiskView>, i: int, n: int)
    requires
        0 <= i < disks.len(),
        0 <= n <= disks.len(),
        forall|j: int|
            0 <= j < disks.len() && j != i ==> (#[trigger] disks[j]).source_basename
                != disks[i].source_basename,
    ensures
        named(disks, disks[i].source_basename, n) == (if i < n {
            1nat
        } else {
            0nat
        }),
    decreases n,
{
    if n > 0 {
        lemma_named_once(disks, i, n - 1);
    }
}

/// A dataset is noted for the cleanup before it is received, and its key is asked for right after.
pub proof fn law_received_dataset_is_noted_first(dataset: Seq<char>)
    ensures
        stand_in_order(
            receive_part(dataset),
            seq![
                "printf '%s\\n' "@ + escaped(dataset) + " >> \"$CREATED_DATASETS_FILE\"\n"@,
                "zfs send -w \"$source_snapshot\" | zfs recv -u "@ + escaped(dataset) + "\n"@,
                "zfs get -H -o value keystatus "@ + escaped(dataset),
                escaped(
                    "target recovery dataset '"@ + dataset
                        + "' is encrypted but key is unavailable; load key on target before failover"@,
                ) + " >&2\n    exit 1\n"@,
            ],
        ),
{
    let name = escaped(dataset);
    let message = escaped(key_missing_message(dataset));
    let note = " >> \"$CREATED_DATASETS_FILE\"\n"@;
    let send = "zfs send -w \"$source_snapshot\" | zfs recv -u "@;
    let asked = "if [ \"$(zfs get -H -o value encryption "@;
    let off = " 2>/dev/null || echo off)\" != \"off\" ]; then\n  key_status=\"$("@;
    let status = "zfs get -H -o value keystatus "@;
    let told =
        " 2>/dev/null || echo unavailable)\"\n  if [ \"$key_status\" != \"available\" ]; then\n    echo "@;
    let exit = " >&2\n    exit 1\n"@;
    let end = "  fi\nfi\n"@;
    assert(" >> \"$CREATED_DATASETS_FILE\"\nzfs send -w \"$source_snapshot\" | zfs recv -u "@
        =~= note + send) by {
        reveal_strlit(
            " >> \"$CREATED_DATASETS_FILE\"\nzfs send -w \"$source_snapshot\" | zfs recv -u ",
        );
        reveal_strlit(" >> \"$CREATED_DATASETS_FILE\"\n");
        reveal_strlit("zfs send -w \"$source_snapshot\" | zfs recv -u ");
    }
    assert("\nif [ \"$(zfs get -H -o value encryption "@ =~= "\n"@ + asked) by {
        reveal_strlit("\nif [ \"$(zfs get -H -o value encryption ");
        reveal_strlit("\n");
        reveal_strlit("if [ \"$(zfs get -H -o value encryption ");
    }
    assert(" 2>/dev/null || echo off)\" != \"off\" ]; then\n  key_status=\"$(zfs get -H -o value keystatus "@
        =~= off + status) by {
        reveal_strlit(
            " 2>/dev/null || echo off)\" != \"off\" ]; then\n  key_status=\"$(zfs get -H -o value keystatus ",
        );
        reveal_strlit(" 2>/dev/null || echo off)\" != \"off\" ]; then\n  key_status=\"$(");
        reveal_strlit("zfs get -H -o value keystatus ");
    }
    assert(" >&2\n    exit 1\n  fi\nfi\n"@ =~= exit + end) by {
        reveal_strlit(" >&2\n    exit 1\n  fi\nfi\n");
        reveal_strlit(" >&2\n    exit 1\n");
        reveal_strlit("  fi\nfi\n");
    }
    lemma_receive_order(
        "printf '%s\\n' "@,
        name,
        note,
        send,
        "\n"@,
        asked,
        off,
        status,
        told,
        message,
        exit,
        end,
    );
}

proof fn lemma_receive_order(
    print: Seq<char>,
    name: Seq<char>,
    note: Seq<char>,
    send: Seq<char>,
    nl: Seq<char>,
    asked: Seq<char>,
    off: Seq<char>,
    status: Seq<char>,
    told: Seq<char>,
    message: Seq<char>,
    exit: Seq<char>,
    end: Seq<char>,
)
    ensures
        stand_in_order(
            print + name + (note + send) + name + (nl + asked) + name + (off + status) + name + told
                + message + (exit + end),
            seq![print + name + note, send + name + nl, status + name, message + exit],
        ),
{
    let nothing = Seq::<char>::empty();
    let all = print + name + (note + send) + name + (nl + asked) + name + (off + status) + name
        + told + message + (exit + end);
    let first = print + name + note;
    let second = send + name + nl;
    let third = status + name;
    let fourth = message + exit;
    let r2 = told + fourth + end;
    let r1 = (asked + name + off) + third + r2;
    let r0 = nothing + second + r1;
    assert(all =~= nothing + first + r0);
    let parts = seq![first, second, third, fourth];
    let q1 = parts.skip(1);
    let q2 = q1.skip(1);
    let q3 = q2.skip(1);
    assert(q3.skip(1) =~= seq![]);
    lemma_order_where_put(told, fourth, end, q3);
    lemma_order_where_put(asked + name + off, third, r2, q2);
    lemma_order_where_put(nothing, second, r1, q1);
    lemma_order_where_put(nothing, first, r0, parts);
}

/// The preferred snapshot is taken where it exists, and searched for only else; the search is told the
/// lineage.
pub proof fn law_preferred_snapshot_is_tried_first(
    preferred: Seq<char>,
    basename: Seq<char>,
    occurrence: nat,
    hint: Seq<char>,
)
    ensures
        stand_in_order(
            choose_part(Some(preferred), basename, occurrence, hint),
            seq![
                "if zfs list -H -o name "@ + escaped(preferred) + " >/dev/null 2>&1; then\n"@,
                "source_snapshot="@ + escaped(preferred) + "\nelse\n"@,
                "source_snapshot=\"$(resolve_recovery_snapshot "@ + escaped(basename) + " "@
                    + decimal(occurrence) + " "@ + escaped(hint) + ")\"\nfi\n"@,
            ],
        ),
        choose_part(None, basename, occurrence, hint)
            == "source_snapshot=\"$(resolve_recovery_snapshot "@ + escaped(basename) + " "@
            + decimal(occurrence) + " "@ + escaped(hint) + ")\"\n"@,
{
    let name = escaped(preferred);
    let set = "source_snapshot="@;
    let call = "source_snapshot=\"$(resolve_recovery_snapshot "@;
    assert(" >/dev/null 2>&1; then\n  source_snapshot="@ =~= " >/dev/null 2>&1; then\n"@ + ("  "@
        + set)) by {
        reveal_strlit(" >/dev/null 2>&1; then\n  source_snapshot=");
        reveal_strlit(" >/dev/null 2>&1; then\n");
        reveal_strlit("  ");
        reveal_strlit("source_snapshot=");
    }
    assert("\nelse\n  source_snapshot=\"$(resolve_recovery_snapshot "@ =~= "\nelse\n"@ + ("  "@
        + call)) by {
        reveal_strlit("\nelse\n  source_snapshot=\"$(resolve_recovery_snapshot ");
        reveal_strlit("\nelse\n");
        reveal_strlit("  ");
        reveal_strlit("source_snapshot=\"$(resolve_recovery_snapshot ");
    }
    let tail = escaped(basename) + " "@ + decimal(occurrence) + " "@ + escaped(hint)
        + ")\"\nfi\n"@;
    let whole = call + escaped(basename) + " "@ + decimal(occurrence) + " "@ + escaped(hint)
        + ")\"\nfi\n"@;
    assert(whole =~= call + tail);
    lemma_choice_order(
        "if zfs list -H -o name "@,
        name,
        " >/dev/null 2>&1; then\n"@,
        "  "@,
        set,
        "\nelse\n"@,
        call,
        tail,
    );
    assert(choose_part(Some(preferred), basename, occurrence, hint) =~= "if zfs list -H -o name "@
        + name + (" >/dev/null 2>&1; then\n"@ + ("  "@ + set)) + name + ("\nelse\n"@ + ("  "@ + call))
        + tail);
}

proof fn lemma_choice_order(
    test: Seq<char>,
    name: Seq<char>,
    then_part: Seq<char>,
    gap: Seq<char>,
    set: Seq<char>,
    else_part: Seq<char>,
    call: Seq<char>,
    tail: Seq<char>,
)
    ensures
        stand_in_order(
            test + name + (then_part + (gap + set)) + name + (else_part + (gap + call)) + tail,
            seq![test + name + then_part, set + name + else_part, call + tail],
        ),
{
    let nothing = Seq::<char>::empty();
    let all = test + name + (then_part + (gap + set)) + name + (else_part + (gap + call)) + tail;
    let first = test + name + then_part;
    let second = set + name + else_part;
    let third = call + tail;
    let r1 = gap + third + nothing;
    let r0 = gap + second + r1;
    assert(all =~= nothing + first + r0);
    let parts = seq![first, second, third];
    let q1 = parts.skip(1);
    let q2 = q1.skip(1);
    assert(q2.skip(1) =~= seq![]);
    lemma_order_where_put(gap, third, nothing, q2);
    lemma_order_where_put(gap, second, r1, q1);
    lemma_order_where_put(nothing, first, r0, parts);
}

/// A disk is searched in the lineage of the selected snapshot, unless it is a duplicate: then it is
/// searched everywhere, and nothing is preferred for it.
pub proof fn law_duplicates_are_searched_everywhere(
    job: OffsiteReplicationJob,
    request: OffsiteFailoverRequest,
    suffix: Seq<char>,
    lineage: Option<Seq<char>>,
    disks: Seq<DiskView>,
    i: int,
    j: int,
)
    requires
        0 <= i < disks.len(),
        0 <= j < disks.len(),
        i != j,
        disks[i].source_basename == disks[j].source_basename,
    ensures
        lineage_hint(lineage, disks, i) == ""@,
        preferred_snapshot(job, request, suffix, disks, i) is None,
{
    if i < j {
        law_duplicates_are_numbered_apart(disks, i, j);
    } else {
        law_duplicates_are_numbered_apart(disks, j, i);
    }
}

/// A disk that is alone with its name is searched in the lineage, and what is preferred for it stands
/// beside the selected snapshot's dataset.
pub proof fn law_lone_disk_is_searched_in_its_lineage(
    job: OffsiteReplicationJob,
    request: OffsiteFailoverRequest,
    suffix: Seq<char>,
    lineage: Seq<char>,
    disks: Seq<DiskView>,
    i: int,
)
    requires
        0 <= i < disks.len(),
        forall|j: int|
            0 <= j < disks.len() && j != i ==> (#[trigger] disks[j]).source_basename
                != disks[i].source_basename,
    ensures
        lineage_hint(Some(lineage), disks, i) == lineage,
        lineage_hint(None, disks, i) == ""@,
        source_parent(request.snapshot@) matches Some(parent) ==> preferred_snapshot(
            job,
            request,
            suffix,
            disks,
            i,
        ) == Some(
            target_for_source(job.target_dataset@, parent + "/"@ + disks[i].source_basename) + "@"@
                + suffix,
        ),
        source_parent(request.snapshot@) is None ==> preferred_snapshot(
            job,
            request,
            suffix,
            disks,
            i,
        ) is None,
{
    lemma_named_once(disks, i, disks.len() as int);
}

/// The selected snapshot is taken apart where it was put together: its suffix is what follows the
/// `@`, and its dataset's parent what stands before the last slash.
pub proof fn law_selected_snapshot_is_taken_apart(
    parent: Seq<char>,
    name: Seq<char>,
    suffix: Seq<char>,
)
    requires
        !parent.contains('@'),
        !name.contains('@'),
        !name.contains('/'),
        !suffix.contains('@'),
    ensures
        snapshot_suffix(parent + "/"@ + name + "@"@ + suffix) == Ok::<Seq<char>, Seq<char>>(suffix),
        source_parent(parent + "/"@ + name + "@"@ + suffix) == Some(parent),
{
    reveal_strlit("@");
    reveal_strlit("/");
    let dataset = parent + "/"@ + name;
    crate::snapshots::lemma_snapshot_is_cut(dataset, suffix);
    assert(!dataset.contains('@')) by {
        if dataset.contains('@') {
            let i = choose|i: int| 0 <= i < dataset.len() && dataset[i] == '@';
            if i < parent.len() {
                assert(parent[i] == '@');
            } else if i > parent.len() {
                assert(name[i - parent.len() - 1] == '@');
            }
        }
    }
    crate::text::lemma_cut_first_of(dataset, "@"@, suffix);
    assert forall|k: int| parent.len() < k implies !crate::text::stands_at(dataset, "/"@, k) by {
        if crate::text::stands_at(dataset, "/"@, k) {
            assert(dataset.subrange(k, k + 1)[0] == '/');
            assert(name[k - parent.len() - 1] == '/');
        }
    }
    crate::text::lemma_cut_last_of(parent, "/"@, name);
}

/// A disk is attached from the storage under its recovered name, with its options behind that.
pub proof fn law_attached_value_names_the_volume(
    storage: Seq<char>,
    base: Seq<char>,
    options: Seq<char>,
)
    ensures
        attach_value(storage, base, None) == storage + ":"@ + base,
        attach_value(storage, base, Some(options)) == storage + ":"@ + base + ","@ + options,
{
}

/// The script makes the storage where it is missing, on the job's dataset, and cleans up after a
/// failure: it stops and destroys the recovered guest.
pub proof fn law_storage_is_made_and_failures_are_cleaned_up(
    job: OffsiteReplicationJob,
    request: OffsiteFailoverRequest,
    storage: Seq<char>,
    suffix: Seq<char>,
)
    ensures
        stand_in_order(
            preamble_part(job, request, storage, suffix),
            seq![
                "qm stop "@ + decimal(request.recovery_vmid as nat),
                "qm destroy "@ + decimal(request.recovery_vmid as nat),
                "if ! pvesm status --storage "@ + escaped(storage)
                    + " >/dev/null 2>&1; then\n  pvesm add zfspool "@ + escaped(storage)
                    + " --pool "@ + escaped(job.target_dataset@)
                    + " --content images,rootdir --sparse 1\nfi\n"@,
                "TARGET_DATASET="@ + escaped(job.target_dataset@),
            ],
        ),
{
    let id = decimal(request.recovery_vmid as nat);
    let stop = "qm stop "@;
    let destroy = "qm destroy "@;
    let before = CLEANUP_BEFORE@.take(CLEANUP_BEFORE@.len() - stop.len());
    let between = CLEANUP_BETWEEN@.take(CLEANUP_BETWEEN@.len() - destroy.len());
    assert(CLEANUP_BEFORE@ =~= before + stop) by {
        reveal_strlit("qm stop ");
        reveal_strlit(
            "cleanup() {\n  if [ \"$STATUS\" -ne 0 ]; then\n    if [ \"$CREATED_VM\" = \"1\" ]; then\n      qm stop ",
        );
    }
    assert(CLEANUP_BETWEEN@ =~= between + destroy) by {
        reveal_strlit("qm destroy ");
        reveal_strlit(" >/dev/null 2>&1 || true\n      qm destroy ");
    }
    assert("\nTARGET_DATASET="@ =~= "\n"@ + "TARGET_DATASET="@) by {
        reveal_strlit("\nTARGET_DATASET=");
        reveal_strlit("\n");
        reveal_strlit("TARGET_DATASET=");
    }
    let storing = "if ! pvesm status --storage "@ + escaped(storage)
        + " >/dev/null 2>&1; then\n  pvesm add zfspool "@ + escaped(storage) + " --pool "@ + escaped(
        job.target_dataset@,
    ) + " --content images,rootdir --sparse 1\nfi\n"@;
    let a1 = FAILOVER_HEAD@ + CLEANUP_BEFORE@ + id + CLEANUP_BETWEEN@ + id;
    let middle = CLEANUP_AFTER@ + "if qm status "@ + id + " >/dev/null 2>&1; then\n  echo "@ + escaped(
        vmid_taken_message(request),
    ) + " >&2\n  exit 1\nfi\n"@;
    let a2 = a1 + CLEANUP_AFTER@ + "if qm status "@ + id + " >/dev/null 2>&1; then\n  echo "@
        + escaped(vmid_taken_message(request)) + " >&2\n  exit 1\nfi\n"@;
    let a3 = a2 + "if ! pvesm status --storage "@ + escaped(storage)
        + " >/dev/null 2>&1; then\n  pvesm add zfspool "@ + escaped(storage) + " --pool "@ + escaped(
        job.target_dataset@,
    ) + " --content images,rootdir --sparse 1\nfi\n"@;
    let resolve = RESOLVE_BODY@ + escaped("missing target recovery snapshot for selected suffix"@)
        + RESOLVE_ELSE@ + escaped("ambiguous target recovery snapshots for selected suffix"@)
        + RESOLVE_END@;
    let a4 = a3 + "SNAP_SUFFIX="@ + escaped(suffix) + "\nTARGET_DATASET="@ + escaped(
        job.target_dataset@,
    );
    let suffixed = "SNAP_SUFFIX="@ + escaped(suffix) + "\n"@;
    let target = "TARGET_DATASET="@ + escaped(job.target_dataset@);
    assert(a2 =~= a1 + middle);
    assert(a3 =~= a2 + storing);
    assert(a4 =~= a3 + suffixed + target);
    assert(preamble_part(job, request, storage, suffix) =~= a4 + resolve);
    lemma_preamble_order(
        FAILOVER_HEAD@,
        before,
        stop,
        id,
        between,
        destroy,
        middle,
        storing,
        suffixed,
        target,
        resolve,
    );
    assert(a4 + resolve =~= FAILOVER_HEAD@ + (before + stop) + id + (between + destroy) + id + middle
        + storing + suffixed + target + resolve);
}

proof fn lemma_preamble_order(
    head: Seq<char>,
    before: Seq<char>,
    stop: Seq<char>,
    id: Seq<char>,
    between: Seq<char>,
    destroy: Seq<char>,
    middle: Seq<char>,
    storing: Seq<char>,
    suffixed: Seq<char>,
    target: Seq<char>,
    resolve: Seq<char>,
)
    ensures
        stand_in_order(
            head + (before + stop) + id + (between + destroy) + id + middle + storing + suffixed
                + target + resolve,
            seq![stop + id, destroy + id, storing, target],
        ),
{
    let all = head + (before + stop) + id + (between + destroy) + id + middle + storing + suffixed
        + target + resolve;
    let first = stop + id;
    let second = destroy + id;
    let r2 = suffixed + target + resolve;
    let r1 = middle + storing + r2;
    let r0 = between + second + r1;
    assert(all =~= (head + before) + first + r0);
    let parts = seq![first, second, storing, target];
    let q1 = parts.skip(1);
    let q2 = q1.skip(1);
    let q3 = q2.skip(1);
    assert(q3.skip(1) =~= seq![]);
    lemma_order_where_put(suffixed, target, resolve, q3);
    lemma_order_where_put(middle, storing, r2, q2);
    lemma_order_where_put(between, second, r1, q1);
    lemma_order_where_put(head + before, first, r0, parts);
}

} // verus!
