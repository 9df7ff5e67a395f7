//! What is run on the source node for one replication run.
use crate::number::{decimal, to_decimal};
use crate::shell::{escaped, law_escaping_of_text_without_quotes, shell_escape};
use crate::text::{
    has_prefix, has_suffix, lemma_order_appended, lemma_order_kept, lemma_order_where_put, lemma_stands_where_put, occurs, stand_in_order,
};
use crate::types::{stream_mode_name, GuestType, OffsiteReplicationJob, OffsiteZfsStreamMode};
use vstd::prelude::*;

verus! {

/// How every sync script starts.
pub const SCRIPT_HEAD: &'static str = "set -euo pipefail\nFREEZE_DONE=0\n";

/// Freezing the guest's file systems, up to the command.
pub const FREEZE_BEFORE: &'static str = r#"echo "QGA fsfreeze: freeze requested"
if command -v qm >/dev/null 2>&1; then
  if FREEZE_OUTPUT="$("#;

/// Freezing the guest's file systems, after the command.
pub const FREEZE_AFTER: &'static str = r#" 2>&1)"; then
    FREEZE_DONE=1
    echo "QGA fsfreeze: freeze ok"
  else
    FREEZE_OUTPUT="$(printf '%s' "$FREEZE_OUTPUT" | tr '\n' ' ' | sed 's/[[:space:]]\+/ /g')"
    if [ -n "$FREEZE_OUTPUT" ]; then
      echo "QGA fsfreeze: freeze skipped ($FREEZE_OUTPUT)"
    else
      echo "QGA fsfreeze: freeze skipped (command returned non-zero)"
    fi
  fi
else
  echo "QGA fsfreeze: qm command unavailable"
fi
"#;

/// The shell functions of a raw sync.
pub const RAW_SYNC_FUNCTIONS: &'static str = r#"
collect_volids() {
  if [ "$GUEST_TYPE" = "qemu" ]; then
    qm config "$VMID" --current | awk -F': ' '/^(virtio|ide|scsi|sata|efidisk|tpmstate)[0-9]+: /{print $2}' | cut -d, -f1
  else
    pct config "$VMID" | awk -F': ' '/^(rootfs|mp[0-9]+): /{print $2}' | cut -d, -f1
  fi
}

resolve_dataset_from_volid() {
  volid="$1"
  path="$(pvesm path "$volid" 2>/dev/null || true)"
  [ -n "$path" ] || return 1

  case "$path" in
    /dev/zvol/*)
      echo "${path#/dev/zvol/}"
      return 0
      ;;
  esac

  if zfs list -H -o name "$path" >/dev/null 2>&1; then
    echo "$path"
    return 0
  fi

  case "$path" in
    /*)
      dataset="${path#/}"
      if zfs list -H -o name "$dataset" >/dev/null 2>&1; then
        echo "$dataset"
        return 0
      fi
      ;;
  esac

  return 1
}

collect_source_datasets() {
  collect_volids | while read -r volid; do
    [ -n "$volid" ] || continue
    if dataset="$(resolve_dataset_from_volid "$volid")"; then
      echo "$dataset"
    else
      echo "WARN: skipping volume '$volid' (non-ZFS or unresolved path)" >&2
    fi
  done | awk '!seen[$0]++'
}

target_dataset_for_source() {
  source_ds="$1"
  encoded="$(printf '%s' "$source_ds" | sed 's#/#__#g')"
  echo "$TARGET_DATASET/$encoded"
}

ensure_target_dataset_exists() {
  target_ds="$1"
  ssh -o BatchMode=yes "$TARGET_USER@$TARGET_HOST" -- zfs list -H -o name "$target_ds" >/dev/null 2>&1 || \
    ssh -o BatchMode=yes "$TARGET_USER@$TARGET_HOST" -- zfs create -p "$target_ds"
}

last_target_snapshot_for_dataset() {
  target_ds="$1"
  ssh -o BatchMode=yes "$TARGET_USER@$TARGET_HOST" -- \
    zfs list -H -t snapshot -o name -s creation "$target_ds" 2>/dev/null | \
    awk -v p="${target_ds}@rep_${JOB_ID}_" 'index($0,p)==1 {last=$0} END {print last}'
}

prune_source_snapshots() {
  source_ds="$1"
  snaps="$(zfs list -H -t snapshot -o name -s creation "$source_ds" 2>/dev/null | awk -v p="${source_ds}@rep_${JOB_ID}_" 'index($0,p)==1')"
  count="$(printf '%s\n' "$snaps" | sed '/^$/d' | wc -l)"
  if [ "$count" -gt "$MAXSNAP" ]; then
    trim="$((count - MAXSNAP))"
    printf '%s\n' "$snaps" | sed '/^$/d' | head -n "$trim" | while read -r old; do
      zfs destroy "$old" >/dev/null 2>&1 || echo "WARN: could not destroy source snapshot $old" >&2
    done
  fi
}

prune_target_snapshots() {
  target_ds="$1"
  snaps="$(ssh -o BatchMode=yes "$TARGET_USER@$TARGET_HOST" -- zfs list -H -t snapshot -o name -s creation "$target_ds" 2>/dev/null | awk -v p="${target_ds}@rep_${JOB_ID}_" 'index($0,p)==1')"
  count="$(printf '%s\n' "$snaps" | sed '/^$/d' | wc -l)"
  if [ "$count" -gt "$MAXSNAP" ]; then
    trim="$((count - MAXSNAP))"
    printf '%s\n' "$snaps" | sed '/^$/d' | head -n "$trim" | while read -r old; do
      ssh -o BatchMode=yes "$TARGET_USER@$TARGET_HOST" -- zfs destroy "$old" >/dev/null 2>&1 || \
        echo "WARN: could not destroy target snapshot $old" >&2
    done
  fi
}

run_raw_sync() {
  datasets="$1"
  [ -n "$datasets" ] || { echo "ERROR: no ZFS-backed datasets resolved for guest $VMID" >&2; return 1; }

  snap_tag="rep_${JOB_ID}_$(date '+%Y-%m-%d_%H:%M:%S')"
  primary_logged=0
  total_estimated=0

  for source_ds in $datasets; do
    target_ds="$(target_dataset_for_source "$source_ds")"

    new_source_snapshot="${source_ds}@${snap_tag}"
    zfs snapshot "$new_source_snapshot"

    last_target_snapshot="$(last_target_snapshot_for_dataset "$target_ds")"
    transfer_mode="full"
    estimate=""
    if [ -n "$last_target_snapshot" ]; then
      last_tag="${last_target_snapshot##*@}"
      last_source_snapshot="${source_ds}@${last_tag}"
      if zfs list -H -o name "$last_source_snapshot" >/dev/null 2>&1; then
        transfer_mode="incremental"
      fi
    fi

    if [ "$transfer_mode" = "full" ] && ssh -o BatchMode=yes "$TARGET_USER@$TARGET_HOST" -- zfs list -H -o name "$target_ds" >/dev/null 2>&1; then
      target_snapshot_count="$(ssh -o BatchMode=yes "$TARGET_USER@$TARGET_HOST" -- zfs list -H -t snapshot -o name "$target_ds" 2>/dev/null | sed '/^$/d' | wc -l)"
      if [ "$target_snapshot_count" -eq 0 ]; then
        echo "WARN: removing stale empty target dataset $target_ds before full raw receive" >&2
        ssh -o BatchMode=yes "$TARGET_USER@$TARGET_HOST" -- zfs destroy -r "$target_ds"
      else
        echo "ERROR: target dataset $target_ds already exists with snapshots but no matching base for job $JOB_ID" >&2
        return 1
      fi
    fi

    if [ "$transfer_mode" = "incremental" ]; then
      estimate="$(zfs send -nP -w -i "$last_source_snapshot" "$new_source_snapshot" 2>&1 | awk '/size[[:space:]]/ {print $2; exit}')"
      if [ "$RATE_LIMIT_KIB" -gt 0 ]; then
        zfs send -w -i "$last_source_snapshot" "$new_source_snapshot" | cstream -t "$RATE_LIMIT_KIB" | \
          ssh -o BatchMode=yes "$TARGET_USER@$TARGET_HOST" -- zfs recv -u "$target_ds"
      else
        zfs send -w -i "$last_source_snapshot" "$new_source_snapshot" | \
          ssh -o BatchMode=yes "$TARGET_USER@$TARGET_HOST" -- zfs recv -u "$target_ds"
      fi
      if [ "$primary_logged" -eq 0 ]; then
        estimate="${estimate:-0}"
        echo "send from $last_source_snapshot to $new_source_snapshot estimated size is ${estimate}B"
        echo "total estimated size is ${estimate}B"
        echo "TIME        SENT   SNAPSHOT $new_source_snapshot"
        echo "00:00:00 ${estimate} ${new_source_snapshot}"
        primary_logged=1
      fi
    else
      estimate="$(zfs send -nP -w "$new_source_snapshot" 2>&1 | awk '/size[[:space:]]/ {print $2; exit}')"
      if [ "$RATE_LIMIT_KIB" -gt 0 ]; then
        zfs send -w "$new_source_snapshot" | cstream -t "$RATE_LIMIT_KIB" | \
          ssh -o BatchMode=yes "$TARGET_USER@$TARGET_HOST" -- zfs recv -u "$target_ds"
      else
        zfs send -w "$new_source_snapshot" | \
          ssh -o BatchMode=yes "$TARGET_USER@$TARGET_HOST" -- zfs recv -u "$target_ds"
      fi
      if [ "$primary_logged" -eq 0 ]; then
        estimate="${estimate:-0}"
        echo "full send of $new_source_snapshot estimated size is ${estimate}B"
        echo "total estimated size is ${estimate}B"
        echo "TIME        SENT   SNAPSHOT $new_source_snapshot"
        echo "00:00:00 ${estimate} ${new_source_snapshot}"
        primary_logged=1
      fi
    fi

    prune_source_snapshots "$source_ds"
    prune_target_snapshots "$target_ds"
  done
}
"#;

/// Finding the source datasets and choosing the stream mode.
pub const CHOOSE_STREAM: &'static str = r#"SOURCE_DATASETS="$(collect_source_datasets)"
if [ -z "$SOURCE_DATASETS" ]; then
  echo "ERROR: guest has no ZFS-backed datasets suitable for replication" >&2
  exit 1
fi
ENCRYPTED_SOURCE=0
for source_ds in $SOURCE_DATASETS; do
  enc="$(zfs get -H -o value encryption "$source_ds" 2>/dev/null || echo off)"
  if [ "$enc" != "off" ] && [ "$enc" != "-" ]; then
    ENCRYPTED_SOURCE=1
    break
  fi
done
if [ "$STREAM_MODE_CONFIG" = "auto" ]; then
  if [ "$ENCRYPTED_SOURCE" = "1" ]; then
    EFFECTIVE_STREAM_MODE="raw"
  else
    EFFECTIVE_STREAM_MODE="plain"
  fi
fi
echo "INFO: zfs-stream configured=$STREAM_MODE_CONFIG effective=$EFFECTIVE_STREAM_MODE source-encrypted=$ENCRYPTED_SOURCE"
STATUS=0
"#;

/// The test for a plain stream, under which the plain sync command stands.
pub const PLAIN_TEST: &'static str = "if [ \"$EFFECTIVE_STREAM_MODE\" = \"plain\" ]; then\n";

/// The raw branch and the end of the choice.
pub const RAW_BRANCH: &'static str = "else\n  run_raw_sync \"$SOURCE_DATASETS\" || STATUS=$?\nfi\n";

/// Thawing the guest's file systems, up to the command.
pub const THAW_BEFORE: &'static str = r#"if [ "$FREEZE_DONE" = "1" ]; then
  echo "QGA fsfreeze: thaw requested"
  if THAW_OUTPUT="$("#;

/// Thawing the guest's file systems, after the command.
pub const THAW_AFTER: &'static str = r#" 2>&1)"; then
    echo "QGA fsfreeze: thaw ok"
  else
    THAW_OUTPUT="$(printf '%s' "$THAW_OUTPUT" | tr '\n' ' ' | sed 's/[[:space:]]\+/ /g')"
    if [ -n "$THAW_OUTPUT" ]; then
      echo "QGA fsfreeze: thaw failed ($THAW_OUTPUT)"
    else
      echo "QGA fsfreeze: thaw failed"
    fi
  fi
fi
"#;

/// How every sync script ends.
pub const SCRIPT_EXIT: &'static str = "exit \"$STATUS\"\n";

/// The bandwidth limit in KiB/s, at most the largest number.
pub open spec fn limit_kib(limit_mib: u64) -> nat {
    if limit_mib * 1024 > u64::MAX {
        u64::MAX as nat
    } else {
        (limit_mib * 1024) as nat
    }
}

/// The name that scripts use for a guest type.
pub open spec fn guest_type_name(t: GuestType) -> Seq<char> {
    match t {
        GuestType::Qemu => "qemu"@,
        GuestType::Lxc => "lxc"@,
    }
}

/// The `pve-zsync` command of a plain sync.
pub open spec fn plain_sync_command(job: OffsiteReplicationJob, host: Seq<char>) -> Seq<char> {
    let command = "pve-zsync sync --source "@ + escaped(decimal(job.vmid as nat)) + " --dest "@
        + escaped(host + ":"@ + job.target_dataset@) + " --name "@ + escaped(job.id@)
        + " --maxsnap "@ + escaped(decimal(job.max_snapshots as nat))
        + " --method ssh --source-user "@ + escaped(job.source_user@) + " --dest-user "@ + escaped(
        job.target_user@,
    ) + " --verbose"@;
    match job.rate_limit_mib {
        Some(limit) => command + " --limit "@ + decimal(limit_kib(limit)),
        None => command,
    }
}

/// The part that freezes the guest: a virtual machine whose job asks for it is frozen.
pub open spec fn freeze_part(job: OffsiteReplicationJob) -> Seq<char> {
    if job.qga_fsfreeze && job.guest_type == GuestType::Qemu {
        FREEZE_BEFORE@ + ("qm guest cmd "@ + decimal(job.vmid as nat) + " fsfreeze-freeze"@)
            + FREEZE_AFTER@
    } else {
        Seq::empty()
    }
}

/// The part that thaws the guest, which only a virtual machine has.
pub open spec fn thaw_part(job: OffsiteReplicationJob) -> Seq<char> {
    if job.guest_type == GuestType::Qemu {
        THAW_BEFORE@ + ("qm guest cmd "@ + decimal(job.vmid as nat) + " fsfreeze-thaw"@)
            + THAW_AFTER@
    } else {
        Seq::empty()
    }
}

/// A line that sets a variable: `name`, with its equals sign, and the value.
pub open spec fn setting(name: Seq<char>, value: Seq<char>) -> Seq<char> {
    name + value + "\n"@
}

/// The bandwidth limit that the raw sync is told: zero stands for none.
pub open spec fn told_limit(job: OffsiteReplicationJob) -> nat {
    match job.rate_limit_mib {
        Some(limit) => limit_kib(limit),
        None => 0,
    }
}

/// The variables of the script.
pub open spec fn variables_part(job: OffsiteReplicationJob, host: Seq<char>) -> Seq<char> {
    setting("STREAM_MODE_CONFIG="@, escaped(stream_mode_name(job.zfs_stream_mode)))
        + "EFFECTIVE_STREAM_MODE=\"$STREAM_MODE_CONFIG\"\n"@
        + setting("JOB_ID="@, escaped(job.id@))
        + setting("VMID="@, decimal(job.vmid as nat))
        + setting("GUEST_TYPE="@, escaped(guest_type_name(job.guest_type)))
        + setting("TARGET_HOST="@, escaped(host))
        + setting("TARGET_DATASET="@, escaped(job.target_dataset@))
        + setting("SOURCE_USER="@, escaped(job.source_user@))
        + setting("TARGET_USER="@, escaped(job.target_user@))
        + setting("MAXSNAP="@, decimal(job.max_snapshots as nat))
        + setting("RATE_LIMIT_KIB="@, decimal(told_limit(job)))
}

/// The script that replicates the guest of a job to `host`.
pub open spec fn remote_script(job: OffsiteReplicationJob, host: Seq<char>) -> Seq<char> {
    SCRIPT_HEAD@ + freeze_part(job) + variables_part(job, host) + RAW_SYNC_FUNCTIONS@
        + CHOOSE_STREAM@ + PLAIN_TEST@ + "  "@ + plain_sync_command(job, host) + " || STATUS=$?\n"@ + RAW_BRANCH@
        + thaw_part(job) + SCRIPT_EXIT@
}

/// The bandwidth limit in KiB/s, at most the largest number.
fn rate_kib(limit_mib: u64) -> (r: u64)
    ensures
        r == limit_kib(limit_mib),
{
    match limit_mib.checked_mul(1024) {
        Some(v) => v,
        None => u64::MAX,
    }
}

fn guest_type_str(t: GuestType) -> (r: &'static str)
    ensures
        r@ == guest_type_name(t),
{
    match t {
        GuestType::Qemu => "qemu",
        GuestType::Lxc => "lxc",
    }
}

/// Adds a text as one shell word.
pub fn push_escaped(script: &mut String, text: &str)
    ensures
        final(script)@ == old(script)@ + escaped(text@),
{
    let word = shell_escape(text);
    script.append(word.as_str());
}

/// Adds a number in decimal.
pub fn push_decimal(script: &mut String, n: u64)
    ensures
        final(script)@ == old(script)@ + decimal(n as nat),
{
    let digits = to_decimal(n);
    script.append(digits.as_str());
}

/// The `pve-zsync` command of a plain sync to `target_host`.
pub fn build_plain_sync_command(job: &OffsiteReplicationJob, target_host: &str) -> (r: String)
    ensures
        r@ == plain_sync_command(*job, target_host@),
{
    let vmid = to_decimal(job.vmid as u64);
    let max_snapshots = to_decimal(job.max_snapshots);
    let mut dest = target_host.to_owned();
    dest.append(":");
    dest.append(job.target_dataset.as_str());

    let mut cmd = "pve-zsync sync --source ".to_owned();
    push_escaped(&mut cmd, vmid.as_str());
    cmd.append(" --dest ");
    push_escaped(&mut cmd, dest.as_str());
    cmd.append(" --name ");
    push_escaped(&mut cmd, job.id.as_str());
    cmd.append(" --maxsnap ");
    push_escaped(&mut cmd, max_snapshots.as_str());
    cmd.append(" --method ssh --source-user ");
    push_escaped(&mut cmd, job.source_user.as_str());
    cmd.append(" --dest-user ");
    push_escaped(&mut cmd, job.target_user.as_str());
    cmd.append(" --verbose");

    if let Some(limit_mib) = job.rate_limit_mib {
        cmd.append(" --limit ");
        push_decimal(&mut cmd, rate_kib(limit_mib));
    }
    cmd
}

fn freeze_text(job: &OffsiteReplicationJob) -> (r: String)
    ensures
        r@ == freeze_part(*job),
{
    if job.qga_fsfreeze && job.guest_type == GuestType::Qemu {
        let mut part = FREEZE_BEFORE.to_owned();
        part.append("qm guest cmd ");
        push_decimal(&mut part, job.vmid as u64);
        part.append(" fsfreeze-freeze");
        part.append(FREEZE_AFTER);
        assert(part@ =~= freeze_part(*job));
        part
    } else {
        String::new()
    }
}

fn thaw_text(job: &OffsiteReplicationJob) -> (r: String)
    ensures
        r@ == thaw_part(*job),
{
    if job.guest_type == GuestType::Qemu {
        let mut part = THAW_BEFORE.to_owned();
        part.append("qm guest cmd ");
        push_decimal(&mut part, job.vmid as u64);
        part.append(" fsfreeze-thaw");
        part.append(THAW_AFTER);
        assert(part@ =~= thaw_part(*job));
        part
    } else {
        String::new()
    }
}

fn push_word(part: &mut String, name: &str, text: &str)
    ensures
        final(part)@ == old(part)@ + setting(name@, escaped(text@)),
{
    let ghost start = part@;
    part.append(name);
    push_escaped(part, text);
    part.append("\n");
    assert(part@ =~= start + setting(name@, escaped(text@)));
}

fn push_number(part: &mut String, name: &str, n: u64)
    ensures
        final(part)@ == old(part)@ + setting(name@, decimal(n as nat)),
{
    let ghost start = part@;
    part.append(name);
    push_decimal(part, n);
    part.append("\n");
    assert(part@ =~= start + setting(name@, decimal(n as nat)));
}

fn variables_text(job: &OffsiteReplicationJob, target_host: &str) -> (r: String)
    ensures
        r@ == variables_part(*job, target_host@),
{
    let rate_limit: u64 = match job.rate_limit_mib {
        Some(limit) => rate_kib(limit),
        None => 0,
    };
    let mut part = String::new();
    push_word(&mut part, "STREAM_MODE_CONFIG=", job.zfs_stream_mode.as_str());
    assert(part@ =~= setting(
        "STREAM_MODE_CONFIG="@,
        escaped(stream_mode_name(job.zfs_stream_mode)),
    ));
    part.append("EFFECTIVE_STREAM_MODE=\"$STREAM_MODE_CONFIG\"\n");
    push_word(&mut part, "JOB_ID=", job.id.as_str());
    push_number(&mut part, "VMID=", job.vmid as u64);
    push_word(&mut part, "GUEST_TYPE=", guest_type_str(job.guest_type));
    push_word(&mut part, "TARGET_HOST=", target_host);
    push_word(&mut part, "TARGET_DATASET=", job.target_dataset.as_str());
    push_word(&mut part, "SOURCE_USER=", job.source_user.as_str());
    push_word(&mut part, "TARGET_USER=", job.target_user.as_str());
    push_number(&mut part, "MAXSNAP=", job.max_snapshots);
    push_number(&mut part, "RATE_LIMIT_KIB=", rate_limit);
    part
}

/// The script that replicates the guest of a job to `target_host`.
pub fn build_remote_script(job: &OffsiteReplicationJob, target_host: &str) -> (r: String)
    requires
        job.rate_limit_mib matches Some(limit) ==> limit * 1024 <= u64::MAX,
    ensures
        r@ == remote_script(*job, target_host@),
{
    let freeze = freeze_text(job);
    let variables = variables_text(job, target_host);
    let plain_cmd = build_plain_sync_command(job, target_host);
    let thaw = thaw_text(job);

    let mut script = SCRIPT_HEAD.to_owned();
    script.append(freeze.as_str());
    script.append(variables.as_str());
    script.append(RAW_SYNC_FUNCTIONS);
    script.append(CHOOSE_STREAM);
    script.append(PLAIN_TEST);
    script.append("  ");
    script.append(plain_cmd.as_str());
    script.append(" || STATUS=$?\n");
    script.append(RAW_BRANCH);
    script.append(thaw.as_str());
    script.append(SCRIPT_EXIT);
    script
}

/// How the option to freeze the guest is reported.
pub open spec fn qga_mode(job: OffsiteReplicationJob) -> Seq<char> {
    match (job.qga_fsfreeze, job.guest_type) {
        (true, GuestType::Qemu) => "requested"@,
        (false, GuestType::Qemu) => "disabled"@,
        (true, GuestType::Lxc) => "ignored (non-qemu guest)"@,
        (false, GuestType::Lxc) => "not-applicable"@,
    }
}

/// The bandwidth limit in words.
pub open spec fn rate_limit_words(job: OffsiteReplicationJob) -> Seq<char> {
    match job.rate_limit_mib {
        Some(limit) => decimal(limit as nat) + " MiB/s"@,
        None => "unlimited"@,
    }
}

/// The options of a job in one line.
pub open spec fn option_summary(job: OffsiteReplicationJob) -> Seq<char> {
    "INFO: options rate-limit="@ + rate_limit_words(job) + ", qga-fsfreeze="@ + qga_mode(job)
        + ", zfs-stream="@ + stream_mode_name(job.zfs_stream_mode) + ", max-snapshots="@ + decimal(
        job.max_snapshots as nat,
    ) + ", history-limit="@ + decimal(job.history_limit as nat)
}

/// The options of a job in one line, for the run's output.
pub fn run_option_summary(job: &OffsiteReplicationJob) -> (r: String)
    ensures
        r@ == option_summary(*job),
{
    let rate_limit = match job.rate_limit_mib {
        Some(limit) => {
            let mut words = to_decimal(limit);
            words.append(" MiB/s");
            words
        },
        None => "unlimited".to_owned(),
    };
    let qga = match (job.qga_fsfreeze, job.guest_type) {
        (true, GuestType::Qemu) => "requested",
        (false, GuestType::Qemu) => "disabled",
        (true, GuestType::Lxc) => "ignored (non-qemu guest)",
        (false, GuestType::Lxc) => "not-applicable",
    };
    let mut line = "INFO: options rate-limit=".to_owned();
    line.append(rate_limit.as_str());
    line.append(", qga-fsfreeze=");
    line.append(qga);
    line.append(", zfs-stream=");
    line.append(job.zfs_stream_mode.as_str());
    line.append(", max-snapshots=");
    push_decimal(&mut line, job.max_snapshots);
    line.append(", history-limit=");
    push_decimal(&mut line, job.history_limit);
    line
}

// ---------------------------------------------------------------------------------------------
// Laws
// ---------------------------------------------------------------------------------------------

/// A guest that the script freezes is thawed by the script.
pub proof fn law_frozen_guests_are_thawed(job: OffsiteReplicationJob)
    requires
        freeze_part(job) != Seq::<char>::empty(),
    ensures
        thaw_part(job) == THAW_BEFORE@ + ("qm guest cmd "@ + decimal(job.vmid as nat)
            + " fsfreeze-thaw"@) + THAW_AFTER@,
        occurs(thaw_part(job), "qm guest cmd "@ + decimal(job.vmid as nat) + " fsfreeze-thaw"@),
{
    lemma_stands_where_put(
        THAW_BEFORE@,
        "qm guest cmd "@ + decimal(job.vmid as nat) + " fsfreeze-thaw"@,
        THAW_AFTER@,
    );
}

/// A virtual machine is frozen exactly where its job asks for it, by the guest agent's command for
/// its own ID.
pub proof fn law_freezing_is_by_request(job: OffsiteReplicationJob)
    requires
        job.guest_type == GuestType::Qemu,
    ensures
        job.qga_fsfreeze ==> occurs(
            freeze_part(job),
            "qm guest cmd "@ + decimal(job.vmid as nat) + " fsfreeze-freeze"@,
        ),
        !job.qga_fsfreeze ==> freeze_part(job).len() == 0,
{
    lemma_stands_where_put(
        FREEZE_BEFORE@,
        "qm guest cmd "@ + decimal(job.vmid as nat) + " fsfreeze-freeze"@,
        FREEZE_AFTER@,
    );
}

/// What a script holds between the part that freezes the guest and the part that thaws it.
pub open spec fn between_freeze_and_thaw(job: OffsiteReplicationJob, script: Seq<char>) -> Seq<
    char,
> {
    let opening = ("set -euo pipefail\nFREEZE_DONE=0\n"@ + freeze_part(job)).len() as int;
    let ending = (thaw_part(job) + "exit \"$STATUS\"\n"@).len() as int;
    script.subrange(opening, script.len() - ending)
}

/// The guest is synced while it is frozen. The script starts with the part that freezes the guest
/// and ends with the part that thaws it and the exit with the sync's status; in between, and nowhere
/// else, it sets its variables, defines the raw sync, finds the datasets, and then calls `pve-zsync`
/// or the raw sync.
pub proof fn law_sync_runs_between_freeze_and_thaw(job: OffsiteReplicationJob, host: Seq<char>)
    ensures
        ({
            let script = remote_script(job, host);
            let opening = "set -euo pipefail\nFREEZE_DONE=0\n"@ + freeze_part(job);
            let ending = thaw_part(job) + "exit \"$STATUS\"\n"@;
            &&& opening.len() + ending.len() <= script.len()
            &&& has_prefix(script, opening)
            &&& has_suffix(script, ending)
            &&& stand_in_order(
                between_freeze_and_thaw(job, script),
                seq![
                    variables_part(job, host),
                    RAW_SYNC_FUNCTIONS@,
                    CHOOSE_STREAM@,
                    "if [ \"$EFFECTIVE_STREAM_MODE\" = \"plain\" ]; then\n"@ + "  "@
                        + plain_sync_command(job, host) + " || STATUS=$?\n"@,
                    "else\n  run_raw_sync \"$SOURCE_DATASETS\" || STATUS=$?\nfi\n"@,
                ],
            )
        }),
{
    lemma_shape_of_script(
        "set -euo pipefail\nFREEZE_DONE=0\n"@,
        freeze_part(job),
        variables_part(job, host),
        RAW_SYNC_FUNCTIONS@,
        CHOOSE_STREAM@,
        PLAIN_TEST@,
        "  "@,
        plain_sync_command(job, host),
        " || STATUS=$?\n"@,
        RAW_BRANCH@,
        thaw_part(job),
        "exit \"$STATUS\"\n"@,
    );
}

proof fn lemma_shape_of_script(
    head: Seq<char>,
    freeze: Seq<char>,
    variables: Seq<char>,
    functions: Seq<char>,
    choice: Seq<char>,
    test: Seq<char>,
    gap: Seq<char>,
    plain: Seq<char>,
    status: Seq<char>,
    branch: Seq<char>,
    thaw: Seq<char>,
    exit: Seq<char>,
)
    ensures
        ({
            let script = head + freeze + variables + functions + choice + test + gap + plain
                + status + branch + thaw + exit;
            let opening = head + freeze;
            let ending = thaw + exit;
            &&& opening.len() + ending.len() <= script.len()
            &&& has_prefix(script, opening)
            &&& has_suffix(script, ending)
            &&& stand_in_order(
                script.subrange(opening.len() as int, script.len() - ending.len()),
                seq![variables, functions, choice, test + gap + plain + status, branch],
            )
        }),
{
    let script = head + freeze + variables + functions + choice + test + gap + plain + status
        + branch + thaw + exit;
    let opening = head + freeze;
    let ending = thaw + exit;
    let nothing = Seq::<char>::empty();
    let plainly = test + gap + plain + status;
    let after_plain = nothing + branch + nothing;
    let after_choice = nothing + plainly + after_plain;
    let after_functions = nothing + choice + after_choice;
    let after_variables = nothing + functions + after_functions;
    let between = nothing + variables + after_variables;
    assert(script =~= opening + between + ending);
    assert(script.take(opening.len() as int) =~= opening);
    assert(script.skip(script.len() - ending.len()) =~= ending);
    assert(script.subrange(opening.len() as int, script.len() - ending.len()) =~= between);
    let parts = seq![variables, functions, choice, plainly, branch];
    let q1 = parts.skip(1);
    let q2 = q1.skip(1);
    let q3 = q2.skip(1);
    let q4 = q3.skip(1);
    assert(q4.skip(1) =~= seq![]);
    lemma_order_where_put(nothing, branch, nothing, q4);
    lemma_order_where_put(nothing, plainly, after_plain, q3);
    lemma_order_where_put(nothing, choice, after_choice, q2);
    lemma_order_where_put(nothing, functions, after_functions, q1);
    lemma_order_where_put(nothing, variables, after_variables, parts);
}

/// To ask for a freeze adds the part that freezes the guest to the start of the script, and changes
/// nothing else.
pub proof fn law_freeze_is_added_to_the_script(
    job: OffsiteReplicationJob,
    other: OffsiteReplicationJob,
    host: Seq<char>,
)
    requires
        job.qga_fsfreeze,
        other == (OffsiteReplicationJob { qga_fsfreeze: false, ..job }),
    ensures
        ({
            let head = "set -euo pipefail\nFREEZE_DONE=0\n"@;
            let rest = remote_script(other, host).skip(head.len() as int);
            &&& has_prefix(remote_script(other, host), head)
            &&& remote_script(job, host) == head + freeze_part(job) + rest
        }),
{
    let head = "set -euo pipefail\nFREEZE_DONE=0\n"@;
    let nothing = Seq::<char>::empty();
    assert(plain_sync_command(job, host) == plain_sync_command(other, host));
    assert(variables_part(job, host) == variables_part(other, host));
    assert(thaw_part(job) == thaw_part(other));
    assert(freeze_part(other) =~= nothing);
    lemma_part_is_added(
        head,
        freeze_part(job),
        variables_part(job, host),
        RAW_SYNC_FUNCTIONS@,
        CHOOSE_STREAM@,
        PLAIN_TEST@,
        "  "@,
        plain_sync_command(job, host),
        " || STATUS=$?\n"@,
        RAW_BRANCH@,
        thaw_part(job),
        SCRIPT_EXIT@,
    );
}

proof fn lemma_part_is_added(
    head: Seq<char>,
    freeze: Seq<char>,
    variables: Seq<char>,
    functions: Seq<char>,
    choice: Seq<char>,
    test: Seq<char>,
    gap: Seq<char>,
    plain: Seq<char>,
    status: Seq<char>,
    branch: Seq<char>,
    thaw: Seq<char>,
    exit: Seq<char>,
)
    ensures
        ({
            let nothing = Seq::<char>::empty();
            let with = head + freeze + variables + functions + choice + test + gap + plain + status
                + branch + thaw + exit;
            let without = head + nothing + variables + functions + choice + test + gap + plain + status
                + branch + thaw + exit;
            &&& has_prefix(without, head)
            &&& with == head + freeze + without.skip(head.len() as int)
        }),
{
    let nothing = Seq::<char>::empty();
    let with = head + freeze + variables + functions + choice + test + gap + plain + status + branch + thaw
        + exit;
    let without = head + nothing + variables + functions + choice + test + gap + plain + status + branch
        + thaw + exit;
    assert(without.take(head.len() as int) =~= head);
    assert(with =~= head + freeze + without.skip(head.len() as int));
}

/// The guest is thawed once: the script of a virtual machine is longer than that of a container by
/// the parts that freeze and thaw, and by what their names differ.
pub proof fn law_thaw_is_there_once(
    job: OffsiteReplicationJob,
    other: OffsiteReplicationJob,
    host: Seq<char>,
)
    requires
        job.guest_type == GuestType::Qemu,
        other == (OffsiteReplicationJob { guest_type: GuestType::Lxc, ..job }),
    ensures
        remote_script(job, host).len() == remote_script(other, host).len() + freeze_part(job).len()
            + thaw_part(job).len() + 1,
{
    reveal_strlit("qemu");
    reveal_strlit("lxc");
    assert forall|i: int| 0 <= i < "qemu"@.len() implies "qemu"@[i] != '\'' by {}
    assert forall|i: int| 0 <= i < "lxc"@.len() implies "lxc"@[i] != '\'' by {}
    law_escaping_of_text_without_quotes("qemu"@);
    law_escaping_of_text_without_quotes("lxc"@);
    assert(plain_sync_command(job, host) == plain_sync_command(other, host));
}

/// The plain sync sends the job's guest to the job's dataset on the host, keeps the job's number of
/// snapshots under the job's ID, and logs in as the source user on the source and as the target user
/// on the target.
pub proof fn law_plain_sync_names_both_sides(job: OffsiteReplicationJob, host: Seq<char>)
    ensures
        stand_in_order(
            plain_sync_command(job, host),
            seq![
                "pve-zsync sync --source "@ + escaped(decimal(job.vmid as nat)),
                " --dest "@ + escaped(host + ":"@ + job.target_dataset@),
                " --name "@ + escaped(job.id@),
                " --maxsnap "@ + escaped(decimal(job.max_snapshots as nat)),
                " --method ssh --source-user "@ + escaped(job.source_user@),
                " --dest-user "@ + escaped(job.target_user@),
                " --verbose"@,
            ],
        ),
{
    let nothing = Seq::<char>::empty();
    let tail = match job.rate_limit_mib {
        Some(limit) => " --limit "@ + decimal(limit_kib(limit)),
        None => nothing,
    };
    let command = "pve-zsync sync --source "@ + escaped(decimal(job.vmid as nat)) + " --dest "@
        + escaped(host + ":"@ + job.target_dataset@) + " --name "@ + escaped(job.id@)
        + " --maxsnap "@ + escaped(decimal(job.max_snapshots as nat))
        + " --method ssh --source-user "@ + escaped(job.source_user@) + " --dest-user "@ + escaped(
        job.target_user@,
    ) + " --verbose"@;
    assert(plain_sync_command(job, host) == command + tail) by {
        match job.rate_limit_mib {
            Some(limit) => {
                lemma_tail(command, " --limit "@, decimal(limit_kib(limit)));
            },
            None => {
                lemma_no_tail(command);
            },
        }
    }
    lemma_options_in_order(
        "pve-zsync sync --source "@,
        escaped(decimal(job.vmid as nat)),
        " --dest "@,
        escaped(host + ":"@ + job.target_dataset@),
        " --name "@,
        escaped(job.id@),
        " --maxsnap "@,
        escaped(decimal(job.max_snapshots as nat)),
        " --method ssh --source-user "@,
        escaped(job.source_user@),
        " --dest-user "@,
        escaped(job.target_user@),
        " --verbose"@,
        tail,
    );
}

proof fn lemma_tail(a: Seq<char>, b: Seq<char>, c: Seq<char>)
    ensures
        a + b + c == a + (b + c),
{
    assert(a + b + c =~= a + (b + c));
}

proof fn lemma_no_tail(a: Seq<char>)
    ensures
        a + Seq::<char>::empty() == a,
{
    assert(a + Seq::<char>::empty() =~= a);
}

proof fn lemma_options_in_order(
    k0: Seq<char>,
    v0: Seq<char>,
    k1: Seq<char>,
    v1: Seq<char>,
    k2: Seq<char>,
    v2: Seq<char>,
    k3: Seq<char>,
    v3: Seq<char>,
    k4: Seq<char>,
    v4: Seq<char>,
    k5: Seq<char>,
    v5: Seq<char>,
    last: Seq<char>,
    tail: Seq<char>,
)
    ensures
        stand_in_order(
            k0 + v0 + k1 + v1 + k2 + v2 + k3 + v3 + k4 + v4 + k5 + v5 + last + tail,
            seq![k0 + v0, k1 + v1, k2 + v2, k3 + v3, k4 + v4, k5 + v5, last],
        ),
{
    let nothing = Seq::<char>::empty();
    let none = Seq::<Seq<char>>::empty();
    let s0 = k0 + v0;
    assert(nothing + s0 =~= s0);
    lemma_order_appended(nothing, none, s0);
    let o0 = none.push(s0);
    let s1 = s0 + k1 + v1;
    lemma_tail(s0, k1, v1);
    lemma_order_appended(s0, o0, k1 + v1);
    let o1 = o0.push(k1 + v1);
    let s2 = s1 + k2 + v2;
    lemma_tail(s1, k2, v2);
    lemma_order_appended(s1, o1, k2 + v2);
    let o2 = o1.push(k2 + v2);
    let s3 = s2 + k3 + v3;
    lemma_tail(s2, k3, v3);
    lemma_order_appended(s2, o2, k3 + v3);
    let o3 = o2.push(k3 + v3);
    let s4 = s3 + k4 + v4;
    lemma_tail(s3, k4, v4);
    lemma_order_appended(s3, o3, k4 + v4);
    let o4 = o3.push(k4 + v4);
    let s5 = s4 + k5 + v5;
    lemma_tail(s4, k5, v5);
    lemma_order_appended(s4, o4, k5 + v5);
    let o5 = o4.push(k5 + v5);
    lemma_order_appended(s5, o5, last);
    let o6 = o5.push(last);
    lemma_order_kept(s5 + last, o6, tail);
    assert(o6 =~= seq![k0 + v0, k1 + v1, k2 + v2, k3 + v3, k4 + v4, k5 + v5, last]);
}

/// The raw sync is told the same of the job as the plain one: each variable holds its own value.
pub proof fn law_variables_hold_their_values(job: OffsiteReplicationJob, host: Seq<char>)
    ensures
        has_prefix(
            variables_part(job, host),
            "STREAM_MODE_CONFIG="@ + escaped(stream_mode_name(job.zfs_stream_mode)) + "\n"@,
        ),
        stand_in_order(
            variables_part(job, host),
            seq![
                "JOB_ID="@ + escaped(job.id@) + "\n"@,
                "VMID="@ + decimal(job.vmid as nat) + "\n"@,
                "GUEST_TYPE="@ + escaped(guest_type_name(job.guest_type)) + "\n"@,
                "TARGET_HOST="@ + escaped(host) + "\n"@,
                "TARGET_DATASET="@ + escaped(job.target_dataset@) + "\n"@,
                "SOURCE_USER="@ + escaped(job.source_user@) + "\n"@,
                "TARGET_USER="@ + escaped(job.target_user@) + "\n"@,
                "MAXSNAP="@ + decimal(job.max_snapshots as nat) + "\n"@,
            ],
        ),
{
    let nl = "\n"@;
    let mode = "STREAM_MODE_CONFIG="@ + escaped(stream_mode_name(job.zfs_stream_mode)) + nl;
    let lead = mode + "EFFECTIVE_STREAM_MODE=\"$STREAM_MODE_CONFIG\"\n"@;
    let p0 = "JOB_ID="@ + escaped(job.id@) + nl;
    let p1 = "VMID="@ + decimal(job.vmid as nat) + nl;
    let p2 = "GUEST_TYPE="@ + escaped(guest_type_name(job.guest_type)) + nl;
    let p3 = "TARGET_HOST="@ + escaped(host) + nl;
    let p4 = "TARGET_DATASET="@ + escaped(job.target_dataset@) + nl;
    let p5 = "SOURCE_USER="@ + escaped(job.source_user@) + nl;
    let p6 = "TARGET_USER="@ + escaped(job.target_user@) + nl;
    let p7 = "MAXSNAP="@ + decimal(job.max_snapshots as nat) + nl;
    let r7 = "RATE_LIMIT_KIB="@ + decimal(told_limit(job)) + nl;
    let all = lead + p0 + p1 + p2 + p3 + p4 + p5 + p6 + p7 + r7;
    assert(variables_part(job, host) == all);
    assert(all.take(mode.len() as int) =~= mode);
    lemma_lines_in_order(lead, p0, p1, p2, p3, p4, p5, p6, p7, r7);
}

proof fn lemma_lines_in_order(
    lead: Seq<char>,
    p0: Seq<char>,
    p1: Seq<char>,
    p2: Seq<char>,
    p3: Seq<char>,
    p4: Seq<char>,
    p5: Seq<char>,
    p6: Seq<char>,
    p7: Seq<char>,
    r7: Seq<char>,
)
    ensures
        stand_in_order(
            lead + p0 + p1 + p2 + p3 + p4 + p5 + p6 + p7 + r7,
            seq![p0, p1, p2, p3, p4, p5, p6, p7],
        ),
{
    let none = Seq::<Seq<char>>::empty();
    let s0 = lead + p0;
    lemma_order_appended(lead, none, p0);
    let o0 = none.push(p0);
    let s1 = s0 + p1;
    lemma_order_appended(s0, o0, p1);
    let o1 = o0.push(p1);
    let s2 = s1 + p2;
    lemma_order_appended(s1, o1, p2);
    let o2 = o1.push(p2);
    let s3 = s2 + p3;
    lemma_order_appended(s2, o2, p3);
    let o3 = o2.push(p3);
    let s4 = s3 + p4;
    lemma_order_appended(s3, o3, p4);
    let o4 = o3.push(p4);
    let s5 = s4 + p5;
    lemma_order_appended(s4, o4, p5);
    let o5 = o4.push(p5);
    let s6 = s5 + p6;
    lemma_order_appended(s5, o5, p6);
    let o6 = o5.push(p6);
    let s7 = s6 + p7;
    lemma_order_appended(s6, o6, p7);
    let o7 = o6.push(p7);
    lemma_order_kept(s7, o7, r7);
    assert(o7 =~= seq![p0, p1, p2, p3, p4, p5, p6, p7]);
}

/// A bandwidth limit is handed to both kinds of sync in KiB/s, and changes nothing else of the plain
/// one; without a limit the raw sync is told zero.
pub proof fn law_limit_is_handed_on_in_kib(
    job: OffsiteReplicationJob,
    other: OffsiteReplicationJob,
    host: Seq<char>,
    limit: u64,
)
    requires
        job.rate_limit_mib == Some(limit),
        limit * 1024 <= u64::MAX,
        other == (OffsiteReplicationJob { rate_limit_mib: None, ..job }),
    ensures
        plain_sync_command(job, host) == plain_sync_command(other, host) + " --limit "@ + decimal(
            (limit * 1024) as nat,
        ),
        has_suffix(
            variables_part(job, host),
            "RATE_LIMIT_KIB="@ + decimal((limit * 1024) as nat) + "\n"@,
        ),
        has_suffix(variables_part(other, host), "RATE_LIMIT_KIB="@ + decimal(0) + "\n"@),
{
    let last = "RATE_LIMIT_KIB="@ + decimal((limit * 1024) as nat) + "\n"@;
    let none = "RATE_LIMIT_KIB="@ + decimal(0) + "\n"@;
    let with = variables_part(job, host);
    let without = variables_part(other, host);
    assert(with.skip(with.len() - last.len()) =~= last);
    assert(without.skip(without.len() - none.len()) =~= none);
}

/// The line of options says of each option what the job says.
pub proof fn law_option_summary_tells_the_options(job: OffsiteReplicationJob)
    ensures
        job.rate_limit_mib matches Some(limit) ==> stand_in_order(
            option_summary(job),
            seq![
                "rate-limit="@ + (decimal(limit as nat) + " MiB/s"@),
                "zfs-stream="@ + stream_mode_name(job.zfs_stream_mode),
                "max-snapshots="@ + decimal(job.max_snapshots as nat),
                "history-limit="@ + decimal(job.history_limit as nat),
            ],
        ),
        job.rate_limit_mib is None ==> stand_in_order(
            option_summary(job),
            seq![
                "rate-limit="@ + "unlimited"@,
                "zfs-stream="@ + stream_mode_name(job.zfs_stream_mode),
                "max-snapshots="@ + decimal(job.max_snapshots as nat),
                "history-limit="@ + decimal(job.history_limit as nat),
            ],
        ),
{
    assert("INFO: options rate-limit="@ =~= "INFO: options "@ + "rate-limit="@) by {
        reveal_strlit("INFO: options rate-limit=");
        reveal_strlit("INFO: options ");
        reveal_strlit("rate-limit=");
    }
    assert(", zfs-stream="@ =~= ", "@ + "zfs-stream="@) by {
        reveal_strlit(", zfs-stream=");
        reveal_strlit("zfs-stream=");
        reveal_strlit(", ");
    }
    assert(", max-snapshots="@ =~= ", "@ + "max-snapshots="@) by {
        reveal_strlit(", max-snapshots=");
        reveal_strlit("max-snapshots=");
        reveal_strlit(", ");
    }
    assert(", history-limit="@ =~= ", "@ + "history-limit="@) by {
        reveal_strlit(", history-limit=");
        reveal_strlit("history-limit=");
        reveal_strlit(", ");
    }
    let words = match job.rate_limit_mib {
        Some(limit) => decimal(limit as nat) + " MiB/s"@,
        None => "unlimited"@,
    };
    assert(rate_limit_words(job) =~= words);
    let k0 = "rate-limit="@;
    let k1 = "zfs-stream="@;
    let k2 = "max-snapshots="@;
    let k3 = "history-limit="@;
    let v1 = stream_mode_name(job.zfs_stream_mode);
    let v2 = decimal(job.max_snapshots as nat);
    let v3 = decimal(job.history_limit as nat);
    let a0 = "INFO: options "@ + (k0 + words);
    let gap = ", qga-fsfreeze="@ + qga_mode(job) + ", "@;
    let a1 = a0 + gap + (k1 + v1);
    let a2 = a1 + ", "@ + (k2 + v2);
    let a3 = a2 + ", "@ + (k3 + v3);
    assert("INFO: options rate-limit="@ + words =~= a0);
    assert(a0 + ", qga-fsfreeze="@ + qga_mode(job) + ", zfs-stream="@ + v1 =~= a1);
    assert(a1 + ", max-snapshots="@ + v2 =~= a2);
    assert(a2 + ", history-limit="@ + v3 =~= a3);
    assert(option_summary(job) == a3);
    lemma_four_in_order("INFO: options "@, k0 + words, gap, k1 + v1, ", "@, k2 + v2, k3 + v3);
}

proof fn lemma_four_in_order(
    lead: Seq<char>,
    p0: Seq<char>,
    gap: Seq<char>,
    p1: Seq<char>,
    comma: Seq<char>,
    p2: Seq<char>,
    p3: Seq<char>,
)
    ensures
        stand_in_order(
            lead + p0 + gap + p1 + comma + p2 + comma + p3,
            seq![p0, p1, p2, p3],
        ),
{
    let nothing = Seq::<char>::empty();
    let r2 = comma + p3 + nothing;
    let r1 = comma + p2 + r2;
    let r0 = gap + p1 + r1;
    assert(lead + p0 + gap + p1 + comma + p2 + comma + p3 =~= lead + p0 + r0);
    let parts = seq![p0, p1, p2, p3];
    let q1 = parts.skip(1);
    let q2 = q1.skip(1);
    let q3 = q2.skip(1);
    assert(q3.skip(1) =~= seq![]);
    lemma_order_where_put(comma, p3, nothing, q3);
    lemma_order_where_put(comma, p2, r2, q2);
    lemma_order_where_put(gap, p1, r1, q1);
    lemma_order_where_put(lead, p0, r0, parts);
}

/// The line of options tells what comes of the freeze that a job asks for, and the names of modes and
/// guests are those that the script compares with.
pub proof fn law_words_of_the_options(job: OffsiteReplicationJob)
    ensures
        job.guest_type == GuestType::Qemu && job.qga_fsfreeze ==> qga_mode(job) == "requested"@,
        job.guest_type == GuestType::Qemu && !job.qga_fsfreeze ==> qga_mode(job) == "disabled"@,
        job.guest_type == GuestType::Lxc && job.qga_fsfreeze ==> qga_mode(job)
            == "ignored (non-qemu guest)"@,
        job.guest_type == GuestType::Lxc && !job.qga_fsfreeze ==> qga_mode(job)
            == "not-applicable"@,
        guest_type_name(GuestType::Qemu) == "qemu"@,
        guest_type_name(GuestType::Lxc) == "lxc"@,
        stream_mode_name(OffsiteZfsStreamMode::Auto) == "auto"@,
        stream_mode_name(OffsiteZfsStreamMode::Plain) == "plain"@,
        stream_mode_name(OffsiteZfsStreamMode::Raw) == "raw"@,
        occurs(option_summary(job), ", qga-fsfreeze="@ + qga_mode(job) + ", "@),
{
    let nothing = Seq::<char>::empty();
    assert(", zfs-stream="@ =~= ", "@ + "zfs-stream="@) by {
        reveal_strlit(", zfs-stream=");
        reveal_strlit("zfs-stream=");
        reveal_strlit(", ");
    }
    let before = "INFO: options rate-limit="@ + rate_limit_words(job);
    let words = ", qga-fsfreeze="@ + qga_mode(job) + ", "@;
    let after = "zfs-stream="@ + (stream_mode_name(job.zfs_stream_mode) + ", max-snapshots="@
        + decimal(job.max_snapshots as nat) + ", history-limit="@ + decimal(
        job.history_limit as nat,
    ));
    assert(option_summary(job) =~= before + words + after);
    lemma_stands_where_put(before, words, after);
}

/// A container is neither frozen nor thawed, whatever its job says.
pub proof fn law_containers_are_not_frozen(
    job: OffsiteReplicationJob,
    other: OffsiteReplicationJob,
    host: Seq<char>,
)
    requires
        job.guest_type == GuestType::Lxc,
        other == (OffsiteReplicationJob { qga_fsfreeze: !job.qga_fsfreeze, ..job }),
    ensures
        freeze_part(job) == Seq::<char>::empty(),
        thaw_part(job) == Seq::<char>::empty(),
        remote_script(other, host) == remote_script(job, host),
{
}

} // verus!
