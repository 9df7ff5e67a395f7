use offsite_replication::failover::build_qemu_failover_script;
use offsite_replication::history::{annotate_run, byte_size_text, transfer_sizes, ByteSizeText};
use offsite_replication::ids::{recovery_storage_id, sanitize_id};
use offsite_replication::qemu::{parse_qemu_config, recover_disk_basename, ParsedQemuDisk};
use offsite_replication::snapshots::{
    selected_lineage_prefix_from_target_snapshot, source_snapshot_to_target_snapshot_candidates,
};
use offsite_replication::sync::{build_plain_sync_command, build_remote_script};
use offsite_replication::types::{
    GuestType, OffsiteFailoverRequest, OffsiteReplicationJob, OffsiteReplicationRun,
    OffsiteZfsStreamMode,
};

fn sample_job(guest_type: GuestType) -> OffsiteReplicationJob {
    OffsiteReplicationJob {
        id: "job-100".to_string(),
        source_remote: "src".to_string(),
        source_node: "src-node".to_string(),
        guest_type,
        vmid: 100,
        target_remote: "dst".to_string(),
        target_node: "dst-node".to_string(),
        target_dataset: "tank/offsite".to_string(),
        schedule: "*:0/15".to_string(),
        max_snapshots: 8,
        history_limit: 200,
        rate_limit_mib: Some(64),
        zfs_stream_mode: OffsiteZfsStreamMode::Auto,
        source_user: "root".to_string(),
        target_user: "root".to_string(),
        ssh_private_key: "/root/.ssh/id_ed25519".to_string(),
        qga_fsfreeze: true,
        comment: None,
        disable: false,
    }
}

fn replica_job(id: &str) -> OffsiteReplicationJob {
    OffsiteReplicationJob {
        id: id.to_string(),
        disable: false,
        source_remote: "src".to_string(),
        source_node: "node-a".to_string(),
        guest_type: GuestType::Qemu,
        vmid: 100,
        target_remote: "dst".to_string(),
        target_node: "node-b".to_string(),
        target_dataset: "offsite/replica".to_string(),
        schedule: "*:0/5".to_string(),
        max_snapshots: 4,
        history_limit: 200,
        rate_limit_mib: None,
        source_user: "root".to_string(),
        target_user: "root".to_string(),
        ssh_private_key: "/root/.ssh/id_ed25519".to_string(),
        qga_fsfreeze: false,
        comment: None,
        zfs_stream_mode: OffsiteZfsStreamMode::Auto,
    }
}

fn bytes(size: &ByteSizeText) -> Option<u64> {
    let number = size.number.parse::<f64>().ok()?;
    Some((number * size.factor as f64).round() as u64)
}

fn parse_byte_size(text: &str) -> Option<u64> {
    bytes(&byte_size_text(text)?)
}

fn annotate(run: OffsiteReplicationRun) -> OffsiteReplicationRun {
    let sizes: Vec<Option<u64>> = transfer_sizes(&run.output)
        .iter()
        .map(|size| size.as_ref().and_then(bytes))
        .collect();
    annotate_run(run, &sizes)
}

fn run_with_output(output: &str) -> OffsiteReplicationRun {
    OffsiteReplicationRun {
        start_time: 1,
        end_time: 3,
        duration: 2,
        success: true,
        transfer_mode: None,
        source_snapshot: None,
        snapshot: None,
        estimated_bytes: None,
        transferred_bytes: None,
        error: None,
        output: output.to_string(),
    }
}

#[test]
fn test_sanitize_id() {
    assert_eq!(sanitize_id("job-1"), "job-1");
    assert_eq!(sanitize_id("job 1/2"), "job_1_2");
    assert_eq!(sanitize_id("a:b*c"), "a_b_c");
}

#[test]
fn test_build_remote_script_qemu_has_fsfreeze() {
    let job = sample_job(GuestType::Qemu);
    let script = build_remote_script(&job, "192.0.2.10");

    assert!(script.contains("qm guest cmd 100 fsfreeze-freeze"));
    assert!(script.contains("qm guest cmd 100 fsfreeze-thaw"));
    assert!(script.contains("pve-zsync sync --source '100'"));
    assert!(script.contains("--dest '192.0.2.10:tank/offsite'"));
    assert!(script.contains("--name 'job-100'"));
    assert!(script.contains("--limit 65536"));
}

#[test]
fn test_build_remote_script_lxc_has_no_fsfreeze() {
    let job = sample_job(GuestType::Lxc);
    let script = build_remote_script(&job, "192.0.2.10");

    assert!(!script.contains("fsfreeze-freeze"));
    assert!(!script.contains("fsfreeze-thaw"));
    assert!(script.contains("pve-zsync sync --source '100'"));
}

#[test]
fn test_plain_sync_command_shell_escapes_fields() {
    let mut job = sample_job(GuestType::Qemu);
    job.id = "job'100".to_string();
    job.target_dataset = "tank/off'site".to_string();
    job.target_user = "root'user".to_string();

    let command = build_plain_sync_command(&job, "target'host");

    assert!(command.contains("--dest 'target'\"'\"'host:tank/off'\"'\"'site'"));
    assert!(command.contains("--name 'job'\"'\"'100'"));
    assert!(command.contains("--dest-user 'root'\"'\"'user'"));
}

#[test]
fn test_parse_byte_size() {
    assert_eq!(parse_byte_size("624"), Some(624));
    assert_eq!(parse_byte_size("624B"), Some(624));
    assert_eq!(parse_byte_size("1K"), Some(1024));
    assert_eq!(parse_byte_size("6.61K"), Some(6769));
}

#[test]
fn test_annotate_full_run() {
    let run = annotate(run_with_output(
        "full send of tank/vmdata/vm-100-disk-0@rep_job-100_2026-03-25_02:39:35 estimated size is 6.61K\n\
         total estimated size is 6.61K\n\
         TIME SENT SNAPSHOT\n\
         00:00:02 6.61K tank/vmdata/vm-100-disk-0@rep_job-100_2026-03-25_02:39:35\n",
    ));

    assert_eq!(run.transfer_mode.as_deref(), Some("full"));
    assert_eq!(
        run.snapshot.as_deref(),
        Some("tank/vmdata/vm-100-disk-0@rep_job-100_2026-03-25_02:39:35")
    );
    assert_eq!(run.estimated_bytes, Some(6769));
    assert_eq!(run.transferred_bytes, Some(6769));
}

#[test]
fn test_annotate_incremental_run() {
    let run = annotate(run_with_output(
        "send from tank/vmdata/vm-100-disk-0@rep_job-100_2026-03-25_03:10:00 to tank/vmdata/vm-100-disk-0@rep_job-100_2026-03-25_03:15:00 estimated size is 624B\n\
         total estimated size is 624\n\
         TIME SENT SNAPSHOT\n\
         00:00:02 624 tank/vmdata/vm-100-disk-0@rep_job-100_2026-03-25_03:15:00\n",
    ));

    assert_eq!(run.transfer_mode.as_deref(), Some("incremental"));
    assert_eq!(
        run.source_snapshot.as_deref(),
        Some("tank/vmdata/vm-100-disk-0@rep_job-100_2026-03-25_03:10:00")
    );
    assert_eq!(
        run.snapshot.as_deref(),
        Some("tank/vmdata/vm-100-disk-0@rep_job-100_2026-03-25_03:15:00")
    );
    assert_eq!(run.estimated_bytes, Some(624));
    assert_eq!(run.transferred_bytes, Some(624));
}

#[test]
fn test_annotate_run_falls_back_to_estimate_when_transfer_row_missing() {
    let run = annotate(run_with_output(
        "send from tank/vmdata/vm-100-disk-0@rep_job-100_2026-03-27_00:45:10 to tank/vmdata/vm-100-disk-0@rep_job-100_2026-03-27_00:50:00 estimated size is 624B\n\
         total estimated size is 624\n\
         TIME        SENT   SNAPSHOT tank/vmdata/vm-100-disk-0@rep_job-100_2026-03-27_00:50:00\n",
    ));

    assert_eq!(run.transfer_mode.as_deref(), Some("incremental"));
    assert_eq!(run.estimated_bytes, Some(624));
    assert_eq!(run.transferred_bytes, Some(624));
}

#[test]
fn test_parse_qemu_config_extracts_replayable_settings_and_disks() {
    let parsed = parse_qemu_config(
        "agent: 1\n\
         boot: order=virtio0\n\
         cores: 2\n\
         memory: 2048\n\
         name: app01\n\
         net0: virtio=AA:BB:CC:DD:EE:FF,bridge=vmbr0\n\
         virtio0: local-zfs:vm-100-disk-0,cache=writeback,size=32G\n\
         unused0: local-zfs:vm-100-disk-0\n\
         ide2: local-zfs:cloudinit\n",
        100,
    )
    .expect("config should parse");

    assert_eq!(parsed.name.as_deref(), Some("app01"));
    assert!(parsed
        .settings
        .iter()
        .any(|(key, value)| key == "memory" && value == "2048"));
    assert_eq!(
        parsed.disks,
        vec![ParsedQemuDisk {
            key: "virtio0".to_string(),
            source_basename: "vm-100-disk-0".to_string(),
            attach_options: Some("cache=writeback".to_string()),
        }]
    );
}

#[test]
fn test_recover_disk_basename_rewrites_vmid() {
    assert_eq!(
        recover_disk_basename("vm-100-disk-0", 100, 500).unwrap(),
        "vm-500-disk-0"
    );
}

#[test]
fn test_recovery_storage_id_is_sanitized_and_bounded() {
    assert_eq!(recovery_storage_id("job-100"), "offsite-job-100");
    assert_eq!(
        recovery_storage_id("job with very long id/that-needs-sanitizing"),
        "offsite-job_with_very_long_id_t"
    );
}

#[test]
fn test_source_snapshot_candidates_include_direct_target_snapshot() {
    let job = replica_job("job-100");
    let snapshot = "offsite/replica/tank__vmdata__vm-100-disk-0@rep_job-100_2026-04-16_12:00:00";
    let candidates = source_snapshot_to_target_snapshot_candidates(&job, snapshot)
        .expect("candidate derivation should succeed");
    assert_eq!(
        candidates.first().map(String::as_str),
        Some(snapshot),
        "exact target snapshot should be preferred first"
    );
}

#[test]
fn test_selected_lineage_prefix_for_encoded_target_snapshot() {
    let job = replica_job("job-100");
    let prefix = selected_lineage_prefix_from_target_snapshot(
        &job,
        "offsite/replica/tank__vmdata__vm-100-disk-0@rep_job-100_2026-04-16_12:00:00",
    );
    assert_eq!(prefix.as_deref(), Some("tank__vmdata"));
}

#[test]
fn test_build_qemu_failover_script_handles_duplicate_source_basenames() {
    let job = replica_job("job-dup");
    let request = OffsiteFailoverRequest {
        snapshot: "tank/vmdata/vm-100-disk-0@rep_job-dup_2026-04-17_00:33:06".to_string(),
        recovery_vmid: 500,
        recovered_name: Some("vm100-dr".to_string()),
        start_guest: false,
    };
    let parsed = parse_qemu_config(
        "name: vm100\n\
         scsi0: lab-zfs:vm-100-disk-0,size=4G\n\
         scsi1: encpool:vm-100-disk-0,size=1G\n",
        100,
    )
    .expect("config should parse");

    let script = build_qemu_failover_script(
        &job,
        &request,
        &parsed,
        "offsite-job-dup",
        &Some("tank__vmdata".to_string()),
    )
    .expect("script should build");

    assert!(
        script.contains("offsite/replica/vm-500-disk-0-scsi0"),
        "first duplicate disk should use deterministic key suffix"
    );
    assert!(
        script.contains("offsite/replica/vm-500-disk-0-scsi1"),
        "second duplicate disk should use deterministic key suffix"
    );
    assert!(
        script.contains("resolve_recovery_snapshot 'vm-100-disk-0' 1 ''"),
        "first duplicate disk should resolve first matching snapshot"
    );
    assert!(
        script.contains("resolve_recovery_snapshot 'vm-100-disk-0' 2 ''"),
        "second duplicate disk should resolve second matching snapshot"
    );
}
