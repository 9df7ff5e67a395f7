use offsite_replication::failover::{build_qemu_failover_script, extract_snapshot_suffix};
use offsite_replication::qemu::{
    is_qemu_disk_key, is_replayable_qemu_setting, normalize_attach_options, parse_qemu_config,
    recover_disk_basename,
};
use offsite_replication::recovery::{
    delete_recovery_point, deletion_candidates, list_recovery_points, recovery_point_places,
};
use offsite_replication::snapshots::{
    destroy_script, existing_snapshots_script, legacy_target_dataset_for_source_dataset,
    list_existing_target_snapshots, list_recorded_target_snapshots, purge_target_snapshots_for_job,
    resolve_selected_target_snapshot, selected_lineage_prefix_from_target_snapshot,
    source_snapshot_to_target_snapshot_candidates, target_dataset_for_source_dataset,
};
use offsite_replication::types::{
    GuestType, OffsiteFailoverRequest, OffsiteReplicationJob, OffsiteReplicationRun,
    OffsiteZfsStreamMode,
};

fn job() -> OffsiteReplicationJob {
    OffsiteReplicationJob {
        id: "job-1".to_string(),
        source_remote: "src".to_string(),
        source_node: "a".to_string(),
        guest_type: GuestType::Qemu,
        vmid: 100,
        target_remote: "dst".to_string(),
        target_node: "b".to_string(),
        target_dataset: "off/site".to_string(),
        schedule: "hourly".to_string(),
        max_snapshots: 8,
        history_limit: 200,
        rate_limit_mib: None,
        zfs_stream_mode: OffsiteZfsStreamMode::Auto,
        source_user: "root".to_string(),
        target_user: "root".to_string(),
        ssh_private_key: "/k".to_string(),
        qga_fsfreeze: false,
        comment: None,
        disable: false,
    }
}

fn run(end_time: i64, success: bool, snapshot: Option<&str>) -> OffsiteReplicationRun {
    OffsiteReplicationRun {
        start_time: end_time,
        end_time,
        duration: 0,
        success,
        transfer_mode: Some("full".to_string()),
        source_snapshot: None,
        snapshot: snapshot.map(str::to_string),
        estimated_bytes: Some(1),
        transferred_bytes: None,
        error: None,
        output: String::new(),
    }
}

fn strings(list: &[&str]) -> Vec<String> {
    list.iter().map(|s| s.to_string()).collect()
}

#[test]
fn datasets_are_mapped_to_the_target() {
    assert_eq!(
        target_dataset_for_source_dataset("off/site", "tank/vm data/disk"),
        "off/site/tank__vm_data__disk"
    );
    assert_eq!(target_dataset_for_source_dataset("off", "a//b/"), "off/a__b");
    assert_eq!(
        legacy_target_dataset_for_source_dataset("off/site", "tank/vmdata/disk"),
        "off/site/disk"
    );
    assert_eq!(legacy_target_dataset_for_source_dataset("off", "disk"), "off/disk");
}

#[test]
fn candidates_of_a_source_snapshot() {
    assert_eq!(
        source_snapshot_to_target_snapshot_candidates(&job(), "tank/d@s").unwrap(),
        vec!["off/site/tank__d@s", "off/site/d@s"]
    );
    assert_eq!(
        source_snapshot_to_target_snapshot_candidates(&job(), "d@s").unwrap(),
        vec!["off/site/d@s"]
    );
    assert_eq!(
        source_snapshot_to_target_snapshot_candidates(&job(), "off/site@s").unwrap(),
        vec!["off/site@s", "off/site/off__site@s", "off/site/site@s"]
    );
    assert_eq!(
        source_snapshot_to_target_snapshot_candidates(&job(), "tank").unwrap_err().message,
        "snapshot is missing '@' separator"
    );
}

#[test]
fn the_first_existing_candidate_is_taken() {
    let both = strings(&["off/site/d@s", "off/site/tank__d@s"]);
    assert_eq!(
        resolve_selected_target_snapshot(&job(), "tank/d@s", &both).unwrap(),
        "off/site/tank__d@s"
    );
    assert_eq!(
        resolve_selected_target_snapshot(&job(), "tank/d@s", &strings(&["off/site/d@s"])).unwrap(),
        "off/site/d@s"
    );
    assert_eq!(
        resolve_selected_target_snapshot(&job(), "tank/d@s", &Vec::new()).unwrap_err().message,
        "selected recovery snapshot could not be resolved on target"
    );
}

#[test]
fn lineage_stands_before_the_last_separator() {
    let prefix = |snapshot: &str| selected_lineage_prefix_from_target_snapshot(&job(), snapshot);
    assert_eq!(prefix("off/site/a__b__c@s").as_deref(), Some("a__b"));
    assert_eq!(prefix("off/site/c@s"), None);
    assert_eq!(prefix("off/site/__c@s"), None);
    assert_eq!(prefix("other/a__c@s"), None);
    assert_eq!(prefix("off/site/a__c"), None);
}

#[test]
fn existing_snapshots_are_asked_for_and_read() {
    assert_eq!(existing_snapshots_script(&Vec::new()), None);
    assert_eq!(
        existing_snapshots_script(&strings(&["a@b"])).unwrap(),
        "set -eu\nif zfs list -H -o name 'a@b' >/dev/null 2>&1; then\n  echo 'a@b'\nfi\n"
    );
    let read = list_existing_target_snapshots(" a@b \n\nc@d\na@b\n");
    assert!(read.contains(&"a@b".to_string()) && read.contains(&"c@d".to_string()));
    assert!(!read.contains(&String::new()));
}

#[test]
fn recorded_snapshots_are_purged_once() {
    let runs = vec![
        run(1, true, Some("tank/d@s2")),
        run(2, false, Some("d@s1")),
        run(3, true, None),
        run(4, true, Some("no separator")),
        run(5, true, Some("tank/d@s2")),
    ];
    assert_eq!(
        list_recorded_target_snapshots(&job(), &runs),
        vec!["off/site/d@s1", "off/site/d@s2", "off/site/tank__d@s2"]
    );
    let script = purge_target_snapshots_for_job(&job(), &vec![run(1, true, Some("d@s"))])
        .unwrap()
        .unwrap();
    assert_eq!(
        script,
        "set -eu\nif zfs list -H -o name 'off/site/d@s' >/dev/null 2>&1; then\n  zfs destroy -R 'off/site/d@s'\nfi\n"
    );
    assert_eq!(purge_target_snapshots_for_job(&job(), &Vec::new()).unwrap(), None);
    let mut bad = job();
    bad.id = "a b".to_string();
    assert_eq!(
        purge_target_snapshots_for_job(&bad, &runs).unwrap_err().message,
        "job 'a b' is invalid: invalid job id"
    );
    assert_eq!(
        destroy_script(&strings(&["a@b", "c@d"])),
        "set -eu\nzfs destroy -R 'a@b'\nzfs destroy -R 'c@d'\n"
    );
}

#[test]
fn recovery_points_are_complete_and_newest_first() {
    let runs = vec![
        run(1, true, Some("tank/d@s1")),
        run(2, false, Some("tank/d@s2")),
        run(3, true, Some("tank/d@s3")),
        run(4, true, Some("tank/d@s4")),
        run(5, true, Some("tank/d@s5")),
    ];
    let configs = vec![true, true, false, true, true];
    assert_eq!(
        recovery_point_places(&job(), &runs, &configs).unwrap(),
        vec![
            "off/site/tank__d@s5",
            "off/site/d@s5",
            "off/site/tank__d@s4",
            "off/site/d@s4",
            "off/site/tank__d@s1",
            "off/site/d@s1",
        ]
    );
    let existing = strings(&["off/site/tank__d@s1", "off/site/d@s5"]);
    let points = list_recovery_points(&job(), &runs, &configs, &existing).unwrap();
    assert_eq!(
        points
            .iter()
            .map(|point| (point.snapshot.as_str(), point.end_time))
            .collect::<Vec<_>>(),
        vec![("tank/d@s5", 5), ("tank/d@s1", 1)]
    );
    assert_eq!(points[0].transfer_mode.as_deref(), Some("full"));
    assert_eq!(points[0].estimated_bytes, Some(1));
}

#[test]
fn only_recoverable_points_are_deleted() {
    let runs = vec![run(1, true, Some("tank/d@s1"))];
    let existing = strings(&["off/site/d@s1"]);
    let points = list_recovery_points(&job(), &runs, &vec![true], &existing).unwrap();
    assert_eq!(
        deletion_candidates(&job(), "tank/d@s1", &points).unwrap(),
        vec!["off/site/tank__d@s1", "off/site/d@s1"]
    );
    assert_eq!(
        delete_recovery_point(&job(), "tank/d@s1", &points, &existing).unwrap(),
        "set -eu\nzfs destroy -R 'off/site/d@s1'\n"
    );
    assert_eq!(
        delete_recovery_point(&job(), "tank/d@s2", &points, &existing).unwrap_err().message,
        "snapshot 'tank/d@s2' is not currently recoverable on target 'off/site'"
    );
    assert_eq!(
        delete_recovery_point(&job(), "tank/d@s1", &points, &Vec::new()).unwrap_err().message,
        "snapshot 'tank/d@s1' is no longer present on target 'off/site'"
    );
    assert_eq!(
        delete_recovery_point(&job(), "nonsense", &points, &existing).unwrap_err().message,
        "invalid recovery snapshot 'nonsense'"
    );
}

#[test]
fn disks_are_told_by_their_keys() {
    for key in ["scsi0", "virtio12", "sata1", "ide2", "unused0", "efidisk0", "tpmstate0"] {
        assert!(is_qemu_disk_key(key), "{key}");
    }
    for key in ["scsi", "scsihw", "scsi0x", "efidisk1", "net0", ""] {
        assert!(!is_qemu_disk_key(key), "{key}");
    }
    assert!(is_replayable_qemu_setting("memory") && is_replayable_qemu_setting("net7"));
    assert!(!is_replayable_qemu_setting("net8") && !is_replayable_qemu_setting("hostpci0"));
}

#[test]
fn sizes_are_not_attach_options() {
    assert_eq!(
        normalize_attach_options(" cache=none , size=4G,,discard=on").as_deref(),
        Some("cache=none,discard=on")
    );
    assert_eq!(normalize_attach_options("size=4G"), None);
    assert_eq!(normalize_attach_options(""), None);
}

#[test]
fn configs_without_disks_are_refused() {
    assert_eq!(
        parse_qemu_config("# comment\nname: x\nide2: none,media=cdrom\nscsi0: local:vm-101-disk-0\n", 100)
            .unwrap_err()
            .message,
        "no recoverable disk configuration found in stored guest config"
    );
    assert_eq!(
        recover_disk_basename("vm-101-disk-0", 100, 500).unwrap_err().message,
        "disk basename 'vm-101-disk-0' does not match source vmid 100"
    );
    assert_eq!(extract_snapshot_suffix("a@b@c").unwrap(), "c");
    assert_eq!(
        extract_snapshot_suffix("a").unwrap_err().message,
        "snapshot is missing '@' separator"
    );
}

#[test]
fn recovered_guests_are_named() {
    let parsed = parse_qemu_config("scsi0: local:vm-100-disk-0,size=4G\n", 100).unwrap();
    let mut request = OffsiteFailoverRequest {
        snapshot: "tank/vm-100-disk-0@s1".to_string(),
        recovery_vmid: 500,
        recovered_name: None,
        start_guest: false,
    };
    let script = build_qemu_failover_script(&job(), &request, &parsed, "store", &None).unwrap();
    assert!(script.contains("qm create 500 --name 'recovery-500'\n"));
    assert!(script.contains("if zfs list -H -o name 'off/site/tank__vm-100-disk-0@s1' >/dev/null 2>&1; then\n"));
    assert!(script.contains("resolve_recovery_snapshot 'vm-100-disk-0' 1 ''"));
    assert!(!script.contains("qm start"));
    request.recovered_name = Some("mine".to_string());
    let script = build_qemu_failover_script(
        &job(),
        &request,
        &parsed,
        "store",
        &Some("tank".to_string()),
    )
    .unwrap();
    assert!(script.contains("qm create 500 --name 'mine'\n"));
    assert!(script.contains("resolve_recovery_snapshot 'vm-100-disk-0' 1 'tank'"));
    assert!(script.contains("qm set 500 --scsi0 'store:vm-500-disk-0'\n"));
}
