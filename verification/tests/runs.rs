use offsite_replication::history::{
    append_history, byte_size_text, list_history, load_history, normalize_history_limit,
    parse_transfer_table_line, transfer_facts, transfer_sizes, JobHistoryFile, TransferFact,
};
use offsite_replication::recovery::{list_recovery_points, recovery_point_places};
use offsite_replication::run::{
    availability_scripts, begin_failover, close_run, ensure_job_state,
    ensure_recovery_snapshot_available, execute_failover, failed_report, failed_run,
    failover_places,
    failover_worker_id, observe_run, recorded_text, remove_job_local_artifacts, remove_job_state,
    replication_script, run_over_ssh, task_result, validate_failover, TaskState,
};
use offsite_replication::status::{
    due_now, run_due_jobs, runtime_status, to_status, DueCheck, JobRunState, NextRun,
    ScheduleStatus,
};
use offsite_replication::sync::run_option_summary;
use offsite_replication::types::{
    GuestType, OffsiteFailoverRequest, OffsiteReplicationConfig, OffsiteReplicationJob,
    OffsiteReplicationRun, OffsiteReplicationRuntimeStatus, OffsiteZfsStreamMode,
};

fn job() -> OffsiteReplicationJob {
    OffsiteReplicationJob {
        id: "job-1".to_string(),
        source_remote: "src".to_string(),
        source_node: "a".to_string(),
        guest_type: GuestType::Qemu,
        vmid: 100,
        target_remote: "dst".to_string(),
        target_node: "b".to_string(),
        target_dataset: "off/site".to_string(),
        schedule: "hourly".to_string(),
        max_snapshots: 8,
        history_limit: 3,
        rate_limit_mib: None,
        zfs_stream_mode: OffsiteZfsStreamMode::Raw,
        source_user: "root".to_string(),
        target_user: "root".to_string(),
        ssh_private_key: "/k".to_string(),
        qga_fsfreeze: false,
        comment: None,
        disable: false,
    }
}

fn run(end_time: i64, success: bool) -> OffsiteReplicationRun {
    OffsiteReplicationRun {
        start_time: end_time - 2,
        end_time,
        duration: 2,
        success,
        transfer_mode: None,
        source_snapshot: None,
        snapshot: if success { Some(format!("tank/d@s{end_time}")) } else { None },
        estimated_bytes: None,
        transferred_bytes: if success { Some(10) } else { None },
        error: if success { None } else { Some(format!("e{end_time}")) },
        output: String::new(),
    }
}

#[test]
fn sizes_are_a_number_and_a_factor() {
    let size = byte_size_text(" 6.61K ").unwrap();
    assert_eq!((size.number.as_str(), size.factor), ("6.61", 1024));
    let size = byte_size_text("3 gB").unwrap();
    assert_eq!((size.number.as_str(), size.factor), ("3", 1073741824));
    let size = byte_size_text("2T").unwrap();
    assert_eq!((size.number.as_str(), size.factor), ("2", 1099511627776));
    let size = byte_size_text("1P").unwrap();
    assert_eq!((size.number.as_str(), size.factor), ("1", 1125899906842624));
    let size = byte_size_text("5M").unwrap();
    assert_eq!((size.number.as_str(), size.factor), ("5", 1048576));
    let size = byte_size_text("624B").unwrap();
    assert_eq!((size.number.as_str(), size.factor), ("624", 1));
    assert!(byte_size_text("").is_none());
    assert!(byte_size_text("  ").is_none());
    assert!(byte_size_text("7X").is_none());
}

#[test]
fn transfer_rows_have_a_time_and_a_snapshot() {
    match parse_transfer_table_line("00:00:02 624 tank/d@s extra").unwrap() {
        TransferFact::Row(size, snapshot) => {
            assert_eq!(size, "624");
            assert_eq!(snapshot, "tank/d@s extra");
        }
        _ => panic!("not a row"),
    }
    assert!(parse_transfer_table_line("00:00:02 624").is_none());
    assert!(parse_transfer_table_line("soon 624 tank/d@s").is_none());
    assert!(parse_transfer_table_line("00:00:02 624 tank/d").is_none());
}

#[test]
fn facts_stand_in_the_order_of_the_lines() {
    let output = "noise\nTIME SENT SNAPSHOT\nfull send of a@1 estimated size is 1K\nsend from a@1 to a@2 estimated size is 2K\ntotal estimated size is 3K\n00:00:01 4K a@2\nfull send of nothing\n";
    let facts = transfer_facts(output);
    assert_eq!(facts.len(), 4);
    assert!(matches!(&facts[0], TransferFact::Full(s, n) if s == "a@1" && n == "1K"));
    assert!(
        matches!(&facts[1], TransferFact::Incremental(f, t, n) if f == "a@1" && t == "a@2" && n == "2K")
    );
    assert!(matches!(&facts[2], TransferFact::Total(n) if n == "3K"));
    assert!(matches!(&facts[3], TransferFact::Row(n, s) if n == "4K" && s == "a@2"));
    let sizes = transfer_sizes(output);
    assert_eq!(
        sizes
            .iter()
            .map(|size| size.as_ref().unwrap().number.as_str())
            .collect::<Vec<_>>(),
        vec!["1", "2", "3", "4"]
    );
}

#[test]
fn history_keeps_the_newest_runs() {
    let mut history = JobHistoryFile { runs: Vec::new() };
    for end in 1..=5 {
        append_history(&mut history, 3, run(end, true), &Vec::new());
    }
    assert_eq!(
        history.runs.iter().map(|run| run.end_time).collect::<Vec<_>>(),
        vec![3, 4, 5]
    );
    let all = list_history(JobHistoryFile { runs: vec![run(1, true), run(2, false)] }, None);
    assert_eq!(all.len(), 2);
    let last = list_history(JobHistoryFile { runs: vec![run(1, true), run(2, false)] }, Some(1));
    assert_eq!(last.len(), 1);
    assert_eq!(last[0].end_time, 2);
    let none = list_history(JobHistoryFile { runs: vec![run(1, true)] }, Some(0));
    assert!(none.is_empty());
}

#[test]
fn history_limits_are_at_least_one() {
    assert_eq!(normalize_history_limit(0), 1);
    assert_eq!(normalize_history_limit(7), 7);
}

#[test]
fn options_are_summed_up() {
    let mut j = job();
    assert_eq!(
        run_option_summary(&j),
        "INFO: options rate-limit=unlimited, qga-fsfreeze=disabled, zfs-stream=raw, max-snapshots=8, history-limit=3"
    );
    j.rate_limit_mib = Some(5);
    j.qga_fsfreeze = true;
    assert!(run_option_summary(&j).contains("rate-limit=5 MiB/s, qga-fsfreeze=requested"));
    j.guest_type = GuestType::Lxc;
    assert!(run_option_summary(&j).contains("qga-fsfreeze=ignored (non-qemu guest)"));
    j.qga_fsfreeze = false;
    assert!(run_option_summary(&j).contains("qga-fsfreeze=not-applicable"));
}

#[test]
fn scripts_are_built_for_jobs_that_can_be_run() {
    let script = replication_script(&job(), "fe80::1").unwrap();
    assert!(script.contains("--dest '[fe80::1]:off/site'"));
    assert!(script.starts_with("set -euo pipefail\nFREEZE_DONE=0\n"));
    assert!(script.ends_with("exit \"$STATUS\"\n"));
    let mut bad = job();
    bad.max_snapshots = 0;
    assert_eq!(
        replication_script(&bad, "t").unwrap_err().message,
        "job 'job-1' is invalid: max snapshots must be greater than zero"
    );
}

const SENT: &str = "full send of tank/d@s1 estimated size is 5B\n00:00:01 5 tank/d@s1\n";

#[test]
fn a_good_run_is_recorded_with_its_snapshot() {
    let text = recorded_text(&job(), SENT.to_string());
    assert_eq!(text, format!("{SENT}\n{}\n", run_option_summary(&job())));
    let sizes = vec![Some(5), Some(5)];
    let report =
        run_over_ssh(&job(), true, Some(0), SENT.to_string(), 7, 1000, &sizes, &Ok(()));
    assert_eq!(report.state, TaskState::Done(1000));
    assert_eq!(report.run.start_time, 993);
    assert_eq!(report.run.duration, 7);
    assert_eq!(report.run.snapshot.as_deref(), Some("tank/d@s1"));
    assert_eq!(report.run.transfer_mode.as_deref(), Some("full"));
    assert_eq!(report.run.transferred_bytes, Some(5));
    assert!(report.run.error.is_none());
    assert_eq!(
        report.log,
        format!("{text}captured guest config for recovery point tank/d@s1\n")
    );
    assert!(task_result(&report.state).is_ok());
}

#[test]
fn a_run_without_a_stored_config_has_failed() {
    let sizes = vec![Some(5), Some(5)];
    let report = run_over_ssh(
        &job(),
        true,
        Some(0),
        SENT.to_string(),
        -3,
        1000,
        &sizes,
        &Err("disk full".to_string()),
    );
    let message = "replication completed, but persisting recovery config failed: disk full";
    assert_eq!(report.state, TaskState::Failed(1000, message.to_string()));
    assert!(!report.run.success);
    assert_eq!(report.run.start_time, 1000);
    assert_eq!(report.run.duration, 0);
    assert_eq!(report.run.error.as_deref(), Some(message));
    assert!(report.run.output.ends_with(&format!("\nWARNING: {message}\n")));
    assert!(!report.log.contains("captured guest config"));
    assert_eq!(task_result(&report.state).unwrap_err().message, message);
}

#[test]
fn a_run_without_a_snapshot_has_failed() {
    let report =
        run_over_ssh(&job(), true, Some(0), "done".to_string(), 1, 10, &Vec::new(), &Ok(()));
    assert_eq!(
        report.run.error.as_deref(),
        Some("replication completed, but persisting recovery config failed: replication succeeded but no recovery snapshot was recorded")
    );
}

#[test]
fn exit_codes_are_recorded() {
    let failed = observe_run(&job(), false, Some(255), String::new(), 1, 10, &Vec::new());
    assert_eq!(failed.error.as_deref(), Some("ssh/pve-zsync exited with status 255"));
    assert_eq!(failed.output, format!("{}\n", run_option_summary(&job())));
    let killed = observe_run(&job(), false, None, "x".to_string(), 1, 10, &Vec::new());
    assert_eq!(killed.error.as_deref(), Some("ssh/pve-zsync exited with status signal"));
    let closed = close_run(killed, &Ok(()));
    assert_eq!(closed.error.as_deref(), Some("ssh/pve-zsync exited with status signal"));
}

#[test]
fn a_run_that_never_started_is_recorded() {
    let failed = failed_run(&job(), 50, "remote 'dst' not found");
    assert_eq!((failed.start_time, failed.end_time, failed.duration), (50, 50, 0));
    assert!(!failed.success);
    assert_eq!(failed.error.as_deref(), Some("remote 'dst' not found"));
    assert_eq!(failed.output, run_option_summary(&job()));
    let (recorded, state) = failed_report(&job(), 50, "remote 'dst' not found");
    assert_eq!(recorded, failed);
    assert!(matches!(&state, TaskState::Failed(50, message) if message == "remote 'dst' not found"));
    assert_eq!(task_result(&state).unwrap_err().message, "remote 'dst' not found");
}

fn failover() -> OffsiteFailoverRequest {
    OffsiteFailoverRequest {
        snapshot: "tank/vm-100-disk-0@s1".to_string(),
        recovery_vmid: 500,
        recovered_name: None,
        start_guest: true,
    }
}

#[test]
fn failovers_are_checked_before_they_start() {
    assert!(validate_failover(&job(), &failover()).is_ok());
    let mut bad = failover();
    bad.snapshot = "tank".to_string();
    assert_eq!(
        validate_failover(&job(), &bad).unwrap_err().message,
        "invalid recovery snapshot 'tank'"
    );
    let mut bad = failover();
    bad.recovered_name = Some("a b".to_string());
    assert_eq!(
        validate_failover(&job(), &bad).unwrap_err().message,
        "invalid recovered guest name 'a b'"
    );
    let mut container = job();
    container.guest_type = GuestType::Lxc;
    assert!(validate_failover(&container, &failover()).is_ok());
    assert_eq!(
        begin_failover(&container, &failover()).unwrap_err().message,
        "failover is currently implemented only for QEMU guests"
    );
    assert_eq!(failover_worker_id(&job(), &failover()), "job-1-500");
}

#[test]
fn availability_is_asked_for_each_candidate() {
    assert_eq!(
        availability_scripts(&job(), "tank/vm-100-disk-0@s1").unwrap(),
        vec![
            "zfs list -H -o name 'off/site/tank__vm-100-disk-0@s1'",
            "zfs list -H -o name 'off/site/vm-100-disk-0@s1'",
        ]
    );
    assert_eq!(
        availability_scripts(&job(), "tank").unwrap_err().message,
        "snapshot is missing '@' separator"
    );
    assert!(ensure_recovery_snapshot_available(&job(), "a@b", true).is_ok());
    assert_eq!(
        ensure_recovery_snapshot_available(&job(), "a@b", false).unwrap_err().message,
        "selected recovery snapshot 'a@b' is no longer available on target dataset 'off/site'"
    );
}

const CONFIG: &str = "name: app\nscsi0: local:vm-100-disk-0,size=4G\nmemory: 512\nboot: order=scsi0\nnet0: virtio,bridge=vmbr0\n";

#[test]
fn a_failover_is_one_script() {
    let places = failover_places(&job(), &failover(), CONFIG).unwrap();
    assert_eq!(
        places,
        vec!["off/site/tank__vm-100-disk-0@s1", "off/site/vm-100-disk-0@s1"]
    );
    let script =
        execute_failover(&job(), &failover(), CONFIG, &vec![places[0].clone()]).unwrap();
    assert!(script.contains("qm create 500 --name 'app-dr'\nCREATED_VM=1\n"));
    assert!(script.contains("qm set 500 --memory '512'\n"));
    assert!(script.contains("qm set 500 --scsi0 'offsite-job-1:vm-500-disk-0'\n"));
    assert!(script.contains("WARN: skipped recovered network setting"));
    assert!(!script.contains("--net0"));
    assert!(script.contains("qm set 500 --boot 'order=scsi0' >/dev/null 2>&1 || echo"));
    assert!(script.contains("qm start 500\n"));
    assert!(script.ends_with("echo 'prepared recovery VM 500 on target node b'\n"));
    assert_eq!(
        execute_failover(&job(), &failover(), CONFIG, &Vec::new()).unwrap_err().message,
        "selected recovery snapshot could not be resolved on target"
    );
    assert_eq!(
        execute_failover(&job(), &failover(), "name: x\n", &Vec::new()).unwrap_err().message,
        "no recoverable disk configuration found in stored guest config"
    );
}

#[test]
fn state_files_belong_to_a_job() {
    let state = ensure_job_state("job-1");
    assert_eq!((state.worker_type.as_str(), state.job_id.as_str()), ("offsite-replication", "job-1"));
    assert_eq!(remove_job_state("job-1"), ensure_job_state("job-1"));
    let all = remove_job_local_artifacts("/var/lib/pdm", "job-1");
    assert_eq!(all.history_file, "/var/lib/pdm/offsite-replication-history/job-1.json");
    assert_eq!(all.config_dir, "/var/lib/pdm/offsite-replication-configs/job-1");
}

#[test]
fn status_starts_blank() {
    assert_eq!(
        runtime_status(&None, &None, &None),
        OffsiteReplicationRuntimeStatus::default()
    );
    let schedule = ScheduleStatus {
        next_run: Some(9),
        last_run_endtime: None,
        last_run_started: None,
        last_run_state: None,
    };
    assert_eq!(
        runtime_status(&None, &Some(schedule), &None),
        OffsiteReplicationRuntimeStatus::default()
    );
}

#[test]
fn status_tells_of_state_schedule_and_runs() {
    let schedule = ScheduleStatus {
        next_run: Some(90),
        last_run_endtime: None,
        last_run_started: Some(40),
        last_run_state: Some("OK".to_string()),
    };
    let status = runtime_status(&Some(JobRunState::Started), &Some(schedule), &None);
    assert!(status.running);
    assert_eq!(status.next_run, Some(90));
    assert_eq!(status.last_run, Some(40));
    assert!(status.last_error.is_none());

    let runs = vec![run(10, true), run(20, false)];
    let status = runtime_status(&Some(JobRunState::Created), &None, &Some(runs));
    assert_eq!(status.run_count, Some(2));
    assert_eq!(status.failure_count, Some(1));
    assert_eq!(status.last_run, Some(18));
    assert_eq!(status.last_success, Some(10));
    assert_eq!(status.last_error.as_deref(), Some("e20"));
    assert_eq!(status.last_duration, Some(2));
    assert!(status.last_snapshot.is_none());

    let finished = JobRunState::Finished(Some("worker died".to_string()));
    let runs = vec![run(10, false), run(20, true)];
    let with = to_status(job(), &Some(finished), &None, &Some(runs));
    assert_eq!(with.job, job());
    assert_eq!(with.status.last_error.as_deref(), Some("worker died"));
    assert_eq!(with.status.last_success, Some(20));
    assert_eq!(with.status.last_transfer_bytes, Some(10));
    assert_eq!(with.status.last_snapshot.as_deref(), Some("tank/d@s20"));
}

#[test]
fn a_bad_schedule_state_replaces_the_error() {
    let schedule = ScheduleStatus {
        next_run: None,
        last_run_endtime: Some(5),
        last_run_started: Some(4),
        last_run_state: Some("WARNINGS: 1".to_string()),
    };
    let state = JobRunState::Finished(Some("first".to_string()));
    let status = runtime_status(&Some(state), &Some(schedule), &None);
    assert_eq!(status.last_error.as_deref(), Some("WARNINGS: 1"));
    assert_eq!(status.last_run, Some(4));
}

#[test]
fn jobs_are_due_by_their_schedule() {
    let at = |time: i64| DueCheck { next: NextRun::At(time), now: 100 };
    assert!(due_now(&job(), at(100)));
    assert!(due_now(&job(), at(-5)));
    assert!(!due_now(&job(), at(101)));
    assert!(!due_now(&job(), DueCheck { next: NextRun::Never, now: 100 }));
    assert!(!due_now(&job(), DueCheck { next: NextRun::Unknown, now: 100 }));
    let mut off = job();
    off.disable = true;
    assert!(!due_now(&off, at(1)));
    let mut second = job();
    second.id = "job-2".to_string();
    let config = OffsiteReplicationConfig { jobs: vec![job(), off, second] };
    let due = run_due_jobs(&config, &vec![at(1), at(1), at(1)]);
    assert_eq!(
        due.iter().map(|job| job.id.as_str()).collect::<Vec<_>>(),
        vec!["job-1", "job-2"]
    );
}

#[test]
fn blank_history_files_hold_no_runs() {
    assert_eq!(load_history(None), None);
    assert_eq!(load_history(Some(" \n".to_string())), None);
    assert_eq!(load_history(Some("{}".to_string())), Some("{}".to_string()));
}

#[test]
fn listed_points_can_be_promoted() {
    let mut done = run(7, true);
    done.snapshot = Some(failover().snapshot);
    let runs = vec![done];
    let places = recovery_point_places(&job(), &runs, &vec![true]).unwrap();
    assert_eq!(places, failover_places(&job(), &failover(), CONFIG).unwrap());
    for place in places {
        let existing = vec![place];
        let points = list_recovery_points(&job(), &runs, &vec![true], &existing).unwrap();
        assert_eq!(points.len(), 1);
        assert_eq!(points[0].snapshot, failover().snapshot);
        assert!(execute_failover(&job(), &failover(), CONFIG, &existing).is_ok());
    }
}
