use offsite_replication::display::{
    filter_jobs, filter_points, filter_runs, guest_label, guest_type_text,
    history_filters_active_count, history_rows_items_for_limit, history_run_key,
    job_matches_filter, normalized_history_rows_choice_for_limit, path_label, recoverable_mark,
    recovery_filters_active_count, requested_history_limit, run_detail, sent_bytes,
    snapshot_recoverable, snapshot_tail, source_label, status_text, target_label, HistoryFilters,
    RecoveryFilters, StatusLabel,
};
use offsite_replication::summary::{
    history_graph_series, job_reliability, jobs_by_id, jobs_by_reliability, jobs_overview,
    latest_runs_for_graph, recovery_counts, run_mode_summary, runs_summary, GraphPoint,
    Reliability,
};
use offsite_replication::types::{
    GuestType, OffsiteRecoveryPoint, OffsiteReplicationJob, OffsiteReplicationJobStatus,
    OffsiteReplicationRun, OffsiteReplicationRuntimeStatus, OffsiteZfsStreamMode,
};

fn job(id: &str) -> OffsiteReplicationJobStatus {
    OffsiteReplicationJobStatus {
        job: OffsiteReplicationJob {
            id: id.to_string(),
            source_remote: "src".to_string(),
            source_node: "NodeA".to_string(),
            guest_type: GuestType::Lxc,
            vmid: 101,
            target_remote: "dst".to_string(),
            target_node: "b".to_string(),
            target_dataset: "tank/x".to_string(),
            schedule: "hourly".to_string(),
            max_snapshots: 8,
            history_limit: 150,
            rate_limit_mib: None,
            zfs_stream_mode: OffsiteZfsStreamMode::Auto,
            source_user: "root".to_string(),
            target_user: "root".to_string(),
            ssh_private_key: "/k".to_string(),
            qga_fsfreeze: false,
            comment: None,
            disable: false,
        },
        status: OffsiteReplicationRuntimeStatus::default(),
    }
}

fn counted(id: &str, runs: u64, failures: u64) -> OffsiteReplicationJobStatus {
    let mut item = job(id);
    item.status.run_count = Some(runs);
    item.status.failure_count = Some(failures);
    item
}

fn run(start: i64, success: bool, mode: Option<&str>) -> OffsiteReplicationRun {
    OffsiteReplicationRun {
        start_time: start,
        end_time: start + 5,
        duration: 5,
        success,
        transfer_mode: mode.map(str::to_string),
        source_snapshot: None,
        snapshot: if success { Some(format!("tank/d@s{start}")) } else { None },
        estimated_bytes: Some(7),
        transferred_bytes: if success { Some(10) } else { None },
        error: if success { None } else { Some(format!("Error {start}")) },
        output: "\n  \nfirst\nsecond".to_string(),
    }
}

fn point(end: i64, mode: Option<&str>) -> OffsiteRecoveryPoint {
    OffsiteRecoveryPoint {
        snapshot: format!("tank/d@s{end}"),
        end_time: end,
        transfer_mode: mode.map(str::to_string),
        estimated_bytes: None,
        transferred_bytes: None,
    }
}

#[test]
fn labels_of_jobs() {
    let item = job("j");
    assert_eq!(guest_type_text(GuestType::Qemu), "qemu");
    assert_eq!(guest_label(&item.job), "lxc:101");
    assert_eq!(source_label(&item.job), "src / NodeA");
    assert_eq!(target_label(&item.job), "dst / b (tank/x)");
    assert_eq!(path_label(&item.job), "src -> dst");
}

#[test]
fn status_prefers_running_then_disabled_then_errors() {
    let mut item = job("j");
    assert_eq!(status_text(&item), StatusLabel::Good);
    item.status.last_error = Some("e".to_string());
    assert_eq!(status_text(&item), StatusLabel::Failed("e".to_string()));
    item.job.disable = true;
    assert_eq!(status_text(&item), StatusLabel::Disabled);
    item.status.running = true;
    assert_eq!(status_text(&item), StatusLabel::Running);
}

#[test]
fn details_of_runs() {
    assert_eq!(history_run_key(&run(-3, true, None)), "-3-2-tank/d@s-3");
    assert_eq!(history_run_key(&run(1, false, None)), "1-6-");
    assert_eq!(run_detail(&run(1, true, None)), "first");
    assert_eq!(run_detail(&run(1, false, None)), "Error 1");
    let mut silent = run(1, true, None);
    silent.output = " \n".to_string();
    assert_eq!(run_detail(&silent), "-");
    assert_eq!(sent_bytes(Some(1), Some(2)), Some(1));
    assert_eq!(sent_bytes(None, Some(2)), Some(2));
    assert_eq!(snapshot_tail("tank/d@s1"), "s1");
    assert_eq!(snapshot_tail("-"), "-");
    let points = vec![point(1, None)];
    assert!(snapshot_recoverable(&points, "tank/d@s1"));
    assert_eq!(recoverable_mark(&points, &run(1, true, None)), Some(true));
    assert_eq!(recoverable_mark(&points, &run(2, true, None)), Some(false));
    assert_eq!(recoverable_mark(&points, &run(1, false, None)), None);
}

#[test]
fn filters_ignore_letter_case() {
    assert!(job_matches_filter(&job("Job"), "nodea"));
    assert!(job_matches_filter(&job("Job"), "job lxc 101 src"));
    assert!(!job_matches_filter(&job("Job"), "NodeA"));
    let jobs = vec![job("one"), job("two")];
    assert_eq!(filter_jobs(&jobs, " ONE "), vec![job("one")]);
    assert_eq!(filter_jobs(&jobs, ""), jobs);
}

#[test]
fn filters_of_the_history() {
    let runs = vec![
        run(1, true, Some("Full")),
        run(2, false, None),
        run(3, true, Some("incremental")),
    ];
    let points = vec![point(1, None)];
    let starts = |filters: &HistoryFilters| {
        filter_runs(filters, &points, &runs)
            .iter()
            .map(|run| run.start_time)
            .collect::<Vec<_>>()
    };
    let mut filters = HistoryFilters::new();
    assert_eq!(starts(&filters), vec![1, 2, 3]);
    assert_eq!(history_filters_active_count(&filters), 0);
    filters.result = "error".to_string();
    assert_eq!(starts(&filters), vec![2]);
    filters.result = "ok".to_string();
    filters.mode = "full".to_string();
    assert_eq!(starts(&filters), vec![1]);
    filters.mode = "unknown".to_string();
    filters.result = "all".to_string();
    assert_eq!(starts(&filters), vec![2]);
    filters.mode = "all".to_string();
    filters.recoverable = "yes".to_string();
    assert_eq!(starts(&filters), vec![1]);
    filters.recoverable = "no".to_string();
    assert_eq!(starts(&filters), vec![2, 3]);
    filters.text = "S3".to_string();
    assert_eq!(starts(&filters), vec![3]);
    filters.text = " ".to_string();
    filters.details = "ERROR".to_string();
    assert_eq!(starts(&filters), vec![2]);
    assert_eq!(history_filters_active_count(&filters), 2);
}

#[test]
fn filters_of_the_recovery_points() {
    let points = vec![point(1, Some("full")), point(2, None)];
    let mut filters = RecoveryFilters::new();
    assert_eq!(filter_points(&filters, &points), points);
    assert_eq!(recovery_filters_active_count(&filters), 0);
    filters.mode = "unknown".to_string();
    assert_eq!(filter_points(&filters, &points), vec![point(2, None)]);
    filters.recoverable = "no".to_string();
    assert!(filter_points(&filters, &points).is_empty());
    filters.text = "x".to_string();
    assert_eq!(recovery_filters_active_count(&filters), 3);
}

#[test]
fn choices_of_rows() {
    let choice = |limit: u64, value: &str| normalized_history_rows_choice_for_limit(limit, value);
    assert_eq!(choice(500, " All "), "all");
    assert_eq!(choice(500, "250"), "250");
    assert_eq!(choice(500, "0"), "1");
    assert_eq!(choice(500, "9999"), "500");
    assert_eq!(choice(500, "many"), "200");
    assert_eq!(choice(50, "many"), "50");
    assert_eq!(choice(0, "7"), "1");
    for value in ["all", "250", "0", "many", "-1", ""] {
        let once = choice(300, value);
        assert_eq!(choice(300, &once), once);
        let rows = requested_history_limit(300, value);
        assert!((1..=300).contains(&rows));
    }
    assert_eq!(requested_history_limit(300, "all"), 300);
    assert_eq!(requested_history_limit(300, "25"), 25);
    assert_eq!(history_rows_items_for_limit(50), vec!["50", "all"]);
    assert_eq!(history_rows_items_for_limit(200), vec!["100", "200", "all"]);
    assert_eq!(
        history_rows_items_for_limit(5000),
        vec!["100", "200", "500", "1000", "5000", "all"]
    );
}

#[test]
fn jobs_are_summed_up() {
    let mut running = counted("a", 10, 3);
    running.status.running = true;
    running.status.next_run = Some(50);
    running.status.last_transfer_bytes = Some(5);
    let mut broken = counted("b", 2, 4);
    broken.status.last_error = Some("e".to_string());
    broken.status.next_run = Some(40);
    let mut off = job("c");
    off.job.disable = true;
    let overview = jobs_overview(&vec![running, broken, off]).unwrap();
    assert_eq!((overview.total, overview.enabled, overview.running), (3, 2, 1));
    assert_eq!((overview.healthy, overview.failing), (2, 2));
    assert_eq!((overview.failures, overview.transferred), (7, 5));
    assert_eq!((overview.runs, overview.successes), (12, 7));
    assert_eq!(overview.next_run, Some(40));
    assert!(jobs_overview(&vec![counted("a", u64::MAX, 0), counted("b", 1, 0)]).is_none());
}

#[test]
fn jobs_are_listed_by_how_much_they_fail() {
    let list = jobs_by_reliability(vec![
        counted("d", 5, 0),
        counted("b", 5, 2),
        counted("a", 5, 2),
        counted("c", 9, 2),
    ]);
    assert_eq!(
        list.iter().map(|item| item.job.id.as_str()).collect::<Vec<_>>(),
        vec!["c", "a", "b", "d"]
    );
    assert_eq!(job_reliability(&counted("a", 5, 2)), Reliability::Rated(3, 2, false));
    assert_eq!(job_reliability(&counted("a", 5, 9)), Reliability::Rated(0, 5, false));
    assert_eq!(job_reliability(&job("a")), Reliability::Idle);
    let mut running = job("a");
    running.status.running = true;
    assert_eq!(job_reliability(&running), Reliability::Starting);
}

#[test]
fn runs_are_summed_up() {
    let summary =
        runs_summary(&vec![run(3, false, None), run(2, true, None), run(1, true, None)]).unwrap();
    assert_eq!((summary.total, summary.successes), (3, 2));
    assert_eq!((summary.duration, summary.transferred), (15, 20));
    assert_eq!(summary.latest_snapshot.as_deref(), Some("tank/d@s2"));
    assert_eq!(summary.latest_error.as_deref(), Some("Error 3"));
    let mut long = run(1, true, None);
    long.duration = i64::MAX;
    assert!(runs_summary(&vec![long, run(2, true, None)]).is_none());
}

#[test]
fn graphs_show_the_newest_runs() {
    let mut odd = run(3, false, None);
    odd.duration = -4;
    let runs = vec![odd, run(2, true, None), run(1, true, None)];
    let latest = latest_runs_for_graph(&runs, 2);
    assert_eq!(latest.iter().map(|run| run.start_time).collect::<Vec<_>>(), vec![2, 3]);
    assert_eq!(
        history_graph_series(&runs, 2),
        vec![
            GraphPoint { time: 7, duration: 5, bytes: Some(10), success: true },
            GraphPoint { time: 8, duration: 0, bytes: Some(7), success: false },
        ]
    );
    assert_eq!(latest_runs_for_graph(&runs, 9).len(), 3);
}

#[test]
fn runs_are_counted_by_mode() {
    let rows = run_mode_summary(
        &vec![
            run(1, true, Some("full")),
            run(2, false, None),
            run(3, true, Some("incremental")),
            run(4, true, Some("incremental")),
            run(5, false, Some("unknown")),
        ],
        "unknown",
    );
    assert_eq!(
        rows.iter()
            .map(|row| (row.mode.as_str(), row.ok_count, row.error_count))
            .collect::<Vec<_>>(),
        vec![("unknown", 0, 2), ("incremental", 2, 0), ("full", 1, 0)]
    );
}

#[test]
fn recovery_points_are_counted_by_mode() {
    let counts = recovery_counts(&vec![
        point(1, Some("full")),
        point(2, Some("incremental")),
        point(3, Some("Full")),
        point(4, None),
    ]);
    assert_eq!((counts.full, counts.incremental), (1, 1));
    assert_eq!((counts.unknown, counts.all), (2, 4));
}

#[test]
fn tables_list_jobs_by_id() {
    let rows = jobs_by_id(&vec![job("b"), job("c"), job("a")]);
    assert_eq!(
        rows.iter().map(|row| row.item.job.id.as_str()).collect::<Vec<_>>(),
        vec!["a", "b", "c"]
    );
}
