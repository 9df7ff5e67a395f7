use offsite_replication::panel::{
    Effect, Msg, Notice, OffsiteReplicationPanelComp, ViewState, TAB_FAILOVER, TAB_JOBS,
    TAB_METRICS,
};
use offsite_replication::screen::{DialogContent, FailoverHint};
use offsite_replication::types::{
    Error, GuestType, OffsiteFailoverRequest, OffsiteRecoveryPoint, OffsiteReplicationJob,
    OffsiteReplicationJobStatus, OffsiteReplicationRun, OffsiteReplicationRuntimeStatus,
    OffsiteZfsStreamMode,
};

fn job(id: &str) -> OffsiteReplicationJobStatus {
    OffsiteReplicationJobStatus {
        job: OffsiteReplicationJob {
            id: id.to_string(),
            source_remote: "src".to_string(),
            source_node: "a".to_string(),
            guest_type: GuestType::Qemu,
            vmid: 100,
            target_remote: "dst".to_string(),
            target_node: "b".to_string(),
            target_dataset: "tank".to_string(),
            schedule: "hourly".to_string(),
            max_snapshots: 8,
            history_limit: 150,
            rate_limit_mib: None,
            zfs_stream_mode: OffsiteZfsStreamMode::Auto,
            source_user: "root".to_string(),
            target_user: "root".to_string(),
            ssh_private_key: "/k".to_string(),
            qga_fsfreeze: false,
            comment: None,
            disable: false,
        },
        status: OffsiteReplicationRuntimeStatus::default(),
    }
}

fn run(start: i64, success: bool) -> OffsiteReplicationRun {
    OffsiteReplicationRun {
        start_time: start,
        end_time: start + 1,
        duration: 1,
        success,
        transfer_mode: None,
        source_snapshot: None,
        snapshot: Some(format!("tank/d@s{start}")),
        estimated_bytes: None,
        transferred_bytes: None,
        error: None,
        output: String::new(),
    }
}

fn point(end: i64) -> OffsiteRecoveryPoint {
    OffsiteRecoveryPoint {
        snapshot: format!("tank/d@s{end}"),
        end_time: end,
        transfer_mode: Some("Full".to_string()),
        estimated_bytes: None,
        transferred_bytes: None,
    }
}

fn send(panel: &mut OffsiteReplicationPanelComp, msg: Msg) -> Vec<String> {
    let (effects, redraw) = panel.update(msg, false);
    assert!(redraw);
    effects.iter().map(|effect| format!("{effect:?}")).collect()
}

fn loaded(ids: &[&str]) -> OffsiteReplicationPanelComp {
    let mut panel = OffsiteReplicationPanelComp::create();
    send(&mut panel, Msg::LoadFinished(ids.iter().map(|id| job(id)).collect()));
    panel
}

fn on_tab(ids: &[&str], tab: &str) -> OffsiteReplicationPanelComp {
    let mut panel = loaded(ids);
    panel.main_tab_selection = Some(tab.to_string());
    panel
}

#[test]
fn a_fresh_panel_is_empty() {
    let panel = OffsiteReplicationPanelComp::create();
    assert_eq!(panel.current_tab(), TAB_JOBS);
    assert_eq!(panel.history_requested_limit, 200);
    assert_eq!(panel.history_rows_choice, "200");
    assert_eq!(panel.history_filters.result, "all");
    assert_eq!(panel.default_job_id(), None);
    assert_eq!(panel.active_run_job_id(), None);
}

#[test]
fn loading_selects_the_first_job() {
    let mut panel = OffsiteReplicationPanelComp::create();
    let effects = send(&mut panel, Msg::LoadFinished(vec![job("b"), job("a")]));
    assert_eq!(effects, vec!["SelectJob(\"b\")"]);
    assert_eq!(panel.selection.as_deref(), Some("b"));
    assert_eq!(panel.history_job_id.as_deref(), Some("b"));
    assert_eq!(panel.failover_job_id.as_deref(), Some("b"));
    assert_eq!(panel.jobs_view.len(), 2);
    assert_eq!(panel.job_picker_view.len(), 2);
    assert_eq!(panel.job_items(), vec!["a", "b"]);
}

#[test]
fn loading_lets_go_of_jobs_that_are_gone() {
    let mut panel = loaded(&["a", "b"]);
    panel.selection = Some("a".to_string());
    panel.history_job_id = Some("a".to_string());
    panel.failover_job_id = Some("b".to_string());
    panel.history_runs = vec![run(1, true)];
    let effects = send(&mut panel, Msg::LoadFinished(vec![job("b")]));
    assert_eq!(effects, vec!["SelectJob(\"b\")"]);
    assert_eq!(panel.selection.as_deref(), Some("b"));
    assert_eq!(panel.history_job_id.as_deref(), Some("b"));
    assert_eq!(panel.failover_job_id.as_deref(), Some("b"));
    assert!(panel.history_runs.is_empty());
}

#[test]
fn loading_reads_what_the_open_tab_shows() {
    let mut panel = OffsiteReplicationPanelComp::create();
    panel.main_tab_selection = Some(TAB_METRICS.to_string());
    let effects = send(&mut panel, Msg::LoadFinished(vec![job("a")]));
    assert_eq!(
        effects,
        vec![
            "SelectJob(\"a\")",
            "FetchHistory(\"a\", 150)",
            "FetchRecoveryPoints(\"a\")",
        ]
    );
    assert!(panel.history_loading && panel.recovery_points_loading);
    assert_eq!(panel.history_requested_limit, 150);

    let mut panel = OffsiteReplicationPanelComp::create();
    panel.main_tab_selection = Some(TAB_FAILOVER.to_string());
    let effects = send(&mut panel, Msg::LoadFinished(vec![job("a")]));
    assert_eq!(effects, vec!["SelectJob(\"a\")", "FetchRecoveryPoints(\"a\")"]);
    assert_eq!(panel.failover_vmid_input, "500");
    assert_eq!(panel.failover_name_input, "vm100-dr");
}

#[test]
fn refresh_waits_for_what_is_going_on() {
    let mut panel = loaded(&["a"]);
    assert_eq!(send(&mut panel, Msg::AutoRefreshTick), vec!["Reload", "ScheduleRefresh"]);
    assert_eq!(send(&mut panel, Msg::ScheduleAutoRefresh), vec!["ScheduleRefresh"]);
    let (effects, redraw) = panel.update(Msg::AutoRefreshTick, true);
    assert!(redraw && matches!(effects.as_slice(), [Effect::ScheduleRefresh]));
    panel.failover_running = true;
    assert_eq!(send(&mut panel, Msg::AutoRefreshTick), vec!["ScheduleRefresh"]);
}

#[test]
fn tabs_read_what_they_show() {
    let mut panel = on_tab(&["a"], TAB_METRICS);
    assert_eq!(
        send(&mut panel, Msg::MainTabChanged),
        vec!["FetchHistory(\"a\", 150)", "FetchRecoveryPoints(\"a\")"]
    );
    let mut panel = on_tab(&["a"], TAB_FAILOVER);
    assert_eq!(send(&mut panel, Msg::MainTabChanged), vec!["FetchRecoveryPoints(\"a\")"]);
    let mut panel = on_tab(&["a"], TAB_JOBS);
    panel.selection = None;
    assert_eq!(send(&mut panel, Msg::MainTabChanged), vec!["SelectJob(\"a\")"]);
    let mut panel = on_tab(&["a"], "elsewhere");
    assert!(send(&mut panel, Msg::MainTabChanged).is_empty());
}

#[test]
fn runs_are_started_and_reported() {
    let mut panel = loaded(&["a"]);
    assert_eq!(send(&mut panel, Msg::RunNowActive), vec!["SendRunNowById(\"a\")"]);
    assert_eq!(
        send(&mut panel, Msg::RunNowById("a".to_string())),
        vec!["PostRunNow(\"a\")"]
    );
    assert!(panel.run_now_submitting);
    assert!(!panel.controls().run_now);
    let done = Msg::RunNowFinished("a".to_string(), Ok("UPID".to_string()));
    assert_eq!(send(&mut panel, done), vec!["SendReload"]);
    assert!(!panel.run_now_submitting);
    assert_eq!(panel.run_now_last_task.as_deref(), Some("UPID"));
    assert_eq!(send(&mut panel, Msg::OpenRunNowTaskLog), vec!["ShowTaskLog(\"UPID\")"]);
    send(&mut panel, Msg::DismissRunNowFeedback);
    assert_eq!(send(&mut panel, Msg::OpenRunNowTaskLog), vec!["ShowError(NoRunTask)"]);
    assert_eq!(panel.run_now_last_task.as_deref(), Some("UPID"));
}

#[test]
fn runs_that_cannot_be_started_are_told() {
    let mut panel = loaded(&["a"]);
    assert_eq!(
        send(&mut panel, Msg::RunNowById("x".to_string())),
        vec!["ShowError(JobGone)"]
    );
    let failed = Msg::RunNowFinished(
        "a".to_string(),
        Err(Error { message: "busy".to_string() }),
    );
    assert_eq!(
        send(&mut panel, failed),
        vec!["ShowError(RunFailed(\"a: busy\"))", "SendReload"]
    );
    let mut empty = OffsiteReplicationPanelComp::create();
    assert_eq!(send(&mut empty, Msg::RunNowActive), vec!["ShowError(NoJobToRun)"]);
}

#[test]
fn jobs_are_removed_and_reloaded() {
    let mut panel = loaded(&["a"]);
    assert_eq!(send(&mut panel, Msg::Remove("a".to_string())), vec!["DeleteJob(\"a\")"]);
    assert!(send(&mut panel, Msg::Remove("x".to_string())).is_empty());
    assert_eq!(send(&mut panel, Msg::Reload), vec!["ChangeView(None)", "Reload"]);
}

#[test]
fn history_is_opened_on_its_tab() {
    let mut panel = loaded(&["a", "b"]);
    assert_eq!(
        send(&mut panel, Msg::OpenHistory("b".to_string())),
        vec!["SelectTab(\"metrics\")"]
    );
    assert_eq!(panel.history_job_id.as_deref(), Some("b"));
    assert_eq!(
        send(&mut panel, Msg::OpenHistory("a".to_string())),
        vec!["FetchHistory(\"a\", 150)", "FetchRecoveryPoints(\"a\")"]
    );
    assert!(send(&mut panel, Msg::OpenHistory("x".to_string())).is_empty());
    assert_eq!(
        send(&mut panel, Msg::OpenFailover("b".to_string())),
        vec!["SelectTab(\"failover\")"]
    );
    assert_eq!(
        send(&mut panel, Msg::OpenFailover("b".to_string())),
        vec!["FetchRecoveryPoints(\"b\")"]
    );
    assert!(send(&mut panel, Msg::OpenFailover("x".to_string())).is_empty());
}

#[test]
fn history_is_listed_newest_first() {
    let mut panel = on_tab(&["a"], TAB_METRICS);
    send(&mut panel, Msg::MainTabChanged);
    let runs = vec![run(1, true), run(3, false), run(2, true)];
    let effects = send(&mut panel, Msg::HistoryLoaded("a".to_string(), 150, Ok(runs)));
    assert_eq!(effects, vec!["SelectHistoryRun(\"3-4-tank/d@s3\")"]);
    assert!(!panel.history_loading);
    assert_eq!(
        panel.history_runs.iter().map(|run| run.start_time).collect::<Vec<_>>(),
        vec![3, 2, 1]
    );
    assert_eq!(panel.selected_history_run(), Some(run(3, false)));
    let failed = Msg::HistoryLoaded(
        "a".to_string(),
        150,
        Err(Error { message: "gone".to_string() }),
    );
    assert_eq!(send(&mut panel, failed), vec!["ShowError(History(\"gone\"))"]);
    assert_eq!(panel.history_runs.len(), 3);
}

#[test]
fn answers_that_are_not_waited_for_change_nothing() {
    let mut panel = on_tab(&["a"], TAB_METRICS);
    send(&mut panel, Msg::MainTabChanged);
    let (effects, redraw) =
        panel.update(Msg::HistoryLoaded("b".to_string(), 150, Ok(vec![run(1, true)])), false);
    assert!(effects.is_empty() && !redraw);
    let (effects, redraw) =
        panel.update(Msg::HistoryLoaded("a".to_string(), 7, Ok(vec![run(1, true)])), false);
    assert!(effects.is_empty() && !redraw);
    let (effects, redraw) =
        panel.update(Msg::RecoveryPointsLoaded("b".to_string(), Ok(vec![point(1)])), false);
    assert!(effects.is_empty() && !redraw);
    assert!(panel.history_loading && panel.recovery_points_loading);
    assert!(panel.history_runs.is_empty() && panel.recovery_points.is_empty());
}

#[test]
fn the_newest_recovery_point_is_proposed() {
    let mut panel = on_tab(&["a"], TAB_FAILOVER);
    send(&mut panel, Msg::MainTabChanged);
    assert_eq!(panel.failover_hint(), FailoverHint::Loading);
    assert!(!panel.controls().choose_snapshot);
    assert!(!panel.controls().refresh_failover && !panel.controls().refresh_history);
    let points = vec![point(1), point(9), point(5)];
    assert!(send(&mut panel, Msg::RecoveryPointsLoaded("a".to_string(), Ok(points))).is_empty());
    assert_eq!(panel.failover_snapshot_input, "tank/d@s9");
    assert!(panel.controls().refresh_failover && panel.controls().refresh_history);
    assert_eq!(panel.failover_hint(), FailoverHint::Ready);
    let action = panel.failover_action_for_selection(true).unwrap();
    assert_eq!(action.job_id, "a");
    assert_eq!(
        action.request,
        OffsiteFailoverRequest {
            snapshot: "tank/d@s9".to_string(),
            recovery_vmid: 500,
            recovered_name: Some("vm100-dr".to_string()),
            start_guest: true,
        }
    );
    send(&mut panel, Msg::UpdateFailoverSnapshot("tank/d@s5".to_string()));
    let again = vec![point(5), point(10)];
    send(&mut panel, Msg::RecoveryPointsLoaded("a".to_string(), Ok(again)));
    assert_eq!(panel.failover_snapshot_input, "tank/d@s5");
    send(&mut panel, Msg::RecoveryPointsLoaded("a".to_string(), Ok(Vec::new())));
    assert_eq!(panel.failover_snapshot_input, "");
    let failed = Msg::RecoveryPointsLoaded(
        "a".to_string(),
        Err(Error { message: "down".to_string() }),
    );
    assert_eq!(send(&mut panel, failed), vec!["ShowError(RecoveryPoints(\"down\"))"]);
}

#[test]
fn failovers_are_refused_with_a_reason() {
    let mut panel = on_tab(&["a"], TAB_FAILOVER);
    send(&mut panel, Msg::MainTabChanged);
    send(&mut panel, Msg::RecoveryPointsLoaded("a".to_string(), Ok(vec![point(1)])));
    let reason = |panel: &OffsiteReplicationPanelComp| {
        panel.failover_action_for_selection(false).unwrap_err().message
    };
    send(&mut panel, Msg::UpdateFailoverVmid("0".to_string()));
    assert_eq!(reason(&panel), "Recovery VMID must be greater than zero");
    send(&mut panel, Msg::UpdateFailoverVmid("many".to_string()));
    assert_eq!(reason(&panel), "Recovery VMID must be a valid number");
    assert_eq!(
        send(&mut panel, Msg::RequestFailover(false)),
        vec!["ShowError(Failover(\"Recovery VMID must be a valid number\"))"]
    );
    send(&mut panel, Msg::UpdateFailoverSnapshot("tank/d@s2".to_string()));
    assert_eq!(reason(&panel), "Selected recovery snapshot is no longer available");
    send(&mut panel, Msg::UpdateFailoverSnapshot(" ".to_string()));
    assert_eq!(reason(&panel), "No recovery snapshot selected");
    assert_eq!(
        panel.failover_hint(),
        FailoverHint::NotReady("No recovery snapshot selected".to_string())
    );
    panel.failover_job_id = None;
    assert_eq!(reason(&panel), "No replication job selected");
    panel.failover_job_id = Some("x".to_string());
    assert_eq!(reason(&panel), "No replication job selected");
}

#[test]
fn failovers_are_started_and_reported() {
    let mut panel = on_tab(&["a"], TAB_FAILOVER);
    send(&mut panel, Msg::MainTabChanged);
    send(&mut panel, Msg::RecoveryPointsLoaded("a".to_string(), Ok(vec![point(1)])));
    send(&mut panel, Msg::UpdateFailoverName(" ".to_string()));
    send(&mut panel, Msg::UpdateFailoverStart(true));
    assert!(panel.failover_start_guest);
    let action = panel.failover_action_for_selection(false).unwrap();
    assert_eq!(action.request.recovered_name, None);
    let effects = send(&mut panel, Msg::RequestFailover(false));
    assert_eq!(effects.len(), 1);
    assert!(effects[0].starts_with("SendTriggerFailover(\"a\", "));
    let effects = send(&mut panel, Msg::TriggerFailover(action.job_id, action.request));
    assert!(effects[0].starts_with("PostFailover(\"a\", "));
    assert!(panel.failover_running);
    assert_eq!(panel.failover_hint(), FailoverHint::Starting);
    assert!(!panel.controls().promote);
    assert_eq!(
        send(&mut panel, Msg::FailoverFinished(Ok("UPID".to_string()))),
        vec!["ShowTaskProgress(\"UPID\")", "SendOpenFailover(\"a\")", "Reload"]
    );
    assert_eq!(panel.failover_last_task.as_deref(), Some("UPID"));
    panel.failover_job_id = None;
    let failed = Msg::FailoverFinished(Err(Error { message: "no".to_string() }));
    assert_eq!(send(&mut panel, failed), vec!["ShowError(Failover(\"no\"))", "Reload"]);
}

#[test]
fn filters_show_and_clear() {
    let mut panel = on_tab(&["a", "b"], TAB_METRICS);
    send(&mut panel, Msg::MainTabChanged);
    let runs = vec![run(1, true), run(2, false)];
    send(&mut panel, Msg::HistoryLoaded("a".to_string(), 150, Ok(runs)));
    send(&mut panel, Msg::RecoveryPointsLoaded("a".to_string(), Ok(vec![point(1), point(7)])));
    send(&mut panel, Msg::HistoryFilterResultChanged(" OK ".to_string()));
    assert_eq!(panel.history_view.len(), 1);
    assert!(panel.controls().clear_history_filters);
    send(&mut panel, Msg::HistoryFilterRecoverableChanged("no".to_string()));
    assert!(panel.history_view.is_empty());
    send(&mut panel, Msg::ClearHistoryFilters);
    assert_eq!(panel.history_view, panel.history_runs);
    assert!(!panel.controls().clear_history_filters);
    send(&mut panel, Msg::HistoryFilterChanged("S2".to_string()));
    assert_eq!(panel.history_view.len(), 1);
    send(&mut panel, Msg::HistoryFilterDetailsChanged("nothing".to_string()));
    assert!(panel.history_view.is_empty());
    send(&mut panel, Msg::ClearHistoryFilters);
    send(&mut panel, Msg::HistoryFilterModeChanged("Unknown".to_string()));
    assert_eq!(panel.history_view.len(), 2);
    send(&mut panel, Msg::ToggleHistoryFilters);
    assert!(panel.history_filters_expanded);

    send(&mut panel, Msg::RecoveryFilterModeChanged("full".to_string()));
    assert_eq!(panel.recovery_view.len(), 2);
    send(&mut panel, Msg::RecoveryFilterChanged("s7".to_string()));
    assert_eq!(panel.recovery_view.len(), 1);
    send(&mut panel, Msg::RecoveryFilterRecoverableChanged("no".to_string()));
    assert!(panel.recovery_view.is_empty());
    send(&mut panel, Msg::ClearRecoveryFilters);
    assert_eq!(panel.recovery_view, panel.recovery_points);
    send(&mut panel, Msg::ToggleRecoveryFilters);
    assert!(panel.recovery_filters_expanded);

    send(&mut panel, Msg::JobsFilterChanged("zzz".to_string()));
    assert!(panel.jobs_view.is_empty());
    send(&mut panel, Msg::JobsFilterChanged(" ".to_string()));
    assert_eq!(panel.jobs_view, panel.jobs);
}

#[test]
fn rows_are_chosen_within_the_limit() {
    let mut panel = on_tab(&["a"], TAB_METRICS);
    assert_eq!(
        send(&mut panel, Msg::HistoryRowsChanged(" 100 ".to_string())),
        vec!["FetchHistory(\"a\", 100)"]
    );
    assert_eq!(panel.history_rows_choice, "100");
    assert_eq!(
        send(&mut panel, Msg::HistoryRowsChanged("5000".to_string())),
        vec!["FetchHistory(\"a\", 150)"]
    );
    assert_eq!(panel.history_rows_choice, "150");
    assert_eq!(
        send(&mut panel, Msg::HistoryRowsChanged("ALL".to_string())),
        vec!["FetchHistory(\"a\", 150)"]
    );
    assert_eq!(panel.history_rows_choice, "all");
    panel.main_tab_selection = None;
    assert!(send(&mut panel, Msg::HistoryRowsChanged("1".to_string())).is_empty());
    assert_eq!(panel.history_rows_choice, "all");
}

#[test]
fn jobs_are_chosen_for_tables_and_tabs() {
    let mut panel = loaded(&["a", "b"]);
    assert_eq!(
        send(&mut panel, Msg::JobsJobChanged(" b ".to_string())),
        vec!["SelectJob(\"b\")"]
    );
    assert!(send(&mut panel, Msg::JobsJobChanged(" ".to_string())).is_empty());
    assert_eq!(panel.selection.as_deref(), Some("b"));
    assert!(send(&mut panel, Msg::SelectHistoryJob(" a ".to_string())).is_empty());
    assert_eq!(panel.history_job_id.as_deref(), Some("a"));
    panel.main_tab_selection = Some(TAB_METRICS.to_string());
    assert_eq!(
        send(&mut panel, Msg::SelectHistoryJob("".to_string())),
        vec!["FetchHistory(\"b\", 150)", "FetchRecoveryPoints(\"b\")"]
    );
    panel.main_tab_selection = Some(TAB_FAILOVER.to_string());
    assert_eq!(
        send(&mut panel, Msg::SelectFailoverJob("a".to_string())),
        vec!["FetchRecoveryPoints(\"a\")"]
    );
}

#[test]
fn jobs_are_picked() {
    let mut panel = loaded(&["a", "b"]);
    assert_eq!(
        send(&mut panel, Msg::OpenHistoryJobPicker),
        vec!["SelectPickerJob(\"a\")", "ChangeView(Some(PickHistoryJob))"]
    );
    assert_eq!(
        send(&mut panel, Msg::OpenFailoverJobPicker),
        vec!["SelectPickerJob(\"a\")", "ChangeView(Some(PickFailoverJob))"]
    );
    assert_eq!(
        send(&mut panel, Msg::OpenRunNowJobPicker),
        vec!["SelectPickerJob(\"a\")", "ChangeView(Some(PickRunNowJob))"]
    );
    send(&mut panel, Msg::JobPickerFilterChanged("B".to_string()));
    assert!(panel.controls().clear_picker_filter);
    panel.job_picker_selection = Some("b".to_string());
    assert_eq!(
        send(&mut panel, Msg::ApplyHistoryJobPicker),
        vec!["SendSelectHistoryJob(\"b\")", "ChangeView(None)"]
    );
    assert_eq!(
        send(&mut panel, Msg::ApplyFailoverJobPicker),
        vec!["SendSelectFailoverJob(\"b\")", "ChangeView(None)"]
    );
    assert_eq!(
        send(&mut panel, Msg::ApplyRunNowJobPicker),
        vec!["SendRunNowById(\"b\")", "ChangeView(None)"]
    );
    panel.job_picker_selection = None;
    assert_eq!(send(&mut panel, Msg::ApplyHistoryJobPicker), vec!["ChangeView(None)"]);
    assert_eq!(send(&mut panel, Msg::ApplyFailoverJobPicker), vec!["ChangeView(None)"]);
    assert_eq!(
        send(&mut panel, Msg::ApplyRunNowJobPicker),
        vec!["ShowError(NoJobPicked)", "ChangeView(None)"]
    );
    assert_eq!(send(&mut panel, Msg::CloseJobPicker), vec!["ChangeView(None)"]);
}

#[test]
fn dialogs_need_a_selection() {
    let panel = loaded(&["a"]);
    assert_eq!(panel.dialog_view(ViewState::Create), Some(DialogContent::Add));
    assert_eq!(
        panel.dialog_view(ViewState::Edit),
        Some(DialogContent::Edit("a".to_string()))
    );
    assert_eq!(
        panel.dialog_view(ViewState::Remove),
        Some(DialogContent::Remove("a".to_string()))
    );
    assert_eq!(
        panel.dialog_view(ViewState::PickRunNowJob),
        Some(DialogContent::PickRunNowJob)
    );
    let mut gone = loaded(&["a"]);
    gone.selection = Some("x".to_string());
    assert_eq!(gone.dialog_view(ViewState::Remove), None);
    assert!(gone.controls().with_selection && !gone.controls().remove);
    gone.selection = None;
    assert_eq!(gone.dialog_view(ViewState::Edit), None);
}

#[test]
fn the_history_has_a_head() {
    let panel = loaded(&["a"]);
    let head = panel.metrics_header().unwrap();
    assert_eq!(head.id, "a");
    assert_eq!(head.guest, "qemu:100");
    assert_eq!(head.path, "src -> dst");
    assert_eq!(head.configured_limit, 150);
    assert_eq!(head.rows_value, "150");
    assert_eq!(head.rows_items, vec!["100", "150", "all"]);
    let mut other = loaded(&["a"]);
    other.history_job_id = Some("x".to_string());
    let head = other.metrics_header().unwrap();
    assert_eq!((head.guest.as_str(), head.path.as_str()), ("-", "-"));
    assert_eq!(head.configured_limit, 200);
    assert!(OffsiteReplicationPanelComp::create().metrics_header().is_none());
    assert_eq!(panel.selected_job_value(), "a");
    assert_eq!(panel.metrics_job_value(), "a");
    assert_eq!(panel.failover_job_value(), "a");
    assert_eq!(panel.selected_job(), Some(job("a")));
}

#[test]
fn notices_are_told_apart() {
    assert!(Notice::JobGone != Notice::NoJobToRun);
    assert!(Notice::History("x".to_string()) != Notice::Failover("x".to_string()));
}
