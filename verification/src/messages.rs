//! What the panel does about each message.
use crate::display::{
    rows_choice_of, run_key_of, shown_jobs, shown_points, shown_runs, is_recoverable_snapshot, law_cleared_filters_show_all_points, law_cleared_filters_show_all_runs,
    law_empty_filter_shows_all_jobs, no_history_filters, no_recovery_filters, HistoryFiltersView,
    RecoveryFiltersView,
};
use crate::number::{decimal, law_decimal_reads_back, lemma_decimal, parsed};
use crate::order::{
    in_order, law_sorted_items_are_in_order, law_sorting_keeps_the_items, sorted,
};
use crate::panel::{
    effects_view, has_job, known_job, law_jobs_are_known_by_their_id, lemma_record_at,
    lemma_tabs_differ, names_no_job, no_effects, one_effect,
    quietly, record_at, two_effects, Effect, EffectView, FailoverRequestView, Msg, Notice,
    NoticeView, OffsiteReplicationPanelComp, PanelView, Turn, ViewState,
};
use crate::summary::law_runs_and_points_are_ranked;
use crate::text::{is_digit, lemma_trimmed_already, lowered, trimmed};
use crate::types::{
    text_outcome, Error, OffsiteFailoverRequest, OffsiteRecoveryPoint, OffsiteReplicationJobStatus,
    OffsiteReplicationRun,
};
use crate::update::{proposed_vmid, said};
use vstd::prelude::*;

verus! {

/// What the panel does about a message. `loading` tells whether the jobs are being read.
pub open spec fn updated(p: PanelView, msg: Msg, loading: bool) -> Turn {
    match msg {
        Msg::LoadFinished(data) => p.jobs_loaded(data@),
        Msg::MainTabChanged => p.tab_changed(),
        Msg::Remove(key) => if has_job(p.jobs, key@) {
            Turn { panel: p, effects: seq![EffectView::DeleteJob(key@)] }
        } else {
            quietly(p)
        },
        Msg::Reload => Turn {
            panel: p,
            effects: seq![EffectView::ChangeView(None), EffectView::Reload],
        },
        Msg::RunNowActive => Turn {
            panel: p,
            effects: seq![
                match p.run_job() {
                    Some(id) => EffectView::SendRunNowById(id),
                    None => EffectView::ShowError(NoticeView::NoJobToRun),
                },
            ],
        },
        Msg::RunNowById(id) => p.run_job_now(id@),
        Msg::RunNowFinished(id, result) => p.run_started(id@, text_outcome(result)),
        Msg::OpenRunNowTaskLog => Turn {
            panel: p,
            effects: seq![
                match p.run_now_feedback {
                    Some(feedback) => EffectView::ShowTaskLog(feedback.upid),
                    None => EffectView::ShowError(NoticeView::NoRunTask),
                },
            ],
        },
        Msg::DismissRunNowFeedback => quietly(PanelView { run_now_feedback: None, ..p }),
        Msg::OpenHistory(key) => p.open_history(key@),
        Msg::OpenFailover(key) => p.open_failover(key@),
        Msg::HistoryLoaded(id, limit, result) => p.history_loaded(id@, limit as int, said(result)),
        Msg::RecoveryPointsLoaded(id, result) => p.points_loaded(id@, said(result)),
        Msg::RequestFailover(start_guest) => p.failover_requested(start_guest),
        Msg::TriggerFailover(id, request) => Turn {
            panel: PanelView { failover_running: true, ..p },
            effects: seq![EffectView::PostFailover(id@, request@)],
        },
        Msg::FailoverFinished(result) => p.failover_started(text_outcome(result)),
        Msg::UpdateFailoverSnapshot(value) => quietly(
            PanelView { failover_snapshot_input: value@, ..p },
        ),
        Msg::UpdateFailoverVmid(value) => quietly(PanelView { failover_vmid_input: value@, ..p }),
        Msg::UpdateFailoverName(value) => quietly(PanelView { failover_name_input: value@, ..p }),
        Msg::UpdateFailoverStart(value) => quietly(PanelView { failover_start_guest: value, ..p }),
        Msg::JobsFilterChanged(value) => quietly(
            p.with_table_filter(value@),
        ),
        Msg::JobsJobChanged(value) => p.job_chosen(value@),
        Msg::HistoryFilterChanged(value) => quietly(
            p.with_history_filters(HistoryFiltersView { text: value@, ..p.history_filters }),
        ),
        Msg::HistoryFilterDetailsChanged(value) => quietly(
            p.with_history_filters(HistoryFiltersView { details: value@, ..p.history_filters }),
        ),
        Msg::HistoryFilterResultChanged(value) => quietly(
            p.with_history_filters(
                HistoryFiltersView { result: lowered(trimmed(value@)), ..p.history_filters },
            ),
        ),
        Msg::HistoryFilterModeChanged(value) => quietly(
            p.with_history_filters(
                HistoryFiltersView { mode: lowered(trimmed(value@)), ..p.history_filters },
            ),
        ),
        Msg::HistoryFilterRecoverableChanged(value) => quietly(
            p.with_history_filters(
                HistoryFiltersView { recoverable: lowered(trimmed(value@)), ..p.history_filters },
            ),
        ),
        Msg::ToggleHistoryFilters => quietly(
            PanelView { history_filters_expanded: !p.history_filters_expanded, ..p },
        ),
        Msg::ClearHistoryFilters => quietly(p.with_history_filters(no_history_filters())),
        Msg::HistoryRowsChanged(value) => p.rows_chosen(value@),
        Msg::RecoveryFilterChanged(value) => quietly(
            p.with_recovery_filters(RecoveryFiltersView { text: value@, ..p.recovery_filters }),
        ),
        Msg::RecoveryFilterModeChanged(value) => quietly(
            p.with_recovery_filters(
                RecoveryFiltersView { mode: lowered(trimmed(value@)), ..p.recovery_filters },
            ),
        ),
        Msg::RecoveryFilterRecoverableChanged(value) => quietly(
            p.with_recovery_filters(
                RecoveryFiltersView { recoverable: lowered(trimmed(value@)), ..p.recovery_filters },
            ),
        ),
        Msg::ToggleRecoveryFilters => quietly(
            PanelView { recovery_filters_expanded: !p.recovery_filters_expanded, ..p },
        ),
        Msg::ClearRecoveryFilters => quietly(p.with_recovery_filters(no_recovery_filters())),
        Msg::SelectHistoryJob(value) => p.history_job_chosen(value@),
        Msg::SelectFailoverJob(value) => p.failover_job_chosen(value@),
        Msg::OpenHistoryJobPicker => p.open_picker(p.history_job(), ViewState::PickHistoryJob),
        Msg::OpenFailoverJobPicker => p.open_picker(p.failover_job(), ViewState::PickFailoverJob),
        Msg::OpenRunNowJobPicker => p.open_picker(p.run_job(), ViewState::PickRunNowJob),
        Msg::CloseJobPicker => Turn { panel: p, effects: seq![EffectView::ChangeView(None)] },
        Msg::JobPickerFilterChanged(value) => quietly(
            p.with_picker_filter(value@),
        ),
        Msg::ApplyHistoryJobPicker => Turn {
            panel: p,
            effects: match p.job_picker_selection {
                Some(id) => seq![
                    EffectView::SendSelectHistoryJob(id),
                    EffectView::ChangeView(None),
                ],
                None => seq![EffectView::ChangeView(None)],
            },
        },
        Msg::ApplyFailoverJobPicker => Turn {
            panel: p,
            effects: match p.job_picker_selection {
                Some(id) => seq![
                    EffectView::SendSelectFailoverJob(id),
                    EffectView::ChangeView(None),
                ],
                None => seq![EffectView::ChangeView(None)],
            },
        },
        Msg::ApplyRunNowJobPicker => Turn {
            panel: p,
            effects: seq![
                match p.job_picker_selection {
                    Some(id) => EffectView::SendRunNowById(id),
                    None => EffectView::ShowError(NoticeView::NoJobPicked),
                },
                EffectView::ChangeView(None),
            ],
        },
        Msg::ScheduleAutoRefresh => Turn { panel: p, effects: seq![EffectView::ScheduleRefresh] },
        Msg::AutoRefreshTick => p.refresh(loading),
    }
}

/// The panel is drawn anew: after every message but an answer that is not waited for.
pub open spec fn redraws(p: PanelView, msg: Msg) -> bool {
    match msg {
        Msg::HistoryLoaded(id, limit, _) => p.awaits_history(id@, limit as int),
        Msg::RecoveryPointsLoaded(id, _) => p.awaits_points(id@),
        _ => true,
    }
}

impl OffsiteReplicationPanelComp {
    /// Takes a message: changes the panel, and says what is to be done outside it and whether the
    /// panel is to be drawn anew.
    pub fn update(&mut self, msg: Msg, loading: bool) -> (r: (Vec<Effect>, bool))
        ensures
            final(self)@ == updated(old(self)@, msg, loading).panel,
            effects_view(r.0@) == updated(old(self)@, msg, loading).effects,
            r.1 == redraws(old(self)@, msg),
    {
        match msg {
            Msg::LoadFinished(data) => (self.jobs_loaded(data), true),
            Msg::MainTabChanged => (self.tab_changed(), true),
            Msg::Remove(key) => if known_job(&self.jobs, key.as_str()) {
                (one_effect(Effect::DeleteJob(key)), true)
            } else {
                (no_effects(), true)
            },
            Msg::Reload => (two_effects(Effect::ChangeView(None), Effect::Reload), true),
            Msg::RunNowActive => match self.active_run_job_id() {
                Some(id) => (one_effect(Effect::SendRunNowById(id)), true),
                None => (one_effect(Effect::ShowError(Notice::NoJobToRun)), true),
            },
            Msg::RunNowById(id) => (self.run_job_now(id), true),
            Msg::RunNowFinished(id, result) => (self.run_started(id, result), true),
            Msg::OpenRunNowTaskLog => match &self.run_now_feedback {
                Some(feedback) => (one_effect(Effect::ShowTaskLog(feedback.upid.clone())), true),
                None => (one_effect(Effect::ShowError(Notice::NoRunTask)), true),
            },
            Msg::DismissRunNowFeedback => {
                self.run_now_feedback = None;
                (no_effects(), true)
            },
            Msg::OpenHistory(key) => (self.open_history(key), true),
            Msg::OpenFailover(key) => (self.open_failover(key), true),
            Msg::HistoryLoaded(id, limit, result) => {
                let awaited = self.is_awaited_history(id.as_str(), limit);
                (self.history_loaded(id, limit, result), awaited)
            },
            Msg::RecoveryPointsLoaded(id, result) => {
                let awaited = self.is_awaited_job(id.as_str());
                (self.points_loaded(id, result), awaited)
            },
            Msg::RequestFailover(start_guest) => (self.failover_requested(start_guest), true),
            Msg::TriggerFailover(id, request) => {
                self.failover_running = true;
                (one_effect(Effect::PostFailover(id, request)), true)
            },
            Msg::FailoverFinished(result) => (self.failover_started(result), true),
            Msg::UpdateFailoverSnapshot(value) => {
                self.failover_snapshot_input = value;
                (no_effects(), true)
            },
            Msg::UpdateFailoverVmid(value) => {
                self.failover_vmid_input = value;
                (no_effects(), true)
            },
            Msg::UpdateFailoverName(value) => {
                self.failover_name_input = value;
                (no_effects(), true)
            },
            Msg::UpdateFailoverStart(value) => {
                self.failover_start_guest = value;
                (no_effects(), true)
            },
            Msg::JobsFilterChanged(value) => {
                self.filter_table(value);
                (no_effects(), true)
            },
            Msg::JobsJobChanged(value) => (self.job_chosen(value.as_str()), true),
            Msg::HistoryRowsChanged(value) => (self.rows_chosen(value.as_str()), true),
            Msg::SelectHistoryJob(value) => (self.history_job_chosen(value.as_str()), true),
            Msg::SelectFailoverJob(value) => (self.failover_job_chosen(value.as_str()), true),
            Msg::ScheduleAutoRefresh => (one_effect(Effect::ScheduleRefresh), true),
            Msg::AutoRefreshTick => (self.refresh(loading), true),
            Msg::HistoryFilterChanged(value) => {
                self.filter_history_text(value);
                (no_effects(), true)
            },
            Msg::HistoryFilterDetailsChanged(value) => {
                self.filter_history_details(value);
                (no_effects(), true)
            },
            Msg::HistoryFilterResultChanged(value) => {
                self.filter_history_result(value);
                (no_effects(), true)
            },
            Msg::HistoryFilterModeChanged(value) => {
                self.filter_history_mode(value);
                (no_effects(), true)
            },
            Msg::HistoryFilterRecoverableChanged(value) => {
                self.filter_history_recoverable(value);
                (no_effects(), true)
            },
            Msg::ToggleHistoryFilters => {
                self.history_filters_expanded = !self.history_filters_expanded;
                (no_effects(), true)
            },
            Msg::ClearHistoryFilters => {
                self.clear_history_filters();
                (no_effects(), true)
            },
            Msg::RecoveryFilterChanged(value) => {
                self.filter_recovery_text(value);
                (no_effects(), true)
            },
            Msg::RecoveryFilterModeChanged(value) => {
                self.filter_recovery_mode(value);
                (no_effects(), true)
            },
            Msg::RecoveryFilterRecoverableChanged(value) => {
                self.filter_recovery_recoverable(value);
                (no_effects(), true)
            },
            Msg::ToggleRecoveryFilters => {
                self.recovery_filters_expanded = !self.recovery_filters_expanded;
                (no_effects(), true)
            },
            Msg::ClearRecoveryFilters => {
                self.clear_recovery_filters();
                (no_effects(), true)
            },
            Msg::OpenHistoryJobPicker => {
                let id = self.metrics_job_id();
                (self.open_picker(id, ViewState::PickHistoryJob), true)
            },
            Msg::OpenFailoverJobPicker => {
                let id = self.recovery_job_id();
                (self.open_picker(id, ViewState::PickFailoverJob), true)
            },
            Msg::OpenRunNowJobPicker => {
                let id = self.active_run_job_id();
                (self.open_picker(id, ViewState::PickRunNowJob), true)
            },
            Msg::CloseJobPicker => (one_effect(Effect::ChangeView(None)), true),
            Msg::JobPickerFilterChanged(value) => {
                self.filter_picker(value);
                (no_effects(), true)
            },
            Msg::ApplyHistoryJobPicker => match &self.job_picker_selection {
                Some(id) => (
                    two_effects(
                        Effect::SendSelectHistoryJob(id.clone()),
                        Effect::ChangeView(None),
                    ),
                    true,
                ),
                None => (one_effect(Effect::ChangeView(None)), true),
            },
            Msg::ApplyFailoverJobPicker => match &self.job_picker_selection {
                Some(id) => (
                    two_effects(
                        Effect::SendSelectFailoverJob(id.clone()),
                        Effect::ChangeView(None),
                    ),
                    true,
                ),
                None => (one_effect(Effect::ChangeView(None)), true),
            },
            Msg::ApplyRunNowJobPicker => {
                let first = match &self.job_picker_selection {
                    Some(id) => Effect::SendRunNowById(id.clone()),
                    None => Effect::ShowError(Notice::NoJobPicked),
                };
                (two_effects(first, Effect::ChangeView(None)), true)
            },
        }
    }
}

// ---------------------------------------------------------------------------------------------
// Laws
// ---------------------------------------------------------------------------------------------

/// An answer that is not waited for changes nothing, and nothing is done about it.
pub proof fn law_unawaited_answers_change_nothing(p: PanelView, msg: Msg, loading: bool)
    requires
        !redraws(p, msg),
    ensures
        updated(p, msg, loading) == quietly(p),
{
}

/// It is the tick of the timer that schedules the next one, whatever else happens; the jobs are read
/// anew exactly where nothing is going on.
pub proof fn law_refresh_waits_for_what_is_going_on(p: PanelView, loading: bool)
    ensures
        p.refresh(loading).panel == p,
        p.refresh(loading).effects.contains(EffectView::ScheduleRefresh),
        p.refresh(loading).effects.contains(EffectView::Reload) <==> !loading && !p.is_busy(),
{
    let effects = p.refresh(loading).effects;
    assert(effects[effects.len() - 1] == EffectView::ScheduleRefresh);
    if !loading && !p.is_busy() {
        assert(effects[0] == EffectView::Reload);
    }
}

/// Once the filters are cleared, everything is shown.
pub proof fn law_cleared_filters_show_everything(p: PanelView)
    ensures
        p.with_history_filters(no_history_filters()).history_view == p.history_runs,
        p.with_recovery_filters(no_recovery_filters()).recovery_view == p.recovery_points,
        p.with_table_filter(""@).jobs_view == p.jobs,
        p.with_picker_filter(""@).job_picker_view == p.jobs,
{
    law_cleared_filters_show_all_runs(p.recovery_points, p.history_runs);
    law_cleared_filters_show_all_points(p.recovery_points);
    law_empty_filter_shows_all_jobs(p.jobs);
}

proof fn lemma_first_job_is_known(jobs: Seq<OffsiteReplicationJobStatus>)
    requires
        jobs.len() > 0,
    ensures
        has_job(jobs, jobs[0].job.id@),
{
    lemma_record_at(jobs, jobs[0].job.id@);
}

/// The panel stands on jobs that are there, or on none.
spec fn names_jobs(p: PanelView) -> bool {
    &&& !names_no_job(p.jobs, p.selection)
    &&& !names_no_job(p.jobs, p.history_job_id)
    &&& !names_no_job(p.jobs, p.failover_job_id)
}

proof fn lemma_settled_panel(p: PanelView, jobs: Seq<OffsiteReplicationJobStatus>)
    requires
        jobs.len() > 0,
    ensures
        p.settle_jobs(jobs).panel.jobs == jobs,
        p.settle_jobs(jobs).panel.selection is Some,
        names_jobs(p.settle_jobs(jobs).panel),
{
    lemma_first_job_is_known(jobs);
    let first = PanelView { jobs, ..p }.ensure_selection().panel;
    assert(first.jobs == jobs && first.selection is Some);
    let second = first.replace_selection().panel;
    assert(second.jobs == jobs && second.selection is Some);
    assert(!names_no_job(jobs, second.selection));
    let third = second.forget_gone();
    assert(third.jobs == jobs && third.selection == second.selection);
    assert(names_jobs(third));
}

proof fn lemma_tab_is_loaded(p: PanelView)
    requires
        p.history_job_id is Some,
        p.failover_job_id is Some,
    ensures
        p.load_tab().panel.jobs == p.jobs,
        p.load_tab().panel.selection == p.selection,
        p.load_tab().panel.history_job_id == p.history_job_id,
        p.load_tab().panel.failover_job_id == p.failover_job_id,
{
}

/// Once jobs have been read, and there are any, the table, the history and the failover stand on
/// jobs that are there.
pub proof fn law_loaded_panel_stands_on_jobs(p: PanelView, jobs: Seq<OffsiteReplicationJobStatus>)
    requires
        jobs.len() > 0,
    ensures
        ({
            let q = p.jobs_loaded(jobs).panel;
            &&& q.jobs == jobs
            &&& q.selection is Some && !names_no_job(jobs, q.selection)
            &&& q.history_job_id is Some && !names_no_job(jobs, q.history_job_id)
            &&& q.failover_job_id is Some && !names_no_job(jobs, q.failover_job_id)
        }),
{
    lemma_settled_panel(p, jobs);
    lemma_tab_is_loaded(p.settle_jobs(jobs).panel.with_default_jobs());
}

/// A failover that is asked for is one of a job that is there, of a snapshot that can be recovered,
/// and to an ID that is not zero.
pub proof fn law_requested_failover_is_possible(p: PanelView, start_guest: bool)
    ensures
        p.failover_action(start_guest) matches Ok(action) ==> {
            &&& p.failover_job_id == Some(action.0)
            &&& has_job(p.jobs, action.0)
            &&& is_recoverable_snapshot(p.recovery_points, action.1.snapshot)
            &&& action.1.recovery_vmid > 0
            &&& action.1.start_guest == start_guest
        },
{
}

/// The history is listed with the newest run first, and none is lost.
pub proof fn law_history_is_listed_newest_first(p: PanelView, runs: Seq<OffsiteReplicationRun>)
    ensures
        in_order(p.with_history(runs).panel.history_runs),
        p.with_history(runs).panel.history_runs.to_multiset() == runs.to_multiset(),
{
    law_runs_and_points_are_ranked();
    law_sorted_items_are_in_order(runs);
    law_sorting_keeps_the_items(runs);
}

/// The failover that is proposed for a job can be started as it stands, once its recovery points
/// are there: it recovers the newest of them.
pub proof fn law_proposed_failover_can_be_started(
    p: PanelView,
    id: Seq<char>,
    points: Seq<OffsiteRecoveryPoint>,
    start_guest: bool,
)
    requires
        has_job(p.jobs, id),
        points.len() > 0,
        forall|i: int|
            0 <= i < points.len() ==> (#[trigger] points[i]).snapshot@.len() > 0 && trimmed(
                points[i].snapshot@,
            ) == points[i].snapshot@,
    ensures
        ({
            let ready = p.load_failover(id).panel.points_loaded(id, Ok(points)).panel;
            let vmid = p.jobs[record_at(p.jobs, id).unwrap()].job.vmid;
            ready.failover_action(start_guest) == Ok::<(Seq<char>, FailoverRequestView), Seq<char>>(
                (
                    id,
                    FailoverRequestView {
                        snapshot: sorted(points)[0].snapshot@,
                        recovery_vmid: proposed_vmid(vmid) as u32,
                        recovered_name: Some("vm"@ + decimal(vmid as nat) + "-dr"@),
                        start_guest,
                    },
                ),
            )
        }),
{
    broadcast use vstd::seq_lib::group_to_multiset_ensures;

    reveal_strlit("");
    reveal_strlit("vm");
    reveal_strlit("-dr");
    let listed = sorted(points);
    law_sorting_keeps_the_items(points);
    assert forall|i: int| 0 <= i < listed.len() implies points.contains(#[trigger] listed[i]) by {
        assert(listed.to_multiset().count(listed[i]) > 0);
    }
    assert(!is_recoverable_snapshot(listed, ""@)) by {
        if is_recoverable_snapshot(listed, ""@) {
            let i = choose|i: int|
                0 <= i < listed.len() && (#[trigger] listed[i]).snapshot@ == ""@;
            assert(points.contains(listed[i]));
            let k = choose|k: int| 0 <= k < points.len() && points[k] == listed[i];
            assert(points[k].snapshot@.len() > 0);
        }
    }
    assert(points.contains(listed[0]));
    let k = choose|k: int| 0 <= k < points.len() && points[k] == listed[0];
    assert(trimmed(points[k].snapshot@) == points[k].snapshot@);
    lemma_record_at(p.jobs, id);
    let vmid = p.jobs[record_at(p.jobs, id).unwrap()].job.vmid;
    let n = proposed_vmid(vmid);
    lemma_decimal(n);
    law_decimal_reads_back(n, u32::MAX as nat);
    let text = decimal(n);
    assert(is_digit(text[0]) && is_digit(text[text.len() - 1]));
    lemma_trimmed_already(text);
    let name = "vm"@ + decimal(vmid as nat) + "-dr"@;
    assert(name[0] == 'v' && name[name.len() - 1] == 'r');
    lemma_trimmed_already(name);
    let loaded = p.load_failover(id).panel;
    let ready = loaded.points_loaded(id, Ok(points)).panel;
    assert(loaded.failover_snapshot_input == ""@);
    assert(ready.failover_snapshot_input == listed[0].snapshot@);
    assert(ready.recovery_points == listed);
    assert(ready.failover_job_id == Some(id));
    assert(ready.recovery_snapshot() == Ok::<Seq<char>, Seq<char>>(listed[0].snapshot@));
}

/// What is typed into a field of the failover's form is kept there and changes nothing else; and so
/// with what is shown or hidden.
pub proof fn law_inputs_are_kept(p: PanelView, text: String, flag: bool, loading: bool)
    ensures
        updated(p, Msg::UpdateFailoverSnapshot(text), loading) == (Turn {
            panel: PanelView { failover_snapshot_input: text@, ..p },
            effects: seq![],
        }),
        updated(p, Msg::UpdateFailoverVmid(text), loading) == (Turn {
            panel: PanelView { failover_vmid_input: text@, ..p },
            effects: seq![],
        }),
        updated(p, Msg::UpdateFailoverName(text), loading) == (Turn {
            panel: PanelView { failover_name_input: text@, ..p },
            effects: seq![],
        }),
        updated(p, Msg::UpdateFailoverStart(flag), loading) == (Turn {
            panel: PanelView { failover_start_guest: flag, ..p },
            effects: seq![],
        }),
        updated(p, Msg::DismissRunNowFeedback, loading) == (Turn {
            panel: PanelView { run_now_feedback: None, ..p },
            effects: seq![],
        }),
        updated(p, Msg::ToggleHistoryFilters, loading) == (Turn {
            panel: PanelView { history_filters_expanded: !p.history_filters_expanded, ..p },
            effects: seq![],
        }),
        updated(p, Msg::ToggleRecoveryFilters, loading) == (Turn {
            panel: PanelView { recovery_filters_expanded: !p.recovery_filters_expanded, ..p },
            effects: seq![],
        }),
{
}

/// A filter of the history that is changed is the only one that is, and the history shows what the
/// filters then let through. Choices are kept in lower case and without white space around them.
pub proof fn law_history_filter_is_changed(p: PanelView, value: String, loading: bool)
    ensures
        ({
            let f = p.history_filters;
            let word = lowered(trimmed(value@));
            let shows = |filters: HistoryFiltersView|
                Turn {
                    panel: PanelView {
                        history_filters: filters,
                        history_view: shown_runs(filters, p.recovery_points, p.history_runs),
                        ..p
                    },
                    effects: seq![],
                };
            &&& updated(p, Msg::HistoryFilterChanged(value), loading) == shows(
                HistoryFiltersView { text: value@, ..f },
            )
            &&& updated(p, Msg::HistoryFilterDetailsChanged(value), loading) == shows(
                HistoryFiltersView { details: value@, ..f },
            )
            &&& updated(p, Msg::HistoryFilterResultChanged(value), loading) == shows(
                HistoryFiltersView { result: word, ..f },
            )
            &&& updated(p, Msg::HistoryFilterModeChanged(value), loading) == shows(
                HistoryFiltersView { mode: word, ..f },
            )
            &&& updated(p, Msg::HistoryFilterRecoverableChanged(value), loading) == shows(
                HistoryFiltersView { recoverable: word, ..f },
            )
            &&& updated(p, Msg::ClearHistoryFilters, loading).panel.history_view == p.history_runs
            &&& updated(p, Msg::ClearHistoryFilters, loading).panel.history_filters
                == no_history_filters()
        }),
{
    law_cleared_filters_show_all_runs(p.recovery_points, p.history_runs);
}

/// A filter of the recovery points that is changed is the only one that is, and those points are
/// shown that the filters then let through.
pub proof fn law_recovery_filter_is_changed(p: PanelView, value: String, loading: bool)
    ensures
        ({
            let f = p.recovery_filters;
            let word = lowered(trimmed(value@));
            let shows = |filters: RecoveryFiltersView|
                Turn {
                    panel: PanelView {
                        recovery_filters: filters,
                        recovery_view: shown_points(
                            filters,
                            p.recovery_points,
                            p.recovery_points.len() as int,
                        ),
                        ..p
                    },
                    effects: seq![],
                };
            &&& updated(p, Msg::RecoveryFilterChanged(value), loading) == shows(
                RecoveryFiltersView { text: value@, ..f },
            )
            &&& updated(p, Msg::RecoveryFilterModeChanged(value), loading) == shows(
                RecoveryFiltersView { mode: word, ..f },
            )
            &&& updated(p, Msg::RecoveryFilterRecoverableChanged(value), loading) == shows(
                RecoveryFiltersView { recoverable: word, ..f },
            )
            &&& updated(p, Msg::ClearRecoveryFilters, loading).panel.recovery_view
                == p.recovery_points
        }),
{
    law_cleared_filters_show_all_points(p.recovery_points);
}

/// The filters of the table and of the picker are two: each changes what its own list shows.
pub proof fn law_table_and_picker_are_filtered_apart(p: PanelView, value: String, loading: bool)
    ensures
        updated(p, Msg::JobsFilterChanged(value), loading) == (Turn {
            panel: PanelView {
                jobs_filter_text: value@,
                jobs_view: shown_jobs(p.jobs, value@),
                ..p
            },
            effects: seq![],
        }),
        updated(p, Msg::JobPickerFilterChanged(value), loading) == (Turn {
            panel: PanelView {
                job_picker_filter_text: value@,
                job_picker_view: shown_jobs(p.jobs, value@),
                ..p
            },
            effects: seq![],
        }),
{
}

/// Only a job that is there is removed or run. To run one that is gone is told as a problem.
pub proof fn law_only_known_jobs_are_run_or_removed(p: PanelView, id: String, loading: bool)
    ensures
        ({
            let there = exists|i: int|
                0 <= i < p.jobs.len() && (#[trigger] p.jobs[i]).job.id@ == id@;
            let removed = updated(p, Msg::Remove(id), loading);
            let run = updated(p, Msg::RunNowById(id), loading);
            &&& removed.panel == p
            &&& there ==> removed.effects == seq![EffectView::DeleteJob(id@)]
            &&& !there ==> removed.effects.len() == 0
            &&& there ==> run.effects == seq![EffectView::PostRunNow(id@)] && run.panel
                == (PanelView { run_now_submitting: true, run_now_feedback: None, ..p })
            &&& !there ==> run.effects == seq![EffectView::ShowError(NoticeView::JobGone)]
                && run.panel == p
        }),
{
    law_jobs_are_known_by_their_id(p.jobs, id@, 0);
}

/// What is run at once is the job of the open tab, or the one that was picked; where there is none,
/// that is told.
pub proof fn law_run_is_of_the_tab_or_the_picked_job(p: PanelView, loading: bool)
    ensures
        updated(p, Msg::RunNowActive, loading).panel == p,
        p.run_job() matches Some(id) ==> updated(p, Msg::RunNowActive, loading).effects == seq![
            EffectView::SendRunNowById(id),
        ],
        p.run_job() is None ==> updated(p, Msg::RunNowActive, loading).effects == seq![
            EffectView::ShowError(NoticeView::NoJobToRun),
        ],
        p.job_picker_selection matches Some(id) ==> updated(
            p,
            Msg::ApplyRunNowJobPicker,
            loading,
        ).effects == seq![EffectView::SendRunNowById(id), EffectView::ChangeView(None)],
        p.job_picker_selection is None ==> updated(p, Msg::ApplyRunNowJobPicker, loading).effects
            == seq![EffectView::ShowError(NoticeView::NoJobPicked), EffectView::ChangeView(None)],
        p.run_now_feedback matches Some(feedback) ==> updated(
            p,
            Msg::OpenRunNowTaskLog,
            loading,
        ).effects == seq![EffectView::ShowTaskLog(feedback.upid)],
        p.run_now_feedback is None ==> updated(p, Msg::OpenRunNowTaskLog, loading).effects == seq![
            EffectView::ShowError(NoticeView::NoRunTask),
        ],
{
}

/// A run that was started is told with its job and its task; one that could not be is told with its
/// job and the reason. Either way nothing is waited for any more, and the jobs are read anew.
pub proof fn law_started_run_is_told(
    p: PanelView,
    id: String,
    upid: String,
    error: Error,
    loading: bool,
)
    ensures
        ({
            let good = updated(p, Msg::RunNowFinished(id, Ok(upid)), loading);
            let bad = updated(p, Msg::RunNowFinished(id, Err(error)), loading);
            &&& !good.panel.run_now_submitting && !bad.panel.run_now_submitting
            &&& good.panel.run_now_last_task == Some(upid@)
            &&& good.panel.run_now_feedback matches Some(feedback) && feedback.job_id == id@
                && feedback.upid == upid@
            &&& good.effects == seq![EffectView::SendReload]
            &&& bad.panel.run_now_feedback is None
            &&& bad.panel.run_now_last_task == p.run_now_last_task
            &&& bad.effects == seq![
                EffectView::ShowError(NoticeView::RunFailed(id@ + ": "@ + error@)),
                EffectView::SendReload,
            ]
        }),
{
}

/// To read a history is to ask for that of the job, with at least one run, and to wait for it; the
/// recovery points are asked for too where they are to be refreshed, and those shown so far are gone.
pub proof fn law_history_is_asked_for(p: PanelView, id: Seq<char>, limit: int)
    requires
        limit >= 1,
    ensures
        ({
            let with = p.load_history(id, limit, true);
            let without = p.load_history(id, limit, false);
            &&& with.effects == seq![
                EffectView::FetchHistory(id, limit),
                EffectView::FetchRecoveryPoints(id),
            ]
            &&& without.effects == seq![EffectView::FetchHistory(id, limit)]
            &&& with.panel.history_loading && without.panel.history_loading
            &&& with.panel.history_job_id == Some(id) && without.panel.history_job_id == Some(id)
            &&& with.panel.history_requested_limit == limit
            &&& with.panel.recovery_points_loading && with.panel.recovery_points.len() == 0
                && with.panel.recovery_view.len() == 0
            &&& without.panel == (PanelView {
                history_job_id: Some(id),
                history_requested_limit: limit,
                history_loading: true,
                ..p
            })
            &&& with.panel.history_runs == p.history_runs
        }),
{
}

/// An answer is taken where it is the one that was asked for: the history of the job, with the number
/// of runs that was asked for. What was asked for is then no longer waited for.
pub proof fn law_awaited_history_is_taken(
    p: PanelView,
    id: String,
    limit: u64,
    runs: Vec<OffsiteReplicationRun>,
    error: Error,
    loading: bool,
)
    ensures
        ({
            let good = updated(p, Msg::HistoryLoaded(id, limit, Ok(runs)), loading);
            let bad = updated(p, Msg::HistoryLoaded(id, limit, Err(error)), loading);
            let awaited = p.history_job_id == Some(id@) && p.history_requested_limit == limit;
            &&& !awaited ==> good.panel == p && good.effects.len() == 0 && bad.panel == p
                && bad.effects.len() == 0
            &&& awaited ==> !good.panel.history_loading && !bad.panel.history_loading
            &&& awaited ==> good.panel.history_runs == sorted(runs@) && good.panel.history_view
                == shown_runs(p.history_filters, p.recovery_points, sorted(runs@))
            &&& awaited && runs@.len() > 0 ==> good.panel.history_selection == Some(
                run_key_of(sorted(runs@)[0]),
            ) && good.effects == seq![
                EffectView::SelectHistoryRun(run_key_of(sorted(runs@)[0])),
            ]
            &&& awaited ==> bad.panel.history_runs == p.history_runs && bad.effects == seq![
                EffectView::ShowError(NoticeView::History(error@)),
            ]
        }),
{
    law_sorting_keeps_the_items(runs@);
    assert(sorted(runs@).len() == runs@.len()) by {
        assert(sorted(runs@).to_multiset().len() == sorted(runs@).len()) by {
            sorted(runs@).to_multiset_ensures();
        }
        assert(runs@.to_multiset().len() == runs@.len()) by {
            runs@.to_multiset_ensures();
        }
    }
}

/// Recovery points are taken where they are those of the job of the history or of the failover. The
/// snapshot that was chosen stays chosen as long as it can be recovered; otherwise the newest one is.
pub proof fn law_awaited_points_are_taken(
    p: PanelView,
    id: String,
    points: Vec<OffsiteRecoveryPoint>,
    error: Error,
    loading: bool,
)
    ensures
        ({
            let good = updated(p, Msg::RecoveryPointsLoaded(id, Ok(points)), loading);
            let bad = updated(p, Msg::RecoveryPointsLoaded(id, Err(error)), loading);
            let awaited = p.history_job_id == Some(id@) || p.failover_job_id == Some(id@);
            let listed = sorted(points@);
            let kept = exists|i: int|
                0 <= i < listed.len() && (#[trigger] listed[i]).snapshot@
                    == p.failover_snapshot_input;
            &&& !awaited ==> good.panel == p && good.effects.len() == 0 && bad.panel == p
                && bad.effects.len() == 0
            &&& awaited ==> !good.panel.recovery_points_loading && !bad.panel.recovery_points_loading
            &&& awaited ==> good.panel.recovery_points == listed && good.effects.len() == 0
                && good.panel.recovery_view == shown_points(
                p.recovery_filters,
                listed,
                listed.len() as int,
            )
            &&& awaited && kept ==> good.panel.failover_snapshot_input == p.failover_snapshot_input
            &&& awaited && !kept && listed.len() > 0 ==> good.panel.failover_snapshot_input
                == listed[0].snapshot@
            &&& awaited && listed.len() == 0 ==> good.panel.failover_snapshot_input == ""@
            &&& awaited ==> bad.panel.recovery_points == p.recovery_points && bad.effects == seq![
                EffectView::ShowError(NoticeView::RecoveryPoints(error@)),
            ]
        }),
{
}

/// A failover is prepared for a job that is there: its points are asked for, and the form proposes an
/// ID 400 above the guest's, as far as there is one, and the guest's ID with `-dr` as its name.
pub proof fn law_failover_is_proposed(p: PanelView, id: Seq<char>, k: int)
    requires
        0 <= k < p.jobs.len(),
        p.jobs[k].job.id@ == id,
        forall|i: int| 0 <= i < k ==> (#[trigger] p.jobs[i]).job.id@ != id,
    ensures
        ({
            let turn = p.load_failover(id);
            let vmid = p.jobs[k].job.vmid;
            &&& turn.effects == seq![EffectView::FetchRecoveryPoints(id)]
            &&& turn.panel.failover_job_id == Some(id)
            &&& turn.panel.recovery_points_loading && turn.panel.recovery_points.len() == 0
                && turn.panel.recovery_view.len() == 0
            &&& vmid + 400 <= u32::MAX ==> turn.panel.failover_vmid_input == decimal(
                (vmid + 400) as nat,
            )
            &&& vmid + 400 > u32::MAX ==> turn.panel.failover_vmid_input == decimal(u32::MAX as nat)
            &&& turn.panel.failover_name_input == "vm"@ + decimal(vmid as nat) + "-dr"@
            &&& turn.panel.failover_snapshot_input == ""@
            &&& !turn.panel.failover_start_guest && !turn.panel.failover_running
            &&& turn.panel.failover_last_task is None
        }),
{
    law_jobs_are_known_by_their_id(p.jobs, id, k);
}

/// Nothing is prepared for a job that is not there.
pub proof fn law_no_failover_of_unknown_jobs(p: PanelView, id: Seq<char>)
    requires
        forall|i: int| 0 <= i < p.jobs.len() ==> (#[trigger] p.jobs[i]).job.id@ != id,
    ensures
        p.load_failover(id).panel == p,
        p.load_failover(id).effects.len() == 0,
{
    law_jobs_are_known_by_their_id(p.jobs, id, 0);
}

/// What a failover still lacks is told, the first lack first: the job, the snapshot, one that can
/// still be recovered, an ID that is a number, and one above zero. Where nothing is lacking, it is for
/// that job, snapshot and ID, with the name that was given, if one was.
pub proof fn law_failover_needs_its_form(p: PanelView, start_guest: bool)
    ensures
        ({
            let answer = p.failover_action(start_guest);
            let job = p.failover_job_id is Some && exists|i: int|
                0 <= i < p.jobs.len() && (#[trigger] p.jobs[i]).job.id@ == p.failover_job_id->0;
            let snapshot = trimmed(p.failover_snapshot_input);
            let there = exists|i: int|
                0 <= i < p.recovery_points.len() && (#[trigger] p.recovery_points[i]).snapshot@
                    == snapshot;
            let vmid = parsed(trimmed(p.failover_vmid_input), u32::MAX as nat);
            let name = trimmed(p.failover_name_input);
            &&& !job ==> answer == Err::<(Seq<char>, FailoverRequestView), Seq<char>>(
                "No replication job selected"@,
            )
            &&& job && snapshot.len() == 0 ==> answer == Err::<
                (Seq<char>, FailoverRequestView),
                Seq<char>,
            >("No recovery snapshot selected"@)
            &&& job && snapshot.len() > 0 && !there ==> answer == Err::<
                (Seq<char>, FailoverRequestView),
                Seq<char>,
            >("Selected recovery snapshot is no longer available"@)
            &&& job && snapshot.len() > 0 && there && vmid is None ==> answer == Err::<
                (Seq<char>, FailoverRequestView),
                Seq<char>,
            >("Recovery VMID must be a valid number"@)
            &&& job && snapshot.len() > 0 && there && vmid == Some(0nat) ==> answer == Err::<
                (Seq<char>, FailoverRequestView),
                Seq<char>,
            >("Recovery VMID must be greater than zero"@)
            &&& job && snapshot.len() > 0 && there && vmid is Some && vmid->0 > 0 ==> (
            answer matches Ok(action) && action.0 == p.failover_job_id->0 && action.1.snapshot
                == snapshot && action.1.recovery_vmid == vmid->0 && action.1.start_guest
                == start_guest && (name.len() == 0 ==> action.1.recovered_name is None) && (
            name.len() > 0 ==> action.1.recovered_name == Some(name)))
        }),
{
    if let Some(id) = p.failover_job_id {
        law_jobs_are_known_by_their_id(p.jobs, id, 0);
    }
}

/// A failover that is asked for is handed on as it stands, or told as not possible; one that is
/// triggered is started and waited for; and when it was started, or could not be, the panel goes back
/// to the failover of its job and reads the jobs anew.
pub proof fn law_failover_is_handed_on(
    p: PanelView,
    id: String,
    request: OffsiteFailoverRequest,
    start_guest: bool,
    upid: String,
    error: Error,
    loading: bool,
)
    ensures
        ({
            let asked = updated(p, Msg::RequestFailover(start_guest), loading);
            let started = updated(p, Msg::TriggerFailover(id, request), loading);
            let good = updated(p, Msg::FailoverFinished(Ok(upid)), loading);
            let bad = updated(p, Msg::FailoverFinished(Err(error)), loading);
            &&& asked.panel == p
            &&& p.failover_action(start_guest) matches Ok(action) ==> asked.effects == seq![
                EffectView::SendTriggerFailover(action.0, action.1),
            ]
            &&& p.failover_action(start_guest) matches Err(why) ==> asked.effects == seq![
                EffectView::ShowError(NoticeView::Failover(why)),
            ]
            &&& started.panel == (PanelView { failover_running: true, ..p })
            &&& started.effects == seq![EffectView::PostFailover(id@, request@)]
            &&& !good.panel.failover_running && !bad.panel.failover_running
            &&& good.panel.failover_last_task == Some(upid@)
            &&& bad.panel.failover_last_task == p.failover_last_task
            &&& good.effects[0] == EffectView::ShowTaskProgress(upid@)
            &&& bad.effects[0] == EffectView::ShowError(NoticeView::Failover(error@))
            &&& good.effects.last() == EffectView::Reload && bad.effects.last()
                == EffectView::Reload
            &&& p.failover_job_id matches Some(job) ==> good.effects.len() == 3 && good.effects[1]
                == EffectView::SendOpenFailover(job) && bad.effects[1]
                == EffectView::SendOpenFailover(job)
            &&& p.failover_job_id is None ==> good.effects.len() == 2 && bad.effects.len() == 2
        }),
{
}

/// The history and the failover of a job that is there are opened on their own tab: it is selected, or
/// where it is open already, what it shows is read. Of a job that is not there nothing is opened.
pub proof fn law_tab_of_a_job_is_opened(p: PanelView, id: String, loading: bool)
    ensures
        ({
            let there = exists|i: int|
                0 <= i < p.jobs.len() && (#[trigger] p.jobs[i]).job.id@ == id@;
            let history = updated(p, Msg::OpenHistory(id), loading);
            let failover = updated(p, Msg::OpenFailover(id), loading);
            &&& !there ==> history.panel == p && history.effects.len() == 0 && failover.panel == p
                && failover.effects.len() == 0
            &&& there && p.main_tab_selection != Some("metrics"@) ==> history.panel == (PanelView {
                history_job_id: Some(id@),
                main_tab_selection: Some("metrics"@),
                ..p
            }) && history.effects == seq![EffectView::SelectTab("metrics"@)]
            &&& there && p.main_tab_selection == Some("metrics"@) ==> history.effects.len() == 2
                && history.effects[0] == EffectView::FetchHistory(
                id@,
                history.panel.history_requested_limit,
            ) && history.effects[1] == EffectView::FetchRecoveryPoints(id@)
                && history.panel.history_job_id == Some(id@)
            &&& there && p.main_tab_selection != Some("failover"@) ==> failover.panel
                == (PanelView {
                failover_job_id: Some(id@),
                main_tab_selection: Some("failover"@),
                ..p
            }) && failover.effects == seq![EffectView::SelectTab("failover"@)]
            &&& there && p.main_tab_selection == Some("failover"@) ==> failover.effects == seq![
                EffectView::FetchRecoveryPoints(id@),
            ] && failover.panel.failover_job_id == Some(id@)
        }),
{
    lemma_tabs_differ();
    law_jobs_are_known_by_their_id(p.jobs, id@, 0);
}

/// The picker opens with all jobs and with the job of its tab selected; what is picked is handed to
/// that tab, and the picker is closed.
pub proof fn law_picker_is_for_its_tab(p: PanelView, loading: bool)
    ensures
        ({
            let history = updated(p, Msg::OpenHistoryJobPicker, loading);
            let failover = updated(p, Msg::OpenFailoverJobPicker, loading);
            let run = updated(p, Msg::OpenRunNowJobPicker, loading);
            &&& history.panel.job_picker_view == p.jobs && failover.panel.job_picker_view == p.jobs
                && run.panel.job_picker_view == p.jobs
            &&& history.panel.job_picker_filter_text == ""@
            &&& p.history_job() matches Some(id) ==> history.panel.job_picker_selection == Some(id)
                && history.effects == seq![
                EffectView::SelectPickerJob(id),
                EffectView::ChangeView(Some(ViewState::PickHistoryJob)),
            ]
            &&& p.failover_job() matches Some(id) ==> failover.panel.job_picker_selection == Some(id)
                && failover.effects == seq![
                EffectView::SelectPickerJob(id),
                EffectView::ChangeView(Some(ViewState::PickFailoverJob)),
            ]
            &&& p.run_job() matches Some(id) ==> run.panel.job_picker_selection == Some(id)
                && run.effects == seq![
                EffectView::SelectPickerJob(id),
                EffectView::ChangeView(Some(ViewState::PickRunNowJob)),
            ]
            &&& p.history_job() is None ==> history.effects == seq![
                EffectView::ChangeView(Some(ViewState::PickHistoryJob)),
            ]
            &&& p.job_picker_selection matches Some(id) ==> updated(
                p,
                Msg::ApplyHistoryJobPicker,
                loading,
            ).effects == seq![EffectView::SendSelectHistoryJob(id), EffectView::ChangeView(None)]
                && updated(p, Msg::ApplyFailoverJobPicker, loading).effects == seq![
                EffectView::SendSelectFailoverJob(id),
                EffectView::ChangeView(None),
            ]
            &&& p.job_picker_selection is None ==> updated(
                p,
                Msg::ApplyHistoryJobPicker,
                loading,
            ).effects == seq![EffectView::ChangeView(None)] && updated(
                p,
                Msg::ApplyFailoverJobPicker,
                loading,
            ).effects == seq![EffectView::ChangeView(None)]
            &&& updated(p, Msg::CloseJobPicker, loading) == (Turn {
                panel: p,
                effects: seq![EffectView::ChangeView(None)],
            })
        }),
{
    law_empty_filter_shows_all_jobs(p.jobs);
}

/// A job that is chosen for a tab is that tab's job from then on; a blank choice leaves the choice of
/// the table as it is, and takes back that of the history or of the failover. On its own tab the
/// choice is read at once.
pub proof fn law_chosen_job_is_the_tab_s_job(p: PanelView, value: String, loading: bool)
    ensures
        ({
            let word = trimmed(value@);
            let table = updated(p, Msg::JobsJobChanged(value), loading);
            let history = updated(p, Msg::SelectHistoryJob(value), loading);
            let failover = updated(p, Msg::SelectFailoverJob(value), loading);
            &&& word.len() > 0 ==> table.panel == (PanelView { selection: Some(word), ..p })
                && table.effects == seq![EffectView::SelectJob(word)]
            &&& word.len() == 0 ==> table.panel == p && table.effects.len() == 0
            &&& word.len() > 0 ==> history.panel.history_job_id == Some(word)
            &&& word.len() > 0 && p.main_tab_selection == Some("metrics"@) ==> history.effects.len()
                == 2 && history.effects[0] == EffectView::FetchHistory(
                word,
                history.panel.history_requested_limit,
            ) && history.effects[1] == EffectView::FetchRecoveryPoints(word)
            &&& p.main_tab_selection != Some("metrics"@) ==> history.effects.len() == 0
                && history.panel == (PanelView {
                history_job_id: if word.len() > 0 {
                    Some(word)
                } else {
                    None
                },
                ..p
            })
            &&& p.main_tab_selection != Some("failover"@) ==> failover.effects.len() == 0
                && failover.panel == (PanelView {
                failover_job_id: if word.len() > 0 {
                    Some(word)
                } else {
                    None
                },
                ..p
            })
            &&& word.len() > 0 && p.main_tab_selection == Some("failover"@) && has_job(p.jobs, word)
                ==> failover.effects == seq![EffectView::FetchRecoveryPoints(word)]
        }),
{
    lemma_tabs_differ();
}

/// The number of runs that is chosen counts for the history's job where the history is open: so many
/// are asked for, and the recovery points are left alone. Elsewhere the choice is passed over.
pub proof fn law_chosen_rows_are_asked_for(p: PanelView, value: String, loading: bool)
    ensures
        ({
            let turn = updated(p, Msg::HistoryRowsChanged(value), loading);
            let open = p.main_tab_selection == Some("metrics"@);
            &&& !open || p.history_job() is None ==> turn.panel == p && turn.effects.len() == 0
            &&& open ==> (p.history_job() matches Some(id) ==> turn.effects.len() == 1
                && turn.effects[0] == EffectView::FetchHistory(
                id,
                turn.panel.history_requested_limit,
            ) && turn.panel.history_rows_choice == rows_choice_of(p.configured_limit(id), value@)
                && turn.panel.history_loading && turn.panel.recovery_points == p.recovery_points
                && turn.panel.history_requested_limit >= 1)
        }),
{
    lemma_tabs_differ();
}

/// A tab that is opened is filled: the history and the failover are read for their job, and on the
/// tab of the jobs the first job is selected where none is.
pub proof fn law_opened_tab_is_filled(p: PanelView, loading: bool)
    ensures
        ({
            let turn = updated(p, Msg::MainTabChanged, loading);
            let jobs = p.main_tab_selection is None || p.main_tab_selection == Some("jobs"@);
            &&& jobs && p.selection is Some ==> turn.panel == p && turn.effects.len() == 0
            &&& jobs && p.selection is None && p.jobs.len() > 0 ==> turn.panel == (PanelView {
                selection: Some(p.jobs[0].job.id@),
                ..p
            }) && turn.effects == seq![EffectView::SelectJob(p.jobs[0].job.id@)]
            &&& p.main_tab_selection == Some("metrics"@) ==> (p.history_job() matches Some(id)
                ==> turn.panel.history_job_id == Some(id) && turn.effects == seq![
                EffectView::FetchHistory(id, turn.panel.history_requested_limit),
                EffectView::FetchRecoveryPoints(id),
            ])
            &&& p.main_tab_selection == Some("failover"@) ==> (p.failover_job() matches Some(id)
                ==> has_job(p.jobs, id) ==> turn.panel.failover_job_id == Some(id) && turn.effects
                == seq![EffectView::FetchRecoveryPoints(id)])
        }),
{
    lemma_tabs_differ();
}

/// When the jobs were read, what stands on a job that is still there stays: the selection, the job of
/// the history with its runs, and the job of the failover. The table and the picker show the new jobs.
pub proof fn law_loaded_jobs_keep_what_is_there(
    p: PanelView,
    jobs: Seq<OffsiteReplicationJobStatus>,
)
    requires
        p.selection is Some,
        has_job(jobs, p.selection->0),
        p.main_tab_selection is None,
    ensures
        ({
            let turn = p.jobs_loaded(jobs);
            let q = turn.panel;
            &&& turn.effects.len() == 0
            &&& q.jobs == jobs
            &&& q.selection == p.selection
            &&& q.jobs_view == shown_jobs(jobs, p.jobs_filter_text)
            &&& q.job_picker_view == shown_jobs(jobs, p.job_picker_filter_text)
            &&& p.history_job_id is Some && has_job(jobs, p.history_job_id->0) ==> q.history_job_id
                == p.history_job_id && q.history_runs == p.history_runs
            &&& p.history_job_id is Some && !has_job(jobs, p.history_job_id->0) ==> q.history_job_id
                == p.selection && q.history_runs.len() == 0
            &&& p.history_job_id is None ==> q.history_job_id == p.selection
            &&& p.failover_job_id is Some && has_job(jobs, p.failover_job_id->0)
                ==> q.failover_job_id == p.failover_job_id && q.recovery_points == p.recovery_points
            &&& p.failover_job_id is Some && !has_job(jobs, p.failover_job_id->0)
                ==> q.failover_job_id == p.selection && q.recovery_points.len() == 0
            &&& p.failover_job_id is None ==> q.failover_job_id == p.selection
        }),
{
    lemma_tabs_differ();
    assert(p.jobs_loaded(jobs).effects =~= seq![]);
}

/// When the jobs were read and none was selected, or the selected one is gone, the first is selected.
pub proof fn law_first_job_is_selected(p: PanelView, jobs: Seq<OffsiteReplicationJobStatus>)
    requires
        p.selection is None || !has_job(jobs, p.selection->0),
        jobs.len() > 0,
        p.main_tab_selection is None,
    ensures
        p.jobs_loaded(jobs).panel.selection == Some(jobs[0].job.id@),
        p.jobs_loaded(jobs).effects == seq![EffectView::SelectJob(jobs[0].job.id@)],
{
    lemma_tabs_differ();
    lemma_first_job_is_known(jobs);
    assert(p.jobs_loaded(jobs).effects =~= seq![EffectView::SelectJob(jobs[0].job.id@)]);
}

/// Something is going on while a run or a failover is being started, or the history or the recovery
/// points are being read.
pub proof fn law_busy_while_something_is_awaited(p: PanelView, loading: bool)
    ensures
        ({
            let awaited = loading || p.run_now_submitting || p.failover_running || p.history_loading
                || p.recovery_points_loading;
            let turn = updated(p, Msg::AutoRefreshTick, loading);
            &&& turn.panel == p
            &&& awaited ==> turn.effects == seq![EffectView::ScheduleRefresh]
            &&& !awaited ==> turn.effects == seq![EffectView::Reload, EffectView::ScheduleRefresh]
            &&& updated(p, Msg::Reload, loading) == (Turn {
                panel: p,
                effects: seq![EffectView::ChangeView(None), EffectView::Reload],
            })
            &&& updated(p, Msg::ScheduleAutoRefresh, loading) == (Turn {
                panel: p,
                effects: seq![EffectView::ScheduleRefresh],
            })
        }),
{
}

/// Every message is followed by a new drawing, but for an answer that nobody waits for.
pub proof fn law_drawn_anew_after_awaited_answers(
    p: PanelView,
    id: String,
    limit: u64,
    runs: Result<Vec<OffsiteReplicationRun>, Error>,
    points: Result<Vec<OffsiteRecoveryPoint>, Error>,
)
    ensures
        redraws(p, Msg::HistoryLoaded(id, limit, runs)) <==> p.history_job_id == Some(id@)
            && p.history_requested_limit == limit,
        redraws(p, Msg::RecoveryPointsLoaded(id, points)) <==> p.history_job_id == Some(id@)
            || p.failover_job_id == Some(id@),
        redraws(p, Msg::Reload),
        redraws(p, Msg::AutoRefreshTick),
{
}

} // verus!
