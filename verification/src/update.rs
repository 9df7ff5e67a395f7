//! What the panel does about each message.
use crate::display::{
    history_run_key, is_recoverable_snapshot, normalized_history_rows_choice_for_limit,
    rows_choice_of, run_key_of, snapshot_recoverable, HistoryFilters, HistoryFiltersView,
    RecoveryFilters, RecoveryFiltersView,
};
use crate::display::{max_of, no_history_filters, no_recovery_filters};
use crate::number::{decimal, parse_unsigned, parsed, to_decimal};
use crate::order::{sort_ranked, sorted};
use crate::panel::{
    after, effects_view, find_record, first_job, first_of, has_job, join_effects, known_job,
    names_no_job, names_none, no_effects, one_effect, quietly, record_at, two_effects, Effect,
    EffectView, FailoverAction, FailoverRequestView, Notice, NoticeView,
    OffsiteReplicationPanelComp, PanelView, RunNowFeedback, RunNowFeedbackView, Turn, ViewState,
    FAILOVER_VMID_OFFSET, TAB_FAILOVER, TAB_JOBS, TAB_METRICS,
};
use crate::text::{fold, is_blank, lowered, opt_text, same, trim, trimmed};
use crate::types::{
    text_outcome, Error, OffsiteFailoverRequest, OffsiteRecoveryPoint,
    OffsiteReplicationJobStatus, OffsiteReplicationRun,
};
use vstd::prelude::*;

verus! {

// ---------------------------------------------------------------------------------------------
// Loading
// ---------------------------------------------------------------------------------------------

impl PanelView {
    /// No recovery points are known, and they are being read.
    pub open spec fn awaiting_points(self) -> PanelView {
        PanelView {
            recovery_points_loading: true,
            recovery_points: seq![],
            recovery_view: seq![],
            ..self
        }
    }

    /// The history of the job is read, and its recovery points where they are to be refreshed.
    pub open spec fn load_history(self, id: Seq<char>, limit: int, refresh: bool) -> Turn {
        let asked = max_of(limit, 1);
        let waiting = PanelView {
            history_job_id: Some(id),
            history_requested_limit: asked,
            history_loading: true,
            ..self
        };
        if refresh {
            Turn {
                panel: waiting.awaiting_points(),
                effects: seq![
                    EffectView::FetchHistory(id, asked),
                    EffectView::FetchRecoveryPoints(id),
                ],
            }
        } else {
            Turn { panel: waiting, effects: seq![EffectView::FetchHistory(id, asked)] }
        }
    }

    /// The failover of the job is prepared, where the job is there: its recovery points are read,
    /// and the form holds what is proposed for the job.
    pub open spec fn load_failover(self, id: Seq<char>) -> Turn {
        match record_at(self.jobs, id) {
            Some(i) => Turn {
                panel: PanelView {
                    failover_job_id: Some(id),
                    failover_running: false,
                    failover_last_task: None,
                    ..self.with_failover_defaults(self.jobs[i].job.vmid)
                }.awaiting_points(),
                effects: seq![EffectView::FetchRecoveryPoints(id)],
            },
            None => quietly(self),
        }
    }

    /// The form of a failover holds what is proposed for the guest.
    pub open spec fn with_failover_defaults(self, vmid: u32) -> PanelView {
        PanelView {
            failover_vmid_input: decimal(proposed_vmid(vmid)),
            failover_name_input: "vm"@ + decimal(vmid as nat) + "-dr"@,
            failover_snapshot_input: ""@,
            failover_start_guest: false,
            ..self
        }
    }

    /// The history of the job of the history is read, if there is such a job.
    pub open spec fn load_metrics_tab(self) -> Turn {
        match self.history_job() {
            Some(id) => self.load_history(id, self.requested_limit(id), true),
            None => quietly(self),
        }
    }

    /// The failover of the job of the failover is prepared, if there is such a job.
    pub open spec fn load_failover_tab(self) -> Turn {
        match self.failover_job() {
            Some(id) => self.load_failover(id),
            None => quietly(self),
        }
    }

    /// A job is selected in the table, if there is one.
    pub open spec fn select_first(self) -> Turn {
        match first_job(self.jobs) {
            Some(id) => Turn {
                panel: PanelView { selection: Some(id), ..self },
                effects: seq![EffectView::SelectJob(id)],
            },
            None => quietly(self),
        }
    }

    /// A job is selected in the table, unless one is, or there is none.
    pub open spec fn ensure_selection(self) -> Turn {
        if self.selection is None {
            self.select_first()
        } else {
            quietly(self)
        }
    }

    /// A selected job that is gone gives way to the first one.
    pub open spec fn replace_selection(self) -> Turn {
        if names_no_job(self.jobs, self.selection) {
            self.select_first()
        } else {
            quietly(self)
        }
    }

    /// Nothing is kept of jobs that are gone.
    pub open spec fn forget_gone(self) -> PanelView {
        let p = if names_no_job(self.jobs, self.history_job_id) {
            PanelView { history_job_id: None, history_runs: seq![], ..self }
        } else {
            self
        };
        if names_no_job(p.jobs, p.failover_job_id) {
            PanelView { failover_job_id: None, recovery_points: seq![], ..p }
        } else {
            p
        }
    }

    /// The jobs of the history and of the failover are the default one, unless they are set.
    pub open spec fn with_default_jobs(self) -> PanelView {
        PanelView {
            history_job_id: first_of(self.history_job_id, self.default_job()),
            failover_job_id: first_of(self.failover_job_id, self.default_job()),
            ..self
        }
    }

    /// What the open tab shows is read.
    pub open spec fn load_tab(self) -> Turn {
        if self.tab() == TAB_METRICS@ {
            self.load_metrics_tab()
        } else if self.tab() == TAB_FAILOVER@ {
            self.load_failover_tab()
        } else {
            quietly(self)
        }
    }

    /// The jobs were read, and what the panel keeps is brought in line with them.
    pub open spec fn settle_jobs(self, jobs: Seq<OffsiteReplicationJobStatus>) -> Turn {
        let first = PanelView { jobs, ..self }.ensure_selection();
        let second = first.panel.replace_selection();
        Turn {
            panel: second.panel.forget_gone().with_jobs_view().with_picker_view(),
            effects: first.effects + second.effects,
        }
    }

    /// The jobs were read.
    pub open spec fn jobs_loaded(self, jobs: Seq<OffsiteReplicationJobStatus>) -> Turn {
        let settled = self.settle_jobs(jobs);
        after(settled.effects, settled.panel.with_default_jobs().load_tab())
    }

    /// Another tab was opened.
    pub open spec fn tab_changed(self) -> Turn {
        if self.tab() == TAB_JOBS@ {
            self.ensure_selection()
        } else {
            self.load_tab()
        }
    }
}

/// The ID that is proposed for a recovered guest.
pub open spec fn proposed_vmid(vmid: u32) -> nat {
    if vmid + FAILOVER_VMID_OFFSET > u32::MAX {
        u32::MAX as nat
    } else {
        (vmid + FAILOVER_VMID_OFFSET) as nat
    }
}

impl OffsiteReplicationPanelComp {
    /// The history of the job is read.
    pub fn load_history_for_job_id(
        &mut self,
        id: String,
        limit: u64,
        refresh_recovery_points: bool,
    ) -> (effects: Vec<Effect>)
        ensures
            final(self)@ == old(self)@.load_history(
                id@,
                limit as int,
                refresh_recovery_points,
            ).panel,
            effects_view(effects@) == old(self)@.load_history(
                id@,
                limit as int,
                refresh_recovery_points,
            ).effects,
    {
        let asked: u64 = if limit < 1 {
            1
        } else {
            limit
        };
        self.history_job_id = Some(id.clone());
        self.history_requested_limit = asked;
        self.history_loading = true;
        if refresh_recovery_points {
            self.recovery_points_loading = true;
            self.recovery_points = Vec::new();
            self.recovery_view = Vec::new();
            two_effects(Effect::FetchHistory(id.clone(), asked), Effect::FetchRecoveryPoints(id))
        } else {
            one_effect(Effect::FetchHistory(id, asked))
        }
    }

    /// The form of a failover holds what is proposed for the guest.
    pub fn set_failover_defaults_for_job(&mut self, vmid: u32)
        ensures
            final(self)@ == old(self)@.with_failover_defaults(vmid),
    {
        let proposed: u32 = match vmid.checked_add(FAILOVER_VMID_OFFSET) {
            Some(n) => n,
            None => u32::MAX,
        };
        self.failover_vmid_input = to_decimal(proposed as u64);
        let mut name = "vm".to_owned();
        name.append(to_decimal(vmid as u64).as_str());
        name.append("-dr");
        self.failover_name_input = name;
        self.failover_snapshot_input = "".to_owned();
        self.failover_start_guest = false;
    }

    /// The failover of the job is prepared.
    pub fn load_failover_for_job_id(&mut self, id: String) -> (effects: Vec<Effect>)
        ensures
            final(self)@ == old(self)@.load_failover(id@).panel,
            effects_view(effects@) == old(self)@.load_failover(id@).effects,
    {
        match find_record(&self.jobs, id.as_str()) {
            Some(i) => {
                let vmid: u32 = self.jobs[i].job.vmid;
                self.failover_job_id = Some(id.clone());
                self.set_failover_defaults_for_job(vmid);
                self.failover_running = false;
                self.failover_last_task = None;
                self.recovery_points_loading = true;
                self.recovery_points = Vec::new();
                self.recovery_view = Vec::new();
                one_effect(Effect::FetchRecoveryPoints(id))
            },
            None => no_effects(),
        }
    }

    pub(crate) fn load_metrics_tab(&mut self) -> (effects: Vec<Effect>)
        ensures
            final(self)@ == old(self)@.load_metrics_tab().panel,
            effects_view(effects@) == old(self)@.load_metrics_tab().effects,
    {
        match self.metrics_job_id() {
            Some(id) => {
                let limit: u64 = self.requested_history_limit_for_job(id.as_str());
                self.load_history_for_job_id(id, limit, true)
            },
            None => no_effects(),
        }
    }

    pub(crate) fn load_failover_tab(&mut self) -> (effects: Vec<Effect>)
        ensures
            final(self)@ == old(self)@.load_failover_tab().panel,
            effects_view(effects@) == old(self)@.load_failover_tab().effects,
    {
        match self.recovery_job_id() {
            Some(id) => self.load_failover_for_job_id(id),
            None => no_effects(),
        }
    }

    pub(crate) fn load_tab(&mut self) -> (effects: Vec<Effect>)
        ensures
            final(self)@ == old(self)@.load_tab().panel,
            effects_view(effects@) == old(self)@.load_tab().effects,
    {
        if self.on_tab(TAB_METRICS) {
            self.load_metrics_tab()
        } else if self.on_tab(TAB_FAILOVER) {
            self.load_failover_tab()
        } else {
            no_effects()
        }
    }

    pub(crate) fn select_first(&mut self) -> (effects: Vec<Effect>)
        ensures
            final(self)@ == old(self)@.select_first().panel,
            effects_view(effects@) == old(self)@.select_first().effects,
    {
        if self.jobs.len() == 0 {
            return no_effects();
        }
        let id = self.jobs[0].job.id.clone();
        self.selection = Some(id.clone());
        one_effect(Effect::SelectJob(id))
    }

    /// A job is selected in the table, unless one is.
    pub fn ensure_table_selection(&mut self) -> (effects: Vec<Effect>)
        ensures
            final(self)@ == old(self)@.ensure_selection().panel,
            effects_view(effects@) == old(self)@.ensure_selection().effects,
    {
        if self.selection.is_none() {
            self.select_first()
        } else {
            no_effects()
        }
    }

    /// Nothing is kept of jobs that are gone.
    pub fn normalize_selected_job_ids(&mut self) -> (effects: Vec<Effect>)
        ensures
            final(self)@ == old(self)@.replace_selection().panel.forget_gone(),
            effects_view(effects@) == old(self)@.replace_selection().effects,
    {
        let effects = if names_none(&self.jobs, &self.selection) {
            self.select_first()
        } else {
            no_effects()
        };
        if names_none(&self.jobs, &self.history_job_id) {
            self.history_job_id = None;
            self.history_runs = Vec::new();
        }
        if names_none(&self.jobs, &self.failover_job_id) {
            self.failover_job_id = None;
            self.recovery_points = Vec::new();
        }
        effects
    }

    pub(crate) fn settle_jobs(&mut self, data: Vec<OffsiteReplicationJobStatus>) -> (effects: Vec<Effect>)
        ensures
            final(self)@ == old(self)@.settle_jobs(data@).panel,
            effects_view(effects@) == old(self)@.settle_jobs(data@).effects,
    {
        self.jobs = data;
        assert(self@ == PanelView { jobs: data@, ..old(self)@ });
        let first = self.ensure_table_selection();
        let second = self.normalize_selected_job_ids();
        self.sync_jobs_view_store();
        self.sync_job_picker_store();
        join_effects(first, second)
    }

    pub(crate) fn fill_default_jobs(&mut self)
        ensures
            final(self)@ == old(self)@.with_default_jobs(),
    {
        if self.history_job_id.is_none() {
            self.history_job_id = self.default_job_id();
        }
        if self.failover_job_id.is_none() {
            self.failover_job_id = self.default_job_id();
        }
    }

    pub(crate) fn jobs_loaded(&mut self, data: Vec<OffsiteReplicationJobStatus>) -> (effects: Vec<Effect>)
        ensures
            final(self)@ == old(self)@.jobs_loaded(data@).panel,
            effects_view(effects@) == old(self)@.jobs_loaded(data@).effects,
    {
        let first = self.settle_jobs(data);
        self.fill_default_jobs();
        let second = self.load_tab();
        join_effects(first, second)
    }

    pub(crate) fn tab_changed(&mut self) -> (effects: Vec<Effect>)
        ensures
            final(self)@ == old(self)@.tab_changed().panel,
            effects_view(effects@) == old(self)@.tab_changed().effects,
    {
        if self.on_tab(TAB_JOBS) {
            self.ensure_table_selection()
        } else {
            self.load_tab()
        }
    }
}

// ---------------------------------------------------------------------------------------------
// Runs
// ---------------------------------------------------------------------------------------------

impl PanelView {
    /// A run of the job is started, if the job is there.
    pub open spec fn run_job_now(self, id: Seq<char>) -> Turn {
        if has_job(self.jobs, id) {
            Turn {
                panel: PanelView { run_now_submitting: true, run_now_feedback: None, ..self },
                effects: seq![EffectView::PostRunNow(id)],
            }
        } else {
            Turn { panel: self, effects: seq![EffectView::ShowError(NoticeView::JobGone)] }
        }
    }

    /// A run was started, or could not be.
    pub open spec fn run_started(self, id: Seq<char>, result: Result<Seq<char>, Seq<char>>) -> Turn {
        match result {
            Ok(upid) => Turn {
                panel: PanelView {
                    run_now_submitting: false,
                    run_now_last_task: Some(upid),
                    run_now_feedback: Some(RunNowFeedbackView { job_id: id, upid }),
                    ..self
                },
                effects: seq![EffectView::SendReload],
            },
            Err(error) => Turn {
                panel: PanelView { run_now_submitting: false, run_now_feedback: None, ..self },
                effects: seq![
                    EffectView::ShowError(NoticeView::RunFailed(id + ": "@ + error)),
                    EffectView::SendReload,
                ],
            },
        }
    }

    /// The history of a job is opened.
    pub open spec fn open_history(self, id: Seq<char>) -> Turn {
        let p = PanelView { history_job_id: Some(id), ..self };
        if !has_job(self.jobs, id) {
            quietly(self)
        } else if self.tab() == TAB_METRICS@ {
            p.load_history(id, p.requested_limit(id), true)
        } else {
            Turn {
                panel: PanelView { main_tab_selection: Some(TAB_METRICS@), ..p },
                effects: seq![EffectView::SelectTab(TAB_METRICS@)],
            }
        }
    }

    /// The failover of a job is opened.
    pub open spec fn open_failover(self, id: Seq<char>) -> Turn {
        let p = PanelView { failover_job_id: Some(id), ..self };
        if !has_job(self.jobs, id) {
            quietly(self)
        } else if self.tab() == TAB_FAILOVER@ {
            p.load_failover(id)
        } else {
            Turn {
                panel: PanelView { main_tab_selection: Some(TAB_FAILOVER@), ..p },
                effects: seq![EffectView::SelectTab(TAB_FAILOVER@)],
            }
        }
    }

    /// A history is what the panel waits for: that of its job, with as many runs as it asked for.
    pub open spec fn awaits_history(self, id: Seq<char>, limit: int) -> bool {
        self.history_job_id == Some(id) && self.history_requested_limit == limit
    }

    /// The history was read: the newest run comes first, and is selected.
    pub open spec fn with_history(self, runs: Seq<OffsiteReplicationRun>) -> Turn {
        let listed = sorted(runs);
        let p = PanelView {
            history_loading: false,
            history_runs: listed,
            ..self
        }.with_history_view();
        if listed.len() == 0 {
            quietly(p)
        } else {
            Turn {
                panel: PanelView { history_selection: Some(run_key_of(listed[0])), ..p },
                effects: seq![EffectView::SelectHistoryRun(run_key_of(listed[0]))],
            }
        }
    }

    /// A history was read, or could not be. One that is not waited for is left alone.
    pub open spec fn history_loaded(
        self,
        id: Seq<char>,
        limit: int,
        result: Result<Seq<OffsiteReplicationRun>, Seq<char>>,
    ) -> Turn {
        if !self.awaits_history(id, limit) {
            quietly(self)
        } else {
            match result {
                Ok(runs) => self.with_history(runs),
                Err(error) => Turn {
                    panel: PanelView { history_loading: false, ..self },
                    effects: seq![EffectView::ShowError(NoticeView::History(error))],
                },
            }
        }
    }

    /// Recovery points are what the panel waits for: those of the job of the history or of that of
    /// the failover.
    pub open spec fn awaits_points(self, id: Seq<char>) -> bool {
        self.history_job_id == Some(id) || self.failover_job_id == Some(id)
    }

    /// The snapshot to recover, when the recovery points have been read: it stays where it is one
    /// of them, and gives way to the newest of them else.
    pub open spec fn kept_snapshot(self, points: Seq<OffsiteRecoveryPoint>) -> Seq<char> {
        if is_recoverable_snapshot(points, self.failover_snapshot_input) {
            self.failover_snapshot_input
        } else if points.len() == 0 {
            ""@
        } else {
            points[0].snapshot@
        }
    }

    /// Recovery points were read, or could not be. Those that are not waited for are left alone.
    pub open spec fn points_loaded(
        self,
        id: Seq<char>,
        result: Result<Seq<OffsiteRecoveryPoint>, Seq<char>>,
    ) -> Turn {
        let p = PanelView { recovery_points_loading: false, ..self };
        if !self.awaits_points(id) {
            quietly(self)
        } else {
            match result {
                Ok(points) => quietly(
                    PanelView {
                        failover_snapshot_input: self.kept_snapshot(sorted(points)),
                        recovery_points: sorted(points),
                        ..p
                    }.with_recovery_view(),
                ),
                Err(error) => Turn {
                    panel: p,
                    effects: seq![EffectView::ShowError(NoticeView::RecoveryPoints(error))],
                },
            }
        }
    }
}

/// A result, said in texts.
pub open spec fn said<T>(r: Result<Vec<T>, Error>) -> Result<Seq<T>, Seq<char>> {
    match r {
        Ok(v) => Ok(v@),
        Err(e) => Err(e@),
    }
}

impl OffsiteReplicationPanelComp {
    pub(crate) fn run_job_now(&mut self, id: String) -> (effects: Vec<Effect>)
        ensures
            final(self)@ == old(self)@.run_job_now(id@).panel,
            effects_view(effects@) == old(self)@.run_job_now(id@).effects,
    {
        if known_job(&self.jobs, id.as_str()) {
            self.run_now_submitting = true;
            self.run_now_feedback = None;
            one_effect(Effect::PostRunNow(id))
        } else {
            one_effect(Effect::ShowError(Notice::JobGone))
        }
    }

    pub(crate) fn run_started(&mut self, id: String, result: Result<String, Error>) -> (effects: Vec<Effect>)
        ensures
            final(self)@ == old(self)@.run_started(id@, text_outcome(result)).panel,
            effects_view(effects@) == old(self)@.run_started(id@, text_outcome(result)).effects,
    {
        self.run_now_submitting = false;
        match result {
            Ok(upid) => {
                self.run_now_last_task = Some(upid.clone());
                self.run_now_feedback = Some(RunNowFeedback { job_id: id, upid });
                one_effect(Effect::SendReload)
            },
            Err(error) => {
                self.run_now_feedback = None;
                let mut text = id;
                text.append(": ");
                text.append(error.message.as_str());
                two_effects(Effect::ShowError(Notice::RunFailed(text)), Effect::SendReload)
            },
        }
    }

    pub(crate) fn open_history(&mut self, id: String) -> (effects: Vec<Effect>)
        ensures
            final(self)@ == old(self)@.open_history(id@).panel,
            effects_view(effects@) == old(self)@.open_history(id@).effects,
    {
        if !known_job(&self.jobs, id.as_str()) {
            return no_effects();
        }
        let here = self.on_tab(TAB_METRICS);
        self.history_job_id = Some(id.clone());
        assert(self@ == PanelView { history_job_id: Some(id@), ..old(self)@ });
        if here {
            let limit: u64 = self.requested_history_limit_for_job(id.as_str());
            self.load_history_for_job_id(id, limit, true)
        } else {
            self.main_tab_selection = Some(TAB_METRICS.to_owned());
            one_effect(Effect::SelectTab(TAB_METRICS.to_owned()))
        }
    }

    pub(crate) fn open_failover(&mut self, id: String) -> (effects: Vec<Effect>)
        ensures
            final(self)@ == old(self)@.open_failover(id@).panel,
            effects_view(effects@) == old(self)@.open_failover(id@).effects,
    {
        if !known_job(&self.jobs, id.as_str()) {
            return no_effects();
        }
        let here = self.on_tab(TAB_FAILOVER);
        self.failover_job_id = Some(id.clone());
        assert(self@ == PanelView { failover_job_id: Some(id@), ..old(self)@ });
        if here {
            self.load_failover_for_job_id(id)
        } else {
            self.main_tab_selection = Some(TAB_FAILOVER.to_owned());
            one_effect(Effect::SelectTab(TAB_FAILOVER.to_owned()))
        }
    }

    pub(crate) fn is_awaited_history(&self, id: &str, limit: u64) -> (r: bool)
        ensures
            r == self@.awaits_history(id@, limit as int),
    {
        match &self.history_job_id {
            Some(job) => same(job.as_str(), id) && self.history_requested_limit == limit,
            None => false,
        }
    }

    pub(crate) fn with_history(&mut self, runs: Vec<OffsiteReplicationRun>) -> (effects: Vec<Effect>)
        ensures
            final(self)@ == old(self)@.with_history(runs@).panel,
            effects_view(effects@) == old(self)@.with_history(runs@).effects,
    {
        self.history_loading = false;
        self.history_runs = sort_ranked(runs);
        assert(self@ == PanelView {
            history_loading: false,
            history_runs: sorted(runs@),
            ..old(self)@
        });
        self.sync_history_view_store();
        if self.history_runs.len() == 0 {
            return no_effects();
        }
        let key = history_run_key(&self.history_runs[0]);
        self.history_selection = Some(key.clone());
        one_effect(Effect::SelectHistoryRun(key))
    }

    pub(crate) fn history_loaded(
        &mut self,
        id: String,
        limit: u64,
        result: Result<Vec<OffsiteReplicationRun>, Error>,
    ) -> (effects: Vec<Effect>)
        ensures
            final(self)@ == old(self)@.history_loaded(id@, limit as int, said(result)).panel,
            effects_view(effects@) == old(self)@.history_loaded(
                id@,
                limit as int,
                said(result),
            ).effects,
    {
        if !self.is_awaited_history(id.as_str(), limit) {
            return no_effects();
        }
        match result {
            Ok(runs) => self.with_history(runs),
            Err(error) => {
                self.history_loading = false;
                one_effect(Effect::ShowError(Notice::History(error.message)))
            },
        }
    }

    pub(crate) fn is_awaited_job(&self, id: &str) -> (r: bool)
        ensures
            r == self@.awaits_points(id@),
    {
        let of_history = match &self.history_job_id {
            Some(job) => same(job.as_str(), id),
            None => false,
        };
        let of_failover = match &self.failover_job_id {
            Some(job) => same(job.as_str(), id),
            None => false,
        };
        of_history || of_failover
    }

    pub(crate) fn points_loaded(
        &mut self,
        id: String,
        result: Result<Vec<OffsiteRecoveryPoint>, Error>,
    ) -> (effects: Vec<Effect>)
        ensures
            final(self)@ == old(self)@.points_loaded(id@, said(result)).panel,
            effects_view(effects@) == old(self)@.points_loaded(id@, said(result)).effects,
    {
        if !self.is_awaited_job(id.as_str()) {
            return no_effects();
        }
        self.recovery_points_loading = false;
        match result {
            Ok(points) => {
                let listed = sort_ranked(points);
                if !snapshot_recoverable(&listed, self.failover_snapshot_input.as_str()) {
                    self.failover_snapshot_input = if listed.len() == 0 {
                        "".to_owned()
                    } else {
                        listed[0].snapshot.clone()
                    };
                }
                self.recovery_points = listed;
                assert(self@ == PanelView {
                    recovery_points_loading: false,
                    failover_snapshot_input: old(self)@.kept_snapshot(sorted(points@)),
                    recovery_points: sorted(points@),
                    ..old(self)@
                });
                self.sync_recovery_view_store();
                no_effects()
            },
            Err(error) => one_effect(Effect::ShowError(Notice::RecoveryPoints(error.message))),
        }
    }
}

// ---------------------------------------------------------------------------------------------
// Failover
// ---------------------------------------------------------------------------------------------

impl PanelView {
    /// The snapshot that is to be recovered, or why there is none.
    pub open spec fn recovery_snapshot(self) -> Result<Seq<char>, Seq<char>> {
        let snapshot = trimmed(self.failover_snapshot_input);
        if snapshot.len() == 0 {
            Err("No recovery snapshot selected"@)
        } else if !is_recoverable_snapshot(self.recovery_points, snapshot) {
            Err("Selected recovery snapshot is no longer available"@)
        } else {
            Ok(snapshot)
        }
    }

    /// The failover that the form asks for, or why there is none.
    pub open spec fn failover_action(self, start_guest: bool) -> Result<
        (Seq<char>, FailoverRequestView),
        Seq<char>,
    > {
        let name = trimmed(self.failover_name_input);
        if self.failover_job_id is None || names_no_job(self.jobs, self.failover_job_id) {
            Err("No replication job selected"@)
        } else {
            match self.recovery_snapshot() {
                Err(error) => Err(error),
                Ok(snapshot) => match parsed(trimmed(self.failover_vmid_input), u32::MAX as nat) {
                    None => Err("Recovery VMID must be a valid number"@),
                    Some(vmid) => if vmid == 0 {
                        Err("Recovery VMID must be greater than zero"@)
                    } else {
                        Ok(
                            (
                                self.failover_job_id.unwrap(),
                                FailoverRequestView {
                                    snapshot,
                                    recovery_vmid: vmid as u32,
                                    recovered_name: if name.len() == 0 {
                                        None
                                    } else {
                                        Some(name)
                                    },
                                    start_guest,
                                },
                            ),
                        )
                    },
                },
            }
        }
    }

    /// A failover was asked for.
    pub open spec fn failover_requested(self, start_guest: bool) -> Turn {
        match self.failover_action(start_guest) {
            Ok(action) => Turn {
                panel: self,
                effects: seq![EffectView::SendTriggerFailover(action.0, action.1)],
            },
            Err(error) => Turn {
                panel: self,
                effects: seq![EffectView::ShowError(NoticeView::Failover(error))],
            },
        }
    }

    /// A failover was started, or could not be.
    pub open spec fn failover_started(self, result: Result<Seq<char>, Seq<char>>) -> Turn {
        let back = match self.failover_job_id {
            Some(id) => seq![EffectView::SendOpenFailover(id), EffectView::Reload],
            None => seq![EffectView::Reload],
        };
        match result {
            Ok(upid) => Turn {
                panel: PanelView {
                    failover_running: false,
                    failover_last_task: Some(upid),
                    ..self
                },
                effects: seq![EffectView::ShowTaskProgress(upid)] + back,
            },
            Err(error) => Turn {
                panel: PanelView { failover_running: false, ..self },
                effects: seq![EffectView::ShowError(NoticeView::Failover(error))] + back,
            },
        }
    }
}

/// What a failover action asks for.
pub open spec fn action_outcome(r: Result<FailoverAction, Error>) -> Result<
    (Seq<char>, FailoverRequestView),
    Seq<char>,
> {
    match r {
        Ok(action) => Ok((action.job_id@, action.request@)),
        Err(e) => Err(e@),
    }
}

impl OffsiteReplicationPanelComp {
    /// The snapshot that is to be recovered.
    pub fn selected_recovery_snapshot(&self) -> (r: Result<String, Error>)
        ensures
            text_outcome(r) == self@.recovery_snapshot(),
    {
        let snapshot = trim(self.failover_snapshot_input.as_str());
        if snapshot.as_str().is_empty() {
            return Err(Error::new("No recovery snapshot selected"));
        }
        if !snapshot_recoverable(&self.recovery_points, snapshot.as_str()) {
            return Err(Error::new("Selected recovery snapshot is no longer available"));
        }
        Ok(snapshot)
    }

    /// The failover that the form asks for.
    pub fn failover_action_for_selection(&self, start_guest: bool) -> (r: Result<
        FailoverAction,
        Error,
    >)
        ensures
            action_outcome(r) == self@.failover_action(start_guest),
    {
        let job_id = match &self.failover_job_id {
            Some(id) if known_job(&self.jobs, id.as_str()) => id.clone(),
            _ => {
                return Err(Error::new("No replication job selected"));
            },
        };
        let snapshot = match self.selected_recovery_snapshot() {
            Ok(snapshot) => snapshot,
            Err(error) => {
                return Err(error);
            },
        };
        let vmid_text = trim(self.failover_vmid_input.as_str());
        let recovery_vmid: u32 = match parse_unsigned(vmid_text.as_str(), u32::MAX as u64) {
            Some(n) => n as u32,
            None => {
                return Err(Error::new("Recovery VMID must be a valid number"));
            },
        };
        if recovery_vmid == 0 {
            return Err(Error::new("Recovery VMID must be greater than zero"));
        }
        let name = trim(self.failover_name_input.as_str());
        let recovered_name = if name.as_str().is_empty() {
            None
        } else {
            Some(name)
        };
        Ok(
            FailoverAction {
                job_id,
                request: OffsiteFailoverRequest {
                    snapshot,
                    recovery_vmid,
                    recovered_name,
                    start_guest,
                },
            },
        )
    }

    pub(crate) fn failover_requested(&self, start_guest: bool) -> (effects: Vec<Effect>)
        ensures
            effects_view(effects@) == self@.failover_requested(start_guest).effects,
    {
        match self.failover_action_for_selection(start_guest) {
            Ok(action) => one_effect(Effect::SendTriggerFailover(action.job_id, action.request)),
            Err(error) => one_effect(Effect::ShowError(Notice::Failover(error.message))),
        }
    }

    pub(crate) fn failover_started(&mut self, result: Result<String, Error>) -> (effects: Vec<Effect>)
        ensures
            final(self)@ == old(self)@.failover_started(text_outcome(result)).panel,
            effects_view(effects@) == old(self)@.failover_started(text_outcome(result)).effects,
    {
        self.failover_running = false;
        let back = match &self.failover_job_id {
            Some(id) => two_effects(Effect::SendOpenFailover(id.clone()), Effect::Reload),
            None => one_effect(Effect::Reload),
        };
        match result {
            Ok(upid) => {
                self.failover_last_task = Some(upid.clone());
                join_effects(one_effect(Effect::ShowTaskProgress(upid)), back)
            },
            Err(error) => join_effects(
                one_effect(Effect::ShowError(Notice::Failover(error.message))),
                back,
            ),
        }
    }
}

// ---------------------------------------------------------------------------------------------
// Choices
// ---------------------------------------------------------------------------------------------

/// The text without the blanks around it, if anything is left.
pub open spec fn filled(s: Seq<char>) -> Option<Seq<char>> {
    if is_blank(s) {
        None
    } else {
        Some(trimmed(s))
    }
}

fn fill(s: &str) -> (r: Option<String>)
    ensures
        opt_text(r) == filled(s@),
{
    let text = trim(s);
    if text.as_str().is_empty() {
        None
    } else {
        Some(text)
    }
}

impl PanelView {
    /// The filters of the history are changed.
    pub open spec fn with_history_filters(self, filters: HistoryFiltersView) -> PanelView {
        PanelView { history_filters: filters, ..self }.with_history_view()
    }

    /// The filters of the recovery points are changed.
    pub open spec fn with_recovery_filters(self, filters: RecoveryFiltersView) -> PanelView {
        PanelView { recovery_filters: filters, ..self }.with_recovery_view()
    }

    /// A job was chosen for the table.
    pub open spec fn job_chosen(self, value: Seq<char>) -> Turn {
        match filled(value) {
            Some(id) => Turn {
                panel: PanelView { selection: Some(id), ..self },
                effects: seq![EffectView::SelectJob(id)],
            },
            None => quietly(self),
        }
    }

    /// It was chosen how many runs are shown; this counts on the tab of the history, where there is
    /// a job.
    pub open spec fn rows_chosen(self, value: Seq<char>) -> Turn {
        match self.history_job() {
            Some(id) if self.tab() == TAB_METRICS@ => {
                let p = PanelView {
                    history_rows_choice: rows_choice_of(self.configured_limit(id), value),
                    ..self
                };
                p.load_history(id, p.requested_limit(id), false)
            },
            _ => quietly(self),
        }
    }

    /// The job of the history was chosen.
    pub open spec fn history_job_chosen(self, value: Seq<char>) -> Turn {
        let p = PanelView { history_job_id: filled(value), ..self };
        if self.tab() == TAB_METRICS@ {
            p.load_metrics_tab()
        } else {
            quietly(p)
        }
    }

    /// The job of the failover was chosen.
    pub open spec fn failover_job_chosen(self, value: Seq<char>) -> Turn {
        let p = PanelView { failover_job_id: filled(value), ..self };
        if self.tab() == TAB_FAILOVER@ {
            p.load_failover_tab()
        } else {
            quietly(p)
        }
    }

    /// The picker is opened: all jobs are shown, and the given one is selected.
    pub open spec fn open_picker(self, id: Option<Seq<char>>, view: ViewState) -> Turn {
        let p = PanelView { job_picker_filter_text: ""@, ..self }.with_picker_view();
        match id {
            Some(id) => Turn {
                panel: PanelView { job_picker_selection: Some(id), ..p },
                effects: seq![
                    EffectView::SelectPickerJob(id),
                    EffectView::ChangeView(Some(view)),
                ],
            },
            None => Turn { panel: p, effects: seq![EffectView::ChangeView(Some(view))] },
        }
    }

    /// It is time for a refresh. The jobs are read anew, unless something is going on.
    pub open spec fn refresh(self, loading: bool) -> Turn {
        if loading || self.is_busy() {
            Turn { panel: self, effects: seq![EffectView::ScheduleRefresh] }
        } else {
            Turn { panel: self, effects: seq![EffectView::Reload, EffectView::ScheduleRefresh] }
        }
    }

    /// Something that was asked for is still going on.
    pub open spec fn is_busy(self) -> bool {
        self.run_now_submitting || self.failover_running || self.history_loading
            || self.recovery_points_loading
    }
}

impl OffsiteReplicationPanelComp {
    pub(crate) fn rows_chosen(&mut self, value: &str) -> (effects: Vec<Effect>)
        ensures
            final(self)@ == old(self)@.rows_chosen(value@).panel,
            effects_view(effects@) == old(self)@.rows_chosen(value@).effects,
    {
        if !self.on_tab(TAB_METRICS) {
            return no_effects();
        }
        match self.metrics_job_id() {
            Some(id) => {
                let configured: u64 = self.configured_history_limit_for_job(id.as_str());
                self.history_rows_choice = normalized_history_rows_choice_for_limit(
                    configured,
                    value,
                );
                assert(self@ == PanelView {
                    history_rows_choice: rows_choice_of(old(self)@.configured_limit(id@), value@),
                    ..old(self)@
                });
                let limit: u64 = self.requested_history_limit_for_job(id.as_str());
                self.load_history_for_job_id(id, limit, false)
            },
            None => no_effects(),
        }
    }

    pub(crate) fn history_job_chosen(&mut self, value: &str) -> (effects: Vec<Effect>)
        ensures
            final(self)@ == old(self)@.history_job_chosen(value@).panel,
            effects_view(effects@) == old(self)@.history_job_chosen(value@).effects,
    {
        self.history_job_id = fill(value);
        assert(self@ == PanelView { history_job_id: filled(value@), ..old(self)@ });
        if self.on_tab(TAB_METRICS) {
            self.load_metrics_tab()
        } else {
            no_effects()
        }
    }

    pub(crate) fn failover_job_chosen(&mut self, value: &str) -> (effects: Vec<Effect>)
        ensures
            final(self)@ == old(self)@.failover_job_chosen(value@).panel,
            effects_view(effects@) == old(self)@.failover_job_chosen(value@).effects,
    {
        self.failover_job_id = fill(value);
        assert(self@ == PanelView { failover_job_id: filled(value@), ..old(self)@ });
        if self.on_tab(TAB_FAILOVER) {
            self.load_failover_tab()
        } else {
            no_effects()
        }
    }

    pub(crate) fn job_chosen(&mut self, value: &str) -> (effects: Vec<Effect>)
        ensures
            final(self)@ == old(self)@.job_chosen(value@).panel,
            effects_view(effects@) == old(self)@.job_chosen(value@).effects,
    {
        match fill(value) {
            Some(id) => {
                self.selection = Some(id.clone());
                one_effect(Effect::SelectJob(id))
            },
            None => no_effects(),
        }
    }

    pub(crate) fn open_picker(&mut self, id: Option<String>, view: ViewState) -> (effects: Vec<Effect>)
        ensures
            final(self)@ == old(self)@.open_picker(opt_text(id), view).panel,
            effects_view(effects@) == old(self)@.open_picker(opt_text(id), view).effects,
    {
        self.job_picker_filter_text = "".to_owned();
        assert(self@ == PanelView { job_picker_filter_text: ""@, ..old(self)@ });
        self.sync_job_picker_store();
        match id {
            Some(id) => {
                self.job_picker_selection = Some(id.clone());
                two_effects(Effect::SelectPickerJob(id), Effect::ChangeView(Some(view)))
            },
            None => one_effect(Effect::ChangeView(Some(view))),
        }
    }

    pub(crate) fn refresh(&self, loading: bool) -> (effects: Vec<Effect>)
        ensures
            effects_view(effects@) == self@.refresh(loading).effects,
    {
        if !loading && !self.run_now_submitting && !self.failover_running && !self.history_loading
            && !self.recovery_points_loading {
            two_effects(Effect::Reload, Effect::ScheduleRefresh)
        } else {
            one_effect(Effect::ScheduleRefresh)
        }
    }
}

// ---------------------------------------------------------------------------------------------
// Filters
// ---------------------------------------------------------------------------------------------

impl PanelView {
    /// The filter of the table is changed.
    pub open spec fn with_table_filter(self, text: Seq<char>) -> PanelView {
        PanelView { jobs_filter_text: text, ..self }.with_jobs_view()
    }

    /// The filter of the picker is changed.
    pub open spec fn with_picker_filter(self, text: Seq<char>) -> PanelView {
        PanelView { job_picker_filter_text: text, ..self }.with_picker_view()
    }
}

impl OffsiteReplicationPanelComp {
    pub(crate) fn filter_table(&mut self, value: String)
        ensures
            final(self)@ == old(self)@.with_table_filter(value@),
    {
        self.jobs_filter_text = value;
        assert(self@ == PanelView { jobs_filter_text: value@, ..old(self)@ });
        self.sync_jobs_view_store();
    }

    pub(crate) fn filter_picker(&mut self, value: String)
        ensures
            final(self)@ == old(self)@.with_picker_filter(value@),
    {
        self.job_picker_filter_text = value;
        assert(self@ == PanelView { job_picker_filter_text: value@, ..old(self)@ });
        self.sync_job_picker_store();
    }

    pub(crate) fn filter_history_text(&mut self, value: String)
        ensures
            final(self)@ == old(self)@.with_history_filters(
                (HistoryFiltersView { text: value@, ..old(self)@.history_filters }),
            ),
    {
        self.history_filters.text = value;
        assert(self@ == PanelView {
            history_filters: HistoryFiltersView { text: value@, ..old(self)@.history_filters },
            ..old(self)@
        });
        self.sync_history_view_store();
    }

    pub(crate) fn filter_history_details(&mut self, value: String)
        ensures
            final(self)@ == old(self)@.with_history_filters(
                (HistoryFiltersView { details: value@, ..old(self)@.history_filters }),
            ),
    {
        self.history_filters.details = value;
        assert(self@ == PanelView {
            history_filters: HistoryFiltersView { details: value@, ..old(self)@.history_filters },
            ..old(self)@
        });
        self.sync_history_view_store();
    }

    pub(crate) fn filter_history_result(&mut self, value: String)
        ensures
            final(self)@ == old(self)@.with_history_filters(
                (HistoryFiltersView { result: lowered(trimmed(value@)), ..old(self)@.history_filters }),
            ),
    {
        self.history_filters.result = fold(value.as_str());
        assert(self@ == PanelView {
            history_filters: HistoryFiltersView { result: lowered(trimmed(value@)), ..old(self)@.history_filters },
            ..old(self)@
        });
        self.sync_history_view_store();
    }

    pub(crate) fn filter_history_mode(&mut self, value: String)
        ensures
            final(self)@ == old(self)@.with_history_filters(
                (HistoryFiltersView { mode: lowered(trimmed(value@)), ..old(self)@.history_filters }),
            ),
    {
        self.history_filters.mode = fold(value.as_str());
        assert(self@ == PanelView {
            history_filters: HistoryFiltersView { mode: lowered(trimmed(value@)), ..old(self)@.history_filters },
            ..old(self)@
        });
        self.sync_history_view_store();
    }

    pub(crate) fn filter_history_recoverable(&mut self, value: String)
        ensures
            final(self)@ == old(self)@.with_history_filters(
                (HistoryFiltersView { recoverable: lowered(trimmed(value@)), ..old(self)@.history_filters }),
            ),
    {
        self.history_filters.recoverable = fold(value.as_str());
        assert(self@ == PanelView {
            history_filters: HistoryFiltersView { recoverable: lowered(trimmed(value@)), ..old(self)@.history_filters },
            ..old(self)@
        });
        self.sync_history_view_store();
    }

    pub(crate) fn clear_history_filters(&mut self)
        ensures
            final(self)@ == old(self)@.with_history_filters(no_history_filters()),
    {
        self.history_filters = HistoryFilters::new();
        assert(self@ == PanelView { history_filters: no_history_filters(), ..old(self)@ });
        self.sync_history_view_store();
    }

    pub(crate) fn filter_recovery_text(&mut self, value: String)
        ensures
            final(self)@ == old(self)@.with_recovery_filters(
                (RecoveryFiltersView { text: value@, ..old(self)@.recovery_filters }),
            ),
    {
        self.recovery_filters.text = value;
        assert(self@ == PanelView {
            recovery_filters: RecoveryFiltersView { text: value@, ..old(self)@.recovery_filters },
            ..old(self)@
        });
        self.sync_recovery_view_store();
    }

    pub(crate) fn filter_recovery_mode(&mut self, value: String)
        ensures
            final(self)@ == old(self)@.with_recovery_filters(
                (RecoveryFiltersView { mode: lowered(trimmed(value@)), ..old(self)@.recovery_filters }),
            ),
    {
        self.recovery_filters.mode = fold(value.as_str());
        assert(self@ == PanelView {
            recovery_filters: RecoveryFiltersView { mode: lowered(trimmed(value@)), ..old(self)@.recovery_filters },
            ..old(self)@
        });
        self.sync_recovery_view_store();
    }

    pub(crate) fn filter_recovery_recoverable(&mut self, value: String)
        ensures
            final(self)@ == old(self)@.with_recovery_filters(
                (RecoveryFiltersView { recoverable: lowered(trimmed(value@)), ..old(self)@.recovery_filters }),
            ),
    {
        self.recovery_filters.recoverable = fold(value.as_str());
        assert(self@ == PanelView {
            recovery_filters: RecoveryFiltersView { recoverable: lowered(trimmed(value@)), ..old(self)@.recovery_filters },
            ..old(self)@
        });
        self.sync_recovery_view_store();
    }

    pub(crate) fn clear_recovery_filters(&mut self)
        ensures
            final(self)@ == old(self)@.with_recovery_filters(no_recovery_filters()),
    {
        self.recovery_filters = RecoveryFilters::new();
        assert(self@ == PanelView { recovery_filters: no_recovery_filters(), ..old(self)@ });
        self.sync_recovery_view_store();
    }
}

} // verus!
