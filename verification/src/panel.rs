//! The panel of the user interface: its state, and what it does about each message.
use crate::display::{
    filter_jobs, filter_points, filter_runs, max_of, requested_history_limit, requested_rows,
    shown_jobs, shown_points, shown_runs, HistoryFilters, HistoryFiltersView, RecoveryFilters,
    RecoveryFiltersView, HISTORY_PAGE_SIZE,
};
use crate::display::{no_history_filters, no_recovery_filters};
use crate::number::{decimal, to_decimal};
use crate::text::{opt_text, same};
use crate::types::{
    Error, OffsiteFailoverRequest, OffsiteRecoveryPoint, OffsiteReplicationJobStatus,
    OffsiteReplicationRun,
};
use vstd::prelude::*;

verus! {

/// What is added to the ID of a guest for the first proposal of a recovery ID.
pub const FAILOVER_VMID_OFFSET: u32 = 400;

/// The tab of the jobs.
pub const TAB_JOBS: &'static str = "jobs";

/// The tab of the history.
pub const TAB_METRICS: &'static str = "metrics";

/// The tab of the failover.
pub const TAB_FAILOVER: &'static str = "failover";

/// A dialog.
#[derive(Clone, Copy, Debug, PartialEq, Eq, Structural)]
pub enum ViewState {
    /// A job is made.
    Create,
    /// The selected job is changed.
    Edit,
    /// The selected job is removed.
    Remove,
    /// The job of the history is picked.
    PickHistoryJob,
    /// The job of the failover is picked.
    PickFailoverJob,
    /// A job to run is picked.
    PickRunNowJob,
}

/// What the panel is told.
#[derive(Debug)]
pub enum Msg {
    LoadFinished(Vec<OffsiteReplicationJobStatus>),
    MainTabChanged,
    Remove(String),
    Reload,
    RunNowActive,
    RunNowById(String),
    RunNowFinished(String, Result<String, Error>),
    OpenRunNowTaskLog,
    DismissRunNowFeedback,
    OpenHistory(String),
    OpenFailover(String),
    HistoryLoaded(String, u64, Result<Vec<OffsiteReplicationRun>, Error>),
    RecoveryPointsLoaded(String, Result<Vec<OffsiteRecoveryPoint>, Error>),
    RequestFailover(bool),
    TriggerFailover(String, OffsiteFailoverRequest),
    FailoverFinished(Result<String, Error>),
    UpdateFailoverSnapshot(String),
    UpdateFailoverVmid(String),
    UpdateFailoverName(String),
    UpdateFailoverStart(bool),
    JobsFilterChanged(String),
    JobsJobChanged(String),
    HistoryFilterChanged(String),
    HistoryFilterDetailsChanged(String),
    HistoryFilterResultChanged(String),
    HistoryFilterModeChanged(String),
    HistoryFilterRecoverableChanged(String),
    ToggleHistoryFilters,
    ClearHistoryFilters,
    HistoryRowsChanged(String),
    RecoveryFilterChanged(String),
    RecoveryFilterModeChanged(String),
    RecoveryFilterRecoverableChanged(String),
    ToggleRecoveryFilters,
    ClearRecoveryFilters,
    SelectHistoryJob(String),
    SelectFailoverJob(String),
    OpenHistoryJobPicker,
    OpenFailoverJobPicker,
    CloseJobPicker,
    JobPickerFilterChanged(String),
    ApplyHistoryJobPicker,
    ApplyFailoverJobPicker,
    OpenRunNowJobPicker,
    ApplyRunNowJobPicker,
    ScheduleAutoRefresh,
    AutoRefreshTick,
}

/// A problem that the user is shown.
#[derive(Debug, PartialEq)]
pub enum Notice {
    /// No job can be run, as none is there.
    NoJobToRun,
    /// The job that was to be run is gone.
    JobGone,
    /// There is no run task to show.
    NoRunTask,
    /// No job was picked.
    NoJobPicked,
    /// A run could not be started.
    RunFailed(String),
    /// The history could not be read.
    History(String),
    /// The recovery points could not be read.
    RecoveryPoints(String),
    /// A failover could not be started.
    Failover(String),
}

/// What a problem says.
pub enum NoticeView {
    NoJobToRun,
    JobGone,
    NoRunTask,
    NoJobPicked,
    RunFailed(Seq<char>),
    History(Seq<char>),
    RecoveryPoints(Seq<char>),
    Failover(Seq<char>),
}

impl View for Notice {
    type V = NoticeView;

    open spec fn view(&self) -> NoticeView {
        match *self {
            Notice::NoJobToRun => NoticeView::NoJobToRun,
            Notice::JobGone => NoticeView::JobGone,
            Notice::NoRunTask => NoticeView::NoRunTask,
            Notice::NoJobPicked => NoticeView::NoJobPicked,
            Notice::RunFailed(s) => NoticeView::RunFailed(s@),
            Notice::History(s) => NoticeView::History(s@),
            Notice::RecoveryPoints(s) => NoticeView::RecoveryPoints(s@),
            Notice::Failover(s) => NoticeView::Failover(s@),
        }
    }
}

/// What a failover request asks for.
pub struct FailoverRequestView {
    pub snapshot: Seq<char>,
    pub recovery_vmid: u32,
    pub recovered_name: Option<Seq<char>>,
    pub start_guest: bool,
}

impl View for OffsiteFailoverRequest {
    type V = FailoverRequestView;

    open spec fn view(&self) -> FailoverRequestView {
        FailoverRequestView {
            snapshot: self.snapshot@,
            recovery_vmid: self.recovery_vmid,
            recovered_name: opt_text(self.recovered_name),
            start_guest: self.start_guest,
        }
    }
}

/// What is to be done outside the panel.
#[derive(Debug)]
pub enum Effect {
    /// The history of a job is to be read, with no more runs than given.
    FetchHistory(String, u64),
    /// The recovery points of a job are to be read.
    FetchRecoveryPoints(String),
    /// A job is to be removed.
    DeleteJob(String),
    /// A run of a job is to be started.
    PostRunNow(String),
    /// A failover of a job is to be started.
    PostFailover(String, OffsiteFailoverRequest),
    /// The jobs are to be read anew.
    Reload,
    /// A dialog is to be shown, or none.
    ChangeView(Option<ViewState>),
    /// A problem is to be shown.
    ShowError(Notice),
    /// The log of a task is to be shown.
    ShowTaskLog(String),
    /// The progress of a task is to be shown.
    ShowTaskProgress(String),
    /// A job is to be selected in the table.
    SelectJob(String),
    /// A tab is to be opened.
    SelectTab(String),
    /// A run is to be selected in the history.
    SelectHistoryRun(String),
    /// A job is to be selected in the picker.
    SelectPickerJob(String),
    /// The next refresh is to be scheduled, in the place of any that is.
    ScheduleRefresh,
    /// The panel is to be told to run a job.
    SendRunNowById(String),
    /// The panel is to be told to read the jobs anew.
    SendReload,
    /// The panel is to be told to start a failover.
    SendTriggerFailover(String, OffsiteFailoverRequest),
    /// The panel is to be told to open the failover of a job.
    SendOpenFailover(String),
    /// The panel is to be told of the job of the history.
    SendSelectHistoryJob(String),
    /// The panel is to be told of the job of the failover.
    SendSelectFailoverJob(String),
}

/// What an effect says.
pub enum EffectView {
    FetchHistory(Seq<char>, int),
    FetchRecoveryPoints(Seq<char>),
    DeleteJob(Seq<char>),
    PostRunNow(Seq<char>),
    PostFailover(Seq<char>, FailoverRequestView),
    Reload,
    ChangeView(Option<ViewState>),
    ShowError(NoticeView),
    ShowTaskLog(Seq<char>),
    ShowTaskProgress(Seq<char>),
    SelectJob(Seq<char>),
    SelectTab(Seq<char>),
    SelectHistoryRun(Seq<char>),
    SelectPickerJob(Seq<char>),
    ScheduleRefresh,
    SendRunNowById(Seq<char>),
    SendReload,
    SendTriggerFailover(Seq<char>, FailoverRequestView),
    SendOpenFailover(Seq<char>),
    SendSelectHistoryJob(Seq<char>),
    SendSelectFailoverJob(Seq<char>),
}

impl View for Effect {
    type V = EffectView;

    open spec fn view(&self) -> EffectView {
        match *self {
            Effect::FetchHistory(id, n) => EffectView::FetchHistory(id@, n as int),
            Effect::FetchRecoveryPoints(id) => EffectView::FetchRecoveryPoints(id@),
            Effect::DeleteJob(id) => EffectView::DeleteJob(id@),
            Effect::PostRunNow(id) => EffectView::PostRunNow(id@),
            Effect::PostFailover(id, request) => EffectView::PostFailover(id@, request@),
            Effect::Reload => EffectView::Reload,
            Effect::ChangeView(view) => EffectView::ChangeView(view),
            Effect::ShowError(notice) => EffectView::ShowError(notice@),
            Effect::ShowTaskLog(task) => EffectView::ShowTaskLog(task@),
            Effect::ShowTaskProgress(task) => EffectView::ShowTaskProgress(task@),
            Effect::SelectJob(id) => EffectView::SelectJob(id@),
            Effect::SelectTab(tab) => EffectView::SelectTab(tab@),
            Effect::SelectHistoryRun(key) => EffectView::SelectHistoryRun(key@),
            Effect::SelectPickerJob(id) => EffectView::SelectPickerJob(id@),
            Effect::ScheduleRefresh => EffectView::ScheduleRefresh,
            Effect::SendRunNowById(id) => EffectView::SendRunNowById(id@),
            Effect::SendReload => EffectView::SendReload,
            Effect::SendTriggerFailover(id, request) => EffectView::SendTriggerFailover(
                id@,
                request@,
            ),
            Effect::SendOpenFailover(id) => EffectView::SendOpenFailover(id@),
            Effect::SendSelectHistoryJob(id) => EffectView::SendSelectHistoryJob(id@),
            Effect::SendSelectFailoverJob(id) => EffectView::SendSelectFailoverJob(id@),
        }
    }
}

/// What effects say.
pub open spec fn effects_view(v: Seq<Effect>) -> Seq<EffectView> {
    Seq::new(v.len(), |i: int| v[i]@)
}

/// A run that was started.
#[derive(Debug, PartialEq)]
pub struct RunNowFeedback {
    /// The job.
    pub job_id: String,
    /// Its task.
    pub upid: String,
}

/// What is said of a run that was started.
pub struct RunNowFeedbackView {
    pub job_id: Seq<char>,
    pub upid: Seq<char>,
}

/// What is said of a run that was started, if one was.
pub open spec fn feedback_view(feedback: Option<RunNowFeedback>) -> Option<RunNowFeedbackView> {
    match feedback {
        Some(feedback) => Some(
            RunNowFeedbackView { job_id: feedback.job_id@, upid: feedback.upid@ },
        ),
        None => None,
    }
}

/// A failover that can be started.
#[derive(Debug, PartialEq)]
pub struct FailoverAction {
    /// The job.
    pub job_id: String,
    /// What is asked for.
    pub request: OffsiteFailoverRequest,
}

/// The state of the panel.
#[derive(Debug)]
pub struct OffsiteReplicationPanelComp {
    /// All jobs.
    pub jobs: Vec<OffsiteReplicationJobStatus>,
    /// The job that is selected in the table.
    pub selection: Option<String>,
    /// The tab that is open.
    pub main_tab_selection: Option<String>,
    /// The filter of the table.
    pub jobs_filter_text: String,
    /// The jobs that the table shows.
    pub jobs_view: Vec<OffsiteReplicationJobStatus>,
    /// A run is being started.
    pub run_now_submitting: bool,
    /// The task of the last run that was started.
    pub run_now_last_task: Option<String>,
    /// The run that was started.
    pub run_now_feedback: Option<RunNowFeedback>,
    /// The job whose history is shown.
    pub history_job_id: Option<String>,
    /// The history is being read.
    pub history_loading: bool,
    /// The history.
    pub history_runs: Vec<OffsiteReplicationRun>,
    /// The filters of the history.
    pub history_filters: HistoryFilters,
    /// The filters of the history are shown.
    pub history_filters_expanded: bool,
    /// The runs that the history shows.
    pub history_view: Vec<OffsiteReplicationRun>,
    /// The run that is selected in the history.
    pub history_selection: Option<String>,
    /// How many runs were asked for.
    pub history_requested_limit: u64,
    /// How many runs were chosen.
    pub history_rows_choice: String,
    /// The job that a failover is for.
    pub failover_job_id: Option<String>,
    /// The recovery points are being read.
    pub recovery_points_loading: bool,
    /// The recovery points.
    pub recovery_points: Vec<OffsiteRecoveryPoint>,
    /// The filters of the recovery points.
    pub recovery_filters: RecoveryFilters,
    /// The filters of the recovery points are shown.
    pub recovery_filters_expanded: bool,
    /// The recovery points that are shown.
    pub recovery_view: Vec<OffsiteRecoveryPoint>,
    /// The snapshot to recover.
    pub failover_snapshot_input: String,
    /// The ID of the recovered guest.
    pub failover_vmid_input: String,
    /// The name of the recovered guest.
    pub failover_name_input: String,
    /// The recovered guest is to be started.
    pub failover_start_guest: bool,
    /// A failover is being started.
    pub failover_running: bool,
    /// The task of the last failover that was started.
    pub failover_last_task: Option<String>,
    /// The filter of the picker.
    pub job_picker_filter_text: String,
    /// The jobs that the picker shows.
    pub job_picker_view: Vec<OffsiteReplicationJobStatus>,
    /// The job that is selected in the picker.
    pub job_picker_selection: Option<String>,
}

/// What the state of the panel says.
#[verifier::ext_equal]
pub struct PanelView {
    pub jobs: Seq<OffsiteReplicationJobStatus>,
    pub selection: Option<Seq<char>>,
    pub main_tab_selection: Option<Seq<char>>,
    pub jobs_filter_text: Seq<char>,
    pub jobs_view: Seq<OffsiteReplicationJobStatus>,
    pub run_now_submitting: bool,
    pub run_now_last_task: Option<Seq<char>>,
    pub run_now_feedback: Option<RunNowFeedbackView>,
    pub history_job_id: Option<Seq<char>>,
    pub history_loading: bool,
    pub history_runs: Seq<OffsiteReplicationRun>,
    pub history_filters: HistoryFiltersView,
    pub history_filters_expanded: bool,
    pub history_view: Seq<OffsiteReplicationRun>,
    pub history_selection: Option<Seq<char>>,
    pub history_requested_limit: int,
    pub history_rows_choice: Seq<char>,
    pub failover_job_id: Option<Seq<char>>,
    pub recovery_points_loading: bool,
    pub recovery_points: Seq<OffsiteRecoveryPoint>,
    pub recovery_filters: RecoveryFiltersView,
    pub recovery_filters_expanded: bool,
    pub recovery_view: Seq<OffsiteRecoveryPoint>,
    pub failover_snapshot_input: Seq<char>,
    pub failover_vmid_input: Seq<char>,
    pub failover_name_input: Seq<char>,
    pub failover_start_guest: bool,
    pub failover_running: bool,
    pub failover_last_task: Option<Seq<char>>,
    pub job_picker_filter_text: Seq<char>,
    pub job_picker_view: Seq<OffsiteReplicationJobStatus>,
    pub job_picker_selection: Option<Seq<char>>,
}

impl View for OffsiteReplicationPanelComp {
    type V = PanelView;

    open spec fn view(&self) -> PanelView {
        PanelView {
            jobs: self.jobs@,
            selection: opt_text(self.selection),
            main_tab_selection: opt_text(self.main_tab_selection),
            jobs_filter_text: self.jobs_filter_text@,
            jobs_view: self.jobs_view@,
            run_now_submitting: self.run_now_submitting,
            run_now_last_task: opt_text(self.run_now_last_task),
            run_now_feedback: feedback_view(self.run_now_feedback),
            history_job_id: opt_text(self.history_job_id),
            history_loading: self.history_loading,
            history_runs: self.history_runs@,
            history_filters: self.history_filters@,
            history_filters_expanded: self.history_filters_expanded,
            history_view: self.history_view@,
            history_selection: opt_text(self.history_selection),
            history_requested_limit: self.history_requested_limit as int,
            history_rows_choice: self.history_rows_choice@,
            failover_job_id: opt_text(self.failover_job_id),
            recovery_points_loading: self.recovery_points_loading,
            recovery_points: self.recovery_points@,
            recovery_filters: self.recovery_filters@,
            recovery_filters_expanded: self.recovery_filters_expanded,
            recovery_view: self.recovery_view@,
            failover_snapshot_input: self.failover_snapshot_input@,
            failover_vmid_input: self.failover_vmid_input@,
            failover_name_input: self.failover_name_input@,
            failover_start_guest: self.failover_start_guest,
            failover_running: self.failover_running,
            failover_last_task: opt_text(self.failover_last_task),
            job_picker_filter_text: self.job_picker_filter_text@,
            job_picker_view: self.job_picker_view@,
            job_picker_selection: opt_text(self.job_picker_selection),
        }
    }
}

/// What becomes of the panel, and what is to be done outside it.
#[verifier::ext_equal]
pub struct Turn {
    pub panel: PanelView,
    pub effects: Seq<EffectView>,
}

/// The panel changes, and nothing is to be done outside it.
pub open spec fn quietly(panel: PanelView) -> Turn {
    Turn { panel, effects: seq![] }
}

/// One turn after another.
pub open spec fn after(first: Seq<EffectView>, second: Turn) -> Turn {
    Turn { panel: second.panel, effects: first + second.effects }
}

// ---------------------------------------------------------------------------------------------
// Which job
// ---------------------------------------------------------------------------------------------

/// The place of the first job with the ID.
pub open spec fn record_at(jobs: Seq<OffsiteReplicationJobStatus>, id: Seq<char>) -> Option<int>
    decreases jobs.len(),
{
    if jobs.len() == 0 {
        None
    } else {
        match record_at(jobs.drop_last(), id) {
            Some(i) => Some(i),
            None => if jobs.last().job.id@ == id {
                Some(jobs.len() - 1)
            } else {
                None
            },
        }
    }
}

pub proof fn lemma_record_at(jobs: Seq<OffsiteReplicationJobStatus>, id: Seq<char>)
    ensures
        match record_at(jobs, id) {
            Some(i) => 0 <= i < jobs.len() && jobs[i].job.id@ == id,
            None => forall|i: int| 0 <= i < jobs.len() ==> (#[trigger] jobs[i]).job.id@ != id,
        },
    decreases jobs.len(),
{
    if jobs.len() > 0 {
        lemma_record_at(jobs.drop_last(), id);
        assert forall|i: int|
            0 <= i < jobs.len() && record_at(jobs, id) is None implies (
        #[trigger] jobs[i]).job.id@ != id by {
            if i < jobs.len() - 1 {
                assert(jobs.drop_last()[i].job.id@ != id);
            }
        }
    }
}

/// A job has the ID.
pub open spec fn has_job(jobs: Seq<OffsiteReplicationJobStatus>, id: Seq<char>) -> bool {
    record_at(jobs, id) is Some
}

/// A job is named that is not there.
pub open spec fn names_no_job(jobs: Seq<OffsiteReplicationJobStatus>, id: Option<Seq<char>>) -> bool {
    match id {
        Some(id) => !has_job(jobs, id),
        None => false,
    }
}

/// The first text, or the second where there is none.
pub open spec fn first_of(a: Option<Seq<char>>, b: Option<Seq<char>>) -> Option<Seq<char>> {
    if a is Some {
        a
    } else {
        b
    }
}

/// The ID of the first job.
pub open spec fn first_job(jobs: Seq<OffsiteReplicationJobStatus>) -> Option<Seq<char>> {
    if jobs.len() == 0 {
        None
    } else {
        Some(jobs[0].job.id@)
    }
}

impl PanelView {
    /// The selected job, else the first one.
    pub open spec fn default_job(self) -> Option<Seq<char>> {
        first_of(self.selection, first_job(self.jobs))
    }

    /// The job of the history.
    pub open spec fn history_job(self) -> Option<Seq<char>> {
        first_of(self.history_job_id, self.default_job())
    }

    /// The job of the failover.
    pub open spec fn failover_job(self) -> Option<Seq<char>> {
        first_of(self.failover_job_id, self.default_job())
    }

    /// The open tab.
    pub open spec fn tab(self) -> Seq<char> {
        match self.main_tab_selection {
            Some(tab) => tab,
            None => TAB_JOBS@,
        }
    }

    /// The job that is run from the open tab.
    pub open spec fn run_job(self) -> Option<Seq<char>> {
        if self.tab() == TAB_METRICS@ {
            self.history_job()
        } else if self.tab() == TAB_FAILOVER@ {
            self.failover_job()
        } else {
            self.default_job()
        }
    }

    /// How many runs the job keeps.
    pub open spec fn configured_limit(self, id: Seq<char>) -> int {
        match record_at(self.jobs, id) {
            Some(i) => max_of(self.jobs[i].job.history_limit as int, 1),
            None => HISTORY_PAGE_SIZE as int,
        }
    }

    /// How many runs of the job are asked for.
    pub open spec fn requested_limit(self, id: Seq<char>) -> int {
        requested_rows(self.configured_limit(id), self.history_rows_choice)
    }

    /// The table shows what its filter lets through.
    pub open spec fn with_jobs_view(self) -> PanelView {
        PanelView { jobs_view: shown_jobs(self.jobs, self.jobs_filter_text), ..self }
    }

    /// The picker shows what its filter lets through.
    pub open spec fn with_picker_view(self) -> PanelView {
        PanelView { job_picker_view: shown_jobs(self.jobs, self.job_picker_filter_text), ..self }
    }

    /// The history shows what its filters let through.
    pub open spec fn with_history_view(self) -> PanelView {
        PanelView {
            history_view: shown_runs(self.history_filters, self.recovery_points, self.history_runs),
            ..self
        }
    }

    /// The recovery points that are shown are those that their filters let through.
    pub open spec fn with_recovery_view(self) -> PanelView {
        PanelView {
            recovery_view: shown_points(
                self.recovery_filters,
                self.recovery_points,
                self.recovery_points.len() as int,
            ),
            ..self
        }
    }
}

/// The place of the first job with the ID.
pub fn find_record(jobs: &Vec<OffsiteReplicationJobStatus>, id: &str) -> (r: Option<usize>)
    ensures
        match r {
            Some(i) => i < jobs.len() && record_at(jobs@, id@) == Some(i as int),
            None => record_at(jobs@, id@) is None,
        },
{
    let ghost all = jobs@;
    let mut i: usize = 0;
    assert(all.take(0) =~= seq![]);
    while i < jobs.len()
        invariant
            i <= jobs.len(),
            all == jobs@,
            record_at(all.take(i as int), id@) is None,
        decreases jobs.len() - i,
    {
        assert(all.take(i + 1).drop_last() =~= all.take(i as int));
        if same(jobs[i].job.id.as_str(), id) {
            proof {
                lemma_record_grows(all, id@, i + 1);
            }
            return Some(i);
        }
        i += 1;
    }
    assert(all.take(all.len() as int) =~= all);
    None
}

proof fn lemma_record_grows(jobs: Seq<OffsiteReplicationJobStatus>, id: Seq<char>, n: int)
    requires
        0 <= n <= jobs.len(),
        record_at(jobs.take(n), id) is Some,
    ensures
        record_at(jobs, id) == record_at(jobs.take(n), id),
    decreases jobs.len() - n,
{
    if n < jobs.len() {
        assert(jobs.take(n + 1).drop_last() =~= jobs.take(n));
        lemma_record_grows(jobs, id, n + 1);
    } else {
        assert(jobs.take(n) =~= jobs);
    }
}

pub(crate) fn known_job(jobs: &Vec<OffsiteReplicationJobStatus>, id: &str) -> (r: bool)
    ensures
        r == has_job(jobs@, id@),
{
    find_record(jobs, id).is_some()
}

pub(crate) fn names_none(jobs: &Vec<OffsiteReplicationJobStatus>, id: &Option<String>) -> (r: bool)
    ensures
        r == names_no_job(jobs@, opt_text(*id)),
{
    match id {
        Some(id) => !known_job(jobs, id.as_str()),
        None => false,
    }
}

fn first_id(jobs: &Vec<OffsiteReplicationJobStatus>) -> (r: Option<String>)
    ensures
        opt_text(r) == first_job(jobs@),
{
    if jobs.len() == 0 {
        None
    } else {
        Some(jobs[0].job.id.clone())
    }
}

pub(crate) fn no_effects() -> (r: Vec<Effect>)
    ensures
        effects_view(r@) == Seq::<EffectView>::empty(),
{
    let r: Vec<Effect> = Vec::new();
    assert(effects_view(r@) =~= Seq::<EffectView>::empty());
    r
}

pub(crate) fn one_effect(effect: Effect) -> (r: Vec<Effect>)
    ensures
        effects_view(r@) == seq![effect@],
{
    let mut r: Vec<Effect> = Vec::new();
    r.push(effect);
    assert(effects_view(r@) =~= seq![effect@]);
    r
}

pub(crate) fn two_effects(first: Effect, second: Effect) -> (r: Vec<Effect>)
    ensures
        effects_view(r@) == seq![first@, second@],
{
    let mut r: Vec<Effect> = Vec::new();
    r.push(first);
    r.push(second);
    assert(effects_view(r@) =~= seq![first@, second@]);
    r
}

pub(crate) fn join_effects(first: Vec<Effect>, second: Vec<Effect>) -> (r: Vec<Effect>)
    ensures
        effects_view(r@) == effects_view(first@) + effects_view(second@),
{
    let mut r = first;
    let mut second = second;
    let ghost tail = second@;
    r.append(&mut second);
    assert(effects_view(r@) =~= effects_view(first@) + effects_view(tail));
    r
}

impl OffsiteReplicationPanelComp {
    /// The panel at its start.
    pub fn create() -> (r: OffsiteReplicationPanelComp)
        ensures
            r@ == fresh_panel(),
    {
        OffsiteReplicationPanelComp {
            jobs: Vec::new(),
            selection: None,
            main_tab_selection: None,
            jobs_filter_text: "".to_owned(),
            jobs_view: Vec::new(),
            run_now_submitting: false,
            run_now_last_task: None,
            run_now_feedback: None,
            history_job_id: None,
            history_loading: false,
            history_runs: Vec::new(),
            history_filters: HistoryFilters::new(),
            history_filters_expanded: false,
            history_view: Vec::new(),
            history_selection: None,
            history_requested_limit: HISTORY_PAGE_SIZE,
            history_rows_choice: to_decimal(HISTORY_PAGE_SIZE),
            failover_job_id: None,
            recovery_points_loading: false,
            recovery_points: Vec::new(),
            recovery_filters: RecoveryFilters::new(),
            recovery_filters_expanded: false,
            recovery_view: Vec::new(),
            failover_snapshot_input: "".to_owned(),
            failover_vmid_input: "".to_owned(),
            failover_name_input: "".to_owned(),
            failover_start_guest: false,
            failover_running: false,
            failover_last_task: None,
            job_picker_filter_text: "".to_owned(),
            job_picker_view: Vec::new(),
            job_picker_selection: None,
        }
    }

    /// The selected job, else the first one.
    pub fn default_job_id(&self) -> (r: Option<String>)
        ensures
            opt_text(r) == self@.default_job(),
    {
        match &self.selection {
            Some(id) => Some(id.clone()),
            None => first_id(&self.jobs),
        }
    }

    /// The job of the history.
    pub fn metrics_job_id(&self) -> (r: Option<String>)
        ensures
            opt_text(r) == self@.history_job(),
    {
        match &self.history_job_id {
            Some(id) => Some(id.clone()),
            None => self.default_job_id(),
        }
    }

    /// The job of the failover.
    pub fn recovery_job_id(&self) -> (r: Option<String>)
        ensures
            opt_text(r) == self@.failover_job(),
    {
        match &self.failover_job_id {
            Some(id) => Some(id.clone()),
            None => self.default_job_id(),
        }
    }

    /// The open tab.
    pub fn current_tab(&self) -> (r: String)
        ensures
            r@ == self@.tab(),
    {
        match &self.main_tab_selection {
            Some(tab) => tab.clone(),
            None => TAB_JOBS.to_owned(),
        }
    }

    pub(crate) fn on_tab(&self, tab: &str) -> (r: bool)
        ensures
            r == (self@.tab() == tab@),
    {
        same(self.current_tab().as_str(), tab)
    }

    /// The job that is run from the open tab.
    pub fn active_run_job_id(&self) -> (r: Option<String>)
        ensures
            opt_text(r) == self@.run_job(),
    {
        if self.on_tab(TAB_METRICS) {
            self.metrics_job_id()
        } else if self.on_tab(TAB_FAILOVER) {
            self.recovery_job_id()
        } else {
            self.default_job_id()
        }
    }

    /// How many runs the job keeps.
    pub fn configured_history_limit_for_job(&self, id: &str) -> (r: u64)
        ensures
            r == self@.configured_limit(id@),
            r >= 1,
    {
        match find_record(&self.jobs, id) {
            Some(i) => {
                let limit: u64 = self.jobs[i].job.history_limit;
                if limit < 1 {
                    1
                } else {
                    limit
                }
            },
            None => HISTORY_PAGE_SIZE,
        }
    }

    /// How many runs of the job are asked for.
    pub fn requested_history_limit_for_job(&self, id: &str) -> (r: u64)
        ensures
            r == self@.requested_limit(id@),
    {
        requested_history_limit(
            self.configured_history_limit_for_job(id),
            self.history_rows_choice.as_str(),
        )
    }

    /// The table shows what its filter lets through.
    pub fn sync_jobs_view_store(&mut self)
        ensures
            final(self)@ == old(self)@.with_jobs_view(),
    {
        self.jobs_view = filter_jobs(&self.jobs, self.jobs_filter_text.as_str());
    }

    /// The picker shows what its filter lets through.
    pub fn sync_job_picker_store(&mut self)
        ensures
            final(self)@ == old(self)@.with_picker_view(),
    {
        self.job_picker_view = filter_jobs(&self.jobs, self.job_picker_filter_text.as_str());
    }

    /// The history shows what its filters let through.
    pub fn sync_history_view_store(&mut self)
        ensures
            final(self)@ == old(self)@.with_history_view(),
    {
        self.history_view = filter_runs(
            &self.history_filters,
            &self.recovery_points,
            &self.history_runs,
        );
    }

    /// The recovery points that are shown are those that their filters let through.
    pub fn sync_recovery_view_store(&mut self)
        ensures
            final(self)@ == old(self)@.with_recovery_view(),
    {
        self.recovery_view = filter_points(&self.recovery_filters, &self.recovery_points);
    }
}

/// The panel at its start: empty, with no filter set, and with the usual number of runs chosen.
pub open spec fn fresh_panel() -> PanelView {
    PanelView {
        jobs: seq![],
        selection: None,
        main_tab_selection: None,
        jobs_filter_text: ""@,
        jobs_view: seq![],
        run_now_submitting: false,
        run_now_last_task: None,
        run_now_feedback: None,
        history_job_id: None,
        history_loading: false,
        history_runs: seq![],
        history_filters: no_history_filters(),
        history_filters_expanded: false,
        history_view: seq![],
        history_selection: None,
        history_requested_limit: HISTORY_PAGE_SIZE as int,
        history_rows_choice: decimal(HISTORY_PAGE_SIZE as nat),
        failover_job_id: None,
        recovery_points_loading: false,
        recovery_points: seq![],
        recovery_filters: no_recovery_filters(),
        recovery_filters_expanded: false,
        recovery_view: seq![],
        failover_snapshot_input: ""@,
        failover_vmid_input: ""@,
        failover_name_input: ""@,
        failover_start_guest: false,
        failover_running: false,
        failover_last_task: None,
        job_picker_filter_text: ""@,
        job_picker_view: seq![],
        job_picker_selection: None,
    }
}

/// A job is known exactly where one in the list has the ID, and it is the first of them.
pub proof fn law_jobs_are_known_by_their_id(
    jobs: Seq<OffsiteReplicationJobStatus>,
    id: Seq<char>,
    k: int,
)
    ensures
        has_job(jobs, id) <==> exists|i: int|
            0 <= i < jobs.len() && (#[trigger] jobs[i]).job.id@ == id,
        0 <= k < jobs.len() && jobs[k].job.id@ == id && (forall|i: int|
            0 <= i < k ==> (#[trigger] jobs[i]).job.id@ != id) ==> record_at(jobs, id) == Some(k),
        names_no_job(jobs, Some(id)) <==> forall|i: int|
            0 <= i < jobs.len() ==> (#[trigger] jobs[i]).job.id@ != id,
        !names_no_job(jobs, None),
{
    lemma_record_at(jobs, id);
    if let Some(i) = record_at(jobs, id) {
        assert(jobs[i].job.id@ == id);
    }
    if 0 <= k < jobs.len() && jobs[k].job.id@ == id && (forall|i: int|
        0 <= i < k ==> (#[trigger] jobs[i]).job.id@ != id) {
        lemma_first_record(jobs, id, k);
    }
}

proof fn lemma_first_record(jobs: Seq<OffsiteReplicationJobStatus>, id: Seq<char>, k: int)
    requires
        0 <= k < jobs.len(),
        jobs[k].job.id@ == id,
        forall|i: int| 0 <= i < k ==> (#[trigger] jobs[i]).job.id@ != id,
    ensures
        record_at(jobs, id) == Some(k),
    decreases jobs.len(),
{
    let front = jobs.drop_last();
    lemma_record_at(front, id);
    if k < jobs.len() - 1 {
        assert forall|i: int| 0 <= i < k implies (#[trigger] front[i]).job.id@ != id by {
            assert(front[i] == jobs[i]);
        }
        assert(front[k] == jobs[k]);
        lemma_first_record(front, id, k);
    } else {
        if let Some(i) = record_at(front, id) {
            assert(jobs[i] == front[i]);
        }
    }
}

/// Which job a tab is about: the one that was chosen for it, else the one that is selected in the
/// table, else the first one. What is run is the job of the open tab.
pub proof fn law_tabs_stand_on_a_job(p: PanelView)
    ensures
        p.selection is Some ==> p.default_job() == p.selection,
        p.selection is None && p.jobs.len() > 0 ==> p.default_job() == Some(p.jobs[0].job.id@),
        p.selection is None && p.jobs.len() == 0 ==> p.default_job() is None,
        p.history_job_id is Some ==> p.history_job() == p.history_job_id,
        p.history_job_id is None ==> p.history_job() == p.default_job(),
        p.failover_job_id is Some ==> p.failover_job() == p.failover_job_id,
        p.failover_job_id is None ==> p.failover_job() == p.default_job(),
        p.main_tab_selection == Some("metrics"@) ==> p.run_job() == p.history_job(),
        p.main_tab_selection == Some("failover"@) ==> p.run_job() == p.failover_job(),
        p.main_tab_selection is None || p.main_tab_selection == Some("jobs"@) ==> p.run_job()
            == p.default_job(),
{
    lemma_tabs_differ();
}

/// The tabs have names of their own.
pub proof fn lemma_tabs_differ()
    ensures
        "jobs"@ != "metrics"@,
        "jobs"@ != "failover"@,
        "metrics"@ != "failover"@,
{
    reveal_strlit("jobs");
    reveal_strlit("metrics");
    reveal_strlit("failover");
    assert("jobs"@.len() == 4 && "metrics"@.len() == 7 && "failover"@.len() == 8);
}

/// As many runs of a job can be asked for as it keeps, and at least one; of a job that is not there,
/// a page of 200.
pub proof fn law_job_keeps_its_limit(p: PanelView, id: Seq<char>, k: int)
    ensures
        0 <= k < p.jobs.len() && p.jobs[k].job.id@ == id && (forall|i: int|
            0 <= i < k ==> (#[trigger] p.jobs[i]).job.id@ != id) ==> p.configured_limit(id) == (
        if p.jobs[k].job.history_limit == 0 {
            1
        } else {
            p.jobs[k].job.history_limit as int
        }),
        (forall|i: int| 0 <= i < p.jobs.len() ==> (#[trigger] p.jobs[i]).job.id@ != id)
            ==> p.configured_limit(id) == 200,
{
    law_jobs_are_known_by_their_id(p.jobs, id, k);
}

/// A panel starts empty: no jobs, nothing chosen, nothing going on and no filter set.
pub proof fn law_panel_starts_empty()
    ensures
        ({
            let p = fresh_panel();
            &&& p.jobs.len() == 0 && p.jobs_view.len() == 0 && p.job_picker_view.len() == 0
            &&& p.selection is None && p.main_tab_selection is None && p.job_picker_selection is None
            &&& p.history_job_id is None && p.failover_job_id is None && p.history_selection is None
            &&& !p.run_now_submitting && !p.history_loading && !p.recovery_points_loading
                && !p.failover_running && !p.failover_start_guest
            &&& p.run_now_last_task is None && p.run_now_feedback is None && p.failover_last_task is None
            &&& p.history_runs.len() == 0 && p.history_view.len() == 0
            &&& p.recovery_points.len() == 0 && p.recovery_view.len() == 0
            &&& p.history_requested_limit == 200 && p.history_rows_choice == decimal(200)
            &&& !p.history_filters_expanded && !p.recovery_filters_expanded
        }),
{
}

} // verus!
