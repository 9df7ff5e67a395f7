//! What the panel shows of its state.
use crate::display::{
    guest_label, guest_label_of, history_filters_active_count, history_filters_set,
    history_rows_items_for_limit, history_run_key, normalized_history_rows_choice_for_limit,
    path_label, recovery_filters_active_count, recovery_filters_set, rows_choice_of,
    rows_items_of, run_key_of,
};
use crate::order::{sort_ranked, sorted};
use crate::panel::{
    find_record, law_jobs_are_known_by_their_id, lemma_record_at, record_at,
    OffsiteReplicationPanelComp, PanelView, ViewState,
};
use crate::text::{is_blank, opt_text, same, texts};
use crate::types::{OffsiteReplicationJobStatus, OffsiteReplicationRun};
use vstd::prelude::*;

verus! {

// ---------------------------------------------------------------------------------------------
// What is selected
// ---------------------------------------------------------------------------------------------

/// The place of the first run with the key.
pub open spec fn run_at(runs: Seq<OffsiteReplicationRun>, key: Seq<char>) -> Option<int>
    decreases runs.len(),
{
    if runs.len() == 0 {
        None
    } else {
        match run_at(runs.drop_last(), key) {
            Some(i) => Some(i),
            None => if run_key_of(runs.last()) == key {
                Some(runs.len() - 1)
            } else {
                None
            },
        }
    }
}

proof fn lemma_run_grows(runs: Seq<OffsiteReplicationRun>, key: Seq<char>, n: int)
    requires
        0 <= n <= runs.len(),
        run_at(runs.take(n), key) is Some,
    ensures
        run_at(runs, key) == run_at(runs.take(n), key),
    decreases runs.len() - n,
{
    if n < runs.len() {
        assert(runs.take(n + 1).drop_last() =~= runs.take(n));
        lemma_run_grows(runs, key, n + 1);
    } else {
        assert(runs.take(n) =~= runs);
    }
}

fn find_run(runs: &Vec<OffsiteReplicationRun>, key: &str) -> (r: Option<usize>)
    ensures
        match r {
            Some(i) => i < runs.len() && run_at(runs@, key@) == Some(i as int),
            None => run_at(runs@, key@) is None,
        },
{
    let ghost all = runs@;
    let mut i: usize = 0;
    assert(all.take(0) =~= seq![]);
    while i < runs.len()
        invariant
            i <= runs.len(),
            all == runs@,
            run_at(all.take(i as int), key@) is None,
        decreases runs.len() - i,
    {
        assert(all.take(i + 1).drop_last() =~= all.take(i as int));
        let own = history_run_key(&runs[i]);
        if same(own.as_str(), key) {
            proof {
                lemma_run_grows(all, key@, i + 1);
            }
            return Some(i);
        }
        i += 1;
    }
    assert(all.take(all.len() as int) =~= all);
    None
}

impl PanelView {
    /// The job that is selected in the table.
    pub open spec fn selected_job(self) -> Option<OffsiteReplicationJobStatus> {
        match self.selection {
            Some(id) => match record_at(self.jobs, id) {
                Some(i) => Some(self.jobs[i]),
                None => None,
            },
            None => None,
        }
    }

    /// The run that is selected in the history.
    pub open spec fn selected_run(self) -> Option<OffsiteReplicationRun> {
        match self.history_selection {
            Some(key) => match run_at(self.history_runs, key) {
                Some(i) => Some(self.history_runs[i]),
                None => None,
            },
            None => None,
        }
    }
}

/// The IDs of the jobs.
pub open spec fn ids_of(jobs: Seq<OffsiteReplicationJobStatus>) -> Seq<String> {
    Seq::new(jobs.len(), |i: int| jobs[i].job.id)
}

/// A text, empty where there is none.
pub open spec fn or_empty(s: Option<Seq<char>>) -> Seq<char> {
    match s {
        Some(s) => s,
        None => ""@,
    }
}

fn text_or_empty(s: Option<String>) -> (r: String)
    ensures
        r@ == or_empty(opt_text(s)),
{
    match s {
        Some(s) => s,
        None => "".to_owned(),
    }
}

impl OffsiteReplicationPanelComp {
    /// The job that is selected in the table.
    pub fn selected_job(&self) -> (r: Option<OffsiteReplicationJobStatus>)
        ensures
            r == self@.selected_job(),
    {
        match &self.selection {
            Some(id) => match find_record(&self.jobs, id.as_str()) {
                Some(i) => Some(self.jobs[i].clone()),
                None => None,
            },
            None => None,
        }
    }

    /// The run that is selected in the history.
    pub fn selected_history_run(&self) -> (r: Option<OffsiteReplicationRun>)
        ensures
            r == self@.selected_run(),
    {
        match &self.history_selection {
            Some(key) => match find_run(&self.history_runs, key.as_str()) {
                Some(i) => Some(self.history_runs[i].clone()),
                None => None,
            },
            None => None,
        }
    }

    /// The IDs of all jobs, in order.
    pub fn job_items(&self) -> (r: Vec<String>)
        ensures
            r@ == sorted(ids_of(self.jobs@)),
    {
        let ghost all = ids_of(self.jobs@);
        let mut ids: Vec<String> = Vec::new();
        let mut i: usize = 0;
        while i < self.jobs.len()
            invariant
                i <= self.jobs.len(),
                all == ids_of(self.jobs@),
                ids@ == all.take(i as int),
            decreases self.jobs.len() - i,
        {
            ids.push(self.jobs[i].job.id.clone());
            i += 1;
            assert(ids@ =~= all.take(i as int));
        }
        assert(ids@ =~= all);
        sort_ranked(ids)
    }

    /// The job that the table stands on.
    pub fn selected_job_value(&self) -> (r: String)
        ensures
            r@ == or_empty(self@.default_job()),
    {
        text_or_empty(self.default_job_id())
    }

    /// The job that the history stands on.
    pub fn metrics_job_value(&self) -> (r: String)
        ensures
            r@ == or_empty(self@.history_job()),
    {
        text_or_empty(self.metrics_job_id())
    }

    /// The job that the failover stands on.
    pub fn failover_job_value(&self) -> (r: String)
        ensures
            r@ == or_empty(self@.failover_job()),
    {
        text_or_empty(self.recovery_job_id())
    }
}

// ---------------------------------------------------------------------------------------------
// The history
// ---------------------------------------------------------------------------------------------

/// What stands above the history.
#[derive(Debug, PartialEq)]
pub struct MetricsHeader {
    /// The job.
    pub id: String,
    /// Its guest.
    pub guest: String,
    /// The way its data takes.
    pub path: String,
    /// How many runs it keeps.
    pub configured_limit: u64,
    /// How many runs were chosen.
    pub rows_value: String,
    /// How many runs can be chosen.
    pub rows_items: Vec<String>,
}

/// What the head of the history says.
pub struct MetricsHeaderView {
    pub id: Seq<char>,
    pub guest: Seq<char>,
    pub path: Seq<char>,
    pub configured_limit: int,
    pub rows_value: Seq<char>,
    pub rows_items: Seq<Seq<char>>,
}

/// What the head of the history says, if there is one.
pub open spec fn header_view(header: Option<MetricsHeader>) -> Option<MetricsHeaderView> {
    match header {
        Some(h) => Some(
            MetricsHeaderView {
                id: h.id@,
                guest: h.guest@,
                path: h.path@,
                configured_limit: h.configured_limit as int,
                rows_value: h.rows_value@,
                rows_items: texts(h.rows_items@),
            },
        ),
        None => None,
    }
}

impl PanelView {
    /// The guest of a job, or a dash.
    pub open spec fn guest_of(self, id: Seq<char>) -> Seq<char> {
        match record_at(self.jobs, id) {
            Some(i) => guest_label_of(self.jobs[i].job),
            None => "-"@,
        }
    }

    /// The way that the data of a job takes, or a dash.
    pub open spec fn path_of(self, id: Seq<char>) -> Seq<char> {
        match record_at(self.jobs, id) {
            Some(i) => self.jobs[i].job.source_remote@ + " -> "@ + self.jobs[i].job.target_remote@,
            None => "-"@,
        }
    }

    /// What stands above the history, if there is a job.
    pub open spec fn metrics_header(self) -> Option<MetricsHeaderView> {
        match self.history_job() {
            Some(id) => Some(
                MetricsHeaderView {
                    id,
                    guest: self.guest_of(id),
                    path: self.path_of(id),
                    configured_limit: self.configured_limit(id),
                    rows_value: rows_choice_of(
                        self.configured_limit(id),
                        self.history_rows_choice,
                    ),
                    rows_items: rows_items_of(self.configured_limit(id) as u64),
                },
            ),
            None => None,
        }
    }
}

impl OffsiteReplicationPanelComp {
    /// What stands above the history, if there is a job.
    pub fn metrics_header(&self) -> (r: Option<MetricsHeader>)
        ensures
            header_view(r) == self@.metrics_header(),
    {
        let id = match self.metrics_job_id() {
            Some(id) => id,
            None => {
                return None;
            },
        };
        let (guest, path) = match find_record(&self.jobs, id.as_str()) {
            Some(i) => (guest_label(&self.jobs[i].job), path_label(&self.jobs[i].job)),
            None => ("-".to_owned(), "-".to_owned()),
        };
        let configured_limit: u64 = self.configured_history_limit_for_job(id.as_str());
        let rows_value = normalized_history_rows_choice_for_limit(
            configured_limit,
            self.history_rows_choice.as_str(),
        );
        let rows_items = history_rows_items_for_limit(configured_limit);
        Some(MetricsHeader { id, guest, path, configured_limit, rows_value, rows_items })
    }
}

// ---------------------------------------------------------------------------------------------
// The failover
// ---------------------------------------------------------------------------------------------

/// What is said below the form of a failover.
#[derive(Debug, PartialEq)]
pub enum FailoverHint {
    /// A failover is being started.
    Starting,
    /// The recovery points are being read.
    Loading,
    /// A failover can be started.
    Ready,
    /// Why a failover cannot be started.
    NotReady(String),
}

/// What a hint says.
pub enum FailoverHintView {
    Starting,
    Loading,
    Ready,
    NotReady(Seq<char>),
}

impl View for FailoverHint {
    type V = FailoverHintView;

    open spec fn view(&self) -> FailoverHintView {
        match *self {
            FailoverHint::Starting => FailoverHintView::Starting,
            FailoverHint::Loading => FailoverHintView::Loading,
            FailoverHint::Ready => FailoverHintView::Ready,
            FailoverHint::NotReady(why) => FailoverHintView::NotReady(why@),
        }
    }
}

impl PanelView {
    /// What is said below the form of a failover.
    pub open spec fn failover_hint(self) -> FailoverHintView {
        if self.failover_running {
            FailoverHintView::Starting
        } else if self.recovery_points_loading {
            FailoverHintView::Loading
        } else {
            match self.failover_action(false) {
                Ok(_) => FailoverHintView::Ready,
                Err(error) => FailoverHintView::NotReady(error),
            }
        }
    }
}

impl OffsiteReplicationPanelComp {
    /// What is said below the form of a failover.
    pub fn failover_hint(&self) -> (r: FailoverHint)
        ensures
            r@ == self@.failover_hint(),
    {
        if self.failover_running {
            return FailoverHint::Starting;
        }
        if self.recovery_points_loading {
            return FailoverHint::Loading;
        }
        match self.failover_action_for_selection(false) {
            Ok(_) => FailoverHint::Ready,
            Err(error) => FailoverHint::NotReady(error.message),
        }
    }
}

// ---------------------------------------------------------------------------------------------
// Buttons, fields and dialogs
// ---------------------------------------------------------------------------------------------

/// Which buttons and fields can be used.
#[derive(Clone, Copy, Debug, PartialEq, Eq, Structural)]
pub struct Controls {
    /// Edit the selected job, open its history or its failover.
    pub with_selection: bool,
    /// Remove the selected job.
    pub remove: bool,
    /// Run the job of the open tab.
    pub run_now: bool,
    /// Run a job that is picked.
    pub run_specific: bool,
    /// Jump to a job of the table.
    pub jump_to_job: bool,
    /// Clear the filter of the table.
    pub clear_jobs_filter: bool,
    /// Pick the job of the history.
    pub pick_history_job: bool,
    /// Read the history anew.
    pub refresh_history: bool,
    /// Choose how many runs are shown.
    pub choose_rows: bool,
    /// Clear the filters of the history.
    pub clear_history_filters: bool,
    /// Clear the text in the filters of the history.
    pub clear_history_text: bool,
    /// Pick the job of the failover.
    pub pick_failover_job: bool,
    /// Read the recovery points anew.
    pub refresh_failover: bool,
    /// Choose the snapshot to recover.
    pub choose_snapshot: bool,
    /// Start a failover.
    pub promote: bool,
    /// Clear the filters of the recovery points.
    pub clear_recovery_filters: bool,
    /// Clear the text in the filters of the recovery points.
    pub clear_recovery_text: bool,
    /// Take the job that is selected in the picker.
    pub pick: bool,
    /// Clear the filter of the picker.
    pub clear_picker_filter: bool,
}

impl PanelView {
    /// Which buttons and fields can be used.
    pub open spec fn controls(self) -> Controls {
        Controls {
            with_selection: self.selection is Some,
            remove: self.selected_job() is Some,
            run_now: self.run_job() is Some && !self.run_now_submitting,
            run_specific: self.jobs.len() > 0 && !self.run_now_submitting,
            jump_to_job: self.jobs.len() > 0,
            clear_jobs_filter: self.jobs_filter_text.len() > 0,
            pick_history_job: self.jobs.len() > 0 && !self.history_loading,
            refresh_history: !self.history_loading && !self.recovery_points_loading,
            choose_rows: !self.history_loading,
            clear_history_filters: history_filters_set(self.history_filters) > 0,
            clear_history_text: self.history_filters.text.len() > 0,
            pick_failover_job: self.jobs.len() > 0 && !self.failover_running,
            refresh_failover: !self.recovery_points_loading && !self.failover_running,
            choose_snapshot: !self.recovery_points_loading && self.recovery_points.len() > 0
                && !self.failover_running,
            promote: self.failover_action(false) is Ok && !self.failover_running,
            clear_recovery_filters: recovery_filters_set(self.recovery_filters) > 0,
            clear_recovery_text: self.recovery_filters.text.len() > 0,
            pick: self.job_picker_selection is Some,
            clear_picker_filter: self.job_picker_filter_text.len() > 0,
        }
    }
}

/// A dialog with what it is about.
#[derive(Debug, PartialEq)]
pub enum DialogContent {
    /// A job is made.
    Add,
    /// A job is changed.
    Edit(String),
    /// A job is removed.
    Remove(String),
    /// The job of the history is picked.
    PickHistoryJob,
    /// The job of the failover is picked.
    PickFailoverJob,
    /// A job to run is picked.
    PickRunNowJob,
}

/// What a dialog says.
pub enum DialogView {
    Add,
    Edit(Seq<char>),
    Remove(Seq<char>),
    PickHistoryJob,
    PickFailoverJob,
    PickRunNowJob,
}

/// What a dialog says, if there is one.
pub open spec fn dialog_view_of(dialog: Option<DialogContent>) -> Option<DialogView> {
    match dialog {
        Some(DialogContent::Add) => Some(DialogView::Add),
        Some(DialogContent::Edit(id)) => Some(DialogView::Edit(id@)),
        Some(DialogContent::Remove(id)) => Some(DialogView::Remove(id@)),
        Some(DialogContent::PickHistoryJob) => Some(DialogView::PickHistoryJob),
        Some(DialogContent::PickFailoverJob) => Some(DialogView::PickFailoverJob),
        Some(DialogContent::PickRunNowJob) => Some(DialogView::PickRunNowJob),
        None => None,
    }
}

impl PanelView {
    /// The dialog that is shown. A job is changed or removed only where one is selected.
    pub open spec fn dialog(self, view: ViewState) -> Option<DialogView> {
        match view {
            ViewState::Create => Some(DialogView::Add),
            ViewState::Edit => match self.selection {
                Some(id) => Some(DialogView::Edit(id)),
                None => None,
            },
            ViewState::Remove => match self.selected_job() {
                Some(job) => Some(DialogView::Remove(job.job.id@)),
                None => None,
            },
            ViewState::PickHistoryJob => Some(DialogView::PickHistoryJob),
            ViewState::PickFailoverJob => Some(DialogView::PickFailoverJob),
            ViewState::PickRunNowJob => Some(DialogView::PickRunNowJob),
        }
    }
}

impl OffsiteReplicationPanelComp {
    /// Which buttons and fields can be used.
    pub fn controls(&self) -> (r: Controls)
        ensures
            r == self@.controls(),
    {
        let has_jobs = self.jobs.len() > 0;
        let ready = match self.failover_action_for_selection(false) {
            Ok(_) => true,
            Err(_) => false,
        };
        Controls {
            with_selection: self.selection.is_some(),
            remove: self.selected_job().is_some(),
            run_now: self.active_run_job_id().is_some() && !self.run_now_submitting,
            run_specific: has_jobs && !self.run_now_submitting,
            jump_to_job: has_jobs,
            clear_jobs_filter: !self.jobs_filter_text.as_str().is_empty(),
            pick_history_job: has_jobs && !self.history_loading,
            refresh_history: !self.history_loading && !self.recovery_points_loading,
            choose_rows: !self.history_loading,
            clear_history_filters: history_filters_active_count(&self.history_filters) > 0,
            clear_history_text: !self.history_filters.text.as_str().is_empty(),
            pick_failover_job: has_jobs && !self.failover_running,
            refresh_failover: !self.recovery_points_loading && !self.failover_running,
            choose_snapshot: !self.recovery_points_loading && self.recovery_points.len() > 0
                && !self.failover_running,
            promote: ready && !self.failover_running,
            clear_recovery_filters: recovery_filters_active_count(&self.recovery_filters) > 0,
            clear_recovery_text: !self.recovery_filters.text.as_str().is_empty(),
            pick: self.job_picker_selection.is_some(),
            clear_picker_filter: !self.job_picker_filter_text.as_str().is_empty(),
        }
    }

    /// The dialog that is shown.
    pub fn dialog_view(&self, view_state: ViewState) -> (r: Option<DialogContent>)
        ensures
            dialog_view_of(r) == self@.dialog(view_state),
    {
        match view_state {
            ViewState::Create => Some(DialogContent::Add),
            ViewState::Edit => match &self.selection {
                Some(id) => Some(DialogContent::Edit(id.clone())),
                None => None,
            },
            ViewState::Remove => match self.selected_job() {
                Some(job) => Some(DialogContent::Remove(job.job.id)),
                None => None,
            },
            ViewState::PickHistoryJob => Some(DialogContent::PickHistoryJob),
            ViewState::PickFailoverJob => Some(DialogContent::PickFailoverJob),
            ViewState::PickRunNowJob => Some(DialogContent::PickRunNowJob),
        }
    }
}

// ---------------------------------------------------------------------------------------------
// Laws
// ---------------------------------------------------------------------------------------------

/// What can be used goes by what is there and by what is going on: a job has to be selected or there,
/// and nothing can be started or read anew while it is being started or read.
pub proof fn law_controls_go_by_the_state(p: PanelView)
    ensures
        ({
            let c = p.controls();
            &&& c.with_selection <==> p.selection is Some
            &&& c.remove <==> p.selection is Some && exists|i: int|
                0 <= i < p.jobs.len() && (#[trigger] p.jobs[i]).job.id@ == p.selection->0
            &&& c.run_specific <==> p.jobs.len() > 0 && !p.run_now_submitting
            &&& p.run_now_submitting ==> !c.run_now
            &&& !p.run_now_submitting ==> (c.run_now <==> p.run_job() is Some)
            &&& c.jump_to_job <==> p.jobs.len() > 0
            &&& c.pick_history_job <==> p.jobs.len() > 0 && !p.history_loading
            &&& c.refresh_history <==> !p.history_loading && !p.recovery_points_loading
            &&& c.choose_rows <==> !p.history_loading
            &&& c.pick_failover_job <==> p.jobs.len() > 0 && !p.failover_running
            &&& c.refresh_failover <==> !p.recovery_points_loading && !p.failover_running
            &&& c.choose_snapshot <==> p.recovery_points.len() > 0 && !p.recovery_points_loading
                && !p.failover_running
            &&& p.failover_running ==> !c.promote
            &&& !p.failover_running ==> (c.promote <==> p.failover_action(false) is Ok)
            &&& c.pick <==> p.job_picker_selection is Some
            &&& c.clear_jobs_filter <==> p.jobs_filter_text.len() > 0
            &&& c.clear_picker_filter <==> p.job_picker_filter_text.len() > 0
            &&& c.clear_history_text <==> p.history_filters.text.len() > 0
            &&& c.clear_recovery_text <==> p.recovery_filters.text.len() > 0
        }),
{
    if let Some(id) = p.selection {
        law_jobs_are_known_by_their_id(p.jobs, id, 0);
    }
}

/// Filters can be cleared exactly where one of them is set.
pub proof fn law_set_filters_can_be_cleared(p: PanelView)
    ensures
        p.controls().clear_history_filters <==> (p.history_filters.result != "all"@
            || p.history_filters.mode != "all"@ || p.history_filters.recoverable != "all"@
            || !is_blank(p.history_filters.text) || !is_blank(p.history_filters.details)),
        p.controls().clear_recovery_filters <==> (p.recovery_filters.mode != "all"@
            || p.recovery_filters.recoverable != "all"@ || !is_blank(p.recovery_filters.text)),
{
}

/// The hint below the form tells first what is going on, and then whether a failover can be started
/// or what it lacks.
pub proof fn law_hint_tells_what_is_lacking(p: PanelView)
    ensures
        p.failover_running ==> p.failover_hint() is Starting,
        !p.failover_running && p.recovery_points_loading ==> p.failover_hint() is Loading,
        !p.failover_running && !p.recovery_points_loading ==> (p.failover_action(false) is Ok
            <==> p.failover_hint() is Ready),
        !p.failover_running && !p.recovery_points_loading ==> (p.failover_action(false) matches Err(
            why,
        ) ==> p.failover_hint() == FailoverHintView::NotReady(why)),
{
}

/// A dialog is about the job that is selected; without one, none is changed, and one that is gone is
/// not removed.
pub proof fn law_dialogs_are_about_the_selected_job(p: PanelView)
    ensures
        p.dialog(ViewState::Create) == Some(DialogView::Add),
        p.selection matches Some(id) ==> p.dialog(ViewState::Edit) == Some(DialogView::Edit(id)),
        p.selection is None ==> p.dialog(ViewState::Edit) is None && p.dialog(
            ViewState::Remove,
        ) is None,
        p.selection matches Some(id) ==> ((exists|i: int|
            0 <= i < p.jobs.len() && (#[trigger] p.jobs[i]).job.id@ == id) ==> p.dialog(
            ViewState::Remove,
        ) == Some(DialogView::Remove(id))),
        p.selection matches Some(id) ==> ((forall|i: int|
            0 <= i < p.jobs.len() ==> (#[trigger] p.jobs[i]).job.id@ != id) ==> p.dialog(
            ViewState::Remove,
        ) is None),
        p.dialog(ViewState::PickHistoryJob) == Some(DialogView::PickHistoryJob),
        p.dialog(ViewState::PickFailoverJob) == Some(DialogView::PickFailoverJob),
        p.dialog(ViewState::PickRunNowJob) == Some(DialogView::PickRunNowJob),
{
    if let Some(id) = p.selection {
        law_jobs_are_known_by_their_id(p.jobs, id, 0);
        lemma_record_at(p.jobs, id);
    }
}

/// The head of the history tells of the history's job: its guest, the way its data takes, how many
/// runs it keeps, and how many are chosen.
pub proof fn law_head_tells_of_the_job(p: PanelView, id: Seq<char>, k: int)
    requires
        p.history_job() == Some(id),
        0 <= k < p.jobs.len(),
        p.jobs[k].job.id@ == id,
        forall|i: int| 0 <= i < k ==> (#[trigger] p.jobs[i]).job.id@ != id,
    ensures
        p.metrics_header() matches Some(head) && head.id == id && head.guest == guest_label_of(
            p.jobs[k].job,
        ) && head.path == p.jobs[k].job.source_remote@ + " -> "@ + p.jobs[k].job.target_remote@
            && head.configured_limit == p.configured_limit(id) && head.rows_value == rows_choice_of(
            p.configured_limit(id),
            p.history_rows_choice,
        ) && head.rows_items == rows_items_of(p.configured_limit(id) as u64),
{
    law_jobs_are_known_by_their_id(p.jobs, id, k);
}

/// Of a job that is not there the head tells a dash, and without a job there is no head.
pub proof fn law_head_without_a_job(p: PanelView, id: Seq<char>)
    ensures
        p.history_job() is None ==> p.metrics_header() is None,
        p.history_job() == Some(id) && (forall|i: int|
            0 <= i < p.jobs.len() ==> (#[trigger] p.jobs[i]).job.id@ != id) ==> (
        p.metrics_header() matches Some(head) && head.id == id && head.guest == "-"@ && head.path
            == "-"@),
{
    law_jobs_are_known_by_their_id(p.jobs, id, 0);
}

proof fn lemma_run_at(runs: Seq<OffsiteReplicationRun>, key: Seq<char>, k: int)
    requires
        0 <= k < runs.len(),
        run_key_of(runs[k]) == key,
        forall|i: int| 0 <= i < k ==> run_key_of(#[trigger] runs[i]) != key,
    ensures
        run_at(runs, key) == Some(k),
    decreases runs.len(),
{
    let front = runs.drop_last();
    if k < runs.len() - 1 {
        assert forall|i: int| 0 <= i < k implies run_key_of(#[trigger] front[i]) != key by {
            assert(front[i] == runs[i]);
        }
        assert(front[k] == runs[k]);
        lemma_run_at(front, key, k);
    } else {
        assert forall|i: int| 0 <= i < front.len() implies run_key_of(#[trigger] front[i])
            != key by {
            assert(front[i] == runs[i]);
        }
        lemma_no_run(front, key);
    }
}

proof fn lemma_no_run(runs: Seq<OffsiteReplicationRun>, key: Seq<char>)
    requires
        forall|i: int| 0 <= i < runs.len() ==> run_key_of(#[trigger] runs[i]) != key,
    ensures
        run_at(runs, key) is None,
    decreases runs.len(),
{
    if runs.len() > 0 {
        let front = runs.drop_last();
        assert forall|i: int| 0 <= i < front.len() implies run_key_of(#[trigger] front[i])
            != key by {
            assert(front[i] == runs[i]);
        }
        assert(run_key_of(runs[runs.len() - 1]) != key);
        lemma_no_run(front, key);
    }
}

/// What is selected is the first with the selected ID or key, where there is one.
pub proof fn law_selected_is_the_first_with_its_key(p: PanelView, k: int)
    ensures
        p.selection is None ==> p.selected_job() is None,
        p.selection matches Some(id) ==> (0 <= k < p.jobs.len() && p.jobs[k].job.id@ == id && (
        forall|i: int| 0 <= i < k ==> (#[trigger] p.jobs[i]).job.id@ != id) ==> p.selected_job()
            == Some(p.jobs[k])),
        p.history_selection is None ==> p.selected_run() is None,
        p.history_selection matches Some(key) ==> (0 <= k < p.history_runs.len() && run_key_of(
            p.history_runs[k],
        ) == key && (forall|i: int|
            0 <= i < k ==> run_key_of(#[trigger] p.history_runs[i]) != key) ==> p.selected_run()
            == Some(p.history_runs[k])),
{
    if let Some(id) = p.selection {
        law_jobs_are_known_by_their_id(p.jobs, id, k);
    }
    if let Some(key) = p.history_selection {
        if 0 <= k < p.history_runs.len() && run_key_of(p.history_runs[k]) == key && (forall|i: int|
            0 <= i < k ==> run_key_of(#[trigger] p.history_runs[i]) != key) {
            lemma_run_at(p.history_runs, key, k);
        }
    }
}

/// Every job can be chosen by its ID, and a choice that is not made is shown as an empty one.
pub proof fn law_every_job_can_be_chosen(
    jobs: Seq<OffsiteReplicationJobStatus>,
    text: Seq<char>,
    i: int,
)
    requires
        0 <= i < jobs.len(),
    ensures
        ids_of(jobs).len() == jobs.len(),
        ids_of(jobs)[i] == jobs[i].job.id,
        or_empty(Some(text)) == text,
        or_empty(None) == ""@,
{
}

} // verus!
