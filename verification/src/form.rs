//! The form in which a job is edited: from what was submitted to a job.
use crate::number::{decimal, law_decimal_reads_back, parse_unsigned, parsed};
use crate::text::{is_blank, same, trim, trimmed};
use crate::types::{Error, OffsiteReplicationJob};
use vstd::prelude::*;

verus! {

/// A submitted value.
#[derive(Debug, PartialEq)]
pub enum FormValue {
    /// A text.
    Text(String),
    /// A number.
    Number(u64),
    /// Anything else, as it was encoded.
    Other(String),
}

/// What a submitted value says.
pub enum ValueView {
    Text(Seq<char>),
    Number(u64),
    Other(Seq<char>),
}

impl View for FormValue {
    type V = ValueView;

    open spec fn view(&self) -> ValueView {
        match self {
            FormValue::Text(s) => ValueView::Text(s@),
            FormValue::Number(n) => ValueView::Number(*n),
            FormValue::Other(s) => ValueView::Other(s@),
        }
    }
}

impl Clone for FormValue {
    fn clone(&self) -> (r: Self)
        ensures
            r@ == self@,
    {
        match self {
            FormValue::Text(s) => FormValue::Text(s.clone()),
            FormValue::Number(n) => FormValue::Number(*n),
            FormValue::Other(s) => FormValue::Other(s.clone()),
        }
    }
}

/// What was submitted: values under keys.
#[derive(Debug, PartialEq)]
pub struct FormData {
    /// The keys and values.
    pub entries: Vec<(String, FormValue)>,
}

impl View for FormData {
    type V = Seq<(Seq<char>, ValueView)>;

    open spec fn view(&self) -> Seq<(Seq<char>, ValueView)> {
        Seq::new(self.entries@.len(), |i: int| (self.entries@[i].0@, self.entries@[i].1@))
    }
}

/// The place of the first value under the key.
pub open spec fn entry_at(entries: Seq<(Seq<char>, ValueView)>, key: Seq<char>) -> Option<int>
    decreases entries.len(),
{
    if entries.len() == 0 {
        None
    } else {
        match entry_at(entries.drop_last(), key) {
            Some(i) => Some(i),
            None => if entries.last().0 == key {
                Some(entries.len() - 1)
            } else {
                None
            },
        }
    }
}

/// The value under the key.
pub open spec fn entry(entries: Seq<(Seq<char>, ValueView)>, key: Seq<char>) -> Option<ValueView> {
    match entry_at(entries, key) {
        Some(i) => Some(entries[i].1),
        None => None,
    }
}

/// What was submitted, with the value under the key.
pub open spec fn with_entry(
    entries: Seq<(Seq<char>, ValueView)>,
    key: Seq<char>,
    value: ValueView,
) -> Seq<(Seq<char>, ValueView)> {
    match entry_at(entries, key) {
        Some(i) => entries.update(i, (key, value)),
        None => entries.push((key, value)),
    }
}

proof fn lemma_entry_at(entries: Seq<(Seq<char>, ValueView)>, key: Seq<char>)
    ensures
        match entry_at(entries, key) {
            Some(i) => 0 <= i < entries.len() && entries[i].0 == key && forall|k: int|
                0 <= k < i ==> (#[trigger] entries[k]).0 != key,
            None => forall|k: int| 0 <= k < entries.len() ==> (#[trigger] entries[k]).0 != key,
        },
    decreases entries.len(),
{
    if entries.len() > 0 {
        let front = entries.drop_last();
        lemma_entry_at(front, key);
        assert forall|k: int| 0 <= k < front.len() implies #[trigger] entries[k] == front[k] by {}
    }
}

impl FormData {
    fn place_of(&self, key: &str) -> (r: Option<usize>)
        ensures
            match r {
                Some(i) => entry_at(self@, key@) == Some(i as int) && i < self.entries.len(),
                None => entry_at(self@, key@) is None,
            },
    {
        let ghost all = self@;
        proof {
            lemma_entry_at(all, key@);
        }
        let mut i: usize = 0;
        while i < self.entries.len()
            invariant
                i <= self.entries.len(),
                all == self@,
                all.len() == self.entries.len(),
                forall|k: int| 0 <= k < i ==> (#[trigger] all[k]).0 != key@,
                match entry_at(all, key@) {
                    Some(i) => 0 <= i < all.len() && all[i].0 == key@ && forall|k: int|
                        0 <= k < i ==> (#[trigger] all[k]).0 != key@,
                    None => forall|k: int| 0 <= k < all.len() ==> (#[trigger] all[k]).0 != key@,
                },
            decreases self.entries.len() - i,
        {
            assert(all[i as int].0 == self.entries@[i as int].0@);
            if same(self.entries[i].0.as_str(), key) {
                return Some(i);
            }
            i += 1;
        }
        None
    }

    /// The value under the key.
    pub fn get(&self, key: &str) -> (r: Option<FormValue>)
        ensures
            match r {
                Some(value) => entry(self@, key@) == Some(value@),
                None => entry(self@, key@) is None,
            },
    {
        match self.place_of(key) {
            Some(i) => Some(self.entries[i].1.clone()),
            None => None,
        }
    }

    /// Puts a value under the key.
    pub fn set(&mut self, key: &str, value: FormValue)
        ensures
            final(self)@ == with_entry(old(self)@, key@, value@),
    {
        let ghost before = self@;
        let ghost new = (key@, value@);
        match self.place_of(key) {
            Some(i) => {
                self.entries[i] = (key.to_owned(), value);
                assert(self@ =~= before.update(i as int, new));
            },
            None => {
                self.entries.push((key.to_owned(), value));
                assert(self@ =~= before.push(new));
            },
        }
    }
}

/// What was submitted, with the text under the key read as a number of at most `max`; another value
/// is left as it is.
pub open spec fn with_number(
    entries: Seq<(Seq<char>, ValueView)>,
    key: Seq<char>,
    max: nat,
) -> Result<Seq<(Seq<char>, ValueView)>, Seq<char>> {
    match entry(entries, key) {
        Some(ValueView::Text(text)) => match parsed(trimmed(text), max) {
            Some(n) => Ok(with_entry(entries, key, ValueView::Number(n as u64))),
            None => Err("'"@ + key + "' must be a valid number"@),
        },
        _ => Ok(entries),
    }
}

fn normalize_field(data: &mut FormData, key: &str, max: u64) -> (r: Result<(), Error>)
    ensures
        match with_number(old(data)@, key@, max as nat) {
            Ok(entries) => r is Ok && final(data)@ == entries,
            Err(message) => r matches Err(e) && e@ == message && final(data)@ == old(data)@,
        },
{
    match data.get(key) {
        Some(FormValue::Text(text)) => {
            let number = trim(text.as_str());
            match parse_unsigned(number.as_str(), max) {
                Some(n) => {
                    data.set(key, FormValue::Number(n));
                    Ok(())
                },
                None => Err(Error::of3("'", key, "' must be a valid number")),
            }
        },
        _ => Ok(()),
    }
}

/// Reads the text under the key as a 32-bit number.
pub fn normalize_u32_field(data: &mut FormData, key: &str) -> (r: Result<(), Error>)
    ensures
        match with_number(old(data)@, key@, u32::MAX as nat) {
            Ok(entries) => r is Ok && final(data)@ == entries,
            Err(message) => r matches Err(e) && e@ == message && final(data)@ == old(data)@,
        },
{
    normalize_field(data, key, u32::MAX as u64)
}

/// Reads the text under the key as a 64-bit number.
pub fn normalize_u64_field(data: &mut FormData, key: &str) -> (r: Result<(), Error>)
    ensures
        match with_number(old(data)@, key@, u64::MAX as nat) {
            Ok(entries) => r is Ok && final(data)@ == entries,
            Err(message) => r matches Err(e) && e@ == message && final(data)@ == old(data)@,
        },
{
    normalize_field(data, key, u64::MAX)
}

/// What was submitted, with the value under `from` also under `to`, where nothing is under `to`.
pub open spec fn with_alias(
    entries: Seq<(Seq<char>, ValueView)>,
    from: Seq<char>,
    to: Seq<char>,
) -> Seq<(Seq<char>, ValueView)> {
    if entry(entries, to) is Some {
        entries
    } else {
        match entry(entries, from) {
            Some(value) => with_entry(entries, to, value),
            None => entries,
        }
    }
}

/// Puts the value under `from` also under `to`, where nothing is there yet.
pub fn copy_alias_key(data: &mut FormData, from: &str, to: &str)
    ensures
        final(data)@ == with_alias(old(data)@, from@, to@),
{
    if data.get(to).is_none() {
        if let Some(value) = data.get(from) {
            data.set(to, value);
        }
    }
}

/// What was submitted, with every field under its name with dashes.
pub open spec fn with_aliases(entries: Seq<(Seq<char>, ValueView)>) -> Seq<(Seq<char>, ValueView)> {
    let entries = with_alias(entries, "source_remote"@, "source-remote"@);
    let entries = with_alias(entries, "source_node"@, "source-node"@);
    let entries = with_alias(entries, "guest_type"@, "guest-type"@);
    let entries = with_alias(entries, "target_remote"@, "target-remote"@);
    let entries = with_alias(entries, "target_node"@, "target-node"@);
    let entries = with_alias(entries, "target_dataset"@, "target-dataset"@);
    let entries = with_alias(entries, "max_snapshots"@, "max-snapshots"@);
    let entries = with_alias(entries, "history_limit"@, "history-limit"@);
    let entries = with_alias(entries, "rate_limit_mib"@, "rate-limit-mib"@);
    let entries = with_alias(entries, "source_user"@, "source-user"@);
    let entries = with_alias(entries, "target_user"@, "target-user"@);
    let entries = with_alias(entries, "ssh_private_key"@, "ssh-private-key"@);
    with_alias(entries, "qga_fsfreeze"@, "qga-fsfreeze"@)
}

/// Puts every field under its name with dashes.
pub fn normalize_job_form_aliases(data: &mut FormData)
    ensures
        final(data)@ == with_aliases(old(data)@),
{
    copy_alias_key(data, "source_remote", "source-remote");
    copy_alias_key(data, "source_node", "source-node");
    copy_alias_key(data, "guest_type", "guest-type");
    copy_alias_key(data, "target_remote", "target-remote");
    copy_alias_key(data, "target_node", "target-node");
    copy_alias_key(data, "target_dataset", "target-dataset");
    copy_alias_key(data, "max_snapshots", "max-snapshots");
    copy_alias_key(data, "history_limit", "history-limit");
    copy_alias_key(data, "rate_limit_mib", "rate-limit-mib");
    copy_alias_key(data, "source_user", "source-user");
    copy_alias_key(data, "target_user", "target-user");
    copy_alias_key(data, "ssh_private_key", "ssh-private-key");
    copy_alias_key(data, "qga_fsfreeze", "qga-fsfreeze");
}

/// What was submitted, under the ID of the job that is edited: another ID is refused.
pub open spec fn with_path_id(entries: Seq<(Seq<char>, ValueView)>, path_id: Option<Seq<char>>) -> Result<
    Seq<(Seq<char>, ValueView)>,
    Seq<char>,
> {
    match path_id {
        None => Ok(entries),
        Some(path_id) => {
            let other = match entry(entries, "id"@) {
                Some(ValueView::Text(submitted)) => trimmed(submitted).len() > 0 && trimmed(
                    submitted,
                ) != path_id,
                _ => false,
            };
            if other {
                Err("path ID and payload ID must match"@)
            } else {
                Ok(with_entry(entries, "id"@, ValueView::Text(path_id)))
            }
        },
    }
}

/// What was submitted, as it is parsed into a job.
pub open spec fn job_form(entries: Seq<(Seq<char>, ValueView)>, path_id: Option<Seq<char>>) -> Result<
    Seq<(Seq<char>, ValueView)>,
    Seq<char>,
> {
    match with_path_id(with_aliases(entries), path_id) {
        Err(e) => Err(e),
        Ok(e0) => match with_number(e0, "vmid"@, u32::MAX as nat) {
            Err(e) => Err(e),
            Ok(e1) => match with_number(e1, "max-snapshots"@, u64::MAX as nat) {
                Err(e) => Err(e),
                Ok(e2) => match with_number(e2, "history-limit"@, u64::MAX as nat) {
                    Err(e) => Err(e),
                    Ok(e3) => with_number(e3, "rate-limit-mib"@, u64::MAX as nat),
                },
            },
        },
    }
}

/// Prepares what was submitted for being parsed into a job. `fallback_id` is the ID of the job that
/// is edited.
pub fn parse_job_form(data: FormData, fallback_id: &Option<String>) -> (r: Result<FormData, Error>)
    ensures
        (match r {
            Ok(data) => Ok(data@),
            Err(e) => Err(e@),
        }) == job_form(data@, crate::text::opt_text(*fallback_id)),
{
    let mut data = data;
    normalize_job_form_aliases(&mut data);
    if let Some(path_id) = fallback_id {
        if let Some(FormValue::Text(submitted)) = data.get("id") {
            let submitted_id = trim(submitted.as_str());
            if !submitted_id.as_str().is_empty() && !same(submitted_id.as_str(), path_id.as_str()) {
                return Err(Error::new("path ID and payload ID must match"));
            }
        }
        data.set("id", FormValue::Text(path_id.clone()));
    }
    if let Err(e) = normalize_u32_field(&mut data, "vmid") {
        return Err(e);
    }
    if let Err(e) = normalize_u64_field(&mut data, "max-snapshots") {
        return Err(e);
    }
    if let Err(e) = normalize_u64_field(&mut data, "history-limit") {
        return Err(e);
    }
    if let Err(e) = normalize_u64_field(&mut data, "rate-limit-mib") {
        return Err(e);
    }
    Ok(data)
}

/// Why a parsed job is refused, where it is.
pub open spec fn form_refusal(job: OffsiteReplicationJob) -> Option<Seq<char>> {
    if trimmed(job.id@).len() == 0 {
        Some("job id is required"@)
    } else if trimmed(job.target_dataset@).len() == 0 {
        Some("target dataset is required"@)
    } else if trimmed(job.schedule@).len() == 0 {
        Some("schedule is required"@)
    } else if trimmed(job.source_user@).len() == 0 || trimmed(job.target_user@).len() == 0
        || trimmed(job.ssh_private_key@).len() == 0 {
        Some("source user, target user and ssh private key are required"@)
    } else {
        None
    }
}

/// The job with its texts trimmed; nothing else is changed.
pub open spec fn is_trimmed_job(job: OffsiteReplicationJob, r: OffsiteReplicationJob) -> bool {
    &&& r.id@ == trimmed(job.id@)
    &&& r.target_dataset@ == trimmed(job.target_dataset@)
    &&& r.schedule@ == trimmed(job.schedule@)
    &&& r.source_user@ == trimmed(job.source_user@)
    &&& r.target_user@ == trimmed(job.target_user@)
    &&& r.ssh_private_key@ == trimmed(job.ssh_private_key@)
    &&& r == (OffsiteReplicationJob {
        id: r.id,
        target_dataset: r.target_dataset,
        schedule: r.schedule,
        source_user: r.source_user,
        target_user: r.target_user,
        ssh_private_key: r.ssh_private_key,
        ..job
    })
}

/// Finishes a job that was parsed from a form: its texts are trimmed, and those that it needs have
/// to be there.
pub fn finish_job_form(job: OffsiteReplicationJob) -> (r: Result<OffsiteReplicationJob, Error>)
    ensures
        match form_refusal(job) {
            Some(message) => r matches Err(e) && e@ == message,
            None => r matches Ok(finished) && is_trimmed_job(job, finished),
        },
{
    let mut job = job;
    let id = trim(job.id.as_str());
    if id.as_str().is_empty() {
        return Err(Error::new("job id is required"));
    }
    let target_dataset = trim(job.target_dataset.as_str());
    if target_dataset.as_str().is_empty() {
        return Err(Error::new("target dataset is required"));
    }
    let schedule = trim(job.schedule.as_str());
    if schedule.as_str().is_empty() {
        return Err(Error::new("schedule is required"));
    }
    let source_user = trim(job.source_user.as_str());
    let target_user = trim(job.target_user.as_str());
    let ssh_private_key = trim(job.ssh_private_key.as_str());
    if source_user.as_str().is_empty() || target_user.as_str().is_empty()
        || ssh_private_key.as_str().is_empty() {
        return Err(Error::new("source user, target user and ssh private key are required"));
    }
    job.id = id;
    job.target_dataset = target_dataset;
    job.schedule = schedule;
    job.source_user = source_user;
    job.target_user = target_user;
    job.ssh_private_key = ssh_private_key;
    Ok(job)
}

/// A value that was put under a key is found there, and every other key keeps its value.
pub proof fn law_value_is_found_under_its_key(
    entries: Seq<(Seq<char>, ValueView)>,
    key: Seq<char>,
    other: Seq<char>,
    value: ValueView,
)
    ensures
        entry(with_entry(entries, key, value), key) == Some(value),
        other != key ==> entry(with_entry(entries, key, value), other) == entry(entries, other),
{
    let after = with_entry(entries, key, value);
    lemma_entry_at(entries, key);
    lemma_entry_at(after, key);
    lemma_entry_at(entries, other);
    lemma_entry_at(after, other);
    match entry_at(entries, key) {
        Some(i) => {
            assert(after[i] == (key, value));
            assert forall|k: int| 0 <= k < i implies (#[trigger] after[k]).0 != key by {
                assert(after[k] == entries[k]);
            }
            if other != key {
                assert forall|k: int| 0 <= k < entries.len() implies (#[trigger] after[k]).0
                    == entries[k].0 by {}
                if let Some(j) = entry_at(entries, other) {
                    assert(after[j].0 == other);
                    if let Some(m) = entry_at(after, other) {
                        assert(entries[m].0 == other);
                    }
                }
                if let Some(m) = entry_at(after, other) {
                    assert(entries[m].0 == other);
                }
            }
        },
        None => {
            assert(after.drop_last() =~= entries);
        },
    }
}

/// A field that is under its name with dashes is not replaced by one under the other name.
pub proof fn law_present_field_is_kept(
    entries: Seq<(Seq<char>, ValueView)>,
    from: Seq<char>,
    to: Seq<char>,
)
    requires
        entry(entries, to) is Some,
    ensures
        with_alias(entries, from, to) == entries,
{
}

/// The value under the first key, else the one under the second.
pub open spec fn either(
    entries: Seq<(Seq<char>, ValueView)>,
    first: Seq<char>,
    second: Seq<char>,
) -> Option<ValueView> {
    if entry(entries, first) is Some {
        entry(entries, first)
    } else {
        entry(entries, second)
    }
}

/// A value is put under the second name where nothing is there yet, and nothing else changes.
pub proof fn law_alias_fills_a_gap(
    entries: Seq<(Seq<char>, ValueView)>,
    from: Seq<char>,
    to: Seq<char>,
    key: Seq<char>,
)
    ensures
        entry(with_alias(entries, from, to), to) == either(entries, to, from),
        key != to ==> entry(with_alias(entries, from, to), key) == entry(entries, key),
{
    if entry(entries, to) is None {
        if let Some(value) = entry(entries, from) {
            law_value_is_found_under_its_key(entries, to, key, value);
        }
    }
}

proof fn lemma_alias(entries: Seq<(Seq<char>, ValueView)>, from: Seq<char>, to: Seq<char>)
    ensures
        entry(with_alias(entries, from, to), to) == either(entries, to, from),
        forall|key: Seq<char>|
            key != to ==> #[trigger] entry(with_alias(entries, from, to), key) == entry(
                entries,
                key,
            ),
{
    assert forall|key: Seq<char>| key != to implies #[trigger] entry(
        with_alias(entries, from, to),
        key,
    ) == entry(entries, key) by {
        law_alias_fills_a_gap(entries, from, to, key);
    }
    law_alias_fills_a_gap(entries, from, to, to);
}

/// The names of the fields that have a dash in them.
pub open spec fn dashed_names() -> Seq<Seq<char>> {
    seq![
        "source-remote"@,
        "source-node"@,
        "guest-type"@,
        "target-remote"@,
        "target-node"@,
        "target-dataset"@,
        "max-snapshots"@,
        "history-limit"@,
        "rate-limit-mib"@,
        "source-user"@,
        "target-user"@,
        "ssh-private-key"@,
        "qga-fsfreeze"@,
    ]
}

proof fn lemma_dashed_names()
    ensures
        dashed_names().no_duplicates(),
        forall|i: int, k: int|
            0 <= i < dashed_names().len() && 0 <= k < dashed_names()[i].len()
                ==> #[trigger] dashed_names()[i][k] != '_',
{
    let names = dashed_names();
    reveal_strlit("source_remote");
    reveal_strlit("source-remote");
    reveal_strlit("source_node");
    reveal_strlit("source-node");
    reveal_strlit("guest_type");
    reveal_strlit("guest-type");
    reveal_strlit("target_remote");
    reveal_strlit("target-remote");
    reveal_strlit("target_node");
    reveal_strlit("target-node");
    reveal_strlit("target_dataset");
    reveal_strlit("target-dataset");
    reveal_strlit("max_snapshots");
    reveal_strlit("max-snapshots");
    reveal_strlit("history_limit");
    reveal_strlit("history-limit");
    reveal_strlit("rate_limit_mib");
    reveal_strlit("rate-limit-mib");
    reveal_strlit("source_user");
    reveal_strlit("source-user");
    reveal_strlit("target_user");
    reveal_strlit("target-user");
    reveal_strlit("ssh_private_key");
    reveal_strlit("ssh-private-key");
    reveal_strlit("qga_fsfreeze");
    reveal_strlit("qga-fsfreeze");
    assert(names[0] == "source-remote"@);
    assert(names[1] == "source-node"@);
    assert(names[2] == "guest-type"@);
    assert(names[3] == "target-remote"@);
    assert(names[4] == "target-node"@);
    assert(names[5] == "target-dataset"@);
    assert(names[6] == "max-snapshots"@);
    assert(names[7] == "history-limit"@);
    assert(names[8] == "rate-limit-mib"@);
    assert(names[9] == "source-user"@);
    assert(names[10] == "target-user"@);
    assert(names[11] == "ssh-private-key"@);
    assert(names[12] == "qga-fsfreeze"@);
    assert(names[0].len() == 13 && names[0][0] == 's' && names[0][7] == 'r');
    assert(names[1].len() == 11 && names[1][0] == 's' && names[1][7] == 'n');
    assert(names[2].len() == 10 && names[2][0] == 'g' && names[2][7] == 'y');
    assert(names[3].len() == 13 && names[3][0] == 't' && names[3][7] == 'r');
    assert(names[4].len() == 11 && names[4][0] == 't' && names[4][7] == 'n');
    assert(names[5].len() == 14 && names[5][0] == 't' && names[5][7] == 'd');
    assert(names[6].len() == 13 && names[6][0] == 'm' && names[6][7] == 'p');
    assert(names[7].len() == 13 && names[7][0] == 'h' && names[7][7] == '-');
    assert(names[8].len() == 14 && names[8][0] == 'r' && names[8][7] == 'm');
    assert(names[9].len() == 11 && names[9][0] == 's' && names[9][7] == 'u');
    assert(names[10].len() == 11 && names[10][0] == 't' && names[10][7] == 'u');
    assert(names[11].len() == 15 && names[11][0] == 's' && names[11][7] == 'v');
    assert(names[12].len() == 12 && names[12][0] == 'q' && names[12][7] == 'r');
    assert forall|i: int, j: int| 0 <= i < names.len() && 0 <= j < names.len() && i != j implies names[i]
        != names[j] by {
        assert(i == 0 || i == 1 || i == 2 || i == 3 || i == 4 || i == 5 || i == 6 || i == 7 || i == 8 || i == 9 || i == 10 || i == 11 || i == 12);
        assert(j == 0 || j == 1 || j == 2 || j == 3 || j == 4 || j == 5 || j == 6 || j == 7 || j == 8 || j == 9 || j == 10 || j == 11 || j == 12);
        if names[i] == names[j] {
            assert(names[i].len() == names[j].len());
            assert(names[i][0] == names[j][0]);
            assert(names[i][7] == names[j][7]);
        }
    }
}

proof fn lemma_underscored(name: Seq<char>, at: int)
    requires
        0 <= at < name.len(),
        name[at] == '_',
    ensures
        !dashed_names().contains(name),
{
    lemma_dashed_names();
    if dashed_names().contains(name) {
        let i = choose|i: int| 0 <= i < dashed_names().len() && dashed_names()[i] == name;
        assert(dashed_names()[i][at] != '_');
    }
}

/// Every field is found under its name with dashes: what was submitted under that name, else what was
/// submitted under the name with underscores. Every other key keeps its value.
pub proof fn law_fields_are_found_under_dashed_names(
    entries: Seq<(Seq<char>, ValueView)>,
    key: Seq<char>,
)
    ensures
        entry(with_aliases(entries), "source-remote"@) == either(entries, "source-remote"@, "source_remote"@),
        entry(with_aliases(entries), "source-node"@) == either(entries, "source-node"@, "source_node"@),
        entry(with_aliases(entries), "guest-type"@) == either(entries, "guest-type"@, "guest_type"@),
        entry(with_aliases(entries), "target-remote"@) == either(entries, "target-remote"@, "target_remote"@),
        entry(with_aliases(entries), "target-node"@) == either(entries, "target-node"@, "target_node"@),
        entry(with_aliases(entries), "target-dataset"@) == either(entries, "target-dataset"@, "target_dataset"@),
        entry(with_aliases(entries), "max-snapshots"@) == either(entries, "max-snapshots"@, "max_snapshots"@),
        entry(with_aliases(entries), "history-limit"@) == either(entries, "history-limit"@, "history_limit"@),
        entry(with_aliases(entries), "rate-limit-mib"@) == either(entries, "rate-limit-mib"@, "rate_limit_mib"@),
        entry(with_aliases(entries), "source-user"@) == either(entries, "source-user"@, "source_user"@),
        entry(with_aliases(entries), "target-user"@) == either(entries, "target-user"@, "target_user"@),
        entry(with_aliases(entries), "ssh-private-key"@) == either(entries, "ssh-private-key"@, "ssh_private_key"@),
        entry(with_aliases(entries), "qga-fsfreeze"@) == either(entries, "qga-fsfreeze"@, "qga_fsfreeze"@),
        !dashed_names().contains(key) ==> entry(with_aliases(entries), key) == entry(entries, key),
{
    let names = dashed_names();
    lemma_dashed_names();
    assert(names[0] == "source-remote"@);
    assert(names[1] == "source-node"@);
    assert(names[2] == "guest-type"@);
    assert(names[3] == "target-remote"@);
    assert(names[4] == "target-node"@);
    assert(names[5] == "target-dataset"@);
    assert(names[6] == "max-snapshots"@);
    assert(names[7] == "history-limit"@);
    assert(names[8] == "rate-limit-mib"@);
    assert(names[9] == "source-user"@);
    assert(names[10] == "target-user"@);
    assert(names[11] == "ssh-private-key"@);
    assert(names[12] == "qga-fsfreeze"@);
    assert(!names.contains("source_remote"@)) by {
        reveal_strlit("source_remote");
        lemma_underscored("source_remote"@, 6);
    }
    assert(!names.contains("source_node"@)) by {
        reveal_strlit("source_node");
        lemma_underscored("source_node"@, 6);
    }
    assert(!names.contains("guest_type"@)) by {
        reveal_strlit("guest_type");
        lemma_underscored("guest_type"@, 5);
    }
    assert(!names.contains("target_remote"@)) by {
        reveal_strlit("target_remote");
        lemma_underscored("target_remote"@, 6);
    }
    assert(!names.contains("target_node"@)) by {
        reveal_strlit("target_node");
        lemma_underscored("target_node"@, 6);
    }
    assert(!names.contains("target_dataset"@)) by {
        reveal_strlit("target_dataset");
        lemma_underscored("target_dataset"@, 6);
    }
    assert(!names.contains("max_snapshots"@)) by {
        reveal_strlit("max_snapshots");
        lemma_underscored("max_snapshots"@, 3);
    }
    assert(!names.contains("history_limit"@)) by {
        reveal_strlit("history_limit");
        lemma_underscored("history_limit"@, 7);
    }
    assert(!names.contains("rate_limit_mib"@)) by {
        reveal_strlit("rate_limit_mib");
        lemma_underscored("rate_limit_mib"@, 4);
    }
    assert(!names.contains("source_user"@)) by {
        reveal_strlit("source_user");
        lemma_underscored("source_user"@, 6);
    }
    assert(!names.contains("target_user"@)) by {
        reveal_strlit("target_user");
        lemma_underscored("target_user"@, 6);
    }
    assert(!names.contains("ssh_private_key"@)) by {
        reveal_strlit("ssh_private_key");
        lemma_underscored("ssh_private_key"@, 3);
    }
    assert(!names.contains("qga_fsfreeze"@)) by {
        reveal_strlit("qga_fsfreeze");
        lemma_underscored("qga_fsfreeze"@, 3);
    }
    let e0 = entries;
    let e1 = with_alias(e0, "source_remote"@, "source-remote"@);
    lemma_alias(e0, "source_remote"@, "source-remote"@);
    let e2 = with_alias(e1, "source_node"@, "source-node"@);
    lemma_alias(e1, "source_node"@, "source-node"@);
    let e3 = with_alias(e2, "guest_type"@, "guest-type"@);
    lemma_alias(e2, "guest_type"@, "guest-type"@);
    let e4 = with_alias(e3, "target_remote"@, "target-remote"@);
    lemma_alias(e3, "target_remote"@, "target-remote"@);
    let e5 = with_alias(e4, "target_node"@, "target-node"@);
    lemma_alias(e4, "target_node"@, "target-node"@);
    let e6 = with_alias(e5, "target_dataset"@, "target-dataset"@);
    lemma_alias(e5, "target_dataset"@, "target-dataset"@);
    let e7 = with_alias(e6, "max_snapshots"@, "max-snapshots"@);
    lemma_alias(e6, "max_snapshots"@, "max-snapshots"@);
    let e8 = with_alias(e7, "history_limit"@, "history-limit"@);
    lemma_alias(e7, "history_limit"@, "history-limit"@);
    let e9 = with_alias(e8, "rate_limit_mib"@, "rate-limit-mib"@);
    lemma_alias(e8, "rate_limit_mib"@, "rate-limit-mib"@);
    let e10 = with_alias(e9, "source_user"@, "source-user"@);
    lemma_alias(e9, "source_user"@, "source-user"@);
    let e11 = with_alias(e10, "target_user"@, "target-user"@);
    lemma_alias(e10, "target_user"@, "target-user"@);
    let e12 = with_alias(e11, "ssh_private_key"@, "ssh-private-key"@);
    lemma_alias(e11, "ssh_private_key"@, "ssh-private-key"@);
    let e13 = with_alias(e12, "qga_fsfreeze"@, "qga-fsfreeze"@);
    lemma_alias(e12, "qga_fsfreeze"@, "qga-fsfreeze"@);
}

/// A text that holds a number is read as that number, with or without white space around it; the
/// other fields stay as they are.
pub proof fn law_number_is_read(
    entries: Seq<(Seq<char>, ValueView)>,
    key: Seq<char>,
    other: Seq<char>,
    n: nat,
    max: nat,
)
    requires
        entry(entries, key) matches Some(ValueView::Text(text)) && trimmed(text) == decimal(n),
        n <= max <= u64::MAX,
        other != key,
    ensures
        with_number(entries, key, max) matches Ok(after) && entry(after, key) == Some(
            ValueView::Number(n as u64),
        ) && entry(after, other) == entry(entries, other),
{
    law_decimal_reads_back(n, max);
    law_value_is_found_under_its_key(entries, key, other, ValueView::Number(n as u64));
}

/// A text that holds no number, or one over the limit, is refused by the field's name; what is no
/// text is left as it is, and so is a missing field.
pub proof fn law_other_texts_are_refused_as_numbers(
    entries: Seq<(Seq<char>, ValueView)>,
    key: Seq<char>,
    max: nat,
)
    ensures
        entry(entries, key) matches Some(ValueView::Text(text)) ==> (parsed(
            trimmed(text),
            max,
        ) is None ==> with_number(entries, key, max) == Err::<
            Seq<(Seq<char>, ValueView)>,
            Seq<char>,
        >("'"@ + key + "' must be a valid number"@)),
        entry(entries, key) matches Some(ValueView::Number(_)) ==> with_number(entries, key, max)
            == Ok::<Seq<(Seq<char>, ValueView)>, Seq<char>>(entries),
        entry(entries, key) is None ==> with_number(entries, key, max) == Ok::<
            Seq<(Seq<char>, ValueView)>,
            Seq<char>,
        >(entries),
{
}

/// The job that is edited keeps its ID: what is submitted under it may be missing, blank or the same,
/// but not another one. A new job keeps the ID that was submitted.
pub proof fn law_edited_job_keeps_its_id(
    entries: Seq<(Seq<char>, ValueView)>,
    path_id: Seq<char>,
    other: Seq<char>,
)
    requires
        other != "id"@,
    ensures
        with_path_id(entries, None) == Ok::<Seq<(Seq<char>, ValueView)>, Seq<char>>(entries),
        entry(entries, "id"@) matches Some(ValueView::Text(text)) ==> (trimmed(text).len() > 0
            && trimmed(text) != path_id ==> with_path_id(entries, Some(path_id)) == Err::<
            Seq<(Seq<char>, ValueView)>,
            Seq<char>,
        >("path ID and payload ID must match"@)),
        with_path_id(entries, Some(path_id)) matches Ok(after) ==> entry(after, "id"@) == Some(
            ValueView::Text(path_id),
        ) && entry(after, other) == entry(entries, other),
        entry(entries, "id"@) is None ==> with_path_id(entries, Some(path_id)) is Ok,
        entry(entries, "id"@) matches Some(ValueView::Text(text)) ==> (trimmed(text) == path_id
            || trimmed(text).len() == 0 ==> with_path_id(entries, Some(path_id)) is Ok),
{
    law_value_is_found_under_its_key(entries, "id"@, other, ValueView::Text(path_id));
}

/// A job is finished exactly where none of the texts that it needs is blank; the first that is blank
/// is told.
pub proof fn law_needed_texts_are_asked_for(job: OffsiteReplicationJob)
    ensures
        form_refusal(job) is None <==> (!is_blank(job.id@) && !is_blank(job.target_dataset@)
            && !is_blank(job.schedule@) && !is_blank(job.source_user@) && !is_blank(
            job.target_user@,
        ) && !is_blank(job.ssh_private_key@)),
        is_blank(job.id@) ==> form_refusal(job) == Some("job id is required"@),
        !is_blank(job.id@) && is_blank(job.target_dataset@) ==> form_refusal(job) == Some(
            "target dataset is required"@,
        ),
        !is_blank(job.id@) && !is_blank(job.target_dataset@) && is_blank(job.schedule@)
            ==> form_refusal(job) == Some("schedule is required"@),
{
}

/// A finished job has its texts without white space around them; everything else of it is kept.
pub proof fn law_finished_job_is_trimmed(job: OffsiteReplicationJob, r: OffsiteReplicationJob)
    requires
        is_trimmed_job(job, r),
    ensures
        r.id@ == trimmed(job.id@) && r.target_dataset@ == trimmed(job.target_dataset@) && r.schedule@
            == trimmed(job.schedule@),
        r.source_user@ == trimmed(job.source_user@) && r.target_user@ == trimmed(job.target_user@)
            && r.ssh_private_key@ == trimmed(job.ssh_private_key@),
        r.source_remote == job.source_remote && r.source_node == job.source_node && r.target_remote
            == job.target_remote && r.target_node == job.target_node,
        r.guest_type == job.guest_type && r.vmid == job.vmid && r.max_snapshots == job.max_snapshots
            && r.history_limit == job.history_limit,
        r.rate_limit_mib == job.rate_limit_mib && r.zfs_stream_mode == job.zfs_stream_mode
            && r.qga_fsfreeze == job.qga_fsfreeze,
        r.comment == job.comment && r.disable == job.disable,
{
}

proof fn lemma_with_number(entries: Seq<(Seq<char>, ValueView)>, key: Seq<char>, max: nat)
    ensures
        with_number(entries, key, max) matches Ok(after) ==> {
            &&& forall|other: Seq<char>|
                other != key ==> #[trigger] entry(after, other) == entry(entries, other)
            &&& entry(entries, key) matches Some(ValueView::Text(text)) ==> parsed(
                trimmed(text),
                max,
            ) is Some && entry(after, key) == Some(
                ValueView::Number(parsed(trimmed(text), max)->0 as u64),
            )
        },
{
    if let Ok(after) = with_number(entries, key, max) {
        assert forall|other: Seq<char>| other != key implies #[trigger] entry(after, other)
            == entry(entries, other) by {
            if let Some(ValueView::Text(text)) = entry(entries, key) {
                let n = parsed(trimmed(text), max)->0;
                law_value_is_found_under_its_key(
                    entries,
                    key,
                    other,
                    ValueView::Number(n as u64),
                );
            }
        }
        if let Some(ValueView::Text(text)) = entry(entries, key) {
            let n = parsed(trimmed(text), max)->0;
            law_value_is_found_under_its_key(entries, key, key, ValueView::Number(n as u64));
        }
    }
}

/// What a form is parsed from: the guest's ID, the snapshots, the runs and the bandwidth limit are
/// numbers where they were submitted as texts, the guest's ID one of 32 bits and the others of 64;
/// every other field is as it was submitted.
pub proof fn law_form_has_its_numbers(
    entries: Seq<(Seq<char>, ValueView)>,
    path_id: Option<Seq<char>>,
    other: Seq<char>,
)
    requires
        job_form(entries, path_id) is Ok,
        other != "vmid"@ && other != "max-snapshots"@ && other != "history-limit"@ && other
            != "rate-limit-mib"@,
    ensures
        ({
            let named = with_path_id(with_aliases(entries), path_id);
            let after = job_form(entries, path_id)->Ok_0;
            let read = |key: Seq<char>, max: nat|
                entry(named->Ok_0, key) matches Some(ValueView::Text(text)) ==> parsed(
                    trimmed(text),
                    max,
                ) is Some && entry(after, key) == Some(
                    ValueView::Number(parsed(trimmed(text), max)->0 as u64),
                );
            &&& named is Ok
            &&& read("vmid"@, u32::MAX as nat)
            &&& read("max-snapshots"@, u64::MAX as nat)
            &&& read("history-limit"@, u64::MAX as nat)
            &&& read("rate-limit-mib"@, u64::MAX as nat)
            &&& entry(after, other) == entry(named->Ok_0, other)
        }),
{
    reveal_strlit("vmid");
    reveal_strlit("max-snapshots");
    reveal_strlit("history-limit");
    reveal_strlit("rate-limit-mib");
    assert("vmid"@.len() == 4 && "max-snapshots"@.len() == 13 && "history-limit"@.len() == 13
        && "rate-limit-mib"@.len() == 14);
    assert("max-snapshots"@[0] == 'm' && "history-limit"@[0] == 'h');
    let e0 = with_path_id(with_aliases(entries), path_id)->Ok_0;
    let e1 = with_number(e0, "vmid"@, u32::MAX as nat)->Ok_0;
    let e2 = with_number(e1, "max-snapshots"@, u64::MAX as nat)->Ok_0;
    let e3 = with_number(e2, "history-limit"@, u64::MAX as nat)->Ok_0;
    lemma_with_number(e0, "vmid"@, u32::MAX as nat);
    lemma_with_number(e1, "max-snapshots"@, u64::MAX as nat);
    lemma_with_number(e2, "history-limit"@, u64::MAX as nat);
    lemma_with_number(e3, "rate-limit-mib"@, u64::MAX as nat);
}

/// What is submitted for a job is refused for the first of these that does not hold: its ID is that of
/// the edited job, and the guest's ID, the snapshots, the runs and the bandwidth limit are numbers.
pub proof fn law_form_is_refused_for_the_first_reason(
    entries: Seq<(Seq<char>, ValueView)>,
    path_id: Option<Seq<char>>,
)
    ensures
        ({
            let answer = job_form(entries, path_id);
            let named = with_path_id(with_aliases(entries), path_id);
            &&& named matches Err(why) ==> answer == Err::<Seq<(Seq<char>, ValueView)>, Seq<char>>(
                why,
            )
            &&& named matches Ok(e) ==> (with_number(e, "vmid"@, u32::MAX as nat) matches Err(why)
                ==> answer == Err::<Seq<(Seq<char>, ValueView)>, Seq<char>>(why))
        }),
{
}

} // verus!
