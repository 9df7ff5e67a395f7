//! The record of a job's runs: what a run's output says of the transfer, and which runs are kept.
use crate::config::{file_text, text_to_parse};
use crate::pieces::{
    join_from, joined, law_words_come_one_by_one, lines, lines_of, split_whitespace, words_of,
};
use crate::text::{
    alpha, blank, chars_of, contains, cut_first, has_prefix, is_alpha, occurs, opt_text,
    split_once, starts_with, strip_prefix, text_of, texts, trim, trimmed, is_white,
    lemma_cut_first_of, lemma_trimmed_already,
};
use crate::types::{
    OffsiteReplicationRun, RunView, DEFAULT_OFFSITE_REPLICATION_HISTORY_LIMIT,
};
use vstd::prelude::*;

verus! {

// ---------------------------------------------------------------------------------------------
// Sizes in text
// ---------------------------------------------------------------------------------------------

/// A size as it is written: a number, and what one unit of it stands for in bytes.
#[derive(Debug, PartialEq)]
pub struct ByteSizeText {
    /// The number, which may have a fraction.
    pub number: String,
    /// The bytes of one unit.
    pub factor: u64,
}

/// The bytes that a unit letter stands for.
pub open spec fn unit_factor(c: char) -> Option<u64> {
    if c == 'K' || c == 'k' {
        Some(1024)
    } else if c == 'M' || c == 'm' {
        Some(1_048_576)
    } else if c == 'G' || c == 'g' {
        Some(1_073_741_824)
    } else if c == 'T' || c == 't' {
        Some(1_099_511_627_776)
    } else if c == 'P' || c == 'p' {
        Some(1_125_899_906_842_624)
    } else {
        None
    }
}

/// The text without the `B` of bytes at its end.
pub open spec fn without_b(s: Seq<char>) -> Seq<char> {
    if s.len() > 0 && s.last() == 'B' {
        s.drop_last()
    } else {
        s
    }
}

/// How a size is written: its number and the bytes of one unit. A text that is blank, or that ends
/// with a letter that is no unit, is no size.
pub open spec fn size_text(text: Seq<char>) -> Option<(Seq<char>, u64)> {
    let outer = trimmed(text);
    let inner = trimmed(without_b(outer));
    if outer.len() == 0 {
        None
    } else if inner.len() > 0 && is_alpha(inner.last()) {
        match unit_factor(inner.last()) {
            Some(factor) => Some((trimmed(inner.drop_last()), factor)),
            None => None,
        }
    } else {
        Some((trimmed(inner), 1))
    }
}

pub open spec fn size_view(o: Option<ByteSizeText>) -> Option<(Seq<char>, u64)> {
    match o {
        Some(size) => Some((size.number@, size.factor)),
        None => None,
    }
}

/// How a size is written.
pub fn byte_size_text(text: &str) -> (r: Option<ByteSizeText>)
    ensures
        size_view(r) == size_text(text@),
{
    let outer = trim(text);
    let v = chars_of(outer.as_str());
    if v.len() == 0 {
        return None;
    }
    let n: usize = if v[v.len() - 1] == 'B' {
        v.len() - 1
    } else {
        v.len()
    };
    let stripped = text_of(&v, 0, n);
    assert(stripped@ =~= without_b(outer@));
    let inner = trim(stripped.as_str());
    let w = chars_of(inner.as_str());
    if w.len() > 0 && alpha(w[w.len() - 1]) {
        let last: char = w[w.len() - 1];
        let factor: u64 = if last == 'K' || last == 'k' {
            1024
        } else if last == 'M' || last == 'm' {
            1_048_576
        } else if last == 'G' || last == 'g' {
            1_073_741_824
        } else if last == 'T' || last == 't' {
            1_099_511_627_776
        } else if last == 'P' || last == 'p' {
            1_125_899_906_842_624
        } else {
            return None;
        };
        let number = text_of(&w, 0, w.len() - 1);
        assert(number@ =~= inner@.drop_last());
        Some(ByteSizeText { number: trim(number.as_str()), factor })
    } else {
        Some(ByteSizeText { number: trim(inner.as_str()), factor: 1 })
    }
}

// ---------------------------------------------------------------------------------------------
// What the output of a run says of the transfer
// ---------------------------------------------------------------------------------------------

/// What one line of output says of the transfer.
pub enum FactView {
    /// A full send: the snapshot and the estimated size.
    Full(Seq<char>, Seq<char>),
    /// An incremental send: the base snapshot, the snapshot and the estimated size.
    Incremental(Seq<char>, Seq<char>, Seq<char>),
    /// The estimated size of the whole.
    Total(Seq<char>),
    /// A row of the transfer table: the size sent and the snapshot.
    Row(Seq<char>, Seq<char>),
}

/// The size that is written in a line of output.
pub open spec fn fact_size(fact: FactView) -> Seq<char> {
    match fact {
        FactView::Full(_, size) => size,
        FactView::Incremental(_, _, size) => size,
        FactView::Total(size) => size,
        FactView::Row(size, _) => size,
    }
}

/// A row of the transfer table: a time, a size and a snapshot.
pub open spec fn table_row(line: Seq<char>) -> Option<FactView> {
    let parts = words_of(line);
    if parts.len() < 3 || !occurs(parts[0], ":"@) || !occurs(parts[2], "@"@) {
        None
    } else {
        Some(FactView::Row(parts[1], joined(parts.skip(2), " "@)))
    }
}

/// What the rest of a line that announces a full send says.
pub open spec fn full_send(rest: Seq<char>) -> Option<FactView> {
    match cut_first(rest, " estimated size is "@) {
        Some((snapshot, size)) => Some(FactView::Full(trimmed(snapshot), size)),
        None => None,
    }
}

/// What the rest of a line that announces an incremental send says.
pub open spec fn incremental_send(rest: Seq<char>) -> Option<FactView> {
    match cut_first(rest, " to "@) {
        Some((source, remaining)) => match cut_first(remaining, " estimated size is "@) {
            Some((snapshot, size)) => Some(
                FactView::Incremental(trimmed(source), trimmed(snapshot), size),
            ),
            None => None,
        },
        None => None,
    }
}

/// The line is the heading of the transfer table.
pub open spec fn is_heading(line: Seq<char>) -> bool {
    has_prefix(line, "TIME"@) && occurs(line, "SENT"@) && occurs(line, "SNAPSHOT"@)
}

/// What one line of output says of the transfer.
pub open spec fn line_fact(raw: Seq<char>) -> Option<FactView> {
    let line = trimmed(raw);
    if line.len() == 0 {
        None
    } else if has_prefix(line, "full send of "@) {
        full_send(line.skip("full send of "@.len() as int))
    } else if has_prefix(line, "send from "@) {
        incremental_send(line.skip("send from "@.len() as int))
    } else if has_prefix(line, "total estimated size is "@) {
        Some(FactView::Total(line.skip("total estimated size is "@.len() as int)))
    } else if is_heading(line) {
        None
    } else {
        table_row(line)
    }
}

/// What the lines say of the transfer.
pub open spec fn facts_in(all: Seq<Seq<char>>) -> Seq<FactView>
    decreases all.len(),
{
    if all.len() == 0 {
        seq![]
    } else {
        let front = facts_in(all.drop_last());
        match line_fact(all.last()) {
            Some(fact) => front.push(fact),
            None => front,
        }
    }
}

/// What an output says of the transfer.
pub open spec fn facts_of(output: Seq<char>) -> Seq<FactView> {
    facts_in(lines_of(output))
}

/// What one line of output says of the transfer.
pub enum TransferFact {
    Full(String, String),
    Incremental(String, String, String),
    Total(String),
    Row(String, String),
}

impl View for TransferFact {
    type V = FactView;

    open spec fn view(&self) -> FactView {
        match self {
            TransferFact::Full(snapshot, size) => FactView::Full(snapshot@, size@),
            TransferFact::Incremental(source, snapshot, size) => FactView::Incremental(
                source@,
                snapshot@,
                size@,
            ),
            TransferFact::Total(size) => FactView::Total(size@),
            TransferFact::Row(size, snapshot) => FactView::Row(size@, snapshot@),
        }
    }
}

pub open spec fn opt_fact(o: Option<TransferFact>) -> Option<FactView> {
    match o {
        Some(fact) => Some(fact@),
        None => None,
    }
}

pub open spec fn facts_view(v: Seq<TransferFact>) -> Seq<FactView> {
    Seq::new(v.len(), |i: int| v[i]@)
}

/// Reads a row of the transfer table.
pub fn parse_transfer_table_line(line: &str) -> (r: Option<TransferFact>)
    ensures
        opt_fact(r) == table_row(line@),
{
    let parts = split_whitespace(line);
    let ghost all = words_of(line@);
    assert(all.len() == parts.len());
    if parts.len() < 3 {
        return None;
    }
    assert(all[0] == parts@[0]@ && all[1] == parts@[1]@ && all[2] == parts@[2]@);
    if !contains(parts[0].as_str(), ":") || !contains(parts[2].as_str(), "@") {
        return None;
    }
    Some(TransferFact::Row(parts[1].clone(), join_from(&parts, 2, " ")))
}

fn read_full_send(rest: &str) -> (r: Option<TransferFact>)
    ensures
        opt_fact(r) == full_send(rest@),
{
    match split_once(rest, " estimated size is ") {
        Some((snapshot, size)) => Some(TransferFact::Full(trim(snapshot.as_str()), size)),
        None => None,
    }
}

fn read_incremental_send(rest: &str) -> (r: Option<TransferFact>)
    ensures
        opt_fact(r) == incremental_send(rest@),
{
    match split_once(rest, " to ") {
        Some((source, remaining)) => match split_once(remaining.as_str(), " estimated size is ") {
            Some((snapshot, size)) => Some(
                TransferFact::Incremental(trim(source.as_str()), trim(snapshot.as_str()), size),
            ),
            None => None,
        },
        None => None,
    }
}

fn read_line(raw: &str) -> (r: Option<TransferFact>)
    ensures
        opt_fact(r) == line_fact(raw@),
{
    let trimmed_line = trim(raw);
    let line = trimmed_line.as_str();
    if line.is_empty() {
        return None;
    }
    if let Some(rest) = strip_prefix(line, "full send of ") {
        return read_full_send(rest.as_str());
    }
    if let Some(rest) = strip_prefix(line, "send from ") {
        return read_incremental_send(rest.as_str());
    }
    if let Some(rest) = strip_prefix(line, "total estimated size is ") {
        return Some(TransferFact::Total(rest));
    }
    if starts_with(line, "TIME") && contains(line, "SENT") && contains(line, "SNAPSHOT") {
        return None;
    }
    parse_transfer_table_line(line)
}

/// What an output says of the transfer.
pub fn transfer_facts(output: &str) -> (r: Vec<TransferFact>)
    ensures
        facts_view(r@) == facts_of(output@),
{
    let list = lines(output);
    let ghost all = lines_of(output@);
    let mut facts: Vec<TransferFact> = Vec::new();
    let mut i: usize = 0;
    assert(all.take(0) =~= seq![]);
    assert(facts_view(facts@) =~= facts_in(all.take(0)));
    while i < list.len()
        invariant
            i <= list.len(),
            all == texts(list@),
            facts_view(facts@) == facts_in(all.take(i as int)),
        decreases list.len() - i,
    {
        assert(all.take(i + 1).drop_last() =~= all.take(i as int));
        match read_line(list[i].as_str()) {
            Some(fact) => {
                let ghost held = facts@;
                let ghost new = fact@;
                facts.push(fact);
                assert(facts_view(facts@) =~= facts_view(held).push(new));
            },
            None => {},
        }
        i += 1;
    }
    assert(all.len() == list.len());
    assert(all.take(all.len() as int) =~= all);
    facts
}

/// How the sizes in an output are written, one for each line that says something of the transfer.
pub fn transfer_sizes(output: &str) -> (r: Vec<Option<ByteSizeText>>)
    ensures
        r.len() == facts_of(output@).len(),
        forall|i: int|
            0 <= i < r.len() ==> size_view(#[trigger] r@[i]) == size_text(
                fact_size(facts_of(output@)[i]),
            ),
{
    let facts = transfer_facts(output);
    let ghost all = facts_of(output@);
    let mut sizes: Vec<Option<ByteSizeText>> = Vec::new();
    let mut i: usize = 0;
    assert(all.len() == facts.len());
    while i < facts.len()
        invariant
            i <= facts.len(),
            all == facts_view(facts@),
            all == facts_of(output@),
            sizes.len() == i,
            forall|k: int|
                0 <= k < i ==> size_view(#[trigger] sizes@[k]) == size_text(fact_size(all[k])),
        decreases facts.len() - i,
    {
        assert(all[i as int] == facts@[i as int]@);
        let size = match &facts[i] {
            TransferFact::Full(_, size) => byte_size_text(size.as_str()),
            TransferFact::Incremental(_, _, size) => byte_size_text(size.as_str()),
            TransferFact::Total(size) => byte_size_text(size.as_str()),
            TransferFact::Row(size, _) => byte_size_text(size.as_str()),
        };
        sizes.push(size);
        i += 1;
    }
    sizes
}

/// The bytes that the `i`-th size in the output stands for, where that is known.
pub open spec fn size_at(sizes: Seq<Option<u64>>, i: int) -> Option<u64> {
    if 0 <= i < sizes.len() {
        sizes[i]
    } else {
        None
    }
}

/// The first that is known.
pub open spec fn known<T>(a: Option<T>, b: Option<T>) -> Option<T> {
    if a is Some {
        a
    } else {
        b
    }
}

/// The run after one line of output, whose size is `size` bytes.
pub open spec fn with_fact(run: RunView, fact: FactView, size: Option<u64>) -> RunView {
    match fact {
        FactView::Full(snapshot, _) => RunView {
            transfer_mode: Some("full"@),
            source_snapshot: Some(snapshot),
            snapshot: known(run.snapshot, Some(snapshot)),
            estimated_bytes: size,
            ..run
        },
        FactView::Incremental(source, snapshot, _) => RunView {
            transfer_mode: Some("incremental"@),
            source_snapshot: Some(source),
            snapshot: Some(snapshot),
            estimated_bytes: size,
            ..run
        },
        FactView::Total(_) => RunView {
            estimated_bytes: known(run.estimated_bytes, size),
            ..run
        },
        FactView::Row(_, snapshot) => RunView {
            transferred_bytes: known(run.transferred_bytes, size),
            snapshot: known(run.snapshot, Some(snapshot)),
            ..run
        },
    }
}

/// The run after the first `n` lines of output that say something of the transfer.
pub open spec fn with_facts(
    run: RunView,
    facts: Seq<FactView>,
    sizes: Seq<Option<u64>>,
    n: int,
) -> RunView
    decreases n,
{
    if n <= 0 {
        run
    } else {
        with_fact(with_facts(run, facts, sizes, n - 1), facts[n - 1], size_at(sizes, n - 1))
    }
}

/// The run with what its output says of the transfer. A successful run whose output has no row for
/// the transfer is taken to have sent what was estimated.
pub open spec fn annotated(run: RunView, sizes: Seq<Option<u64>>) -> RunView {
    let facts = facts_of(run.output);
    let read = with_facts(run, facts, sizes, facts.len() as int);
    if read.success {
        RunView {
            transferred_bytes: known(read.transferred_bytes, read.estimated_bytes),
            ..read
        }
    } else {
        read
    }
}

fn apply_fact(run: OffsiteReplicationRun, fact: &TransferFact, size: Option<u64>) -> (r:
    OffsiteReplicationRun)
    ensures
        r@ == with_fact(run@, fact@, size),
{
    let mut run = run;
    match fact {
        TransferFact::Full(snapshot, _) => {
            run.transfer_mode = Some("full".to_owned());
            run.source_snapshot = Some(snapshot.clone());
            if run.snapshot.is_none() {
                run.snapshot = Some(snapshot.clone());
            }
            run.estimated_bytes = size;
        },
        TransferFact::Incremental(source, snapshot, _) => {
            run.transfer_mode = Some("incremental".to_owned());
            run.source_snapshot = Some(source.clone());
            run.snapshot = Some(snapshot.clone());
            run.estimated_bytes = size;
        },
        TransferFact::Total(_) => {
            if run.estimated_bytes.is_none() {
                run.estimated_bytes = size;
            }
        },
        TransferFact::Row(_, snapshot) => {
            if run.transferred_bytes.is_none() {
                run.transferred_bytes = size;
            }
            if run.snapshot.is_none() {
                run.snapshot = Some(snapshot.clone());
            }
        },
    }
    run
}

/// The run with what its output says of the transfer. `sizes` gives in bytes the sizes that
/// `transfer_sizes` finds in the output.
pub fn annotate_run(run: OffsiteReplicationRun, sizes: &Vec<Option<u64>>) -> (r:
    OffsiteReplicationRun)
    ensures
        r@ == annotated(run@, sizes@),
{
    let ghost start = run@;
    let facts = transfer_facts(run.output.as_str());
    let ghost all = facts_of(start.output);
    let mut run = run;
    let mut i: usize = 0;
    assert(all.len() == facts.len());
    while i < facts.len()
        invariant
            i <= facts.len(),
            all == facts_view(facts@),
            run@ == with_facts(start, all, sizes@, i as int),
        decreases facts.len() - i,
    {
        assert(all[i as int] == facts@[i as int]@);
        let size: Option<u64> = if i < sizes.len() {
            sizes[i]
        } else {
            None
        };
        run = apply_fact(run, &facts[i], size);
        i += 1;
    }
    if run.success && run.transferred_bytes.is_none() {
        run.transferred_bytes = run.estimated_bytes;
    }
    run
}

// ---------------------------------------------------------------------------------------------
// The runs that are kept
// ---------------------------------------------------------------------------------------------

/// The recorded runs of a job, the oldest first.
#[derive(Debug)]
pub struct JobHistoryFile {
    /// The runs.
    pub runs: Vec<OffsiteReplicationRun>,
}

pub open spec fn runs_view(v: Seq<OffsiteReplicationRun>) -> Seq<RunView> {
    Seq::new(v.len(), |i: int| v[i]@)
}

/// The last `n` items, or all where there are fewer.
pub open spec fn last_items<T>(s: Seq<T>, n: int) -> Seq<T> {
    if s.len() > n {
        s.skip(s.len() - n)
    } else {
        s
    }
}

/// The number of runs to keep that a job's history limit stands for: at least one.
pub open spec fn kept_runs(limit: u64) -> int {
    if limit > usize::MAX {
        DEFAULT_OFFSITE_REPLICATION_HISTORY_LIMIT as int
    } else if limit == 0 {
        1
    } else {
        limit as int
    }
}

/// The text to parse of a history file. Nothing is to be parsed where the file is missing or blank:
/// no runs are recorded then.
pub fn load_history(content: Option<String>) -> (r: Option<String>)
    ensures
        opt_text(r) == text_to_parse(file_text(content)),
{
    let text = match content {
        Some(s) => s,
        None => String::new(),
    };
    assert(text@ =~= file_text(content));
    if blank(text.as_str()) {
        None
    } else {
        Some(text)
    }
}

/// The number of runs to keep that a job's history limit stands for.
pub fn normalize_history_limit(limit: u64) -> (r: usize)
    ensures
        r == kept_runs(limit),
        r >= 1,
{
    if limit > usize::MAX as u64 {
        DEFAULT_OFFSITE_REPLICATION_HISTORY_LIMIT as usize
    } else if limit == 0 {
        1
    } else {
        limit as usize
    }
}

/// Records a run, and drops the oldest runs over the limit.
pub fn append_history(
    history: &mut JobHistoryFile,
    history_limit: usize,
    run: OffsiteReplicationRun,
    sizes: &Vec<Option<u64>>,
)
    ensures
        runs_view(final(history).runs@) == last_items(
            runs_view(old(history).runs@).push(annotated(run@, sizes@)),
            history_limit as int,
        ),
{
    let ghost before = history.runs@;
    let ghost new = annotated(run@, sizes@);
    history.runs.push(annotate_run(run, sizes));
    assert(runs_view(history.runs@) =~= runs_view(before).push(new));
    let n: usize = history.runs.len();
    if n > history_limit {
        let ghost all = history.runs@;
        let kept = history.runs.split_off(n - history_limit);
        assert(runs_view(kept@) =~= runs_view(all).skip(n - history_limit));
        history.runs = kept;
    }
}

/// The last `limit` recorded runs, or all of them, the oldest first.
pub fn list_history(history: JobHistoryFile, limit: Option<usize>) -> (r: Vec<
    OffsiteReplicationRun,
>)
    ensures
        r@ == (match limit {
            Some(n) => last_items(history.runs@, n as int),
            None => history.runs@,
        }),
{
    let mut runs = history.runs;
    match limit {
        Some(n) => {
            if runs.len() > n {
                let ghost all = runs@;
                let start: usize = runs.len() - n;
                let kept = runs.split_off(start);
                assert(kept@ =~= all.skip(start as int));
                kept
            } else {
                runs
            }
        },
        None => runs,
    }
}

// ---------------------------------------------------------------------------------------------
// Laws
// ---------------------------------------------------------------------------------------------

/// The line announces a send.
pub open spec fn is_send(fact: FactView) -> bool {
    fact is Full || fact is Incremental
}

/// What is read from the output leaves the rest of the run as it is.
proof fn lemma_rest_kept(run: RunView, facts: Seq<FactView>, sizes: Seq<Option<u64>>, n: int)
    ensures
        ({
            let read = with_facts(run, facts, sizes, n);
            &&& read.start_time == run.start_time
            &&& read.end_time == run.end_time
            &&& read.duration == run.duration
            &&& read.success == run.success
            &&& read.error == run.error
            &&& read.output == run.output
        }),
    decreases n,
{
    if n > 0 {
        lemma_rest_kept(run, facts, sizes, n - 1);
    }
}

/// Two runs agree on mode, base and estimate after a line that announces a send.
proof fn lemma_send_settles(
    a: RunView,
    b: RunView,
    facts: Seq<FactView>,
    sizes: Seq<Option<u64>>,
    k: int,
    n: int,
)
    requires
        0 <= k < n,
        is_send(facts[k]),
    ensures
        ({
            let x = with_facts(a, facts, sizes, n);
            let y = with_facts(b, facts, sizes, n);
            &&& x.transfer_mode == y.transfer_mode
            &&& x.source_snapshot == y.source_snapshot
            &&& x.estimated_bytes == y.estimated_bytes
        }),
    decreases n,
{
    if k < n - 1 {
        lemma_send_settles(a, b, facts, sizes, k, n - 1);
    }
}

/// Two runs agree on the snapshot after a line that announces an incremental send.
proof fn lemma_incremental_settles(
    a: RunView,
    b: RunView,
    facts: Seq<FactView>,
    sizes: Seq<Option<u64>>,
    k: int,
    n: int,
)
    requires
        0 <= k < n,
        facts[k] is Incremental,
    ensures
        ({
            let x = with_facts(a, facts, sizes, n);
            let y = with_facts(b, facts, sizes, n);
            x.snapshot == y.snapshot && x.snapshot is Some
        }),
    decreases n,
{
    if k < n - 1 {
        lemma_incremental_settles(a, b, facts, sizes, k, n - 1);
    }
}

/// Where no send is announced, mode and base are kept, and so is an estimate that is known.
proof fn lemma_no_send(run: RunView, facts: Seq<FactView>, sizes: Seq<Option<u64>>, n: int)
    requires
        forall|i: int| 0 <= i < n ==> !is_send(#[trigger] facts[i]),
    ensures
        ({
            let read = with_facts(run, facts, sizes, n);
            &&& read.transfer_mode == run.transfer_mode
            &&& read.source_snapshot == run.source_snapshot
            &&& run.estimated_bytes is Some ==> read.estimated_bytes == run.estimated_bytes
            &&& read.estimated_bytes is None ==> (run.estimated_bytes is None && forall|i: int|
                0 <= i < n && (#[trigger] facts[i]) is Total ==> size_at(sizes, i) is None)
        }),
    decreases n,
{
    if n > 0 {
        lemma_no_send(run, facts, sizes, n - 1);
        assert(!is_send(facts[n - 1]));
    }
}

proof fn lemma_no_estimate(run: RunView, facts: Seq<FactView>, sizes: Seq<Option<u64>>, n: int)
    requires
        run.estimated_bytes is None,
        forall|i: int| 0 <= i < n ==> !is_send(#[trigger] facts[i]),
        forall|i: int|
            0 <= i < n && (#[trigger] facts[i]) is Total ==> size_at(sizes, i) is None,
    ensures
        with_facts(run, facts, sizes, n).estimated_bytes is None,
    decreases n,
{
    if n > 0 {
        lemma_no_estimate(run, facts, sizes, n - 1);
        assert(!is_send(facts[n - 1]));
    }
}

/// The size sent is kept where it is known, and comes from a row otherwise.
proof fn lemma_rows(run: RunView, facts: Seq<FactView>, sizes: Seq<Option<u64>>, n: int)
    ensures
        ({
            let read = with_facts(run, facts, sizes, n);
            &&& run.transferred_bytes is Some ==> read.transferred_bytes == run.transferred_bytes
            &&& read.transferred_bytes is None ==> (run.transferred_bytes is None && forall|i: int|
                0 <= i < n && (#[trigger] facts[i]) is Row ==> size_at(sizes, i) is None)
        }),
    decreases n,
{
    if n > 0 {
        lemma_rows(run, facts, sizes, n - 1);
    }
}

proof fn lemma_no_row(run: RunView, facts: Seq<FactView>, sizes: Seq<Option<u64>>, n: int)
    requires
        run.transferred_bytes is None,
        forall|i: int| 0 <= i < n && (#[trigger] facts[i]) is Row ==> size_at(sizes, i) is None,
    ensures
        with_facts(run, facts, sizes, n).transferred_bytes is None,
    decreases n,
{
    if n > 0 {
        lemma_no_row(run, facts, sizes, n - 1);
    }
}

/// Where no incremental send is announced, a snapshot that is known is kept.
proof fn lemma_no_incremental(run: RunView, facts: Seq<FactView>, sizes: Seq<Option<u64>>, n: int)
    requires
        forall|i: int| 0 <= i < n ==> !((#[trigger] facts[i]) is Incremental),
    ensures
        ({
            let read = with_facts(run, facts, sizes, n);
            &&& run.snapshot is Some ==> read.snapshot == run.snapshot
            &&& read.snapshot is None ==> (run.snapshot is None && forall|i: int|
                0 <= i < n ==> (#[trigger] facts[i]) is Total)
        }),
    decreases n,
{
    if n > 0 {
        lemma_no_incremental(run, facts, sizes, n - 1);
        assert(!(facts[n - 1] is Incremental));
    }
}

proof fn lemma_totals_only(run: RunView, facts: Seq<FactView>, sizes: Seq<Option<u64>>, n: int)
    requires
        forall|i: int| 0 <= i < n ==> (#[trigger] facts[i]) is Total,
    ensures
        with_facts(run, facts, sizes, n).snapshot == run.snapshot,
    decreases n,
{
    if n > 0 {
        lemma_totals_only(run, facts, sizes, n - 1);
        assert(facts[n - 1] is Total);
    }
}

/// A run that was annotated is not changed when it is annotated again, as happens when it is
/// recorded.
pub proof fn law_annotating_twice_is_annotating_once(run: RunView, sizes: Seq<Option<u64>>)
    ensures
        annotated(annotated(run, sizes), sizes) == annotated(run, sizes),
{
    let facts = facts_of(run.output);
    let n = facts.len() as int;
    let read = with_facts(run, facts, sizes, n);
    let once = annotated(run, sizes);
    lemma_rest_kept(run, facts, sizes, n);
    lemma_rest_kept(once, facts, sizes, n);
    let again = with_facts(once, facts, sizes, n);
    if exists|k: int| 0 <= k < n && is_send(#[trigger] facts[k]) {
        let k = choose|k: int| 0 <= k < n && is_send(#[trigger] facts[k]);
        lemma_send_settles(run, once, facts, sizes, k, n);
    } else {
        lemma_no_send(run, facts, sizes, n);
        lemma_no_send(once, facts, sizes, n);
        if once.estimated_bytes is None {
            lemma_no_estimate(once, facts, sizes, n);
        }
    }
    assert(again.estimated_bytes == once.estimated_bytes);
    if exists|k: int| 0 <= k < n && (#[trigger] facts[k]) is Incremental {
        let k = choose|k: int| 0 <= k < n && (#[trigger] facts[k]) is Incremental;
        lemma_incremental_settles(run, once, facts, sizes, k, n);
    } else {
        lemma_no_incremental(run, facts, sizes, n);
        lemma_no_incremental(once, facts, sizes, n);
        if once.snapshot is None {
            lemma_totals_only(once, facts, sizes, n);
        }
    }
    assert(again.snapshot == once.snapshot);
    lemma_rows(run, facts, sizes, n);
    lemma_rows(once, facts, sizes, n);
    if once.transferred_bytes is None {
        lemma_no_row(once, facts, sizes, n);
    }
}

/// To annotate a run changes neither its times, its success, its error nor its output.
pub proof fn law_annotating_keeps_what_was_observed(run: RunView, sizes: Seq<Option<u64>>)
    ensures
        ({
            let read = annotated(run, sizes);
            &&& read.start_time == run.start_time
            &&& read.end_time == run.end_time
            &&& read.duration == run.duration
            &&& read.success == run.success
            &&& read.error == run.error
            &&& read.output == run.output
        }),
{
    let facts = facts_of(run.output);
    lemma_rest_kept(run, facts, sizes, facts.len() as int);
}

/// A successful run with a known estimate has a size sent: the table row's, or the estimate.
pub proof fn law_successful_run_falls_back_to_estimate(run: RunView, sizes: Seq<Option<u64>>)
    requires
        run.success,
        annotated(run, sizes).estimated_bytes is Some,
    ensures
        annotated(run, sizes).transferred_bytes is Some,
{
    let facts = facts_of(run.output);
    lemma_rest_kept(run, facts, sizes, facts.len() as int);
}

/// A recorded run is the last one that the history lists, and no more runs than the limit are kept.
pub proof fn law_recorded_run_is_listed_last(
    runs: Seq<RunView>,
    run: RunView,
    sizes: Seq<Option<u64>>,
    limit: int,
    listed: int,
)
    requires
        limit >= 1,
        listed >= 1,
    ensures
        ({
            let kept = last_items(runs.push(annotated(run, sizes)), limit);
            &&& 1 <= kept.len() <= limit
            &&& last_items(kept, listed).last() == annotated(run, sizes)
        }),
{
}

/// What is kept of a history is its end: the runs are dropped from the oldest on, and those that
/// stay keep their order.
pub proof fn law_oldest_runs_are_dropped_first<T>(runs: Seq<T>, limit: int)
    requires
        limit >= 0,
    ensures
        last_items(runs, limit).len() <= limit,
        forall|i: int|
            0 <= i < last_items(runs, limit).len() ==> #[trigger] last_items(runs, limit)[i]
                == runs[runs.len() - last_items(runs, limit).len() + i],
        last_items(last_items(runs, limit), limit) == last_items(runs, limit),
{
}

proof fn lemma_first_row(
    run: RunView,
    facts: Seq<FactView>,
    sizes: Seq<Option<u64>>,
    k: int,
    n: int,
)
    requires
        0 <= k < n,
        k < sizes.len(),
        run.transferred_bytes is None,
        facts[k] is Row,
        sizes[k] is Some,
        forall|i: int| 0 <= i < k && (#[trigger] facts[i]) is Row ==> size_at(sizes, i) is None,
    ensures
        with_facts(run, facts, sizes, n).transferred_bytes == sizes[k],
    decreases n,
{
    if k < n - 1 {
        lemma_first_row(run, facts, sizes, k, n - 1);
    } else {
        lemma_no_row(run, facts, sizes, k);
    }
}

/// The size sent is what the transfer table says, not what was estimated: of a run that does not
/// know it yet, it is the first size in a row of the table that can be read.
pub proof fn law_size_sent_is_read_from_the_table(run: RunView, sizes: Seq<Option<u64>>, k: int)
    requires
        run.transferred_bytes is None,
        0 <= k < facts_of(run.output).len(),
        k < sizes.len(),
        facts_of(run.output)[k] is Row,
        sizes[k] is Some,
        forall|i: int|
            0 <= i < k && (#[trigger] facts_of(run.output)[i]) is Row ==> sizes[i] is None,
    ensures
        annotated(run, sizes).transferred_bytes == sizes[k],
{
    let facts = facts_of(run.output);
    assert forall|i: int| 0 <= i < k && (#[trigger] facts[i]) is Row implies size_at(
        sizes,
        i,
    ) is None by {
        assert(facts_of(run.output)[i] is Row);
    }
    lemma_first_row(run, facts, sizes, k, facts.len() as int);
}

/// A size sent that is known is kept. Where no row of the table has a size that can be read, a
/// successful run is taken to have sent what was estimated, and of a failed one nothing is known.
pub proof fn law_estimate_stands_in_for_the_size_sent(run: RunView, sizes: Seq<Option<u64>>)
    requires
        forall|i: int|
            0 <= i < facts_of(run.output).len() && i < sizes.len() && (#[trigger] facts_of(
                run.output,
            )[i]) is Row ==> sizes[i] is None,
    ensures
        run.transferred_bytes is Some ==> annotated(run, sizes).transferred_bytes
            == run.transferred_bytes,
        run.transferred_bytes is None && run.success ==> annotated(run, sizes).transferred_bytes
            == annotated(run, sizes).estimated_bytes,
        run.transferred_bytes is None && !run.success ==> annotated(
            run,
            sizes,
        ).transferred_bytes is None,
{
    let facts = facts_of(run.output);
    let n = facts.len() as int;
    lemma_rest_kept(run, facts, sizes, n);
    lemma_rows(run, facts, sizes, n);
    if run.transferred_bytes is None {
        assert forall|i: int| 0 <= i < n && (#[trigger] facts[i]) is Row implies size_at(
            sizes,
            i,
        ) is None by {
            assert(facts_of(run.output)[i] is Row);
        }
        lemma_no_row(run, facts, sizes, n);
    }
}

proof fn lemma_estimate_kept(
    run: RunView,
    facts: Seq<FactView>,
    sizes: Seq<Option<u64>>,
    k: int,
    n: int,
)
    requires
        0 <= k <= n,
        with_facts(run, facts, sizes, k).estimated_bytes is Some,
        forall|i: int| k <= i < n ==> !is_send(#[trigger] facts[i]),
    ensures
        with_facts(run, facts, sizes, n).estimated_bytes == with_facts(
            run,
            facts,
            sizes,
            k,
        ).estimated_bytes,
    decreases n - k,
{
    if k < n {
        lemma_estimate_kept(run, facts, sizes, k, n - 1);
        assert(!is_send(facts[n - 1]));
    }
}

proof fn lemma_mode_kept(
    run: RunView,
    facts: Seq<FactView>,
    sizes: Seq<Option<u64>>,
    k: int,
    n: int,
)
    requires
        0 <= k <= n,
        forall|i: int| k <= i < n ==> !is_send(#[trigger] facts[i]),
    ensures
        with_facts(run, facts, sizes, n).transfer_mode == with_facts(
            run,
            facts,
            sizes,
            k,
        ).transfer_mode,
        with_facts(run, facts, sizes, n).source_snapshot == with_facts(
            run,
            facts,
            sizes,
            k,
        ).source_snapshot,
    decreases n - k,
{
    if k < n {
        lemma_mode_kept(run, facts, sizes, k, n - 1);
        assert(!is_send(facts[n - 1]));
    }
}

/// The last line that announces a send settles the mode of the transfer, the snapshot that it starts
/// from, and the estimate, where that line has one that can be read.
pub proof fn law_last_send_settles_the_mode(run: RunView, sizes: Seq<Option<u64>>, k: int)
    requires
        0 <= k < facts_of(run.output).len(),
        facts_of(run.output)[k] is Full || facts_of(run.output)[k] is Incremental,
        forall|i: int|
            k < i < facts_of(run.output).len() ==> !((#[trigger] facts_of(
                run.output,
            )[i]) is Full || facts_of(run.output)[i] is Incremental),
    ensures
        match facts_of(run.output)[k] {
            FactView::Full(snapshot, _) => {
                &&& annotated(run, sizes).transfer_mode == Some("full"@)
                &&& annotated(run, sizes).source_snapshot == Some(snapshot)
            },
            FactView::Incremental(source, _, _) => {
                &&& annotated(run, sizes).transfer_mode == Some("incremental"@)
                &&& annotated(run, sizes).source_snapshot == Some(source)
            },
            _ => true,
        },
        k < sizes.len() && sizes[k] is Some ==> annotated(run, sizes).estimated_bytes == sizes[k],
{
    let facts = facts_of(run.output);
    let n = facts.len() as int;
    assert forall|i: int| k + 1 <= i < n implies !is_send(#[trigger] facts[i]) by {
        assert(!(facts_of(run.output)[i] is Full || facts_of(run.output)[i] is Incremental));
    }
    lemma_mode_kept(run, facts, sizes, k + 1, n);
    if k < sizes.len() && sizes[k] is Some {
        lemma_estimate_kept(run, facts, sizes, k + 1, n);
    }
}

proof fn lemma_first_total(
    run: RunView,
    facts: Seq<FactView>,
    sizes: Seq<Option<u64>>,
    k: int,
    n: int,
)
    requires
        0 <= k < n,
        run.estimated_bytes is None,
        facts[k] is Total,
        size_at(sizes, k) is Some,
        forall|i: int| 0 <= i < n ==> !is_send(#[trigger] facts[i]),
        forall|i: int| 0 <= i < k && (#[trigger] facts[i]) is Total ==> size_at(sizes, i) is None,
    ensures
        with_facts(run, facts, sizes, n).estimated_bytes == sizes[k],
{
    lemma_no_estimate(run, facts, sizes, k);
    lemma_estimate_kept(run, facts, sizes, k + 1, n);
}

/// Where no send is announced, mode and base stay as they were, and so does an estimate that is
/// known; one that is not known is the first total that can be read.
pub proof fn law_total_is_estimate_without_sends(run: RunView, sizes: Seq<Option<u64>>, k: int)
    requires
        forall|i: int|
            0 <= i < facts_of(run.output).len() ==> !((#[trigger] facts_of(run.output)[i]) is Full
                || facts_of(run.output)[i] is Incremental),
    ensures
        annotated(run, sizes).transfer_mode == run.transfer_mode,
        annotated(run, sizes).source_snapshot == run.source_snapshot,
        run.estimated_bytes is Some ==> annotated(run, sizes).estimated_bytes
            == run.estimated_bytes,
        run.estimated_bytes is None && 0 <= k < facts_of(run.output).len() && k < sizes.len()
            && facts_of(run.output)[k] is Total && sizes[k] is Some && (forall|i: int|
            0 <= i < k && (#[trigger] facts_of(run.output)[i]) is Total ==> sizes[i] is None)
            ==> annotated(run, sizes).estimated_bytes == sizes[k],
{
    let facts = facts_of(run.output);
    let n = facts.len() as int;
    assert forall|i: int| 0 <= i < n implies !is_send(#[trigger] facts[i]) by {
        assert(!(facts_of(run.output)[i] is Full || facts_of(run.output)[i] is Incremental));
    }
    lemma_no_send(run, facts, sizes, n);
    if run.estimated_bytes is None && 0 <= k < n && k < sizes.len() && facts[k] is Total
        && sizes[k] is Some && (forall|i: int|
        0 <= i < k && (#[trigger] facts_of(run.output)[i]) is Total ==> sizes[i] is None) {
        assert forall|i: int| 0 <= i < k && (#[trigger] facts[i]) is Total implies size_at(
            sizes,
            i,
        ) is None by {
            assert(facts_of(run.output)[i] is Total);
        }
        lemma_first_total(run, facts, sizes, k, n);
    }
}

proof fn lemma_snapshot_kept(
    run: RunView,
    facts: Seq<FactView>,
    sizes: Seq<Option<u64>>,
    k: int,
    n: int,
)
    requires
        0 <= k <= n,
        with_facts(run, facts, sizes, k).snapshot is Some,
        forall|i: int| k <= i < n ==> !((#[trigger] facts[i]) is Incremental),
    ensures
        with_facts(run, facts, sizes, n).snapshot == with_facts(run, facts, sizes, k).snapshot,
    decreases n - k,
{
    if k < n {
        lemma_snapshot_kept(run, facts, sizes, k, n - 1);
        assert(!(facts[n - 1] is Incremental));
    }
}

/// The snapshot of a run is that of the last incremental send that its output announces.
pub proof fn law_last_incremental_send_names_the_snapshot(
    run: RunView,
    sizes: Seq<Option<u64>>,
    k: int,
)
    requires
        0 <= k < facts_of(run.output).len(),
        facts_of(run.output)[k] is Incremental,
        forall|i: int|
            k < i < facts_of(run.output).len() ==> !((#[trigger] facts_of(
                run.output,
            )[i]) is Incremental),
    ensures
        annotated(run, sizes).snapshot == Some(facts_of(run.output)[k]->Incremental_1),
{
    let facts = facts_of(run.output);
    assert forall|i: int| k + 1 <= i < facts.len() implies !((
    #[trigger] facts[i]) is Incremental) by {
        assert(!(facts_of(run.output)[i] is Incremental));
    }
    lemma_snapshot_kept(run, facts, sizes, k + 1, facts.len() as int);
}

/// Without an incremental send, a snapshot that is known is kept; one that is not known is the one
/// that the output names first, in a full send or in a row of the table.
pub proof fn law_first_named_snapshot_is_taken(run: RunView, sizes: Seq<Option<u64>>, k: int)
    requires
        forall|i: int|
            0 <= i < facts_of(run.output).len() ==> !((#[trigger] facts_of(
                run.output,
            )[i]) is Incremental),
    ensures
        run.snapshot is Some ==> annotated(run, sizes).snapshot == run.snapshot,
        run.snapshot is None && 0 <= k < facts_of(run.output).len() && (forall|i: int|
            0 <= i < k ==> (#[trigger] facts_of(run.output)[i]) is Total) ==> match facts_of(
            run.output,
        )[k] {
            FactView::Full(snapshot, _) => annotated(run, sizes).snapshot == Some(snapshot),
            FactView::Row(_, snapshot) => annotated(run, sizes).snapshot == Some(snapshot),
            _ => true,
        },
{
    let facts = facts_of(run.output);
    let n = facts.len() as int;
    assert forall|i: int| 0 <= i < n implies !((#[trigger] facts[i]) is Incremental) by {
        assert(!(facts_of(run.output)[i] is Incremental));
    }
    lemma_no_incremental(run, facts, sizes, n);
    if run.snapshot is None && 0 <= k < n && (forall|i: int|
        0 <= i < k ==> (#[trigger] facts_of(run.output)[i]) is Total) && !(facts[k] is Total) {
        assert forall|i: int| 0 <= i < k implies (#[trigger] facts[i]) is Total by {
            assert(facts_of(run.output)[i] is Total);
        }
        lemma_totals_only(run, facts, sizes, k);
        lemma_snapshot_kept(run, facts, sizes, k + 1, n);
    }
}

proof fn lemma_facts_split(all: Seq<Seq<char>>, more: Seq<Seq<char>>)
    ensures
        facts_in(all + more) == facts_in(all) + facts_in(more),
    decreases more.len(),
{
    if more.len() == 0 {
        assert(all + more =~= all);
        assert(facts_in(all) + facts_in(more) =~= facts_in(all));
    } else {
        assert((all + more).drop_last() =~= all + more.drop_last());
        lemma_facts_split(all, more.drop_last());
        assert(facts_in(all + more) =~= facts_in(all) + facts_in(more));
    }
}

/// Every line is read by itself: what two parts of an output say together is what the first part
/// says, followed by what the second says; and one line alone says one thing at most.
pub proof fn law_lines_are_read_one_by_one(all: Seq<Seq<char>>, more: Seq<Seq<char>>, line: Seq<char>)
    ensures
        facts_in(all + more) == facts_in(all) + facts_in(more),
        facts_in(seq![line]) == (match line_fact(line) {
            Some(fact) => seq![fact],
            None => seq![],
        }),
        facts_in(seq![]).len() == 0,
{
    lemma_facts_split(all, more);
    let one = seq![line];
    assert(one.last() == line);
    assert(one.drop_last() =~= seq![]);
    assert(facts_in(one.drop_last()) =~= seq![]);
    match line_fact(line) {
        Some(fact) => {
            assert(facts_in(one) =~= seq![fact]);
        },
        None => {},
    }
}

/// The line announces what the sender wrote into it: a full send of a snapshot is read as a full
/// send of that snapshot, with the size that was written.
pub proof fn law_full_send_is_read_back(snapshot: Seq<char>, size: Seq<char>)
    requires
        forall|i: int| 0 <= i < snapshot.len() ==> !is_white(#[trigger] snapshot[i]),
        size.len() > 0,
        !is_white(size.last()),
    ensures
        line_fact("full send of "@ + snapshot + " estimated size is "@ + size) == Some(
            FactView::Full(snapshot, size),
        ),
{
    reveal_strlit("full send of ");
    reveal_strlit(" estimated size is ");
    let rest = snapshot + " estimated size is "@ + size;
    let line = "full send of "@ + snapshot + " estimated size is "@ + size;
    assert(line[0] == 'f');
    assert(line.last() == size.last());
    lemma_trimmed_already(line);
    lemma_trimmed_already(snapshot);
    assert(!snapshot.contains(' '));
    assert(line.take("full send of "@.len() as int) =~= "full send of "@);
    assert(line.skip("full send of "@.len() as int) =~= rest);
    lemma_cut_first_of(snapshot, " estimated size is "@, size);
}

/// An incremental send is read as one from the base to the snapshot that were written.
pub proof fn law_incremental_send_is_read_back(
    source: Seq<char>,
    snapshot: Seq<char>,
    size: Seq<char>,
)
    requires
        forall|i: int| 0 <= i < source.len() ==> !is_white(#[trigger] source[i]),
        forall|i: int| 0 <= i < snapshot.len() ==> !is_white(#[trigger] snapshot[i]),
        size.len() > 0,
        !is_white(size.last()),
    ensures
        line_fact(
            "send from "@ + source + " to "@ + snapshot + " estimated size is "@ + size,
        ) == Some(FactView::Incremental(source, snapshot, size)),
{
    reveal_strlit("send from ");
    reveal_strlit("full send of ");
    reveal_strlit(" to ");
    reveal_strlit(" estimated size is ");
    let remaining = snapshot + " estimated size is "@ + size;
    let rest = source + " to "@ + remaining;
    let line = "send from "@ + source + " to "@ + snapshot + " estimated size is "@ + size;
    assert(line[0] == 's');
    assert(line.last() == size.last());
    lemma_trimmed_already(line);
    lemma_trimmed_already(source);
    lemma_trimmed_already(snapshot);
    assert(!source.contains(' '));
    assert(!snapshot.contains(' '));
    if has_prefix(line, "full send of "@) {
        assert(line.take("full send of "@.len() as int)[0] == 'f');
    }
    assert(line.take("send from "@.len() as int) =~= "send from "@);
    assert(line.skip("send from "@.len() as int) =~= rest);
    lemma_cut_first_of(source, " to "@, remaining);
    lemma_cut_first_of(snapshot, " estimated size is "@, size);
}

/// The total is read as the size that was written.
pub proof fn law_total_is_read_back(size: Seq<char>)
    requires
        size.len() > 0,
        !is_white(size.last()),
    ensures
        line_fact("total estimated size is "@ + size) == Some(FactView::Total(size)),
{
    reveal_strlit("send from ");
    reveal_strlit("full send of ");
    reveal_strlit("total estimated size is ");
    let line = "total estimated size is "@ + size;
    assert(line[0] == 't');
    assert(line.last() == size.last());
    lemma_trimmed_already(line);
    if has_prefix(line, "full send of "@) {
        assert(line.take("full send of "@.len() as int)[0] == 'f');
    }
    if has_prefix(line, "send from "@) {
        assert(line.take("send from "@.len() as int)[0] == 's');
    }
    assert(line.take("total estimated size is "@.len() as int) =~= "total estimated size is "@);
    assert(line.skip("total estimated size is "@.len() as int) =~= size);
}

/// A number with a unit letter is that many units of the power of 1024 that the letter stands for,
/// whether the letter is large or small and whether the `B` of bytes follows it. A number alone
/// counts bytes.
pub proof fn law_units_are_powers_of_1024(number: Seq<char>, unit: char, power: nat)
    requires
        number.len() > 0,
        forall|i: int| 0 <= i < number.len() ==> !is_white(#[trigger] number[i]),
        !is_alpha(number.last()),
        (power == 1 && (unit == 'K' || unit == 'k')) || (power == 2 && (unit == 'M' || unit == 'm'))
            || (power == 3 && (unit == 'G' || unit == 'g')) || (power == 4 && (unit == 'T' || unit
            == 't')) || (power == 5 && (unit == 'P' || unit == 'p')),
    ensures
        size_text(number) == Some((number, 1u64)),
        size_text(number.push(unit)) matches Some((n, factor)) && n == number && factor == (
        if power == 1 {
            1024
        } else if power == 2 {
            1024 * 1024
        } else if power == 3 {
            1024 * 1024 * 1024
        } else if power == 4 {
            1024 * 1024 * 1024 * 1024
        } else {
            1024 * 1024 * 1024 * 1024 * 1024
        }),
        size_text(number.push(unit).push('B')) == size_text(number.push(unit)),
{
    let marked = number.push(unit);
    let bytes = marked.push('B');
    lemma_trimmed_already(number);
    lemma_trimmed_already(marked);
    lemma_trimmed_already(bytes);
    assert(bytes.drop_last() =~= marked);
    assert(marked.drop_last() =~= number);
}

/// A text that ends with a letter that is no unit is no size, and neither is an empty one.
pub proof fn law_other_letters_are_no_units(number: Seq<char>, letter: char)
    requires
        forall|i: int| 0 <= i < number.len() ==> !is_white(#[trigger] number[i]),
        is_alpha(letter),
        letter != 'B',
        !seq!['K', 'k', 'M', 'm', 'G', 'g', 'T', 't', 'P', 'p'].contains(letter),
    ensures
        size_text(number.push(letter)) is None,
        size_text(seq![]) is None,
{
    let units = seq!['K', 'k', 'M', 'm', 'G', 'g', 'T', 't', 'P', 'p'];
    let marked = number.push(letter);
    lemma_trimmed_already(marked);
    assert(units[0] == 'K' && units[1] == 'k' && units[2] == 'M' && units[3] == 'm' && units[4]
        == 'G' && units[5] == 'g' && units[6] == 'T' && units[7] == 't' && units[8] == 'P'
        && units[9] == 'p');
}

/// A job keeps as many runs as its limit says, but never none; a limit that no list can reach
/// stands for the default of two hundred.
pub proof fn law_history_limit_is_kept(limit: u64)
    ensures
        1 <= limit <= usize::MAX ==> kept_runs(limit) == limit,
        limit == 0 ==> kept_runs(limit) == 1,
        limit > usize::MAX ==> kept_runs(limit) == 200,
{
}

/// A row of the transfer table is read with the size and the snapshot that stand in it.
pub proof fn law_table_row_is_read_back(time: Seq<char>, size: Seq<char>, snapshot: Seq<char>)
    requires
        time.len() > 0,
        '0' <= time[0] && time[0] <= '9',
        occurs(time, ":"@),
        forall|i: int| 0 <= i < time.len() ==> !is_white(#[trigger] time[i]),
        size.len() > 0,
        forall|i: int| 0 <= i < size.len() ==> !is_white(#[trigger] size[i]),
        snapshot.len() > 0,
        occurs(snapshot, "@"@),
        forall|i: int| 0 <= i < snapshot.len() ==> !is_white(#[trigger] snapshot[i]),
    ensures
        line_fact(time + " "@ + size + " "@ + snapshot) == Some(FactView::Row(size, snapshot)),
{
    reveal_strlit(" ");
    let rest = size + " "@ + snapshot;
    let line = time + " "@ + size + " "@ + snapshot;
    assert(line =~= time.push(' ') + rest);
    assert(rest =~= size.push(' ') + snapshot);
    law_words_come_one_by_one(time, ' ', rest);
    law_words_come_one_by_one(size, ' ', snapshot);
    law_words_come_one_by_one(snapshot, ' ', Seq::<char>::empty());
    let parts = words_of(line);
    assert(parts =~= seq![time, size, snapshot]);
    assert(parts.skip(2) =~= seq![snapshot]);
    assert(line[0] == time[0]);
    assert(line.last() == snapshot.last());
    lemma_trimmed_already(line);
    assert(!has_prefix(line, "full send of "@)) by {
        reveal_strlit("full send of ");
        if has_prefix(line, "full send of "@) {
            assert(line.take("full send of "@.len() as int)[0] == 'f');
        }
    }
    assert(!has_prefix(line, "send from "@)) by {
        reveal_strlit("send from ");
        if has_prefix(line, "send from "@) {
            assert(line.take("send from "@.len() as int)[0] == 's');
        }
    }
    assert(!has_prefix(line, "total estimated size is "@)) by {
        reveal_strlit("total estimated size is ");
        if has_prefix(line, "total estimated size is "@) {
            assert(line.take("total estimated size is "@.len() as int)[0] == 't');
        }
    }
    assert(!has_prefix(line, "TIME"@)) by {
        reveal_strlit("TIME");
        if has_prefix(line, "TIME"@) {
            assert(line.take("TIME"@.len() as int)[0] == 'T');
        }
    }
}

/// A line of fewer than three words that announces nothing says nothing of the transfer.
pub proof fn law_other_lines_say_nothing(line: Seq<char>)
    requires
        trimmed(line) == line,
        words_of(line).len() < 3,
        !has_prefix(line, "full send of "@),
        !has_prefix(line, "send from "@),
        !has_prefix(line, "total estimated size is "@),
    ensures
        line_fact(line) is None,
{
}

/// The heading of the transfer table is no row of it.
pub proof fn law_heading_is_no_row(middle: Seq<char>, last: Seq<char>)
    ensures
        line_fact("TIME"@ + middle + "SENT"@ + last + "SNAPSHOT"@) is None,
{
    let line = "TIME"@ + middle + "SENT"@ + last + "SNAPSHOT"@;
    let nothing = Seq::<char>::empty();
    reveal_strlit("TIME");
    reveal_strlit("SNAPSHOT");
    assert(line[0] == 'T');
    assert(line.last() == 'T');
    lemma_trimmed_already(line);
    assert(line.take(4) =~= "TIME"@);
    assert(line =~= ("TIME"@ + middle) + "SENT"@ + (last + "SNAPSHOT"@));
    crate::text::lemma_stands_where_put("TIME"@ + middle, "SENT"@, last + "SNAPSHOT"@);
    assert(line =~= ("TIME"@ + middle + "SENT"@ + last) + "SNAPSHOT"@ + nothing);
    crate::text::lemma_stands_where_put("TIME"@ + middle + "SENT"@ + last, "SNAPSHOT"@, nothing);
    assert(!has_prefix(line, "full send of "@)) by {
        reveal_strlit("full send of ");
        if has_prefix(line, "full send of "@) {
            assert(line.take("full send of "@.len() as int)[0] == 'f');
        }
    }
    assert(!has_prefix(line, "send from "@)) by {
        reveal_strlit("send from ");
        if has_prefix(line, "send from "@) {
            assert(line.take("send from "@.len() as int)[0] == 's');
        }
    }
    assert(!has_prefix(line, "total estimated size is "@)) by {
        reveal_strlit("total estimated size is ");
        if has_prefix(line, "total estimated size is "@) {
            assert(line.take("total estimated size is "@.len() as int)[0] == 't');
        }
    }
}

/// The size of a line is the one that stands in it, whatever kind of line it is.
pub proof fn law_size_of_a_line(a: Seq<char>, b: Seq<char>, size: Seq<char>)
    ensures
        fact_size(FactView::Full(a, size)) == size,
        fact_size(FactView::Incremental(a, b, size)) == size,
        fact_size(FactView::Total(size)) == size,
        fact_size(FactView::Row(size, a)) == size,
{
}

} // verus!
