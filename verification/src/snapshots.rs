//! Where the snapshots of the source stand on the target.
//!
//! A replicated dataset is received below the target dataset, under one component that encodes the
//! source dataset's path. Older runs used the last component of the source dataset alone.
use crate::ids::{dataset_sanitized, sanitize_dataset_component};
use crate::names::{
    is_component, is_dataset, is_zfs_char, runtime_verdict, snapshot_verdict, validate_runtime_job,
};
use crate::order::{
    insert_sorted, law_sorted_lists_with_the_same_texts_are_equal, strictly_sorted,
};
use crate::pieces::{
    join, joined, lemma_one_more_piece, lemma_pieces_nonempty, lines, lines_of, pieces, split,
};
use crate::shell::{escaped, shell_escape};
use crate::text::{after_last, cut_last, has_prefix, has_suffix, lemma_cut_last, lemma_cut_last_of, lemma_occurs_within, lemma_stands_where_put, occurs, one_of, opt_text, rsplit_once, same, stands_at, starts_with, strip_prefix, tail_after, texts, trim, trimmed, without_prefix};
use crate::types::{Error, OffsiteReplicationJob, OffsiteReplicationRun};
use vstd::prelude::*;

verus! {

/// The parts that are not empty, sanitized.
pub open spec fn encoded_parts(parts: Seq<Seq<char>>) -> Seq<Seq<char>>
    decreases parts.len(),
{
    if parts.len() == 0 {
        seq![]
    } else {
        let front = encoded_parts(parts.drop_last());
        if parts.last().len() == 0 {
            front
        } else {
            front.push(dataset_sanitized(parts.last()))
        }
    }
}

/// The dataset that a source dataset is received into.
pub open spec fn target_for_source(target: Seq<char>, source: Seq<char>) -> Seq<char> {
    target + "/"@ + joined(encoded_parts(pieces(source, '/')), "__"@)
}

/// The dataset that older runs received a source dataset into.
pub open spec fn legacy_target_for_source(target: Seq<char>, source: Seq<char>) -> Seq<char> {
    target + "/"@ + trimmed(after_last(source, "/"@))
}

/// The list with the text at its end, where it is not in it already.
pub open spec fn with_new(list: Seq<Seq<char>>, x: Seq<char>) -> Seq<Seq<char>> {
    if list.contains(x) {
        list
    } else {
        list.push(x)
    }
}

/// A dataset is the target dataset or stands below it.
pub open spec fn within_target(target: Seq<char>, dataset: Seq<char>) -> bool {
    dataset == target || has_prefix(dataset, target + "/"@)
}

/// The places on the target at which a source snapshot may stand, the likeliest first.
pub open spec fn candidates_of(target: Seq<char>, snapshot: Seq<char>) -> Result<
    Seq<Seq<char>>,
    Seq<char>,
> {
    match cut_last(snapshot, "@"@) {
        None => Err("snapshot is missing '@' separator"@),
        Some((source, suffix)) => {
            let direct = if within_target(target, source) {
                seq![source + "@"@ + suffix]
            } else {
                seq![]
            };
            let primary = target_for_source(target, source) + "@"@ + suffix;
            let legacy = legacy_target_for_source(target, source) + "@"@ + suffix;
            Ok(with_new(with_new(direct, primary), legacy))
        },
    }
}

/// A result with texts in the place of the strings and of the error.
pub open spec fn texts_outcome(r: Result<Vec<String>, Error>) -> Result<
    Seq<Seq<char>>,
    Seq<char>,
> {
    match r {
        Ok(v) => Ok(texts(v@)),
        Err(e) => Err(e@),
    }
}

/// The dataset that a source dataset is received into.
pub fn target_dataset_for_source_dataset(target_dataset: &str, source_dataset: &str) -> (r: String)
    ensures
        r@ == target_for_source(target_dataset@, source_dataset@),
{
    let parts = split(source_dataset, '/');
    let ghost all = pieces(source_dataset@, '/');
    let mut encoded: Vec<String> = Vec::new();
    let mut i: usize = 0;
    assert(all.take(0) =~= seq![]);
    assert(texts(encoded@) =~= encoded_parts(all.take(0)));
    while i < parts.len()
        invariant
            i <= parts.len(),
            texts(parts@) == all,
            texts(encoded@) == encoded_parts(all.take(i as int)),
        decreases parts.len() - i,
    {
        assert(all[i as int] == parts@[i as int]@);
        assert(all.take(i + 1).drop_last() =~= all.take(i as int));
        let ghost held = encoded@;
        if !parts[i].as_str().is_empty() {
            encoded.push(sanitize_dataset_component(parts[i].as_str()));
            assert(texts(encoded@) =~= texts(held).push(dataset_sanitized(all[i as int])));
        }
        i += 1;
    }
    assert(all.len() == parts.len());
    assert(all.take(all.len() as int) =~= all);
    let name = join(&encoded, "__");
    let mut dataset = target_dataset.to_owned();
    dataset.append("/");
    dataset.append(name.as_str());
    dataset
}

/// The dataset that older runs received a source dataset into.
pub fn legacy_target_dataset_for_source_dataset(
    target_dataset: &str,
    source_dataset: &str,
) -> (r: String)
    ensures
        r@ == legacy_target_for_source(target_dataset@, source_dataset@),
{
    let tail = tail_after(source_dataset, "/");
    let basename = trim(tail.as_str());
    let mut dataset = target_dataset.to_owned();
    dataset.append("/");
    dataset.append(basename.as_str());
    dataset
}

fn snapshot_of(dataset: String, suffix: &str) -> (r: String)
    ensures
        r@ == dataset@ + "@"@ + suffix@,
{
    let mut snapshot = dataset;
    snapshot.append("@");
    snapshot.append(suffix);
    snapshot
}

fn push_new(list: &mut Vec<String>, text: String)
    ensures
        texts(final(list)@) == with_new(texts(old(list)@), text@),
{
    if !one_of(list, text.as_str()) {
        let ghost held = list@;
        let ghost new = text@;
        list.push(text);
        assert(texts(list@) =~= texts(held).push(new));
    }
}

/// The places on the target at which a source snapshot may stand, the likeliest first.
pub fn source_snapshot_to_target_snapshot_candidates(
    job: &OffsiteReplicationJob,
    source_snapshot: &str,
) -> (r: Result<Vec<String>, Error>)
    ensures
        texts_outcome(r) == candidates_of(job.target_dataset@, source_snapshot@),
{
    match rsplit_once(source_snapshot, "@") {
        None => Err(Error::new("snapshot is missing '@' separator")),
        Some((source_dataset, suffix)) => {
            let target = job.target_dataset.as_str();
            let mut target_prefix = target.to_owned();
            target_prefix.append("/");
            let primary = snapshot_of(
                target_dataset_for_source_dataset(target, source_dataset.as_str()),
                suffix.as_str(),
            );
            let legacy = snapshot_of(
                legacy_target_dataset_for_source_dataset(target, source_dataset.as_str()),
                suffix.as_str(),
            );
            let mut candidates: Vec<String> = Vec::new();
            assert(texts(candidates@) =~= seq![]);
            if same(source_dataset.as_str(), target) || starts_with(
                source_dataset.as_str(),
                target_prefix.as_str(),
            ) {
                candidates.push(snapshot_of(source_dataset.clone(), suffix.as_str()));
                assert(texts(candidates@) =~= seq![source_dataset@ + "@"@ + suffix@]);
            }
            push_new(&mut candidates, primary);
            push_new(&mut candidates, legacy);
            Ok(candidates)
        },
    }
}

/// The first of the candidates that exists.
pub open spec fn first_existing(candidates: Seq<Seq<char>>, existing: Seq<Seq<char>>) -> Option<
    Seq<char>,
>
    decreases candidates.len(),
{
    if candidates.len() == 0 {
        None
    } else if existing.contains(candidates[0]) {
        Some(candidates[0])
    } else {
        first_existing(candidates.skip(1), existing)
    }
}

/// Where the selected snapshot stands on the target.
pub open spec fn resolved(
    target: Seq<char>,
    snapshot: Seq<char>,
    existing: Seq<Seq<char>>,
) -> Result<Seq<char>, Seq<char>> {
    match candidates_of(target, snapshot) {
        Err(e) => Err(e),
        Ok(candidates) => match first_existing(candidates, existing) {
            Some(found) => Ok(found),
            None => Err("selected recovery snapshot could not be resolved on target"@),
        },
    }
}

/// Where the selected snapshot stands on the target, of which `existing` is known to exist.
pub fn resolve_selected_target_snapshot(
    job: &OffsiteReplicationJob,
    source_snapshot: &str,
    existing: &Vec<String>,
) -> (r: Result<String, Error>)
    ensures
        crate::types::text_outcome(r) == resolved(
            job.target_dataset@,
            source_snapshot@,
            texts(existing@),
        ),
{
    match source_snapshot_to_target_snapshot_candidates(job, source_snapshot) {
        Err(e) => Err(e),
        Ok(candidates) => {
            let ghost all = texts(candidates@);
            let mut i: usize = 0;
            assert(all.skip(0) =~= all);
            while i < candidates.len()
                invariant
                    i <= candidates.len(),
                    all == texts(candidates@),
                    candidates_of(job.target_dataset@, source_snapshot@) == Ok::<
                        Seq<Seq<char>>,
                        Seq<char>,
                    >(all),
                    first_existing(all.skip(i as int), texts(existing@)) == first_existing(
                        all,
                        texts(existing@),
                    ),
                decreases candidates.len() - i,
            {
                assert(all.skip(i as int)[0] == candidates@[i as int]@);
                if one_of(existing, candidates[i].as_str()) {
                    return Ok(candidates[i].clone());
                }
                assert(all.skip(i as int).skip(1) =~= all.skip(i + 1));
                i += 1;
            }
            assert(all.len() == candidates.len());
            Err(Error::new("selected recovery snapshot could not be resolved on target"))
        },
    }
}

/// What stands before the disk's name in the target dataset of a snapshot, where there is anything.
pub open spec fn lineage_prefix(target: Seq<char>, target_snapshot: Seq<char>) -> Option<
    Seq<char>,
> {
    match cut_last(target_snapshot, "@"@) {
        None => None,
        Some((dataset, _)) => match without_prefix(dataset, target + "/"@) {
            None => None,
            Some(relative) => match cut_last(relative, "__"@) {
                None => None,
                Some((prefix, _)) => if prefix.len() == 0 {
                    None
                } else {
                    Some(prefix)
                },
            },
        },
    }
}

/// What stands before the disk's name in the target dataset of the snapshot.
pub fn selected_lineage_prefix_from_target_snapshot(
    job: &OffsiteReplicationJob,
    target_snapshot: &str,
) -> (r: Option<String>)
    ensures
        opt_text(r) == lineage_prefix(job.target_dataset@, target_snapshot@),
{
    let mut target_prefix = job.target_dataset.clone();
    target_prefix.append("/");
    match rsplit_once(target_snapshot, "@") {
        None => None,
        Some((dataset, _)) => match strip_prefix(dataset.as_str(), target_prefix.as_str()) {
            None => None,
            Some(relative) => match rsplit_once(relative.as_str(), "__") {
                None => None,
                Some((prefix, _)) => if prefix.as_str().is_empty() {
                    None
                } else {
                    Some(prefix)
                },
            },
        },
    }
}

/// The script that prints those of the first `n` snapshots that exist.
pub open spec fn existing_script_of(snapshots: Seq<Seq<char>>) -> Seq<char>
    decreases snapshots.len(),
{
    if snapshots.len() == 0 {
        "set -eu\n"@
    } else {
        existing_script_of(snapshots.drop_last()) + "if zfs list -H -o name "@ + escaped(
            snapshots.last(),
        ) + " >/dev/null 2>&1; then\n  echo "@ + escaped(snapshots.last()) + "\nfi\n"@
    }
}

/// The script that destroys those of the snapshots that exist.
pub open spec fn purge_script_of(snapshots: Seq<Seq<char>>) -> Seq<char>
    decreases snapshots.len(),
{
    if snapshots.len() == 0 {
        "set -eu\n"@
    } else {
        purge_script_of(snapshots.drop_last()) + "if zfs list -H -o name "@ + escaped(
            snapshots.last(),
        ) + " >/dev/null 2>&1; then\n"@ + "  zfs destroy -R "@ + escaped(snapshots.last())
            + "\nfi\n"@
    }
}

/// The script that destroys the snapshots.
pub open spec fn destroy_script_of(snapshots: Seq<Seq<char>>) -> Seq<char>
    decreases snapshots.len(),
{
    if snapshots.len() == 0 {
        "set -eu\n"@
    } else {
        destroy_script_of(snapshots.drop_last()) + "zfs destroy -R "@ + escaped(snapshots.last())
            + "\n"@
    }
}

/// The script that asks the target which of the snapshots exist; nothing is asked about none.
pub fn existing_snapshots_script(snapshots: &Vec<String>) -> (r: Option<String>)
    ensures
        opt_text(r) == (if snapshots.len() == 0 {
            None
        } else {
            Some(existing_script_of(texts(snapshots@)))
        }),
{
    if snapshots.len() == 0 {
        return None;
    }
    let ghost all = texts(snapshots@);
    let mut script = "set -eu\n".to_owned();
    let mut i: usize = 0;
    assert(all.take(0) =~= seq![]);
    while i < snapshots.len()
        invariant
            i <= snapshots.len(),
            all == texts(snapshots@),
            script@ == existing_script_of(all.take(i as int)),
        decreases snapshots.len() - i,
    {
        assert(all.take(i + 1).drop_last() =~= all.take(i as int));
        let word = shell_escape(snapshots[i].as_str());
        script.append("if zfs list -H -o name ");
        script.append(word.as_str());
        script.append(" >/dev/null 2>&1; then\n  echo ");
        script.append(word.as_str());
        script.append("\nfi\n");
        i += 1;
    }
    assert(all.take(all.len() as int) =~= all);
    Some(script)
}

fn purge_script(snapshots: &Vec<String>) -> (script: String)
    ensures
        script@ == purge_script_of(texts(snapshots@)),
{
    let ghost all = texts(snapshots@);
    let mut script = "set -eu\n".to_owned();
    let mut i: usize = 0;
    assert(all.take(0) =~= seq![]);
    while i < snapshots.len()
        invariant
            i <= snapshots.len(),
            all == texts(snapshots@),
            script@ == purge_script_of(all.take(i as int)),
        decreases snapshots.len() - i,
    {
        assert(all.take(i + 1).drop_last() =~= all.take(i as int));
        let word = shell_escape(snapshots[i].as_str());
        script.append("if zfs list -H -o name ");
        script.append(word.as_str());
        script.append(" >/dev/null 2>&1; then\n");
        script.append("  zfs destroy -R ");
        script.append(word.as_str());
        script.append("\nfi\n");
        i += 1;
    }
    assert(all.take(all.len() as int) =~= all);
    script
}

/// The script that destroys the snapshots.
pub fn destroy_script(snapshots: &Vec<String>) -> (script: String)
    ensures
        script@ == destroy_script_of(texts(snapshots@)),
{
    let ghost all = texts(snapshots@);
    let mut script = "set -eu\n".to_owned();
    let mut i: usize = 0;
    assert(all.take(0) =~= seq![]);
    while i < snapshots.len()
        invariant
            i <= snapshots.len(),
            all == texts(snapshots@),
            script@ == destroy_script_of(all.take(i as int)),
        decreases snapshots.len() - i,
    {
        assert(all.take(i + 1).drop_last() =~= all.take(i as int));
        let word = shell_escape(snapshots[i].as_str());
        script.append("zfs destroy -R ");
        script.append(word.as_str());
        script.append("\n");
        i += 1;
    }
    assert(all.take(all.len() as int) =~= all);
    script
}

/// The lines that are not blank, trimmed.
pub open spec fn filled_lines(all: Seq<Seq<char>>) -> Seq<Seq<char>>
    decreases all.len(),
{
    if all.len() == 0 {
        seq![]
    } else {
        let front = filled_lines(all.drop_last());
        if trimmed(all.last()).len() == 0 {
            front
        } else {
            front.push(trimmed(all.last()))
        }
    }
}

/// The snapshots that the target said exist: one in each line of its answer that is not blank.
pub fn list_existing_target_snapshots(output: &str) -> (r: Vec<String>)
    ensures
        texts(r@) == filled_lines(lines_of(output@)),
{
    let list = lines(output);
    let ghost all = lines_of(output@);
    let mut found: Vec<String> = Vec::new();
    let mut i: usize = 0;
    assert(all.take(0) =~= seq![]);
    assert(texts(found@) =~= filled_lines(all.take(0)));
    while i < list.len()
        invariant
            i <= list.len(),
            all == texts(list@),
            texts(found@) == filled_lines(all.take(i as int)),
        decreases list.len() - i,
    {
        assert(all.take(i + 1).drop_last() =~= all.take(i as int));
        let line = trim(list[i].as_str());
        if !line.as_str().is_empty() {
            let ghost held = found@;
            let ghost new = line@;
            found.push(line);
            assert(texts(found@) =~= texts(held).push(new));
        }
        i += 1;
    }
    assert(all.len() == list.len());
    assert(all.take(all.len() as int) =~= all);
    found
}

/// A run's snapshot may stand at `x` on the target.
pub open spec fn run_names(target: Seq<char>, run: OffsiteReplicationRun, x: Seq<char>) -> bool {
    match run.snapshot {
        None => false,
        Some(snapshot) => match candidates_of(target, snapshot@) {
            Ok(candidates) => candidates.contains(x),
            Err(_) => false,
        },
    }
}

/// The snapshot of one of the runs may stand at `x` on the target.
pub open spec fn recorded(
    target: Seq<char>,
    runs: Seq<OffsiteReplicationRun>,
    x: Seq<char>,
) -> bool {
    exists|i: int| 0 <= i < runs.len() && run_names(target, #[trigger] runs[i], x)
}

/// The sorted list of the places on the target at which the runs' snapshots may stand.
pub open spec fn is_recorded_list(
    target: Seq<char>,
    runs: Seq<OffsiteReplicationRun>,
    list: Seq<Seq<char>>,
) -> bool {
    &&& strictly_sorted(list)
    &&& forall|x: Seq<char>| #[trigger] list.contains(x) <==> recorded(target, runs, x)
}

/// The places on the target at which the snapshots of the recorded runs may stand, sorted.
pub fn list_recorded_target_snapshots(
    job: &OffsiteReplicationJob,
    runs: &Vec<OffsiteReplicationRun>,
) -> (r: Vec<String>)
    ensures
        is_recorded_list(job.target_dataset@, runs@, texts(r@)),
{
    let ghost target = job.target_dataset@;
    let mut list: Vec<String> = Vec::new();
    let mut i: usize = 0;
    assert(texts(list@) =~= seq![]);
    while i < runs.len()
        invariant
            i <= runs.len(),
            target == job.target_dataset@,
            strictly_sorted(texts(list@)),
            forall|x: Seq<char>| #[trigger]
                texts(list@).contains(x) <==> recorded(target, runs@.take(i as int), x),
        decreases runs.len() - i,
    {
        let ghost held = texts(list@);
        let ghost run = runs@[i as int];
        if let Some(snapshot) = &runs[i].snapshot {
            if let Ok(found) = source_snapshot_to_target_snapshot_candidates(
                job,
                snapshot.as_str(),
            ) {
                let ghost candidates = texts(found@);
                let mut k: usize = 0;
                while k < found.len()
                    invariant
                        k <= found.len(),
                        candidates == texts(found@),
                        strictly_sorted(texts(list@)),
                        forall|x: Seq<char>| #[trigger]
                            texts(list@).contains(x) <==> held.contains(x) || candidates.take(
                                k as int,
                            ).contains(x),
                    decreases found.len() - k,
                {
                    let ghost before = texts(list@);
                    insert_sorted(&mut list, found[k].clone());
                    proof {
                        let now = candidates.take(k + 1);
                        let then = candidates.take(k as int);
                        assert(now =~= then.push(candidates[k as int]));
                        assert forall|x: Seq<char>| #[trigger] texts(list@).contains(x)
                            <==> held.contains(x) || now.contains(x) by {
                            assert(texts(list@).contains(x) <==> before.contains(x) || x
                                == candidates[k as int]);
                            if then.contains(x) {
                                let j = choose|j: int| 0 <= j < then.len() && then[j] == x;
                                assert(now[j] == x);
                            }
                            if x == candidates[k as int] {
                                assert(now[k as int] == x);
                            }
                            if now.contains(x) {
                                let j = choose|j: int| 0 <= j < now.len() && now[j] == x;
                                if j < k {
                                    assert(then[j] == x);
                                }
                            }
                        }
                    }
                    k += 1;
                }
                assert(candidates.len() == found.len());
                assert(candidates.take(candidates.len() as int) =~= candidates);
            }
        }
        proof {
            let now = runs@.take(i + 1);
            let then = runs@.take(i as int);
            assert forall|x: Seq<char>| #[trigger] texts(list@).contains(x) <==> recorded(
                target,
                now,
                x,
            ) by {
                assert(texts(list@).contains(x) <==> held.contains(x) || run_names(target, run, x));
                if recorded(target, then, x) {
                    let j = choose|j: int| 0 <= j < then.len() && run_names(target, then[j], x);
                    assert(now[j] == then[j]);
                }
                if run_names(target, run, x) {
                    assert(now[i as int] == run);
                }
                if recorded(target, now, x) {
                    let j = choose|j: int| 0 <= j < now.len() && run_names(target, now[j], x);
                    if j < i {
                        assert(then[j] == now[j]);
                    }
                }
            }
        }
        i += 1;
    }
    assert(runs@.take(runs@.len() as int) =~= runs@);
    list
}

/// What `purge_target_snapshots_for_job` answers: nothing is to be run where nothing was recorded.
pub open spec fn is_purge(
    job: OffsiteReplicationJob,
    runs: Seq<OffsiteReplicationRun>,
    answer: Result<Option<Seq<char>>, Seq<char>>,
) -> bool {
    match runtime_verdict(job) {
        Err(e) => answer == Err::<Option<Seq<char>>, Seq<char>>(e),
        Ok(_) => exists|list: Seq<Seq<char>>| #[trigger]
            is_recorded_list(job.target_dataset@, runs, list) && answer == Ok::<
                Option<Seq<char>>,
                Seq<char>,
            >(
                if list.len() == 0 {
                    None
                } else {
                    Some(purge_script_of(list))
                },
            ),
    }
}

/// A result with texts in the place of the optional string and of the error.
pub open spec fn opt_text_outcome(r: Result<Option<String>, Error>) -> Result<
    Option<Seq<char>>,
    Seq<char>,
> {
    match r {
        Ok(o) => Ok(opt_text(o)),
        Err(e) => Err(e@),
    }
}

/// The script that destroys, on the target, every snapshot that the job's runs may have left there.
pub fn purge_target_snapshots_for_job(
    job: &OffsiteReplicationJob,
    runs: &Vec<OffsiteReplicationRun>,
) -> (r: Result<Option<String>, Error>)
    ensures
        is_purge(*job, runs@, opt_text_outcome(r)),
{
    if let Err(e) = validate_runtime_job(job) {
        return Err(e);
    }
    let snapshots = list_recorded_target_snapshots(job, runs);
    assert(is_recorded_list(job.target_dataset@, runs@, texts(snapshots@)));
    assert(texts(snapshots@).len() == snapshots.len());
    if snapshots.len() == 0 {
        return Ok(None);
    }
    Ok(Some(purge_script(&snapshots)))
}

// ---------------------------------------------------------------------------------------------
// Laws
// ---------------------------------------------------------------------------------------------

/// A snapshot stands below the target dataset.
pub open spec fn below_target(target: Seq<char>, snapshot: Seq<char>) -> bool {
    exists|dataset: Seq<char>, suffix: Seq<char>|
        within_target(target, dataset) && snapshot == #[trigger] (dataset + "@"@ + suffix)
}

proof fn lemma_within(target: Seq<char>, name: Seq<char>)
    ensures
        within_target(target, target + "/"@ + name),
{
    let dataset = target + "/"@ + name;
    assert(dataset.take((target + "/"@).len() as int) =~= target + "/"@);
}

/// For a snapshot with an `@` there are one to three places on the target, all different, all under
/// the target dataset and all with the snapshot's own suffix.
pub proof fn law_candidates_are_few_and_under_the_target(target: Seq<char>, snapshot: Seq<char>)
    requires
        cut_last(snapshot, "@"@) is Some,
    ensures
        candidates_of(target, snapshot) matches Ok(c) && 1 <= c.len() <= 3 && c.no_duplicates()
            && forall|i: int| 0 <= i < c.len() ==> below_target(target, #[trigger] c[i]),
        candidates_of(target, snapshot) matches Ok(c) && forall|i: int|
            0 <= i < c.len() ==> has_suffix(
                #[trigger] c[i],
                "@"@ + cut_last(snapshot, "@"@).unwrap().1,
            ),
{
    let (source, suffix) = cut_last(snapshot, "@"@).unwrap();
    let c = candidates_of(target, snapshot)->Ok_0;
    let direct = source + "@"@ + suffix;
    let primary_set = target_for_source(target, source);
    let legacy_set = legacy_target_for_source(target, source);
    let primary = primary_set + "@"@ + suffix;
    let legacy = legacy_set + "@"@ + suffix;
    lemma_within(target, joined(encoded_parts(pieces(source, '/')), "__"@));
    lemma_within(target, trimmed(after_last(source, "/"@)));
    assert(below_target(target, primary));
    assert(below_target(target, legacy));
    if within_target(target, source) {
        assert(below_target(target, direct));
    }
    let tail = "@"@ + suffix;
    assert(direct.skip(direct.len() - tail.len()) =~= tail);
    assert(primary.skip(primary.len() - tail.len()) =~= tail);
    assert(legacy.skip(legacy.len() - tail.len()) =~= tail);
    assert forall|i: int| 0 <= i < c.len() implies below_target(target, #[trigger] c[i])
        && has_suffix(c[i], tail) by {
        assert(c[i] == direct || c[i] == primary || c[i] == legacy);
    }
}

/// A snapshot that stands under the target dataset already is looked for at its own place first.
pub proof fn law_target_snapshot_comes_first(target: Seq<char>, snapshot: Seq<char>)
    requires
        cut_last(snapshot, "@"@) matches Some((dataset, _)) && within_target(target, dataset),
    ensures
        candidates_of(target, snapshot) matches Ok(c) && c.len() > 0 && c[0] == snapshot,
{
    lemma_cut_last(snapshot, "@"@);
}

/// There are places on the target for every accepted snapshot.
pub proof fn law_accepted_snapshots_have_candidates(target: Seq<char>, snapshot: Seq<char>)
    requires
        snapshot_verdict(snapshot) is Ok,
    ensures
        candidates_of(target, snapshot) is Ok,
{
}

proof fn lemma_first_existing(candidates: Seq<Seq<char>>, existing: Seq<Seq<char>>)
    ensures
        match first_existing(candidates, existing) {
            Some(found) => candidates.contains(found) && existing.contains(found),
            None => forall|x: Seq<char>| #[trigger]
                candidates.contains(x) ==> !existing.contains(x),
        },
    decreases candidates.len(),
{
    if candidates.len() > 0 {
        let rest = candidates.skip(1);
        lemma_first_existing(rest, existing);
        if !existing.contains(candidates[0]) {
            match first_existing(rest, existing) {
                Some(found) => {
                    let i = choose|i: int| 0 <= i < rest.len() && rest[i] == found;
                    assert(candidates[i + 1] == found);
                },
                None => {
                    assert forall|x: Seq<char>| #[trigger] candidates.contains(x) implies
                        !existing.contains(x) by {
                        let i = choose|i: int| 0 <= i < candidates.len() && candidates[i] == x;
                        if i > 0 {
                            assert(rest[i - 1] == x);
                            assert(rest.contains(x));
                        }
                    }
                },
            }
        }
    }
}

/// A snapshot that was resolved exists on the target and is one of the places of the selected one;
/// and one is resolved whenever one of the places exists.
pub proof fn law_resolved_snapshot_exists(
    target: Seq<char>,
    snapshot: Seq<char>,
    existing: Seq<Seq<char>>,
)
    ensures
        resolved(target, snapshot, existing) matches Ok(found) ==> existing.contains(found)
            && (candidates_of(target, snapshot) matches Ok(c) && c.contains(found)),
        candidates_of(target, snapshot) matches Ok(c) ==> (resolved(target, snapshot, existing)
            is Err ==> forall|x: Seq<char>| #[trigger] c.contains(x) ==> !existing.contains(x)),
{
    if let Ok(c) = candidates_of(target, snapshot) {
        lemma_first_existing(c, existing);
    }
}

/// The lineage of a target snapshot is not empty and stands, with `__` behind it, directly below
/// the target dataset.
pub proof fn law_lineage_stands_below_the_target(target: Seq<char>, target_snapshot: Seq<char>)
    ensures
        lineage_prefix(target, target_snapshot) matches Some(prefix) ==> prefix.len() > 0
            && has_prefix(target_snapshot, target + "/"@ + prefix + "__"@),
{
    lemma_cut_last(target_snapshot, "@"@);
    if let Some((dataset, _)) = cut_last(target_snapshot, "@"@) {
        if let Some(relative) = without_prefix(dataset, target + "/"@) {
            lemma_cut_last(relative, "__"@);
            if let Some((prefix, _)) = cut_last(relative, "__"@) {
                let head = target + "/"@;
                let full = target + "/"@ + prefix + "__"@;
                assert(dataset.take(head.len() as int) == head);
                assert(dataset =~= head + relative);
                assert(target_snapshot.take(full.len() as int) =~= full);
            }
        }
    }
}

/// The list of recorded places is the only one of its kind.
pub proof fn law_recorded_list_is_unique(
    target: Seq<char>,
    runs: Seq<OffsiteReplicationRun>,
    a: Seq<Seq<char>>,
    b: Seq<Seq<char>>,
)
    requires
        is_recorded_list(target, runs, a),
        is_recorded_list(target, runs, b),
    ensures
        a == b,
{
    assert forall|x: Seq<char>| a.contains(x) <==> b.contains(x) by {
        assert(a.contains(x) <==> recorded(target, runs, x));
        assert(b.contains(x) <==> recorded(target, runs, x));
    }
    law_sorted_lists_with_the_same_texts_are_equal(a, b);
}

proof fn lemma_encoded_as_is(parts: Seq<Seq<char>>)
    requires
        forall|i: int| 0 <= i < parts.len() ==> is_component(#[trigger] parts[i]),
    ensures
        encoded_parts(parts) == parts,
    decreases parts.len(),
{
    if parts.len() > 0 {
        let front = parts.drop_last();
        assert forall|i: int| 0 <= i < front.len() implies is_component(#[trigger] front[i]) by {
            assert(front[i] == parts[i]);
        }
        lemma_encoded_as_is(front);
        assert(is_component(parts[parts.len() - 1]));
        assert(dataset_sanitized(parts.last()) =~= parts.last());
        assert(front.push(parts.last()) =~= parts);
    } else {
        assert(parts =~= seq![]);
    }
}

proof fn lemma_joined_filled(parts: Seq<Seq<char>>, sep: Seq<char>)
    requires
        parts.len() > 0,
        forall|i: int| 0 <= i < parts.len() ==> is_component(#[trigger] parts[i]),
    ensures
        joined(parts, sep).len() > 0,
{
    assert(is_component(parts[0]));
    assert(is_component(parts[parts.len() - 1]));
}

/// A disk that stands in an accepted dataset is received under the dataset's lineage: the prefix
/// found in its target snapshot is the dataset's path, with `__` in the place of each slash. A disk
/// whose name has `__` in it is left out, for the lineage is cut at the last one.
pub proof fn law_lineage_of_encoded_source(
    target: Seq<char>,
    parent: Seq<char>,
    disk: Seq<char>,
    suffix: Seq<char>,
)
    requires
        is_dataset(parent),
        is_component(disk),
        !occurs(disk, "__"@),
        !suffix.contains('@'),
    ensures
        lineage_prefix(
            target,
            target_for_source(target, parent + "/"@ + disk) + "@"@ + suffix,
        ) == Some(joined(pieces(parent, '/'), "__"@)),
{
    reveal_strlit("/");
    reveal_strlit("@");
    reveal_strlit("__");
    let parts = pieces(parent, '/');
    let name = joined(parts, "__"@);
    lemma_pieces_nonempty(parent, '/');
    assert(!disk.contains('/')) by {
        assert forall|i: int| 0 <= i < disk.len() implies disk[i] != '/' by {
            assert(is_zfs_char(disk[i]));
        }
    }
    lemma_one_more_piece(parent, '/', disk);
    assert(parent + "/"@ + disk =~= parent.push('/') + disk);
    let all = parts.push(disk);
    assert forall|i: int| 0 <= i < all.len() implies is_component(#[trigger] all[i]) by {
        if i < parts.len() {
            assert(all[i] == parts[i]);
        }
    }
    lemma_encoded_as_is(all);
    assert(all.drop_last() =~= parts);
    let relative = name + "__"@ + disk;
    assert(joined(all, "__"@) == relative);
    let dataset = target + "/"@ + relative;
    assert(target_for_source(target, parent + "/"@ + disk) == dataset);
    let snapshot = dataset + "@"@ + suffix;
    assert forall|k: int| dataset.len() < k implies !stands_at(snapshot, "@"@, k) by {
        if stands_at(snapshot, "@"@, k) {
            assert(snapshot.subrange(k, k + 1)[0] == '@');
            assert(suffix[k - dataset.len() - 1] == '@');
        }
    }
    lemma_cut_last_of(dataset, "@"@, suffix);
    let head = target + "/"@;
    assert(dataset.take(head.len() as int) =~= head);
    assert(dataset.skip(head.len() as int) =~= relative);
    assert forall|k: int| name.len() < k implies !stands_at(relative, "__"@, k) by {
        if stands_at(relative, "__"@, k) {
            let found = relative.subrange(k, k + 2);
            assert(found[0] == '_' && found[1] == '_');
            if k == name.len() + 1 {
                assert(found[1] == disk[0]);
            } else {
                let at = k - name.len() - 2;
                assert(disk.subrange(at, at + 2) =~= found);
                assert(stands_at(disk, "__"@, at));
            }
        }
    }
    lemma_cut_last_of(name, "__"@, disk);
    lemma_joined_filled(parts, "__"@);
}

/// A snapshot name is cut at its `@`.
pub proof fn lemma_snapshot_is_cut(dataset: Seq<char>, suffix: Seq<char>)
    requires
        !suffix.contains('@'),
    ensures
        cut_last(dataset + "@"@ + suffix, "@"@) == Some((dataset, suffix)),
{
    reveal_strlit("@");
    let snapshot = dataset + "@"@ + suffix;
    assert forall|k: int| dataset.len() < k implies !stands_at(snapshot, "@"@, k) by {
        if stands_at(snapshot, "@"@, k) {
            assert(snapshot.subrange(k, k + 1)[0] == '@');
            assert(suffix[k - dataset.len() - 1] == '@');
        }
    }
    lemma_cut_last_of(dataset, "@"@, suffix);
}

/// The place that a source snapshot is received at is always among those that are looked at.
pub proof fn lemma_primary_is_candidate(target: Seq<char>, source: Seq<char>, suffix: Seq<char>)
    requires
        !suffix.contains('@'),
    ensures
        candidates_of(target, source + "@"@ + suffix) matches Ok(c) && c.contains(
            target_for_source(target, source) + "@"@ + suffix,
        ),
{
    lemma_snapshot_is_cut(source, suffix);
    let direct = if within_target(target, source) {
        seq![source + "@"@ + suffix]
    } else {
        seq![]
    };
    let primary = target_for_source(target, source) + "@"@ + suffix;
    let legacy = legacy_target_for_source(target, source) + "@"@ + suffix;
    let first = with_new(direct, primary);
    let all = with_new(first, legacy);
    lemma_with_new(direct, primary);
    lemma_with_new(first, legacy);
    assert(first.contains(primary));
    assert(all.contains(primary));
}

proof fn lemma_with_new(list: Seq<Seq<char>>, x: Seq<char>)
    ensures
        with_new(list, x).contains(x),
        forall|y: Seq<char>| list.contains(y) ==> #[trigger] with_new(list, x).contains(y),
        list.len() <= with_new(list, x).len(),
        with_new(list, x).take(list.len() as int) == list,
{
    let more = with_new(list, x);
    if !list.contains(x) {
        assert(more[list.len() as int] == x);
    }
    assert forall|y: Seq<char>| list.contains(y) implies #[trigger] more.contains(y) by {
        let i = choose|i: int| 0 <= i < list.len() && list[i] == y;
        assert(more[i] == y);
    }
    assert(more.take(list.len() as int) =~= list);
}

/// A snapshot of an accepted source dataset, whose parts have a slash between them, is looked for
/// below the target dataset under the parts with `__` between them, and after that under the last
/// part alone, where older runs put it. A snapshot that stands on the target already is looked for at
/// its own place before that. The suffix is kept.
pub proof fn law_places_of_a_source_snapshot(
    target: Seq<char>,
    parent: Seq<char>,
    name: Seq<char>,
    suffix: Seq<char>,
)
    requires
        is_dataset(parent),
        is_component(name),
        !suffix.contains('@'),
    ensures
        ({
            let source = parent + "/"@ + name;
            let own = source + "@"@ + suffix;
            let encoded = target + "/"@ + joined(pieces(parent, '/'), "__"@) + "__"@ + name + "@"@
                + suffix;
            let older = target + "/"@ + name + "@"@ + suffix;
            let on_target = source == target || has_prefix(source, target + "/"@);
            &&& candidates_of(target, own) is Ok
            &&& candidates_of(target, own)->Ok_0.contains(encoded)
            &&& candidates_of(target, own)->Ok_0.contains(older)
            &&& !on_target ==> candidates_of(target, own)->Ok_0 == seq![encoded, older]
                || (encoded == older && candidates_of(target, own)->Ok_0 == seq![encoded])
            &&& on_target ==> candidates_of(target, own)->Ok_0[0] == own
        }),
{
    reveal_strlit("/");
    let source = parent + "/"@ + name;
    let own = source + "@"@ + suffix;
    let parts = pieces(parent, '/');
    lemma_snapshot_is_cut(source, suffix);
    lemma_pieces_nonempty(parent, '/');
    assert forall|i: int| 0 <= i < name.len() implies name[i] != '/' by {
        assert(is_zfs_char(name[i]));
    }
    assert(!name.contains('/'));
    lemma_one_more_piece(parent, '/', name);
    assert(source =~= parent.push('/') + name);
    let all = parts.push(name);
    assert forall|i: int| 0 <= i < all.len() implies is_component(#[trigger] all[i]) by {
        if i < parts.len() {
            assert(all[i] == parts[i]);
        }
    }
    lemma_encoded_as_is(all);
    assert(all.drop_last() =~= parts);
    let relative = joined(parts, "__"@) + "__"@ + name;
    assert(joined(all, "__"@) == relative);
    let encoded = target + "/"@ + joined(parts, "__"@) + "__"@ + name + "@"@ + suffix;
    let primary = target_for_source(target, source) + "@"@ + suffix;
    assert(encoded =~= primary);
    assert forall|k: int| parent.len() < k implies !stands_at(source, "/"@, k) by {
        if stands_at(source, "/"@, k) {
            assert(source.subrange(k, k + 1)[0] == '/');
            assert(name[k - parent.len() - 1] == '/');
        }
    }
    lemma_cut_last_of(parent, "/"@, name);
    assert(after_last(source, "/"@) == name);
    assert forall|i: int| 0 <= i < name.len() implies !crate::text::is_white(name[i]) by {
        assert(is_zfs_char(name[i]));
    }
    crate::text::lemma_trimmed_already(name);
    let older = legacy_target_for_source(target, source) + "@"@ + suffix;
    let direct = if within_target(target, source) {
        seq![own]
    } else {
        seq![]
    };
    let first = with_new(direct, primary);
    let list = with_new(first, older);
    lemma_with_new(direct, primary);
    lemma_with_new(first, older);
    assert(candidates_of(target, own)->Ok_0 == list);
    assert(list.contains(primary) && list.contains(older));
    if !within_target(target, source) {
        assert(first =~= seq![primary]);
        assert(first[0] == primary);
        if primary == older {
            assert(first.contains(older));
            assert(list =~= seq![primary]);
        } else {
            assert(!first.contains(older));
            assert(list =~= seq![primary, older]);
        }
    } else {
        assert(direct[0] == own);
        assert(first.take(1)[0] == own);
        assert(first[0] == own);
        assert(list.take(first.len() as int)[0] == own);
    }
}

/// The one that is resolved is the first of the places that exists.
pub proof fn law_first_existing_place_is_resolved(
    target: Seq<char>,
    snapshot: Seq<char>,
    existing: Seq<Seq<char>>,
    k: int,
)
    requires
        candidates_of(target, snapshot) is Ok,
        0 <= k < candidates_of(target, snapshot)->Ok_0.len(),
        existing.contains(candidates_of(target, snapshot)->Ok_0[k]),
        forall|i: int|
            0 <= i < k ==> !existing.contains(
                #[trigger] candidates_of(target, snapshot)->Ok_0[i],
            ),
    ensures
        resolved(target, snapshot, existing) == Ok::<Seq<char>, Seq<char>>(
            candidates_of(target, snapshot)->Ok_0[k],
        ),
{
    lemma_first_existing_at(candidates_of(target, snapshot)->Ok_0, existing, k);
}

proof fn lemma_first_existing_at(candidates: Seq<Seq<char>>, existing: Seq<Seq<char>>, k: int)
    requires
        0 <= k < candidates.len(),
        existing.contains(candidates[k]),
        forall|i: int| 0 <= i < k ==> !existing.contains(#[trigger] candidates[i]),
    ensures
        first_existing(candidates, existing) == Some(candidates[k]),
    decreases k,
{
    if k > 0 {
        assert(!existing.contains(candidates[0]));
        let rest = candidates.skip(1);
        assert forall|i: int| 0 <= i < k - 1 implies !existing.contains(#[trigger] rest[i]) by {
            assert(rest[i] == candidates[i + 1]);
        }
        assert(rest[k - 1] == candidates[k]);
        lemma_first_existing_at(rest, existing, k - 1);
    }
}

/// The scripts go through their snapshots one by one, in order: each further snapshot adds its own
/// lines at the end, and these name nothing else. A snapshot is printed, or destroyed together with
/// what depends on it, where it exists; the selected ones are destroyed unasked.
pub proof fn law_scripts_go_through_the_snapshots(list: Seq<Seq<char>>, x: Seq<char>)
    ensures
        existing_script_of(list.push(x)) == existing_script_of(list) + ("if zfs list -H -o name "@
            + escaped(x) + " >/dev/null 2>&1; then\n  echo "@ + escaped(x) + "\nfi\n"@),
        purge_script_of(list.push(x)) == purge_script_of(list) + ("if zfs list -H -o name "@
            + escaped(x) + " >/dev/null 2>&1; then\n"@ + ("  zfs destroy -R "@ + escaped(x)
            + "\n"@) + "fi\n"@),
        destroy_script_of(list.push(x)) == destroy_script_of(list) + ("zfs destroy -R "@ + escaped(x)
            + "\n"@),
        existing_script_of(seq![]) == "set -eu\n"@,
        purge_script_of(seq![]) == "set -eu\n"@,
        destroy_script_of(seq![]) == "set -eu\n"@,
{
    assert(list.push(x).drop_last() =~= list);
    assert("\nfi\n"@ =~= "\n"@ + "fi\n"@) by {
        reveal_strlit("\nfi\n");
        reveal_strlit("\n");
        reveal_strlit("fi\n");
    }
    let e = existing_script_of(list);
    let p = purge_script_of(list);
    let d = destroy_script_of(list);
    assert(existing_script_of(list.push(x)) =~= e + ("if zfs list -H -o name "@ + escaped(x)
        + " >/dev/null 2>&1; then\n  echo "@ + escaped(x) + "\nfi\n"@));
    assert(purge_script_of(list.push(x)) =~= p + ("if zfs list -H -o name "@ + escaped(x)
        + " >/dev/null 2>&1; then\n"@ + ("  zfs destroy -R "@ + escaped(x) + "\n"@) + "fi\n"@));
    assert(destroy_script_of(list.push(x)) =~= d + ("zfs destroy -R "@ + escaped(x) + "\n"@));
}

/// No snapshot is left out of a script.
pub proof fn law_scripts_leave_no_snapshot_out(list: Seq<Seq<char>>, i: int)
    requires
        0 <= i < list.len(),
    ensures
        occurs(
            existing_script_of(list),
            "if zfs list -H -o name "@ + escaped(list[i]) + " >/dev/null 2>&1; then\n  echo "@
                + escaped(list[i]) + "\nfi\n"@,
        ),
        occurs(
            purge_script_of(list),
            "if zfs list -H -o name "@ + escaped(list[i]) + " >/dev/null 2>&1; then\n"@ + (
            "  zfs destroy -R "@ + escaped(list[i]) + "\n"@) + "fi\n"@,
        ),
        occurs(destroy_script_of(list), "zfs destroy -R "@ + escaped(list[i]) + "\n"@),
    decreases list.len(),
{
    let front = list.drop_last();
    let x = list.last();
    let nothing = Seq::<char>::empty();
    assert(front.push(x) =~= list);
    law_scripts_go_through_the_snapshots(front, x);
    let print = "if zfs list -H -o name "@ + escaped(x) + " >/dev/null 2>&1; then\n  echo "@
        + escaped(x) + "\nfi\n"@;
    let purge = "if zfs list -H -o name "@ + escaped(x) + " >/dev/null 2>&1; then\n"@ + (
    "  zfs destroy -R "@ + escaped(x) + "\n"@) + "fi\n"@;
    let destroy = "zfs destroy -R "@ + escaped(x) + "\n"@;
    let e = existing_script_of(front);
    let p = purge_script_of(front);
    let d = destroy_script_of(front);
    if i == list.len() - 1 {
        assert(e + print =~= e + print + nothing);
        assert(p + purge =~= p + purge + nothing);
        assert(d + destroy =~= d + destroy + nothing);
        lemma_stands_where_put(e, print, nothing);
        lemma_stands_where_put(p, purge, nothing);
        lemma_stands_where_put(d, destroy, nothing);
    } else {
        assert(front[i] == list[i]);
        law_scripts_leave_no_snapshot_out(front, i);
        assert(e + print =~= nothing + e + print);
        assert(p + purge =~= nothing + p + purge);
        assert(d + destroy =~= nothing + d + destroy);
        lemma_occurs_within(
            nothing,
            e,
            print,
            "if zfs list -H -o name "@ + escaped(list[i]) + " >/dev/null 2>&1; then\n  echo "@
                + escaped(list[i]) + "\nfi\n"@,
        );
        lemma_occurs_within(
            nothing,
            p,
            purge,
            "if zfs list -H -o name "@ + escaped(list[i]) + " >/dev/null 2>&1; then\n"@ + (
            "  zfs destroy -R "@ + escaped(list[i]) + "\n"@) + "fi\n"@,
        );
        lemma_occurs_within(
            nothing,
            d,
            destroy,
            "zfs destroy -R "@ + escaped(list[i]) + "\n"@,
        );
    }
}

/// A purge destroys the snapshot of every recorded run at each of its places, whether the run
/// succeeded or not; nothing is to be run only where no recorded run has a place.
pub proof fn law_purge_reaches_every_recorded_run(
    job: OffsiteReplicationJob,
    runs: Seq<OffsiteReplicationRun>,
    answer: Result<Option<Seq<char>>, Seq<char>>,
    i: int,
    place: Seq<char>,
)
    requires
        runtime_verdict(job) is Ok,
        is_purge(job, runs, answer),
        0 <= i < runs.len(),
        runs[i].snapshot is Some,
        candidates_of(job.target_dataset@, runs[i].snapshot->0@) matches Ok(c) && c.contains(place),
    ensures
        answer matches Ok(Some(script)) && occurs(
            script,
            "if zfs list -H -o name "@ + escaped(place) + " >/dev/null 2>&1; then\n"@ + (
            "  zfs destroy -R "@ + escaped(place) + "\n"@) + "fi\n"@,
        ),
{
    let list = choose|list: Seq<Seq<char>>| #[trigger]
        is_recorded_list(job.target_dataset@, runs, list) && answer == Ok::<
            Option<Seq<char>>,
            Seq<char>,
        >(
            if list.len() == 0 {
                None
            } else {
                Some(purge_script_of(list))
            },
        );
    assert(run_names(job.target_dataset@, runs[i], place));
    assert(recorded(job.target_dataset@, runs, place));
    assert(list.contains(place));
    let k = choose|k: int| 0 <= k < list.len() && list[k] == place;
    law_scripts_leave_no_snapshot_out(list, k);
}

/// The target's answer is read line by line: what it prints is what is taken to exist.
pub proof fn law_printed_snapshots_are_read_back(list: Seq<Seq<char>>)
    requires
        forall|i: int|
            0 <= i < list.len() ==> (#[trigger] list[i]).len() > 0 && trimmed(list[i]) == list[i],
    ensures
        filled_lines(list) == list,
    decreases list.len(),
{
    if list.len() > 0 {
        let front = list.drop_last();
        assert forall|i: int| 0 <= i < front.len() implies (#[trigger] front[i]).len() > 0
            && trimmed(front[i]) == front[i] by {
            assert(front[i] == list[i]);
        }
        law_printed_snapshots_are_read_back(front);
        assert(list[list.len() - 1] == list.last());
        assert(filled_lines(list) =~= list);
    } else {
        assert(filled_lines(list) =~= list);
    }
}

/// A blank line of the answer says nothing, wherever it stands.
pub proof fn law_blank_lines_of_the_answer_are_passed_over(
    before: Seq<Seq<char>>,
    line: Seq<char>,
    after: Seq<Seq<char>>,
)
    requires
        trimmed(line).len() == 0,
    ensures
        filled_lines(before.push(line) + after) == filled_lines(before + after),
    decreases after.len(),
{
    if after.len() == 0 {
        assert(before.push(line) + after =~= before.push(line));
        assert(before + after =~= before);
        assert(before.push(line).drop_last() =~= before);
    } else {
        let all = before.push(line) + after;
        let rest = before + after;
        assert(all.drop_last() =~= before.push(line) + after.drop_last());
        assert(rest.drop_last() =~= before + after.drop_last());
        law_blank_lines_of_the_answer_are_passed_over(before, line, after.drop_last());
    }
}

/// The parts of a source dataset are encoded one by one: an empty one is left out, and of any other
/// every character that a dataset's name may not have becomes `_`.
pub proof fn law_parts_are_encoded_one_by_one(parts: Seq<Seq<char>>, part: Seq<char>)
    ensures
        encoded_parts(seq![]).len() == 0,
        part.len() == 0 ==> encoded_parts(parts.push(part)) == encoded_parts(parts),
        part.len() > 0 ==> encoded_parts(parts.push(part)) == encoded_parts(parts).push(
            dataset_sanitized(part),
        ),
{
    assert(parts.push(part).drop_last() =~= parts);
}

/// A source dataset is received below the target dataset, as one component: its encoded parts with
/// `__` between them.
pub proof fn law_source_is_received_as_one_component(target: Seq<char>, source: Seq<char>)
    ensures
        target_for_source(target, source) == target + "/"@ + joined(
            encoded_parts(pieces(source, '/')),
            "__"@,
        ),
        legacy_target_for_source(target, source) == target + "/"@ + trimmed(
            after_last(source, "/"@),
        ),
{
}

/// What does not stand below the target has no lineage, and neither has what stands there without a
/// path before its name.
pub proof fn law_no_lineage_without_a_path(target: Seq<char>, name: Seq<char>, suffix: Seq<char>)
    requires
        !suffix.contains('@'),
    ensures
        !has_prefix(name, target + "/"@) ==> lineage_prefix(target, name + "@"@ + suffix) is None,
        !occurs(name, "__"@) ==> lineage_prefix(target, target + "/"@ + name + "@"@ + suffix) is None,
{
    lemma_snapshot_is_cut(name, suffix);
    let head = target + "/"@;
    let dataset = target + "/"@ + name;
    lemma_snapshot_is_cut(dataset, suffix);
    assert(dataset.take(head.len() as int) =~= head);
    assert(dataset.skip(head.len() as int) =~= name);
    assert("__"@.len() > 0) by {
        reveal_strlit("__");
    }
    crate::text::law_texts_are_cut_at_the_separator(name, "__"@);
    if !occurs(name, "__"@) && cut_last(name, "__"@) is Some {
        let (a, b) = cut_last(name, "__"@)->0;
        lemma_stands_where_put(a, "__"@, b);
    }
}

} // verus!
