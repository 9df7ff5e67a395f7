//! Recovery points: the replicated snapshots that a guest can be recovered from.
use crate::names::{
    runtime_verdict, snapshot_verdict, validate_runtime_job, verify_offsite_snapshot,
};
use crate::snapshots::{
    candidates_of, destroy_script, destroy_script_of, law_resolved_snapshot_exists, resolved,
    source_snapshot_to_target_snapshot_candidates, texts_outcome,
};
use crate::text::{clone_opt, one_of, same, texts};
use crate::types::{
    text_outcome, Error, OffsiteRecoveryPoint, OffsiteReplicationJob, OffsiteReplicationRun,
};
use vstd::prelude::*;

verus! {

/// The places on the target at which the snapshot of a run may stand, where the run may be one to
/// recover from: it succeeded, has a snapshot, and the guest's configuration was stored.
pub open spec fn run_candidates(
    target: Seq<char>,
    runs: Seq<OffsiteReplicationRun>,
    configs: Seq<bool>,
    i: int,
) -> Option<Seq<Seq<char>>> {
    let run = runs[i];
    if run.success && run.snapshot is Some && 0 <= i < configs.len() && configs[i] {
        match candidates_of(target, run.snapshot->0@) {
            Ok(candidates) => Some(candidates),
            Err(_) => None,
        }
    } else {
        None
    }
}

/// One of the places exists on the target.
pub open spec fn any_exists(candidates: Seq<Seq<char>>, existing: Seq<Seq<char>>) -> bool {
    exists|k: int| 0 <= k < candidates.len() && existing.contains(#[trigger] candidates[k])
}

/// The recovery point of a run with a snapshot.
pub open spec fn point_of(run: OffsiteReplicationRun) -> OffsiteRecoveryPoint {
    OffsiteRecoveryPoint {
        snapshot: run.snapshot->0,
        end_time: run.end_time,
        transfer_mode: run.transfer_mode,
        estimated_bytes: run.estimated_bytes,
        transferred_bytes: run.transferred_bytes,
    }
}

/// A guest can be recovered from the run.
pub open spec fn is_recoverable(
    target: Seq<char>,
    runs: Seq<OffsiteReplicationRun>,
    configs: Seq<bool>,
    existing: Seq<Seq<char>>,
    i: int,
) -> bool {
    match run_candidates(target, runs, configs, i) {
        Some(candidates) => any_exists(candidates, existing),
        None => false,
    }
}

/// The recovery points among the first `n` runs, the newest first.
pub open spec fn points_of(
    target: Seq<char>,
    runs: Seq<OffsiteReplicationRun>,
    configs: Seq<bool>,
    existing: Seq<Seq<char>>,
    n: int,
) -> Seq<OffsiteRecoveryPoint>
    decreases n,
{
    if n <= 0 {
        seq![]
    } else {
        let older = points_of(target, runs, configs, existing, n - 1);
        if is_recoverable(target, runs, configs, existing, n - 1) {
            seq![point_of(runs[n - 1])] + older
        } else {
            older
        }
    }
}

/// The places on the target to ask about for the first `n` runs, those of the newest first.
pub open spec fn places_of(
    target: Seq<char>,
    runs: Seq<OffsiteReplicationRun>,
    configs: Seq<bool>,
    n: int,
) -> Seq<Seq<char>>
    decreases n,
{
    if n <= 0 {
        seq![]
    } else {
        let older = places_of(target, runs, configs, n - 1);
        match run_candidates(target, runs, configs, n - 1) {
            Some(candidates) => candidates + older,
            None => older,
        }
    }
}

fn candidates_for_run(
    job: &OffsiteReplicationJob,
    runs: &Vec<OffsiteReplicationRun>,
    configs: &Vec<bool>,
    i: usize,
) -> (r: Option<Vec<String>>)
    requires
        i < runs.len(),
    ensures
        match r {
            Some(v) => run_candidates(job.target_dataset@, runs@, configs@, i as int) == Some(
                texts(v@),
            ),
            None => run_candidates(job.target_dataset@, runs@, configs@, i as int) is None,
        },
{
    if !runs[i].success || i >= configs.len() || !configs[i] {
        return None;
    }
    match &runs[i].snapshot {
        Some(snapshot) => match source_snapshot_to_target_snapshot_candidates(
            job,
            snapshot.as_str(),
        ) {
            Ok(candidates) => Some(candidates),
            Err(_) => None,
        },
        None => None,
    }
}

fn any_of(candidates: &Vec<String>, existing: &Vec<String>) -> (r: bool)
    ensures
        r == any_exists(texts(candidates@), texts(existing@)),
{
    let ghost all = texts(candidates@);
    let mut k: usize = 0;
    while k < candidates.len()
        invariant
            k <= candidates.len(),
            all == texts(candidates@),
            forall|j: int| 0 <= j < k ==> !texts(existing@).contains(#[trigger] all[j]),
        decreases candidates.len() - k,
    {
        assert(all[k as int] == candidates@[k as int]@);
        if one_of(existing, candidates[k].as_str()) {
            return true;
        }
        k += 1;
    }
    false
}

/// The places on the target that `list_recovery_points` has to know of. `configs` tells for each
/// run whether the guest's configuration was stored for its snapshot.
pub fn recovery_point_places(
    job: &OffsiteReplicationJob,
    runs: &Vec<OffsiteReplicationRun>,
    configs: &Vec<bool>,
) -> (r: Result<Vec<String>, Error>)
    ensures
        texts_outcome(r) == (match runtime_verdict(*job) {
            Err(e) => Err(e),
            Ok(_) => Ok(places_of(job.target_dataset@, runs@, configs@, runs@.len() as int)),
        }),
{
    if let Err(e) = validate_runtime_job(job) {
        return Err(e);
    }
    let ghost target = job.target_dataset@;
    let mut places: Vec<String> = Vec::new();
    let mut i: usize = runs.len();
    assert(texts(places@) =~= seq![]);
    while i > 0
        invariant
            i <= runs.len(),
            target == job.target_dataset@,
            texts(places@) + places_of(target, runs@, configs@, i as int) == places_of(
                target,
                runs@,
                configs@,
                runs@.len() as int,
            ),
        decreases i,
    {
        match candidates_for_run(job, runs, configs, i - 1) {
            Some(mut candidates) => {
                let ghost new = candidates@;
                let ghost held = places@;
                places.append(&mut candidates);
                assert(texts(places@) =~= texts(held) + texts(new));
                assert(texts(held) + (texts(new) + places_of(target, runs@, configs@, i - 1))
                    =~= texts(places@) + places_of(target, runs@, configs@, i - 1));
            },
            None => {},
        }
        i -= 1;
    }
    assert(texts(places@) + Seq::<Seq<char>>::empty() =~= texts(places@));
    Ok(places)
}

/// The recovery points of a job, the newest first. `configs` tells for each run whether the guest's
/// configuration was stored for its snapshot; `existing` holds what exists on the target.
pub fn list_recovery_points(
    job: &OffsiteReplicationJob,
    runs: &Vec<OffsiteReplicationRun>,
    configs: &Vec<bool>,
    existing: &Vec<String>,
) -> (r: Result<Vec<OffsiteRecoveryPoint>, Error>)
    ensures
        match r {
            Ok(points) => runtime_verdict(*job) is Ok && points@ == points_of(
                job.target_dataset@,
                runs@,
                configs@,
                texts(existing@),
                runs@.len() as int,
            ),
            Err(e) => runtime_verdict(*job) == Err::<(), Seq<char>>(e@),
        },
{
    if let Err(e) = validate_runtime_job(job) {
        return Err(e);
    }
    let ghost target = job.target_dataset@;
    let ghost all = texts(existing@);
    let mut points: Vec<OffsiteRecoveryPoint> = Vec::new();
    let mut i: usize = runs.len();
    while i > 0
        invariant
            i <= runs.len(),
            target == job.target_dataset@,
            all == texts(existing@),
            points@ + points_of(target, runs@, configs@, all, i as int) == points_of(
                target,
                runs@,
                configs@,
                all,
                runs@.len() as int,
            ),
        decreases i,
    {
        let ghost held = points@;
        match candidates_for_run(job, runs, configs, i - 1) {
            Some(candidates) => {
                if any_of(&candidates, existing) {
                    let run = &runs[i - 1];
                    if let Some(snapshot) = &run.snapshot {
                        points.push(
                            OffsiteRecoveryPoint {
                                snapshot: snapshot.clone(),
                                end_time: run.end_time,
                                transfer_mode: clone_opt(&run.transfer_mode),
                                estimated_bytes: run.estimated_bytes,
                                transferred_bytes: run.transferred_bytes,
                            },
                        );
                        assert(points@ =~= held.push(point_of(runs@[i - 1])));
                        assert(held + (seq![point_of(runs@[i - 1])] + points_of(
                            target,
                            runs@,
                            configs@,
                            all,
                            i - 1,
                        )) =~= points@ + points_of(target, runs@, configs@, all, i - 1));
                    }
                }
            },
            None => {},
        }
        i -= 1;
    }
    assert(points@ + Seq::<OffsiteRecoveryPoint>::empty() =~= points@);
    Ok(points)
}

/// One of the points is the snapshot's.
pub open spec fn has_point(points: Seq<OffsiteRecoveryPoint>, snapshot: Seq<char>) -> bool {
    exists|i: int| 0 <= i < points.len() && (#[trigger] points[i]).snapshot@ == snapshot
}

/// The candidates that exist.
pub open spec fn existing_of(candidates: Seq<Seq<char>>, existing: Seq<Seq<char>>) -> Seq<Seq<char>>
    decreases candidates.len(),
{
    if candidates.len() == 0 {
        seq![]
    } else {
        let front = existing_of(candidates.drop_last(), existing);
        if existing.contains(candidates.last()) {
            front.push(candidates.last())
        } else {
            front
        }
    }
}

/// What `deletion_candidates` answers.
pub open spec fn deletion_places(
    job: OffsiteReplicationJob,
    snapshot: Seq<char>,
    points: Seq<OffsiteRecoveryPoint>,
) -> Result<Seq<Seq<char>>, Seq<char>> {
    if runtime_verdict(job) is Err {
        Err(runtime_verdict(job)->Err_0)
    } else if snapshot_verdict(snapshot) is Err {
        Err(snapshot_verdict(snapshot)->Err_0)
    } else if !has_point(points, snapshot) {
        Err(
            "snapshot '"@ + snapshot + "' is not currently recoverable on target '"@
                + job.target_dataset@ + "'"@,
        )
    } else {
        candidates_of(job.target_dataset@, snapshot)
    }
}

/// The places on the target that the deletion of a recovery point has to know of. Only a point that
/// is recoverable now is deleted.
pub fn deletion_candidates(
    job: &OffsiteReplicationJob,
    source_snapshot: &str,
    points: &Vec<OffsiteRecoveryPoint>,
) -> (r: Result<Vec<String>, Error>)
    ensures
        texts_outcome(r) == deletion_places(*job, source_snapshot@, points@),
{
    if let Err(e) = validate_runtime_job(job) {
        return Err(e);
    }
    if let Err(e) = verify_offsite_snapshot(source_snapshot) {
        return Err(e);
    }
    let mut recoverable = false;
    let mut i: usize = 0;
    while i < points.len()
        invariant
            i <= points.len(),
            recoverable == (exists|k: int|
                0 <= k < i && (#[trigger] points@[k]).snapshot@ == source_snapshot@),
        decreases points.len() - i,
    {
        if same(points[i].snapshot.as_str(), source_snapshot) {
            recoverable = true;
        }
        i += 1;
    }
    if !recoverable {
        return Err(
            Error::of5(
                "snapshot '",
                source_snapshot,
                "' is not currently recoverable on target '",
                job.target_dataset.as_str(),
                "'",
            ),
        );
    }
    source_snapshot_to_target_snapshot_candidates(job, source_snapshot)
}

/// What `delete_recovery_point` answers.
pub open spec fn deletion_script(
    job: OffsiteReplicationJob,
    snapshot: Seq<char>,
    points: Seq<OffsiteRecoveryPoint>,
    existing: Seq<Seq<char>>,
) -> Result<Seq<char>, Seq<char>> {
    match deletion_places(job, snapshot, points) {
        Err(e) => Err(e),
        Ok(candidates) => {
            let found = existing_of(candidates, existing);
            if found.len() == 0 {
                Err(
                    "snapshot '"@ + snapshot + "' is no longer present on target '"@
                        + job.target_dataset@ + "'"@,
                )
            } else {
                Ok(destroy_script_of(found))
            }
        },
    }
}

/// The script that deletes a recovery point on the target: it destroys every place of the snapshot
/// that exists there.
pub fn delete_recovery_point(
    job: &OffsiteReplicationJob,
    source_snapshot: &str,
    points: &Vec<OffsiteRecoveryPoint>,
    existing: &Vec<String>,
) -> (r: Result<String, Error>)
    ensures
        text_outcome(r) == deletion_script(*job, source_snapshot@, points@, texts(existing@)),
{
    let candidates = match deletion_candidates(job, source_snapshot, points) {
        Ok(candidates) => candidates,
        Err(e) => {
            return Err(e);
        },
    };
    let ghost all = texts(candidates@);
    let mut found: Vec<String> = Vec::new();
    let mut i: usize = 0;
    assert(all.take(0) =~= seq![]);
    assert(texts(found@) =~= existing_of(all.take(0), texts(existing@)));
    while i < candidates.len()
        invariant
            i <= candidates.len(),
            all == texts(candidates@),
            texts(found@) == existing_of(all.take(i as int), texts(existing@)),
        decreases candidates.len() - i,
    {
        assert(all.take(i + 1).drop_last() =~= all.take(i as int));
        if one_of(existing, candidates[i].as_str()) {
            let ghost held = found@;
            found.push(candidates[i].clone());
            assert(texts(found@) =~= texts(held).push(all[i as int]));
        }
        i += 1;
    }
    assert(all.len() == candidates.len());
    assert(all.take(all.len() as int) =~= all);
    assert(texts(found@).len() == found.len());
    if found.len() == 0 {
        return Err(
            Error::of5(
                "snapshot '",
                source_snapshot,
                "' is no longer present on target '",
                job.target_dataset.as_str(),
                "'",
            ),
        );
    }
    Ok(destroy_script(&found))
}

/// Every recovery point comes from a run that succeeded and whose configuration was stored, and a
/// snapshot of it exists on the target.
pub proof fn law_recovery_points_are_recoverable(
    target: Seq<char>,
    runs: Seq<OffsiteReplicationRun>,
    configs: Seq<bool>,
    existing: Seq<Seq<char>>,
    n: int,
    k: int,
)
    requires
        0 <= n <= runs.len(),
        0 <= k < points_of(target, runs, configs, existing, n).len(),
    ensures
        exists|i: int|
            0 <= i < n && is_recoverable(target, runs, configs, existing, i) && runs[i].success
                && point_of(runs[i]) == points_of(target, runs, configs, existing, n)[k],
    decreases n,
{
    if n > 0 {
        let older = points_of(target, runs, configs, existing, n - 1);
        if is_recoverable(target, runs, configs, existing, n - 1) {
            if k > 0 {
                law_recovery_points_are_recoverable(target, runs, configs, existing, n - 1, k - 1);
            } else {
                assert(point_of(runs[n - 1]) == points_of(target, runs, configs, existing, n)[k]);
            }
        } else {
            law_recovery_points_are_recoverable(target, runs, configs, existing, n - 1, k);
        }
    }
}

/// Nothing can be recovered from a target on which no snapshot exists.
pub proof fn law_nothing_exists_nothing_recoverable(
    target: Seq<char>,
    runs: Seq<OffsiteReplicationRun>,
    configs: Seq<bool>,
    n: int,
)
    ensures
        points_of(target, runs, configs, seq![], n).len() == 0,
    decreases n,
{
    if n > 0 {
        law_nothing_exists_nothing_recoverable(target, runs, configs, n - 1);
    }
}

proof fn lemma_existing_of(candidates: Seq<Seq<char>>, existing: Seq<Seq<char>>)
    ensures
        forall|x: Seq<char>| #[trigger]
            existing_of(candidates, existing).contains(x) <==> candidates.contains(x)
                && existing.contains(x),
    decreases candidates.len(),
{
    if candidates.len() > 0 {
        let front = existing_of(candidates.drop_last(), existing);
        let all = existing_of(candidates, existing);
        lemma_existing_of(candidates.drop_last(), existing);
        assert forall|x: Seq<char>| #[trigger] all.contains(x) <==> candidates.contains(x)
            && existing.contains(x) by {
            if all.contains(x) {
                let i = choose|i: int| 0 <= i < all.len() && all[i] == x;
                if i < front.len() {
                    assert(front[i] == x);
                    assert(front.contains(x));
                    let j = choose|j: int|
                        0 <= j < candidates.drop_last().len() && candidates.drop_last()[j] == x;
                    assert(candidates[j] == x);
                } else {
                    assert(candidates[candidates.len() - 1] == x);
                }
            }
            if candidates.contains(x) && existing.contains(x) {
                let j = choose|j: int| 0 <= j < candidates.len() && candidates[j] == x;
                if j < candidates.len() - 1 {
                    assert(candidates.drop_last()[j] == x);
                    assert(candidates.drop_last().contains(x));
                    assert(front.contains(x));
                    let i = choose|i: int| 0 <= i < front.len() && front[i] == x;
                    assert(all[i] == x);
                } else {
                    assert(all[all.len() - 1] == x);
                }
            }
        }
    }
}

/// A deletion destroys those places of the selected snapshot that exist on the target, and nothing
/// else.
pub proof fn law_deletion_destroys_what_was_selected(
    job: OffsiteReplicationJob,
    snapshot: Seq<char>,
    points: Seq<OffsiteRecoveryPoint>,
    existing: Seq<Seq<char>>,
)
    requires
        deletion_script(job, snapshot, points, existing) is Ok,
    ensures
        has_point(points, snapshot),
        candidates_of(job.target_dataset@, snapshot) matches Ok(candidates) && {
            let destroyed = existing_of(candidates, existing);
            &&& deletion_script(job, snapshot, points, existing)->Ok_0 == destroy_script_of(
                destroyed,
            )
            &&& forall|x: Seq<char>| #[trigger]
                destroyed.contains(x) <==> candidates.contains(x) && existing.contains(x)
        },
{
    let candidates = candidates_of(job.target_dataset@, snapshot)->Ok_0;
    lemma_existing_of(candidates, existing);
}

/// A listed recovery point stands at one of its places on the target.
pub proof fn law_listed_point_is_in_place(
    target: Seq<char>,
    runs: Seq<OffsiteReplicationRun>,
    configs: Seq<bool>,
    existing: Seq<Seq<char>>,
    n: int,
    snapshot: Seq<char>,
)
    requires
        0 <= n <= runs.len(),
        has_point(points_of(target, runs, configs, existing, n), snapshot),
    ensures
        resolved(target, snapshot, existing) is Ok,
        candidates_of(target, snapshot) matches Ok(candidates) && existing_of(
            candidates,
            existing,
        ).len() > 0,
{
    let points = points_of(target, runs, configs, existing, n);
    let k = choose|k: int| 0 <= k < points.len() && (#[trigger] points[k]).snapshot@ == snapshot;
    law_recovery_points_are_recoverable(target, runs, configs, existing, n, k);
    let i = choose|i: int|
        0 <= i < n && is_recoverable(target, runs, configs, existing, i) && runs[i].success
            && point_of(runs[i]) == points[k];
    let candidates = run_candidates(target, runs, configs, i)->0;
    assert(candidates_of(target, snapshot) == Ok::<Seq<Seq<char>>, Seq<char>>(candidates));
    let c = choose|c: int|
        0 <= c < candidates.len() && existing.contains(#[trigger] candidates[c]);
    assert(candidates.contains(candidates[c]));
    law_resolved_snapshot_exists(target, snapshot, existing);
    lemma_existing_of(candidates, existing);
    assert(existing_of(candidates, existing).contains(candidates[c]));
}

/// Every listed recovery point with an accepted name can be deleted, as long as it is there.
pub proof fn law_listed_point_can_be_deleted(
    job: OffsiteReplicationJob,
    runs: Seq<OffsiteReplicationRun>,
    configs: Seq<bool>,
    existing: Seq<Seq<char>>,
    snapshot: Seq<char>,
)
    requires
        runtime_verdict(job) is Ok,
        snapshot_verdict(snapshot) is Ok,
        has_point(
            points_of(job.target_dataset@, runs, configs, existing, runs.len() as int),
            snapshot,
        ),
    ensures
        deletion_script(
            job,
            snapshot,
            points_of(job.target_dataset@, runs, configs, existing, runs.len() as int),
            existing,
        ) is Ok,
{
    law_listed_point_is_in_place(
        job.target_dataset@,
        runs,
        configs,
        existing,
        runs.len() as int,
        snapshot,
    );
}

proof fn lemma_points_of_shorter_history(
    target: Seq<char>,
    runs: Seq<OffsiteReplicationRun>,
    configs: Seq<bool>,
    run: OffsiteReplicationRun,
    stored: bool,
    existing: Seq<Seq<char>>,
    n: int,
)
    requires
        0 <= n <= runs.len(),
        configs.len() == runs.len(),
    ensures
        points_of(target, runs.push(run), configs.push(stored), existing, n) == points_of(
            target,
            runs,
            configs,
            existing,
            n,
        ),
        places_of(target, runs.push(run), configs.push(stored), n) == places_of(
            target,
            runs,
            configs,
            n,
        ),
    decreases n,
{
    if n > 0 {
        lemma_points_of_shorter_history(target, runs, configs, run, stored, existing, n - 1);
        assert(runs.push(run)[n - 1] == runs[n - 1]);
        assert(configs.push(stored)[n - 1] == configs[n - 1]);
    }
}

/// No run, no recovery point, and no place to ask about.
pub proof fn law_no_run_no_recovery_point(
    target: Seq<char>,
    configs: Seq<bool>,
    existing: Seq<Seq<char>>,
)
    ensures
        points_of(target, seq![], configs, existing, 0).len() == 0,
        places_of(target, seq![], configs, 0).len() == 0,
{
}

/// A new run that succeeded, has a snapshot and a stored configuration, and whose snapshot exists at
/// one of its places on the target, adds its recovery point in front of those that were listed
/// before, whether it was a full or an incremental one. Any other new run changes nothing.
pub proof fn law_new_run_adds_its_point_in_front(
    target: Seq<char>,
    runs: Seq<OffsiteReplicationRun>,
    configs: Seq<bool>,
    run: OffsiteReplicationRun,
    stored: bool,
    existing: Seq<Seq<char>>,
)
    requires
        configs.len() == runs.len(),
    ensures
        ({
            let before = points_of(target, runs, configs, existing, runs.len() as int);
            let after = points_of(
                target,
                runs.push(run),
                configs.push(stored),
                existing,
                runs.len() as int + 1,
            );
            let in_place = match run.snapshot {
                Some(snapshot) => candidates_of(target, snapshot@) is Ok && exists|x: Seq<char>|
                    candidates_of(target, snapshot@)->Ok_0.contains(x) && #[trigger]
                    existing.contains(x),
                None => false,
            };
            if run.success && stored && in_place {
                &&& after.len() == before.len() + 1
                &&& after.skip(1) == before
                &&& after[0].snapshot == run.snapshot->0
                &&& after[0].end_time == run.end_time
                &&& after[0].transfer_mode == run.transfer_mode
                &&& after[0].estimated_bytes == run.estimated_bytes
                &&& after[0].transferred_bytes == run.transferred_bytes
            } else {
                after == before
            }
        }),
{
    let all = runs.push(run);
    let flags = configs.push(stored);
    let n = runs.len() as int;
    lemma_points_of_shorter_history(target, runs, configs, run, stored, existing, n);
    let before = points_of(target, runs, configs, existing, n);
    let after = points_of(target, all, flags, existing, n + 1);
    assert(all[n] == run);
    assert(flags[n] == stored);
    if run.success && stored && run.snapshot is Some && candidates_of(
        target,
        run.snapshot->0@,
    ) is Ok {
        let candidates = candidates_of(target, run.snapshot->0@)->Ok_0;
        assert(run_candidates(target, all, flags, n) == Some(candidates));
        if exists|x: Seq<char>| candidates.contains(x) && #[trigger] existing.contains(x) {
            let x = choose|x: Seq<char>| candidates.contains(x) && #[trigger] existing.contains(x);
            let k = choose|k: int| 0 <= k < candidates.len() && candidates[k] == x;
            assert(existing.contains(candidates[k]));
            assert(after.skip(1) =~= before);
        } else {
            assert forall|k: int| 0 <= k < candidates.len() implies !existing.contains(
                #[trigger] candidates[k],
            ) by {
                assert(candidates.contains(candidates[k]));
            }
        }
    }
}

/// Every run that a guest can be recovered from is listed, with what is known of it: no recovery
/// point is left out.
pub proof fn law_every_recoverable_run_is_listed(
    target: Seq<char>,
    runs: Seq<OffsiteReplicationRun>,
    configs: Seq<bool>,
    existing: Seq<Seq<char>>,
    n: int,
    i: int,
    place: Seq<char>,
) -> (k: int)
    requires
        0 <= i < n <= runs.len(),
        i < configs.len(),
        runs[i].success,
        runs[i].snapshot is Some,
        configs[i],
        candidates_of(target, runs[i].snapshot->0@) is Ok,
        candidates_of(target, runs[i].snapshot->0@)->Ok_0.contains(place),
        existing.contains(place),
    ensures
        ({
            let points = points_of(target, runs, configs, existing, n);
            &&& 0 <= k < points.len()
            &&& k < n - i
            &&& points[k].snapshot == runs[i].snapshot->0
            &&& points[k].end_time == runs[i].end_time
            &&& points[k].transfer_mode == runs[i].transfer_mode
            &&& points[k].estimated_bytes == runs[i].estimated_bytes
            &&& points[k].transferred_bytes == runs[i].transferred_bytes
        }),
    decreases n,
{
    let older = points_of(target, runs, configs, existing, n - 1);
    let points = points_of(target, runs, configs, existing, n);
    let candidates = candidates_of(target, runs[i].snapshot->0@)->Ok_0;
    let c = choose|c: int| 0 <= c < candidates.len() && candidates[c] == place;
    assert(existing.contains(candidates[c]));
    if i == n - 1 {
        assert(points[0] == point_of(runs[i]));
        0
    } else {
        let k = law_every_recoverable_run_is_listed(
            target,
            runs,
            configs,
            existing,
            n - 1,
            i,
            place,
        );
        if is_recoverable(target, runs, configs, existing, n - 1) {
            assert(points[k + 1] == older[k]);
            k + 1
        } else {
            k
        }
    }
}

/// How many runs there are that a guest can be recovered from, so many points are listed; and of two
/// such runs, the later one's point stands before the earlier one's.
pub proof fn law_points_are_counted_and_ordered(
    target: Seq<char>,
    runs: Seq<OffsiteReplicationRun>,
    configs: Seq<bool>,
    existing: Seq<Seq<char>>,
    n: int,
) -> (places: Seq<int>)
    requires
        0 <= n <= runs.len(),
    ensures
        ({
            let points = points_of(target, runs, configs, existing, n);
            &&& places.len() == points.len()
            &&& forall|k: int|
                0 <= k < points.len() ==> 0 <= #[trigger] places[k] < n && is_recoverable(
                    target,
                    runs,
                    configs,
                    existing,
                    places[k],
                ) && runs[places[k]].success && runs[places[k]].snapshot is Some
                    && points[k].snapshot == runs[places[k]].snapshot->0
            &&& forall|j: int, k: int|
                0 <= j < k < points.len() ==> #[trigger] places[k] < #[trigger] places[j]
            &&& forall|i: int|
                0 <= i < n && is_recoverable(target, runs, configs, existing, i)
                    ==> #[trigger] places.contains(i)
        }),
    decreases n,
{
    let points = points_of(target, runs, configs, existing, n);
    if n == 0 {
        seq![]
    } else {
        let older = law_points_are_counted_and_ordered(target, runs, configs, existing, n - 1);
        let rest = points_of(target, runs, configs, existing, n - 1);
        if is_recoverable(target, runs, configs, existing, n - 1) {
            let places = seq![n - 1] + older;
            assert(places[0] == n - 1);
            assert forall|k: int| 0 <= k < points.len() implies 0 <= #[trigger] places[k] < n
                && is_recoverable(target, runs, configs, existing, places[k])
                && runs[places[k]].success && runs[places[k]].snapshot is Some
                && points[k].snapshot == runs[places[k]].snapshot->0 by {
                if k > 0 {
                    assert(places[k] == older[k - 1]);
                    assert(points[k] == rest[k - 1]);
                }
            }
            assert forall|i: int|
                0 <= i < n && is_recoverable(
                    target,
                    runs,
                    configs,
                    existing,
                    i,
                ) implies #[trigger] places.contains(i) by {
                if i < n - 1 {
                    assert(older.contains(i));
                    let k = choose|k: int| 0 <= k < older.len() && older[k] == i;
                    assert(places[k + 1] == i);
                }
            }
            places
        } else {
            assert forall|i: int|
                0 <= i < n && is_recoverable(
                    target,
                    runs,
                    configs,
                    existing,
                    i,
                ) implies #[trigger] older.contains(i) by {}
            older
        }
    }
}

/// It is enough to ask about the places that `recovery_point_places` names: what else exists on the
/// target changes nothing.
pub proof fn law_places_suffice(
    target: Seq<char>,
    runs: Seq<OffsiteReplicationRun>,
    configs: Seq<bool>,
    existing: Seq<Seq<char>>,
    other: Seq<Seq<char>>,
    n: int,
)
    requires
        0 <= n <= runs.len(),
        forall|x: Seq<char>| #[trigger]
            places_of(target, runs, configs, n).contains(x) ==> (existing.contains(x)
                <==> other.contains(x)),
    ensures
        points_of(target, runs, configs, existing, n) == points_of(
            target,
            runs,
            configs,
            other,
            n,
        ),
    decreases n,
{
    if n > 0 {
        let places = places_of(target, runs, configs, n);
        let older = places_of(target, runs, configs, n - 1);
        let candidates = match run_candidates(target, runs, configs, n - 1) {
            Some(candidates) => candidates,
            None => seq![],
        };
        assert(places =~= candidates + older);
        assert forall|x: Seq<char>| #[trigger] older.contains(x) implies (existing.contains(x)
            <==> other.contains(x)) by {
            let k = choose|k: int| 0 <= k < older.len() && older[k] == x;
            assert(places[candidates.len() + k] == x);
            assert(places.contains(x));
        }
        law_places_suffice(target, runs, configs, existing, other, n - 1);
        assert forall|k: int| 0 <= k < candidates.len() implies (existing.contains(
            #[trigger] candidates[k],
        ) <==> other.contains(candidates[k])) by {
            assert(places[k] == candidates[k]);
            assert(places.contains(candidates[k]));
        }
        assert(any_exists(candidates, existing) == any_exists(candidates, other));
    }
}

/// A point that is not among the recoverable ones is not deleted, nor is one whose places have all
/// gone; one of which a place exists is.
pub proof fn law_deletions_that_are_refused(
    job: OffsiteReplicationJob,
    snapshot: Seq<char>,
    points: Seq<OffsiteRecoveryPoint>,
    existing: Seq<Seq<char>>,
)
    requires
        runtime_verdict(job) is Ok,
        snapshot_verdict(snapshot) is Ok,
        candidates_of(job.target_dataset@, snapshot) is Ok,
    ensures
        ({
            let listed = exists|i: int|
                0 <= i < points.len() && (#[trigger] points[i]).snapshot@ == snapshot;
            let present = exists|x: Seq<char>|
                candidates_of(job.target_dataset@, snapshot)->Ok_0.contains(x) && #[trigger]
                existing.contains(x);
            let answer = deletion_script(job, snapshot, points, existing);
            &&& answer is Ok <==> listed && present
            &&& !listed ==> answer == Err::<Seq<char>, Seq<char>>(
                "snapshot '"@ + snapshot + "' is not currently recoverable on target '"@
                    + job.target_dataset@ + "'"@,
            )
            &&& listed && !present ==> answer == Err::<Seq<char>, Seq<char>>(
                "snapshot '"@ + snapshot + "' is no longer present on target '"@
                    + job.target_dataset@ + "'"@,
            )
        }),
{
    let candidates = candidates_of(job.target_dataset@, snapshot)->Ok_0;
    let found = existing_of(candidates, existing);
    lemma_existing_of(candidates, existing);
    if exists|x: Seq<char>| candidates.contains(x) && #[trigger] existing.contains(x) {
        let x = choose|x: Seq<char>| candidates.contains(x) && #[trigger] existing.contains(x);
        assert(found.contains(x));
    } else if found.len() > 0 {
        assert(found.contains(found[0]));
        assert(existing.contains(found[0]));
    }
}

} // verus!
