//! Properties of the merge as a whole, proved from the contracts of the
//! locator, the orderer and the merge state machine.
use vstd::prelude::*;
use crate::merge::{transition, Action, MergeEvent, Report, Stage};
use crate::naming::{belongs_to, chunk_name, is_corrupt_name};
use crate::order::{any_located, ascending, has_corrupt, listed, merge_gate, part_set, MergeError};

verus! {

/// Two ascending sequences that hold the same numbers are equal.
pub proof fn lemma_ascending_unique(a: Seq<u32>, b: Seq<u32>)
    requires
        ascending(a),
        ascending(b),
        forall|x: u32| a.contains(x) <==> b.contains(x),
    ensures
        a == b,
    decreases a.len(),
{
    if a.len() == 0 {
        if b.len() > 0 {
            assert(b.contains(b[0]));
        }
        assert(a =~= b);
    } else {
        assert(a.contains(a[0]));
        let k = choose|k: int| 0 <= k < b.len() && b[k] == a[0];
        assert(b.contains(b[0]));
        let m = choose|m: int| 0 <= m < a.len() && a[m] == b[0];
        if k > 0 {
            assert(b[0] < b[k]);
            if m > 0 {
                assert(a[0] < a[m]);
            }
        }
        assert(a[0] == b[0]);
        let a2 = a.drop_first();
        let b2 = b.drop_first();
        assert forall|x: u32| a2.contains(x) <==> b2.contains(x) by {
            if a2.contains(x) {
                let i = choose|i: int| 0 <= i < a2.len() && a2[i] == x;
                assert(a[i + 1] == x);
                assert(a[0] < a[i + 1]);
                assert(b.contains(x));
                let j = choose|j: int| 0 <= j < b.len() && b[j] == x;
                assert(j != 0);
                assert(b2[j - 1] == x);
            }
            if b2.contains(x) {
                let i = choose|i: int| 0 <= i < b2.len() && b2[i] == x;
                assert(b[i + 1] == x);
                assert(b[0] < b[i + 1]);
                assert(a.contains(x));
                let j = choose|j: int| 0 <= j < a.len() && a[j] == x;
                assert(j != 0);
                assert(a2[j - 1] == x);
            }
        }
        lemma_ascending_unique(a2, b2);
        assert forall|i: int| 0 <= i < a.len() implies a[i] == b[i] by {
            if i > 0 {
                assert(a[i] == a2[i - 1]);
                assert(b[i] == b2[i - 1]);
            }
        }
        assert(a =~= b);
    }
}

/// Chunk parts that arrive in any order are merged in the same order: two
/// snapshots of the chunk store that list the same names in another order
/// are judged alike, and their parts are ordered into one and the same
/// ascending sequence.
pub proof fn lemma_arrival_order_irrelevant(
    id: Seq<char>,
    first: Seq<String>,
    second: Seq<String>,
    total: usize,
    plan_first: Seq<u32>,
    plan_second: Seq<u32>,
)
    requires
        first.to_multiset() == second.to_multiset(),
        ascending(plan_first),
        ascending(plan_second),
        plan_first.to_set() == part_set(id, listed(first)),
        plan_second.to_set() == part_set(id, listed(second)),
    ensures
        merge_gate(id, listed(first), total) == merge_gate(id, listed(second), total),
        plan_first == plan_second,
{
    assert forall|e: Seq<char>| listed(first).contains(e) implies listed(second).contains(e) by {
        let j = choose|j: int| 0 <= j < first.len() && first[j]@ == e;
        assert(first.contains(first[j]));
        vstd::seq_lib::to_multiset_contains(first, first[j]);
        vstd::seq_lib::to_multiset_contains(second, first[j]);
        let k = choose|k: int| 0 <= k < second.len() && second[k] == first[j];
        assert(second[k]@ == e);
    }
    assert forall|e: Seq<char>| listed(second).contains(e) implies listed(first).contains(e) by {
        let j = choose|j: int| 0 <= j < second.len() && second[j]@ == e;
        assert(second.contains(second[j]));
        vstd::seq_lib::to_multiset_contains(second, second[j]);
        vstd::seq_lib::to_multiset_contains(first, second[j]);
        let k = choose|k: int| 0 <= k < first.len() && first[k] == second[j];
        assert(first[k]@ == e);
    }
    assert(listed(first) =~= listed(second));
    assert forall|x: u32| plan_first.contains(x) <==> plan_second.contains(x) by {
        assert(plan_first.to_set().contains(x) == plan_first.contains(x));
        assert(plan_second.to_set().contains(x) == plan_second.contains(x));
    }
    lemma_ascending_unique(plan_first, plan_second);
}

/// A merge declared with more parts than are stored is refused as missing
/// chunks, provided the upload has stored parts and no corrupt name.
pub proof fn lemma_incomplete_upload_refused(id: Seq<char>, names: Set<Seq<char>>, total: usize)
    requires
        any_located(id, names),
        !has_corrupt(id, names),
        total > part_set(id, names).len(),
    ensures
        merge_gate(id, names, total) == Some(
            MergeError::MissingChunks { found: part_set(id, names).len() as usize, total },
        ),
{
}

/// One stored name of the upload that is the name of no part refuses the
/// whole merge as corrupt.
pub proof fn lemma_corrupt_name_refused(
    id: Seq<char>,
    names: Set<Seq<char>>,
    total: usize,
    name: Seq<char>,
)
    requires
        names.contains(name),
        is_corrupt_name(id, name),
    ensures
        merge_gate(id, names, total) == Some(MergeError::CorruptChunkName),
{
    assert(belongs_to(id, name));
}

/// A merge that finds its artifact already created ends with the one event
/// `Duplicate`, and appends nothing to the artifact on the way.
pub proof fn lemma_claimed_artifact_is_duplicate(
    parts: Seq<u32>,
    location: String,
    cleanup: Stage,
    first: crate::merge::Step,
    end: Stage,
    second: crate::merge::Step,
)
    requires
        transition(parts, location, Stage::Claim, Report::AlreadyExists, cleanup, first),
        transition(parts, location, cleanup, Report::Removed, end, second),
    ensures
        !(first.action is AppendPart),
        !(second.action is AppendPart),
        first.events@ + second.events@ == seq![MergeEvent::Duplicate],
        second.action == Action::Stop,
        end == Stage::Over,
{
    assert(first.events@ + second.events@ =~= seq![MergeEvent::Duplicate]);
}

/// On a duplicate, the parts deleted are all the parts of the upload: every
/// stored name that carries the upload's id is the name of a deleted part.
pub proof fn lemma_duplicate_removes_all_parts(
    id: Seq<char>,
    names: Set<Seq<char>>,
    total: usize,
    parts: Seq<u32>,
    location: String,
    cleanup: Stage,
    step: crate::merge::Step,
)
    requires
        merge_gate(id, names, total) is None,
        parts.to_set() == part_set(id, names),
        transition(parts, location, Stage::Claim, Report::AlreadyExists, cleanup, step),
    ensures
        step.action is RemoveParts,
        forall|e: Seq<char>|
            names.contains(e) && belongs_to(id, e) ==> exists|n: u32|
                step.action->RemoveParts_0@.contains(n) && e == #[trigger] chunk_name(id, n as nat),
{
    assert forall|e: Seq<char>| names.contains(e) && belongs_to(id, e) implies exists|n: u32|
        step.action->RemoveParts_0@.contains(n) && e == #[trigger] chunk_name(id, n as nat) by {
        assert(!is_corrupt_name(id, e));
        let n = choose|n: u32| e == #[trigger] chunk_name(id, n as nat);
        assert(part_set(id, names).contains(n));
        assert(parts.to_set().contains(n));
    }
}

/// `stages`, `reports` and `steps` trace a run of the merge machine: each
/// step answers the report on the stage before it.
pub open spec fn is_run(
    parts: Seq<u32>,
    location: String,
    stages: Seq<Stage>,
    reports: Seq<Report>,
    steps: Seq<crate::merge::Step>,
) -> bool {
    &&& stages.len() == reports.len() + 1
    &&& steps.len() == reports.len()
    &&& forall|k: int|
        0 <= k < reports.len() ==> transition(
            parts,
            location,
            #[trigger] stages[k],
            reports[k],
            stages[k + 1],
            steps[k],
        )
}

/// Part `j` of the plan was deleted by one of the first `upto` steps.
pub open spec fn removed_by(parts: Seq<u32>, steps: Seq<crate::merge::Step>, upto: int, j: int) -> bool {
    exists|m: int| 0 <= m < upto && #[trigger] steps[m].action == Action::RemovePart(parts[j])
}

proof fn lemma_run_progress(
    parts: Seq<u32>,
    location: String,
    stages: Seq<Stage>,
    reports: Seq<Report>,
    steps: Seq<crate::merge::Step>,
    k: int,
)
    requires
        is_run(parts, location, stages, reports, steps),
        stages[0] == Stage::Claim,
        0 <= k <= reports.len(),
    ensures
        match stages[k] {
            Stage::Append(i) => forall|j: int| 0 <= j < i ==> removed_by(parts, steps, k, j),
            Stage::Remove(i) => forall|j: int| 0 <= j <= i ==> removed_by(parts, steps, k, j),
            _ => true,
        },
    decreases k,
{
    if k > 0 {
        let p = k - 1;
        lemma_run_progress(parts, location, stages, reports, steps, p);
        assert(transition(parts, location, stages[p], reports[p], stages[k], steps[p]));
        match stages[k] {
            Stage::Append(i) => {
                assert forall|j: int| 0 <= j < i implies removed_by(parts, steps, k, j) by {
                    assert(removed_by(parts, steps, p, j));
                    let m = choose|m: int|
                        0 <= m < p && #[trigger] steps[m].action == Action::RemovePart(parts[j]);
                    assert(steps[m].action == Action::RemovePart(parts[j]));
                }
            },
            Stage::Remove(i) => {
                assert(stages[p] == Stage::Append(i));
                assert forall|j: int| 0 <= j <= i implies removed_by(parts, steps, k, j) by {
                    if j < i {
                        assert(removed_by(parts, steps, p, j));
                        let m = choose|m: int|
                            0 <= m < p && #[trigger] steps[m].action == Action::RemovePart(
                                parts[j],
                            );
                        assert(steps[m].action == Action::RemovePart(parts[j]));
                    } else {
                        assert(steps[p].action == Action::RemovePart(parts[j]));
                    }
                }
            },
            _ => {},
        }
    }
}

/// A merge that reports `Done` has deleted every part of its plan: in a run
/// from the claim of the artifact, the step that emits `Done` comes after a
/// `RemovePart` action for each planned part.
pub proof fn lemma_done_run_deletes_every_part(
    parts: Seq<u32>,
    location: String,
    stages: Seq<Stage>,
    reports: Seq<Report>,
    steps: Seq<crate::merge::Step>,
    k: int,
)
    requires
        is_run(parts, location, stages, reports, steps),
        stages[0] == Stage::Claim,
        0 <= k < reports.len(),
        steps[k].events@.contains(MergeEvent::Done(location)),
    ensures
        forall|j: int| 0 <= j < parts.len() ==> #[trigger] removed_by(parts, steps, k + 1, j),
{
    lemma_run_progress(parts, location, stages, reports, steps, k);
    assert(transition(parts, location, stages[k], reports[k], stages[k + 1], steps[k]));
    let x = choose|x: int|
        0 <= x < steps[k].events@.len() && steps[k].events@[x] == MergeEvent::Done(location);
    assert forall|j: int| 0 <= j < parts.len() implies #[trigger] removed_by(parts, steps, k + 1, j) by {
        match stages[k] {
            Stage::Remove(i) => {
                assert(removed_by(parts, steps, k, j));
                let m = choose|m: int|
                    0 <= m < k && #[trigger] steps[m].action == Action::RemovePart(parts[j]);
                assert(steps[m].action == Action::RemovePart(parts[j]));
            },
            _ => {},
        }
    }
}

/// The names left in the store once the parts in `plan` of upload `id` are
/// deleted.
pub open spec fn remaining(id: Seq<char>, names: Set<Seq<char>>, plan: Seq<u32>) -> Set<
    Seq<char>,
> {
    names.filter(
        |e: Seq<char>| !(exists|i: int| 0 <= i < plan.len() && e == chunk_name(id, plan[i] as nat)),
    )
}

/// Merging again after a merge that succeeded is a no-op that reports
/// `Duplicate`. Nothing stopped the earlier merge, whose ordered parts are
/// `plan`, and by `lemma_done_run_deletes_every_part` deleted each of them
/// before it reported `Done`. In the store left behind no name carries the
/// id, so the second merge opens by probing the artifact (the contract of
/// `MergeSession::start` on `IdNotFound`); on finding it, it emits the one
/// event `Duplicate` and stops, having neither created nor appended to the
/// artifact.
pub proof fn lemma_remerge_is_duplicate(
    id: Seq<char>,
    names: Set<Seq<char>>,
    total: usize,
    plan: Seq<u32>,
    parts: Seq<u32>,
    location: String,
    next: Stage,
    step: crate::merge::Step,
)
    requires
        merge_gate(id, names, total) is None,
        plan.to_set() == part_set(id, names),
        transition(parts, location, Stage::Probe, Report::ArtifactFound, next, step),
    ensures
        merge_gate(id, remaining(id, names, plan), total) == Some(MergeError::IdNotFound),
        step.events@ == seq![MergeEvent::Duplicate],
        step.action == Action::Stop,
        next == Stage::Over,
{
    let rest = remaining(id, names, plan);
    assert forall|e: Seq<char>| rest.contains(e) implies !belongs_to(id, e) by {
        if belongs_to(id, e) {
            assert(names.contains(e));
            assert(!is_corrupt_name(id, e));
            let n = choose|n: u32| e == #[trigger] chunk_name(id, n as nat);
            assert(part_set(id, names).contains(n));
            assert(plan.to_set().contains(n));
            let i = choose|i: int| 0 <= i < plan.len() && plan[i] == n;
            assert(e == chunk_name(id, plan[i] as nat));
        }
    }
    assert(!any_located(id, rest));
}

/// The progress channel ends with exactly one terminal event: a step of a
/// merge that is not over emits a terminal event exactly when it ends the
/// merge, that event comes last, and only progress events come before it.
pub proof fn lemma_one_terminal_event(
    parts: Seq<u32>,
    location: String,
    stage: Stage,
    report: Report,
    next: Stage,
    step: crate::merge::Step,
)
    requires
        stage != Stage::Over,
        transition(parts, location, stage, report, next, step),
    ensures
        next == Stage::Over <==> (step.events@.len() > 0 && step.events@.last().is_terminal()),
        next == Stage::Over ==> step.action == Action::Stop,
        forall|i: int| 0 <= i < step.events@.len() - 1 ==> !(#[trigger] step.events@[i]).is_terminal(),
{
}

} // verus!
