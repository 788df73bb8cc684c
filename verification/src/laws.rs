//! What holds of every run of the dispatcher, stated over the tables as maps.

use crate::demand::DemandView;
use crate::error::Error;
use crate::manifest::ManifestReadView;
use crate::model::StateView;
use vstd::prelude::*;

verus! {

/// One transition together with what the outside world answers to it.
pub enum Step<H> {
    /// A start of `id`. Where no name is cached for `id`, `found` is the name
    /// that the search for its manifest ends with, or nothing where it ends
    /// without one; `handle` is the lock that is granted if one is asked for.
    Start { id: usize, found: Option<Seq<char>>, handle: H },
    /// A stop of `id`.
    Stop { id: usize },
}

impl<H> Step<H> {
    /// Whether the step is a stop of the download `id`.
    pub open spec fn stops(self, id: usize) -> bool {
        self == (Step::<H>::Stop { id })
    }

    /// The download that the step is about.
    pub open spec fn id(self) -> usize {
        match self {
            Step::Start { id, .. } => id,
            Step::Stop { id } => id,
        }
    }
}

/// The name under which a start of `id` asks for its lock, if it comes to
/// ask: the cached one, else the one that was found.
pub open spec fn name_for<H>(t: StateView<H>, id: usize, found: Option<Seq<char>>) -> Option<
    Seq<char>,
> {
    match t.known(id) {
        Some(name) => Some(name),
        None => found,
    }
}

/// The tables after `step`. A start without a name is dropped; any other
/// start caches the name and takes the lock.
pub open spec fn apply<H>(t: StateView<H>, step: Step<H>) -> StateView<H> {
    match step {
        Step::Start { id, found, handle } => match name_for(t, id, found) {
            Some(name) => t.remember(id, name).grant(id, handle),
            None => t,
        },
        Step::Stop { id } => t.stop(id),
    }
}

/// The lock that `step` takes for the download `id`, as a sequence of one or none.
pub open spec fn grants<H>(t: StateView<H>, step: Step<H>, id: usize) -> Seq<H> {
    match step {
        Step::Start { id: started, found, handle } => if started == id && name_for(
            t,
            id,
            found,
        ) is Some {
            seq![handle]
        } else {
            seq![]
        },
        Step::Stop { .. } => seq![],
    }
}

/// A lock or none, as a sequence.
pub open spec fn as_seq<H>(lock: Option<H>) -> Seq<H> {
    match lock {
        Some(handle) => seq![handle],
        None => seq![],
    }
}

/// The lock of the download `id` that `step` hands back for release, as a
/// sequence of one or none.
pub open spec fn releases<H>(t: StateView<H>, step: Step<H>, id: usize) -> Seq<H> {
    match step {
        Step::Start { id: started, found, handle } => match name_for(t, started, found) {
            Some(name) => if started == id {
                as_seq(t.remember(id, name).grant_releases(id, handle))
            } else {
                seq![]
            },
            None => seq![],
        },
        Step::Stop { id: stopped } => if stopped == id {
            as_seq(t.held(id))
        } else {
            seq![]
        },
    }
}

/// The tables after all of `steps`, in their order.
pub open spec fn run<H>(t: StateView<H>, steps: Seq<Step<H>>) -> StateView<H>
    decreases steps.len(),
{
    if steps.len() == 0 {
        t
    } else {
        apply(run(t, steps.drop_last()), steps.last())
    }
}

/// All locks taken for the download `id` in the course of `steps`, in their order.
pub open spec fn all_grants<H>(t: StateView<H>, steps: Seq<Step<H>>, id: usize) -> Seq<H>
    decreases steps.len(),
{
    if steps.len() == 0 {
        seq![]
    } else {
        all_grants(t, steps.drop_last(), id) + grants(run(t, steps.drop_last()), steps.last(), id)
    }
}

/// All locks of the download `id` handed back for release in the course of
/// `steps`, in their order.
pub open spec fn all_releases<H>(t: StateView<H>, steps: Seq<Step<H>>, id: usize) -> Seq<H>
    decreases steps.len(),
{
    if steps.len() == 0 {
        seq![]
    } else {
        all_releases(t, steps.drop_last(), id) + releases(
            run(t, steps.drop_last()),
            steps.last(),
            id,
        )
    }
}

/// The tables of a new dispatcher are well formed.
pub proof fn law_fresh_is_well_formed<H>(roots: Seq<Seq<char>>)
    ensures
        StateView::<H>::fresh(roots).wf(),
{
}

/// Every transition keeps the tables well formed: a lock is never held for a
/// download without a cached name.
pub proof fn law_transitions_keep_well_formed<H>(
    t: StateView<H>,
    id: usize,
    name: Seq<char>,
    handle: H,
)
    requires
        t.wf(),
    ensures
        t.remember(id, name).wf(),
        t.grant(id, handle).wf(),
        t.stop(id).wf(),
{
}

/// Every step, and so every run, keeps the tables well formed.
pub proof fn law_runs_keep_well_formed<H>(t: StateView<H>, steps: Seq<Step<H>>)
    requires
        t.wf(),
    ensures
        run(t, steps).wf(),
    decreases steps.len(),
{
    if steps.len() > 0 {
        law_runs_keep_well_formed(t, steps.drop_last());
    }
}

/// A stop of a download that has neither a lock nor a cached name leaves
/// both tables as they are and hands back no lock.
pub proof fn law_stop_of_idle_changes_nothing<H>(t: StateView<H>, id: usize)
    requires
        !t.locks.contains_key(id),
        !t.names.contains_key(id),
    ensures
        t.stop(id) == t,
        t.held(id) is None,
{
    assert(t.stop(id).locks =~= t.locks);
    assert(t.stop(id).names =~= t.names);
}

/// A second stop of the same download changes nothing and hands back no lock.
pub proof fn law_stop_twice<H>(t: StateView<H>, id: usize)
    ensures
        t.stop(id).stop(id) == t.stop(id),
        t.stop(id).held(id) is None,
{
    law_stop_of_idle_changes_nothing(t.stop(id), id);
}

/// A step about one download leaves the entries of every other download alone.
pub proof fn law_step_is_local<H>(t: StateView<H>, step: Step<H>, id: usize)
    requires
        step.id() != id,
    ensures
        apply(t, step).held(id) == t.held(id),
        apply(t, step).known(id) == t.known(id),
        grants(t, step, id) == Seq::<H>::empty(),
        releases(t, step, id) == Seq::<H>::empty(),
{
}

/// After any run, the lock held for a download is the one that its most
/// recent successful start took: the start at position `i` took `handle`, and
/// no later step was about the same download. The table is a map, so this
/// lock is the only one held for the download.
pub proof fn law_lock_is_of_latest_start<H>(t: StateView<H>, steps: Seq<Step<H>>, i: int)
    requires
        0 <= i < steps.len(),
        steps[i] is Start,
        name_for(run(t, steps.take(i)), steps[i].id(), steps[i]->found) is Some,
        forall|j: int| i < j < steps.len() ==> steps[j].id() != steps[i].id(),
    ensures
        run(t, steps).held(steps[i].id()) == Some(steps[i]->handle),
    decreases steps.len(),
{
    let init = steps.drop_last();
    if i == steps.len() - 1 {
        assert(init =~= steps.take(i));
    } else {
        assert(init.take(i) =~= steps.take(i));
        law_lock_is_of_latest_start(t, init, i);
        law_step_is_local(run(t, init), steps.last(), steps[i].id());
    }
}

/// After any run in which a download was stopped and not started with success
/// since, the download has neither a lock nor a cached name: the stop is at
/// position `i`, and every later step about the download is a start that
/// finds no manifest.
pub proof fn law_nothing_held_after_stop<H>(t: StateView<H>, steps: Seq<Step<H>>, i: int)
    requires
        0 <= i < steps.len(),
        steps[i] is Stop,
        forall|j: int|
            i < j < steps.len() && steps[j].id() == steps[i].id() ==> steps[j] is Start
                && steps[j]->found is None,
    ensures
        run(t, steps).held(steps[i].id()) is None,
        run(t, steps).known(steps[i].id()) is None,
    decreases steps.len(),
{
    let init = steps.drop_last();
    if i < steps.len() - 1 {
        law_nothing_held_after_stop(t, init, i);
        if steps.last().id() != steps[i].id() {
            law_step_is_local(run(t, init), steps.last(), steps[i].id());
        }
    }
}

/// A run without a step about a download leaves its lock and its name as they were.
pub proof fn law_run_is_local<H>(t: StateView<H>, steps: Seq<Step<H>>, id: usize)
    requires
        forall|j: int| 0 <= j < steps.len() ==> steps[j].id() != id,
    ensures
        run(t, steps).held(id) == t.held(id),
        run(t, steps).known(id) == t.known(id),
    decreases steps.len(),
{
    if steps.len() > 0 {
        law_run_is_local(t, steps.drop_last(), id);
        law_step_is_local(run(t, steps.drop_last()), steps.last(), id);
    }
}

/// A stop hands back the lock that the download's most recent successful
/// start took, and after it none is held: the start at position `i` took
/// `handle`, the stop is at position `k`, and no step between them was about
/// the same download.
pub proof fn law_stop_releases_started_lock<H>(
    t: StateView<H>,
    steps: Seq<Step<H>>,
    i: int,
    k: int,
)
    requires
        0 <= i < k < steps.len(),
        steps[i] is Start,
        name_for(run(t, steps.take(i)), steps[i].id(), steps[i]->found) is Some,
        steps[k].stops(steps[i].id()),
        forall|j: int| i < j < k ==> steps[j].id() != steps[i].id(),
    ensures
        releases(run(t, steps.take(k)), steps[k], steps[i].id()) == seq![steps[i]->handle],
        run(t, steps.take(k + 1)).held(steps[i].id()) is None,
{
    let before = steps.take(k);
    assert(before.take(i) =~= steps.take(i));
    law_lock_is_of_latest_start(t, before, i);
    assert(steps.take(k + 1).drop_last() =~= before);
}

/// No step loses a lock: what was held for a download before the step,
/// followed by what the step takes for it, is what the step hands back of it,
/// followed by what is held after.
pub proof fn law_step_keeps_account<H>(t: StateView<H>, step: Step<H>, id: usize)
    ensures
        as_seq(t.held(id)) + grants(t, step, id) =~= releases(t, step, id) + as_seq(
            apply(t, step).held(id),
        ),
{
}

/// No run loses a lock. Of the locks of one download, those held at first
/// followed by those taken are, in this order, those handed back for release
/// followed by the one still held: each lock taken is handed back exactly
/// once, or is the one in the table.
pub proof fn law_no_lock_is_lost<H>(t: StateView<H>, steps: Seq<Step<H>>, id: usize)
    ensures
        as_seq(t.held(id)) + all_grants(t, steps, id) =~= all_releases(t, steps, id) + as_seq(
            run(t, steps).held(id),
        ),
    decreases steps.len(),
{
    if steps.len() > 0 {
        let init = steps.drop_last();
        law_no_lock_is_lost(t, init, id);
        law_step_keeps_account(run(t, init), steps.last(), id);
    }
}

/// A cached name stays as it is until a stop clears it: after any run without
/// a stop of the download, its name is the one that was cached at first.
pub proof fn law_cached_name_stays<H>(t: StateView<H>, steps: Seq<Step<H>>, id: usize)
    requires
        t.names.contains_key(id),
        forall|j: int| 0 <= j < steps.len() ==> !steps[j].stops(id),
    ensures
        run(t, steps).known(id) == t.known(id),
    decreases steps.len(),
{
    if steps.len() > 0 {
        law_cached_name_stays(t, steps.drop_last(), id);
    }
}

/// A start of a download with a cached name does not depend on what a search
/// for its manifest would find: it asks for the lock at once, under the
/// cached name.
pub proof fn law_cached_name_decides<H>(
    t: StateView<H>,
    id: usize,
    found: Option<Seq<char>>,
    other: Option<Seq<char>>,
    handle: H,
)
    requires
        t.names.contains_key(id),
    ensures
        apply(t, Step::Start { id, found, handle }) == apply(
            t,
            Step::Start { id, found: other, handle },
        ),
        name_for(t, id, found) == Some(t.names[id]),
        t.begin(id) is Inhibit,
{
}

/// A start of a download without a cached name whose manifest is found
/// nowhere is dropped: the tables stay as they are, and hold neither a lock
/// nor a name for it.
pub proof fn law_unknown_download_is_dropped<H>(t: StateView<H>, id: usize, handle: H)
    requires
        t.wf(),
        !t.names.contains_key(id),
    ensures
        apply(t, Step::Start { id, found: None, handle }) == t,
        t.held(id) is None,
        t.known(id) is None,
        grants(t, Step::Start { id, found: None, handle }, id) == Seq::<H>::empty(),
{
}

/// The first library, from the one with index `from` on, whose read is not
/// `Missing`.
pub open spec fn first_present(reads: Seq<ManifestReadView>, from: int) -> Option<int>
    decreases reads.len() - from,
{
    if from < 0 || from >= reads.len() {
        None
    } else if !(reads[from] is Missing) {
        Some(from)
    } else {
        first_present(reads, from + 1)
    }
}

/// How the search for the manifest of `id` ends when it stands at the library
/// with index `from` and the library with index `i` gives `reads[i]`: the
/// tables, and the demand or error that is not a demand to look further.
pub open spec fn search_end<H>(
    t: StateView<H>,
    id: usize,
    reads: Seq<ManifestReadView>,
    from: int,
) -> (StateView<H>, Result<DemandView<H>, Error>)
    decreases reads.len() - from,
{
    if 0 <= from < reads.len() && from <= usize::MAX {
        let next = t.manifest_demand(id, from as usize, reads[from]);
        let after = t.after_manifest(id, reads[from]);
        if next is Ok && next->Ok_0 is Load {
            search_end(after, id, reads, from + 1)
        } else {
            (after, next)
        }
    } else {
        (t, Ok(DemandView::Nothing))
    }
}

/// The name that a search ends with, if it ends with one.
pub open spec fn found_by(reads: Seq<ManifestReadView>) -> Option<Seq<char>> {
    match first_present(reads, 0) {
        Some(k) => match reads[k] {
            ManifestReadView::Name(name) => Some(name),
            _ => None,
        },
        None => None,
    }
}

/// The libraries are searched in their order, and the first that has the
/// file decides: the search for a download without a cached name ends as the
/// first read that is not `Missing` says, and with nothing where every read
/// is `Missing`.
pub proof fn law_first_manifest_decides<H>(
    t: StateView<H>,
    id: usize,
    reads: Seq<ManifestReadView>,
    from: int,
)
    requires
        t.known(id) is None,
        reads.len() == t.roots.len(),
        reads.len() <= usize::MAX,
        0 <= from <= reads.len(),
    ensures
        search_end(t, id, reads, from) == match first_present(reads, from) {
            Some(k) => (
                t.after_manifest(id, reads[k]),
                t.manifest_demand(id, k as usize, reads[k]),
            ),
            None => (t, Ok(DemandView::Nothing)),
        },
    decreases reads.len() - from,
{
    if from < reads.len() && reads[from] is Missing {
        law_first_manifest_decides(t, id, reads, from + 1);
    }
}

/// A start that searches is the step `Start` with what the search found: where
/// the search ends with a demand for the lock, the tables after the grant are
/// those after the step, and where it ends with nothing, the step is dropped.
pub proof fn law_start_follows_search<H>(
    t: StateView<H>,
    id: usize,
    reads: Seq<ManifestReadView>,
    handle: H,
)
    requires
        t.known(id) is None,
        reads.len() == t.roots.len(),
        reads.len() <= usize::MAX,
        search_end(t, id, reads, 0).1 is Ok,
    ensures
        apply(t, Step::Start { id, found: found_by(reads), handle }) == (if search_end(
            t,
            id,
            reads,
            0,
        ).1->Ok_0 is Inhibit {
            search_end(t, id, reads, 0).0.grant(id, handle)
        } else {
            search_end(t, id, reads, 0).0
        }),
{
    law_first_manifest_decides(t, id, reads, 0);
}

} // verus!
