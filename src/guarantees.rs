//! What holds of every run of the reconciliation controller, proved over its
//! transition functions.

use vstd::prelude::*;
use crate::base_cache::{BaseKey, lemma_missing_paths_exact, missing_paths, with_loaded};
use crate::controller::{
    CycleError, DiffState, StageView, StepView, base_texts_loaded, branch_diff_computed, evicted,
    head_change, initial, live_bases, merge_base_resolved, retried, valid,
};
use crate::diff_entry::{FileChangeView, LoadedBaseView};

verus! {

/// Delivering the same head notification twice in a row starts at most one
/// cycle: the second delivery changes nothing and reports `NoChange`.
pub proof fn lemma_repeated_notification_is_noop(s: DiffState, new_head: Option<Seq<char>>)
    ensures
        head_change(head_change(s, new_head).0, new_head) == (
            head_change(s, new_head).0,
            StepView::NoChange,
        ),
{
}

/// No event ever lowers the generation.
pub proof fn lemma_generation_never_decreases(
    s: DiffState,
    new_head: Option<Seq<char>>,
    generation: nat,
    base: Result<Seq<char>, CycleError>,
    changes: Result<Seq<FileChangeView>, CycleError>,
    loaded: Result<Seq<LoadedBaseView>, CycleError>,
)
    ensures
        head_change(s, new_head).0.generation >= s.generation,
        merge_base_resolved(s, generation, base).0.generation == s.generation,
        branch_diff_computed(s, generation, changes).0.generation == s.generation,
        base_texts_loaded(s, generation, loaded).0.generation == s.generation,
{
}

/// Once a cycle for a second, different head has been started after a cycle
/// for a first head, every result of the first cycle that arrives later, in
/// any state at least as new as that, is discarded and changes nothing.
pub proof fn lemma_superseded_cycle_is_discarded(
    s: DiffState,
    first: Seq<char>,
    second: Seq<char>,
    later: DiffState,
    base: Result<Seq<char>, CycleError>,
    changes: Result<Seq<FileChangeView>, CycleError>,
    loaded: Result<Seq<LoadedBaseView>, CycleError>,
)
    requires
        s.observed_head != Some(first),
        first != second,
        later.generation >= head_change(head_change(s, Some(first)).0, Some(second)).0.generation,
    ensures
        ({
            let stale = head_change(s, Some(first)).0.generation;
            &&& head_change(s, Some(first)).1 == (StepView::ResolveMergeBase {
                generation: stale,
                head: first,
            })
            &&& merge_base_resolved(later, stale, base) == (later, StepView::Discarded)
            &&& branch_diff_computed(later, stale, changes) == (later, StepView::Discarded)
            &&& base_texts_loaded(later, stale, loaded) == (later, StepView::Discarded)
        }),
{
}

/// A headless notification on a settled, non-empty diff clears the diff, the
/// merge base and the observed head.
pub proof fn lemma_headless_resets(s: DiffState)
    requires
        valid(s),
        s.diff.len() > 0,
    ensures
        head_change(s, None).1 == StepView::Cleared,
        head_change(s, None).0.diff.len() == 0,
        head_change(s, None).0.merge_base is None,
        head_change(s, None).0.observed_head is None,
        head_change(s, None).0.diff_head is None,
        head_change(s, None).0.stage is Idle,
{
}

/// Storing loaded contents keeps every key already cached and adds each
/// loaded path under `base`.
pub proof fn lemma_with_loaded_keys(
    cache: Map<BaseKey, Option<Seq<char>>>,
    base: Seq<char>,
    loaded: Seq<LoadedBaseView>,
)
    ensures
        forall|k: BaseKey| cache.contains_key(k) ==> #[trigger] with_loaded(
            cache,
            base,
            loaded,
        ).contains_key(k),
        forall|j: int|
            0 <= j < loaded.len() ==> #[trigger] with_loaded(cache, base, loaded).contains_key(
                (base, loaded[j].path),
            ),
    decreases loaded.len(),
{
    if loaded.len() > 0 {
        let init = loaded.drop_last();
        lemma_with_loaded_keys(cache, base, init);
        let before = with_loaded(cache, base, init);
        let after = with_loaded(cache, base, loaded);
        assert(after == before.insert((base, loaded.last().path), loaded.last().text));
        assert forall|k: BaseKey| cache.contains_key(k) implies #[trigger] after.contains_key(k) by {
            assert(before.contains_key(k));
        }
        assert forall|j: int| 0 <= j < loaded.len() implies #[trigger] after.contains_key(
            (base, loaded[j].path),
        ) by {
            if j < loaded.len() - 1 {
                assert(init[j] == loaded[j]);
                assert(before.contains_key((base, init[j].path)));
            }
        }
    }
}

/// Where every path of a diff is already cached under its merge base, the
/// diff is published without any fetch; otherwise the fetch asks for exactly
/// the uncached paths, each once.
pub proof fn lemma_fetch_only_uncached(s: DiffState, changes: Seq<FileChangeView>)
    requires
        s.stage is ComputingDiff,
    ensures
        ({
            let base = s.stage->ComputingDiff_base;
            let step = branch_diff_computed(s, s.generation, Ok(changes)).1;
            &&& (forall|i: int|
                0 <= i < changes.len() ==> #[trigger] s.cache.contains_key((base, changes[i].path)))
                ==> step == StepView::Published
            &&& step is FetchBaseTexts ==> {
                let paths = step->FetchBaseTexts_paths;
                &&& paths.no_duplicates()
                &&& forall|p: Seq<char>|
                    #[trigger] paths.contains(p) <==> (!s.cache.contains_key((base, p)) && exists|
                        i: int,
                    | 0 <= i < changes.len() && changes[i].path == p)
            }
        }),
{
    let base = s.stage->ComputingDiff_base;
    lemma_missing_paths_exact(changes, s.cache, base);
    let paths = missing_paths(changes, s.cache, base);
    if forall|i: int|
        0 <= i < changes.len() ==> #[trigger] s.cache.contains_key((base, changes[i].path)) {
        if paths.len() > 0 {
            assert(paths.contains(paths[0]));
        }
    }
}

/// Merge-base reuse: after a cycle settles the diff `changes` against merge
/// base `base`, with every requested content loaded, a cycle for another head
/// that arrives at the same merge base and the same diff fetches nothing.
pub proof fn lemma_merge_base_reuse(
    s: DiffState,
    changes: Seq<FileChangeView>,
    loaded: Seq<LoadedBaseView>,
    next_head: Seq<char>,
)
    requires
        valid(s),
        s.stage is ComputingDiff,
        s.observed_head != Some(next_head),
        forall|p: Seq<char>|
            #[trigger] missing_paths(changes, s.cache, s.stage->ComputingDiff_base).contains(p)
                ==> exists|j: int| 0 <= j < loaded.len() && loaded[j].path == p,
    ensures
        ({
            let base = s.stage->ComputingDiff_base;
            let (fetching, step) = branch_diff_computed(s, s.generation, Ok(changes));
            let settled = if step is FetchBaseTexts {
                base_texts_loaded(fetching, s.generation, Ok(loaded)).0
            } else {
                fetching
            };
            let started = head_change(settled, Some(next_head)).0;
            let resolved = merge_base_resolved(started, started.generation, Ok(base)).0;
            &&& settled.merge_base == Some(base)
            &&& resolved.stage == (StageView::ComputingDiff { base })
            &&& branch_diff_computed(resolved, started.generation, Ok(changes)).1
                == StepView::Published
        }),
{
    let base = s.stage->ComputingDiff_base;
    let (fetching, step) = branch_diff_computed(s, s.generation, Ok(changes));
    lemma_missing_paths_exact(changes, s.cache, base);
    lemma_with_loaded_keys(s.cache, base, loaded);
    let settled = if step is FetchBaseTexts {
        base_texts_loaded(fetching, s.generation, Ok(loaded)).0
    } else {
        fetching
    };
    let started = head_change(settled, Some(next_head)).0;
    let resolved = merge_base_resolved(started, started.generation, Ok(base)).0;
    assert forall|i: int| 0 <= i < changes.len() implies #[trigger] resolved.cache.contains_key(
        (base, changes[i].path),
    ) by {
        let p = changes[i].path;
        if !s.cache.contains_key((base, p)) {
            assert(missing_paths(changes, s.cache, base).contains(p));
            let j = choose|j: int| 0 <= j < loaded.len() && loaded[j].path == p;
            assert(with_loaded(s.cache, base, loaded).contains_key((base, loaded[j].path)));
        }
    }
    lemma_fetch_only_uncached(resolved, changes);
}

/// Eviction keeps every content loaded under the settled merge base or the
/// base of the cycle in flight, and drops all others.
pub proof fn lemma_eviction_keeps_live_contents(s: DiffState, key: BaseKey)
    ensures
        live_bases(s).contains(key.0) ==> (evicted(s).cache.contains_key(key)
            == s.cache.contains_key(key) && (s.cache.contains_key(key) ==> evicted(s).cache[key]
            == s.cache[key])),
        !live_bases(s).contains(key.0) ==> !evicted(s).cache.contains_key(key),
{
}

/// Every event keeps the state valid, starting from the initial state.
pub proof fn lemma_events_keep_valid(
    s: DiffState,
    new_head: Option<Seq<char>>,
    generation: nat,
    base: Result<Seq<char>, CycleError>,
    changes: Result<Seq<FileChangeView>, CycleError>,
    loaded: Result<Seq<LoadedBaseView>, CycleError>,
)
    requires
        valid(s),
    ensures
        valid(initial(s.target)),
        valid(head_change(s, new_head).0),
        valid(retried(s).0),
        valid(merge_base_resolved(s, generation, base).0),
        valid(branch_diff_computed(s, generation, changes).0),
        valid(base_texts_loaded(s, generation, loaded).0),
        valid(evicted(s)),
{
}

} // verus!
