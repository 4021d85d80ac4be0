//! The reconciliation controller: it owns the settled diff of one tracked
//! comparison, starts a reconciliation cycle whenever the head moves, and
//! applies a cycle's results only while that cycle is the latest one started.
//!
//! The controller performs no repository work itself. Each call returns a
//! [`Step`] that tells its owner what to do next (resolve a merge base,
//! compute a diff, fetch base contents); the owner hands the outcome back
//! through the matching `on_*` method, tagged with the cycle's generation.

use vstd::prelude::*;
use crate::base_cache::{BaseContentCache, BaseKey, keys_under, missing_paths, with_loaded};
use crate::diff_entry::{
    FileChange, FileChangeView, FileDiff, FileDiffView, LoadedBase, LoadedBaseView, clone_opt,
    opt_view, same_opt, views,
};

verus! {

/// The branch a comparison is made against.
#[derive(Debug)]
pub enum Target {
    /// The repository's default branch, resolved anew by each cycle.
    DefaultBranch,
    /// A fixed branch name.
    Branch(String),
}

/// Why a reconciliation cycle was abandoned.
#[derive(Clone, Copy, Debug, PartialEq, Eq, Structural)]
pub enum CycleError {
    /// The target branch, or a merge base with it, could not be resolved.
    Resolution,
    /// The repository could not be read.
    Io,
}

/// What the controller asks of its owner, or reports, after an event.
#[derive(Debug, PartialEq, Eq)]
pub enum Step {
    /// The notification repeated the head already observed; nothing to do.
    NoChange,
    /// The repository became headless; the settled diff was cleared.
    Cleared,
    /// Resolve the target branch and the merge base of it with `head`.
    ResolveMergeBase { generation: u64, head: String },
    /// Compute the file-level diff between `base` and `head`.
    ComputeDiff { generation: u64, base: String, head: String },
    /// Fetch, in one batch, the content of each of `paths` at `base`.
    FetchBaseTexts { generation: u64, base: String, paths: Vec<String> },
    /// The settled diff already matches the head and merge base; cycle done.
    AlreadyCurrent,
    /// A new settled diff was committed.
    Published,
    /// The result belonged to a superseded cycle and was dropped.
    Discarded,
    /// The cycle failed; the settled diff is unchanged.
    Aborted(CycleError),
}

pub ghost enum StepView {
    NoChange,
    Cleared,
    ResolveMergeBase { generation: nat, head: Seq<char> },
    ComputeDiff { generation: nat, base: Seq<char>, head: Seq<char> },
    FetchBaseTexts { generation: nat, base: Seq<char>, paths: Seq<Seq<char>> },
    AlreadyCurrent,
    Published,
    Discarded,
    Aborted(CycleError),
}

impl View for Step {
    type V = StepView;

    open spec fn view(&self) -> StepView {
        match self {
            Step::NoChange => StepView::NoChange,
            Step::Cleared => StepView::Cleared,
            Step::ResolveMergeBase { generation, head } => StepView::ResolveMergeBase {
                generation: *generation as nat,
                head: head@,
            },
            Step::ComputeDiff { generation, base, head } => StepView::ComputeDiff {
                generation: *generation as nat,
                base: base@,
                head: head@,
            },
            Step::FetchBaseTexts { generation, base, paths } => StepView::FetchBaseTexts {
                generation: *generation as nat,
                base: base@,
                paths: views(paths@),
            },
            Step::AlreadyCurrent => StepView::AlreadyCurrent,
            Step::Published => StepView::Published,
            Step::Discarded => StepView::Discarded,
            Step::Aborted(e) => StepView::Aborted(*e),
        }
    }
}

/// How far the latest cycle has come.
enum Stage {
    Idle,
    ResolvingMergeBase,
    ComputingDiff { base: String },
    FetchingBaseTexts { base: String, changes: Vec<FileChange> },
}

pub ghost enum StageView {
    Idle,
    ResolvingMergeBase,
    ComputingDiff { base: Seq<char> },
    FetchingBaseTexts { base: Seq<char>, changes: Seq<FileChangeView> },
}

/// The state of one tracked comparison.
pub ghost struct DiffState {
    /// The target branch name; `None` for the default branch.
    pub target: Option<Seq<char>>,
    /// The head of the latest notification; `None` while headless.
    pub observed_head: Option<Seq<char>>,
    /// The head the settled diff was computed against.
    pub diff_head: Option<Seq<char>>,
    /// The merge base the settled diff was computed from.
    pub merge_base: Option<Seq<char>>,
    /// The settled diff.
    pub diff: Seq<FileDiffView>,
    /// The generation of the latest cycle started.
    pub generation: nat,
    /// Progress of the latest cycle.
    pub stage: StageView,
    /// Loaded base contents, by commit and path.
    pub cache: Map<BaseKey, Option<Seq<char>>>,
}

/// What holds of every reachable state: without a head nothing is settled or
/// in flight, and the settled diff's head and merge base are set together.
pub open spec fn valid(s: DiffState) -> bool {
    &&& s.observed_head is None ==> s.diff.len() == 0 && s.diff_head is None
        && s.merge_base is None && s.stage is Idle
    &&& (s.diff_head is Some <==> s.merge_base is Some)
    &&& s.diff.len() > 0 ==> s.merge_base is Some
}

/// A comparison against `target` before any head has been seen.
pub open spec fn initial(target: Option<Seq<char>>) -> DiffState {
    DiffState {
        target,
        observed_head: None,
        diff_head: None,
        merge_base: None,
        diff: Seq::empty(),
        generation: 0,
        stage: StageView::Idle,
        cache: Map::empty(),
    }
}

/// Starts a cycle for `head`, superseding any cycle in flight.
pub open spec fn start_cycle(s: DiffState, head: Seq<char>) -> (DiffState, StepView) {
    let generation = s.generation + 1;
    (
        DiffState {
            observed_head: Some(head),
            generation,
            stage: StageView::ResolvingMergeBase,
            ..s
        },
        StepView::ResolveMergeBase { generation, head },
    )
}

/// The effect of a head-change notification.
pub open spec fn head_change(s: DiffState, new_head: Option<Seq<char>>) -> (DiffState, StepView) {
    if new_head == s.observed_head {
        (s, StepView::NoChange)
    } else {
        match new_head {
            None => (
                DiffState {
                    observed_head: None,
                    diff_head: None,
                    merge_base: None,
                    diff: Seq::empty(),
                    generation: s.generation + 1,
                    stage: StageView::Idle,
                    ..s
                },
                StepView::Cleared,
            ),
            Some(head) => start_cycle(s, head),
        }
    }
}

/// The diff entries for `changes`, each with its content at `base` where
/// that has been loaded.
pub open spec fn attach(
    changes: Seq<FileChangeView>,
    cache: Map<BaseKey, Option<Seq<char>>>,
    base: Seq<char>,
) -> Seq<FileDiffView> {
    Seq::new(
        changes.len(),
        |i: int|
            FileDiffView {
                path: changes[i].path,
                base_text: if cache.contains_key((base, changes[i].path)) {
                    cache[(base, changes[i].path)]
                } else {
                    None
                },
                status: changes[i].status,
            },
    )
}

/// Commits the diff of `changes` against `base` as the settled diff, for the
/// observed head.
pub open spec fn settle(s: DiffState, base: Seq<char>, changes: Seq<FileChangeView>) -> DiffState {
    DiffState {
        diff_head: s.observed_head,
        merge_base: Some(base),
        diff: attach(changes, s.cache, base),
        stage: StageView::Idle,
        ..s
    }
}

/// The effect of the merge-base lookup of cycle `generation` completing.
pub open spec fn merge_base_resolved(
    s: DiffState,
    generation: nat,
    result: Result<Seq<char>, CycleError>,
) -> (DiffState, StepView) {
    if generation != s.generation || !(s.stage is ResolvingMergeBase) {
        (s, StepView::Discarded)
    } else {
        match result {
            Err(e) => (DiffState { stage: StageView::Idle, ..s }, StepView::Aborted(e)),
            Ok(base) => if s.diff_head == s.observed_head && s.merge_base == Some(base) {
                (DiffState { stage: StageView::Idle, ..s }, StepView::AlreadyCurrent)
            } else {
                (
                    DiffState { stage: StageView::ComputingDiff { base }, ..s },
                    StepView::ComputeDiff { generation, base, head: s.observed_head.unwrap() },
                )
            },
        }
    }
}

/// The effect of the diff computation of cycle `generation` completing.
pub open spec fn branch_diff_computed(
    s: DiffState,
    generation: nat,
    result: Result<Seq<FileChangeView>, CycleError>,
) -> (DiffState, StepView) {
    if generation != s.generation || !(s.stage is ComputingDiff) {
        (s, StepView::Discarded)
    } else {
        let base = s.stage->ComputingDiff_base;
        match result {
            Err(e) => (DiffState { stage: StageView::Idle, ..s }, StepView::Aborted(e)),
            Ok(changes) => {
                let paths = missing_paths(changes, s.cache, base);
                if paths.len() == 0 {
                    (settle(s, base, changes), StepView::Published)
                } else {
                    (
                        DiffState { stage: StageView::FetchingBaseTexts { base, changes }, ..s },
                        StepView::FetchBaseTexts { generation, base, paths },
                    )
                }
            },
        }
    }
}

/// The effect of the base-content fetch of cycle `generation` completing.
pub open spec fn base_texts_loaded(
    s: DiffState,
    generation: nat,
    result: Result<Seq<LoadedBaseView>, CycleError>,
) -> (DiffState, StepView) {
    if generation != s.generation || !(s.stage is FetchingBaseTexts) {
        (s, StepView::Discarded)
    } else {
        let base = s.stage->FetchingBaseTexts_base;
        let changes = s.stage->FetchingBaseTexts_changes;
        match result {
            Err(e) => (DiffState { stage: StageView::Idle, ..s }, StepView::Aborted(e)),
            Ok(loaded) => (
                settle(DiffState { cache: with_loaded(s.cache, base, loaded), ..s }, base, changes),
                StepView::Published,
            ),
        }
    }
}

/// The effect of an explicit retry: a fresh cycle for the observed head.
pub open spec fn retried(s: DiffState) -> (DiffState, StepView) {
    match s.observed_head {
        Some(head) => start_cycle(s, head),
        None => (s, StepView::NoChange),
    }
}

/// The commits whose base contents are still of use: the settled merge base
/// and the base of a cycle in flight.
pub open spec fn live_bases(s: DiffState) -> Seq<Seq<char>> {
    let settled = match s.merge_base {
        Some(m) => seq![m],
        None => Seq::empty(),
    };
    match s.stage {
        StageView::ComputingDiff { base } => settled.push(base),
        StageView::FetchingBaseTexts { base, .. } => settled.push(base),
        _ => settled,
    }
}

/// The state after dropping the base contents of every commit that is not
/// live.
pub open spec fn evicted(s: DiffState) -> DiffState {
    DiffState { cache: s.cache.restrict(keys_under(live_bases(s))), ..s }
}

pub open spec fn target_view(t: Target) -> Option<Seq<char>> {
    match t {
        Target::DefaultBranch => None,
        Target::Branch(name) => Some(name@),
    }
}

pub open spec fn base_result_view(r: Result<String, CycleError>) -> Result<Seq<char>, CycleError> {
    match r {
        Ok(base) => Ok(base@),
        Err(e) => Err(e),
    }
}

pub open spec fn changes_result_view(r: Result<Vec<FileChange>, CycleError>) -> Result<
    Seq<FileChangeView>,
    CycleError,
> {
    match r {
        Ok(changes) => Ok(views(changes@)),
        Err(e) => Err(e),
    }
}

pub open spec fn loaded_result_view(r: Result<Vec<LoadedBase>, CycleError>) -> Result<
    Seq<LoadedBaseView>,
    CycleError,
> {
    match r {
        Ok(loaded) => Ok(views(loaded@)),
        Err(e) => Err(e),
    }
}

/// A live diff between a repository's head and a target branch.
pub struct DiffFromBranch {
    target: Target,
    observed_head: Option<String>,
    diff_head: Option<String>,
    merge_base: Option<String>,
    diff: Vec<FileDiff>,
    generation: u64,
    stage: Stage,
    base_texts: BaseContentCache,
}

impl View for DiffFromBranch {
    type V = DiffState;

    closed spec fn view(&self) -> DiffState {
        DiffState {
            target: target_view(self.target),
            observed_head: opt_view(self.observed_head),
            diff_head: opt_view(self.diff_head),
            merge_base: opt_view(self.merge_base),
            diff: views(self.diff@),
            generation: self.generation as nat,
            stage: match self.stage {
                Stage::Idle => StageView::Idle,
                Stage::ResolvingMergeBase => StageView::ResolvingMergeBase,
                Stage::ComputingDiff { base } => StageView::ComputingDiff { base: base@ },
                Stage::FetchingBaseTexts { base, changes } => StageView::FetchingBaseTexts {
                    base: base@,
                    changes: views(changes@),
                },
            },
            cache: self.base_texts@,
        }
    }
}

impl DiffFromBranch {
    pub closed spec fn wf(&self) -> bool {
        self.base_texts.wf() && valid(self@)
    }

    /// Starts tracking the diff against `target`. Where the repository has a
    /// head, the first cycle starts at once.
    pub fn new(target: Target, current_head: Option<String>) -> (r: (Self, Step))
        ensures
            r.0.wf(),
            (r.0@, r.1@) == head_change(initial(target_view(target)), opt_view(current_head)),
    {
        let mut this = DiffFromBranch {
            target,
            observed_head: None,
            diff_head: None,
            merge_base: None,
            diff: Vec::new(),
            generation: 0,
            stage: Stage::Idle,
            base_texts: BaseContentCache::new(),
        };
        assert(views(this.diff@) =~= Seq::<FileDiffView>::empty());
        assert(this@ == initial(target_view(target)));
        let step = this.handle_repository_updates(current_head);
        (this, step)
    }

    /// Handles a head-change notification: repeats are ignored, a headless
    /// repository clears the settled diff, a new head starts a cycle.
    pub fn handle_repository_updates(&mut self, new_head: Option<String>) -> (r: Step)
        requires
            old(self).wf(),
            old(self)@.generation < u64::MAX,
        ensures
            final(self).wf(),
            (final(self)@, r@) == head_change(old(self)@, opt_view(new_head)),
    {
        if same_opt(&self.observed_head, &new_head) {
            return Step::NoChange;
        }
        match new_head {
            None => {
                self.diff = Vec::new();
                self.merge_base = None;
                self.diff_head = None;
                self.observed_head = None;
                self.generation = self.generation + 1;
                self.stage = Stage::Idle;
                assert(self@.diff =~= Seq::<FileDiffView>::empty());
                Step::Cleared
            },
            Some(head) => self.on_head_change(head),
        }
    }

    /// Starts a cycle against the observed head again, as after a failure.
    pub fn retry(&mut self) -> (r: Step)
        requires
            old(self).wf(),
            old(self)@.generation < u64::MAX,
        ensures
            final(self).wf(),
            (final(self)@, r@) == retried(old(self)@),
    {
        match clone_opt(&self.observed_head) {
            Some(head) => self.on_head_change(head),
            None => Step::NoChange,
        }
    }

    fn on_head_change(&mut self, head: String) -> (r: Step)
        requires
            old(self).wf(),
            old(self)@.generation < u64::MAX,
        ensures
            final(self).wf(),
            (final(self)@, r@) == start_cycle(old(self)@, head@),
    {
        self.generation = self.generation + 1;
        self.observed_head = Some(head.clone());
        self.stage = Stage::ResolvingMergeBase;
        Step::ResolveMergeBase { generation: self.generation, head }
    }

    /// Takes the outcome of the merge-base lookup of cycle `generation`.
    pub fn on_merge_base(&mut self, generation: u64, result: Result<String, CycleError>) -> (r:
        Step)
        requires
            old(self).wf(),
        ensures
            final(self).wf(),
            (final(self)@, r@) == merge_base_resolved(
                old(self)@,
                generation as nat,
                base_result_view(result),
            ),
    {
        if generation != self.generation {
            return Step::Discarded;
        }
        match self.stage {
            Stage::ResolvingMergeBase => {},
            _ => {
                return Step::Discarded;
            },
        }
        match result {
            Err(e) => {
                self.stage = Stage::Idle;
                Step::Aborted(e)
            },
            Ok(base) => {
                let settled_here = same_opt(&self.diff_head, &self.observed_head);
                let same_base = match &self.merge_base {
                    Some(m) => *m == base,
                    None => false,
                };
                if settled_here && same_base {
                    self.stage = Stage::Idle;
                    Step::AlreadyCurrent
                } else {
                    let head = clone_opt(&self.observed_head).unwrap();
                    self.stage = Stage::ComputingDiff { base: base.clone() };
                    Step::ComputeDiff { generation, base, head }
                }
            },
        }
    }

    /// Takes the outcome of the diff computation of cycle `generation`.
    pub fn on_branch_diff(
        &mut self,
        generation: u64,
        result: Result<Vec<FileChange>, CycleError>,
    ) -> (r: Step)
        requires
            old(self).wf(),
        ensures
            final(self).wf(),
            (final(self)@, r@) == branch_diff_computed(
                old(self)@,
                generation as nat,
                changes_result_view(result),
            ),
    {
        if generation != self.generation {
            return Step::Discarded;
        }
        let mut stage = Stage::Idle;
        std::mem::swap(&mut stage, &mut self.stage);
        let base = match stage {
            Stage::ComputingDiff { base } => base,
            other => {
                self.stage = other;
                return Step::Discarded;
            },
        };
        match result {
            Err(e) => Step::Aborted(e),
            Ok(changes) => {
                let paths = self.base_texts.missing_paths(&base, &changes);
                if paths.len() == 0 {
                    self.settle(base, changes);
                    Step::Published
                } else {
                    self.stage = Stage::FetchingBaseTexts { base: base.clone(), changes };
                    Step::FetchBaseTexts { generation, base, paths }
                }
            },
        }
    }

    /// Takes the outcome of the base-content fetch of cycle `generation`.
    pub fn on_base_texts(
        &mut self,
        generation: u64,
        result: Result<Vec<LoadedBase>, CycleError>,
    ) -> (r: Step)
        requires
            old(self).wf(),
        ensures
            final(self).wf(),
            (final(self)@, r@) == base_texts_loaded(
                old(self)@,
                generation as nat,
                loaded_result_view(result),
            ),
    {
        if generation != self.generation {
            return Step::Discarded;
        }
        let mut stage = Stage::Idle;
        std::mem::swap(&mut stage, &mut self.stage);
        let (base, changes) = match stage {
            Stage::FetchingBaseTexts { base, changes } => (base, changes),
            other => {
                self.stage = other;
                return Step::Discarded;
            },
        };
        match result {
            Err(e) => Step::Aborted(e),
            Ok(loaded) => {
                self.base_texts.insert_loaded(&base, &loaded);
                self.settle(base, changes);
                Step::Published
            },
        }
    }

    fn settle(&mut self, base: String, changes: Vec<FileChange>)
        requires
            old(self).wf(),
            old(self)@.observed_head is Some,
        ensures
            final(self).wf(),
            final(self)@ == settle(old(self)@, base@, views(changes@)),
    {
        let ghost target = attach(views(changes@), self.base_texts@, base@);
        let mut diff: Vec<FileDiff> = Vec::new();
        let mut i: usize = 0;
        while i < changes.len()
            invariant
                self.base_texts.wf(),
                0 <= i <= changes@.len(),
                target == attach(views(changes@), self.base_texts@, base@),
                diff@.len() == i,
                forall|j: int| 0 <= j < i ==> #[trigger] diff@[j]@ == target[j],
            decreases changes@.len() - i,
        {
            let change = &changes[i];
            let text = self.base_texts.text(&base, &change.path);
            diff.push(FileDiff { path: change.path.clone(), base_text: text, status: change.status });
            i += 1;
        }
        assert(views(diff@) =~= target);
        self.diff = diff;
        self.merge_base = Some(base);
        self.diff_head = clone_opt(&self.observed_head);
        self.stage = Stage::Idle;
    }

    /// Drops the loaded base contents of every commit other than the settled
    /// merge base and the base of the cycle in flight.
    pub fn evict_stale_base_texts(&mut self)
        requires
            old(self).wf(),
        ensures
            final(self).wf(),
            final(self)@ == evicted(old(self)@),
    {
        let mut live: Vec<String> = Vec::new();
        match &self.merge_base {
            Some(m) => live.push(m.clone()),
            None => {},
        }
        match &self.stage {
            Stage::ComputingDiff { base } => live.push(base.clone()),
            Stage::FetchingBaseTexts { base, .. } => live.push(base.clone()),
            _ => {},
        }
        assert(views(live@) =~= live_bases(self@));
        self.base_texts.retain_commits(&live);
    }

    /// The last settled diff.
    pub fn current_diff(&self) -> (r: &Vec<FileDiff>)
        ensures
            views(r@) == self@.diff,
    {
        &self.diff
    }

    /// The merge base the settled diff was computed from.
    pub fn merge_base(&self) -> (r: &Option<String>)
        ensures
            opt_view(*r) == self@.merge_base,
    {
        &self.merge_base
    }

    /// The head of the latest notification.
    pub fn observed_head(&self) -> (r: &Option<String>)
        ensures
            opt_view(*r) == self@.observed_head,
    {
        &self.observed_head
    }

    /// The generation of the latest cycle started.
    pub fn generation(&self) -> (r: u64)
        ensures
            r == self@.generation,
    {
        self.generation
    }

    /// The branch the comparison is made against.
    pub fn target(&self) -> (r: &Target)
        ensures
            target_view(*r) == self@.target,
    {
        &self.target
    }

    /// Whether the content of `path` at `commit` has been loaded.
    pub fn has_base_text(&self, commit: &String, path: &String) -> (r: bool)
        requires
            self.wf(),
        ensures
            r == self@.cache.contains_key((commit@, path@)),
    {
        self.base_texts.contains(commit, path)
    }
}

} // verus!
