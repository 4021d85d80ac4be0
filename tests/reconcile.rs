use branch_diff::controller::{CycleError, DiffFromBranch, Step, Target};
use branch_diff::diff_entry::{FileChange, FileStatus, LoadedBase};

fn s(text: &str) -> String {
    text.to_string()
}

fn change(path: &str, status: FileStatus) -> FileChange {
    FileChange::new(s(path), status)
}

fn loaded(path: &str, text: Option<&str>) -> LoadedBase {
    LoadedBase::new(s(path), text.map(s))
}

/// Runs one full cycle for the head already announced, with merge base `base`.
fn settle_cycle(
    d: &mut DiffFromBranch,
    generation: u64,
    base: &str,
    changes: Vec<FileChange>,
    contents: Vec<LoadedBase>,
) -> Option<Vec<String>> {
    match d.on_merge_base(generation, Ok(s(base))) {
        Step::ComputeDiff { .. } => {}
        other => panic!("unexpected step {:?}", other),
    }
    match d.on_branch_diff(generation, Ok(changes)) {
        Step::Published => None,
        Step::FetchBaseTexts { paths, .. } => {
            assert_eq!(d.on_base_texts(generation, Ok(contents)), Step::Published);
            Some(paths)
        }
        other => panic!("unexpected step {:?}", other),
    }
}

#[test]
fn construction_with_head_starts_first_cycle() {
    let (d, step) = DiffFromBranch::new(Target::Branch(s("main")), Some(s("h0")));
    assert_eq!(step, Step::ResolveMergeBase { generation: 1, head: s("h0") });
    assert_eq!(d.generation(), 1);
    assert_eq!(d.observed_head(), &Some(s("h0")));
    assert!(d.current_diff().is_empty());
    assert_eq!(d.merge_base(), &None);
}

#[test]
fn construction_without_head_waits() {
    let (d, step) = DiffFromBranch::new(Target::DefaultBranch, None);
    assert_eq!(step, Step::NoChange);
    assert_eq!(d.generation(), 0);
    assert!(matches!(d.target(), Target::DefaultBranch));
}

#[test]
fn head_move_fetches_only_new_paths() {
    let (mut d, _) = DiffFromBranch::new(Target::Branch(s("main")), Some(s("h0")));
    let fetched = settle_cycle(
        &mut d,
        1,
        "m",
        vec![change("a.txt", FileStatus::Modified)],
        vec![loaded("a.txt", Some("old a"))],
    );
    assert_eq!(fetched, Some(vec![s("a.txt")]));
    assert_eq!(d.current_diff().len(), 1);

    assert_eq!(
        d.handle_repository_updates(Some(s("h1"))),
        Step::ResolveMergeBase { generation: 2, head: s("h1") }
    );
    assert_eq!(
        d.on_merge_base(2, Ok(s("m"))),
        Step::ComputeDiff { generation: 2, base: s("m"), head: s("h1") }
    );
    let step = d.on_branch_diff(
        2,
        Ok(vec![change("a.txt", FileStatus::Modified), change("b.txt", FileStatus::Added)]),
    );
    assert_eq!(step, Step::FetchBaseTexts { generation: 2, base: s("m"), paths: vec![s("b.txt")] });
    assert_eq!(d.on_base_texts(2, Ok(vec![loaded("b.txt", None)])), Step::Published);

    let diff = d.current_diff();
    assert_eq!(diff.len(), 2);
    assert_eq!(diff[0].path, "a.txt");
    assert_eq!(diff[0].status, FileStatus::Modified);
    assert_eq!(diff[0].base_text, Some(s("old a")));
    assert_eq!(diff[1].path, "b.txt");
    assert_eq!(diff[1].status, FileStatus::Added);
    assert_eq!(diff[1].base_text, None);
    assert_eq!(d.merge_base(), &Some(s("m")));
}

#[test]
fn deleted_target_branch_keeps_settled_diff() {
    let (mut d, _) = DiffFromBranch::new(Target::Branch(s("feature")), Some(s("h0")));
    settle_cycle(
        &mut d,
        1,
        "m",
        vec![change("a.txt", FileStatus::Modified)],
        vec![loaded("a.txt", Some("old a"))],
    );
    assert_eq!(
        d.handle_repository_updates(Some(s("h1"))),
        Step::ResolveMergeBase { generation: 2, head: s("h1") }
    );
    assert_eq!(d.on_merge_base(2, Err(CycleError::Resolution)), Step::Aborted(CycleError::Resolution));
    assert_eq!(d.current_diff().len(), 1);
    assert_eq!(d.current_diff()[0].path, "a.txt");
    assert_eq!(d.merge_base(), &Some(s("m")));
    // Nothing further of that cycle is applied.
    assert_eq!(d.on_branch_diff(2, Ok(vec![])), Step::Discarded);
    assert_eq!(d.current_diff().len(), 1);
}

#[test]
fn io_errors_abort_at_each_stage() {
    let (mut d, _) = DiffFromBranch::new(Target::DefaultBranch, Some(s("h0")));
    assert_eq!(d.on_merge_base(1, Err(CycleError::Io)), Step::Aborted(CycleError::Io));

    assert_eq!(d.retry(), Step::ResolveMergeBase { generation: 2, head: s("h0") });
    d.on_merge_base(2, Ok(s("m")));
    assert_eq!(d.on_branch_diff(2, Err(CycleError::Io)), Step::Aborted(CycleError::Io));

    assert_eq!(d.retry(), Step::ResolveMergeBase { generation: 3, head: s("h0") });
    d.on_merge_base(3, Ok(s("m")));
    d.on_branch_diff(3, Ok(vec![change("a.txt", FileStatus::Deleted)]));
    assert_eq!(d.on_base_texts(3, Err(CycleError::Io)), Step::Aborted(CycleError::Io));
    assert!(d.current_diff().is_empty());
    assert_eq!(d.merge_base(), &None);
    assert!(!d.has_base_text(&s("m"), &s("a.txt")));
}

#[test]
fn retry_without_head_does_nothing() {
    let (mut d, _) = DiffFromBranch::new(Target::DefaultBranch, None);
    assert_eq!(d.retry(), Step::NoChange);
    assert_eq!(d.generation(), 0);
}

#[test]
fn duplicate_notification_is_noop() {
    let (mut d, _) = DiffFromBranch::new(Target::DefaultBranch, None);
    assert_eq!(
        d.handle_repository_updates(Some(s("h1"))),
        Step::ResolveMergeBase { generation: 1, head: s("h1") }
    );
    assert_eq!(d.handle_repository_updates(Some(s("h1"))), Step::NoChange);
    assert_eq!(d.generation(), 1);
    assert_eq!(d.handle_repository_updates(None), Step::Cleared);
    assert_eq!(d.handle_repository_updates(None), Step::NoChange);
    assert_eq!(d.generation(), 2);
}

#[test]
fn superseded_cycle_results_are_discarded() {
    let (mut d, _) = DiffFromBranch::new(Target::Branch(s("main")), Some(s("h1")));
    assert_eq!(
        d.handle_repository_updates(Some(s("h2"))),
        Step::ResolveMergeBase { generation: 2, head: s("h2") }
    );
    // The second cycle completes first.
    let fetched = settle_cycle(
        &mut d,
        2,
        "m2",
        vec![change("two.txt", FileStatus::Added)],
        vec![loaded("two.txt", None)],
    );
    assert_eq!(fetched, Some(vec![s("two.txt")]));
    // The first cycle's results arrive late.
    assert_eq!(d.on_merge_base(1, Ok(s("m1"))), Step::Discarded);
    assert_eq!(
        d.on_branch_diff(1, Ok(vec![change("one.txt", FileStatus::Modified)])),
        Step::Discarded
    );
    assert_eq!(d.on_base_texts(1, Ok(vec![loaded("one.txt", Some("x"))])), Step::Discarded);
    assert_eq!(d.current_diff().len(), 1);
    assert_eq!(d.current_diff()[0].path, "two.txt");
    assert_eq!(d.merge_base(), &Some(s("m2")));
    assert_eq!(d.observed_head(), &Some(s("h2")));
    assert!(!d.has_base_text(&s("m1"), &s("one.txt")));
}

#[test]
fn superseded_cycle_mid_flight_is_discarded() {
    let (mut d, _) = DiffFromBranch::new(Target::Branch(s("main")), Some(s("h1")));
    assert!(matches!(d.on_merge_base(1, Ok(s("m"))), Step::ComputeDiff { .. }));
    d.handle_repository_updates(Some(s("h2")));
    assert_eq!(
        d.on_branch_diff(1, Ok(vec![change("one.txt", FileStatus::Modified)])),
        Step::Discarded
    );
    assert!(d.current_diff().is_empty());
    // The current cycle is unaffected.
    assert!(matches!(d.on_merge_base(2, Ok(s("m"))), Step::ComputeDiff { generation: 2, .. }));
}

#[test]
fn headless_notification_clears_state() {
    let (mut d, _) = DiffFromBranch::new(Target::DefaultBranch, Some(s("h0")));
    settle_cycle(
        &mut d,
        1,
        "m",
        vec![change("a.txt", FileStatus::Renamed)],
        vec![loaded("a.txt", Some("a"))],
    );
    assert_eq!(d.current_diff().len(), 1);
    assert_eq!(d.handle_repository_updates(None), Step::Cleared);
    assert!(d.current_diff().is_empty());
    assert_eq!(d.merge_base(), &None);
    assert_eq!(d.observed_head(), &None);
    // A cycle in flight at that moment is cancelled.
    assert_eq!(d.on_merge_base(1, Ok(s("m"))), Step::Discarded);
}

#[test]
fn same_merge_base_and_diff_needs_no_fetch() {
    let (mut d, _) = DiffFromBranch::new(Target::Branch(s("main")), Some(s("h0")));
    let changes = || vec![change("a.txt", FileStatus::Modified), change("c.txt", FileStatus::Modified)];
    let fetched = settle_cycle(
        &mut d,
        1,
        "m",
        changes(),
        vec![loaded("a.txt", Some("a")), loaded("c.txt", Some("c"))],
    );
    assert_eq!(fetched, Some(vec![s("a.txt"), s("c.txt")]));
    d.handle_repository_updates(Some(s("h1")));
    let fetched = settle_cycle(&mut d, 2, "m", changes(), vec![]);
    assert_eq!(fetched, None);
    assert_eq!(d.current_diff()[1].base_text, Some(s("c")));
    assert!(d.has_base_text(&s("m"), &s("c.txt")));
}

#[test]
fn returning_to_settled_head_is_already_current() {
    let (mut d, _) = DiffFromBranch::new(Target::Branch(s("main")), Some(s("h0")));
    settle_cycle(&mut d, 1, "m", vec![], vec![]);
    d.handle_repository_updates(Some(s("h1")));
    d.handle_repository_updates(Some(s("h0")));
    assert_eq!(d.on_merge_base(3, Ok(s("m"))), Step::AlreadyCurrent);
    assert_eq!(d.on_merge_base(3, Ok(s("m"))), Step::Discarded);
}

#[test]
fn different_merge_base_refetches() {
    let (mut d, _) = DiffFromBranch::new(Target::Branch(s("main")), Some(s("h0")));
    settle_cycle(
        &mut d,
        1,
        "m1",
        vec![change("a.txt", FileStatus::Modified)],
        vec![loaded("a.txt", Some("old"))],
    );
    d.handle_repository_updates(Some(s("h1")));
    let fetched = settle_cycle(
        &mut d,
        2,
        "m2",
        vec![change("a.txt", FileStatus::Modified)],
        vec![loaded("a.txt", Some("newer"))],
    );
    assert_eq!(fetched, Some(vec![s("a.txt")]));
    assert_eq!(d.current_diff()[0].base_text, Some(s("newer")));
}

#[test]
fn duplicate_paths_are_fetched_once() {
    let (mut d, _) = DiffFromBranch::new(Target::DefaultBranch, Some(s("h0")));
    d.on_merge_base(1, Ok(s("m")));
    let step = d.on_branch_diff(
        1,
        Ok(vec![change("a.txt", FileStatus::Modified), change("a.txt", FileStatus::Renamed)]),
    );
    assert_eq!(step, Step::FetchBaseTexts { generation: 1, base: s("m"), paths: vec![s("a.txt")] });
}

#[test]
fn empty_diff_publishes_without_fetch() {
    let (mut d, _) = DiffFromBranch::new(Target::DefaultBranch, Some(s("h0")));
    d.on_merge_base(1, Ok(s("m")));
    assert_eq!(d.on_branch_diff(1, Ok(vec![])), Step::Published);
    assert!(d.current_diff().is_empty());
    assert_eq!(d.merge_base(), &Some(s("m")));
}

#[test]
fn out_of_order_results_are_discarded() {
    let (mut d, _) = DiffFromBranch::new(Target::DefaultBranch, Some(s("h0")));
    assert_eq!(d.on_branch_diff(1, Ok(vec![])), Step::Discarded);
    assert_eq!(d.on_base_texts(1, Ok(vec![])), Step::Discarded);
    assert_eq!(d.on_merge_base(7, Ok(s("m"))), Step::Discarded);
}

#[test]
fn eviction_keeps_settled_and_in_flight_bases() {
    let (mut d, _) = DiffFromBranch::new(Target::DefaultBranch, Some(s("h0")));
    settle_cycle(
        &mut d,
        1,
        "m1",
        vec![change("a.txt", FileStatus::Modified)],
        vec![loaded("a.txt", Some("a1"))],
    );
    d.handle_repository_updates(Some(s("h1")));
    settle_cycle(
        &mut d,
        2,
        "m2",
        vec![change("a.txt", FileStatus::Modified)],
        vec![loaded("a.txt", Some("a2"))],
    );
    d.handle_repository_updates(Some(s("h2")));
    d.on_merge_base(3, Ok(s("m3")));
    d.evict_stale_base_texts();
    assert!(!d.has_base_text(&s("m1"), &s("a.txt")));
    assert!(d.has_base_text(&s("m2"), &s("a.txt")));
    assert_eq!(d.current_diff()[0].base_text, Some(s("a2")));
}
