use branch_diff::base_cache::BaseContentCache;
use branch_diff::diff_entry::{FileChange, FileStatus, LoadedBase};
use branch_diff::inlays::{Editor, Inlay, InlayHint, InlayId, InlaySplice, InlineValueCache};

fn s(text: &str) -> String {
    text.to_string()
}

#[test]
fn cache_is_keyed_by_commit_and_path() {
    let mut cache = BaseContentCache::new();
    cache.insert(&s("m1"), &s("a.txt"), Some(s("one")));
    assert!(cache.contains(&s("m1"), &s("a.txt")));
    assert!(!cache.contains(&s("m2"), &s("a.txt")));
    assert_eq!(cache.text(&s("m1"), &s("a.txt")), Some(s("one")));
    assert_eq!(cache.text(&s("m2"), &s("a.txt")), None);
    cache.insert(&s("m1"), &s("a.txt"), Some(s("two")));
    assert_eq!(cache.text(&s("m1"), &s("a.txt")), Some(s("two")));
}

#[test]
fn missing_paths_lists_uncached_once() {
    let mut cache = BaseContentCache::new();
    cache.insert_loaded(&s("m"), &vec![LoadedBase::new(s("a.txt"), None)]);
    let changes = vec![
        FileChange::new(s("a.txt"), FileStatus::Added),
        FileChange::new(s("b.txt"), FileStatus::Modified),
        FileChange::new(s("b.txt"), FileStatus::Modified),
        FileChange::new(s("c.txt"), FileStatus::Deleted),
    ];
    assert_eq!(cache.missing_paths(&s("m"), &changes), vec![s("b.txt"), s("c.txt")]);
    assert_eq!(
        cache.missing_paths(&s("other"), &changes),
        vec![s("a.txt"), s("b.txt"), s("c.txt")]
    );
}

#[test]
fn inlay_id_number() {
    assert_eq!(InlayId::EditPrediction(3).id(), 3);
    assert_eq!(InlayId::DebuggerValue(4).id(), 4);
    assert_eq!(InlayId::Hint(5).id(), 5);
    assert_eq!(InlayId::Color(6).id(), 6);
}

#[test]
fn inline_values_setting() {
    assert!(Editor::new(true).inline_values_enabled());
    assert!(!Editor::new(false).inline_values_enabled());
    let cache = InlineValueCache::new(true);
    assert!(cache.enabled);
    assert!(cache.inlays.is_empty());
}

#[test]
fn retain_commits_drops_other_commits() {
    let mut cache = BaseContentCache::new();
    cache.insert(&s("m1"), &s("a.txt"), Some(s("one")));
    cache.insert(&s("m2"), &s("a.txt"), Some(s("two")));
    cache.insert(&s("m3"), &s("b.txt"), None);
    cache.retain_commits(&vec![s("m2"), s("m3")]);
    assert!(!cache.contains(&s("m1"), &s("a.txt")));
    assert_eq!(cache.text(&s("m2"), &s("a.txt")), Some(s("two")));
    assert!(cache.contains(&s("m3"), &s("b.txt")));
    cache.retain_commits(&vec![]);
    assert!(!cache.contains(&s("m2"), &s("a.txt")));
}

fn hint_text(text: &str, padding_left: bool, padding_right: bool) -> String {
    let hint = InlayHint { text: s(text), padding_left, padding_right };
    let inlay = Inlay::hint(7, (), &hint);
    assert_eq!(inlay.id, InlayId::Hint(7));
    inlay.text
}

#[test]
fn hint_padding() {
    assert_eq!(hint_text("x", true, true), " x ");
    assert_eq!(hint_text("x", false, true), "x ");
    assert_eq!(hint_text("x", true, false), " x");
    assert_eq!(hint_text(" x ", true, true), " x ");
    assert_eq!(hint_text("ab", false, false), "ab");
    assert_eq!(hint_text("", true, true), " ");
    assert_eq!(hint_text("", true, false), " ");
    assert_eq!(hint_text("", false, false), "");
}

#[test]
fn inlay_constructors_keep_text() {
    let p = Inlay::edit_prediction(1, 10usize, s("pred"));
    assert_eq!(p.id, InlayId::EditPrediction(1));
    assert_eq!(p.position, 10);
    assert_eq!(p.text, "pred");
    let d = Inlay::debugger(2, 11usize, s("x = 1"));
    assert_eq!(d.id, InlayId::DebuggerValue(2));
    assert_eq!(d.text, "x = 1");
    let m = Inlay::mock_hint(3, 12usize, s("m"));
    assert_eq!(m.id, InlayId::Hint(3));
    assert_eq!(m.text, "m");
    let splice = InlaySplice { to_remove: vec![InlayId::Hint(1)], to_insert: vec![m] };
    assert_eq!(splice.to_remove.len(), 1);
    assert_eq!(splice.to_insert[0].position, 12);
}
