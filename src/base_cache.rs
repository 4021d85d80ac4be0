//! Content of files as of base commits, keyed by commit and path.

use vstd::prelude::*;
use crate::diff_entry::{
    FileChange, FileChangeView, LoadedBase, LoadedBaseView, clone_opt, opt_view, views,
};

verus! {

/// The paths of `changes` whose content at `base` is not in `cache`, each
/// once, in the order of their first appearance.
pub open spec fn missing_paths(
    changes: Seq<FileChangeView>,
    cache: Map<BaseKey, Option<Seq<char>>>,
    base: Seq<char>,
) -> Seq<Seq<char>>
    decreases changes.len(),
{
    if changes.len() == 0 {
        Seq::empty()
    } else {
        let earlier = missing_paths(changes.drop_last(), cache, base);
        let path = changes.last().path;
        if !cache.contains_key((base, path)) && !earlier.contains(path) {
            earlier.push(path)
        } else {
            earlier
        }
    }
}

/// `cache` after storing each loaded content under `base`, in order.
pub open spec fn with_loaded(
    cache: Map<BaseKey, Option<Seq<char>>>,
    base: Seq<char>,
    loaded: Seq<LoadedBaseView>,
) -> Map<BaseKey, Option<Seq<char>>>
    decreases loaded.len(),
{
    if loaded.len() == 0 {
        cache
    } else {
        with_loaded(cache, base, loaded.drop_last()).insert(
            (base, loaded.last().path),
            loaded.last().text,
        )
    }
}

/// The paths to fetch are exactly the paths of the changes that are not
/// cached under `base`, none of them twice: a path already cached under that
/// commit is never fetched again.
pub proof fn lemma_missing_paths_exact(
    changes: Seq<FileChangeView>,
    cache: Map<BaseKey, Option<Seq<char>>>,
    base: Seq<char>,
)
    ensures
        missing_paths(changes, cache, base).no_duplicates(),
        forall|p: Seq<char>|
            #[trigger] missing_paths(changes, cache, base).contains(p) <==> (!cache.contains_key(
                (base, p),
            ) && exists|i: int| 0 <= i < changes.len() && changes[i].path == p),
    decreases changes.len(),
{
    if changes.len() > 0 {
        let init = changes.drop_last();
        lemma_missing_paths_exact(init, cache, base);
        let earlier = missing_paths(init, cache, base);
        let path = changes.last().path;
        let added = !cache.contains_key((base, path)) && !earlier.contains(path);
        let r = missing_paths(changes, cache, base);
        if added {
            assert(r == earlier.push(path));
        } else {
            assert(r == earlier);
        }
        assert forall|p: Seq<char>|
            #[trigger] r.contains(p) <==> (!cache.contains_key((base, p)) && exists|i: int|
                0 <= i < changes.len() && changes[i].path == p) by {
            if r.contains(p) {
                if earlier.contains(p) {
                    let i = choose|i: int| 0 <= i < init.len() && init[i].path == p;
                    assert(changes[i].path == p);
                } else {
                    let k = choose|k: int| 0 <= k < r.len() && r[k] == p;
                    assert(added);
                    if k < earlier.len() {
                        assert(earlier[k] == p);
                    }
                    assert(p == path);
                    assert(changes[changes.len() - 1].path == p);
                }
            }
            if !cache.contains_key((base, p)) && exists|i: int|
                0 <= i < changes.len() && changes[i].path == p {
                let i = choose|i: int| 0 <= i < changes.len() && changes[i].path == p;
                if i < changes.len() - 1 {
                    assert(init[i].path == p);
                    assert(earlier.contains(p));
                    let k = choose|k: int| 0 <= k < earlier.len() && earlier[k] == p;
                    assert(r[k] == p);
                } else {
                    assert(p == path);
                    if !earlier.contains(p) {
                        assert(r[earlier.len() as int] == p);
                    } else {
                        let k = choose|k: int| 0 <= k < earlier.len() && earlier[k] == p;
                        assert(r[k] == p);
                    }
                }
            }
        }
    }
}

/// Whether `strings` holds one with the characters of `target`.
fn holds_string(strings: &Vec<String>, target: &String) -> (r: bool)
    ensures
        r == views(strings@).contains(target@),
{
    let mut i: usize = 0;
    while i < strings.len()
        invariant
            0 <= i <= strings@.len(),
            forall|j: int| 0 <= j < i ==> strings@[j]@ != target@,
        decreases strings@.len() - i,
    {
        if strings[i] == *target {
            assert(views(strings@)[i as int] == target@);
            return true;
        }
        i += 1;
    }
    assert(!views(strings@).contains(target@)) by {
        if views(strings@).contains(target@) {
            let j = choose|j: int| 0 <= j < views(strings@).len() && views(strings@)[j] == target@;
            assert(strings@[j]@ == target@);
        }
    }
    false
}

/// A cache key: a base commit and a repository-relative path.
pub type BaseKey = (Seq<char>, Seq<char>);

/// The keys under any of `commits`.
pub open spec fn keys_under(commits: Seq<Seq<char>>) -> Set<BaseKey> {
    Set::new(|k: BaseKey| commits.contains(k.0))
}

/// One loaded file: its content at `commit`, or `None` where the path does not
/// exist there.
struct CachedBase {
    commit: String,
    path: String,
    text: Option<String>,
}

/// Loaded base contents. A key is present once its content has been fetched;
/// entries under one commit are never served for another.
pub struct BaseContentCache {
    entries: Vec<CachedBase>,
    contents: Ghost<Map<BaseKey, Option<Seq<char>>>>,
}

spec fn entry_key(e: CachedBase) -> BaseKey {
    (e.commit@, e.path@)
}

impl View for BaseContentCache {
    type V = Map<BaseKey, Option<Seq<char>>>;

    closed spec fn view(&self) -> Map<BaseKey, Option<Seq<char>>> {
        self.contents@
    }
}

impl BaseContentCache {
    closed spec fn key_at(&self, i: int) -> BaseKey {
        entry_key(self.entries@[i])
    }

    /// Each stored entry is described by the view, each key of the view by
    /// exactly one entry.
    pub closed spec fn wf(&self) -> bool {
        &&& forall|i: int|
            0 <= i < self.entries@.len() ==> #[trigger] self.contents@.contains_key(self.key_at(i))
                && self.contents@[self.key_at(i)] == opt_view(self.entries@[i].text)
        &&& forall|k: BaseKey|
            #[trigger] self.contents@.contains_key(k) ==> exists|i: int|
                0 <= i < self.entries@.len() && self.key_at(i) == k
        &&& forall|i: int, j: int|
            0 <= i < self.entries@.len() && 0 <= j < self.entries@.len() && i != j
                ==> self.key_at(i) != self.key_at(j)
    }

    pub fn new() -> (r: Self)
        ensures
            r.wf(),
            r@ == Map::<BaseKey, Option<Seq<char>>>::empty(),
    {
        BaseContentCache { entries: Vec::new(), contents: Ghost(Map::empty()) }
    }

    fn find(&self, commit: &String, path: &String) -> (r: Option<usize>)
        requires
            self.wf(),
        ensures
            match r {
                Some(i) => i < self.entries@.len() && self.key_at(i as int) == (commit@, path@),
                None => !self@.contains_key((commit@, path@)),
            },
    {
        let mut i: usize = 0;
        while i < self.entries.len()
            invariant
                self.wf(),
                0 <= i <= self.entries@.len(),
                forall|j: int| 0 <= j < i ==> self.key_at(j) != (commit@, path@),
            decreases self.entries@.len() - i,
        {
            let e = &self.entries[i];
            if e.commit == *commit && e.path == *path {
                return Some(i);
            }
            i += 1;
        }
        None
    }

    /// Whether the content of `path` at `commit` has been loaded.
    pub fn contains(&self, commit: &String, path: &String) -> (r: bool)
        requires
            self.wf(),
        ensures
            r == self@.contains_key((commit@, path@)),
    {
        match self.find(commit, path) {
            Some(_) => true,
            None => false,
        }
    }

    /// The loaded content of `path` at `commit`; `None` where nothing was
    /// loaded or the path does not exist at that commit.
    pub fn text(&self, commit: &String, path: &String) -> (r: Option<String>)
        requires
            self.wf(),
        ensures
            opt_view(r) == (if self@.contains_key((commit@, path@)) {
                self@[(commit@, path@)]
            } else {
                None
            }),
    {
        match self.find(commit, path) {
            Some(i) => clone_opt(&self.entries[i].text),
            None => None,
        }
    }

    /// Records the content of `path` at `commit`, replacing what was there.
    pub fn insert(&mut self, commit: &String, path: &String, text: Option<String>)
        requires
            old(self).wf(),
        ensures
            final(self).wf(),
            final(self)@ == old(self)@.insert((commit@, path@), opt_view(text)),
    {
        let key: Ghost<BaseKey> = Ghost((commit@, path@));
        let ghost new_contents = self.contents@.insert(key@, opt_view(text));
        match self.find(commit, path) {
            Some(i) => {
                let entry = CachedBase { commit: commit.clone(), path: path.clone(), text };
                self.entries.set(i, entry);
                self.contents = Ghost(new_contents);
                assert(self.key_at(i as int) == key@);
                assert forall|j: int| 0 <= j < self.entries@.len() && j != i implies
                    #[trigger] self.key_at(j) == old(self).key_at(j) && self.entries@[j] == old(self).entries@[j] by {}
                assert forall|k: BaseKey| #[trigger] self.contents@.contains_key(k) implies exists|j: int|
                    0 <= j < self.entries@.len() && self.key_at(j) == k by {
                    if k != key@ {
                        let j = choose|j: int| 0 <= j < old(self).entries@.len() && old(self).key_at(j) == k;
                        assert(self.key_at(j) == k);
                    } else {
                        assert(self.key_at(i as int) == k);
                    }
                }
                assert forall|j: int| 0 <= j < self.entries@.len() implies #[trigger] self.contents@.contains_key(
                    self.key_at(j),
                ) && self.contents@[self.key_at(j)] == opt_view(self.entries@[j].text) by {
                    if j != i {
                        assert(old(self).contents@.contains_key(old(self).key_at(j)));
                    }
                }
                assert forall|j1: int, j2: int|
                    0 <= j1 < self.entries@.len() && 0 <= j2 < self.entries@.len() && j1 != j2 implies self.key_at(j1)
                        != self.key_at(j2) by {
                    if j1 != i && j2 != i {
                        assert(old(self).key_at(j1) != old(self).key_at(j2));
                    } else if j1 == i {
                        assert(old(self).key_at(j1) != old(self).key_at(j2));
                    } else {
                        assert(old(self).key_at(j1) != old(self).key_at(j2));
                    }
                }
            },
            None => {
                let entry = CachedBase { commit: commit.clone(), path: path.clone(), text };
                self.entries.push(entry);
                self.contents = Ghost(new_contents);
                let n = self.entries.len() - 1;
                assert(self.key_at(n as int) == key@);
                assert forall|j: int| 0 <= j < n implies
                    #[trigger] self.key_at(j) == old(self).key_at(j) && self.entries@[j] == old(self).entries@[j] by {}
                assert forall|k: BaseKey| #[trigger] self.contents@.contains_key(k) implies exists|j: int|
                    0 <= j < self.entries@.len() && self.key_at(j) == k by {
                    if k != key@ {
                        let j = choose|j: int| 0 <= j < old(self).entries@.len() && old(self).key_at(j) == k;
                        assert(self.key_at(j) == k);
                    } else {
                        assert(self.key_at(n as int) == k);
                    }
                }
                assert forall|j: int| 0 <= j < self.entries@.len() implies #[trigger] self.contents@.contains_key(
                    self.key_at(j),
                ) && self.contents@[self.key_at(j)] == opt_view(self.entries@[j].text) by {
                    if j != n {
                        assert(old(self).contents@.contains_key(old(self).key_at(j)));
                        assert(old(self).key_at(j) != key@);
                    }
                }
                assert forall|j1: int, j2: int|
                    0 <= j1 < self.entries@.len() && 0 <= j2 < self.entries@.len() && j1 != j2 implies self.key_at(j1)
                        != self.key_at(j2) by {
                    if j1 != n && j2 != n {
                        assert(old(self).key_at(j1) != old(self).key_at(j2));
                    } else if j1 == n {
                        assert(old(self).contents@.contains_key(old(self).key_at(j2)));
                    } else {
                        assert(old(self).contents@.contains_key(old(self).key_at(j1)));
                    }
                }
            },
        }
    }

    /// The paths of `changes` whose content at `base` has not been loaded,
    /// each once, in the order of their first appearance.
    pub fn missing_paths(&self, base: &String, changes: &Vec<FileChange>) -> (r: Vec<String>)
        requires
            self.wf(),
        ensures
            views(r@) == missing_paths(views(changes@), self@, base@),
    {
        let mut r: Vec<String> = Vec::new();
        let mut i: usize = 0;
        while i < changes.len()
            invariant
                self.wf(),
                0 <= i <= changes@.len(),
                views(r@) == missing_paths(views(changes@).take(i as int), self@, base@),
            decreases changes@.len() - i,
        {
            let ghost prefix = views(changes@).take(i as int + 1);
            assert(prefix.drop_last() =~= views(changes@).take(i as int));
            assert(prefix.last().path == changes@[i as int].path@);
            let path = &changes[i].path;
            if !self.contains(base, path) && !holds_string(&r, path) {
                r.push(path.clone());
                assert(views(r@) =~= missing_paths(views(changes@).take(i as int), self@, base@).push(
                    path@,
                ));
            }
            i += 1;
        }
        assert(views(changes@).take(changes@.len() as int) =~= views(changes@));
        r
    }

    /// Stores each loaded content under `base`, in order.
    pub fn insert_loaded(&mut self, base: &String, loaded: &Vec<LoadedBase>)
        requires
            old(self).wf(),
        ensures
            final(self).wf(),
            final(self)@ == with_loaded(old(self)@, base@, views(loaded@)),
    {
        let mut i: usize = 0;
        while i < loaded.len()
            invariant
                self.wf(),
                0 <= i <= loaded@.len(),
                self@ == with_loaded(old(self)@, base@, views(loaded@).take(i as int)),
            decreases loaded@.len() - i,
        {
            let ghost prefix = views(loaded@).take(i as int + 1);
            assert(prefix.drop_last() =~= views(loaded@).take(i as int));
            assert(prefix.last() == loaded@[i as int]@);
            let item = &loaded[i];
            self.insert(base, &item.path, clone_opt(&item.text));
            i += 1;
        }
        assert(views(loaded@).take(loaded@.len() as int) =~= views(loaded@));
    }

    /// Drops every entry whose commit is none of `commits`.
    pub fn retain_commits(&mut self, commits: &Vec<String>)
        requires
            old(self).wf(),
        ensures
            final(self).wf(),
            final(self)@ == old(self)@.restrict(keys_under(views(commits@))),
    {
        let ghost old_entries = self.entries@;
        let ghost new_contents = self.contents@.restrict(keys_under(views(commits@)));
        let mut kept: Vec<CachedBase> = Vec::new();
        let ghost mut idx: Seq<int> = Seq::empty();
        let mut i: usize = 0;
        while i < self.entries.len()
            invariant
                self.wf(),
                self.entries@ == old_entries,
                0 <= i <= old_entries.len(),
                kept@.len() == idx.len(),
                forall|j: int|
                    0 <= j < idx.len() ==> 0 <= #[trigger] idx[j] < i && self.key_at(idx[j])
                        == entry_key(kept@[j]) && views(commits@).contains(self.key_at(idx[j]).0)
                        && opt_view(kept@[j].text) == opt_view(old_entries[idx[j]].text),
                forall|j1: int, j2: int| 0 <= j1 < j2 < idx.len() ==> idx[j1] < idx[j2],
                forall|o: int|
                    0 <= o < i && views(commits@).contains(#[trigger] self.key_at(o).0) ==> exists|j: int|
                        0 <= j < idx.len() && idx[j] == o,
            decreases old_entries.len() - i,
        {
            let e = &self.entries[i];
            if holds_string(commits, &e.commit) {
                let copy = CachedBase {
                    commit: e.commit.clone(),
                    path: e.path.clone(),
                    text: clone_opt(&e.text),
                };
                let ghost before = idx;
                proof {
                    idx = idx.push(i as int);
                }
                kept.push(copy);
                assert(idx[idx.len() - 1] == i as int);
                assert forall|o: int|
                    0 <= o < i + 1 && views(commits@).contains(#[trigger] self.key_at(o).0) implies exists|j: int|
                        0 <= j < idx.len() && idx[j] == o by {
                    if o < i {
                        let j = choose|j: int| 0 <= j < before.len() && before[j] == o;
                        assert(idx[j] == o);
                    }
                }
            }
            i += 1;
        }
        let ghost old_self = *self;
        self.entries = kept;
        self.contents = Ghost(new_contents);
        assert forall|j: int| 0 <= j < self.entries@.len() implies #[trigger] self.contents@.contains_key(
            self.key_at(j),
        ) && self.contents@[self.key_at(j)] == opt_view(self.entries@[j].text) by {
            assert(old_self.key_at(idx[j]) == self.key_at(j));
            assert(keys_under(views(commits@)).contains(self.key_at(j)));
        }
        assert forall|k: BaseKey| #[trigger] self.contents@.contains_key(k) implies exists|j: int|
            0 <= j < self.entries@.len() && self.key_at(j) == k by {
            let o = choose|o: int| 0 <= o < old_entries.len() && old_self.key_at(o) == k;
            assert(views(commits@).contains(old_self.key_at(o).0));
            let j = choose|j: int| 0 <= j < idx.len() && idx[j] == o;
            assert(self.key_at(j) == k);
        }
        assert forall|j1: int, j2: int|
            0 <= j1 < self.entries@.len() && 0 <= j2 < self.entries@.len() && j1 != j2 implies self.key_at(j1)
                != self.key_at(j2) by {
            assert(old_self.key_at(idx[j1]) == self.key_at(j1));
            assert(old_self.key_at(idx[j2]) == self.key_at(j2));
            if j1 < j2 {
                assert(idx[j1] < idx[j2]);
            } else {
                assert(idx[j2] < idx[j1]);
            }
        }
    }
}

} // verus!
