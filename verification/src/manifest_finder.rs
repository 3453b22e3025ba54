//! Finding the manifests below a directory without reading every
//! directory each time: the time at which a directory was last read is
//! kept, and it is read again only when it has changed since.
//!
//! Asking the disk is left to the caller; what to make of its answers is
//! decided here.
use crate::keyed::KeyedList;
use crate::path_resolve::{join_path, spec_join_path};
use crate::text::{chars_of, is_text, string_of, string_views};
use vstd::prelude::*;

verus! {

/// What is kept between runs: when each directory was last read, which
/// directories hold a manifest, and the directories the search starts
/// from.
#[derive(Debug)]
pub struct SaveState {
    pub cache: KeyedList<String, u128>,
    pub manifests: Vec<String>,
    pub roots: Vec<String>,
}

/// What asking for a directory gave, where that calls for anything.
#[derive(Clone, Copy, Debug, PartialEq, Eq, Structural)]
pub enum PollResult {
    Changed,
    NotFound,
}

/// An entry of a directory.
#[derive(Debug)]
pub struct DirEntry {
    pub name: String,
    pub is_dir: bool,
}

pub open spec fn spec_fresh_cache(roots: Seq<Seq<char>>, n: nat) -> Map<Seq<char>, u128>
    decreases n,
{
    if n == 0 {
        Map::empty()
    } else {
        spec_fresh_cache(roots, (n - 1) as nat).insert(roots[n - 1], 0u128)
    }
}

fn position_text(list: &Vec<String>, text: &str) -> (r: Option<usize>)
    ensures
        match r {
            Some(i) => i < list.len() && list@[i as int]@ == text@,
            None => !string_views(list@).contains(text@),
        },
{
    let wanted = chars_of(text);
    let mut i: usize = 0;
    while i < list.len()
        invariant
            i <= list.len(),
            wanted@ == text@,
            forall|j: int| 0 <= j < i ==> string_views(list@)[j] != text@,
        decreases list.len() - i,
    {
        let here = chars_of(list[i].as_str());
        if crate::text::same_chars(&here, &wanted) {
            return Some(i);
        }
        i += 1;
    }
    None
}

fn same_texts(a: &Vec<String>, b: &Vec<String>) -> (r: bool)
    ensures
        r == (string_views(a@) == string_views(b@)),
{
    if a.len() != b.len() {
        assert(string_views(a@).len() != string_views(b@).len());
        return false;
    }
    let mut i: usize = 0;
    while i < a.len()
        invariant
            i <= a.len(),
            a.len() == b.len(),
            forall|j: int| 0 <= j < i ==> a@[j]@ == b@[j]@,
        decreases a.len() - i,
    {
        if a[i] != b[i] {
            assert(string_views(a@)[i as int] != string_views(b@)[i as int]);
            return false;
        }
        i += 1;
    }
    assert(string_views(a@) =~= string_views(b@));
    true
}

impl SaveState {
    pub open spec fn wf(&self) -> bool {
        self.cache.wf() && string_views(self.manifests@).no_duplicates()
    }

    /// A state in which no directory has been read: every root is due.
    pub fn new(roots: Vec<String>) -> (state: SaveState)
        ensures
            state.wf(),
            state.roots == roots,
            state.manifests@.len() == 0,
            state.cache.map() == spec_fresh_cache(string_views(roots@), roots@.len()),
    {
        let mut cache: KeyedList<String, u128> = KeyedList::new();
        let mut i: usize = 0;
        while i < roots.len()
            invariant
                i <= roots.len(),
                cache.wf(),
                cache.map() == spec_fresh_cache(string_views(roots@), i as nat),
            decreases roots.len() - i,
        {
            assert(string_views(roots@)[i as int] == roots@[i as int]@);
            cache.insert(roots[i].clone(), 0);
            i += 1;
        }
        SaveState { cache, manifests: Vec::new(), roots }
    }

    /// A state that knows nothing, not even where to start.
    pub fn default() -> (state: SaveState)
        ensures
            state.wf(),
            state.roots@.len() == 0,
            state.manifests@.len() == 0,
            state.cache.map() == Map::<Seq<char>, u128>::empty(),
    {
        SaveState { cache: KeyedList::new(), manifests: Vec::new(), roots: Vec::new() }
    }
}

/// What to make of a directory that was last read at `stored_mtime`:
/// `modified` is when it was changed last, or nothing where it is gone. A
/// directory that did not change since calls for nothing.
pub fn poll(stored_mtime: u128, modified: Option<u128>) -> (r: Option<PollResult>)
    ensures
        r == (match modified {
            None => Some(PollResult::NotFound),
            Some(mtime) => if mtime <= stored_mtime {
                None
            } else {
                Some(PollResult::Changed)
            },
        }),
{
    match modified {
        None => Some(PollResult::NotFound),
        Some(mtime) => {
            if mtime <= stored_mtime {
                None
            } else {
                Some(PollResult::Changed)
            }
        },
    }
}

/// Finds the manifests below a directory.
#[derive(Debug)]
pub struct CachedManifestFinder {
    pub root_path: String,
    pub save_state_path: String,
    pub save_state: SaveState,
}

/// Whether one of the entries is a manifest.
pub open spec fn spec_has_manifest(entries: Seq<DirEntry>) -> bool {
    exists|i: int| 0 <= i < entries.len() && (#[trigger] entries[i]).name@ == "package.json"@
}

/// The directories among the first `n` entries, as paths below
/// `rel_path`.
pub open spec fn spec_subdirectories(rel_path: Seq<char>, entries: Seq<DirEntry>, n: nat) -> Seq<
    Seq<char>,
>
    decreases n,
{
    if n == 0 {
        Seq::empty()
    } else {
        let before = spec_subdirectories(rel_path, entries, (n - 1) as nat);
        if entries[n - 1].is_dir {
            before.push(spec_join_path(rel_path, entries[n - 1].name@))
        } else {
            before
        }
    }
}

/// The set with `text` in it.
pub open spec fn spec_with_text(set: Seq<Seq<char>>, text: Seq<char>) -> Seq<Seq<char>> {
    if set.contains(text) {
        set
    } else {
        set.push(text)
    }
}

/// The set without `text`.
pub open spec fn spec_without_text(set: Seq<Seq<char>>, text: Seq<char>) -> Seq<Seq<char>> {
    if set.contains(text) {
        set.remove(set.index_of(text))
    } else {
        set
    }
}

fn add_text(set: &mut Vec<String>, text: &str)
    requires
        string_views(old(set)@).no_duplicates(),
    ensures
        string_views(final(set)@).no_duplicates(),
        string_views(final(set)@) == spec_with_text(string_views(old(set)@), text@),
{
    match position_text(set, text) {
        Some(i) => {
            assert(string_views(set@)[i as int] == text@);
        },
        None => {
            let ghost before = string_views(set@);
            set.push(string_of(&chars_of(text)));
            assert(string_views(set@) =~= before.push(text@));
            assert forall|a: int, b: int|
                0 <= a < string_views(set@).len() && 0 <= b < string_views(set@).len() && a
                    != b implies string_views(set@)[a] != string_views(set@)[b] by {
                if a < before.len() {
                    assert(string_views(set@)[a] == before[a]);
                }
                if b < before.len() {
                    assert(string_views(set@)[b] == before[b]);
                }
            }
        },
    }
}

fn drop_text(set: &mut Vec<String>, text: &str)
    requires
        string_views(old(set)@).no_duplicates(),
    ensures
        string_views(final(set)@).no_duplicates(),
        string_views(final(set)@) == spec_without_text(string_views(old(set)@), text@),
{
    let ghost before = string_views(set@);
    match position_text(set, text) {
        Some(i) => {
            assert(before[i as int] == text@);
            let ghost j = before.index_of(text@);
            assert(before[j] == text@);
            set.remove(i);
            assert(string_views(set@) =~= before.remove(i as int));
            assert forall|a: int, b: int|
                0 <= a < string_views(set@).len() && 0 <= b < string_views(set@).len() && a
                    != b implies string_views(set@)[a] != string_views(set@)[b] by {
                let a1 = if a < i {
                    a
                } else {
                    a + 1
                };
                let b1 = if b < i {
                    b
                } else {
                    b + 1
                };
                assert(string_views(set@)[a] == before[a1]);
                assert(string_views(set@)[b] == before[b1]);
            }
        },
        None => {},
    }
}

impl CachedManifestFinder {
    pub open spec fn wf(&self) -> bool {
        self.save_state.wf()
    }

    /// A finder for the directory `root_path`. What was saved by the last
    /// run is taken up where it was saved for the same starting points;
    /// where it is missing, or was saved for others, the search starts
    /// afresh.
    pub fn new(root_path: &str, saved: Option<SaveState>) -> (finder: CachedManifestFinder)
        requires
            saved matches Some(state) ==> state.wf(),
        ensures
            finder.wf(),
            finder.root_path@ == root_path@,
            finder.save_state_path@ == spec_join_path(root_path@, ".yarn/ignore/manifests"@),
            string_views(finder.save_state.roots@) == seq![Seq::<char>::empty()],
            (saved matches Some(state) && string_views(state.roots@) == seq![
                Seq::<char>::empty(),
            ]) ==> finder.save_state == saved->0,
            !(saved matches Some(state) && string_views(state.roots@) == seq![
                Seq::<char>::empty(),
            ]) ==> finder.save_state.manifests@.len() == 0 && finder.save_state.cache.map()
                == Map::<Seq<char>, u128>::empty().insert(Seq::<char>::empty(), 0u128),
    {
        let save_state_path = join_path(root_path, ".yarn/ignore/manifests");
        let mut roots: Vec<String> = Vec::new();
        roots.push(String::new());
        assert(string_views(roots@) =~= seq![Seq::<char>::empty()]);
        let save_state = match saved {
            Some(state) => {
                if same_texts(&state.roots, &roots) {
                    state
                } else {
                    SaveState::new(roots)
                }
            },
            None => SaveState::new(roots),
        };
        proof {
            let r = seq![Seq::<char>::empty()];
            assert(spec_fresh_cache(r, 1) == spec_fresh_cache(r, 0).insert(r[0], 0u128));
        }
        CachedManifestFinder {
            root_path: string_of(&chars_of(root_path)),
            save_state_path,
            save_state,
        }
    }

    /// Takes note of what the directory `rel_path` holds, read at
    /// `current_time`: the time is kept, the directory counts among those
    /// with a manifest exactly if it holds one, and each directory in it
    /// is to be read next.
    pub fn refresh_directory(&mut self, rel_path: &str, current_time: u128, entries: &Vec<DirEntry>) -> (next:
        Vec<String>)
        requires
            old(self).wf(),
        ensures
            final(self).wf(),
            final(self).root_path == old(self).root_path,
            final(self).save_state_path == old(self).save_state_path,
            final(self).save_state.roots == old(self).save_state.roots,
            final(self).save_state.cache.map() == old(self).save_state.cache.map().insert(
                rel_path@,
                current_time,
            ),
            string_views(final(self).save_state.manifests@) == (if spec_has_manifest(entries@) {
                spec_with_text(string_views(old(self).save_state.manifests@), rel_path@)
            } else {
                spec_without_text(string_views(old(self).save_state.manifests@), rel_path@)
            }),
            string_views(next@) == spec_subdirectories(rel_path@, entries@, entries@.len()),
    {
        self.save_state.cache.insert(string_of(&chars_of(rel_path)), current_time);
        let mut has_package_json = false;
        let mut next: Vec<String> = Vec::new();
        let mut i: usize = 0;
        assert(string_views(next@) =~= spec_subdirectories(rel_path@, entries@, 0));
        while i < entries.len()
            invariant
                i <= entries.len(),
                has_package_json == (exists|j: int|
                    0 <= j < i && (#[trigger] entries@[j]).name@ == "package.json"@),
                string_views(next@) == spec_subdirectories(rel_path@, entries@, i as nat),
            decreases entries.len() - i,
        {
            let name = chars_of(entries[i].name.as_str());
            if is_text(&name, "package.json") {
                has_package_json = true;
            }
            if entries[i].is_dir {
                let ghost before = string_views(next@);
                next.push(join_path(rel_path, entries[i].name.as_str()));
                assert(string_views(next@) =~= before.push(
                    spec_join_path(rel_path@, entries@[i as int].name@),
                ));
            }
            i += 1;
        }
        if has_package_json {
            add_text(&mut self.save_state.manifests, rel_path);
        } else {
            drop_text(&mut self.save_state.manifests, rel_path);
        }
        next
    }

    /// Forgets a directory that is gone.
    pub fn forget(&mut self, rel_path: &str)
        requires
            old(self).wf(),
        ensures
            final(self).wf(),
            final(self).root_path == old(self).root_path,
            final(self).save_state_path == old(self).save_state_path,
            final(self).save_state.roots == old(self).save_state.roots,
            final(self).save_state.cache.map() == old(self).save_state.cache.map().remove(
                rel_path@,
            ),
            string_views(final(self).save_state.manifests@) == spec_without_text(
                string_views(old(self).save_state.manifests@),
                rel_path@,
            ),
    {
        let key = string_of(&chars_of(rel_path));
        self.save_state.cache.remove(&key);
        drop_text(&mut self.save_state.manifests, rel_path);
    }

    /// Acts on what asking for one directory gave. A directory that is
    /// gone is forgotten. One that changed is left as it is: the caller
    /// has to read it, as the result says, and hand its entries to
    /// `refresh_directory`.
    pub fn settle(&mut self, rel_path: &str, result: PollResult) -> (read: bool)
        requires
            old(self).wf(),
        ensures
            final(self).wf(),
            read == (result == PollResult::Changed),
            result == PollResult::Changed ==> *final(self) == *old(self),
            result == PollResult::NotFound ==> final(self).save_state.cache.map() == old(
                self,
            ).save_state.cache.map().remove(rel_path@) && string_views(
                final(self).save_state.manifests@,
            ) == spec_without_text(string_views(old(self).save_state.manifests@), rel_path@),
    {
        match result {
            PollResult::Changed => true,
            PollResult::NotFound => {
                self.forget(rel_path);
                false
            },
        }
    }

    /// The directories that hold a manifest.
    pub fn manifests(&self) -> (list: &Vec<String>)
        ensures
            *list == self.save_state.manifests,
    {
        &self.save_state.manifests
    }
}

} // verus!
