//! The files that a session changed, each under the path that the session
//! first knew it by.

use std::path::PathBuf;
use vstd::prelude::*;

use crate::diff_model::{FileChange, FileChangeView, SessionFileChange, SessionFileChangeView};
use crate::paths::{copy_path, same_path};
use crate::text::opt_text;

verus! {

/// A file that a session changed.
#[derive(Debug)]
pub struct SessionEntry {
    pub path: PathBuf,
    pub change: SessionFileChange,
}

/// A file that a session changed, as text.
pub struct SessionEntryView {
    pub path: PathBuf,
    pub change: SessionFileChangeView,
}

impl View for SessionEntry {
    type V = SessionEntryView;

    open spec fn view(&self) -> SessionEntryView {
        SessionEntryView { path: self.path, change: self.change@ }
    }
}

/// The entries that a vector holds, as text.
pub open spec fn entry_views(entries: Seq<SessionEntry>) -> Seq<SessionEntryView> {
    entries.map_values(|entry: SessionEntry| entry@)
}

/// Whether some entry is kept under `path`.
pub open spec fn has_path(entries: Seq<SessionEntryView>, path: PathBuf) -> bool {
    exists|i: int| 0 <= i < entries.len() && (#[trigger] entries[i]).path == path
}

/// Whether `entries` are those of a session: no path occurs twice, and each
/// change is one that a session makes.
pub open spec fn valid_entries(entries: Seq<SessionEntryView>) -> bool {
    &&& forall|i: int, j: int|
        0 <= i < j < entries.len() ==> (#[trigger] entries[i]).path != (#[trigger] entries[j]).path
    &&& forall|i: int| 0 <= i < entries.len() ==> (#[trigger] entries[i]).change.valid()
}

/// The change kept under `path`, where there is one.
pub open spec fn change_at(entries: Seq<SessionEntryView>, path: PathBuf) -> Option<
    SessionFileChangeView,
>
    decreases entries.len(),
{
    if entries.len() == 0 {
        None
    } else if entries[0].path == path {
        Some(entries[0].change)
    } else {
        change_at(entries.drop_first(), path)
    }
}

/// The path of the first entry whose file was moved to `path`, where there is
/// one.
pub open spec fn moved_from(entries: Seq<SessionEntryView>, path: PathBuf) -> Option<PathBuf>
    decreases entries.len(),
{
    if entries.len() == 0 {
        None
    } else if entries[0].change.move_path == Some(path) {
        Some(entries[0].path)
    } else {
        moved_from(entries.drop_first(), path)
    }
}

/// The path that a file now at `path` is kept under: its own where an entry has
/// it, else that of the entry that was moved there, else its own again.
pub open spec fn key_for(entries: Seq<SessionEntryView>, path: PathBuf) -> PathBuf {
    if has_path(entries, path) {
        path
    } else {
        match moved_from(entries, path) {
            Some(session_path) => session_path,
            None => path,
        }
    }
}

/// `entries` with `change` under `path`: in place of what was there, or at the
/// end.
pub open spec fn with_change(
    entries: Seq<SessionEntryView>,
    path: PathBuf,
    change: SessionFileChangeView,
) -> Seq<SessionEntryView> {
    let entry = SessionEntryView { path, change };
    if has_path(entries, path) {
        entries.map_values(
            |kept: SessionEntryView|
                if kept.path == path {
                    entry
                } else {
                    kept
                },
        )
    } else {
        entries.push(entry)
    }
}

/// `entries` without what is kept under `path`.
pub open spec fn without_path(entries: Seq<SessionEntryView>, path: PathBuf) -> Seq<
    SessionEntryView,
> {
    entries.filter(|kept: SessionEntryView| kept.path != path)
}

/// A change that is about to be carried out, with what the file holds.
pub struct BegunChange {
    pub path: PathBuf,
    pub change: FileChange,
    pub original_content: Option<String>,
}

/// A change that was carried out, with what the file holds afterwards at its
/// `current_path`.
pub struct ObservedChange {
    pub path: PathBuf,
    pub change: FileChange,
    pub current_content: Option<String>,
}

/// The entries after a change to the file at `path` has begun: a file that is
/// followed already keeps its entry.
pub open spec fn begin_one(
    entries: Seq<SessionEntryView>,
    path: PathBuf,
    change: FileChangeView,
    original: Option<Seq<char>>,
) -> Seq<SessionEntryView> {
    let key = key_for(entries, path);
    if has_path(entries, key) {
        entries
    } else {
        entries.push(
            SessionEntryView { path: key, change: SessionFileChangeView::begun(original, change) },
        )
    }
}

/// The entries after a change to the file at `path` was given up: an entry that
/// was still pending goes.
pub open spec fn abandon_one(entries: Seq<SessionEntryView>, path: PathBuf) -> Seq<
    SessionEntryView,
> {
    let key = key_for(entries, path);
    match change_at(entries, key) {
        Some(change) => if change.completed {
            entries
        } else {
            without_path(entries, key)
        },
        None => entries,
    }
}

/// The session change of a file once a change to it was carried out.
pub open spec fn change_after(
    known: Option<SessionFileChangeView>,
    change: FileChangeView,
    observed: Option<Seq<char>>,
) -> SessionFileChangeView {
    match known {
        Some(existing) => existing.completed_by(observed, change),
        None => SessionFileChangeView::replayed(observed, change),
    }
}

/// The entries after a change to the file at `path` was carried out. A file
/// that is back where it started goes.
pub open spec fn complete_one(
    entries: Seq<SessionEntryView>,
    path: PathBuf,
    change: FileChangeView,
    observed: Option<Seq<char>>,
) -> Seq<SessionEntryView> {
    let key = key_for(entries, path);
    let next = change_after(change_at(entries, key), change, observed);
    if next.changed() {
        with_change(entries, key, next)
    } else {
        without_path(entries, key)
    }
}

/// The entries after a run of changes has begun.
pub open spec fn begin_all(entries: Seq<SessionEntryView>, begun: Seq<BegunChange>) -> Seq<
    SessionEntryView,
>
    decreases begun.len(),
{
    if begun.len() == 0 {
        entries
    } else {
        let last = begun.last();
        begin_one(
            begin_all(entries, begun.drop_last()),
            last.path,
            last.change@,
            opt_text(last.original_content),
        )
    }
}

/// The entries after a run of changes was given up.
pub open spec fn abandon_all(entries: Seq<SessionEntryView>, observed: Seq<ObservedChange>) -> Seq<
    SessionEntryView,
>
    decreases observed.len(),
{
    if observed.len() == 0 {
        entries
    } else {
        abandon_one(abandon_all(entries, observed.drop_last()), observed.last().path)
    }
}

/// The entries after a run of changes was carried out.
pub open spec fn complete_all(
    entries: Seq<SessionEntryView>,
    observed: Seq<ObservedChange>,
) -> Seq<SessionEntryView>
    decreases observed.len(),
{
    if observed.len() == 0 {
        entries
    } else {
        let last = observed.last();
        complete_one(
            complete_all(entries, observed.drop_last()),
            last.path,
            last.change@,
            opt_text(last.current_content),
        )
    }
}

/// The entries that have something to show, with their baselines worked out.
pub open spec fn visible_entries(entries: Seq<SessionEntryView>) -> Seq<SessionEntryView> {
    entries.map_values(
        |entry: SessionEntryView|
            SessionEntryView { path: entry.path, change: entry.change.resolved() },
    ).filter(|entry: SessionEntryView| entry.change.changed())
}

/// Where a file is once a change to it was carried out.
pub open spec fn path_after(path: PathBuf, change: FileChangeView) -> PathBuf {
    match change.moves_to() {
        Some(move_path) => move_path,
        None => path,
    }
}

/// Where to read a file once a change to it was carried out.
pub fn current_path<'a>(path: &'a PathBuf, change: &'a FileChange) -> (current: &'a PathBuf)
    ensures
        *current == path_after(*path, change@),
{
    match change {
        FileChange::Update { move_path: Some(move_path), .. } => move_path,
        _ => path,
    }
}

/// Where an entry is found, it holds the change under its path.
pub(crate) proof fn lemma_change_at(entries: Seq<SessionEntryView>, i: int)
    requires
        valid_entries(entries),
        0 <= i < entries.len(),
    ensures
        change_at(entries, entries[i].path) == Some(entries[i].change),
    decreases entries.len(),
{
    if i > 0 {
        assert(entries[0].path != entries[i].path);
        let rest = entries.drop_first();
        assert forall|a: int, b: int| 0 <= a < b < rest.len() implies (#[trigger] rest[a]).path != (
        #[trigger] rest[b]).path by {
            assert(rest[a] == entries[a + 1]);
            assert(rest[b] == entries[b + 1]);
        }
        assert forall|a: int| 0 <= a < rest.len() implies (#[trigger] rest[a]).change.valid() by {
            assert(rest[a] == entries[a + 1]);
        }
        lemma_change_at(rest, i - 1);
        assert(rest[i - 1] == entries[i]);
    }
}

/// Where no entry is found, there is no change under the path.
pub(crate) proof fn lemma_no_change_at(entries: Seq<SessionEntryView>, path: PathBuf)
    ensures
        change_at(entries, path) is Some == has_path(entries, path),
    decreases entries.len(),
{
    if entries.len() > 0 {
        let rest = entries.drop_first();
        lemma_no_change_at(rest, path);
        if entries[0].path != path {
            if has_path(entries, path) {
                let i = choose|i: int| 0 <= i < entries.len() && (#[trigger] entries[i]).path == path;
                assert(rest[i - 1].path == path);
            }
            if has_path(rest, path) {
                let i = choose|i: int| 0 <= i < rest.len() && (#[trigger] rest[i]).path == path;
                assert(entries[i + 1].path == path);
            }
        }
    }
}

/// Taking an entry out is leaving its path out.
pub(crate) proof fn lemma_remove_is_without(entries: Seq<SessionEntryView>, i: int)
    requires
        valid_entries(entries),
        0 <= i < entries.len(),
    ensures
        entries.remove(i) == without_path(entries, entries[i].path),
    decreases entries.len(),
{
    let path = entries[i].path;
    let keep = |kept: SessionEntryView| kept.path != path;
    reveal(Seq::filter);
    let last = entries.len() - 1;
    let shorter = entries.drop_last();
    assert forall|a: int, b: int| 0 <= a < b < shorter.len() implies (#[trigger] shorter[a]).path != (
    #[trigger] shorter[b]).path by {
        assert(shorter[a] == entries[a] && shorter[b] == entries[b]);
    }
    assert forall|a: int| 0 <= a < shorter.len() implies (#[trigger] shorter[a]).change.valid() by {
        assert(shorter[a] == entries[a]);
    }
    if i < last {
        lemma_remove_is_without(shorter, i);
        assert(entries[last].path != path);
        assert(entries.remove(i) =~= shorter.remove(i).push(entries[last]));
    } else {
        lemma_absent_is_without(shorter, path);
        assert(entries.remove(i) =~= shorter);
    }
}

/// Leaving out a path that is not there changes nothing.
pub(crate) proof fn lemma_absent_is_without(entries: Seq<SessionEntryView>, path: PathBuf)
    requires
        forall|i: int| 0 <= i < entries.len() ==> (#[trigger] entries[i]).path != path,
    ensures
        without_path(entries, path) == entries,
    decreases entries.len(),
{
    reveal(Seq::filter);
    if entries.len() > 0 {
        let shorter = entries.drop_last();
        assert forall|i: int| 0 <= i < shorter.len() implies (#[trigger] shorter[i]).path != path by {
            assert(shorter[i] == entries[i]);
        }
        lemma_absent_is_without(shorter, path);
        assert(entries[entries.len() - 1].path != path);
        assert(entries =~= shorter.push(entries.last()));
    } else {
        assert(without_path(entries, path) =~= entries);
    }
}

/// The files that a session changed.
#[derive(Debug)]
pub struct SessionChanges {
    entries: Vec<SessionEntry>,
}

impl View for SessionChanges {
    type V = Seq<SessionEntryView>;

    closed spec fn view(&self) -> Seq<SessionEntryView> {
        entry_views(self.entries@)
    }
}

impl SessionChanges {
    #[verifier::type_invariant]
    spec fn well_formed(&self) -> bool {
        valid_entries(self@)
    }

    /// A session that changed no file.
    pub fn new() -> (changes: Self)
        ensures
            changes@ == Seq::<SessionEntryView>::empty(),
            valid_entries(changes@),
    {
        let changes = SessionChanges { entries: Vec::new() };
        assert(changes@ =~= Seq::empty());
        changes
    }

    /// How many files are followed.
    pub fn len(&self) -> (count: usize)
        ensures
            count == self@.len(),
            valid_entries(self@),
    {
        proof {
            use_type_invariant(self);
        }
        self.entries.len()
    }

    /// Where the entry under `path` stands, if there is one.
    fn position(&self, path: &PathBuf) -> (found: Option<usize>)
        ensures
            match found {
                Some(i) => i < self@.len() && self@[i as int].path == *path,
                None => !has_path(self@, *path),
            },
    {
        let mut i: usize = 0;
        while i < self.entries.len()
            invariant
                0 <= i <= self.entries.len(),
                forall|j: int| 0 <= j < i ==> (#[trigger] self@[j]).path != *path,
            decreases self.entries.len() - i,
        {
            if same_path(&self.entries[i].path, path) {
                assert(self@[i as int].path == *path);
                return Some(i);
            }
            assert(self@[i as int].path != *path);
            i += 1;
        }
        None
    }

    /// The change kept under `path`, if there is one.
    pub fn get(&self, path: &PathBuf) -> (found: Option<&SessionFileChange>)
        ensures
            match found {
                Some(change) => change_at(self@, *path) == Some(change@),
                None => change_at(self@, *path) is None,
            },
    {
        proof {
            use_type_invariant(self);
        }
        match self.position(path) {
            Some(i) => {
                proof {
                    lemma_change_at(self@, i as int);
                }
                Some(&self.entries[i].change)
            },
            None => {
                proof {
                    lemma_no_change_at(self@, *path);
                }
                None
            },
        }
    }

    /// Keeps `change` under `path`. An entry that is there already keeps its own
    /// path, as it is written.
    fn insert(&mut self, path: PathBuf, change: SessionFileChange)
        requires
            change@.valid(),
        ensures
            final(self)@ == with_change(old(self)@, path, change@),
            valid_entries(final(self)@),
    {
        proof {
            use_type_invariant(&*self);
        }
        let ghost before = self@;
        let found = self.position(&path);
        let mut entries: Vec<SessionEntry> = Vec::new();
        std::mem::swap(&mut entries, &mut self.entries);
        match found {
            Some(i) => {
                proof {
                    assert(before[i as int].path == path);
                }
                let kept = copy_path(&entries[i].path);
                entries.set(i, SessionEntry { path: kept, change });
                proof {
                    assert(entry_views(entries@).len() == before.len());
                    assert(entry_views(entries@) =~= with_change(before, path, change@));
                }
            },
            None => {
                entries.push(SessionEntry { path, change });
                proof {
                    assert(entry_views(entries@) =~= before.push(
                        SessionEntryView { path, change: change@ },
                    ));
                    assert(forall|j: int|
                        0 <= j < before.len() ==> (#[trigger] before[j]).path != path);
                }
            },
        }
        self.entries = entries;
    }

    /// Leaves out what is kept under `path`.
    fn remove(&mut self, path: &PathBuf)
        ensures
            final(self)@ == without_path(old(self)@, *path),
            valid_entries(final(self)@),
    {
        proof {
            use_type_invariant(&*self);
        }
        let ghost before = self@;
        match self.position(path) {
            Some(i) => {
                let mut entries: Vec<SessionEntry> = Vec::new();
                std::mem::swap(&mut entries, &mut self.entries);
                let _removed = entries.remove(i);
                proof {
                    assert(entry_views(entries@) =~= before.remove(i as int));
                    lemma_remove_is_without(before, i as int);
                }
                self.entries = entries;
            },
            None => {
                proof {
                    lemma_absent_is_without(before, *path);
                }
            },
        }
    }

    /// Forgets every file.
    pub fn clear_session_file_changes(&mut self)
        ensures
            final(self)@ == Seq::<SessionEntryView>::empty(),
            valid_entries(final(self)@),
    {
        self.entries = Vec::new();
        assert(self@ =~= Seq::empty());
    }

    /// The files that have something to show, with their baselines worked out.
    pub fn session_file_changes(&self) -> (visible: Vec<SessionEntry>)
        ensures
            entry_views(visible@) == visible_entries(self@),
    {
        proof {
            use_type_invariant(self);
        }
        let mut visible: Vec<SessionEntry> = Vec::new();
        let ghost resolve = |entry: SessionEntryView|
            SessionEntryView { path: entry.path, change: entry.change.resolved() };
        let ghost shows = |entry: SessionEntryView| entry.change.changed();
        let mut i: usize = 0;
        proof {
            reveal(Seq::filter);
            assert(entry_views(visible@) =~= self@.take(0).map_values(resolve).filter(shows));
        }
        while i < self.entries.len()
            invariant
                valid_entries(self@),
                0 <= i <= self.entries.len(),
                resolve == (|entry: SessionEntryView|
                    SessionEntryView { path: entry.path, change: entry.change.resolved() }),
                shows == (|entry: SessionEntryView| entry.change.changed()),
                entry_views(visible@) == self@.take(i as int).map_values(resolve).filter(shows),
            decreases self.entries.len() - i,
        {
            let ghost before = entry_views(visible@);
            let entry = &self.entries[i];
            assert(self@[i as int] == entry@);
            let change = if entry.change.baseline_is_inferred() {
                entry.change.resolve_inferred_baseline()
            } else {
                entry.change.clone()
            };
            assert(change@ == entry.change@.resolved());
            let ghost next = self@.take(i + 1).map_values(resolve);
            proof {
                reveal(Seq::filter);
                assert(next.drop_last() =~= self@.take(i as int).map_values(resolve));
                assert(next.last() == resolve(entry@));
            }
            if change.is_changed() {
                visible.push(SessionEntry { path: copy_path(&entry.path), change });
                assert(entry_views(visible@) =~= before.push(next.last()));
            }
            i += 1;
        }
        assert(self@.take(self@.len() as int) =~= self@);
        visible
    }

    /// Takes in the changes that are about to be carried out.
    pub fn begin_changes(&mut self, begun: &Vec<BegunChange>)
        ensures
            final(self)@ == begin_all(old(self)@, begun@),
            valid_entries(final(self)@),
    {
        proof {
            use_type_invariant(&*self);
        }
        let ghost before = self@;
        let mut i: usize = 0;
        while i < begun.len()
            invariant
                0 <= i <= begun.len(),
                self@ == begin_all(before, begun@.take(i as int)),
                valid_entries(self@),
            decreases begun.len() - i,
        {
            let ghost here = self@;
            let next = &begun[i];
            let key = session_change_key(self, &next.path);
            if self.position(&key).is_none() {
                let original_content = match &next.original_content {
                    Some(content) => Some(content.clone()),
                    None => None,
                };
                self.insert(key, SessionFileChange::new(original_content, next.change.clone()));
            }
            proof {
                assert(begun@.take(i + 1).drop_last() =~= begun@.take(i as int));
                assert(begun@.take(i + 1).last() == *next);
            }
            i += 1;
        }
        assert(begun@.take(begun@.len() as int) =~= begun@);
    }

    /// Takes in that changes were given up.
    pub fn abandon_changes(&mut self, observed: &Vec<ObservedChange>)
        ensures
            final(self)@ == abandon_all(old(self)@, observed@),
            valid_entries(final(self)@),
    {
        proof {
            use_type_invariant(&*self);
        }
        let ghost before = self@;
        let mut i: usize = 0;
        while i < observed.len()
            invariant
                0 <= i <= observed.len(),
                self@ == abandon_all(before, observed@.take(i as int)),
                valid_entries(self@),
            decreases observed.len() - i,
        {
            let key = session_change_key(self, &observed[i].path);
            let pending = match self.get(&key) {
                Some(change) => !change.is_completed(),
                None => false,
            };
            if pending {
                self.remove(&key);
            }
            proof {
                assert(observed@.take(i + 1).drop_last() =~= observed@.take(i as int));
                assert(observed@.take(i + 1).last() == observed@[i as int]);
            }
            i += 1;
        }
        assert(observed@.take(observed@.len() as int) =~= observed@);
    }

    /// Takes in that changes were carried out.
    pub fn complete_changes(&mut self, observed: &Vec<ObservedChange>)
        requires
            forall|i: int|
                0 <= i < observed.len() ==> (#[trigger] observed[i]).change@.patchable(),
        ensures
            final(self)@ == complete_all(old(self)@, observed@),
            valid_entries(final(self)@),
    {
        proof {
            use_type_invariant(&*self);
        }
        let ghost before = self@;
        let mut i: usize = 0;
        while i < observed.len()
            invariant
                0 <= i <= observed.len(),
                forall|i: int|
                    0 <= i < observed.len() ==> (#[trigger] observed[i]).change@.patchable(),
                self@ == complete_all(before, observed@.take(i as int)),
                valid_entries(self@),
            decreases observed.len() - i,
        {
            let next = &observed[i];
            let key = session_change_key(self, &next.path);
            let current_content = match &next.current_content {
                Some(content) => Some(content.clone()),
                None => None,
            };
            let session_change = match self.get(&key) {
                Some(existing) => existing.complete(current_content, next.change.clone()),
                None => SessionFileChange::from_completed(current_content, next.change.clone()),
            };
            if session_change.is_changed() {
                self.insert(key, session_change);
            } else {
                self.remove(&key);
            }
            proof {
                assert(observed@.take(i + 1).drop_last() =~= observed@.take(i as int));
                assert(observed@.take(i + 1).last() == *next);
            }
            i += 1;
        }
        assert(observed@.take(observed@.len() as int) =~= observed@);
    }
}

/// The path that a file now at `path` is kept under.
pub fn session_change_key(changes: &SessionChanges, path: &PathBuf) -> (key: PathBuf)
    ensures
        key == key_for(changes@, *path),
{
    if changes.position(path).is_some() {
        return copy_path(path);
    }
    let mut i: usize = 0;
    assert(changes@.skip(0) =~= changes@);
    while i < changes.entries.len()
        invariant
            0 <= i <= changes.entries.len(),
            !has_path(changes@, *path),
            moved_from(changes@, *path) == moved_from(changes@.skip(i as int), *path),
        decreases changes.entries.len() - i,
    {
        let entry = &changes.entries[i];
        assert(changes@.skip(i as int)[0] == entry@);
        if entry.change.moved_to(path) {
            return copy_path(&entry.path);
        }
        assert(changes@.skip(i as int).drop_first() =~= changes@.skip(i + 1));
        i += 1;
    }
    copy_path(path)
}

} // verus!
