//! What holds of the files of a session, whatever is reported of them.

use std::path::PathBuf;
use vstd::prelude::*;

use crate::diff_laws::law_late_session_finds_its_baseline;
use crate::diff_model::{content_before, FileChangeView, SessionFileChangeView};
use crate::session_changes::{
    abandon_all, abandon_one, begin_all, begin_one, change_at, complete_all, complete_one, has_path,
    entry_views, key_for, lemma_absent_is_without, lemma_change_at, lemma_no_change_at,
    lemma_remove_is_without, moved_from, path_after, valid_entries, visible_entries, with_change,
    without_path, BegunChange, ObservedChange, SessionEntry, SessionEntryView,
};
use crate::text::opt_text;

verus! {

/// Whether every file that is followed has something to show, or is still
/// waiting for its first change to be carried out.
pub open spec fn nothing_idle(entries: Seq<SessionEntryView>) -> bool {
    forall|i: int|
        0 <= i < entries.len() ==> (#[trigger] entries[i]).change.completed
            ==> entries[i].change.changed()
}

/// A later edit of a file that was moved is kept under the path that the
/// session first knew the file by.
pub proof fn law_later_edit_uses_the_original_key(entries: Seq<SessionEntryView>, i: int)
    requires
        valid_entries(entries),
        0 <= i < entries.len(),
        entries[i].change.move_path is Some,
        !has_path(entries, entries[i].change.move_path->0),
        forall|j: int|
            0 <= j < entries.len() && j != i ==> (#[trigger] entries[j]).change.move_path
                != entries[i].change.move_path,
    ensures
        key_for(entries, entries[i].change.move_path->0) == entries[i].path,
{
    lemma_moved_from(entries, i);
}

/// The one entry that was moved to a path is the one found there.
proof fn lemma_moved_from(entries: Seq<SessionEntryView>, i: int)
    requires
        0 <= i < entries.len(),
        entries[i].change.move_path is Some,
        forall|j: int|
            0 <= j < entries.len() && j != i ==> (#[trigger] entries[j]).change.move_path
                != entries[i].change.move_path,
    ensures
        moved_from(entries, entries[i].change.move_path->0) == Some(entries[i].path),
    decreases entries.len(),
{
    if i > 0 {
        let rest = entries.drop_first();
        assert(entries[0].change.move_path != entries[i].change.move_path);
        assert forall|j: int| 0 <= j < rest.len() && j != i - 1 implies (
        #[trigger] rest[j]).change.move_path != rest[i - 1].change.move_path by {
            assert(rest[j] == entries[j + 1]);
        }
        lemma_moved_from(rest, i - 1);
    }
}

/// What is not left out stays as it was.
proof fn lemma_without_keeps_others(
    entries: Seq<SessionEntryView>,
    gone: PathBuf,
    path: PathBuf,
)
    requires
        path != gone,
    ensures
        change_at(without_path(entries, gone), path) == change_at(entries, path),
    decreases entries.len(),
{
    let keep = |kept: SessionEntryView| kept.path != gone;
    if entries.len() > 0 {
        let rest = entries.drop_first();
        lemma_without_keeps_others(rest, gone, path);
        assert(entries =~= seq![entries[0]] + rest);
        Seq::filter_distributes_over_add(seq![entries[0]], rest, keep);
        reveal(Seq::filter);
        assert(seq![entries[0]].drop_last() =~= Seq::empty());
        assert(Seq::<SessionEntryView>::empty().filter(keep) =~= Seq::empty());
        let head = seq![entries[0]].filter(keep);
        if keep(entries[0]) {
            assert(head =~= seq![entries[0]]);
            assert((head + without_path(rest, gone)).drop_first() =~= without_path(rest, gone));
        } else {
            assert(head =~= Seq::empty());
            assert(head + without_path(rest, gone) =~= without_path(rest, gone));
        }
    } else {
        reveal(Seq::filter);
        assert(without_path(entries, gone) =~= entries);
    }
}

/// Keeping a change under one path leaves the others as they were.
proof fn lemma_with_keeps_others(
    entries: Seq<SessionEntryView>,
    key: PathBuf,
    change: SessionFileChangeView,
    path: PathBuf,
)
    requires
        path != key,
    ensures
        change_at(with_change(entries, key, change), path) == change_at(entries, path),
    decreases entries.len(),
{
    let entry = SessionEntryView { path: key, change };
    if has_path(entries, key) {
        lemma_map_keeps_others(entries, key, entry, path);
    } else {
        lemma_push_keeps_others(entries, entry, path);
    }
}

/// Replacing entries of one path leaves the others as they were.
proof fn lemma_map_keeps_others(
    entries: Seq<SessionEntryView>,
    key: PathBuf,
    entry: SessionEntryView,
    path: PathBuf,
)
    requires
        path != key,
        entry.path == key,
    ensures
        change_at(
            entries.map_values(
                |kept: SessionEntryView|
                    if kept.path == key {
                        entry
                    } else {
                        kept
                    },
            ),
            path,
        ) == change_at(entries, path),
    decreases entries.len(),
{
    let replace = |kept: SessionEntryView|
        if kept.path == key {
            entry
        } else {
            kept
        };
    if entries.len() > 0 {
        lemma_map_keeps_others(entries.drop_first(), key, entry, path);
        assert(entries.map_values(replace).drop_first() =~= entries.drop_first().map_values(replace));
    }
}

/// An entry at the end leaves the others as they were.
proof fn lemma_push_keeps_others(
    entries: Seq<SessionEntryView>,
    entry: SessionEntryView,
    path: PathBuf,
)
    requires
        path != entry.path,
    ensures
        change_at(entries.push(entry), path) == change_at(entries, path),
    decreases entries.len(),
{
    if entries.len() > 0 {
        lemma_push_keeps_others(entries.drop_first(), entry, path);
        assert(entries.push(entry).drop_first() =~= entries.drop_first().push(entry));
    } else {
        assert(entries.push(entry).drop_first() =~= Seq::empty());
        assert(entries.push(entry)[0] == entry);
        assert(change_at(entries.push(entry).drop_first(), path) is None);
    }
}

/// A report on one file leaves the record of every other file as it was.
pub proof fn law_reports_touch_one_file(
    entries: Seq<SessionEntryView>,
    reported: PathBuf,
    change: FileChangeView,
    content: Option<Seq<char>>,
    path: PathBuf,
)
    requires
        path != key_for(entries, reported),
    ensures
        change_at(begin_one(entries, reported, change, content), path) == change_at(entries, path),
        change_at(abandon_one(entries, reported), path) == change_at(entries, path),
        change_at(complete_one(entries, reported, change, content), path) == change_at(
            entries,
            path,
        ),
{
    let key = key_for(entries, reported);
    let begun = SessionEntryView {
        path: key,
        change: SessionFileChangeView::begun(content, change),
    };
    lemma_push_keeps_others(entries, begun, path);
    lemma_without_keeps_others(entries, key, path);
    let next = crate::session_changes::change_after(change_at(entries, key), change, content);
    lemma_with_keeps_others(entries, key, next, path);
}

/// Giving changes up never takes away what was carried out.
pub proof fn law_giving_up_keeps_completed_changes(
    entries: Seq<SessionEntryView>,
    observed: Seq<ObservedChange>,
    path: PathBuf,
)
    requires
        change_at(entries, path) is Some,
        change_at(entries, path)->0.completed,
    ensures
        change_at(abandon_all(entries, observed), path) == change_at(entries, path),
    decreases observed.len(),
{
    if observed.len() > 0 {
        let before = abandon_all(entries, observed.drop_last());
        law_giving_up_keeps_completed_changes(entries, observed.drop_last(), path);
        let key = key_for(before, observed.last().path);
        if key != path {
            lemma_without_keeps_others(before, key, path);
        }
    }
}

/// A change that is begun on a file not followed before, and then given up,
/// leaves the session as it was.
pub proof fn law_giving_up_undoes_the_beginning(
    entries: Seq<SessionEntryView>,
    path: PathBuf,
    change: FileChangeView,
    original: Option<Seq<char>>,
)
    requires
        valid_entries(entries),
        !has_path(entries, key_for(entries, path)),
    ensures
        abandon_one(begin_one(entries, path, change, original), path) == entries,
{
    lemma_key_of_a_new_file(entries, path);
    let entry = SessionEntryView { path, change: SessionFileChangeView::begun(original, change) };
    let begun = entries.push(entry);
    assert(begin_one(entries, path, change, original) == begun);
    assert(begun[entries.len() as int].path == path);
    assert(has_path(begun, path));
    assert forall|i: int, j: int| 0 <= i < j < begun.len() implies (#[trigger] begun[i]).path != (
    #[trigger] begun[j]).path by {
        assert(begun[i] == entries[i]);
        if j < entries.len() {
            assert(begun[j] == entries[j]);
        }
    }
    lemma_change_at(begun, entries.len() as int);
    reveal(Seq::filter);
    assert(begun.drop_last() =~= entries);
    assert forall|i: int| 0 <= i < entries.len() implies (#[trigger] entries[i]).path != path by {}
    lemma_absent_is_without(entries, path);
}

/// A file that is not followed under any path is its own key.
proof fn lemma_key_of_a_new_file(entries: Seq<SessionEntryView>, path: PathBuf)
    requires
        !has_path(entries, key_for(entries, path)),
    ensures
        key_for(entries, path) == path,
        !has_path(entries, path),
{
    if moved_from(entries, path) is Some && !has_path(entries, path) {
        lemma_moved_from_is_followed(entries, path);
    }
}

/// The path that a file was moved from is followed.
proof fn lemma_moved_from_is_followed(entries: Seq<SessionEntryView>, path: PathBuf)
    requires
        moved_from(entries, path) is Some,
    ensures
        has_path(entries, moved_from(entries, path)->0),
    decreases entries.len(),
{
    if entries[0].change.move_path == Some(path) {
        assert(entries[0].path == moved_from(entries, path)->0);
    } else {
        let rest = entries.drop_first();
        lemma_moved_from_is_followed(rest, path);
        let i = choose|i: int|
            0 <= i < rest.len() && (#[trigger] rest[i]).path == moved_from(entries, path)->0;
        assert(entries[i + 1] == rest[i]);
    }
}

/// No report leaves a session following a file that is back where it started.
pub proof fn law_no_idle_file_is_followed(
    entries: Seq<SessionEntryView>,
    path: PathBuf,
    change: FileChangeView,
    content: Option<Seq<char>>,
)
    requires
        nothing_idle(entries),
    ensures
        nothing_idle(begin_one(entries, path, change, content)),
        nothing_idle(abandon_one(entries, path)),
        nothing_idle(complete_one(entries, path, change, content)),
{
    let key = key_for(entries, path);
    lemma_without_keeps_nothing_idle(entries, key);
    let next = crate::session_changes::change_after(change_at(entries, key), change, content);
    if next.changed() {
        let kept = with_change(entries, key, next);
        assert forall|i: int| 0 <= i < kept.len() implies (!(
        #[trigger] kept[i]).change.completed || kept[i].change.changed()) by {
            if i < entries.len() {
                assert(entries[i].change.completed ==> entries[i].change.changed());
            }
        }
    }
}

/// Leaving a path out adds nothing.
proof fn lemma_without_keeps_nothing_idle(entries: Seq<SessionEntryView>, path: PathBuf)
    requires
        nothing_idle(entries),
    ensures
        nothing_idle(without_path(entries, path)),
{
    let keep = |kept: SessionEntryView| kept.path != path;
    let left = without_path(entries, path);
    assert forall|i: int| 0 <= i < left.len() implies (!(
    #[trigger] left[i]).change.completed || left[i].change.changed()) by {
        entries.lemma_filter_contains_rev(keep, left[i]);
        let j = choose|j: int| 0 <= j < entries.len() && entries[j] == left[i];
        assert(entries[j].change.completed ==> entries[j].change.changed());
    }
}

/// What a session shows are changes with a known baseline, each of a file that
/// is followed and has something to show; nothing that has is missing.
pub proof fn law_visible_changes_are_the_changed_ones(entries: Seq<SessionEntryView>)
    ensures
        forall|i: int|
            0 <= i < visible_entries(entries).len() ==> {
                let shown = #[trigger] visible_entries(entries)[i];
                &&& shown.change.changed()
                &&& !shown.change.baseline_inferred
                &&& has_path(entries, shown.path)
            },
        forall|i: int|
            0 <= i < entries.len() && (#[trigger] entries[i]).change.resolved().changed()
                ==> has_path(visible_entries(entries), entries[i].path),
{
    let resolve = |entry: SessionEntryView|
        SessionEntryView { path: entry.path, change: entry.change.resolved() };
    let shows = |entry: SessionEntryView| entry.change.changed();
    let all = entries.map_values(resolve);
    let visible = visible_entries(entries);
    assert(visible == all.filter(shows));
    assert forall|i: int| 0 <= i < visible.len() implies {
        let shown = #[trigger] visible[i];
        &&& shown.change.changed()
        &&& !shown.change.baseline_inferred
        &&& has_path(entries, shown.path)
    } by {
        all.lemma_filter_pred(shows, i);
        all.lemma_filter_contains_rev(shows, visible[i]);
        let j = choose|j: int| 0 <= j < all.len() && all[j] == visible[i];
        assert(all[j] == resolve(entries[j]));
        assert(entries[j].path == visible[i].path);
        assert(shows(visible[i]));
    }
    assert forall|i: int|
        0 <= i < entries.len() && (
        #[trigger] entries[i]).change.resolved().changed() implies has_path(
        visible,
        entries[i].path,
    ) by {
        assert(all[i] == resolve(entries[i]));
        assert(all.contains(all[i]));
        assert(shows(all[i]));
        all.lemma_filter_contains(shows, i);
        let j = choose|j: int| 0 <= j < visible.len() && visible[j] == all[i];
        assert(visible[j].path == entries[i].path);
    }
}

/// A change that has begun does not alter what a session shows.
pub proof fn law_beginning_shows_nothing(
    entries: Seq<SessionEntryView>,
    path: PathBuf,
    change: FileChangeView,
    original: Option<Seq<char>>,
)
    ensures
        visible_entries(begin_one(entries, path, change, original)) == visible_entries(entries),
{
    let key = key_for(entries, path);
    if !has_path(entries, key) {
        let entry = SessionEntryView {
            path: key,
            change: SessionFileChangeView::begun(original, change),
        };
        lemma_visible_push(entries, entry);
    }
}

/// A change that is given up does not alter what a session shows.
pub proof fn law_giving_up_shows_nothing(entries: Seq<SessionEntryView>, path: PathBuf)
    requires
        valid_entries(entries),
    ensures
        visible_entries(abandon_one(entries, path)) == visible_entries(entries),
{
    let key = key_for(entries, path);
    match change_at(entries, key) {
        Some(change) => if !change.completed {
            assert forall|i: int|
                0 <= i < entries.len() && (
                #[trigger] entries[i]).path == key implies !entries[i].change.completed by {
                lemma_change_at(entries, i);
            }
            lemma_visible_without(entries, key);
        },
        None => {},
    }
}

/// One more entry is shown where it has something to show.
proof fn lemma_visible_push(entries: Seq<SessionEntryView>, entry: SessionEntryView)
    ensures
        visible_entries(entries.push(entry)) == if entry.change.resolved().changed() {
            visible_entries(entries).push(
                SessionEntryView { path: entry.path, change: entry.change.resolved() },
            )
        } else {
            visible_entries(entries)
        },
{
    let resolve = |entry: SessionEntryView|
        SessionEntryView { path: entry.path, change: entry.change.resolved() };
    let shows = |entry: SessionEntryView| entry.change.changed();
    assert(entries.push(entry).map_values(resolve) =~= entries.map_values(resolve).push(
        resolve(entry),
    ));
    entries.map_values(resolve).lemma_filter_push(resolve(entry), shows);
}

/// Leaving out what is not carried out leaves what is shown as it was.
proof fn lemma_visible_without(entries: Seq<SessionEntryView>, path: PathBuf)
    requires
        forall|i: int|
            0 <= i < entries.len() && (#[trigger] entries[i]).path == path
                ==> !entries[i].change.completed,
    ensures
        visible_entries(without_path(entries, path)) == visible_entries(entries),
    decreases entries.len(),
{
    let keep = |kept: SessionEntryView| kept.path != path;
    if entries.len() == 0 {
        reveal(Seq::filter);
        assert(without_path(entries, path) =~= entries);
    } else {
        let rest = entries.drop_last();
        let last = entries.last();
        assert(last == entries[entries.len() - 1]);
        assert(forall|i: int| 0 <= i < rest.len() ==> #[trigger] rest[i] == entries[i]);
        lemma_visible_without(rest, path);
        assert(entries =~= rest.push(last));
        rest.lemma_filter_push(last, keep);
        lemma_visible_push(rest, last);
        lemma_visible_push(without_path(rest, path), last);
    }
}

/// What is kept under a path is what was put there.
proof fn lemma_with_holds_the_change(
    entries: Seq<SessionEntryView>,
    path: PathBuf,
    change: SessionFileChangeView,
)
    ensures
        change_at(with_change(entries, path, change), path) == Some(change),
        has_path(with_change(entries, path, change), path),
{
    let entry = SessionEntryView { path, change };
    let kept = with_change(entries, path, change);
    if has_path(entries, path) {
        let i = choose|i: int| 0 <= i < entries.len() && (#[trigger] entries[i]).path == path;
        assert(kept[i] == entry);
        lemma_first_of_path(kept, path, change);
    } else {
        assert(kept[entries.len() as int] == entry);
        lemma_first_of_path(kept, path, change);
    }
}

/// Where every entry under a path holds one change, that change is found there.
proof fn lemma_first_of_path(
    entries: Seq<SessionEntryView>,
    path: PathBuf,
    change: SessionFileChangeView,
)
    requires
        has_path(entries, path),
        forall|i: int|
            0 <= i < entries.len() && (#[trigger] entries[i]).path == path ==> entries[i].change
                == change,
    ensures
        change_at(entries, path) == Some(change),
    decreases entries.len(),
{
    if entries[0].path != path {
        let rest = entries.drop_first();
        let i = choose|i: int| 0 <= i < entries.len() && (#[trigger] entries[i]).path == path;
        assert(rest[i - 1] == entries[i]);
        assert forall|j: int|
            0 <= j < rest.len() && (#[trigger] rest[j]).path == path implies rest[j].change
            == change by {
            assert(rest[j] == entries[j + 1]);
        }
        lemma_first_of_path(rest, path, change);
    }
}

/// What is left out is not found any more.
proof fn lemma_without_is_gone(entries: Seq<SessionEntryView>, path: PathBuf)
    ensures
        !has_path(without_path(entries, path), path),
        change_at(without_path(entries, path), path) is None,
{
    let keep = |kept: SessionEntryView| kept.path != path;
    let left = without_path(entries, path);
    assert forall|i: int| 0 <= i < left.len() implies (#[trigger] left[i]).path != path by {
        entries.lemma_filter_pred(keep, i);
    }
    lemma_no_change_at(left, path);
}

/// A file is known by its own path where that is followed, by the path of the
/// first file that was moved there where one was, and by its own path otherwise.
pub proof fn law_files_are_known_by_their_first_path(
    entries: Seq<SessionEntryView>,
    path: PathBuf,
)
    ensures
        has_path(entries, path) ==> key_for(entries, path) == path,
        !has_path(entries, path) && (exists|i: int|
            0 <= i < entries.len() && (#[trigger] entries[i]).change.move_path == Some(path))
            ==> exists|i: int|
            {
                &&& 0 <= i < entries.len()
                &&& (#[trigger] entries[i]).change.move_path == Some(path)
                &&& entries[i].path == key_for(entries, path)
                &&& forall|j: int|
                    0 <= j < i ==> (#[trigger] entries[j]).change.move_path != Some(path)
            },
        (forall|i: int|
            0 <= i < entries.len() ==> (#[trigger] entries[i]).change.move_path != Some(path))
            ==> key_for(entries, path) == path,
{
    lemma_moved_from_some(entries, path);
}

/// The path that a file was moved from is that of an entry that was moved there.
proof fn lemma_moved_from_some(entries: Seq<SessionEntryView>, path: PathBuf)
    ensures
        moved_from(entries, path) is Some <==> exists|i: int|
            0 <= i < entries.len() && (#[trigger] entries[i]).change.move_path == Some(path),
        moved_from(entries, path) is Some ==> exists|i: int|
            {
                &&& 0 <= i < entries.len()
                &&& (#[trigger] entries[i]).change.move_path == Some(path)
                &&& entries[i].path == moved_from(entries, path)->0
                &&& forall|j: int|
                    0 <= j < i ==> (#[trigger] entries[j]).change.move_path != Some(path)
            },
    decreases entries.len(),
{
    if entries.len() > 0 {
        if entries[0].change.move_path != Some(path) {
            let rest = entries.drop_first();
            lemma_moved_from_some(rest, path);
            assert(forall|j: int| 0 <= j < rest.len() ==> #[trigger] rest[j] == entries[j + 1]);
            assert(forall|i: int| 1 <= i < entries.len() ==> #[trigger] entries[i] == rest[i - 1]);
            if moved_from(rest, path) is Some {
                let j = choose|j: int|
                    {
                        &&& 0 <= j < rest.len()
                        &&& (#[trigger] rest[j]).change.move_path == Some(path)
                        &&& rest[j].path == moved_from(rest, path)->0
                        &&& forall|k: int|
                            0 <= k < j ==> (#[trigger] rest[k]).change.move_path != Some(path)
                    };
                assert(entries[j + 1] == rest[j]);
                assert forall|k: int| 0 <= k < j + 1 implies (
                #[trigger] entries[k]).change.move_path != Some(path) by {
                    if k > 0 {
                        assert(rest[k - 1] == entries[k]);
                    }
                }
            }
            if exists|i: int|
                0 <= i < entries.len() && (#[trigger] entries[i]).change.move_path == Some(path) {
                let i = choose|i: int|
                    0 <= i < entries.len() && (#[trigger] entries[i]).change.move_path == Some(
                        path,
                    );
                assert(rest[i - 1] == entries[i]);
            }
        }
    }
}

/// A change that begins on a file not followed before holds what the file held;
/// a file that is followed keeps its record.
pub proof fn law_beginning_follows_the_file(
    entries: Seq<SessionEntryView>,
    path: PathBuf,
    report: FileChangeView,
    original: Option<Seq<char>>,
)
    ensures
        ({
            let key = key_for(entries, path);
            let after = begin_one(entries, path, report, original);
            &&& has_path(after, key)
            &&& has_path(entries, key) ==> after == entries
            &&& !has_path(entries, key) ==> {
                &&& change_at(after, key) matches Some(begun)
                &&& begun.original == original
                &&& begun.current == original
                &&& begun.fallback == report
                &&& !begun.completed
                &&& !begun.baseline_inferred
            }
        }),
{
    let key = key_for(entries, path);
    if !has_path(entries, key) {
        lemma_with_holds_the_change(entries, key, SessionFileChangeView::begun(original, report));
    }
}

/// A change that is given up goes where it was pending, and nothing happens
/// otherwise.
pub proof fn law_giving_up_drops_what_is_pending(entries: Seq<SessionEntryView>, path: PathBuf)
    ensures
        ({
            let key = key_for(entries, path);
            let after = abandon_one(entries, path);
            &&& change_at(entries, key) is None ==> after == entries
            &&& change_at(entries, key) is Some && change_at(entries, key)->0.completed ==> after
                == entries
            &&& change_at(entries, key) is Some && !change_at(entries, key)->0.completed
                ==> change_at(after, key) is None
        }),
{
    lemma_without_is_gone(entries, key_for(entries, path));
}

/// A change that was carried out adds to the record of a file that is followed,
/// and begins one for a file that is not. A record that is kept has something to
/// show, and one that has is kept.
pub proof fn law_completing_extends_the_entry(
    entries: Seq<SessionEntryView>,
    path: PathBuf,
    report: FileChangeView,
    observed: Option<Seq<char>>,
)
    ensures
        ({
            let key = key_for(entries, path);
            let before = change_at(entries, key);
            let after = change_at(complete_one(entries, path, report, observed), key);
            &&& after is Some ==> {
                let kept = after->0;
                &&& kept.completed
                &&& kept.fallback == report
                &&& kept.original != kept.current || kept.move_path is Some
                    || kept.reconstruction_unavailable
                &&& before is Some ==> {
                    &&& kept.original == before->0.original
                    &&& kept.baseline_inferred == before->0.baseline_inferred
                    &&& kept.baseline_inferred ==> kept.inferred_changes
                        == before->0.inferred_changes.push(report)
                    &&& !kept.baseline_inferred ==> kept.inferred_changes
                        == before->0.inferred_changes
                }
                &&& before is None ==> {
                    &&& kept.original is None
                    &&& kept.baseline_inferred
                    &&& kept.inferred_changes == seq![report]
                }
            }
            &&& report.moves_to() is Some ==> after is Some
            &&& before is Some && before->0.completed_by(observed, report).changed() ==> after
                == Some(before->0.completed_by(observed, report))
            &&& before is Some && !before->0.completed_by(observed, report).changed() ==> after
                is None
            &&& before is None && observed is Some ==> after is Some && after->0.current
                == observed
            &&& before is None && observed is None ==> match report {
                FileChangeView::Add { content } => after is Some && after->0.current == Some(
                    content,
                ),
                FileChangeView::Delete { .. } => after is None,
                FileChangeView::Update { .. } => after is Some
                    && after->0.reconstruction_unavailable,
            }
        }),
{
    let key = key_for(entries, path);
    let next = crate::session_changes::change_after(change_at(entries, key), report, observed);
    lemma_with_holds_the_change(entries, key, next);
    lemma_without_is_gone(entries, key);
}

/// Reports are taken in one by one, in order: two runs of them come to the same
/// as one run of both.
pub proof fn law_reports_are_taken_in_one_by_one(
    entries: Seq<SessionEntryView>,
    begun: Seq<BegunChange>,
    more_begun: Seq<BegunChange>,
    observed: Seq<ObservedChange>,
    more_observed: Seq<ObservedChange>,
)
    ensures
        begin_all(entries, begun + more_begun) == begin_all(begin_all(entries, begun), more_begun),
        abandon_all(entries, observed + more_observed) == abandon_all(
            abandon_all(entries, observed),
            more_observed,
        ),
        complete_all(entries, observed + more_observed) == complete_all(
            complete_all(entries, observed),
            more_observed,
        ),
    decreases more_begun.len() + more_observed.len(),
{
    if more_begun.len() > 0 {
        assert((begun + more_begun).drop_last() =~= begun + more_begun.drop_last());
        law_reports_are_taken_in_one_by_one(
            entries,
            begun,
            more_begun.drop_last(),
            observed,
            more_observed,
        );
    } else {
        assert(begun + more_begun =~= begun);
        if more_observed.len() > 0 {
            assert((observed + more_observed).drop_last() =~= observed
                + more_observed.drop_last());
            law_reports_are_taken_in_one_by_one(
                entries,
                begun,
                more_begun,
                observed,
                more_observed.drop_last(),
            );
        } else {
            assert(observed + more_observed =~= observed);
        }
    }
}

/// One report is taken in as what it says of its file, and none changes nothing.
pub proof fn law_each_report_is_taken_in(
    entries: Seq<SessionEntryView>,
    begun: BegunChange,
    observed: ObservedChange,
)
    ensures
        begin_all(entries, Seq::empty()) == entries,
        abandon_all(entries, Seq::empty()) == entries,
        complete_all(entries, Seq::empty()) == entries,
        begin_all(entries, seq![begun]) == begin_one(
            entries,
            begun.path,
            begun.change@,
            opt_text(begun.original_content),
        ),
        abandon_all(entries, seq![observed]) == abandon_one(entries, observed.path),
        complete_all(entries, seq![observed]) == complete_one(
            entries,
            observed.path,
            observed.change@,
            opt_text(observed.current_content),
        ),
{
    assert(seq![begun].drop_last() =~= Seq::empty());
    assert(seq![observed].drop_last() =~= Seq::empty());
}

/// The changes that a run of reports names.
pub open spec fn reported_changes(run: Seq<ObservedChange>) -> Seq<FileChangeView> {
    run.map_values(|observed: ObservedChange| observed.change@)
}

/// A session that first hears of a file once it was changed records every change
/// that follows, in order, as long as the file is followed.
pub proof fn law_late_session_records_every_change(
    entries: Seq<SessionEntryView>,
    path: PathBuf,
    run: Seq<ObservedChange>,
)
    requires
        !has_path(entries, path),
        key_for(entries, path) == path,
        run.len() > 0,
        forall|i: int| 0 <= i < run.len() ==> (#[trigger] run[i]).path == path,
        forall|k: int|
            1 <= k <= run.len() ==> has_path(complete_all(entries, #[trigger] run.take(k)), path),
    ensures
        change_at(complete_all(entries, run), path) matches Some(kept) && {
            &&& kept.completed
            &&& kept.baseline_inferred
            &&& kept.original is None
            &&& kept.inferred_changes == reported_changes(run)
            &&& kept.fallback == run.last().change@
        },
    decreases run.len(),
{
    let earlier = run.drop_last();
    let last = run.last();
    assert(last == run[run.len() - 1]);
    let before = complete_all(entries, earlier);
    let observed = opt_text(last.current_content);
    assert(run.take(run.len() as int) =~= run);
    assert(has_path(complete_all(entries, run.take(run.len() as int)), path));
    if earlier.len() > 0 {
        assert(forall|i: int| 0 <= i < earlier.len() ==> #[trigger] earlier[i] == run[i]);
        assert forall|k: int| 1 <= k <= earlier.len() implies has_path(
            complete_all(entries, #[trigger] earlier.take(k)),
            path,
        ) by {
            assert(earlier.take(k) =~= run.take(k));
        }
        law_late_session_records_every_change(entries, path, earlier);
        assert(earlier =~= run.take(earlier.len() as int));
        assert(has_path(before, path));
        assert(reported_changes(run) =~= reported_changes(earlier).push(last.change@));
    } else {
        assert(before == entries);
        lemma_no_change_at(entries, path);
        assert(reported_changes(run) =~= seq![last.change@]);
    }
    assert(key_for(before, path) == path);
    law_completing_extends_the_entry(before, path, last.change@, observed);
    lemma_no_change_at(complete_one(before, path, last.change@, observed), path);
}

/// A session that first hears of a file once it was changed shows it from what it
/// held before the first of those changes, wherever each of them can be undone
/// from the content that it left.
pub proof fn law_late_session_shows_every_change(
    entries: Seq<SessionEntryView>,
    path: PathBuf,
    run: Seq<ObservedChange>,
    contents: Seq<Option<Seq<char>>>,
)
    requires
        !has_path(entries, path),
        key_for(entries, path) == path,
        run.len() > 0,
        forall|i: int| 0 <= i < run.len() ==> (#[trigger] run[i]).path == path,
        forall|i: int| 0 <= i < run.len() ==> (#[trigger] run[i]).change@.patchable(),
        forall|k: int|
            1 <= k <= run.len() ==> has_path(complete_all(entries, #[trigger] run.take(k)), path),
        contents.len() == run.len() + 1,
        change_at(complete_all(entries, run), path) matches Some(kept) && kept.current
            == contents.last(),
        forall|i: int|
            0 <= i < run.len() ==> content_before(
                contents[i + 1],
                (#[trigger] run[i]).change@,
            ) == Ok::<_, ()>(contents[i]),
        contents[0] != contents.last(),
    ensures
        exists|i: int|
            {
                &&& 0 <= i < visible_entries(complete_all(entries, run)).len()
                &&& (#[trigger] visible_entries(complete_all(entries, run))[i]).path == path
                &&& visible_entries(complete_all(entries, run))[i].change.original == contents[0]
                &&& visible_entries(complete_all(entries, run))[i].change.current
                    == contents.last()
                &&& !visible_entries(
                    complete_all(entries, run),
                )[i].change.reconstruction_unavailable
            },
{
    law_late_session_records_every_change(entries, path, run);
    let after = complete_all(entries, run);
    let kept = change_at(after, path)->0;
    assert(kept.valid()) by {
        assert forall|i: int| 0 <= i < kept.inferred_changes.len() implies (
        #[trigger] kept.inferred_changes[i]).patchable() by {
            assert(kept.inferred_changes[i] == run[i].change@);
        }
    }
    assert forall|i: int| 0 <= i < kept.inferred_changes.len() implies content_before(
        contents[i + 1],
        #[trigger] kept.inferred_changes[i],
    ) == Ok::<_, ()>(contents[i]) by {
        assert(kept.inferred_changes[i] == run[i].change@);
    }
    law_late_session_finds_its_baseline(kept, contents);
    let i = lemma_found_entry(after, path);
    law_visible_changes_are_shown_as_resolved(after, i);
}

/// Where the change under a path stands.
proof fn lemma_found_entry(entries: Seq<SessionEntryView>, path: PathBuf) -> (i: int)
    requires
        change_at(entries, path) is Some,
    ensures
        0 <= i < entries.len(),
        entries[i].path == path,
        entries[i].change == change_at(entries, path)->0,
    decreases entries.len(),
{
    if entries[0].path == path {
        0
    } else {
        let j = lemma_found_entry(entries.drop_first(), path);
        j + 1
    }
}

/// A file that has something to show is shown under its path, with its baseline
/// worked out and otherwise as it is kept.
pub proof fn law_visible_changes_are_shown_as_resolved(entries: Seq<SessionEntryView>, i: int)
    requires
        0 <= i < entries.len(),
        entries[i].change.resolved().changed(),
    ensures
        exists|j: int|
            {
                &&& 0 <= j < visible_entries(entries).len()
                &&& (#[trigger] visible_entries(entries)[j]).path == entries[i].path
                &&& visible_entries(entries)[j].change == entries[i].change.resolved()
            },
{
    let resolve = |entry: SessionEntryView|
        SessionEntryView { path: entry.path, change: entry.change.resolved() };
    let shows = |entry: SessionEntryView| entry.change.changed();
    let all = entries.map_values(resolve);
    let visible = visible_entries(entries);
    assert(visible == all.filter(shows));
    assert(all[i] == resolve(entries[i]));
    assert(shows(all[i]));
    all.lemma_filter_contains(shows, i);
    let j = choose|j: int| 0 <= j < visible.len() && visible[j] == all[i];
    assert(visible[j].path == entries[i].path);
}

/// Every change that is shown is that of a file that is followed, with its
/// baseline worked out; and no file is shown twice.
pub proof fn law_nothing_else_is_shown(entries: Seq<SessionEntryView>)
    requires
        valid_entries(entries),
    ensures
        forall|j: int|
            0 <= j < visible_entries(entries).len() ==> exists|i: int|
                {
                    &&& 0 <= i < entries.len()
                    &&& (#[trigger] entries[i]).path == (
                    #[trigger] visible_entries(entries)[j]).path
                    &&& entries[i].change.resolved() == visible_entries(entries)[j].change
                },
        forall|a: int, b: int|
            0 <= a < b < visible_entries(entries).len() ==> (#[trigger] visible_entries(
                entries,
            )[a]).path != (#[trigger] visible_entries(entries)[b]).path,
    decreases entries.len(),
{
    if entries.len() == 0 {
        reveal(Seq::filter);
        assert(visible_entries(entries) =~= Seq::empty());
    } else {
        let rest = entries.drop_last();
        let last = entries.last();
        assert(last == entries[entries.len() - 1]);
        assert forall|a: int, b: int| 0 <= a < b < rest.len() implies (#[trigger] rest[a]).path != (
        #[trigger] rest[b]).path by {
            assert(rest[a] == entries[a] && rest[b] == entries[b]);
        }
        assert forall|a: int| 0 <= a < rest.len() implies (#[trigger] rest[a]).change.valid() by {
            assert(rest[a] == entries[a]);
        }
        law_nothing_else_is_shown(rest);
        assert(entries =~= rest.push(last));
        lemma_visible_push(rest, last);
        let visible = visible_entries(entries);
        let earlier = visible_entries(rest);
        assert forall|j: int| 0 <= j < visible.len() implies exists|i: int|
            {
                &&& 0 <= i < entries.len()
                &&& (#[trigger] entries[i]).path == (#[trigger] visible[j]).path
                &&& entries[i].change.resolved() == visible[j].change
            } by {
            if j < earlier.len() {
                let i = choose|i: int|
                    {
                        &&& 0 <= i < rest.len()
                        &&& (#[trigger] rest[i]).path == earlier[j].path
                        &&& rest[i].change.resolved() == earlier[j].change
                    };
                assert(entries[i] == rest[i]);
            } else {
                assert(entries[entries.len() - 1].path == visible[j].path);
            }
        }
        assert forall|a: int, b: int| 0 <= a < b < visible.len() implies (
        #[trigger] visible[a]).path != (#[trigger] visible[b]).path by {
            assert(visible[a] == earlier[a]);
            if b == earlier.len() {
                let i = choose|i: int|
                    {
                        &&& 0 <= i < rest.len()
                        &&& (#[trigger] rest[i]).path == earlier[a].path
                        &&& rest[i].change.resolved() == earlier[a].change
                    };
                assert(entries[i].path != entries[entries.len() - 1].path);
            } else {
                assert(visible[b] == earlier[b]);
            }
        }
    }
}

/// A file is read where a change moved it, and where it was otherwise.
pub proof fn law_files_are_read_where_they_went(
    path: PathBuf,
    destination: PathBuf,
    unified_diff: Seq<char>,
    content: Seq<char>,
)
    ensures
        path_after(
            path,
            FileChangeView::Update { unified_diff, move_path: Some(destination) },
        ) == destination,
        path_after(path, FileChangeView::Update { unified_diff, move_path: None }) == path,
        path_after(path, FileChangeView::Add { content }) == path,
        path_after(path, FileChangeView::Delete { content }) == path,
{
}

/// Every record keeps its place: a file that is first heard of comes last, one
/// that is followed stays where it is, and one that goes leaves the others in
/// order.
pub proof fn law_records_keep_their_places(
    entries: Seq<SessionEntryView>,
    path: PathBuf,
    report: FileChangeView,
    content: Option<Seq<char>>,
    i: int,
)
    requires
        valid_entries(entries),
    ensures
        ({
            let key = key_for(entries, path);
            let begun = begin_one(entries, path, report, content);
            let given_up = abandon_one(entries, path);
            let completed = complete_one(entries, path, report, content);
            &&& !has_path(entries, key) ==> {
                &&& begun.drop_last() == entries
                &&& begun.last().path == key
                &&& given_up == entries
                &&& completed == entries || completed.drop_last() == entries
                    && completed.last().path == key
            }
            &&& 0 <= i < entries.len() && entries[i].path == key ==> {
                &&& begun == entries
                &&& given_up == entries || given_up == entries.remove(i)
                &&& completed == entries.remove(i) || {
                    &&& completed.len() == entries.len()
                    &&& completed[i].path == key
                    &&& forall|j: int|
                        0 <= j < entries.len() && j != i ==> #[trigger] completed[j] == entries[j]
                }
            }
        }),
{
    let key = key_for(entries, path);
    let next = crate::session_changes::change_after(change_at(entries, key), report, content);
    lemma_no_change_at(entries, key);
    if !has_path(entries, key) {
        assert forall|j: int| 0 <= j < entries.len() implies (#[trigger] entries[j]).path != key by {}
        lemma_absent_is_without(entries, key);
        assert(begin_one(entries, path, report, content).drop_last() =~= entries);
        assert(with_change(entries, key, next).drop_last() =~= entries);
    }
    if 0 <= i < entries.len() && entries[i].path == key {
        assert(has_path(entries, key));
        lemma_remove_is_without(entries, i);
        let kept = with_change(entries, key, next);
        assert forall|j: int| 0 <= j < entries.len() && j != i implies #[trigger] kept[j]
            == entries[j] by {
            assert(entries[j].path != entries[i].path);
        }
    }
}

/// Files are shown in the order in which they are kept: one more comes last where
/// it has something to show, and otherwise adds nothing.
pub proof fn law_files_are_shown_in_order(entries: Seq<SessionEntryView>, entry: SessionEntryView)
    ensures
        visible_entries(Seq::empty()) == Seq::<SessionEntryView>::empty(),
        entry.change.resolved().changed() ==> visible_entries(entries.push(entry))
            == visible_entries(entries).push(
            SessionEntryView { path: entry.path, change: entry.change.resolved() },
        ),
        !entry.change.resolved().changed() ==> visible_entries(entries.push(entry))
            == visible_entries(entries),
{
    lemma_visible_push(entries, entry);
    reveal(Seq::filter);
    assert(visible_entries(Seq::empty()) =~= Seq::<SessionEntryView>::empty());
}

/// What is said of the files of a session tells their paths and their changes.
pub proof fn law_entries_are_told_as_they_are(entries: Seq<SessionEntry>, i: int)
    requires
        0 <= i < entries.len(),
    ensures
        entry_views(entries).len() == entries.len(),
        entry_views(entries)[i].path == entries[i].path,
        entry_views(entries)[i].change == entries[i].change@,
{
}

} // verus!
