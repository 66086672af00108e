//! What holds of session changes whatever is done to a file.

use std::path::PathBuf;
use vstd::prelude::*;

use crate::context_search::{left_after, Radii};
use crate::diff_model::{
    change_views, content_after, content_before, content_before_all, feed_count, is_diff, judged, line_count,
    searches, settles, tries, FileChange, FileChangeView, SessionFileChangeView,
};
use crate::line_diff::{break_count, new_side, old_side, time_limit, unified_text, LineDiff};
use crate::patches::{line_numbers_fit, patched, unpatched};

verus! {

/// One change that was carried out, with the content that was seen afterwards.
pub struct Step {
    pub observed: Option<Seq<char>>,
    pub change: FileChangeView,
}

/// A session change after a run of changes was carried out.
pub open spec fn completed_by_all(change: SessionFileChangeView, steps: Seq<Step>) ->
    SessionFileChangeView
    decreases steps.len(),
{
    if steps.len() == 0 {
        change
    } else {
        completed_by_all(change, steps.drop_last()).completed_by(
            steps.last().observed,
            steps.last().change,
        )
    }
}

/// However many changes follow, a session keeps the content that it first saw,
/// and what it once could not reconstruct stays unreconstructed. What it joined
/// late it goes on recording, change by change.
pub proof fn law_baseline_is_kept(change: SessionFileChangeView, steps: Seq<Step>)
    ensures
        completed_by_all(change, steps).original == change.original,
        completed_by_all(change, steps).baseline_inferred == change.baseline_inferred,
        change.reconstruction_unavailable ==> completed_by_all(
            change,
            steps,
        ).reconstruction_unavailable,
        change.baseline_inferred ==> completed_by_all(change, steps).inferred_changes
            == change.inferred_changes + steps.map_values(|step: Step| step.change),
        !change.baseline_inferred ==> completed_by_all(change, steps).inferred_changes
            == change.inferred_changes,
    decreases steps.len(),
{
    let reported = steps.map_values(|step: Step| step.change);
    if steps.len() == 0 {
        assert(change.inferred_changes + reported =~= change.inferred_changes);
    } else {
        law_baseline_is_kept(change, steps.drop_last());
        let earlier = steps.drop_last().map_values(|step: Step| step.change);
        assert(change.inferred_changes + reported =~= (change.inferred_changes + earlier).push(
            steps.last().change,
        ));
    }
}

/// A change that was not carried out yet is not visible.
pub proof fn law_pending_change_is_not_visible(
    original: Option<Seq<char>>,
    fallback: FileChangeView,
)
    ensures
        !SessionFileChangeView::begun(original, fallback).changed(),
{
}

/// A file that was not there when the session began, and that the session
/// followed without fail and never moved, is not visible once it is deleted.
pub proof fn law_added_then_deleted_is_not_visible(
    change: SessionFileChangeView,
    observed: Option<Seq<char>>,
    content: Seq<char>,
)
    requires
        change.original is None,
        !change.baseline_inferred,
        change.move_path is None,
        !change.reconstruction_unavailable,
    ensures
        !change.completed_by(observed, FileChangeView::Delete { content }).changed(),
{
}

/// A move is visible, whatever it does to the content, and stays so however
/// many updates and deletions follow. Until one of them moves the file again,
/// the file is where it was moved.
pub proof fn law_move_is_visible_and_kept(
    change: SessionFileChangeView,
    move_step: Step,
    later: Seq<Step>,
)
    requires
        move_step.change.moves_to() is Some,
        forall|i: int| 0 <= i < later.len() ==> !((#[trigger] later[i]).change is Add),
    ensures
        ({
            let moved = change.completed_by(move_step.observed, move_step.change);
            let after = completed_by_all(moved, later);
            &&& moved.changed()
            &&& moved.move_path == move_step.change.moves_to()
            &&& after.changed()
            &&& (forall|i: int|
                0 <= i < later.len() ==> (#[trigger] later[i]).change.moves_to() is None)
                ==> after.move_path == move_step.change.moves_to()
        }),
    decreases later.len(),
{
    let moved = change.completed_by(move_step.observed, move_step.change);
    if later.len() > 0 {
        let earlier = later.drop_last();
        assert(forall|i: int| 0 <= i < earlier.len() ==> #[trigger] earlier[i] == later[i]);
        law_move_is_visible_and_kept(change, move_step, earlier);
        assert(later.last() == later[later.len() - 1]);
        lemma_move_path_is_kept(completed_by_all(moved, earlier), later.last());
    }
    lemma_moved_stays_moved(moved, later);
}

/// A file that was moved counts as moved after any update or deletion.
proof fn lemma_move_path_is_kept(change: SessionFileChangeView, step: Step)
    requires
        !(step.change is Add),
    ensures
        change.move_path is Some ==> change.completed_by(
            step.observed,
            step.change,
        ).move_path is Some,
        step.change.moves_to() is None ==> change.completed_by(
            step.observed,
            step.change,
        ).move_path == change.move_path,
{
}

/// A file that was moved counts as moved after any run of updates and deletions.
proof fn lemma_moved_stays_moved(change: SessionFileChangeView, steps: Seq<Step>)
    requires
        change.move_path is Some,
        change.completed,
        forall|i: int| 0 <= i < steps.len() ==> !((#[trigger] steps[i]).change is Add),
    ensures
        completed_by_all(change, steps).move_path is Some,
        completed_by_all(change, steps).completed,
    decreases steps.len(),
{
    if steps.len() > 0 {
        let earlier = steps.drop_last();
        assert(forall|i: int| 0 <= i < earlier.len() ==> #[trigger] earlier[i] == steps[i]);
        lemma_moved_stays_moved(change, earlier);
        assert(steps.last() == steps[steps.len() - 1]);
        lemma_move_path_is_kept(completed_by_all(change, earlier), steps.last());
    }
}

/// An update to a file of unknown content, after which nothing was seen, is
/// visible as one that cannot be reconstructed.
pub proof fn law_missing_update_is_unavailable(
    change: SessionFileChangeView,
    update: FileChangeView,
)
    requires
        change.current is None,
        update is Update,
    ensures
        change.completed_by(None, update).reconstruction_unavailable,
        change.completed_by(None, update).changed(),
        SessionFileChangeView::replayed(None, update).reconstruction_unavailable,
        SessionFileChangeView::replayed(None, update).changed(),
{
}

/// What cannot be reconstructed is displayed as it was reported.
pub proof fn law_unavailable_shows_the_report(
    change: SessionFileChangeView,
    context: nat,
    shown: FileChangeView,
)
    requires
        change.reconstruction_unavailable,
        change.displays(context, shown),
    ensures
        shown == change.fallback,
{
}

/// Contents that do not differ are displayed as an update that shows nothing.
pub proof fn law_equal_contents_show_nothing(
    change: SessionFileChangeView,
    context: nat,
    shown: FileChangeView,
)
    requires
        !change.reconstruction_unavailable,
        change.original is Some,
        change.original == change.current,
        change.displays(context, shown),
    ensures
        shown == (FileChangeView::Update {
            unified_diff: Seq::empty(),
            move_path: change.move_path,
        }),
{
    let unified_diff = match shown {
        FileChangeView::Update { unified_diff, .. } => unified_diff,
        _ => Seq::empty(),
    };
    assert(unified_diff =~= Seq::empty());
}

/// Contents that differ are displayed as an update that shows something,
/// however little context it has.
pub proof fn law_different_contents_show_something(
    change: SessionFileChangeView,
    context: nat,
    shown: FileChangeView,
)
    requires
        !change.reconstruction_unavailable,
        change.original is Some,
        change.current is Some,
        change.original != change.current,
        change.displays(context, shown),
    ensures
        shown matches FileChangeView::Update { unified_diff, move_path } && unified_diff.len() > 0
            && move_path == change.move_path,
{
}

/// Undoing two runs of changes in a row is undoing the later run and then the
/// earlier.
pub proof fn law_undoing_goes_backwards(
    current: Option<Seq<char>>,
    earlier: Seq<FileChangeView>,
    later: Seq<FileChangeView>,
)
    ensures
        content_before_all(current, earlier + later) == match content_before_all(current, later) {
            Ok(content) => content_before_all(content, earlier),
            Err(()) => Err(()),
        },
    decreases later.len(),
{
    if later.len() == 0 {
        assert(earlier + later =~= earlier);
    } else {
        assert((earlier + later).drop_last() =~= earlier + later.drop_last());
        match content_before(current, later.last()) {
            Ok(content) => law_undoing_goes_backwards(content, earlier, later.drop_last()),
            Err(()) => {},
        }
    }
}

/// Where each change of a run can be undone from the content that it left, the
/// whole run is undone to the content that it began with.
pub proof fn law_replay_restores_the_beginning(
    contents: Seq<Option<Seq<char>>>,
    changes: Seq<FileChangeView>,
)
    requires
        contents.len() == changes.len() + 1,
        forall|i: int|
            0 <= i < changes.len() ==> content_before(contents[i + 1], #[trigger] changes[i]) == Ok::<
                _,
                (),
            >(contents[i]),
    ensures
        content_before_all(contents.last(), changes) == Ok::<_, ()>(contents[0]),
    decreases changes.len(),
{
    if changes.len() > 0 {
        let n = changes.len() - 1;
        assert(content_before(contents[n + 1], changes[n]) == Ok::<_, ()>(contents[n]));
        assert forall|i: int| 0 <= i < n implies content_before(
            contents.drop_last()[i + 1],
            #[trigger] changes.drop_last()[i],
        ) == Ok::<_, ()>(contents.drop_last()[i]) by {
            assert(changes.drop_last()[i] == changes[i]);
        }
        law_replay_restores_the_beginning(contents.drop_last(), changes.drop_last());
        assert(contents.drop_last().last() == contents[n]);
    }
}

/// The content of a file after a run of changes: `None` where it cannot be told.
pub open spec fn content_after_all(
    current: Option<Seq<char>>,
    changes: Seq<FileChangeView>,
) -> Option<Option<Seq<char>>>
    decreases changes.len(),
{
    if changes.len() == 0 {
        Some(current)
    } else {
        match content_after_all(current, changes.drop_last()) {
            Some(content) => content_after(content, changes.last()),
            None => None,
        }
    }
}

/// Whether a change leads from one content to another and names both: it adds
/// an absent file, deletes what the file held, leaves the content alone, or is a
/// diff that leads from the one to the other and back.
pub open spec fn leads(
    before: Option<Seq<char>>,
    change: FileChangeView,
    after: Option<Seq<char>>,
) -> bool {
    match change {
        FileChangeView::Add { content } => before is None && after == Some(content),
        FileChangeView::Delete { content } => before == Some(content) && after is None,
        FileChangeView::Update { unified_diff, .. } => {
            &&& before is Some
            &&& after is Some
            &&& if unified_diff.len() == 0 {
                before == after
            } else {
                &&& patched(before->0, unified_diff) == after
                &&& unpatched(after->0, unified_diff) == before
            }
        },
    }
}

/// Undoing a run of changes undoes applying it: where each change leads from one
/// content to the next, applying them all to the first content gives the last,
/// and undoing them all from the last gives the first.
pub proof fn law_undoing_undoes_applying(
    contents: Seq<Option<Seq<char>>>,
    changes: Seq<FileChangeView>,
)
    requires
        contents.len() == changes.len() + 1,
        forall|i: int|
            0 <= i < changes.len() ==> leads(
                contents[i],
                #[trigger] changes[i],
                contents[i + 1],
            ),
    ensures
        forall|i: int|
            0 <= i < changes.len() ==> content_after(contents[i], #[trigger] changes[i]) == Some(
                contents[i + 1],
            ),
        content_after_all(contents[0], changes) == Some(contents.last()),
        content_before_all(contents.last(), changes) == Ok::<_, ()>(contents[0]),
{
    assert forall|i: int| 0 <= i < changes.len() implies content_before(
        contents[i + 1],
        #[trigger] changes[i],
    ) == Ok::<_, ()>(contents[i]) by {
        assert(leads(contents[i], changes[i], contents[i + 1]));
    }
    law_replay_restores_the_beginning(contents, changes);
    lemma_applying_reaches_the_end(contents, changes);
}

/// Applying changes that lead from one content to the next reaches the last.
proof fn lemma_applying_reaches_the_end(
    contents: Seq<Option<Seq<char>>>,
    changes: Seq<FileChangeView>,
)
    requires
        contents.len() == changes.len() + 1,
        forall|i: int|
            0 <= i < changes.len() ==> leads(
                contents[i],
                #[trigger] changes[i],
                contents[i + 1],
            ),
    ensures
        content_after_all(contents[0], changes) == Some(contents.last()),
    decreases changes.len(),
{
    if changes.len() > 0 {
        let n = changes.len() - 1;
        assert(leads(contents[n], changes[n], contents[n + 1]));
        assert forall|i: int| 0 <= i < n implies leads(
            contents.drop_last()[i],
            #[trigger] changes.drop_last()[i],
            contents.drop_last()[i + 1],
        ) by {
            assert(changes.drop_last()[i] == changes[i]);
        }
        lemma_applying_reaches_the_end(contents.drop_last(), changes.drop_last());
        assert(contents.drop_last().last() == contents[n]);
    }
}

/// A session that joined late finds the content that the file had before the
/// first change it heard of, wherever each of those changes can be undone.
pub proof fn law_late_session_finds_its_baseline(
    change: SessionFileChangeView,
    contents: Seq<Option<Seq<char>>>,
)
    requires
        change.valid(),
        change.baseline_inferred,
        contents.len() == change.inferred_changes.len() + 1,
        contents.last() == change.current,
        forall|i: int|
            0 <= i < change.inferred_changes.len() ==> content_before(
                contents[i + 1],
                #[trigger] change.inferred_changes[i],
            ) == Ok::<_, ()>(contents[i]),
    ensures
        change.resolved().original == contents[0],
        change.resolved().current == change.current,
        !change.resolved().reconstruction_unavailable,
        change.resolved().changed() == (contents[0] != change.current || change.move_path is Some),
{
    law_replay_restores_the_beginning(contents, change.inferred_changes);
}

/// A file whose first change in a late session was its addition had no content
/// before, wherever the later changes can be undone.
pub proof fn law_replayed_addition_has_an_absent_baseline(change: SessionFileChangeView)
    requires
        change.valid(),
        change.baseline_inferred,
        change.inferred_changes[0] is Add,
        !change.resolved().reconstruction_unavailable,
    ensures
        change.resolved().original is None,
{
    let all = change.inferred_changes;
    assert(all =~= seq![all[0]] + all.drop_first());
    law_undoing_goes_backwards(change.current, seq![all[0]], all.drop_first());
    reveal_with_fuel(content_before_all, 2);
    assert(seq![all[0]].drop_last() =~= Seq::empty());
}

/// An addition and a deletion that a late session heard of come to no change.
pub proof fn law_replayed_addition_and_deletion_collapse(
    observed: Option<Seq<char>>,
    added: Seq<char>,
    deleted: Seq<char>,
)
    ensures
        ({
            let change = SessionFileChangeView::replayed(
                observed,
                FileChangeView::Add { content: added },
            ).completed_by(None, FileChangeView::Delete { content: deleted }).resolved();
            !change.reconstruction_unavailable && !change.changed()
        }),
{
    let addition = FileChangeView::Add { content: added };
    let deletion = FileChangeView::Delete { content: deleted };
    let before = SessionFileChangeView::replayed(observed, addition).completed_by(None, deletion);
    assert(before.inferred_changes =~= seq![addition, deletion]);
    assert(before.inferred_changes.drop_last() =~= seq![addition]);
    assert(seq![addition].drop_last() =~= Seq::empty());
    reveal_with_fuel(content_before_all, 3);
}

/// A baseline is worked out once: doing it again changes nothing.
pub proof fn law_resolving_is_done_once(change: SessionFileChangeView)
    ensures
        change.resolved().resolved() == change.resolved(),
        !change.resolved().baseline_inferred,
        change.resolved().current == change.current,
        change.resolved().move_path == change.move_path,
        change.resolved().completed == change.completed,
{
}

/// What a search has left after its verdicts: the narrowest was found to fit,
/// unless it is the one without context, and the next wider than the widest was
/// found not to, unless it is past the bound.
proof fn lemma_search_closes_in<F: FnMut(&FileChange) -> bool>(
    change: SessionFileChangeView,
    fits: F,
    diff: LineDiff<'_>,
    bound: nat,
    verdicts: Seq<bool>,
)
    requires
        searches(change, fits, diff, bound, verdicts),
    ensures
        ({
            let left = left_after(bound, verdicts);
            &&& left.low <= left.high <= bound
            &&& left.low == 0 || judged(change, fits, diff, left.low, true)
            &&& left.high == bound || judged(change, fits, diff, left.high + 1, false)
        }),
    decreases verdicts.len(),
{
    if verdicts.len() > 0 {
        let earlier = verdicts.drop_last();
        lemma_search_closes_in(change, fits, diff, bound, earlier);
        let left = left_after(bound, earlier);
        assert(left.low < left.middle() <= left.high);
        if !verdicts.last() {
            assert(left.told(false).high + 1 == left.middle());
        }
    }
}

/// No candidate is wider than those worth trying.
pub proof fn law_no_candidate_is_too_wide<F: FnMut(&FileChange) -> bool>(
    change: SessionFileChangeView,
    fits: F,
    diff: LineDiff<'_>,
    bound: nat,
    context: nat,
)
    requires
        tries(change, fits, diff, bound, context),
    ensures
        context <= bound,
{
    if context > 0 {
        let verdicts = choose|verdicts: Seq<bool>|
            {
                let left = left_after(bound, verdicts);
                &&& #[trigger] searches(change, fits, diff, bound, verdicts)
                &&& left.low < left.high
                &&& context == left.middle()
            };
        lemma_search_closes_in(change, fits, diff, bound, verdicts);
    }
}

/// The search ends at a context that was found to fit, unless it is the one
/// without context; and the next wider one was found not to, unless it is past
/// those worth trying. Only a search that was not begun, or that found nothing
/// to fit, ends otherwise.
pub proof fn law_search_ends_where_the_verdict_turns<F: FnMut(&FileChange) -> bool>(
    change: SessionFileChangeView,
    fits: F,
    diff: LineDiff<'_>,
    context: nat,
    max_context: nat,
)
    requires
        settles(change, fits, diff, context, max_context),
    ensures
        context <= change.widest_context(max_context),
        max_context == 0 || judged(change, fits, diff, 0, false) && context == 0 || {
            &&& context == 0 || judged(change, fits, diff, context, true)
            &&& context == change.widest_context(max_context) || judged(
                change,
                fits,
                diff,
                context + 1,
                false,
            )
        },
{
    let bound = change.widest_context(max_context);
    if max_context > 0 && !(judged(change, fits, diff, 0, false) && context == 0) {
        let verdicts = choose|verdicts: Seq<bool>|
            #[trigger] searches(change, fits, diff, bound, verdicts) && left_after(bound, verdicts)
                == (Radii { low: context, high: context });
        lemma_search_closes_in(change, fits, diff, bound, verdicts);
    }
}

/// Where less context always fits better, the search for a context ends at the
/// widest that fits, of those worth trying.
pub proof fn law_search_ends_at_the_widest_context<F: FnMut(&FileChange) -> bool>(
    change: SessionFileChangeView,
    fits: F,
    diff: LineDiff<'_>,
    context: nat,
    max_context: nat,
    holds: spec_fn(nat) -> bool,
)
    requires
        settles(change, fits, diff, context, max_context),
        holds(0),
        forall|narrow: nat, wide: nat|
            narrow <= wide && #[trigger] holds(wide) ==> #[trigger] holds(narrow),
        forall|tried: nat, verdict: bool|
            #[trigger] judged(change, fits, diff, tried, verdict) ==> verdict == holds(tried),
    ensures
        holds(context),
        context <= change.widest_context(max_context),
        forall|wider: nat|
            context < wider <= change.widest_context(max_context) ==> !#[trigger] holds(wider),
{
    law_search_ends_where_the_verdict_turns(change, fits, diff, context, max_context);
    let bound = change.widest_context(max_context);
    assert forall|wider: nat| context < wider <= bound implies !#[trigger] holds(wider) by {
        if holds(wider) {
            assert(holds((context + 1) as nat));
        }
    }
}

/// What a change leaves of a file. An addition and a deletion say it themselves,
/// whatever the file held; an update says it only of a file with a content, and
/// only where its diff, if it has one, can be applied.
pub proof fn law_changes_say_what_they_leave(
    current: Option<Seq<char>>,
    content: Seq<char>,
    unified_diff: Seq<char>,
    move_path: Option<PathBuf>,
)
    ensures
        content_after(current, FileChangeView::Add { content }) == Some(Some(content)),
        content_after(current, FileChangeView::Delete { content }) == Some(None::<Seq<char>>),
        content_after(None, FileChangeView::Update { unified_diff, move_path }) is None,
        unified_diff.len() == 0 ==> content_after(
            Some(content),
            FileChangeView::Update { unified_diff, move_path },
        ) == Some(Some(content)),
        unified_diff.len() > 0 ==> content_after(
            Some(content),
            FileChangeView::Update { unified_diff, move_path },
        ) == match patched(content, unified_diff) {
            Some(left) => Some(Some(left)),
            None => None,
        },
{
}

/// What a file held before a change. Before an addition it was not there, and a
/// deletion says what it held; an update says it only of a file with a content,
/// and only where its diff, if it has one, can be taken back.
pub proof fn law_changes_say_what_was_before(
    current: Option<Seq<char>>,
    content: Seq<char>,
    unified_diff: Seq<char>,
    move_path: Option<PathBuf>,
)
    ensures
        content_before(current, FileChangeView::Add { content }) == Ok::<_, ()>(None::<Seq<char>>),
        content_before(current, FileChangeView::Delete { content }) == Ok::<_, ()>(Some(content)),
        content_before(None, FileChangeView::Update { unified_diff, move_path }) is Err,
        unified_diff.len() == 0 ==> content_before(
            Some(content),
            FileChangeView::Update { unified_diff, move_path },
        ) == Ok::<_, ()>(Some(content)),
        unified_diff.len() > 0 ==> content_before(
            Some(content),
            FileChangeView::Update { unified_diff, move_path },
        ) == match unpatched(content, unified_diff) {
            Some(left) => Ok(Some(left)),
            None => Err(()),
        },
{
}

/// Undoing no change leaves the content alone, and undoing one change is what
/// was before it.
pub proof fn law_undoing_starts_from_the_content(
    current: Option<Seq<char>>,
    change: FileChangeView,
)
    ensures
        content_before_all(current, Seq::empty()) == Ok::<_, ()>(current),
        content_before_all(current, seq![change]) == content_before(current, change),
{
    assert(seq![change].drop_last() =~= Seq::empty());
    reveal_with_fuel(content_before_all, 2);
}

/// A change that has begun holds the content on both sides, the report and where
/// it moves the file, and waits to be carried out.
pub proof fn law_beginning_holds_the_content(
    original: Option<Seq<char>>,
    report: FileChangeView,
)
    ensures
        ({
            let begun = SessionFileChangeView::begun(original, report);
            &&& begun.original == original
            &&& begun.current == original
            &&& begun.fallback == report
            &&& begun.move_path == report.moves_to()
            &&& !begun.completed
            &&& !begun.baseline_inferred
            &&& begun.inferred_changes.len() == 0
            &&& !begun.reconstruction_unavailable
        }),
{
}

/// A change that was carried out adds to the record: the original stays, the
/// report is the last one, and a session that joined late has one more change to
/// undo.
pub proof fn law_completing_extends_the_record(
    change: SessionFileChangeView,
    observed: Option<Seq<char>>,
    report: FileChangeView,
)
    ensures
        ({
            let after = change.completed_by(observed, report);
            &&& after.completed
            &&& after.original == change.original
            &&& after.fallback == report
            &&& after.baseline_inferred == change.baseline_inferred
            &&& change.baseline_inferred ==> after.inferred_changes
                == change.inferred_changes.push(report)
            &&& !change.baseline_inferred ==> after.inferred_changes == change.inferred_changes
        }),
{
}

/// What a file holds after a change: a session that saw the file from the start
/// goes by the change where it can be applied, and one that joined late goes by
/// what was seen where anything was; each falls back on the other. Where neither
/// says anything the change cannot be reconstructed, then and from then on.
pub proof fn law_completing_tells_the_content(
    change: SessionFileChangeView,
    observed: Option<Seq<char>>,
    report: FileChangeView,
)
    ensures
        ({
            let after = change.completed_by(observed, report);
            let applied = content_after(change.current, report);
            &&& !change.baseline_inferred && applied is Some ==> after.current == applied->0
            &&& change.baseline_inferred && observed is Some ==> after.current == observed
            &&& change.baseline_inferred && observed is None && applied is Some ==> after.current
                == applied->0
            &&& applied is None ==> after.current == observed
            &&& after.reconstruction_unavailable == (change.reconstruction_unavailable || applied
                is None && observed is None)
        }),
{
}

/// Where a file is after a change: where the change moves it, where it was added,
/// or else where it was.
pub proof fn law_completing_tells_the_place(
    change: SessionFileChangeView,
    observed: Option<Seq<char>>,
    report: FileChangeView,
)
    ensures
        ({
            let after = change.completed_by(observed, report);
            &&& report.moves_to() is Some ==> after.move_path == report.moves_to()
            &&& report is Add ==> after.move_path is None
            &&& report.moves_to() is None && !(report is Add) ==> after.move_path
                == change.move_path
        }),
        report matches FileChangeView::Update { move_path, .. } ==> report.moves_to() == move_path,
        !(report is Update) ==> report.moves_to() is None,
{
}

/// A change first heard of once it was carried out is the first one to undo. What
/// the file holds is what was seen of it, or else what was added; an update after
/// which nothing was seen cannot be reconstructed.
pub proof fn law_replaying_begins_the_record(
    observed: Option<Seq<char>>,
    report: FileChangeView,
)
    ensures
        ({
            let replayed = SessionFileChangeView::replayed(observed, report);
            &&& replayed.completed
            &&& replayed.baseline_inferred
            &&& replayed.original is None
            &&& replayed.inferred_changes == seq![report]
            &&& replayed.fallback == report
            &&& replayed.move_path == report.moves_to()
            &&& observed is Some ==> replayed.current == observed
            &&& observed is None && !(report is Add) ==> replayed.current is None
            &&& observed is None ==> (report matches FileChangeView::Add { content }
                ==> replayed.current == Some(content))
            &&& replayed.reconstruction_unavailable == (observed is None && report is Update)
        }),
{
}

/// A baseline that was worked out is what undoing the reported changes gives;
/// where they cannot be undone, the change cannot be reconstructed.
pub proof fn law_resolving_undoes_the_reports(change: SessionFileChangeView)
    ensures
        ({
            let resolved = change.resolved();
            let before = content_before_all(change.current, change.inferred_changes);
            &&& !change.baseline_inferred ==> resolved == change
            &&& resolved.current == change.current
            &&& resolved.fallback == change.fallback
            &&& resolved.move_path == change.move_path
            &&& resolved.completed == change.completed
            &&& change.baseline_inferred ==> {
                &&& !resolved.baseline_inferred
                &&& resolved.inferred_changes.len() == 0
                &&& before is Ok ==> resolved.original == before->Ok_0
                    && !resolved.reconstruction_unavailable
                &&& before is Err ==> resolved.original == change.original
                    && resolved.reconstruction_unavailable
            }
        }),
{
}

/// A change is visible where it was carried out, and the contents differ, the
/// file was moved or the contents cannot be told; and nowhere else.
pub proof fn law_visible_changes_make_a_difference(change: SessionFileChangeView)
    ensures
        !change.completed ==> !change.changed(),
        change.completed && change.original != change.current ==> change.changed(),
        change.completed && change.move_path is Some ==> change.changed(),
        change.completed && change.reconstruction_unavailable ==> change.changed(),
        change.original == change.current && change.move_path is None
            && !change.reconstruction_unavailable ==> !change.changed(),
{
}

/// What is displayed of contents on both sides is a diff that leads from the one
/// to the other, printed with exactly the lines of context that were asked for.
pub proof fn law_display_has_the_context_asked_for(
    change: SessionFileChangeView,
    context: nat,
    shown: FileChangeView,
)
    requires
        !change.reconstruction_unavailable,
        change.original is Some,
        change.current is Some,
        change.displays(context, shown),
    ensures
        exists|diff: LineDiff<'_>|
            {
                &&& old_side(diff) == change.original->0
                &&& new_side(diff) == change.current->0
                &&& time_limit(diff) == 100
                &&& shown == (FileChangeView::Update {
                    unified_diff: #[trigger] unified_text(diff, context),
                    move_path: change.move_path,
                })
            },
{
    let diff = choose|diff: LineDiff<'_>|
        #[trigger] is_diff(diff, change.original->0, change.current->0) && shown
            == change.shown_at(diff, context);
    assert(shown == (FileChangeView::Update {
        unified_diff: unified_text(diff, context),
        move_path: change.move_path,
    }));
}

/// A file that came up is displayed as an addition of what it holds, one that
/// went away as a deletion of what it held, and one without any content as it was
/// reported.
pub proof fn law_one_sided_changes_show_their_content(
    change: SessionFileChangeView,
    context: nat,
    shown: FileChangeView,
)
    requires
        !change.reconstruction_unavailable,
        change.displays(context, shown),
    ensures
        change.original is None && change.current is Some ==> shown == (FileChangeView::Add {
            content: change.current->0,
        }),
        change.original is Some && change.current is None ==> shown == (FileChangeView::Delete {
            content: change.original->0,
        }),
        change.original is None && change.current is None ==> shown == change.fallback,
{
}

/// What is judged is the diff at the context that is tried, with where the file
/// was moved.
pub proof fn law_candidates_have_the_context_tried<F: FnMut(&FileChange) -> bool>(
    change: SessionFileChangeView,
    fits: F,
    diff: LineDiff<'_>,
    context: nat,
    verdict: bool,
)
    requires
        judged(change, fits, diff, context, verdict),
    ensures
        exists|candidate: FileChange|
            {
                &&& candidate@ == (FileChangeView::Update {
                    unified_diff: unified_text(diff, context),
                    move_path: change.move_path,
                })
                &&& #[trigger] call_ensures(fits, (&candidate,), verdict)
            },
        change.shown_at(diff, context) == (FileChangeView::Update {
            unified_diff: unified_text(diff, context),
            move_path: change.move_path,
        }),
{
    let candidate = choose|candidate: FileChange|
        candidate@ == change.shown_at(diff, context) && #[trigger] call_ensures(
            fits,
            (&candidate,),
            verdict,
        );
    assert(call_ensures(fits, (&candidate,), verdict));
}

/// The widest context worth trying is as wide as the longer content has lines,
/// but no wider than what is allowed.
pub proof fn law_widest_context_covers_the_longer_content(
    change: SessionFileChangeView,
    max_context: nat,
)
    requires
        change.original is Some,
        change.current is Some,
    ensures
        ({
            let widest = change.widest_context(max_context);
            let old_lines = line_count(change.original->0);
            let new_lines = line_count(change.current->0);
            &&& widest <= max_context
            &&& widest <= old_lines || widest <= new_lines
            &&& widest == max_context || widest >= old_lines && widest >= new_lines
        }),
{
}

/// A text has one line for each line feed, and one more for what follows the last
/// one, if anything does.
pub proof fn law_lines_end_with_line_feeds(line: Seq<char>, rest: Seq<char>)
    requires
        forall|i: int| 0 <= i < line.len() ==> #[trigger] line[i] != '\n',
    ensures
        line_count(Seq::empty()) == 0,
        line.len() > 0 ==> line_count(line) == 1,
        line_count(line + seq!['\n'] + rest) == 1 + line_count(rest),
{
    let feed = seq!['\n'];
    lemma_feeds_add_up(line + feed, rest);
    lemma_feeds_add_up(line, feed);
    lemma_no_feeds(line);
    assert(feed.drop_last() =~= Seq::empty());
    reveal_with_fuel(feed_count, 2);
    let all = line + feed + rest;
    if rest.len() > 0 {
        assert(all.last() == rest.last());
    } else {
        assert(all.last() == '\n');
    }
}

/// Two texts hold as many line feeds as both.
proof fn lemma_feeds_add_up(a: Seq<char>, b: Seq<char>)
    ensures
        feed_count(a + b) == feed_count(a) + feed_count(b),
    decreases b.len(),
{
    if b.len() == 0 {
        assert(a + b =~= a);
    } else {
        lemma_feeds_add_up(a, b.drop_last());
        assert((a + b).drop_last() =~= a + b.drop_last());
    }
}

/// A line holds no line feed.
proof fn lemma_no_feeds(line: Seq<char>)
    requires
        forall|i: int| 0 <= i < line.len() ==> #[trigger] line[i] != '\n',
    ensures
        feed_count(line) == 0,
    decreases line.len(),
{
    if line.len() > 0 {
        let shorter = line.drop_last();
        assert(forall|i: int| 0 <= i < shorter.len() ==> #[trigger] shorter[i] == line[i]);
        lemma_no_feeds(shorter);
        assert(line[line.len() - 1] != '\n');
    }
}

/// A search starts with all radii. It tries the middle of those left, rounded up,
/// and a verdict leaves the part on its side of the middle, which is at most half.
pub proof fn law_search_halves_what_is_left(bound: nat, verdicts: Seq<bool>, left: Radii)
    requires
        left.low < left.high,
    ensures
        left_after(bound, Seq::empty()) == (Radii { low: 0, high: bound }),
        left_after(bound, verdicts.push(true)) == left_after(bound, verdicts).told(true),
        left_after(bound, verdicts.push(false)) == left_after(bound, verdicts).told(false),
        left.low < left.middle() <= left.high,
        0 <= (left.middle() - left.low) - (left.high - left.middle()) <= 1,
        left.told(true) == (Radii { low: left.middle(), high: left.high }),
        left.told(false).low == left.low,
        left.told(false).high + 1 == left.middle(),
{
    assert(verdicts.push(true).drop_last() =~= verdicts);
    assert(verdicts.push(false).drop_last() =~= verdicts);
}

/// Every verdict of a search is on the middle of what the earlier verdicts left,
/// and more than one radius was left then.
pub proof fn law_search_judges_the_middles<F: FnMut(&FileChange) -> bool>(
    change: SessionFileChangeView,
    fits: F,
    diff: LineDiff<'_>,
    bound: nat,
    verdicts: Seq<bool>,
    i: int,
)
    requires
        searches(change, fits, diff, bound, verdicts),
        0 <= i < verdicts.len(),
    ensures
        ({
            let left = left_after(bound, verdicts.take(i));
            left.low < left.high && judged(change, fits, diff, left.middle(), verdicts[i])
        }),
    decreases verdicts.len(),
{
    let earlier = verdicts.drop_last();
    if i < earlier.len() {
        law_search_judges_the_middles(change, fits, diff, bound, earlier, i);
        assert(earlier.take(i) =~= verdicts.take(i));
        assert(earlier[i] == verdicts[i]);
    } else {
        assert(verdicts.take(i) =~= earlier);
    }
}

/// The radius that halving ends at, where `holds` says which radii fit.
pub open spec fn halved(holds: spec_fn(nat) -> bool, low: nat, high: nat) -> nat
    decreases high - low,
{
    if low >= high {
        low
    } else {
        let middle = (high - (high - low) / 2) as nat;
        if holds(middle) {
            halved(holds, middle, high)
        } else {
            halved(holds, low, (middle - 1) as nat)
        }
    }
}

/// Where `fits` always gives one answer to one radius, the search ends where
/// halving ends, whether or not less context always fits better.
pub proof fn law_search_ends_where_halving_does<F: FnMut(&FileChange) -> bool>(
    change: SessionFileChangeView,
    fits: F,
    diff: LineDiff<'_>,
    context: nat,
    max_context: nat,
    holds: spec_fn(nat) -> bool,
)
    requires
        settles(change, fits, diff, context, max_context),
        forall|tried: nat, verdict: bool|
            #[trigger] judged(change, fits, diff, tried, verdict) ==> verdict == holds(tried),
    ensures
        max_context == 0 ==> context == 0,
        max_context > 0 && !holds(0) ==> context == 0,
        max_context > 0 && holds(0) ==> context == halved(
            holds,
            0,
            change.widest_context(max_context),
        ),
{
    let bound = change.widest_context(max_context);
    if max_context > 0 && holds(0) {
        let verdicts = choose|verdicts: Seq<bool>|
            #[trigger] searches(change, fits, diff, bound, verdicts) && left_after(bound, verdicts)
                == (Radii { low: context, high: context });
        lemma_search_follows_halving(change, fits, diff, bound, verdicts, holds);
    }
}

/// What a search has left is where halving goes on from.
proof fn lemma_search_follows_halving<F: FnMut(&FileChange) -> bool>(
    change: SessionFileChangeView,
    fits: F,
    diff: LineDiff<'_>,
    bound: nat,
    verdicts: Seq<bool>,
    holds: spec_fn(nat) -> bool,
)
    requires
        searches(change, fits, diff, bound, verdicts),
        forall|tried: nat, verdict: bool|
            #[trigger] judged(change, fits, diff, tried, verdict) ==> verdict == holds(tried),
    ensures
        ({
            let left = left_after(bound, verdicts);
            halved(holds, 0, bound) == halved(holds, left.low, left.high)
        }),
    decreases verdicts.len(),
{
    if verdicts.len() > 0 {
        let earlier = verdicts.drop_last();
        lemma_search_follows_halving(change, fits, diff, bound, earlier, holds);
        let left = left_after(bound, earlier);
        assert(judged(change, fits, diff, left.middle(), verdicts.last()));
        assert(left.middle() == left.high - (left.high - left.low) / 2);
    }
}

/// What a change is said to be is all that it is.
pub proof fn law_changes_are_told_apart(change: FileChange)
    ensures
        change matches FileChange::Add { content } ==> change@ == (FileChangeView::Add {
            content: content@,
        }),
        change matches FileChange::Delete { content } ==> change@ == (FileChangeView::Delete {
            content: content@,
        }),
        change matches FileChange::Update { unified_diff, move_path } ==> change@
            == (FileChangeView::Update { unified_diff: unified_diff@, move_path }),
{
}

/// A line break is a carriage return or a line feed, each counted by itself. Two
/// contents can be compared where their line breaks are few enough for
/// thirty-two bits, and a content alone always can.
pub proof fn law_contents_are_compared_by_their_breaks(
    s: Seq<char>,
    c: char,
    change: SessionFileChangeView,
)
    ensures
        break_count(Seq::empty()) == 0,
        c == '\r' || c == '\n' ==> break_count(s.push(c)) == break_count(s) + 1,
        c != '\r' && c != '\n' ==> break_count(s.push(c)) == break_count(s),
        change.original is None || change.current is None ==> change.diffable(),
        change.original is Some && change.current is Some ==> (change.diffable() <==> break_count(
            change.original->0,
        ) + break_count(change.current->0) <= 4_294_967_293),
{
    assert(s.push(c).drop_last() =~= s);
}

/// What was reported of a file is told change by change.
pub proof fn law_reports_are_told_one_by_one(changes: Seq<FileChange>, i: int)
    requires
        0 <= i < changes.len(),
    ensures
        change_views(changes).len() == changes.len(),
        change_views(changes)[i] == changes[i]@,
{
}

/// An addition and a deletion can always be placed, and an update where the line
/// numbers of its diff fit.
pub proof fn law_only_diffs_name_line_numbers(
    content: Seq<char>,
    unified_diff: Seq<char>,
    move_path: Option<PathBuf>,
)
    ensures
        (FileChangeView::Add { content }).patchable(),
        (FileChangeView::Delete { content }).patchable(),
        (FileChangeView::Update { unified_diff, move_path }).patchable() <==> line_numbers_fit(
            unified_diff,
        ),
{
}

} // verus!
