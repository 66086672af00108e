//! Minimal file-change model used by diff rendering and approval previews.

use std::path::PathBuf;
use vstd::prelude::*;
use vstd::string::*;

use crate::context_search::{left_after, ContextSearch, Radii};
use crate::line_diff::{
    count_breaks, diff_lines, lines_fit, new_side, old_side, time_limit, unified_diff,
    unified_text, LineDiff,
};
use crate::patches::{
    apply_patch, check_line_numbers, line_numbers_fit, patched, revert_patch, unpatched,
};
use crate::paths::{copy_opt_path, copy_path, same_path};
use crate::text::{chars_of, opt_str, opt_text};

verus! {

/// How long a diff between two session texts may take, in milliseconds.
pub const SESSION_DIFF_TIMEOUT: u64 = 100;

/// One change to one file.
#[derive(Debug, PartialEq)]
pub enum FileChange {
    Add { content: String },
    Delete { content: String },
    Update { unified_diff: String, move_path: Option<PathBuf> },
}

/// A change to a file, as text.
pub enum FileChangeView {
    Add { content: Seq<char> },
    Delete { content: Seq<char> },
    Update { unified_diff: Seq<char>, move_path: Option<PathBuf> },
}

impl View for FileChange {
    type V = FileChangeView;

    open spec fn view(&self) -> FileChangeView {
        match *self {
            FileChange::Add { content } => FileChangeView::Add { content: content@ },
            FileChange::Delete { content } => FileChangeView::Delete { content: content@ },
            FileChange::Update { unified_diff, move_path } => FileChangeView::Update {
                unified_diff: unified_diff@,
                move_path,
            },
        }
    }
}

impl FileChangeView {
    /// Whether the line numbers that the change's diff names are ones that a
    /// patch can be placed by.
    pub open spec fn patchable(self) -> bool {
        self matches FileChangeView::Update { unified_diff, .. } ==> line_numbers_fit(unified_diff)
    }

    /// Where the change moves the file, if it does.
    pub open spec fn moves_to(self) -> Option<PathBuf> {
        match self {
            FileChangeView::Update { move_path, .. } => move_path,
            _ => None,
        }
    }
}

impl Clone for FileChange {
    fn clone(&self) -> (copy: Self)
        ensures
            copy == *self,
    {
        match self {
            FileChange::Add { content } => FileChange::Add { content: content.clone() },
            FileChange::Delete { content } => FileChange::Delete { content: content.clone() },
            FileChange::Update { unified_diff, move_path } => FileChange::Update {
                unified_diff: unified_diff.clone(),
                move_path: copy_opt_path(move_path),
            },
        }
    }
}

impl FileChange {
    /// Whether the line numbers that the change's diff names are ones that a
    /// patch can be placed by.
    pub fn is_patchable(&self) -> (yes: bool)
        ensures
            yes == self@.patchable(),
    {
        match self {
            FileChange::Update { unified_diff, .. } => check_line_numbers(unified_diff.as_str()),
            _ => true,
        }
    }
}

/// The changes that a vector holds, as text.
pub open spec fn change_views(changes: Seq<FileChange>) -> Seq<FileChangeView> {
    changes.map_values(|change: FileChange| change@)
}

/// The content of a file after a change: `None` where it cannot be told,
/// `Some(None)` where the file is gone.
pub open spec fn content_after(current: Option<Seq<char>>, change: FileChangeView) -> Option<
    Option<Seq<char>>,
> {
    match change {
        FileChangeView::Add { content } => Some(Some(content)),
        FileChangeView::Delete { .. } => Some(None),
        FileChangeView::Update { unified_diff, .. } => match current {
            None => None,
            Some(text) => if unified_diff.len() == 0 {
                Some(Some(text))
            } else {
                match patched(text, unified_diff) {
                    Some(content) => Some(Some(content)),
                    None => None,
                }
            },
        },
    }
}

/// The content of a file before a change that left it as `current`: `Err`
/// where it cannot be told, `Ok(None)` where the file was not there.
pub open spec fn content_before(current: Option<Seq<char>>, change: FileChangeView) -> Result<
    Option<Seq<char>>,
    (),
> {
    match change {
        FileChangeView::Add { .. } => Ok(None),
        FileChangeView::Delete { content } => Ok(Some(content)),
        FileChangeView::Update { unified_diff, .. } => match current {
            None => Err(()),
            Some(text) => if unified_diff.len() == 0 {
                Ok(Some(text))
            } else {
                match unpatched(text, unified_diff) {
                    Some(content) => Ok(Some(content)),
                    None => Err(()),
                }
            },
        },
    }
}

/// The content of a file before a run of changes, undone from the last to the
/// first.
pub open spec fn content_before_all(
    current: Option<Seq<char>>,
    changes: Seq<FileChangeView>,
) -> Result<Option<Seq<char>>, ()>
    decreases changes.len(),
{
    if changes.len() == 0 {
        Ok(current)
    } else {
        match content_before(current, changes.last()) {
            Ok(content) => content_before_all(content, changes.drop_last()),
            Err(()) => Err(()),
        }
    }
}

/// What became of a file's content under a change.
pub enum ContentAfterChange {
    Applied(Option<String>),
    Unavailable,
}

impl View for ContentAfterChange {
    type V = Option<Option<Seq<char>>>;

    open spec fn view(&self) -> Option<Option<Seq<char>>> {
        match *self {
            ContentAfterChange::Applied(content) => Some(opt_text(content)),
            ContentAfterChange::Unavailable => None,
        }
    }
}

/// The content of a file before a change that left it as `current`.
pub fn content_before_change(current: Option<&str>, change: &FileChange) -> (content: Result<
    Option<String>,
    (),
>)
    requires
        current is Some ==> change@.patchable(),
    ensures
        match content {
            Ok(content) => content_before(opt_str(current), change@) == Ok::<_, ()>(
                opt_text(content),
            ),
            Err(()) => content_before(opt_str(current), change@) is Err,
        },
{
    match change {
        FileChange::Add { .. } => Ok(None),
        FileChange::Delete { content } => Ok(Some(content.clone())),
        FileChange::Update { unified_diff, .. } => {
            let current = match current {
                Some(current) => current,
                None => return Err(()),
            };
            if unified_diff.as_str().is_empty() {
                return Ok(Some(current.to_owned()));
            }
            match revert_patch(current, unified_diff.as_str()) {
                Some(content) => Ok(Some(content)),
                None => Err(()),
            }
        },
    }
}

/// The content of a file before a run of changes that left it as `current`.
pub fn content_before_changes(current: Option<&str>, changes: &Vec<FileChange>) -> (content: Result<
    Option<String>,
    (),
>)
    requires
        forall|i: int| 0 <= i < changes.len() ==> (#[trigger] changes[i])@.patchable(),
    ensures
        match content {
            Ok(content) => content_before_all(opt_str(current), change_views(changes@)) == Ok::<
                _,
                (),
            >(opt_text(content)),
            Err(()) => content_before_all(opt_str(current), change_views(changes@)) is Err,
        },
{
    let ghost all = change_views(changes@);
    let mut content: Option<String> = match current {
        Some(current) => Some(current.to_owned()),
        None => None,
    };
    let mut left: usize = changes.len();
    assert(all.take(left as int) =~= all);
    while left > 0
        invariant
            forall|i: int| 0 <= i < changes.len() ==> (#[trigger] changes[i])@.patchable(),
            all == change_views(changes@),
            0 <= left <= changes.len(),
            content_before_all(opt_str(current), all) == content_before_all(
                opt_text(content),
                all.take(left as int),
            ),
        decreases left,
    {
        let here: Option<&str> = match &content {
            Some(text) => Some(text.as_str()),
            None => None,
        };
        assert(all.take(left as int).drop_last() =~= all.take(left - 1));
        assert(opt_str(here) == opt_text(content));
        let before = content_before_change(here, &changes[left - 1]);
        match before {
            Ok(before) => {
                content = before;
            },
            Err(()) => {
                return Err(());
            },
        }
        left -= 1;
    }
    Ok(content)
}

/// What becomes of a file's content under a change.
pub fn content_after_change(current: Option<&str>, change: &FileChange) -> (content:
    ContentAfterChange)
    requires
        current is Some ==> change@.patchable(),
    ensures
        content@ == content_after(opt_str(current), change@),
{
    match change {
        FileChange::Add { content } => ContentAfterChange::Applied(Some(content.clone())),
        FileChange::Delete { .. } => ContentAfterChange::Applied(None),
        FileChange::Update { unified_diff, .. } => {
            let current = match current {
                Some(current) => current,
                None => return ContentAfterChange::Unavailable,
            };
            if unified_diff.as_str().is_empty() {
                return ContentAfterChange::Applied(Some(current.to_owned()));
            }
            match apply_patch(current, unified_diff.as_str()) {
                Some(content) => ContentAfterChange::Applied(Some(content)),
                None => ContentAfterChange::Unavailable,
            }
        },
    }
}

/// A file's change over a session, as text.
pub struct SessionFileChangeView {
    /// What the file held when the session first touched it.
    pub original: Option<Seq<char>>,
    /// What the file holds now.
    pub current: Option<Seq<char>>,
    /// The last change as it was reported.
    pub fallback: FileChangeView,
    /// Where the session moved the file, if it did.
    pub move_path: Option<PathBuf>,
    /// Whether the session joined late, so that `original` is yet to be worked
    /// out from the changes that were reported.
    pub baseline_inferred: bool,
    /// Those changes, in order.
    pub inferred_changes: Seq<FileChangeView>,
    /// Whether a change to the file was carried out.
    pub completed: bool,
    /// Whether the contents on either side could not be worked out.
    pub reconstruction_unavailable: bool,
}

impl SessionFileChangeView {
    /// What every session change keeps: the changes to undo can be undone, and
    /// there are some exactly while the baseline is to be worked out.
    pub open spec fn valid(self) -> bool {
        &&& forall|i: int|
            0 <= i < self.inferred_changes.len() ==> (
            #[trigger] self.inferred_changes[i]).patchable()
        &&& self.baseline_inferred == (self.inferred_changes.len() > 0)
        &&& self.baseline_inferred ==> self.completed
    }

    /// A change that is about to be carried out on a file that holds
    /// `original`.
    pub open spec fn begun(original: Option<Seq<char>>, fallback: FileChangeView) -> Self {
        SessionFileChangeView {
            original,
            current: original,
            fallback,
            move_path: fallback.moves_to(),
            baseline_inferred: false,
            inferred_changes: Seq::empty(),
            completed: false,
            reconstruction_unavailable: false,
        }
    }

    /// A change first heard of once it was carried out, which left the file as
    /// `observed`.
    pub open spec fn replayed(observed: Option<Seq<char>>, fallback: FileChangeView) -> Self {
        SessionFileChangeView {
            original: None,
            current: match (observed, fallback) {
                (None, FileChangeView::Add { content }) => Some(content),
                _ => observed,
            },
            fallback,
            move_path: fallback.moves_to(),
            baseline_inferred: true,
            inferred_changes: seq![fallback],
            completed: true,
            reconstruction_unavailable: observed is None && fallback is Update,
        }
    }

    /// Where the file is after a change: an added file is where it was added,
    /// and otherwise an earlier move stands until the next.
    pub open spec fn moved_by(self, change: FileChangeView) -> Option<PathBuf> {
        match change {
            FileChangeView::Add { .. } => None,
            FileChangeView::Delete { .. } => self.move_path,
            FileChangeView::Update { move_path: Some(move_path), .. } => Some(move_path),
            FileChangeView::Update { move_path: None, .. } => self.move_path,
        }
    }

    /// What the file holds after a change that was seen to leave it as
    /// `observed`: a session that saw the file from the start trusts its own
    /// account first, one that joined late trusts the file.
    pub open spec fn content_with(
        self,
        observed: Option<Seq<char>>,
        change: FileChangeView,
    ) -> Option<Seq<char>> {
        let applied = content_after(self.current, change);
        if self.baseline_inferred {
            match (observed, applied) {
                (Some(_), _) => observed,
                (None, Some(content)) => content,
                (None, None) => None,
            }
        } else {
            match applied {
                Some(content) => content,
                None => observed,
            }
        }
    }

    /// The session change after one more change was carried out.
    pub open spec fn completed_by(
        self,
        observed: Option<Seq<char>>,
        change: FileChangeView,
    ) -> Self {
        SessionFileChangeView {
            original: self.original,
            current: self.content_with(observed, change),
            fallback: change,
            move_path: self.moved_by(change),
            baseline_inferred: self.baseline_inferred,
            inferred_changes: if self.baseline_inferred {
                self.inferred_changes.push(change)
            } else {
                self.inferred_changes
            },
            completed: true,
            reconstruction_unavailable: self.reconstruction_unavailable || (content_after(
                self.current,
                change,
            ) is None && self.content_with(observed, change) is None),
        }
    }

    /// The session change with its baseline worked out by undoing the changes
    /// that were reported.
    pub open spec fn resolved(self) -> Self {
        if !self.baseline_inferred {
            self
        } else {
            let before = content_before_all(self.current, self.inferred_changes);
            SessionFileChangeView {
                original: match before {
                    Ok(original) => original,
                    Err(()) => self.original,
                },
                baseline_inferred: false,
                inferred_changes: Seq::empty(),
                reconstruction_unavailable: before is Err,
                ..self
            }
        }
    }

    /// Whether the session has something to show for the file.
    pub open spec fn changed(self) -> bool {
        self.completed && (self.original != self.current || self.move_path is Some
            || self.reconstruction_unavailable)
    }

    /// Whether the two contents have few enough lines for a diff.
    pub open spec fn diffable(self) -> bool {
        match (self.original, self.current) {
            (Some(original), Some(current)) => lines_fit(original, current),
            _ => true,
        }
    }

    /// The update that shows a diff at a context radius.
    pub open spec fn shown_at(self, diff: LineDiff<'_>, context: nat) -> FileChangeView {
        FileChangeView::Update {
            unified_diff: unified_text(diff, context),
            move_path: self.move_path,
        }
    }

    /// Whether `shown` is how the session change is displayed with `context`
    /// lines of context. Where both contents are known it is some diff between
    /// them; which one is a matter of the time it may take.
    pub open spec fn displays(self, context: nat, shown: FileChangeView) -> bool {
        if self.reconstruction_unavailable {
            shown == self.fallback
        } else {
            match (self.original, self.current) {
                (None, Some(content)) => shown == (FileChangeView::Add { content }),
                (Some(content), None) => shown == (FileChangeView::Delete { content }),
                (Some(original), Some(current)) => exists|diff: LineDiff<'_>|
                    #[trigger] is_diff(diff, original, current) && shown == self.shown_at(
                        diff,
                        context,
                    ),
                (None, None) => shown == self.fallback,
            }
        }
    }

    /// The widest context worth trying: that of the longer content, or
    /// `max_context` where that is less.
    pub open spec fn widest_context(self, max_context: nat) -> nat {
        match (self.original, self.current) {
            (Some(original), Some(current)) => min_nat(
                max_nat(line_count(original), line_count(current)),
                max_context,
            ),
            _ => 0,
        }
    }
}

/// Whether a diff leads from one text to another and was given the time that a
/// diff between session texts may take. It shows nothing exactly where the
/// texts are equal.
pub open spec fn is_diff(diff: LineDiff<'_>, original: Seq<char>, current: Seq<char>) -> bool {
    &&& old_side(diff) == original
    &&& new_side(diff) == current
    &&& time_limit(diff) == SESSION_DIFF_TIMEOUT
    &&& forall|radius: nat|
        (#[trigger] unified_text(diff, radius)).len() == 0 <==> original == current
}

/// The smaller of two numbers.
pub open spec fn min_nat(a: nat, b: nat) -> nat {
    if a <= b {
        a
    } else {
        b
    }
}

/// The larger of two numbers.
pub open spec fn max_nat(a: nat, b: nat) -> nat {
    if a <= b {
        b
    } else {
        a
    }
}

/// How many line feeds a text holds.
pub open spec fn feed_count(s: Seq<char>) -> nat
    decreases s.len(),
{
    if s.len() == 0 {
        0
    } else if s.last() == '\n' {
        feed_count(s.drop_last()) + 1
    } else {
        feed_count(s.drop_last())
    }
}

/// How many lines a text has. A line feed at the end of the text starts no
/// further line.
pub open spec fn line_count(s: Seq<char>) -> nat {
    if s.len() > 0 && s.last() != '\n' {
        feed_count(s) + 1
    } else {
        feed_count(s)
    }
}

/// How many lines a text has.
pub fn count_lines(text: &str) -> (count: usize)
    ensures
        count == line_count(text@),
{
    let chars = chars_of(text);
    let mut count: usize = 0;
    let mut i: usize = 0;
    while i < chars.len()
        invariant
            chars@ == text@,
            0 <= i <= chars.len(),
            count <= i,
            count == i ==> forall|j: int| 0 <= j < i ==> chars@[j] == '\n',
            count == feed_count(text@.take(i as int)),
        decreases chars.len() - i,
    {
        assert(text@.take(i + 1).drop_last() =~= text@.take(i as int));
        if chars[i] == '\n' {
            count += 1;
        }
        i += 1;
    }
    assert(text@.take(text@.len() as int) =~= text@);
    if chars.len() > 0 && chars[chars.len() - 1] != '\n' {
        count += 1;
    }
    count
}

/// A copy of a run of changes.
fn copy_changes(changes: &Vec<FileChange>) -> (copy: Vec<FileChange>)
    ensures
        copy@ == changes@,
{
    let mut copy: Vec<FileChange> = Vec::new();
    let mut i: usize = 0;
    while i < changes.len()
        invariant
            0 <= i <= changes.len(),
            copy@ == changes@.take(i as int),
        decreases changes.len() - i,
    {
        copy.push(changes[i].clone());
        assert(changes@.take(i + 1) =~= changes@.take(i as int).push(changes@[i as int]));
        i += 1;
    }
    assert(changes@.take(changes@.len() as int) =~= changes@);
    copy
}

/// A copy of an optional text.
fn copy_opt_text(text: &Option<String>) -> (copy: Option<String>)
    ensures
        copy == *text,
{
    match text {
        Some(text) => Some(text.clone()),
        None => None,
    }
}

/// An optional text, borrowed.
fn borrow_opt_text(text: &Option<String>) -> (borrowed: Option<&str>)
    ensures
        opt_str(borrowed) == opt_text(*text),
{
    match text {
        Some(text) => Some(text.as_str()),
        None => None,
    }
}

/// Whether two optional texts are the same.
fn same_opt_text(a: &Option<String>, b: &Option<String>) -> (same: bool)
    ensures
        same == (opt_text(*a) == opt_text(*b)),
{
    match (a, b) {
        (Some(a), Some(b)) => *a == *b,
        (None, None) => true,
        _ => false,
    }
}

/// What a session did to one file.
#[derive(Debug)]
pub struct SessionFileChange {
    original_content: Option<String>,
    current_content: Option<String>,
    fallback: FileChange,
    move_path: Option<PathBuf>,
    baseline_inferred: bool,
    inferred_changes: Vec<FileChange>,
    completed: bool,
    reconstruction_unavailable: bool,
}

impl View for SessionFileChange {
    type V = SessionFileChangeView;

    closed spec fn view(&self) -> SessionFileChangeView {
        SessionFileChangeView {
            original: opt_text(self.original_content),
            current: opt_text(self.current_content),
            fallback: self.fallback@,
            move_path: self.move_path,
            baseline_inferred: self.baseline_inferred,
            inferred_changes: change_views(self.inferred_changes@),
            completed: self.completed,
            reconstruction_unavailable: self.reconstruction_unavailable,
        }
    }
}

impl Clone for SessionFileChange {
    fn clone(&self) -> (copy: Self)
        ensures
            copy@ == self@,
    {
        proof {
            use_type_invariant(self);
        }
        SessionFileChange {
            original_content: copy_opt_text(&self.original_content),
            current_content: copy_opt_text(&self.current_content),
            fallback: self.fallback.clone(),
            move_path: copy_opt_path(&self.move_path),
            baseline_inferred: self.baseline_inferred,
            inferred_changes: copy_changes(&self.inferred_changes),
            completed: self.completed,
            reconstruction_unavailable: self.reconstruction_unavailable,
        }
    }
}

impl SessionFileChange {
    #[verifier::type_invariant]
    spec fn well_formed(&self) -> bool {
        self@.valid()
    }

    /// A change that is about to be carried out on a file that holds
    /// `original_content`.
    pub fn new(original_content: Option<String>, fallback: FileChange) -> (change: Self)
        ensures
            change@ == SessionFileChangeView::begun(opt_text(original_content), fallback@),
            change@.valid(),
    {
        let move_path = match &fallback {
            FileChange::Update { move_path, .. } => copy_opt_path(move_path),
            _ => None,
        };
        let change = SessionFileChange {
            current_content: copy_opt_text(&original_content),
            original_content,
            fallback,
            move_path,
            baseline_inferred: false,
            inferred_changes: Vec::new(),
            completed: false,
            reconstruction_unavailable: false,
        };
        assert(change@.inferred_changes =~= Seq::empty());
        change
    }

    /// A change first heard of once it was carried out, which left the file as
    /// `current_content`.
    pub fn from_completed(current_content: Option<String>, fallback: FileChange) -> (change: Self)
        requires
            fallback@.patchable(),
        ensures
            change@ == SessionFileChangeView::replayed(opt_text(current_content), fallback@),
            change@.valid(),
    {
        let ghost reported = fallback@;
        let mut inferred_changes: Vec<FileChange> = Vec::new();
        inferred_changes.push(fallback.clone());
        let is_update = match &fallback {
            FileChange::Update { .. } => true,
            _ => false,
        };
        let reconstruction_unavailable = current_content.is_none() && is_update;
        let current_content = match current_content {
            Some(content) => Some(content),
            None => match content_after_change(None, &fallback) {
                ContentAfterChange::Applied(content) => content,
                ContentAfterChange::Unavailable => None,
            },
        };
        let begun = SessionFileChange::new(None, fallback);
        let change = SessionFileChange {
            current_content,
            baseline_inferred: true,
            inferred_changes,
            completed: true,
            reconstruction_unavailable,
            ..begun
        };
        assert(change@.inferred_changes =~= seq![reported]);
        change
    }

    /// The session change after one more change was carried out, which was seen
    /// to leave the file as `observed_content`.
    pub fn complete(&self, observed_content: Option<String>, fallback: FileChange) -> (change: Self)
        requires
            fallback@.patchable(),
        ensures
            change@ == self@.completed_by(opt_text(observed_content), fallback@),
            change@.valid(),
    {
        proof {
            use_type_invariant(self);
        }
        let ghost reported = fallback@;
        let move_path = match &fallback {
            FileChange::Update { move_path: Some(move_path), .. } => Some(copy_path(move_path)),
            FileChange::Update { move_path: None, .. } => copy_opt_path(&self.move_path),
            FileChange::Add { .. } => None,
            FileChange::Delete { .. } => copy_opt_path(&self.move_path),
        };
        let mut inferred_changes = copy_changes(&self.inferred_changes);
        if self.baseline_inferred {
            inferred_changes.push(fallback.clone());
        }
        proof {
            let undone = change_views(inferred_changes@);
            assert forall|i: int| 0 <= i < undone.len() implies (
            #[trigger] undone[i]).patchable() by {
                if i < self@.inferred_changes.len() {
                    assert(undone[i] == self@.inferred_changes[i]);
                }
            }
        }
        let applied = content_after_change(borrow_opt_text(&self.current_content), &fallback);
        let unavailable = match &applied {
            ContentAfterChange::Applied(_) => false,
            ContentAfterChange::Unavailable => true,
        };
        let current_content = if self.baseline_inferred {
            match (observed_content, applied) {
                (Some(content), _) => Some(content),
                (None, ContentAfterChange::Applied(content)) => content,
                (None, ContentAfterChange::Unavailable) => None,
            }
        } else {
            match applied {
                ContentAfterChange::Applied(content) => content,
                ContentAfterChange::Unavailable => observed_content,
            }
        };
        let reconstruction_unavailable = self.reconstruction_unavailable || (unavailable
            && current_content.is_none());
        let change = SessionFileChange {
            original_content: copy_opt_text(&self.original_content),
            current_content,
            fallback,
            move_path,
            baseline_inferred: self.baseline_inferred,
            inferred_changes,
            completed: true,
            reconstruction_unavailable,
        };
        assert(change@.inferred_changes =~= self@.completed_by(
            opt_text(observed_content),
            reported,
        ).inferred_changes);
        change
    }

    /// The session change with its baseline worked out, where that is still to
    /// be done.
    pub fn resolve_inferred_baseline(&self) -> (resolved: Self)
        ensures
            resolved@ == self@.resolved(),
            resolved@.valid(),
    {
        proof {
            use_type_invariant(self);
        }
        if !self.baseline_inferred {
            return self.clone();
        }
        assert forall|i: int| 0 <= i < self.inferred_changes.len() implies (
        #[trigger] self.inferred_changes[i])@.patchable() by {
            assert(self@.inferred_changes[i].patchable());
        }
        let original_content = content_before_changes(
            borrow_opt_text(&self.current_content),
            &self.inferred_changes,
        );
        let copy = self.clone();
        let resolved = match original_content {
            Ok(original_content) => SessionFileChange {
                original_content,
                baseline_inferred: false,
                inferred_changes: Vec::new(),
                reconstruction_unavailable: false,
                ..copy
            },
            Err(()) => SessionFileChange {
                baseline_inferred: false,
                inferred_changes: Vec::new(),
                reconstruction_unavailable: true,
                ..copy
            },
        };
        assert(resolved@.inferred_changes =~= Seq::empty());
        resolved
    }

    /// Whether the baseline is still to be worked out.
    pub fn baseline_is_inferred(&self) -> (yes: bool)
        ensures
            yes == self@.baseline_inferred,
    {
        self.baseline_inferred
    }

    /// Whether a change to the file was carried out.
    pub fn is_completed(&self) -> (yes: bool)
        ensures
            yes == self@.completed,
    {
        self.completed
    }

    /// Whether the session moved the file to `path`.
    pub fn moved_to(&self, path: &PathBuf) -> (yes: bool)
        ensures
            yes == (self@.move_path == Some(*path)),
    {
        match &self.move_path {
            Some(move_path) => same_path(move_path, path),
            None => false,
        }
    }

    /// Whether the contents on either side could not be worked out.
    pub fn reconstruction_unavailable(&self) -> (yes: bool)
        ensures
            yes == self@.reconstruction_unavailable,
    {
        self.reconstruction_unavailable
    }

    /// Whether the session has something to show for the file.
    pub fn is_changed(&self) -> (yes: bool)
        ensures
            yes == self@.changed(),
    {
        self.completed && (!same_opt_text(&self.original_content, &self.current_content)
            || self.move_path.is_some() || self.reconstruction_unavailable)
    }

    /// Whether the two contents have few enough lines for a diff.
    pub fn is_diffable(&self) -> (yes: bool)
        ensures
            yes == self@.diffable(),
    {
        match (&self.original_content, &self.current_content) {
            (Some(original), Some(current)) => {
                let limit: u128 = u32::MAX as u128;
                let breaks: u128 = count_breaks(original.as_str()) as u128 + count_breaks(
                    current.as_str(),
                ) as u128;
                breaks + 2 <= limit
            },
            _ => true,
        }
    }

    /// How the change is displayed with `context` lines of context.
    pub fn display_change(&self, context: usize) -> (shown: FileChange)
        requires
            self@.diffable(),
            2 * context <= usize::MAX,
        ensures
            self@.displays(context as nat, shown@),
    {
        if self.reconstruction_unavailable {
            return self.fallback.clone();
        }
        match (&self.original_content, &self.current_content) {
            (None, Some(content)) => FileChange::Add { content: content.clone() },
            (Some(content), None) => FileChange::Delete { content: content.clone() },
            (Some(original), Some(current)) => {
                let diff = diff_lines(original.as_str(), current.as_str(), SESSION_DIFF_TIMEOUT);
                assert(is_diff(diff, original@, current@));
                make_change(&diff, context, &self.move_path)
            },
            (None, None) => self.fallback.clone(),
        }
    }

    /// How the change is displayed with as much context as `fits` allows, up to
    /// `max_context` lines.
    ///
    /// `fits` is shown no candidate where `max_context` is nought. Otherwise it is
    /// shown the one without context first; where that fits, a binary search
    /// shows it the middle of the radii that are left, until one is. No candidate
    /// is wider than the longer content or `max_context`.
    pub fn adaptive_display_change<F: FnMut(&FileChange) -> bool>(
        &self,
        max_context: usize,
        mut fits: F,
    ) -> (shown: FileChange)
        requires
            self@.diffable(),
            2 * self@.widest_context(max_context as nat) <= usize::MAX,
            max_context > 0 && self@.original is Some && self@.current is Some ==> forall|
                diff: LineDiff<'_>,
                context: nat,
                candidate: FileChange,
            |
                is_diff(diff, self@.original->0, self@.current->0) && tries(
                    self@,
                    fits,
                    diff,
                    self@.widest_context(max_context as nat),
                    context,
                ) && candidate@ == (#[trigger] self@.shown_at(diff, context))
                    ==> #[trigger] call_requires(fits, (&candidate,)),
        ensures
            self@.original is None || self@.current is None ==> self@.displays(0, shown@),
            self@.original is Some && self@.current is Some ==> exists|
                diff: LineDiff<'_>,
                context: nat,
            |
                {
                    &&& is_diff(diff, self@.original->0, self@.current->0)
                    &&& shown@ == #[trigger] self@.shown_at(diff, context)
                    &&& settles(self@, fits, diff, context, max_context as nat)
                },
    {
        let (original, current) = match (&self.original_content, &self.current_content) {
            (Some(original), Some(current)) => (original, current),
            _ => return self.display_change(0),
        };
        let diff = diff_lines(original.as_str(), current.as_str(), SESSION_DIFF_TIMEOUT);
        assert(is_diff(diff, original@, current@));
        let old_lines = count_lines(original.as_str());
        let new_lines = count_lines(current.as_str());
        let longer: usize = if old_lines <= new_lines { new_lines } else { old_lines };
        let bound: usize = if longer <= max_context { longer } else { max_context };
        let zero_context = make_change(&diff, 0, &self.move_path);
        assert(zero_context@ == self@.shown_at(diff, 0));
        if max_context == 0 {
            assert(settles(self@, fits, diff, 0, max_context as nat));
            return zero_context;
        }
        if !fits(&zero_context) {
            assert(judged(self@, fits, diff, 0, false));
            assert(settles(self@, fits, diff, 0, max_context as nat));
            return zero_context;
        }
        assert(judged(self@, fits, diff, 0, true));
        let mut search = ContextSearch::new(bound);
        let ghost judge = fits;
        let ghost mut verdicts: Seq<bool> = Seq::empty();
        loop
            invariant
                fits == judge,
                bound == self@.widest_context(max_context as nat),
                2 * bound <= usize::MAX,
                self.original_content == Some(*original),
                self.current_content == Some(*current),
                is_diff(diff, original@, current@),
                judged(self@, fits, diff, 0, true),
                forall|context: nat, candidate: FileChange|
                    tries(self@, fits, diff, bound as nat, context) && candidate@ == (
                    #[trigger] self@.shown_at(diff, context)) ==> #[trigger] call_requires(
                        fits,
                        (&candidate,),
                    ),
                search.valid(),
                search.high() <= bound,
                searches(self@, fits, diff, bound as nat, verdicts),
                left_after(bound as nat, verdicts) == search.left(),
            ensures
                search.low() == search.high(),
            decreases search.high() - search.low(),
        {
            match search.candidate() {
                None => break,
                Some(middle) => {
                    let candidate = make_change(&diff, middle, &self.move_path);
                    assert(candidate@ == self@.shown_at(diff, middle as nat));
                    assert(searches(self@, fits, diff, bound as nat, verdicts));
                    assert(tries(self@, fits, diff, bound as nat, middle as nat));
                    let holds = fits(&candidate);
                    assert(judged(self@, fits, diff, middle as nat, holds));
                    proof {
                        let more = verdicts.push(holds);
                        assert(more.drop_last() =~= verdicts);
                        verdicts = more;
                    }
                    search.answer(middle, holds);
                },
            }
        }
        let widest = search.widest();
        let shown = make_change(&diff, widest, &self.move_path);
        assert(shown@ == self@.shown_at(diff, widest as nat));
        assert(left_after(bound as nat, verdicts) == (Radii {
            low: widest as nat,
            high: widest as nat,
        }));
        assert(settles(self@, fits, diff, widest as nat, max_context as nat));
        shown
    }
}

/// Whether `fits` answered `verdict` to the candidate with `context` lines of
/// context.
pub open spec fn judged<F: FnMut(&FileChange) -> bool>(
    change: SessionFileChangeView,
    fits: F,
    diff: LineDiff<'_>,
    context: nat,
    verdict: bool,
) -> bool {
    exists|candidate: FileChange|
        candidate@ == change.shown_at(diff, context) && #[trigger] call_ensures(
            fits,
            (&candidate,),
            verdict,
        )
}

/// Whether `verdicts` are the answers of `fits` in a binary search over the
/// radii up to `bound`: each is on the middle of the radii left before it, and
/// none is given once a single radius is left.
pub open spec fn searches<F: FnMut(&FileChange) -> bool>(
    change: SessionFileChangeView,
    fits: F,
    diff: LineDiff<'_>,
    bound: nat,
    verdicts: Seq<bool>,
) -> bool
    decreases verdicts.len(),
{
    verdicts.len() > 0 ==> {
        let earlier = verdicts.drop_last();
        let left = left_after(bound, earlier);
        &&& searches(change, fits, diff, bound, earlier)
        &&& left.low < left.high
        &&& judged(change, fits, diff, left.middle(), verdicts.last())
    }
}

/// Whether a binary search over the radii up to `bound` shows `fits` the
/// candidate with `context` lines of context: the one without context comes
/// first, and the others once that was found to fit, each as the middle of the
/// radii left.
pub open spec fn tries<F: FnMut(&FileChange) -> bool>(
    change: SessionFileChangeView,
    fits: F,
    diff: LineDiff<'_>,
    bound: nat,
    context: nat,
) -> bool {
    context == 0 || judged(change, fits, diff, 0, true) && exists|verdicts: Seq<bool>|
        {
            let left = left_after(bound, verdicts);
            &&& #[trigger] searches(change, fits, diff, bound, verdicts)
            &&& left.low < left.high
            &&& context == left.middle()
        }
}

/// Whether `context` is where the search for the widest context ends: without
/// context where none is allowed or even that does not fit, and otherwise at the
/// radius that a binary search is left with.
pub open spec fn settles<F: FnMut(&FileChange) -> bool>(
    change: SessionFileChangeView,
    fits: F,
    diff: LineDiff<'_>,
    context: nat,
    max_context: nat,
) -> bool {
    let bound = change.widest_context(max_context);
    if max_context == 0 {
        context == 0
    } else {
        ||| judged(change, fits, diff, 0, false) && context == 0
        ||| judged(change, fits, diff, 0, true) && exists|verdicts: Seq<bool>|
            #[trigger] searches(change, fits, diff, bound, verdicts) && left_after(bound, verdicts)
                == (Radii { low: context, high: context })
    }
}

/// The update that shows a diff at a context radius.
fn make_change<'a>(diff: &'a LineDiff<'a>, context: usize, move_path: &Option<PathBuf>) -> (change:
    FileChange)
    requires
        2 * context <= usize::MAX,
    ensures
        change@ == (FileChangeView::Update {
            unified_diff: unified_text(*diff, context as nat),
            move_path: *move_path,
        }),
{
    FileChange::Update {
        unified_diff: unified_diff(diff, context),
        move_path: copy_opt_path(move_path),
    }
}

} // verus!
