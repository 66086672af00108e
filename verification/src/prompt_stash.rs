//! One slot to put a draft aside, to write another one first.

use std::path::PathBuf;
use vstd::prelude::*;
use vstd::string::*;

use crate::keys::{is_bound, KeyChord};
use crate::text::opt_text;

verus! {

/// How the placeholder names a shortcut that nobody chose.
pub const DEFAULT_SHORTCUT: &'static str = "the stash shortcut";

/// What the composer says while a draft is put aside.
pub const STASH_INDICATOR: &'static str = "● 1 prompt stashed";

/// What is being written: the text with its marked elements and mentions, the
/// images and pastes that go with it, and where the cursor stands.
pub struct ComposerDraft<E, M> {
    pub text: String,
    pub text_elements: Vec<E>,
    pub local_image_paths: Vec<PathBuf>,
    pub remote_image_urls: Vec<String>,
    pub mention_bindings: Vec<M>,
    pub pending_pastes: Vec<(String, String)>,
    pub cursor: usize,
}

impl<E, M> ComposerDraft<E, M> {
    /// Whether nothing was entered: no text and no image.
    pub open spec fn blank(self) -> bool {
        &&& self.text@.len() == 0
        &&& self.local_image_paths@.len() == 0
        &&& self.remote_image_urls@.len() == 0
    }

    /// Whether there is nothing in any part of the draft.
    pub open spec fn cleared(self) -> bool {
        &&& self.blank()
        &&& self.text_elements@.len() == 0
        &&& self.mention_bindings@.len() == 0
        &&& self.pending_pastes@.len() == 0
        &&& self.cursor == 0
    }

    /// Whether nothing was entered: no text and no image.
    pub fn is_empty(&self) -> (empty: bool)
        ensures
            empty == self.blank(),
    {
        self.text.as_str().is_empty() && self.local_image_paths.len() == 0
            && self.remote_image_urls.len() == 0
    }
}

/// A draft with nothing in it.
pub fn empty_draft<E, M>() -> (draft: ComposerDraft<E, M>)
    ensures
        draft.cleared(),
{
    ComposerDraft {
        text: String::new(),
        text_elements: Vec::new(),
        local_image_paths: Vec::new(),
        remote_image_urls: Vec::new(),
        mention_bindings: Vec::new(),
        pending_pastes: Vec::new(),
        cursor: 0,
    }
}

/// What else changes in the composer when drafts are swapped.
#[derive(Clone, Copy, Debug, Eq, PartialEq, Structural)]
pub enum StashStep {
    /// Ends the file search that was under way.
    EndFileSearch,
    /// Closes the popup that is open.
    ClosePopup,
    /// Selects no remote image.
    ClearRemoteImageSelection,
    /// Leaves the prompt history.
    ResetHistoryNavigation,
    /// Puts the footer back to what it shows after activity.
    ResetFooterMode,
}

/// The steps of a swap.
pub open spec fn stash_steps(searching: bool) -> Seq<StashStep> {
    let rest = seq![
        StashStep::ClosePopup,
        StashStep::ClearRemoteImageSelection,
        StashStep::ResetHistoryNavigation,
        StashStep::ResetFooterMode,
    ];
    if searching {
        seq![StashStep::EndFileSearch] + rest
    } else {
        rest
    }
}

/// Where drafts are written: the current one, the one that was put aside, the
/// file search under way, and the keys that swap the two drafts.
pub struct ChatComposer<E, M> {
    pub draft: ComposerDraft<E, M>,
    pub stashed_draft: Option<ComposerDraft<E, M>>,
    pub current_file_query: Option<String>,
    pub history_search_next_keys: Vec<KeyChord>,
}

impl<E, M> ChatComposer<E, M> {
    /// Whether there is anything to put aside or to bring back.
    pub open spec fn can_toggle(self) -> bool {
        self.stashed_draft is Some || !self.draft.blank()
    }

    /// Whether `after` is the composer once the drafts were swapped. A draft in
    /// which nothing was entered is not put aside in place of another.
    pub open spec fn toggles_to(self, after: Self) -> bool {
        &&& after.history_search_next_keys == self.history_search_next_keys
        &&& if !self.can_toggle() {
            after == self
        } else {
            &&& after.current_file_query is None
            &&& match self.stashed_draft {
                Some(stashed) => {
                    &&& after.draft == stashed
                    &&& after.stashed_draft == if self.draft.blank() {
                        None
                    } else {
                        Some(self.draft)
                    }
                },
                None => {
                    &&& after.draft.cleared()
                    &&& after.stashed_draft == Some(self.draft)
                },
            }
        }
    }

    /// Whether a chord is the one that swaps the drafts.
    pub fn is_prompt_stash_key(&self, chord: KeyChord) -> (yes: bool)
        ensures
            yes == self.history_search_next_keys@.contains(chord),
    {
        is_bound(&self.history_search_next_keys, chord)
    }

    /// Swaps the current draft with the one that was put aside. The steps say
    /// what else changes; without any, nothing has changed and there is nothing
    /// to redraw. A paste burst is to be flushed into the draft before.
    pub fn toggle_prompt_stash(&mut self) -> (steps: Vec<StashStep>)
        ensures
            old(self).toggles_to(*final(self)),
            steps@ == if old(self).can_toggle() {
                stash_steps(old(self).current_file_query is Some)
            } else {
                Seq::empty()
            },
    {
        let mut steps: Vec<StashStep> = Vec::new();
        let blank = self.draft.is_empty();
        if self.stashed_draft.is_none() && blank {
            assert(steps@ =~= Seq::empty());
            return steps;
        }
        if self.current_file_query.is_some() {
            steps.push(StashStep::EndFileSearch);
            self.current_file_query = None;
        }
        steps.push(StashStep::ClosePopup);
        steps.push(StashStep::ClearRemoteImageSelection);
        steps.push(StashStep::ResetHistoryNavigation);
        steps.push(StashStep::ResetFooterMode);
        assert(steps@ =~= stash_steps(old(self).current_file_query is Some));
        match self.stashed_draft.take() {
            Some(stashed) => {
                let mut current = stashed;
                std::mem::swap(&mut current, &mut self.draft);
                if !blank {
                    self.stashed_draft = Some(current);
                }
            },
            None => {
                let mut current = empty_draft();
                std::mem::swap(&mut current, &mut self.draft);
                self.stashed_draft = Some(current);
            },
        }
        steps
    }

    /// Takes in a chord: swaps the drafts where it is the one for that.
    /// The result says whether there is anything to redraw.
    pub fn handle_stash_key(&mut self, chord: KeyChord) -> (outcome: (bool, Vec<StashStep>))
        ensures
            if old(self).history_search_next_keys@.contains(chord) {
                &&& old(self).toggles_to(*final(self))
                &&& outcome.0 == old(self).can_toggle()
                &&& outcome.1@ == if old(self).can_toggle() {
                    stash_steps(old(self).current_file_query is Some)
                } else {
                    Seq::empty()
                }
            } else {
                *final(self) == *old(self) && !outcome.0 && outcome.1.len() == 0
            },
    {
        if !self.is_prompt_stash_key(chord) {
            return (false, Vec::new());
        }
        let steps = self.toggle_prompt_stash();
        let redraw = steps.len() > 0;
        (redraw, steps)
    }

    /// What an empty composer says while a draft is put aside, where `shortcut`
    /// is how the first binding of the user's own is shown.
    pub fn prompt_stash_placeholder(&self, shortcut: Option<&str>) -> (text: Option<String>)
        ensures
            opt_text(text) == if self.stashed_draft is Some {
                Some(placeholder_text(shortcut))
            } else {
                None
            },
    {
        if self.stashed_draft.is_none() {
            return None;
        }
        let mut text = "Prompt stashed. Press ".to_string();
        match shortcut {
            Some(label) => text.append(label),
            None => text.append(DEFAULT_SHORTCUT),
        }
        text.append(" to restore.");
        Some(text)
    }

    /// What the composer says while a draft is put aside.
    pub fn prompt_stash_indicator_line(&self) -> (text: Option<&'static str>)
        ensures
            match text {
                Some(text) => self.stashed_draft is Some && text@ == STASH_INDICATOR@,
                None => self.stashed_draft is None,
            },
    {
        if self.stashed_draft.is_none() {
            None
        } else {
            Some(STASH_INDICATOR)
        }
    }
}

/// What an empty composer says while a draft is put aside.
pub open spec fn placeholder_text(shortcut: Option<&str>) -> Seq<char> {
    "Prompt stashed. Press "@ + match shortcut {
        Some(label) => label@,
        None => DEFAULT_SHORTCUT@,
    } + " to restore."@
}

/// A draft that is put aside and brought back is as it was, in all its parts,
/// and the slot is free again.
pub proof fn law_stashing_and_restoring_keeps_the_draft<E, M>(
    before: ChatComposer<E, M>,
    stashed: ChatComposer<E, M>,
    restored: ChatComposer<E, M>,
)
    requires
        before.stashed_draft is None,
        !before.draft.blank(),
        before.toggles_to(stashed),
        stashed.toggles_to(restored),
    ensures
        stashed.draft.cleared(),
        stashed.stashed_draft == Some(before.draft),
        restored.draft == before.draft,
        restored.stashed_draft is None,
{
}

/// Two drafts that are swapped twice are as they were, each in its place.
pub proof fn law_swapping_twice_changes_no_draft<E, M>(
    before: ChatComposer<E, M>,
    swapped: ChatComposer<E, M>,
    again: ChatComposer<E, M>,
)
    requires
        before.stashed_draft is Some,
        !before.draft.blank(),
        !before.stashed_draft->0.blank(),
        before.toggles_to(swapped),
        swapped.toggles_to(again),
    ensures
        swapped.draft == before.stashed_draft->0,
        swapped.stashed_draft == Some(before.draft),
        again.draft == before.draft,
        again.stashed_draft == before.stashed_draft,
{
}

/// Without a draft to put aside or to bring back nothing changes.
pub proof fn law_toggling_nothing_changes_nothing<E, M>(
    before: ChatComposer<E, M>,
    after: ChatComposer<E, M>,
)
    requires
        before.stashed_draft is None,
        before.draft.blank(),
        before.toggles_to(after),
    ensures
        after == before,
{
}

/// No swap loses what was entered: it is still the current draft or put aside.
pub proof fn law_no_draft_is_lost<E, M>(before: ChatComposer<E, M>, after: ChatComposer<E, M>)
    requires
        before.toggles_to(after),
    ensures
        !before.draft.blank() ==> after.draft == before.draft || after.stashed_draft == Some(
            before.draft,
        ),
        before.stashed_draft is Some ==> after.draft == before.stashed_draft->0,
{
}

/// A draft holds something exactly where it has text or an image, and nothing is
/// left in a cleared one.
pub proof fn law_drafts_hold_text_or_images<E, M>(draft: ComposerDraft<E, M>)
    ensures
        !draft.blank() <==> draft.text@.len() > 0 || draft.local_image_paths.len() > 0
            || draft.remote_image_urls.len() > 0,
        draft.cleared() ==> {
            &&& draft.text@.len() == 0
            &&& draft.text_elements.len() == 0
            &&& draft.local_image_paths.len() == 0
            &&& draft.remote_image_urls.len() == 0
            &&& draft.mention_bindings.len() == 0
            &&& draft.pending_pastes.len() == 0
            &&& draft.cursor == 0
        },
{
}

/// A swap ends the file search and leaves the keys as they are. A draft in which
/// nothing was entered gives way to the one that was put aside, and the slot is
/// then free; anything else that was entered is put aside.
pub proof fn law_swaps_put_aside_what_was_entered<E, M>(
    before: ChatComposer<E, M>,
    after: ChatComposer<E, M>,
)
    requires
        before.toggles_to(after),
    ensures
        after.history_search_next_keys == before.history_search_next_keys,
        before.stashed_draft is Some || !before.draft.blank() ==> {
            &&& after.current_file_query is None
            &&& after.stashed_draft is Some <==> !before.draft.blank()
            &&& after.stashed_draft matches Some(stashed) ==> stashed == before.draft
            &&& before.stashed_draft matches Some(stashed) ==> after.draft == stashed
            &&& before.stashed_draft is None ==> after.draft.cleared()
        },
        before.can_toggle() <==> before.stashed_draft is Some || before.draft.text@.len() > 0
            || before.draft.local_image_paths.len() > 0 || before.draft.remote_image_urls.len()
            > 0,
{
}

/// A swap closes the popup, selects no remote image, leaves the history and
/// resets the footer, in this order; only a file search under way is ended, and
/// before all that.
pub proof fn law_swaps_reset_the_composer()
    ensures
        stash_steps(true).len() == 5,
        stash_steps(true)[0] == StashStep::EndFileSearch,
        stash_steps(true).skip(1) == stash_steps(false),
        stash_steps(false).len() == 4,
        stash_steps(false)[0] == StashStep::ClosePopup,
        stash_steps(false)[1] == StashStep::ClearRemoteImageSelection,
        stash_steps(false)[2] == StashStep::ResetHistoryNavigation,
        stash_steps(false)[3] == StashStep::ResetFooterMode,
{
    assert(stash_steps(true).skip(1) =~= stash_steps(false));
}

/// The placeholder names the shortcut of the user's own, and otherwise the one
/// that nobody chose.
pub proof fn law_placeholder_names_the_shortcut(label: &str)
    ensures
        placeholder_text(Some(label)) == "Prompt stashed. Press "@ + label@ + " to restore."@,
        placeholder_text(None) == "Prompt stashed. Press "@ + "the stash shortcut"@
            + " to restore."@,
        STASH_INDICATOR@ == "● 1 prompt stashed"@,
{
}

} // verus!
