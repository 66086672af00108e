use codex_tui::keys::{KeyChord, KeyCode};
use codex_tui::prompt_stash::{empty_draft, ChatComposer, ComposerDraft, StashStep};
use std::path::PathBuf;

const CONTROL: u8 = 2;

fn new_composer() -> ChatComposer<String, String> {
    ChatComposer {
        draft: empty_draft(),
        stashed_draft: None,
        current_file_query: None,
        history_search_next_keys: vec![KeyChord {
            code: KeyCode::Char('s'),
            modifiers: CONTROL,
        }],
    }
}

fn press_ctrl_s(composer: &mut ChatComposer<String, String>) -> bool {
    composer
        .handle_stash_key(KeyChord {
            code: KeyCode::Char('s'),
            modifiers: CONTROL,
        })
        .0
}

fn set_text_content(
    composer: &mut ChatComposer<String, String>,
    text: &str,
    local_image_paths: Vec<PathBuf>,
) {
    composer.draft = empty_draft();
    composer.draft.text = text.to_string();
    composer.draft.cursor = text.len();
    composer.draft.local_image_paths = local_image_paths;
}

fn parts(
    draft: &ComposerDraft<String, String>,
) -> (
    String,
    Vec<String>,
    Vec<PathBuf>,
    Vec<String>,
    Vec<String>,
    Vec<(String, String)>,
    usize,
) {
    (
        draft.text.clone(),
        draft.text_elements.clone(),
        draft.local_image_paths.clone(),
        draft.remote_image_urls.clone(),
        draft.mention_bindings.clone(),
        draft.pending_pastes.clone(),
        draft.cursor,
    )
}

#[test]
fn ctrl_s_stashes_and_restores_the_complete_draft() {
    let mut composer = new_composer();
    set_text_content(
        &mut composer,
        "draft [Pasted Content 5 chars]",
        vec![PathBuf::from("/tmp/local.png")],
    );
    composer.draft.remote_image_urls = vec!["https://example.com/remote.png".to_string()];
    composer.draft.pending_pastes = vec![(
        "[Pasted Content 5 chars]".to_string(),
        "paste".to_string(),
    )];
    let original = parts(&composer.draft);

    assert!(press_ctrl_s(&mut composer));
    assert!(composer.draft.is_empty());
    assert!(composer.stashed_draft.is_some());

    assert!(press_ctrl_s(&mut composer));
    assert_eq!(parts(&composer.draft), original);
    assert!(composer.stashed_draft.is_none());
}

#[test]
fn ctrl_s_swaps_a_new_draft_with_the_stashed_draft() {
    let mut composer = new_composer();
    set_text_content(&mut composer, "first", Vec::new());
    assert!(press_ctrl_s(&mut composer));

    set_text_content(&mut composer, "second", Vec::new());
    assert!(press_ctrl_s(&mut composer));
    assert_eq!(composer.draft.text, "first");

    assert!(press_ctrl_s(&mut composer));
    assert_eq!(composer.draft.text, "second");
}

#[test]
fn ctrl_s_is_a_noop_without_a_current_or_stashed_draft() {
    let mut composer = new_composer();

    assert!(!press_ctrl_s(&mut composer));
    assert!(composer.draft.is_empty());
    assert!(composer.stashed_draft.is_none());
}

#[test]
fn stash_uses_the_configured_history_forward_binding() {
    let mut composer = new_composer();
    let f2 = KeyChord {
        code: KeyCode::F(2),
        modifiers: 0,
    };
    composer.history_search_next_keys = vec![f2];
    set_text_content(&mut composer, "draft", Vec::new());

    press_ctrl_s(&mut composer);
    assert_eq!(composer.draft.text, "draft");
    assert!(composer.stashed_draft.is_none());
    let (redraw, _) = composer.handle_stash_key(f2);
    assert!(redraw);
    assert!(composer.draft.is_empty());
    assert_eq!(
        composer.prompt_stash_placeholder(Some("f2")),
        Some("Prompt stashed. Press f2 to restore.".to_string())
    );
}

#[test]
fn a_swap_ends_what_was_under_way_in_the_composer() {
    let mut composer = new_composer();
    set_text_content(&mut composer, "look at @src", Vec::new());
    composer.current_file_query = Some("src".to_string());
    assert_eq!(
        composer.toggle_prompt_stash(),
        vec![
            StashStep::EndFileSearch,
            StashStep::ClosePopup,
            StashStep::ClearRemoteImageSelection,
            StashStep::ResetHistoryNavigation,
            StashStep::ResetFooterMode,
        ]
    );
    assert!(composer.current_file_query.is_none());
    assert_eq!(composer.toggle_prompt_stash().len(), 4);
}

#[test]
fn an_empty_draft_does_not_take_the_slot() {
    let mut composer = new_composer();
    set_text_content(&mut composer, "first", Vec::new());
    assert!(press_ctrl_s(&mut composer));
    composer.draft.pending_pastes = vec![("a".to_string(), "b".to_string())];
    assert!(press_ctrl_s(&mut composer));
    assert_eq!(composer.draft.text, "first");
    assert!(composer.stashed_draft.is_none());
}

#[test]
fn images_alone_make_a_draft() {
    let mut composer = new_composer();
    composer.draft.remote_image_urls = vec!["https://example.com/a.png".to_string()];
    assert!(!composer.draft.is_empty());
    assert!(press_ctrl_s(&mut composer));
    assert!(composer.stashed_draft.is_some());
}

#[test]
fn the_indicator_and_the_placeholder_follow_the_slot() {
    let mut composer = new_composer();
    assert_eq!(composer.prompt_stash_indicator_line(), None);
    assert_eq!(composer.prompt_stash_placeholder(None), None);
    set_text_content(&mut composer, "first", Vec::new());
    assert!(press_ctrl_s(&mut composer));
    assert_eq!(
        composer.prompt_stash_indicator_line(),
        Some("● 1 prompt stashed")
    );
    assert_eq!(
        composer.prompt_stash_placeholder(None),
        Some("Prompt stashed. Press the stash shortcut to restore.".to_string())
    );
}

#[test]
fn other_keys_leave_the_drafts_alone() {
    let mut composer = new_composer();
    set_text_content(&mut composer, "first", Vec::new());
    let (redraw, steps) = composer.handle_stash_key(KeyChord {
        code: KeyCode::Char('s'),
        modifiers: 0,
    });
    assert!(!redraw);
    assert!(steps.is_empty());
    assert_eq!(composer.draft.text, "first");
}
