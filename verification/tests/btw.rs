use codex_tui::btw_prompt::{
    btw_conversation, btw_prompt, btw_response, on_btw_thread_started, start_btw,
    thread_start_action, truncate_context, BufferedEvent, ContextItem, ThreadStart, ThreadStore,
    TurnOutcome, BTW_PROMPT_MAX_BYTES, BTW_PROMPT_PREFIX, OMISSION_MARKER,
};
use codex_tui::btw_view::{
    cursor_area, desired_height, handle_paste, input_height, key_action, open_btw_prompt, render,
    shown_history, usable_width, BtwView, DrawOp, KeyAction, KeyPress, Rect, TextAreaFacts,
    ViewCompletion, MAX_EXCHANGES, PLACEHOLDER, THINKING_LINE,
};
use codex_tui::keys::KeyCode;

const PARENT: u128 = 7;

fn enter() -> KeyPress {
    KeyPress {
        code: KeyCode::Enter,
        no_modifiers: true,
        ctrl_or_alt: false,
    }
}

fn facts() -> TextAreaFacts {
    TextAreaFacts {
        handles_vim_escape: false,
        allows_paste_burst: true,
    }
}

fn wrap(text: String, width: usize) -> Vec<String> {
    let chars: Vec<char> = text.chars().collect();
    chars.chunks(width).map(|part| part.iter().collect()).collect()
}

fn history(view: &BtwView, width: u16) -> Vec<String> {
    view.history_lines(width, wrap, THINKING_LINE.to_string())
}

#[test]
fn submitting_a_question_emits_a_btw_request_and_waits_for_response() {
    let mut view = BtwView::new(PARENT, "what changed?".to_string());

    let (action, event) = view.handle_key_event(enter(), facts());

    assert_eq!(action, KeyAction::Submit);
    let event = event.expect("expected Btw request");
    assert_eq!(event.question, "what changed?");
    assert_eq!(event.parent_thread_id, PARENT);
    assert!(event.request_id != 0);
    assert_eq!(view.text(), "");
    assert!(view.pending().is_some());
}

fn draw(view: &BtwView, area: Rect) -> Vec<String> {
    let lines = history(view, area.width);
    let mut rows = vec![vec![' '; area.width as usize]; area.height as usize];
    let ops = render(area, lines.len(), 1, view.text().is_empty());
    for op in ops {
        let (rect, text) = match op {
            DrawOp::Title { area } => (area, "▌ btw".to_string()),
            DrawOp::HistoryLine { index, area } => (area, lines[index].clone()),
            DrawOp::Gutter { area } => (area, "▌ ".to_string()),
            DrawOp::Clear { area } => (area, " ".repeat(area.width as usize)),
            DrawOp::TextArea { area } => (area, view.text().to_string()),
            DrawOp::Placeholder { area } => (area, PLACEHOLDER.to_string()),
            DrawOp::Hint { area } => (area, "enter to ask, esc to close".to_string()),
        };
        for (i, c) in text.chars().take(rect.width as usize).enumerate() {
            rows[(rect.y - area.y) as usize][(rect.x - area.x) as usize + i] = c;
        }
    }
    rows.iter()
        .map(|row| row.iter().collect::<String>().trim_end().to_string())
        .collect()
}

#[test]
fn response_is_rendered_without_completing_the_inline_panel() {
    let mut view = BtwView::new(PARENT, "what changed?".to_string());
    let (_, event) = view.handle_key_event(enter(), facts());
    let request_id = event.expect("expected Btw request").request_id;

    assert!(view.apply_btw_response(request_id, Ok("Two files changed.".to_string())));
    assert!(!view.is_complete());
    assert!(view.pending().is_none());

    let height = desired_height(history(&view, 60).len(), 1);
    assert_eq!(height, 7);
    let area = Rect {
        x: 0,
        y: 0,
        width: 60,
        height,
    };
    assert_eq!(
        draw(&view, area),
        vec![
            "▌ btw",
            "  you: what changed?",
            "  btw: Two files changed.",
            "▌",
            "▌ Ask about the current conversation",
            "",
            "enter to ask, esc to close",
        ]
    );
}

#[test]
fn stale_response_does_not_change_the_panel() {
    let mut view = BtwView::new(PARENT, String::new());

    assert!(!view.apply_btw_response(uuid::Uuid::new_v4().as_u128(), Err("stale".to_string())));
    assert_eq!(view.exchange_count(), 0);
}

#[test]
fn request_ids_are_random_uuids() {
    let mut ids = Vec::new();
    for _ in 0..8 {
        let (_, request) = open_btw_prompt(PARENT, "why?".to_string());
        let id = request.expect("a request").request_id;
        let uuid = uuid::Uuid::from_u128(id);
        assert_eq!(uuid.get_version_num(), 4);
        assert_eq!(uuid.get_variant(), uuid::Variant::RFC4122);
        assert!(!ids.contains(&id));
        ids.push(id);
    }
}

#[test]
fn a_text_to_start_from_is_asked_only_where_it_says_something() {
    let (view, request) = open_btw_prompt(PARENT, " why?\n".to_string());
    assert_eq!(request.expect("a request").question, "why?");
    assert_eq!(view.text(), "");
    let (view, request) = open_btw_prompt(PARENT, " \n".to_string());
    assert!(request.is_none());
    assert_eq!(view.text(), " \n");
    assert_eq!(view.cursor(), 2);
}

#[test]
fn one_question_is_open_at_a_time() {
    let mut view = BtwView::new(PARENT, "first".to_string());
    assert!(view.submit_as(1).is_some());
    view.set_text("second".to_string(), 6);
    assert!(view.submit_as(2).is_none());
    assert_eq!(view.text(), "second");
    assert_eq!(view.pending(), Some((1, "first")));
    assert!(!view.apply_btw_response(2, Ok("no".to_string())));
    assert!(view.apply_btw_response(1, Ok("yes".to_string())));
    assert!(!view.apply_btw_response(1, Ok("again".to_string())));
    assert_eq!(view.exchange_count(), 1);
}

#[test]
fn the_oldest_exchange_goes_first() {
    let mut view = BtwView::new(PARENT, String::new());
    for n in 0..25u128 {
        view.set_text(format!("q{n}"), 2);
        assert!(view.submit_as(n).is_some());
        assert!(view.apply_btw_response(n, Ok(format!("a{n}"))));
    }
    assert_eq!(view.exchange_count(), MAX_EXCHANGES);
    let entries = view.history_entries();
    assert_eq!(entries.len(), 40);
    assert_eq!(entries[0], "you: q5");
    assert_eq!(entries[39], "btw: a24");
    let lines = history(&view, 80);
    assert_eq!(lines.len(), 14);
    assert_eq!(lines[0], "you: q18");
}

#[test]
fn errors_and_open_questions_show_in_the_history() {
    let mut view = BtwView::new(PARENT, "why?".to_string());
    assert!(view.submit_as(1).is_some());
    assert_eq!(history(&view, 80), vec!["btw: thinking…"]);
    assert!(view.apply_btw_response(1, Err("offline".to_string())));
    assert_eq!(history(&view, 80), vec!["you: why?", "btw error: offline"]);
    assert_eq!(history(&view, 0).len(), 14);
}

#[test]
fn the_last_lines_are_shown() {
    let wrapped = vec![(0..10).collect::<Vec<i32>>(), (10..20).collect()];
    assert_eq!(
        shown_history(wrapped, Some(20)),
        (7..21).collect::<Vec<i32>>()
    );
    assert_eq!(shown_history(vec![vec![1], vec![2, 3]], None), vec![1, 2, 3]);
}

#[test]
fn keys_go_where_they_belong() {
    let key = |code, no_modifiers, ctrl_or_alt| KeyPress {
        code,
        no_modifiers,
        ctrl_or_alt,
    };
    let vim = TextAreaFacts {
        handles_vim_escape: true,
        allows_paste_burst: false,
    };
    assert_eq!(
        key_action(key(KeyCode::Esc, true, false), facts()),
        KeyAction::Cancel
    );
    assert_eq!(
        key_action(key(KeyCode::Esc, true, false), vim),
        KeyAction::InputAndEndBurst
    );
    assert_eq!(
        key_action(key(KeyCode::Enter, false, false), facts()),
        KeyAction::InputAndEndBurst
    );
    assert_eq!(
        key_action(key(KeyCode::Char('a'), true, false), facts()),
        KeyAction::InputPlainChar
    );
    assert_eq!(
        key_action(key(KeyCode::Char('a'), false, true), facts()),
        KeyAction::InputAndEndBurst
    );
    assert_eq!(
        key_action(key(KeyCode::Char('a'), true, false), vim),
        KeyAction::InputAndEndBurst
    );
    assert_eq!(
        key_action(key(KeyCode::Tab, true, false), facts()),
        KeyAction::InputTab
    );
    assert_eq!(
        key_action(key(KeyCode::Other(3), true, false), facts()),
        KeyAction::InputAndEndBurst
    );
}

#[test]
fn escape_leaves_the_panel() {
    let mut view = BtwView::new(PARENT, "draft".to_string());
    let escape = KeyPress {
        code: KeyCode::Esc,
        no_modifiers: true,
        ctrl_or_alt: false,
    };
    let (action, request) = view.handle_key_event(escape, facts());
    assert_eq!(action, KeyAction::Cancel);
    assert!(request.is_none());
    assert!(view.is_complete());
    assert_eq!(view.completion(), Some(ViewCompletion::Cancelled));
}

#[test]
fn empty_pastes_are_ignored() {
    assert!(!handle_paste(""));
    assert!(handle_paste(" "));
}

#[test]
fn the_panel_is_as_high_as_it_needs_to_be() {
    assert_eq!(usable_width(1), 0);
    assert_eq!(usable_width(60), 58);
    assert_eq!(input_height(0), 2);
    assert_eq!(input_height(6), 7);
    assert_eq!(input_height(u16::MAX), 7);
    assert_eq!(desired_height(14, 9), 24);
    let area = Rect {
        x: 3,
        y: 5,
        width: 40,
        height: 12,
    };
    assert_eq!(
        cursor_area(area, 4, 2),
        Some(Rect {
            x: 5,
            y: 11,
            width: 38,
            height: 2
        })
    );
    assert_eq!(cursor_area(Rect { width: 2, ..area }, 4, 2), None);
    assert_eq!(cursor_area(Rect { height: 1, ..area }, 4, 2), None);
}

#[test]
fn nothing_is_drawn_without_room() {
    let area = Rect {
        x: 0,
        y: 0,
        width: 0,
        height: 4,
    };
    assert!(render(area, 2, 1, true).is_empty());
    let narrow = Rect {
        x: 0,
        y: 0,
        width: 1,
        height: 3,
    };
    assert_eq!(
        render(narrow, 1, 1, true),
        vec![
            DrawOp::Title {
                area: Rect {
                    x: 0,
                    y: 0,
                    width: 1,
                    height: 1
                }
            },
            DrawOp::HistoryLine {
                index: 0,
                area: Rect {
                    x: 2,
                    y: 1,
                    width: 0,
                    height: 1
                }
            },
        ]
    );
}

#[test]
fn rows_past_the_last_one_stay_at_the_last_one() {
    let area = Rect {
        x: u16::MAX,
        y: u16::MAX - 1,
        width: 4,
        height: 9,
    };
    let ops = render(area, 2, 1, false);
    assert_eq!(
        ops[2],
        DrawOp::HistoryLine {
            index: 1,
            area: Rect {
                x: u16::MAX,
                y: u16::MAX,
                width: 2,
                height: 1
            }
        }
    );
    assert!(!ops.iter().any(|op| matches!(op, DrawOp::Hint { .. })));
}

fn item(id: &str, text: &str) -> ContextItem {
    ContextItem {
        id: id.to_string(),
        is_reasoning: false,
        json: Some(text.to_string()),
    }
}

#[test]
fn the_conversation_names_each_item_once() {
    let store = ThreadStore {
        turns: vec![
            vec![
                item("1", "one"),
                ContextItem {
                    id: "2".to_string(),
                    is_reasoning: true,
                    json: Some("secret".to_string()),
                },
            ],
            vec![item("1", "one again"), item("3", "three")],
        ],
        buffer: vec![
            BufferedEvent::Other,
            BufferedEvent::ItemCompleted(item("2", "two, too late")),
            BufferedEvent::ItemCompleted(item("4", "four")),
            BufferedEvent::ItemCompleted(ContextItem {
                id: "5".to_string(),
                is_reasoning: false,
                json: None,
            }),
        ],
    };
    assert_eq!(btw_conversation(Some(&store)), "one\nthree\nfour");
    assert_eq!(btw_conversation(None), "");
}

#[test]
fn the_prompt_frames_the_conversation_and_the_question() {
    assert_eq!(
        btw_prompt("talk", "  why?  "),
        format!("{BTW_PROMPT_PREFIX}talk\n</reference_context>\n\nQuestion:\nwhy?\n")
    );
    assert!(BTW_PROMPT_PREFIX.starts_with(
        "Answer the user's side question using only the reference conversation and execution history below. This is an inline helper"
    ));
    assert!(BTW_PROMPT_PREFIX.ends_with("`answer` field.\n\n<reference_context>\n"));
}

#[test]
fn prompts_fill_their_bytes_and_no_more() {
    let conversation = "é".repeat(100_000);
    let question = "q".repeat(5_000);
    let prompt = btw_prompt(&conversation, &question);
    assert!(prompt.len() <= BTW_PROMPT_MAX_BYTES);
    assert!(prompt.len() > BTW_PROMPT_MAX_BYTES - 4);
    assert!(prompt.contains(OMISSION_MARKER));
    assert!(prompt.ends_with(&format!("{}\n", "q".repeat(2048))));
    assert!(!prompt.contains(&"q".repeat(2049)));
}

#[test]
fn contexts_keep_a_quarter_from_the_start_and_the_rest_from_the_end() {
    let marker = OMISSION_MARKER.len();
    assert_eq!(marker, 35);
    let text: String = ('a'..='z').cycle().take(100).collect();
    assert_eq!(
        truncate_context(&text, marker + 8),
        format!("{}{}{}", &text[..2], OMISSION_MARKER, &text[94..])
    );
    assert_eq!(truncate_context(&text, marker), text[..35]);
    assert_eq!(truncate_context(&text, 100), text);
    let wide = "é".repeat(50);
    assert_eq!(
        truncate_context(&wide, marker + 8),
        format!("é{}ééé", OMISSION_MARKER)
    );
    assert_eq!(truncate_context(&wide, 3), "é");
    assert_eq!(truncate_context(&wide, 0), "");
}

#[test]
fn questions_are_asked_only_in_the_thread_that_is_shown() {
    let store = ThreadStore {
        turns: vec![vec![item("1", "one")]],
        buffer: Vec::new(),
    };
    assert_eq!(
        start_btw(Some(PARENT), PARENT, Some(&store), "why?"),
        Some(btw_prompt("one", "why?"))
    );
    assert_eq!(start_btw(Some(8), PARENT, Some(&store), "why?"), None);
    assert_eq!(start_btw(None, PARENT, Some(&store), "why?"), None);
}

const THREAD: &str = "67e55044-10b1-426f-9247-bb680e5fe0c8";

#[test]
fn a_started_thread_is_run_or_left() {
    let id = 0x67e55044_10b1_426f_9247_bb680e5fe0c8u128;
    match on_btw_thread_started(Some(PARENT), PARENT, Ok(THREAD.to_string())) {
        ThreadStart::Run {
            thread_id,
            thread_id_text,
        } => {
            assert_eq!(thread_id, id);
            assert_eq!(thread_id_text, THREAD);
        }
        _ => panic!("expected a run"),
    }
    match on_btw_thread_started(Some(8), PARENT, Ok(THREAD.to_string())) {
        ThreadStart::Unsubscribe { thread_id_text } => assert_eq!(thread_id_text, THREAD),
        _ => panic!("expected to leave the thread"),
    }
    match on_btw_thread_started(Some(8), PARENT, Ok("not an id".to_string())) {
        ThreadStart::Respond { error } => {
            assert_eq!(error, "temporary Btw thread returned an invalid ID")
        }
        _ => panic!("expected an error"),
    }
    match on_btw_thread_started(Some(PARENT), PARENT, Err("offline".to_string())) {
        ThreadStart::Respond { error } => assert_eq!(error, "offline"),
        _ => panic!("expected an error"),
    }
    match thread_start_action(Some(PARENT), PARENT, Ok("any".to_string()), Some(3)) {
        ThreadStart::Run {
            thread_id,
            thread_id_text,
        } => {
            assert_eq!(thread_id, 3);
            assert_eq!(thread_id_text, "any");
        }
        _ => panic!("expected a run"),
    }
}

#[test]
fn turns_are_answered_with_what_they_gave() {
    assert_eq!(
        btw_response(TurnOutcome::Answered {
            answer: "yes".to_string()
        }),
        Ok("yes".to_string())
    );
    assert_eq!(
        btw_response(TurnOutcome::Unreadable {
            reason: "expected value".to_string()
        }),
        Err("invalid Btw response: expected value".to_string())
    );
    assert_eq!(
        btw_response(TurnOutcome::Failed {
            reason: "offline".to_string()
        }),
        Err("offline".to_string())
    );
}
