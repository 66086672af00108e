use codex_tui::diff_model::{FileChange, SessionFileChange};
use codex_tui::session_changes::{
    current_path, session_change_key, BegunChange, ObservedChange, SessionChanges,
};
use codex_tui::spawn_requests::SpawnRequests;
use codex_tui::tool_lifecycle::{
    handle_file_change_completed_now, handle_mcp_tool_call_completed_now,
    handle_mcp_tool_call_started_now, handle_queued_item_completed_now,
    handle_queued_item_started_now, on_collab_agent_tool_call, on_collab_event,
    on_file_change_completed, on_image_generation_begin, on_image_generation_end,
    on_mcp_tool_call_completed, on_mcp_tool_call_started, on_patch_apply_begin,
    on_sub_agent_activity, on_view_image_tool_call, on_web_search_begin, on_web_search_end,
    CollabAgentTool, CollabAgentToolCallStatus, ItemHandler, ItemQueue, McpAnswer, McpCell,
    McpToolCall, McpToolCallStatus, PatchApplyStatus, ThreadItem, ToolStep,
};
use similar::TextDiff;
use std::path::PathBuf;

fn path(name: &str) -> PathBuf {
    PathBuf::from(name)
}

fn edit(before: &str, after: &str, move_path: Option<&str>) -> FileChange {
    FileChange::Update {
        unified_diff: if before == after {
            String::new()
        } else {
            TextDiff::from_lines(before, after)
                .unified_diff()
                .context_radius(3)
                .to_string()
        },
        move_path: move_path.map(path),
    }
}

fn begun(name: &str, change: FileChange, original: Option<&str>) -> BegunChange {
    BegunChange {
        path: path(name),
        change,
        original_content: original.map(|text| text.to_string()),
    }
}

fn observed(name: &str, change: FileChange, current: Option<&str>) -> ObservedChange {
    ObservedChange {
        path: path(name),
        change,
        current_content: current.map(|text| text.to_string()),
    }
}

fn patch(changes: Vec<ObservedChange>, patch_status: PatchApplyStatus) -> ThreadItem<u8> {
    ThreadItem::FileChange {
        changes,
        patch_status,
    }
}

fn names<C>(steps: &[ToolStep<C>]) -> Vec<&'static str> {
    steps
        .iter()
        .map(|step| match step {
            ToolStep::FlushAnswerStream => "flush answer",
            ToolStep::FlushActiveCell => "flush cell",
            ToolStep::StartActiveCell(_) => "start",
            ToolStep::UpdateActiveCell(_) => "update",
            ToolStep::CompleteActiveCell => "complete",
            ToolStep::EndActiveCell(_) => "end",
            ToolStep::BumpActiveCellRevision => "bump",
            ToolStep::AddToHistory(_) => "add",
            ToolStep::AddExtraCell => "add extra",
            ToolStep::EnsureStatusIndicator => "indicator",
            ToolStep::RequestRedraw => "redraw",
            ToolStep::MarkWorkActivity => "work",
        })
        .collect()
}

#[test]
fn later_edit_uses_the_original_session_key_after_a_move() {
    let source = PathBuf::from("source.txt");
    let destination = PathBuf::from("destination.txt");
    let change = FileChange::Update {
        unified_diff: String::new(),
        move_path: Some(destination.clone()),
    };
    let mut changes = SessionChanges::new();
    changes.begin_changes(&vec![BegunChange {
        path: source.clone(),
        change: change.clone(),
        original_content: Some("same\n".to_string()),
    }]);
    changes.complete_changes(&vec![ObservedChange {
        path: source.clone(),
        change,
        current_content: Some("same\n".to_string()),
    }]);

    assert_eq!(session_change_key(&changes, &destination), source);
}

#[test]
fn an_edit_after_a_move_stays_one_entry() {
    let mut session = SessionChanges::new();
    let moved = edit("one\n", "one\n", Some("b.txt"));
    let _ = on_patch_apply_begin(
        &mut session,
        vec![begun("a.txt", moved.clone(), Some("one\n"))],
    );
    let _ = handle_file_change_completed_now(
        &mut session,
        &patch(
            vec![observed("a.txt", moved, Some("one\n"))],
            PatchApplyStatus::Completed,
        ),
    );
    let edited = edit("one\n", "two\n", None);
    let _ = on_patch_apply_begin(
        &mut session,
        vec![begun("b.txt", edited.clone(), Some("one\n"))],
    );
    assert_eq!(session.len(), 1);
    let _ = handle_file_change_completed_now(
        &mut session,
        &patch(
            vec![observed("b.txt", edited, Some("two\n"))],
            PatchApplyStatus::Completed,
        ),
    );
    let visible = session.session_file_changes();
    assert_eq!(visible.len(), 1);
    assert_eq!(visible[0].path, path("a.txt"));
    assert!(visible[0].change.moved_to(&path("b.txt")));
    assert!(session.get(&path("b.txt")).is_none());
}

#[test]
fn a_patch_begins_with_a_block_and_pending_entries() {
    let mut session = SessionChanges::new();
    let change = edit("a\n", "b\n", None);
    let steps = on_patch_apply_begin(&mut session, vec![begun("a.txt", change, Some("a\n"))]);
    assert_eq!(names(&steps), vec!["add"]);
    assert_eq!(session.len(), 1);
    assert!(session.session_file_changes().is_empty());
    let pending = session.get(&path("a.txt")).expect("a pending entry");
    assert!(!pending.is_completed());
}

#[test]
fn a_second_beginning_keeps_the_first_baseline() {
    let mut session = SessionChanges::new();
    session.begin_changes(&vec![begun("a.txt", edit("a\n", "b\n", None), Some("a\n"))]);
    session.complete_changes(&vec![observed(
        "a.txt",
        edit("a\n", "b\n", None),
        Some("b\n"),
    )]);
    session.begin_changes(&vec![begun("a.txt", edit("b\n", "c\n", None), Some("b\n"))]);
    session.complete_changes(&vec![observed(
        "a.txt",
        edit("b\n", "c\n", None),
        Some("c\n"),
    )]);
    let visible = session.session_file_changes();
    let FileChange::Update { unified_diff, .. } = visible[0].change.display_change(3) else {
        panic!("expected an update");
    };
    assert!(unified_diff.contains("-a"));
    assert!(unified_diff.contains("+c"));
}

#[test]
fn failed_and_declined_patches_take_pending_entries_away() {
    for (status, steps) in [
        (PatchApplyStatus::Failed, vec!["add", "work"]),
        (PatchApplyStatus::Declined, vec!["work"]),
        (PatchApplyStatus::InProgress, vec!["work"]),
    ] {
        let mut session = SessionChanges::new();
        let change = edit("a\n", "b\n", None);
        session.begin_changes(&vec![begun("a.txt", change.clone(), Some("a\n"))]);
        let taken = handle_file_change_completed_now(
            &mut session,
            &patch(vec![observed("a.txt", change, Some("a\n"))], status),
        );
        assert_eq!(names(&taken), steps);
        assert_eq!(session.len(), 0);
    }
}

#[test]
fn a_failed_patch_keeps_what_was_completed_before() {
    let mut session = SessionChanges::new();
    session.begin_changes(&vec![begun("a.txt", edit("a\n", "b\n", None), Some("a\n"))]);
    session.complete_changes(&vec![observed(
        "a.txt",
        edit("a\n", "b\n", None),
        Some("b\n"),
    )]);
    session.abandon_changes(&vec![observed(
        "a.txt",
        edit("b\n", "c\n", None),
        Some("b\n"),
    )]);
    assert_eq!(session.session_file_changes().len(), 1);
}

#[test]
fn a_file_that_is_back_where_it_started_is_dropped() {
    let mut session = SessionChanges::new();
    session.begin_changes(&vec![begun("a.txt", edit("a\n", "b\n", None), Some("a\n"))]);
    session.complete_changes(&vec![
        observed("a.txt", edit("a\n", "b\n", None), Some("b\n")),
        observed("a.txt", edit("b\n", "a\n", None), Some("a\n")),
    ]);
    assert_eq!(session.len(), 0);
}

#[test]
fn a_change_first_seen_completed_is_resolved_when_shown() {
    let mut session = SessionChanges::new();
    session.complete_changes(&vec![observed(
        "a.txt",
        edit("a\n", "b\n", None),
        Some("b\n"),
    )]);
    assert!(session
        .get(&path("a.txt"))
        .expect("an entry")
        .baseline_is_inferred());
    let visible = session.session_file_changes();
    assert_eq!(visible.len(), 1);
    assert!(!visible[0].change.baseline_is_inferred());
    assert!(!visible[0].change.reconstruction_unavailable());
    session.clear_session_file_changes();
    assert_eq!(session.len(), 0);
}

#[test]
fn other_items_are_no_patches() {
    let mut session = SessionChanges::new();
    let steps = handle_file_change_completed_now(&mut session, &ThreadItem::<u8>::Other);
    assert!(steps.is_empty());
}

#[test]
fn a_moved_file_is_read_where_it_went() {
    let moved = edit("a\n", "a\n", Some("b.txt"));
    assert_eq!(current_path(&path("a.txt"), &moved), &path("b.txt"));
    let edited = edit("a\n", "b\n", None);
    assert_eq!(current_path(&path("a.txt"), &edited), &path("a.txt"));
}

#[test]
fn paths_are_compared_by_their_components() {
    let change = SessionFileChange::new(None, edit("a\n", "a\n", Some("dir//b.txt")));
    assert!(change.moved_to(&path("dir/b.txt")));
    assert!(!change.moved_to(&path("dir/c.txt")));
}

#[test]
fn images_enter_the_history() {
    assert_eq!(
        names(&on_view_image_tool_call("a.png")),
        vec!["flush answer", "add", "redraw"]
    );
    assert_eq!(
        names(&on_image_generation_begin(true)),
        vec!["flush answer", "indicator"]
    );
    assert_eq!(
        names(&on_image_generation_begin(false)),
        vec!["flush answer"]
    );
    let steps = on_image_generation_end(
        "call".to_string(),
        "completed".to_string(),
        Some("a cat".to_string()),
        Some(path("/tmp/cat.png")),
    );
    assert_eq!(names(&steps), vec!["flush answer", "add", "redraw"]);
    match &steps[1] {
        ToolStep::AddToHistory(image) => {
            assert_eq!(image.call_id, "call");
            assert_eq!(image.status, "completed");
            assert_eq!(image.revised_prompt.as_deref(), Some("a cat"));
            assert_eq!(image.saved_path, Some(path("/tmp/cat.png")));
        }
        _ => panic!("expected the image"),
    }
}

#[test]
fn a_web_search_ends_in_its_own_cell_or_in_the_history() {
    let steps = on_web_search_begin::<u8>("call".to_string());
    assert_eq!(
        names(&steps),
        vec!["flush answer", "flush cell", "start", "bump", "redraw"]
    );
    let ours = on_web_search_end(Some("call"), "call".to_string(), "cats".to_string(), 3u8);
    assert_eq!(
        names(&ours),
        vec![
            "flush answer",
            "update",
            "complete",
            "bump",
            "flush cell",
            "work"
        ]
    );
    match &ours[1] {
        ToolStep::UpdateActiveCell(search) => {
            assert_eq!(search.query, "cats");
            assert_eq!(search.action, Some(3));
        }
        _ => panic!("expected the search"),
    }
    for active in [None, Some("other")] {
        let steps = on_web_search_end(active, "call".to_string(), "cats".to_string(), 3u8);
        assert_eq!(names(&steps), vec!["flush answer", "add", "work"]);
    }
}

#[test]
fn collaborators_show_where_they_have_a_cell() {
    assert_eq!(
        names(&on_collab_event("cell")),
        vec!["flush answer", "add", "redraw"]
    );
    assert_eq!(
        names(&on_sub_agent_activity(Some("cell"))),
        vec!["flush answer", "add", "redraw"]
    );
    assert!(on_sub_agent_activity::<u8>(None).is_empty());
}

fn collab(
    id: &str,
    tool: CollabAgentTool,
    call_status: CollabAgentToolCallStatus,
) -> ThreadItem<u8> {
    ThreadItem::CollabAgentToolCall {
        id: id.to_string(),
        tool,
        call_status,
    }
}

#[test]
fn a_spawn_request_waits_for_its_call_to_end() {
    let mut pending = SpawnRequests::new();
    let running = CollabAgentToolCallStatus::InProgress;
    let done = CollabAgentToolCallStatus::Completed;
    let spawn = CollabAgentTool::SpawnAgent;
    assert_eq!(
        on_collab_agent_tool_call(&mut pending, &collab("1", spawn, running), Some("first")),
        Some(None)
    );
    assert_eq!(
        on_collab_agent_tool_call(&mut pending, &collab("2", spawn, running), Some("second")),
        Some(None)
    );
    assert_eq!(pending.len(), 2);
    assert_eq!(
        on_collab_agent_tool_call(
            &mut pending,
            &collab("1", CollabAgentTool::Other, done),
            Some("ignored")
        ),
        Some(None)
    );
    assert_eq!(pending.len(), 2);
    assert_eq!(
        on_collab_agent_tool_call(&mut pending, &collab("1", spawn, done), None),
        Some(Some("first"))
    );
    assert_eq!(
        on_collab_agent_tool_call(&mut pending, &collab("1", spawn, done), None),
        Some(None)
    );
    assert_eq!(
        on_collab_agent_tool_call(&mut pending, &collab("2", spawn, done), Some("newer")),
        Some(Some("newer"))
    );
    assert_eq!(pending.len(), 0);
    assert_eq!(
        on_collab_agent_tool_call(&mut pending, &ThreadItem::<u8>::Other, Some("ignored")),
        None
    );
}

fn call(
    status: McpToolCallStatus,
    result: Option<McpAnswer<u8>>,
    error: Option<&str>,
    duration_ms: Option<i64>,
) -> ThreadItem<u8> {
    ThreadItem::McpToolCall(McpToolCall {
        id: "call".to_string(),
        server: "server".to_string(),
        tool: "tool".to_string(),
        status,
        arguments: 9,
        result,
        error: error.map(|text| text.to_string()),
        duration_ms,
    })
}

fn answer() -> Option<McpAnswer<u8>> {
    Some(McpAnswer {
        content: vec![1, 2],
        structured_content: Some(3),
    })
}

#[test]
fn an_mcp_call_starts_in_a_cell_of_its_own() {
    let steps = handle_mcp_tool_call_started_now(call(
        McpToolCallStatus::InProgress,
        None,
        None,
        None,
    ));
    assert_eq!(
        names(&steps),
        vec!["flush answer", "flush cell", "start", "bump", "redraw"]
    );
    match &steps[2] {
        ToolStep::StartActiveCell(McpCell::Started { id, invocation }) => {
            assert_eq!(id, "call");
            assert_eq!(invocation.server, "server");
            assert_eq!(invocation.tool, "tool");
            assert_eq!(invocation.arguments, Some(9));
        }
        _ => panic!("expected the cell"),
    }
    assert!(handle_mcp_tool_call_started_now(ThreadItem::<u8>::Other).is_empty());
}

fn ended(steps: &[ToolStep<McpCell<u8>>]) -> (u64, Result<(Vec<u8>, Option<u8>, bool), String>) {
    for step in steps {
        if let ToolStep::EndActiveCell(McpCell::Ended {
            duration_ms,
            result,
        }) = step
        {
            let result = match result {
                Ok(answer) => {
                    assert!(answer.meta.is_none());
                    Ok((
                        answer.content.clone(),
                        answer.structured_content,
                        answer.is_error == Some(true),
                    ))
                }
                Err(error) => Err(error.clone()),
            };
            return (*duration_ms, result);
        }
    }
    panic!("expected the call to end")
}

#[test]
fn an_mcp_call_ends_in_its_own_cell_or_in_a_new_one() {
    let done = McpToolCallStatus::Completed;
    let ours = handle_mcp_tool_call_completed_now(Some("call"), call(done, answer(), None, Some(5)));
    assert_eq!(
        names(&ours),
        vec!["flush answer", "end", "flush cell", "add extra", "work"]
    );
    assert_eq!(ended(&ours), (5, Ok((vec![1, 2], Some(3), false))));

    let other = handle_mcp_tool_call_completed_now(
        Some("other"),
        call(McpToolCallStatus::Failed, answer(), None, Some(-5)),
    );
    assert_eq!(
        names(&other),
        vec![
            "flush answer",
            "flush cell",
            "start",
            "end",
            "flush cell",
            "add extra",
            "work"
        ]
    );
    assert_eq!(ended(&other), (0, Ok((vec![1, 2], Some(3), true))));

    let none = handle_mcp_tool_call_completed_now(None, ThreadItem::<u8>::Other);
    assert_eq!(names(&none), vec!["flush answer"]);
}

#[test]
fn an_mcp_error_comes_before_an_answer() {
    let done = McpToolCallStatus::Completed;
    let steps =
        handle_mcp_tool_call_completed_now(Some("call"), call(done, answer(), Some("bad"), None));
    assert_eq!(ended(&steps), (0, Err("bad".to_string())));
    let steps = handle_mcp_tool_call_completed_now(Some("call"), call(done, None, None, None));
    assert_eq!(
        ended(&steps),
        (0, Err("MCP tool call completed without a result".to_string()))
    );
}

#[test]
fn a_waiting_item_gets_the_same_handler() {
    let mcp = call(McpToolCallStatus::InProgress, None, None, None);
    let file = patch(Vec::new(), PatchApplyStatus::Completed);
    let route = on_mcp_tool_call_started();
    assert_eq!(route.queue, ItemQueue::Started);
    assert_eq!(handle_queued_item_started_now(&mcp), Some(route.handler));
    let route = on_mcp_tool_call_completed();
    assert_eq!(route.queue, ItemQueue::Completed);
    assert_eq!(handle_queued_item_completed_now(&mcp), Some(route.handler));
    let route = on_file_change_completed();
    assert_eq!(route.queue, ItemQueue::Completed);
    assert_eq!(handle_queued_item_completed_now(&file), Some(route.handler));

    let command = ThreadItem::<u8>::CommandExecution;
    assert_eq!(
        handle_queued_item_started_now(&command),
        Some(ItemHandler::CommandExecutionStarted)
    );
    assert_eq!(
        handle_queued_item_completed_now(&command),
        Some(ItemHandler::CommandExecutionCompleted)
    );
    assert_eq!(handle_queued_item_started_now(&file), None);
    assert_eq!(handle_queued_item_started_now(&ThreadItem::<u8>::Other), None);
    assert_eq!(
        handle_queued_item_completed_now(&ThreadItem::<u8>::Other),
        None
    );
}

#[test]
fn a_report_on_one_file_leaves_the_others_alone() {
    let mut session = SessionChanges::new();
    session.begin_changes(&vec![
        begun("a.txt", edit("a\n", "b\n", None), Some("a\n")),
        begun("c.txt", edit("c\n", "d\n", None), Some("c\n")),
    ]);
    session.complete_changes(&vec![observed(
        "a.txt",
        edit("a\n", "b\n", None),
        Some("b\n"),
    )]);
    assert!(!session.get(&path("c.txt")).expect("an entry").is_completed());
    session.abandon_changes(&vec![observed(
        "c.txt",
        edit("c\n", "d\n", None),
        Some("c\n"),
    )]);
    let visible = session.session_file_changes();
    assert_eq!(visible.len(), 1);
    assert_eq!(visible[0].path, path("a.txt"));
    assert!(session.get(&path("c.txt")).is_none());
}

#[test]
fn an_entry_keeps_the_way_its_path_was_first_written() {
    let mut session = SessionChanges::new();
    let first = edit("a\n", "b\n", None);
    session.complete_changes(&vec![observed("dir/a.txt", first, Some("b\n"))]);
    let second = edit("b\n", "c\n", None);
    session.complete_changes(&vec![observed("dir//a.txt", second, Some("c\n"))]);
    let visible = session.session_file_changes();
    assert_eq!(visible.len(), 1);
    assert_eq!(visible[0].path.to_str(), Some("dir/a.txt"));
}
