//! How tool calls other than commands show in the transcript: patches, MCP
//! calls, web searches, images and collaborating agents.
//!
//! Each function says which steps the transcript takes, in order. The cell that
//! is active stands outside; where a step depends on it, the caller hands in
//! the call id of an active cell of that kind.

use std::path::PathBuf;
use vstd::prelude::*;

use crate::session_changes::{
    abandon_all, begin_all, complete_all, valid_entries, BegunChange, ObservedChange,
    SessionChanges, SessionEntryView,
};
use crate::spawn_requests::SpawnRequests;
use crate::text::same_text;

verus! {

/// What an MCP call without a result and without an error is answered.
pub const MCP_NO_RESULT: &'static str = "MCP tool call completed without a result";

/// A step that the transcript takes.
pub enum ToolStep<C> {
    /// Ends the answer that is being streamed, with a separator.
    FlushAnswerStream,
    /// Moves the active cell into the history.
    FlushActiveCell,
    /// Makes a cell the active one.
    StartActiveCell(C),
    /// Gives the active cell what the call found.
    UpdateActiveCell(C),
    /// Marks the active cell as complete.
    CompleteActiveCell,
    /// Completes the active cell with what the call ended with. A cell that this
    /// gives rise to is set aside.
    EndActiveCell(C),
    /// Notes that the active cell has changed.
    BumpActiveCellRevision,
    /// Adds a cell to the history.
    AddToHistory(C),
    /// Adds the cell that was set aside to the history, if there is one.
    AddExtraCell,
    /// Shows the status indicator.
    EnsureStatusIndicator,
    /// Asks for a redraw.
    RequestRedraw,
    /// Notes that actual work was done.
    MarkWorkActivity,
}

/// A generated image.
pub struct ImageGeneration {
    pub call_id: String,
    pub status: String,
    pub revised_prompt: Option<String>,
    pub saved_path: Option<PathBuf>,
}

/// A web search: without an action while it runs.
pub struct WebSearch<A> {
    pub call_id: String,
    pub query: String,
    pub action: Option<A>,
}

/// A block that says that a patch could not be applied.
pub struct PatchApplyFailure {
    pub stderr: String,
}

/// How far a patch has come.
#[derive(Clone, Copy, Debug, Eq, PartialEq, Structural)]
pub enum PatchApplyStatus {
    InProgress,
    Completed,
    Failed,
    Declined,
}

/// How far an MCP call has come.
#[derive(Clone, Copy, Debug, Eq, PartialEq, Structural)]
pub enum McpToolCallStatus {
    InProgress,
    Completed,
    Failed,
}

/// What a call to a collaborating agent asks for.
#[derive(Clone, Copy, Debug, Eq, PartialEq, Structural)]
pub enum CollabAgentTool {
    SpawnAgent,
    Other,
}

/// How far a call to a collaborating agent has come.
#[derive(Clone, Copy, Debug, Eq, PartialEq, Structural)]
pub enum CollabAgentToolCallStatus {
    InProgress,
    Completed,
    Failed,
}

/// Which tool of which server an MCP call is for, with what arguments.
pub struct McpInvocation<J> {
    pub server: String,
    pub tool: String,
    pub arguments: Option<J>,
}

/// What an MCP server answered.
pub struct McpAnswer<J> {
    pub content: Vec<J>,
    pub structured_content: Option<J>,
}

/// The answer of an MCP server, as its cell shows it.
pub struct CallToolResult<J> {
    pub content: Vec<J>,
    pub structured_content: Option<J>,
    pub is_error: Option<bool>,
    pub meta: Option<J>,
}

/// An MCP call. The texts of its arguments and its answer are of type `J`.
pub struct McpToolCall<J> {
    pub id: String,
    pub server: String,
    pub tool: String,
    pub status: McpToolCallStatus,
    pub arguments: J,
    pub result: Option<McpAnswer<J>>,
    pub error: Option<String>,
    pub duration_ms: Option<i64>,
}

/// The cell of an MCP call: what it is for, and what it ended with.
pub enum McpCell<J> {
    Started { id: String, invocation: McpInvocation<J> },
    Ended { duration_ms: u64, result: Result<CallToolResult<J>, String> },
}

/// An item of a thread, as far as tool calls are concerned.
pub enum ThreadItem<J> {
    CommandExecution,
    FileChange { changes: Vec<ObservedChange>, patch_status: PatchApplyStatus },
    McpToolCall(McpToolCall<J>),
    CollabAgentToolCall {
        id: String,
        tool: CollabAgentTool,
        call_status: CollabAgentToolCallStatus,
    },
    Other,
}

/// Takes in that a patch is about to be applied: the files it touches are
/// followed from now on, and its changes enter the history.
pub fn on_patch_apply_begin(session: &mut SessionChanges, begun: Vec<BegunChange>) -> (steps: Vec<
    ToolStep<Vec<BegunChange>>,
>)
    ensures
        final(session)@ == begin_all(old(session)@, begun@),
        valid_entries(final(session)@),
        steps@ == seq![ToolStep::AddToHistory(begun)],
{
    session.begin_changes(&begun);
    vec![ToolStep::AddToHistory(begun)]
}

/// The steps for an image that the agent looked at.
pub fn on_view_image_tool_call<P>(path: P) -> (steps: Vec<ToolStep<P>>)
    ensures
        steps@ == seq![
            ToolStep::FlushAnswerStream,
            ToolStep::AddToHistory(path),
            ToolStep::RequestRedraw,
        ],
{
    vec![ToolStep::FlushAnswerStream, ToolStep::AddToHistory(path), ToolStep::RequestRedraw]
}

/// The steps for an image whose generation starts.
pub fn on_image_generation_begin(task_running: bool) -> (steps: Vec<ToolStep<ImageGeneration>>)
    ensures
        steps@ == if task_running {
            seq![
                ToolStep::<ImageGeneration>::FlushAnswerStream,
                ToolStep::EnsureStatusIndicator,
            ]
        } else {
            seq![ToolStep::<ImageGeneration>::FlushAnswerStream]
        },
{
    if task_running {
        vec![ToolStep::FlushAnswerStream, ToolStep::EnsureStatusIndicator]
    } else {
        vec![ToolStep::FlushAnswerStream]
    }
}

/// The steps for an image whose generation ended.
pub fn on_image_generation_end(
    call_id: String,
    status: String,
    revised_prompt: Option<String>,
    saved_path: Option<PathBuf>,
) -> (steps: Vec<ToolStep<ImageGeneration>>)
    ensures
        steps@ == seq![
            ToolStep::FlushAnswerStream,
            ToolStep::AddToHistory(
                (ImageGeneration { call_id, status, revised_prompt, saved_path }),
            ),
            ToolStep::RequestRedraw,
        ],
{
    vec![
        ToolStep::FlushAnswerStream,
        ToolStep::AddToHistory(ImageGeneration { call_id, status, revised_prompt, saved_path }),
        ToolStep::RequestRedraw,
    ]
}

/// The steps for a web search that starts. Its query is not known yet.
pub fn on_web_search_begin<A>(call_id: String) -> (steps: Vec<ToolStep<WebSearch<A>>>)
    ensures
        steps.len() == 5,
        steps[0] == ToolStep::<WebSearch<A>>::FlushAnswerStream,
        steps[1] == ToolStep::<WebSearch<A>>::FlushActiveCell,
        steps[2] matches ToolStep::StartActiveCell(cell) && cell.call_id == call_id
            && cell.query@.len() == 0 && cell.action is None,
        steps[3] == ToolStep::<WebSearch<A>>::BumpActiveCellRevision,
        steps[4] == ToolStep::<WebSearch<A>>::RequestRedraw,
{
    vec![
        ToolStep::FlushAnswerStream,
        ToolStep::FlushActiveCell,
        ToolStep::StartActiveCell(WebSearch { call_id, query: String::new(), action: None }),
        ToolStep::BumpActiveCellRevision,
        ToolStep::RequestRedraw,
    ]
}

/// Whether a call is the one of the active cell.
pub open spec fn is_active(active: Option<&str>, call_id: Seq<char>) -> bool {
    match active {
        Some(id) => id@ == call_id,
        None => false,
    }
}

/// Whether a call is the one of the active cell.
fn check_active(active: Option<&str>, call_id: &str) -> (yes: bool)
    ensures
        yes == is_active(active, call_id@),
{
    match active {
        Some(id) => same_text(id, call_id),
        None => false,
    }
}

/// The steps for a web search that ended: the active cell takes what was found
/// where it is that search, otherwise the search enters the history whole.
pub open spec fn web_search_end_steps<A>(ours: bool, search: WebSearch<A>) -> Seq<
    ToolStep<WebSearch<A>>,
> {
    if ours {
        seq![
            ToolStep::FlushAnswerStream,
            ToolStep::UpdateActiveCell(search),
            ToolStep::CompleteActiveCell,
            ToolStep::BumpActiveCellRevision,
            ToolStep::FlushActiveCell,
            ToolStep::MarkWorkActivity,
        ]
    } else {
        seq![
            ToolStep::FlushAnswerStream,
            ToolStep::AddToHistory(search),
            ToolStep::MarkWorkActivity,
        ]
    }
}

/// The steps for a web search that ended. `active_search` is the call id of the
/// active cell, where that is a web search.
pub fn on_web_search_end<A>(
    active_search: Option<&str>,
    call_id: String,
    query: String,
    action: A,
) -> (steps: Vec<ToolStep<WebSearch<A>>>)
    ensures
        steps@ == web_search_end_steps(
            is_active(active_search, call_id@),
            (WebSearch { call_id, query, action: Some(action) }),
        ),
{
    let ours = check_active(active_search, call_id.as_str());
    let search = WebSearch { call_id, query, action: Some(action) };
    if ours {
        vec![
            ToolStep::FlushAnswerStream,
            ToolStep::UpdateActiveCell(search),
            ToolStep::CompleteActiveCell,
            ToolStep::BumpActiveCellRevision,
            ToolStep::FlushActiveCell,
            ToolStep::MarkWorkActivity,
        ]
    } else {
        vec![
            ToolStep::FlushAnswerStream,
            ToolStep::AddToHistory(search),
            ToolStep::MarkWorkActivity,
        ]
    }
}

/// The steps for something that a collaborating agent did.
pub fn on_collab_event<C>(cell: C) -> (steps: Vec<ToolStep<C>>)
    ensures
        steps@ == seq![
            ToolStep::FlushAnswerStream,
            ToolStep::AddToHistory(cell),
            ToolStep::RequestRedraw,
        ],
{
    vec![ToolStep::FlushAnswerStream, ToolStep::AddToHistory(cell), ToolStep::RequestRedraw]
}

/// The steps for what a sub-agent did, where that has a cell.
pub fn on_sub_agent_activity<C>(cell: Option<C>) -> (steps: Vec<ToolStep<C>>)
    ensures
        steps@ == match cell {
            Some(cell) => seq![
                ToolStep::FlushAnswerStream,
                ToolStep::AddToHistory(cell),
                ToolStep::RequestRedraw,
            ],
            None => Seq::empty(),
        },
{
    match cell {
        Some(cell) => on_collab_event(cell),
        None => Vec::new(),
    }
}

/// The requests that wait once a call to a collaborating agent was reported.
pub open spec fn requests_noted<S>(
    pending: Map<Seq<char>, S>,
    id: Seq<char>,
    tool: CollabAgentTool,
    summary: Option<S>,
) -> Map<Seq<char>, S> {
    if tool == CollabAgentTool::SpawnAgent && summary is Some {
        pending.insert(id, summary->0)
    } else {
        pending
    }
}

/// Notes what a call to a collaborating agent reports. A request to spawn an
/// agent is kept until its call ends. `summary` is the request that the item
/// itself carries. The result is `None` for any other item; otherwise it is the
/// request that the cell of the call is to be made with, and what comes of that
/// cell goes to `on_sub_agent_activity`.
pub fn on_collab_agent_tool_call<J, S>(
    pending: &mut SpawnRequests<S>,
    item: &ThreadItem<J>,
    summary: Option<S>,
) -> (cached: Option<Option<S>>)
    ensures
        match *item {
            ThreadItem::CollabAgentToolCall { id, tool, call_status: status } => {
                let noted = requests_noted(old(pending)@, id@, tool, summary);
                if tool == CollabAgentTool::SpawnAgent && status
                    != CollabAgentToolCallStatus::InProgress {
                    &&& final(pending)@ == noted.remove(id@)
                    &&& cached == Some(
                        if noted.dom().contains(id@) {
                            Some(noted[id@])
                        } else {
                            None
                        },
                    )
                } else {
                    &&& final(pending)@ == noted
                    &&& cached == Some(None::<S>)
                }
            },
            _ => final(pending)@ == old(pending)@ && cached is None,
        },
{
    let (id, tool, status) = match item {
        ThreadItem::CollabAgentToolCall { id, tool, call_status: status } => (id, *tool, *status),
        _ => return None,
    };
    let spawns = match tool {
        CollabAgentTool::SpawnAgent => true,
        CollabAgentTool::Other => false,
    };
    let running = match status {
        CollabAgentToolCallStatus::InProgress => true,
        _ => false,
    };
    if spawns {
        if let Some(summary) = summary {
            pending.insert(id.clone(), summary);
        }
    }
    if spawns && !running {
        Some(pending.remove(id.as_str()))
    } else {
        Some(None)
    }
}

/// The files of a session after a patch has come to an end.
pub open spec fn entries_after_patch(
    entries: Seq<SessionEntryView>,
    changes: Seq<ObservedChange>,
    status: PatchApplyStatus,
) -> Seq<SessionEntryView> {
    if status == PatchApplyStatus::Completed {
        complete_all(entries, changes)
    } else {
        abandon_all(entries, changes)
    }
}

/// Takes in how a patch ended. Where it was applied, the files it touched are
/// brought up to date; otherwise what was pending goes. A failed patch gets a
/// block of its own, and every patch counts as work.
pub fn handle_file_change_completed_now<J>(session: &mut SessionChanges, item: &ThreadItem<J>) -> (
steps: Vec<ToolStep<PatchApplyFailure>>)
    requires
        item matches ThreadItem::FileChange { changes, patch_status: status } ==> status
            == PatchApplyStatus::Completed ==> forall|i: int|
            0 <= i < changes.len() ==> (#[trigger] changes[i]).change@.patchable(),
    ensures
        match *item {
            ThreadItem::FileChange { changes, patch_status: status } => {
                &&& final(session)@ == entries_after_patch(old(session)@, changes@, status)
                &&& steps.len() == if status == PatchApplyStatus::Failed {
                    2
                } else {
                    1int
                }
                &&& status == PatchApplyStatus::Failed ==> (
                steps[0] matches ToolStep::AddToHistory(failure) && failure.stderr@.len() == 0)
                &&& steps@.last() == ToolStep::<PatchApplyFailure>::MarkWorkActivity
            },
            _ => final(session)@ == old(session)@ && steps.len() == 0,
        },
{
    let mut steps: Vec<ToolStep<PatchApplyFailure>> = Vec::new();
    if let ThreadItem::FileChange { changes, patch_status: status } = item {
        match status {
            PatchApplyStatus::Completed => session.complete_changes(changes),
            PatchApplyStatus::Failed => {
                steps.push(ToolStep::AddToHistory(PatchApplyFailure { stderr: String::new() }));
                session.abandon_changes(changes);
            },
            _ => session.abandon_changes(changes),
        }
        steps.push(ToolStep::MarkWorkActivity);
    }
    steps
}

/// The steps for an MCP call that starts; none for any other item.
pub fn handle_mcp_tool_call_started_now<J>(item: ThreadItem<J>) -> (steps: Vec<
    ToolStep<McpCell<J>>,
>)
    ensures
        steps@ == match item {
            ThreadItem::McpToolCall(call) => seq![
                ToolStep::FlushAnswerStream,
                ToolStep::FlushActiveCell,
                ToolStep::StartActiveCell(started_cell(call)),
                ToolStep::BumpActiveCellRevision,
                ToolStep::RequestRedraw,
            ],
            _ => Seq::empty(),
        },
{
    match item {
        ThreadItem::McpToolCall(call) => vec![
            ToolStep::FlushAnswerStream,
            ToolStep::FlushActiveCell,
            ToolStep::StartActiveCell(
                McpCell::Started {
                    id: call.id,
                    invocation: McpInvocation {
                        server: call.server,
                        tool: call.tool,
                        arguments: Some(call.arguments),
                    },
                },
            ),
            ToolStep::BumpActiveCellRevision,
            ToolStep::RequestRedraw,
        ],
        _ => Vec::new(),
    }
}

/// The cell that a running MCP call shows.
pub open spec fn started_cell<J>(call: McpToolCall<J>) -> McpCell<J> {
    McpCell::Started {
        id: call.id,
        invocation: McpInvocation {
            server: call.server,
            tool: call.tool,
            arguments: Some(call.arguments),
        },
    }
}

/// How long a call took: no time where that is not known or makes no sense.
pub open spec fn call_duration(duration_ms: Option<i64>) -> int {
    match duration_ms {
        Some(ms) if ms > 0 => ms as int,
        _ => 0,
    }
}

/// Whether `result` is what an MCP call ended with: its error where it has one,
/// else its answer, marked as an error where the call failed, else a note that
/// there was none.
pub open spec fn is_call_result<J>(
    call: McpToolCall<J>,
    result: Result<CallToolResult<J>, String>,
) -> bool {
    match (call.error, call.result) {
        (Some(message), _) => result == Err::<CallToolResult<J>, String>(message),
        (None, Some(answer)) => result == Ok::<CallToolResult<J>, String>(
            CallToolResult {
                content: answer.content,
                structured_content: answer.structured_content,
                is_error: Some(call.status == McpToolCallStatus::Failed),
                meta: None,
            },
        ),
        (None, None) => result matches Err(message) && message@ == MCP_NO_RESULT@,
    }
}

/// Whether a step completes the active cell with what an MCP call ended with.
pub open spec fn ends_call<J>(step: ToolStep<McpCell<J>>, call: McpToolCall<J>) -> bool {
    step matches ToolStep::EndActiveCell(McpCell::Ended { duration_ms, result }) && duration_ms
        == call_duration(call.duration_ms) && is_call_result(call, result)
}

/// What an MCP call ended with.
fn call_result<J>(
    failed: bool,
    result: Option<McpAnswer<J>>,
    error: Option<String>,
) -> (ended: Result<CallToolResult<J>, String>)
    ensures
        match (error, result) {
            (Some(message), _) => ended == Err::<CallToolResult<J>, String>(message),
            (None, Some(answer)) => ended == Ok::<CallToolResult<J>, String>(
                CallToolResult {
                    content: answer.content,
                    structured_content: answer.structured_content,
                    is_error: Some(failed),
                    meta: None,
                },
            ),
            (None, None) => ended matches Err(message) && message@ == MCP_NO_RESULT@,
        },
{
    match error {
        Some(message) => Err(message),
        None => match result {
            Some(answer) => Ok(
                CallToolResult {
                    content: answer.content,
                    structured_content: answer.structured_content,
                    is_error: Some(failed),
                    meta: None,
                },
            ),
            None => Err(MCP_NO_RESULT.to_string()),
        },
    }
}

/// The steps for an MCP call that ended. `active_call` is the call id of the
/// active cell, where that is an MCP call. A call that is not the active one
/// gets a cell of its own first. The answer that is being streamed ends even
/// where the item is no MCP call.
pub fn handle_mcp_tool_call_completed_now<J>(
    active_call: Option<&str>,
    item: ThreadItem<J>,
) -> (steps: Vec<ToolStep<McpCell<J>>>)
    ensures
        steps.len() > 0,
        steps[0] == ToolStep::<McpCell<J>>::FlushAnswerStream,
        match item {
            ThreadItem::McpToolCall(call) => {
                let at: int = if is_active(active_call, call.id@) {
                    1
                } else {
                    3
                };
                &&& steps.len() == at + 4
                &&& !is_active(active_call, call.id@) ==> {
                    &&& steps[1] == ToolStep::<McpCell<J>>::FlushActiveCell
                    &&& steps[2] == ToolStep::StartActiveCell(started_cell(call))
                }
                &&& ends_call(steps[at], call)
                &&& steps[at + 1] == ToolStep::<McpCell<J>>::FlushActiveCell
                &&& steps[at + 2] == ToolStep::<McpCell<J>>::AddExtraCell
                &&& steps[at + 3] == ToolStep::<McpCell<J>>::MarkWorkActivity
            },
            _ => steps.len() == 1,
        },
{
    let mut steps: Vec<ToolStep<McpCell<J>>> = vec![ToolStep::FlushAnswerStream];
    if let ThreadItem::McpToolCall(call) = item {
        let ours = check_active(active_call, call.id.as_str());
        let duration_ms: u64 = match call.duration_ms {
            Some(ms) if ms > 0 => ms as u64,
            _ => 0,
        };
        let failed = match call.status {
            McpToolCallStatus::Failed => true,
            _ => false,
        };
        let result = call_result(failed, call.result, call.error);
        if !ours {
            steps.push(ToolStep::FlushActiveCell);
            steps.push(
                ToolStep::StartActiveCell(
                    McpCell::Started {
                        id: call.id,
                        invocation: McpInvocation {
                            server: call.server,
                            tool: call.tool,
                            arguments: Some(call.arguments),
                        },
                    },
                ),
            );
        }
        steps.push(ToolStep::EndActiveCell(McpCell::Ended { duration_ms, result }));
        steps.push(ToolStep::FlushActiveCell);
        steps.push(ToolStep::AddExtraCell);
        steps.push(ToolStep::MarkWorkActivity);
    }
    steps
}

/// Which function takes an item in.
#[derive(Clone, Copy, Debug, Eq, PartialEq, Structural)]
pub enum ItemHandler {
    CommandExecutionStarted,
    CommandExecutionCompleted,
    FileChangeCompleted,
    McpToolCallStarted,
    McpToolCallCompleted,
}

/// Where an item waits while an answer is being streamed.
#[derive(Clone, Copy, Debug, Eq, PartialEq, Structural)]
pub enum ItemQueue {
    Started,
    Completed,
}

/// What becomes of an item: it waits in a queue, or a function takes it in.
#[derive(Clone, Copy, Debug, Eq, PartialEq, Structural)]
pub struct ItemRoute {
    pub queue: ItemQueue,
    pub handler: ItemHandler,
}

/// What becomes of a patch that ended.
pub fn on_file_change_completed() -> (route: ItemRoute)
    ensures
        route == file_change_completed_route(),
{
    ItemRoute { queue: ItemQueue::Completed, handler: ItemHandler::FileChangeCompleted }
}

/// What becomes of an MCP call that starts.
pub fn on_mcp_tool_call_started() -> (route: ItemRoute)
    ensures
        route == mcp_started_route(),
{
    ItemRoute { queue: ItemQueue::Started, handler: ItemHandler::McpToolCallStarted }
}

/// What becomes of an MCP call that ended.
pub fn on_mcp_tool_call_completed() -> (route: ItemRoute)
    ensures
        route == mcp_completed_route(),
{
    ItemRoute { queue: ItemQueue::Completed, handler: ItemHandler::McpToolCallCompleted }
}

/// What becomes of a patch that ended.
pub open spec fn file_change_completed_route() -> ItemRoute {
    ItemRoute { queue: ItemQueue::Completed, handler: ItemHandler::FileChangeCompleted }
}

/// What becomes of an MCP call that starts.
pub open spec fn mcp_started_route() -> ItemRoute {
    ItemRoute { queue: ItemQueue::Started, handler: ItemHandler::McpToolCallStarted }
}

/// What becomes of an MCP call that ended.
pub open spec fn mcp_completed_route() -> ItemRoute {
    ItemRoute { queue: ItemQueue::Completed, handler: ItemHandler::McpToolCallCompleted }
}

/// Which function takes in an item that waited in a queue, if any does.
pub open spec fn handler_for<J>(queue: ItemQueue, item: ThreadItem<J>) -> Option<ItemHandler> {
    match (queue, item) {
        (ItemQueue::Started, ThreadItem::CommandExecution) => Some(
            ItemHandler::CommandExecutionStarted,
        ),
        (ItemQueue::Started, ThreadItem::McpToolCall(_)) => Some(ItemHandler::McpToolCallStarted),
        (ItemQueue::Completed, ThreadItem::CommandExecution) => Some(
            ItemHandler::CommandExecutionCompleted,
        ),
        (ItemQueue::Completed, ThreadItem::FileChange { .. }) => Some(
            ItemHandler::FileChangeCompleted,
        ),
        (ItemQueue::Completed, ThreadItem::McpToolCall(_)) => Some(
            ItemHandler::McpToolCallCompleted,
        ),
        _ => None,
    }
}

/// Which function takes in an item whose start waited.
pub fn handle_queued_item_started_now<J>(item: &ThreadItem<J>) -> (handler: Option<ItemHandler>)
    ensures
        handler == handler_for(ItemQueue::Started, *item),
{
    match item {
        ThreadItem::CommandExecution => Some(ItemHandler::CommandExecutionStarted),
        ThreadItem::McpToolCall(_) => Some(ItemHandler::McpToolCallStarted),
        _ => None,
    }
}

/// Which function takes in an item whose end waited.
pub fn handle_queued_item_completed_now<J>(item: &ThreadItem<J>) -> (handler: Option<ItemHandler>)
    ensures
        handler == handler_for(ItemQueue::Completed, *item),
{
    match item {
        ThreadItem::CommandExecution => Some(ItemHandler::CommandExecutionCompleted),
        ThreadItem::FileChange { .. } => Some(ItemHandler::FileChangeCompleted),
        ThreadItem::McpToolCall(_) => Some(ItemHandler::McpToolCallCompleted),
        _ => None,
    }
}

/// An item that had to wait is taken in by the same function as one that did
/// not.
pub proof fn law_waiting_changes_no_handler<J>(item: ThreadItem<J>)
    ensures
        item is FileChange ==> handler_for(file_change_completed_route().queue, item) == Some(
            file_change_completed_route().handler,
        ),
        item is McpToolCall ==> handler_for(mcp_started_route().queue, item) == Some(
            mcp_started_route().handler,
        ),
        item is McpToolCall ==> handler_for(mcp_completed_route().queue, item) == Some(
            mcp_completed_route().handler,
        ),
{
}

/// A call is the one of the active cell exactly where there is such a cell and
/// the ids are the same.
pub proof fn law_the_active_call_has_the_same_id(id: &str, call_id: Seq<char>)
    ensures
        is_active(Some(id), call_id) <==> id@ == call_id,
        !is_active(None, call_id),
{
}

/// What a web search found is shown once, in the active cell where that is the
/// search and in a cell of its own otherwise. The answer ends before, and the
/// search counts as work.
pub proof fn law_web_searches_are_shown_once<A>(ours: bool, search: WebSearch<A>)
    ensures
        ({
            let steps = web_search_end_steps(ours, search);
            &&& steps.len() == if ours {
                6int
            } else {
                3
            }
            &&& steps[0] == ToolStep::<WebSearch<A>>::FlushAnswerStream
            &&& steps.last() == ToolStep::<WebSearch<A>>::MarkWorkActivity
            &&& !ours ==> steps[1] == ToolStep::AddToHistory(search)
            &&& ours ==> {
                &&& steps[1] == ToolStep::UpdateActiveCell(search)
                &&& steps[2] == ToolStep::<WebSearch<A>>::CompleteActiveCell
                &&& steps[3] == ToolStep::<WebSearch<A>>::BumpActiveCellRevision
                &&& steps[4] == ToolStep::<WebSearch<A>>::FlushActiveCell
            }
        }),
{
}

/// A request to spawn an agent is kept under the id of its call, in place of an
/// earlier one. No other request changes, and a call that spawns no agent or
/// carries no request changes none.
pub proof fn law_spawn_requests_are_kept<S>(
    pending: Map<Seq<char>, S>,
    id: Seq<char>,
    summary: S,
    other: Seq<char>,
)
    requires
        other != id,
    ensures
        ({
            let noted = requests_noted(pending, id, CollabAgentTool::SpawnAgent, Some(summary));
            &&& noted.dom().contains(id)
            &&& noted[id] == summary
            &&& noted.dom().contains(other) <==> pending.dom().contains(other)
            &&& pending.dom().contains(other) ==> noted[other] == pending[other]
        }),
        requests_noted(pending, id, CollabAgentTool::SpawnAgent, None) == pending,
        requests_noted(pending, id, CollabAgentTool::Other, Some(summary)) == pending,
        requests_noted(pending, id, CollabAgentTool::Other, None) == pending,
{
}

/// Only a patch that was applied brings the files up to date; what was pending
/// goes with any other.
pub proof fn law_only_applied_patches_change_files(
    entries: Seq<SessionEntryView>,
    changes: Seq<ObservedChange>,
)
    ensures
        entries_after_patch(entries, changes, PatchApplyStatus::Completed) == complete_all(
            entries,
            changes,
        ),
        entries_after_patch(entries, changes, PatchApplyStatus::Failed) == abandon_all(
            entries,
            changes,
        ),
        entries_after_patch(entries, changes, PatchApplyStatus::Declined) == abandon_all(
            entries,
            changes,
        ),
        entries_after_patch(entries, changes, PatchApplyStatus::InProgress) == abandon_all(
            entries,
            changes,
        ),
{
}

/// The cell of a running MCP call says which tool of which server is called, with
/// its arguments, under the id of the call.
pub proof fn law_running_calls_say_what_they_call<J>(call: McpToolCall<J>)
    ensures
        started_cell(call) matches McpCell::Started { id, invocation } && {
            &&& id == call.id
            &&& invocation.server == call.server
            &&& invocation.tool == call.tool
            &&& invocation.arguments == Some(call.arguments)
        },
{
}

/// An MCP call that ended shows how long it took, where that is known and
/// positive, and its error before its answer. An answer keeps its content, and is
/// an error exactly where the call failed; without either, the cell says so.
pub proof fn law_ended_calls_show_what_came_back<J>(
    step: ToolStep<McpCell<J>>,
    call: McpToolCall<J>,
)
    requires
        ends_call(step, call),
    ensures
        step matches ToolStep::EndActiveCell(McpCell::Ended { duration_ms, result }) && {
            &&& call.duration_ms is Some && call.duration_ms->0 > 0 ==> duration_ms
                == call.duration_ms->0
            &&& call.duration_ms is None || call.duration_ms->0 <= 0 ==> duration_ms == 0
            &&& call.error is Some ==> result is Err && result->Err_0 == call.error->0
            &&& call.error is None && call.result is Some ==> {
                &&& result is Ok
                &&& result->Ok_0.content == call.result->0.content
                &&& result->Ok_0.structured_content == call.result->0.structured_content
                &&& result->Ok_0.is_error == Some(call.status == McpToolCallStatus::Failed)
                &&& result->Ok_0.meta is None
            }
            &&& call.error is None && call.result is None ==> result is Err && result->Err_0@
                == "MCP tool call completed without a result"@
        },
{
}

/// A command is taken in whether its start or its end waited, and so is an MCP
/// call; of a patch only the end waits. Nothing else is taken in.
pub proof fn law_waiting_items_find_their_handlers<J>(item: ThreadItem<J>)
    ensures
        handler_for(ItemQueue::Started, item) == Some(ItemHandler::CommandExecutionStarted)
            <==> item is CommandExecution,
        handler_for(ItemQueue::Completed, item) == Some(ItemHandler::CommandExecutionCompleted)
            <==> item is CommandExecution,
        handler_for(ItemQueue::Started, item) == Some(ItemHandler::McpToolCallStarted)
            <==> item is McpToolCall,
        handler_for(ItemQueue::Completed, item) == Some(ItemHandler::McpToolCallCompleted)
            <==> item is McpToolCall,
        handler_for(ItemQueue::Completed, item) == Some(ItemHandler::FileChangeCompleted)
            <==> item is FileChange,
        handler_for(ItemQueue::Started, item) is Some <==> item is CommandExecution || item
            is McpToolCall,
        handler_for(ItemQueue::Completed, item) is Some <==> item is CommandExecution || item
            is McpToolCall || item is FileChange,
        file_change_completed_route().queue == ItemQueue::Completed,
        file_change_completed_route().handler == ItemHandler::FileChangeCompleted,
        mcp_started_route().queue == ItemQueue::Started,
        mcp_started_route().handler == ItemHandler::McpToolCallStarted,
        mcp_completed_route().queue == ItemQueue::Completed,
        mcp_completed_route().handler == ItemHandler::McpToolCallCompleted,
{
}

} // verus!
