# codex_tui

The logic behind a terminal interface for a coding agent, verified with Verus:

- `diff_model`, `diff_laws`, `context_search`, `line_diff`, `patches`: what a
  session did to one file, and how that is shown as a diff.
- `session_changes`, `session_laws`: the files that a session changed.
- `tool_lifecycle`, `spawn_requests`: how tool calls show in the transcript.
- `btw_prompt`, `btw_view`: side questions about a conversation, their prompt
  and their panel.
- `prompt_stash`, `keys`: the slot that a draft can be put aside in.
- `custom_status_line`, `status_line_input`: a status line that a command of the
  user's own writes.
- `v8_init`: the one start of V8 in a process.
- `text`, `paths`, `ids`: what the others are built on.

`app/` is ordinary Rust round the library: V8 itself, files, JSON, the terminal,
and the tasks that wait for other programs.
