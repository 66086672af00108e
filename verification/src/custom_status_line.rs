//! A status line that a command of the user's own writes.

use std::path::PathBuf;
use vstd::prelude::*;
use vstd::string::*;

use crate::text::{
    decimal_int, integer_text, opt_text, result_text, same_text, trim, trim_final_breaks, trimmed,
    without_final_breaks,
};

verus! {

/// How long to wait between two runs of the command, in nanoseconds.
pub const CUSTOM_STATUS_LINE_REFRESH_INTERVAL: u128 = 1_000_000_000;

/// How long the command may take, in milliseconds.
pub const CUSTOM_STATUS_LINE_TIMEOUT: u64 = 2000;

/// How many bytes of output are read from the command.
pub const CUSTOM_STATUS_LINE_OUTPUT_BYTES_CAP: usize = 16384;

/// How many lines of output are shown.
pub const CUSTOM_STATUS_LINE_MAX_LINES: usize = 4;

/// The environment variable that holds the command.
pub const STATUS_COMMAND_VAR: &'static str = "CODEX_STATUS_COMMAND";

/// The environment variable that holds what the command reads.
pub const STATUS_INPUT_VAR: &'static str = "CODEX_STATUS_INPUT";

/// What `sh` runs: the command, with its input on standard input.
pub const SH_SCRIPT: &'static str =
    "printf '%s' \"$CODEX_STATUS_INPUT\" | sh -lc \"$CODEX_STATUS_COMMAND\"";

/// What PowerShell runs: the command, with its input through the pipeline.
pub const POWERSHELL_SCRIPT: &'static str =
    "$env:CODEX_STATUS_INPUT | Invoke-Expression $env:CODEX_STATUS_COMMAND";

/// What stands before the status of a command that failed.
pub const EXIT_MESSAGE: &'static str = "custom status line command exited with status ";

/// The status line of the user's own: the command that it comes from, what the
/// command last wrote, the run that is under way, the number of the next run,
/// and when the last run was started, in nanoseconds since a fixed point.
pub struct CustomStatusLineState<L> {
    command: Option<String>,
    value: Option<Vec<L>>,
    pending_request_id: Option<u64>,
    next_request_id: u64,
    last_requested_at: Option<u128>,
}

/// The status line, as text.
pub struct StatusLineView<L> {
    pub command: Option<Seq<char>>,
    pub value: Option<Seq<L>>,
    pub pending_request_id: Option<u64>,
    pub next_request_id: u64,
    pub last_requested_at: Option<u128>,
}

/// The lines of a status line, where there are any.
pub open spec fn lines_view<L>(lines: Option<Vec<L>>) -> Option<Seq<L>> {
    match lines {
        Some(lines) => Some(lines@),
        None => None,
    }
}

impl<L> View for CustomStatusLineState<L> {
    type V = StatusLineView<L>;

    closed spec fn view(&self) -> StatusLineView<L> {
        StatusLineView {
            command: opt_text(self.command),
            value: lines_view(self.value),
            pending_request_id: self.pending_request_id,
            next_request_id: self.next_request_id,
            last_requested_at: self.last_requested_at,
        }
    }
}

/// The command that a setting names: trimmed, and none where nothing is left.
pub open spec fn configured(setting: Option<&str>) -> Option<Seq<char>> {
    match setting {
        Some(text) => if trimmed(text@).len() > 0 {
            Some(trimmed(text@))
        } else {
            None
        },
        None => None,
    }
}

/// Whether it is time for another run.
pub open spec fn refresh_due(last: Option<u128>, now: u128) -> bool {
    match last {
        Some(last) => now >= last && now - last >= CUSTOM_STATUS_LINE_REFRESH_INTERVAL,
        None => true,
    }
}

impl<L> StatusLineView<L> {
    /// A status line that was never run.
    pub open spec fn fresh() -> Self {
        StatusLineView {
            command: None,
            value: None,
            pending_request_id: None,
            next_request_id: 0,
            last_requested_at: None,
        }
    }

    /// The status line for a command. Another command than before starts over,
    /// but no run gets a number that was given before.
    pub open spec fn synced(self, command: Seq<char>) -> Self {
        if self.command == Some(command) {
            self
        } else {
            StatusLineView {
                command: Some(command),
                value: None,
                pending_request_id: None,
                next_request_id: self.next_request_id,
                last_requested_at: None,
            }
        }
    }

    /// The status line once it is switched off.
    pub open spec fn cleared(self) -> Self {
        StatusLineView { next_request_id: self.next_request_id, ..Self::fresh() }
    }

    /// The status line once a run was started.
    pub open spec fn started(self, now: u128) -> Self {
        StatusLineView {
            pending_request_id: Some(self.next_request_id),
            next_request_id: if self.next_request_id == u64::MAX {
                0
            } else {
                (self.next_request_id + 1) as u64
            },
            last_requested_at: Some(now),
            ..self
        }
    }

    /// Whether a run may be started once its input is known.
    pub open spec fn starts(self, input: Option<Seq<char>>, now: u128) -> bool {
        &&& self.pending_request_id is None
        &&& input is Some
        &&& refresh_due(self.last_requested_at, now)
    }

    /// The status line once a run was asked for, with its input and the time.
    pub open spec fn asked(self, input: Option<Seq<char>>, now: u128) -> Self {
        if self.starts(input, now) {
            self.started(now)
        } else {
            self
        }
    }

    /// The status line after the run `request_id` ended; `parsed` is what its
    /// output amounts to, where it succeeded.
    pub open spec fn ended(self, request_id: u64, parsed: Option<Option<Seq<L>>>) -> Self {
        if self.pending_request_id == Some(request_id) {
            StatusLineView {
                pending_request_id: None,
                value: match parsed {
                    Some(value) => value,
                    None => self.value,
                },
                ..self
            }
        } else {
            self
        }
    }
}

/// What is to be done about the status line now.
pub enum RefreshAction {
    /// Nothing.
    Idle,
    /// Look again after the refresh interval.
    Wait,
    /// Run the command, and report how the run ended under its number.
    Run { request_id: u64, command: String, input: String },
}

/// Whether `action` is what is to be done once the input of a run is known.
pub open spec fn is_refresh<L>(
    action: RefreshAction,
    state: StatusLineView<L>,
    command: Seq<char>,
    input: Option<Seq<char>>,
    now: u128,
) -> bool {
    if state.pending_request_id is Some || input is None {
        action is Idle
    } else if refresh_due(state.last_requested_at, now) {
        action matches RefreshAction::Run { request_id, command: run, input: given } && request_id
            == state.next_request_id && run@ == command && Some(given@) == input
    } else {
        action is Wait
    }
}

/// The command that a setting names, if any.
pub fn configured_custom_status_line_command(setting: Option<&str>) -> (command: Option<&str>)
    ensures
        match command {
            Some(command) => configured(setting) == Some(command@),
            None => configured(setting) is None,
        },
{
    match setting {
        Some(text) => {
            let command = trim(text);
            if command.is_empty() {
                None
            } else {
                Some(command)
            }
        },
        None => None,
    }
}

/// Whether a setting names a command.
pub fn custom_status_line_enabled(setting: Option<&str>) -> (enabled: bool)
    ensures
        enabled == (configured(setting) is Some),
{
    configured_custom_status_line_command(setting).is_some()
}

impl<L> Default for CustomStatusLineState<L> {
    fn default() -> (state: Self)
        ensures
            state@ == StatusLineView::<L>::fresh(),
    {
        CustomStatusLineState {
            command: None,
            value: None,
            pending_request_id: None,
            next_request_id: 0,
            last_requested_at: None,
        }
    }
}

impl<L> CustomStatusLineState<L> {
    /// Whether a run is under way.
    pub fn is_pending(&self) -> (pending: bool)
        ensures
            pending == (self@.pending_request_id is Some),
    {
        self.pending_request_id.is_some()
    }

    /// What the command last wrote.
    pub fn custom_status_line_value(&self) -> (value: Option<&Vec<L>>)
        ensures
            match value {
                Some(lines) => self@.value == Some(lines@),
                None => self@.value is None,
            },
    {
        self.value.as_ref()
    }

    /// Takes in which command the status line comes from.
    pub fn sync_command(&mut self, command: &str)
        ensures
            final(self)@ == old(self)@.synced(command@),
    {
        let known = match &self.command {
            Some(known) => same_text(known.as_str(), command),
            None => false,
        };
        if known {
            return;
        }
        self.command = Some(command.to_string());
        self.value = None;
        self.pending_request_id = None;
        self.last_requested_at = None;
    }

    /// Switches the status line off.
    pub fn clear(&mut self)
        ensures
            final(self)@ == old(self)@.cleared(),
    {
        let next_request_id: u64 = self.next_request_id;
        *self = CustomStatusLineState::default();
        self.next_request_id = next_request_id;
    }

    /// Starts a run of `command`, where none is under way, its input is known
    /// and it is time.
    pub fn start_if_due(&mut self, command: String, input: Option<String>, now: u128) -> (action:
        RefreshAction)
        ensures
            final(self)@ == old(self)@.asked(opt_text(input), now),
            is_refresh(action, old(self)@, command@, opt_text(input), now),
    {
        if self.pending_request_id.is_some() {
            return RefreshAction::Idle;
        }
        let input = match input {
            Some(input) => input,
            None => return RefreshAction::Idle,
        };
        let due = match self.last_requested_at {
            Some(last) => now >= last && now - last >= CUSTOM_STATUS_LINE_REFRESH_INTERVAL,
            None => true,
        };
        if !due {
            return RefreshAction::Wait;
        }
        let request_id: u64 = self.next_request_id;
        self.next_request_id = if request_id == u64::MAX {
            0
        } else {
            request_id + 1
        };
        self.pending_request_id = Some(request_id);
        self.last_requested_at = Some(now);
        RefreshAction::Run { request_id, command, input }
    }

    /// Brings the status line up to date with the setting, and starts a run where
    /// one is due. `make_input` gives what the command is to read, and `clock` the
    /// time; neither is asked where no run can start.
    pub fn refresh_custom_status_line_if_due<
        F: FnOnce() -> Option<String>,
        N: FnOnce() -> u128,
    >(
        &mut self,
        setting: Option<&str>,
        runner_available: bool,
        make_input: F,
        clock: N,
    ) -> (action: RefreshAction)
        requires
            runner_available && (configured(setting) matches Some(command) && old(
                self,
            )@.synced(command).pending_request_id is None) ==> call_requires(make_input, ())
                && call_requires(clock, ()),
        ensures
            match configured(setting) {
                None => action is Idle && final(self)@ == old(self)@.cleared(),
                Some(command) => {
                    let synced = old(self)@.synced(command);
                    if !runner_available || synced.pending_request_id is Some {
                        action is Idle && final(self)@ == synced
                    } else {
                        exists|input: Option<String>, now: u128|
                            {
                                &&& call_ensures(make_input, (), input)
                                &&& call_ensures(clock, (), now)
                                &&& final(self)@ == #[trigger] old(self)@.synced(
                                    configured(setting)->0,
                                ).asked(opt_text(input), now)
                                &&& is_refresh(action, synced, command, opt_text(input), now)
                            }
                    }
                },
            },
    {
        let command = match configured_custom_status_line_command(setting) {
            Some(command) => command,
            None => {
                self.clear();
                return RefreshAction::Idle;
            },
        };
        self.sync_command(command);
        if !runner_available || self.pending_request_id.is_some() {
            return RefreshAction::Idle;
        }
        let ghost synced = self@;
        let input = make_input();
        let now: u128 = clock();
        let action = self.start_if_due(command.to_string(), input, now);
        assert(self@ == synced.asked(opt_text(input), now));
        action
    }

    /// Takes in how the run `request_id` ended. A run that is not the one under
    /// way is ignored, and one that failed leaves the lines as they are. `escape`
    /// turns the text that is left of an output into lines; it is given no other
    /// text, and none where the run is ignored or failed. The result says
    /// whether the run was taken in; the lines are then to be shown, and looked at
    /// again after the refresh interval.
    pub fn set_custom_status_line_output<F: FnOnce(&str) -> Vec<L>>(
        &mut self,
        request_id: u64,
        result: Result<String, String>,
        escape: F,
    ) -> (taken: bool)
        requires
            old(self)@.pending_request_id == Some(request_id) && result is Ok ==> takes_rest(
                escape,
                result->Ok_0@,
            ),
        ensures
            taken == (old(self)@.pending_request_id == Some(request_id)),
            match result {
                Ok(output) => taken ==> exists|value: Option<Seq<L>>|
                    {
                        &&& parses_to(output@, escape, value)
                        &&& final(self)@ == #[trigger] old(self)@.ended(request_id, Some(value))
                    },
                Err(_) => final(self)@ == old(self)@.ended(request_id, None),
            },
            !taken ==> final(self)@ == old(self)@,
    {
        let ours = match self.pending_request_id {
            Some(pending) => pending == request_id,
            None => false,
        };
        if !ours {
            return false;
        }
        self.pending_request_id = None;
        if let Ok(output) = result {
            self.value = parse_custom_status_line_output(output.as_str(), escape);
            assert(self@ == old(self)@.ended(request_id, Some(lines_view(self.value))));
        }
        true
    }
}

/// The lines that are shown of an output: the first of them, and none where
/// there is not even one.
pub open spec fn kept_lines<L>(lines: Seq<L>) -> Option<Seq<L>> {
    if lines.len() == 0 {
        None
    } else if lines.len() > CUSTOM_STATUS_LINE_MAX_LINES {
        Some(lines.take(CUSTOM_STATUS_LINE_MAX_LINES as int))
    } else {
        Some(lines)
    }
}

/// Whether `escape` takes what is left of an output without the line breaks at
/// its end. It need not take anything where nothing is left.
pub open spec fn takes_rest<L, F: FnOnce(&str) -> Vec<L>>(escape: F, output: Seq<char>) -> bool {
    without_final_breaks(output).len() > 0 ==> forall|text: &str|
        text@ == without_final_breaks(output) ==> #[trigger] call_requires(escape, (text,))
}

/// Whether `value` is what an output amounts to: nothing where it holds only
/// line breaks, else the first of the lines that `escape` makes of it without
/// the line breaks at its end.
pub open spec fn parses_to<L, F: FnOnce(&str) -> Vec<L>>(
    output: Seq<char>,
    escape: F,
    value: Option<Seq<L>>,
) -> bool {
    if without_final_breaks(output).len() == 0 {
        value is None
    } else {
        exists|text: &str, lines: Vec<L>|
            {
                &&& text@ == without_final_breaks(output)
                &&& #[trigger] call_ensures(escape, (text,), lines)
                &&& value == kept_lines(lines@)
            }
    }
}

/// The lines that are shown of an output.
pub fn keep_lines<L>(lines: Vec<L>) -> (kept: Option<Vec<L>>)
    ensures
        lines_view(kept) == kept_lines(lines@),
{
    let mut lines = lines;
    lines.truncate(CUSTOM_STATUS_LINE_MAX_LINES);
    if lines.len() == 0 {
        None
    } else {
        Some(lines)
    }
}

/// What an output amounts to, where `escape` turns text into lines.
pub fn parse_custom_status_line_output<L, F: FnOnce(&str) -> Vec<L>>(
    output: &str,
    escape: F,
) -> (lines: Option<Vec<L>>)
    requires
        takes_rest(escape, output@),
    ensures
        parses_to(output@, escape, lines_view(lines)),
        lines matches Some(lines) ==> 0 < lines.len() <= CUSTOM_STATUS_LINE_MAX_LINES,
{
    let text = trim_final_breaks(output);
    if text.is_empty() {
        return None;
    }
    let lines = escape(text);
    keep_lines(lines)
}

/// What a command wrote, and the status that it exited with.
pub struct CommandOutput {
    pub exit_code: i32,
    pub stdout: String,
    pub stderr: String,
}

/// What a run of the command comes to: its output where it succeeded, else why
/// it did not run, or its status and what it wrote to standard error.
pub open spec fn run_result(run: Result<CommandOutput, String>) -> Result<Seq<char>, Seq<char>> {
    match run {
        Err(error) => Err(error@),
        Ok(output) => if output.exit_code == 0 {
            Ok(output.stdout@)
        } else if trimmed(output.stderr@).len() == 0 {
            Err(EXIT_MESSAGE@ + decimal_int(output.exit_code as int))
        } else {
            Err(
                EXIT_MESSAGE@ + decimal_int(output.exit_code as int) + ": "@ + trimmed(
                    output.stderr@,
                ),
            )
        },
    }
}

/// What a run of the command comes to.
pub fn custom_status_line_result(run: Result<CommandOutput, String>) -> (result: Result<
    String,
    String,
>)
    ensures
        result_text(result) == run_result(run),
{
    let output = match run {
        Ok(output) => output,
        Err(error) => return Err(error),
    };
    if output.exit_code == 0 {
        return Ok(output.stdout);
    }
    let mut message = EXIT_MESSAGE.to_string();
    message.append(integer_text(output.exit_code).as_str());
    let stderr = trim(output.stderr.as_str());
    if !stderr.is_empty() {
        message.append(": ");
        message.append(stderr);
    }
    Err(message)
}

/// A variable of the environment that a command runs in; without a value it is
/// taken out.
pub struct EnvEntry {
    pub name: String,
    pub value: Option<String>,
}

/// What a command runs with in its environment.
pub struct CommandEnv {
    pub entries: Vec<EnvEntry>,
}

impl CommandEnv {
    /// What a variable is set to, where it is among the entries.
    pub fn get(&self, name: &str) -> (value: Option<&Option<String>>)
        ensures
            match value {
                Some(value) => exists|i: int|
                    0 <= i < self.entries.len() && (#[trigger] self.entries[i]).name@ == name@
                        && self.entries[i].value == *value && forall|j: int|
                        0 <= j < i ==> (#[trigger] self.entries[j]).name@ != name@,
                None => forall|i: int|
                    0 <= i < self.entries.len() ==> (#[trigger] self.entries[i]).name@ != name@,
            },
    {
        let mut i: usize = 0;
        while i < self.entries.len()
            invariant
                0 <= i <= self.entries.len(),
                forall|j: int| 0 <= j < i ==> (#[trigger] self.entries[j]).name@ != name@,
            decreases self.entries.len() - i,
        {
            if same_text(self.entries[i].name.as_str(), name) {
                return Some(&self.entries[i].value);
            }
            i += 1;
        }
        None
    }
}

/// A command to run in the workspace: its arguments, where it runs and in what
/// environment, how long it may take, in milliseconds, and how many bytes it
/// may write.
pub struct WorkspaceCommand {
    pub argv: Vec<String>,
    pub cwd: Option<PathBuf>,
    pub env: CommandEnv,
    pub timeout: u64,
    pub output_bytes_cap: usize,
}

/// Whether a command runs the status line command in a shell that is called
/// with `argv`. What is run and what it reads come through the environment,
/// never through the arguments.
pub open spec fn is_status_command(
    request: WorkspaceCommand,
    argv: Seq<Seq<char>>,
    command: String,
    input: String,
    cwd: PathBuf,
) -> bool {
    &&& crate::text::texts(request.argv@) == argv
    &&& request.cwd == Some(cwd)
    &&& request.env.entries.len() == 2
    &&& request.env.entries[0].name@ == STATUS_COMMAND_VAR@
    &&& request.env.entries[0].value == Some(command)
    &&& request.env.entries[1].name@ == STATUS_INPUT_VAR@
    &&& request.env.entries[1].value == Some(input)
    &&& request.timeout == CUSTOM_STATUS_LINE_TIMEOUT
    &&& request.output_bytes_cap == CUSTOM_STATUS_LINE_OUTPUT_BYTES_CAP
}

/// The status line command, with arguments for a shell.
fn status_command(argv: Vec<String>, command: String, input: String, cwd: PathBuf) -> (request:
    WorkspaceCommand)
    ensures
        is_status_command(request, crate::text::texts(argv@), command, input, cwd),
{
    WorkspaceCommand {
        argv,
        cwd: Some(cwd),
        env: CommandEnv {
            entries: vec![
                EnvEntry { name: STATUS_COMMAND_VAR.to_string(), value: Some(command) },
                EnvEntry { name: STATUS_INPUT_VAR.to_string(), value: Some(input) },
            ],
        },
        timeout: CUSTOM_STATUS_LINE_TIMEOUT,
        output_bytes_cap: CUSTOM_STATUS_LINE_OUTPUT_BYTES_CAP,
    }
}

/// The status line command for `sh`.
pub fn custom_status_line_workspace_command(command: String, input: String, cwd: PathBuf) -> (
request: WorkspaceCommand)
    ensures
        is_status_command(request, seq!["sh"@, "-c"@, SH_SCRIPT@], command, input, cwd),
{
    let argv = vec!["sh".to_string(), "-c".to_string(), SH_SCRIPT.to_string()];
    assert(crate::text::texts(argv@) =~= seq!["sh"@, "-c"@, SH_SCRIPT@]);
    status_command(argv, command, input, cwd)
}

/// The status line command for PowerShell.
pub fn custom_status_line_powershell_command(command: String, input: String, cwd: PathBuf) -> (
request: WorkspaceCommand)
    ensures
        is_status_command(
            request,
            seq![
                "powershell.exe"@,
                "-NoProfile"@,
                "-NonInteractive"@,
                "-Command"@,
                POWERSHELL_SCRIPT@,
            ],
            command,
            input,
            cwd,
        ),
{
    let argv = vec![
        "powershell.exe".to_string(),
        "-NoProfile".to_string(),
        "-NonInteractive".to_string(),
        "-Command".to_string(),
        POWERSHELL_SCRIPT.to_string(),
    ];
    assert(crate::text::texts(argv@) =~= seq![
        "powershell.exe"@,
        "-NoProfile"@,
        "-NonInteractive"@,
        "-Command"@,
        POWERSHELL_SCRIPT@,
    ]);
    status_command(argv, command, input, cwd)
}

/// The output of a run that is not the one under way changes nothing.
pub proof fn law_stale_output_changes_nothing<L>(
    state: StatusLineView<L>,
    request_id: u64,
    parsed: Option<Option<Seq<L>>>,
)
    requires
        state.pending_request_id != Some(request_id),
    ensures
        state.ended(request_id, parsed) == state,
{
}

/// A run of an earlier command is not taken in, whatever its number, once the
/// command was changed or switched off.
pub proof fn law_other_command_drops_the_run<L>(
    state: StatusLineView<L>,
    command: Seq<char>,
    request_id: u64,
    parsed: Option<Option<Seq<L>>>,
)
    requires
        state.command != Some(command),
    ensures
        state.synced(command).ended(request_id, parsed) == state.synced(command),
        state.cleared().ended(request_id, parsed) == state.cleared(),
{
}

/// While a run is under way no other is started.
pub proof fn law_one_run_at_a_time<L>(
    state: StatusLineView<L>,
    input: Option<Seq<char>>,
    now: u128,
    again: Option<Seq<char>>,
    later: u128,
)
    requires
        state.starts(input, now),
    ensures
        !state.asked(input, now).starts(again, later),
        state.asked(input, now).asked(again, later) == state.asked(input, now),
{
}

/// Between two runs of one command lies at least the refresh interval, however
/// the first one ended.
pub proof fn law_runs_keep_their_distance<L>(
    state: StatusLineView<L>,
    input: Option<Seq<char>>,
    now: u128,
    parsed: Option<Option<Seq<L>>>,
    again: Option<Seq<char>>,
    later: u128,
)
    requires
        state.starts(input, now),
        state.started(now).ended(state.next_request_id, parsed).starts(again, later),
    ensures
        later - now >= CUSTOM_STATUS_LINE_REFRESH_INTERVAL,
{
}

/// A run that failed leaves the lines as they were.
pub proof fn law_failure_keeps_the_lines<L>(state: StatusLineView<L>, request_id: u64)
    ensures
        state.ended(request_id, None).value == state.value,
{
}

/// A status line that is shown has at least one line and at most four.
pub proof fn law_shown_lines_are_few<L>(lines: Seq<L>)
    ensures
        kept_lines(lines) matches Some(kept) ==> 0 < kept.len() <= 4,
{
}

/// A run that succeeded and is the one under way ends, and what its output
/// amounts to is what is shown from then on: nothing where that is nothing, and
/// whatever was shown before. One that failed ends too, and changes nothing else.
pub proof fn law_output_becomes_what_is_shown<L>(
    state: StatusLineView<L>,
    request_id: u64,
    value: Option<Seq<L>>,
)
    requires
        state.pending_request_id == Some(request_id),
    ensures
        ({
            let shown = state.ended(request_id, Some(value));
            let failed = state.ended(request_id, None);
            &&& shown.value == value
            &&& shown.pending_request_id is None
            &&& shown.command == state.command
            &&& shown.next_request_id == state.next_request_id
            &&& shown.last_requested_at == state.last_requested_at
            &&& failed.value == state.value
            &&& failed.pending_request_id is None
            &&& failed.command == state.command
            &&& failed.next_request_id == state.next_request_id
            &&& failed.last_requested_at == state.last_requested_at
        }),
{
}

/// What is shown after a run does not depend on what was shown before it.
pub proof fn law_earlier_lines_leave_no_trace<L>(
    state: StatusLineView<L>,
    other: StatusLineView<L>,
    request_id: u64,
    value: Option<Seq<L>>,
)
    requires
        state.pending_request_id == Some(request_id),
        other.pending_request_id == Some(request_id),
    ensures
        state.ended(request_id, Some(value)).value == other.ended(request_id, Some(value)).value,
{
}

/// A new status line shows nothing, has no command and no run, and gives its
/// first run the number nought.
pub proof fn law_new_status_line_shows_nothing<L>()
    ensures
        ({
            let fresh = StatusLineView::<L>::fresh();
            &&& fresh.command is None
            &&& fresh.value is None
            &&& fresh.pending_request_id is None
            &&& fresh.next_request_id == 0
            &&& fresh.last_requested_at is None
        }),
{
}

/// The command of before changes nothing. Another one takes its place, and
/// nothing is left of the runs of the one before but that their numbers are not
/// given again; nor is anything else left once the status line is switched off.
pub proof fn law_another_command_starts_over<L>(state: StatusLineView<L>, command: Seq<char>)
    ensures
        ({
            let synced = state.synced(command);
            let cleared = state.cleared();
            &&& state.command == Some(command) ==> synced == state
            &&& synced.command == Some(command)
            &&& state.command != Some(command) ==> {
                &&& synced.value is None
                &&& synced.pending_request_id is None
                &&& synced.last_requested_at is None
            }
            &&& synced.next_request_id == state.next_request_id
            &&& synced.synced(command) == synced
            &&& cleared.command is None
            &&& cleared.value is None
            &&& cleared.pending_request_id is None
            &&& cleared.last_requested_at is None
            &&& cleared.next_request_id == state.next_request_id
        }),
{
}

/// A run starts exactly where none is under way, its input is known, and there
/// was none before or the last one is a second old. It gets the next number, and
/// what is shown stays until it ends.
pub proof fn law_runs_start_when_due<L>(
    state: StatusLineView<L>,
    input: Option<Seq<char>>,
    now: u128,
)
    ensures
        ({
            let after = state.asked(input, now);
            let due = state.last_requested_at matches Some(last) ==> now - last >= 1_000_000_000;
            &&& state.starts(input, now) <==> state.pending_request_id is None && input is Some
                && due
            &&& !state.starts(input, now) ==> after == state
            &&& state.starts(input, now) ==> {
                &&& after.pending_request_id == Some(state.next_request_id)
                &&& after.last_requested_at == Some(now)
                &&& state.next_request_id < u64::MAX ==> after.next_request_id
                    == state.next_request_id + 1
                &&& state.next_request_id == u64::MAX ==> after.next_request_id == 0
                &&& after.command == state.command
                &&& after.value == state.value
            }
        }),
{
}

/// The command is run exactly where a run starts, under the number that the run
/// is given, with the input that was made for it. It is waited for exactly where
/// only the time has not come yet.
pub proof fn law_the_run_that_starts_is_run<L>(
    action: RefreshAction,
    state: StatusLineView<L>,
    command: Seq<char>,
    input: Option<Seq<char>>,
    now: u128,
)
    requires
        is_refresh(action, state, command, input, now),
    ensures
        action is Run <==> state.starts(input, now),
        action is Wait <==> state.pending_request_id is None && input is Some && !state.starts(
            input,
            now,
        ),
        action is Idle <==> state.pending_request_id is Some || input is None,
        action matches RefreshAction::Run { request_id, command: run, input: given } ==> state.asked(
            input,
            now,
        ).pending_request_id == Some(request_id) && run@ == command && input == Some(given@),
{
}

/// A setting names a command exactly where it holds more than white space; the
/// command is then what stands between the white space.
pub proof fn law_settings_name_what_they_hold(setting: &str)
    ensures
        configured(None) is None,
        configured(Some(setting)) is Some <==> trimmed(setting@).len() > 0,
        configured(Some(setting)) matches Some(command) ==> command == trimmed(setting@),
{
}

/// The lines that are shown are the first ones, all where there are at most
/// four, and four of them otherwise.
pub proof fn law_first_lines_are_shown<L>(lines: Seq<L>)
    ensures
        kept_lines(lines) is None <==> lines.len() == 0,
        kept_lines(lines) matches Some(kept) ==> kept.is_prefix_of(lines),
        0 < lines.len() <= 4 ==> kept_lines(lines) == Some(lines),
        lines.len() > 4 ==> kept_lines(lines) is Some && kept_lines(lines)->0.len() == 4,
{
}

/// An output that holds nothing but line breaks amounts to nothing. Any other
/// amounts to the first lines of what is made of it without the line breaks at
/// its end, and to nothing only where no line is made of it.
pub proof fn law_outputs_amount_to_their_first_lines<L, F: FnOnce(&str) -> Vec<L>>(
    output: Seq<char>,
    escape: F,
    value: Option<Seq<L>>,
)
    requires
        parses_to(output, escape, value),
    ensures
        without_final_breaks(output).len() == 0 ==> value is None,
        without_final_breaks(output).len() > 0 ==> exists|text: &str, lines: Vec<L>|
            {
                &&& text@ == without_final_breaks(output)
                &&& #[trigger] call_ensures(escape, (text,), lines)
                &&& lines.len() == 0 ==> value is None
                &&& 0 < lines.len() <= 4 ==> value == Some(lines@)
                &&& lines.len() > 4 ==> value == Some(lines@.take(4))
            },
{
}

/// A function that takes any text takes what is left of any output; it is given
/// nothing where nothing is left.
pub proof fn law_any_output_is_taken<L, F: FnOnce(&str) -> Vec<L>>(escape: F, output: Seq<char>)
    ensures
        (forall|text: &str| #[trigger] call_requires(escape, (text,))) ==> takes_rest(
            escape,
            output,
        ),
        without_final_breaks(output).len() == 0 ==> takes_rest(escape, output),
{
}

/// A run comes to its output exactly where it exited with nought. A run that
/// failed says its status, and what it wrote to standard error where that is
/// more than white space.
pub proof fn law_failed_runs_say_why(output: CommandOutput, error: String)
    ensures
        run_result(Err(error)) == Err::<Seq<char>, _>(error@),
        run_result(Ok(output)) is Ok <==> output.exit_code == 0,
        output.exit_code == 0 ==> run_result(Ok(output)) == Ok::<_, Seq<char>>(output.stdout@),
        output.exit_code != 0 && trimmed(output.stderr@).len() == 0 ==> run_result(Ok(output))
            == Err::<Seq<char>, _>(
            "custom status line command exited with status "@ + decimal_int(
                output.exit_code as int,
            ),
        ),
        output.exit_code != 0 && trimmed(output.stderr@).len() > 0 ==> run_result(Ok(output))
            == Err::<Seq<char>, _>(
            "custom status line command exited with status "@ + decimal_int(
                output.exit_code as int,
            ) + ": "@ + trimmed(output.stderr@),
        ),
{
}

/// The command and its input reach the shell through the environment, whatever
/// they hold, and its arguments depend on neither. A run may take two seconds and
/// write sixteen kibibytes.
pub proof fn law_commands_go_through_the_environment(
    request: WorkspaceCommand,
    argv: Seq<Seq<char>>,
    command: String,
    input: String,
    cwd: PathBuf,
)
    requires
        is_status_command(request, argv, command, input, cwd),
    ensures
        request.argv.len() == argv.len(),
        forall|i: int| 0 <= i < argv.len() ==> (#[trigger] request.argv[i])@ == argv[i],
        request.cwd == Some(cwd),
        request.env.entries.len() == 2,
        request.env.entries[0].name@ == "CODEX_STATUS_COMMAND"@,
        request.env.entries[0].value == Some(command),
        request.env.entries[1].name@ == "CODEX_STATUS_INPUT"@,
        request.env.entries[1].value == Some(input),
        request.timeout == 2000,
        request.output_bytes_cap == 16384,
{
    assert forall|i: int| 0 <= i < argv.len() implies (#[trigger] request.argv[i])@ == argv[i] by {
        assert(crate::text::texts(request.argv@)[i] == request.argv@[i]@);
    }
}

/// What the shells run: the command out of the environment, with its input out
/// of the environment before it.
pub proof fn law_shells_run_the_command_on_its_input()
    ensures
        SH_SCRIPT@ == "printf '%s' \"$CODEX_STATUS_INPUT\" | sh -lc \"$CODEX_STATUS_COMMAND\""@,
        POWERSHELL_SCRIPT@
            == "$env:CODEX_STATUS_INPUT | Invoke-Expression $env:CODEX_STATUS_COMMAND"@,
{
}

} // verus!
