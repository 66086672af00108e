//! What the status line command is told about a session.

use vstd::prelude::*;

use crate::text::{opt_text, same_text};

verus! {

/// The name of the event that the command is run for.
pub const HOOK_EVENT_NAME: &'static str = "Status";

/// What stands for a reasoning effort that is not set.
pub const NO_EFFORT: &'static str = "none";

/// How many tokens were used.
#[derive(Clone, Copy, Debug, Eq, PartialEq, Structural)]
pub struct TokenUsage {
    pub input_tokens: i64,
    pub cached_input_tokens: i64,
    pub output_tokens: i64,
    pub reasoning_output_tokens: i64,
}

/// How much of a rate limit is used up, as the bits of a percentage in double
/// precision, and when it starts over.
#[derive(Clone, Copy, Debug, Eq, PartialEq, Structural)]
pub struct RateLimitWindow {
    pub used_percentage_bits: u64,
    pub resets_at: Option<i64>,
}

/// The id of the rate limit that the command is told of.
pub const RATE_LIMIT_ID: &'static str = "codex";

/// What is known of a rate limit: its windows over five hours and over a week,
/// where it has them.
pub struct RateLimitSnapshot {
    pub limit_id: String,
    pub five_hour: Option<RateLimitWindow>,
    pub seven_day: Option<RateLimitWindow>,
}

/// What is known of a session.
pub struct SessionFacts {
    pub session_id: Option<String>,
    pub cwd: String,
    pub version: String,
    pub model_display_name: String,
    pub context_used_percent: Option<i64>,
    pub context_window_size: Option<i64>,
    pub total_usage: TokenUsage,
    pub last_turn: Option<TokenUsage>,
    pub effective_effort: Option<String>,
    pub configured_effort: Option<String>,
    pub rate_limits: Vec<RateLimitSnapshot>,
    pub agent_state: String,
    pub permissions: String,
    pub approval_mode: String,
}

/// The model, as the command is told of it.
pub struct CustomStatusLineModel {
    pub id: String,
    pub display_name: String,
}

/// How much of the context is used up.
#[derive(Clone, Copy, Debug, Eq, PartialEq, Structural)]
pub struct CustomStatusLineContextWindow {
    pub used_percentage: i64,
    pub context_window_size: i64,
    pub total_input_tokens: i64,
    pub total_output_tokens: i64,
}

/// The rate limits, as the command is told of them.
#[derive(Clone, Copy, Debug, Eq, PartialEq, Structural)]
pub struct CustomStatusLineRateLimits {
    pub five_hour: RateLimitWindow,
    pub seven_day: RateLimitWindow,
}

/// What the command is told.
pub struct CustomStatusLineInput {
    pub hook_event_name: String,
    pub session_id: Option<String>,
    pub cwd: String,
    pub version: String,
    pub model: CustomStatusLineModel,
    pub workspace_current_dir: String,
    pub context_window: CustomStatusLineContextWindow,
    pub last_turn: TokenUsage,
    pub thinking_enabled: bool,
    pub effort_level: String,
    pub rate_limits: CustomStatusLineRateLimits,
    pub agent_state: String,
    pub permissions: String,
    pub approval_mode: String,
}

/// The number, or nought where there is none.
pub open spec fn or_zero(n: Option<i64>) -> i64 {
    match n {
        Some(n) => n,
        None => 0,
    }
}

/// The usage of the last turn, or no tokens at all where there was none.
pub open spec fn last_usage(usage: Option<TokenUsage>) -> TokenUsage {
    match usage {
        Some(usage) => usage,
        None => TokenUsage {
            input_tokens: 0,
            cached_input_tokens: 0,
            output_tokens: 0,
            reasoning_output_tokens: 0,
        },
    }
}

/// A rate limit, or one that is not used at all and never starts over. No bit
/// is set in a percentage of nought.
pub open spec fn limit_window(window: Option<RateLimitWindow>) -> RateLimitWindow {
    match window {
        Some(window) => window,
        None => RateLimitWindow { used_percentage_bits: 0, resets_at: None },
    }
}

/// What is known of the rate limit under an id, where anything is.
pub open spec fn snapshot_under(
    snapshots: Seq<RateLimitSnapshot>,
    limit_id: Seq<char>,
) -> Option<RateLimitSnapshot>
    decreases snapshots.len(),
{
    if snapshots.len() == 0 {
        None
    } else if snapshots[0].limit_id@ == limit_id {
        Some(snapshots[0])
    } else {
        snapshot_under(snapshots.drop_first(), limit_id)
    }
}

/// The window over five hours of a rate limit, where it is known.
pub open spec fn five_hour_window(snapshot: Option<RateLimitSnapshot>) -> Option<RateLimitWindow> {
    match snapshot {
        Some(snapshot) => snapshot.five_hour,
        None => None,
    }
}

/// The window over a week of a rate limit, where it is known.
pub open spec fn seven_day_window(snapshot: Option<RateLimitSnapshot>) -> Option<RateLimitWindow> {
    match snapshot {
        Some(snapshot) => snapshot.seven_day,
        None => None,
    }
}

/// The reasoning effort: the one in effect, else the one in the settings.
pub open spec fn effort(facts: SessionFacts) -> Option<Seq<char>> {
    match facts.effective_effort {
        Some(level) => Some(level@),
        None => opt_text(facts.configured_effort),
    }
}

/// Whether `input` is what the command is told about a session.
pub open spec fn describes(input: CustomStatusLineInput, facts: SessionFacts) -> bool {
    &&& input.hook_event_name@ == HOOK_EVENT_NAME@
    &&& input.session_id == facts.session_id
    &&& input.cwd == facts.cwd
    &&& input.version == facts.version
    &&& input.model.id == facts.model_display_name
    &&& input.model.display_name == facts.model_display_name
    &&& input.workspace_current_dir == facts.cwd
    &&& input.context_window.used_percentage == or_zero(facts.context_used_percent)
    &&& input.context_window.context_window_size == or_zero(facts.context_window_size)
    &&& input.context_window.total_input_tokens == facts.total_usage.input_tokens
    &&& input.context_window.total_output_tokens == facts.total_usage.output_tokens
    &&& input.last_turn == last_usage(facts.last_turn)
    &&& input.thinking_enabled == (effort(facts) is Some)
    &&& input.effort_level@ == match effort(facts) {
        Some(level) => level,
        None => NO_EFFORT@,
    }
    &&& input.rate_limits.five_hour == limit_window(
        five_hour_window(snapshot_under(facts.rate_limits@, RATE_LIMIT_ID@)),
    )
    &&& input.rate_limits.seven_day == limit_window(
        seven_day_window(snapshot_under(facts.rate_limits@, RATE_LIMIT_ID@)),
    )
    &&& input.agent_state == facts.agent_state
    &&& input.permissions == facts.permissions
    &&& input.approval_mode == facts.approval_mode
}

/// A rate limit, as the command is told of it.
pub fn custom_status_line_rate_limit_window(window: Option<RateLimitWindow>) -> (shown:
    RateLimitWindow)
    ensures
        shown == limit_window(window),
{
    match window {
        Some(window) => window,
        None => RateLimitWindow { used_percentage_bits: 0, resets_at: None },
    }
}

/// The number, or nought where there is none.
fn number_or_zero(n: Option<i64>) -> (number: i64)
    ensures
        number == or_zero(n),
{
    match n {
        Some(n) => n,
        None => 0,
    }
}

/// What is known of the rate limit under an id, where anything is.
pub fn find_snapshot<'a>(snapshots: &'a Vec<RateLimitSnapshot>, limit_id: &str) -> (found: Option<
    &'a RateLimitSnapshot,
>)
    ensures
        match found {
            Some(snapshot) => snapshot_under(snapshots@, limit_id@) == Some(*snapshot),
            None => snapshot_under(snapshots@, limit_id@) is None,
        },
{
    let mut i: usize = 0;
    assert(snapshots@.skip(0) =~= snapshots@);
    while i < snapshots.len()
        invariant
            0 <= i <= snapshots.len(),
            snapshot_under(snapshots@, limit_id@) == snapshot_under(
                snapshots@.skip(i as int),
                limit_id@,
            ),
        decreases snapshots.len() - i,
    {
        if same_text(snapshots[i].limit_id.as_str(), limit_id) {
            return Some(&snapshots[i]);
        }
        assert(snapshots@.skip(i as int).drop_first() =~= snapshots@.skip(i + 1));
        i += 1;
    }
    None
}

/// What the command is told about a session.
pub fn custom_status_line_input(facts: SessionFacts) -> (input: CustomStatusLineInput)
    ensures
        describes(input, facts),
{
    let (five_hour, seven_day) = match find_snapshot(&facts.rate_limits, RATE_LIMIT_ID) {
        Some(snapshot) => (snapshot.five_hour, snapshot.seven_day),
        None => (None, None),
    };
    let last_turn = match facts.last_turn {
        Some(usage) => usage,
        None => TokenUsage {
            input_tokens: 0,
            cached_input_tokens: 0,
            output_tokens: 0,
            reasoning_output_tokens: 0,
        },
    };
    let reasoning_effort = match facts.effective_effort {
        Some(level) => Some(level),
        None => facts.configured_effort,
    };
    let thinking_enabled = reasoning_effort.is_some();
    let effort_level = match reasoning_effort {
        Some(level) => level,
        None => NO_EFFORT.to_string(),
    };
    CustomStatusLineInput {
        hook_event_name: HOOK_EVENT_NAME.to_string(),
        session_id: facts.session_id,
        cwd: facts.cwd.clone(),
        version: facts.version,
        model: CustomStatusLineModel {
            id: facts.model_display_name.clone(),
            display_name: facts.model_display_name,
        },
        workspace_current_dir: facts.cwd,
        context_window: CustomStatusLineContextWindow {
            used_percentage: number_or_zero(facts.context_used_percent),
            context_window_size: number_or_zero(facts.context_window_size),
            total_input_tokens: facts.total_usage.input_tokens,
            total_output_tokens: facts.total_usage.output_tokens,
        },
        last_turn,
        thinking_enabled,
        effort_level,
        rate_limits: CustomStatusLineRateLimits {
            five_hour: custom_status_line_rate_limit_window(five_hour),
            seven_day: custom_status_line_rate_limit_window(seven_day),
        },
        agent_state: facts.agent_state,
        permissions: facts.permissions,
        approval_mode: facts.approval_mode,
    }
}

/// What is known of a rate limit is the first of what is kept under its id, and
/// nothing where nothing is kept under it.
pub proof fn law_first_snapshot_under_the_id_counts(
    snapshots: Seq<RateLimitSnapshot>,
    limit_id: Seq<char>,
)
    ensures
        snapshot_under(snapshots, limit_id) is None <==> forall|i: int|
            0 <= i < snapshots.len() ==> (#[trigger] snapshots[i]).limit_id@ != limit_id,
        snapshot_under(snapshots, limit_id) matches Some(found) ==> exists|i: int|
            {
                &&& 0 <= i < snapshots.len()
                &&& #[trigger] snapshots[i] == found
                &&& found.limit_id@ == limit_id
                &&& forall|j: int| 0 <= j < i ==> (#[trigger] snapshots[j]).limit_id@ != limit_id
            },
    decreases snapshots.len(),
{
    if snapshots.len() > 0 {
        if snapshots[0].limit_id@ != limit_id {
            let rest = snapshots.drop_first();
            law_first_snapshot_under_the_id_counts(rest, limit_id);
            assert(forall|i: int| 0 <= i < rest.len() ==> #[trigger] rest[i] == snapshots[i + 1]);
            if snapshot_under(rest, limit_id) is None {
                assert forall|i: int| 0 <= i < snapshots.len() implies (
                #[trigger] snapshots[i]).limit_id@ != limit_id by {
                    if i > 0 {
                        assert(rest[i - 1] == snapshots[i]);
                    }
                }
            } else {
                let found = snapshot_under(rest, limit_id)->0;
                let i = choose|i: int|
                    {
                        &&& 0 <= i < rest.len()
                        &&& #[trigger] rest[i] == found
                        &&& found.limit_id@ == limit_id
                        &&& forall|j: int|
                            0 <= j < i ==> (#[trigger] rest[j]).limit_id@ != limit_id
                    };
                assert(snapshots[i + 1] == found);
                assert forall|j: int| 0 <= j < i + 1 implies (#[trigger] snapshots[j]).limit_id@
                    != limit_id by {
                    if j > 0 {
                        assert(rest[j - 1] == snapshots[j]);
                    }
                }
            }
        }
    }
}

/// What the command is told is what is known of the session; where a number is
/// not known, it is told nought.
pub proof fn law_command_is_told_what_is_known(input: CustomStatusLineInput, facts: SessionFacts)
    requires
        describes(input, facts),
    ensures
        input.hook_event_name@ == "Status"@,
        input.session_id == facts.session_id,
        input.cwd == facts.cwd,
        input.workspace_current_dir == facts.cwd,
        input.version == facts.version,
        input.model.id == facts.model_display_name,
        input.model.display_name == facts.model_display_name,
        input.agent_state == facts.agent_state,
        input.permissions == facts.permissions,
        input.approval_mode == facts.approval_mode,
        facts.context_used_percent matches Some(percent) ==> input.context_window.used_percentage
            == percent,
        facts.context_used_percent is None ==> input.context_window.used_percentage == 0,
        facts.context_window_size matches Some(size) ==> input.context_window.context_window_size
            == size,
        facts.context_window_size is None ==> input.context_window.context_window_size == 0,
        input.context_window.total_input_tokens == facts.total_usage.input_tokens,
        input.context_window.total_output_tokens == facts.total_usage.output_tokens,
        facts.last_turn matches Some(usage) ==> input.last_turn == usage,
        facts.last_turn is None ==> input.last_turn.input_tokens == 0
            && input.last_turn.cached_input_tokens == 0 && input.last_turn.output_tokens == 0
            && input.last_turn.reasoning_output_tokens == 0,
{
}

/// The reasoning effort in effect is told before the one in the settings, and
/// without either the command is told that there is no thinking.
pub proof fn law_effort_in_effect_comes_first(input: CustomStatusLineInput, facts: SessionFacts)
    requires
        describes(input, facts),
    ensures
        input.thinking_enabled <==> facts.effective_effort is Some || facts.configured_effort
            is Some,
        facts.effective_effort matches Some(level) ==> input.effort_level@ == level@,
        facts.effective_effort is None && facts.configured_effort is Some
            ==> input.effort_level@ == facts.configured_effort->0@,
        !input.thinking_enabled ==> input.effort_level@ == "none"@,
{
}

/// The command is told of the windows that are kept under the id `codex`, each
/// in its own place, and of unused ones where they are not known.
pub proof fn law_rate_limits_are_those_of_codex(
    input: CustomStatusLineInput,
    facts: SessionFacts,
    i: int,
)
    requires
        describes(input, facts),
        0 <= i < facts.rate_limits.len(),
        facts.rate_limits[i].limit_id@ == "codex"@,
        forall|j: int| 0 <= j < i ==> (#[trigger] facts.rate_limits[j]).limit_id@ != "codex"@,
    ensures
        facts.rate_limits[i].five_hour matches Some(window) ==> input.rate_limits.five_hour
            == window,
        facts.rate_limits[i].seven_day matches Some(window) ==> input.rate_limits.seven_day
            == window,
        facts.rate_limits[i].five_hour is None ==> input.rate_limits.five_hour.used_percentage_bits
            == 0 && input.rate_limits.five_hour.resets_at is None,
        facts.rate_limits[i].seven_day is None ==> input.rate_limits.seven_day.used_percentage_bits
            == 0 && input.rate_limits.seven_day.resets_at is None,
{
    let snapshots = facts.rate_limits@;
    law_first_snapshot_under_the_id_counts(snapshots, "codex"@);
    assert(snapshots[i].limit_id@ == "codex"@);
    let found = snapshot_under(snapshots, "codex"@)->0;
    let k = choose|k: int|
        {
            &&& 0 <= k < snapshots.len()
            &&& #[trigger] snapshots[k] == found
            &&& found.limit_id@ == "codex"@
            &&& forall|j: int| 0 <= j < k ==> (#[trigger] snapshots[j]).limit_id@ != "codex"@
        };
    assert(k == i) by {
        if k < i {
            assert(facts.rate_limits[k].limit_id@ != "codex"@);
        } else if i < k {
            assert(snapshots[i].limit_id@ != "codex"@);
        }
    }
}

/// Where nothing is kept under the id `codex`, the command is told of windows
/// that are not used at all, whatever is kept under other ids.
pub proof fn law_other_rate_limits_are_not_told(input: CustomStatusLineInput, facts: SessionFacts)
    requires
        describes(input, facts),
        forall|j: int|
            0 <= j < facts.rate_limits.len() ==> (#[trigger] facts.rate_limits[j]).limit_id@
                != "codex"@,
    ensures
        input.rate_limits.five_hour.used_percentage_bits == 0,
        input.rate_limits.five_hour.resets_at is None,
        input.rate_limits.seven_day.used_percentage_bits == 0,
        input.rate_limits.seven_day.resets_at is None,
{
    let snapshots = facts.rate_limits@;
    law_first_snapshot_under_the_id_counts(snapshots, "codex"@);
    assert forall|j: int| 0 <= j < snapshots.len() implies (#[trigger] snapshots[j]).limit_id@
        != "codex"@ by {
        assert(facts.rate_limits[j].limit_id@ != "codex"@);
    }
}

} // verus!
