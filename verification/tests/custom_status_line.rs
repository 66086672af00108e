use ansi_to_tui::IntoText;
use codex_tui::custom_status_line::{
    configured_custom_status_line_command, custom_status_line_enabled,
    custom_status_line_powershell_command, custom_status_line_result,
    custom_status_line_workspace_command, keep_lines, CommandOutput, CustomStatusLineState,
    RefreshAction, CUSTOM_STATUS_LINE_OUTPUT_BYTES_CAP, CUSTOM_STATUS_LINE_REFRESH_INTERVAL,
    CUSTOM_STATUS_LINE_TIMEOUT,
};
use codex_tui::status_line_input::{
    custom_status_line_input, custom_status_line_rate_limit_window, RateLimitSnapshot,
    RateLimitWindow, SessionFacts, TokenUsage,
};
use ratatui::style::Color;
use ratatui::text::Line;
use std::path::PathBuf;

fn ansi_escape(text: &str) -> Vec<Line<'static>> {
    text.into_text().expect("ansi text").lines
}

fn parse_custom_status_line_output(output: &str) -> Option<Vec<Line<'static>>> {
    codex_tui::custom_status_line::parse_custom_status_line_output(output, ansi_escape)
}

fn plain(text: &str) -> Vec<String> {
    text.lines().map(|line| line.to_string()).collect()
}

#[test]
fn parses_ansi_and_preserves_multiple_lines() {
    let lines = parse_custom_status_line_output("\u{1b}[31mfirst\u{1b}[0m\nsecond\n")
        .expect("status line output");

    assert_eq!(lines.len(), 2);
    assert_eq!(lines[0].to_string(), "first");
    assert_eq!(lines[0].spans[0].style.fg, Some(Color::Red));
    assert_eq!(lines[1].to_string(), "second");
}

#[test]
fn preserves_unicode_in_ansi_styled_output() {
    let lines = parse_custom_status_line_output("\u{1b}[36m◇ codex 🧠\u{1b}[0m")
        .expect("status line output");

    assert_eq!(lines[0].to_string(), "◇ codex 🧠");
}

#[test]
fn limits_output_to_four_lines() {
    let lines =
        parse_custom_status_line_output("one\ntwo\nthree\nfour\nfive").expect("status line output");

    assert_eq!(
        lines.iter().map(ToString::to_string).collect::<Vec<_>>(),
        vec!["one", "two", "three", "four"]
    );
}

#[test]
fn treats_empty_output_as_absent() {
    assert!(parse_custom_status_line_output("\n\r\n").is_none());
}

#[test]
fn command_is_bounded_and_receives_json_through_environment() {
    let command = custom_status_line_workspace_command(
        "bash ~/.codex/statusline.sh".to_string(),
        "{\"model\":{}}".to_string(),
        PathBuf::from("/workspace"),
    );

    assert_eq!(command.timeout, CUSTOM_STATUS_LINE_TIMEOUT);
    assert_eq!(
        command.output_bytes_cap,
        CUSTOM_STATUS_LINE_OUTPUT_BYTES_CAP
    );
    assert_eq!(command.cwd, Some(PathBuf::from("/workspace")));
    assert_eq!(
        command.env.get("CODEX_STATUS_COMMAND"),
        Some(&Some("bash ~/.codex/statusline.sh".to_string()))
    );
    assert_eq!(
        command.env.get("CODEX_STATUS_INPUT"),
        Some(&Some("{\"model\":{}}".to_string()))
    );
}

#[test]
fn shells_are_called_with_fixed_arguments() {
    let sh = custom_status_line_workspace_command(
        "date; uptime".to_string(),
        "{}".to_string(),
        PathBuf::from("/"),
    );
    assert_eq!(
        sh.argv,
        vec![
            "sh",
            "-c",
            "printf '%s' \"$CODEX_STATUS_INPUT\" | sh -lc \"$CODEX_STATUS_COMMAND\""
        ]
    );
    assert_eq!(sh.timeout, 2000);
    assert_eq!(sh.output_bytes_cap, 16 * 1024);
    assert!(sh.env.get("PATH").is_none());

    let powershell = custom_status_line_powershell_command(
        "Get-Date".to_string(),
        "{}".to_string(),
        PathBuf::from("/"),
    );
    assert_eq!(
        powershell.argv,
        vec![
            "powershell.exe",
            "-NoProfile",
            "-NonInteractive",
            "-Command",
            "$env:CODEX_STATUS_INPUT | Invoke-Expression $env:CODEX_STATUS_COMMAND"
        ]
    );
    assert_eq!(
        powershell.env.get("CODEX_STATUS_COMMAND"),
        Some(&Some("Get-Date".to_string()))
    );
}

#[test]
fn a_blank_command_is_no_command() {
    assert_eq!(configured_custom_status_line_command(None), None);
    assert_eq!(configured_custom_status_line_command(Some(" \t\n")), None);
    assert_eq!(
        configured_custom_status_line_command(Some("  date  ")),
        Some("date")
    );
    assert!(!custom_status_line_enabled(Some("")));
    assert!(custom_status_line_enabled(Some("date")));
}

#[test]
fn no_lines_are_no_status_line() {
    assert_eq!(keep_lines(Vec::<u8>::new()), None);
    assert_eq!(keep_lines(vec![1, 2, 3, 4]), Some(vec![1, 2, 3, 4]));
    assert_eq!(keep_lines(vec![1, 2, 3, 4, 5]), Some(vec![1, 2, 3, 4]));
}

fn refresh(
    state: &mut CustomStatusLineState<String>,
    setting: Option<&str>,
    now: u128,
) -> RefreshAction {
    state.refresh_custom_status_line_if_due(setting, true, || Some("{}".to_string()), || now)
}

fn started(action: RefreshAction) -> u64 {
    match action {
        RefreshAction::Run {
            request_id,
            command,
            input,
        } => {
            assert_eq!(command, "date");
            assert_eq!(input, "{}");
            request_id
        }
        _ => panic!("expected a run"),
    }
}

#[test]
fn runs_are_numbered_and_keep_their_distance() {
    let second = CUSTOM_STATUS_LINE_REFRESH_INTERVAL;
    let mut state = CustomStatusLineState::<String>::default();
    assert_eq!(started(refresh(&mut state, Some(" date "), 10)), 0);
    assert!(state.is_pending());
    assert!(matches!(
        refresh(&mut state, Some("date"), 10 + 2 * second),
        RefreshAction::Idle
    ));
    assert!(state.set_custom_status_line_output(0, Ok("noon\n".to_string()), plain));
    assert_eq!(
        state.custom_status_line_value(),
        Some(&vec!["noon".to_string()])
    );
    assert!(matches!(
        refresh(&mut state, Some("date"), 9),
        RefreshAction::Wait
    ));
    assert!(matches!(
        refresh(&mut state, Some("date"), 9 + second),
        RefreshAction::Wait
    ));
    assert_eq!(started(refresh(&mut state, Some("date"), 10 + second)), 1);
}

#[test]
fn a_run_that_nobody_waits_for_changes_nothing() {
    let mut state = CustomStatusLineState::<String>::default();
    assert!(!state.set_custom_status_line_output(0, Ok("early".to_string()), plain));
    assert!(state.custom_status_line_value().is_none());
    assert_eq!(started(refresh(&mut state, Some("date"), 0)), 0);
    assert!(!state.set_custom_status_line_output(1, Ok("other".to_string()), plain));
    assert!(state.is_pending());
    assert!(state.custom_status_line_value().is_none());
}

#[test]
fn a_failed_run_keeps_the_lines() {
    let mut state = CustomStatusLineState::<String>::default();
    assert_eq!(started(refresh(&mut state, Some("date"), 0)), 0);
    assert!(state.set_custom_status_line_output(0, Ok("noon".to_string()), plain));
    assert_eq!(
        started(refresh(
            &mut state,
            Some("date"),
            CUSTOM_STATUS_LINE_REFRESH_INTERVAL
        )),
        1
    );
    assert!(state.set_custom_status_line_output(1, Err("broken".to_string()), plain));
    assert!(!state.is_pending());
    assert_eq!(
        state.custom_status_line_value(),
        Some(&vec!["noon".to_string()])
    );
}

#[test]
fn another_command_starts_over_with_fresh_numbers() {
    let mut state = CustomStatusLineState::<String>::default();
    assert_eq!(started(refresh(&mut state, Some("date"), 0)), 0);
    let other = refresh(&mut state, Some("uptime"), 1);
    assert!(matches!(
        other,
        RefreshAction::Run { request_id: 1, command, .. } if command == "uptime"
    ));
    assert!(!state.set_custom_status_line_output(0, Ok("noon".to_string()), plain));
    assert!(matches!(refresh(&mut state, None, 2), RefreshAction::Idle));
    assert!(!state.is_pending());
    assert!(!state.set_custom_status_line_output(1, Ok("up".to_string()), plain));
    assert_eq!(started(refresh(&mut state, Some("date"), 3)), 2);
}

#[test]
fn no_run_starts_without_a_runner_or_an_input() {
    let mut state = CustomStatusLineState::<String>::default();
    assert!(matches!(
        state.refresh_custom_status_line_if_due(
            Some("date"),
            false,
            || panic!("no input is needed"),
            || panic!("no time is needed"),
        ),
        RefreshAction::Idle
    ));
    assert!(matches!(
        state.refresh_custom_status_line_if_due(Some("date"), true, || None, || 0),
        RefreshAction::Idle
    ));
    assert!(!state.is_pending());
    assert_eq!(started(refresh(&mut state, Some("date"), 0)), 0);
}

fn output(exit_code: i32, stderr: &str) -> Result<CommandOutput, String> {
    Ok(CommandOutput {
        exit_code,
        stdout: "out".to_string(),
        stderr: stderr.to_string(),
    })
}

#[test]
fn failed_runs_say_why() {
    assert_eq!(
        custom_status_line_result(output(0, "ignored")),
        Ok("out".to_string())
    );
    assert_eq!(
        custom_status_line_result(output(127, " \n")),
        Err("custom status line command exited with status 127".to_string())
    );
    assert_eq!(
        custom_status_line_result(output(-1, " not found\n")),
        Err("custom status line command exited with status -1: not found".to_string())
    );
    assert_eq!(
        custom_status_line_result(output(i32::MIN, "")),
        Err("custom status line command exited with status -2147483648".to_string())
    );
    assert_eq!(
        custom_status_line_result(Err("timed out".to_string())),
        Err("timed out".to_string())
    );
}

fn facts() -> SessionFacts {
    SessionFacts {
        session_id: None,
        cwd: "/work".to_string(),
        version: "1.2.3".to_string(),
        model_display_name: "model".to_string(),
        context_used_percent: None,
        context_window_size: Some(1000),
        total_usage: TokenUsage {
            input_tokens: 1,
            cached_input_tokens: 2,
            output_tokens: 3,
            reasoning_output_tokens: 4,
        },
        last_turn: None,
        effective_effort: None,
        configured_effort: None,
        rate_limits: vec![
            RateLimitSnapshot {
                limit_id: "other".to_string(),
                five_hour: Some(RateLimitWindow {
                    used_percentage_bits: 50.0f64.to_bits(),
                    resets_at: Some(1),
                }),
                seven_day: None,
            },
            RateLimitSnapshot {
                limit_id: "codex".to_string(),
                five_hour: None,
                seven_day: Some(RateLimitWindow {
                    used_percentage_bits: 12.5f64.to_bits(),
                    resets_at: Some(99),
                }),
            },
        ],
        agent_state: "idle".to_string(),
        permissions: "read-only".to_string(),
        approval_mode: "never".to_string(),
    }
}

#[test]
fn the_input_fills_in_what_is_not_known() {
    let input = custom_status_line_input(facts());
    assert_eq!(input.hook_event_name, "Status");
    assert_eq!(input.session_id, None);
    assert_eq!(input.cwd, "/work");
    assert_eq!(input.workspace_current_dir, "/work");
    assert_eq!(input.model.id, "model");
    assert_eq!(input.model.display_name, "model");
    assert_eq!(input.context_window.used_percentage, 0);
    assert_eq!(input.context_window.context_window_size, 1000);
    assert_eq!(input.context_window.total_input_tokens, 1);
    assert_eq!(input.context_window.total_output_tokens, 3);
    assert_eq!(input.last_turn.input_tokens, 0);
    assert!(!input.thinking_enabled);
    assert_eq!(input.effort_level, "none");
    assert_eq!(
        f64::from_bits(input.rate_limits.five_hour.used_percentage_bits),
        0.0
    );
    assert_eq!(
        f64::from_bits(input.rate_limits.seven_day.used_percentage_bits),
        12.5
    );
    assert_eq!(input.rate_limits.seven_day.resets_at, Some(99));
    assert_eq!(custom_status_line_rate_limit_window(None).resets_at, None);
}

#[test]
fn the_effort_in_effect_comes_before_the_configured_one() {
    let mut known = facts();
    known.configured_effort = Some("low".to_string());
    let input = custom_status_line_input(known);
    assert!(input.thinking_enabled);
    assert_eq!(input.effort_level, "low");

    let mut known = facts();
    known.effective_effort = Some("high".to_string());
    known.configured_effort = Some("low".to_string());
    assert_eq!(custom_status_line_input(known).effort_level, "high");
}

#[test]
fn nothing_is_escaped_where_nothing_is_taken_in() {
    let mut state = CustomStatusLineState::<String>::default();
    assert!(!state.set_custom_status_line_output(0, Ok("early".to_string()), |_| {
        panic!("no text is to be escaped")
    }));
    assert_eq!(started(refresh(&mut state, Some("date"), 0)), 0);
    assert!(state.set_custom_status_line_output(0, Ok("\n".to_string()), |_| {
        panic!("no text is to be escaped")
    }));
    assert!(state.custom_status_line_value().is_none());
    assert!(matches!(
        state.refresh_custom_status_line_if_due(
            None,
            true,
            || panic!("no input is needed"),
            || panic!("no time is needed"),
        ),
        RefreshAction::Idle
    ));
}

#[test]
fn only_the_limits_under_the_known_id_are_told() {
    let mut known = facts();
    known.rate_limits.pop();
    let input = custom_status_line_input(known);
    assert_eq!(input.rate_limits.five_hour.used_percentage_bits, 0);
    assert_eq!(input.rate_limits.five_hour.resets_at, None);
    assert_eq!(input.rate_limits.seven_day.resets_at, None);
}
