use fluttertools::cli::parse_run_args;
use fluttertools::logbook::{format_log_footer, format_log_header, LogBook, StreamKind};
use fluttertools::supervisor::{
    raw_mode_of, setup_error_message, shutdown_token, ConsoleModeGuard, InterruptAction, Phase,
    RelayDecision, SetupError, SharedInputHandle, SupervisorRun, FAILURE_SENTINEL,
};

fn strings(v: &[&str]) -> Vec<String> {
    v.iter().map(|s| s.to_string()).collect()
}

#[test]
fn parses_flags_and_command() {
    let args = strings(&[
        "prog", "--log=out.log", "--cwd", "work", "flutter", "run", "--release",
    ]);
    let r = parse_run_args(&args);
    assert_eq!(r.log_path.as_deref(), Some("out.log"));
    assert_eq!(r.working_dir.as_deref(), Some("work"));
    assert_eq!(r.command_name.as_deref(), Some("flutter"));
    assert_eq!(r.command_args, strings(&["run", "--release"]));
}

#[test]
fn later_flag_occurrence_wins_and_flag_without_value_is_command() {
    let args = strings(&["prog", "--log", "a.log", "--log=b.log", "--cwd"]);
    let r = parse_run_args(&args);
    assert_eq!(r.log_path.as_deref(), Some("b.log"));
    // A trailing `--cwd` with no value is no flag; it becomes the command.
    assert_eq!(r.command_name.as_deref(), Some("--cwd"));
    assert!(r.working_dir.is_none());
}

#[test]
fn no_arguments_means_no_command() {
    let args = strings(&["prog"]);
    let r = parse_run_args(&args);
    assert!(r.command_name.is_none());
    assert!(r.log_path.is_none());
}

#[test]
fn shutdown_token_is_quit_keystroke_and_newline() {
    assert_eq!(shutdown_token(), "q\n");
}

#[test]
fn interrupts_send_at_most_one_token() {
    let mut h = SharedInputHandle::new();
    assert_eq!(h.on_interrupt(), InterruptAction::SendShutdownToken);
    assert_eq!(h.on_interrupt(), InterruptAction::Ignore);
    assert_eq!(h.on_interrupt(), InterruptAction::Ignore);
    assert_eq!(h.on_interrupt(), InterruptAction::Ignore);
}

#[test]
fn relay_forwards_only_while_open() {
    let mut h = SharedInputHandle::new();
    assert_eq!(h.relay_decision(), RelayDecision::Forward);
    h.on_interrupt();
    assert_eq!(h.relay_decision(), RelayDecision::Stop);
    assert_eq!(h.relay_decision(), RelayDecision::Stop);
}

#[test]
fn console_mode_restored_bit_for_bit_exactly_once() {
    let mut g = ConsoleModeGuard::capture(Some(0x1234_0007));
    assert_eq!(g.take_restore(), Some(0x1234_0007));
    assert_eq!(g.take_restore(), None);
    let mut none = ConsoleModeGuard::capture(None);
    assert_eq!(none.take_restore(), None);
}

#[test]
fn raw_mode_clears_line_input_and_echo() {
    assert_eq!(raw_mode_of(0x7), 0x1);
    assert_eq!(raw_mode_of(0x1F7), 0x1F1);
    assert_eq!(raw_mode_of(0), 0);
}

#[test]
fn exit_code_propagates_and_sentinel_covers_missing_code() {
    let mut run = SupervisorRun::start(None, None, None);
    run.child_exited(Some(42));
    run.tees_joined();
    run.restore_console();
    assert_eq!(run.finalize("t"), 42);

    let mut run2 = SupervisorRun::start(None, None, None);
    run2.child_exited(None);
    run2.tees_joined();
    run2.restore_console();
    assert_eq!(run2.finalize("t"), FAILURE_SENTINEL);
    assert_ne!(FAILURE_SENTINEL, 0);
}

#[test]
fn successful_run_echoes_output_then_success_summary() {
    let mut run = SupervisorRun::start(None, None, None);
    assert_eq!(run.phase, Phase::Running);
    run.child_line(StreamKind::Stdout, "hello".to_string());
    run.child_exited(Some(0));
    run.tees_joined();
    assert_eq!(run.restore_console(), None);
    let code = run.finalize("2024-01-01T00:00:00+00:00");
    assert_eq!(code, 0);
    assert_eq!(run.phase, Phase::Terminated);
    let expected = vec![
        (StreamKind::Stdout, "hello".to_string()),
        (StreamKind::Stdout, String::new()),
        (StreamKind::Stdout, "\u{2713} Command completed successfully".to_string()),
    ];
    assert_eq!(run.console, expected);
}

#[test]
fn failing_run_logs_footer_with_exit_code_seven() {
    let header = format_log_header(
        "2024-01-01T00:00:00+00:00",
        "sh",
        &strings(&["-c", "exit 7"]),
        "/work",
    );
    let book = LogBook::new(header.clone());
    let mut run = SupervisorRun::start(Some("out.log".to_string()), Some(book), Some(3));
    run.child_line(StreamKind::Stderr, "boom".to_string());
    run.child_exited(Some(7));
    run.tees_joined();
    assert_eq!(run.restore_console(), Some(3));
    let code = run.finalize("2024-01-01T00:01:00+00:00");
    assert_eq!(code, 7);
    let log = run.log.as_ref().unwrap();
    assert!(log.sealed);
    let lines = log.rendered();
    let mut expected = header.clone();
    expected.push("boom".to_string());
    expected.extend(format_log_footer(7, "2024-01-01T00:01:00+00:00"));
    assert_eq!(lines, expected);
    // The file begins with the header block and ends with the footer.
    assert_eq!(lines[0], "=== Command Log ===");
    assert_eq!(lines[lines.len() - 2], "Exit code: 7");
    assert_eq!(
        lines[lines.len() - 1],
        "Finished at: 2024-01-01T00:01:00+00:00"
    );
    // The failure summary names the exit code and the log file.
    let expected_console = vec![
        (StreamKind::Stderr, "boom".to_string()),
        (StreamKind::Stderr, String::new()),
        (StreamKind::Stderr, "Command failed with exit code 7".to_string()),
        (StreamKind::Stderr, "Check log file: out.log".to_string()),
    ];
    assert_eq!(run.console, expected_console);
}

#[test]
fn body_lines_keep_arrival_order_per_stream() {
    let book = LogBook::new(vec!["h".to_string()]);
    let mut run = SupervisorRun::start(Some("l".to_string()), Some(book), None);
    run.child_line(StreamKind::Stdout, "o1".to_string());
    run.child_line(StreamKind::Stderr, "e1".to_string());
    run.child_line(StreamKind::Stdout, "o2".to_string());
    run.child_exited(Some(0));
    // Lines may still drain after the child exits.
    run.child_line(StreamKind::Stderr, "e2".to_string());
    run.tees_joined();
    run.restore_console();
    run.finalize("t");
    let log = run.log.as_ref().unwrap();
    let body: Vec<&str> = log.body.iter().map(|p| p.1.as_str()).collect();
    assert_eq!(body, vec!["o1", "e1", "o2", "e2"]);
    let outs: Vec<&str> = log
        .body
        .iter()
        .filter(|p| p.0 == StreamKind::Stdout)
        .map(|p| p.1.as_str())
        .collect();
    assert_eq!(outs, vec!["o1", "o2"]);
    let errs: Vec<&str> = log
        .body
        .iter()
        .filter(|p| p.0 == StreamKind::Stderr)
        .map(|p| p.1.as_str())
        .collect();
    assert_eq!(errs, vec!["e1", "e2"]);
}

#[test]
fn header_block_has_exact_shape() {
    let lines = format_log_header("TS", "cmd", &strings(&["a", "b"]), "/dir");
    assert_eq!(
        lines,
        vec![
            "=== Command Log ===".to_string(),
            "Timestamp: TS".to_string(),
            "Command: cmd a b".to_string(),
            "Working Directory: /dir".to_string(),
            "===================".to_string(),
            String::new(),
        ]
    );
    // Without arguments the command line keeps its separating space.
    let no_args = format_log_header("TS", "cmd", &Vec::new(), "/dir");
    assert_eq!(no_args[2], "Command: cmd ");
}

#[test]
fn footer_block_has_exact_shape() {
    let lines = format_log_footer(-3, "TS2");
    assert_eq!(
        lines,
        vec![
            String::new(),
            "===================".to_string(),
            "Exit code: -3".to_string(),
            "Finished at: TS2".to_string(),
        ]
    );
}

#[test]
fn setup_failures_name_what_was_attempted() {
    assert_eq!(
        setup_error_message(&SetupError::CommandNotFound("flutter".to_string())),
        "Command not found in PATH: flutter"
    );
    assert_eq!(
        setup_error_message(&SetupError::WorkingDirectoryUnavailable("/tmp/missing".to_string())),
        "Failed to change directory to: /tmp/missing"
    );
    assert_eq!(
        setup_error_message(&SetupError::LogDirectoryUnwritable("logs".to_string())),
        "Failed to create log directory: logs"
    );
    assert_eq!(
        setup_error_message(&SetupError::SpawnFailed("cmd".to_string())),
        "Failed to start command: cmd"
    );
    assert_eq!(
        setup_error_message(&SetupError::HandlerRegistrationFailed),
        "Failed to set Ctrl-C handler"
    );
    // Every setup failure ends the supervisor with the non-zero sentinel.
    assert_ne!(FAILURE_SENTINEL, 0);
}
