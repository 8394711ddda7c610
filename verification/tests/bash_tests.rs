use maestro::bash::BashSession;
use maestro::bash::OutputReader;
use maestro::bash::SessionState;
use maestro::bash::wrap_command;

fn s(t: &str) -> String {
    t.to_string()
}

const SENTINEL: &str = "<<BASH_TOOL_SENTINEL_UNIQUE_STRING_12345>>";

#[test]
fn framed_command_carries_inner_timeout_and_sentinel() {
    let w = wrap_command(&s("ls -l"));
    assert_eq!(
        w,
        "{ timeout 25 ls -l || echo \"command execution timed out\"; } 2>&1; echo \"<<BASH_TOOL_SENTINEL_UNIQUE_STRING_12345>>\""
    );
}

#[test]
fn framing_escapes_double_quotes() {
    let w = wrap_command(&s("echo \"hi\""));
    assert!(w.contains("echo \\\"hi\\\""));
}

#[test]
fn reader_stops_at_the_sentinel_and_strips_it() {
    let mut r = OutputReader::new();
    assert!(!r.push_line(&s("hello\n")));
    assert!(!r.push_line(&s("world\n")));
    assert!(r.push_line(&format!("{}\n", SENTINEL)));
    let res = r.into_result(s(""));
    assert_eq!(res.output.as_deref(), Some("hello\nworld\n"));
    assert!(res.error.is_none());
    assert!(res.base64_image.is_none());
    assert!(res.system.is_none());
}

#[test]
fn sentinel_line_with_surrounding_whitespace_is_still_stripped() {
    let mut r = OutputReader::new();
    assert!(r.push_line(&format!("  {}  \n", SENTINEL)));
    let res = r.into_result(s(""));
    assert!(res.output.is_none());
}

#[test]
fn empty_output_and_stderr_become_absent_fields() {
    let r = OutputReader::new();
    let res = r.into_result(s("boom"));
    assert!(res.output.is_none());
    assert_eq!(res.error.as_deref(), Some("boom"));
}

#[test]
fn overlong_output_is_truncated_with_a_notice() {
    let mut r = OutputReader::new();
    let big = "x".repeat(1048576);
    assert!(!r.push_line(&big));
    assert!(r.push_line(&s("one more\n")));
    let res = r.into_result(s(""));
    let out = res.output.unwrap();
    assert!(out.ends_with("\n... output too large, truncated ..."));
    assert!(!out.contains("one more"));
}

#[test]
fn overtime_is_reported_and_detected() {
    let mut r = OutputReader::new();
    r.push_line(&s("partial\n"));
    r.mark_overtime();
    assert!(r.indicates_timeout());
    let res = r.into_result(s(""));
    assert_eq!(
        res.output.as_deref(),
        Some("partial\n\ncommand took too long and was forcibly stopped")
    );
}

#[test]
fn inner_timeout_marker_is_detected() {
    let mut r = OutputReader::new();
    r.push_line(&s("command execution timed out\n"));
    assert!(r.indicates_timeout());
    let mut clean = OutputReader::new();
    clean.push_line(&s("all fine\n"));
    assert!(!clean.indicates_timeout());
}

#[test]
fn timed_out_session_rejects_commands_until_restart() {
    let mut session = BashSession::new();
    assert!(matches!(session.state, SessionState::NotStarted));
    session.on_start();
    assert!(session.check_ready(true).is_ok());
    let e = session.on_timeout(&s("sleep 100"));
    assert_eq!(e.message, "Command execution timed out (30 seconds): sleep 100");
    assert!(matches!(session.state, SessionState::TimedOut));
    let e = session.check_ready(true).unwrap_err();
    assert_eq!(e.message, "The session has timed out; restart it with restart: true");
    let r = session.on_restart();
    assert_eq!(r.system.as_deref(), Some("The tool has been restarted."));
    assert!(matches!(session.state, SessionState::Running));
    assert!(session.check_ready(true).is_ok());
}

#[test]
fn missing_command_is_rejected() {
    let mut session = BashSession::new();
    session.on_start();
    let e = session.check_ready(false).unwrap_err();
    assert_eq!(e.message, "No command was provided.");
}

#[test]
fn inner_timeout_marks_the_session() {
    let mut session = BashSession::new();
    session.on_start();
    let e = session.on_inner_timeout();
    assert_eq!(e.message, "Command execution timed out (30 seconds)");
    assert!(matches!(session.state, SessionState::TimedOut));
}

#[test]
fn a_dead_process_is_a_recoverable_outcome() {
    let session = BashSession::new();
    let r = session.on_process_exit(Some(127));
    assert_eq!(r.error.as_deref(), Some("bash has exited with code 127"));
    assert_eq!(r.system.as_deref(), Some("The tool must be restarted."));
    assert!(r.output.is_none());
    let r = session.on_process_exit(None);
    assert_eq!(r.error.as_deref(), Some("bash has exited with code -1"));
}
