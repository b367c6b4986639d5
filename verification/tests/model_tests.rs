use rexpect::process::enrich_eof;
use rexpect::process::needs_terminate;
use rexpect::process::next_kill_action;
use rexpect::process::ChildStatus;
use rexpect::process::KillAction;
use rexpect::process::SignalOutcome;
use rexpect::encoding::Encoding;
use rexpect::session::sink_error;
use rexpect::session::SinkError;
use rexpect::text::latin1_string;
use rexpect::text::sanitize;
use rexpect::text::str_latin1_bytes;
use rexpect::text::u64_decimal;
use rexpect::Error;

#[test]
fn test_kill_actions() {
    assert_eq!(
        KillAction::ReportDisappeared,
        next_kill_action(SignalOutcome::NoSuchProcess, None, false)
    );
    assert_eq!(KillAction::Fail, next_kill_action(SignalOutcome::Failed, None, false));
    assert_eq!(
        KillAction::ReportStatus,
        next_kill_action(SignalOutcome::Delivered, Some(ChildStatus::Exited(0)), false)
    );
    assert_eq!(
        KillAction::Retry,
        next_kill_action(SignalOutcome::Delivered, Some(ChildStatus::StillAlive), false)
    );
    assert_eq!(
        KillAction::Escalate,
        next_kill_action(SignalOutcome::Delivered, Some(ChildStatus::StillAlive), true)
    );
    assert_eq!(KillAction::Retry, next_kill_action(SignalOutcome::Delivered, None, false));
}

#[test]
fn test_needs_terminate() {
    assert!(needs_terminate(Some(ChildStatus::StillAlive)));
    assert!(!needs_terminate(Some(ChildStatus::Exited(1))));
    assert!(!needs_terminate(Some(ChildStatus::Signaled(9))));
    assert!(!needs_terminate(None));
}

#[test]
fn test_enrich_eof_fills_empty_exit_code() {
    let e = Error::EOF {
        expected: "a".to_string(),
        got: "b".to_string(),
        exit_code: None,
    };
    match enrich_eof(e, Some("Exited(0)".to_string())) {
        Error::EOF { exit_code, .. } => assert_eq!(Some("Exited(0)".to_string()), exit_code),
        _ => assert!(false),
    }
}

#[test]
fn test_enrich_eof_keeps_other_errors() {
    let e = Error::BrokenPipe;
    assert!(matches!(enrich_eof(e, Some("x".to_string())), Error::BrokenPipe));
}

#[test]
fn test_encoding_default() {
    assert_eq!(Encoding::UTF8, Encoding::default());
    assert_ne!(Encoding::ASCII, Encoding::default());
}

#[test]
fn test_latin1_round_trip() {
    let s = latin1_string(b"hello\xff");
    assert_eq!("hello\u{ff}", s);
    let b = str_latin1_bytes("hello\u{ff}").unwrap();
    assert_eq!(b"hello\xff".to_vec(), b);
    assert!(str_latin1_bytes("\u{100}").is_none());
}

#[test]
fn test_sanitize_markers() {
    assert_eq!("a`\\n`\nb", sanitize(b"a\nb"));
    assert_eq!("`\\r`", sanitize(b"\r"));
    assert_eq!("x`^`y", sanitize(b"x\x1by"));
    assert_eq!("plain", sanitize(b"plain"));
}

#[test]
fn test_u64_decimal() {
    assert_eq!("0", u64_decimal(0));
    assert_eq!("7", u64_decimal(7));
    assert_eq!("1000", u64_decimal(1000));
    assert_eq!("18446744073709551615", u64_decimal(u64::MAX));
}

#[test]
fn test_describe_messages() {
    assert_eq!("PipeError", Error::BrokenPipe.describe());
    assert_eq!("EmptyProgramName", Error::EmptyProgramName.describe());
    let t = Error::Timeout {
        expected: "\"x\"".to_string(),
        got: "y".to_string(),
        timeout_ms: 1000,
    };
    assert_eq!(
        "Timeout Error: Expected \"x\" but got \"y\" (after waiting 1000 ms)",
        t.describe()
    );
    let c = Error::UnknownControlChar('1');
    assert_eq!("Unknown Control Character Ctrl-1", c.describe());
}

#[test]
fn test_sink_error_variants() {
    assert!(matches!(sink_error(SinkError::Broken), Error::BrokenPipe));
    match sink_error(SinkError::Failed {
        context: "io trouble".to_string(),
    }) {
        Error::IOError { context } => assert_eq!("io trouble", context),
        _ => assert!(false),
    }
}

#[test]
fn test_pty_error_description() {
    let e = Error::PtyError {
        context: "could not fork".to_string(),
    };
    assert_eq!("There was a pty error. could not fork", e.describe());
}
