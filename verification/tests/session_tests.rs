use std::sync::mpsc::channel;
use std::sync::mpsc::Receiver;
use std::sync::mpsc::Sender;

use rexpect::reader::NBytes;
use rexpect::reader::PipeEvent;
use rexpect::reader::Str;
use rexpect::reader::UntilOr;
use rexpect::session::control_code;
use rexpect::session::ByteSink;
use rexpect::session::FdSink;
use rexpect::session::ReplSession;
use rexpect::session::StreamSession;
use rexpect::session::VecSink;
use rexpect::spawn_stream;
use rexpect::Error;

/// A session whose reader already holds the whole stream, ended by EOF, and
/// whose writer records every byte.
fn session_over(data: &str, timeout: Option<u64>) -> StreamSession<VecSink> {
    let (tx, rx): (Sender<PipeEvent>, Receiver<PipeEvent>) = channel();
    for b in data.bytes() {
        tx.send(PipeEvent::Byte(b)).unwrap();
    }
    tx.send(PipeEvent::Eof).unwrap();
    spawn_stream(rx, VecSink::new(), timeout)
}

/// A session over a stream that never produces anything and never ends.
fn silent_session(timeout: Option<u64>) -> (StreamSession<VecSink>, Sender<PipeEvent>) {
    let (tx, rx): (Sender<PipeEvent>, Receiver<PipeEvent>) = channel();
    (spawn_stream(rx, VecSink::new(), timeout), tx)
}

#[test]
fn test_read_line() {
    // What `cat` would echo back for the line `hans`: the line with the
    // terminal's \r\n ending; read_line strips both.
    let mut s = session_over("hans\r\n", Some(1000));
    s.send_line("hans").unwrap();
    assert_eq!("hans", s.read_line().unwrap());
    assert_eq!(b"hans\n".to_vec(), s.writer.data);
}

#[test]
fn test_expect_eof_timeout() {
    // Nothing arrives and the stream never ends: exp_eof must time out.
    let (mut p, _tx) = silent_session(Some(1000));
    match p.exp_eof() {
        Ok(_) => assert!(false, "should raise Timeout"),
        Err(Error::Timeout { .. }) => {}
        Err(_) => assert!(false, "should raise TimeOut"),
    }
}

#[test]
fn test_expect_eof_timeout2() {
    let mut p = session_over("", Some(1100));
    assert!(p.exp_eof().is_ok(), "expected eof");
}

#[test]
fn test_expect_string() {
    let mut p = session_over("hello world!\r\nhello heaven!\r\n", Some(1000));
    p.send_line("hello world!").unwrap();
    p.exp_string("hello world!").unwrap();
    p.send_line("hello heaven!").unwrap();
    p.exp_string("hello heaven!").unwrap();
}

#[test]
fn test_read_string_before() {
    let mut p = session_over("lorem ipsum dolor sit amet\r\n", Some(1000));
    p.send_line("lorem ipsum dolor sit amet").unwrap();
    assert_eq!("lorem ipsum dolor sit ", p.exp_string("amet").unwrap());
}

#[test]
fn test_expect_any() {
    // The byte-count alternative stands first in the list and wins over the
    // literal, although the literal's match starts earlier in the buffer.
    let mut p = session_over("Hi\r\n", Some(1000));
    p.send_line("Hi").unwrap();
    match p.exp(&UntilOr(NBytes(3), Str("Hi".to_string()))) {
        Ok((_, res)) => assert_eq!("Hi\r".to_string(), res),
        Err(_) => assert!(false, "unxpectedly, didn't find a match"),
    }
}

#[test]
fn test_expect_any_huge() {
    // The first alternative misses, the second hits, the third never gets a
    // say.
    let mut p = session_over("Hello World\r\n", Some(1000));
    p.send_line("Hello World").unwrap();
    match p.exp(&UntilOr(Str("Hi".to_string()), UntilOr(Str("World".to_string()), NBytes(3)))) {
        Ok((before, matched)) => {
            assert_eq!("Hello ".to_string(), before);
            assert_eq!("World".to_string(), matched);
        }
        Err(_) => assert!(false, "unxpectedly, didn't find a match"),
    }
}

#[test]
fn test_expect_empty_command_error() {
    let p = rexpect::spawn_args("");
    match p {
        Ok(_) => assert!(false, "should raise an error"),
        Err(Error::EmptyProgramName) => {}
        Err(_) => assert!(false, "should raise EmptyProgramName"),
    }
}

#[test]
fn test_send_control_codes() {
    // The whole lower-case alphabet maps to 1..26, and the bytes written are
    // exactly those codes.
    let mut p = session_over("", None);
    for (i, c) in ('a'..='z').enumerate() {
        p.send_control(c).unwrap();
        assert_eq!((i + 1) as u8, *p.writer.data.last().unwrap());
    }
    assert_eq!(26, p.writer.data.len());
    assert_eq!((1..=26).collect::<Vec<u8>>(), p.writer.data);
}

#[test]
fn test_send_control_aliases_and_brackets() {
    assert_eq!(control_code('a'), control_code('A'));
    assert_eq!(control_code('z'), control_code('Z'));
    assert_eq!(Some(3), control_code('C'));
    assert_eq!(Some(27), control_code('['));
    assert_eq!(Some(28), control_code('\\'));
    assert_eq!(Some(29), control_code(']'));
    assert_eq!(Some(30), control_code('^'));
    assert_eq!(Some(31), control_code('_'));
    assert_eq!(None, control_code('1'));
    assert_eq!(None, control_code(' '));
    assert_eq!(None, control_code('{'));
}

#[test]
fn test_send_control_unknown_char() {
    let mut p = session_over("", None);
    match p.send_control('1') {
        Err(Error::UnknownControlChar(c)) => assert_eq!('1', c),
        _ => assert!(false, "should raise UnknownControlChar"),
    }
    assert!(p.writer.data.is_empty());
}

#[test]
fn test_exp_eof_sticky_in_session() {
    let mut p = session_over("rest", Some(1000));
    assert_eq!("rest", p.exp_eof().unwrap());
    assert_eq!("", p.exp_eof().unwrap());
}

#[test]
fn test_exp_char() {
    let mut p = session_over("ab,cd", None);
    assert_eq!("ab", p.exp_char(',').unwrap());
    assert_eq!("cd", p.exp_eof().unwrap());
}

#[test]
fn test_exp_regex_invalid_pattern() {
    let mut p = session_over("anything", None);
    match p.exp_regex("(") {
        Err(Error::RegexError { pattern, .. }) => assert_eq!("(", pattern),
        _ => assert!(false, "should raise RegexError"),
    }
}

#[test]
fn test_exp_regex_halves() {
    let mut p = session_over("date: 2014-03-15 end", Some(1000));
    let (before, matched) = p.exp_regex(r"\d{4}-\d{2}-\d{2}").unwrap();
    assert_eq!("date: ", before);
    assert_eq!("2014-03-15", matched);
}

#[test]
fn test_send_then_flush() {
    let mut p = session_over("", None);
    let n = p.send("abc").unwrap();
    assert_eq!(3, n);
    p.flush().unwrap();
    assert_eq!(b"abc".to_vec(), p.writer.data);
}

#[test]
fn test_try_read_session() {
    let mut p = session_over("xy", None);
    assert_eq!(Some('x'), p.try_read());
    assert_eq!(Some('y'), p.try_read());
    assert_eq!(None, p.try_read());
}

#[test]
fn test_timeout_error_names_needle() {
    let (mut p, _tx) = silent_session(Some(500));
    match p.exp_string("x") {
        Err(Error::Timeout { expected, got, timeout_ms }) => {
            assert_eq!("\"x\"", expected);
            assert_eq!("", got);
            assert_eq!(500, timeout_ms);
        }
        _ => assert!(false, "should raise Timeout"),
    }
}

#[test]
fn test_timeout_got_is_sanitized() {
    let (mut p, tx) = silent_session(Some(300));
    tx.send(PipeEvent::Byte(b'a')).unwrap();
    tx.send(PipeEvent::Byte(b'\r')).unwrap();
    match p.exp_string("z") {
        Err(Error::Timeout { got, .. }) => assert_eq!("a`\\r`", got),
        _ => assert!(false, "should raise Timeout"),
    }
}

#[test]
fn test_eof_error_fields() {
    let mut p = session_over("abc", Some(1000));
    match p.exp_string("zzz") {
        Err(Error::EOF {
            expected,
            got,
            exit_code,
        }) => {
            assert_eq!("\"zzz\"", expected);
            assert_eq!("abc", got);
            assert_eq!(None, exit_code);
        }
        _ => assert!(false, "should raise EOF"),
    }
}

#[test]
fn test_fd_sink_writes_to_descriptor() {
    // Standard output's descriptor is always open; the test harness captures
    // what lands there.
    let mut sink = FdSink::new(1);
    assert_eq!(9, sink.write_bytes(b"fd sink\r\n").unwrap());
    assert!(sink.flush_bytes().is_ok());
}

#[test]
fn test_fd_sink_refuses_bad_descriptor() {
    let mut sink = FdSink::new(-1);
    assert!(sink.write_bytes(b"x").is_err());
}

#[test]
fn test_control_chars_with_ready_markers() {
    // The stream half of driving a shell job: run a command waiting for its
    // readiness marker, suspend it with Ctrl-Z, expect the shell's report,
    // resume, run again, interrupt with Ctrl-C.
    let (session, tx) = silent_session(Some(1000));
    let mut repl = ReplSession {
        session,
        prompt: "[prompt>".to_string(),
        quit_command: None,
        echo_on: false,
    };
    for b in "ready\r\n".bytes() {
        tx.send(PipeEvent::Byte(b)).unwrap();
    }
    repl.execute("cat <(echo ready) -", "ready").unwrap();
    repl.session.send_control('z').unwrap();
    assert_eq!(Some(&26), repl.session.writer.data.last());
    for b in "\r\n[1]+  Stopped                 cat <(echo ready) -\r\n".bytes() {
        tx.send(PipeEvent::Byte(b)).unwrap();
    }
    let (_, mat) = repl
        .session
        .exp_regex(r"(Stopped|suspended)\s+cat .*")
        .unwrap();
    assert!(mat.starts_with("Stopped"));
    repl.send_line("fg").unwrap();
    for b in "ready\r\n".bytes() {
        tx.send(PipeEvent::Byte(b)).unwrap();
    }
    repl.execute("cat <(echo ready) -", "ready").unwrap();
    repl.session.send_control('c').unwrap();
    assert_eq!(Some(&3), repl.session.writer.data.last());
}

#[test]
fn test_repl_wait_for_prompt() {
    let session = session_over("greeting~~~~more[prompt>", Some(1000));
    let mut repl = ReplSession {
        session,
        prompt: "~~~~".to_string(),
        quit_command: None,
        echo_on: false,
    };
    assert_eq!("greeting", repl.wait_for_prompt().unwrap());
    repl.prompt = "[prompt>".to_string();
    assert_eq!("more", repl.wait_for_prompt().unwrap());
}

#[test]
fn test_repl_send_line_consumes_echo() {
    // The shell echoes the command; send_line with echo on consumes it.
    let session = session_over("pwd\r\n/tmp\r\n", Some(1000));
    let mut repl = ReplSession {
        session,
        prompt: ">>> ".to_string(),
        quit_command: None,
        echo_on: true,
    };
    repl.send_line("pwd").unwrap();
    // The echo's own line ending is still in the stream, then the output.
    assert_eq!("", repl.session.read_line().unwrap());
    assert_eq!("/tmp", repl.session.read_line().unwrap());
    assert_eq!(b"pwd\n".to_vec(), repl.session.writer.data);
}

#[test]
fn test_repl_execute_waits_for_ready() {
    let session = session_over("ready\r\nmain output", Some(1000));
    let mut repl = ReplSession {
        session,
        prompt: "~~~~".to_string(),
        quit_command: None,
        echo_on: false,
    };
    repl.execute("cat <(echo ready) -", "ready").unwrap();
    assert_eq!(b"cat <(echo ready) -\n".to_vec(), repl.session.writer.data);
}

#[test]
fn test_repl_quit_sends_quit_command() {
    let session = session_over("", None);
    let mut repl = ReplSession {
        session,
        prompt: "~~~~".to_string(),
        quit_command: Some("quit".to_string()),
        echo_on: false,
    };
    repl.quit().unwrap();
    assert_eq!(b"quit\n".to_vec(), repl.session.writer.data);
}
