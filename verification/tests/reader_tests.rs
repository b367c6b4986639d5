use std::sync::mpsc::channel;
use std::sync::mpsc::Receiver;

use rexpect::reader::EOF;
use rexpect::reader::Match;
use rexpect::reader::NBReader;
use rexpect::reader::NBytes;
use rexpect::reader::PipeEvent;
use rexpect::reader::Regx;
use rexpect::reader::Str;
use rexpect::reader::Needle;
use rexpect::reader::Until;
use rexpect::reader::UntilOr;
use rexpect::Error;

/// A reader whose channel already holds the whole stream, ended by EOF.
fn reader_over(data: &str, timeout: Option<u64>) -> NBReader {
    let (tx, rx): (_, Receiver<PipeEvent>) = channel();
    for b in data.bytes() {
        tx.send(PipeEvent::Byte(b)).unwrap();
    }
    tx.send(PipeEvent::Eof).unwrap();
    NBReader::new(rx, timeout)
}

#[test]
fn test_expect_melon() {
    let mut r = reader_over("a melon\r\n", None);
    assert_eq!(
        "a melon".to_owned(),
        r.read_until(&Str("\r\n".to_string())).expect("cannot read line").0
    );
    // check for EOF
    match r.read_until(&NBytes(10)) {
        Ok(_) => assert!(false),
        Err(Error::EOF { .. }) => {}
        Err(_) => assert!(false),
    }
}

#[test]
fn test_regex() {
    let mut r = reader_over("2014-03-15", None);
    let re = Regx::new(r"^\d{4}-\d{2}-\d{2}$").unwrap();
    r.read_until(&re).expect("regex doesn't match");
}

#[test]
fn test_regex2() {
    let mut r = reader_over("2014-03-15", None);
    let re = Regx::new(r"-\d{2}-").unwrap();
    assert_eq!(
        ("2014".to_string(), "-03-".to_string()),
        r.read_until(&re).expect("regex doesn't match")
    );
}

#[test]
fn test_nbytes() {
    let mut r = reader_over("abcdef", None);
    assert_eq!("ab".to_string(), r.read_until(&NBytes(2)).expect("2 bytes").1);
    assert_eq!("cde".to_string(), r.read_until(&NBytes(3)).expect("3 bytes").1);
    assert_eq!("f".to_string(), r.read_until(&NBytes(4)).expect("4 bytes").1);
}

#[test]
fn test_eof() {
    let mut r = reader_over("lorem ipsum dolor sit amet", None);
    r.read_until(&NBytes(2)).expect("2 bytes");
    assert_eq!(
        "rem ipsum dolor sit amet".to_string(),
        r.read_until(&EOF).expect("reading until EOF").1
    );
}

#[test]
fn test_try_read() {
    let mut r = reader_over("lorem", None);
    r.read_until(&NBytes(4)).expect("4 bytes");
    assert_eq!(Some('m'), r.try_read());
    assert_eq!(None, r.try_read());
    assert_eq!(None, r.try_read());
    assert_eq!(None, r.try_read());
    assert_eq!(None, r.try_read());
}

#[test]
fn test_eof_sticky() {
    let mut r = reader_over("tail", None);
    assert_eq!("tail".to_string(), r.read_until(&EOF).expect("first EOF read").1);
    // Once EOF has been seen, further EOF reads succeed at once, empty.
    assert_eq!(("".to_string(), "".to_string()), r.read_until(&EOF).expect("second EOF read"));
    assert_eq!(("".to_string(), "".to_string()), r.read_until(&EOF).expect("third EOF read"));
}

#[test]
fn test_alternation_prefers_first() {
    // Both alternatives match; the first in the list wins, even though the
    // second's match starts earlier in the buffer.
    let mut r = reader_over("Hi\r\n", None);
    let needle = UntilOr(NBytes(3), Str("Hi".to_string()));
    assert_eq!(("".to_string(), "Hi\r".to_string()), r.read_until(&needle).expect("a match"));
}

#[test]
fn test_alternation_falls_through() {
    // The first alternative cannot match; the second is taken.
    let mut r = reader_over("Hello World", None);
    let needle = UntilOr(Str("Hi".to_string()), Str("World".to_string()));
    let (before, matched) = r.read_until(&needle).expect("a match");
    assert_eq!("Hello ".to_string(), before);
    assert_eq!("World".to_string(), matched);
}

#[test]
fn test_until_builder() {
    let chain = Until(Str("a".to_string())).or(NBytes(2)).or(Str("b".to_string()));
    assert_eq!("a", chain.0 .0 .0 .0.as_str());
    assert_eq!(2, (chain.0 .0).1 .0);
    assert_eq!("b", chain.0 .1 .0.as_str());
    let mut r = reader_over("xy", None);
    assert_eq!(("".to_string(), "xy".to_string()), r.read_until(&chain.0).expect("two bytes"));
}

#[test]
fn test_match_positions() {
    let m = Match::new(3, 7);
    assert_eq!(3, m.begin);
    assert_eq!(7, m.end);
}

#[test]
fn test_invalid_regex_is_refused() {
    assert!(Regx::new("(").is_err());
    assert!(Regx::new(r"\d+").is_ok());
}

#[test]
fn test_needle_display() {
    assert_eq!("\\n (newline)", Str("\n".to_string()).display());
    assert_eq!("\\r (carriage return)", Str("\r".to_string()).display());
    assert_eq!("\"abc\"", Str("abc".to_string()).display());
    assert_eq!("EOF (End of File)", EOF.display());
    assert_eq!("reading 5 bytes", NBytes(5).display());
    assert_eq!(
        "until \"a\" or reading 1 bytes;",
        UntilOr(Str("a".to_string()), NBytes(1)).display()
    );
    assert_eq!("Regex: \"x+\"", Regx::new("x+").unwrap().display());
}

#[test]
fn test_regx_remembers_pattern() {
    let rx = Regx::new("ab?c").unwrap();
    assert_eq!("ab?c", rx.pattern());
}

#[test]
fn test_bytes_arrive_in_order() {
    // Feed bytes one by one and look for a pattern that straddles them.
    let (tx, rx): (_, Receiver<PipeEvent>) = channel();
    for b in "abc-def".bytes() {
        tx.send(PipeEvent::Byte(b)).unwrap();
    }
    tx.send(PipeEvent::Eof).unwrap();
    let mut r = NBReader::new(rx, None);
    let (before, matched) = r.read_until(&Str("-".to_string())).expect("dash");
    assert_eq!("abc", before);
    assert_eq!("-", matched);
    assert_eq!("def", r.read_until(&EOF).expect("rest").1);
}

#[test]
fn test_fatal_read_error_ends_stream() {
    // A fatal read failure counts as end of stream (how some kernels report
    // a vanished child); a non-fatal one is discarded.
    let (tx, rx): (_, Receiver<PipeEvent>) = channel();
    tx.send(PipeEvent::Byte(b'x')).unwrap();
    tx.send(PipeEvent::ReadError { fatal: false }).unwrap();
    tx.send(PipeEvent::Byte(b'y')).unwrap();
    tx.send(PipeEvent::ReadError { fatal: true }).unwrap();
    let mut r = NBReader::new(rx, None);
    assert_eq!("xy".to_string(), r.read_until(&EOF).expect("until EOF").1);
}
