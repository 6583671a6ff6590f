use mpd::error::{Error, ParseError, ProtoError, ServerError};
use mpd::reply::{decode_line, Reply};
use mpd::response::{ends_response, expect_ok, read_field, read_pair};

fn pair(k: &str, v: &str) -> Reply {
    Reply::Pair(k.to_string(), v.to_string())
}

#[test]
fn field_line_is_reproduced_verbatim() {
    assert_eq!(decode_line("file: a.mp3"), Ok(pair("file", "a.mp3")));
    assert_eq!(decode_line("Last-Modified: 2021-01-01T00:00:00Z"), Ok(pair("Last-Modified", "2021-01-01T00:00:00Z")));
    assert_eq!(decode_line("Title:  two spaces "), Ok(pair("Title", " two spaces ")));
    assert_eq!(decode_line("key: a: b"), Ok(pair("key", "a: b")));
    assert_eq!(decode_line("a:: v"), Ok(pair("a:", "v")));
    assert_eq!(decode_line(": "), Ok(pair("", "")));
    assert_eq!(decode_line("Artist: Björk"), Ok(pair("Artist", "Björk")));
}

#[test]
fn success_marker_decodes() {
    assert_eq!(decode_line("OK"), Ok(Reply::Success));
}

#[test]
fn ack_line_decodes() {
    let expected = ServerError {
        code: 5,
        pos: 0,
        command: "play".to_string(),
        detail: "no such song".to_string(),
    };
    assert_eq!(decode_line("ACK [5@0] {play} no such song"), Ok(Reply::Ack(expected)));
}

#[test]
fn ack_line_without_command() {
    let expected = ServerError { code: 50, pos: 3, command: String::new(), detail: "gone".to_string() };
    assert_eq!(decode_line("ACK [50@3] gone"), Ok(Reply::Ack(expected)));
    let empty = ServerError { code: 2, pos: 1, command: String::new(), detail: String::new() };
    assert_eq!(decode_line("ACK [2@1] {} "), Ok(Reply::Ack(empty)));
}

#[test]
fn malformed_ack_lines_fail() {
    assert_eq!(decode_line("ACK"), Err(ParseError::NoCodePos));
    assert_eq!(decode_line("ACK 5@0"), Err(ParseError::NoCodePos));
    assert_eq!(decode_line("ACK [5]"), Err(ParseError::NoCodePos));
    assert_eq!(decode_line("ACK [0]@1"), Err(ParseError::NoCodePos));
    assert_eq!(decode_line("ACK [x@0] {play} m"), Err(ParseError::BadCode));
    assert_eq!(decode_line("ACK [@0] {play} m"), Err(ParseError::BadCode));
    assert_eq!(decode_line("ACK [5@y] {play} m"), Err(ParseError::BadPos));
    assert_eq!(decode_line("ACK [99999999999@0] m"), Err(ParseError::BadCode));
    assert_eq!(decode_line("ACK [5@0] {play no such song"), Err(ParseError::NoCommand));
}

#[test]
fn line_without_separator_is_bad_pair() {
    assert_eq!(decode_line("volume"), Err(ParseError::BadPair));
    assert_eq!(decode_line("volume:50"), Err(ParseError::BadPair));
    assert_eq!(decode_line(""), Err(ParseError::BadPair));
    assert_eq!(decode_line("ok"), Err(ParseError::BadPair));
    assert_eq!(decode_line("OK "), Err(ParseError::BadPair));
}

#[test]
fn terminal_lines() {
    assert!(ends_response("OK"));
    assert!(ends_response("ACK [5@0] {play} no such song"));
    assert!(ends_response("ACK"));
    assert!(!ends_response("file: a.mp3"));
    assert!(!ends_response("OK "));
    assert!(!ends_response(""));
}

#[test]
fn single_line_helpers() {
    assert_eq!(expect_ok("OK"), Ok(()));
    assert_eq!(expect_ok("volume: 5"), Err(Error::Proto(ProtoError::NotOk)));
    assert_eq!(expect_ok("junk"), Err(Error::Parse(ParseError::BadPair)));
    assert_eq!(read_pair("volume: 5"), Ok(("volume".to_string(), "5".to_string())));
    assert_eq!(read_pair("OK"), Err(Error::Proto(ProtoError::NotPair)));
    match read_pair("ACK [5@0] {play} no") {
        Err(Error::Server(e)) => assert_eq!(e.code, 5),
        other => panic!("unexpected {:?}", other),
    }
    assert_eq!(read_field("volume: 5", "OK", "volume"), Ok("5".to_string()));
    assert_eq!(
        read_field("volume: 5", "OK", "xfade"),
        Err(Error::Proto(ProtoError::NoField("xfade".to_string())))
    );
    assert_eq!(read_field("volume: 5", "volume: 6", "volume"), Err(Error::Proto(ProtoError::NotOk)));
}
