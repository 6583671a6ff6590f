use mpd::error::{Error, ParseError, ServerError};
use mpd::idle::Subsystem;
use mpd::list::GroupedValues;
use mpd::pairs::Pairs;
use mpd::response::{read_fields, read_list};

fn lines(ls: &[&str]) -> Vec<String> {
    ls.iter().map(|s| s.to_string()).collect()
}

fn owned(ps: &[(&str, &str)]) -> Vec<(String, String)> {
    ps.iter().map(|(a, b)| (a.to_string(), b.to_string())).collect()
}

#[test]
fn pair_stream_ends_at_success_marker() {
    let mut p = Pairs::new(lines(&["a: 1", "b: 2", "OK", "c: 3"]));
    assert_eq!(p.next(), Some(Ok(("a".to_string(), "1".to_string()))));
    assert_eq!(p.next(), Some(Ok(("b".to_string(), "2".to_string()))));
    assert_eq!(p.next(), None);
    assert_eq!(p.next(), None);
}

#[test]
fn pair_stream_stops_after_ack() {
    let mut p = Pairs::new(lines(&["a: 1", "ACK [5@0] {play} no such song", "b: 2"]));
    assert!(matches!(p.next(), Some(Ok(_))));
    match p.next() {
        Some(Err(Error::Server(e))) => assert_eq!(e.detail, "no such song"),
        other => panic!("unexpected {:?}", other),
    }
    assert_eq!(p.next(), None);
}

#[test]
fn pair_stream_surfaces_decode_errors() {
    let mut p = Pairs::new(lines(&["junk", "a: 1"]));
    assert_eq!(p.next(), Some(Err(Error::Parse(ParseError::BadPair))));
    assert_eq!(p.next(), None);
    let mut empty = Pairs::new(Vec::new());
    assert_eq!(empty.next(), None);
}

#[test]
fn grouping_by_file() {
    let p = Pairs::new(lines(&["file: a.mp3", "Time: 10", "file: b.mp3", "Time: 20", "OK"]));
    let mut m = p.split("file");
    assert_eq!(m.next(), Some(Ok(("a.mp3".to_string(), owned(&[("Time", "10")])))));
    assert_eq!(m.next(), Some(Ok(("b.mp3".to_string(), owned(&[("Time", "20")])))));
    assert_eq!(m.next(), None);
    assert_eq!(m.next(), None);
}

#[test]
fn grouping_drops_pairs_before_first_sentinel() {
    let p = Pairs::new(lines(&["Time: 5", "file: a.mp3", "OK"]));
    let mut m = p.split("file");
    assert_eq!(m.next(), Some(Ok(("a.mp3".to_string(), Vec::new()))));
    assert_eq!(m.next(), None);
    let q = Pairs::new(lines(&["Time: 5", "OK"]));
    let mut n = q.split("file");
    assert_eq!(n.next(), None);
}

#[test]
fn grouping_is_case_sensitive() {
    let p = Pairs::new(lines(&["file: a", "File: b", "OK"]));
    let mut m = p.split("file");
    assert_eq!(m.next(), Some(Ok(("a".to_string(), owned(&[("File", "b")])))));
    assert_eq!(m.next(), None);
}

#[test]
fn multi_sentinel_grouping() {
    let p = Pairs::new(lines(&["directory: Music", "Last-Modified: 2021", "file: a.mp3", "OK"]));
    let mut m = p.split_multisep(&["file", "directory"]);
    assert_eq!(
        m.next(),
        Some(Ok(("directory".to_string(), "Music".to_string(), owned(&[("Last-Modified", "2021")]))))
    );
    assert_eq!(m.next(), Some(Ok(("file".to_string(), "a.mp3".to_string(), Vec::new()))));
    assert_eq!(m.next(), None);
}

#[test]
fn ack_ends_grouping() {
    let p = Pairs::new(lines(&["file: a", "Time: 1", "file: b", "Time: 2", "ACK [50@0] {lsinfo} gone", "file: c"]));
    let mut m = p.split("file");
    assert_eq!(m.next(), Some(Ok(("a".to_string(), owned(&[("Time", "1")])))));
    let expected = ServerError { code: 50, pos: 0, command: "lsinfo".to_string(), detail: "gone".to_string() };
    assert_eq!(m.next(), Some(Err(Error::Server(expected))));
    assert_eq!(m.next(), None);
    assert_eq!(m.next(), None);
}

#[test]
fn ack_ends_multi_grouping() {
    let p = Pairs::new(lines(&["directory: d", "ACK [5@0] {lsinfo} x", "file: c"]));
    let mut m = p.split_multisep(&["file", "directory"]);
    assert!(matches!(m.next(), Some(Err(Error::Server(_)))));
    assert_eq!(m.next(), None);
}

#[test]
fn grouped_values_lowercase_keys() {
    let p = Pairs::new(lines(&["Album: A", "Title: x", "Title: y", "album: B", "Title: z", "OK"]));
    let g = GroupedValues::from_pairs_with_sep(p, "album").unwrap();
    assert_eq!(
        g.groups,
        vec![
            ("A".to_string(), vec!["x".to_string(), "y".to_string()]),
            ("B".to_string(), vec!["z".to_string()]),
        ]
    );
}

#[test]
fn grouped_values_skip_leading_values_and_fail_on_ack() {
    let g = GroupedValues::from_lowered(&owned(&[("title", "t"), ("album", "A")]), "album");
    assert_eq!(g.groups, vec![("A".to_string(), Vec::new())]);
    let p = Pairs::new(lines(&["Album: A", "ACK [2@0] {list} bad"]));
    assert!(matches!(GroupedValues::from_pairs_with_sep(p, "album"), Err(Error::Server(_))));
}

#[test]
fn list_and_fields() {
    let p = Pairs::new(lines(&["changed: player", "other: x", "changed: mixer", "OK"]));
    assert_eq!(read_list(p, "changed"), Ok(vec!["player".to_string(), "mixer".to_string()]));
    let q = Pairs::new(lines(&["id: 1", "id: 2", "OK"]));
    assert_eq!(read_fields(q, "id"), Ok(vec!["1".to_string(), "2".to_string()]));
    let r = Pairs::new(lines(&["id: 1", "pos: 2", "OK"]));
    assert!(matches!(read_fields(r, "id"), Err(Error::Proto(_))));
    assert_eq!(Subsystem::from_str("player"), Ok(Subsystem::Player));
}
