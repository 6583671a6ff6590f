use mpd::error::{Error, ParseError, ProtoError};
use mpd::idle::{Session, Subsystem};
use mpd::pairs::Pairs;

fn lines(ls: &[&str]) -> Vec<String> {
    ls.iter().map(|s| s.to_string()).collect()
}

#[test]
fn resolving_a_quiet_wait_gives_no_events() {
    let mut s = Session::new();
    let guard = s.begin_idle(&[]).unwrap();
    assert!(s.is_idling());
    let events = guard.get(&mut s, Pairs::new(lines(&["OK"]))).unwrap();
    assert!(events.is_empty());
    assert!(!s.is_idling());
    assert_eq!(s.command("status", &()), Ok("status\n".to_string()));
}

#[test]
fn abandoning_a_wait_restores_commands() {
    let mut s = Session::new();
    let guard = s.begin_idle(&[Subsystem::Player]).unwrap();
    assert_eq!(s.command("status", &()), Err(Error::Proto(ProtoError::Idling)));
    assert!(s.begin_idle(&[]).is_err());
    assert_eq!(guard.release(&mut s), "noidle\n");
    assert!(!s.is_idling());
    assert_eq!(s.command("status", &()), Ok("status\n".to_string()));
}

#[test]
fn idle_events_are_decoded() {
    let mut s = Session::new();
    assert_eq!(s.idle_line(&[Subsystem::Player, Subsystem::Mixer]), Ok("idle \"player\" \"mixer\"\n".to_string()));
    let guard = s.begin_idle(&[Subsystem::Player, Subsystem::Mixer]).unwrap();
    assert!(s.idle_line(&[]).is_err());
    let reply = Pairs::new(lines(&["changed: player", "changed: stored_playlist", "OK"]));
    assert_eq!(guard.get(&mut s, reply), Ok(vec![Subsystem::Player, Subsystem::Playlist]));
}

#[test]
fn unknown_idle_event_is_an_error() {
    let mut s = Session::new();
    let guard = s.begin_idle(&[]).unwrap();
    let reply = Pairs::new(lines(&["changed: weather", "OK"]));
    assert_eq!(
        guard.get(&mut s, reply),
        Err(Error::Parse(ParseError::BadValue("weather".to_string())))
    );
    assert!(!s.is_idling());
}

#[test]
fn subsystem_names_round_trip() {
    let all = [
        Subsystem::Database, Subsystem::Update, Subsystem::Playlist, Subsystem::Queue,
        Subsystem::Player, Subsystem::Mixer, Subsystem::Output, Subsystem::Options,
        Subsystem::Partition, Subsystem::Sticker, Subsystem::Subscription, Subsystem::Message,
        Subsystem::Neighbor, Subsystem::Mount,
    ];
    for s in all {
        assert_eq!(Subsystem::from_str(s.to_str()), Ok(s));
    }
    assert_eq!(Subsystem::Queue.to_str(), "playlist");
}
