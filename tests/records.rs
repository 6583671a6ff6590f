use mpd::directory::Directory;
use mpd::error::{Error, ParseError, ProtoError};
use mpd::lsinfo::LsInfoEntry;
use mpd::playlist::Playlist;
use mpd::status::{AudioFormat, QueuePlace, ReplayGain, State, Status};

fn owned(ps: &[(&str, &str)]) -> Vec<(String, String)> {
    ps.iter().map(|(a, b)| (a.to_string(), b.to_string())).collect()
}

#[test]
fn directory_from_pairs() {
    let d = Directory::from_pairs(&owned(&[("directory", "Music"), ("Last-Modified", "2021")]));
    assert_eq!(d, Directory { name: "Music".to_string(), last_mod: Some("2021".to_string()) });
    assert_eq!(Directory::from_pairs(&Vec::new()), Directory::default());
}

#[test]
fn lsinfo_entries() {
    match LsInfoEntry::from_group("directory", "Music".to_string(), owned(&[("Last-Modified", "2021")])) {
        Ok(LsInfoEntry::Directory(d)) => {
            assert_eq!(d.name, "Music");
            assert_eq!(d.last_mod, Some("2021".to_string()));
        },
        other => panic!("unexpected {:?}", other),
    }
    match LsInfoEntry::from_group("file", "a.mp3".to_string(), owned(&[("Time", "10")])) {
        Ok(LsInfoEntry::Song(s)) => {
            assert_eq!(s.file, "a.mp3");
            assert_eq!(s.fields, owned(&[("Time", "10")]));
        },
        other => panic!("unexpected {:?}", other),
    }
    assert_eq!(
        LsInfoEntry::from_group("playlist", "p".to_string(), Vec::new()),
        Err(Error::Parse(ParseError::BadPair))
    );
}

#[test]
fn playlist_from_pairs() {
    let p = Playlist::from_pairs(&owned(&[("playlist", "mix"), ("Last-Modified", "2020")])).unwrap();
    assert_eq!(p, Playlist { name: "mix".to_string(), last_mod: "2020".to_string() });
    assert_eq!(
        Playlist::from_pairs(&owned(&[("Last-Modified", "2020")])),
        Err(Error::Proto(ProtoError::NoField("playlist".to_string())))
    );
    assert_eq!(
        Playlist::from_pairs(&owned(&[("playlist", "mix")])),
        Err(Error::Proto(ProtoError::NoField("Last-Modified".to_string())))
    );
}

#[test]
fn state_and_replay_gain() {
    assert_eq!(State::from_str("play"), Ok(State::Play));
    assert_eq!(State::from_str("pause"), Ok(State::Pause));
    assert_eq!(State::from_str("stop"), Ok(State::Stop));
    assert_eq!(State::from_str("Play"), Err(ParseError::BadState("Play".to_string())));
    assert_eq!(State::default(), State::Stop);
    assert_eq!(ReplayGain::from_str("album"), Ok(ReplayGain::Album));
    assert_eq!(ReplayGain::from_str("x"), Err(ParseError::BadValue("x".to_string())));
    assert_eq!(ReplayGain::Track.as_str(), "track");
}

#[test]
fn audio_formats() {
    assert_eq!(AudioFormat::from_str("44100:16:2"), Ok(AudioFormat { rate: 44100, bits: 16, chans: 2 }));
    assert_eq!(AudioFormat::from_str("48000:f:2"), Ok(AudioFormat { rate: 48000, bits: 0, chans: 2 }));
    assert_eq!(AudioFormat::from_str("dsd64:2"), Ok(AudioFormat { rate: 352800, bits: 1, chans: 2 }));
    assert_eq!(AudioFormat::from_str("x:16:2"), Err(ParseError::BadRate));
    assert_eq!(AudioFormat::from_str("44100"), Err(ParseError::NoBits));
    assert_eq!(AudioFormat::from_str("44100:x:2"), Err(ParseError::BadBits));
    assert_eq!(AudioFormat::from_str("44100:16"), Err(ParseError::NoChans));
    assert_eq!(AudioFormat::from_str("44100:16:300"), Err(ParseError::BadChans));
    assert_eq!(AudioFormat::from_str("dsd64"), Err(ParseError::NoChans));
    assert_eq!(AudioFormat::from_str("dsdx:2"), Err(ParseError::BadRate));
}

#[test]
fn status_fields() {
    let s = Status::from_pairs(&owned(&[
        ("volume", "-1"),
        ("repeat", "1"),
        ("random", "0"),
        ("playlist", "12"),
        ("playlistlength", "3"),
        ("state", "play"),
        ("song", "2"),
        ("songid", "40"),
        ("time", "10:200"),
        ("elapsed", "10.250"),
        ("xfade", "1000"),
        ("audio", "44100:24:2"),
        ("replay_gain_mode", "album"),
        ("unknown", "x"),
    ]))
    .unwrap();
    assert_eq!(s.volume, -1);
    assert!(s.repeat);
    assert!(!s.random);
    assert_eq!(s.queue_version, 12);
    assert_eq!(s.queue_len, 3);
    assert_eq!(s.state, State::Play);
    assert_eq!(s.song, Some(QueuePlace { id: 40, pos: 2 }));
    assert_eq!(s.nextsong, None);
    assert_eq!(s.time, Some((10, 200)));
    assert_eq!(s.elapsed, Some("10.250".to_string()));
    assert_eq!(s.crossfade, Some(1000));
    assert_eq!(s.audio, Some(AudioFormat { rate: 44100, bits: 24, chans: 2 }));
    assert_eq!(s.replaygain, Some(ReplayGain::Album));
    let empty = Status::from_pairs(&Vec::new()).unwrap();
    assert_eq!(empty, Status::new());
    assert_eq!(empty.state, State::Stop);
}

#[test]
fn status_errors() {
    assert_eq!(Status::from_pairs(&owned(&[("volume", "200")])), Err(ParseError::BadNumber("200".to_string())));
    assert_eq!(Status::from_pairs(&owned(&[("volume", "-129")])), Err(ParseError::BadNumber("-129".to_string())));
    assert_eq!(Status::from_pairs(&owned(&[("volume", "-128")])).unwrap().volume, -128);
    assert_eq!(Status::from_pairs(&owned(&[("state", "x")])), Err(ParseError::BadState("x".to_string())));
    assert_eq!(Status::from_pairs(&owned(&[("time", "5:x")])), Err(ParseError::BadNumber("5:x".to_string())));
    assert_eq!(Status::from_pairs(&owned(&[("time", "5")])).unwrap().time, None);
    assert_eq!(Status::from_pairs(&owned(&[("audio", "44100")])), Err(ParseError::NoBits));
    assert_eq!(Status::from_pairs(&owned(&[("replay_gain_mode", "loud")])), Err(ParseError::BadValue("loud".to_string())));
}
