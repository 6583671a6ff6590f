//! Player status values decoded from their wire text: the playback state,
//! the replay gain mode and the audio format.

use vstd::prelude::*;
use crate::args::ToArguments;
use crate::error::{ParseError, ParseErrorView};
use crate::pairs::{pair_view, pairs_view, PairView};
use crate::text::{
    bounded_of, chars_of, find_char, find_from, i8_of, parse_bounded, parse_i8, parse_u32,
    same_text, u32_of, u64_of,
};

verus! {

/// Playback state.
#[derive(Clone, Copy, Debug, PartialEq, Eq)]
pub enum State {
    /// The player is stopped.
    Stop,
    /// The player is playing.
    Play,
    /// The player is paused.
    Pause,
}

/// The playback state written `s`, if any.
pub open spec fn state_of(s: Seq<char>) -> Option<State> {
    if s == "stop"@ {
        Some(State::Stop)
    } else if s == "play"@ {
        Some(State::Play)
    } else if s == "pause"@ {
        Some(State::Pause)
    } else {
        None
    }
}

impl State {
    /// The playback state written `s`; anything else is an error that
    /// carries the text.
    pub fn from_str(s: &str) -> (r: Result<State, ParseError>)
        ensures
            match r {
                Ok(x) => state_of(s@) == Some(x),
                Err(e) => state_of(s@) is None && e@ == ParseErrorView::BadState(s@),
            },
    {
        if same_text(s, "stop") {
            Ok(State::Stop)
        } else if same_text(s, "play") {
            Ok(State::Play)
        } else if same_text(s, "pause") {
            Ok(State::Pause)
        } else {
            Err(ParseError::BadState(s.to_owned()))
        }
    }
}

impl Default for State {
    fn default() -> (r: State)
        ensures
            r == State::Stop,
    {
        State::Stop
    }
}

/// Replay gain mode.
#[derive(Clone, Copy, Debug, PartialEq, Eq)]
pub enum ReplayGain {
    /// No replay gain.
    Off,
    /// Per-track gain.
    Track,
    /// Per-album gain.
    Album,
    /// Track or album gain, as the playback order suggests.
    Auto,
}

/// The wire name of a replay gain mode.
pub open spec fn replay_gain_name(g: ReplayGain) -> Seq<char> {
    match g {
        ReplayGain::Off => "off"@,
        ReplayGain::Track => "track"@,
        ReplayGain::Album => "album"@,
        ReplayGain::Auto => "auto"@,
    }
}

/// The replay gain mode written `s`, if any.
pub open spec fn replay_gain_of(s: Seq<char>) -> Option<ReplayGain> {
    if s == "off"@ {
        Some(ReplayGain::Off)
    } else if s == "track"@ {
        Some(ReplayGain::Track)
    } else if s == "album"@ {
        Some(ReplayGain::Album)
    } else if s == "auto"@ {
        Some(ReplayGain::Auto)
    } else {
        None
    }
}

impl ReplayGain {
    /// The replay gain mode written `s`; anything else is an error that
    /// carries the text.
    pub fn from_str(s: &str) -> (r: Result<ReplayGain, ParseError>)
        ensures
            match r {
                Ok(x) => replay_gain_of(s@) == Some(x),
                Err(e) => replay_gain_of(s@) is None && e@ == ParseErrorView::BadValue(s@),
            },
    {
        if same_text(s, "off") {
            Ok(ReplayGain::Off)
        } else if same_text(s, "track") {
            Ok(ReplayGain::Track)
        } else if same_text(s, "album") {
            Ok(ReplayGain::Album)
        } else if same_text(s, "auto") {
            Ok(ReplayGain::Auto)
        } else {
            Err(ParseError::BadValue(s.to_owned()))
        }
    }

    /// The wire name of this mode.
    pub fn as_str(&self) -> (r: &'static str)
        ensures
            r@ == replay_gain_name(*self),
    {
        match self {
            ReplayGain::Off => "off",
            ReplayGain::Track => "track",
            ReplayGain::Album => "album",
            ReplayGain::Auto => "auto",
        }
    }
}

impl ToArguments for ReplayGain {
    open spec fn arg_tokens(&self) -> Seq<Seq<char>> {
        seq![replay_gain_name(*self)]
    }

    fn to_arguments(&self, out: &mut Vec<String>) {
        out.push(self.as_str().to_owned());
        assert(out.deep_view() == old(out).deep_view() + self.arg_tokens());
    }
}

/// Audio playback format.
#[derive(Clone, Copy, Debug, PartialEq, Eq)]
pub struct AudioFormat {
    /// Sample rate; for DSD, in bytes per second.
    pub rate: u32,
    /// Sample resolution in bits: 0 for floating point, 1 for DSD.
    pub bits: u8,
    /// Number of channels.
    pub chans: u8,
}

/// The value of `s` as a `u8`: `None` unless it is a number that fits.
pub open spec fn u8_of(s: Seq<char>) -> Option<u8> {
    match u32_of(s) {
        Some(v) => if v <= 255 {
            Some(v as u8)
        } else {
            None
        },
        None => None,
    }
}

/// Where the field of `s` that starts at `from` ends: at the next `:`, or
/// at the end of `s`.
pub open spec fn field_end(s: Seq<char>, from: int) -> int {
    match find_from(s, ':', from) {
        Some(i) => i,
        None => s.len() as int,
    }
}

/// Whether `s` holds `dsd` at index `i`.
pub open spec fn dsd_at(s: Seq<char>, i: int) -> bool {
    0 <= i && i + 2 < s.len() && s[i] == 'd' && s[i + 1] == 's' && s[i + 2] == 'd'
}

/// The sample resolution written `f`: `f` for floating point, else a number.
pub open spec fn bits_of(f: Seq<char>) -> Option<u8> {
    if f == seq!['f'] {
        Some(0u8)
    } else {
        u8_of(f)
    }
}

/// The audio format written `s`: `rate:bits:channels`, or, when `s` holds
/// `dsd`, `dsd<multiplier>:channels`, whose rate is 44100 times the
/// multiplier divided by 8 and whose resolution is 1.
pub open spec fn audio_format_of(s: Seq<char>) -> Result<AudioFormat, ParseErrorView> {
    let e0 = field_end(s, 0);
    if exists|i: int| dsd_at(s, i) {
        let f0 = s.take(e0);
        match if f0.len() >= 3 {
            u32_of(f0.skip(3))
        } else {
            None
        } {
            None => Err(ParseErrorView::BadRate),
            Some(m) => if m * 44100 / 8 > u32::MAX {
                Err(ParseErrorView::BadRate)
            } else if e0 >= s.len() {
                Err(ParseErrorView::NoChans)
            } else {
                match u8_of(s.subrange(e0 + 1, field_end(s, e0 + 1))) {
                    None => Err(ParseErrorView::BadChans),
                    Some(c) => Ok(AudioFormat { rate: (m * 44100 / 8) as u32, bits: 1, chans: c }),
                }
            },
        }
    } else {
        match u32_of(s.take(e0)) {
            None => Err(ParseErrorView::BadRate),
            Some(rate) => if e0 >= s.len() {
                Err(ParseErrorView::NoBits)
            } else {
                let e1 = field_end(s, e0 + 1);
                match bits_of(s.subrange(e0 + 1, e1)) {
                    None => Err(ParseErrorView::BadBits),
                    Some(bits) => if e1 >= s.len() {
                        Err(ParseErrorView::NoChans)
                    } else {
                        match u8_of(s.subrange(e1 + 1, field_end(s, e1 + 1))) {
                            None => Err(ParseErrorView::BadChans),
                            Some(chans) => Ok(AudioFormat { rate, bits, chans }),
                        }
                    },
                }
            },
        }
    }
}

fn field_end_exec(cs: &Vec<char>, from: usize) -> (r: usize)
    requires
        from <= cs.len(),
    ensures
        r == field_end(cs@, from as int),
        from <= r <= cs.len(),
{
    match find_char(cs, from, ':') {
        Some(i) => i,
        None => cs.len(),
    }
}

fn parse_u8(cs: &Vec<char>, from: usize, to: usize) -> (r: Option<u8>)
    requires
        from <= to <= cs.len(),
    ensures
        r == u8_of(cs@.subrange(from as int, to as int)),
{
    match parse_u32(cs, from, to) {
        Some(v) => if v <= 255 {
            Some(v as u8)
        } else {
            None
        },
        None => None,
    }
}

fn has_dsd(cs: &Vec<char>) -> (r: bool)
    ensures
        r == exists|i: int| dsd_at(cs@, i),
{
    let mut i: usize = 0;
    while i < cs.len() && cs.len() - i > 2
        invariant
            i <= cs.len(),
            forall|k: int| 0 <= k < i ==> !dsd_at(cs@, k),
        decreases cs.len() - i,
    {
        if cs[i] == 'd' && cs[i + 1] == 's' && cs[i + 2] == 'd' {
            assert(dsd_at(cs@, i as int));
            return true;
        }
        i = i + 1;
    }
    assert forall|k: int| !dsd_at(cs@, k) by {
        if k >= i {
            assert(!(k + 2 < cs.len()));
        }
    }
    false
}

impl AudioFormat {
    /// Decodes an audio format from its wire text.
    pub fn from_str(s: &str) -> (r: Result<AudioFormat, ParseError>)
        ensures
            match r {
                Ok(a) => audio_format_of(s@) == Ok::<AudioFormat, ParseErrorView>(a),
                Err(e) => audio_format_of(s@) == Err::<AudioFormat, ParseErrorView>(e@),
            },
    {
        let cs = chars_of(s);
        let n = cs.len();
        let e0 = field_end_exec(&cs, 0);
        assert(cs@.subrange(0, e0 as int) == cs@.take(e0 as int));
        if has_dsd(&cs) {
            if e0 < 3 {
                return Err(ParseError::BadRate);
            }
            assert(cs@.take(e0 as int).skip(3) == cs@.subrange(3, e0 as int));
            let m = match parse_u32(&cs, 3, e0) {
                Some(m) => m,
                None => {
                    return Err(ParseError::BadRate);
                },
            };
            let rate64: u64 = m as u64 * 44100 / 8;
            if rate64 > 4294967295u64 {
                return Err(ParseError::BadRate);
            }
            if e0 >= n {
                return Err(ParseError::NoChans);
            }
            let e1 = field_end_exec(&cs, e0 + 1);
            match parse_u8(&cs, e0 + 1, e1) {
                Some(c) => Ok(AudioFormat { rate: rate64 as u32, bits: 1, chans: c }),
                None => Err(ParseError::BadChans),
            }
        } else {
            let rate = match parse_u32(&cs, 0, e0) {
                Some(v) => v,
                None => {
                    return Err(ParseError::BadRate);
                },
            };
            if e0 >= n {
                return Err(ParseError::NoBits);
            }
            let e1 = field_end_exec(&cs, e0 + 1);
            let bits = if e1 - e0 == 2 && cs[e0 + 1] == 'f' {
                assert(cs@.subrange(e0 + 1, e1 as int) == seq!['f']);
                0u8
            } else {
                assert(cs@.subrange(e0 + 1, e1 as int) != seq!['f']) by {
                    if cs@.subrange(e0 + 1, e1 as int) == seq!['f'] {
                        assert(cs@.subrange(e0 + 1, e1 as int)[0] == cs@[e0 + 1]);
                    }
                }
                match parse_u8(&cs, e0 + 1, e1) {
                    Some(b) => b,
                    None => {
                        return Err(ParseError::BadBits);
                    },
                }
            };
            if e1 >= n {
                return Err(ParseError::NoChans);
            }
            let e2 = field_end_exec(&cs, e1 + 1);
            match parse_u8(&cs, e1 + 1, e2) {
                Some(c) => Ok(AudioFormat { rate, bits, chans: c }),
                None => Err(ParseError::BadChans),
            }
        }
    }
}


/// A place in the queue.
#[derive(Clone, Copy, Debug, PartialEq, Eq)]
pub struct QueuePlace {
    /// The song's id.
    pub id: u32,
    /// The song's position.
    pub pos: u32,
}

/// Player status as the `status` command reports it. The sub-second times
/// and the mixramp threshold are decimal fractions, kept as their text.
#[derive(Clone, Debug, PartialEq, Eq)]
pub struct Status {
    /// Volume, 0 to 100, or -1 when no mixer is available.
    pub volume: i8,
    /// Repeat mode.
    pub repeat: bool,
    /// Random mode.
    pub random: bool,
    /// Single mode.
    pub single: bool,
    /// Consume mode.
    pub consume: bool,
    /// Queue version.
    pub queue_version: u32,
    /// Queue length.
    pub queue_len: u32,
    /// Playback state.
    pub state: State,
    /// The current song's place in the queue.
    pub song: Option<QueuePlace>,
    /// The next song's place in the queue.
    pub nextsong: Option<QueuePlace>,
    /// Elapsed and total time of the current song, in seconds.
    pub time: Option<(u64, u64)>,
    /// Elapsed time of the current song, in seconds, as a decimal fraction.
    pub elapsed: Option<String>,
    /// Duration of the current song, in seconds, as a decimal fraction.
    pub duration: Option<String>,
    /// Bit rate, in kbps.
    pub bitrate: Option<u32>,
    /// Crossfade, in seconds.
    pub crossfade: Option<u64>,
    /// Mixramp threshold, in dB, as a decimal fraction.
    pub mixrampdb: Option<String>,
    /// Mixramp delay, in seconds, as a decimal fraction.
    pub mixrampdelay: Option<String>,
    /// Audio format of the playback.
    pub audio: Option<AudioFormat>,
    /// Job number of a running database update.
    pub updating_db: Option<u32>,
    /// The last player error.
    pub error: Option<String>,
    /// Replay gain mode.
    pub replaygain: Option<ReplayGain>,
}

/// The mathematical value of a [`Status`].
pub struct StatusView {
    pub volume: i8,
    pub repeat: bool,
    pub random: bool,
    pub single: bool,
    pub consume: bool,
    pub queue_version: u32,
    pub queue_len: u32,
    pub state: State,
    pub song: Option<QueuePlace>,
    pub nextsong: Option<QueuePlace>,
    pub time: Option<(u64, u64)>,
    pub elapsed: Option<Seq<char>>,
    pub duration: Option<Seq<char>>,
    pub bitrate: Option<u32>,
    pub crossfade: Option<u64>,
    pub mixrampdb: Option<Seq<char>>,
    pub mixrampdelay: Option<Seq<char>>,
    pub audio: Option<AudioFormat>,
    pub updating_db: Option<u32>,
    pub error: Option<Seq<char>>,
    pub replaygain: Option<ReplayGain>,
}

/// The mathematical value of an optional text.
pub open spec fn text_view(t: Option<String>) -> Option<Seq<char>> {
    match t {
        Some(s) => Some(s@),
        None => None,
    }
}

impl View for Status {
    type V = StatusView;

    open spec fn view(&self) -> StatusView {
        StatusView {
            volume: self.volume,
            repeat: self.repeat,
            random: self.random,
            single: self.single,
            consume: self.consume,
            queue_version: self.queue_version,
            queue_len: self.queue_len,
            state: self.state,
            song: self.song,
            nextsong: self.nextsong,
            time: self.time,
            elapsed: text_view(self.elapsed),
            duration: text_view(self.duration),
            bitrate: self.bitrate,
            crossfade: self.crossfade,
            mixrampdb: text_view(self.mixrampdb),
            mixrampdelay: text_view(self.mixrampdelay),
            audio: self.audio,
            updating_db: self.updating_db,
            error: text_view(self.error),
            replaygain: self.replaygain,
        }
    }
}

/// The status before any field is read.
pub open spec fn initial_status() -> StatusView {
    StatusView {
        volume: 0,
        repeat: false,
        random: false,
        single: false,
        consume: false,
        queue_version: 0,
        queue_len: 0,
        state: State::Stop,
        song: None,
        nextsong: None,
        time: None,
        elapsed: None,
        duration: None,
        bitrate: None,
        crossfade: None,
        mixrampdb: None,
        mixrampdelay: None,
        audio: None,
        updating_db: None,
        error: None,
        replaygain: None,
    }
}

/// The elapsed and total time written `v`: `a:b` in whole seconds; a lone
/// number gives no time.
pub open spec fn time_of(v: Seq<char>) -> Result<Option<(u64, u64)>, ParseErrorView> {
    match find_from(v, ':', 0) {
        None => match u64_of(v) {
            Some(_) => Ok(None),
            None => Err(ParseErrorView::BadNumber(v)),
        },
        Some(i) => match (u64_of(v.take(i)), u64_of(v.skip(i + 1))) {
            (Some(a), Some(b)) => Ok(Some((a, b))),
            _ => Err(ParseErrorView::BadNumber(v)),
        },
    }
}

/// A queue place with its id set to `id`.
pub open spec fn with_id(p: Option<QueuePlace>, id: u32) -> QueuePlace {
    match p {
        Some(q) => QueuePlace { id, pos: q.pos },
        None => QueuePlace { id, pos: 0 },
    }
}

/// A queue place with its position set to `pos`.
pub open spec fn with_pos(p: Option<QueuePlace>, pos: u32) -> QueuePlace {
    match p {
        Some(q) => QueuePlace { id: q.id, pos },
        None => QueuePlace { id: 0, pos },
    }
}

/// The status `s` after reading the field `k` with value `v`; unknown
/// fields change nothing, and a value that does not decode is an error.
pub open spec fn status_step(s: StatusView, k: Seq<char>, v: Seq<char>) -> Result<StatusView, ParseErrorView> {
    let bad = ParseErrorView::BadNumber(v);
    if k == "volume"@ {
        match i8_of(v) {
            Some(x) => Ok(StatusView { volume: x, ..s }),
            None => Err(bad),
        }
    } else if k == "repeat"@ {
        Ok(StatusView { repeat: v == "1"@, ..s })
    } else if k == "random"@ {
        Ok(StatusView { random: v == "1"@, ..s })
    } else if k == "single"@ {
        Ok(StatusView { single: v == "1"@, ..s })
    } else if k == "consume"@ {
        Ok(StatusView { consume: v == "1"@, ..s })
    } else if k == "playlist"@ {
        match u32_of(v) {
            Some(x) => Ok(StatusView { queue_version: x, ..s }),
            None => Err(bad),
        }
    } else if k == "playlistlength"@ {
        match u32_of(v) {
            Some(x) => Ok(StatusView { queue_len: x, ..s }),
            None => Err(bad),
        }
    } else if k == "state"@ {
        match state_of(v) {
            Some(x) => Ok(StatusView { state: x, ..s }),
            None => Err(ParseErrorView::BadState(v)),
        }
    } else if k == "songid"@ {
        match u32_of(v) {
            Some(x) => Ok(StatusView { song: Some(with_id(s.song, x)), ..s }),
            None => Err(bad),
        }
    } else if k == "song"@ {
        match u32_of(v) {
            Some(x) => Ok(StatusView { song: Some(with_pos(s.song, x)), ..s }),
            None => Err(bad),
        }
    } else if k == "nextsongid"@ {
        match u32_of(v) {
            Some(x) => Ok(StatusView { nextsong: Some(with_id(s.nextsong, x)), ..s }),
            None => Err(bad),
        }
    } else if k == "nextsong"@ {
        match u32_of(v) {
            Some(x) => Ok(StatusView { nextsong: Some(with_pos(s.nextsong, x)), ..s }),
            None => Err(bad),
        }
    } else if k == "time"@ {
        match time_of(v) {
            Ok(t) => Ok(StatusView { time: t, ..s }),
            Err(e) => Err(e),
        }
    } else if k == "elapsed"@ {
        Ok(StatusView { elapsed: Some(v), ..s })
    } else if k == "duration"@ {
        Ok(StatusView { duration: Some(v), ..s })
    } else if k == "bitrate"@ {
        match u32_of(v) {
            Some(x) => Ok(StatusView { bitrate: Some(x), ..s }),
            None => Err(bad),
        }
    } else if k == "xfade"@ {
        match u64_of(v) {
            Some(x) => Ok(StatusView { crossfade: Some(x), ..s }),
            None => Err(bad),
        }
    } else if k == "mixrampdb"@ {
        Ok(StatusView { mixrampdb: Some(v), ..s })
    } else if k == "mixrampdelay"@ {
        Ok(StatusView { mixrampdelay: Some(v), ..s })
    } else if k == "audio"@ {
        match audio_format_of(v) {
            Ok(a) => Ok(StatusView { audio: Some(a), ..s }),
            Err(e) => Err(e),
        }
    } else if k == "updating_db"@ {
        match u32_of(v) {
            Some(x) => Ok(StatusView { updating_db: Some(x), ..s }),
            None => Err(bad),
        }
    } else if k == "error"@ {
        Ok(StatusView { error: Some(v), ..s })
    } else if k == "replay_gain_mode"@ {
        match replay_gain_of(v) {
            Some(g) => Ok(StatusView { replaygain: Some(g), ..s }),
            None => Err(ParseErrorView::BadValue(v)),
        }
    } else {
        Ok(s)
    }
}

/// The status that the fields `ps` describe, read in order.
pub open spec fn status_of(ps: Seq<PairView>) -> Result<StatusView, ParseErrorView>
    decreases ps.len(),
{
    if ps.len() == 0 {
        Ok(initial_status())
    } else {
        match status_of(ps.drop_last()) {
            Ok(s) => status_step(s, ps.last().0, ps.last().1),
            Err(e) => Err(e),
        }
    }
}

fn parse_time(v: &str) -> (r: Result<Option<(u64, u64)>, ParseError>)
    ensures
        match r {
            Ok(t) => time_of(v@) == Ok::<Option<(u64, u64)>, ParseErrorView>(t),
            Err(e) => time_of(v@) == Err::<Option<(u64, u64)>, ParseErrorView>(e@),
        },
{
    let cs = chars_of(v);
    let n = cs.len();
    assert(cs@.subrange(0, n as int) == v@);
    match find_char(&cs, 0, ':') {
        None => match parse_bounded(&cs, 0, n, 18446744073709551615u64) {
            Some(_) => Ok(None),
            None => Err(ParseError::BadNumber(v.to_owned())),
        },
        Some(i) => {
            assert(cs@.subrange(0, i as int) == v@.take(i as int));
            assert(cs@.subrange(i + 1, n as int) == v@.skip(i + 1));
            let a = parse_bounded(&cs, 0, i, 18446744073709551615u64);
            let b = parse_bounded(&cs, i + 1, n, 18446744073709551615u64);
            match (a, b) {
                (Some(a), Some(b)) => Ok(Some((a, b))),
                _ => Err(ParseError::BadNumber(v.to_owned())),
            }
        },
    }
}

fn number_u32(v: &str) -> (r: Result<u32, ParseError>)
    ensures
        match r {
            Ok(x) => u32_of(v@) == Some(x),
            Err(e) => u32_of(v@) is None && e@ == ParseErrorView::BadNumber(v@),
        },
{
    let cs = chars_of(v);
    assert(cs@.subrange(0, cs.len() as int) == v@);
    match parse_u32(&cs, 0, cs.len()) {
        Some(x) => Ok(x),
        None => Err(ParseError::BadNumber(v.to_owned())),
    }
}

impl Status {
    /// Reads the field `k` with value `v` into this status.
    pub fn apply(&mut self, k: &str, v: &str) -> (r: Result<(), ParseError>)
        ensures
            match r {
                Ok(_) => status_step(old(self)@, k@, v@) == Ok::<StatusView, ParseErrorView>(
                    final(self)@,
                ),
                Err(e) => status_step(old(self)@, k@, v@) == Err::<StatusView, ParseErrorView>(e@),
            },
    {
        let cs = chars_of(v);
        let n = cs.len();
        assert(cs@.subrange(0, n as int) == v@);
        if same_text(k, "volume") {
            match parse_i8(&cs, 0, n) {
                Some(x) => self.volume = x,
                None => {
                    return Err(ParseError::BadNumber(v.to_owned()));
                },
            }
        } else if same_text(k, "repeat") {
            self.repeat = same_text(v, "1");
        } else if same_text(k, "random") {
            self.random = same_text(v, "1");
        } else if same_text(k, "single") {
            self.single = same_text(v, "1");
        } else if same_text(k, "consume") {
            self.consume = same_text(v, "1");
        } else if same_text(k, "playlist") {
            self.queue_version = number_u32(v)?;
        } else if same_text(k, "playlistlength") {
            self.queue_len = number_u32(v)?;
        } else if same_text(k, "state") {
            self.state = State::from_str(v)?;
        } else if same_text(k, "songid") {
            let x = number_u32(v)?;
            self.song = Some(
                match self.song {
                    Some(p) => QueuePlace { id: x, pos: p.pos },
                    None => QueuePlace { id: x, pos: 0 },
                },
            );
        } else if same_text(k, "song") {
            let x = number_u32(v)?;
            self.song = Some(
                match self.song {
                    Some(p) => QueuePlace { id: p.id, pos: x },
                    None => QueuePlace { id: 0, pos: x },
                },
            );
        } else if same_text(k, "nextsongid") {
            let x = number_u32(v)?;
            self.nextsong = Some(
                match self.nextsong {
                    Some(p) => QueuePlace { id: x, pos: p.pos },
                    None => QueuePlace { id: x, pos: 0 },
                },
            );
        } else if same_text(k, "nextsong") {
            let x = number_u32(v)?;
            self.nextsong = Some(
                match self.nextsong {
                    Some(p) => QueuePlace { id: p.id, pos: x },
                    None => QueuePlace { id: 0, pos: x },
                },
            );
        } else if same_text(k, "time") {
            self.time = parse_time(v)?;
        } else if same_text(k, "elapsed") {
            self.elapsed = Some(v.to_owned());
        } else if same_text(k, "duration") {
            self.duration = Some(v.to_owned());
        } else if same_text(k, "bitrate") {
            self.bitrate = Some(number_u32(v)?);
        } else if same_text(k, "xfade") {
            match parse_bounded(&cs, 0, n, 18446744073709551615u64) {
                Some(x) => self.crossfade = Some(x),
                None => {
                    return Err(ParseError::BadNumber(v.to_owned()));
                },
            }
        } else if same_text(k, "mixrampdb") {
            self.mixrampdb = Some(v.to_owned());
        } else if same_text(k, "mixrampdelay") {
            self.mixrampdelay = Some(v.to_owned());
        } else if same_text(k, "audio") {
            self.audio = Some(AudioFormat::from_str(v)?);
        } else if same_text(k, "updating_db") {
            self.updating_db = Some(number_u32(v)?);
        } else if same_text(k, "error") {
            self.error = Some(v.to_owned());
        } else if same_text(k, "replay_gain_mode") {
            self.replaygain = Some(ReplayGain::from_str(v)?);
        }
        Ok(())
    }

    /// The status before any field is read.
    pub fn new() -> (r: Status)
        ensures
            r@ == initial_status(),
    {
        Status {
            volume: 0,
            repeat: false,
            random: false,
            single: false,
            consume: false,
            queue_version: 0,
            queue_len: 0,
            state: State::Stop,
            song: None,
            nextsong: None,
            time: None,
            elapsed: None,
            duration: None,
            bitrate: None,
            crossfade: None,
            mixrampdb: None,
            mixrampdelay: None,
            audio: None,
            updating_db: None,
            error: None,
            replaygain: None,
        }
    }

    /// The status that the fields of a `status` response describe.
    pub fn from_pairs(pairs: &Vec<(String, String)>) -> (r: Result<Status, ParseError>)
        ensures
            match r {
                Ok(s) => status_of(pairs_view(pairs@)) == Ok::<StatusView, ParseErrorView>(s@),
                Err(e) => status_of(pairs_view(pairs@)) == Err::<StatusView, ParseErrorView>(e@),
            },
    {
        let ghost ps = pairs_view(pairs@);
        let mut st = Status::new();
        let mut i: usize = 0;
        assert(ps.take(0) == Seq::<PairView>::empty());
        while i < pairs.len()
            invariant
                i <= pairs.len(),
                ps == pairs_view(pairs@),
                status_of(ps.take(i as int)) == Ok::<StatusView, ParseErrorView>(st@),
            decreases pairs.len() - i,
        {
            assert(ps.take(i + 1).drop_last() == ps.take(i as int));
            assert(ps.take(i + 1).last() == pair_view(pairs[i as int]));
            match st.apply(pairs[i].0.as_str(), pairs[i].1.as_str()) {
                Ok(_) => {},
                Err(e) => {
                    proof {
                        lemma_status_err_stays(ps, (i + 1) as int);
                    }
                    return Err(e);
                },
            }
            i = i + 1;
        }
        assert(ps.take(i as int) == ps);
        Ok(st)
    }
}

proof fn lemma_status_err_stays(ps: Seq<PairView>, k: int)
    requires
        0 <= k <= ps.len(),
        status_of(ps.take(k)) is Err,
    ensures
        status_of(ps) == status_of(ps.take(k)),
    decreases ps.len() - k,
{
    if k < ps.len() {
        assert(ps.take(k + 1).drop_last() == ps.take(k));
        lemma_status_err_stays(ps, k + 1);
    } else {
        assert(ps.take(k) == ps);
    }
}

} // verus!
