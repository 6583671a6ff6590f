//! Idle mode: the subsystems whose events the server reports, and the state
//! machine that keeps commands out while the connection waits for events.

use vstd::prelude::*;
use crate::args::{command_line, command_text, ToArguments};
use crate::error::{Error, ErrorView, ParseError, ParseErrorView, ProtoError, ProtoErrorView};
use crate::pairs::{flow, FlowView, PairView, Pairs};
use crate::response::{list_of, read_list};
use crate::reply::ok_line;
use crate::text::same_text;
use vstd::slice::slice_to_vec;

verus! {

/// A source of events in idle mode.
#[derive(Clone, Copy, Debug, PartialEq, Eq)]
pub enum Subsystem {
    /// `database`: the song database was modified after an update.
    Database,
    /// `update`: a database update started or finished.
    Update,
    /// `stored_playlist`: a stored playlist was modified, renamed, created or deleted.
    Playlist,
    /// `playlist`: the queue was modified.
    Queue,
    /// `player`: the player was started, stopped or seeked.
    Player,
    /// `mixer`: the volume changed.
    Mixer,
    /// `output`: an audio output was enabled or disabled.
    Output,
    /// `options`: an option such as repeat, random or crossfade changed.
    Options,
    /// `partition`: a partition was added, removed or changed.
    Partition,
    /// `sticker`: the sticker database was modified.
    Sticker,
    /// `subscription`: a client subscribed to or unsubscribed from a channel.
    Subscription,
    /// `message`: a message arrived on a subscribed channel.
    Message,
    /// `neighbor`: a neighbor was found or lost.
    Neighbor,
    /// `mount`: the mount list changed.
    Mount,
}

/// The wire name of a subsystem.
pub open spec fn subsystem_name(s: Subsystem) -> Seq<char> {
    match s {
        Subsystem::Database => "database"@,
        Subsystem::Update => "update"@,
        Subsystem::Playlist => "stored_playlist"@,
        Subsystem::Queue => "playlist"@,
        Subsystem::Player => "player"@,
        Subsystem::Mixer => "mixer"@,
        Subsystem::Output => "output"@,
        Subsystem::Options => "options"@,
        Subsystem::Partition => "partition"@,
        Subsystem::Sticker => "sticker"@,
        Subsystem::Subscription => "subscription"@,
        Subsystem::Message => "message"@,
        Subsystem::Neighbor => "neighbor"@,
        Subsystem::Mount => "mount"@,
    }
}

/// The subsystem whose wire name is `name`, if any.
pub open spec fn subsystem_of(name: Seq<char>) -> Option<Subsystem> {
    if name == "database"@ {
        Some(Subsystem::Database)
    } else if name == "update"@ {
        Some(Subsystem::Update)
    } else if name == "stored_playlist"@ {
        Some(Subsystem::Playlist)
    } else if name == "playlist"@ {
        Some(Subsystem::Queue)
    } else if name == "player"@ {
        Some(Subsystem::Player)
    } else if name == "mixer"@ {
        Some(Subsystem::Mixer)
    } else if name == "output"@ {
        Some(Subsystem::Output)
    } else if name == "options"@ {
        Some(Subsystem::Options)
    } else if name == "partition"@ {
        Some(Subsystem::Partition)
    } else if name == "sticker"@ {
        Some(Subsystem::Sticker)
    } else if name == "subscription"@ {
        Some(Subsystem::Subscription)
    } else if name == "message"@ {
        Some(Subsystem::Message)
    } else if name == "neighbor"@ {
        Some(Subsystem::Neighbor)
    } else if name == "mount"@ {
        Some(Subsystem::Mount)
    } else {
        None
    }
}

impl Subsystem {
    /// The wire name of this subsystem.
    pub fn to_str(self) -> (r: &'static str)
        ensures
            r@ == subsystem_name(self),
    {
        match self {
            Subsystem::Database => "database",
            Subsystem::Update => "update",
            Subsystem::Playlist => "stored_playlist",
            Subsystem::Queue => "playlist",
            Subsystem::Player => "player",
            Subsystem::Mixer => "mixer",
            Subsystem::Output => "output",
            Subsystem::Options => "options",
            Subsystem::Partition => "partition",
            Subsystem::Sticker => "sticker",
            Subsystem::Subscription => "subscription",
            Subsystem::Message => "message",
            Subsystem::Neighbor => "neighbor",
            Subsystem::Mount => "mount",
        }
    }

    /// The subsystem named `s`; an unknown name is an error that carries it.
    pub fn from_str(s: &str) -> (r: Result<Subsystem, ParseError>)
        ensures
            match r {
                Ok(x) => subsystem_of(s@) == Some(x),
                Err(e) => subsystem_of(s@) is None && e@ == ParseErrorView::BadValue(s@),
            },
    {
        if same_text(s, "database") {
            Ok(Subsystem::Database)
        } else if same_text(s, "update") {
            Ok(Subsystem::Update)
        } else if same_text(s, "stored_playlist") {
            Ok(Subsystem::Playlist)
        } else if same_text(s, "playlist") {
            Ok(Subsystem::Queue)
        } else if same_text(s, "player") {
            Ok(Subsystem::Player)
        } else if same_text(s, "mixer") {
            Ok(Subsystem::Mixer)
        } else if same_text(s, "output") {
            Ok(Subsystem::Output)
        } else if same_text(s, "options") {
            Ok(Subsystem::Options)
        } else if same_text(s, "partition") {
            Ok(Subsystem::Partition)
        } else if same_text(s, "sticker") {
            Ok(Subsystem::Sticker)
        } else if same_text(s, "subscription") {
            Ok(Subsystem::Subscription)
        } else if same_text(s, "message") {
            Ok(Subsystem::Message)
        } else if same_text(s, "neighbor") {
            Ok(Subsystem::Neighbor)
        } else if same_text(s, "mount") {
            Ok(Subsystem::Mount)
        } else {
            Err(ParseError::BadValue(s.to_owned()))
        }
    }
}

impl ToArguments for Subsystem {
    open spec fn arg_tokens(&self) -> Seq<Seq<char>> {
        seq![subsystem_name(*self)]
    }

    fn to_arguments(&self, out: &mut Vec<String>) {
        out.push(self.to_str().to_owned());
        assert(out.deep_view() == old(out).deep_view() + self.arg_tokens());
    }
}

/// The subsystems named by `names`, or the error for the first unknown name.
pub open spec fn subsystems_of(names: Seq<Seq<char>>) -> Result<Seq<Subsystem>, ErrorView>
    decreases names.len(),
{
    if names.len() == 0 {
        Ok(Seq::empty())
    } else {
        match subsystem_of(names[0]) {
            None => Err(ErrorView::Parse(ParseErrorView::BadValue(names[0]))),
            Some(x) => match subsystems_of(names.drop_first()) {
                Ok(xs) => Ok(seq![x] + xs),
                Err(e) => Err(e),
            },
        }
    }
}

/// The events that the reply `f` to an idle command reports: a failure of
/// the reply, or the subsystems of its `changed` lines.
pub open spec fn events_of(f: FlowView) -> Result<Seq<Subsystem>, ErrorView> {
    match list_of(f, "changed"@) {
        Err(e) => Err(e),
        Ok(names) => subsystems_of(names),
    }
}

/// Whether a connection may take commands, or waits in idle mode.
#[derive(Clone, Copy, Debug, PartialEq, Eq)]
pub enum Mode {
    /// Commands may be sent.
    Normal,
    /// The idle command was sent; only resolving or abandoning the wait may follow.
    Idling,
}

/// Whether a connection in mode `m` takes commands.
pub open spec fn accepts_commands(m: Mode) -> bool {
    m == Mode::Normal
}

/// The mode after the idle command was sent from mode `m`.
pub open spec fn after_begin_idle(m: Mode) -> Mode {
    Mode::Idling
}

/// The mode after a wait was resolved or abandoned.
pub open spec fn after_resolve(m: Mode) -> Mode {
    Mode::Normal
}

/// The protocol state of one connection.
pub struct Session {
    mode: Mode,
}

/// Proof that the connection waits in idle mode; resolving it with
/// [`IdleGuard::get`] or abandoning it with [`IdleGuard::release`] consumes
/// it and returns the connection to normal mode.
pub struct IdleGuard {
    subsystems: Vec<Subsystem>,
}

impl Session {
    /// The connection's mode.
    pub closed spec fn mode(&self) -> Mode {
        self.mode
    }

    /// A connection in normal mode.
    pub fn new() -> (r: Session)
        ensures
            r.mode() == Mode::Normal,
    {
        Session { mode: Mode::Normal }
    }

    /// Whether the connection waits in idle mode.
    pub fn is_idling(&self) -> (r: bool)
        ensures
            r == (self.mode() == Mode::Idling),
    {
        match self.mode {
            Mode::Idling => true,
            Mode::Normal => false,
        }
    }

    /// The line that sends the command `name` with `args`, or the
    /// protocol violation of a command while the connection idles.
    pub fn command<A: ToArguments>(&self, name: &str, args: &A) -> (r: Result<String, Error>)
        ensures
            match r {
                Ok(line) => accepts_commands(self.mode()) && line@ == command_text(
                    name@,
                    args.arg_tokens(),
                ),
                Err(e) => !accepts_commands(self.mode()) && e@ == ErrorView::Proto(
                    ProtoErrorView::Idling,
                ),
            },
    {
        if self.is_idling() {
            return Err(Error::Proto(ProtoError::Idling));
        }
        Ok(command_line(name, args))
    }

    /// The line that sends the idle command filtered by `subsystems` (all
    /// of them when it is empty), or the protocol violation of a command
    /// while the connection idles.
    pub fn idle_line(&self, subsystems: &[Subsystem]) -> (r: Result<String, Error>)
        ensures
            match r {
                Ok(line) => accepts_commands(self.mode()) && line@ == command_text(
                    "idle"@,
                    crate::args::all_tokens(subsystems@),
                ),
                Err(e) => !accepts_commands(self.mode()) && e@ == ErrorView::Proto(
                    ProtoErrorView::Idling,
                ),
            },
    {
        self.command("idle", &subsystems)
    }

    /// Enters idle mode once the idle command has been sent; the returned
    /// guard is the only way back to normal mode.
    pub fn begin_idle(&mut self, subsystems: &[Subsystem]) -> (r: Result<IdleGuard, Error>)
        ensures
            match r {
                Ok(g) => accepts_commands(old(self).mode()) && final(self).mode() == after_begin_idle(
                    old(self).mode(),
                ) && g.subsystems() == subsystems@,
                Err(e) => !accepts_commands(old(self).mode()) && final(self).mode() == old(self).mode()
                    && e@ == ErrorView::Proto(ProtoErrorView::Idling),
            },
    {
        if self.is_idling() {
            return Err(Error::Proto(ProtoError::Idling));
        }
        self.mode = Mode::Idling;
        Ok(IdleGuard { subsystems: slice_to_vec(subsystems) })
    }
}

impl IdleGuard {
    /// The subsystems that the wait was filtered by; empty means all.
    pub closed spec fn subsystems(&self) -> Seq<Subsystem> {
        self.subsystems@
    }

    /// Resolves the wait: reads the events that `reply`, the server's
    /// answer to the idle command, reports, and returns the connection to
    /// normal mode.
    pub fn get(self, session: &mut Session, reply: Pairs) -> (r: Result<Vec<Subsystem>, Error>)
        ensures
            final(session).mode() == after_resolve(old(session).mode()),
            match r {
                Ok(v) => events_of(reply@) == Ok::<Seq<Subsystem>, ErrorView>(v@),
                Err(e) => events_of(reply@) == Err::<Seq<Subsystem>, ErrorView>(e@),
            },
    {
        session.mode = Mode::Normal;
        let names = match read_list(reply, "changed") {
            Ok(v) => v,
            Err(e) => {
                return Err(e);
            },
        };
        let mut out: Vec<Subsystem> = Vec::new();
        let mut i: usize = 0;
        assert(names.deep_view().skip(0) == names.deep_view());
        assert(forall|xs: Seq<Subsystem>| out@ + xs == xs);
        while i < names.len()
            invariant
                session.mode == Mode::Normal,
                i <= names.len(),
                list_of(reply@, "changed"@) == Ok::<Seq<Seq<char>>, ErrorView>(names.deep_view()),
                subsystems_of(names.deep_view()) == (match subsystems_of(
                    names.deep_view().skip(i as int),
                ) {
                    Ok(xs) => Ok(out@ + xs),
                    Err(e) => Err(e),
                }),
            decreases names.len() - i,
        {
            assert(names.deep_view().skip(i as int)[0] == names[i as int]@);
            assert(names.deep_view().skip(i as int).drop_first() == names.deep_view().skip(i + 1));
            match Subsystem::from_str(names[i].as_str()) {
                Ok(x) => {
                    let ghost prev = out@;
                    out.push(x);
                    assert forall|xs: Seq<Subsystem>| prev + (seq![x] + xs) == out@ + xs by {
                        assert(prev + (seq![x] + xs) =~= out@ + xs);
                    }
                },
                Err(e) => {
                    return Err(Error::Parse(e));
                },
            }
            i = i + 1;
        }
        assert(names.deep_view().skip(i as int) == Seq::<Seq<char>>::empty());
        Ok(out)
    }

    /// Abandons the wait: returns the connection to normal mode and gives
    /// the interrupting `noidle` line, which the caller must send before
    /// reading the rest of the response to its end and discarding it.
    pub fn release(self, session: &mut Session) -> (r: String)
        ensures
            final(session).mode() == after_resolve(old(session).mode()),
            r@ == command_text("noidle"@, Seq::empty()),
    {
        session.mode = Mode::Normal;
        command_line("noidle", &())
    }
}


/// Entering idle mode from a connection that takes commands forbids
/// commands until the wait is resolved or abandoned; either way the
/// connection takes commands again at once. A wait on which nothing
/// happened, answered by the success marker alone, reports no events.
pub proof fn lemma_idle_round_trip(m: Mode)
    requires
        accepts_commands(m),
    ensures
        !accepts_commands(after_begin_idle(m)),
        accepts_commands(after_resolve(after_begin_idle(m))),
        events_of(flow(seq![ok_line()])) == Ok::<Seq<Subsystem>, ErrorView>(Seq::empty()),
{
    let lines = seq![ok_line()];
    assert(lines[0] == ok_line());
    assert(flow(lines).pairs == Seq::<PairView>::empty());
}

} // verus!
