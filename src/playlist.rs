//! Stored playlists: how to save them, how to edit them, and their records.

use vstd::prelude::*;
use crate::args::{decimal, ToArguments};
use crate::error::{Error, ErrorView, ProtoError, ProtoErrorView};
use crate::pairs::{find_last, last_value, pairs_view};

verus! {

/// How `save` treats an existing playlist of the same name.
#[derive(Clone, Copy, Debug, PartialEq, Eq)]
pub enum SaveMode {
    /// Fail if the playlist exists.
    Create,
    /// Replace the playlist; fail if it does not exist.
    Replace,
    /// Append to the playlist; fail if it does not exist.
    Append,
}

/// The wire name of a save mode.
pub open spec fn save_mode_name(m: SaveMode) -> Seq<char> {
    match m {
        SaveMode::Create => "create"@,
        SaveMode::Replace => "replace"@,
        SaveMode::Append => "append"@,
    }
}

impl SaveMode {
    /// The wire name of this save mode.
    pub fn as_str(&self) -> (r: &'static str)
        ensures
            r@ == save_mode_name(*self),
    {
        match self {
            SaveMode::Create => "create",
            SaveMode::Replace => "replace",
            SaveMode::Append => "append",
        }
    }
}

/// One edit of a stored playlist; several can be sent in one command list.
#[derive(Clone, Debug, PartialEq, Eq)]
pub enum EditAction {
    /// Add a song: playlist name, song URI, optional position.
    Add(String, String, Option<u32>),
    /// Remove every song: playlist name.
    Clear(String),
    /// Move a song: playlist name, old position, new position.
    Move(String, u32, u32),
    /// Remove the song at a position: playlist name, position.
    Delete(String, u32),
}

/// The command word of an edit.
pub open spec fn edit_command_name(a: EditAction) -> Seq<char> {
    match a {
        EditAction::Add(..) => "playlistadd"@,
        EditAction::Clear(..) => "playlistclear"@,
        EditAction::Move(..) => "playlistmove"@,
        EditAction::Delete(..) => "playlistdelete"@,
    }
}

impl EditAction {
    /// The command word of this edit.
    pub fn command(&self) -> (r: &'static str)
        ensures
            r@ == edit_command_name(*self),
    {
        match self {
            EditAction::Add(..) => "playlistadd",
            EditAction::Clear(..) => "playlistclear",
            EditAction::Move(..) => "playlistmove",
            EditAction::Delete(..) => "playlistdelete",
        }
    }
}

impl ToArguments for EditAction {
    open spec fn arg_tokens(&self) -> Seq<Seq<char>> {
        match self {
            EditAction::Add(name, uri, Some(pos)) => seq![name@, uri@, decimal(*pos as nat)],
            EditAction::Add(name, uri, None) => seq![name@, uri@],
            EditAction::Clear(name) => seq![name@],
            EditAction::Move(name, from, to) => seq![name@, decimal(*from as nat), decimal(*to as nat)],
            EditAction::Delete(name, pos) => seq![name@, decimal(*pos as nat)],
        }
    }

    fn to_arguments(&self, out: &mut Vec<String>) {
        match self {
            EditAction::Add(name, uri, opt_pos) => match opt_pos {
                Some(pos) => (name.as_str(), uri.as_str(), *pos).to_arguments(out),
                None => (name.as_str(), uri.as_str()).to_arguments(out),
            },
            EditAction::Clear(name) => name.to_arguments(out),
            EditAction::Move(name, from, to) => (name.as_str(), *from, *to).to_arguments(out),
            EditAction::Delete(name, pos) => (name.as_str(), *pos).to_arguments(out),
        }
        assert(out.deep_view() == old(out).deep_view() + self.arg_tokens());
    }
}

/// A stored playlist.
#[derive(Clone, Debug, PartialEq, Eq)]
pub struct Playlist {
    /// Its name.
    pub name: String,
    /// When it was last modified.
    pub last_mod: String,
}

impl Playlist {
    /// A playlist read from the fields of its record; the last `playlist`
    /// and `Last-Modified` fields give its name and date, and a missing one
    /// is an error that names it.
    pub fn from_pairs(pairs: &Vec<(String, String)>) -> (r: Result<Playlist, Error>)
        ensures
            match r {
                Ok(p) => last_value(pairs_view(pairs@), "playlist"@) == Some(p.name@)
                    && last_value(pairs_view(pairs@), "Last-Modified"@) == Some(p.last_mod@),
                Err(e) => if last_value(pairs_view(pairs@), "playlist"@) is None {
                    e@ == ErrorView::Proto(ProtoErrorView::NoField("playlist"@))
                } else {
                    last_value(pairs_view(pairs@), "Last-Modified"@) is None && e@
                        == ErrorView::Proto(ProtoErrorView::NoField("Last-Modified"@))
                },
            },
    {
        let name = match find_last(pairs, "playlist") {
            Some(v) => v,
            None => {
                return Err(Error::Proto(ProtoError::NoField("playlist".to_owned())));
            },
        };
        let last_mod = match find_last(pairs, "Last-Modified") {
            Some(v) => v,
            None => {
                return Err(Error::Proto(ProtoError::NoField("Last-Modified".to_owned())));
            },
        };
        Ok(Playlist { name, last_mod })
    }
}

} // verus!
