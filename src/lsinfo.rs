//! Entries of a directory listing, which interleaves songs and directories.

use vstd::prelude::*;
use crate::directory::Directory;
use crate::error::{Error, ErrorView, ParseError, ParseErrorView};
use crate::pairs::{last_value, pairs_view, PairView};
use crate::text::same_text;

verus! {

/// A song file of the music database, with the fields that describe it.
#[derive(Debug, Clone, PartialEq, Eq)]
pub struct Song {
    /// The file's path.
    pub file: String,
    /// The song's other fields, in the order received.
    pub fields: Vec<(String, String)>,
}

/// An entry of a directory listing.
#[derive(Debug, Clone, PartialEq, Eq)]
pub enum LsInfoEntry {
    /// A song file.
    Song(Song),
    /// A directory.
    Directory(Directory),
}

impl LsInfoEntry {
    /// The entry of a group opened by the sentinel `kind` with value
    /// `value`: a `file` group is a song, a `directory` group a directory;
    /// any other kind is a malformed-pair error.
    pub fn from_group(kind: &str, value: String, members: Vec<(String, String)>) -> (r: Result<
        LsInfoEntry,
        Error,
    >)
        ensures
            kind@ == "file"@ ==> (r matches Ok(LsInfoEntry::Song(s)) && s.file@ == value@
                && pairs_view(s.fields@) == pairs_view(members@)),
            kind@ == "directory"@ ==> (r matches Ok(LsInfoEntry::Directory(d)) && d.name@ == value@
                && match d.last_mod {
                Some(m) => last_value(pairs_view(members@), "Last-Modified"@) == Some(m@),
                None => last_value(pairs_view(members@), "Last-Modified"@) is None,
            }),
            kind@ != "file"@ && kind@ != "directory"@ ==> (r matches Err(e) && e@ == ErrorView::Parse(
                ParseErrorView::BadPair,
            )),
    {
        proof {
            reveal_strlit("file");
            reveal_strlit("directory");
            assert("file"@.len() == 4);
            assert("directory"@.len() == 9);
        }
        if same_text(kind, "directory") {
            let mut dir = Directory::from_pairs(&members);
            dir.name = value;
            Ok(LsInfoEntry::Directory(dir))
        } else if same_text(kind, "file") {
            Ok(LsInfoEntry::Song(Song { file: value, fields: members }))
        } else {
            Err(Error::Parse(ParseError::BadPair))
        }
    }
}

} // verus!
