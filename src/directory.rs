//! Directories of the music database.

use vstd::prelude::*;
use crate::pairs::{find_last, last_value, pairs_view};

verus! {

/// A directory of the music database.
#[derive(Debug, Clone, PartialEq, Eq, Default)]
pub struct Directory {
    /// The directory's name.
    pub name: String,
    /// When it was last modified.
    pub last_mod: Option<String>,
}

impl Directory {
    /// A directory read from the fields of its record: the last `directory`
    /// field names it (empty when there is none) and the last
    /// `Last-Modified` field dates it.
    pub fn from_pairs(pairs: &Vec<(String, String)>) -> (r: Directory)
        ensures
            r.name@ == (match last_value(pairs_view(pairs@), "directory"@) {
                Some(v) => v,
                None => Seq::empty(),
            }),
            match r.last_mod {
                Some(m) => last_value(pairs_view(pairs@), "Last-Modified"@) == Some(m@),
                None => last_value(pairs_view(pairs@), "Last-Modified"@) is None,
            },
    {
        let name = match find_last(pairs, "directory") {
            Some(v) => v,
            None => String::new(),
        };
        Directory { name, last_mod: find_last(pairs, "Last-Modified") }
    }
}

} // verus!
