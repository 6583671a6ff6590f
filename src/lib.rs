//! Client-side core of the Music Player Daemon protocol: decoding reply
//! lines, streaming and grouping key/value pairs, rendering command
//! arguments, and the state machine of idle mode.

pub mod args;
pub mod directory;
pub mod error;
pub mod group;
pub mod idle;
pub mod list;
pub mod lsinfo;
pub mod pairs;
pub mod playlist;
pub mod reply;
pub mod response;
pub mod status;
pub mod text;

pub use error::{Error, ParseError, ProtoError, ServerError};
pub use idle::{IdleGuard, Session, Subsystem};
pub use pairs::Pairs;
pub use playlist::{EditAction, Playlist, SaveMode};
pub use reply::{decode_line, Reply};
pub use status::{ReplayGain, State, Status};
