//! Error types: failures to decode text, rejections by the server, and
//! violations of the protocol's rules.

use vstd::prelude::*;

verus! {

/// A line or a field value that could not be decoded.
#[derive(Debug, Clone, PartialEq, Eq)]
pub enum ParseError {
    /// A field line without the `": "` separator.
    BadPair,
    /// An `ACK` line without its bracketed `[code@index]` part.
    NoCodePos,
    /// The error code of an `ACK` line is not a number.
    BadCode,
    /// The command index of an `ACK` line is not a number.
    BadPos,
    /// The command name of an `ACK` line opens a brace that is never closed.
    NoCommand,
    /// A value outside the closed set of recognised names.
    BadValue(String),
    /// An unknown playback state.
    BadState(String),
    /// A field value that is not a number of the expected range.
    BadNumber(String),
    /// An audio format whose sample rate is not a number.
    BadRate,
    /// An audio format without a sample resolution.
    NoBits,
    /// An audio format whose sample resolution is not a number.
    BadBits,
    /// An audio format without a channel count.
    NoChans,
    /// An audio format whose channel count is not a number.
    BadChans,
}

/// The mathematical value of a [`ParseError`].
pub enum ParseErrorView {
    BadPair,
    NoCodePos,
    BadCode,
    BadPos,
    NoCommand,
    BadValue(Seq<char>),
    BadState(Seq<char>),
    BadNumber(Seq<char>),
    BadRate,
    NoBits,
    BadBits,
    NoChans,
    BadChans,
}

impl View for ParseError {
    type V = ParseErrorView;

    open spec fn view(&self) -> ParseErrorView {
        match self {
            ParseError::BadPair => ParseErrorView::BadPair,
            ParseError::NoCodePos => ParseErrorView::NoCodePos,
            ParseError::BadCode => ParseErrorView::BadCode,
            ParseError::BadPos => ParseErrorView::BadPos,
            ParseError::NoCommand => ParseErrorView::NoCommand,
            ParseError::BadValue(s) => ParseErrorView::BadValue(s@),
            ParseError::BadState(s) => ParseErrorView::BadState(s@),
            ParseError::BadNumber(s) => ParseErrorView::BadNumber(s@),
            ParseError::BadRate => ParseErrorView::BadRate,
            ParseError::NoBits => ParseErrorView::NoBits,
            ParseError::BadBits => ParseErrorView::BadBits,
            ParseError::NoChans => ParseErrorView::NoChans,
            ParseError::BadChans => ParseErrorView::BadChans,
        }
    }
}

/// A command rejected by the server, as reported on an `ACK` line.
#[derive(Debug, Clone, PartialEq, Eq)]
pub struct ServerError {
    /// The numeric error code.
    pub code: u32,
    /// The index of the failed command within a command list.
    pub pos: u32,
    /// The name of the failed command; empty when the server gave none.
    pub command: String,
    /// The human-readable message.
    pub detail: String,
}

/// The mathematical value of a [`ServerError`].
pub struct ServerErrorView {
    pub code: u32,
    pub pos: u32,
    pub command: Seq<char>,
    pub detail: Seq<char>,
}

impl View for ServerError {
    type V = ServerErrorView;

    open spec fn view(&self) -> ServerErrorView {
        ServerErrorView {
            code: self.code,
            pos: self.pos,
            command: self.command@,
            detail: self.detail@,
        }
    }
}

/// A response that does not follow the protocol, or an operation that the
/// protocol forbids in the connection's current state.
#[derive(Debug, Clone, PartialEq, Eq)]
pub enum ProtoError {
    /// A required field is missing from a record.
    NoField(String),
    /// A reply held a field where only the success marker may stand.
    NotOk,
    /// A reply held the success marker where a field was expected.
    NotPair,
    /// A command was attempted while the connection waits in idle mode.
    Idling,
}

/// The mathematical value of a [`ProtoError`].
pub enum ProtoErrorView {
    NoField(Seq<char>),
    NotOk,
    NotPair,
    Idling,
}

impl View for ProtoError {
    type V = ProtoErrorView;

    open spec fn view(&self) -> ProtoErrorView {
        match self {
            ProtoError::NoField(s) => ProtoErrorView::NoField(s@),
            ProtoError::NotOk => ProtoErrorView::NotOk,
            ProtoError::NotPair => ProtoErrorView::NotPair,
            ProtoError::Idling => ProtoErrorView::Idling,
        }
    }
}

/// Any failure of an operation of this library, by kind.
#[derive(Debug, Clone, PartialEq, Eq)]
pub enum Error {
    /// The response was malformed.
    Parse(ParseError),
    /// The server rejected the command.
    Server(ServerError),
    /// The protocol was not followed.
    Proto(ProtoError),
}

/// The mathematical value of an [`Error`].
pub enum ErrorView {
    Parse(ParseErrorView),
    Server(ServerErrorView),
    Proto(ProtoErrorView),
}

impl View for Error {
    type V = ErrorView;

    open spec fn view(&self) -> ErrorView {
        match self {
            Error::Parse(e) => ErrorView::Parse(e@),
            Error::Server(e) => ErrorView::Server(e@),
            Error::Proto(e) => ErrorView::Proto(e@),
        }
    }
}

} // verus!
