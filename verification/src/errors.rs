//! The error type shared by every fallible operation of the library.

use vstd::prelude::*;

verus! {

/// What went wrong, independently of the wording of the message.
#[derive(Debug, Clone, Copy, PartialEq, Eq, Structural)]
pub enum ErrorKind {
    /// An input file is absent or cannot be read.
    MissingInput,
    /// Neither an explicit key pair nor a keyring was given.
    MissingKey,
    /// The keyring holds no entry that lists the video.
    NoKeyForVideo,
    /// A container chunk is truncated or its header cannot be used.
    BadContainer,
    /// The chunk chain of an audio header is invalid, or one of its
    /// invariants is violated.
    BadHeader,
    /// The checksum stored in an audio header does not match its bytes.
    BadCRC,
    /// An audio block does not start with the sync word.
    BadBlock,
    /// The external muxer ended with the given non-zero exit code.
    MuxFailed(i32),
    /// A read or a write failed.
    IOFailure,
}

/// An error: its kind and a message for the user.
#[derive(Debug)]
pub struct GICSError {
    kind: ErrorKind,
    message: String,
}

/// The mathematical content of a [`GICSError`].
pub ghost struct ErrorView {
    pub kind: ErrorKind,
    pub message: Seq<char>,
}

pub type GICSResult<T> = Result<T, GICSError>;

impl View for GICSError {
    type V = ErrorView;

    closed spec fn view(&self) -> ErrorView {
        ErrorView { kind: self.kind, message: self.message@ }
    }
}

impl GICSError {
    /// An error that carries only a message; it counts as an I/O failure.
    pub fn new(message: &str) -> (e: Self)
        ensures
            e@.kind == ErrorKind::IOFailure,
            e@.message == message@,
    {
        Self { kind: ErrorKind::IOFailure, message: message.to_owned() }
    }

    /// An error of the given kind.
    pub fn with_kind(kind: ErrorKind, message: &str) -> (e: Self)
        ensures
            e@.kind == kind,
            e@.message == message@,
    {
        Self { kind, message: message.to_owned() }
    }

    /// An error of the given kind that takes over an already built message.
    pub fn from_parts(kind: ErrorKind, message: String) -> (e: Self)
        ensures
            e@.kind == kind,
            e@.message == message@,
    {
        Self { kind, message }
    }

    pub fn kind(&self) -> (k: ErrorKind)
        ensures
            k == self@.kind,
    {
        self.kind
    }

    pub fn message(&self) -> (m: &str)
        ensures
            m@ == self@.message,
    {
        self.message.as_str()
    }
}

} // verus!
