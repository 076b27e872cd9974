//! What can go wrong while reading a dump.
use crate::frames::FrameError;
use vstd::prelude::*;

verus! {

/// A log entry that cannot be brought into the library's form.
#[derive(Debug, Clone, Copy, PartialEq, Eq, Structural)]
pub enum EntryError {
    /// The timestamp has negative nanoseconds.
    NegativeNanos,
    /// The timestamp lies outside the range of representable instants.
    TimestampOutOfRange,
    /// A duration does not fit in 64-bit nanoseconds.
    DurationOverflow,
    /// A metadata value is not valid UTF-8.
    NonUtf8Metadata,
    /// The entry carries no payload.
    MissingPayload,
}

/// An entry that contradicts what is already known of its call.
#[derive(Debug, Clone, Copy, PartialEq, Eq, Structural)]
pub enum Violation {
    /// A second, different peer.
    PeerMismatch,
    /// A second, different method name.
    MethodNameMismatch,
    /// A second, different authority.
    AuthorityMismatch,
    /// A client header key seen before.
    DuplicateClientHeader,
    /// A server header key seen before.
    DuplicateServerHeader,
    /// A trailer metadata key seen before.
    DuplicateStatusMetadata,
    /// A second, different status code.
    StatusCodeMismatch,
    /// A second, different status message.
    StatusMessageMismatch,
    /// Second, different status details.
    StatusDetailsMismatch,
    /// Status details that are not valid UTF-8.
    StatusDetailsNotUtf8,
    /// A second request message.
    DuplicateRequest,
    /// A second response message.
    DuplicateResponse,
    /// A message before the client header that names the method.
    MessageBeforeMethodName,
    /// A message whose declared length is not that of its data.
    MessageLengthMismatch,
    /// A message payload under an event type other than a message's.
    UnexpectedMessageEvent,
    /// A `Capabilities` request with a payload.
    CapabilitiesRequestPayload,
    /// An entry whose payload was truncated.
    TruncatedPayload,
}

/// A violation, with the call it concerns.
#[derive(Debug, Clone, Copy, PartialEq, Eq, Structural)]
pub struct CallError {
    pub call_id: u64,
    pub violation: Violation,
}

/// Any error met while reading a dump: a record that cannot be framed or
/// decoded, an entry that cannot be normalised, or a call whose entries
/// disagree.
#[derive(Debug, PartialEq, Eq)]
pub enum Error {
    /// The file could not be read.
    Io(String),
    Frame(FrameError),
    /// The record is not a valid log entry; the decoder's message.
    Decode(String),
    Entry(EntryError),
    Call(CallError),
}

} // verus!
