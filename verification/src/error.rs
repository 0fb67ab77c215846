//! The repository's typed refusals.
use vstd::prelude::*;

verus! {

/// A refusal the repository reports for a stored value it cannot read back,
/// or a request it will not carry out.
#[derive(Debug, Clone, PartialEq, Eq)]
pub enum RepositoryError {
    /// A stored id that does not parse as a UUID (the stored text).
    InvalidUuid(String),
    /// A stored timer state outside the known set (the stored text).
    UnknownTimerState(String),
    /// A stored playlist entry type outside the known set (lower-cased).
    UnknownPlaylistEntryType(String),
    /// A stored OSC listen port outside `1..=65535`.
    InvalidOscPort(i32),
    /// A stored AbleSet port outside `1..=65535`.
    InvalidAbleSetPort(i32),
    /// A stored AbleSet song prefix length outside `1..=255`.
    InvalidAbleSetPrefix(i32),
    /// A stored OSC velocity mode outside the known set (lower-cased).
    UnknownOscVelocityMode(String),
    /// A stored MIDI note outside `0..=127`, clamped into that range.
    MidiOutOfRange(u8),
    /// The addressed row does not exist (404).
    NotFound(&'static str),
    /// The request conflicts with the stored state (409).
    Conflict(&'static str),
    /// A conflict whose message names what it conflicts with (409).
    ConflictDetail(String),
    /// The request is malformed (422).
    Invalid(String),
    /// A row the request body names does not exist (422).
    TargetNotFound(&'static str),
}

} // verus!
