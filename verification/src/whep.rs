//! WHEP consumer session state.
use crate::uuid_text::parsed_uuid;
use vstd::prelude::*;

verus! {

/// The connection state of a WHEP consumer, mirroring GStreamer's
/// `GstWebRTCPeerConnectionState`.
#[derive(Debug, Clone, Copy, PartialEq, Eq, Structural)]
pub enum WhepConnectionState {
    New,
    Connecting,
    Connected,
    Disconnected,
    Failed,
    Closed,
}

/// The state a `GstWebRTCPeerConnectionState` value names (0 = new,
/// 1 = connecting, 2 = connected, 3 = disconnected, 4 = failed, 5 = closed);
/// any other value reads as `New`.
pub open spec fn state_of_gst_value(value: i32) -> WhepConnectionState {
    if value == 1 {
        WhepConnectionState::Connecting
    } else if value == 2 {
        WhepConnectionState::Connected
    } else if value == 3 {
        WhepConnectionState::Disconnected
    } else if value == 4 {
        WhepConnectionState::Failed
    } else if value == 5 {
        WhepConnectionState::Closed
    } else {
        WhepConnectionState::New
    }
}

/// The lower-case name a state is reported under.
pub open spec fn state_name(state: WhepConnectionState) -> Seq<char> {
    match state {
        WhepConnectionState::New => "new"@,
        WhepConnectionState::Connecting => "connecting"@,
        WhepConnectionState::Connected => "connected"@,
        WhepConnectionState::Disconnected => "disconnected"@,
        WhepConnectionState::Failed => "failed"@,
        WhepConnectionState::Closed => "closed"@,
    }
}

impl WhepConnectionState {
    /// Maps a `GstWebRTCPeerConnectionState` integer onto the state; an
    /// unknown value is treated as `New`.
    pub fn from_gst_value(value: i32) -> (s: Self)
        ensures
            s == state_of_gst_value(value),
    {
        match value {
            0 => WhepConnectionState::New,
            1 => WhepConnectionState::Connecting,
            2 => WhepConnectionState::Connected,
            3 => WhepConnectionState::Disconnected,
            4 => WhepConnectionState::Failed,
            5 => WhepConnectionState::Closed,
            _ => WhepConnectionState::New,
        }
    }

    /// The lower-case name the diagnostic snapshot reports.
    pub fn as_str(self) -> (name: &'static str)
        ensures
            name@ == state_name(self),
    {
        match self {
            WhepConnectionState::New => "new",
            WhepConnectionState::Connecting => "connecting",
            WhepConnectionState::Connected => "connected",
            WhepConnectionState::Disconnected => "disconnected",
            WhepConnectionState::Failed => "failed",
            WhepConnectionState::Closed => "closed",
        }
    }
}

/// The version field of a UUID held as its 128-bit big-endian value.
pub open spec fn uuid_version(v: u128) -> u128 {
    (v >> 76u128) & 0xfu128
}

/// `uuid::Uuid::new_v4().to_string()`: a fresh random UUID in hyphenated
/// text, used as the session id in the WHEP resource URL. Of every outcome
/// it holds that the text parses back as a UUID whose version field is 4;
/// which random value it is is not stated.
#[verifier::external_body]
pub fn new_session_id() -> (r: String)
    ensures
        parsed_uuid(r@) is Some,
        uuid_version(parsed_uuid(r@)->0) == 4,
{
    uuid::Uuid::new_v4().to_string()
}

} // verus!
