//! Reading stored columns back into domain values: the range checks and the
//! enumerations the persistence layer stores as text.
use crate::error::RepositoryError;
use crate::text::{lowercase, str_equal, to_lowercase, trim, trim_spec};
use crate::uuid_text::{parse_uuid, parsed_uuid};
use vstd::prelude::*;
use vstd::string::StringExecFns;

verus! {

/// How an OSC velocity is numbered.
#[derive(Debug, Clone, Copy, PartialEq, Eq, Structural)]
pub enum VelocityMode {
    ZeroBased,
    OneBased,
}

/// The state of a stage timer.
#[derive(Debug, Clone, Copy, PartialEq, Eq, Structural)]
pub enum TimerState {
    Idle,
    Running,
    Paused,
    Completed,
}

/// The text stored for a velocity mode.
pub open spec fn velocity_mode_text(mode: VelocityMode) -> Seq<char> {
    match mode {
        VelocityMode::ZeroBased => "zero_based"@,
        VelocityMode::OneBased => "one_based"@,
    }
}

/// The velocity mode a lower-cased stored text names, if any.
pub open spec fn velocity_mode_of(lower: Seq<char>) -> Option<VelocityMode> {
    if lower == "zero_based"@ || lower == "zero-based"@ || lower == "zero"@ || lower == "0"@ {
        Some(VelocityMode::ZeroBased)
    } else if lower == "one_based"@ || lower == "one-based"@ || lower == "one"@ || lower
        == "1"@ {
        Some(VelocityMode::OneBased)
    } else {
        None
    }
}

/// The text stored for a timer state.
pub open spec fn timer_state_text(state: TimerState) -> Seq<char> {
    match state {
        TimerState::Idle => "idle"@,
        TimerState::Running => "running"@,
        TimerState::Paused => "paused"@,
        TimerState::Completed => "completed"@,
    }
}

/// The timer state a stored text names, if any (case-sensitive).
pub open spec fn timer_state_of(text: Seq<char>) -> Option<TimerState> {
    if text == "idle"@ {
        Some(TimerState::Idle)
    } else if text == "running"@ {
        Some(TimerState::Running)
    } else if text == "paused"@ {
        Some(TimerState::Paused)
    } else if text == "completed"@ {
        Some(TimerState::Completed)
    } else {
        None
    }
}

/// The text stored for `mode`.
pub fn velocity_mode_to_string(mode: VelocityMode) -> (text: &'static str)
    ensures
        text@ == velocity_mode_text(mode),
{
    match mode {
        VelocityMode::ZeroBased => "zero_based",
        VelocityMode::OneBased => "one_based",
    }
}

/// Reads a stored velocity mode, case-insensitively; an unknown one is
/// refused with its lower-cased text.
pub fn parse_velocity_mode(value: &str) -> (r: Result<VelocityMode, RepositoryError>)
    ensures
        velocity_mode_of(lowercase(value@)) is Some ==> r == Ok::<
            VelocityMode,
            RepositoryError,
        >(velocity_mode_of(lowercase(value@))->0),
        velocity_mode_of(lowercase(value@)) is None ==> (r matches Err(
            RepositoryError::UnknownOscVelocityMode(t),
        ) && t@ == lowercase(value@)),
{
    let lower = to_lowercase(value);
    let l = lower.as_str();
    if str_equal(l, "zero_based") || str_equal(l, "zero-based") || str_equal(l, "zero")
        || str_equal(l, "0") {
        Ok(VelocityMode::ZeroBased)
    } else if str_equal(l, "one_based") || str_equal(l, "one-based") || str_equal(l, "one")
        || str_equal(l, "1") {
        Ok(VelocityMode::OneBased)
    } else {
        Err(RepositoryError::UnknownOscVelocityMode(lower))
    }
}

/// The text stored for `state`.
pub fn timer_state_to_string(state: TimerState) -> (text: String)
    ensures
        text@ == timer_state_text(state),
{
    match state {
        TimerState::Idle => String::from_str("idle"),
        TimerState::Running => String::from_str("running"),
        TimerState::Paused => String::from_str("paused"),
        TimerState::Completed => String::from_str("completed"),
    }
}

/// Reads a stored timer state; an unknown one is refused with its text.
pub fn parse_timer_state(value: &str) -> (r: Result<TimerState, RepositoryError>)
    ensures
        timer_state_of(value@) is Some ==> r == Ok::<TimerState, RepositoryError>(
            timer_state_of(value@)->0,
        ),
        timer_state_of(value@) is None ==> (r matches Err(RepositoryError::UnknownTimerState(t))
            && t@ == value@),
{
    if str_equal(value, "idle") {
        Ok(TimerState::Idle)
    } else if str_equal(value, "running") {
        Ok(TimerState::Running)
    } else if str_equal(value, "paused") {
        Ok(TimerState::Paused)
    } else if str_equal(value, "completed") {
        Ok(TimerState::Completed)
    } else {
        Err(RepositoryError::UnknownTimerState(String::from_str(value)))
    }
}

/// A timer state written to the database is read back as the same state.
pub proof fn lemma_timer_state_round_trip(state: TimerState)
    ensures
        timer_state_of(timer_state_text(state)) == Some(state),
{
    reveal_strlit("idle");
    reveal_strlit("running");
    reveal_strlit("paused");
    reveal_strlit("completed");
    assert("idle"@.len() != "running"@.len());
    assert("idle"@.len() != "paused"@.len());
    assert("idle"@.len() != "completed"@.len());
    assert("running"@.len() != "paused"@.len());
    assert("running"@.len() != "completed"@.len());
    assert("paused"@.len() != "completed"@.len());
}

/// A velocity mode written to the database is read back as the same mode,
/// given that lower-casing leaves its stored name as it is.
pub proof fn lemma_velocity_mode_round_trip(mode: VelocityMode)
    requires
        lowercase(velocity_mode_text(mode)) == velocity_mode_text(mode),
    ensures
        velocity_mode_of(lowercase(velocity_mode_text(mode))) == Some(mode),
{
    reveal_strlit("zero_based");
    reveal_strlit("one_based");
    reveal_strlit("zero-based");
    reveal_strlit("zero");
    reveal_strlit("0");
    assert("one_based"@.len() != "zero_based"@.len());
    assert("one_based"@[0] != "zero-based"@[0]);
    assert("one_based"@.len() != "zero"@.len());
    assert("one_based"@.len() != "0"@.len());
}

/// The two timer states of the timers row: the countdown's, then the
/// preach timer's; the first unknown one is refused.
pub fn timers_states(countdown_state: &str, preach_state: &str) -> (r: Result<
    (TimerState, TimerState),
    RepositoryError,
>)
    ensures
        timer_state_of(countdown_state@) is Some && timer_state_of(preach_state@) is Some ==> r
            == Ok::<(TimerState, TimerState), RepositoryError>(
            (timer_state_of(countdown_state@)->0, timer_state_of(preach_state@)->0),
        ),
        timer_state_of(countdown_state@) is None ==> (r matches Err(
            RepositoryError::UnknownTimerState(t),
        ) && t@ == countdown_state@),
        timer_state_of(countdown_state@) is Some && timer_state_of(preach_state@) is None ==> (
        r matches Err(RepositoryError::UnknownTimerState(t)) && t@ == preach_state@),
{
    let countdown = parse_timer_state(countdown_state)?;
    let preach = parse_timer_state(preach_state)?;
    Ok((countdown, preach))
}

/// Whether a stored `i32` is a usable TCP/UDP port.
pub open spec fn valid_port(value: i32) -> bool {
    1 <= value <= 65535
}

/// Reads a stored AbleSet port.
pub fn cast_ableset_port(value: i32) -> (r: Result<u16, RepositoryError>)
    ensures
        valid_port(value) ==> r == Ok::<u16, RepositoryError>(value as u16),
        !valid_port(value) ==> r == Err::<u16, RepositoryError>(
            RepositoryError::InvalidAbleSetPort(value),
        ),
{
    if value <= 0 || value > 65535 {
        return Err(RepositoryError::InvalidAbleSetPort(value));
    }
    Ok(value as u16)
}

/// Reads a stored AbleSet song prefix length.
pub fn cast_prefix_length(value: i32) -> (r: Result<u8, RepositoryError>)
    ensures
        1 <= value <= 255 ==> r == Ok::<u8, RepositoryError>(value as u8),
        !(1 <= value <= 255) ==> r == Err::<u8, RepositoryError>(
            RepositoryError::InvalidAbleSetPrefix(value),
        ),
{
    if value <= 0 || value > 255 {
        return Err(RepositoryError::InvalidAbleSetPrefix(value));
    }
    Ok(value as u8)
}

/// Reads a stored OSC listen port.
pub fn cast_osc_port(value: i32) -> (r: Result<u16, RepositoryError>)
    ensures
        valid_port(value) ==> r == Ok::<u16, RepositoryError>(value as u16),
        !valid_port(value) ==> r == Err::<u16, RepositoryError>(
            RepositoryError::InvalidOscPort(value),
        ),
{
    if value <= 0 || value > 65535 {
        return Err(RepositoryError::InvalidOscPort(value));
    }
    Ok(value as u16)
}

/// The stored AbleSet numbers, each range-checked: `(osc_port, http_port,
/// song_prefix_length)`; the first one out of range is reported.
pub fn ableset_numbers(osc_port: i32, http_port: i32, song_prefix_length: i32) -> (r: Result<
    (u16, u16, u8),
    RepositoryError,
>)
    ensures
        !valid_port(osc_port) ==> r == Err::<(u16, u16, u8), RepositoryError>(
            RepositoryError::InvalidAbleSetPort(osc_port),
        ),
        valid_port(osc_port) && !valid_port(http_port) ==> r == Err::<
            (u16, u16, u8),
            RepositoryError,
        >(RepositoryError::InvalidAbleSetPort(http_port)),
        valid_port(osc_port) && valid_port(http_port) && !(1 <= song_prefix_length <= 255) ==> r
            == Err::<(u16, u16, u8), RepositoryError>(
            RepositoryError::InvalidAbleSetPrefix(song_prefix_length),
        ),
        valid_port(osc_port) && valid_port(http_port) && 1 <= song_prefix_length <= 255 ==> r
            == Ok::<(u16, u16, u8), RepositoryError>(
            (osc_port as u16, http_port as u16, song_prefix_length as u8),
        ),
{
    let osc = cast_ableset_port(osc_port)?;
    let http = cast_ableset_port(http_port)?;
    let prefix = cast_prefix_length(song_prefix_length)?;
    Ok((osc, http, prefix))
}

/// The stored OSC settings' velocity mode and port; the mode is read first.
pub fn osc_fields(velocity_mode: &str, listen_port: i32) -> (r: Result<
    (VelocityMode, u16),
    RepositoryError,
>)
    ensures
        velocity_mode_of(lowercase(velocity_mode@)) is None ==> (r matches Err(
            RepositoryError::UnknownOscVelocityMode(t),
        ) && t@ == lowercase(velocity_mode@)),
        velocity_mode_of(lowercase(velocity_mode@)) is Some && !valid_port(listen_port) ==> r
            == Err::<(VelocityMode, u16), RepositoryError>(
            RepositoryError::InvalidOscPort(listen_port),
        ),
        velocity_mode_of(lowercase(velocity_mode@)) is Some && valid_port(listen_port) ==> r
            == Ok::<(VelocityMode, u16), RepositoryError>(
            (velocity_mode_of(lowercase(velocity_mode@))->0, listen_port as u16),
        ),
{
    let mode = parse_velocity_mode(velocity_mode)?;
    let port = cast_osc_port(listen_port)?;
    Ok((mode, port))
}

/// Why a stored device port (Resolume host, Android stage display) is unusable.
#[derive(Debug, Clone, Copy, PartialEq, Eq, Structural)]
pub enum DevicePortError {
    /// Outside `0..=65535`.
    OutOfRange,
    /// Zero.
    Zero,
}

/// Reads a stored device port: it must fit a `u16` and must not be zero.
pub fn device_port(value: i32) -> (r: Result<u16, DevicePortError>)
    ensures
        !(0 <= value <= 65535) ==> r == Err::<u16, DevicePortError>(DevicePortError::OutOfRange),
        value == 0 ==> r == Err::<u16, DevicePortError>(DevicePortError::Zero),
        valid_port(value) ==> r == Ok::<u16, DevicePortError>(value as u16),
{
    if value < 0 || value > 65535 {
        return Err(DevicePortError::OutOfRange);
    }
    if value == 0 {
        return Err(DevicePortError::Zero);
    }
    Ok(value as u16)
}


/// A stored playlist entry row, as read from the `playlist_entries` table.
#[derive(Debug, Clone)]
pub struct PlaylistEntryRow {
    pub id: String,
    pub entry_type: String,
    pub label: Option<String>,
    pub presentation_id: Option<String>,
    pub midi_note: Option<i32>,
}

/// What a playlist entry shows.
#[derive(Debug, Clone, PartialEq, Eq)]
pub enum PlaylistEntryKind {
    /// A labelled divider.
    Separator { name: String },
    /// A presentation, optionally bound to a MIDI note.
    Presentation { presentation_id: u128, midi_note: Option<u8> },
}

/// A playlist entry read back from storage.
#[derive(Debug, Clone, PartialEq, Eq)]
pub struct PlaylistEntry {
    pub id: u128,
    pub kind: PlaylistEntryKind,
}

/// The lower-cased entry types that name a presentation entry.
pub open spec fn is_presentation_entry_type(t: Seq<char>) -> bool {
    t == "presentation"@ || t == "song"@ || t == "item"@ || t == "default"@ || t == ""@
}

/// The label a separator carries: the stored one, or `Separator`, trimmed.
pub open spec fn separator_name(label: Option<String>) -> Seq<char> {
    trim_spec(
        match label {
            Some(l) => l@,
            None => "Separator"@,
        },
    )
}

/// `n` clamped into the MIDI note range.
pub open spec fn clamp_midi(n: i32) -> u8 {
    if n < 0 {
        0
    } else if n > 127 {
        127
    } else {
        n as u8
    }
}

/// Reads a stored playlist entry. The entry's own id is checked first; then
/// its (case-insensitive) type: `separator`, or one of the presentation types,
/// which need a parseable presentation id and a MIDI note in `0..=127`.
pub fn to_domain_playlist_entry(row: &PlaylistEntryRow) -> (r: Result<
    PlaylistEntry,
    RepositoryError,
>)
    ensures
        parsed_uuid(row.id@) is None ==> (r matches Err(RepositoryError::InvalidUuid(t)) && t@
            == row.id@),
        parsed_uuid(row.id@) is Some ==> ({
            let t = lowercase(row.entry_type@);
            let id = parsed_uuid(row.id@)->0;
            &&& t == "separator"@ ==> (r matches Ok(e) && e.id == id && (e.kind matches PlaylistEntryKind::Separator { name }
                && name@ == separator_name(row.label)))
            &&& (t != "separator"@ && !is_presentation_entry_type(t)) ==> (r matches Err(
                RepositoryError::UnknownPlaylistEntryType(u),
            ) && u@ == t)
            &&& (is_presentation_entry_type(t) && row.presentation_id is None) ==> (r matches Err(
                RepositoryError::UnknownPlaylistEntryType(u),
            ) && u@ == t)
            &&& (is_presentation_entry_type(t) && row.presentation_id is Some && parsed_uuid(
                row.presentation_id->0@,
            ) is None) ==> (r matches Err(RepositoryError::InvalidUuid(u)) && u@
                == row.presentation_id->0@)
            &&& (is_presentation_entry_type(t) && row.presentation_id is Some && parsed_uuid(
                row.presentation_id->0@,
            ) is Some && row.midi_note is Some && !(0 <= row.midi_note->0 <= 127)) ==> r
                == Err::<PlaylistEntry, RepositoryError>(
                RepositoryError::MidiOutOfRange(clamp_midi(row.midi_note->0)),
            )
            &&& (is_presentation_entry_type(t) && row.presentation_id is Some && parsed_uuid(
                row.presentation_id->0@,
            ) is Some && (row.midi_note is None || 0 <= row.midi_note->0 <= 127)) ==> r == Ok::<
                PlaylistEntry,
                RepositoryError,
            >(
                PlaylistEntry {
                    id,
                    kind: PlaylistEntryKind::Presentation {
                        presentation_id: parsed_uuid(row.presentation_id->0@)->0,
                        midi_note: match row.midi_note {
                            Some(n) => Some(n as u8),
                            None => None,
                        },
                    },
                },
            )
        }),
{
    let id = parse_uuid(row.id.as_str())?;
    let t = to_lowercase(row.entry_type.as_str());
    let ts = t.as_str();
    proof {
        reveal_strlit("separator");
        reveal_strlit("presentation");
        reveal_strlit("song");
        reveal_strlit("item");
        reveal_strlit("default");
        reveal_strlit("");
    }
    if str_equal(ts, "separator") {
        let name = match &row.label {
            Some(l) => trim(l.as_str()),
            None => trim("Separator"),
        };
        assert(name@ == separator_name(row.label));
        assert(t@ == "separator"@);
        assert("separator"@.len() == 9);
        assert(t@ != "presentation"@);
        assert(t@ != "song"@);
        assert(t@ != "item"@);
        assert(t@ != "default"@);
        assert(t@ != ""@);
        assert(!is_presentation_entry_type(t@));
        return Ok(PlaylistEntry { id, kind: PlaylistEntryKind::Separator { name } });
    }
    if str_equal(ts, "presentation") || str_equal(ts, "song") || str_equal(ts, "item")
        || str_equal(ts, "default") || str_equal(ts, "") {
        let pid_text = match &row.presentation_id {
            Some(p) => p,
            None => {
                return Err(RepositoryError::UnknownPlaylistEntryType(t));
            },
        };
        let presentation_id = parse_uuid(pid_text.as_str())?;
        let midi_note = match row.midi_note {
            Some(note) => {
                if note < 0 {
                    return Err(RepositoryError::MidiOutOfRange(0));
                }
                if note > 127 {
                    return Err(RepositoryError::MidiOutOfRange(127));
                }
                Some(note as u8)
            },
            None => None,
        };
        return Ok(
            PlaylistEntry {
                id,
                kind: PlaylistEntryKind::Presentation { presentation_id, midi_note },
            },
        );
    }
    Err(RepositoryError::UnknownPlaylistEntryType(t))
}

/// The ids a stored stage-state row holds: the presentation, the current
/// slide and the next slide, each optional; the first unparseable one is
/// refused.
pub fn stage_state_ids(
    presentation_id: Option<&str>,
    current_slide_id: Option<&str>,
    next_slide_id: Option<&str>,
) -> (r: Result<(Option<u128>, Option<u128>, Option<u128>), RepositoryError>)
    ensures
        optional_id_ok(presentation_id) && optional_id_ok(current_slide_id) && optional_id_ok(
            next_slide_id,
        ) ==> r == Ok::<(Option<u128>, Option<u128>, Option<u128>), RepositoryError>(
            (
                optional_id(presentation_id),
                optional_id(current_slide_id),
                optional_id(next_slide_id),
            ),
        ),
        !optional_id_ok(presentation_id) ==> (r matches Err(RepositoryError::InvalidUuid(t))
            && t@ == presentation_id->0@),
        optional_id_ok(presentation_id) && !optional_id_ok(current_slide_id) ==> (r matches Err(
            RepositoryError::InvalidUuid(t),
        ) && t@ == current_slide_id->0@),
        optional_id_ok(presentation_id) && optional_id_ok(current_slide_id) && !optional_id_ok(
            next_slide_id,
        ) ==> (r matches Err(RepositoryError::InvalidUuid(t)) && t@ == next_slide_id->0@),
{
    let p = parse_optional_id(presentation_id)?;
    let c = parse_optional_id(current_slide_id)?;
    let n = parse_optional_id(next_slide_id)?;
    Ok((p, c, n))
}

/// An optional stored id is absent or parseable.
pub open spec fn optional_id_ok(s: Option<&str>) -> bool {
    match s {
        Some(t) => parsed_uuid(t@) is Some,
        None => true,
    }
}

/// The value of an optional stored id that is absent or parseable.
pub open spec fn optional_id(s: Option<&str>) -> Option<u128> {
    match s {
        Some(t) => parsed_uuid(t@),
        None => None,
    }
}

fn parse_optional_id(s: Option<&str>) -> (r: Result<Option<u128>, RepositoryError>)
    ensures
        optional_id_ok(s) ==> r == Ok::<Option<u128>, RepositoryError>(optional_id(s)),
        !optional_id_ok(s) ==> (r matches Err(RepositoryError::InvalidUuid(t)) && t@ == s->0@),
{
    match s {
        Some(t) => {
            let v = parse_uuid(t)?;
            Ok(Some(v))
        },
        None => Ok(None),
    }
}

} // verus!
