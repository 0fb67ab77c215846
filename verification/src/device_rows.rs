//! The rows written for the settings singletons and the device tables, built
//! from the drafts an operator submits.
use crate::convert::{velocity_mode_text, velocity_mode_to_string, VelocityMode};
use crate::error::RepositoryError;
use crate::text::{str_equal, trim, trim_spec};
use vstd::prelude::*;
use vstd::string::StringExecFns;

verus! {

/// The port that older builds stored for both AbleSet ports.
pub const LEGACY_ABLESET_PORT: i32 = 5950;

/// An AbleSet settings draft.
#[derive(Debug, Clone)]
pub struct AbleSetDraft {
    pub enabled: bool,
    pub host: String,
    pub osc_port: u16,
    pub http_port: u16,
    pub library_name: String,
    pub song_prefix_length: u8,
}

/// The stored AbleSet settings row.
#[derive(Debug, Clone)]
pub struct AbleSetRow {
    pub enabled: bool,
    pub host: String,
    pub osc_port: i32,
    pub http_port: i32,
    pub library_name: String,
    pub song_prefix_length: i32,
}

/// The row stored for an AbleSet draft: host and library name trimmed,
/// numbers widened.
pub fn ableset_row_from_draft(draft: &AbleSetDraft) -> (row: AbleSetRow)
    ensures
        row.enabled == draft.enabled,
        row.host@ == trim_spec(draft.host@),
        row.osc_port == draft.osc_port as i32,
        row.http_port == draft.http_port as i32,
        row.library_name@ == trim_spec(draft.library_name@),
        row.song_prefix_length == draft.song_prefix_length as i32,
{
    AbleSetRow {
        enabled: draft.enabled,
        host: trim(draft.host.as_str()),
        osc_port: draft.osc_port as i32,
        http_port: draft.http_port as i32,
        library_name: trim(draft.library_name.as_str()),
        song_prefix_length: draft.song_prefix_length as i32,
    }
}

/// `c` with an ASCII upper-case letter mapped to its lower-case form.
pub open spec fn ascii_fold(c: char) -> u32 {
    let u = c as u32;
    if 0x41 <= u <= 0x5A {
        (u + 0x20) as u32
    } else {
        u
    }
}

/// `str::eq_ignore_ascii_case`: equal lengths, and equal characters once
/// ASCII letters are folded.
pub open spec fn eq_ignore_ascii_case(a: Seq<char>, b: Seq<char>) -> bool {
    &&& a.len() == b.len()
    &&& forall|i: int| 0 <= i < a.len() ==> #[trigger] ascii_fold(a[i]) == ascii_fold(b[i])
}

fn fold_code(c: char) -> (u: u32)
    ensures
        u == ascii_fold(c),
{
    let u = c as u32;
    if 0x41 <= u && u <= 0x5A {
        u + 0x20
    } else {
        u
    }
}

/// Whether `a` and `b` are equal up to ASCII case.
pub fn equal_ignoring_ascii_case(a: &str, b: &str) -> (r: bool)
    ensures
        r == eq_ignore_ascii_case(a@, b@),
{
    let x = crate::text::chars_of(a);
    let y = crate::text::chars_of(b);
    if x.len() != y.len() {
        return false;
    }
    let mut i: usize = 0;
    while i < x.len()
        invariant
            x@ == a@,
            y@ == b@,
            x.len() == y.len(),
            i <= x.len(),
            forall|k: int| 0 <= k < i ==> #[trigger] ascii_fold(x@[k]) == ascii_fold(y@[k]),
        decreases x.len() - i,
    {
        if fold_code(x[i]) != fold_code(y[i]) {
            return false;
        }
        i = i + 1;
    }
    true
}

/// Whether a stored library name is the placeholder older builds wrote.
pub open spec fn is_legacy_library_name(name: Seq<char>) -> bool {
    eq_ignore_ascii_case(trim_spec(name), "NEWLEVEL"@)
}

/// The stored row after the legacy repair: a port still at the legacy value
/// takes the default; a legacy library name only forces the row to be
/// written again (only the ports are written, so the stored name stays).
/// The flag says whether the row must be written.
pub fn migrate_legacy_ableset(row: AbleSetRow, default_http_port: u16, default_osc_port: u16) -> (r: (
    AbleSetRow,
    bool,
))
    ensures
        r.0.http_port == (if row.http_port == LEGACY_ABLESET_PORT {
            default_http_port as i32
        } else {
            row.http_port
        }),
        r.0.osc_port == (if row.osc_port == LEGACY_ABLESET_PORT {
            default_osc_port as i32
        } else {
            row.osc_port
        }),
        r.0.enabled == row.enabled,
        r.0.host@ == row.host@,
        r.0.library_name@ == row.library_name@,
        r.0.song_prefix_length == row.song_prefix_length,
        r.1 == (row.http_port == LEGACY_ABLESET_PORT || row.osc_port == LEGACY_ABLESET_PORT
            || is_legacy_library_name(row.library_name@)),
{
    let mut row = row;
    let mut needs_update = false;
    if row.http_port == LEGACY_ABLESET_PORT {
        row.http_port = default_http_port as i32;
        needs_update = true;
    }
    if row.osc_port == LEGACY_ABLESET_PORT {
        row.osc_port = default_osc_port as i32;
        needs_update = true;
    }
    let trimmed = trim(row.library_name.as_str());
    proof {
        reveal_strlit("NEWLEVEL");
    }
    if equal_ignoring_ascii_case(trimmed.as_str(), "NEWLEVEL") {
        needs_update = true;
    }
    (row, needs_update)
}

/// An OSC settings draft.
#[derive(Debug, Clone)]
pub struct OscDraft {
    pub enabled: bool,
    pub listen_port: u16,
    pub address_pattern: String,
    pub velocity_mode: VelocityMode,
}

/// The stored OSC settings row.
#[derive(Debug, Clone)]
pub struct OscRow {
    pub enabled: bool,
    pub listen_port: i32,
    pub address_pattern: String,
    pub velocity_mode: String,
}

/// The row stored for an OSC draft: the address pattern trimmed, the
/// velocity mode by its stored name.
pub fn osc_row_from_draft(draft: &OscDraft) -> (row: OscRow)
    ensures
        row.enabled == draft.enabled,
        row.listen_port == draft.listen_port as i32,
        row.address_pattern@ == trim_spec(draft.address_pattern@),
        row.velocity_mode@ == velocity_mode_text(draft.velocity_mode),
{
    OscRow {
        enabled: draft.enabled,
        listen_port: draft.listen_port as i32,
        address_pattern: trim(draft.address_pattern.as_str()),
        velocity_mode: String::from_str(velocity_mode_to_string(draft.velocity_mode)),
    }
}

/// A Resolume host draft.
#[derive(Debug, Clone)]
pub struct ResolumeHostDraft {
    pub label: String,
    pub host: String,
    pub port: u16,
    pub is_enabled: bool,
}

/// The stored Resolume host row; `active_port` is a port discovered at run
/// time when the host answers somewhere other than where it was configured.
#[derive(Debug, Clone)]
pub struct ResolumeHostRow {
    pub label: String,
    pub host: String,
    pub port: i32,
    pub is_enabled: bool,
    pub active_port: Option<i32>,
}

/// The row stored for a new Resolume host: label and host trimmed, no
/// discovered port.
pub fn new_resolume_row(draft: &ResolumeHostDraft) -> (row: ResolumeHostRow)
    ensures
        row.label@ == trim_spec(draft.label@),
        row.host@ == trim_spec(draft.host@),
        row.port == draft.port as i32,
        row.is_enabled == draft.is_enabled,
        row.active_port is None,
{
    ResolumeHostRow {
        label: trim(draft.label.as_str()),
        host: trim(draft.host.as_str()),
        port: draft.port as i32,
        is_enabled: draft.is_enabled,
        active_port: None,
    }
}

/// Whether an edit points the host somewhere else: its trimmed host or its
/// port differ from the stored ones.
pub open spec fn repoints(existing: ResolumeHostRow, draft: ResolumeHostDraft) -> bool {
    existing.host@ != trim_spec(draft.host@) || existing.port != draft.port as i32
}

/// The row after an edit. A discovered port was learned against the old
/// host and port, so an edit that repoints the host clears it; an edit of
/// the label or the enabled flag alone keeps it.
pub fn apply_resolume_edit(existing: &ResolumeHostRow, draft: &ResolumeHostDraft) -> (row:
    ResolumeHostRow)
    ensures
        row.label@ == trim_spec(draft.label@),
        row.host@ == trim_spec(draft.host@),
        row.port == draft.port as i32,
        row.is_enabled == draft.is_enabled,
        row.active_port == (if repoints(*existing, *draft) {
            None
        } else {
            existing.active_port
        }),
{
    let host = trim(draft.host.as_str());
    let clears = !str_equal(existing.host.as_str(), host.as_str()) || existing.port
        != draft.port as i32;
    ResolumeHostRow {
        label: trim(draft.label.as_str()),
        host,
        port: draft.port as i32,
        is_enabled: draft.is_enabled,
        active_port: if clears {
            None
        } else {
            existing.active_port
        },
    }
}

/// The row after a discovered port is recorded (`None` heals back to the
/// configured port); everything else is kept.
pub fn record_active_port(existing: &ResolumeHostRow, active_port: Option<u16>) -> (row:
    ResolumeHostRow)
    ensures
        row.label@ == existing.label@,
        row.host@ == existing.host@,
        row.port == existing.port,
        row.is_enabled == existing.is_enabled,
        row.active_port == (match active_port {
            Some(p) => Some(p as i32),
            None => None,
        }),
{
    ResolumeHostRow {
        label: existing.label.clone(),
        host: existing.host.clone(),
        port: existing.port,
        is_enabled: existing.is_enabled,
        active_port: match active_port {
            Some(p) => Some(p as i32),
            None => None,
        },
    }
}

/// An Android stage display draft.
#[derive(Debug, Clone)]
pub struct AndroidStageDraft {
    pub label: String,
    pub host: String,
    pub port: u16,
    pub launch_component: String,
    pub is_enabled: bool,
}

/// The stored Android stage display row.
#[derive(Debug, Clone)]
pub struct AndroidStageRow {
    pub label: String,
    pub host: String,
    pub port: i32,
    pub launch_component: String,
    pub is_enabled: bool,
}

/// The row stored for an Android stage display draft, on create and on
/// edit alike: the texts trimmed.
pub fn android_row_from_draft(draft: &AndroidStageDraft) -> (row: AndroidStageRow)
    ensures
        row.label@ == trim_spec(draft.label@),
        row.host@ == trim_spec(draft.host@),
        row.port == draft.port as i32,
        row.launch_component@ == trim_spec(draft.launch_component@),
        row.is_enabled == draft.is_enabled,
{
    AndroidStageRow {
        label: trim(draft.label.as_str()),
        host: trim(draft.host.as_str()),
        port: draft.port as i32,
        launch_component: trim(draft.launch_component.as_str()),
        is_enabled: draft.is_enabled,
    }
}

/// A delete that removed no row is refused as not found.
pub fn require_deleted(rows_affected: u64, what: &'static str) -> (r: Result<(), RepositoryError>)
    ensures
        rows_affected == 0 ==> r == Err::<(), RepositoryError>(RepositoryError::NotFound(what)),
        rows_affected != 0 ==> r is Ok,
{
    if rows_affected == 0 {
        Err(RepositoryError::NotFound(what))
    } else {
        Ok(())
    }
}

} // verus!
