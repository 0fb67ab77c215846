use crate::error::RepositoryError;
use crate::text::{chars_of, extend_chars, str_equal, string_from_chars};
use vstd::prelude::*;

verus! {

/// Who caused a settings change that lands in the audit log.
#[derive(Debug, Clone, Copy, PartialEq, Eq, Structural)]
pub enum SettingsAuditSource {
    HttpSetter,
    CompanionSetter,
    StartupDefault,
    SchemaMigration,
    /// The Resolume driver's own probe found a host on another port.
    PortDriftDiscovery,
}

/// The stable, snake_case wire name of an audit source.
pub open spec fn audit_source_name(source: SettingsAuditSource) -> Seq<char> {
    match source {
        SettingsAuditSource::HttpSetter => "http_setter"@,
        SettingsAuditSource::CompanionSetter => "companion_setter"@,
        SettingsAuditSource::StartupDefault => "startup_default"@,
        SettingsAuditSource::SchemaMigration => "schema_migration"@,
        SettingsAuditSource::PortDriftDiscovery => "port_drift_discovery"@,
    }
}

impl SettingsAuditSource {
    /// The snake_case name stored in the `source` column.
    pub fn as_str(self) -> (name: &'static str)
        ensures
            name@ == audit_source_name(self),
    {
        match self {
            SettingsAuditSource::HttpSetter => "http_setter",
            SettingsAuditSource::CompanionSetter => "companion_setter",
            SettingsAuditSource::StartupDefault => "startup_default",
            SettingsAuditSource::SchemaMigration => "schema_migration",
            SettingsAuditSource::PortDriftDiscovery => "port_drift_discovery",
        }
    }
}

/// The audit source a stored name stands for, if any.
pub open spec fn audit_source_of(name: Seq<char>) -> Option<SettingsAuditSource> {
    if name == "http_setter"@ {
        Some(SettingsAuditSource::HttpSetter)
    } else if name == "companion_setter"@ {
        Some(SettingsAuditSource::CompanionSetter)
    } else if name == "startup_default"@ {
        Some(SettingsAuditSource::StartupDefault)
    } else if name == "schema_migration"@ {
        Some(SettingsAuditSource::SchemaMigration)
    } else if name == "port_drift_discovery"@ {
        Some(SettingsAuditSource::PortDriftDiscovery)
    } else {
        None
    }
}

/// The refusal of a stored source name outside the known set.
pub open spec fn unknown_source_message(name: Seq<char>) -> Seq<char> {
    "unknown source: "@ + name
}

/// Reads the `source` column of an audit row back; an unknown name is
/// refused.
pub fn parse_audit_source(name: &str) -> (r: Result<SettingsAuditSource, RepositoryError>)
    ensures
        audit_source_of(name@) matches Some(s) ==> r == Ok::<
            SettingsAuditSource,
            RepositoryError,
        >(s),
        audit_source_of(name@) is None ==> (r matches Err(RepositoryError::Invalid(m)) && m@
            == unknown_source_message(name@)),
{
    if str_equal(name, "http_setter") {
        Ok(SettingsAuditSource::HttpSetter)
    } else if str_equal(name, "companion_setter") {
        Ok(SettingsAuditSource::CompanionSetter)
    } else if str_equal(name, "startup_default") {
        Ok(SettingsAuditSource::StartupDefault)
    } else if str_equal(name, "schema_migration") {
        Ok(SettingsAuditSource::SchemaMigration)
    } else if str_equal(name, "port_drift_discovery") {
        Ok(SettingsAuditSource::PortDriftDiscovery)
    } else {
        let mut v = chars_of("unknown source: ");
        let tail = chars_of(name);
        extend_chars(&mut v, &tail);
        Err(RepositoryError::Invalid(string_from_chars(&v)))
    }
}

/// A source written to the audit log is read back as the same source.
pub proof fn lemma_audit_source_round_trip(source: SettingsAuditSource)
    ensures
        audit_source_of(audit_source_name(source)) == Some(source),
{
    reveal_strlit("http_setter");
    reveal_strlit("companion_setter");
    reveal_strlit("startup_default");
    reveal_strlit("schema_migration");
    reveal_strlit("port_drift_discovery");
    assert("http_setter"@.len() != "companion_setter"@.len());
    assert("http_setter"@.len() != "startup_default"@.len());
    assert("companion_setter"@.len() != "startup_default"@.len());
    assert("companion_setter"@[0] != "schema_migration"@[0]);
    assert("startup_default"@.len() != "schema_migration"@.len());
    assert("http_setter"@.len() != "schema_migration"@.len());
    assert("port_drift_discovery"@.len() != "http_setter"@.len());
    assert("port_drift_discovery"@.len() != "companion_setter"@.len());
    assert("port_drift_discovery"@.len() != "startup_default"@.len());
    assert("port_drift_discovery"@.len() != "schema_migration"@.len());
}

/// Only a source's own name reads back as that source.
pub proof fn lemma_audit_source_names_exact(name: Seq<char>, source: SettingsAuditSource)
    requires
        audit_source_of(name) == Some(source),
    ensures
        name == audit_source_name(source),
{
}

/// Distinct sources have distinct names: two sources stored under the same
/// name are the same source.
pub proof fn lemma_audit_source_names_distinct(a: SettingsAuditSource, b: SettingsAuditSource)
    ensures
        audit_source_name(a) == audit_source_name(b) ==> a == b,
{
    lemma_audit_source_round_trip(a);
    lemma_audit_source_round_trip(b);
}

} // verus!
