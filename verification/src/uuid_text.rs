//! UUID text handling, through the `uuid` crate.
use crate::error::RepositoryError;
use vstd::prelude::*;
use vstd::string::StringExecFns;

verus! {

/// The 128-bit value `uuid::Uuid::parse_str` reads from the text `s`, or
/// `None` where it refuses the text.
pub uninterp spec fn parsed_uuid(s: Seq<char>) -> Option<u128>;

/// `uuid::Uuid::parse_str`, taken to its 128-bit value.
#[verifier::external_body]
fn uuid_parse_str(s: &str) -> (r: Option<u128>)
    ensures
        r == parsed_uuid(s@),
{
    uuid::Uuid::parse_str(s).ok().map(|u| u.as_u128())
}

/// Reads a stored id; unparseable text is refused with the text itself.
pub fn parse_uuid(id: &str) -> (r: Result<u128, RepositoryError>)
    ensures
        parsed_uuid(id@) is Some ==> r == Ok::<u128, RepositoryError>(parsed_uuid(id@)->0),
        parsed_uuid(id@) is None ==> (r matches Err(RepositoryError::InvalidUuid(t)) && t@
            == id@),
{
    match uuid_parse_str(id) {
        Some(v) => Ok(v),
        None => Err(RepositoryError::InvalidUuid(String::from_str(id))),
    }
}

/// The hyphenated lower-case text of the version-5 UUID that
/// `uuid::Uuid::new_v5` derives from `namespace` and `name`.
pub uninterp spec fn uuid_v5_text(namespace: u128, name: Seq<u8>) -> Seq<char>;

/// `uuid::Uuid::new_v5(namespace, name).to_string()`.
#[verifier::external_body]
pub(crate) fn uuid_v5_string(namespace: u128, name: &[u8]) -> (r: String)
    ensures
        r@ == uuid_v5_text(namespace, name@),
{
    uuid::Uuid::new_v5(&uuid::Uuid::from_u128(namespace), name).to_string()
}

} // verus!
