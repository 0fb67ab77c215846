//! Connection settings and upload records handed to the repository.
use crate::error::RepositoryError;
use crate::stream::{check_upload_size, size_message};
use vstd::prelude::*;
use vstd::string::StringExecFns;

verus! {

/// Where the database lives.
#[derive(Debug, Clone)]
pub struct DatabaseSettings {
    pub url: String,
}

impl DatabaseSettings {
    /// Settings for the database at `url`.
    pub fn new(url: &str) -> (s: Self)
        ensures
            s.url@ == url@,
    {
        DatabaseSettings { url: String::from_str(url) }
    }
}

/// The metadata of an uploaded image, filled in by the upload handler after
/// hashing and validating the bytes.
#[derive(Debug, Clone)]
pub struct NewStreamAsset {
    pub sha256: String,
    pub original_filename: String,
    pub mime: String,
    pub size_bytes: i64,
    pub width: Option<i32>,
    pub height: Option<i32>,
}

impl NewStreamAsset {
    /// The size as stored: it must fit the 32-bit column.
    pub fn stored_size(&self) -> (r: Result<i32, RepositoryError>)
        ensures
            0 <= self.size_bytes <= i32::MAX ==> r == Ok::<i32, RepositoryError>(self.size_bytes as i32),
            !(0 <= self.size_bytes <= i32::MAX) ==> (r matches Err(RepositoryError::Invalid(m)) && m@
                == size_message("asset"@, self.size_bytes)),
    {
        check_upload_size("asset", self.size_bytes)
    }
}

/// The metadata of an uploaded font face (one family + weight + italic),
/// filled in by the upload handler after hashing and parsing the font.
#[derive(Debug, Clone)]
pub struct NewStreamFont {
    pub sha256: String,
    pub original_filename: String,
    pub family: String,
    pub weight: u16,
    pub italic: bool,
    /// The on-disk container format: `ttf` or `otf`.
    pub format: String,
    pub size_bytes: i64,
}

impl NewStreamFont {
    /// The size as stored: it must fit the 32-bit column.
    pub fn stored_size(&self) -> (r: Result<i32, RepositoryError>)
        ensures
            0 <= self.size_bytes <= i32::MAX ==> r == Ok::<i32, RepositoryError>(self.size_bytes as i32),
            !(0 <= self.size_bytes <= i32::MAX) ==> (r matches Err(RepositoryError::Invalid(m)) && m@
                == size_message("font"@, self.size_bytes)),
    {
        check_upload_size("font", self.size_bytes)
    }
}

} // verus!
