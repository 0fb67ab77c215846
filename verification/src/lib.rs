//! Verified decision logic of the Presenter persistence and NDI layers.
pub mod audit;
pub mod bible_import;
pub mod convert;
pub mod device_rows;
pub mod error;
pub mod fts;
pub mod group_color;
pub mod library_tree;
pub mod presentation_copy;
pub mod search;
pub mod search_filter;
pub mod settings;
pub mod snippet;
pub mod stream;
pub mod sync;
pub mod sync_ids;
pub mod text;
pub mod tiers;
pub mod trash_carry;
pub mod uuid_text;
pub mod whep;

pub use audit::SettingsAuditSource;
pub use error::RepositoryError;
pub use settings::{DatabaseSettings, NewStreamAsset, NewStreamFont};
pub use sync::{sync_should_apply, SyncApplyOutcome};
