//! Codecs of the fields whose wire form differs from their value.
pub mod serde_date_captured;
pub mod serde_date_created;
pub mod serde_iscrowd;
pub mod serde_url;
