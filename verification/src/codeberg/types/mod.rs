//! The Codeberg API records that the crawler reads.
pub mod releases_types;
pub mod types;
