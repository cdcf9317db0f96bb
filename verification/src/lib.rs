//! Authentication and ownership-scoped content storage.
//!
//! The crate registers users with salted password hashes, issues and checks
//! expiring signed session tokens carried in a cookie, and stores content
//! records that only their owner may read or delete, each addressable through
//! an opaque sixteen-character share link.

pub mod content;
pub mod db;
pub mod jwt;
pub mod user;
pub mod utils;
