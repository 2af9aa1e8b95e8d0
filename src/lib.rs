//! Audit of the licenses of a Swift package workspace's pinned dependencies
//! against an allowlist of license names.
pub mod license;
pub mod report;
pub mod url;
pub mod version;
