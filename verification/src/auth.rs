//! Access control: stored password hashes and their verification, package
//! name patterns, permission maps, and the authorization data loaded from
//! configuration.

pub mod json;
pub mod password;
pub mod types;
