//! A package update and distribution server library.
//!
//! The verified core: a version algebra with a total order that treats
//! pre-release suffixes as negative offsets, an access-control ruleset
//! language over versions, password hash classification and verification,
//! package manifest interpretation, inventory scanning decisions, and a
//! persistent download counter's value handling.

pub mod acl;
pub mod auth;
pub mod http;
pub mod package;
pub mod text;
pub mod version;
