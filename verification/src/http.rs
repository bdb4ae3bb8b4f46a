//! Decisions backing the HTTP surface: authorization of package
//! downloads, redirect descriptions, conditional-request evaluation, and
//! the download route's outcomes.

pub mod download;
pub mod error;
pub mod headers;
pub mod helpers;
