//! The package side: manifest interpretation, inventory scanning
//! decisions, the filesystem watcher's trigger rules, and the download
//! counter's value handling.

pub mod counter;
pub mod list;
pub mod watcher;
pub mod xml;
pub mod xml_reader;
