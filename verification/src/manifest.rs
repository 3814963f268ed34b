//! The server configuration file (manifest): its plain values, and which
//! paths name one.
use vstd::prelude::*;

use crate::path_ext::{extension, path_extension};
use crate::text::str_eq;

verus! {

/// A log level of the manifest.
#[derive(Debug, Clone, Copy, PartialEq, Eq, Structural)]
pub enum LogLevel {
    /// `error`
    Error,
    /// `warn`
    Warn,
    /// `info`
    Info,
    /// `debug`
    Debug,
    /// `trace`
    Trace,
}

/// A custom HTTP header: its name and value.
#[derive(Debug, Clone, Default)]
pub struct Header {
    /// The header name.
    pub key: String,
    /// The header value.
    pub value: String,
}

/// Whether a path names a TOML file: its file name has the extension
/// `toml`.
pub open spec fn is_toml_path(p: Seq<char>) -> bool {
    path_extension(p) == Some("toml"@)
}

/// Whether a configuration file path has the `toml` extension, which the
/// manifest must have to be read.
pub fn has_toml_extension(path: &str) -> (r: bool)
    ensures
        r == is_toml_path(path@),
{
    match extension(path) {
        Some(e) => str_eq(e.as_str(), "toml"),
        None => false,
    }
}

} // verus!
