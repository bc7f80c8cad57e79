//! The library's error type.

use vstd::prelude::*;

use crate::text::{concat2, owned};

verus! {

/// Errors reported by dloor. Failures of I/O and of the file formats are
/// carried as the message that the frontend received.
#[derive(Debug, Clone)]
pub enum Error {
    UnsupportedUrl(String),
    ConfigDirUnavailable,
    Io(String),
    TomlDecode(String),
    TomlEncode(String),
    Json(String),
    MissingTool(String),
    ProcessFailed(String),
    Cancelled,
    MissingOutputFile,
    InvalidPath(String),
}

pub type Result<T> = core::result::Result<T, Error>;

impl Error {
    pub open spec fn message_text(&self) -> Seq<char> {
        match self {
            Error::UnsupportedUrl(u) => "unsupported URL: "@ + u@,
            Error::ConfigDirUnavailable => "configuration directory is unavailable on this OS"@,
            Error::Io(m) => "I/O error: "@ + m@,
            Error::TomlDecode(m) => "TOML decode error: "@ + m@,
            Error::TomlEncode(m) => "TOML encode error: "@ + m@,
            Error::Json(m) => "JSON error: "@ + m@,
            Error::MissingTool(t) => "missing required tool: "@ + t@,
            Error::ProcessFailed(m) => "process failed: "@ + m@,
            Error::Cancelled => "download cancelled"@,
            Error::MissingOutputFile => "download produced no output file"@,
            Error::InvalidPath(p) => "invalid path: "@ + p@,
        }
    }

    /// The message shown for the error.
    pub fn to_string(&self) -> (r: String)
        ensures
            r@ == self.message_text(),
    {
        match self {
            Error::UnsupportedUrl(u) => concat2("unsupported URL: ", u.as_str()),
            Error::ConfigDirUnavailable => owned("configuration directory is unavailable on this OS"),
            Error::Io(m) => concat2("I/O error: ", m.as_str()),
            Error::TomlDecode(m) => concat2("TOML decode error: ", m.as_str()),
            Error::TomlEncode(m) => concat2("TOML encode error: ", m.as_str()),
            Error::Json(m) => concat2("JSON error: ", m.as_str()),
            Error::MissingTool(t) => concat2("missing required tool: ", t.as_str()),
            Error::ProcessFailed(m) => concat2("process failed: ", m.as_str()),
            Error::Cancelled => owned("download cancelled"),
            Error::MissingOutputFile => owned("download produced no output file"),
            Error::InvalidPath(p) => concat2("invalid path: ", p.as_str()),
        }
    }
}

} // verus!
