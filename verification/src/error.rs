//! Errors raised before control is handed to the Windows RDP component.
use vstd::prelude::*;

verus! {

#[derive(Debug)]
pub enum Error {
    /// The `.rdp` file could not be read; `message` describes the I/O error.
    ReadRdp { path: String, message: String },
    /// The file is neither UTF-8 nor UTF-16 text.
    InvalidRdpEncoding,
    /// A `--set` value that is not `name:type:value`.
    InvalidRdpAssignment(String),
    /// An integer property whose value is not a 32-bit integer.
    InvalidRdpInteger { key: String, value: String },
    /// The command line was rejected.
    CommandLine(String),
    /// The password environment variable holds non-Unicode data.
    NonUnicodePasswordEnvironment(String),
    /// A Windows API call failed while doing `context`; `code` is its HRESULT.
    Windows { context: String, code: i32, message: String },
}

pub type Result<T> = core::result::Result<T, Error>;

} // verus!
