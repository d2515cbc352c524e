//! The command-line front end's error, and its conversion to the structured
//! error every command reports.

use vstd::prelude::*;
use crate::error::RotivError;
use crate::text::copy_str;

verus! {

/// An error of a command.
#[derive(Debug)]
pub enum CliError {
    /// A structured error.
    Rotiv(RotivError),
    /// An I/O failure, with the system's message.
    Io(String),
    /// Any other failure.
    Other(String),
}

impl CliError {
    /// The structured error reported for this error: itself, or `E_IO` /
    /// `E_UNKNOWN` with the message.
    pub fn to_rotiv_error(&self) -> (r: RotivError)
        ensures
            match self {
                CliError::Rotiv(e) => r == *e,
                CliError::Io(m) => r.code@ == "E_IO"@ && r.message@ == m@,
                CliError::Other(m) => r.code@ == "E_UNKNOWN"@ && r.message@ == m@,
            },
            !(self is Rotiv) ==> (r.file is None && r.line is None && r.expected is None && r.got is None
                && r.suggestion is None && r.corrected_code is None),
    {
        match self {
            CliError::Rotiv(e) => e.clone(),
            CliError::Io(m) => RotivError::new("E_IO", m.as_str()),
            CliError::Other(m) => RotivError::new("E_UNKNOWN", m.as_str()),
        }
    }

    /// The error's one-line message.
    pub fn message(&self) -> (r: String)
        ensures
            r@ == match self {
                CliError::Rotiv(e) => e.code@ + ": "@ + e.message@,
                CliError::Io(m) => "I/O error: "@ + m@,
                CliError::Other(m) => m@,
            },
    {
        match self {
            CliError::Rotiv(e) => e.display(),
            CliError::Io(m) => {
                let mut s = copy_str("I/O error: ");
                s.append(m.as_str());
                s
            },
            CliError::Other(m) => m.clone(),
        }
    }
}

} // verus!
