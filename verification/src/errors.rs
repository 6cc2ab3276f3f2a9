//! The engine's error taxonomy. Each error carries what the caller needs
//! to report it; `message` renders the human-readable text.

use vstd::prelude::*;
use crate::format::dec_digits;
use crate::format::u64_to_string;
use vstd::string::StringExecFns;

verus! {

/// What can go wrong below the orchestrator.
#[derive(Debug)]
pub enum UffsError {
    /// An unexpected OS error, by raw code, enumerating one directory.
    Io(u32),
    /// A volume was discovered with nothing usable in it.
    EmptyDriveInfo,
    /// A root path whose drive letter cannot be determined.
    DriveLetterNotFound,
    /// Reading a directory's entries failed.
    DirectoryReadError,
    /// A configuration value was rejected, with the reason.
    ConfigError(String),
    /// Any other failure, with a message and a datum.
    CustomError { message: String, data: usize },
}

/// The report text of each error.
pub open spec fn spec_message(e: UffsError) -> Seq<char> {
    match e {
        UffsError::Io(code) => "IO error: os error "@ + dec_digits(code as nat),
        UffsError::EmptyDriveInfo => "Drive information is empty."@,
        UffsError::DriveLetterNotFound => "Drive letter not found."@,
        UffsError::DirectoryReadError => "Failed to read directory entries."@,
        UffsError::ConfigError(reason) => "Configuration error: "@ + reason@,
        UffsError::CustomError { message, data } => "Custom error with data: "@ + message@
            + ", data: "@ + dec_digits(data as nat),
    }
}

impl UffsError {
    /// The human-readable text of this error.
    pub fn message(&self) -> (r: String)
        ensures
            r@ == spec_message(*self),
    {
        match self {
            UffsError::Io(code) => {
                let mut s = String::from_str("IO error: os error ");
                let digits = u64_to_string(*code as u64);
                s.append(digits.as_str());
                s
            },
            UffsError::EmptyDriveInfo => String::from_str("Drive information is empty."),
            UffsError::DriveLetterNotFound => String::from_str("Drive letter not found."),
            UffsError::DirectoryReadError => String::from_str(
                "Failed to read directory entries.",
            ),
            UffsError::ConfigError(reason) => {
                let mut s = String::from_str("Configuration error: ");
                s.append(reason.as_str());
                s
            },
            UffsError::CustomError { message, data } => {
                let mut s = String::from_str("Custom error with data: ");
                s.append(message.as_str());
                s.append(", data: ");
                let digits = u64_to_string(*data as u64);
                s.append(digits.as_str());
                s
            },
        }
    }
}

} // verus!
