//! The errors of the library.
use vstd::prelude::*;
use vstd::string::StringExecFns;

verus! {

/// What can go wrong while managing a Ward drive. Paths are held as text.
#[derive(Debug, Clone, PartialEq, Eq)]
pub enum WardError {
    /// The manifest at `path` is missing, unreadable or malformed.
    Manifest { path: String, message: String },
    /// The drive's UUID is not on the allow list.
    UnauthorizedDrive { uuid: String },
    /// A filesystem operation failed; the text is the system's message.
    Filesystem(String),
    /// The configuration could not be read or written.
    Config(String),
    /// gpg-agent could not be started.
    GpgAgent(String),
    /// The GPG home link could not be made.
    Symlink(String),
    /// The drive monitor failed.
    DriveMonitor(String),
    /// The keys directory does not match the manifest's checksum.
    IntegrityCheck { path: String, expected: String, actual: String },
}

pub type WardResult<T> = Result<T, WardError>;

/// The human-readable message of an error.
pub open spec fn error_text(e: WardError) -> Seq<char> {
    match e {
        WardError::Manifest { path, message } => "manifest error at "@ + path@ + ": "@ + message@,
        WardError::UnauthorizedDrive { uuid } => "drive with UUID "@ + uuid@ + " is not authorized"@,
        WardError::Filesystem(m) => "filesystem error: "@ + m@,
        WardError::Config(m) => "configuration error: "@ + m@,
        WardError::GpgAgent(m) => "gpg-agent error: "@ + m@,
        WardError::Symlink(m) => "symlink error: "@ + m@,
        WardError::DriveMonitor(m) => "drive monitor error: "@ + m@,
        WardError::IntegrityCheck { path, expected, actual } => "integrity check failed for "@
            + path@ + ": expected "@ + expected@ + ", got "@ + actual@,
    }
}

fn prefixed(prefix: &str, rest: &String) -> (res: String)
    ensures
        res@ == prefix@ + rest@,
{
    let mut s = String::from_str(prefix);
    s.append(rest.as_str());
    s
}

impl WardError {
    /// The error's message.
    pub fn to_string(&self) -> (res: String)
        ensures
            res@ == error_text(*self),
    {
        match self {
            WardError::Manifest { path, message } => {
                let mut s = prefixed("manifest error at ", path);
                s.append(": ");
                s.append(message.as_str());
                s
            },
            WardError::UnauthorizedDrive { uuid } => {
                let mut s = prefixed("drive with UUID ", uuid);
                s.append(" is not authorized");
                s
            },
            WardError::Filesystem(m) => prefixed("filesystem error: ", m),
            WardError::Config(m) => prefixed("configuration error: ", m),
            WardError::GpgAgent(m) => prefixed("gpg-agent error: ", m),
            WardError::Symlink(m) => prefixed("symlink error: ", m),
            WardError::DriveMonitor(m) => prefixed("drive monitor error: ", m),
            WardError::IntegrityCheck { path, expected, actual } => {
                let mut s = prefixed("integrity check failed for ", path);
                s.append(": expected ");
                s.append(expected.as_str());
                s.append(", got ");
                s.append(actual.as_str());
                s
            },
        }
    }
}

} // verus!
