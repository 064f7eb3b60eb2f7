//! What can go wrong around the store and the log reader, and how each
//! failure is worded for the caller.

use vstd::prelude::*;
use vstd::string::*;

verus! {

/// The two kinds of failure that callers tell apart.
#[derive(Clone, Copy, Debug, PartialEq, Eq, Structural)]
pub enum FailureKind {
    /// The host did not supply a usable per-user directory.
    PathResolution,
    /// A directory or a file could not be created, read or written, for a
    /// reason other than its absence.
    Io,
}

/// The operation that failed.
#[derive(Clone, Copy, Debug, PartialEq, Eq, Structural)]
pub enum Failure {
    ResolveConfigDir,
    CreateConfigDir,
    WriteDefaultConfig,
    ReadConfig,
    WriteConfig,
    OpenLog,
}

/// The words that open the message of a failure; the cause follows them.
pub open spec fn failure_prefix(failure: Failure) -> Seq<char> {
    match failure {
        Failure::ResolveConfigDir => "Failed to get app config directory: "@,
        Failure::CreateConfigDir => "Failed to create config directory: "@,
        Failure::WriteDefaultConfig => "Failed to write default config: "@,
        Failure::ReadConfig => "Failed to read app config: "@,
        Failure::WriteConfig => "Failed to write app config: "@,
        Failure::OpenLog => "Failed to open log file: "@,
    }
}

impl Failure {
    /// Only a directory that the host could not name is a path failure; all
    /// the others come from the file system.
    pub open spec fn spec_kind(self) -> FailureKind {
        match self {
            Failure::ResolveConfigDir => FailureKind::PathResolution,
            _ => FailureKind::Io,
        }
    }

    /// The kind of this failure.
    #[verifier::when_used_as_spec(spec_kind)]
    pub fn kind(self) -> (kind: FailureKind)
        ensures
            kind == self.spec_kind(),
    {
        match self {
            Failure::ResolveConfigDir => FailureKind::PathResolution,
            _ => FailureKind::Io,
        }
    }
}

/// The message handed to the caller: what failed, then the cause as the
/// system worded it.
pub fn failure_message(failure: Failure, cause: &str) -> (message: String)
    ensures
        message@ == failure_prefix(failure) + cause@,
{
    let prefix: &str = match failure {
        Failure::ResolveConfigDir => "Failed to get app config directory: ",
        Failure::CreateConfigDir => "Failed to create config directory: ",
        Failure::WriteDefaultConfig => "Failed to write default config: ",
        Failure::ReadConfig => "Failed to read app config: ",
        Failure::WriteConfig => "Failed to write app config: ",
        Failure::OpenLog => "Failed to open log file: ",
    };
    let mut message = String::from_str(prefix);
    message.append(cause);
    message
}

} // verus!
