//! The failures that the alias manager reports.
use vstd::prelude::*;

verus! {

/// A failure of one invocation of the alias manager.
#[derive(Debug, Clone, PartialEq, Eq)]
pub enum PintasError {
    /// The configuration file could not be read.
    ConfigNotFound,
    /// The configuration file does not hold a valid alias table.
    ConfigParseError,
    /// The configuration could not be serialized or written back.
    ConfigWriteError,
    /// `add` of a name that is already an alias.
    AliasAlreadyExists(String),
    /// `edit`, `remove` or `run` of a name that is not an alias.
    AliasNotFound(String),
    /// `init` of a shell without an integration snippet.
    UnsupportedShell(String),
    /// The home directory, under which the shims live, is not known.
    HomeUnknown,
    /// The shell that runs an alias could not be started.
    ProcessSpawnError,
    /// The command of an alias finished unsuccessfully; holds its exit code,
    /// or `None` when it was ended by a signal.
    ChildNonZeroExit(Option<i32>),
}

} // verus!
