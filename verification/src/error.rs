//! The failures of the engine's decision logic.
//!
//! Process-level failures (a tool that could not be spawned or exited with an
//! error) belong to the embedding program that runs the plans; the variants
//! here are the conditions the engine itself decides.

use vstd::prelude::*;
use crate::version::Version;

verus! {

/// Why an operation was refused. Each variant carries the offending value so
/// that a caller can report it.
#[derive(Debug)]
pub enum EngineError {
    /// The application version text is not a semantic version.
    InvalidAppVersion { input: String },
    /// The connection parameters hold no `user` entry.
    MissingUser,
    /// The persisted version marker exists but its text is not a version.
    CorruptVersionMarker { output: String },
    /// The probe for the marker returned neither `t` nor `f`.
    UnexpectedExistsOutput { output: String },
    /// The persisted version exceeds the target version: a downgrade.
    Downgrade { current: Version, target: Version },
    /// The migration path exists but is not a directory.
    NotADirectory,
    /// A migration file's name (extension stripped) is not a version.
    InvalidMigrationName { file_name: String },
    /// Two migration files to be applied share one version.
    DuplicateVersion { file_name: String },
}

} // verus!
