//! Failures of loading and applying migrations.
use vstd::prelude::*;

use crate::codec::Direction;

verus! {

/// Why loading, creating or applying migrations failed.
#[derive(Debug, Clone)]
pub enum MigrationError {
    /// The text is not a migration filename.
    InvalidFilename(String),
    /// The given position in the ascending list of numbers holds no migration.
    MissingMigration(usize),
    /// The migration with this number lacks its up or its down file.
    IncompleteMigrationPair(u16),
    /// The up and down files of this migration carry different names.
    NameMismatch(u16, String, String),
    /// The migrations directory could not be listed.
    DirectoryReadFailure(String),
    /// A migration file could not be read.
    FileReadFailure(String),
    /// A migration file could not be created.
    FileCreateFailure(String),
    /// Running the script of this migration in this direction failed.
    MigrationExecutionFailure(u16, Direction, String),
    /// The version register could not be read or holds a value out of range.
    VersionStoreFailure(String),
}

} // verus!
