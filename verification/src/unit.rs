//! The two kinds of migration as one type.

use crate::embed_migrations::EmbeddedMigration;
use crate::file_migration::SqlFileMigration;
use crate::migration::{Migration, SqlSource, Unit};
use crate::path::MigrationDirectory;
use vstd::prelude::*;

verus! {

/// A migration of either kind, so that one list can hold both.
#[derive(Debug)]
pub enum MigrationUnit {
    /// A directory with `up.sql` and `down.sql`.
    Filesystem(SqlFileMigration),
    /// SQL that is part of the program; it cannot be reverted.
    Embedded(EmbeddedMigration),
}

impl Migration for MigrationUnit {
    open spec fn unit(&self) -> Unit {
        match self {
            MigrationUnit::Filesystem(m) => m.unit(),
            MigrationUnit::Embedded(m) => m.unit(),
        }
    }

    fn version(&self) -> (v: &str) {
        match self {
            MigrationUnit::Filesystem(m) => m.version(),
            MigrationUnit::Embedded(m) => m.version(),
        }
    }

    fn run(&self) -> (source: SqlSource) {
        match self {
            MigrationUnit::Filesystem(m) => m.run(),
            MigrationUnit::Embedded(m) => m.run(),
        }
    }

    fn revert(&self) -> (source: SqlSource) {
        match self {
            MigrationUnit::Filesystem(m) => m.revert(),
            MigrationUnit::Embedded(m) => m.revert(),
        }
    }

    fn file_path(&self) -> (p: Option<&MigrationDirectory>) {
        match self {
            MigrationUnit::Filesystem(m) => m.file_path(),
            MigrationUnit::Embedded(m) => m.file_path(),
        }
    }
}

} // verus!
