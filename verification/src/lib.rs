//! Versioned SQL migrations for PostgreSQL: which of them are pending, in
//! which order they are applied, and what a run or a revert does step by
//! step.
//!
//! The crate does no input or output of its own, and it reads no path: the
//! caller hands over what the platform says of each directory (see
//! [`MigrationDirectory`]). A run is a [`Session`]: it names the next
//! [`Action`], the caller carries it out against the database, the file
//! system or the output, and hands back an [`Event`]. The modules `tracking`
//! and `outcomes` say, and prove, what that leaves in the tracking table
//! whatever the answers are.

pub mod directory;
pub mod embed_migrations;
pub mod error;
pub mod file_migration;
pub mod migration;
pub mod outcomes;
pub mod path;
pub mod pending;
pub mod runner;
pub mod session;
pub mod text;
pub mod tracking;
pub mod unit;
pub mod version;

pub use directory::{resolve_migrations_directory, search_for_migrations_directory};
pub use embed_migrations::{
    migration_literal_from_path, migration_literals_from_path, EmbeddedMigration, EmbeddedSource,
};
pub use error::MigrationError;
pub use file_migration::{
    file_names, migration_from, migration_paths_in_directory, migrations_in_directory,
    valid_sql_migration_directory, DirectoryEntry, SqlFileMigration,
};
pub use migration::{
    file_name, name, Direction, Migration, MigrationFileName, MigrationName, SqlSource,
};
pub use path::{Candidate, MigrationDirectory};
pub use pending::pending_migrations;
pub use runner::{
    begin_migration, revert_migration, run_migration, step_migration, Action, Event, Phase,
    UnitStep,
};
pub use session::{revert_last_migration, run_migrations, Session, SessionStep};
pub use unit::MigrationUnit;
pub use version::{version_from_name, version_from_path};
