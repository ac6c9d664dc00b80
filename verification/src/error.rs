//! The errors of discovery, of a run and of a revert.

use vstd::prelude::*;

verus! {

/// The database driver's error. Only carried through, never inspected.
#[verifier::external_type_specification]
#[verifier::external_body]
pub struct ExPostgresError(tokio_postgres::Error);

/// The connection pool's error. Only carried through, never inspected.
#[verifier::external_type_specification]
#[verifier::external_body]
#[verifier::reject_recursive_types(E)]
pub struct ExRunError<E>(bb8_postgres::bb8::RunError<E>);

/// An input/output error of the standard library. Only carried through.
#[verifier::external_type_specification]
#[verifier::external_body]
pub struct ExIoError(std::io::Error);

/// Everything that can go wrong while discovering, applying or reverting
/// migrations.
#[derive(Debug)]
pub enum MigrationError {
    /// No `migrations` directory in the start directory (the payload) or in
    /// any directory above it.
    MigrationDirectoryNotFound(String),
    /// The entry at this path is no migration directory: its name yields no
    /// version, or it lacks one of the two SQL files.
    UnknownMigrationFormat(String),
    /// The latest applied version matches none of the discovered migrations.
    UnknownMigrationVersion(String),
    /// There is nothing to revert: the tracking table is empty.
    NoMigrationRun,
    /// The SQL text that was about to be executed is empty.
    EmptyMigration,
    /// The migration of this version cannot be taken in the direction that
    /// was asked for: an embedded migration cannot be reverted.
    Unsupported(String),
    /// A file could not be read or the output sink could not be written.
    IoError(std::io::Error),
    /// The database rejected a statement.
    Postgres(tokio_postgres::Error),
    /// No connection could be had from the pool.
    Bb8(bb8_postgres::bb8::RunError<tokio_postgres::Error>),
}

/// What an error is to the contracts: its kind, with each text by its
/// characters. The three outside errors stand for themselves.
pub enum ErrorView {
    MigrationDirectoryNotFound(Seq<char>),
    UnknownMigrationFormat(Seq<char>),
    UnknownMigrationVersion(Seq<char>),
    NoMigrationRun,
    EmptyMigration,
    Unsupported(Seq<char>),
    IoError(std::io::Error),
    Postgres(tokio_postgres::Error),
    Bb8(bb8_postgres::bb8::RunError<tokio_postgres::Error>),
}

impl View for MigrationError {
    type V = ErrorView;

    open spec fn view(&self) -> ErrorView {
        match self {
            MigrationError::MigrationDirectoryNotFound(p) => ErrorView::MigrationDirectoryNotFound(
                p@,
            ),
            MigrationError::UnknownMigrationFormat(p) => ErrorView::UnknownMigrationFormat(p@),
            MigrationError::UnknownMigrationVersion(v) => ErrorView::UnknownMigrationVersion(v@),
            MigrationError::NoMigrationRun => ErrorView::NoMigrationRun,
            MigrationError::EmptyMigration => ErrorView::EmptyMigration,
            MigrationError::Unsupported(v) => ErrorView::Unsupported(v@),
            MigrationError::IoError(e) => ErrorView::IoError(*e),
            MigrationError::Postgres(e) => ErrorView::Postgres(*e),
            MigrationError::Bb8(e) => ErrorView::Bb8(*e),
        }
    }
}

/// How a run or a revert ended, as the contracts see it.
pub open spec fn outcome_view(outcome: Result<(), MigrationError>) -> Result<(), ErrorView> {
    match outcome {
        Ok(_) => Ok(()),
        Err(e) => Err(e@),
    }
}

} // verus!
