//! What a migration is, and how it is named in messages.

use crate::path::{DirectoryView, MigrationDirectory};
use vstd::prelude::*;
use vstd::string::*;

verus! {

/// Where the SQL of one direction of a migration comes from.
#[derive(Debug)]
pub enum SqlSource {
    /// The text is in the file at this path and is read when it is needed.
    File(String),
    /// The text itself.
    Text(String),
    /// The migration cannot be taken in this direction.
    Unsupported,
}

/// A source of SQL as the contracts see it.
pub enum SourceView {
    File(Seq<char>),
    Text(Seq<char>),
    Unsupported,
}

impl View for SqlSource {
    type V = SourceView;

    open spec fn view(&self) -> SourceView {
        match self {
            SqlSource::File(p) => SourceView::File(p@),
            SqlSource::Text(t) => SourceView::Text(t@),
            SqlSource::Unsupported => SourceView::Unsupported,
        }
    }
}

/// Whether a migration is applied or reverted.
#[derive(Clone, Copy, Debug, PartialEq, Eq, Structural)]
pub enum Direction {
    Up,
    Down,
}

/// A migration as the contracts see it: its version, the directory it is
/// kept in, if it has one, and where its two SQL texts come from.
pub struct Unit {
    pub version: Seq<char>,
    pub file_path: Option<DirectoryView>,
    pub up: SourceView,
    pub down: SourceView,
}

/// One schema change.
pub trait Migration {
    /// What this migration is.
    spec fn unit(&self) -> Unit;

    /// The version, by which migrations are ordered and told apart.
    fn version(&self) -> (v: &str)
        ensures
            v@ == self.unit().version,
    ;

    /// What applying this migration executes.
    fn run(&self) -> (source: SqlSource)
        ensures
            source@ == self.unit().up,
    ;

    /// What reverting this migration executes.
    fn revert(&self) -> (source: SqlSource)
        ensures
            source@ == self.unit().down,
    ;

    /// The directory of the migration, for messages.
    fn file_path(&self) -> (p: Option<&MigrationDirectory>)
        ensures
            match p {
                Some(path) => self.unit().file_path == Some(path@),
                None => self.unit().file_path is None,
            },
    ;
}

/// The name of the SQL file of a direction.
pub open spec fn sql_file(direction: Direction) -> Seq<char> {
    match direction {
        Direction::Up => "up.sql"@,
        Direction::Down => "down.sql"@,
    }
}

/// The name a migration is announced under: the last name of its
/// directory, or its version where it has no directory or the directory's
/// path has no last name.
pub open spec fn display_name(unit: Unit) -> Seq<char> {
    match unit.file_path {
        Some(DirectoryView { name: Some(name), .. }) => name,
        _ => unit.version,
    }
}

/// The name the SQL file of a direction is reported under: the path of the
/// file inside the migration's directory or, where it has no directory, the
/// version, a `/` and the name of the file.
pub open spec fn display_file_name(unit: Unit, direction: Direction) -> Seq<char> {
    match unit.file_path {
        Some(directory) => match direction {
            Direction::Up => directory.up_sql,
            Direction::Down => directory.down_sql,
        },
        None => unit.version + seq!['/'] + sql_file(direction),
    }
}

/// A migration, to be shown by its name.
pub struct MigrationName<'a, M: Migration> {
    pub migration: &'a M,
}

/// The migration, to be shown by its name.
pub fn name<'a, M: Migration>(migration: &'a M) -> (n: MigrationName<'a, M>)
    ensures
        n.migration == migration,
{
    MigrationName { migration }
}

impl<'a, M: Migration> MigrationName<'a, M> {
    /// The text that is shown.
    pub fn to_text(&self) -> (text: String)
        ensures
            text@ == display_name(self.migration.unit()),
    {
        match self.migration.file_path() {
            Some(directory) => match &directory.name {
                Some(last) => last.clone(),
                None => String::from_str(self.migration.version()),
            },
            None => String::from_str(self.migration.version()),
        }
    }
}

/// One SQL file of a migration, to be shown by its path.
pub struct MigrationFileName<'a, M: Migration> {
    pub migration: &'a M,
    pub direction: Direction,
}

/// The SQL file of the migration for the direction, to be shown by its path.
pub fn file_name<'a, M: Migration>(migration: &'a M, direction: Direction) -> (n:
    MigrationFileName<'a, M>)
    ensures
        n.migration == migration,
        n.direction == direction,
{
    MigrationFileName { migration, direction }
}

impl<'a, M: Migration> MigrationFileName<'a, M> {
    /// The text that is shown.
    pub fn to_text(&self) -> (text: String)
        ensures
            text@ == display_file_name(self.migration.unit(), self.direction),
    {
        match self.migration.file_path() {
            Some(directory) => match self.direction {
                Direction::Up => directory.up_sql.clone(),
                Direction::Down => directory.down_sql.clone(),
            },
            None => {
                proof {
                    reveal_strlit("/");
                }
                let mut text = String::from_str(self.migration.version());
                text.append("/");
                match self.direction {
                    Direction::Up => text.append("up.sql"),
                    Direction::Down => text.append("down.sql"),
                }
                assert("/"@ =~= seq!['/']);
                text
            },
        }
    }
}

} // verus!
