//! Directories as the caller found them.
//!
//! The library reads no path itself. What the last name of a path is, and
//! where an entry of a directory lies, is for the platform to say: the
//! caller asks it and hands over what it said.

use vstd::prelude::*;

verus! {

/// A directory that may hold a migration.
#[derive(Debug)]
pub struct MigrationDirectory {
    /// The path of the directory.
    pub path: String,
    /// The last name of the path, where it has one. A path that ends in
    /// `..`, a root and the empty path have none.
    pub name: Option<String>,
    /// The path of the entry `up.sql` of the directory.
    pub up_sql: String,
    /// The path of the entry `down.sql` of the directory.
    pub down_sql: String,
}

/// A directory as the contracts see it.
pub struct DirectoryView {
    pub path: Seq<char>,
    pub name: Option<Seq<char>>,
    pub up_sql: Seq<char>,
    pub down_sql: Seq<char>,
}

impl View for MigrationDirectory {
    type V = DirectoryView;

    open spec fn view(&self) -> DirectoryView {
        DirectoryView {
            path: self.path@,
            name: self.name.deep_view(),
            up_sql: self.up_sql@,
            down_sql: self.down_sql@,
        }
    }
}

impl DeepView for MigrationDirectory {
    type V = DirectoryView;

    open spec fn deep_view(&self) -> DirectoryView {
        self@
    }
}

/// One directory on the way up from where a search starts: the path of its
/// entry `migrations`, and whether that entry is a directory.
#[derive(Debug)]
pub struct Candidate {
    pub path: String,
    pub is_dir: bool,
}

/// A candidate as the contracts see it.
pub struct CandidateView {
    pub path: Seq<char>,
    pub is_dir: bool,
}

impl DeepView for Candidate {
    type V = CandidateView;

    open spec fn deep_view(&self) -> CandidateView {
        CandidateView { path: self.path@, is_dir: self.is_dir }
    }
}

} // verus!
