//! Migrations kept as directories, and the walk through the migrations
//! directory that finds them.

use crate::error::{ErrorView, MigrationError};
use crate::migration::{Migration, SourceView, SqlSource, Unit};
use crate::path::{DirectoryView, MigrationDirectory};
use crate::text::{contains_text, hidden, is_hidden};
use crate::version::{version_from_path, version_of_path};
use vstd::prelude::*;
use vstd::string::*;

verus! {

/// A migration kept as a directory that holds `up.sql` and `down.sql`: the
/// directory, then the version.
#[derive(Debug)]
pub struct SqlFileMigration(pub MigrationDirectory, pub String);

impl Migration for SqlFileMigration {
    open spec fn unit(&self) -> Unit {
        Unit {
            version: self.1@,
            file_path: Some(self.0@),
            up: SourceView::File(self.0@.up_sql),
            down: SourceView::File(self.0@.down_sql),
        }
    }

    fn version(&self) -> (v: &str) {
        self.1.as_str()
    }

    fn run(&self) -> (source: SqlSource) {
        SqlSource::File(self.0.up_sql.clone())
    }

    fn revert(&self) -> (source: SqlSource) {
        SqlSource::File(self.0.down_sql.clone())
    }

    fn file_path(&self) -> (p: Option<&MigrationDirectory>) {
        Some(&self.0)
    }
}

/// The names that are not hidden, in the order they came in.
pub open spec fn visible(names: Seq<Seq<char>>) -> Seq<Seq<char>> {
    names.filter(|name: Seq<char>| !hidden(name))
}

/// What a directory holds, hidden entries left out.
pub fn file_names(entries: &Vec<String>) -> (names: Vec<String>)
    ensures
        names.deep_view() == visible(entries.deep_view()),
{
    let mut names: Vec<String> = Vec::new();
    let mut i: usize = 0;
    proof {
        reveal(Seq::filter);
        assert(entries.deep_view().take(0) =~= Seq::empty());
        assert(names.deep_view() =~= Seq::empty());
    }
    while i < entries.len()
        invariant
            i <= entries.len(),
            names.deep_view() == visible(entries.deep_view().take(i as int)),
        decreases entries.len() - i,
    {
        let ghost before = names.deep_view();
        if !is_hidden(entries[i].as_str()) {
            names.push(entries[i].clone());
            assert(names.deep_view() =~= before.push(entries[i as int]@));
        }
        proof {
            reveal(Seq::filter);
            let upto = entries.deep_view().take(i + 1);
            assert(upto.drop_last() =~= entries.deep_view().take(i as int));
            assert(upto.last() == entries[i as int]@);
        }
        i += 1;
    }
    assert(entries.deep_view().take(i as int) =~= entries.deep_view());
    names
}

/// A directory is a migration when it can be listed and holds both SQL
/// files.
pub open spec fn sql_pair(files: Option<Seq<Seq<char>>>) -> bool {
    match files {
        Some(names) => names.contains("up.sql"@) && names.contains("down.sql"@),
        None => false,
    }
}

/// Whether the listing of a directory, `None` where it could not be listed,
/// is that of a migration.
pub fn valid_sql_migration_directory(files: &Option<Vec<String>>) -> (r: bool)
    ensures
        r == sql_pair(files.deep_view()),
{
    match files {
        Some(entries) => {
            let names = file_names(entries);
            proof {
                reveal_strlit("up.sql");
                reveal_strlit("down.sql");
                lemma_visible_contains(entries.deep_view(), "up.sql"@);
                lemma_visible_contains(entries.deep_view(), "down.sql"@);
            }
            contains_text(&names, "down.sql") && contains_text(&names, "up.sql")
        },
        None => false,
    }
}

/// Leaving the hidden names out loses no name that is not hidden.
pub proof fn lemma_visible_contains(names: Seq<Seq<char>>, name: Seq<char>)
    requires
        !hidden(name),
    ensures
        visible(names).contains(name) == names.contains(name),
{
    let keep = |n: Seq<char>| !hidden(n);
    if names.contains(name) {
        let i = choose|i: int| 0 <= i < names.len() && names[i] == name;
        names.lemma_filter_contains(keep, i);
    }
    if visible(names).contains(name) {
        names.lemma_filter_contains_rev(keep, name);
    }
}

/// The directory `path`, with the listing `files`, is a migration when it
/// holds both SQL files and its name carries a version.
pub open spec fn well_formed(path: DirectoryView, files: Option<Seq<Seq<char>>>) -> bool {
    sql_pair(files) && version_of_path(path).len() > 0
}

/// The migration in the directory `path`, whose listing is `files`. What
/// the SQL files hold plays no part.
pub fn migration_from(path: MigrationDirectory, files: &Option<Vec<String>>) -> (r: Result<
    SqlFileMigration,
    MigrationError,
>)
    ensures
        match r {
            Ok(m) => well_formed(path@, files.deep_view()) && m.0@ == path@ && m.1@
                == version_of_path(path@),
            Err(e) => !well_formed(path@, files.deep_view()) && e@
                == ErrorView::UnknownMigrationFormat(path@.path),
        },
{
    if valid_sql_migration_directory(files) {
        match version_from_path(&path) {
            Ok(version) => Ok(SqlFileMigration(path, version)),
            Err(e) => Err(e),
        }
    } else {
        Err(MigrationError::UnknownMigrationFormat(path.path))
    }
}

/// One entry of the migrations directory: its name, the entry as a
/// directory and, where it could be listed, the names found in it.
#[derive(Debug)]
pub struct DirectoryEntry {
    pub name: String,
    pub directory: MigrationDirectory,
    pub files: Option<Vec<String>>,
}

/// A directory entry as the contracts see it.
pub struct EntryView {
    pub name: Seq<char>,
    pub directory: DirectoryView,
    pub files: Option<Seq<Seq<char>>>,
}

impl DeepView for DirectoryEntry {
    type V = EntryView;

    open spec fn deep_view(&self) -> EntryView {
        EntryView { name: self.name@, directory: self.directory@, files: self.files.deep_view() }
    }
}

/// The entries that are not hidden, in their order.
pub open spec fn visible_entries(entries: Seq<EntryView>) -> Seq<EntryView> {
    entries.filter(|e: EntryView| !hidden(e.name))
}

/// The paths of the entries that are not hidden, in the order of the
/// entries.
pub open spec fn entry_paths(entries: Seq<EntryView>) -> Seq<Seq<char>> {
    visible_entries(entries).map_values(|e: EntryView| e.directory.path)
}

/// An entry that is not hidden and yet is no migration.
pub open spec fn malformed(entry: EntryView) -> bool {
    !hidden(entry.name) && !well_formed(entry.directory, entry.files)
}

/// The entry at `k` is malformed and none before it is.
pub open spec fn first_malformed(entries: Seq<EntryView>, k: int) -> bool {
    &&& 0 <= k < entries.len()
    &&& malformed(entries[k])
    &&& forall|j: int| 0 <= j < k ==> !malformed(#[trigger] entries[j])
}

proof fn lemma_visible_entries_step(entries: Seq<EntryView>, i: int)
    requires
        0 <= i < entries.len(),
    ensures
        visible_entries(entries.take(i + 1)) == if hidden(entries[i].name) {
            visible_entries(entries.take(i))
        } else {
            visible_entries(entries.take(i)).push(entries[i])
        },
        entry_paths(entries.take(i + 1)) == if hidden(entries[i].name) {
            entry_paths(entries.take(i))
        } else {
            entry_paths(entries.take(i)).push(entries[i].directory.path)
        },
{
    reveal(Seq::filter);
    let upto = entries.take(i + 1);
    assert(upto.drop_last() =~= entries.take(i));
    assert(upto.last() == entries[i]);
    let path_of = |e: EntryView| e.directory.path;
    if !hidden(entries[i].name) {
        assert(visible_entries(upto).map_values(path_of) =~= visible_entries(
            entries.take(i),
        ).map_values(path_of).push(entries[i].directory.path));
    }
}

/// The paths of the entries of the migrations directory that may be
/// migrations: all but the hidden ones.
pub fn migration_paths_in_directory(entries: &Vec<DirectoryEntry>) -> (paths: Vec<String>)
    ensures
        paths.deep_view() == entry_paths(entries.deep_view()),
{
    let mut paths: Vec<String> = Vec::new();
    let mut i: usize = 0;
    proof {
        reveal(Seq::filter);
        assert(entries.deep_view().take(0) =~= Seq::empty());
        assert(paths.deep_view() =~= entry_paths(entries.deep_view().take(0)));
    }
    while i < entries.len()
        invariant
            i <= entries.len(),
            paths.deep_view() == entry_paths(entries.deep_view().take(i as int)),
        decreases entries.len() - i,
    {
        let ghost before = paths.deep_view();
        proof {
            lemma_visible_entries_step(entries.deep_view(), i as int);
        }
        if !is_hidden(entries[i].name.as_str()) {
            paths.push(entries[i].directory.path.clone());
            assert(paths.deep_view() =~= before.push(entries[i as int].directory.path@));
        }
        i += 1;
    }
    assert(entries.deep_view().take(i as int) =~= entries.deep_view());
    paths
}

/// The migrations as the contracts see them: each with its directory and
/// its version.
pub open spec fn found_in(found: Seq<SqlFileMigration>) -> Seq<(DirectoryView, Seq<char>)> {
    found.map_values(|m: SqlFileMigration| (m.0@, m.1@))
}

/// The migrations of the migrations directory, one for each entry that is
/// not hidden and in their order. The first such entry that is no migration
/// ends the walk with its path as the error.
pub fn migrations_in_directory(entries: Vec<DirectoryEntry>) -> (r: Result<
    Vec<SqlFileMigration>,
    MigrationError,
>)
    ensures
        match r {
            Ok(found) => {
                &&& forall|k: int|
                    0 <= k < entries.len() ==> !malformed(#[trigger] entries.deep_view()[k])
                &&& found_in(found@) == visible_entries(entries.deep_view()).map_values(
                    |e: EntryView| (e.directory, version_of_path(e.directory)),
                )
            },
            Err(e) => exists|k: int|
                {
                    &&& first_malformed(entries.deep_view(), k)
                    &&& e@ == ErrorView::UnknownMigrationFormat(
                        entries.deep_view()[k].directory.path,
                    )
                },
        },
{
    let ghost all = entries.deep_view();
    let ghost pair_of = |e: EntryView| (e.directory, version_of_path(e.directory));
    let mut found: Vec<SqlFileMigration> = Vec::new();
    proof {
        reveal(Seq::filter);
        assert(all.take(0) =~= Seq::empty());
        assert(found_in(found@) =~= visible_entries(all.take(0)).map_values(pair_of));
    }
    for entry in it: entries
        invariant
            all == entries.deep_view(),
            it.seq() == entries@,
            pair_of == |e: EntryView| (e.directory, version_of_path(e.directory)),
            forall|k: int| 0 <= k < it.index() ==> !malformed(#[trigger] all[k]),
            found_in(found@) == visible_entries(all.take(it.index() as int)).map_values(pair_of),
    {
        let ghost i = it.index() as int;
        let ghost before = found_in(found@);
        proof {
            lemma_visible_entries_step(all, i);
            assert(all[i] == entry.deep_view());
        }
        if !is_hidden(entry.name.as_str()) {
            let DirectoryEntry { name: _, directory, files } = entry;
            match migration_from(directory, &files) {
                Ok(migration) => {
                    found.push(migration);
                    proof {
                        assert(found_in(found@) =~= before.push((migration.0@, migration.1@)));
                        assert(visible_entries(all.take(i + 1)).map_values(pair_of)
                            =~= visible_entries(all.take(i)).map_values(pair_of).push(
                            pair_of(all[i]),
                        ));
                    }
                },
                Err(e) => {
                    assert(first_malformed(all, i));
                    return Err(e);
                },
            }
        }
    }
    assert(all.take(entries@.len() as int) =~= all);
    Ok(found)
}

} // verus!
