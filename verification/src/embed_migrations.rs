//! Migrations whose SQL is part of the program, and the snapshot of a
//! directory that they are made from.

use crate::error::{ErrorView, MigrationError};
use crate::migration::{Migration, SourceView, SqlSource, Unit};
use crate::path::{DirectoryView, MigrationDirectory};
use crate::pending::{lemma_nothing_applied, pending_migrations, sort_by_version, units_of};
use crate::text::{hidden, is_hidden};
use crate::version::{version_from_path, version_of_path};
use vstd::prelude::*;

verus! {

/// A migration whose SQL is part of the program. It holds no SQL to revert
/// it with, so it cannot be reverted.
#[derive(Debug)]
pub struct EmbeddedMigration {
    pub version: String,
    pub up_sql: String,
}

/// The unit that an embedded migration is.
pub open spec fn embedded_unit(version: Seq<char>, up_sql: Seq<char>) -> Unit {
    Unit {
        version,
        file_path: None,
        up: SourceView::Text(up_sql),
        down: SourceView::Unsupported,
    }
}

impl Migration for EmbeddedMigration {
    open spec fn unit(&self) -> Unit {
        embedded_unit(self.version@, self.up_sql@)
    }

    fn version(&self) -> (v: &str) {
        self.version.as_str()
    }

    fn run(&self) -> (source: SqlSource) {
        SqlSource::Text(self.up_sql.clone())
    }

    fn revert(&self) -> (source: SqlSource) {
        SqlSource::Unsupported
    }

    fn file_path(&self) -> (p: Option<&MigrationDirectory>) {
        None
    }
}

/// One entry of the migrations directory as it is embedded: its name, the
/// entry as a directory, and the text of its `up.sql`.
#[derive(Debug)]
pub struct EmbeddedSource {
    pub name: String,
    pub directory: MigrationDirectory,
    pub up_sql: String,
}

/// An embedded entry as the contracts see it.
pub struct EmbeddedSourceView {
    pub name: Seq<char>,
    pub directory: DirectoryView,
    pub up_sql: Seq<char>,
}

impl DeepView for EmbeddedSource {
    type V = EmbeddedSourceView;

    open spec fn deep_view(&self) -> EmbeddedSourceView {
        EmbeddedSourceView { name: self.name@, directory: self.directory@, up_sql: self.up_sql@ }
    }
}

/// The units of the entries that are not hidden, in the order of the
/// entries.
pub open spec fn snapshot(entries: Seq<EmbeddedSourceView>) -> Seq<Unit> {
    entries.filter(|e: EmbeddedSourceView| !hidden(e.name)).map_values(
        |e: EmbeddedSourceView| embedded_unit(version_of_path(e.directory), e.up_sql),
    )
}

/// An entry that is not hidden and whose name carries no version.
pub open spec fn unversioned(entry: EmbeddedSourceView) -> bool {
    !hidden(entry.name) && version_of_path(entry.directory).len() == 0
}

/// The entry at `k` is unversioned and none before it is.
pub open spec fn first_unversioned(entries: Seq<EmbeddedSourceView>, k: int) -> bool {
    &&& 0 <= k < entries.len()
    &&& unversioned(entries[k])
    &&& forall|j: int| 0 <= j < k ==> !unversioned(#[trigger] entries[j])
}

proof fn lemma_snapshot_step(entries: Seq<EmbeddedSourceView>, i: int)
    requires
        0 <= i < entries.len(),
    ensures
        snapshot(entries.take(i + 1)) == if hidden(entries[i].name) {
            snapshot(entries.take(i))
        } else {
            snapshot(entries.take(i)).push(
                embedded_unit(version_of_path(entries[i].directory), entries[i].up_sql),
            )
        },
{
    reveal(Seq::filter);
    let upto = entries.take(i + 1);
    assert(upto.drop_last() =~= entries.take(i));
    assert(upto.last() == entries[i]);
    let keep = |e: EmbeddedSourceView| !hidden(e.name);
    let unit_of = |e: EmbeddedSourceView| embedded_unit(version_of_path(e.directory), e.up_sql);
    if !hidden(entries[i].name) {
        assert(upto.filter(keep).map_values(unit_of) =~= entries.take(i).filter(keep).map_values(
            unit_of,
        ).push(unit_of(entries[i])));
    }
}

/// The embedded migration of the directory `path`, whose `up.sql` holds
/// `up_sql`.
pub fn migration_literal_from_path(path: &MigrationDirectory, up_sql: String) -> (r: Result<
    EmbeddedMigration,
    MigrationError,
>)
    ensures
        match r {
            Ok(m) => m.unit() == embedded_unit(version_of_path(path@), up_sql@) && m.version@.len()
                > 0,
            Err(e) => version_of_path(path@).len() == 0 && e@
                == ErrorView::UnknownMigrationFormat(path@.path),
        },
{
    match version_from_path(path) {
        Ok(version) => Ok(EmbeddedMigration { version, up_sql }),
        Err(e) => Err(e),
    }
}

/// The embedded migrations of the migrations directory: one for each entry
/// that is not hidden, in ascending order of version. The first such entry
/// whose name carries no version ends the walk with its path as the error.
pub fn migration_literals_from_path(entries: Vec<EmbeddedSource>) -> (r: Result<
    Vec<EmbeddedMigration>,
    MigrationError,
>)
    ensures
        match r {
            Ok(found) => {
                &&& forall|k: int|
                    0 <= k < entries.len() ==> !unversioned(#[trigger] entries.deep_view()[k])
                &&& units_of(found@) == sort_by_version(snapshot(entries.deep_view()))
            },
            Err(e) => exists|k: int|
                {
                    &&& first_unversioned(entries.deep_view(), k)
                    &&& e@ == ErrorView::UnknownMigrationFormat(
                        entries.deep_view()[k].directory.path,
                    )
                },
        },
{
    let ghost all = entries.deep_view();
    let mut found: Vec<EmbeddedMigration> = Vec::new();
    proof {
        reveal(Seq::filter);
        assert(all.take(0) =~= Seq::empty());
        assert(units_of(found@) =~= snapshot(all.take(0)));
    }
    for entry in it: entries
        invariant
            all == entries.deep_view(),
            it.seq() == entries@,
            forall|k: int| 0 <= k < it.index() ==> !unversioned(#[trigger] all[k]),
            units_of(found@) == snapshot(all.take(it.index() as int)),
    {
        let ghost i = it.index() as int;
        let ghost before = units_of(found@);
        proof {
            lemma_snapshot_step(all, i);
            assert(all[i] == entry.deep_view());
        }
        if !is_hidden(entry.name.as_str()) {
            let EmbeddedSource { name: _, directory, up_sql } = entry;
            match migration_literal_from_path(&directory, up_sql) {
                Ok(migration) => {
                    found.push(migration);
                    assert(units_of(found@) =~= before.push(migration.unit()));
                },
                Err(e) => {
                    assert(first_unversioned(all, i));
                    return Err(e);
                },
            }
        }
    }
    assert(all.take(entries@.len() as int) =~= all);
    let nothing: Vec<String> = Vec::new();
    proof {
        assert(nothing.deep_view().to_set() =~= Set::empty());
        lemma_nothing_applied(units_of(found@));
    }
    Ok(pending_migrations(found, &nothing))
}

} // verus!
