use postgres_migrations::{
    begin_migration, revert_last_migration, revert_migration, run_migration, run_migrations,
    Action, EmbeddedMigration, Event, Migration, MigrationDirectory, MigrationError, Phase,
    Session, SessionStep, SqlFileMigration, UnitStep,
};
use std::collections::{BTreeMap, BTreeSet};
use std::io;
use std::path::Path;

/// The directory at `path`, with what the platform reads from the path.
fn directory(path: &str) -> MigrationDirectory {
    let at = Path::new(path);
    MigrationDirectory {
        path: path.to_string(),
        name: at.file_name().map(|name| name.to_string_lossy().into_owned()),
        up_sql: at.join("up.sql").to_string_lossy().into_owned(),
        down_sql: at.join("down.sql").to_string_lossy().into_owned(),
    }
}

/// A database, a file system and an output, all in memory.
#[derive(Default)]
struct World {
    rows: BTreeSet<String>,
    staged: BTreeSet<String>,
    files: BTreeMap<String, String>,
    rejected: Vec<String>,
    fail_setup: bool,
    fail_begin: bool,
    fail_write: bool,
    fail_insert: bool,
    fail_commit: bool,
    output: Vec<String>,
    executed: Vec<String>,
    begun: usize,
    actions: Vec<String>,
}

fn failure(text: &str) -> Event {
    Event::Failed(MigrationError::IoError(io::Error::new(io::ErrorKind::Other, text.to_string())))
}

fn answer(world: &mut World, action: &Action) -> Event {
    world.actions.push(format!("{:?}", action));
    match action {
        Action::SetupDatabase => {
            if world.fail_setup {
                failure("setup")
            } else {
                Event::Done
            }
        }
        Action::ReadAppliedVersions => Event::Versions(world.rows.iter().cloned().collect()),
        Action::ReadLatestVersion => Event::Latest(world.rows.iter().next_back().cloned()),
        Action::BeginTransaction => {
            if world.fail_begin {
                return failure("begin");
            }
            world.begun += 1;
            world.staged = world.rows.clone();
            Event::Done
        }
        Action::Write(line) => {
            if world.fail_write {
                return failure("write");
            }
            world.output.push(line.clone());
            Event::Done
        }
        Action::ReadFile(path) => match world.files.get(path) {
            Some(text) => Event::Text(text.clone()),
            None => failure("no such file"),
        },
        Action::Execute(sql) => {
            assert!(!sql.is_empty(), "an empty SQL text was executed");
            if world.rejected.contains(sql) {
                failure("rejected")
            } else {
                world.executed.push(sql.clone());
                Event::Done
            }
        }
        Action::InsertVersion(version) => {
            if world.fail_insert {
                return failure("insert");
            }
            world.staged.insert(version.clone());
            Event::Done
        }
        Action::DeleteVersion(version) => {
            world.staged.remove(version);
            Event::Done
        }
        Action::Commit => {
            if world.fail_commit {
                world.staged = world.rows.clone();
                return failure("commit");
            }
            world.rows = world.staged.clone();
            Event::Done
        }
    }
}

fn drive<M: Migration>(
    start: (Session<M>, Action),
    world: &mut World,
) -> Result<(), MigrationError> {
    let (mut session, mut action) = start;
    loop {
        let event = answer(world, &action);
        match session.step(event) {
            SessionStep::Continue(next, issued) => {
                session = next;
                action = issued;
            }
            SessionStep::Finished(result) => {
                world.staged = world.rows.clone();
                return result;
            }
        }
    }
}

fn embedded(version: &str, sql: &str) -> EmbeddedMigration {
    EmbeddedMigration { version: version.to_string(), up_sql: sql.to_string() }
}

fn on_disk(world: &mut World, dir: &str, version: &str, up: &str, down: &str) -> SqlFileMigration {
    let directory = directory(dir);
    world.files.insert(directory.up_sql.clone(), up.to_string());
    world.files.insert(directory.down_sql.clone(), down.to_string());
    SqlFileMigration(directory, version.to_string())
}

fn rows(world: &World) -> Vec<&str> {
    world.rows.iter().map(|r| r.as_str()).collect()
}

#[test]
fn a_run_applies_every_pending_migration_in_order() {
    let mut world = World::default();
    let all = vec![embedded("0001", "a"), embedded("0003", "c"), embedded("0002", "b")];
    drive(run_migrations(all), &mut world).unwrap();
    assert_eq!(world.executed, vec!["a", "b", "c"]);
    assert_eq!(rows(&world), vec!["0001", "0002", "0003"]);
    assert_eq!(world.begun, 3);
    assert_eq!(
        world.output,
        vec!["Running migration 0001", "Running migration 0002", "Running migration 0003"]
    );
}

#[test]
fn a_run_issues_its_actions_in_the_documented_order() {
    let mut world = World::default();
    drive(run_migrations(vec![embedded("0001", "a")]), &mut world).unwrap();
    assert_eq!(
        world.actions,
        vec![
            "SetupDatabase",
            "ReadAppliedVersions",
            "BeginTransaction",
            "Write(\"Running migration 0001\")",
            "Execute(\"a\")",
            "InsertVersion(\"0001\")",
            "Commit",
        ]
    );
}

#[test]
fn a_run_of_nothing_only_reads() {
    let mut world = World::default();
    drive(run_migrations(Vec::<EmbeddedMigration>::new()), &mut world).unwrap();
    assert_eq!(world.actions, vec!["SetupDatabase", "ReadAppliedVersions"]);
    assert!(world.rows.is_empty());
}

#[test]
fn a_second_run_applies_nothing() {
    let mut world = World::default();
    let all = || vec![embedded("0002", "b"), embedded("0001", "a")];
    drive(run_migrations(all()), &mut world).unwrap();
    let rows_before = world.rows.clone();
    let executed_before = world.executed.len();
    let begun_before = world.begun;
    let output_before = world.output.len();
    drive(run_migrations(all()), &mut world).unwrap();
    assert_eq!(world.rows, rows_before);
    assert_eq!(world.executed.len(), executed_before);
    assert_eq!(world.begun, begun_before);
    assert_eq!(world.output.len(), output_before);
}

#[test]
fn a_run_skips_what_is_applied_and_takes_older_versions_too() {
    let mut world = World::default();
    world.rows.insert("0002".to_string());
    let all = vec![embedded("0003", "c"), embedded("0002", "b"), embedded("0001", "a")];
    drive(run_migrations(all), &mut world).unwrap();
    assert_eq!(world.executed, vec!["a", "c"]);
    assert_eq!(rows(&world), vec!["0001", "0002", "0003"]);
}

#[test]
fn a_failure_keeps_what_was_committed_and_stops_the_run() {
    let mut world = World::default();
    world.rejected.push("b".to_string());
    let all = vec![embedded("0001", "a"), embedded("0002", "b"), embedded("0003", "c")];
    let result = drive(run_migrations(all), &mut world);
    assert!(matches!(result, Err(MigrationError::IoError(_))));
    assert_eq!(rows(&world), vec!["0001"]);
    assert_eq!(world.executed, vec!["a"]);
    assert_eq!(world.begun, 2);
    assert_eq!(
        world.output,
        vec![
            "Running migration 0001",
            "Running migration 0002",
            "Executing migration script 0002/up.sql",
        ]
    );
    assert!(world.actions.iter().all(|a| !a.contains("0003") && !a.contains("\"c\"")));
}

#[test]
fn a_run_after_a_failure_takes_up_where_it_stopped() {
    let mut world = World::default();
    world.rejected.push("b".to_string());
    let all = || vec![embedded("0001", "a"), embedded("0002", "b"), embedded("0003", "c")];
    assert!(drive(run_migrations(all()), &mut world).is_err());
    world.rejected.clear();
    drive(run_migrations(all()), &mut world).unwrap();
    assert_eq!(world.executed, vec!["a", "b", "c"]);
    assert_eq!(rows(&world), vec!["0001", "0002", "0003"]);
}

#[test]
fn an_empty_embedded_migration_is_refused() {
    let mut world = World::default();
    let all = vec![embedded("0001", ""), embedded("0002", "b")];
    let result = drive(run_migrations(all), &mut world);
    assert!(matches!(result, Err(MigrationError::EmptyMigration)));
    assert!(world.rows.is_empty());
    assert!(world.executed.is_empty());
    assert_eq!(
        world.output,
        vec!["Running migration 0001", "Executing migration script 0001/up.sql"]
    );
}

#[test]
fn an_empty_sql_file_is_refused() {
    let mut world = World::default();
    let first = on_disk(&mut world, "m/0001_a", "0001", "a", "undo a");
    let second = on_disk(&mut world, "m/0002_b", "0002", "", "undo b");
    let result = drive(run_migrations(vec![second, first]), &mut world);
    assert!(matches!(result, Err(MigrationError::EmptyMigration)));
    assert_eq!(rows(&world), vec!["0001"]);
    assert_eq!(world.executed, vec!["a"]);
    assert_eq!(
        world.output,
        vec![
            "Running migration 0001_a",
            "Running migration 0002_b",
            "Executing migration script m/0002_b/up.sql",
        ]
    );
}

#[test]
fn a_missing_sql_file_fails_the_migration() {
    let mut world = World::default();
    let migration = SqlFileMigration(directory("m/0001_a"), "0001".to_string());
    let result = drive(run_migrations(vec![migration]), &mut world);
    assert!(matches!(result, Err(MigrationError::IoError(_))));
    assert!(world.rows.is_empty());
    assert_eq!(
        world.output,
        vec!["Running migration 0001_a", "Executing migration script m/0001_a/up.sql"]
    );
}

#[test]
fn the_bootstrap_migration_is_applied_without_a_line() {
    let mut world = World::default();
    let all = vec![embedded("00000000000001", "b"), embedded("00000000000000", "a")];
    drive(run_migrations(all), &mut world).unwrap();
    assert_eq!(world.executed, vec!["a", "b"]);
    assert_eq!(world.output, vec!["Running migration 00000000000001"]);
    assert_eq!(rows(&world), vec!["00000000000000", "00000000000001"]);
}

#[test]
fn a_failed_setup_ends_the_run() {
    let mut world = World::default();
    world.fail_setup = true;
    let result = drive(run_migrations(vec![embedded("0001", "a")]), &mut world);
    assert!(matches!(result, Err(MigrationError::IoError(_))));
    assert_eq!(world.actions, vec!["SetupDatabase"]);
}

#[test]
fn a_failed_begin_ends_the_run() {
    let mut world = World::default();
    world.fail_begin = true;
    let result = drive(run_migrations(vec![embedded("0001", "a")]), &mut world);
    assert!(matches!(result, Err(MigrationError::IoError(_))));
    assert!(world.executed.is_empty());
    assert!(world.output.is_empty());
}

#[test]
fn a_failed_write_ends_the_run_before_anything_is_executed() {
    let mut world = World::default();
    world.fail_write = true;
    let result = drive(run_migrations(vec![embedded("0001", "a")]), &mut world);
    assert!(matches!(result, Err(MigrationError::IoError(_))));
    assert!(world.executed.is_empty());
    assert!(world.rows.is_empty());
}

#[test]
fn a_failed_insert_leaves_no_row() {
    let mut world = World::default();
    world.fail_insert = true;
    let result = drive(run_migrations(vec![embedded("0001", "a")]), &mut world);
    assert!(matches!(result, Err(MigrationError::IoError(_))));
    assert!(world.rows.is_empty());
    assert_eq!(world.output, vec!["Running migration 0001"]);
}

#[test]
fn a_failed_commit_leaves_no_row() {
    let mut world = World::default();
    world.fail_commit = true;
    let all = vec![embedded("0001", "a"), embedded("0002", "b")];
    let result = drive(run_migrations(all), &mut world);
    assert!(matches!(result, Err(MigrationError::IoError(_))));
    assert!(world.rows.is_empty());
    assert_eq!(world.begun, 1);
}

#[test]
fn a_revert_without_history_writes_nothing() {
    let mut world = World::default();
    let migration = on_disk(&mut world, "m/0001_a", "0001", "a", "undo a");
    let result = drive(revert_last_migration(vec![migration]), &mut world);
    assert!(matches!(result, Err(MigrationError::NoMigrationRun)));
    assert_eq!(world.actions, vec!["ReadLatestVersion"]);
    assert!(world.rows.is_empty());
    assert!(world.output.is_empty());
    assert_eq!(world.begun, 0);
}

#[test]
fn a_revert_takes_the_latest_applied_migration() {
    let mut world = World::default();
    let first = on_disk(&mut world, "m/0001_a", "0001", "a", "undo a");
    let second = on_disk(&mut world, "m/0002_b", "0002", "b", "undo b");
    let third = on_disk(&mut world, "m/0003_c", "0003", "c", "undo c");
    world.rows.insert("0001".to_string());
    world.rows.insert("0002".to_string());
    drive(revert_last_migration(vec![third, first, second]), &mut world).unwrap();
    assert_eq!(world.executed, vec!["undo b"]);
    assert_eq!(rows(&world), vec!["0001"]);
    assert_eq!(world.output, vec!["Rolling back migration 0002_b"]);
    assert_eq!(
        world.actions,
        vec![
            "ReadLatestVersion",
            "BeginTransaction",
            "Write(\"Rolling back migration 0002_b\")",
            "ReadFile(\"m/0002_b/down.sql\")",
            "Execute(\"undo b\")",
            "DeleteVersion(\"0002\")",
            "Commit",
        ]
    );
}

#[test]
fn a_revert_of_an_unknown_version_fails() {
    let mut world = World::default();
    let first = on_disk(&mut world, "m/0001_a", "0001", "a", "undo a");
    world.rows.insert("0001".to_string());
    world.rows.insert("0005".to_string());
    match drive(revert_last_migration(vec![first]), &mut world) {
        Err(MigrationError::UnknownMigrationVersion(version)) => assert_eq!(version, "0005"),
        other => panic!("unexpected: {:?}", other),
    }
    assert_eq!(rows(&world), vec!["0001", "0005"]);
    assert_eq!(world.actions, vec!["ReadLatestVersion"]);
}

#[test]
fn a_failed_revert_keeps_the_row() {
    let mut world = World::default();
    let first = on_disk(&mut world, "m/0001_a", "0001", "a", "undo a");
    world.rows.insert("0001".to_string());
    world.rejected.push("undo a".to_string());
    let result = drive(revert_last_migration(vec![first]), &mut world);
    assert!(matches!(result, Err(MigrationError::IoError(_))));
    assert_eq!(rows(&world), vec!["0001"]);
    assert_eq!(
        world.output,
        vec!["Rolling back migration 0001_a", "Executing migration script m/0001_a/down.sql"]
    );
}

#[test]
fn a_revert_with_an_empty_down_file_is_refused() {
    let mut world = World::default();
    let first = on_disk(&mut world, "m/0001_a", "0001", "a", "");
    world.rows.insert("0001".to_string());
    let result = drive(revert_last_migration(vec![first]), &mut world);
    assert!(matches!(result, Err(MigrationError::EmptyMigration)));
    assert_eq!(rows(&world), vec!["0001"]);
    assert!(world.executed.is_empty());
}

#[test]
fn an_embedded_migration_cannot_be_reverted() {
    let mut world = World::default();
    world.rows.insert("0001".to_string());
    match drive(revert_last_migration(vec![embedded("0001", "a")]), &mut world) {
        Err(MigrationError::Unsupported(version)) => assert_eq!(version, "0001"),
        other => panic!("unexpected: {:?}", other),
    }
    assert_eq!(rows(&world), vec!["0001"]);
    assert!(world.executed.is_empty());
    assert_eq!(
        world.output,
        vec!["Rolling back migration 0001", "Executing migration script 0001/down.sql"]
    );
}

#[test]
fn the_bootstrap_migration_is_reverted_with_a_line() {
    let mut world = World::default();
    let first = on_disk(&mut world, "m/00000000000000_init", "00000000000000", "a", "undo a");
    world.rows.insert("00000000000000".to_string());
    drive(revert_last_migration(vec![first]), &mut world).unwrap();
    assert_eq!(world.output, vec!["Rolling back migration 00000000000000_init"]);
    assert!(world.rows.is_empty());
}

#[test]
fn a_read_is_asked_again_when_the_answer_is_of_another_kind() {
    let (session, action) = run_migrations(vec![embedded("0001", "a")]);
    assert!(matches!(action, Action::SetupDatabase));
    let session = match session.step(Event::Done) {
        SessionStep::Continue(next, Action::ReadAppliedVersions) => next,
        _ => panic!("the versions were not asked for"),
    };
    let session = match session.step(Event::Done) {
        SessionStep::Continue(next, Action::ReadAppliedVersions) => next,
        _ => panic!("the versions were not asked for again"),
    };
    match session.step(Event::Versions(vec!["0001".to_string()])) {
        SessionStep::Finished(Ok(())) => {}
        _ => panic!("the run did not end"),
    }
    let (session, action) = revert_last_migration(vec![embedded("0001", "a")]);
    assert!(matches!(action, Action::ReadLatestVersion));
    match session.step(Event::Text("x".to_string())) {
        SessionStep::Continue(_, Action::ReadLatestVersion) => {}
        _ => panic!("the latest version was not asked for again"),
    }
}

#[test]
fn one_migration_is_applied_step_by_step() {
    let migration = SqlFileMigration(directory("m/0001_a"), "0001".to_string());
    let (phase, action) = begin_migration();
    assert!(matches!(action, Action::BeginTransaction));
    let phase = match run_migration(&migration, phase, Event::Done) {
        UnitStep::Continue(phase, Action::Write(line)) => {
            assert_eq!(line, "Running migration 0001_a");
            phase
        }
        other => panic!("unexpected: {:?}", other),
    };
    let phase = match run_migration(&migration, phase, Event::Done) {
        UnitStep::Continue(phase, Action::ReadFile(path)) => {
            assert_eq!(path, "m/0001_a/up.sql");
            phase
        }
        other => panic!("unexpected: {:?}", other),
    };
    let phase = match run_migration(&migration, phase, Event::Done) {
        UnitStep::Continue(phase, Action::ReadFile(path)) => {
            assert_eq!(path, "m/0001_a/up.sql");
            phase
        }
        other => panic!("unexpected: {:?}", other),
    };
    let phase = match run_migration(&migration, phase, Event::Text("CREATE".to_string())) {
        UnitStep::Continue(phase, Action::Execute(sql)) => {
            assert_eq!(sql, "CREATE");
            phase
        }
        other => panic!("unexpected: {:?}", other),
    };
    let phase = match run_migration(&migration, phase, Event::Done) {
        UnitStep::Continue(phase, Action::InsertVersion(version)) => {
            assert_eq!(version, "0001");
            phase
        }
        other => panic!("unexpected: {:?}", other),
    };
    let phase = match run_migration(&migration, phase, Event::Done) {
        UnitStep::Continue(phase, Action::Commit) => phase,
        other => panic!("unexpected: {:?}", other),
    };
    assert!(matches!(run_migration(&migration, phase, Event::Done), UnitStep::Finished(Ok(()))));
}

#[test]
fn one_migration_is_reverted_step_by_step() {
    let migration = SqlFileMigration(directory("m/0001_a"), "0001".to_string());
    let phase = match revert_migration(&migration, Phase::Begin, Event::Done) {
        UnitStep::Continue(phase, Action::Write(line)) => {
            assert_eq!(line, "Rolling back migration 0001_a");
            phase
        }
        other => panic!("unexpected: {:?}", other),
    };
    let phase = match revert_migration(&migration, phase, Event::Done) {
        UnitStep::Continue(phase, Action::ReadFile(path)) => {
            assert_eq!(path, "m/0001_a/down.sql");
            phase
        }
        other => panic!("unexpected: {:?}", other),
    };
    let phase = match revert_migration(&migration, phase, Event::Text("DROP".to_string())) {
        UnitStep::Continue(phase, Action::Execute(sql)) => {
            assert_eq!(sql, "DROP");
            phase
        }
        other => panic!("unexpected: {:?}", other),
    };
    let phase = match revert_migration(&migration, phase, failure("rejected")) {
        UnitStep::Continue(phase, Action::Write(line)) => {
            assert_eq!(line, "Executing migration script m/0001_a/down.sql");
            phase
        }
        other => panic!("unexpected: {:?}", other),
    };
    assert!(matches!(
        revert_migration(&migration, phase, Event::Done),
        UnitStep::Finished(Err(MigrationError::IoError(_)))
    ));
}

#[test]
fn a_failure_to_name_the_failed_file_is_the_error() {
    let migration = embedded("0001", "");
    let phase = match run_migration(&migration, Phase::Announce, Event::Done) {
        UnitStep::Continue(phase, Action::Write(line)) => {
            assert_eq!(line, "Executing migration script 0001/up.sql");
            assert!(matches!(phase, Phase::Report(MigrationError::EmptyMigration)));
            phase
        }
        other => panic!("unexpected: {:?}", other),
    };
    assert!(matches!(
        run_migration(&migration, phase, failure("write")),
        UnitStep::Finished(Err(MigrationError::IoError(_)))
    ));
}

#[test]
fn a_database_error_is_handed_through() {
    let error = "connect_timeout=soon".parse::<tokio_postgres::Config>().unwrap_err();
    let shown = error.to_string();
    let migration = embedded("0001", "a");
    let phase = match run_migration(&migration, Phase::Execute, Event::Failed(MigrationError::Postgres(error))) {
        UnitStep::Continue(phase, Action::Write(line)) => {
            assert_eq!(line, "Executing migration script 0001/up.sql");
            phase
        }
        other => panic!("unexpected: {:?}", other),
    };
    match run_migration(&migration, phase, Event::Done) {
        UnitStep::Finished(Err(MigrationError::Postgres(e))) => assert_eq!(e.to_string(), shown),
        other => panic!("unexpected: {:?}", other),
    }
}

#[test]
fn a_pool_error_is_handed_through() {
    let (session, _) = run_migrations(vec![embedded("0001", "a")]);
    let session = match session.step(Event::Done) {
        SessionStep::Continue(next, _) => next,
        _ => panic!("the run ended"),
    };
    let session = match session.step(Event::Versions(Vec::new())) {
        SessionStep::Continue(next, Action::BeginTransaction) => next,
        _ => panic!("no transaction was begun"),
    };
    let timed_out = MigrationError::Bb8(bb8_postgres::bb8::RunError::TimedOut);
    match session.step(Event::Failed(timed_out)) {
        SessionStep::Finished(Err(MigrationError::Bb8(bb8_postgres::bb8::RunError::TimedOut))) => {}
        _ => panic!("the error was not handed through"),
    }
}

#[test]
fn a_failed_migration_in_a_path_that_ends_in_a_slash_is_reported_by_its_file() {
    let mut world = World::default();
    let migration = on_disk(&mut world, "a/b/", "0001", "x", "undo x");
    world.rejected.push("x".to_string());
    let result = drive(run_migrations(vec![migration]), &mut world);
    assert!(matches!(result, Err(MigrationError::IoError(_))));
    assert_eq!(
        world.output,
        vec!["Running migration b", "Executing migration script a/b/up.sql"]
    );
}

#[test]
fn a_second_run_only_sets_up_and_reads() {
    let mut world = World::default();
    let all = || vec![embedded("0002", "b"), embedded("0001", "a")];
    drive(run_migrations(all()), &mut world).unwrap();
    world.actions.clear();
    world.output.clear();
    drive(run_migrations(all()), &mut world).unwrap();
    assert_eq!(world.actions, vec!["SetupDatabase", "ReadAppliedVersions"]);
    assert!(world.output.is_empty());
}

#[test]
fn the_error_of_a_failed_run_is_that_of_the_failing_migration() {
    let mut world = World::default();
    let all = vec![embedded("0001", "a"), embedded("0002", ""), embedded("0003", "c")];
    let result = drive(run_migrations(all), &mut world);
    assert!(matches!(result, Err(MigrationError::EmptyMigration)));
    assert_eq!(world.executed, vec!["a"]);
    let mut world = World::default();
    world.rejected.push("b".to_string());
    let all = vec![embedded("0001", "a"), embedded("0002", "b"), embedded("0003", "c")];
    match drive(run_migrations(all), &mut world) {
        Err(MigrationError::IoError(e)) => assert_eq!(e.to_string(), "rejected"),
        other => panic!("unexpected: {:?}", other),
    }
}
