//! The work on one migration, step by step: what the caller is asked to do
//! and what each answer leads to.

use crate::error::{outcome_view, ErrorView, MigrationError};
use crate::migration::{
    display_file_name, display_name, file_name, name, Direction, Migration, SourceView, SqlSource,
    Unit,
};
use crate::text::same_text;
use vstd::prelude::*;
use vstd::string::*;

verus! {

/// What the caller has to do next. Each action is answered with one
/// `Event`.
#[derive(Debug)]
pub enum Action {
    /// Create the tracking table unless it exists, outside any transaction.
    SetupDatabase,
    /// Read every version of the tracking table.
    ReadAppliedVersions,
    /// Read the greatest version of the tracking table.
    ReadLatestVersion,
    /// Take a connection and begin a transaction on it. It stays open until
    /// it is committed; where the work ends before that it is dropped
    /// uncommitted.
    BeginTransaction,
    /// Write this line to the output.
    Write(String),
    /// Read the text of the file at this path.
    ReadFile(String),
    /// Execute this SQL text as one batch in the open transaction.
    Execute(String),
    /// Add the row of this version in the open transaction.
    InsertVersion(String),
    /// Remove the row of this version in the open transaction.
    DeleteVersion(String),
    /// Commit the open transaction.
    Commit,
}

/// An action as the contracts see it.
pub enum ActionView {
    SetupDatabase,
    ReadAppliedVersions,
    ReadLatestVersion,
    BeginTransaction,
    Write(Seq<char>),
    ReadFile(Seq<char>),
    Execute(Seq<char>),
    InsertVersion(Seq<char>),
    DeleteVersion(Seq<char>),
    Commit,
}

impl View for Action {
    type V = ActionView;

    open spec fn view(&self) -> ActionView {
        match self {
            Action::SetupDatabase => ActionView::SetupDatabase,
            Action::ReadAppliedVersions => ActionView::ReadAppliedVersions,
            Action::ReadLatestVersion => ActionView::ReadLatestVersion,
            Action::BeginTransaction => ActionView::BeginTransaction,
            Action::Write(line) => ActionView::Write(line@),
            Action::ReadFile(path) => ActionView::ReadFile(path@),
            Action::Execute(sql) => ActionView::Execute(sql@),
            Action::InsertVersion(v) => ActionView::InsertVersion(v@),
            Action::DeleteVersion(v) => ActionView::DeleteVersion(v@),
            Action::Commit => ActionView::Commit,
        }
    }
}

/// How the last action went.
#[derive(Debug)]
pub enum Event {
    /// It was done and there is nothing to report.
    Done,
    /// It failed.
    Failed(MigrationError),
    /// The versions of the tracking table.
    Versions(Vec<String>),
    /// The greatest version of the tracking table, if it has any row.
    Latest(Option<String>),
    /// The text of the file.
    Text(String),
}

/// An event as the contracts see it.
pub enum EventView {
    Done,
    Failed(ErrorView),
    Versions(Seq<Seq<char>>),
    Latest(Option<Seq<char>>),
    Text(Seq<char>),
}

impl View for Event {
    type V = EventView;

    open spec fn view(&self) -> EventView {
        match self {
            Event::Done => EventView::Done,
            Event::Failed(e) => EventView::Failed(e@),
            Event::Versions(versions) => EventView::Versions(versions.deep_view()),
            Event::Latest(latest) => EventView::Latest(latest.deep_view()),
            Event::Text(text) => EventView::Text(text@),
        }
    }
}

/// How far the work on one migration has come: the action that was issued
/// last and is not answered yet.
#[derive(Debug)]
pub enum Phase {
    /// The transaction is being begun.
    Begin,
    /// The line that names the migration is being written.
    Announce,
    /// The SQL file is being read.
    Load,
    /// The SQL is being executed.
    Execute,
    /// The row of the version is being added or removed.
    Record,
    /// The transaction is being committed.
    Commit,
    /// The migration has failed with this error, and the line that names
    /// the SQL file is being written.
    Report(MigrationError),
}

/// A phase as the contracts see it.
pub enum PhaseView {
    Begin,
    Announce,
    Load,
    Execute,
    Record,
    Commit,
    Report(ErrorView),
}

impl View for Phase {
    type V = PhaseView;

    open spec fn view(&self) -> PhaseView {
        match self {
            Phase::Begin => PhaseView::Begin,
            Phase::Announce => PhaseView::Announce,
            Phase::Load => PhaseView::Load,
            Phase::Execute => PhaseView::Execute,
            Phase::Record => PhaseView::Record,
            Phase::Commit => PhaseView::Commit,
            Phase::Report(e) => PhaseView::Report(e@),
        }
    }
}

/// What the work on one migration comes to after an event: it goes on in a
/// new phase with a new action, or it has ended.
#[derive(Debug)]
pub enum UnitStep {
    Continue(Phase, Action),
    Finished(Result<(), MigrationError>),
}

/// A step of the work on one migration as the contracts see it.
pub enum UnitStepView {
    Continue(PhaseView, ActionView),
    Finished(Result<(), ErrorView>),
}

impl View for UnitStep {
    type V = UnitStepView;

    open spec fn view(&self) -> UnitStepView {
        match self {
            UnitStep::Continue(phase, action) => UnitStepView::Continue(phase@, action@),
            UnitStep::Finished(outcome) => UnitStepView::Finished(outcome_view(*outcome)),
        }
    }
}

/// Applying the migration of this version is not announced.
pub open spec fn bootstrap_version() -> Seq<char> {
    "00000000000000"@
}

/// Whether the work on a unit begins with a line that names it. Only the
/// bootstrap migration is applied without one.
pub open spec fn announced(unit: Unit, direction: Direction) -> bool {
    direction == Direction::Down || unit.version != bootstrap_version()
}

/// The line that names the unit at the start of the work on it.
pub open spec fn announcement(unit: Unit, direction: Direction) -> Seq<char> {
    match direction {
        Direction::Up => "Running migration "@ + display_name(unit),
        Direction::Down => "Rolling back migration "@ + display_name(unit),
    }
}

/// The line that names the SQL file of a unit that failed.
pub open spec fn report(unit: Unit, direction: Direction) -> Seq<char> {
    "Executing migration script "@ + display_file_name(unit, direction)
}

/// Where the SQL of a direction comes from.
pub open spec fn source(unit: Unit, direction: Direction) -> SourceView {
    match direction {
        Direction::Up => unit.up,
        Direction::Down => unit.down,
    }
}

/// What is done to the tracking table once the SQL has been executed.
pub open spec fn record(unit: Unit, direction: Direction) -> ActionView {
    match direction {
        Direction::Up => ActionView::InsertVersion(unit.version),
        Direction::Down => ActionView::DeleteVersion(unit.version),
    }
}

/// The unit has failed: the SQL file is named before the work ends.
pub open spec fn fail(unit: Unit, direction: Direction, error: ErrorView) -> UnitStepView {
    UnitStepView::Continue(PhaseView::Report(error), ActionView::Write(report(unit, direction)))
}

/// An empty SQL text is never executed.
pub open spec fn guard(unit: Unit, direction: Direction, sql: Seq<char>) -> UnitStepView {
    if sql.len() == 0 {
        fail(unit, direction, ErrorView::EmptyMigration)
    } else {
        UnitStepView::Continue(PhaseView::Execute, ActionView::Execute(sql))
    }
}

/// Getting at the SQL of the unit.
pub open spec fn load(unit: Unit, direction: Direction) -> UnitStepView {
    match source(unit, direction) {
        SourceView::File(path) => UnitStepView::Continue(PhaseView::Load, ActionView::ReadFile(path)),
        SourceView::Text(sql) => guard(unit, direction, sql),
        SourceView::Unsupported => fail(unit, direction, ErrorView::Unsupported(unit.version)),
    }
}

/// One step of the work on a unit. A failure before the SQL is reached, or
/// after it has been executed, ends the work at once; a failure to read or
/// to execute the SQL ends it after the SQL file has been named. A file is
/// asked for again when the answer holds no text; everywhere else any answer
/// but a failure counts as done.
pub open spec fn unit_step(
    unit: Unit,
    direction: Direction,
    phase: PhaseView,
    event: EventView,
) -> UnitStepView {
    match phase {
        PhaseView::Begin => match event {
            EventView::Failed(e) => UnitStepView::Finished(Err(e)),
            _ => if announced(unit, direction) {
                UnitStepView::Continue(
                    PhaseView::Announce,
                    ActionView::Write(announcement(unit, direction)),
                )
            } else {
                load(unit, direction)
            },
        },
        PhaseView::Announce => match event {
            EventView::Failed(e) => UnitStepView::Finished(Err(e)),
            _ => load(unit, direction),
        },
        PhaseView::Load => match event {
            EventView::Failed(e) => fail(unit, direction, e),
            EventView::Text(sql) => guard(unit, direction, sql),
            _ => load(unit, direction),
        },
        PhaseView::Execute => match event {
            EventView::Failed(e) => fail(unit, direction, e),
            _ => UnitStepView::Continue(PhaseView::Record, record(unit, direction)),
        },
        PhaseView::Record => match event {
            EventView::Failed(e) => UnitStepView::Finished(Err(e)),
            _ => UnitStepView::Continue(PhaseView::Commit, ActionView::Commit),
        },
        PhaseView::Commit => match event {
            EventView::Failed(e) => UnitStepView::Finished(Err(e)),
            _ => UnitStepView::Finished(Ok(())),
        },
        PhaseView::Report(error) => match event {
            EventView::Failed(e) => UnitStepView::Finished(Err(e)),
            _ => UnitStepView::Finished(Err(error)),
        },
    }
}

/// The SQL text that a step gets at, if it gets at one: the text that was
/// read from the file, or the text that the unit holds where the step comes
/// to it.
pub open spec fn sql_reached(
    unit: Unit,
    direction: Direction,
    phase: PhaseView,
    event: EventView,
) -> Option<Seq<char>> {
    let held = match source(unit, direction) {
        SourceView::Text(sql) => Some(sql),
        _ => None,
    };
    match phase {
        PhaseView::Begin => if event is Failed || announced(unit, direction) {
            None
        } else {
            held
        },
        PhaseView::Announce => if event is Failed {
            None
        } else {
            held
        },
        PhaseView::Load => match event {
            EventView::Failed(_) => None,
            EventView::Text(sql) => Some(sql),
            _ => held,
        },
        _ => None,
    }
}

/// Whenever a step gets at the SQL of a unit, the text is executed if it is
/// not empty and in no other case: the unit whose SQL is empty fails with
/// `EmptyMigration`, the SQL file is named, and that error is what the work
/// ends with unless naming the file fails too.
pub proof fn lemma_sql_is_guarded(
    unit: Unit,
    direction: Direction,
    phase: PhaseView,
    event: EventView,
)
    requires
        sql_reached(unit, direction, phase, event) is Some,
    ensures
        ({
            let sql = sql_reached(unit, direction, phase, event)->0;
            unit_step(unit, direction, phase, event) == if sql.len() == 0 {
                UnitStepView::Continue(
                    PhaseView::Report(ErrorView::EmptyMigration),
                    ActionView::Write(report(unit, direction)),
                )
            } else {
                UnitStepView::Continue(PhaseView::Execute, ActionView::Execute(sql))
            }
        }),
        forall|answer: EventView|
            !(answer is Failed) ==> #[trigger] unit_step(
                unit,
                direction,
                PhaseView::Report(ErrorView::EmptyMigration),
                answer,
            ) == UnitStepView::Finished(Err(ErrorView::EmptyMigration)),
{
}

/// No step but one that gets at a SQL text that is not empty issues an
/// `Execute`.
pub proof fn lemma_execute_only_guarded(
    unit: Unit,
    direction: Direction,
    phase: PhaseView,
    event: EventView,
)
    ensures
        match unit_step(unit, direction, phase, event) {
            UnitStepView::Continue(_, ActionView::Execute(sql)) => sql.len() > 0 && sql_reached(
                unit,
                direction,
                phase,
                event,
            ) == Some(sql),
            _ => true,
        },
{
}

fn fail_with<M: Migration>(migration: &M, direction: Direction, error: MigrationError) -> (next:
    UnitStep)
    ensures
        next@ == fail(migration.unit(), direction, error@),
{
    let mut line = String::from_str("Executing migration script ");
    let shown = file_name(migration, direction).to_text();
    line.append(shown.as_str());
    UnitStep::Continue(Phase::Report(error), Action::Write(line))
}

fn guard_sql<M: Migration>(migration: &M, direction: Direction, sql: String) -> (next: UnitStep)
    ensures
        next@ == guard(migration.unit(), direction, sql@),
{
    if sql.as_str().is_empty() {
        fail_with(migration, direction, MigrationError::EmptyMigration)
    } else {
        UnitStep::Continue(Phase::Execute, Action::Execute(sql))
    }
}

fn load_sql<M: Migration>(migration: &M, direction: Direction) -> (next: UnitStep)
    ensures
        next@ == load(migration.unit(), direction),
{
    let source = match direction {
        Direction::Up => migration.run(),
        Direction::Down => migration.revert(),
    };
    match source {
        SqlSource::File(path) => UnitStep::Continue(Phase::Load, Action::ReadFile(path)),
        SqlSource::Text(sql) => guard_sql(migration, direction, sql),
        SqlSource::Unsupported => fail_with(
            migration,
            direction,
            MigrationError::Unsupported(String::from_str(migration.version())),
        ),
    }
}

fn announce<M: Migration>(migration: &M, direction: Direction) -> (line: String)
    ensures
        line@ == announcement(migration.unit(), direction),
{
    let mut line = match direction {
        Direction::Up => String::from_str("Running migration "),
        Direction::Down => String::from_str("Rolling back migration "),
    };
    let shown = name(migration).to_text();
    line.append(shown.as_str());
    line
}

/// One step of the work on a migration in the given direction.
pub fn step_migration<M: Migration>(
    migration: &M,
    direction: Direction,
    phase: Phase,
    event: Event,
) -> (next: UnitStep)
    ensures
        next@ == unit_step(migration.unit(), direction, phase@, event@),
{
    match phase {
        Phase::Begin => match event {
            Event::Failed(e) => UnitStep::Finished(Err(e)),
            _ => {
                let quiet = match direction {
                    Direction::Up => same_text(migration.version(), "00000000000000"),
                    Direction::Down => false,
                };
                if quiet {
                    load_sql(migration, direction)
                } else {
                    UnitStep::Continue(Phase::Announce, Action::Write(announce(migration, direction)))
                }
            },
        },
        Phase::Announce => match event {
            Event::Failed(e) => UnitStep::Finished(Err(e)),
            _ => load_sql(migration, direction),
        },
        Phase::Load => match event {
            Event::Failed(e) => fail_with(migration, direction, e),
            Event::Text(sql) => guard_sql(migration, direction, sql),
            _ => load_sql(migration, direction),
        },
        Phase::Execute => match event {
            Event::Failed(e) => fail_with(migration, direction, e),
            _ => {
                let version = String::from_str(migration.version());
                match direction {
                    Direction::Up => UnitStep::Continue(Phase::Record, Action::InsertVersion(version)),
                    Direction::Down => UnitStep::Continue(
                        Phase::Record,
                        Action::DeleteVersion(version),
                    ),
                }
            },
        },
        Phase::Record => match event {
            Event::Failed(e) => UnitStep::Finished(Err(e)),
            _ => UnitStep::Continue(Phase::Commit, Action::Commit),
        },
        Phase::Commit => match event {
            Event::Failed(e) => UnitStep::Finished(Err(e)),
            _ => UnitStep::Finished(Ok(())),
        },
        Phase::Report(error) => match event {
            Event::Failed(e) => UnitStep::Finished(Err(e)),
            _ => UnitStep::Finished(Err(error)),
        },
    }
}

/// The start of the work on a migration, in either direction: a transaction
/// is begun.
pub fn begin_migration() -> (start: (Phase, Action))
    ensures
        start.0@ == PhaseView::Begin,
        start.1@ == ActionView::BeginTransaction,
{
    (Phase::Begin, Action::BeginTransaction)
}

/// One step of applying a migration.
pub fn run_migration<M: Migration>(migration: &M, phase: Phase, event: Event) -> (next: UnitStep)
    ensures
        next@ == unit_step(migration.unit(), Direction::Up, phase@, event@),
{
    step_migration(migration, Direction::Up, phase, event)
}

/// One step of reverting a migration.
pub fn revert_migration<M: Migration>(migration: &M, phase: Phase, event: Event) -> (next: UnitStep)
    ensures
        next@ == unit_step(migration.unit(), Direction::Down, phase@, event@),
{
    step_migration(migration, Direction::Down, phase, event)
}

} // verus!
