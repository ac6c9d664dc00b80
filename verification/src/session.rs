//! A run of the pending migrations and a revert of the latest one, step by
//! step.

use crate::error::{outcome_view, ErrorView, MigrationError};
use crate::migration::{Direction, Migration, Unit};
use crate::pending::{pending, pending_migrations, units_of};
use crate::runner::{
    step_migration, unit_step, Action, ActionView, Event, EventView, Phase, PhaseView, UnitStep,
    UnitStepView,
};
use crate::text::same_text;
use vstd::prelude::*;

verus! {

/// Where a run or a revert stands: the action that was issued last and is
/// not answered yet.
#[derive(Debug)]
pub enum Stage {
    /// The tracking table is being set up.
    Setup,
    /// The applied versions are being read.
    Diff,
    /// The latest applied version is being read.
    Latest,
    /// The migration at this index is being worked on.
    Unit(Direction, usize, Phase),
}

/// A stage as the contracts see it.
pub enum StageView {
    Setup,
    Diff,
    Latest,
    Unit(Direction, int, PhaseView),
}

impl View for Stage {
    type V = StageView;

    open spec fn view(&self) -> StageView {
        match self {
            Stage::Setup => StageView::Setup,
            Stage::Diff => StageView::Diff,
            Stage::Latest => StageView::Latest,
            Stage::Unit(direction, index, phase) => StageView::Unit(
                *direction,
                *index as int,
                phase@,
            ),
        }
    }
}

/// A run or a revert as the contracts see it: the units it works on and
/// where it stands.
pub struct SessionView {
    pub units: Seq<Unit>,
    pub stage: StageView,
}

/// The index of the unit that is being worked on lies among the units.
pub open spec fn valid(session: SessionView) -> bool {
    match session.stage {
        StageView::Unit(_, index, _) => 0 <= index < session.units.len(),
        _ => true,
    }
}

/// One run of the pending migrations, or one revert of the latest: the
/// decisions of it. The caller carries out each action and hands back what
/// came of it.
pub struct Session<M: Migration> {
    migrations: Vec<M>,
    stage: Stage,
}

/// What a run or a revert comes to after an event: it goes on with a new
/// action, or it has ended.
pub enum SessionStep<M: Migration> {
    Continue(Session<M>, Action),
    Finished(Result<(), MigrationError>),
}

/// A step of a session as the contracts see it.
pub enum SessionStepView {
    Continue(SessionView, ActionView),
    Finished(Result<(), ErrorView>),
}

impl<M: Migration> View for SessionStep<M> {
    type V = SessionStepView;

    open spec fn view(&self) -> SessionStepView {
        match self {
            SessionStep::Continue(session, action) => SessionStepView::Continue(session@, action@),
            SessionStep::Finished(outcome) => SessionStepView::Finished(outcome_view(*outcome)),
        }
    }
}

/// How many units stand before the first one of the given version; the
/// number of units where none has it.
pub open spec fn index_of_version(units: Seq<Unit>, version: Seq<char>) -> nat
    decreases units.len(),
{
    if units.len() == 0 || units[0].version == version {
        0
    } else {
        1 + index_of_version(units.drop_first(), version)
    }
}

/// `index_of_version` is the first place that holds the version, or the end.
pub proof fn lemma_index_of_version(units: Seq<Unit>, version: Seq<char>, k: int)
    requires
        0 <= k <= units.len(),
        forall|i: int| 0 <= i < k ==> units[i].version != version,
        k == units.len() || units[k].version == version,
    ensures
        index_of_version(units, version) == k,
    decreases k,
{
    if k > 0 {
        lemma_index_of_version(units.drop_first(), version, k - 1);
    }
}

/// The work turns to the unit at `index`, or ends well where there is none.
pub open spec fn enter(units: Seq<Unit>, direction: Direction, index: int) -> SessionStepView {
    if 0 <= index < units.len() {
        SessionStepView::Continue(
            SessionView { units, stage: StageView::Unit(direction, index, PhaseView::Begin) },
            ActionView::BeginTransaction,
        )
    } else {
        SessionStepView::Finished(Ok(()))
    }
}

/// The revert turns to the first unit of the latest applied version, or
/// fails where no unit has it.
pub open spec fn enter_latest(units: Seq<Unit>, version: Seq<char>) -> SessionStepView {
    if index_of_version(units, version) < units.len() {
        enter(units, Direction::Down, index_of_version(units, version) as int)
    } else {
        SessionStepView::Finished(Err(ErrorView::UnknownMigrationVersion(version)))
    }
}

/// One step of a run or a revert.
///
/// A run sets up the tracking table, reads the applied versions, and then
/// works through the pending units in ascending order of version, each in a
/// transaction of its own; the first unit that fails ends the run with its
/// error. A revert reads the latest applied version and works on the unit
/// that has it. A failed read or setup ends either at once; a read is asked
/// for again when the answer is of another kind.
pub open spec fn session_step(session: SessionView, event: EventView) -> SessionStepView {
    match session.stage {
        StageView::Setup => match event {
            EventView::Failed(e) => SessionStepView::Finished(Err(e)),
            _ => SessionStepView::Continue(
                SessionView { units: session.units, stage: StageView::Diff },
                ActionView::ReadAppliedVersions,
            ),
        },
        StageView::Diff => match event {
            EventView::Failed(e) => SessionStepView::Finished(Err(e)),
            EventView::Versions(applied) => enter(
                pending(session.units, applied.to_set()),
                Direction::Up,
                0,
            ),
            _ => SessionStepView::Continue(session, ActionView::ReadAppliedVersions),
        },
        StageView::Latest => match event {
            EventView::Failed(e) => SessionStepView::Finished(Err(e)),
            EventView::Latest(None) => SessionStepView::Finished(Err(ErrorView::NoMigrationRun)),
            EventView::Latest(Some(version)) => enter_latest(session.units, version),
            _ => SessionStepView::Continue(session, ActionView::ReadLatestVersion),
        },
        StageView::Unit(direction, index, phase) => match unit_step(
            session.units[index],
            direction,
            phase,
            event,
        ) {
            UnitStepView::Continue(next, action) => SessionStepView::Continue(
                SessionView { units: session.units, stage: StageView::Unit(direction, index, next) },
                action,
            ),
            UnitStepView::Finished(Ok(_)) => match direction {
                Direction::Up => enter(session.units, Direction::Up, index + 1),
                Direction::Down => SessionStepView::Finished(Ok(())),
            },
            UnitStepView::Finished(Err(e)) => SessionStepView::Finished(Err(e)),
        },
    }
}

/// How a run starts.
pub open spec fn run_start(units: Seq<Unit>) -> (SessionView, ActionView) {
    (SessionView { units, stage: StageView::Setup }, ActionView::SetupDatabase)
}

/// How a revert starts.
pub open spec fn revert_start(units: Seq<Unit>) -> (SessionView, ActionView) {
    (SessionView { units, stage: StageView::Latest }, ActionView::ReadLatestVersion)
}

/// A revert begins by reading the latest applied version, and where the
/// table has none it ends there with `NoMigrationRun`: nothing else was
/// asked for, so nothing was written.
pub proof fn lemma_nothing_to_revert(units: Seq<Unit>)
    ensures
        revert_start(units).1 == ActionView::ReadLatestVersion,
        session_step(revert_start(units).0, EventView::Latest(None)) == SessionStepView::Finished(
            Err(ErrorView::NoMigrationRun),
        ),
{
}

impl<M: Migration> View for Session<M> {
    type V = SessionView;

    closed spec fn view(&self) -> SessionView {
        SessionView { units: units_of(self.migrations@), stage: self.stage@ }
    }
}

impl<M: Migration> Session<M> {
    #[verifier::type_invariant]
    spec fn well_formed(self) -> bool {
        valid(self@)
    }

    fn enter(migrations: Vec<M>, direction: Direction, index: usize) -> (next: SessionStep<M>)
        ensures
            next@ == enter(units_of(migrations@), direction, index as int),
    {
        if index < migrations.len() {
            SessionStep::Continue(
                Session { migrations, stage: Stage::Unit(direction, index, Phase::Begin) },
                Action::BeginTransaction,
            )
        } else {
            SessionStep::Finished(Ok(()))
        }
    }

    fn enter_latest(migrations: Vec<M>, version: String) -> (next: SessionStep<M>)
        ensures
            next@ == enter_latest(units_of(migrations@), version@),
    {
        let mut index: usize = 0;
        while index < migrations.len() && !same_text(
            migrations[index].version(),
            version.as_str(),
        )
            invariant
                index <= migrations.len(),
                forall|i: int|
                    0 <= i < index ==> (#[trigger] units_of(migrations@)[i]).version != version@,
            decreases migrations.len() - index,
        {
            index += 1;
        }
        proof {
            lemma_index_of_version(units_of(migrations@), version@, index as int);
        }
        if index < migrations.len() {
            Self::enter(migrations, Direction::Down, index)
        } else {
            SessionStep::Finished(Err(MigrationError::UnknownMigrationVersion(version)))
        }
    }

    /// Takes the answer to the last action and says what comes next.
    pub fn step(self, event: Event) -> (next: SessionStep<M>)
        ensures
            next@ == session_step(self@, event@),
    {
        proof {
            use_type_invariant(&self);
        }
        let Session { migrations, stage } = self;
        match stage {
            Stage::Setup => match event {
                Event::Failed(e) => SessionStep::Finished(Err(e)),
                _ => SessionStep::Continue(
                    Session { migrations, stage: Stage::Diff },
                    Action::ReadAppliedVersions,
                ),
            },
            Stage::Diff => match event {
                Event::Failed(e) => SessionStep::Finished(Err(e)),
                Event::Versions(applied) => {
                    let pending = pending_migrations(migrations, &applied);
                    Self::enter(pending, Direction::Up, 0)
                },
                _ => SessionStep::Continue(
                    Session { migrations, stage: Stage::Diff },
                    Action::ReadAppliedVersions,
                ),
            },
            Stage::Latest => match event {
                Event::Failed(e) => SessionStep::Finished(Err(e)),
                Event::Latest(None) => SessionStep::Finished(Err(MigrationError::NoMigrationRun)),
                Event::Latest(Some(version)) => Self::enter_latest(migrations, version),
                _ => SessionStep::Continue(
                    Session { migrations, stage: Stage::Latest },
                    Action::ReadLatestVersion,
                ),
            },
            Stage::Unit(direction, index, phase) => {
                let count = migrations.len();
                assert(index < count);
                match step_migration(&migrations[index], direction, phase, event) {
                    UnitStep::Continue(next, action) => SessionStep::Continue(
                        Session { migrations, stage: Stage::Unit(direction, index, next) },
                        action,
                    ),
                    UnitStep::Finished(Ok(_)) => match direction {
                        Direction::Up => Self::enter(migrations, Direction::Up, index + 1),
                        Direction::Down => SessionStep::Finished(Ok(())),
                    },
                    UnitStep::Finished(Err(e)) => SessionStep::Finished(Err(e)),
                }
            },
        }
    }
}

/// Starts a run of the migrations that are not applied yet. The first
/// action sets up the tracking table.
pub fn run_migrations<M: Migration>(migrations: Vec<M>) -> (start: (Session<M>, Action))
    ensures
        (start.0@, start.1@) == run_start(units_of(migrations@)),
{
    (Session { migrations, stage: Stage::Setup }, Action::SetupDatabase)
}

/// Starts a revert of the migration that was applied last. The first action
/// reads the latest applied version.
pub fn revert_last_migration<M: Migration>(migrations: Vec<M>) -> (start: (Session<M>, Action))
    ensures
        (start.0@, start.1@) == revert_start(units_of(migrations@)),
{
    (Session { migrations, stage: Stage::Latest }, Action::ReadLatestVersion)
}

} // verus!
