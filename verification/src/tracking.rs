//! A model of the tracking table and of what the actions of a session do to
//! it.

use crate::error::ErrorView;
use crate::migration::Unit;
use crate::runner::{ActionView, EventView};
use crate::session::{revert_start, run_start, session_step, SessionStepView, SessionView};
use crate::version::version_less;
use vstd::prelude::*;

verus! {

/// The tracking table as the database holds it: the versions whose rows are
/// committed, the rows as the transaction sees them, and whether a
/// transaction is open.
pub struct Tracking {
    pub rows: Set<Seq<char>>,
    pub staged: Set<Seq<char>>,
    pub open: bool,
}

/// A table with these rows, nothing uncommitted and no transaction open.
pub open spec fn settled(rows: Set<Seq<char>>) -> Tracking {
    Tracking { rows, staged: rows, open: false }
}

/// Whether an action can only be carried out in an open transaction.
pub open spec fn needs_transaction(action: ActionView) -> bool {
    action is Execute || action is InsertVersion || action is DeleteVersion || action is Commit
}

/// What an action does to the table, given how it went. A new transaction
/// sees the committed rows; rows come and go in it; a commit makes what it
/// sees the committed rows and ends it. A failed action changes nothing,
/// but that a failed begin leaves no transaction open and a failed commit
/// ends the transaction with the committed rows as they were.
pub open spec fn after(table: Tracking, action: ActionView, event: EventView) -> Tracking {
    if event is Failed {
        if action is Commit || action is BeginTransaction {
            settled(table.rows)
        } else {
            table
        }
    } else {
        match action {
            ActionView::BeginTransaction => Tracking {
                rows: table.rows,
                staged: table.rows,
                open: true,
            },
            ActionView::InsertVersion(v) => Tracking {
                rows: table.rows,
                staged: table.staged.insert(v),
                open: table.open,
            },
            ActionView::DeleteVersion(v) => Tracking {
                rows: table.rows,
                staged: table.staged.remove(v),
                open: table.open,
            },
            ActionView::Commit => settled(table.staged),
            _ => table,
        }
    }
}

/// No row has a greater version than `version`, which is itself a row.
pub open spec fn latest(rows: Set<Seq<char>>, version: Seq<char>) -> bool {
    rows.contains(version) && forall|other: Seq<char>|
        rows.contains(other) ==> !version_less(version, other)
}

/// Whether an answer to a read of the table says what the table holds.
/// Answers to other actions, failures and answers of another kind say
/// nothing of it.
pub open spec fn truthful(table: Tracking, action: ActionView, event: EventView) -> bool {
    match (action, event) {
        (ActionView::ReadAppliedVersions, EventView::Versions(versions)) => versions.to_set()
            == table.rows,
        (ActionView::ReadLatestVersion, EventView::Latest(None)) => table.rows == Set::<
            Seq<char>,
        >::empty(),
        (ActionView::ReadLatestVersion, EventView::Latest(Some(version))) => latest(
            table.rows,
            version,
        ),
        _ => true,
    }
}

/// Where a run or a revert stands after some events.
pub enum Outcome {
    /// It waits for the answer to `action`.
    Running { session: SessionView, action: ActionView, table: Tracking, log: Seq<ActionView> },
    /// It has ended with `result` and has left these rows.
    Finished { result: Result<(), ErrorView>, rows: Set<Seq<char>>, log: Seq<ActionView> },
}

/// Feeds the events, one for each action, to a session that waits for the
/// answer to `action`. `log` holds the actions issued so far, `action`
/// being its last. Events that come after the end are not looked at.
pub open spec fn drive(
    session: SessionView,
    action: ActionView,
    table: Tracking,
    log: Seq<ActionView>,
    events: Seq<EventView>,
) -> Outcome
    decreases events.len(),
{
    if events.len() == 0 {
        Outcome::Running { session, action, table, log }
    } else {
        match session_step(session, events[0]) {
            SessionStepView::Continue(next, issued) => drive(
                next,
                issued,
                after(table, action, events[0]),
                log.push(issued),
                events.drop_first(),
            ),
            SessionStepView::Finished(result) => Outcome::Finished {
                result,
                rows: after(table, action, events[0]).rows,
                log,
            },
        }
    }
}

/// Every read of the table on the way is answered truthfully.
pub open spec fn truthful_all(
    session: SessionView,
    action: ActionView,
    table: Tracking,
    events: Seq<EventView>,
) -> bool
    decreases events.len(),
{
    events.len() == 0 || (truthful(table, action, events[0]) && match session_step(
        session,
        events[0],
    ) {
        SessionStepView::Continue(next, issued) => truthful_all(
            next,
            issued,
            after(table, action, events[0]),
            events.drop_first(),
        ),
        SessionStepView::Finished(_) => true,
    })
}

/// A run of `units` against a table with `rows`, as far as `events` take it.
pub open spec fn run_outcome(
    units: Seq<Unit>,
    rows: Set<Seq<char>>,
    events: Seq<EventView>,
) -> Outcome {
    drive(run_start(units).0, run_start(units).1, settled(rows), seq![run_start(units).1], events)
}

/// The reads of such a run are answered truthfully.
pub open spec fn run_truthful(
    units: Seq<Unit>,
    rows: Set<Seq<char>>,
    events: Seq<EventView>,
) -> bool {
    truthful_all(run_start(units).0, run_start(units).1, settled(rows), events)
}

/// A revert among `units` against a table with `rows`, as far as `events`
/// take it.
pub open spec fn revert_outcome(
    units: Seq<Unit>,
    rows: Set<Seq<char>>,
    events: Seq<EventView>,
) -> Outcome {
    drive(
        revert_start(units).0,
        revert_start(units).1,
        settled(rows),
        seq![revert_start(units).1],
        events,
    )
}

/// The reads of such a revert are answered truthfully.
pub open spec fn revert_truthful(
    units: Seq<Unit>,
    rows: Set<Seq<char>>,
    events: Seq<EventView>,
) -> bool {
    truthful_all(revert_start(units).0, revert_start(units).1, settled(rows), events)
}

/// How many transactions the log begins.
pub open spec fn begun(log: Seq<ActionView>) -> nat
    decreases log.len(),
{
    if log.len() == 0 {
        0
    } else if log.last() is BeginTransaction {
        begun(log.drop_last()) + 1
    } else {
        begun(log.drop_last())
    }
}

/// How many SQL texts the log executes.
pub open spec fn executed(log: Seq<ActionView>) -> nat
    decreases log.len(),
{
    if log.len() == 0 {
        0
    } else if log.last() is Execute {
        executed(log.drop_last()) + 1
    } else {
        executed(log.drop_last())
    }
}

/// The versions whose rows the log adds, in the order of the log.
pub open spec fn inserted(log: Seq<ActionView>) -> Seq<Seq<char>>
    decreases log.len(),
{
    if log.len() == 0 {
        Seq::empty()
    } else {
        match log.last() {
            ActionView::InsertVersion(v) => inserted(log.drop_last()).push(v),
            _ => inserted(log.drop_last()),
        }
    }
}

/// The versions whose rows the log removes, in the order of the log.
pub open spec fn deleted(log: Seq<ActionView>) -> Seq<Seq<char>>
    decreases log.len(),
{
    if log.len() == 0 {
        Seq::empty()
    } else {
        match log.last() {
            ActionView::DeleteVersion(v) => deleted(log.drop_last()).push(v),
            _ => deleted(log.drop_last()),
        }
    }
}

/// No action of the log executes an empty SQL text.
pub open spec fn guarded(log: Seq<ActionView>) -> bool {
    forall|i: int|
        0 <= i < log.len() ==> (#[trigger] log[i] matches ActionView::Execute(sql) ==> sql.len()
            > 0)
}

} // verus!
