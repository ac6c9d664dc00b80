//! What a run and a revert leave behind, proved for every sequence of
//! answers in which the reads of the tracking table are truthful.

use crate::error::ErrorView;
use crate::migration::{Direction, SourceView, Unit};
use crate::pending::{lemma_sort_by_version, not_applied, pending, sort_by_version, versions_of};
use crate::runner::{ActionView, EventView, PhaseView};
use crate::session::{
    index_of_version, revert_start, run_start, session_step, SessionStepView, SessionView,
    StageView,
};
use crate::tracking::{
    after, begun, deleted, drive, executed, guarded, inserted, latest, needs_transaction,
    revert_outcome, revert_truthful, run_outcome, run_truthful, settled, truthful, truthful_all,
    Outcome, Tracking,
};
use vstd::prelude::*;

verus! {

/// Whether SQL can come from the source: it is not unsupported, and it is
/// not a text that is empty.
pub open spec fn runnable(source: SourceView) -> bool {
    match source {
        SourceView::File(_) => true,
        SourceView::Text(sql) => sql.len() > 0,
        SourceView::Unsupported => false,
    }
}

/// The first `done` of the units can all be applied.
pub open spec fn appliable(units: Seq<Unit>, done: int) -> bool {
    forall|j: int| 0 <= j < done && j < units.len() ==> runnable(#[trigger] units[j].up)
}

/// The rows of a table that had `rows` before the first `done` of the
/// pending units were applied.
pub open spec fn rows_after(
    rows: Set<Seq<char>>,
    pending: Seq<Unit>,
    done: int,
) -> Set<Seq<char>> {
    rows.union(versions_of(pending.take(done)).to_set())
}

/// How many units are applied for good once `begun` transactions have been
/// begun and the last of them is not committed.
pub open spec fn settled_units(begun: nat) -> int {
    if begun == 0 {
        0
    } else {
        begun - 1
    }
}

/// What holds of a run of `units` against a table that had `rows`, however
/// far it has come.
///
/// The units are taken in the order of the pending ones, one transaction
/// each; nothing that needs a transaction is asked for while none is open;
/// and no empty SQL text is executed: a unit whose SQL is empty or
/// unsupported is never applied. While the run goes on, and when
/// it has failed, the table holds what it held before and the versions of
/// the units before the one that was begun last: that one has left no row,
/// and none after it was begun. When the run has ended well, every pending
/// unit was begun and the table holds them all.
pub open spec fn run_law(units: Seq<Unit>, rows: Set<Seq<char>>, outcome: Outcome) -> bool {
    let pending = pending(units, rows);
    match outcome {
        Outcome::Running { session, action, table, log } => {
            &&& guarded(log)
            &&& needs_transaction(action) ==> table.open
            &&& begun(log) <= pending.len()
            &&& executed(log) <= begun(log)
            &&& table.rows == rows_after(rows, pending, settled_units(begun(log)))
            &&& appliable(pending, settled_units(begun(log)))
            &&& deleted(log).len() == 0
            &&& (inserted(log) == versions_of(pending.take(settled_units(begun(log))))
                || inserted(log) == versions_of(pending.take(begun(log) as int)))
        },
        Outcome::Finished { result: Ok(_), rows: left, log } => {
            &&& guarded(log)
            &&& begun(log) == pending.len()
            &&& executed(log) == pending.len()
            &&& left == rows_after(rows, pending, pending.len() as int)
            &&& appliable(pending, pending.len() as int)
            &&& deleted(log).len() == 0
            &&& inserted(log) == versions_of(pending)
        },
        Outcome::Finished { result: Err(_), rows: left, log } => {
            &&& guarded(log)
            &&& begun(log) <= pending.len()
            &&& executed(log) <= begun(log)
            &&& left == rows_after(rows, pending, settled_units(begun(log)))
            &&& appliable(pending, settled_units(begun(log)))
            &&& deleted(log).len() == 0
            &&& (inserted(log) == versions_of(pending.take(settled_units(begun(log))))
                || inserted(log) == versions_of(pending.take(begun(log) as int)))
        },
    }
}

/// What ties a run that waits for an answer to the table and to the log.
spec fn run_invariant(
    units: Seq<Unit>,
    rows: Set<Seq<char>>,
    session: SessionView,
    action: ActionView,
    table: Tracking,
    log: Seq<ActionView>,
) -> bool {
    let pending = pending(units, rows);
    &&& guarded(log)
    &&& deleted(log).len() == 0
    &&& match session.stage {
        StageView::Setup => {
            &&& session.units == units
            &&& action == ActionView::SetupDatabase
            &&& table.rows == rows
            &&& begun(log) == 0
            &&& executed(log) == 0
            &&& inserted(log) == Seq::<Seq<char>>::empty()
        },
        StageView::Diff => {
            &&& session.units == units
            &&& action == ActionView::ReadAppliedVersions
            &&& table.rows == rows
            &&& begun(log) == 0
            &&& executed(log) == 0
            &&& inserted(log) == Seq::<Seq<char>>::empty()
        },
        StageView::Latest => false,
        StageView::Unit(direction, index, phase) => {
            &&& direction == Direction::Up
            &&& session.units == pending
            &&& 0 <= index < pending.len()
            &&& table.rows == rows_after(rows, pending, index)
            &&& appliable(pending, index)
            &&& begun(log) == index + 1
            &&& !(phase is Begin) ==> table.open
            &&& match phase {
                PhaseView::Begin => {
                    &&& action == ActionView::BeginTransaction
                    &&& executed(log) == index
                    &&& inserted(log) == versions_of(pending.take(index))
                },
                PhaseView::Announce => {
                    &&& action is Write
                    &&& table.staged == table.rows
                    &&& executed(log) == index
                    &&& inserted(log) == versions_of(pending.take(index))
                },
                PhaseView::Load => {
                    &&& action is ReadFile
                    &&& pending[index].up is File
                    &&& table.staged == table.rows
                    &&& executed(log) == index
                    &&& inserted(log) == versions_of(pending.take(index))
                },
                PhaseView::Execute => {
                    &&& action is Execute
                    &&& runnable(pending[index].up)
                    &&& table.staged == table.rows
                    &&& executed(log) == index + 1
                    &&& inserted(log) == versions_of(pending.take(index))
                },
                PhaseView::Record => {
                    &&& action == ActionView::InsertVersion(pending[index].version)
                    &&& runnable(pending[index].up)
                    &&& table.staged == table.rows
                    &&& executed(log) == index + 1
                    &&& inserted(log) == versions_of(pending.take(index + 1))
                },
                PhaseView::Commit => {
                    &&& action == ActionView::Commit
                    &&& runnable(pending[index].up)
                    &&& table.staged == table.rows.insert(pending[index].version)
                    &&& executed(log) == index + 1
                    &&& inserted(log) == versions_of(pending.take(index + 1))
                },
                PhaseView::Report(_) => {
                    &&& action is Write
                    &&& index <= executed(log) <= index + 1
                    &&& inserted(log) == versions_of(pending.take(index))
                },
            }
        },
    }
}

proof fn lemma_log_push(log: Seq<ActionView>, action: ActionView)
    ensures
        begun(log.push(action)) == begun(log) + if action is BeginTransaction {
            1nat
        } else {
            0nat
        },
        executed(log.push(action)) == executed(log) + if action is Execute {
            1nat
        } else {
            0nat
        },
        inserted(log.push(action)) == match action {
            ActionView::InsertVersion(v) => inserted(log).push(v),
            _ => inserted(log),
        },
        deleted(log.push(action)) == match action {
            ActionView::DeleteVersion(v) => deleted(log).push(v),
            _ => deleted(log),
        },
        guarded(log) && (action matches ActionView::Execute(sql) ==> sql.len() > 0) ==> guarded(
            log.push(action),
        ),
{
    assert(log.push(action).drop_last() =~= log);
}

proof fn lemma_versions_take(units: Seq<Unit>, index: int)
    requires
        0 <= index < units.len(),
    ensures
        versions_of(units.take(index + 1)) == versions_of(units.take(index)).push(
            units[index].version,
        ),
        versions_of(units.take(index + 1)).to_set() == versions_of(units.take(index)).to_set().insert(
            units[index].version,
        ),
        versions_of(units.take(0)) == Seq::<Seq<char>>::empty(),
        versions_of(units.take(units.len() as int)) == versions_of(units),
{
    let shorter = versions_of(units.take(index));
    let longer = versions_of(units.take(index + 1));
    assert(longer =~= shorter.push(units[index].version));
    assert(longer.to_set() =~= shorter.to_set().insert(units[index].version)) by {
        assert forall|v: Seq<char>| longer.contains(v) <==> (shorter.contains(v) || v
            == units[index].version) by {
            if longer.contains(v) {
                let i = choose|i: int| 0 <= i < longer.len() && longer[i] == v;
                if i < index {
                    assert(shorter[i] == v);
                }
            }
            if shorter.contains(v) {
                let i = choose|i: int| 0 <= i < shorter.len() && shorter[i] == v;
                assert(longer[i] == v);
            }
            if v == units[index].version {
                assert(longer[index] == v);
            }
        }
    }
    assert(versions_of(units.take(0)) =~= Seq::<Seq<char>>::empty());
    assert(units.take(units.len() as int) =~= units);
}

proof fn lemma_run_step(
    units: Seq<Unit>,
    rows: Set<Seq<char>>,
    session: SessionView,
    action: ActionView,
    table: Tracking,
    log: Seq<ActionView>,
    event: EventView,
)
    requires
        run_invariant(units, rows, session, action, table, log),
        truthful(table, action, event),
    ensures
        match session_step(session, event) {
            SessionStepView::Continue(next, issued) => run_invariant(
                units,
                rows,
                next,
                issued,
                after(table, action, event),
                log.push(issued),
            ),
            SessionStepView::Finished(result) => run_law(
                units,
                rows,
                Outcome::Finished { result, rows: after(table, action, event).rows, log },
            ),
        },
{
    let pending = pending(units, rows);
    match session_step(session, event) {
        SessionStepView::Continue(next, issued) => {
            lemma_log_push(log, issued);
        },
        SessionStepView::Finished(result) => {},
    }
    match session.stage {
        StageView::Unit(direction, index, phase) => {
            lemma_versions_take(pending, index);
            assert(rows_after(rows, pending, index).insert(pending[index].version) =~= rows_after(
                rows,
                pending,
                index + 1,
            ));
        },
        _ => {
            if pending.len() > 0 {
                lemma_versions_take(pending, 0);
            }
            assert(versions_of(pending.take(0)) =~= Seq::<Seq<char>>::empty());
            assert(rows_after(rows, pending, 0) =~= rows);
            assert(pending.take(pending.len() as int) =~= pending);
        },
    }
}

proof fn lemma_run_from(
    units: Seq<Unit>,
    rows: Set<Seq<char>>,
    session: SessionView,
    action: ActionView,
    table: Tracking,
    log: Seq<ActionView>,
    events: Seq<EventView>,
)
    requires
        run_invariant(units, rows, session, action, table, log),
        truthful_all(session, action, table, events),
    ensures
        run_law(units, rows, drive(session, action, table, log, events)),
    decreases events.len(),
{
    let pending = pending(units, rows);
    if events.len() == 0 {
        assert(versions_of(pending.take(0)) =~= Seq::<Seq<char>>::empty());
        assert(rows_after(rows, pending, 0) =~= rows);
    } else {
        lemma_run_step(units, rows, session, action, table, log, events[0]);
        match session_step(session, events[0]) {
            SessionStepView::Continue(next, issued) => {
                lemma_run_from(
                    units,
                    rows,
                    next,
                    issued,
                    after(table, action, events[0]),
                    log.push(issued),
                    events.drop_first(),
                );
            },
            SessionStepView::Finished(_) => {},
        }
    }
}

/// Whatever the answers are, as long as the reads of the table are answered
/// truthfully, a run keeps to `run_law`.
pub proof fn lemma_run(units: Seq<Unit>, rows: Set<Seq<char>>, events: Seq<EventView>)
    requires
        run_truthful(units, rows, events),
    ensures
        run_law(units, rows, run_outcome(units, rows, events)),
{
    let first = run_start(units).1;
    lemma_log_push(Seq::empty(), first);
    assert(seq![first] =~= Seq::<ActionView>::empty().push(first));
    lemma_run_from(units, rows, run_start(units).0, first, settled(rows), seq![first], events);
}

/// Once every pending unit is applied, nothing is pending.
pub proof fn lemma_nothing_left(units: Seq<Unit>, rows: Set<Seq<char>>)
    ensures
        pending(units, rows_after(rows, pending(units, rows), pending(units, rows).len() as int))
            == Seq::<Unit>::empty(),
{
    let first = pending(units, rows);
    let left = rows_after(rows, first, first.len() as int);
    assert(first.take(first.len() as int) =~= first);
    assert forall|i: int| 0 <= i < units.len() implies left.contains(
        #[trigger] units[i].version,
    ) by {
        if !rows.contains(units[i].version) {
            lemma_not_applied_holds(units, rows, i);
            lemma_sort_by_version(not_applied(units, rows));
            let unit = units[i];
            assert(not_applied(units, rows).to_multiset().count(unit) > 0) by {
                broadcast use vstd::seq_lib::group_to_multiset_ensures;

            }
            assert(first.contains(unit)) by {
                broadcast use vstd::seq_lib::group_to_multiset_ensures;

            }
            let k = choose|k: int| 0 <= k < first.len() && first[k] == unit;
            assert(versions_of(first)[k] == unit.version);
        }
    }
    lemma_all_applied(units, left);
}

/// A unit whose version is not applied is among those that are not applied.
proof fn lemma_not_applied_holds(units: Seq<Unit>, applied: Set<Seq<char>>, i: int)
    requires
        0 <= i < units.len(),
        !applied.contains(units[i].version),
    ensures
        not_applied(units, applied).contains(units[i]),
{
    units.lemma_filter_contains(|u: Unit| !applied.contains(u.version), i);
}

/// Where the version of every unit is applied, no unit is pending.
pub proof fn lemma_all_applied(units: Seq<Unit>, applied: Set<Seq<char>>)
    requires
        forall|i: int| 0 <= i < units.len() ==> applied.contains(#[trigger] units[i].version),
    ensures
        pending(units, applied) == Seq::<Unit>::empty(),
    decreases units.len(),
{
    reveal(Seq::filter);
    if units.len() > 0 {
        let front = units.drop_last();
        assert forall|i: int| 0 <= i < front.len() implies applied.contains(
            #[trigger] front[i].version,
        ) by {
            assert(front[i] == units[i]);
        }
        lemma_all_applied(front, applied);
        assert(applied.contains(units[units.len() - 1].version));
        lemma_sorted_empty(not_applied(front, applied));
    }
}

proof fn lemma_sorted_empty(units: Seq<Unit>)
    requires
        sort_by_version(units) == Seq::<Unit>::empty(),
    ensures
        units == Seq::<Unit>::empty(),
{
    lemma_sort_by_version(units);
    assert(units =~= Seq::<Unit>::empty());
}

/// A second run, after a run that ended well and with no unit added in
/// between, applies nothing: it begins no transaction, executes no SQL, and
/// leaves the table as the first run left it.
pub proof fn lemma_second_run_applies_nothing(
    units: Seq<Unit>,
    rows: Set<Seq<char>>,
    first: Seq<EventView>,
    second: Seq<EventView>,
)
    requires
        run_truthful(units, rows, first),
        run_outcome(units, rows, first) matches Outcome::Finished { result: Ok(_), .. },
        run_truthful(units, run_outcome(units, rows, first)->Finished_rows, second),
    ensures
        match run_outcome(units, run_outcome(units, rows, first)->Finished_rows, second) {
            Outcome::Running { table, log, .. } => {
                &&& table.rows == run_outcome(units, rows, first)->Finished_rows
                &&& begun(log) == 0
                &&& executed(log) == 0
                &&& inserted(log).len() == 0
                &&& deleted(log).len() == 0
            },
            Outcome::Finished { rows: left, log, .. } => {
                &&& left == run_outcome(units, rows, first)->Finished_rows
                &&& begun(log) == 0
                &&& executed(log) == 0
                &&& inserted(log).len() == 0
                &&& deleted(log).len() == 0
            },
        },
{
    let left = run_outcome(units, rows, first)->Finished_rows;
    lemma_run(units, rows, first);
    lemma_nothing_left(units, rows);
    lemma_run(units, left, second);
    let again = pending(units, left);
    assert(versions_of(again.take(0)) =~= Seq::<Seq<char>>::empty());
    assert(rows_after(left, again, 0) =~= left);
}

/// Where the error of a failed unit comes from: an answer carried it, or
/// the unit has no SQL for the direction, or its SQL is empty.
pub open spec fn accounted(error: ErrorView, answers: Seq<EventView>, unit: Unit) -> bool {
    ||| answers.contains(EventView::Failed(error))
    ||| error == ErrorView::EmptyMigration
    ||| error == ErrorView::Unsupported(unit.version)
}

proof fn lemma_run_error_from(
    units: Seq<Unit>,
    rows: Set<Seq<char>>,
    session: SessionView,
    action: ActionView,
    table: Tracking,
    log: Seq<ActionView>,
    all: Seq<EventView>,
    done: int,
)
    requires
        0 <= done <= all.len(),
        run_invariant(units, rows, session, action, table, log),
        truthful_all(session, action, table, all.skip(done)),
        session.stage matches StageView::Unit(_, index, PhaseView::Report(error)) ==> accounted(
            error,
            all.take(done),
            pending(units, rows)[index],
        ),
    ensures
        drive(session, action, table, log, all.skip(done)) matches Outcome::Finished {
            result: Err(error),
            log: issued,
            ..
        } ==> all.contains(EventView::Failed(error)) || (begun(issued) > 0 && accounted(
            error,
            all,
            pending(units, rows)[begun(issued) - 1],
        )),
    decreases all.len() - done,
{
    let events = all.skip(done);
    let pending = pending(units, rows);
    if events.len() > 0 {
        let event = events[0];
        assert(event == all[done]);
        assert(all.take(done + 1) =~= all.take(done).push(event));
        assert(all.take(done + 1)[done] == event);
        assert(events.drop_first() =~= all.skip(done + 1));
        lemma_run_step(units, rows, session, action, table, log, event);
        assert forall|e: ErrorView| all.take(done).contains(EventView::Failed(e)) implies all.take(
            done + 1,
        ).contains(EventView::Failed(e)) && all.contains(EventView::Failed(e)) by {
            let i = choose|i: int|
                0 <= i < all.take(done).len() && all.take(done)[i] == EventView::Failed(e);
            assert(all.take(done + 1)[i] == EventView::Failed(e));
            assert(all[i] == EventView::Failed(e));
        }
        match session_step(session, event) {
            SessionStepView::Continue(next, issued) => {
                lemma_run_error_from(
                    units,
                    rows,
                    next,
                    issued,
                    after(table, action, event),
                    log.push(issued),
                    all,
                    done + 1,
                );
            },
            SessionStepView::Finished(_) => {},
        }
    }
}

/// The error of a failed run is the error of the unit that was begun last,
/// or of the setup or the read before any was begun: an answer carried it,
/// or that unit has no SQL to apply, or its SQL is empty.
pub proof fn lemma_run_error(units: Seq<Unit>, rows: Set<Seq<char>>, events: Seq<EventView>)
    requires
        run_truthful(units, rows, events),
    ensures
        run_outcome(units, rows, events) matches Outcome::Finished {
            result: Err(error),
            log,
            ..
        } ==> events.contains(EventView::Failed(error)) || (begun(log) > 0 && accounted(
            error,
            events,
            pending(units, rows)[begun(log) - 1],
        )),
{
    let first = run_start(units).1;
    lemma_log_push(Seq::empty(), first);
    assert(seq![first] =~= Seq::<ActionView>::empty().push(first));
    assert(events.skip(0) =~= events);
    lemma_run_error_from(
        units,
        rows,
        run_start(units).0,
        first,
        settled(rows),
        seq![first],
        events,
        0,
    );
}

/// Whether an answer is the one that an action gets where nothing goes
/// wrong: a read is answered in kind, a file holds some text, and anything
/// else does not fail.
pub open spec fn obliging(action: ActionView, event: EventView) -> bool {
    match action {
        ActionView::ReadAppliedVersions => event is Versions,
        ActionView::ReadLatestVersion => event is Latest,
        ActionView::ReadFile(_) => event matches EventView::Text(sql) && sql.len() > 0,
        _ => !(event is Failed),
    }
}

/// Every answer on the way is obliging.
pub open spec fn obliging_all(
    session: SessionView,
    action: ActionView,
    events: Seq<EventView>,
) -> bool
    decreases events.len(),
{
    events.len() == 0 || (obliging(action, events[0]) && match session_step(session, events[0]) {
        SessionStepView::Continue(next, issued) => obliging_all(next, issued, events.drop_first()),
        SessionStepView::Finished(_) => true,
    })
}

/// How many answers the work on a unit still takes, at most, in a phase.
spec fn phase_steps(phase: PhaseView) -> nat {
    match phase {
        PhaseView::Begin => 6,
        PhaseView::Announce => 5,
        PhaseView::Load => 4,
        PhaseView::Execute => 3,
        PhaseView::Record => 2,
        PhaseView::Commit => 1,
        PhaseView::Report(_) => 1,
    }
}

/// How many answers a run still takes, at most, where every answer is
/// obliging and `count` units are pending.
spec fn run_steps(session: SessionView, count: nat) -> nat {
    match session.stage {
        StageView::Setup => 2 + 6 * count,
        StageView::Diff => 1 + 6 * count,
        StageView::Latest => 0,
        StageView::Unit(_, index, phase) => (6 * (count - index - 1) + phase_steps(phase)) as nat,
    }
}

proof fn lemma_run_ends_well_from(
    units: Seq<Unit>,
    rows: Set<Seq<char>>,
    session: SessionView,
    action: ActionView,
    table: Tracking,
    log: Seq<ActionView>,
    events: Seq<EventView>,
)
    requires
        run_invariant(units, rows, session, action, table, log),
        truthful_all(session, action, table, events),
        obliging_all(session, action, events),
        appliable(pending(units, rows), pending(units, rows).len() as int),
        !(session.stage matches StageView::Unit(_, _, PhaseView::Report(_))),
        events.len() >= run_steps(session, pending(units, rows).len()),
    ensures
        drive(session, action, table, log, events) matches Outcome::Finished { result: Ok(_), .. },
    decreases events.len(),
{
    let pending = pending(units, rows);
    lemma_run_step(units, rows, session, action, table, log, events[0]);
    match session.stage {
        StageView::Unit(_, index, _) => {
            assert(runnable(pending[index].up));
        },
        _ => {},
    }
    match session_step(session, events[0]) {
        SessionStepView::Continue(next, issued) => {
            assert(run_steps(next, pending.len()) < run_steps(session, pending.len())) by {
                match session.stage {
                    StageView::Unit(_, index, PhaseView::Commit) => {
                        assert(6 * (pending.len() - index - 1) == 6 * (pending.len() - (index + 1)
                            - 1) + 6);
                    },
                    _ => {},
                }
            }
            lemma_run_ends_well_from(
                units,
                rows,
                next,
                issued,
                after(table, action, events[0]),
                log.push(issued),
                events.drop_first(),
            );
        },
        SessionStepView::Finished(_) => {},
    }
}

/// A run in which nothing goes wrong ends well: where every pending unit
/// has SQL to apply and every answer is obliging, the run has ended, and
/// ended well, once it has had two answers and six for each pending unit.
/// By `run_law` the table then holds every pending unit.
pub proof fn lemma_run_ends_well(units: Seq<Unit>, rows: Set<Seq<char>>, events: Seq<EventView>)
    requires
        run_truthful(units, rows, events),
        obliging_all(run_start(units).0, run_start(units).1, events),
        appliable(pending(units, rows), pending(units, rows).len() as int),
        events.len() >= 2 + 6 * pending(units, rows).len(),
    ensures
        run_outcome(units, rows, events) matches Outcome::Finished { result: Ok(_), .. },
{
    let first = run_start(units).1;
    lemma_log_push(Seq::empty(), first);
    assert(seq![first] =~= Seq::<ActionView>::empty().push(first));
    lemma_run_ends_well_from(
        units,
        rows,
        run_start(units).0,
        first,
        settled(rows),
        seq![first],
        events,
    );
}

/// A second run, after a run that ended well and with no unit added in
/// between, ends well too where its answers are obliging: it has then set
/// up the table and read the versions, and has asked for nothing else.
pub proof fn lemma_second_run_ends_well(
    units: Seq<Unit>,
    rows: Set<Seq<char>>,
    first: Seq<EventView>,
    second: Seq<EventView>,
)
    requires
        run_truthful(units, rows, first),
        run_outcome(units, rows, first) matches Outcome::Finished { result: Ok(_), .. },
        run_truthful(units, run_outcome(units, rows, first)->Finished_rows, second),
        obliging_all(run_start(units).0, run_start(units).1, second),
        second.len() >= 2,
    ensures
        run_outcome(units, run_outcome(units, rows, first)->Finished_rows, second)
            == (Outcome::Finished {
            result: Ok(()),
            rows: run_outcome(units, rows, first)->Finished_rows,
            log: seq![ActionView::SetupDatabase, ActionView::ReadAppliedVersions],
        }),
{
    let left = run_outcome(units, rows, first)->Finished_rows;
    lemma_run(units, rows, first);
    lemma_nothing_left(units, rows);
    let start = run_start(units);
    let reading = SessionView { units, stage: StageView::Diff };
    reveal_with_fuel(drive, 3);
    reveal_with_fuel(truthful_all, 3);
    reveal_with_fuel(obliging_all, 3);
    assert(obliging(start.1, second[0]));
    assert(session_step(start.0, second[0]) == SessionStepView::Continue(
        reading,
        ActionView::ReadAppliedVersions,
    ));
    let rest = second.drop_first();
    assert(rest[0] == second[1]);
    assert(after(settled(left), start.1, second[0]) == settled(left));
    assert(obliging(ActionView::ReadAppliedVersions, rest[0]));
    assert(truthful(settled(left), ActionView::ReadAppliedVersions, rest[0]));
    assert(session_step(reading, rest[0]) == SessionStepView::Finished(Ok::<(), ErrorView>(())));
    assert(seq![start.1].push(ActionView::ReadAppliedVersions) =~= seq![
        ActionView::SetupDatabase,
        ActionView::ReadAppliedVersions,
    ]);
}

/// Every action of the log reads the latest applied version.
pub open spec fn only_reads(log: Seq<ActionView>) -> bool {
    forall|i: int| 0 <= i < log.len() ==> log[i] == ActionView::ReadLatestVersion
}

/// What holds of a revert among `units` against a table that had `rows`,
/// however far it has come.
///
/// At most one transaction is begun, nothing that needs a transaction is
/// asked for while none is open, and no row is added. While the revert
/// goes on, and when it has failed, the table holds what it held before.
/// When it has ended well, the SQL of one unit was executed, that unit is
/// the first with the latest applied version and can be reverted, and the
/// table has lost the row of that version and no other. Against an empty table nothing is done but to read
/// the latest version.
pub open spec fn revert_law(units: Seq<Unit>, rows: Set<Seq<char>>, outcome: Outcome) -> bool {
    match outcome {
        Outcome::Running { session, action, table, log } => {
            &&& guarded(log)
            &&& needs_transaction(action) ==> table.open
            &&& begun(log) <= 1
            &&& executed(log) <= begun(log)
            &&& table.rows == rows
            &&& inserted(log).len() == 0
            &&& deleted(log).len() <= 1
            &&& rows == Set::<Seq<char>>::empty() ==> only_reads(log)
        },
        Outcome::Finished { result: Ok(_), rows: left, log } => {
            &&& guarded(log)
            &&& begun(log) == 1
            &&& executed(log) == 1
            &&& inserted(log).len() == 0
            &&& deleted(log).len() == 1
            &&& latest(rows, deleted(log)[0])
            &&& left == rows.remove(deleted(log)[0])
            &&& index_of_version(units, deleted(log)[0]) < units.len()
            &&& runnable(units[index_of_version(units, deleted(log)[0]) as int].down)
        },
        Outcome::Finished { result: Err(_), rows: left, log } => {
            &&& guarded(log)
            &&& begun(log) <= 1
            &&& executed(log) <= begun(log)
            &&& left == rows
            &&& inserted(log).len() == 0
            &&& deleted(log).len() <= 1
            &&& rows == Set::<Seq<char>>::empty() ==> only_reads(log)
        },
    }
}

/// What ties a revert that waits for an answer to the table and to the log.
spec fn revert_invariant(
    units: Seq<Unit>,
    rows: Set<Seq<char>>,
    session: SessionView,
    action: ActionView,
    table: Tracking,
    log: Seq<ActionView>,
) -> bool {
    &&& guarded(log)
    &&& inserted(log).len() == 0
    &&& session.units == units
    &&& table.rows == rows
    &&& match session.stage {
        StageView::Setup => false,
        StageView::Diff => false,
        StageView::Latest => {
            &&& action == ActionView::ReadLatestVersion
            &&& only_reads(log)
            &&& begun(log) == 0
            &&& executed(log) == 0
            &&& deleted(log).len() == 0
        },
        StageView::Unit(direction, index, phase) => {
            &&& direction == Direction::Down
            &&& 0 <= index < units.len()
            &&& index == index_of_version(units, units[index].version)
            &&& latest(rows, units[index].version)
            &&& begun(log) == 1
            &&& !(phase is Begin) ==> table.open
            &&& match phase {
                PhaseView::Begin => {
                    &&& action == ActionView::BeginTransaction
                    &&& executed(log) == 0
                    &&& deleted(log).len() == 0
                },
                PhaseView::Announce => {
                    &&& action is Write
                    &&& table.staged == rows
                    &&& executed(log) == 0
                    &&& deleted(log).len() == 0
                },
                PhaseView::Load => {
                    &&& action is ReadFile
                    &&& units[index].down is File
                    &&& table.staged == rows
                    &&& executed(log) == 0
                    &&& deleted(log).len() == 0
                },
                PhaseView::Execute => {
                    &&& action is Execute
                    &&& runnable(units[index].down)
                    &&& table.staged == rows
                    &&& executed(log) == 1
                    &&& deleted(log).len() == 0
                },
                PhaseView::Record => {
                    &&& action == ActionView::DeleteVersion(units[index].version)
                    &&& runnable(units[index].down)
                    &&& table.staged == rows
                    &&& executed(log) == 1
                    &&& deleted(log) == seq![units[index].version]
                },
                PhaseView::Commit => {
                    &&& action == ActionView::Commit
                    &&& runnable(units[index].down)
                    &&& table.staged == rows.remove(units[index].version)
                    &&& executed(log) == 1
                    &&& deleted(log) == seq![units[index].version]
                },
                PhaseView::Report(_) => {
                    &&& action is Write
                    &&& executed(log) <= 1
                    &&& deleted(log).len() == 0
                },
            }
        },
    }
}

/// The unit that `index_of_version` finds has the version, and none before
/// it has.
pub proof fn lemma_index_of_version_found(units: Seq<Unit>, version: Seq<char>)
    ensures
        index_of_version(units, version) <= units.len(),
        index_of_version(units, version) < units.len() ==> units[index_of_version(
            units,
            version,
        ) as int].version == version,
    decreases units.len(),
{
    if units.len() == 0 || units[0].version == version {
    } else {
        lemma_index_of_version_found(units.drop_first(), version);
    }
}

proof fn lemma_revert_step(
    units: Seq<Unit>,
    rows: Set<Seq<char>>,
    session: SessionView,
    action: ActionView,
    table: Tracking,
    log: Seq<ActionView>,
    event: EventView,
)
    requires
        revert_invariant(units, rows, session, action, table, log),
        truthful(table, action, event),
    ensures
        match session_step(session, event) {
            SessionStepView::Continue(next, issued) => revert_invariant(
                units,
                rows,
                next,
                issued,
                after(table, action, event),
                log.push(issued),
            ),
            SessionStepView::Finished(result) => {
                &&& revert_law(
                    units,
                    rows,
                    Outcome::Finished { result, rows: after(table, action, event).rows, log },
                )
                &&& rows == Set::<Seq<char>>::empty() ==> result == Err::<(), ErrorView>(
                    ErrorView::NoMigrationRun,
                ) || (event matches EventView::Failed(e) && result == Err::<(), ErrorView>(e))
            },
        },
{
    match session_step(session, event) {
        SessionStepView::Continue(next, issued) => {
            lemma_log_push(log, issued);
        },
        SessionStepView::Finished(result) => {},
    }
    if deleted(log).len() == 0 {
        assert(deleted(log) =~= Seq::<Seq<char>>::empty());
    }
    match event {
        EventView::Latest(Some(version)) => {
            lemma_index_of_version_found(units, version);
        },
        _ => {},
    }
    match session.stage {
        StageView::Unit(direction, index, phase) => {
            let version = units[index].version;
            assert(Seq::<Seq<char>>::empty().push(version) =~= seq![version]);
        },
        _ => {},
    }
}

proof fn lemma_revert_from(
    units: Seq<Unit>,
    rows: Set<Seq<char>>,
    session: SessionView,
    action: ActionView,
    table: Tracking,
    log: Seq<ActionView>,
    events: Seq<EventView>,
)
    requires
        revert_invariant(units, rows, session, action, table, log),
        truthful_all(session, action, table, events),
    ensures
        revert_law(units, rows, drive(session, action, table, log, events)),
        rows == Set::<Seq<char>>::empty() ==> match drive(session, action, table, log, events) {
            Outcome::Finished { result: Err(e), .. } => e == ErrorView::NoMigrationRun
                || events.contains(EventView::Failed(e)),
            Outcome::Finished { result: Ok(_), .. } => false,
            _ => true,
        },
    decreases events.len(),
{
    if events.len() == 0 {
    } else {
        lemma_revert_step(units, rows, session, action, table, log, events[0]);
        match session_step(session, events[0]) {
            SessionStepView::Continue(next, issued) => {
                lemma_revert_from(
                    units,
                    rows,
                    next,
                    issued,
                    after(table, action, events[0]),
                    log.push(issued),
                    events.drop_first(),
                );
                assert forall|e: ErrorView|
                    events.drop_first().contains(EventView::Failed(e)) implies events.contains(
                    EventView::Failed(e),
                ) by {
                    let i = choose|i: int|
                        0 <= i < events.drop_first().len() && events.drop_first()[i]
                            == EventView::Failed(e);
                    assert(events[i + 1] == EventView::Failed(e));
                }
            },
            SessionStepView::Finished(result) => {
                assert(events[0] == events[0]);
            },
        }
    }
}

/// Whatever the answers are, as long as the reads of the table are answered
/// truthfully, a revert keeps to `revert_law`.
pub proof fn lemma_revert(units: Seq<Unit>, rows: Set<Seq<char>>, events: Seq<EventView>)
    requires
        revert_truthful(units, rows, events),
    ensures
        revert_law(units, rows, revert_outcome(units, rows, events)),
{
    let first = revert_start(units).1;
    lemma_log_push(Seq::empty(), first);
    assert(seq![first] =~= Seq::<ActionView>::empty().push(first));
    lemma_revert_from(units, rows, revert_start(units).0, first, settled(rows), seq![first], events);
}

/// How many answers a revert still takes, at most, where every answer is
/// obliging.
spec fn revert_steps(session: SessionView) -> nat {
    match session.stage {
        StageView::Latest => 7,
        StageView::Unit(_, _, phase) => phase_steps(phase),
        _ => 0,
    }
}

proof fn lemma_revert_ends_well_from(
    units: Seq<Unit>,
    rows: Set<Seq<char>>,
    session: SessionView,
    action: ActionView,
    table: Tracking,
    log: Seq<ActionView>,
    events: Seq<EventView>,
)
    requires
        revert_invariant(units, rows, session, action, table, log),
        truthful_all(session, action, table, events),
        obliging_all(session, action, events),
        rows != Set::<Seq<char>>::empty(),
        forall|version: Seq<char>| #[trigger]
            latest(rows, version) ==> index_of_version(units, version) < units.len() && runnable(
                units[index_of_version(units, version) as int].down,
            ),
        !(session.stage matches StageView::Unit(_, _, PhaseView::Report(_))),
        events.len() >= revert_steps(session),
    ensures
        drive(session, action, table, log, events) matches Outcome::Finished { result: Ok(_), .. },
    decreases events.len(),
{
    lemma_revert_step(units, rows, session, action, table, log, events[0]);
    match session.stage {
        StageView::Unit(_, index, _) => {
            assert(latest(rows, units[index].version));
            assert(runnable(units[index].down));
        },
        _ => {},
    }
    match session_step(session, events[0]) {
        SessionStepView::Continue(next, issued) => {
            lemma_revert_ends_well_from(
                units,
                rows,
                next,
                issued,
                after(table, action, events[0]),
                log.push(issued),
                events.drop_first(),
            );
        },
        SessionStepView::Finished(_) => {},
    }
}

/// A revert in which nothing goes wrong ends well: where the table has a
/// row, a unit has the latest applied version and SQL to revert it with,
/// and every answer is obliging, the revert has ended, and ended well, once
/// it has had seven answers. By `revert_law` the table has then lost the row
/// of the latest version.
pub proof fn lemma_revert_ends_well(units: Seq<Unit>, rows: Set<Seq<char>>, events: Seq<EventView>)
    requires
        revert_truthful(units, rows, events),
        obliging_all(revert_start(units).0, revert_start(units).1, events),
        rows != Set::<Seq<char>>::empty(),
        forall|version: Seq<char>| #[trigger]
            latest(rows, version) ==> index_of_version(units, version) < units.len() && runnable(
                units[index_of_version(units, version) as int].down,
            ),
        events.len() >= 7,
    ensures
        revert_outcome(units, rows, events) matches Outcome::Finished { result: Ok(_), .. },
{
    let first = revert_start(units).1;
    lemma_log_push(Seq::empty(), first);
    assert(seq![first] =~= Seq::<ActionView>::empty().push(first));
    lemma_revert_ends_well_from(
        units,
        rows,
        revert_start(units).0,
        first,
        settled(rows),
        seq![first],
        events,
    );
}

/// A revert against a table without rows writes nothing: every action of it
/// reads the latest version, the table stays empty, and it ends with
/// `NoMigrationRun` unless a read failed, whose error it then ends with.
pub proof fn lemma_revert_without_history(units: Seq<Unit>, events: Seq<EventView>)
    requires
        revert_truthful(units, Set::empty(), events),
    ensures
        match revert_outcome(units, Set::empty(), events) {
            Outcome::Running { table, log, .. } => {
                &&& only_reads(log)
                &&& table.rows == Set::<Seq<char>>::empty()
            },
            Outcome::Finished { result, rows: left, log } => {
                &&& only_reads(log)
                &&& left == Set::<Seq<char>>::empty()
                &&& result matches Err(e) && (e == ErrorView::NoMigrationRun || events.contains(
                    EventView::Failed(e),
                ))
            },
        },
{
    let first = revert_start(units).1;
    lemma_log_push(Seq::empty(), first);
    assert(seq![first] =~= Seq::<ActionView>::empty().push(first));
    lemma_revert_from(
        units,
        Set::empty(),
        revert_start(units).0,
        first,
        settled(Set::empty()),
        seq![first],
        events,
    );
}

} // verus!
