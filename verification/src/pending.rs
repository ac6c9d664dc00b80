//! The pending set: the migrations that are not applied yet, in ascending
//! order of version.

use crate::migration::{Migration, Unit};
use crate::text::{contains_text, text_lt};
use crate::version::{lemma_version_order, version_less};
use vstd::prelude::*;

verus! {

/// The migrations as the contracts see them.
pub open spec fn units_of<M: Migration>(migrations: Seq<M>) -> Seq<Unit> {
    migrations.map_values(|m: M| m.unit())
}

/// The versions of the units, in their order.
pub open spec fn versions_of(units: Seq<Unit>) -> Seq<Seq<char>> {
    units.map_values(|u: Unit| u.version)
}

/// The units whose version is not among the applied ones, in their order.
pub open spec fn not_applied(units: Seq<Unit>, applied: Set<Seq<char>>) -> Seq<Unit> {
    units.filter(|u: Unit| !applied.contains(u.version))
}

/// No unit stands before one with a smaller version.
pub open spec fn sorted_by_version(units: Seq<Unit>) -> bool {
    forall|i: int, j: int|
        0 <= i < j < units.len() ==> !version_less(
            (#[trigger] units[j]).version,
            (#[trigger] units[i]).version,
        )
}

/// Where a unit goes into a sorted sequence: before the first unit with a
/// greater version, so behind those of its own version.
pub open spec fn insert_position(sorted: Seq<Unit>, unit: Unit) -> nat
    decreases sorted.len(),
{
    if sorted.len() == 0 || version_less(unit.version, sorted[0].version) {
        0
    } else {
        1 + insert_position(sorted.drop_first(), unit)
    }
}

/// The units in ascending order of version; units of one version keep
/// their order.
pub open spec fn sort_by_version(units: Seq<Unit>) -> Seq<Unit>
    decreases units.len(),
{
    if units.len() == 0 {
        units
    } else {
        let sorted = sort_by_version(units.drop_last());
        sorted.insert(insert_position(sorted, units.last()) as int, units.last())
    }
}

/// What a run has to apply: the units that are not applied yet, in
/// ascending order of version.
pub open spec fn pending(units: Seq<Unit>, applied: Set<Seq<char>>) -> Seq<Unit> {
    sort_by_version(not_applied(units, applied))
}

/// `insert_position` is the first place with a greater version, or the end.
pub proof fn lemma_insert_position(sorted: Seq<Unit>, unit: Unit, p: int)
    requires
        0 <= p <= sorted.len(),
        forall|i: int| 0 <= i < p ==> !version_less(unit.version, sorted[i].version),
        p == sorted.len() || version_less(unit.version, sorted[p].version),
    ensures
        insert_position(sorted, unit) == p,
    decreases p,
{
    if p > 0 {
        lemma_insert_position(sorted.drop_first(), unit, p - 1);
    }
}

/// What `insert_position` says of the place it names.
pub proof fn lemma_insert_position_bounds(sorted: Seq<Unit>, unit: Unit)
    ensures
        insert_position(sorted, unit) <= sorted.len(),
        forall|i: int|
            0 <= i < insert_position(sorted, unit) ==> !version_less(
                unit.version,
                sorted[i].version,
            ),
        insert_position(sorted, unit) < sorted.len() ==> version_less(
            unit.version,
            sorted[insert_position(sorted, unit) as int].version,
        ),
    decreases sorted.len(),
{
    if sorted.len() == 0 || version_less(unit.version, sorted[0].version) {
    } else {
        let rest = sorted.drop_first();
        lemma_insert_position_bounds(rest, unit);
        assert forall|i: int| 0 <= i < insert_position(sorted, unit) implies !version_less(
            unit.version,
            sorted[i].version,
        ) by {
            if i > 0 {
                assert(sorted[i] == rest[i - 1]);
            }
        }
    }
}

/// Putting a unit at its place keeps a sorted sequence sorted.
pub proof fn lemma_insert_keeps_sorted(sorted: Seq<Unit>, unit: Unit)
    requires
        sorted_by_version(sorted),
    ensures
        sorted_by_version(sorted.insert(insert_position(sorted, unit) as int, unit)),
{
    lemma_insert_position_bounds(sorted, unit);
    let p = insert_position(sorted, unit) as int;
    let after = sorted.insert(p, unit);
    assert forall|i: int, j: int| 0 <= i < j < after.len() implies !version_less(
        (#[trigger] after[j]).version,
        (#[trigger] after[i]).version,
    ) by {
        if i == p {
            // after[j] stands at or behind the first greater unit
            assert(after[j] == sorted[j - 1]);
            if version_less(after[j].version, unit.version) {
                lemma_version_order(after[j].version, unit.version, sorted[p].version);
                if j - 1 > p {
                    assert(!version_less(sorted[j - 1].version, sorted[p].version));
                } else {
                    lemma_version_order(sorted[p].version, sorted[p].version, sorted[p].version);
                }
            }
        } else if j == p {
            assert(after[i] == sorted[i]);
            assert(!version_less(unit.version, sorted[i].version));
        } else {
            let si = if i < p {
                i
            } else {
                i - 1
            };
            let sj = if j < p {
                j
            } else {
                j - 1
            };
            assert(after[i] == sorted[si]);
            assert(after[j] == sorted[sj]);
        }
    }
}

/// Sorting gives an ascending sequence that holds each unit as often as it
/// was there before.
pub proof fn lemma_sort_by_version(units: Seq<Unit>)
    ensures
        sorted_by_version(sort_by_version(units)),
        sort_by_version(units).to_multiset() == units.to_multiset(),
        sort_by_version(units).len() == units.len(),
    decreases units.len(),
{
    broadcast use vstd::seq_lib::group_to_multiset_ensures;

    if units.len() == 0 {
    } else {
        let front = units.drop_last();
        let sorted = sort_by_version(front);
        lemma_sort_by_version(front);
        lemma_insert_keeps_sorted(sorted, units.last());
        lemma_insert_position_bounds(sorted, units.last());
        assert(front.push(units.last()) =~= units);
        assert(units.to_multiset() == front.to_multiset().insert(units.last()));
    }
}

/// The pending units are in ascending order of version; each of them is one
/// of the units and its version is not applied; and each unit whose version
/// is not applied is pending.
pub proof fn lemma_pending(units: Seq<Unit>, applied: Set<Seq<char>>)
    ensures
        sorted_by_version(pending(units, applied)),
        forall|i: int|
            0 <= i < pending(units, applied).len() ==> {
                &&& units.contains(#[trigger] pending(units, applied)[i])
                &&& !applied.contains(pending(units, applied)[i].version)
            },
        forall|i: int|
            0 <= i < units.len() && !applied.contains(units[i].version) ==> pending(
                units,
                applied,
            ).contains(#[trigger] units[i]),
{
    broadcast use vstd::seq_lib::group_to_multiset_ensures;

    let keep = |u: Unit| !applied.contains(u.version);
    let kept = not_applied(units, applied);
    let sorted = pending(units, applied);
    lemma_sort_by_version(kept);
    assert forall|i: int| 0 <= i < sorted.len() implies {
        &&& units.contains(#[trigger] sorted[i])
        &&& !applied.contains(sorted[i].version)
    } by {
        let unit = sorted[i];
        assert(sorted.to_multiset().count(unit) > 0);
        assert(kept.contains(unit));
        let k = choose|k: int| 0 <= k < kept.len() && kept[k] == unit;
        units.lemma_filter_pred(keep, k);
        units.lemma_filter_contains_rev(keep, unit);
    }
    assert forall|i: int|
        0 <= i < units.len() && !applied.contains(units[i].version) implies sorted.contains(
        #[trigger] units[i],
    ) by {
        units.lemma_filter_contains(keep, i);
        assert(kept.to_multiset().count(units[i]) > 0);
    }
}

/// Where nothing is applied, every unit is pending.
pub proof fn lemma_nothing_applied(units: Seq<Unit>)
    ensures
        not_applied(units, Set::empty()) == units,
    decreases units.len(),
{
    reveal(Seq::filter);
    if units.len() > 0 {
        lemma_nothing_applied(units.drop_last());
        assert(units.drop_last().push(units.last()) =~= units);
    }
}

/// The migrations that `already_run` does not name, in ascending order of
/// version.
pub fn pending_migrations<M: Migration>(migrations: Vec<M>, already_run: &Vec<String>) -> (r: Vec<
    M,
>)
    ensures
        units_of(r@) == pending(units_of(migrations@), already_run.deep_view().to_set()),
        sorted_by_version(units_of(r@)),
        units_of(r@).to_multiset() == not_applied(
            units_of(migrations@),
            already_run.deep_view().to_set(),
        ).to_multiset(),
{
    let ghost all = units_of(migrations@);
    let ghost applied = already_run.deep_view().to_set();
    let mut sorted: Vec<M> = Vec::new();
    proof {
        reveal(Seq::filter);
        assert(all.take(0) =~= Seq::empty());
        assert(units_of(sorted@) =~= Seq::empty());
    }
    for migration in it: migrations
        invariant
            all == units_of(migrations@),
            applied == already_run.deep_view().to_set(),
            it.seq() == migrations@,
            units_of(sorted@) == pending(all.take(it.index() as int), applied),
    {
        let ghost i = it.index() as int;
        proof {
            reveal(Seq::filter);
            assert(all.take(i + 1).drop_last() =~= all.take(i));
            assert(all.take(i + 1).last() == migration.unit());
        }
        if !contains_text(already_run, migration.version()) {
            let ghost before = units_of(sorted@);
            let mut p: usize = 0;
            while p < sorted.len() && !text_lt(migration.version(), sorted[p].version())
                invariant
                    p <= sorted.len(),
                    forall|k: int|
                        0 <= k < p ==> !version_less(
                            migration.unit().version,
                            (#[trigger] sorted@[k]).unit().version,
                        ),
                decreases sorted.len() - p,
            {
                p += 1;
            }
            proof {
                lemma_insert_position(before, migration.unit(), p as int);
                let kept = not_applied(all.take(i), applied);
                assert(not_applied(all.take(i + 1), applied) == kept.push(migration.unit()));
                assert(kept.push(migration.unit()).drop_last() =~= kept);
            }
            sorted.insert(p, migration);
            assert(units_of(sorted@) =~= before.insert(p as int, migration.unit()));
        }
    }
    proof {
        assert(all.take(migrations@.len() as int) =~= all);
        lemma_sort_by_version(not_applied(all, applied));
    }
    sorted
}

} // verus!
