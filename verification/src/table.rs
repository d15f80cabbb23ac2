//! The page's table: runs of slots by the slot that each begins with.
use vstd::prelude::*;
use vstd::string::*;

use crate::rows::{
    continued, continues, run_len, runs_hold_the_slots, runs_of, runs_view, single, slots_in_run,
    slots_in_runs, slots_named, LeaderRow, LeaderSlotView, RunView,
};
use crate::text::begins_with;

verus! {

/// Whether the runs ascend by the slots they begin with.
pub open spec fn sorted(runs: Seq<RunView>) -> bool {
    forall|i: int, j: int|
        0 <= i < j < runs.len() ==> (#[trigger] runs[i]).start_slot < (
        #[trigger] runs[j]).start_slot
}

/// Whether one of the runs begins with `slot`.
pub open spec fn has_start(runs: Seq<RunView>, slot: i64) -> bool {
    exists|i: int| 0 <= i < runs.len() && (#[trigger] runs[i]).start_slot == slot
}

/// The runs by the slots they begin with.
pub open spec fn by_slot(runs: Seq<RunView>) -> Map<i64, RunView> {
    Map::new(
        |slot: i64| has_start(runs, slot),
        |slot: i64|
            runs[choose|i: int| 0 <= i < runs.len() && (#[trigger] runs[i]).start_slot == slot],
    )
}

/// The table with one run more, at its place; a run that begins with the same slot
/// gives way.
pub open spec fn put(runs: Seq<RunView>, run: RunView) -> Seq<RunView>
    decreases runs.len(),
{
    if runs.len() == 0 || runs.last().start_slot < run.start_slot {
        runs.push(run)
    } else if runs.last().start_slot == run.start_slot {
        runs.drop_last().push(run)
    } else {
        put(runs.drop_last(), run).push(runs.last())
    }
}

/// The table of the runs, of which a later one counts before an earlier one.
pub open spec fn tabled(runs: Seq<RunView>) -> Seq<RunView>
    decreases runs.len(),
{
    if runs.len() == 0 {
        Seq::empty()
    } else {
        put(tabled(runs.drop_last()), runs.last())
    }
}

/// Whether a filter lets a run pass: its leader's name begins with the prefix.
pub open spec fn passes(run: RunView, prefix: Seq<char>) -> bool {
    prefix.is_prefix_of(run.leader)
}

/// How many slots the runs have that a filter lets pass.
pub open spec fn counted(runs: Seq<RunView>, prefix: Seq<char>) -> int
    decreases runs.len(),
{
    if runs.len() == 0 {
        0
    } else {
        counted(runs.drop_last(), prefix) + if passes(runs.last(), prefix) {
            run_len(runs.last())
        } else {
            0
        }
    }
}

/// How many slots the runs have.
pub open spec fn total(runs: Seq<RunView>) -> int
    decreases runs.len(),
{
    if runs.len() == 0 {
        0
    } else {
        total(runs.drop_last()) + run_len(runs.last())
    }
}

/// A run without its slots before `next_slot`.
pub open spec fn cut(run: RunView, next_slot: i64) -> RunView {
    RunView { start_slot: next_slot, ..run }
}

/// The table without the slots before `next_slot`. Of several runs that would then
/// begin with that slot the one that began last before it counts.
pub open spec fn pruned(runs: Seq<RunView>, next_slot: i64) -> Seq<RunView>
    decreases runs.len(),
{
    if runs.len() == 0 {
        Seq::empty()
    } else {
        let kept = pruned(runs.drop_last(), next_slot);
        let run = runs.last();
        if kept.len() > 0 && kept.last().start_slot == run.start_slot {
            kept
        } else if run.end_slot < next_slot {
            kept
        } else if run.start_slot < next_slot {
            if kept.len() > 0 {
                kept.drop_last().push(cut(run, next_slot))
            } else {
                kept.push(cut(run, next_slot))
            }
        } else {
            kept.push(run)
        }
    }
}

/// What is to be done to the rows of the page.
pub enum RowAction {
    /// Let the row of this slot go.
    Remove(i64),
    /// Write the run anew into the row of its slot.
    Refresh(LeaderRow),
    /// Make a row for the run, at its place.
    Create(LeaderRow),
    /// Let the row of the slot `from` be that of the run's slot, and write the run
    /// anew into it.
    Move { from: i64, row: LeaderRow },
}

/// The model of [`RowAction`].
pub enum RowActionView {
    Remove(i64),
    Refresh(RunView),
    Create(RunView),
    Move { from: i64, row: RunView },
}

impl View for RowAction {
    type V = RowActionView;

    open spec fn view(&self) -> RowActionView {
        match self {
            RowAction::Remove(slot) => RowActionView::Remove(*slot),
            RowAction::Refresh(row) => RowActionView::Refresh(row@),
            RowAction::Create(row) => RowActionView::Create(row@),
            RowAction::Move { from, row } => RowActionView::Move { from: *from, row: row@ },
        }
    }
}

/// The models of the actions.
pub open spec fn actions_view(actions: Seq<RowAction>) -> Seq<RowActionView> {
    Seq::new(actions.len(), |i: int| actions[i]@)
}

/// What is to be done to the rows when the slots before `next_slot` go.
pub open spec fn prune_actions(runs: Seq<RunView>, next_slot: i64) -> Seq<RowActionView>
    decreases runs.len(),
{
    if runs.len() == 0 {
        Seq::empty()
    } else {
        let actions = prune_actions(runs.drop_last(), next_slot);
        let kept = pruned(runs.drop_last(), next_slot);
        let run = runs.last();
        if kept.len() > 0 && kept.last().start_slot == run.start_slot {
            actions
        } else if run.end_slot < next_slot {
            actions.push(RowActionView::Remove(run.start_slot))
        } else if run.start_slot < next_slot {
            actions.push(RowActionView::Move { from: run.start_slot, row: cut(run, next_slot) })
        } else {
            actions
        }
    }
}

/// The rows that go when other runs come: those whose slot none of them begins with.
pub open spec fn removals(runs: Seq<RunView>, incoming: Seq<RunView>) -> Seq<RowActionView>
    decreases runs.len(),
{
    if runs.len() == 0 {
        Seq::empty()
    } else if has_start(incoming, runs.last().start_slot) {
        removals(runs.drop_last(), incoming)
    } else {
        removals(runs.drop_last(), incoming).push(RowActionView::Remove(runs.last().start_slot))
    }
}

/// What is to be done for the runs that come: where there is a row for its slot, a
/// run is written into that, or else it gets one.
pub open spec fn arrivals(runs: Seq<RunView>, incoming: Seq<RunView>) -> Seq<RowActionView>
    decreases incoming.len(),
{
    if incoming.len() == 0 {
        Seq::empty()
    } else {
        let run = incoming.last();
        arrivals(runs, incoming.drop_last()).push(
            if has_start(runs, run.start_slot) || has_start(
                incoming.drop_last(),
                run.start_slot,
            ) {
                RowActionView::Refresh(run)
            } else {
                RowActionView::Create(run)
            },
        )
    }
}

/// Whether a filter lets a row pass: its leader's name begins with the prefix.
pub fn row_matches_prefix(row: &LeaderRow, prefix: &str) -> (matched: bool)
    ensures
        matched == passes(row@, prefix@),
{
    begins_with(row.leader.as_str(), prefix)
}

fn starts_at(rows: &Vec<LeaderRow>, slot: i64) -> (found: bool)
    ensures
        found == has_start(runs_view(rows@), slot),
{
    let mut index: usize = 0;
    while index < rows.len()
        invariant
            index <= rows.len(),
            forall|i: int| 0 <= i < index ==> (#[trigger] runs_view(rows@)[i]).start_slot != slot,
        decreases rows.len() - index,
    {
        if rows[index].start_slot == slot {
            assert(runs_view(rows@)[index as int].start_slot == slot);
            return true;
        }
        index = index + 1;
    }
    false
}

fn put_row(rows: &mut Vec<LeaderRow>, row: LeaderRow)
    ensures
        runs_view(final(rows)@) == put(runs_view(old(rows)@), row@),
{
    let ghost before = runs_view(rows@);
    let mut at: usize = rows.len();
    assert(before.take(at as int) =~= before);
    assert(put(before, row@) =~= put(before.take(at as int), row@) + before.skip(at as int));
    while at > 0 && rows[at - 1].start_slot > row.start_slot
        invariant
            at <= rows.len(),
            runs_view(rows@) == before,
            put(before, row@) == put(before.take(at as int), row@) + before.skip(at as int),
        decreases at,
    {
        assert(before[at - 1] == rows@[at - 1]@);
        assert(before.take(at as int).drop_last() =~= before.take(at - 1));
        at = at - 1;
        assert(put(before, row@) =~= put(before.take(at as int), row@) + before.skip(at as int));
    }
    if at > 0 && rows[at - 1].start_slot == row.start_slot {
        assert(before[at - 1] == rows@[at - 1]@);
        assert(before.take(at as int).drop_last() =~= before.take(at - 1));
        rows.set(at - 1, row);
        assert(runs_view(rows@) =~= before.take(at - 1).push(row@) + before.skip(at as int));
    } else {
        if at > 0 {
            assert(before[at - 1] == rows@[at - 1]@);
        }
        rows.insert(at, row);
        assert(runs_view(rows@) =~= before.take(at as int).push(row@) + before.skip(at as int));
    }
}

/// A run put into a table is found there under its slot, and nothing else changes.
pub proof fn putting_is_inserting(runs: Seq<RunView>, run: RunView)
    requires
        sorted(runs),
    ensures
        sorted(put(runs, run)),
        by_slot(put(runs, run)) == by_slot(runs).insert(run.start_slot, run),
{
    lemma_put(runs, run);
    let after = put(runs, run);
    assert forall|slot: i64| has_start(after, slot) == (has_start(runs, slot) || slot
        == run.start_slot) by {
        lemma_put_starts(runs, run, slot);
    }
    assert(by_slot(after).dom() =~= by_slot(runs).insert(run.start_slot, run).dom());
    assert forall|slot: i64| #[trigger] by_slot(after).contains_key(slot) implies by_slot(
        after,
    )[slot] == by_slot(runs).insert(run.start_slot, run)[slot] by {
        lemma_put_starts(runs, run, slot);
        let i = choose|i: int| 0 <= i < after.len() && (#[trigger] after[i]).start_slot == slot;
        lemma_put_holds(runs, run, i);
        if slot != run.start_slot {
            let k = choose|k: int| 0 <= k < runs.len() && (#[trigger] runs[k]).start_slot == slot;
            let m = choose|m: int| 0 <= m < runs.len() && #[trigger] runs[m] == after[i];
            assert(m == k) by {
                if m < k {
                    assert(runs[m].start_slot < runs[k].start_slot);
                } else if k < m {
                    assert(runs[k].start_slot < runs[m].start_slot);
                }
            }
        }
    }
    assert(by_slot(after) =~= by_slot(runs).insert(run.start_slot, run));
}

proof fn lemma_put_holds(runs: Seq<RunView>, run: RunView, i: int)
    requires
        0 <= i < put(runs, run).len(),
    ensures
        put(runs, run)[i] == run || exists|m: int|
            0 <= m < runs.len() && #[trigger] runs[m] == put(runs, run)[i],
        sorted(runs) && put(runs, run)[i].start_slot == run.start_slot ==> put(runs, run)[i] == run,
    decreases runs.len(),
{
    let after = put(runs, run);
    if runs.len() == 0 || runs.last().start_slot < run.start_slot {
        if i < runs.len() {
            assert(after[i] == runs[i]);
            if sorted(runs) && i < runs.len() - 1 {
                assert(runs[i].start_slot < runs[runs.len() - 1].start_slot);
            }
        }
    } else if runs.last().start_slot == run.start_slot {
        if i < runs.len() - 1 {
            assert(after[i] == runs[i]);
            if sorted(runs) {
                assert(runs[i].start_slot < runs[runs.len() - 1].start_slot);
            }
        }
    } else {
        let inner = put(runs.drop_last(), run);
        if i < inner.len() {
            lemma_put_holds(runs.drop_last(), run, i);
            if inner[i] != run {
                let m = choose|m: int|
                    0 <= m < runs.drop_last().len() && #[trigger] runs.drop_last()[m] == inner[i];
                assert(runs[m] == after[i]);
            }
        } else {
            assert(after[i] == runs[runs.len() - 1]);
        }
    }
}

proof fn lemma_put_starts(runs: Seq<RunView>, run: RunView, slot: i64)
    ensures
        has_start(put(runs, run), slot) == (has_start(runs, slot) || slot == run.start_slot),
    decreases runs.len(),
{
    let after = put(runs, run);
    if runs.len() == 0 || runs.last().start_slot < run.start_slot {
        lemma_push_starts(runs, run, slot);
    } else if runs.last().start_slot == run.start_slot {
        assert(runs.drop_last().push(runs.last()) =~= runs);
        lemma_push_starts(runs.drop_last(), run, slot);
        lemma_push_starts(runs.drop_last(), runs.last(), slot);
    } else {
        lemma_put_starts(runs.drop_last(), run, slot);
        assert(runs.drop_last().push(runs.last()) =~= runs);
        lemma_push_starts(runs.drop_last(), runs.last(), slot);
        lemma_push_starts(put(runs.drop_last(), run), runs.last(), slot);
    }
}

pub(crate) proof fn lemma_push_starts(runs: Seq<RunView>, run: RunView, slot: i64)
    ensures
        has_start(runs.push(run), slot) == (has_start(runs, slot) || slot == run.start_slot),
{
    let after = runs.push(run);
    if has_start(runs, slot) {
        let i = choose|i: int| 0 <= i < runs.len() && (#[trigger] runs[i]).start_slot == slot;
        assert(after[i].start_slot == slot);
    }
    if slot == run.start_slot {
        assert(after[runs.len() as int].start_slot == slot);
    }
    if has_start(after, slot) && slot != run.start_slot {
        let i = choose|i: int| 0 <= i < after.len() && (#[trigger] after[i]).start_slot == slot;
        assert(runs[i].start_slot == slot);
    }
}

proof fn lemma_put(runs: Seq<RunView>, run: RunView)
    requires
        sorted(runs),
    ensures
        sorted(put(runs, run)),
        put(runs, run).last().start_slot == if runs.len() > 0 && runs.last().start_slot
            > run.start_slot {
            runs.last().start_slot
        } else {
            run.start_slot
        },
        put(runs, run).len() > 0,
        total(put(runs, run)) <= total(runs) + run_len(run),
    decreases runs.len(),
{
    let after = put(runs, run);
    if runs.len() == 0 || runs.last().start_slot < run.start_slot {
        lemma_push(runs, run);
        assert(after.drop_last() =~= runs);
    } else if runs.last().start_slot == run.start_slot {
        lemma_drop(runs);
        lemma_push(runs.drop_last(), run);
        assert(after.drop_last() =~= runs.drop_last());
    } else {
        lemma_drop(runs);
        lemma_put(runs.drop_last(), run);
        lemma_push(put(runs.drop_last(), run), runs.last());
        assert(after.drop_last() =~= put(runs.drop_last(), run));
    }
}

pub(crate) proof fn lemma_drop(runs: Seq<RunView>)
    requires
        sorted(runs),
        runs.len() > 0,
    ensures
        sorted(runs.drop_last()),
        runs.len() > 1 ==> runs.drop_last().last().start_slot < runs.last().start_slot,
{
    let rest = runs.drop_last();
    assert forall|i: int, j: int| 0 <= i < j < rest.len() implies (#[trigger] rest[i]).start_slot
        < (#[trigger] rest[j]).start_slot by {
        assert(runs[i].start_slot < runs[j].start_slot);
    }
    if runs.len() > 1 {
        assert(runs[runs.len() - 2].start_slot < runs[runs.len() - 1].start_slot);
    }
}

proof fn lemma_push(runs: Seq<RunView>, run: RunView)
    requires
        sorted(runs),
        runs.len() > 0 ==> runs.last().start_slot < run.start_slot,
    ensures
        sorted(runs.push(run)),
{
    let after = runs.push(run);
    assert forall|i: int, j: int| 0 <= i < j < after.len() implies (#[trigger] after[i]).start_slot
        < (#[trigger] after[j]).start_slot by {
        if j < runs.len() {
            assert(runs[i].start_slot < runs[j].start_slot);
        } else if i < runs.len() - 1 {
            assert(runs[i].start_slot < runs[runs.len() - 1].start_slot);
        }
    }
}

pub(crate) proof fn lemma_tabled(runs: Seq<RunView>)
    ensures
        sorted(tabled(runs)),
        0 <= total(tabled(runs)) <= total(runs),
    decreases runs.len(),
{
    if runs.len() > 0 {
        lemma_tabled(runs.drop_last());
        lemma_put(tabled(runs.drop_last()), runs.last());
    }
    lemma_total(tabled(runs));
}

proof fn lemma_total(runs: Seq<RunView>)
    ensures
        total(runs) >= 0,
    decreases runs.len(),
{
    if runs.len() > 0 {
        lemma_total(runs.drop_last());
    }
}

proof fn lemma_counted(runs: Seq<RunView>, prefix: Seq<char>)
    ensures
        0 <= counted(runs, prefix) <= total(runs),
    decreases runs.len(),
{
    if runs.len() > 0 {
        lemma_counted(runs.drop_last(), prefix);
    }
}

proof fn lemma_counted_take(runs: Seq<RunView>, prefix: Seq<char>, at: int)
    requires
        0 <= at <= runs.len(),
    ensures
        0 <= counted(runs.take(at), prefix) <= counted(runs, prefix),
    decreases runs.len(),
{
    lemma_counted(runs.take(at), prefix);
    if at < runs.len() {
        lemma_counted_take(runs.drop_last(), prefix, at);
        assert(runs.drop_last().take(at) =~= runs.take(at));
    } else {
        assert(runs.take(at) =~= runs);
    }
}

pub(crate) proof fn lemma_pruned(runs: Seq<RunView>, next_slot: i64)
    requires
        sorted(runs),
    ensures
        ({
            let kept = pruned(runs, next_slot);
            &&& sorted(kept)
            &&& forall|i: int|
                0 <= i < kept.len() ==> next_slot <= (#[trigger] kept[i]).start_slot && next_slot
                    <= kept[i].end_slot
            &&& kept.len() > 0 && runs.last().start_slot <= next_slot ==> kept.len() == 1
                && kept[0].start_slot == next_slot
            &&& kept.len() > 0 && runs.last().start_slot > next_slot ==> kept.last().start_slot
                <= runs.last().start_slot
            &&& total(kept) <= total(runs)
        }),
    decreases runs.len(),
{
    if runs.len() > 0 {
        let rest = runs.drop_last();
        let run = runs.last();
        lemma_drop(runs);
        lemma_pruned(rest, next_slot);
        let kept = pruned(rest, next_slot);
        let after = pruned(runs, next_slot);
        if kept.len() > 0 && kept.last().start_slot == run.start_slot {
        } else if run.end_slot < next_slot {
        } else if run.start_slot < next_slot {
            if kept.len() > 0 {
                assert(kept.len() == 1);
                assert(after =~= seq![cut(run, next_slot)]);
                assert(after.drop_last() =~= kept.drop_last());
                lemma_total(kept.drop_last());
            } else {
                assert(after.drop_last() =~= kept);
            }
        } else {
            assert(after.drop_last() =~= kept);
            lemma_push(kept, run);
        }
    }
}

/// Once the slots before `next_slot` have gone, no run begins or ends before it, and
/// letting them go again changes nothing.
pub proof fn pruning_twice_is_pruning_once(runs: Seq<RunView>, next_slot: i64)
    requires
        sorted(runs),
    ensures
        ({
            let kept = pruned(runs, next_slot);
            &&& forall|i: int|
                0 <= i < kept.len() ==> next_slot <= (#[trigger] kept[i]).start_slot && next_slot
                    <= kept[i].end_slot
            &&& pruned(kept, next_slot) == kept
        }),
{
    lemma_pruned(runs, next_slot);
    lemma_nothing_to_prune(pruned(runs, next_slot), next_slot);
}

proof fn lemma_nothing_to_prune(runs: Seq<RunView>, next_slot: i64)
    requires
        sorted(runs),
        forall|i: int|
            0 <= i < runs.len() ==> next_slot <= (#[trigger] runs[i]).start_slot && next_slot
                <= runs[i].end_slot,
    ensures
        pruned(runs, next_slot) == runs,
        prune_actions(runs, next_slot) == Seq::<RowActionView>::empty(),
    decreases runs.len(),
{
    if runs.len() > 0 {
        let rest = runs.drop_last();
        lemma_drop(runs);
        assert forall|i: int| 0 <= i < rest.len() implies next_slot <= (
        #[trigger] rest[i]).start_slot && next_slot <= rest[i].end_slot by {
            assert(runs[i].start_slot >= next_slot);
        }
        lemma_nothing_to_prune(rest, next_slot);
        assert(runs[runs.len() - 1] == runs.last());
        assert(pruned(runs, next_slot) =~= runs);
    }
}

/// Whether each run ends before the next one begins, and none ends before it begins.
pub open spec fn disjoint(runs: Seq<RunView>) -> bool {
    &&& forall|i: int|
        0 <= i < runs.len() ==> (#[trigger] runs[i]).start_slot <= runs[i].end_slot
    &&& forall|i: int, j: int|
        0 <= i < j < runs.len() ==> (#[trigger] runs[i]).end_slot < (#[trigger] runs[j]).start_slot
}

/// Whether a run has the slot, with this leader.
pub open spec fn leads(runs: Seq<RunView>, slot: int, leader: Seq<char>) -> bool {
    exists|i: int|
        0 <= i < runs.len() && (#[trigger] runs[i]).start_slot <= slot <= runs[i].end_slot
            && runs[i].leader == leader
}

pub(crate) proof fn lemma_disjoint_drop(runs: Seq<RunView>)
    requires
        disjoint(runs),
        runs.len() > 0,
    ensures
        disjoint(runs.drop_last()),
        sorted(runs),
        runs.last().start_slot <= runs.last().end_slot,
        forall|i: int|
            0 <= i < runs.len() - 1 ==> (#[trigger] runs.drop_last()[i]).end_slot
                < runs.last().start_slot,
{
    let rest = runs.drop_last();
    assert(runs[runs.len() - 1] == runs.last());
    assert forall|i: int, j: int| 0 <= i < j < rest.len() implies (#[trigger] rest[i]).end_slot < (
    #[trigger] rest[j]).start_slot by {
        assert(runs[i].end_slot < runs[j].start_slot);
    }
    assert forall|i: int| 0 <= i < rest.len() implies (#[trigger] rest[i]).start_slot
        <= rest[i].end_slot by {
        assert(runs[i].start_slot <= runs[i].end_slot);
    }
    assert forall|i: int| 0 <= i < rest.len() implies (#[trigger] rest[i]).end_slot
        < runs.last().start_slot by {
        assert(runs[i].end_slot < runs[runs.len() - 1].start_slot);
    }
    assert forall|i: int, j: int| 0 <= i < j < runs.len() implies (#[trigger] runs[i]).start_slot
        < (#[trigger] runs[j]).start_slot by {
        assert(runs[i].start_slot <= runs[i].end_slot);
        assert(runs[i].end_slot < runs[j].start_slot);
    }
}

proof fn lemma_disjoint_push(runs: Seq<RunView>, run: RunView)
    requires
        disjoint(runs),
        run.start_slot <= run.end_slot,
        forall|i: int| 0 <= i < runs.len() ==> (#[trigger] runs[i]).end_slot < run.start_slot,
    ensures
        disjoint(runs.push(run)),
{
    let after = runs.push(run);
    assert forall|i: int, j: int| 0 <= i < j < after.len() implies (#[trigger] after[i]).end_slot
        < (#[trigger] after[j]).start_slot by {
        assert(runs[i].end_slot < run.start_slot);
        if j < runs.len() {
            assert(runs[i].end_slot < runs[j].start_slot);
        }
    }
    assert forall|i: int| 0 <= i < after.len() implies (#[trigger] after[i]).start_slot
        <= after[i].end_slot by {
        if i < runs.len() {
            assert(runs[i].start_slot <= runs[i].end_slot);
        }
    }
}

/// What pruning disjoint runs comes to: the last run decides as if it stood alone.
pub(crate) proof fn lemma_disjoint_pruned(runs: Seq<RunView>, next_slot: i64)
    requires
        disjoint(runs),
    ensures
        disjoint(pruned(runs, next_slot)),
        runs.len() > 0 ==> {
            let rest = pruned(runs.drop_last(), next_slot);
            let run = runs.last();
            &&& run.end_slot < next_slot ==> rest.len() == 0 && pruned(runs, next_slot).len() == 0
            &&& run.start_slot < next_slot <= run.end_slot ==> rest.len() == 0 && pruned(
                runs,
                next_slot,
            ) == seq![cut(run, next_slot)]
            &&& next_slot <= run.start_slot ==> pruned(runs, next_slot) == rest.push(run)
            &&& forall|i: int|
                0 <= i < rest.len() ==> (#[trigger] rest[i]).end_slot < run.start_slot
        },
    decreases runs.len(),
{
    if runs.len() > 0 {
        let before = runs.drop_last();
        let run = runs.last();
        lemma_disjoint_drop(runs);
        lemma_drop(runs);
        lemma_disjoint_pruned(before, next_slot);
        lemma_pruned(before, next_slot);
        let rest = pruned(before, next_slot);
        assert forall|i: int| 0 <= i < rest.len() implies (#[trigger] rest[i]).end_slot
            < run.start_slot by {
            lemma_pruned_ends(before, next_slot, i);
        }
        if rest.len() > 0 {
            assert(rest[rest.len() - 1] == rest.last());
            assert(rest.last().end_slot < run.start_slot);
            assert(next_slot <= rest.last().end_slot);
            assert(rest.last().start_slot <= rest.last().end_slot);
        }
        if next_slot <= run.start_slot {
            lemma_disjoint_push(rest, run);
        } else if next_slot <= run.end_slot {
            assert(pruned(runs, next_slot) =~= seq![cut(run, next_slot)]);
        }
    }
}

/// Each run that is left ends where one of the runs ended.
proof fn lemma_pruned_ends(runs: Seq<RunView>, next_slot: i64, at: int)
    requires
        0 <= at < pruned(runs, next_slot).len(),
    ensures
        exists|i: int|
            0 <= i < runs.len() && (#[trigger] runs[i]).end_slot == pruned(
                runs,
                next_slot,
            )[at].end_slot,
    decreases runs.len(),
{
    if runs.len() > 0 {
        let before = runs.drop_last();
        let rest = pruned(before, next_slot);
        let after = pruned(runs, next_slot);
        assert(runs[runs.len() - 1] == runs.last());
        if at < rest.len() && after[at] == rest[at] {
            lemma_pruned_ends(before, next_slot, at);
            let i = choose|i: int|
                0 <= i < before.len() && (#[trigger] before[i]).end_slot == rest[at].end_slot;
            assert(runs[i].end_slot == after[at].end_slot);
        }
    }
}

/// Of runs that do not overlap, letting the slots before `next_slot` go leaves every
/// slot from there on its leader, and leaves no other slot.
pub proof fn pruning_keeps_what_is_to_come(
    runs: Seq<RunView>,
    next_slot: i64,
    slot: int,
    leader: Seq<char>,
)
    requires
        disjoint(runs),
    ensures
        leads(pruned(runs, next_slot), slot, leader) <==> next_slot <= slot && leads(
            runs,
            slot,
            leader,
        ),
    decreases runs.len(),
{
    let kept = pruned(runs, next_slot);
    if runs.len() > 0 {
        let before = runs.drop_last();
        let run = runs.last();
        let rest = pruned(before, next_slot);
        lemma_disjoint_drop(runs);
        lemma_disjoint_pruned(runs, next_slot);
        pruning_keeps_what_is_to_come(before, next_slot, slot, leader);
        assert(before.push(run) =~= runs);
        lemma_leads_push(before, run, slot, leader);
        if run.end_slot < next_slot {
            assert(rest =~= kept);
        } else if run.start_slot < next_slot {
            assert(rest.push(cut(run, next_slot)) =~= kept);
            lemma_leads_push(rest, cut(run, next_slot), slot, leader);
        } else {
            lemma_leads_push(rest, run, slot, leader);
        }
    }
}

proof fn lemma_leads_push(runs: Seq<RunView>, run: RunView, slot: int, leader: Seq<char>)
    ensures
        leads(runs.push(run), slot, leader) == (leads(runs, slot, leader) || (run.start_slot <= slot
            <= run.end_slot && run.leader == leader)),
{
    let after = runs.push(run);
    if leads(runs, slot, leader) {
        let i = choose|i: int|
            0 <= i < runs.len() && (#[trigger] runs[i]).start_slot <= slot <= runs[i].end_slot
                && runs[i].leader == leader;
        assert(after[i] == runs[i]);
    }
    assert(after[runs.len() as int] == run);
    if leads(after, slot, leader) {
        let i = choose|i: int|
            0 <= i < after.len() && (#[trigger] after[i]).start_slot <= slot <= after[i].end_slot
                && after[i].leader == leader;
        if i < runs.len() {
            assert(runs[i] == after[i]);
        }
    }
}

/// Runs that do not overlap may be pruned slot by slot or at once.
pub proof fn pruning_may_take_steps(runs: Seq<RunView>, first: i64, second: i64)
    requires
        disjoint(runs),
        first <= second,
    ensures
        pruned(pruned(runs, first), second) == pruned(runs, second),
    decreases runs.len(),
{
    if runs.len() > 0 {
        let before = runs.drop_last();
        let run = runs.last();
        lemma_disjoint_drop(runs);
        lemma_disjoint_pruned(runs, first);
        lemma_disjoint_pruned(runs, second);
        pruning_may_take_steps(before, first, second);
        let rest = pruned(before, first);
        if run.end_slot < first {
            assert(pruned(runs, first) =~= Seq::empty());
            assert(pruned(runs, second) =~= Seq::empty());
        } else if run.start_slot < first {
            let only = seq![cut(run, first)];
            assert(only.drop_last() =~= Seq::empty());
            assert(pruned(only.drop_last(), second) =~= Seq::empty());
            assert(pruned(only, second) =~= pruned(runs, second));
        } else {
            let kept = rest.push(run);
            assert(kept.drop_last() =~= rest);
            lemma_disjoint_pruned(kept, second);
            assert(pruned(kept, second) =~= pruned(runs, second));
        }
    }
}

proof fn lemma_total_is_slots(runs: Seq<RunView>)
    ensures
        total(runs) == slots_in_runs(runs).len(),
    decreases runs.len(),
{
    if runs.len() > 0 {
        lemma_total_is_slots(runs.drop_last());
    }
}

/// As many slots as were grouped are in the runs.
pub proof fn runs_have_as_many_slots(rows: Seq<LeaderSlotView>, max_len: Option<i64>)
    ensures
        total(runs_of(rows, max_len)) == rows.len(),
{
    runs_hold_the_slots(rows, max_len);
    lemma_total_is_slots(runs_of(rows, max_len));
}

/// Whether the slots ascend, and none comes twice.
pub open spec fn slots_ascend(rows: Seq<LeaderSlotView>) -> bool {
    forall|i: int, j: int|
        0 <= i < j < rows.len() ==> (#[trigger] rows[i]).slot < (#[trigger] rows[j]).slot
}

pub(crate) proof fn lemma_runs_disjoint(rows: Seq<LeaderSlotView>, max_len: Option<i64>)
    requires
        slots_ascend(rows),
    ensures
        disjoint(runs_of(rows, max_len)),
        rows.len() > 0 ==> runs_of(rows, max_len).len() > 0,
        rows.len() > 0 ==> runs_of(rows, max_len).last().end_slot == rows.last().slot,
    decreases rows.len(),
{
    if rows.len() > 0 {
        let before = rows.drop_last();
        let row = rows.last();
        assert forall|i: int, j: int| 0 <= i < j < before.len() implies (#[trigger] before[i]).slot
            < (#[trigger] before[j]).slot by {
            assert(rows[i].slot < rows[j].slot);
        }
        lemma_runs_disjoint(before, max_len);
        let runs = runs_of(before, max_len);
        if runs.len() > 0 {
            lemma_disjoint_drop(runs);
            assert(rows[rows.len() - 2].slot < rows[rows.len() - 1].slot);
            let rest = runs.drop_last();
            if continues(runs.last(), row, max_len) {
                lemma_disjoint_push(rest, continued(runs.last(), row));
            } else {
                assert forall|i: int| 0 <= i < runs.len() implies (#[trigger] runs[i]).end_slot
                    < single(row).start_slot by {
                    if i < runs.len() - 1 {
                        assert(rest[i] == runs[i]);
                    }
                }
                lemma_disjoint_push(runs, single(row));
            }
        } else {
            lemma_disjoint_push(runs, single(row));
        }
    }
}

proof fn lemma_sorted_tabled(runs: Seq<RunView>)
    requires
        sorted(runs),
    ensures
        tabled(runs) == runs,
    decreases runs.len(),
{
    if runs.len() > 0 {
        lemma_drop(runs);
        lemma_sorted_tabled(runs.drop_last());
        assert(tabled(runs) =~= runs);
    }
}

/// Where the slots ascend, the table of their runs has each run, none of which
/// overlaps another, and as many slots as there are.
pub proof fn table_holds_ascending_slots(rows: Seq<LeaderSlotView>, max_len: Option<i64>)
    requires
        slots_ascend(rows),
    ensures
        tabled(runs_of(rows, max_len)) == runs_of(rows, max_len),
        disjoint(runs_of(rows, max_len)),
        total(tabled(runs_of(rows, max_len))) == rows.len(),
{
    let runs = runs_of(rows, max_len);
    lemma_runs_disjoint(rows, max_len);
    if runs.len() > 0 {
        lemma_disjoint_drop(runs);
    }
    lemma_sorted_tabled(runs);
    runs_have_as_many_slots(rows, max_len);
}

proof fn lemma_leads_slots(runs: Seq<RunView>, slot: int, leader: Seq<char>)
    ensures
        leads(runs, slot, leader) == slots_in_runs(runs).contains((slot, leader)),
    decreases runs.len(),
{
    let slots = slots_in_runs(runs);
    if runs.len() > 0 {
        let before = runs.drop_last();
        let run = runs.last();
        let first = slots_in_runs(before);
        let last = slots_in_run(run);
        lemma_leads_slots(before, slot, leader);
        assert(before.push(run) =~= runs);
        lemma_leads_push(before, run, slot, leader);
        if first.contains((slot, leader)) {
            let i = choose|i: int| 0 <= i < first.len() && first[i] == (slot, leader);
            assert(slots[i] == (slot, leader));
        }
        if run.start_slot <= slot <= run.end_slot && run.leader == leader {
            assert(last[slot - run.start_slot] == (slot, leader));
            assert(slots[first.len() + (slot - run.start_slot)] == (slot, leader));
        }
        if slots.contains((slot, leader)) {
            let i = choose|i: int| 0 <= i < slots.len() && slots[i] == (slot, leader);
            if i < first.len() {
                assert(first[i] == (slot, leader));
            } else {
                assert(last[i - first.len()] == (slot, leader));
            }
        }
    }
}

/// Where the slots ascend, the table of their runs, once the slots before `next_slot`
/// have gone, names the leader of every slot that is to come as it was given, and
/// names none of any other slot.
pub proof fn table_names_the_leaders_to_come(
    rows: Seq<LeaderSlotView>,
    next_slot: i64,
    slot: int,
    leader: Seq<char>,
)
    requires
        slots_ascend(rows),
    ensures
        leads(pruned(tabled(runs_of(rows, None)), next_slot), slot, leader) <==> next_slot <= slot
            && slots_named(rows).contains((slot, leader)),
{
    table_holds_ascending_slots(rows, None);
    pruning_keeps_what_is_to_come(runs_of(rows, None), next_slot, slot, leader);
    lemma_leads_slots(runs_of(rows, None), slot, leader);
    runs_hold_the_slots(rows, None);
}

/// The page's table.
pub struct LeaderTable {
    pub rows: Vec<LeaderRow>,
}

impl View for LeaderTable {
    type V = Seq<RunView>;

    open spec fn view(&self) -> Seq<RunView> {
        runs_view(self.rows@)
    }
}

/// Which rows a filter lets pass: for each the slot that its run begins with, and
/// whether it passes.
pub open spec fn filter_marks(runs: Seq<RunView>, prefix: Seq<char>) -> Seq<(i64, bool)> {
    Seq::new(runs.len(), |i: int| (runs[i].start_slot, passes(runs[i], prefix)))
}

impl LeaderTable {
    /// The runs ascend, and their slots can be counted.
    pub open spec fn wf(&self) -> bool {
        sorted(self@) && total(self@) <= i64::MAX
    }

    /// A table without runs.
    pub fn new() -> (table: Self)
        ensures
            table@ == Seq::<RunView>::empty(),
            table.wf(),
    {
        let table = LeaderTable { rows: Vec::new() };
        assert(table@ =~= Seq::<RunView>::empty());
        table
    }

    /// Whether there is no run.
    pub fn is_empty(&self) -> (empty: bool)
        ensures
            empty == (self@.len() == 0),
    {
        self.rows.len() == 0
    }

    /// Lets every run go.
    pub fn clear(&mut self)
        ensures
            final(self)@ == Seq::<RunView>::empty(),
            final(self).wf(),
    {
        self.rows.clear();
        assert(self@ =~= Seq::<RunView>::empty());
    }

    /// How many slots the runs have that a filter lets pass.
    pub fn count(&self, prefix: &str) -> (count: i64)
        requires
            self.wf(),
        ensures
            count == counted(self@, prefix@),
            count >= 0,
    {
        let mut count: i64 = 0;
        let mut index: usize = 0;
        while index < self.rows.len()
            invariant
                self.wf(),
                index <= self.rows.len(),
                count == counted(self@.take(index as int), prefix@),
            decreases self.rows.len() - index,
        {
            let row: &LeaderRow = &self.rows[index];
            proof {
                assert(self@.take(index + 1).drop_last() =~= self@.take(index as int));
                lemma_counted(self@, prefix@);
                lemma_counted_take(self@, prefix@, index as int);
                lemma_counted_take(self@, prefix@, index + 1);
            }
            if row_matches_prefix(row, prefix) {
                if row.end_slot >= row.start_slot {
                    let len: i128 = row.end_slot as i128 - row.start_slot as i128 + 1;
                    count = (count as i128 + len) as i64;
                }
            }
            index = index + 1;
        }
        assert(self@.take(index as int) =~= self@);
        proof {
            lemma_counted(self@, prefix@);
        }
        count
    }

    /// Which rows a filter lets pass.
    pub fn marks(&self, prefix: &str) -> (marks: Vec<(i64, bool)>)
        ensures
            marks@ == filter_marks(self@, prefix@),
    {
        let mut marks: Vec<(i64, bool)> = Vec::new();
        let mut index: usize = 0;
        while index < self.rows.len()
            invariant
                index <= self.rows.len(),
                marks@ == filter_marks(self@, prefix@).take(index as int),
            decreases self.rows.len() - index,
        {
            let row: &LeaderRow = &self.rows[index];
            marks.push((row.start_slot, row_matches_prefix(row, prefix)));
            index = index + 1;
            assert(marks@ =~= filter_marks(self@, prefix@).take(index as int));
        }
        assert(marks@ =~= filter_marks(self@, prefix@));
        marks
    }

    /// Makes the table that of the runs.
    pub fn render(&mut self, rows: &Vec<LeaderRow>)
        requires
            total(runs_view(rows@)) <= i64::MAX,
        ensures
            final(self)@ == tabled(runs_view(rows@)),
            final(self).wf(),
    {
        let mut next: Vec<LeaderRow> = Vec::new();
        let mut index: usize = 0;
        assert(runs_view(next@) =~= Seq::empty());
        while index < rows.len()
            invariant
                index <= rows.len(),
                runs_view(next@) == tabled(runs_view(rows@).take(index as int)),
            decreases rows.len() - index,
        {
            assert(runs_view(rows@).take(index + 1).drop_last() =~= runs_view(rows@).take(
                index as int,
            ));
            put_row(&mut next, rows[index].clone());
            index = index + 1;
        }
        assert(runs_view(rows@).take(index as int) =~= runs_view(rows@));
        self.rows = next;
        proof {
            lemma_tabled(runs_view(rows@));
        }
    }

    /// Makes the table that of the runs, and tells what is to be done to the rows
    /// that there are.
    pub fn reconcile(&mut self, rows: &Vec<LeaderRow>) -> (actions: Vec<RowAction>)
        requires
            total(runs_view(rows@)) <= i64::MAX,
        ensures
            final(self)@ == tabled(runs_view(rows@)),
            actions_view(actions@) == removals(old(self)@, runs_view(rows@)) + arrivals(
                old(self)@,
                runs_view(rows@),
            ),
            final(self).wf(),
    {
        let mut actions: Vec<RowAction> = Vec::new();
        let ghost incoming = runs_view(rows@);
        let ghost before = self@;
        let mut index: usize = 0;
        assert(actions_view(actions@) =~= Seq::empty());
        while index < self.rows.len()
            invariant
                index <= self.rows.len(),
                before == self@,
                incoming == runs_view(rows@),
                actions_view(actions@) == removals(before.take(index as int), incoming),
            decreases self.rows.len() - index,
        {
            assert(before.take(index + 1).drop_last() =~= before.take(index as int));
            let ghost was = actions_view(actions@);
            let slot: i64 = self.rows[index].start_slot;
            if !starts_at(rows, slot) {
                actions.push(RowAction::Remove(slot));
                assert(actions_view(actions@) =~= was.push(RowActionView::Remove(slot)));
            }
            index = index + 1;
        }
        assert(before.take(index as int) =~= before);
        let ghost gone = actions_view(actions@);
        let mut at: usize = 0;
        let mut seen: Vec<LeaderRow> = Vec::new();
        assert(incoming.take(0) =~= Seq::empty());
        assert(actions_view(actions@) =~= gone + arrivals(before, incoming.take(0)));
        assert(runs_view(seen@) =~= incoming.take(0));
        while at < rows.len()
            invariant
                at <= rows.len(),
                before == self@,
                incoming == runs_view(rows@),
                actions_view(actions@) == gone + arrivals(before, incoming.take(at as int)),
                runs_view(seen@) == incoming.take(at as int),
            decreases rows.len() - at,
        {
            let row: &LeaderRow = &rows[at];
            let ghost was = actions_view(actions@);
            let ghost done = runs_view(seen@);
            assert(incoming.take(at + 1).drop_last() =~= incoming.take(at as int));
            assert(incoming.take(at + 1).last() == row@);
            let known: bool = starts_at(&self.rows, row.start_slot) || starts_at(
                &seen,
                row.start_slot,
            );
            if known {
                actions.push(RowAction::Refresh(row.clone()));
                assert(actions_view(actions@) =~= was.push(RowActionView::Refresh(row@)));
            } else {
                actions.push(RowAction::Create(row.clone()));
                assert(actions_view(actions@) =~= was.push(RowActionView::Create(row@)));
            }
            seen.push(row.clone());
            at = at + 1;
            assert(runs_view(seen@) =~= incoming.take(at as int));
            assert(actions_view(actions@) =~= gone + arrivals(before, incoming.take(at as int)));
        }
        assert(incoming.take(at as int) =~= incoming);
        self.render(rows);
        actions
    }

    /// Lets the slots before `next_slot` go, and tells what is to be done to the rows.
    pub fn prune(&mut self, next_slot: i64) -> (actions: Vec<RowAction>)
        requires
            old(self).wf(),
        ensures
            final(self)@ == pruned(old(self)@, next_slot),
            actions_view(actions@) == prune_actions(old(self)@, next_slot),
            final(self).wf(),
    {
        let ghost before = self@;
        let mut kept: Vec<LeaderRow> = Vec::new();
        let mut actions: Vec<RowAction> = Vec::new();
        let mut index: usize = 0;
        assert(runs_view(kept@) =~= Seq::empty());
        assert(actions_view(actions@) =~= Seq::empty());
        while index < self.rows.len()
            invariant
                index <= self.rows.len(),
                before == self@,
                runs_view(kept@) == pruned(before.take(index as int), next_slot),
                actions_view(actions@) == prune_actions(before.take(index as int), next_slot),
            decreases self.rows.len() - index,
        {
            let row: &LeaderRow = &self.rows[index];
            assert(before.take(index + 1).drop_last() =~= before.take(index as int));
            assert(before.take(index + 1).last() == row@);
            let ghost was = actions_view(actions@);
            let ghost had = runs_view(kept@);
            let taken: bool = match kept.last() {
                Some(last) => last.start_slot == row.start_slot,
                None => false,
            };
            assert(taken == (had.len() > 0 && had.last().start_slot == row.start_slot));
            if taken {
            } else if row.end_slot < next_slot {
                actions.push(RowAction::Remove(row.start_slot));
                assert(actions_view(actions@) =~= was.push(RowActionView::Remove(row.start_slot)));
            } else if row.start_slot < next_slot {
                let mut shorter: LeaderRow = row.clone();
                shorter.start_slot = next_slot;
                assert(shorter@ == cut(row@, next_slot));
                actions.push(RowAction::Move { from: row.start_slot, row: shorter.clone() });
                assert(actions_view(actions@) =~= was.push(
                    RowActionView::Move { from: row.start_slot, row: cut(row@, next_slot) },
                ));
                if kept.len() > 0 {
                    kept.pop();
                    assert(runs_view(kept@) =~= had.drop_last());
                }
                let ghost rest = runs_view(kept@);
                kept.push(shorter);
                assert(runs_view(kept@) =~= rest.push(cut(row@, next_slot)));
            } else {
                kept.push(row.clone());
                assert(runs_view(kept@) =~= had.push(row@));
            }
            index = index + 1;
        }
        assert(before.take(index as int) =~= before);
        self.rows = kept;
        proof {
            lemma_pruned(before, next_slot);
        }
        actions
    }
}

} // verus!
