//! Laws on the runs of the page's table.
use vstd::prelude::*;

use crate::rows::{
    continued, continues, joins, run_len, runs_are_as_long_as_they_can_be, runs_hold_the_slots,
    runs_keep_to_the_limit, runs_of, single, slots_in_run, slots_in_runs, LeaderSlotView, RunView,
};
use crate::table::{
    arrivals, by_slot, counted, cut, disjoint, filter_marks, has_start, lemma_disjoint_drop,
    lemma_disjoint_pruned, lemma_drop, lemma_pruned, lemma_push_starts, lemma_runs_disjoint,
    lemma_tabled, passes, prune_actions, pruned, put, putting_is_inserting,
    removals, slots_ascend, sorted, tabled, RowActionView,
};

verus! {

/// Whether a name begins with a prefix, character by character.
pub open spec fn name_begins(name: Seq<char>, prefix: Seq<char>) -> bool {
    prefix.len() <= name.len() && forall|i: int|
        0 <= i < prefix.len() ==> #[trigger] prefix[i] == name[i]
}

/// A row passes the filter just where its leader's name has the prefix's characters, all
/// of them, at its beginning.
pub proof fn rows_pass_by_the_whole_prefix(run: RunView, prefix: Seq<char>)
    ensures
        passes(run, prefix) <==> name_begins(run.leader, prefix),
{
    if name_begins(run.leader, prefix) {
        assert(prefix =~= run.leader.take(prefix.len() as int));
    }
    if prefix.is_prefix_of(run.leader) {
        assert(prefix == run.leader.take(prefix.len() as int));
        assert forall|i: int| 0 <= i < prefix.len() implies #[trigger] prefix[i]
            == run.leader[i] by {
            assert(run.leader.take(prefix.len() as int)[i] == run.leader[i]);
        }
    }
}

/// A longer prefix lets no row pass that a shorter one, with which it begins, keeps
/// back; no prefix keeps none back; and a leader's own name lets just the rows pass
/// whose leader's name begins with it.
pub proof fn longer_prefixes_let_fewer_rows_pass(
    run: RunView,
    other: RunView,
    prefix: Seq<char>,
    more: Seq<char>,
)
    ensures
        passes(run, prefix + more) ==> passes(run, prefix),
        passes(run, Seq::empty()),
        passes(run, run.leader),
        passes(other, run.leader) <==> name_begins(other.leader, run.leader),
        prefix.len() > run.leader.len() ==> !passes(run, prefix),
{
    rows_pass_by_the_whole_prefix(run, prefix + more);
    rows_pass_by_the_whole_prefix(run, prefix);
    rows_pass_by_the_whole_prefix(run, Seq::empty());
    rows_pass_by_the_whole_prefix(run, run.leader);
    rows_pass_by_the_whole_prefix(other, run.leader);
    if name_begins(run.leader, prefix + more) {
        assert forall|i: int| 0 <= i < prefix.len() implies #[trigger] prefix[i]
            == run.leader[i] by {
            assert((prefix + more)[i] == prefix[i]);
        }
    }
}

/// Each row is marked with the slot that it begins with, and with whether its leader's
/// name begins with the prefix.
pub proof fn marks_go_by_the_prefix(runs: Seq<RunView>, prefix: Seq<char>, i: int)
    requires
        0 <= i < runs.len(),
    ensures
        filter_marks(runs, prefix).len() == runs.len(),
        filter_marks(runs, prefix)[i].0 == runs[i].start_slot,
        filter_marks(runs, prefix)[i].1 == name_begins(runs[i].leader, prefix),
{
    rows_pass_by_the_whole_prefix(runs[i], prefix);
}

/// Whether the leader that goes with a slot has a name that begins with the prefix.
pub open spec fn slot_begins(slot: (int, Seq<char>), prefix: Seq<char>) -> bool {
    name_begins(slot.1, prefix)
}

/// The slots that are counted are those whose leader's name begins with the prefix, each
/// of them once.
pub proof fn slots_of_the_prefix_are_counted(runs: Seq<RunView>, prefix: Seq<char>)
    ensures
        counted(runs, prefix) == slots_in_runs(runs).filter(
            |slot: (int, Seq<char>)| slot_begins(slot, prefix),
        ).len(),
    decreases runs.len(),
{
    let matching = |slot: (int, Seq<char>)| slot_begins(slot, prefix);
    if runs.len() == 0 {
        assert(slots_in_runs(runs) =~= Seq::empty());
        assert(Seq::<(int, Seq<char>)>::empty().filter(matching).len() == 0) by {
            Seq::<(int, Seq<char>)>::empty().lemma_filter_len_push(matching, (0, Seq::empty()));
            reveal(Seq::filter);
        }
    } else {
        let before = runs.drop_last();
        let run = runs.last();
        slots_of_the_prefix_are_counted(before, prefix);
        rows_pass_by_the_whole_prefix(run, prefix);
        lemma_filter_run(slots_in_runs(before), run, prefix, run_len(run));
        assert(slots_in_run(run).take(run_len(run)) =~= slots_in_run(run));
    }
}

proof fn lemma_filter_run(slots: Seq<(int, Seq<char>)>, run: RunView, prefix: Seq<char>, n: int)
    requires
        0 <= n <= run_len(run),
    ensures
        (slots + slots_in_run(run).take(n)).filter(
            |slot: (int, Seq<char>)| slot_begins(slot, prefix),
        ).len() == slots.filter(|slot: (int, Seq<char>)| slot_begins(slot, prefix)).len() + (
        if name_begins(run.leader, prefix) {
            n
        } else {
            0
        }),
    decreases n,
{
    let matching = |slot: (int, Seq<char>)| slot_begins(slot, prefix);
    if n == 0 {
        assert(slots + slots_in_run(run).take(0) =~= slots);
    } else {
        lemma_filter_run(slots, run, prefix, n - 1);
        let before = slots + slots_in_run(run).take(n - 1);
        let slot = slots_in_run(run)[n - 1];
        assert(slots + slots_in_run(run).take(n) =~= before.push(slot));
        before.lemma_filter_len_push(matching, slot);
        reveal(Seq::filter);
        assert(before.push(slot).drop_last() =~= before);
        assert(before.push(slot).last() == slot);
    }
}

/// Whether a slot is one of a run's.
pub open spec fn in_run(run: RunView, row: LeaderSlotView) -> bool {
    run.start_slot <= row.slot <= run.end_slot
}

/// Whether what is known of a run is what its first slot of which it is known tells;
/// nothing where no slot of the run tells anything.
pub open spec fn first_known(
    run: RunView,
    rows: Seq<LeaderSlotView>,
    known: Option<Seq<char>>,
    of: spec_fn(LeaderSlotView) -> Option<Seq<char>>,
) -> bool {
    match known {
        Some(text) => exists|j: int|
            0 <= j < rows.len() && in_run(run, #[trigger] rows[j]) && of(rows[j]) == known
                && forall|k: int|
                0 <= k < j && in_run(run, #[trigger] rows[k]) ==> of(rows[k]) is None,
        None => forall|j: int|
            0 <= j < rows.len() && in_run(run, #[trigger] rows[j]) ==> of(rows[j]) is None,
    }
}

proof fn lemma_first_known_kept(
    run: RunView,
    rows: Seq<LeaderSlotView>,
    row: LeaderSlotView,
    known: Option<Seq<char>>,
    of: spec_fn(LeaderSlotView) -> Option<Seq<char>>,
)
    requires
        first_known(run, rows, known, of),
        !in_run(run, row),
    ensures
        first_known(run, rows.push(row), known, of),
{
    let after = rows.push(row);
    if known is Some {
        let j = choose|j: int|
            0 <= j < rows.len() && in_run(run, #[trigger] rows[j]) && of(rows[j]) == known
                && forall|k: int|
                0 <= k < j && in_run(run, #[trigger] rows[k]) ==> of(rows[k]) is None;
        assert(in_run(run, after[j]));
        assert forall|k: int| 0 <= k < j && in_run(run, #[trigger] after[k]) implies of(
            after[k],
        ) is None by {
            assert(after[k] == rows[k]);
        }
    } else {
        assert forall|j: int| 0 <= j < after.len() && in_run(run, #[trigger] after[j]) implies of(
            after[j],
        ) is None by {
            assert(after[j] == rows[j]);
        }
    }
}

proof fn lemma_first_known_grown(
    run: RunView,
    longer: RunView,
    rows: Seq<LeaderSlotView>,
    row: LeaderSlotView,
    known: Option<Seq<char>>,
    of: spec_fn(LeaderSlotView) -> Option<Seq<char>>,
)
    requires
        first_known(run, rows, known, of),
        longer.start_slot == run.start_slot,
        run.start_slot <= row.slot,
        longer.end_slot == row.slot,
        forall|j: int|
            0 <= j < rows.len() ==> in_run(run, #[trigger] rows[j]) == in_run(longer, rows[j]),
    ensures
        first_known(
            longer,
            rows.push(row),
            if known is None {
                of(row)
            } else {
                known
            },
            of,
        ),
{
    let after = rows.push(row);
    if known is Some {
        let j = choose|j: int|
            0 <= j < rows.len() && in_run(run, #[trigger] rows[j]) && of(rows[j]) == known
                && forall|k: int|
                0 <= k < j && in_run(run, #[trigger] rows[k]) ==> of(rows[k]) is None;
        assert(in_run(longer, after[j]));
        assert forall|k: int| 0 <= k < j && in_run(longer, #[trigger] after[k]) implies of(
            after[k],
        ) is None by {
            assert(after[k] == rows[k]);
            assert(in_run(run, rows[k]));
        }
    } else {
        assert forall|j: int|
            0 <= j < rows.len() && in_run(longer, #[trigger] after[j]) implies of(
            after[j],
        ) is None by {
            assert(after[j] == rows[j]);
            assert(in_run(run, rows[j]));
        }
        assert(in_run(longer, after[rows.len() as int]));
    }
}

/// Where the slots ascend, each run tells the address, the host and the port that the
/// first of its slots tells that knows one.
pub proof fn runs_tell_the_first_known_address(rows: Seq<LeaderSlotView>, max_len: Option<i64>)
    requires
        slots_ascend(rows),
    ensures
        ({
            let runs = runs_of(rows, max_len);
            forall|i: int|
                0 <= i < runs.len() ==> {
                    let run = #[trigger] runs[i];
                    &&& first_known(run, rows, run.tpu, |row: LeaderSlotView| row.tpu)
                    &&& first_known(run, rows, run.ip, |row: LeaderSlotView| row.ip)
                    &&& first_known(run, rows, run.port, |row: LeaderSlotView| row.port)
                }
        }),
    decreases rows.len(),
{
    if rows.len() > 0 {
        let before = rows.drop_last();
        let row = rows.last();
        assert(before.push(row) =~= rows);
        assert forall|i: int, j: int| 0 <= i < j < before.len() implies (#[trigger] before[i]).slot
            < (#[trigger] before[j]).slot by {
            assert(rows[i].slot < rows[j].slot);
        }
        assert forall|i: int| 0 <= i < before.len() implies (#[trigger] before[i]).slot
            < row.slot by {
            assert(rows[i].slot < rows[rows.len() - 1].slot);
        }
        runs_tell_the_first_known_address(before, max_len);
        lemma_runs_disjoint(before, max_len);
        let runs = runs_of(before, max_len);
        let after = runs_of(rows, max_len);
        let of_tpu = |row: LeaderSlotView| row.tpu;
        let of_ip = |row: LeaderSlotView| row.ip;
        let of_port = |row: LeaderSlotView| row.port;
        assert forall|i: int| 0 <= i < runs.len() implies !in_run(#[trigger] runs[i], row) by {
            assert(runs[runs.len() - 1] == runs.last());
            if i < runs.len() - 1 {
                assert(runs[i].end_slot < runs[runs.len() - 1].start_slot);
                assert(runs[runs.len() - 1].start_slot <= runs[runs.len() - 1].end_slot);
            }
            assert(before.last() == before[before.len() - 1]);
        }
        assert forall|i: int| 0 <= i < after.len() implies ({
            let run = #[trigger] after[i];
            &&& first_known(run, rows, run.tpu, of_tpu)
            &&& first_known(run, rows, run.ip, of_ip)
            &&& first_known(run, rows, run.port, of_port)
        }) by {
            let run = after[i];
            if i < after.len() - 1 {
                assert(run == runs[i]);
                lemma_first_known_kept(run, before, row, run.tpu, of_tpu);
                lemma_first_known_kept(run, before, row, run.ip, of_ip);
                lemma_first_known_kept(run, before, row, run.port, of_port);
            } else if runs.len() > 0 && continues(runs.last(), row, max_len) {
                let last = runs[runs.len() - 1];
                assert(last == runs.last());
                assert(run == continued(last, row));
                assert(last.start_slot <= last.end_slot);
                assert forall|j: int| 0 <= j < before.len() implies in_run(
                    last,
                    #[trigger] before[j],
                ) == in_run(run, before[j]) by {}
                lemma_first_known_grown(last, run, before, row, last.tpu, of_tpu);
                lemma_first_known_grown(last, run, before, row, last.ip, of_ip);
                lemma_first_known_grown(last, run, before, row, last.port, of_port);
            } else {
                assert(run == single(row));
                assert(in_run(run, rows[rows.len() - 1]));
                assert forall|k: int| 0 <= k < rows.len() - 1 implies !in_run(
                    run,
                    #[trigger] rows[k],
                ) by {
                    assert(rows[k] == before[k]);
                }
            }
        }
    }
}

/// Whether a run is another one, but for where it starts.
pub open spec fn like(run: RunView, other: RunView) -> bool {
    &&& run.leader == other.leader
    &&& run.tpu == other.tpu
    &&& run.ip == other.ip
    &&& run.port == other.port
    &&& run.range_start == other.range_start
    &&& run.end_slot == other.end_slot
}

/// Every run that is left once the slots before `next_slot` have gone is a run that was
/// there, but for where it starts: it starts where it did, or with `next_slot` where it
/// started before that.
pub proof fn pruned_runs_were_there(runs: Seq<RunView>, next_slot: i64, at: int)
    requires
        0 <= at < pruned(runs, next_slot).len(),
    ensures
        exists|i: int|
            0 <= i < runs.len() && like(pruned(runs, next_slot)[at], #[trigger] runs[i]) && pruned(
                runs,
                next_slot,
            )[at].start_slot == (if runs[i].start_slot < next_slot {
                next_slot
            } else {
                runs[i].start_slot
            }),
    decreases runs.len(),
{
    if runs.len() > 0 {
        let before = runs.drop_last();
        let rest = pruned(before, next_slot);
        let after = pruned(runs, next_slot);
        if at < rest.len() && after[at] == rest[at] {
            pruned_runs_were_there(before, next_slot, at);
            let i = choose|i: int|
                0 <= i < before.len() && like(rest[at], #[trigger] before[i]) && rest[at].start_slot
                    == (if before[i].start_slot < next_slot {
                    next_slot
                } else {
                    before[i].start_slot
                });
            assert(runs[i] == before[i]);
        } else {
            assert(like(after[at], runs[runs.len() - 1]));
        }
    }
}

/// Whether a run with what this one tells has the slot.
pub open spec fn shows_at(runs: Seq<RunView>, slot: int, told: RunView) -> bool {
    exists|i: int|
        0 <= i < runs.len() && (#[trigger] runs[i]).start_slot <= slot <= runs[i].end_slot && like(
            runs[i],
            told,
        )
}

proof fn lemma_shows_push(runs: Seq<RunView>, run: RunView, slot: int, told: RunView)
    ensures
        shows_at(runs.push(run), slot, told) == (shows_at(runs, slot, told) || (run.start_slot
            <= slot <= run.end_slot && like(run, told))),
{
    let after = runs.push(run);
    if shows_at(runs, slot, told) {
        let i = choose|i: int|
            0 <= i < runs.len() && (#[trigger] runs[i]).start_slot <= slot <= runs[i].end_slot
                && like(runs[i], told);
        assert(after[i] == runs[i]);
    }
    assert(after[runs.len() as int] == run);
    if shows_at(after, slot, told) {
        let i = choose|i: int|
            0 <= i < after.len() && (#[trigger] after[i]).start_slot <= slot <= after[i].end_slot
                && like(after[i], told);
        if i < runs.len() {
            assert(runs[i] == after[i]);
        }
    }
}

/// Of runs that do not overlap, every slot from `next_slot` on shows after the others
/// have gone just what it showed before: its leader, and where that is reached.
pub proof fn slots_to_come_show_what_they_showed(
    runs: Seq<RunView>,
    next_slot: i64,
    slot: int,
    told: RunView,
)
    requires
        disjoint(runs),
    ensures
        shows_at(pruned(runs, next_slot), slot, told) <==> next_slot <= slot && shows_at(
            runs,
            slot,
            told,
        ),
    decreases runs.len(),
{
    let kept = pruned(runs, next_slot);
    if runs.len() > 0 {
        let before = runs.drop_last();
        let run = runs.last();
        let rest = pruned(before, next_slot);
        lemma_disjoint_drop(runs);
        lemma_disjoint_pruned(runs, next_slot);
        slots_to_come_show_what_they_showed(before, next_slot, slot, told);
        assert(before.push(run) =~= runs);
        lemma_shows_push(before, run, slot, told);
        if run.end_slot < next_slot {
            assert(rest =~= kept);
        } else if run.start_slot < next_slot {
            assert(rest.push(cut(run, next_slot)) =~= kept);
            lemma_shows_push(rest, cut(run, next_slot), slot, told);
        } else {
            lemma_shows_push(rest, run, slot, told);
        }
    }
}

/// The table of runs has under every slot the last of the runs that begin with it, and
/// nothing under a slot that none begins with.
pub proof fn table_has_the_last_of_each_start(runs: Seq<RunView>, slot: i64, at: int)
    requires
        -1 <= at < runs.len(),
        forall|k: int| at < k < runs.len() ==> (#[trigger] runs[k]).start_slot != slot,
        at >= 0 ==> runs[at].start_slot == slot,
    ensures
        by_slot(tabled(runs)).contains_key(slot) <==> at >= 0,
        at >= 0 ==> by_slot(tabled(runs))[slot] == runs[at],
        sorted(tabled(runs)),
    decreases runs.len(),
{
    lemma_tabled(runs);
    if runs.len() > 0 {
        let before = runs.drop_last();
        let run = runs.last();
        lemma_tabled(before);
        putting_is_inserting(tabled(before), run);
        assert(run == runs[runs.len() - 1]);
        if at < runs.len() - 1 {
            assert forall|k: int| at < k < before.len() implies (#[trigger] before[k]).start_slot
                != slot by {
                assert(before[k] == runs[k]);
            }
            table_has_the_last_of_each_start(before, slot, at);
        }
    }
}

/// The rows on the screen after an action, by the slots that they begin with.
pub open spec fn performed(
    rows: Map<i64, RunView>,
    action: RowActionView,
) -> Map<i64, RunView> {
    match action {
        RowActionView::Remove(slot) => rows.remove(slot),
        RowActionView::Refresh(row) => rows.insert(row.start_slot, row),
        RowActionView::Create(row) => rows.insert(row.start_slot, row),
        RowActionView::Move { from, row } => rows.remove(from).insert(row.start_slot, row),
    }
}

/// Whether an action finds on the screen what it is about.
pub open spec fn performable(rows: Map<i64, RunView>, action: RowActionView) -> bool {
    match action {
        RowActionView::Remove(slot) => rows.contains_key(slot),
        RowActionView::Refresh(row) => rows.contains_key(row.start_slot),
        RowActionView::Create(row) => !rows.contains_key(row.start_slot),
        RowActionView::Move { from, row } => rows.contains_key(from),
    }
}

/// The rows on the screen after actions, one after the other.
pub open spec fn all_performed(
    rows: Map<i64, RunView>,
    actions: Seq<RowActionView>,
) -> Map<i64, RunView>
    decreases actions.len(),
{
    if actions.len() == 0 {
        rows
    } else {
        performed(all_performed(rows, actions.drop_last()), actions.last())
    }
}

/// Whether each action, in its turn, finds on the screen what it is about.
pub open spec fn all_performable(rows: Map<i64, RunView>, actions: Seq<RowActionView>) -> bool
    decreases actions.len(),
{
    actions.len() > 0 ==> all_performable(rows, actions.drop_last()) && performable(
        all_performed(rows, actions.drop_last()),
        actions.last(),
    )
}

proof fn lemma_perform_push(
    rows: Map<i64, RunView>,
    actions: Seq<RowActionView>,
    action: RowActionView,
)
    ensures
        all_performed(rows, actions.push(action)) == performed(
            all_performed(rows, actions),
            action,
        ),
        all_performable(rows, actions.push(action)) == (all_performable(rows, actions)
            && performable(all_performed(rows, actions), action)),
{
    assert(actions.push(action).drop_last() =~= actions);
}

proof fn lemma_perform_add(
    rows: Map<i64, RunView>,
    first: Seq<RowActionView>,
    second: Seq<RowActionView>,
)
    ensures
        all_performed(rows, first + second) == all_performed(all_performed(rows, first), second),
        all_performable(rows, first + second) == (all_performable(rows, first) && all_performable(
            all_performed(rows, first),
            second,
        )),
    decreases second.len(),
{
    if second.len() == 0 {
        assert(first + second =~= first);
    } else {
        lemma_perform_add(rows, first, second.drop_last());
        assert((first + second).drop_last() =~= first + second.drop_last());
        assert((first + second).last() == second.last());
    }
}

proof fn lemma_by_slot(runs: Seq<RunView>, slot: i64, i: int)
    requires
        sorted(runs),
    ensures
        by_slot(runs).contains_key(slot) == has_start(runs, slot),
        0 <= i < runs.len() && runs[i].start_slot == slot ==> by_slot(runs).contains_key(slot)
            && by_slot(runs)[slot] == runs[i],
{
    if 0 <= i < runs.len() && runs[i].start_slot == slot {
        assert(has_start(runs, slot));
        let k = choose|k: int| 0 <= k < runs.len() && (#[trigger] runs[k]).start_slot == slot;
        if k < i {
            assert(runs[k].start_slot < runs[i].start_slot);
        } else if i < k {
            assert(runs[i].start_slot < runs[k].start_slot);
        }
    }
}

proof fn lemma_by_slot_first(runs: Seq<RunView>)
    requires
        sorted(runs),
        sorted(runs.drop_first()),
        runs.len() > 0,
    ensures
        by_slot(runs).remove(runs[0].start_slot) == by_slot(runs.drop_first()),
{
    let rest = runs.drop_first();
    let all = by_slot(runs).remove(runs[0].start_slot);
    let some = by_slot(rest);
    assert forall|slot: i64|
        #![trigger all.dom().contains(slot)]
        #![trigger some.dom().contains(slot)]
        all.dom().contains(slot) == some.dom().contains(slot) && (some.dom().contains(slot)
            ==> all[slot] == some[slot]) by {
        lemma_by_slot(runs, slot, 0);
        lemma_by_slot(rest, slot, 0);
        if has_start(rest, slot) {
            let i = choose|i: int| 0 <= i < rest.len() && (#[trigger] rest[i]).start_slot == slot;
            assert(runs[i + 1] == rest[i]);
            assert(runs[0].start_slot < runs[i + 1].start_slot);
            lemma_by_slot(runs, slot, i + 1);
            lemma_by_slot(rest, slot, i);
        } else if has_start(runs, slot) {
            let i = choose|i: int| 0 <= i < runs.len() && (#[trigger] runs[i]).start_slot == slot;
            if i > 0 {
                assert(rest[i - 1] == runs[i]);
            }
        }
    }
    assert(all =~= some);
}

/// What is left of the runs from `n` on, and before them what pruning left of the others.
spec fn half_pruned(runs: Seq<RunView>, n: int, next_slot: i64) -> Map<i64, RunView> {
    by_slot(runs.skip(n)).union_prefer_right(by_slot(pruned(runs.take(n), next_slot)))
}

proof fn lemma_half_pruned(runs: Seq<RunView>, n: int, next_slot: i64)
    requires
        sorted(runs),
        0 <= n <= runs.len(),
    ensures
        all_performed(by_slot(runs), prune_actions(runs.take(n), next_slot)) == half_pruned(
            runs,
            n,
            next_slot,
        ),
        all_performable(by_slot(runs), prune_actions(runs.take(n), next_slot)),
    decreases n,
{
    if n == 0 {
        assert(runs.skip(0) =~= runs);
        assert(runs.take(0) =~= Seq::empty());
        assert(half_pruned(runs, 0, next_slot) =~= by_slot(runs));
    } else {
        lemma_half_pruned(runs, n - 1, next_slot);
        let before = runs.take(n - 1);
        let now = runs.take(n);
        let run = runs[n - 1];
        assert(now.drop_last() =~= before);
        assert(now.last() == run);
        assert forall|i: int, j: int| 0 <= i < j < before.len() implies (
        #[trigger] before[i]).start_slot < (#[trigger] before[j]).start_slot by {
            assert(runs[i].start_slot < runs[j].start_slot);
        }
        let tail = runs.skip(n - 1);
        let rest = runs.skip(n);
        assert forall|i: int, j: int| 0 <= i < j < tail.len() implies (
        #[trigger] tail[i]).start_slot < (#[trigger] tail[j]).start_slot by {
            assert(runs[i + n - 1].start_slot < runs[j + n - 1].start_slot);
        }
        assert forall|i: int, j: int| 0 <= i < j < rest.len() implies (
        #[trigger] rest[i]).start_slot < (#[trigger] rest[j]).start_slot by {
            assert(runs[i + n].start_slot < runs[j + n].start_slot);
        }
        lemma_pruned(before, next_slot);
        let kept = pruned(before, next_slot);
        let after = pruned(now, next_slot);
        let actions = prune_actions(before, next_slot);
        let screen = half_pruned(runs, n - 1, next_slot);
        // The tail has the run under its slot, and the rest does not.
        assert(tail[0] == run);
        lemma_by_slot(tail, run.start_slot, 0);
        assert(!has_start(rest, run.start_slot)) by {
            if has_start(rest, run.start_slot) {
                let i = choose|i: int|
                    0 <= i < rest.len() && (#[trigger] rest[i]).start_slot == run.start_slot;
                assert(runs[n - 1].start_slot < runs[i + n].start_slot);
            }
        }
        lemma_by_slot(rest, run.start_slot, 0);
        assert(rest =~= tail.drop_first());
        lemma_by_slot_first(tail);
        // No run that was kept begins with the run's slot, unless the last one does.
        let taken = kept.len() > 0 && kept.last().start_slot == run.start_slot;
        assert(has_start(kept, run.start_slot) ==> taken) by {
            if has_start(kept, run.start_slot) {
                let i = choose|i: int|
                    0 <= i < kept.len() && (#[trigger] kept[i]).start_slot == run.start_slot;
                assert(before.len() > 0);
                assert(before.last() == runs[n - 2]);
                assert(runs[n - 2].start_slot < runs[n - 1].start_slot);
                if i < kept.len() - 1 {
                    assert(kept[i].start_slot < kept[kept.len() - 1].start_slot);
                }
            }
        }
        assert(taken ==> has_start(kept, run.start_slot)) by {
            if taken {
                assert(kept[kept.len() - 1].start_slot == run.start_slot);
            }
        }
        lemma_by_slot(kept, run.start_slot, 0);
        if taken {
            assert(half_pruned(runs, n, next_slot) =~= screen);
        } else if run.end_slot < next_slot {
            lemma_perform_push(by_slot(runs), actions, RowActionView::Remove(run.start_slot));
            assert(screen.remove(run.start_slot) =~= half_pruned(runs, n, next_slot));
        } else if run.start_slot < next_slot {
            let shorter = cut(run, next_slot);
            lemma_perform_push(
                by_slot(runs),
                actions,
                RowActionView::Move { from: run.start_slot, row: shorter },
            );
            putting_is_inserting(kept, shorter);
            if before.len() > 0 {
                assert(before.last() == runs[n - 2]);
                assert(runs[n - 2].start_slot < runs[n - 1].start_slot);
            }
            assert(after == put(kept, shorter)) by {
                if kept.len() > 0 {
                    assert(kept.len() == 1);
                    assert(kept[0] == kept.last());
                }
            }
            assert(screen.remove(run.start_slot).insert(next_slot, shorter) =~= half_pruned(
                runs,
                n,
                next_slot,
            ));
        } else {
            putting_is_inserting(kept, run);
            if before.len() > 0 {
                assert(before.last() == runs[n - 2]);
                assert(runs[n - 2].start_slot < runs[n - 1].start_slot);
            }
            assert(after == put(kept, run));
            assert(half_pruned(runs, n, next_slot) =~= screen);
        }
    }
}

/// Done one after the other to the rows that show a table, the actions of letting slots
/// go find what they are about, and leave the rows that show the table without them.
pub proof fn pruning_actions_keep_the_screen_true(runs: Seq<RunView>, next_slot: i64)
    requires
        sorted(runs),
    ensures
        all_performable(by_slot(runs), prune_actions(runs, next_slot)),
        all_performed(by_slot(runs), prune_actions(runs, next_slot)) == by_slot(
            pruned(runs, next_slot),
        ),
{
    let n = runs.len() as int;
    lemma_half_pruned(runs, n, next_slot);
    assert(runs.take(n) =~= runs);
    assert(runs.skip(n) =~= Seq::empty());
    assert(half_pruned(runs, n, next_slot) =~= by_slot(pruned(runs, next_slot)));
}

proof fn lemma_removals(
    rows: Map<i64, RunView>,
    runs: Seq<RunView>,
    incoming: Seq<RunView>,
    slot: i64,
)
    requires
        sorted(runs),
        forall|k: int| 0 <= k < runs.len() ==> rows.contains_key((#[trigger] runs[k]).start_slot),
    ensures
        ({
            let after = all_performed(rows, removals(runs, incoming));
            &&& all_performable(rows, removals(runs, incoming))
            &&& after.contains_key(slot) == (rows.contains_key(slot) && !(has_start(runs, slot)
                && !has_start(incoming, slot)))
            &&& after.contains_key(slot) ==> after[slot] == rows[slot]
        }),
    decreases runs.len(),
{
    if runs.len() > 0 {
        let before = runs.drop_last();
        let run = runs.last();
        lemma_drop(runs);
        assert(before.push(run) =~= runs);
        assert(run == runs[runs.len() - 1]);
        assert forall|k: int| 0 <= k < before.len() implies rows.contains_key(
            (#[trigger] before[k]).start_slot,
        ) by {
            assert(before[k] == runs[k]);
        }
        lemma_removals(rows, before, incoming, slot);
        lemma_removals(rows, before, incoming, run.start_slot);
        lemma_push_starts(before, run, slot);
        if has_start(before, run.start_slot) {
            let k = choose|k: int|
                0 <= k < before.len() && (#[trigger] before[k]).start_slot == run.start_slot;
            assert(runs[k].start_slot < runs[runs.len() - 1].start_slot);
        }
        if !has_start(incoming, run.start_slot) {
            lemma_perform_push(
                rows,
                removals(before, incoming),
                RowActionView::Remove(run.start_slot),
            );
        }
    }
}

proof fn lemma_arrivals(rows: Map<i64, RunView>, runs: Seq<RunView>, incoming: Seq<RunView>)
    requires
        forall|k: int|
            0 <= k < incoming.len() ==> rows.contains_key((#[trigger] incoming[k]).start_slot)
                == has_start(runs, incoming[k].start_slot),
    ensures
        all_performable(rows, arrivals(runs, incoming)),
        all_performed(rows, arrivals(runs, incoming)) == rows.union_prefer_right(
            by_slot(tabled(incoming)),
        ),
        forall|slot: i64|
            #![trigger has_start(incoming, slot)]
            has_start(incoming, slot) == by_slot(tabled(incoming)).dom().contains(slot),
    decreases incoming.len(),
{
    if incoming.len() == 0 {
        assert(rows.union_prefer_right(by_slot(tabled(incoming))) =~= rows);
    } else {
        let before = incoming.drop_last();
        let run = incoming.last();
        assert(before.push(run) =~= incoming);
        assert forall|k: int| 0 <= k < before.len() implies rows.contains_key(
            (#[trigger] before[k]).start_slot,
        ) == has_start(runs, before[k].start_slot) by {
            assert(before[k] == incoming[k]);
        }
        lemma_arrivals(rows, runs, before);
        lemma_tabled(before);
        putting_is_inserting(tabled(before), run);
        assert(run == incoming[incoming.len() - 1]);
        assert forall|slot: i64|
            #![trigger has_start(incoming, slot)]
            has_start(incoming, slot) == by_slot(tabled(incoming)).dom().contains(slot) by {
            lemma_push_starts(before, run, slot);
            assert(has_start(before, slot) == by_slot(tabled(before)).dom().contains(slot));
        }
        let action = if has_start(runs, run.start_slot) || has_start(before, run.start_slot) {
            RowActionView::Refresh(run)
        } else {
            RowActionView::Create(run)
        };
        lemma_perform_push(rows, arrivals(runs, before), action);
        assert(rows.union_prefer_right(by_slot(tabled(before))).insert(run.start_slot, run)
            =~= rows.union_prefer_right(by_slot(tabled(incoming))));
    }
}

/// Done one after the other to the rows that show a table, the actions for runs that
/// come find what they are about, and leave the rows that show the table of those runs.
pub proof fn arriving_actions_keep_the_screen_true(runs: Seq<RunView>, incoming: Seq<RunView>)
    requires
        sorted(runs),
    ensures
        ({
            let actions = removals(runs, incoming) + arrivals(runs, incoming);
            &&& all_performable(by_slot(runs), actions)
            &&& all_performed(by_slot(runs), actions) == by_slot(tabled(incoming))
        }),
{
    let rows = by_slot(runs);
    let between = all_performed(rows, removals(runs, incoming));
    assert forall|k: int| 0 <= k < runs.len() implies rows.contains_key(
        (#[trigger] runs[k]).start_slot,
    ) by {
        lemma_by_slot(runs, runs[k].start_slot, k);
    }
    lemma_removals(rows, runs, incoming, 0);
    assert forall|slot: i64|
        #![trigger between.dom().contains(slot)]
        between.dom().contains(slot) == (has_start(runs, slot) && has_start(incoming, slot)) by {
        lemma_removals(rows, runs, incoming, slot);
        lemma_by_slot(runs, slot, 0);
    }
    assert forall|k: int| 0 <= k < incoming.len() implies between.contains_key(
        (#[trigger] incoming[k]).start_slot,
    ) == has_start(runs, incoming[k].start_slot) by {
        let slot = incoming[k].start_slot;
        assert(has_start(incoming, slot));
        assert(between.dom().contains(slot) == has_start(runs, slot));
    }
    lemma_arrivals(between, runs, incoming);
    lemma_perform_add(rows, removals(runs, incoming), arrivals(runs, incoming));
    assert(between.union_prefer_right(by_slot(tabled(incoming))) =~= by_slot(tabled(incoming)));
}

/// What pruning leaves of a table: every run that begins after `next_slot` and does not
/// end before it; of those that begin before it and do not end before it the last, cut;
/// and one that begins with it, unless such a run was cut.
pub proof fn pruning_keeps_each_run_to_come(runs: Seq<RunView>, next_slot: i64, at: int)
    requires
        sorted(runs),
        0 <= at < runs.len(),
        runs[at].end_slot >= next_slot,
        runs[at].start_slot < next_slot ==> forall|k: int|
            at < k < runs.len() && (#[trigger] runs[k]).start_slot < next_slot ==> runs[k].end_slot
                < next_slot,
        runs[at].start_slot == next_slot ==> forall|k: int|
            0 <= k < at ==> (#[trigger] runs[k]).end_slot < next_slot,
    ensures
        exists|j: int|
            0 <= j < pruned(runs, next_slot).len() && like(
                #[trigger] pruned(runs, next_slot)[j],
                runs[at],
            ) && pruned(runs, next_slot)[j].start_slot == (if runs[at].start_slot < next_slot {
                next_slot
            } else {
                runs[at].start_slot
            }),
    decreases runs.len(),
{
    let before = runs.drop_last();
    let run = runs.last();
    let rest = pruned(before, next_slot);
    let after = pruned(runs, next_slot);
    lemma_drop(runs);
    lemma_pruned(before, next_slot);
    assert(run == runs[runs.len() - 1]);
    if at < runs.len() - 1 {
        assert(before[at] == runs[at]);
        assert(runs[at].start_slot < runs[runs.len() - 1].start_slot);
        assert forall|k: int|
            at < k < before.len() && (#[trigger] before[k]).start_slot < next_slot
                && before[at].start_slot < next_slot implies before[k].end_slot < next_slot by {
            assert(before[k] == runs[k]);
        }
        assert forall|k: int|
            0 <= k < at && before[at].start_slot == next_slot implies (
        #[trigger] before[k]).end_slot < next_slot by {
            assert(before[k] == runs[k]);
        }
        pruning_keeps_each_run_to_come(before, next_slot, at);
        let j = choose|j: int|
            0 <= j < rest.len() && like(#[trigger] rest[j], runs[at]) && rest[j].start_slot == (
            if runs[at].start_slot < next_slot {
                next_slot
            } else {
                runs[at].start_slot
            });
        assert(after[j] == rest[j]);
    } else {
        if runs[at].start_slot == next_slot && rest.len() > 0 {
            pruned_runs_were_there(before, next_slot, 0);
            let k = choose|k: int|
                0 <= k < before.len() && like(rest[0], #[trigger] before[k]) && rest[0].start_slot
                    == (if before[k].start_slot < next_slot {
                    next_slot
                } else {
                    before[k].start_slot
                });
            assert(runs[k] == before[k]);
        }
        assert(like(after[after.len() - 1], run));
    }
}

/// A run has at least one slot, and no more than the limit allows; and only where it has
/// as many does the run after it go on with the same leader in the slot that follows.
pub proof fn limited_runs_are_as_long_as_they_may_be(
    rows: Seq<LeaderSlotView>,
    max_len: i64,
    at: int,
)
    requires
        max_len >= 1,
        0 <= at < runs_of(rows, Some(max_len)).len(),
    ensures
        ({
            let runs = runs_of(rows, Some(max_len));
            &&& runs[at].start_slot <= runs[at].end_slot
            &&& runs[at].end_slot - runs[at].start_slot < max_len
            &&& at + 1 < runs.len() && runs[at + 1].leader == runs[at].leader && runs[at
                + 1].start_slot == runs[at].end_slot + 1 ==> runs[at].end_slot
                - runs[at].start_slot == max_len - 1
        }),
{
    runs_keep_to_the_limit(rows, max_len);
    runs_hold_the_slots(rows, Some(max_len));
}

/// Without a limit no run goes on with the leader of the one before it in the slot that
/// follows.
pub proof fn runs_end_where_another_leads(rows: Seq<LeaderSlotView>, at: int)
    requires
        0 <= at < runs_of(rows, None).len() - 1,
    ensures
        ({
            let runs = runs_of(rows, None);
            runs[at + 1].leader != runs[at].leader || runs[at + 1].start_slot != runs[at].end_slot
                + 1
        }),
{
    runs_are_as_long_as_they_can_be(rows);
    assert(!joins(runs_of(rows, None)[at], runs_of(rows, None)[at + 1]));
}

} // verus!
