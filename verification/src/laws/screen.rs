//! Laws on the page: what it shows as slots and leaders come.
use vstd::prelude::*;

use crate::laws::runs::{
    all_performable, all_performed, arriving_actions_keep_the_screen_true,
    pruning_actions_keep_the_screen_true, shows_at, slot_begins, slots_of_the_prefix_are_counted,
    slots_to_come_show_what_they_showed, table_has_the_last_of_each_start,
};
use crate::page::{
    filter_note, first_slots, opt_actions, opt_prune_actions, runs_shown, shows, slot_taken_in,
    slots_given, update_for, PageState, SlotUpdate, TableUpdate,
};
use crate::rows::{runs_of, slots_in_runs, slots_named, LeaderSlot, LeaderSlotView, RunView};
use crate::table::{
    actions_view, by_slot, disjoint, leads, pruned, sorted, table_names_the_leaders_to_come,
    RowAction,
};

verus! {

/// Whether two states of the page differ at most in what the table shows.
pub open spec fn alike_but_for_the_table(before: PageState, after: PageState) -> bool {
    &&& after.has_table == before.has_table
    &&& after.pending_slot == before.pending_slot
    &&& after.current_slot == before.current_slot
    &&& after.last_limit == before.last_limit
    &&& after.window_override == before.window_override
    &&& after.max_visible_rows == before.max_visible_rows
    &&& after.is_loading == before.is_loading
    &&& after.is_paused == before.is_paused
    &&& after.filter_prefix == before.filter_prefix
    &&& after.next_copy_id == before.next_copy_id
}

/// Whether the page counts each slot of its table whose leader's name begins with the
/// filter's prefix.
pub open spec fn counts_what_passes(state: PageState) -> bool {
    state.visible_slot_count == slots_in_runs(state.table@).filter(
        |slot: (int, Seq<char>)| slot_begins(slot, state.filter_prefix@),
    ).len()
}

/// When the page shows other runs, it has just those, it counts the slots of them that
/// pass the filter, and everything else of it stays.
pub proof fn showing_changes_the_table_alone(
    before: PageState,
    after: PageState,
    runs: Seq<RunView>,
)
    requires
        shows(before, after, runs),
    ensures
        after.table@ == runs,
        alike_but_for_the_table(before, after),
        counts_what_passes(after),
{
    slots_of_the_prefix_are_counted(runs, before.filter_prefix@);
}

/// A page that is well-formed counts the slots of its table that pass the filter.
pub proof fn pages_count_what_passes(state: PageState)
    requires
        state.wf(),
    ensures
        counts_what_passes(state),
        sorted(state.table@),
{
    slots_of_the_prefix_are_counted(state.table@, state.filter_prefix@);
}

/// A slot that is not later than the current one changes nothing. A later one is the
/// current one from then on, and the page shows of every slot from it on what it
/// showed, and nothing of the slots before; what is to be done to the rows makes of the
/// rows that show the table before those that show it after.
pub proof fn later_slots_move_the_page_on(
    before: PageState,
    after: PageState,
    slot: i64,
    update: SlotUpdate,
    at: int,
    told: RunView,
)
    requires
        sorted(before.table@),
        slot_taken_in(before, after, slot, update),
    ensures
        ({
            let late = before.current_slot is Some && slot <= before.current_slot->0;
            &&& late ==> after == before
            &&& late <==> update == SlotUpdate::Ignored
            &&& !late ==> after.current_slot == Some(slot)
            &&& !late ==> alike_but_for_the_table(
                before,
                (PageState { current_slot: before.current_slot, ..after }),
            )
            &&& !late ==> counts_what_passes(after)
            &&& !late && disjoint(before.table@) ==> (shows_at(after.table@, at, told) <==> slot
                <= at && shows_at(before.table@, at, told))
            &&& update matches SlotUpdate::Advanced(actions) ==> {
                &&& actions is None <==> before.table@.len() == 0
                &&& actions is None ==> after.table@.len() == 0
                &&& actions is Some ==> all_performable(
                    by_slot(before.table@),
                    actions_view(actions->0@),
                )
                &&& actions is Some ==> all_performed(
                    by_slot(before.table@),
                    actions_view(actions->0@),
                ) == by_slot(after.table@)
            }
        }),
{
    let late = before.current_slot is Some && slot <= before.current_slot->0;
    if !late {
        slots_of_the_prefix_are_counted(after.table@, before.filter_prefix@);
        pruning_actions_keep_the_screen_true(before.table@, slot);
        if disjoint(before.table@) {
            slots_to_come_show_what_they_showed(before.table@, slot, at, told);
        }
    }
}

/// What is to be done to the rows as slots go, where there are rows, makes of the rows
/// that show the table those that show it without these slots.
pub proof fn actions_follow_the_slots(
    runs: Seq<RunView>,
    slot: i64,
    actions: Option<Vec<RowAction>>,
)
    requires
        sorted(runs),
        opt_actions(actions) == opt_prune_actions(runs, slot),
    ensures
        actions is None <==> runs.len() == 0,
        actions is None ==> pruned(runs, slot).len() == 0,
        actions is Some ==> all_performable(by_slot(runs), actions_view(actions->0@)),
        actions is Some ==> all_performed(by_slot(runs), actions_view(actions->0@)) == by_slot(
            pruned(runs, slot),
        ),
{
    pruning_actions_keep_the_screen_true(runs, slot);
}

/// When runs come, the table is emptied if there are none; a page without a table stays
/// as it is; or else the table has under every slot the last of the runs that begin
/// with it, and what is to be done to the rows that are there, if there are any, makes
/// of them the rows that show it.
pub proof fn arriving_runs_are_shown(
    before: Seq<RunView>,
    has_table: bool,
    incoming: Seq<RunView>,
    update: TableUpdate,
    slot: i64,
    at: int,
)
    requires
        sorted(before),
        !has_table ==> before.len() == 0,
        update_for(before, has_table, incoming, update),
        -1 <= at < incoming.len(),
        forall|k: int| at < k < incoming.len() ==> (#[trigger] incoming[k]).start_slot != slot,
        at >= 0 ==> incoming[at].start_slot == slot,
    ensures
        ({
            let after = runs_shown(before, has_table, incoming);
            &&& update == TableUpdate::Cleared <==> incoming.len() == 0
            &&& update == TableUpdate::Untouched <==> incoming.len() > 0 && !has_table
            &&& update == TableUpdate::Rendered <==> incoming.len() > 0 && has_table
                && before.len() == 0
            &&& update is Changed <==> incoming.len() > 0 && before.len() > 0
            &&& incoming.len() == 0 || !has_table ==> after.len() == 0
            &&& has_table ==> sorted(after)
            &&& has_table ==> (by_slot(after).contains_key(slot) <==> at >= 0)
            &&& has_table && at >= 0 ==> by_slot(after)[slot] == incoming[at]
            &&& update matches TableUpdate::Changed(actions) ==> {
                &&& all_performable(by_slot(before), actions_view(actions@))
                &&& all_performed(by_slot(before), actions_view(actions@)) == by_slot(after)
            }
        }),
{
    table_has_the_last_of_each_start(incoming, slot, at);
    arriving_actions_keep_the_screen_true(before, incoming);
}

/// Of slots that come in their order, the page with a table shows a leader for a slot
/// just where the slot is not before the current one, and is among the first `size`
/// that came, with that leader.
pub proof fn page_names_the_leaders_that_came(
    before: Seq<RunView>,
    rows: Seq<LeaderSlotView>,
    size: int,
    current: i64,
    slot: int,
    leader: Seq<char>,
)
    requires
        size >= 0,
        forall|i: int, j: int|
            0 <= i < j < rows.len() ==> (#[trigger] rows[i]).slot < (#[trigger] rows[j]).slot,
    ensures
        ({
            let runs = runs_of(first_slots(rows, size), None);
            let shown = pruned(runs_shown(before, true, runs), current);
            leads(shown, slot, leader) <==> current <= slot && exists|i: int|
                0 <= i < rows.len() && i < size && (#[trigger] rows[i]).slot == slot
                    && rows[i].leader == leader
        }),
{
    let first = first_slots(rows, size);
    assert forall|i: int, j: int| 0 <= i < j < first.len() implies (#[trigger] first[i]).slot < (
    #[trigger] first[j]).slot by {
        assert(rows[i].slot < rows[j].slot);
    }
    table_names_the_leaders_to_come(first, current, slot, leader);
    let named = slots_named(first);
    if named.contains((slot, leader)) {
        let i = choose|i: int| 0 <= i < named.len() && named[i] == (slot, leader);
        assert(first[i] == rows[i]);
    }
    if exists|i: int|
        0 <= i < rows.len() && i < size && (#[trigger] rows[i]).slot == slot && rows[i].leader
            == leader {
        let i = choose|i: int|
            0 <= i < rows.len() && i < size && (#[trigger] rows[i]).slot == slot && rows[i].leader
                == leader;
        assert(first[i] == rows[i]);
        assert(named[i] == (slot, leader));
    }
}

/// The slots that came are those of the reply, in their order; none where it has none.
pub proof fn reply_gives_its_slots(leaders: Option<Vec<LeaderSlot>>, i: int)
    ensures
        leaders is None ==> slots_given(leaders).len() == 0,
        leaders is Some ==> slots_given(leaders).len() == leaders->0@.len(),
        leaders is Some && 0 <= i < leaders->0@.len() ==> {
            let row = slots_given(leaders)[i];
            let given = leaders->0@[i];
            &&& row.slot == given.slot
            &&& row.leader == given.leader@
            &&& row.tpu is Some <==> given.tpu is Some
            &&& given.tpu is Some ==> row.tpu->0 == given.tpu->0@
            &&& row.ip is Some <==> given.ip is Some
            &&& given.ip is Some ==> row.ip->0 == given.ip->0@
            &&& row.port is Some <==> given.port is Some
            &&& given.port is Some ==> row.port->0 == given.port->0@
        },
{
}

/// The note on a filter stands just where there is one.
pub proof fn filters_are_noted(prefix: Seq<char>)
    ensures
        prefix.len() == 0 ==> filter_note(prefix).len() == 0,
        prefix.len() > 0 ==> filter_note(prefix) == " (filtered)"@,
{
}

} // verus!
