//! The state of the page in the browser and what changes it.
use vstd::prelude::*;
use vstd::string::*;

use crate::number::{
    decimal, decimal_text, parse_signed, parse_unsigned, read_signed, read_unsigned,
    signed_decimal, signed_text,
};
use crate::rows::{
    group_leaders, runs_of, runs_view, slots_view, LeaderRow, LeaderSlot, LeaderSlotView, RunView,
};
use crate::table::{
    actions_view, arrivals, counted, filter_marks, prune_actions, pruned, removals,
    runs_have_as_many_slots, tabled, total, LeaderTable, RowAction, RowActionView,
};
use crate::text::{same_text, trimmed};
use crate::wasm_app::{
    at_most, lesser, normalize_prefix, set_copy_cell, CopyCell, InitialConfig, DEFAULT_LIMIT,
};

verus! {

/// The state of the page.
pub struct PageState {
    /// The runs that the table shows.
    pub table: LeaderTable,
    /// Whether the page has a table to show them in.
    pub has_table: bool,
    /// The slot that came while the page was paused, if one did.
    pub pending_slot: Option<i64>,
    pub current_slot: Option<i64>,
    pub last_limit: i64,
    pub window_override: Option<i64>,
    pub max_visible_rows: i64,
    pub visible_slot_count: i64,
    pub is_loading: bool,
    pub is_paused: bool,
    pub filter_prefix: String,
    pub next_copy_id: u32,
}

/// What became of the table when runs came.
pub enum TableUpdate {
    /// It is empty: there were no runs.
    Cleared,
    /// Nothing: there is no table.
    Untouched,
    /// It shows the runs, and was empty before.
    Rendered,
    /// It shows the runs, and this is to be done to the rows that it had.
    Changed(Vec<RowAction>),
}

/// What became of a slot that came.
pub enum SlotUpdate {
    /// Nothing: it is not later than the current one.
    Ignored,
    /// It is the current one. Where the table was not empty, this is to be done to
    /// its rows.
    Advanced(Option<Vec<RowAction>>),
}

/// What became of a slot that came by the stream.
pub enum StreamUpdate {
    /// It waits until the page is not paused any more.
    Queued,
    /// It was taken in.
    Slot(SlotUpdate),
}

/// What became of the page when it was to go on.
pub enum Resumed {
    /// Nothing: it was not paused.
    NotPaused,
    /// It took in the slot that had come meanwhile.
    Slot(SlotUpdate),
    /// No slot had come meanwhile: the times are to be shown anew.
    Refresh,
}

/// What becomes of a request for leaders.
#[derive(Clone, Copy, Debug, PartialEq, Eq, Structural)]
pub enum FetchPlan {
    /// It is not made: one is under way.
    Skip,
    /// It is made.
    Fetch,
}

/// How the page starts.
#[derive(Clone, Copy, Debug, PartialEq, Eq, Structural)]
pub enum StartPlan {
    /// With the leaders that it was delivered with, and a request for more.
    ShowAndFetch,
    /// With the leaders that it was delivered with.
    Show,
    /// With a request for leaders.
    Fetch,
}

/// Leaders as the page gets them.
pub struct LeadersData {
    pub current_slot: i64,
    pub limit: i64,
    pub leaders: Option<Vec<LeaderSlot>>,
}

/// What became of leaders that came.
pub struct PayloadUpdate {
    /// Whether their slot is the current one now, and was not before.
    pub advanced: bool,
    /// The runs of the leaders.
    pub rows: Vec<LeaderRow>,
    /// What became of the table.
    pub table: TableUpdate,
    /// What then is to be done to its rows as the slots before the current one go,
    /// where it was not empty.
    pub pruned: Option<Vec<RowAction>>,
}

/// What the cells of a row show.
pub struct RowCells {
    pub data_slot: String,
    pub data_end_slot: String,
    pub until: String,
    pub slot: String,
    pub tpu: CopyCell,
}

/// In how many slots a slot comes: none where it is over; a dash where the current
/// slot is not known.
pub open spec fn slots_until(current_slot: Option<i64>, slot: i64) -> Seq<char> {
    match current_slot {
        Some(current) => if slot <= current {
            "0"@
        } else {
            decimal((slot - current) as nat)
        },
        None => "-"@,
    }
}

/// The note on a filter, where there is one.
pub open spec fn filter_note(prefix: Seq<char>) -> Seq<char> {
    if prefix.len() == 0 {
        Seq::empty()
    } else {
        " (filtered)"@
    }
}

/// How many rows the table is to show: as many as are asked for, or else as are at
/// hand, and no more than the page's address says.
pub open spec fn window_size(window_override: Option<i64>, limit: i64, fallback: i64) -> i64 {
    let effective = if limit > 0 {
        limit
    } else {
        fallback
    };
    if effective <= 0 {
        fallback
    } else {
        match window_override {
            Some(most) => at_most(most, effective),
            None => effective,
        }
    }
}

/// At least nothing.
pub open spec fn at_least_zero(value: i64) -> i64 {
    if value > 0 {
        value
    } else {
        0
    }
}

/// The first `count` of the slots, or all where there are fewer.
pub open spec fn first_slots(rows: Seq<LeaderSlotView>, count: int) -> Seq<LeaderSlotView> {
    if count < rows.len() {
        rows.take(count)
    } else {
        rows
    }
}

/// The models of optional actions.
pub open spec fn opt_actions(actions: Option<Vec<RowAction>>) -> Option<Seq<RowActionView>> {
    match actions {
        Some(actions) => Some(actions_view(actions@)),
        None => None,
    }
}

/// What is to be done to the rows as the slots before one go, where there are rows.
pub open spec fn opt_prune_actions(runs: Seq<RunView>, slot: i64) -> Option<Seq<RowActionView>> {
    if runs.len() == 0 {
        None
    } else {
        Some(prune_actions(runs, slot))
    }
}

/// Whether the states differ in the table and the count of its slots alone, and the
/// table has these runs.
pub open spec fn shows(before: PageState, after: PageState, runs: Seq<RunView>) -> bool {
    &&& after == (PageState {
        table: after.table,
        visible_slot_count: after.visible_slot_count,
        ..before
    })
    &&& after.table@ == runs
    &&& after.visible_slot_count == counted(runs, before.filter_prefix@)
}

/// Whether a slot was taken in: it is ignored unless it is later than the current
/// one, and else it is the current one, and the slots before it are gone.
pub open spec fn slot_taken_in(
    before: PageState,
    after: PageState,
    slot: i64,
    update: SlotUpdate,
) -> bool {
    if before.current_slot is Some && slot <= before.current_slot->0 {
        after == before && update == SlotUpdate::Ignored
    } else {
        &&& shows(
            (PageState { current_slot: Some(slot), ..before }),
            after,
            pruned(before.table@, slot),
        )
        &&& update matches SlotUpdate::Advanced(actions)
        &&& opt_actions(actions) == opt_prune_actions(before.table@, slot)
    }
}

/// The runs that the table shows when runs come.
pub open spec fn runs_shown(
    before: Seq<RunView>,
    has_table: bool,
    incoming: Seq<RunView>,
) -> Seq<RunView> {
    if incoming.len() > 0 && before.len() == 0 && !has_table {
        before
    } else {
        tabled(incoming)
    }
}

/// What becomes of the table when runs come.
pub open spec fn update_for(
    before: Seq<RunView>,
    has_table: bool,
    incoming: Seq<RunView>,
    update: TableUpdate,
) -> bool {
    if incoming.len() == 0 {
        update == TableUpdate::Cleared
    } else if before.len() == 0 {
        update == if has_table {
            TableUpdate::Rendered
        } else {
            TableUpdate::Untouched
        }
    } else {
        &&& update matches TableUpdate::Changed(actions)
        &&& actions_view(actions@) == removals(before, incoming) + arrivals(before, incoming)
    }
}

/// The slot that is current once leaders have come.
pub open spec fn later_slot(current_slot: Option<i64>, slot: i64) -> i64 {
    if current_slot is Some && current_slot->0 >= slot {
        current_slot->0
    } else {
        slot
    }
}

/// The limit that is kept once leaders have come: what was asked for, and no more
/// than what the service gives.
pub open spec fn kept_limit(requested: i64, given: i64) -> i64 {
    let asked = if requested > 1 {
        requested
    } else {
        1
    };
    if given > 0 {
        at_most(asked, given)
    } else {
        asked
    }
}

/// The model of the slots that came.
pub open spec fn slots_given(leaders: Option<Vec<LeaderSlot>>) -> Seq<LeaderSlotView> {
    match leaders {
        Some(rows) => slots_view(rows@),
        None => Seq::empty(),
    }
}

impl PageState {
    /// The count is that of the slots that pass the filter; without a table nothing
    /// is shown; a slot waits only while the page is paused.
    pub open spec fn wf(&self) -> bool {
        &&& self.table.wf()
        &&& self.visible_slot_count == counted(self.table@, self.filter_prefix@)
        &&& !self.has_table ==> self.table@.len() == 0
        &&& self.pending_slot is Some ==> self.is_paused
    }

    /// The page as it is loaded.
    pub fn new(has_table: bool) -> (state: Self)
        ensures
            state.wf(),
            state.table@ == Seq::<RunView>::empty(),
            state.has_table == has_table,
            state.pending_slot is None,
            state.current_slot is None,
            state.last_limit == DEFAULT_LIMIT,
            state.window_override is None,
            state.max_visible_rows == DEFAULT_LIMIT,
            state.visible_slot_count == 0,
            !state.is_loading,
            !state.is_paused,
            state.filter_prefix@ == Seq::<char>::empty(),
            state.next_copy_id == 1,
    {
        let filter_prefix: String = String::new();
        assert(filter_prefix@ =~= Seq::<char>::empty());
        PageState {
            table: LeaderTable::new(),
            has_table,
            pending_slot: None,
            current_slot: None,
            last_limit: DEFAULT_LIMIT,
            window_override: None,
            max_visible_rows: DEFAULT_LIMIT,
            visible_slot_count: 0,
            is_loading: false,
            is_paused: false,
            filter_prefix,
            next_copy_id: 1,
        }
    }

    /// Takes in, before there are any runs, what the page's address asks for and
    /// what stands in the filter, if there is one.
    pub fn configure(&mut self, config: InitialConfig, filter: Option<&str>)
        requires
            old(self).wf(),
            old(self).table@.len() == 0,
        ensures
            *final(self) == (PageState {
                window_override: config.window_override,
                max_visible_rows: match config.window_override {
                    Some(most) => at_most(most, config.limit),
                    None => config.limit,
                },
                filter_prefix: final(self).filter_prefix,
                ..*old(self)
            }),
            final(self).filter_prefix@ == match filter {
                Some(text) => trimmed(text@),
                None => old(self).filter_prefix@,
            },
            final(self).wf(),
    {
        self.window_override = config.window_override;
        self.max_visible_rows = match config.window_override {
            Some(most) => lesser(most, config.limit),
            None => config.limit,
        };
        if let Some(text) = filter {
            self.filter_prefix = normalize_prefix(text);
        }
    }

    /// In how many slots a slot comes.
    pub fn format_slots_until(&self, slot: i64) -> (text: String)
        ensures
            text@ == slots_until(self.current_slot, slot),
    {
        match self.current_slot {
            Some(current) => if slot <= current {
                "0".to_owned()
            } else {
                let diff: i128 = slot as i128 - current as i128;
                decimal_text(diff as u64)
            },
            None => "-".to_owned(),
        }
    }

    /// In how many slots a row's run comes, by what the row says that it begins with.
    pub fn row_until(&self, slot_text: &str) -> (text: Option<String>)
        ensures
            match read_signed(slot_text@) {
                Some(slot) => text is Some && text->0@ == slots_until(
                    self.current_slot,
                    slot as i64,
                ),
                None => text is None,
            },
    {
        match parse_signed(slot_text) {
            Some(slot) => Some(self.format_slots_until(slot)),
            None => None,
        }
    }

    /// Whether the times that are shown are to be shown anew.
    pub fn update_eta_cells(&self) -> (due: bool)
        ensures
            due == (!self.is_paused && self.current_slot is Some),
    {
        !self.is_paused && self.current_slot.is_some()
    }

    /// The line about what is shown, with the time of the last answer: blank while
    /// the current slot is not known.
    pub fn update_meta(&self, stamp: &str) -> (text: String)
        ensures
            text@ == match self.current_slot {
                Some(slot) => "Slot "@ + signed_decimal(slot as int) + " - "@ + signed_decimal(
                    at_least_zero(self.visible_slot_count) as int,
                ) + "/"@ + signed_decimal(
                    if self.max_visible_rows > 0 {
                        self.max_visible_rows as int
                    } else if self.last_limit > 0 {
                        self.last_limit as int
                    } else {
                        at_least_zero(self.visible_slot_count) as int
                    },
                ) + " slots"@ + filter_note(self.filter_prefix@) + " - "@ + stamp@,
                None => Seq::empty(),
            },
    {
        let slot: i64 = match self.current_slot {
            Some(slot) => slot,
            None => {
                let blank: String = String::new();
                assert(blank@ =~= Seq::empty());
                return blank;
            },
        };
        let shown: i64 = if self.visible_slot_count > 0 {
            self.visible_slot_count
        } else {
            0
        };
        let total: i64 = if self.max_visible_rows > 0 {
            self.max_visible_rows
        } else if self.last_limit > 0 {
            self.last_limit
        } else {
            shown
        };
        let mut text: String = "Slot ".to_owned();
        text.append(signed_text(slot).as_str());
        text.append(" - ");
        text.append(signed_text(shown).as_str());
        text.append("/");
        text.append(signed_text(total).as_str());
        text.append(" slots");
        if !self.filter_prefix.as_str().is_empty() {
            text.append(" (filtered)");
        } else {
            assert(text@ + filter_note(self.filter_prefix@) =~= text@);
        }
        text.append(" - ");
        text.append(stamp);
        text
    }

    /// The line about the filter.
    pub fn update_filter_summary(&self) -> (text: String)
        ensures
            text@ == if self.filter_prefix@.len() == 0 {
                "All leaders"@
            } else if self.table@.len() == 0 {
                "No leaders loaded"@
            } else {
                signed_decimal(self.visible_slot_count as int) + " "@ + (
                if self.visible_slot_count == 1 {
                    "slot"@
                } else {
                    "slots"@
                }) + " match"@
            },
    {
        if self.filter_prefix.as_str().is_empty() {
            return "All leaders".to_owned();
        }
        if self.table.is_empty() {
            return "No leaders loaded".to_owned();
        }
        let mut text: String = signed_text(self.visible_slot_count);
        text.append(" ");
        if self.visible_slot_count == 1 {
            text.append("slot");
        } else {
            text.append("slots");
        }
        text.append(" match");
        text
    }

    /// The status once leaders are shown. An error that is shown, by the tone of the
    /// status, stays unless `force`.
    pub fn update_status_loaded(&self, tone: Option<&str>, force: bool) -> (text: Option<String>)
        ensures
            text is None <==> !force && tone is Some && tone->0@ == "error"@,
            text is Some ==> text->0@ == "Showing "@ + signed_decimal(
                at_least_zero(self.visible_slot_count) as int,
            ) + " next slots"@ + filter_note(self.filter_prefix@),
    {
        if !force {
            if let Some(tone) = tone {
                if same_text(tone, "error") {
                    return None;
                }
            }
        }
        let shown: i64 = if self.visible_slot_count > 0 {
            self.visible_slot_count
        } else {
            0
        };
        let mut text: String = "Showing ".to_owned();
        text.append(signed_text(shown).as_str());
        text.append(" next slots");
        if !self.filter_prefix.as_str().is_empty() {
            text.append(" (filtered)");
        } else {
            assert(text@ + filter_note(self.filter_prefix@) =~= text@);
        }
        Some(text)
    }

    /// What the cells of a run's row show: but for the time it ends at.
    pub fn apply_row_data(&self, row: &LeaderRow) -> (cells: RowCells)
        ensures
            cells.data_slot@ == signed_decimal(row.start_slot as int),
            cells.data_end_slot@ == signed_decimal(row.end_slot as int),
            cells.until@ == slots_until(self.current_slot, row.range_start),
            cells.slot@ == signed_decimal(row.range_start as int),
            cells.tpu.display@ == match row.tpu {
                Some(tpu) => tpu@,
                None => "-"@,
            },
            cells.tpu.value@ == match row.tpu {
                Some(tpu) => tpu@,
                None => Seq::empty(),
            },
            cells.tpu.copyable == (row.tpu is Some && row.tpu->0@.len() > 0),
    {
        let tpu: CopyCell = match &row.tpu {
            Some(tpu) => set_copy_cell(Some(tpu.as_str()), tpu.as_str()),
            None => set_copy_cell(None, "-"),
        };
        RowCells {
            data_slot: signed_text(row.start_slot),
            data_end_slot: signed_text(row.end_slot),
            until: self.format_slots_until(row.range_start),
            slot: signed_text(row.range_start),
            tpu,
        }
    }

    /// Lets every run go.
    pub fn clear_table(&mut self)
        requires
            old(self).wf(),
        ensures
            shows(*old(self), *final(self), Seq::empty()),
            final(self).wf(),
    {
        self.table.clear();
        self.visible_slot_count = 0;
    }

    /// How many rows the table is to show.
    pub fn resolve_window_size(&self, limit: i64, fallback_length: i64) -> (size: i64)
        ensures
            size == window_size(self.window_override, limit, fallback_length),
    {
        let effective: i64 = if limit > 0 {
            limit
        } else {
            fallback_length
        };
        if effective <= 0 {
            return fallback_length;
        }
        match self.window_override {
            Some(most) => lesser(most, effective),
            None => effective,
        }
    }

    /// The slots that the table is to show, of those that came.
    pub fn limit_rows(&mut self, rows: Vec<LeaderSlot>) -> (kept: Vec<LeaderSlot>)
        requires
            rows@.len() <= i64::MAX,
        ensures
            *final(self) == (PageState {
                max_visible_rows: at_least_zero(
                    window_size(
                        old(self).window_override,
                        old(self).last_limit,
                        rows@.len() as i64,
                    ),
                ),
                ..*old(self)
            }),
            slots_view(kept@) == first_slots(
                slots_view(rows@),
                final(self).max_visible_rows as int,
            ),
    {
        let size: i64 = self.resolve_window_size(self.last_limit, rows.len() as i64);
        self.max_visible_rows = if size > 0 {
            size
        } else {
            0
        };
        let mut kept: Vec<LeaderSlot> = rows;
        if (self.max_visible_rows as u64) < kept.len() as u64 {
            kept.truncate(self.max_visible_rows as usize);
        }
        assert(slots_view(kept@) =~= first_slots(
            slots_view(rows@),
            self.max_visible_rows as int,
        ));
        kept
    }

    fn recount(&mut self)
        requires
            old(self).table.wf(),
        ensures
            *final(self) == (PageState {
                visible_slot_count: final(self).visible_slot_count,
                ..*old(self)
            }),
            final(self).visible_slot_count == counted(
                old(self).table@,
                old(self).filter_prefix@,
            ),
    {
        self.visible_slot_count = self.table.count(self.filter_prefix.as_str());
    }

    /// Which rows pass the filter.
    pub fn apply_filter_to_table(&self) -> (marks: Vec<(i64, bool)>)
        ensures
            marks@ == filter_marks(self.table@, self.filter_prefix@),
    {
        self.table.marks(self.filter_prefix.as_str())
    }

    /// The filter's text has changed.
    pub fn set_filter(&mut self, value: &str)
        requires
            old(self).wf(),
        ensures
            *final(self) == (PageState {
                filter_prefix: final(self).filter_prefix,
                visible_slot_count: final(self).visible_slot_count,
                ..*old(self)
            }),
            final(self).filter_prefix@ == trimmed(value@),
            final(self).visible_slot_count == counted(old(self).table@, trimmed(value@)),
            final(self).wf(),
    {
        self.filter_prefix = normalize_prefix(value);
        self.recount();
    }

    /// Shows the runs, where the page has a table. Returns what became of the table.
    pub fn render_table(&mut self, rows: &Vec<LeaderRow>) -> (update: TableUpdate)
        requires
            old(self).wf(),
            total(runs_view(rows@)) <= i64::MAX,
        ensures
            if rows@.len() == 0 {
                shows(*old(self), *final(self), Seq::empty()) && update == TableUpdate::Cleared
            } else if old(self).has_table {
                shows(*old(self), *final(self), tabled(runs_view(rows@))) && update
                    == TableUpdate::Rendered
            } else {
                *final(self) == *old(self) && update == TableUpdate::Untouched
            },
            final(self).wf(),
    {
        if rows.len() == 0 {
            self.clear_table();
            return TableUpdate::Cleared;
        }
        if !self.has_table {
            return TableUpdate::Untouched;
        }
        self.table.render(rows);
        self.recount();
        TableUpdate::Rendered
    }

    /// Makes the table show the runs.
    pub fn reconcile_leaders(&mut self, rows: &Vec<LeaderRow>) -> (update: TableUpdate)
        requires
            old(self).wf(),
            total(runs_view(rows@)) <= i64::MAX,
        ensures
            shows(
                *old(self),
                *final(self),
                runs_shown(old(self).table@, old(self).has_table, runs_view(rows@)),
            ),
            update_for(old(self).table@, old(self).has_table, runs_view(rows@), update),
            final(self).wf(),
    {
        if rows.len() == 0 || self.table.is_empty() {
            let update: TableUpdate = self.render_table(rows);
            assert(rows@.len() == 0 ==> runs_view(rows@) =~= Seq::empty());
            return update;
        }
        let actions: Vec<RowAction> = self.table.reconcile(rows);
        self.recount();
        TableUpdate::Changed(actions)
    }

    /// Lets the slots before `next_slot` go. Returns what is to be done to the rows,
    /// where there are any.
    pub fn prune_leaders(&mut self, next_slot: i64) -> (actions: Option<Vec<RowAction>>)
        requires
            old(self).wf(),
        ensures
            shows(*old(self), *final(self), pruned(old(self).table@, next_slot)),
            opt_actions(actions) == opt_prune_actions(old(self).table@, next_slot),
            final(self).wf(),
    {
        if self.table.is_empty() {
            assert(self.table@ =~= pruned(self.table@, next_slot));
            return None;
        }
        let actions: Vec<RowAction> = self.table.prune(next_slot);
        self.recount();
        Some(actions)
    }

    /// Takes in a slot.
    pub fn apply_slot_update(&mut self, slot: i64) -> (update: SlotUpdate)
        requires
            old(self).wf(),
        ensures
            slot_taken_in(*old(self), *final(self), slot, update),
            final(self).wf(),
    {
        if let Some(current) = self.current_slot {
            if slot <= current {
                return SlotUpdate::Ignored;
            }
        }
        self.current_slot = Some(slot);
        SlotUpdate::Advanced(self.prune_leaders(slot))
    }

    /// A slot has come by the stream. While the page is paused the last one waits.
    pub fn handle_stream_slot(&mut self, slot: i64) -> (update: StreamUpdate)
        requires
            old(self).wf(),
        ensures
            if old(self).is_paused {
                &&& *final(self) == (PageState { pending_slot: Some(slot), ..*old(self) })
                &&& update == StreamUpdate::Queued
            } else {
                &&& update matches StreamUpdate::Slot(taken)
                &&& slot_taken_in(*old(self), *final(self), slot, taken)
            },
            final(self).wf(),
    {
        if self.is_paused {
            self.pending_slot = Some(slot);
            return StreamUpdate::Queued;
        }
        StreamUpdate::Slot(self.apply_slot_update(slot))
    }

    /// Pauses the page. Returns whether it was not paused before.
    pub fn pause_updates(&mut self) -> (changed: bool)
        requires
            old(self).wf(),
        ensures
            *final(self) == (PageState { is_paused: true, ..*old(self) }),
            changed == !old(self).is_paused,
            final(self).wf(),
    {
        let changed: bool = !self.is_paused;
        self.is_paused = true;
        changed
    }

    /// Lets the page go on, with the slot that waits.
    pub fn resume_updates(&mut self) -> (resumed: Resumed)
        requires
            old(self).wf(),
        ensures
            if !old(self).is_paused {
                *final(self) == *old(self) && resumed == Resumed::NotPaused
            } else {
                let going = PageState { is_paused: false, pending_slot: None, ..*old(self) };
                match old(self).pending_slot {
                    Some(slot) => {
                        &&& resumed matches Resumed::Slot(taken)
                        &&& slot_taken_in(going, *final(self), slot, taken)
                    },
                    None => *final(self) == going && resumed == Resumed::Refresh,
                }
            },
            final(self).wf(),
    {
        if !self.is_paused {
            return Resumed::NotPaused;
        }
        self.is_paused = false;
        let pending: Option<i64> = self.pending_slot;
        self.pending_slot = None;
        match pending {
            Some(slot) => Resumed::Slot(self.apply_slot_update(slot)),
            None => Resumed::Refresh,
        }
    }

    /// Takes in leaders that came for a request with this limit.
    pub fn apply_leaders_payload(&mut self, data: LeadersData, requested_limit: i64) -> (update:
        PayloadUpdate)
        requires
            old(self).wf(),
            slots_given(data.leaders).len() <= i64::MAX,
        ensures
            ({
                let slot = later_slot(old(self).current_slot, data.current_slot);
                let limit = kept_limit(requested_limit, data.limit);
                let size = at_least_zero(
                    window_size(
                        old(self).window_override,
                        limit,
                        slots_given(data.leaders).len() as i64,
                    ),
                );
                let runs = runs_of(first_slots(slots_given(data.leaders), size as int), None);
                let shown = runs_shown(old(self).table@, old(self).has_table, runs);
                &&& shows(
                    (PageState {
                        current_slot: Some(slot),
                        last_limit: limit,
                        max_visible_rows: size,
                        ..*old(self)
                    }),
                    *final(self),
                    pruned(shown, slot),
                )
                &&& update.advanced == !(old(self).current_slot is Some && data.current_slot
                    <= old(self).current_slot->0)
                &&& runs_view(update.rows@) == runs
                &&& update_for(old(self).table@, old(self).has_table, runs, update.table)
                &&& opt_actions(update.pruned) == opt_prune_actions(shown, slot)
            }),
            final(self).wf(),
    {
        let incoming: Vec<LeaderSlot> = match data.leaders {
            Some(rows) => rows,
            None => Vec::new(),
        };
        assert(slots_view(incoming@) =~= slots_given(data.leaders));
        let advanced: bool = match self.current_slot {
            Some(current) => data.current_slot > current,
            None => true,
        };
        if advanced {
            self.current_slot = Some(data.current_slot);
        }
        let slot: i64 = match self.current_slot {
            Some(slot) => slot,
            None => data.current_slot,
        };
        let mut limit: i64 = if requested_limit > 1 {
            requested_limit
        } else {
            1
        };
        if data.limit > 0 {
            limit = lesser(limit, data.limit);
        }
        self.last_limit = limit;
        let limited: Vec<LeaderSlot> = self.limit_rows(incoming);
        let rows: Vec<LeaderRow> = group_leaders(&limited);
        proof {
            runs_have_as_many_slots(slots_view(limited@), None);
        }
        let table: TableUpdate = self.reconcile_leaders(&rows);
        let pruned: Option<Vec<RowAction>> = self.prune_leaders(slot);
        PayloadUpdate { advanced, rows, table, pruned }
    }

    /// Leaders are to be asked for. Where none are under way the request is made, and
    /// unless it is `silent` the table is emptied.
    pub fn fetch_leaders(&mut self, silent: bool) -> (plan: FetchPlan)
        requires
            old(self).wf(),
        ensures
            if old(self).is_loading {
                *final(self) == *old(self) && plan == FetchPlan::Skip
            } else {
                let loading = PageState { is_loading: true, ..*old(self) };
                &&& plan == FetchPlan::Fetch
                &&& silent ==> *final(self) == loading
                &&& !silent ==> shows(loading, *final(self), Seq::empty())
            },
            final(self).wf(),
    {
        if self.is_loading {
            return FetchPlan::Skip;
        }
        self.is_loading = true;
        if !silent {
            self.clear_table();
        }
        FetchPlan::Fetch
    }

    /// The leaders that were asked for have come and were taken in.
    pub fn fetch_succeeded(&mut self)
        requires
            old(self).wf(),
        ensures
            *final(self) == (PageState { is_loading: false, ..*old(self) }),
            final(self).wf(),
    {
        self.is_loading = false;
    }

    /// The leaders that were asked for could not be had. Unless the request was
    /// `silent` the table is emptied.
    pub fn fetch_failed(&mut self, silent: bool)
        requires
            old(self).wf(),
        ensures
            ({
                let idle = PageState { is_loading: false, ..*old(self) };
                &&& silent ==> *final(self) == idle
                &&& !silent ==> shows(idle, *final(self), Seq::empty())
            }),
            final(self).wf(),
    {
        self.is_loading = false;
        if !silent {
            self.clear_table();
        }
    }

    /// How many leaders are asked for from time to time: none while the page is
    /// paused.
    pub fn auto_refresh_limit(&self) -> (limit: Option<i64>)
        ensures
            limit == if self.is_paused {
                None
            } else {
                Some(self.last_limit)
            },
    {
        if self.is_paused {
            None
        } else {
            Some(self.last_limit)
        }
    }

    /// The number of a cell that was copied from: the one that it says, or else a new
    /// one, and whether it is new.
    pub fn ensure_copy_id(&mut self, id_text: Option<&str>) -> (id: (u32, bool))
        requires
            old(self).next_copy_id < u32::MAX || (id_text is Some && read_unsigned(
                id_text->0@,
                u32::MAX as nat,
            ) is Some),
        ensures
            if id_text is Some && read_unsigned(id_text->0@, u32::MAX as nat) is Some {
                &&& id.0 == read_unsigned(id_text->0@, u32::MAX as nat)->0
                &&& !id.1
                &&& *final(self) == *old(self)
            } else {
                &&& id.0 == old(self).next_copy_id
                &&& id.1
                &&& *final(self) == (PageState {
                    next_copy_id: (old(self).next_copy_id + 1) as u32,
                    ..*old(self)
                })
            },
            old(self).wf() ==> final(self).wf(),
    {
        if let Some(text) = id_text {
            if let Some(value) = parse_unsigned(text, u32::MAX as u64) {
                return (value as u32, false);
            }
        }
        let id: u32 = self.next_copy_id;
        self.next_copy_id = id + 1;
        (id, true)
    }
}

/// How the page starts: with the leaders that it was delivered with, if there are
/// any, and a request for leaders, unless those were as many as it wants.
pub fn start_plan(limit: i64, payload_limit: Option<i64>) -> (plan: StartPlan)
    ensures
        plan == match payload_limit {
            Some(given) => if limit > at_least_zero(given) {
                StartPlan::ShowAndFetch
            } else {
                StartPlan::Show
            },
            None => StartPlan::Fetch,
        },
{
    match payload_limit {
        Some(given) => {
            let given: i64 = if given > 0 {
                given
            } else {
                0
            };
            if limit > given && limit > 0 {
                StartPlan::ShowAndFetch
            } else {
                StartPlan::Show
            }
        },
        None => StartPlan::Fetch,
    }
}

/// No slot that is taken in makes the current slot an earlier one, and once it is
/// taken in, taking it in again changes nothing.
pub proof fn page_slot_never_goes_back(
    before: PageState,
    after: PageState,
    again: PageState,
    slot: i64,
    update: SlotUpdate,
    second: SlotUpdate,
)
    requires
        slot_taken_in(before, after, slot, update),
        slot_taken_in(after, again, slot, second),
    ensures
        after.current_slot is Some,
        slot <= after.current_slot->0,
        before.current_slot is Some ==> before.current_slot->0 <= after.current_slot->0,
        again == after,
        second == SlotUpdate::Ignored,
{
}

/// A page that is paused, gets slots and goes on comes to what it would have come to
/// had it got the last of them without the pause.
pub proof fn going_on_catches_up(
    before: PageState,
    waiting: PageState,
    after: PageState,
    slot: i64,
    update: SlotUpdate,
)
    requires
        before.wf(),
        !before.is_paused,
        waiting == (PageState { is_paused: true, pending_slot: Some(slot), ..before }),
        slot_taken_in(
            (PageState { is_paused: false, pending_slot: None, ..waiting }),
            after,
            slot,
            update,
        ),
    ensures
        slot_taken_in(before, after, slot, update),
        !after.is_paused,
        after.pending_slot is None,
{
}

} // verus!
