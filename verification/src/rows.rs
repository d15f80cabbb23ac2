//! The rows of the page's table: runs of slots with one leader.
use vstd::prelude::*;
use vstd::string::*;

use crate::text::{copy_opt, opt_text, same_text};

verus! {

/// The leader of one slot, as the page gets it.
pub struct LeaderSlot {
    pub slot: i64,
    pub leader: String,
    pub tpu: Option<String>,
    pub ip: Option<String>,
    pub port: Option<String>,
}

/// The model of [`LeaderSlot`].
pub struct LeaderSlotView {
    pub slot: i64,
    pub leader: Seq<char>,
    pub tpu: Option<Seq<char>>,
    pub ip: Option<Seq<char>>,
    pub port: Option<Seq<char>>,
}

impl View for LeaderSlot {
    type V = LeaderSlotView;

    open spec fn view(&self) -> LeaderSlotView {
        LeaderSlotView {
            slot: self.slot,
            leader: self.leader@,
            tpu: opt_text(self.tpu),
            ip: opt_text(self.ip),
            port: opt_text(self.port),
        }
    }
}

/// A run of slots with one leader. `range_start` is the slot that the run began
/// with, `start_slot` the first one that is still to come.
pub struct LeaderRow {
    pub start_slot: i64,
    pub end_slot: i64,
    pub range_start: i64,
    pub leader: String,
    pub tpu: Option<String>,
    pub ip: Option<String>,
    pub port: Option<String>,
}

/// The model of [`LeaderRow`].
pub struct RunView {
    pub start_slot: i64,
    pub end_slot: i64,
    pub range_start: i64,
    pub leader: Seq<char>,
    pub tpu: Option<Seq<char>>,
    pub ip: Option<Seq<char>>,
    pub port: Option<Seq<char>>,
}

impl View for LeaderRow {
    type V = RunView;

    open spec fn view(&self) -> RunView {
        RunView {
            start_slot: self.start_slot,
            end_slot: self.end_slot,
            range_start: self.range_start,
            leader: self.leader@,
            tpu: opt_text(self.tpu),
            ip: opt_text(self.ip),
            port: opt_text(self.port),
        }
    }
}

impl Clone for LeaderRow {
    fn clone(&self) -> (copy: Self)
        ensures
            copy == *self,
    {
        LeaderRow {
            start_slot: self.start_slot,
            end_slot: self.end_slot,
            range_start: self.range_start,
            leader: self.leader.clone(),
            tpu: copy_opt(&self.tpu),
            ip: copy_opt(&self.ip),
            port: copy_opt(&self.port),
        }
    }
}

/// The models of the slots.
pub open spec fn slots_view(rows: Seq<LeaderSlot>) -> Seq<LeaderSlotView> {
    Seq::new(rows.len(), |i: int| rows[i]@)
}

/// The models of the runs.
pub open spec fn runs_view(rows: Seq<LeaderRow>) -> Seq<RunView> {
    Seq::new(rows.len(), |i: int| rows[i]@)
}

/// The run of one slot.
pub open spec fn single(row: LeaderSlotView) -> RunView {
    RunView {
        start_slot: row.slot,
        end_slot: row.slot,
        range_start: row.slot,
        leader: row.leader,
        tpu: row.tpu,
        ip: row.ip,
        port: row.port,
    }
}

/// Whether a slot continues a run: it follows the run's last slot, has its leader,
/// and the run is shorter than the longest one.
pub open spec fn continues(run: RunView, row: LeaderSlotView, max_len: Option<i64>) -> bool {
    &&& row.leader == run.leader
    &&& row.slot == run.end_slot + 1
    &&& max_len is Some ==> run.end_slot - run.start_slot + 1 < max_len->0
}

/// A run with one slot more: what the run does not know is the slot's.
pub open spec fn continued(run: RunView, row: LeaderSlotView) -> RunView {
    RunView {
        end_slot: row.slot,
        tpu: if run.tpu is None {
            row.tpu
        } else {
            run.tpu
        },
        ip: if run.ip is None {
            row.ip
        } else {
            run.ip
        },
        port: if run.port is None {
            row.port
        } else {
            run.port
        },
        ..run
    }
}

/// The runs of the slots: each slot continues the run before it if it can.
pub open spec fn runs_of(rows: Seq<LeaderSlotView>, max_len: Option<i64>) -> Seq<RunView>
    decreases rows.len(),
{
    if rows.len() == 0 {
        Seq::empty()
    } else {
        let runs = runs_of(rows.drop_last(), max_len);
        let row = rows.last();
        if runs.len() > 0 && continues(runs.last(), row, max_len) {
            runs.drop_last().push(continued(runs.last(), row))
        } else {
            runs.push(single(row))
        }
    }
}

/// The runs of the slots, each as long as it can be.
pub fn group_leaders(rows: &Vec<LeaderSlot>) -> (runs: Vec<LeaderRow>)
    ensures
        runs_view(runs@) == runs_of(slots_view(rows@), None),
{
    group_leaders_with_limit(rows, None)
}

fn extend_run(run: LeaderRow, row: &LeaderSlot) -> (longer: LeaderRow)
    ensures
        longer@ == continued(run@, row@),
{
    LeaderRow {
        start_slot: run.start_slot,
        end_slot: row.slot,
        range_start: run.range_start,
        leader: run.leader,
        tpu: if run.tpu.is_none() {
            copy_opt(&row.tpu)
        } else {
            run.tpu
        },
        ip: if run.ip.is_none() {
            copy_opt(&row.ip)
        } else {
            run.ip
        },
        port: if run.port.is_none() {
            copy_opt(&row.port)
        } else {
            run.port
        },
    }
}

fn can_extend(run: &LeaderRow, row: &LeaderSlot, max_len: Option<i64>) -> (can: bool)
    ensures
        can == continues(run@, row@, max_len),
{
    if !same_text(row.leader.as_str(), run.leader.as_str()) {
        return false;
    }
    if row.slot as i128 != run.end_slot as i128 + 1 {
        return false;
    }
    match max_len {
        Some(max_len) => run.end_slot as i128 - run.start_slot as i128 + 1 < max_len as i128,
        None => true,
    }
}

/// The runs of the slots, none longer than `max_group_len`, where there is such a
/// limit and it is at least one.
pub fn group_leaders_with_limit(rows: &Vec<LeaderSlot>, max_group_len: Option<i64>) -> (runs: Vec<
    LeaderRow,
>)
    ensures
        runs_view(runs@) == runs_of(slots_view(rows@), max_group_len),
{
    let mut grouped: Vec<LeaderRow> = Vec::new();
    let mut index: usize = 0;
    assert(runs_view(grouped@) =~= Seq::empty());
    while index < rows.len()
        invariant
            index <= rows.len(),
            runs_view(grouped@) == runs_of(slots_view(rows@).take(index as int), max_group_len),
        decreases rows.len() - index,
    {
        let ghost before = slots_view(rows@).take(index as int);
        let ghost after = slots_view(rows@).take(index + 1);
        assert(after.drop_last() =~= before);
        let ghost runs = runs_view(grouped@);
        let row: &LeaderSlot = &rows[index];
        let extend: bool = match grouped.last() {
            Some(run) => can_extend(run, row, max_group_len),
            None => false,
        };
        let next: LeaderRow = if extend {
            let run: LeaderRow = grouped.pop().unwrap();
            extend_run(run, row)
        } else {
            LeaderRow {
                start_slot: row.slot,
                end_slot: row.slot,
                range_start: row.slot,
                leader: row.leader.clone(),
                tpu: copy_opt(&row.tpu),
                ip: copy_opt(&row.ip),
                port: copy_opt(&row.port),
            }
        };
        grouped.push(next);
        index = index + 1;
        assert(runs_view(grouped@) =~= runs_of(after, max_group_len));
    }
    assert(slots_view(rows@).take(index as int) =~= slots_view(rows@));
    grouped
}

/// How many slots a run has.
pub open spec fn run_len(run: RunView) -> int {
    if run.end_slot >= run.start_slot {
        run.end_slot - run.start_slot + 1
    } else {
        0
    }
}

/// The slots of a run, each with its leader.
pub open spec fn slots_in_run(run: RunView) -> Seq<(int, Seq<char>)> {
    Seq::new(run_len(run) as nat, |i: int| (run.start_slot + i, run.leader))
}

/// The slots of the runs, each with its leader.
pub open spec fn slots_in_runs(runs: Seq<RunView>) -> Seq<(int, Seq<char>)>
    decreases runs.len(),
{
    if runs.len() == 0 {
        Seq::empty()
    } else {
        slots_in_runs(runs.drop_last()) + slots_in_run(runs.last())
    }
}

/// The slots that were grouped, each with its leader.
pub open spec fn slots_named(rows: Seq<LeaderSlotView>) -> Seq<(int, Seq<char>)> {
    Seq::new(rows.len(), |i: int| (rows[i].slot as int, rows[i].leader))
}

/// Grouping loses no slot, adds none, and changes neither their order nor their
/// leaders.
pub proof fn runs_hold_the_slots(rows: Seq<LeaderSlotView>, max_len: Option<i64>)
    ensures
        slots_in_runs(runs_of(rows, max_len)) == slots_named(rows),
        forall|i: int|
            0 <= i < runs_of(rows, max_len).len() ==> {
                let run = #[trigger] runs_of(rows, max_len)[i];
                run.start_slot <= run.end_slot && run.range_start == run.start_slot
            },
    decreases rows.len(),
{
    if rows.len() == 0 {
        assert(slots_named(rows) =~= Seq::empty());
    } else {
        let before = rows.drop_last();
        let row = rows.last();
        runs_hold_the_slots(before, max_len);
        let runs = runs_of(before, max_len);
        let after = runs_of(rows, max_len);
        assert(slots_named(rows) =~= slots_named(before).push((row.slot as int, row.leader)));
        if runs.len() > 0 && continues(runs.last(), row, max_len) {
            let run = runs.last();
            assert(runs[runs.len() - 1] == run);
            assert(after.drop_last() =~= runs.drop_last());
            assert(slots_in_run(continued(run, row)) =~= slots_in_run(run).push(
                (row.slot as int, row.leader),
            ));
        } else {
            assert(after.drop_last() =~= runs);
            assert(slots_in_run(single(row)) =~= seq![(row.slot as int, row.leader)]);
        }
        assert(slots_in_runs(after) =~= slots_named(rows));
    }
}

/// The most slots that a run can have under a limit: one where the limit is less.
pub open spec fn longest_run(max_len: i64) -> int {
    if max_len > 1 {
        max_len as int
    } else {
        1
    }
}

/// Whether a run goes on with the leader and the slot that another one ends with.
pub open spec fn joins(run: RunView, next: RunView) -> bool {
    run.leader == next.leader && next.start_slot == run.end_slot + 1
}

/// With a limit no run is longer than the limit, or than one slot where the limit is
/// less, and a run could be joined with the one after it only if it is just that long.
pub proof fn runs_keep_to_the_limit(rows: Seq<LeaderSlotView>, max_len: i64)
    ensures
        ({
            let runs = runs_of(rows, Some(max_len));
            &&& forall|i: int|
                0 <= i < runs.len() ==> 1 <= run_len(#[trigger] runs[i]) <= longest_run(max_len)
            &&& forall|i: int|
                #![trigger runs[i]]
                0 <= i < runs.len() - 1 && joins(runs[i], runs[i + 1]) ==> run_len(runs[i])
                    == longest_run(max_len)
        }),
    decreases rows.len(),
{
    if rows.len() > 0 {
        let row = rows.last();
        runs_keep_to_the_limit(rows.drop_last(), max_len);
        let runs = runs_of(rows.drop_last(), Some(max_len));
        let after = runs_of(rows, Some(max_len));
        if runs.len() > 0 {
            assert(runs[runs.len() - 1] == runs.last());
            assert(1 <= run_len(runs.last()) <= longest_run(max_len));
        }
        assert forall|i: int| 0 <= i < after.len() implies 1 <= run_len(
            #[trigger] after[i],
        ) <= longest_run(max_len) by {
            if i < after.len() - 1 {
                assert(after[i] == runs[i]);
            }
        }
        assert forall|i: int|
            #![trigger after[i]]
            0 <= i < after.len() - 1 && joins(after[i], after[i + 1]) implies run_len(after[i])
            == longest_run(max_len) by {
            assert(after[i] == runs[i]);
            if i < runs.len() - 1 {
                assert(after[i + 1].start_slot == runs[i + 1].start_slot);
                assert(after[i + 1].leader == runs[i + 1].leader);
                assert(joins(runs[i], runs[i + 1]));
            }
        }
    }
}

/// Without a limit no run could be joined with the one after it.
pub proof fn runs_are_as_long_as_they_can_be(rows: Seq<LeaderSlotView>)
    ensures
        ({
            let runs = runs_of(rows, None);
            forall|i: int|
                #![trigger runs[i]]
                0 <= i < runs.len() - 1 ==> !joins(runs[i], runs[i + 1])
        }),
    decreases rows.len(),
{
    if rows.len() > 0 {
        runs_are_as_long_as_they_can_be(rows.drop_last());
        let runs = runs_of(rows.drop_last(), None);
        let after = runs_of(rows, None);
        if runs.len() > 0 && continues(runs.last(), rows.last(), None) {
            assert forall|i: int|
                #![trigger after[i]]
                0 <= i < after.len() - 1 implies !joins(after[i], after[i + 1]) by {
                assert(runs[i].leader == after[i].leader);
                assert(runs[i].end_slot == after[i].end_slot);
                assert(runs[i + 1].start_slot == after[i + 1].start_slot);
            }
        } else {
            assert forall|i: int|
                #![trigger after[i]]
                0 <= i < after.len() - 1 implies !joins(after[i], after[i + 1]) by {
                assert(runs[i] == after[i]);
                if i < runs.len() - 1 {
                    assert(runs[i + 1] == after[i + 1]);
                }
            }
        }
    }
}

} // verus!
