//! Laws on the models: they tell what the values hold, field by field.
use vstd::prelude::*;

use crate::config::Config;
use crate::models::{BasePayload, LeaderRowPayload, NextLeadersPayload};
use crate::rows::{runs_view, slots_view, LeaderRow, LeaderSlot};
use crate::table::{actions_view, LeaderTable, RowAction, RowActionView};

verus! {

/// Whether a text that may be missing is told as it is.
pub open spec fn said(text: Option<String>, told: Option<Seq<char>>) -> bool {
    match text {
        Some(text) => told == Some(text@),
        None => told is None,
    }
}

/// The model of a slot's payload tells each of its fields.
pub proof fn payload_is_told_as_it_is(given: BasePayload)
    ensures
        given@.slot == given.slot,
        given@.slotTimestamp == given.slotTimestamp,
        given@.slotsUntilSwitch == given.slotsUntilSwitch,
        said(given.currentValidator, given@.currentValidator),
        said(given.nextValidator, given@.nextValidator),
        said(given.currentTpu, given@.currentTpu),
        said(given.currentIp, given@.currentIp),
        said(given.currentPort, given@.currentPort),
        said(given.nextTpu, given@.nextTpu),
        said(given.nextIp, given@.nextIp),
        said(given.nextPort, given@.nextPort),
{
}

/// The model of a row of the next leaders tells each of its fields.
pub proof fn leader_is_told_as_it_is(given: LeaderRowPayload)
    ensures
        given@.slot == given.slot,
        given@.leader == given.leader@,
        said(given.tpu, given@.tpu),
        said(given.ip, given@.ip),
        said(given.port, given@.port),
{
}

/// The model of the next leaders tells each of its fields, and each row.
pub proof fn leaders_are_told_as_they_are(given: NextLeadersPayload, i: int)
    ensures
        given@.current_slot == given.current_slot,
        given@.limit == given.limit,
        given@.slot_ms == given.slot_ms,
        given@.ts == given.ts,
        given@.leaders.len() == given.leaders@.len(),
        0 <= i < given.leaders@.len() ==> given@.leaders[i] == given.leaders@[i]@,
{
}

/// The model of a slot tells each of its fields.
pub proof fn slot_is_told_as_it_is(given: LeaderSlot)
    ensures
        given@.slot == given.slot,
        given@.leader == given.leader@,
        said(given.tpu, given@.tpu),
        said(given.ip, given@.ip),
        said(given.port, given@.port),
{
}

/// The model of a run tells each of its fields.
pub proof fn run_is_told_as_it_is(given: LeaderRow)
    ensures
        given@.start_slot == given.start_slot,
        given@.end_slot == given.end_slot,
        given@.range_start == given.range_start,
        given@.leader == given.leader@,
        said(given.tpu, given@.tpu),
        said(given.ip, given@.ip),
        said(given.port, given@.port),
{
}

/// The model of an action tells what is done, and to which row.
pub proof fn action_is_told_as_it_is(slot: i64, row: LeaderRow)
    ensures
        RowAction::Remove(slot)@ == RowActionView::Remove(slot),
        RowAction::Refresh(row)@ == RowActionView::Refresh(row@),
        RowAction::Create(row)@ == RowActionView::Create(row@),
        (RowAction::Move { from: slot, row })@ == (RowActionView::Move { from: slot, row: row@ }),
{
}

/// The models of slots, of runs and of actions have as many as there are, in their order;
/// and a table has the runs of its rows.
pub proof fn lists_are_told_as_they_are(
    slots: Seq<LeaderSlot>,
    rows: Seq<LeaderRow>,
    actions: Seq<RowAction>,
    table: LeaderTable,
    i: int,
)
    ensures
        slots_view(slots).len() == slots.len(),
        0 <= i < slots.len() ==> slots_view(slots)[i] == slots[i]@,
        runs_view(rows).len() == rows.len(),
        0 <= i < rows.len() ==> runs_view(rows)[i] == rows[i]@,
        actions_view(actions).len() == actions.len(),
        0 <= i < actions.len() ==> actions_view(actions)[i] == actions[i]@,
        table@.len() == table.rows@.len(),
        0 <= i < table.rows@.len() ==> table@[i] == table.rows@[i]@,
{
}

/// The model of a configuration tells each of its fields.
pub proof fn config_is_told_as_it_is(given: Config)
    ensures
        given@.rpc_url == given.rpc_url@,
        given@.ws_url == given.ws_url@,
        given@.port == given.port,
        given@.request_timeout_ms == given.request_timeout_ms,
        given@.node_cache_ttl_ms == given.node_cache_ttl_ms,
        given@.heartbeat_ms == given.heartbeat_ms,
        given@.ws_ping_interval_ms == given.ws_ping_interval_ms,
        given@.leader_lookahead == given.leader_lookahead,
        given@.track_lookahead == given.track_lookahead,
        given@.maxmind_db_path == given.maxmind_db_path@,
        given@.maxmind_edition_id == given.maxmind_edition_id@,
        said(given.rpc_x_token, given@.rpc_x_token),
        said(given.ws_x_token, given@.ws_x_token),
        said(given.maxmind_license_key, given@.maxmind_license_key),
        said(given.maxmind_db_download_url, given@.maxmind_db_download_url),
        said(given.maxmind_fallback_url, given@.maxmind_fallback_url),
{
}

} // verus!
