//! Laws on who leads when, and on what clients are told of it.
use vstd::prelude::*;

use crate::background::slot_payload;
use crate::constants::{
    API_CACHE_TTL_MS, API_FALLBACK_SLOT_MS, NEXT_LEADERS_DEFAULT_LIMIT, NEXT_LEADERS_MAX_LIMIT,
    NEXT_LEADERS_MIN_LIMIT,
};
use crate::handlers::{clamped_limit, fresh, next_leaders, rows_fit};
use crate::models::{
    first_from, lemma_first_named, lemma_first_other, CachedPayload, LeaderCache,
    NextLeadersPayload, NodesCache, TrackSchedule,
};
use crate::number::{decimal, read_unsigned, written_number_reads_back};
use crate::rpc::EpochInfo;
use crate::state::AppState;
use crate::stream::{absolute_slots, epoch_start, is_schedule, TrackLookup};
use crate::util::tpu_address;

verus! {

/// Whether the cache holds `slot`, as the one at `at`.
pub open spec fn held(cache: LeaderCache, slot: u64, at: int) -> bool {
    cache.start_slot is Some && slot == cache.start_slot->0 + at && 0 <= at < cache.leaders@.len()
}

/// Whether the cache holds no such slot.
pub open spec fn not_held(cache: LeaderCache, slot: u64) -> bool {
    cache.start_slot is None || slot < cache.start_slot->0 || slot - cache.start_slot->0
        >= cache.leaders@.len()
}

/// Whether what is told of a validator is what its name is kept with: the address that
/// it announces, and the host and the port in that address; nothing where there is no
/// validator, or none of that name is known, or it announces none.
pub open spec fn tells_of(
    nodes: NodesCache,
    name: Option<Seq<char>>,
    tpu: Option<Seq<char>>,
    ip: Option<Seq<char>>,
    port: Option<Seq<char>>,
) -> bool {
    let known = name is Some && nodes.nodes_by_pubkey@.contains_key(name->0);
    let node = nodes.nodes_by_pubkey@[name->0];
    &&& known && node.tpu is Some ==> tpu == Some(node.tpu->0@)
    &&& !known || node.tpu is None ==> tpu is None && ip is None && port is None
    &&& ip == tpu_address(tpu).ip
    &&& port == tpu_address(tpu).port
}

/// The payload of a slot that the cache holds names the slot's leader, and the first
/// other leader after it, with the number of slots until that one leads; and it tells
/// of each just what is known under its name.
pub proof fn payload_tells_of_both_leaders(
    slot: u64,
    timestamp: u64,
    cache: LeaderCache,
    nodes: NodesCache,
    at: int,
)
    requires
        held(cache, slot, at),
        cache.leaders@[at]@.len() > 0,
    ensures
        ({
            let payload = slot_payload(slot, timestamp, cache, nodes);
            let told = payload->0;
            let leader = cache.leaders@[at]@;
            &&& payload is Some
            &&& told.slot == slot
            &&& told.slotTimestamp == timestamp
            &&& told.currentValidator == Some(leader)
            &&& tells_of(nodes, Some(leader), told.currentTpu, told.currentIp, told.currentPort)
            &&& tells_of(nodes, told.nextValidator, told.nextTpu, told.nextIp, told.nextPort)
            &&& match told.slotsUntilSwitch {
                Some(until) => {
                    &&& 0 < until < cache.leaders@.len() - at
                    &&& told.nextValidator == Some(cache.leaders@[at + until]@)
                    &&& cache.leaders@[at + until]@ != leader
                    &&& forall|k: int|
                        at <= k < at + until ==> (#[trigger] cache.leaders@[k])@ == leader
                },
                None => {
                    &&& told.nextValidator is None
                    &&& forall|k: int|
                        at <= k < cache.leaders@.len() ==> (#[trigger] cache.leaders@[k])@ == leader
                },
            }
        }),
{
    let names = cache.names();
    assert(cache.leaders@.len() == cache.leaders.len());
    lemma_first_other(names, at, names[at]);
    assert forall|k: int| 0 <= k < names.len() implies names[k] == (
    #[trigger] cache.leaders@[k])@ by {}
}

/// A slot whose leader has no name has a payload that names no leader; a slot that the
/// cache does not hold has none.
pub proof fn payload_needs_a_leader(
    slot: u64,
    timestamp: u64,
    cache: LeaderCache,
    nodes: NodesCache,
    at: int,
)
    ensures
        not_held(cache, slot) ==> slot_payload(slot, timestamp, cache, nodes) is None,
        held(cache, slot, at) && cache.leaders@[at]@.len() == 0 ==> {
            let payload = slot_payload(slot, timestamp, cache, nodes);
            let told = payload->0;
            &&& payload is Some
            &&& told.slot == slot
            &&& told.slotTimestamp == timestamp
            &&& told.currentValidator is None
            &&& told.nextValidator is None
            &&& told.slotsUntilSwitch is None
            &&& tells_of(nodes, None, told.currentTpu, told.currentIp, told.currentPort)
            &&& tells_of(nodes, None, told.nextTpu, told.nextIp, told.nextPort)
        },
{
}

/// What a payload tells of the next leader is what the payload of the slot of the
/// switch tells of the current one; and until then the payloads differ from slot to
/// slot in the slots until the switch alone, which are one fewer each time.
pub proof fn payloads_agree_from_slot_to_slot(
    slot: u64,
    later: u64,
    timestamp: u64,
    cache: LeaderCache,
    nodes: NodesCache,
    at: int,
)
    requires
        held(cache, slot, at),
        cache.leaders@[at]@.len() > 0,
        slot <= later,
        slot_payload(slot, timestamp, cache, nodes)->0.slotsUntilSwitch is Some,
        later - slot <= slot_payload(slot, timestamp, cache, nodes)->0.slotsUntilSwitch->0,
    ensures
        ({
            let now = slot_payload(slot, timestamp, cache, nodes)->0;
            let payload = slot_payload(later, timestamp, cache, nodes);
            let told = payload->0;
            let left = now.slotsUntilSwitch->0 - (later - slot);
            &&& payload is Some
            &&& left > 0 ==> {
                &&& told.currentValidator == now.currentValidator
                &&& told.currentTpu == now.currentTpu
                &&& told.currentIp == now.currentIp
                &&& told.currentPort == now.currentPort
                &&& told.nextValidator == now.nextValidator
                &&& told.nextTpu == now.nextTpu
                &&& told.nextIp == now.nextIp
                &&& told.nextPort == now.nextPort
                &&& told.slotsUntilSwitch == Some(left as u64)
            }
            &&& left == 0 && now.nextValidator->0.len() > 0 ==> {
                &&& told.currentValidator == now.nextValidator
                &&& told.currentTpu == now.nextTpu
                &&& told.currentIp == now.nextIp
                &&& told.currentPort == now.nextPort
            }
        }),
{
    let names = cache.names();
    let until = slot_payload(slot, timestamp, cache, nodes)->0.slotsUntilSwitch->0;
    let there = at + (later - slot);
    payload_tells_of_both_leaders(slot, timestamp, cache, nodes, at);
    assert(names[there] == cache.leaders@[there]@);
    assert(names[at] == cache.leaders@[at]@);
    if there < at + until {
        payload_tells_of_both_leaders(later, timestamp, cache, nodes, there);
        lemma_first_other(names, at, names[at]);
        lemma_first_other(names, there, names[there]);
        let told = slot_payload(later, timestamp, cache, nodes)->0;
        assert(names[at + until] != names[at]);
        if told.slotsUntilSwitch is Some {
            let other = there + told.slotsUntilSwitch->0;
            assert(cache.leaders@[other]@ != cache.leaders@[there]@);
            if other < at + until {
                assert(cache.leaders@[other]@ == cache.leaders@[at]@);
            } else if other > at + until {
                assert(cache.leaders@[at + until]@ == cache.leaders@[there]@);
            }
        } else {
            assert(cache.leaders@[at + until]@ == cache.leaders@[there]@);
        }
    } else if names[there].len() > 0 {
        payload_tells_of_both_leaders(later, timestamp, cache, nodes, there);
    }
}

/// The cache tells in how many slots a validator leads just where it holds the slot and
/// names the validator from there on; the validator leads then, and not before.
pub proof fn cache_tells_the_wait(cache: LeaderCache, name: Seq<char>, slot: u64, at: int)
    ensures
        not_held(cache, slot) ==> cache.until_leader(name, slot) is None,
        held(cache, slot, at) ==> match cache.until_leader(name, slot) {
            Some(wait) => {
                &&& wait < cache.leaders@.len() - at
                &&& cache.leaders@[at + wait]@ == name
                &&& forall|k: int| at <= k < at + wait ==> (#[trigger] cache.leaders@[k])@ != name
            },
            None => forall|k: int|
                at <= k < cache.leaders@.len() ==> (#[trigger] cache.leaders@[k])@ != name,
        },
{
    assert(cache.leaders@.len() == cache.leaders.len());
    if held(cache, slot, at) {
        lemma_first_named(cache.names(), at, name);
        assert forall|k: int| 0 <= k < cache.names().len() implies cache.names()[k] == (
        #[trigger] cache.leaders@[k])@ by {}
    }
}

proof fn lemma_first_from_least(slots: Seq<u64>, slot: u64)
    requires
        forall|i: int, j: int| 0 <= i <= j < slots.len() ==> slots[i] <= slots[j],
    ensures
        match first_from(slots, slot) {
            Some(next) => slot <= next && slots.contains(next) && forall|i: int|
                0 <= i < slots.len() && slot <= #[trigger] slots[i] ==> next <= slots[i],
            None => forall|i: int| 0 <= i < slots.len() ==> #[trigger] slots[i] < slot,
        },
    decreases slots.len(),
{
    if slots.len() > 0 {
        let rest = slots.drop_first();
        assert(slots.first() == slots[0]);
        if slots[0] < slot {
            assert forall|i: int, j: int| 0 <= i <= j < rest.len() implies rest[i] <= rest[j] by {
                assert(slots[i + 1] <= slots[j + 1]);
            }
            lemma_first_from_least(rest, slot);
            assert forall|i: int| 1 <= i < slots.len() implies #[trigger] slots[i] == rest[i
                - 1] by {}
            if first_from(rest, slot) is Some {
                let k = choose|k: int| 0 <= k < rest.len() && rest[k] == first_from(rest, slot)->0;
                assert(slots[k + 1] == rest[k]);
            }
        }
    }
}

/// Whether a slot is of the epoch of a schedule. The last slot of all is of none.
pub open spec fn in_epoch(schedule: TrackSchedule, slot: u64) -> bool {
    schedule.epoch_start <= slot < schedule.epoch_start + schedule.slots_in_epoch && slot
        < u64::MAX
}

/// A schedule tells the wait for the first of its slots that is not over, at every slot
/// of its epoch; nothing where all of them are over; and nothing at any other slot.
pub proof fn schedule_tells_the_wait(schedule: TrackSchedule, slot: u64)
    requires
        forall|i: int, j: int|
            0 <= i <= j < schedule.slots@.len() ==> schedule.slots@[i] <= schedule.slots@[j],
    ensures
        schedule.covers(slot) == in_epoch(schedule, slot),
        !in_epoch(schedule, slot) ==> schedule.until(slot) is None,
        in_epoch(schedule, slot) ==> match schedule.until(slot) {
            Some(wait) => {
                &&& slot + wait <= u64::MAX
                &&& schedule.slots@.contains((slot + wait) as u64)
                &&& forall|i: int|
                    0 <= i < schedule.slots@.len() && slot <= #[trigger] schedule.slots@[i]
                        ==> slot + wait <= schedule.slots@[i]
            },
            None => forall|i: int|
                0 <= i < schedule.slots@.len() ==> #[trigger] schedule.slots@[i] < slot,
        },
{
    lemma_first_from_least(schedule.slots@, slot);
}

/// The schedule that the endpoint's answers give is of the epoch that the answers
/// describe, and has just the slots that they list, each counted from the epoch's start.
pub proof fn schedule_has_the_listed_slots(
    schedule: TrackSchedule,
    epoch: EpochInfo,
    indices: Option<Vec<u64>>,
    slot: u64,
)
    requires
        is_schedule(schedule, epoch, indices),
        epoch.slotIndex <= epoch.absoluteSlot,
    ensures
        schedule.epoch_start + epoch.slotIndex == epoch.absoluteSlot,
        schedule.slots_in_epoch == epoch.slotsInEpoch,
        forall|i: int, j: int|
            0 <= i <= j < schedule.slots@.len() ==> schedule.slots@[i] <= schedule.slots@[j],
        indices is None ==> schedule.slots@.len() == 0,
        indices matches Some(listed) ==> {
            &&& schedule.slots@.len() == listed@.len()
            &&& slot < u64::MAX ==> (schedule.slots@.contains(slot) <==> exists|i: int|
                0 <= i < listed@.len() && schedule.epoch_start + #[trigger] listed@[i] == slot)
        },
{
    broadcast use vstd::seq_lib::group_to_multiset_ensures;

    let listed = match indices {
        Some(listed) => listed@,
        None => Seq::empty(),
    };
    let absolute = absolute_slots(epoch_start(epoch), listed);
    let slots = schedule.slots@;
    assert(slots.len() == slots.to_multiset().len());
    assert(absolute.len() == absolute.to_multiset().len());
    if slot < u64::MAX {
        assert(slots.contains(slot) <==> slots.to_multiset().count(slot) > 0);
        assert(absolute.contains(slot) <==> absolute.to_multiset().count(slot) > 0);
        if absolute.contains(slot) {
            let i = choose|i: int| 0 <= i < absolute.len() && absolute[i] == slot;
            assert(schedule.epoch_start + listed[i] == slot);
        }
        if exists|i: int|
            0 <= i < listed.len() && schedule.epoch_start + #[trigger] listed[i] == slot {
            let i = choose|i: int|
                0 <= i < listed.len() && schedule.epoch_start + #[trigger] listed[i] == slot;
            assert(absolute[i] == slot);
        }
    }
}

/// A client that tracks a validator is told the wait that the cache shows, if it shows
/// one; or else the wait that the validator's own schedule shows, if there is one for
/// the slot's epoch; and where there is none, the schedule is asked for.
pub proof fn tracking_goes_by_cache_and_schedule(state: AppState, track: Seq<char>, slot: u64)
    ensures
        ({
            let cached = state.leader_cache.until_leader(track, slot);
            let kept = state.track_cache@.contains_key(track) && in_epoch(
                state.track_cache@[track],
                slot,
            );
            &&& cached is Some ==> state.lookup(track, slot) == TrackLookup::Known(cached)
            &&& cached is None && kept ==> state.lookup(track, slot) == TrackLookup::Known(
                state.track_cache@[track].until(slot),
            )
            &&& cached is None && !kept ==> state.lookup(track, slot) == TrackLookup::AskSchedule
        }),
{
}

/// The rows that a client is told begin with the current slot, or with the cache's
/// first where that is later or no slot is current; they follow each other without
/// gaps; there are as many as the client wants, unless the cache ends before; and each
/// tells its slot's leader and just what is known under that name.
pub proof fn rows_tell_the_slots_to_come(
    cache: LeaderCache,
    nodes: NodesCache,
    slot_ms_estimate: u64,
    limit: usize,
    latest_slot: Option<u64>,
    now: u64,
    first: u64,
    at: int,
)
    requires
        held(cache, first, at),
        latest_slot is None ==> at == 0,
        latest_slot matches Some(slot) ==> first == slot || (slot < first && at == 0),
        first + cache.leaders@.len() - at - 1 <= u64::MAX,
    ensures
        ({
            let result = next_leaders(cache, nodes, slot_ms_estimate, limit, latest_slot, now);
            let told = result->Ok_0;
            let rows = told.leaders;
            &&& result is Ok
            &&& told.current_slot == first
            &&& told.limit == limit
            &&& told.ts == now
            &&& told.slot_ms >= slot_ms_estimate && told.slot_ms >= API_FALLBACK_SLOT_MS
            &&& told.slot_ms == slot_ms_estimate || told.slot_ms == API_FALLBACK_SLOT_MS
            &&& rows.len() <= limit
            &&& rows.len() < limit ==> at + rows.len() == cache.leaders@.len()
            &&& rows.len() <= cache.leaders@.len() - at
            &&& forall|i: int|
                0 <= i < rows.len() ==> {
                    let row = #[trigger] rows[i];
                    &&& row.slot == first + i
                    &&& row.leader == cache.leaders@[at + i]@
                    &&& tells_of(nodes, Some(row.leader), row.tpu, row.ip, row.port)
                }
        }),
{
    let rows = next_leaders(
        cache,
        nodes,
        slot_ms_estimate,
        limit,
        latest_slot,
        now,
    )->Ok_0.leaders;
    assert forall|i: int| 0 <= i < rows.len() implies ({
        let row = #[trigger] rows[i];
        &&& row.slot == first + i
        &&& row.leader == cache.leaders@[at + i]@
        &&& tells_of(nodes, Some(row.leader), row.tpu, row.ip, row.port)
    }) by {
        assert(cache.names()[at + i] == cache.leaders@[at + i]@);
    }
}

/// Why a client is told no rows: the cache is empty, or ends before the current slot.
pub proof fn rows_are_missing_for_a_reason(
    cache: LeaderCache,
    nodes: NodesCache,
    slot_ms_estimate: u64,
    limit: usize,
    latest_slot: Option<u64>,
    now: u64,
)
    ensures
        ({
            let result = next_leaders(cache, nodes, slot_ms_estimate, limit, latest_slot, now);
            let empty = cache.start_slot is None || cache.leaders@.len() == 0;
            let over = latest_slot is Some && latest_slot->0 >= cache.start_slot->0
                + cache.leaders@.len();
            &&& result is Err <==> empty || over
            &&& empty ==> result->Err_0 == "leader cache warming; try again shortly"@
            &&& !empty && over ==> result->Err_0
                == "leader cache missing for current slot; try again shortly"@
        }),
{
}

/// A client that asks for a number is told as many leaders, brought into range; one that
/// asks for nothing, or for no number, is told the default.
pub proof fn limit_is_what_is_asked_for(number: nat, text: Seq<char>)
    ensures
        number <= usize::MAX ==> {
            let limit = clamped_limit(Some(decimal(number)));
            &&& number < NEXT_LEADERS_MIN_LIMIT ==> limit == NEXT_LEADERS_MIN_LIMIT
            &&& NEXT_LEADERS_MIN_LIMIT <= number <= NEXT_LEADERS_MAX_LIMIT ==> limit == number
            &&& number > NEXT_LEADERS_MAX_LIMIT ==> limit == NEXT_LEADERS_MAX_LIMIT
        },
        clamped_limit(None) == NEXT_LEADERS_DEFAULT_LIMIT,
        read_unsigned(text, usize::MAX as nat) is None ==> clamped_limit(Some(text))
            == NEXT_LEADERS_DEFAULT_LIMIT,
{
    if number <= usize::MAX {
        written_number_reads_back(number, usize::MAX as nat);
    }
}

/// An answer is handed out again for as long as answers are kept, and only while it
/// begins with the current slot, if that is known.
pub proof fn answers_grow_old(
    entry: CachedPayload<NextLeadersPayload>,
    latest_slot: Option<u64>,
    now: u64,
)
    ensures
        fresh(entry, latest_slot, now) <==> now < entry.ts_ms + API_CACHE_TTL_MS && (
        latest_slot matches Some(slot) ==> slot == entry.payload.current_slot),
{
}

/// The slot that is taken to be current is the one announced last; or else that of the
/// last payload.
pub proof fn announced_slot_counts_first(state: AppState)
    ensures
        state.slot_informer matches Some(update) ==> state.slot_hint() == Some(update.slot),
        state.slot_informer is None ==> (state.latest matches Some(payload) ==> state.slot_hint()
            == Some(payload.slot)),
        state.slot_informer is None && state.latest is None ==> state.slot_hint() is None,
{
}

/// What a client is told comes of the leaders, the validators and the estimate that the
/// service holds, whatever else it holds.
pub proof fn rows_come_of_what_is_held(
    state: AppState,
    limit: usize,
    latest_slot: Option<u64>,
    now: u64,
)
    ensures
        state.leaders_told(limit, latest_slot, now) == next_leaders(
            state.leader_cache,
            state.nodes_cache,
            state.slot_ms_estimate,
            limit,
            latest_slot,
            now,
        ),
{
}

/// Whatever number of rows is asked for, they can be numbered, unless their slots would
/// go beyond the last number of 64 bits.
pub proof fn rows_can_be_numbered(cache: LeaderCache, limit: usize, latest_slot: Option<u64>)
    requires
        cache.start_slot is Some ==> cache.start_slot->0 + limit <= u64::MAX,
        latest_slot is Some ==> latest_slot->0 + limit <= u64::MAX,
    ensures
        rows_fit(cache, limit, latest_slot),
{
}

} // verus!
