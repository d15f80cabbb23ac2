//! Laws on how the service's state changes.
use vstd::prelude::*;
use vstd::string::*;

use crate::background::{
    backoff_after, holds_nodes, leaders_chore, leaders_wanted, listed_tpu, longer_wait, publishing,
    refreshing_at, seeing_to_leaders, RefreshChore, SlotChore,
};
use crate::constants::{
    DEFAULT_LEADER_CACHE_REFRESH_MS, DEFAULT_TRACK_LOOKAHEAD, MAX_BACKOFF_MS,
};
use crate::laws::leaders::{held, not_held, tells_of};
use crate::models::{LeaderCache, NodesCache};
use crate::number::decimal;
use crate::rpc::ClusterNode;
use crate::state::{
    age, announced, estimate_after, lookahead_changed, measured_slot_ms, number_or_dash,
    one_less, one_more, update_fits, AppState, SlotInformerUpdate,
};

verus! {

/// Whether the cache holds every slot from `low` to `high`, and at least `spare` more.
pub open spec fn reaches(cache: LeaderCache, low: u64, high: u64, spare: int) -> bool {
    &&& cache.start_slot is Some
    &&& cache.start_slot->0 <= low
    &&& cache.leaders@.len() > 0
    &&& high + spare < cache.start_slot->0 + cache.leaders@.len()
    &&& cache.start_slot->0 + cache.leaders@.len() - 1 <= u64::MAX
}

/// Leaders are asked for just where the cache does not hold the range and a quarter of
/// the lookahead more; then from the range's first slot on, and as many as the
/// lookahead says, but two at least and no more than the endpoint gives.
pub proof fn leaders_are_asked_for_in_time(
    cache: LeaderCache,
    low: u64,
    high: u64,
    lookahead: u64,
    limit: int,
)
    requires
        low <= high,
        2 <= limit <= DEFAULT_TRACK_LOOKAHEAD,
        2 <= lookahead <= DEFAULT_TRACK_LOOKAHEAD ==> limit == lookahead,
        lookahead < 2 ==> limit == 2,
        lookahead > DEFAULT_TRACK_LOOKAHEAD ==> limit == DEFAULT_TRACK_LOOKAHEAD,
    ensures
        ({
            let spare = if limit < 8 {
                1
            } else {
                limit / 4
            };
            let request = leaders_wanted(cache, low, high, lookahead);
            &&& request == leaders_wanted(cache, high, low, lookahead)
            &&& request is None <==> reaches(cache, low, high, spare)
            &&& request matches Some(asked) ==> asked.start_slot == low && asked.limit == limit
        }),
{
}

/// The last slot that a cache reaches is one that it holds, and the one after it is not.
pub proof fn last_slot_is_held(cache: LeaderCache, slot: u64)
    requires
        cache.start_slot is Some,
        cache.leaders@.len() > 0,
    ensures
        cache.last_slot() == Some(slot) <==> held(cache, slot, cache.leaders@.len() - 1),
        cache.last_slot() is None <==> cache.start_slot->0 + cache.leaders@.len() - 1 > u64::MAX,
        cache.last_slot() == Some(slot) && slot < u64::MAX ==> not_held(cache, (slot + 1) as u64),
{
}

/// Of several nodes with one name the last one counts; a name that none has has no
/// address.
pub proof fn last_node_of_a_name_counts(nodes: Seq<ClusterNode>, name: Seq<char>, at: int)
    requires
        -1 <= at < nodes.len(),
        forall|k: int| at < k < nodes.len() ==> (#[trigger] nodes[k]).pubkey@ != name,
    ensures
        at >= 0 && nodes[at].pubkey@ == name ==> match nodes[at].tpu {
            Some(tpu) => listed_tpu(nodes, name) == Some(tpu@),
            None => listed_tpu(nodes, name) is None,
        },
        at == -1 ==> listed_tpu(nodes, name) is None,
    decreases nodes.len(),
{
    if at < nodes.len() - 1 {
        let rest = nodes.drop_last();
        assert(nodes.last() == nodes[nodes.len() - 1]);
        assert forall|k: int| at < k < rest.len() implies (#[trigger] rest[k]).pubkey@ != name by {
            assert(rest[k] == nodes[k]);
        }
        last_node_of_a_name_counts(rest, name, at);
    }
}

/// What is told of a validator once nodes were taken in is what the last of them with
/// its name announces; nothing is told of a name that none of them has.
pub proof fn nodes_taken_in_are_told(
    cache: NodesCache,
    nodes: Seq<ClusterNode>,
    now: u64,
    at: int,
    name: Seq<char>,
    tpu: Option<Seq<char>>,
    ip: Option<Seq<char>>,
    port: Option<Seq<char>>,
)
    requires
        holds_nodes(cache, nodes, now),
        -1 <= at < nodes.len(),
        at >= 0 ==> nodes[at].pubkey@ == name,
        forall|k: int| at < k < nodes.len() ==> (#[trigger] nodes[k]).pubkey@ != name,
        tells_of(cache, Some(name), tpu, ip, port),
    ensures
        at >= 0 && nodes[at].tpu is Some ==> tpu == Some(nodes[at].tpu->0@),
        at == -1 || nodes[at].tpu is None ==> tpu is None,
        cache.ts_ms == now,
{
    last_node_of_a_name_counts(nodes, name, at);
    assert(cache.tpu_of(name) == listed_tpu(nodes, name));
}

/// Validators are asked for where there are none, and where those that there are have
/// been there for as long as they stay fresh.
pub proof fn nodes_grow_old(cache: NodesCache, now: u64, ttl_ms: u64)
    ensures
        cache.stale(now, ttl_ms) <==> cache.nodes_by_pubkey@.dom() =~= Set::empty() || ttl_ms == 0
            || now >= cache.ts_ms + ttl_ms,
{
    assert(cache.nodes_by_pubkey@.is_empty() <==> cache.nodes_by_pubkey@.dom() =~= Set::empty());
}

/// The wait doubles with every failure until it is the longest one.
pub proof fn waits_double(failures: nat)
    ensures
        backoff_after(0) == DEFAULT_LEADER_CACHE_REFRESH_MS,
        backoff_after(failures) * 2 <= MAX_BACKOFF_MS ==> backoff_after(failures + 1)
            == backoff_after(failures) * 2,
        backoff_after(failures) * 2 > MAX_BACKOFF_MS ==> backoff_after(failures + 1)
            == MAX_BACKOFF_MS,
        longer_wait(backoff_after(failures)) == backoff_after(failures + 1),
{
}

/// The length of a slot that two announcements show, taken as often as there are slots
/// between them, fills the time between them but for less than one millisecond a slot.
pub proof fn measured_slots_fill_the_time(
    slot: u64,
    timestamp_ms: u64,
    before: SlotInformerUpdate,
)
    ensures
        ({
            let measured = measured_slot_ms(Some(before), slot, timestamp_ms);
            let slots = slot - before.slot;
            let time = timestamp_ms - before.timestamp_ms;
            &&& measured is Some <==> slots > 0 && time >= slots
            &&& measured matches Some(length) ==> length > 0 && length * slots <= time < (length
                + 1) * slots
            &&& measured_slot_ms(None, slot, timestamp_ms) is None
        }),
{
    let slots = slot - before.slot;
    let time = timestamp_ms - before.timestamp_ms;
    if slots > 0 && time > 0 {
        let length = time / slots;
        assert(length * slots <= time < (length + 1) * slots) by (nonlinear_arith)
            requires
                slots > 0,
                length == time / slots,
        ;
        if time >= slots {
            assert(length > 0) by (nonlinear_arith)
                requires
                    slots > 0,
                    time >= slots,
                    length == time / slots,
            ;
        } else {
            assert(length == 0) by (nonlinear_arith)
                requires
                    slots > 0,
                    0 < time < slots,
                    length == time / slots,
            ;
        }
    }
}

/// What is measured moves the estimate by a quarter of the way, to the millisecond
/// below; without an estimate it is the estimate; and where nothing is measured the
/// estimate stays.
pub proof fn estimate_moves_a_quarter(
    before: Option<SlotInformerUpdate>,
    estimate: u64,
    slot: u64,
    timestamp_ms: u64,
)
    requires
        estimate <= u64::MAX / 3,
    ensures
        ({
            let measured = measured_slot_ms(before, slot, timestamp_ms);
            let after = estimate_after(before, estimate, slot, timestamp_ms);
            &&& measured is None ==> after == estimate
            &&& measured is Some && estimate == 0 ==> after == measured->0
            &&& measured is Some && estimate > 0 ==> {
                let exact = 4 * estimate + (measured->0 - estimate);
                4 * after <= exact < 4 * after + 4
            }
        }),
{
}

/// An announcement that is later than the last one is kept, as it was made; its slot is
/// what those who ask are told, with the time at which it came; and nothing else changes
/// but the estimate. One that is not later changes nothing.
pub proof fn announcements_are_kept(before: AppState, slot: u64, timestamp_ms: u64, now: u64)
    requires
        update_fits(before.slot_informer, before.slot_ms_estimate, slot, timestamp_ms),
        before.slot_ms_estimate <= u64::MAX / 3,
    ensures
        ({
            let after = announced(before, slot, timestamp_ms, now);
            let later = before.slot_informer is None || before.slot_informer->0.slot < slot;
            &&& !later ==> after == before
            &&& later ==> {
                &&& after.slot_informer is Some
                &&& after.slot_informer->0.slot == slot
                &&& after.slot_informer->0.timestamp_ms == timestamp_ms
                &&& after.slot_hint() == Some(slot)
                &&& after.current_slot_cache is Some
                &&& after.current_slot_cache->0.ts_ms == now
                &&& after.current_slot_cache->0.payload.current_slot == slot
                &&& after.current_slot_cache->0.payload.ts == now
                &&& after.slot_ms_estimate == estimate_after(
                    before.slot_informer,
                    before.slot_ms_estimate,
                    slot,
                    timestamp_ms,
                )
            }
            &&& after.latest == before.latest
            &&& after.leader_cache == before.leader_cache
            &&& after.nodes_cache == before.nodes_cache
            &&& after.track_cache == before.track_cache
            &&& after.next_leaders_cache == before.next_leaders_cache
            &&& after.initial_html == before.initial_html
            &&& after.config == before.config
            &&& after.track_subscribers == before.track_subscribers
            &&& after.leader_lookahead == before.leader_lookahead
        }),
{
    if measured_slot_ms(before.slot_informer, slot, timestamp_ms) is Some {
        measured_slots_fill_the_time(slot, timestamp_ms, before.slot_informer->0);
        let update = before.slot_informer->0;
        let length = measured_slot_ms(before.slot_informer, slot, timestamp_ms)->0;
        assert(length <= u64::MAX) by (nonlinear_arith)
            requires
                length > 0,
                slot - update.slot > 0,
                length * (slot - update.slot) <= timestamp_ms - update.timestamp_ms,
                timestamp_ms <= u64::MAX,
                update.timestamp_ms >= 0,
        ;
    }
}

/// While a client tracks a validator the lookahead is the one for tracking, and while
/// none does it is the other one; the leaders are forgotten where the lookahead changes
/// and kept where it does not; and nothing else changes.
pub proof fn lookahead_follows_the_clients(before: AppState, after: AppState, comes: bool)
    requires
        before.wf(),
        comes ==> before.track_subscribers < usize::MAX,
        !comes ==> before.track_subscribers > 0,
        lookahead_changed(
            before,
            after,
            if comes {
                one_more(before.track_subscribers)
            } else {
                one_less(before.track_subscribers)
            },
            if comes && before.track_subscribers == 0 {
                before.config.track_lookahead as u64
            } else if !comes && before.track_subscribers == 1 {
                before.config.leader_lookahead as u64
            } else {
                before.leader_lookahead
            },
        ),
    ensures
        after.track_subscribers == before.track_subscribers + (if comes {
            1int
        } else {
            -1int
        }),
        after.track_subscribers > 0 ==> after.leader_lookahead == before.config.track_lookahead,
        after.track_subscribers == 0 ==> after.leader_lookahead == before.config.leader_lookahead,
        after.leader_lookahead != before.leader_lookahead ==> after.leader_cache.start_slot is None
            && after.leader_cache.leaders@.len() == 0,
        after.leader_lookahead == before.leader_lookahead ==> after.leader_cache
            == before.leader_cache,
        after.config == before.config,
        after.latest == before.latest,
        after.slot_informer == before.slot_informer,
        after.nodes_cache == before.nodes_cache,
        after.track_cache == before.track_cache,
        after.current_slot_cache == before.current_slot_cache,
        after.next_leaders_cache == before.next_leaders_cache,
        after.slot_ms_estimate == before.slot_ms_estimate,
{
}

/// A slot whose leader is known is published: its payload goes out, is the latest one
/// from then on, and nothing else changes. Nothing goes out for any other slot.
pub proof fn known_slots_are_published(
    before: AppState,
    after: AppState,
    slot: u64,
    timestamp: u64,
    chore: SlotChore,
    at: int,
)
    requires
        publishing(before, after, slot, timestamp, chore),
    ensures
        not_held(before.leader_cache, slot) ==> chore is Done && after == before,
        held(before.leader_cache, slot, at) ==> {
            let told = chore->Publish_0@;
            let leader = before.leader_cache.leaders@[at]@;
            &&& chore is Publish
            &&& told.slot == slot
            &&& told.slotTimestamp == timestamp
            &&& leader.len() > 0 ==> told.currentValidator == Some(leader)
            &&& tells_of(
                before.nodes_cache,
                told.currentValidator,
                told.currentTpu,
                told.currentIp,
                told.currentPort,
            )
            &&& tells_of(
                before.nodes_cache,
                told.nextValidator,
                told.nextTpu,
                told.nextIp,
                told.nextPort,
            )
            &&& after.latest is Some
            &&& after.latest->0@ == told
        },
        after.leader_cache == before.leader_cache,
        after.nodes_cache == before.nodes_cache,
        after.slot_informer == before.slot_informer,
        after.track_cache == before.track_cache,
        after.config == before.config,
{
}

/// Once the validators are known, leaders are asked for unless the cache holds enough
/// after the slot; and where it does, the slot is published.
pub proof fn leaders_are_seen_to_first(
    before: AppState,
    after: AppState,
    slot: u64,
    timestamp: u64,
    chore: SlotChore,
)
    requires
        seeing_to_leaders(before, after, slot, timestamp, chore),
    ensures
        chore is AskLeaders <==> leaders_wanted(
            before.leader_cache,
            slot,
            slot,
            before.leader_lookahead,
        ) is Some,
        chore is AskLeaders ==> after == before && chore->AskLeaders_0.start_slot == slot,
        !(chore is AskLeaders) ==> chore is Publish && publishing(
            before,
            after,
            slot,
            timestamp,
            chore,
        ),
{
}

/// A refresh takes note of the current slot; it asks for validators where they are old;
/// or else for leaders, from that slot on, where the cache does not hold enough.
pub proof fn refresh_asks_for_what_is_missing(
    before: AppState,
    after: AppState,
    slot: u64,
    lookahead: u64,
    now: u64,
    chore: RefreshChore,
)
    requires
        refreshing_at(before, after, slot, lookahead, now, chore),
    ensures
        after.current_slot_cache is Some,
        after.current_slot_cache->0.payload.current_slot == slot,
        after.current_slot_cache->0.payload.ts == now,
        after.current_slot_cache->0.ts_ms == now,
        after.leader_cache == before.leader_cache,
        after.nodes_cache == before.nodes_cache,
        after.latest == before.latest,
        after.slot_informer == before.slot_informer,
        chore is AskNodes <==> before.nodes_cache.stale(now, before.config.node_cache_ttl_ms),
        chore is AskNodes ==> chore->AskNodes_slot == slot && chore->AskNodes_lookahead
            == lookahead,
        !(chore is AskNodes) ==> chore == leaders_chore(before.leader_cache, slot, lookahead),
        ({
            let last = leaders_chore(before.leader_cache, slot, lookahead);
            &&& last is Done || last is AskLeaders
            &&& last is Done <==> leaders_wanted(before.leader_cache, slot, slot, lookahead) is None
            &&& last is AskLeaders ==> last->AskLeaders_0.start_slot == slot
            &&& not_held(before.leader_cache, slot) ==> last is AskLeaders
        }),
{
}

/// The age of something and the time at which it was made add up to the present; what
/// is yet to be made is not old. A number is told in digits, and a missing one by a
/// dash.
pub proof fn ages_add_up(now: u64, then: u64, number: Option<u64>)
    ensures
        then <= now ==> then + age(now, then) == now,
        now <= then ==> age(now, then) == 0,
        number matches Some(n) ==> number_or_dash(number) == decimal(n as nat),
        number is None ==> number_or_dash(number) == "-"@,
{
}

/// One subscriber more and one less cancel each other, for every count that there can be.
pub proof fn counting_up_and_down_cancel(count: usize)
    ensures
        one_less(one_more(count)) == count,
        one_more(one_less(count)) == count,
        count < usize::MAX ==> one_more(count) == count + 1,
        count > 0 ==> one_less(count) == count - 1,
{
}

/// An announcement can be taken in, unless its time is so late that the estimate would go
/// beyond 64 bits.
pub proof fn announcements_can_be_taken_in(
    before: Option<SlotInformerUpdate>,
    estimate: u64,
    slot: u64,
    timestamp_ms: u64,
)
    requires
        estimate * 3 + timestamp_ms <= u64::MAX,
    ensures
        update_fits(before, estimate, slot, timestamp_ms),
{
    if before is Some && slot > before->0.slot && timestamp_ms > before->0.timestamp_ms {
        let passed = timestamp_ms - before->0.timestamp_ms;
        let slots = slot - before->0.slot;
        assert(passed / slots <= passed) by (nonlinear_arith)
            requires
                passed >= 0,
                slots >= 1,
        ;
    }
}

} // verus!
