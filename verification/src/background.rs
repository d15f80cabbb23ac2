//! What the background tasks compute: the payload of a slot, which leaders to ask
//! for, and how long to wait.
use vstd::prelude::*;
use vstd::hash_map::StringHashMap;
use vstd::string::*;

use crate::constants::{
    DEFAULT_LEADER_CACHE_REFRESH_MS, DEFAULT_TRACK_LOOKAHEAD, MAX_BACKOFF_MS,
};
use crate::models::{
    first_other, lemma_first_other, lemma_is_first_named, BasePayload, BasePayloadView,
    CachedPayload, CurrentSlotPayload, LeaderCache, NodeInfo, NodesCache,
};
use crate::rpc::ClusterNode;
use crate::state::AppState;
use crate::text::{opt_text, same_text};
use crate::util::{parse_opt_tpu, tpu_address};

verus! {

/// The address that a validator announces, where there is a validator.
pub open spec fn known_tpu(nodes: NodesCache, name: Option<Seq<char>>) -> Option<Seq<char>> {
    match name {
        Some(name) => nodes.tpu_of(name),
        None => None,
    }
}

/// The payload of a slot, where the cache holds its leader: the leader, unless its
/// name is empty; the first other leader after it; where both are reached; and in
/// how many slots the one follows the other.
pub open spec fn slot_payload(
    slot: u64,
    slot_timestamp: u64,
    cache: LeaderCache,
    nodes: NodesCache,
) -> Option<BasePayloadView> {
    match cache.offset_of(slot) {
        Some(offset) => {
            let names = cache.names();
            let name = names[offset];
            let other = first_other(names, offset, name);
            let current = if name.len() == 0 {
                None
            } else {
                Some(name)
            };
            let next = if name.len() > 0 && other < names.len() {
                Some(names[other])
            } else {
                None
            };
            Some(
                BasePayloadView {
                    slot,
                    slotTimestamp: slot_timestamp,
                    currentValidator: current,
                    nextValidator: next,
                    currentTpu: known_tpu(nodes, current),
                    currentIp: tpu_address(known_tpu(nodes, current)).ip,
                    currentPort: tpu_address(known_tpu(nodes, current)).port,
                    nextTpu: known_tpu(nodes, next),
                    nextIp: tpu_address(known_tpu(nodes, next)).ip,
                    nextPort: tpu_address(known_tpu(nodes, next)).port,
                    slotsUntilSwitch: if next is Some {
                        Some((other - offset) as u64)
                    } else {
                        None
                    },
                },
            )
        },
        None => None,
    }
}

fn tpu_of_opt(nodes: &NodesCache, name: &Option<String>) -> (tpu: Option<String>)
    ensures
        opt_text(tpu) == known_tpu(*nodes, opt_text(*name)),
{
    match name {
        Some(name) => nodes.tpu(name.as_str()),
        None => None,
    }
}

/// The payload of a slot, where the cache holds its leader.
pub fn build_payload_for_slot(
    slot: u64,
    slot_timestamp: u64,
    cache: &LeaderCache,
    nodes_cache: &NodesCache,
) -> (payload: Option<BasePayload>)
    ensures
        match payload {
            Some(p) => slot_payload(slot, slot_timestamp, *cache, *nodes_cache) == Some(p@),
            None => slot_payload(slot, slot_timestamp, *cache, *nodes_cache) is None,
        },
{
    let offset: usize = match cache.offset(slot) {
        Some(offset) => offset,
        None => return None,
    };
    let ghost names = cache.names();
    let name: String = cache.leaders[offset].clone();
    assert(names[offset as int] == name@);
    let mut run: usize = offset;
    while run < cache.leaders.len() && same_text(cache.leaders[run].as_str(), name.as_str())
        invariant
            offset <= run <= cache.leaders.len(),
            names == cache.names(),
            first_other(names, offset as int, name@) == first_other(names, run as int, name@),
        decreases cache.leaders.len() - run,
    {
        run = run + 1;
    }
    assert(first_other(names, offset as int, name@) == run);
    let empty: bool = name.as_str().is_empty();
    let next: Option<String> = if !empty && run < cache.leaders.len() {
        Some(cache.leaders[run].clone())
    } else {
        None
    };
    let current: Option<String> = if empty {
        None
    } else {
        Some(name)
    };
    let current_tpu: Option<String> = tpu_of_opt(nodes_cache, &current);
    let next_tpu: Option<String> = tpu_of_opt(nodes_cache, &next);
    let current_addr = parse_opt_tpu(&current_tpu);
    let next_addr = parse_opt_tpu(&next_tpu);
    let until_switch: Option<u64> = if next.is_some() {
        Some((run - offset) as u64)
    } else {
        None
    };
    Some(
        BasePayload {
            slot,
            slotTimestamp: slot_timestamp,
            currentValidator: current,
            nextValidator: next,
            currentTpu: current_tpu,
            currentIp: current_addr.ip,
            currentPort: current_addr.port,
            nextTpu: next_tpu,
            nextIp: next_addr.ip,
            nextPort: next_addr.port,
            slotsUntilSwitch: until_switch,
        },
    )
}

/// Where a payload names a current leader, the cache names that one for every slot
/// until the switch, and the next leader, another one, for that slot; and where the
/// payload tells no switch, for every slot from its own on that the cache holds.
pub proof fn leader_stays_until_the_switch(
    slot: u64,
    slot_timestamp: u64,
    cache: LeaderCache,
    nodes: NodesCache,
)
    requires
        slot_payload(slot, slot_timestamp, cache, nodes) matches Some(p)
            && p.currentValidator is Some,
    ensures
        ({
            let payload = slot_payload(slot, slot_timestamp, cache, nodes)->0;
            let offset = cache.offset_of(slot)->0;
            let names = cache.names();
            match payload.slotsUntilSwitch {
                Some(until) => {
                    &&& until > 0
                    &&& offset + until < names.len()
                    &&& forall|k: int|
                        offset <= k < offset + until ==> Some(#[trigger] names[k])
                            == payload.currentValidator
                    &&& payload.nextValidator == Some(names[offset + until])
                    &&& payload.nextValidator != payload.currentValidator
                },
                None => {
                    &&& payload.nextValidator is None
                    &&& forall|k: int|
                        offset <= k < names.len() ==> Some(#[trigger] names[k])
                            == payload.currentValidator
                },
            }
        }),
{
    let offset = cache.offset_of(slot)->0;
    assert(cache.leaders@.len() == cache.leaders.len());
    lemma_first_other(cache.names(), offset, cache.names()[offset]);
}

/// A client that tracks the current leader is told no slot to wait; and one that tracks
/// the next leader, where the payload names one, is told the slots until the switch.
pub proof fn tracking_agrees_with_the_switch(
    slot: u64,
    slot_timestamp: u64,
    cache: LeaderCache,
    nodes: NodesCache,
)
    requires
        slot_payload(slot, slot_timestamp, cache, nodes) matches Some(p)
            && p.currentValidator is Some,
    ensures
        ({
            let payload = slot_payload(slot, slot_timestamp, cache, nodes)->0;
            &&& cache.until_leader(payload.currentValidator->0, slot) == Some(0u64)
            &&& payload.nextValidator matches Some(next) ==> cache.until_leader(next, slot)
                == payload.slotsUntilSwitch
            &&& payload.nextValidator is Some <==> payload.slotsUntilSwitch is Some
        }),
{
    let offset = cache.offset_of(slot)->0;
    let name = cache.names()[offset];
    let other = first_other(cache.names(), offset, name);
    lemma_first_other(cache.names(), offset, name);
    lemma_is_first_named(cache.names(), offset, name, offset);
    if other < cache.names().len() {
        lemma_is_first_named(cache.names(), offset, cache.names()[other], other);
    }
}

/// A request for the leaders of `limit` slots from `start_slot` on.
#[derive(Clone, Copy, Debug, PartialEq, Eq, Structural)]
pub struct LeadersRequest {
    pub start_slot: u64,
    pub limit: usize,
}

/// How many leaders are asked for: at least two and at most what an endpoint gives.
pub open spec fn asked_leaders(lookahead: u64) -> int {
    let raised = if lookahead < 2 {
        2
    } else {
        lookahead as int
    };
    if raised > DEFAULT_TRACK_LOOKAHEAD {
        DEFAULT_TRACK_LOOKAHEAD as int
    } else {
        raised
    }
}

/// How many slots the cache must reach beyond the range: a quarter of what is
/// asked for, and at least one.
pub open spec fn slots_to_spare(lookahead: u64) -> int {
    if asked_leaders(lookahead) / 4 < 1 {
        1
    } else {
        asked_leaders(lookahead) / 4
    }
}

/// Whether the cache holds the slots from `low` to `high` and enough after them.
pub open spec fn enough_leaders(cache: LeaderCache, low: u64, high: u64, lookahead: u64) -> bool {
    &&& cache.start_slot is Some
    &&& cache.leaders@.len() > 0
    &&& cache.last_slot() is Some
    &&& cache.start_slot->0 <= low
    &&& high <= cache.last_slot()->0
    &&& cache.last_slot()->0 - high >= slots_to_spare(lookahead)
}

/// What must be asked for so that the cache holds the slots between the two: the
/// leaders from the lower one on, or nothing where it has enough.
pub open spec fn leaders_wanted(
    cache: LeaderCache,
    start_slot: u64,
    end_slot: u64,
    lookahead: u64,
) -> Option<LeadersRequest> {
    let low = if start_slot < end_slot {
        start_slot
    } else {
        end_slot
    };
    let high = if start_slot < end_slot {
        end_slot
    } else {
        start_slot
    };
    if enough_leaders(cache, low, high, lookahead) {
        None
    } else {
        Some(LeadersRequest { start_slot: low, limit: asked_leaders(lookahead) as usize })
    }
}

/// What must be asked for so that the cache holds the slots between the two.
pub fn ensure_leaders_for_range(
    cache: &LeaderCache,
    start_slot: u64,
    end_slot: u64,
    lookahead: u64,
) -> (request: Option<LeadersRequest>)
    ensures
        request == leaders_wanted(*cache, start_slot, end_slot, lookahead),
{
    let raised: u64 = if lookahead < 2 {
        2
    } else {
        lookahead
    };
    let limit: u64 = if raised > DEFAULT_TRACK_LOOKAHEAD as u64 {
        DEFAULT_TRACK_LOOKAHEAD as u64
    } else {
        raised
    };
    let low: u64 = if start_slot < end_slot {
        start_slot
    } else {
        end_slot
    };
    let high: u64 = if start_slot < end_slot {
        end_slot
    } else {
        start_slot
    };
    let spare: u64 = if limit / 4 < 1 {
        1
    } else {
        limit / 4
    };
    let enough: bool = match (cache.start_slot, cache.end_slot()) {
        (Some(first), Some(last)) => cache.leaders.len() > 0 && first <= low && high <= last && last
            - high >= spare,
        _ => false,
    };
    if enough {
        None
    } else {
        Some(LeadersRequest { start_slot: low, limit: limit as usize })
    }
}

impl LeaderCache {
    /// Takes in the leaders that were asked for.
    pub fn install(&mut self, request: LeadersRequest, leaders: Vec<String>)
        ensures
            final(self).start_slot == Some(request.start_slot),
            final(self).leaders == leaders,
    {
        self.start_slot = Some(request.start_slot);
        self.leaders = leaders;
    }
}

/// Where no leaders are asked for, the cache holds the leader of every slot of the
/// range.
pub proof fn enough_leaders_cover_the_range(
    cache: LeaderCache,
    start_slot: u64,
    end_slot: u64,
    lookahead: u64,
    slot: u64,
)
    requires
        leaders_wanted(cache, start_slot, end_slot, lookahead) is None,
        start_slot <= slot <= end_slot || end_slot <= slot <= start_slot,
    ensures
        cache.offset_of(slot) is Some,
{
}

/// An answer with all the leaders that were asked for is enough: none are asked for
/// again at that slot.
pub proof fn full_answer_is_enough(
    cache: LeaderCache,
    refreshed: LeaderCache,
    slot: u64,
    lookahead: u64,
)
    requires
        leaders_wanted(cache, slot, slot, lookahead) matches Some(request)
            && refreshed.start_slot == Some(request.start_slot) && refreshed.leaders@.len()
            == request.limit && slot + request.limit - 1 <= u64::MAX,
    ensures
        leaders_wanted(refreshed, slot, slot, lookahead) is None,
        refreshed.offset_of(slot) == Some(0int),
{
}

/// The address that the last of the nodes with this name announces.
pub open spec fn listed_tpu(nodes: Seq<ClusterNode>, name: Seq<char>) -> Option<Seq<char>>
    decreases nodes.len(),
{
    if nodes.len() == 0 {
        None
    } else if nodes.last().pubkey@ == name {
        opt_text(nodes.last().tpu)
    } else {
        listed_tpu(nodes.drop_last(), name)
    }
}

/// Whether one of the nodes has this name.
pub open spec fn listed(nodes: Seq<ClusterNode>, name: Seq<char>) -> bool {
    exists|i: int| 0 <= i < nodes.len() && (#[trigger] nodes[i]).pubkey@ == name
}

/// Whether the cache is as if it had just taken in the nodes at the time `now`.
pub open spec fn holds_nodes(cache: NodesCache, nodes: Seq<ClusterNode>, now: u64) -> bool {
    &&& cache.ts_ms == now
    &&& forall|name: Seq<char>| #[trigger] cache.tpu_of(name) == listed_tpu(nodes, name)
    &&& forall|name: Seq<char>| #[trigger]
        cache.nodes_by_pubkey@.contains_key(name) <==> listed(nodes, name)
}

impl NodesCache {
    /// Whether the validators must be asked for: there are none, or they were
    /// asked for too long ago.
    pub open spec fn stale(&self, now: u64, ttl_ms: u64) -> bool {
        self.nodes_by_pubkey@.is_empty() || (if now > self.ts_ms {
            now - self.ts_ms
        } else {
            0
        }) >= ttl_ms
    }

    /// Whether the validators must be asked for.
    pub fn refresh_nodes_if_needed(&self, now: u64, ttl_ms: u64) -> (needed: bool)
        ensures
            needed == self.stale(now, ttl_ms),
    {
        self.nodes_by_pubkey.is_empty() || now.saturating_sub(self.ts_ms) >= ttl_ms
    }

    /// Takes in the validators that were asked for at the time `now`. The last of
    /// several with one name counts.
    pub fn install(&mut self, nodes: Vec<ClusterNode>, now: u64)
        ensures
            holds_nodes(*final(self), nodes@, now),
    {
        let mut next: StringHashMap<NodeInfo> = StringHashMap::new();
        let mut index: usize = 0;
        let ghost mut seen = NodesCache { nodes_by_pubkey: next, ts_ms: now };
        while index < nodes.len()
            invariant
                index <= nodes.len(),
                seen.nodes_by_pubkey == next,
                forall|name: Seq<char>| #[trigger]
                    seen.tpu_of(name) == listed_tpu(nodes@.take(index as int), name),
                forall|name: Seq<char>| #[trigger]
                    next@.contains_key(name) <==> listed(nodes@.take(index as int), name),
            decreases nodes.len() - index,
        {
            let node: &ClusterNode = &nodes[index];
            let ghost before = nodes@.take(index as int);
            let ghost after = nodes@.take(index + 1);
            let ghost was = seen;
            assert(after.drop_last() =~= before);
            next.insert(
                node.pubkey.clone(),
                NodeInfo { tpu: crate::text::copy_opt(&node.tpu) },
            );
            proof {
                seen = NodesCache { nodes_by_pubkey: next, ts_ms: now };
                assert forall|name: Seq<char>| #[trigger]
                    seen.tpu_of(name) == listed_tpu(after, name) by {
                    assert(was.tpu_of(name) == listed_tpu(before, name));
                }
                assert forall|name: Seq<char>| #[trigger]
                    next@.contains_key(name) <==> listed(after, name) by {
                    if listed(before, name) {
                        let i = choose|i: int|
                            0 <= i < before.len() && (#[trigger] before[i]).pubkey@ == name;
                        assert(after[i].pubkey@ == name);
                    }
                    if name == node.pubkey@ {
                        assert(after[index as int].pubkey@ == name);
                    }
                    if listed(after, name) && name != node.pubkey@ {
                        let i = choose|i: int|
                            0 <= i < after.len() && (#[trigger] after[i]).pubkey@ == name;
                        assert(before[i].pubkey@ == name);
                    }
                }
            }
            index = index + 1;
        }
        assert(nodes@.take(index as int) =~= nodes@);
        self.nodes_by_pubkey = next;
        self.ts_ms = now;
        assert forall|name: Seq<char>| #[trigger]
            self.tpu_of(name) == listed_tpu(nodes@, name) by {
            assert(seen.tpu_of(name) == listed_tpu(nodes@, name));
        }
    }
}

/// Validators that were just taken in, if there are any, are fresh for as long as
/// they are meant to be.
pub proof fn installed_nodes_stay_fresh(cache: NodesCache, now: u64, ttl_ms: u64)
    requires
        !cache.nodes_by_pubkey@.is_empty(),
        cache.ts_ms <= now,
        now - cache.ts_ms < ttl_ms,
    ensures
        !cache.stale(now, ttl_ms),
{
}

/// How long the refresher of the leaders waits: the longer the more of its
/// attempts failed in a row.
#[derive(Clone, Copy, Debug, PartialEq, Eq, Structural)]
pub struct RefreshPacer {
    pub backoff_ms: u64,
}

/// The wait that follows a wait: twice as long, up to the longest one.
pub open spec fn longer_wait(wait_ms: int) -> int {
    if wait_ms * 2 < MAX_BACKOFF_MS {
        wait_ms * 2
    } else {
        MAX_BACKOFF_MS as int
    }
}

/// The wait after the next failure, when `failures` attempts failed in a row.
pub open spec fn backoff_after(failures: nat) -> int
    decreases failures,
{
    if failures == 0 {
        DEFAULT_LEADER_CACHE_REFRESH_MS as int
    } else {
        longer_wait(backoff_after((failures - 1) as nat))
    }
}

impl RefreshPacer {
    /// The wait never grows beyond the longest one.
    pub open spec fn wf(&self) -> bool {
        self.backoff_ms <= MAX_BACKOFF_MS
    }

    /// Before the first attempt.
    pub fn new() -> (pacer: Self)
        ensures
            pacer.wf(),
            pacer.backoff_ms == backoff_after(0),
    {
        RefreshPacer { backoff_ms: DEFAULT_LEADER_CACHE_REFRESH_MS }
    }

    /// An attempt has succeeded, or failed: how long to wait before the next.
    pub fn after_attempt(&mut self, succeeded: bool) -> (wait_ms: u64)
        requires
            old(self).wf(),
        ensures
            final(self).wf(),
            succeeded ==> wait_ms == DEFAULT_LEADER_CACHE_REFRESH_MS && final(self).backoff_ms
                == backoff_after(0),
            !succeeded ==> wait_ms == old(self).backoff_ms,
            !succeeded ==> final(self).backoff_ms == longer_wait(old(self).backoff_ms as int),
    {
        if succeeded {
            self.backoff_ms = DEFAULT_LEADER_CACHE_REFRESH_MS;
            DEFAULT_LEADER_CACHE_REFRESH_MS
        } else {
            let wait_ms: u64 = self.backoff_ms;
            let doubled: u64 = wait_ms * 2;
            self.backoff_ms = if doubled < MAX_BACKOFF_MS {
                doubled
            } else {
                MAX_BACKOFF_MS
            };
            wait_ms
        }
    }
}

/// The waits after failures in a row never shorten and never pass the longest one.
pub proof fn backoff_grows_to_its_limit(failures: nat)
    ensures
        0 < backoff_after(failures) <= backoff_after(failures + 1) <= MAX_BACKOFF_MS,
    decreases failures,
{
    if failures > 0 {
        backoff_grows_to_its_limit((failures - 1) as nat);
    }
}

/// What is to be done next so that a slot is told to the subscribers.
pub enum SlotChore {
    /// Ask for the validators.
    AskNodes,
    /// Ask for leaders.
    AskLeaders(LeadersRequest),
    /// Send the payload to the subscribers.
    Publish(BasePayload),
    /// Nothing.
    Done,
    /// Give the slot up, with this error.
    Fail(String),
}

/// The last step for a slot: its payload, if the leaders are known, is the latest
/// one and is published.
pub open spec fn publishing(
    before: AppState,
    after: AppState,
    slot: u64,
    slot_timestamp: u64,
    chore: SlotChore,
) -> bool {
    match slot_payload(slot, slot_timestamp, before.leader_cache, before.nodes_cache) {
        Some(payload) => {
            &&& after == (AppState { latest: after.latest, ..before })
            &&& after.latest is Some
            &&& after.latest->0@ == payload
            &&& chore matches SlotChore::Publish(published)
            &&& published@ == payload
        },
        None => after == before && chore == SlotChore::Done,
    }
}

/// The step for a slot once the validators are known: leaders are asked for, or the
/// last step is taken.
pub open spec fn seeing_to_leaders(
    before: AppState,
    after: AppState,
    slot: u64,
    slot_timestamp: u64,
    chore: SlotChore,
) -> bool {
    match leaders_wanted(before.leader_cache, slot, slot, before.leader_lookahead) {
        Some(request) => after == before && chore == SlotChore::AskLeaders(request),
        None => publishing(before, after, slot, slot_timestamp, chore),
    }
}

impl AppState {
    /// A slot has come, at the time `now`. One that is not later than the latest
    /// payload's is passed over.
    pub fn process_slot(&mut self, slot: u64, slot_timestamp: u64, now: u64) -> (chore: SlotChore)
        ensures
            if old(self).latest is Some && slot <= old(self).latest->0.slot {
                *final(self) == *old(self) && chore == SlotChore::Done
            } else if old(self).nodes_cache.stale(now, old(self).config.node_cache_ttl_ms) {
                *final(self) == *old(self) && chore == SlotChore::AskNodes
            } else {
                seeing_to_leaders(*old(self), *final(self), slot, slot_timestamp, chore)
            },
            old(self).wf() ==> final(self).wf(),
    {
        if let Some(latest) = &self.latest {
            if slot <= latest.slot {
                return SlotChore::Done;
            }
        }
        if self.nodes_cache.refresh_nodes_if_needed(now, self.config.node_cache_ttl_ms) {
            return SlotChore::AskNodes;
        }
        self.see_to_leaders(slot, slot_timestamp)
    }

    /// The validators that were asked for at the time `asked_at`, for the sake of a
    /// slot, have come.
    pub fn slot_nodes_answered(
        &mut self,
        slot: u64,
        slot_timestamp: u64,
        asked_at: u64,
        answer: Result<Vec<ClusterNode>, String>,
    ) -> (chore: SlotChore)
        ensures
            match answer {
                Ok(nodes) => holds_nodes(final(self).nodes_cache, nodes@, asked_at)
                    && seeing_to_leaders(
                    (AppState { nodes_cache: final(self).nodes_cache, ..*old(self) }),
                    *final(self),
                    slot,
                    slot_timestamp,
                    chore,
                ),
                Err(message) => *final(self) == *old(self) && chore == SlotChore::Fail(message),
            },
            old(self).wf() ==> final(self).wf(),
    {
        match answer {
            Ok(nodes) => {
                self.nodes_cache.install(nodes, asked_at);
                self.see_to_leaders(slot, slot_timestamp)
            },
            Err(message) => SlotChore::Fail(message),
        }
    }

    /// The leaders that were asked for, for the sake of a slot, have come.
    pub fn slot_leaders_answered(
        &mut self,
        slot: u64,
        slot_timestamp: u64,
        request: LeadersRequest,
        answer: Result<Vec<String>, String>,
    ) -> (chore: SlotChore)
        ensures
            match answer {
                Ok(leaders) => publishing(
                    (AppState {
                        leader_cache: LeaderCache {
                            start_slot: Some(request.start_slot),
                            leaders,
                        },
                        ..*old(self)
                    }),
                    *final(self),
                    slot,
                    slot_timestamp,
                    chore,
                ),
                Err(message) => *final(self) == *old(self) && chore == SlotChore::Fail(message),
            },
            old(self).wf() ==> final(self).wf(),
    {
        match answer {
            Ok(leaders) => {
                self.leader_cache.install(request, leaders);
                self.publish_slot(slot, slot_timestamp)
            },
            Err(message) => SlotChore::Fail(message),
        }
    }

    /// The step for a slot once the validators are known.
    pub fn see_to_leaders(&mut self, slot: u64, slot_timestamp: u64) -> (chore: SlotChore)
        ensures
            seeing_to_leaders(*old(self), *final(self), slot, slot_timestamp, chore),
            old(self).wf() ==> final(self).wf(),
    {
        match ensure_leaders_for_range(&self.leader_cache, slot, slot, self.leader_lookahead) {
            Some(request) => SlotChore::AskLeaders(request),
            None => self.publish_slot(slot, slot_timestamp),
        }
    }

    fn publish_slot(&mut self, slot: u64, slot_timestamp: u64) -> (chore: SlotChore)
        ensures
            publishing(*old(self), *final(self), slot, slot_timestamp, chore),
            old(self).wf() ==> final(self).wf(),
    {
        match build_payload_for_slot(
            slot,
            slot_timestamp,
            &self.leader_cache,
            &self.nodes_cache,
        ) {
            Some(payload) => {
                self.latest = Some(payload.clone());
                SlotChore::Publish(payload)
            },
            None => SlotChore::Done,
        }
    }
}

/// The slots of the payloads that are published ascend: what is published for a slot
/// that has come is later than the payload that was the latest before.
pub proof fn published_slots_ascend(
    before: AppState,
    after: AppState,
    slot: u64,
    slot_timestamp: u64,
    chore: SlotChore,
)
    requires
        !(before.latest is Some && slot <= before.latest->0.slot),
        publishing(before, after, slot, slot_timestamp, chore),
        chore is Publish,
    ensures
        chore->Publish_0.slot == slot,
        before.latest is Some ==> before.latest->0.slot < slot,
        after.latest is Some,
        after.latest->0.slot == slot,
{
}

/// What is to be done next so that the leaders are known in advance.
pub enum RefreshChore {
    /// Ask for the current slot.
    AskSlot { lookahead: u64 },
    /// Ask for the validators.
    AskNodes { slot: u64, lookahead: u64 },
    /// Ask for leaders.
    AskLeaders(LeadersRequest),
    /// Nothing.
    Done,
    /// Give up for now, with this error.
    Fail(String),
}

/// The last question of a refresh: for leaders, if the cache does not have enough.
pub open spec fn leaders_chore(cache: LeaderCache, slot: u64, lookahead: u64) -> RefreshChore {
    match leaders_wanted(cache, slot, slot, lookahead) {
        Some(request) => RefreshChore::AskLeaders(request),
        None => RefreshChore::Done,
    }
}

/// The step of a refresh once the current slot is known: it is taken note of, and
/// the validators are asked for, or else leaders, where either is needed.
pub open spec fn refreshing_at(
    before: AppState,
    after: AppState,
    slot: u64,
    lookahead: u64,
    now: u64,
    chore: RefreshChore,
) -> bool {
    &&& after == (AppState {
        current_slot_cache: Some(
            CachedPayload {
                ts_ms: now,
                payload: CurrentSlotPayload { current_slot: slot, ts: now },
            },
        ),
        ..before
    })
    &&& chore == if before.nodes_cache.stale(now, before.config.node_cache_ttl_ms) {
        RefreshChore::AskNodes { slot, lookahead }
    } else {
        leaders_chore(before.leader_cache, slot, lookahead)
    }
}

impl AppState {
    /// The leaders are to be refreshed, at the time `now`. While the lookahead is
    /// zero nothing is done.
    pub fn refresh_leader_cache(&mut self, now: u64) -> (chore: RefreshChore)
        ensures
            if old(self).leader_lookahead == 0 {
                *final(self) == *old(self) && chore == RefreshChore::Done
            } else {
                match old(self).slot_hint() {
                    Some(slot) => refreshing_at(
                        *old(self),
                        *final(self),
                        slot,
                        old(self).leader_lookahead,
                        now,
                        chore,
                    ),
                    None => *final(self) == *old(self) && chore == (RefreshChore::AskSlot {
                        lookahead: old(self).leader_lookahead,
                    }),
                }
            },
            old(self).wf() ==> final(self).wf(),
    {
        let lookahead: u64 = self.leader_lookahead;
        if lookahead == 0 {
            return RefreshChore::Done;
        }
        match self.latest_slot_hint() {
            Some(slot) => self.refresh_at(slot, lookahead, now),
            None => RefreshChore::AskSlot { lookahead },
        }
    }

    /// The current slot that was asked for has come, at the time `now`.
    pub fn refresh_slot_answered(
        &mut self,
        lookahead: u64,
        now: u64,
        answer: Result<u64, String>,
    ) -> (chore: RefreshChore)
        ensures
            match answer {
                Ok(slot) => refreshing_at(
                    *old(self),
                    *final(self),
                    slot,
                    lookahead,
                    now,
                    chore,
                ),
                Err(message) => *final(self) == *old(self) && chore == RefreshChore::Fail(message),
            },
            old(self).wf() ==> final(self).wf(),
    {
        match answer {
            Ok(slot) => self.refresh_at(slot, lookahead, now),
            Err(message) => RefreshChore::Fail(message),
        }
    }

    /// The validators that were asked for at the time `asked_at` have come, or have
    /// not: the leaders are seen to either way.
    pub fn refresh_nodes_answered(
        &mut self,
        slot: u64,
        lookahead: u64,
        asked_at: u64,
        answer: Result<Vec<ClusterNode>, String>,
    ) -> (chore: RefreshChore)
        ensures
            match answer {
                Ok(nodes) => holds_nodes(final(self).nodes_cache, nodes@, asked_at) && *final(self)
                    == (AppState { nodes_cache: final(self).nodes_cache, ..*old(self) }),
                Err(message) => *final(self) == *old(self),
            },
            chore == leaders_chore(old(self).leader_cache, slot, lookahead),
            old(self).wf() ==> final(self).wf(),
    {
        if let Ok(nodes) = answer {
            self.nodes_cache.install(nodes, asked_at);
        }
        self.ask_leaders(slot, lookahead)
    }

    /// The leaders that were asked for have come.
    pub fn refresh_leaders_answered(
        &mut self,
        request: LeadersRequest,
        answer: Result<Vec<String>, String>,
    ) -> (chore: RefreshChore)
        ensures
            match answer {
                Ok(leaders) => chore == RefreshChore::Done && *final(self) == (AppState {
                    leader_cache: LeaderCache { start_slot: Some(request.start_slot), leaders },
                    ..*old(self)
                }),
                Err(message) => *final(self) == *old(self) && chore == RefreshChore::Fail(message),
            },
            old(self).wf() ==> final(self).wf(),
    {
        match answer {
            Ok(leaders) => {
                self.leader_cache.install(request, leaders);
                RefreshChore::Done
            },
            Err(message) => RefreshChore::Fail(message),
        }
    }

    fn refresh_at(&mut self, slot: u64, lookahead: u64, now: u64) -> (chore: RefreshChore)
        ensures
            refreshing_at(*old(self), *final(self), slot, lookahead, now, chore),
            old(self).wf() ==> final(self).wf(),
    {
        self.note_current_slot(slot, now);
        if self.nodes_cache.refresh_nodes_if_needed(now, self.config.node_cache_ttl_ms) {
            return RefreshChore::AskNodes { slot, lookahead };
        }
        self.ask_leaders(slot, lookahead)
    }

    /// The last question of a refresh.
    pub fn ask_leaders(&self, slot: u64, lookahead: u64) -> (chore: RefreshChore)
        ensures
            chore == leaders_chore(self.leader_cache, slot, lookahead),
    {
        match ensure_leaders_for_range(&self.leader_cache, slot, slot, lookahead) {
            Some(request) => RefreshChore::AskLeaders(request),
            None => RefreshChore::Done,
        }
    }
}

} // verus!
