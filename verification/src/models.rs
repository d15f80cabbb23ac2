//! What the service keeps and what it tells its clients.
use vstd::prelude::*;
use vstd::hash_map::StringHashMap;
use vstd::string::*;

use crate::text::{copy_opt, opt_text, same_text};

verus! {

/// A payload and when it was made.
pub struct CachedPayload<T> {
    pub ts_ms: u64,
    pub payload: T,
}

/// The slot that is current, and when that was found.
#[derive(Clone, Copy, Debug, PartialEq, Eq, Structural)]
pub struct CurrentSlotPayload {
    pub current_slot: u64,
    pub ts: u64,
}

/// The leaders of the slots from the current one on.
pub struct NextLeadersPayload {
    pub current_slot: u64,
    pub limit: usize,
    pub leaders: Vec<LeaderRowPayload>,
    pub slot_ms: u64,
    pub ts: u64,
}

/// The leader of one slot and where it is reached.
pub struct LeaderRowPayload {
    pub slot: u64,
    pub leader: String,
    pub tpu: Option<String>,
    pub ip: Option<String>,
    pub port: Option<String>,
}

/// The model of [`LeaderRowPayload`].
pub struct LeaderRowView {
    pub slot: u64,
    pub leader: Seq<char>,
    pub tpu: Option<Seq<char>>,
    pub ip: Option<Seq<char>>,
    pub port: Option<Seq<char>>,
}

impl View for LeaderRowPayload {
    type V = LeaderRowView;

    open spec fn view(&self) -> LeaderRowView {
        LeaderRowView {
            slot: self.slot,
            leader: self.leader@,
            tpu: opt_text(self.tpu),
            ip: opt_text(self.ip),
            port: opt_text(self.port),
        }
    }
}

/// The model of [`NextLeadersPayload`].
#[verifier::ext_equal]
pub struct NextLeadersView {
    pub current_slot: u64,
    pub limit: usize,
    pub leaders: Seq<LeaderRowView>,
    pub slot_ms: u64,
    pub ts: u64,
}

impl View for NextLeadersPayload {
    type V = NextLeadersView;

    open spec fn view(&self) -> NextLeadersView {
        NextLeadersView {
            current_slot: self.current_slot,
            limit: self.limit,
            leaders: Seq::new(self.leaders@.len(), |i: int| self.leaders@[i]@),
            slot_ms: self.slot_ms,
            ts: self.ts,
        }
    }
}

impl Clone for LeaderRowPayload {
    fn clone(&self) -> (copy: Self)
        ensures
            copy == *self,
    {
        LeaderRowPayload {
            slot: self.slot,
            leader: self.leader.clone(),
            tpu: copy_opt(&self.tpu),
            ip: copy_opt(&self.ip),
            port: copy_opt(&self.port),
        }
    }
}

impl Clone for NextLeadersPayload {
    fn clone(&self) -> (copy: Self)
        ensures
            copy@ == self@,
    {
        let mut leaders: Vec<LeaderRowPayload> = Vec::new();
        let mut index: usize = 0;
        while index < self.leaders.len()
            invariant
                index <= self.leaders.len(),
                leaders@ == self.leaders@.take(index as int),
            decreases self.leaders.len() - index,
        {
            leaders.push(self.leaders[index].clone());
            index = index + 1;
            assert(leaders@ =~= self.leaders@.take(index as int));
        }
        let copy = NextLeadersPayload {
            current_slot: self.current_slot,
            limit: self.limit,
            leaders,
            slot_ms: self.slot_ms,
            ts: self.ts,
        };
        assert(copy@ =~= self@);
        copy
    }
}

/// What is known of a validator.
pub struct NodeInfo {
    pub tpu: Option<String>,
}

/// The validators that are known, and when they were asked for.
pub struct NodesCache {
    pub nodes_by_pubkey: StringHashMap<NodeInfo>,
    pub ts_ms: u64,
}

impl NodesCache {
    /// The address that the validator `name` announces, if it is known to.
    pub open spec fn tpu_of(&self, name: Seq<char>) -> Option<Seq<char>> {
        if self.nodes_by_pubkey@.contains_key(name) {
            opt_text(self.nodes_by_pubkey@[name].tpu)
        } else {
            None
        }
    }

    /// The address that the validator `name` announces.
    pub fn tpu(&self, name: &str) -> (tpu: Option<String>)
        ensures
            opt_text(tpu) == self.tpu_of(name@),
    {
        match self.nodes_by_pubkey.get(name) {
            Some(node) => copy_opt(&node.tpu),
            None => None,
        }
    }
}

impl Default for NodesCache {
    fn default() -> (cache: Self)
        ensures
            cache.nodes_by_pubkey@ == Map::<Seq<char>, NodeInfo>::empty(),
            cache.ts_ms == 0,
    {
        NodesCache { nodes_by_pubkey: StringHashMap::new(), ts_ms: 0 }
    }
}

/// The texts that strings hold.
pub open spec fn texts(strings: Seq<String>) -> Seq<Seq<char>> {
    Seq::new(strings.len(), |i: int| strings[i]@)
}

/// The first index from `from` on at which `names` has `name`, or the length.
pub open spec fn first_named(names: Seq<Seq<char>>, from: int, name: Seq<char>) -> int
    decreases names.len() - from,
{
    if from >= names.len() {
        names.len() as int
    } else if names[from] == name {
        from
    } else {
        first_named(names, from + 1, name)
    }
}

/// The first index from `from` on at which `names` has another name than `name`,
/// or the length.
pub open spec fn first_other(names: Seq<Seq<char>>, from: int, name: Seq<char>) -> int
    decreases names.len() - from,
{
    if from >= names.len() {
        names.len() as int
    } else if names[from] != name {
        from
    } else {
        first_other(names, from + 1, name)
    }
}

pub(crate) proof fn lemma_first_named(names: Seq<Seq<char>>, from: int, name: Seq<char>)
    requires
        0 <= from <= names.len(),
    ensures
        ({
            let at = first_named(names, from, name);
            &&& from <= at <= names.len()
            &&& at < names.len() ==> names[at] == name
            &&& forall|k: int| from <= k < at ==> names[k] != name
        }),
    decreases names.len() - from,
{
    if from < names.len() && names[from] != name {
        lemma_first_named(names, from + 1, name);
    }
}

pub(crate) proof fn lemma_first_other(names: Seq<Seq<char>>, from: int, name: Seq<char>)
    requires
        0 <= from <= names.len(),
    ensures
        ({
            let at = first_other(names, from, name);
            &&& from <= at <= names.len()
            &&& at < names.len() ==> names[at] != name
            &&& forall|k: int| from <= k < at ==> names[k] == name
        }),
    decreases names.len() - from,
{
    if from < names.len() && names[from] == name {
        lemma_first_other(names, from + 1, name);
    }
}

pub(crate) proof fn lemma_is_first_named(
    names: Seq<Seq<char>>,
    from: int,
    name: Seq<char>,
    at: int,
)
    requires
        0 <= from <= at < names.len(),
        names[at] == name,
        forall|k: int| from <= k < at ==> names[k] != name,
    ensures
        first_named(names, from, name) == at,
    decreases at - from,
{
    if from < at {
        lemma_is_first_named(names, from + 1, name, at);
    }
}

/// The leaders of consecutive slots.
pub struct LeaderCache {
    pub start_slot: Option<u64>,
    pub leaders: Vec<String>,
}

impl LeaderCache {
    /// The names of the leaders, slot by slot.
    pub open spec fn names(&self) -> Seq<Seq<char>> {
        texts(self.leaders@)
    }

    /// The index of the leader of `slot`, where the cache holds it.
    pub open spec fn offset_of(&self, slot: u64) -> Option<int> {
        match self.start_slot {
            Some(start) => if start <= slot && slot - start < self.leaders@.len() {
                Some(slot - start)
            } else {
                None
            },
            None => None,
        }
    }

    /// The last slot that the cache reaches: its first one where it is empty.
    pub open spec fn last_slot(&self) -> Option<u64> {
        match self.start_slot {
            Some(start) => {
                let more = if self.leaders@.len() == 0 {
                    0
                } else {
                    self.leaders@.len() - 1
                };
                if start + more <= u64::MAX {
                    Some((start + more) as u64)
                } else {
                    None
                }
            },
            None => None,
        }
    }

    /// In how many slots after `slot` the validator `name` leads, as far as the
    /// cache shows.
    pub open spec fn until_leader(&self, name: Seq<char>, slot: u64) -> Option<u64> {
        match self.offset_of(slot) {
            Some(offset) => {
                let at = first_named(self.names(), offset, name);
                if at < self.names().len() {
                    Some((at - offset) as u64)
                } else {
                    None
                }
            },
            None => None,
        }
    }

    /// Forgets everything.
    pub fn reset(&mut self)
        ensures
            final(self).start_slot is None,
            final(self).leaders@.len() == 0,
    {
        self.start_slot = None;
        self.leaders.clear();
    }

    /// The last slot that the cache reaches.
    pub fn end_slot(&self) -> (end: Option<u64>)
        ensures
            end == self.last_slot(),
    {
        match self.start_slot {
            Some(start) => {
                let more: usize = if self.leaders.len() == 0 {
                    0
                } else {
                    self.leaders.len() - 1
                };
                start.checked_add(more as u64)
            },
            None => None,
        }
    }

    /// The index of the leader of `slot`.
    pub fn offset(&self, slot: u64) -> (offset: Option<usize>)
        ensures
            match offset {
                Some(o) => self.offset_of(slot) == Some(o as int),
                None => self.offset_of(slot) is None,
            },
    {
        match self.start_slot {
            Some(start) => if start <= slot && slot - start < self.leaders.len() as u64 {
                Some((slot - start) as usize)
            } else {
                None
            },
            None => None,
        }
    }

    /// In how many slots after `slot` the validator `track` leads.
    pub fn slots_until_leader(&self, track: &str, slot: u64) -> (slots: Option<u64>)
        ensures
            slots == self.until_leader(track@, slot),
    {
        let offset: usize = match self.offset(slot) {
            Some(offset) => offset,
            None => return None,
        };
        let mut at: usize = offset;
        while at < self.leaders.len()
            invariant
                offset <= at <= self.leaders.len(),
                first_named(self.names(), offset as int, track@) == first_named(
                    self.names(),
                    at as int,
                    track@,
                ),
                self.offset_of(slot) == Some(offset as int),
            decreases self.leaders.len() - at,
        {
            if same_text(self.leaders[at].as_str(), track) {
                return Some((at - offset) as u64);
            }
            at = at + 1;
        }
        None
    }
}

/// Where the cache tells in how many slots a validator leads, the validator leads
/// then, and in no slot before that; where it holds the slot and tells nothing, the
/// validator leads in no slot from there on that it holds.
pub proof fn cache_names_the_next_slot(cache: LeaderCache, name: Seq<char>, slot: u64)
    requires
        cache.offset_of(slot) is Some,
    ensures
        ({
            let offset = cache.offset_of(slot)->0;
            let names = cache.names();
            match cache.until_leader(name, slot) {
                Some(slots) => {
                    &&& offset + slots < names.len()
                    &&& names[offset + slots] == name
                    &&& forall|k: int| offset <= k < offset + slots ==> #[trigger] names[k] != name
                },
                None => forall|k: int| offset <= k < names.len() ==> #[trigger] names[k] != name,
            }
        }),
{
    assert(cache.leaders@.len() == cache.leaders.len());
    lemma_first_named(cache.names(), cache.offset_of(slot)->0, name);
}

impl Default for LeaderCache {
    fn default() -> (cache: Self)
        ensures
            cache.start_slot is None,
            cache.leaders@.len() == 0,
    {
        LeaderCache { start_slot: None, leaders: Vec::new() }
    }
}

/// The slots of one epoch in which one validator leads.
pub struct TrackSchedule {
    pub epoch_start: u64,
    pub slots_in_epoch: u64,
    pub slots: Vec<u64>,
}

/// Whether the slots ascend.
pub open spec fn ascending(slots: Seq<u64>) -> bool {
    forall|i: int, j: int| 0 <= i <= j < slots.len() ==> slots[i] <= slots[j]
}

/// The first of `slots` that is `slot` or comes after it.
pub open spec fn first_from(slots: Seq<u64>, slot: u64) -> Option<u64>
    decreases slots.len(),
{
    if slots.len() == 0 {
        None
    } else if slots.first() >= slot {
        Some(slots.first())
    } else {
        first_from(slots.drop_first(), slot)
    }
}

proof fn lemma_first_from(slots: Seq<u64>, slot: u64, at: int)
    requires
        0 <= at <= slots.len(),
        forall|k: int| 0 <= k < at ==> slots[k] < slot,
        at < slots.len() ==> slots[at] >= slot,
    ensures
        first_from(slots, slot) == if at < slots.len() {
            Some(slots[at])
        } else {
            None
        },
    decreases at,
{
    if at > 0 {
        assert(slots.first() == slots[0]);
        lemma_first_from(slots.drop_first(), slot, at - 1);
    }
}

impl TrackSchedule {
    /// The slots of a schedule ascend.
    pub open spec fn wf(&self) -> bool {
        ascending(self.slots@)
    }

    /// Whether `slot` is of the epoch.
    pub open spec fn covers(&self, slot: u64) -> bool {
        self.epoch_start <= slot && slot < u64::MAX && slot < self.epoch_start
            + self.slots_in_epoch
    }

    /// In how many slots after `slot` the validator leads next.
    pub open spec fn until(&self, slot: u64) -> Option<u64> {
        if self.covers(slot) {
            match first_from(self.slots@, slot) {
                Some(next) => Some((next - slot) as u64),
                None => None,
            }
        } else {
            None
        }
    }

    /// Whether `slot` is of the epoch. The last slot of all is of none.
    pub fn covers_slot(&self, slot: u64) -> (covered: bool)
        ensures
            covered == self.covers(slot),
    {
        slot >= self.epoch_start && slot < self.epoch_start.saturating_add(self.slots_in_epoch)
    }

    /// In how many slots after `slot` the validator leads next.
    pub fn slots_until(&self, slot: u64) -> (slots: Option<u64>)
        requires
            self.wf(),
        ensures
            slots == self.until(slot),
    {
        if !self.covers_slot(slot) || self.slots.len() == 0 {
            return None;
        }
        let mut low: usize = 0;
        let mut high: usize = self.slots.len();
        while low < high
            invariant
                self.wf(),
                low <= high <= self.slots@.len(),
                forall|k: int| 0 <= k < low ==> self.slots@[k] < slot,
                forall|k: int| high <= k < self.slots@.len() ==> self.slots@[k] >= slot,
            decreases high - low,
        {
            let middle: usize = low + (high - low) / 2;
            if self.slots[middle] < slot {
                low = middle + 1;
            } else {
                high = middle;
            }
        }
        proof {
            lemma_first_from(self.slots@, slot, low as int);
        }
        if low < self.slots.len() {
            self.slots[low].checked_sub(slot)
        } else {
            None
        }
    }
}

impl Clone for TrackSchedule {
    fn clone(&self) -> (copy: Self)
        ensures
            copy.epoch_start == self.epoch_start,
            copy.slots_in_epoch == self.slots_in_epoch,
            copy.slots@ == self.slots@,
    {
        TrackSchedule {
            epoch_start: self.epoch_start,
            slots_in_epoch: self.slots_in_epoch,
            slots: self.slots.clone(),
        }
    }
}

/// Where a schedule says that its validator leads in some slots, it leads then,
/// and in no slot before that.
pub proof fn schedule_names_the_next_slot(schedule: TrackSchedule, slot: u64)
    requires
        schedule.wf(),
        schedule.until(slot) is Some,
    ensures
        ({
            let next = slot + schedule.until(slot)->0;
            &&& next <= u64::MAX
            &&& schedule.slots@.contains(next as u64)
            &&& forall|s: u64| #[trigger]
                schedule.slots@.contains(s) && slot <= s ==> next <= s
        }),
{
    lemma_least_from(schedule.slots@, slot);
}

proof fn lemma_least_from(slots: Seq<u64>, slot: u64)
    requires
        ascending(slots),
    ensures
        match first_from(slots, slot) {
            Some(next) => slots.contains(next) && slot <= next && forall|s: u64| #[trigger]
                slots.contains(s) && slot <= s ==> next <= s,
            None => forall|s: u64| #[trigger] slots.contains(s) ==> s < slot,
        },
    decreases slots.len(),
{
    if slots.len() > 0 {
        assert(slots.first() == slots[0]);
        if slots.first() < slot {
            let rest = slots.drop_first();
            assert forall|i: int, j: int| 0 <= i <= j < rest.len() implies rest[i] <= rest[j] by {
                assert(slots[i + 1] <= slots[j + 1]);
            }
            lemma_least_from(rest, slot);
            assert forall|s: u64| #[trigger] slots.contains(s) && slot <= s implies rest.contains(
                s,
            ) by {
                let i = choose|i: int| 0 <= i < slots.len() && slots[i] == s;
                assert(rest[i - 1] == s);
            }
            if first_from(rest, slot) is Some {
                let next = first_from(rest, slot)->0;
                let i = choose|i: int| 0 <= i < rest.len() && rest[i] == next;
                assert(slots[i + 1] == next);
            }
        } else {
            assert(slots.contains(slots[0]));
        }
    }
}

/// The payload of one slot: who leads, who leads after that, and when.
#[allow(non_snake_case)]
pub struct BasePayload {
    pub slot: u64,
    pub slotTimestamp: u64,
    pub currentValidator: Option<String>,
    pub nextValidator: Option<String>,
    pub currentTpu: Option<String>,
    pub currentIp: Option<String>,
    pub currentPort: Option<String>,
    pub nextTpu: Option<String>,
    pub nextIp: Option<String>,
    pub nextPort: Option<String>,
    pub slotsUntilSwitch: Option<u64>,
}

/// The model of [`BasePayload`].
#[allow(non_snake_case)]
pub struct BasePayloadView {
    pub slot: u64,
    pub slotTimestamp: u64,
    pub currentValidator: Option<Seq<char>>,
    pub nextValidator: Option<Seq<char>>,
    pub currentTpu: Option<Seq<char>>,
    pub currentIp: Option<Seq<char>>,
    pub currentPort: Option<Seq<char>>,
    pub nextTpu: Option<Seq<char>>,
    pub nextIp: Option<Seq<char>>,
    pub nextPort: Option<Seq<char>>,
    pub slotsUntilSwitch: Option<u64>,
}

impl View for BasePayload {
    type V = BasePayloadView;

    open spec fn view(&self) -> BasePayloadView {
        BasePayloadView {
            slot: self.slot,
            slotTimestamp: self.slotTimestamp,
            currentValidator: opt_text(self.currentValidator),
            nextValidator: opt_text(self.nextValidator),
            currentTpu: opt_text(self.currentTpu),
            currentIp: opt_text(self.currentIp),
            currentPort: opt_text(self.currentPort),
            nextTpu: opt_text(self.nextTpu),
            nextIp: opt_text(self.nextIp),
            nextPort: opt_text(self.nextPort),
            slotsUntilSwitch: self.slotsUntilSwitch,
        }
    }
}

impl Clone for BasePayload {
    fn clone(&self) -> (copy: Self)
        ensures
            copy == *self,
    {
        BasePayload {
            slot: self.slot,
            slotTimestamp: self.slotTimestamp,
            currentValidator: copy_opt(&self.currentValidator),
            nextValidator: copy_opt(&self.nextValidator),
            currentTpu: copy_opt(&self.currentTpu),
            currentIp: copy_opt(&self.currentIp),
            currentPort: copy_opt(&self.currentPort),
            nextTpu: copy_opt(&self.nextTpu),
            nextIp: copy_opt(&self.nextIp),
            nextPort: copy_opt(&self.nextPort),
            slotsUntilSwitch: self.slotsUntilSwitch,
        }
    }
}

/// The payload for a client that tracks no validator.
#[allow(non_snake_case)]
pub struct PayloadNoTrack {
    pub slot: u64,
    pub slotTimestamp: u64,
    pub currentValidator: Option<String>,
    pub nextValidator: Option<String>,
    pub currentTpu: Option<String>,
    pub currentIp: Option<String>,
    pub currentPort: Option<String>,
    pub nextTpu: Option<String>,
    pub nextIp: Option<String>,
    pub nextPort: Option<String>,
    pub slotsUntilSwitch: Option<u64>,
}

impl PayloadNoTrack {
    /// The payload of the slot, as it is.
    pub fn from_base(base: BasePayload) -> (payload: Self)
        ensures
            payload.slot == base.slot,
            payload.slotTimestamp == base.slotTimestamp,
            payload.currentValidator == base.currentValidator,
            payload.nextValidator == base.nextValidator,
            payload.currentTpu == base.currentTpu,
            payload.currentIp == base.currentIp,
            payload.currentPort == base.currentPort,
            payload.nextTpu == base.nextTpu,
            payload.nextIp == base.nextIp,
            payload.nextPort == base.nextPort,
            payload.slotsUntilSwitch == base.slotsUntilSwitch,
    {
        PayloadNoTrack {
            slot: base.slot,
            slotTimestamp: base.slotTimestamp,
            currentValidator: base.currentValidator,
            nextValidator: base.nextValidator,
            currentTpu: base.currentTpu,
            currentIp: base.currentIp,
            currentPort: base.currentPort,
            nextTpu: base.nextTpu,
            nextIp: base.nextIp,
            nextPort: base.nextPort,
            slotsUntilSwitch: base.slotsUntilSwitch,
        }
    }
}

/// The payload for a client that tracks a validator.
#[allow(non_snake_case)]
pub struct Payload {
    pub slot: u64,
    pub slotTimestamp: u64,
    pub currentValidator: Option<String>,
    pub nextValidator: Option<String>,
    pub currentTpu: Option<String>,
    pub currentIp: Option<String>,
    pub currentPort: Option<String>,
    pub nextTpu: Option<String>,
    pub nextIp: Option<String>,
    pub nextPort: Option<String>,
    pub slotsUntilSwitch: Option<u64>,
    pub slotsUntilLeader: Option<u64>,
}

impl Payload {
    /// The payload of the slot, and in how many slots the tracked validator leads.
    pub fn from_base(base: BasePayload, slots_until_leader: Option<u64>) -> (payload: Self)
        ensures
            payload.slot == base.slot,
            payload.slotTimestamp == base.slotTimestamp,
            payload.currentValidator == base.currentValidator,
            payload.nextValidator == base.nextValidator,
            payload.currentTpu == base.currentTpu,
            payload.currentIp == base.currentIp,
            payload.currentPort == base.currentPort,
            payload.nextTpu == base.nextTpu,
            payload.nextIp == base.nextIp,
            payload.nextPort == base.nextPort,
            payload.slotsUntilSwitch == base.slotsUntilSwitch,
            payload.slotsUntilLeader == slots_until_leader,
    {
        Payload {
            slot: base.slot,
            slotTimestamp: base.slotTimestamp,
            currentValidator: base.currentValidator,
            nextValidator: base.nextValidator,
            currentTpu: base.currentTpu,
            currentIp: base.currentIp,
            currentPort: base.currentPort,
            nextTpu: base.nextTpu,
            nextIp: base.nextIp,
            nextPort: base.nextPort,
            slotsUntilSwitch: base.slotsUntilSwitch,
            slotsUntilLeader: slots_until_leader,
        }
    }
}

} // verus!
