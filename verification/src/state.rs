//! The state of the service and what changes it.
use std::collections::HashMap;

use vstd::prelude::*;
use vstd::hash_map::StringHashMap;
use vstd::string::*;

use crate::config::Config;
use crate::constants::API_FALLBACK_SLOT_MS;
use crate::models::{
    BasePayload, CachedPayload, CurrentSlotPayload, LeaderCache, NextLeadersPayload, NodeInfo,
    NodesCache, TrackSchedule,
};
use crate::number::{decimal, decimal_text};
use crate::template::{docs_page, index_page, render_docs, render_index};

verus! {

broadcast use vstd::std_specs::hash::group_hash_axioms;

/// A slot that was announced, and when.
#[derive(Clone, Copy, Debug, PartialEq, Eq, Structural)]
pub struct SlotInformerUpdate {
    pub slot: u64,
    pub timestamp_ms: u64,
}

/// What goes to the subscribers of the stream.
pub enum StreamEvent {
    Payload(BasePayload),
    Error(String),
    Shutdown,
}

impl Clone for StreamEvent {
    fn clone(&self) -> (copy: Self)
        ensures
            copy == *self,
    {
        match self {
            StreamEvent::Payload(payload) => StreamEvent::Payload(payload.clone()),
            StreamEvent::Error(message) => StreamEvent::Error(message.clone()),
            StreamEvent::Shutdown => StreamEvent::Shutdown,
        }
    }
}

/// The state of the service.
pub struct AppState {
    pub latest: Option<BasePayload>,
    pub slot_informer: Option<SlotInformerUpdate>,
    pub leader_cache: LeaderCache,
    pub nodes_cache: NodesCache,
    pub track_cache: StringHashMap<TrackSchedule>,
    pub current_slot_cache: Option<CachedPayload<CurrentSlotPayload>>,
    pub next_leaders_cache: HashMap<usize, CachedPayload<NextLeadersPayload>>,
    pub initial_html: String,
    pub docs_html: String,
    pub leader_stream_url: String,
    pub cache_bust: String,
    pub config: Config,
    pub track_subscribers: usize,
    pub leader_lookahead: u64,
    pub slot_ms_estimate: u64,
}

/// The new estimate of a slot's length: three parts the old one, one part what was
/// measured; what was measured alone where there is no old one.
pub open spec fn blended(estimate: u64, measured: int) -> int {
    if estimate == 0 {
        measured
    } else {
        (tripled(estimate) + measured) / 4
    }
}

/// Three times the estimate, as far as it fits.
pub open spec fn tripled(estimate: u64) -> int {
    if estimate * 3 <= u64::MAX {
        estimate * 3
    } else {
        u64::MAX as int
    }
}

/// The length of a slot that two announcements show: the time between them by the
/// slots between them. Nothing where no time has passed, or less than a
/// millisecond for each slot.
pub open spec fn measured_slot_ms(
    before: Option<SlotInformerUpdate>,
    slot: u64,
    timestamp_ms: u64,
) -> Option<int> {
    match before {
        Some(before) => if slot > before.slot && timestamp_ms > before.timestamp_ms && (timestamp_ms
            - before.timestamp_ms) / (slot - before.slot) > 0 {
            Some((timestamp_ms - before.timestamp_ms) / (slot - before.slot))
        } else {
            None
        },
        None => None,
    }
}

/// The estimate of a slot's length after an announcement.
pub open spec fn estimate_after(
    before: Option<SlotInformerUpdate>,
    estimate: u64,
    slot: u64,
    timestamp_ms: u64,
) -> int {
    match measured_slot_ms(before, slot, timestamp_ms) {
        Some(measured) => blended(estimate, measured),
        None => estimate as int,
    }
}

/// Whether an announcement can be blended into the estimate within 64 bits.
pub open spec fn update_fits(
    before: Option<SlotInformerUpdate>,
    estimate: u64,
    slot: u64,
    timestamp_ms: u64,
) -> bool {
    measured_slot_ms(before, slot, timestamp_ms) matches Some(measured) ==> estimate == 0
        || tripled(estimate) + measured <= u64::MAX
}

/// The state after an announcement: as before, unless the slot is later than the one
/// that was announced last.
pub open spec fn announced(before: AppState, slot: u64, timestamp_ms: u64, now: u64) -> AppState {
    if before.slot_informer is Some && slot <= before.slot_informer->0.slot {
        before
    } else {
        AppState {
            slot_informer: Some(SlotInformerUpdate { slot, timestamp_ms }),
            slot_ms_estimate: estimate_after(
                before.slot_informer,
                before.slot_ms_estimate,
                slot,
                timestamp_ms,
            ) as u64,
            current_slot_cache: Some(
                CachedPayload {
                    ts_ms: now,
                    payload: CurrentSlotPayload { current_slot: slot, ts: now },
                },
            ),
            ..before
        }
    }
}

/// One subscriber more; the counter wraps.
pub open spec fn one_more(count: usize) -> usize {
    if count == usize::MAX {
        0
    } else {
        (count + 1) as usize
    }
}

/// One subscriber less; the counter wraps.
pub open spec fn one_less(count: usize) -> usize {
    if count == 0 {
        usize::MAX
    } else {
        (count - 1) as usize
    }
}

/// Whether the states differ in the number of tracking subscribers, the lookahead
/// and the leaders alone, and the leaders are forgotten if the lookahead differs
/// and kept if it does not.
pub open spec fn lookahead_changed(
    before: AppState,
    after: AppState,
    subscribers: usize,
    lookahead: u64,
) -> bool {
    &&& after == (AppState {
        track_subscribers: subscribers,
        leader_lookahead: lookahead,
        leader_cache: after.leader_cache,
        ..before
    })
    &&& lookahead == before.leader_lookahead ==> after.leader_cache == before.leader_cache
    &&& lookahead != before.leader_lookahead ==> after.leader_cache.start_slot is None
        && after.leader_cache.leaders@.len() == 0
}

/// What the log tells of the subscribers from time to time. A dash stands for what
/// is not known.
pub struct SubscriberMetrics {
    pub subscribers: usize,
    pub track_subscribers: usize,
    pub leader_lookahead: u64,
    pub slot_ms_estimate: u64,
    pub latest_slot: String,
    pub latest_slot_ts: String,
    pub leader_cache_start: String,
    pub leader_cache_end: String,
    pub leader_cache_len: usize,
    pub nodes_cache_age_ms: String,
    pub track_cache_len: usize,
    pub current_slot_cache_age_ms: String,
}

/// The number as text, or a dash.
pub open spec fn number_or_dash(value: Option<u64>) -> Seq<char> {
    match value {
        Some(value) => decimal(value as nat),
        None => "-"@,
    }
}

/// The number as text, or a dash.
pub fn or_dash(value: Option<u64>) -> (text: String)
    ensures
        text@ == number_or_dash(value),
{
    match value {
        Some(value) => decimal_text(value),
        None => "-".to_owned(),
    }
}

/// How much time has passed since `then`; none where `then` is to come.
pub open spec fn age(now: u64, then: u64) -> u64 {
    if now > then {
        (now - then) as u64
    } else {
        0
    }
}

impl AppState {
    /// The lookahead is that for tracking while a client tracks, and the other one
    /// while none does; every schedule ascends.
    pub open spec fn wf(&self) -> bool {
        &&& self.leader_lookahead == if self.track_subscribers > 0 {
            self.config.track_lookahead as u64
        } else {
            self.config.leader_lookahead as u64
        }
        &&& self.schedules_ascend()
    }

    /// Every schedule that is kept ascends.
    pub open spec fn schedules_ascend(&self) -> bool {
        forall|name: Seq<char>| #[trigger]
            self.track_cache@.contains_key(name) ==> self.track_cache@[name].wf()
    }

    /// The current slot, as far as it is known: the one announced last, or else
    /// that of the last payload.
    pub open spec fn slot_hint(&self) -> Option<u64> {
        match self.slot_informer {
            Some(update) => Some(update.slot),
            None => match self.latest {
                Some(payload) => Some(payload.slot),
                None => None,
            },
        }
    }

    /// The state at the start: nothing is known yet.
    pub fn new(config: Config, leader_stream_url: String, now: u64) -> (state: Self)
        ensures
            state.wf(),
            state.latest is None,
            state.slot_informer is None,
            state.leader_cache.start_slot is None,
            state.leader_cache.leaders@.len() == 0,
            state.nodes_cache.nodes_by_pubkey@ == Map::<Seq<char>, NodeInfo>::empty(),
            state.nodes_cache.ts_ms == 0,
            state.track_cache@ == Map::<Seq<char>, TrackSchedule>::empty(),
            state.current_slot_cache is None,
            state.next_leaders_cache@ == Map::<usize, CachedPayload<NextLeadersPayload>>::empty(),
            state.cache_bust@ == decimal(now as nat),
            state.initial_html@ == index_page(leader_stream_url@, decimal(now as nat), None),
            state.docs_html@ == docs_page(decimal(now as nat)),
            state.leader_stream_url == leader_stream_url,
            state.config == config,
            state.track_subscribers == 0,
            state.leader_lookahead == config.leader_lookahead,
            state.slot_ms_estimate == API_FALLBACK_SLOT_MS,
    {
        let cache_bust: String = decimal_text(now);
        let initial_html: String = render_index(
            leader_stream_url.as_str(),
            cache_bust.as_str(),
            None,
        );
        let docs_html: String = render_docs(cache_bust.as_str());
        let lookahead: u64 = config.leader_lookahead as u64;
        AppState {
            latest: None,
            slot_informer: None,
            leader_cache: LeaderCache::default(),
            nodes_cache: NodesCache::default(),
            track_cache: StringHashMap::new(),
            current_slot_cache: None,
            next_leaders_cache: HashMap::new(),
            initial_html,
            docs_html,
            leader_stream_url,
            cache_bust,
            config,
            track_subscribers: 0,
            leader_lookahead: lookahead,
            slot_ms_estimate: API_FALLBACK_SLOT_MS,
        }
    }

    /// A client that tracks a validator has come: the first one makes the lookahead
    /// that for tracking.
    pub fn on_track_subscribe(&mut self)
        ensures
            lookahead_changed(
                *old(self),
                *final(self),
                one_more(old(self).track_subscribers),
                if old(self).track_subscribers == 0 {
                    old(self).config.track_lookahead as u64
                } else {
                    old(self).leader_lookahead
                },
            ),
            old(self).wf() && old(self).track_subscribers < usize::MAX ==> final(self).wf(),
    {
        let prev: usize = self.track_subscribers;
        self.track_subscribers = if prev == usize::MAX {
            0
        } else {
            prev + 1
        };
        if prev == 0 {
            let lookahead: u64 = self.config.track_lookahead as u64;
            self.set_leader_lookahead(lookahead);
        }
    }

    /// A client that tracked a validator has left: the last one makes the lookahead
    /// the other one again.
    pub fn on_track_unsubscribe(&mut self)
        ensures
            lookahead_changed(
                *old(self),
                *final(self),
                one_less(old(self).track_subscribers),
                if old(self).track_subscribers == 1 {
                    old(self).config.leader_lookahead as u64
                } else {
                    old(self).leader_lookahead
                },
            ),
            old(self).wf() && old(self).track_subscribers > 0 ==> final(self).wf(),
    {
        let prev: usize = self.track_subscribers;
        self.track_subscribers = if prev == 0 {
            usize::MAX
        } else {
            prev - 1
        };
        if prev == 1 {
            let lookahead: u64 = self.config.leader_lookahead as u64;
            self.set_leader_lookahead(lookahead);
        }
    }

    /// Makes the lookahead another one, and forgets the leaders if it was not that
    /// already.
    pub fn set_leader_lookahead(&mut self, lookahead: u64)
        ensures
            lookahead_changed(
                *old(self),
                *final(self),
                old(self).track_subscribers,
                lookahead,
            ),
    {
        if self.leader_lookahead == lookahead {
            return;
        }
        self.leader_lookahead = lookahead;
        self.leader_cache.reset();
    }

    /// Forgets the leaders if they were asked for under another lookahead.
    pub fn forget_outdated(&mut self, lookahead: u64)
        ensures
            old(self).leader_lookahead == lookahead ==> *final(self) == *old(self),
            old(self).leader_lookahead != lookahead ==> {
                &&& *final(self) == (AppState {
                    leader_cache: final(self).leader_cache,
                    ..*old(self)
                })
                &&& final(self).leader_cache.start_slot is None
                &&& final(self).leader_cache.leaders@.len() == 0
            },
            old(self).wf() ==> final(self).wf(),
    {
        if self.leader_lookahead != lookahead {
            self.leader_cache.reset();
        }
    }

    /// Whether [`AppState::record_slot_update`] can take the announcement in.
    pub fn slot_update_fits(&self, slot: u64, timestamp_ms: u64) -> (fits: bool)
        ensures
            fits == update_fits(self.slot_informer, self.slot_ms_estimate, slot, timestamp_ms),
    {
        match self.slot_informer {
            Some(prev) => {
                if slot <= prev.slot || timestamp_ms <= prev.timestamp_ms {
                    return true;
                }
                let measured: u64 = (timestamp_ms - prev.timestamp_ms) / (slot - prev.slot);
                if measured == 0 || self.slot_ms_estimate == 0 {
                    return true;
                }
                triple(self.slot_ms_estimate) <= u64::MAX - measured
            },
            None => true,
        }
    }

    /// Takes the announcement of a slot in, if it is later than the last one: the
    /// slot is current from `now` on, and the estimate of a slot's length follows
    /// what was measured.
    pub fn record_slot_update(&mut self, slot: u64, timestamp_ms: u64, now: u64)
        requires
            update_fits(
                old(self).slot_informer,
                old(self).slot_ms_estimate,
                slot,
                timestamp_ms,
            ),
        ensures
            *final(self) == announced(*old(self), slot, timestamp_ms, now),
            old(self).wf() ==> final(self).wf(),
    {
        if let Some(prev) = self.slot_informer {
            if slot <= prev.slot {
                return;
            }
            if timestamp_ms > prev.timestamp_ms {
                let measured: u64 = (timestamp_ms - prev.timestamp_ms) / (slot - prev.slot);
                if measured > 0 {
                    let estimate: u64 = self.slot_ms_estimate;
                    self.slot_ms_estimate = if estimate == 0 {
                        measured
                    } else {
                        (triple(estimate) + measured) / 4
                    };
                }
            }
        }
        self.slot_informer = Some(SlotInformerUpdate { slot, timestamp_ms });
        self.note_current_slot(slot, now);
    }

    /// Takes note of the current slot for those who ask for it.
    pub fn note_current_slot(&mut self, slot: u64, now: u64)
        ensures
            *final(self) == (AppState {
                current_slot_cache: Some(
                    CachedPayload {
                        ts_ms: now,
                        payload: CurrentSlotPayload { current_slot: slot, ts: now },
                    },
                ),
                ..*old(self)
            }),
    {
        self.current_slot_cache = Some(
            CachedPayload {
                ts_ms: now,
                payload: CurrentSlotPayload { current_slot: slot, ts: now },
            },
        );
    }

    /// The current slot, as far as it is known.
    pub fn latest_slot_hint(&self) -> (slot: Option<u64>)
        ensures
            slot == self.slot_hint(),
    {
        match self.slot_informer {
            Some(update) => Some(update.slot),
            None => match &self.latest {
                Some(payload) => Some(payload.slot),
                None => None,
            },
        }
    }

    /// What the log tells of the subscribers: nothing while there are none.
    pub fn subscriber_metrics(&self, subscribers: usize, now: u64) -> (metrics: Option<
        SubscriberMetrics,
    >)
        ensures
            match metrics {
                Some(m) => {
                    &&& subscribers > 0
                    &&& m.subscribers == subscribers
                    &&& m.track_subscribers == self.track_subscribers
                    &&& m.leader_lookahead == self.leader_lookahead
                    &&& m.slot_ms_estimate == self.slot_ms_estimate
                    &&& m.latest_slot@ == number_or_dash(
                        match self.latest {
                            Some(payload) => Some(payload.slot),
                            None => None,
                        },
                    )
                    &&& m.latest_slot_ts@ == number_or_dash(
                        match self.latest {
                            Some(payload) => Some(payload.slotTimestamp),
                            None => None,
                        },
                    )
                    &&& m.leader_cache_start@ == number_or_dash(self.leader_cache.start_slot)
                    &&& m.leader_cache_end@ == number_or_dash(self.leader_cache.last_slot())
                    &&& m.leader_cache_len == self.leader_cache.leaders@.len()
                    &&& m.nodes_cache_age_ms@ == number_or_dash(
                        if self.nodes_cache.ts_ms == 0 {
                            None
                        } else {
                            Some(age(now, self.nodes_cache.ts_ms))
                        },
                    )
                    &&& m.track_cache_len == self.track_cache@.len()
                    &&& m.current_slot_cache_age_ms@ == number_or_dash(
                        match self.current_slot_cache {
                            Some(entry) => Some(age(now, entry.ts_ms)),
                            None => None,
                        },
                    )
                },
                None => subscribers == 0,
            },
    {
        if subscribers == 0 {
            return None;
        }
        let (latest_slot, latest_slot_ts): (Option<u64>, Option<u64>) = match &self.latest {
            Some(payload) => (Some(payload.slot), Some(payload.slotTimestamp)),
            None => (None, None),
        };
        let nodes_age: Option<u64> = if self.nodes_cache.ts_ms == 0 {
            None
        } else {
            Some(now.saturating_sub(self.nodes_cache.ts_ms))
        };
        let slot_age: Option<u64> = match &self.current_slot_cache {
            Some(entry) => Some(now.saturating_sub(entry.ts_ms)),
            None => None,
        };
        Some(
            SubscriberMetrics {
                subscribers,
                track_subscribers: self.track_subscribers,
                leader_lookahead: self.leader_lookahead,
                slot_ms_estimate: self.slot_ms_estimate,
                latest_slot: or_dash(latest_slot),
                latest_slot_ts: or_dash(latest_slot_ts),
                leader_cache_start: or_dash(self.leader_cache.start_slot),
                leader_cache_end: or_dash(self.leader_cache.end_slot()),
                leader_cache_len: self.leader_cache.leaders.len(),
                nodes_cache_age_ms: or_dash(nodes_age),
                track_cache_len: self.track_cache.len(),
                current_slot_cache_age_ms: or_dash(slot_age),
            },
        )
    }
}

fn triple(estimate: u64) -> (result: u64)
    ensures
        result == tripled(estimate),
{
    if estimate > u64::MAX / 3 {
        u64::MAX
    } else {
        estimate * 3
    }
}

/// A blended estimate lies between the old one and what was measured.
pub proof fn estimate_lies_between(estimate: u64, measured: u64)
    requires
        estimate * 3 <= u64::MAX,
        measured > 0,
    ensures
        estimate == 0 ==> blended(estimate, measured as int) == measured,
        0 < estimate <= measured ==> estimate <= blended(estimate, measured as int) <= measured,
        measured <= estimate ==> measured <= blended(estimate, measured as int) <= estimate,
{
}

/// No announcement makes the slot that was announced last an earlier one, and one that
/// comes twice counts once.
pub proof fn announced_slot_never_goes_back(
    before: AppState,
    slot: u64,
    timestamp_ms: u64,
    now: u64,
    later: u64,
)
    ensures
        ({
            let after = announced(before, slot, timestamp_ms, now);
            &&& after.slot_informer is Some
            &&& slot <= after.slot_informer->0.slot
            &&& before.slot_informer is Some ==> before.slot_informer->0.slot
                <= after.slot_informer->0.slot
            &&& announced(after, slot, timestamp_ms, later) == after
        }),
{
}

} // verus!
