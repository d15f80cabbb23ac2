//! The stream of events that a client follows.
use vstd::prelude::*;
use vstd::string::*;

use crate::models::{ascending, BasePayload, Payload, PayloadNoTrack, TrackSchedule};
use crate::rpc::EpochInfo;
use crate::state::{lookahead_changed, one_less, one_more, AppState, StreamEvent};
use crate::text::{opt_text, trim, trimmed};

verus! {

/// The comment that a stream begins with.
pub const STREAM_OPEN: &'static str = "stream-open";

/// The comment that keeps a stream alive.
pub const HEARTBEAT: &'static str = "heartbeat";

/// The name of the events that report an error.
pub const ERROR_EVENT: &'static str = "error";

/// The validator that a client tracks: none where the name is blank.
pub open spec fn tracked_name(param: Option<Seq<char>>) -> Option<Seq<char>> {
    match param {
        Some(text) => if trimmed(text).len() == 0 {
            None
        } else {
            Some(trimmed(text))
        },
        None => None,
    }
}

/// The digit for a number below sixteen.
pub open spec fn hex_digit(n: u32) -> char {
    if n < 10 {
        (0x30 + n) as char
    } else {
        (0x57 + n) as char
    }
}

/// A character as it stands in a JSON string.
pub open spec fn escaped(c: char) -> Seq<char> {
    let n = c as u32;
    if c == '"' || c == '\\' {
        seq!['\\', c]
    } else if n == 0x8 {
        seq!['\\', 'b']
    } else if n == 0x9 {
        seq!['\\', 't']
    } else if n == 0xa {
        seq!['\\', 'n']
    } else if n == 0xc {
        seq!['\\', 'f']
    } else if n == 0xd {
        seq!['\\', 'r']
    } else if n < 0x20 {
        seq!['\\', 'u', '0', '0', hex_digit(n / 16), hex_digit(n % 16)]
    } else {
        seq![c]
    }
}

/// A text as it stands in a JSON string.
pub open spec fn escaped_text(text: Seq<char>) -> Seq<char>
    decreases text.len(),
{
    if text.len() == 0 {
        Seq::empty()
    } else {
        escaped_text(text.drop_last()) + escaped(text.last())
    }
}

/// The JSON string that holds a text.
pub open spec fn json_string(text: Seq<char>) -> Seq<char> {
    seq!['"'] + escaped_text(text) + seq!['"']
}

/// The JSON object of one member, with this key and this text for its value.
pub open spec fn json_member(key: Seq<char>, value: Seq<char>) -> Seq<char> {
    seq!['{'] + json_string(key) + seq![':'] + json_string(value) + seq!['}']
}

/// [`serde_json::Value`]'s `to_string` on an object of one member, whose value is a
/// string. Trusted: it writes the object without white space, and escapes quotes,
/// backslashes and the characters below space, and no others.
#[verifier::external_body]
fn write_member(key: &str, value: &str) -> (text: String)
    ensures
        text@ == json_member(key@, value@),
{
    let mut members = serde_json::Map::new();
    members.insert(key.to_string(), serde_json::Value::String(value.to_string()));
    serde_json::Value::Object(members).to_string()
}

/// Whether a text holds no control character of ASCII below space, and so no line end
/// of ASCII.
pub open spec fn on_one_line(text: Seq<char>) -> bool {
    forall|i: int| 0 <= i < text.len() ==> #[trigger] text[i] as u32 >= 0x20
}

proof fn lemma_escaped_on_one_line(text: Seq<char>)
    ensures
        on_one_line(escaped_text(text)),
    decreases text.len(),
{
    if text.len() > 0 {
        lemma_escaped_on_one_line(text.drop_last());
        let before = escaped_text(text.drop_last());
        let last = escaped(text.last());
        let whole = escaped_text(text);
        assert forall|i: int| 0 <= i < whole.len() implies #[trigger] whole[i] as u32 >= 0x20 by {
            if i < before.len() {
                assert(whole[i] == before[i]);
            } else {
                assert(whole[i] == last[i - before.len()]);
            }
        }
    }
}

/// A JSON object of one member stands on one line, whatever its key and value hold.
pub proof fn json_stands_on_one_line(key: Seq<char>, value: Seq<char>)
    ensures
        on_one_line(json_member(key, value)),
{
    lemma_escaped_on_one_line(key);
    lemma_escaped_on_one_line(value);
    let text = json_member(key, value);
    let k = escaped_text(key);
    let v = escaped_text(value);
    assert forall|i: int| 0 <= i < text.len() implies #[trigger] text[i] as u32 >= 0x20 by {
        if 2 <= i < 2 + k.len() {
            assert(text[i] == k[i - 2]);
        } else if 5 + k.len() <= i < 5 + k.len() + v.len() {
            assert(text[i] == v[i - 5 - k.len()]);
        }
    }
}

/// [`slice::sort_unstable`] on slots: the same slots, as often as before, ascending.
#[verifier::external_body]
fn sort_slots(slots: &mut Vec<u64>)
    ensures
        ascending(final(slots)@),
        final(slots)@.to_multiset() == old(slots)@.to_multiset(),
{
    slots.sort_unstable();
}

/// What a client of the stream receives of the service.
pub enum Received {
    /// An event.
    Event(StreamEvent),
    /// Nothing: the client was too slow for some events.
    Lagged,
    /// Nothing ever again.
    Closed,
}

/// What a client is sent.
pub enum StreamStep {
    /// The payload of a slot.
    Payload(BasePayload),
    /// An error, as JSON.
    Error(String),
    /// Nothing.
    Skip,
    /// The end of the stream.
    Stop,
}

/// What a client is sent for what it receives.
pub fn stream_step(received: Received) -> (step: StreamStep)
    ensures
        match received {
            Received::Event(StreamEvent::Payload(payload)) => step == StreamStep::Payload(payload),
            Received::Event(StreamEvent::Error(message)) => step matches StreamStep::Error(text)
                && text@ == json_member("message"@, message@),
            Received::Event(StreamEvent::Shutdown) => step == StreamStep::Stop,
            Received::Lagged => step == StreamStep::Skip,
            Received::Closed => step == StreamStep::Stop,
        },
{
    match received {
        Received::Event(event) => match event {
            StreamEvent::Payload(payload) => StreamStep::Payload(payload),
            StreamEvent::Error(message) => StreamStep::Error(
                write_member("message", message.as_str()),
            ),
            StreamEvent::Shutdown => StreamStep::Stop,
        },
        Received::Lagged => StreamStep::Skip,
        Received::Closed => StreamStep::Stop,
    }
}

/// The payload of a slot, as a client gets it.
pub enum ClientPayload {
    /// For one that tracks a validator.
    Tracking(Payload),
    /// For one that tracks none.
    Plain(PayloadNoTrack),
}

/// The payload of a slot for a client. Where it tracks a validator, `tracking`
/// holds in how many slots that leads, if that is known.
pub fn build_payload_event(payload: BasePayload, tracking: Option<Option<u64>>) -> (event:
    ClientPayload)
    ensures
        match tracking {
            Some(slots) => event matches ClientPayload::Tracking(told) && told == (Payload {
                slot: payload.slot,
                slotTimestamp: payload.slotTimestamp,
                currentValidator: payload.currentValidator,
                nextValidator: payload.nextValidator,
                currentTpu: payload.currentTpu,
                currentIp: payload.currentIp,
                currentPort: payload.currentPort,
                nextTpu: payload.nextTpu,
                nextIp: payload.nextIp,
                nextPort: payload.nextPort,
                slotsUntilSwitch: payload.slotsUntilSwitch,
                slotsUntilLeader: slots,
            }),
            None => event matches ClientPayload::Plain(told) && told == (PayloadNoTrack {
                slot: payload.slot,
                slotTimestamp: payload.slotTimestamp,
                currentValidator: payload.currentValidator,
                nextValidator: payload.nextValidator,
                currentTpu: payload.currentTpu,
                currentIp: payload.currentIp,
                currentPort: payload.currentPort,
                nextTpu: payload.nextTpu,
                nextIp: payload.nextIp,
                nextPort: payload.nextPort,
                slotsUntilSwitch: payload.slotsUntilSwitch,
            }),
        },
{
    match tracking {
        Some(slots) => ClientPayload::Tracking(Payload::from_base(payload, slots)),
        None => ClientPayload::Plain(PayloadNoTrack::from_base(payload)),
    }
}

/// In how many slots a tracked validator leads.
#[derive(Clone, Copy, Debug, PartialEq, Eq, Structural)]
pub enum TrackLookup {
    /// This many, or as far as is known not any more.
    Known(Option<u64>),
    /// The schedule of the slot's epoch must be asked for.
    AskSchedule,
}

/// The slots of an epoch that starts at `epoch_start`, of which these are the indices.
pub open spec fn absolute_slots(epoch_start: u64, indices: Seq<u64>) -> Seq<u64> {
    Seq::new(
        indices.len(),
        |i: int|
            if epoch_start + indices[i] <= u64::MAX {
                (epoch_start + indices[i]) as u64
            } else {
                u64::MAX
            },
    )
}

/// The slot that the current epoch starts with.
pub open spec fn epoch_start(epoch: EpochInfo) -> u64 {
    if epoch.absoluteSlot > epoch.slotIndex {
        (epoch.absoluteSlot - epoch.slotIndex) as u64
    } else {
        0
    }
}

/// The schedule that the endpoint's answers give: the validator's slots in the epoch,
/// none where the endpoint lists none, ascending.
pub open spec fn is_schedule(
    schedule: TrackSchedule,
    epoch: EpochInfo,
    indices: Option<Vec<u64>>,
) -> bool {
    &&& schedule.wf()
    &&& schedule.epoch_start == epoch_start(epoch)
    &&& schedule.slots_in_epoch == epoch.slotsInEpoch
    &&& schedule.slots@.to_multiset() == absolute_slots(
        epoch_start(epoch),
        match indices {
            Some(indices) => indices@,
            None => Seq::empty(),
        },
    ).to_multiset()
}

/// Whether the states differ in the schedule of one validator alone, which is the one
/// that the endpoint's answers give.
pub open spec fn schedule_kept(
    before: AppState,
    after: AppState,
    track: Seq<char>,
    epoch: EpochInfo,
    indices: Option<Vec<u64>>,
) -> bool {
    &&& after == (AppState { track_cache: after.track_cache, ..before })
    &&& after.track_cache@.contains_key(track)
    &&& after.track_cache@ == before.track_cache@.insert(track, after.track_cache@[track])
    &&& is_schedule(after.track_cache@[track], epoch, indices)
}

/// The schedule that the endpoint's answers give.
pub fn schedule_from(epoch: EpochInfo, indices: Option<Vec<u64>>) -> (schedule: TrackSchedule)
    ensures
        is_schedule(schedule, epoch, indices),
{
    let start: u64 = epoch.absoluteSlot.saturating_sub(epoch.slotIndex);
    let listed: Vec<u64> = match indices {
        Some(indices) => indices,
        None => Vec::new(),
    };
    let mut slots: Vec<u64> = Vec::new();
    let mut at: usize = 0;
    while at < listed.len()
        invariant
            at <= listed.len(),
            slots@ == absolute_slots(start, listed@.take(at as int)),
        decreases listed.len() - at,
    {
        slots.push(start.saturating_add(listed[at]));
        at = at + 1;
        assert(slots@ =~= absolute_slots(start, listed@.take(at as int)));
    }
    assert(listed@.take(at as int) =~= listed@);
    sort_slots(&mut slots);
    TrackSchedule { epoch_start: start, slots_in_epoch: epoch.slotsInEpoch, slots }
}

impl AppState {
    /// In how many slots a tracked validator leads: by the leaders that are known,
    /// or else by its schedule, if that is of the slot's epoch.
    pub open spec fn lookup(&self, track: Seq<char>, slot: u64) -> TrackLookup {
        if self.leader_cache.until_leader(track, slot) is Some {
            TrackLookup::Known(self.leader_cache.until_leader(track, slot))
        } else if self.track_cache@.contains_key(track) && self.track_cache@[track].covers(slot) {
            TrackLookup::Known(self.track_cache@[track].until(slot))
        } else {
            TrackLookup::AskSchedule
        }
    }

    /// A client begins to follow the stream, with this parameter. Returns the
    /// validator that it tracks.
    pub fn open_stream(&mut self, track: Option<&str>) -> (tracks: Option<String>)
        ensures
            opt_text(tracks) == tracked_name(
                match track {
                    Some(text) => Some(text@),
                    None => None,
                },
            ),
            tracks is None ==> *final(self) == *old(self),
            tracks is Some ==> lookahead_changed(
                *old(self),
                *final(self),
                one_more(old(self).track_subscribers),
                if old(self).track_subscribers == 0 {
                    old(self).config.track_lookahead as u64
                } else {
                    old(self).leader_lookahead
                },
            ),
            old(self).wf() && old(self).track_subscribers < usize::MAX ==> final(self).wf(),
    {
        if let Some(text) = track {
            let name: String = trim(text);
            if !name.as_str().is_empty() {
                self.on_track_subscribe();
                return Some(name);
            }
        }
        None
    }

    /// A client leaves the stream. `tracks` tells whether it tracked a validator.
    pub fn close_stream(&mut self, tracks: bool)
        ensures
            !tracks ==> *final(self) == *old(self),
            tracks ==> lookahead_changed(
                *old(self),
                *final(self),
                one_less(old(self).track_subscribers),
                if old(self).track_subscribers == 1 {
                    old(self).config.leader_lookahead as u64
                } else {
                    old(self).leader_lookahead
                },
            ),
            old(self).wf() && (tracks ==> old(self).track_subscribers > 0) ==> final(self).wf(),
    {
        if tracks {
            self.on_track_unsubscribe();
        }
    }

    /// In how many slots a tracked validator leads.
    pub fn resolve_slots_until_leader(&self, track: &str, slot: u64) -> (lookup: TrackLookup)
        requires
            self.schedules_ascend(),
        ensures
            lookup == self.lookup(track@, slot),
    {
        if let Some(slots) = self.leader_cache.slots_until_leader(track, slot) {
            return TrackLookup::Known(Some(slots));
        }
        if let Some(schedule) = self.track_cache.get(track) {
            if schedule.covers_slot(slot) {
                return TrackLookup::Known(schedule.slots_until(slot));
            }
        }
        TrackLookup::AskSchedule
    }

    /// Keeps the schedule of a tracked validator that was asked for, and tells in how
    /// many slots the validator leads by it. `indices` are the slots of the epoch that
    /// the endpoint lists for the validator, if it lists any.
    pub fn store_schedule(
        &mut self,
        track: &str,
        slot: u64,
        epoch: EpochInfo,
        indices: Option<Vec<u64>>,
    ) -> (slots: Option<u64>)
        ensures
            schedule_kept(*old(self), *final(self), track@, epoch, indices),
            slots == final(self).track_cache@[track@].until(slot),
            old(self).schedules_ascend() ==> final(self).schedules_ascend(),
            old(self).wf() ==> final(self).wf(),
    {
        let schedule: TrackSchedule = schedule_from(epoch, indices);
        let slots: Option<u64> = schedule.slots_until(slot);
        self.track_cache.insert(track.to_owned(), schedule);
        slots
    }

    /// The endpoint was asked for the epoch and then for the schedule of a tracked
    /// validator. Where either reply is a failure nothing is kept, and it is not known
    /// in how many slots the validator leads.
    pub fn schedule_answered(
        &mut self,
        track: &str,
        slot: u64,
        epoch: Result<EpochInfo, String>,
        indices: Result<Option<Vec<u64>>, String>,
    ) -> (slots: Option<u64>)
        ensures
            epoch is Err || indices is Err ==> *final(self) == *old(self) && slots is None,
            epoch is Ok && indices is Ok ==> schedule_kept(
                *old(self),
                *final(self),
                track@,
                epoch->Ok_0,
                indices->Ok_0,
            ) && slots == final(self).track_cache@[track@].until(slot),
            old(self).schedules_ascend() ==> final(self).schedules_ascend(),
            old(self).wf() ==> final(self).wf(),
    {
        match (epoch, indices) {
            (Ok(epoch), Ok(indices)) => self.store_schedule(track, slot, epoch, indices),
            _ => None,
        }
    }
}

/// A schedule that is kept spares asking for it again at every slot of its epoch: it
/// gives the answer there, unless the known leaders do.
pub proof fn kept_schedule_is_found(state: AppState, track: Seq<char>, slot: u64)
    requires
        state.track_cache@.contains_key(track),
        state.track_cache@[track].covers(slot),
    ensures
        state.lookup(track, slot) is Known,
        state.leader_cache.until_leader(track, slot) is None ==> state.lookup(track, slot)
            == TrackLookup::Known(state.track_cache@[track].until(slot)),
{
}

/// A client that comes and leaves again leaves the lookahead, the number of clients
/// that track, and the invariant as they were.
pub proof fn closing_undoes_opening(
    before: AppState,
    between: AppState,
    after: AppState,
    tracks: bool,
)
    requires
        before.wf(),
        before.track_subscribers < usize::MAX,
        !tracks ==> between == before && after == between,
        tracks ==> lookahead_changed(
            before,
            between,
            one_more(before.track_subscribers),
            if before.track_subscribers == 0 {
                before.config.track_lookahead as u64
            } else {
                before.leader_lookahead
            },
        ),
        tracks ==> lookahead_changed(
            between,
            after,
            one_less(between.track_subscribers),
            if between.track_subscribers == 1 {
                between.config.leader_lookahead as u64
            } else {
                between.leader_lookahead
            },
        ),
    ensures
        after.wf(),
        after.track_subscribers == before.track_subscribers,
        after.leader_lookahead == before.leader_lookahead,
        before.track_subscribers > 0 ==> after == before,
{
}

} // verus!
