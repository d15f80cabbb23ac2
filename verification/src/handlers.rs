//! What clients are answered.

use vstd::prelude::*;
use vstd::string::*;

use crate::background::slot_payload;
use crate::constants::{
    API_CACHE_TTL_MS, API_FALLBACK_SLOT_MS, INITIAL_PAYLOAD_LIMIT, NEXT_LEADERS_DEFAULT_LIMIT,
    NEXT_LEADERS_MAX_LIMIT, NEXT_LEADERS_MIN_LIMIT,
};
use crate::models::{
    CachedPayload, CurrentSlotPayload, LeaderCache, LeaderRowPayload, LeaderRowView,
    NextLeadersPayload, NextLeadersView, NodesCache,
};
use crate::number::{decimal, parse_unsigned, read_unsigned, written_number_reads_back};
use crate::state::{age, AppState};
use crate::template::{index_page, render_index};
use crate::text::{holds_text, replace_text, replaced, stands_at};
use crate::util::{parse_opt_tpu, tpu_address};

verus! {

broadcast use vstd::std_specs::hash::group_hash_axioms;

/// The number of leaders that a client asks for, brought into the range of what is
/// told.
pub open spec fn clamped_limit(input: Option<Seq<char>>) -> usize {
    let asked = match input {
        Some(text) => match read_unsigned(text, usize::MAX as nat) {
            Some(value) => value,
            None => NEXT_LEADERS_DEFAULT_LIMIT as nat,
        },
        None => NEXT_LEADERS_DEFAULT_LIMIT as nat,
    };
    if asked < NEXT_LEADERS_MIN_LIMIT {
        NEXT_LEADERS_MIN_LIMIT
    } else if asked > NEXT_LEADERS_MAX_LIMIT {
        NEXT_LEADERS_MAX_LIMIT
    } else {
        asked as usize
    }
}

/// The text of an optional slice.
pub open spec fn opt_str(text: Option<&str>) -> Option<Seq<char>> {
    match text {
        Some(text) => Some(text@),
        None => None,
    }
}

/// The number of leaders that a client is told: what it asks for, within limits, or
/// the default where it asks for nothing that is a number.
pub fn clamp_limit(input: Option<&str>) -> (limit: usize)
    ensures
        limit == clamped_limit(opt_str(input)),
{
    let asked: usize = match input {
        Some(text) => match parse_unsigned(text, usize::MAX as u64) {
            Some(value) => value as usize,
            None => NEXT_LEADERS_DEFAULT_LIMIT,
        },
        None => NEXT_LEADERS_DEFAULT_LIMIT,
    };
    if asked < NEXT_LEADERS_MIN_LIMIT {
        NEXT_LEADERS_MIN_LIMIT
    } else if asked > NEXT_LEADERS_MAX_LIMIT {
        NEXT_LEADERS_MAX_LIMIT
    } else {
        asked
    }
}

/// Whatever is asked for, the limit is in range; and a number in range that is
/// written out is taken as it is.
pub proof fn limit_stays_in_range(input: Option<Seq<char>>, limit: usize)
    requires
        NEXT_LEADERS_MIN_LIMIT <= limit <= NEXT_LEADERS_MAX_LIMIT,
    ensures
        NEXT_LEADERS_MIN_LIMIT <= clamped_limit(input) <= NEXT_LEADERS_MAX_LIMIT,
        clamped_limit(Some(decimal(limit as nat))) == limit,
{
    written_number_reads_back(limit as nat, usize::MAX as nat);
}

/// The row for the `index`th slot after the one at `offset`, which is `slot`.
pub open spec fn leader_row(
    names: Seq<Seq<char>>,
    nodes: NodesCache,
    offset: int,
    slot: u64,
    index: int,
) -> LeaderRowView {
    let leader = names[offset + index];
    let tpu = nodes.tpu_of(leader);
    LeaderRowView {
        slot: (slot + index) as u64,
        leader,
        tpu,
        ip: tpu_address(tpu).ip,
        port: tpu_address(tpu).port,
    }
}

/// The slot that the rows begin with: the current one, or the first one of the
/// cache where that is later or no slot is known to be current.
pub open spec fn first_row_slot(start_slot: u64, latest_slot: Option<u64>) -> u64 {
    match latest_slot {
        Some(slot) => if slot < start_slot {
            start_slot
        } else {
            slot
        },
        None => start_slot,
    }
}

/// How many rows there are: as many as the client wants and the cache holds.
pub open spec fn row_count(cache: LeaderCache, offset: int, limit: usize) -> int {
    if limit < cache.leaders@.len() - offset {
        limit as int
    } else {
        cache.leaders@.len() - offset
    }
}

/// The leaders that a client is told at the time `now`, or why it is told none.
pub open spec fn next_leaders(
    cache: LeaderCache,
    nodes: NodesCache,
    slot_ms_estimate: u64,
    limit: usize,
    latest_slot: Option<u64>,
    now: u64,
) -> Result<NextLeadersView, Seq<char>> {
    match cache.start_slot {
        Some(start) => {
            let slot = first_row_slot(start, latest_slot);
            let offset = slot - start;
            if cache.leaders@.len() == 0 {
                Err("leader cache warming; try again shortly"@)
            } else if offset >= cache.leaders@.len() {
                Err("leader cache missing for current slot; try again shortly"@)
            } else {
                Ok(
                    NextLeadersView {
                        current_slot: slot,
                        limit,
                        leaders: Seq::new(
                            row_count(cache, offset, limit) as nat,
                            |i: int| leader_row(cache.names(), nodes, offset, slot, i),
                        ),
                        slot_ms: if slot_ms_estimate > API_FALLBACK_SLOT_MS {
                            slot_ms_estimate
                        } else {
                            API_FALLBACK_SLOT_MS
                        },
                        ts: now,
                    },
                )
            }
        },
        None => Err("leader cache warming; try again shortly"@),
    }
}

/// Whether the slots of all rows fit into 64 bits.
pub open spec fn rows_fit(cache: LeaderCache, limit: usize, latest_slot: Option<u64>) -> bool {
    cache.start_slot is Some ==> {
        let slot = first_row_slot(cache.start_slot->0, latest_slot);
        let offset = slot - cache.start_slot->0;
        slot + row_count(cache, offset, limit) - 1 <= u64::MAX
    }
}

impl AppState {
    /// The leaders that a client is told at the time `now`, or why it is told none.
    pub open spec fn leaders_told(
        &self,
        limit: usize,
        latest_slot: Option<u64>,
        now: u64,
    ) -> Result<NextLeadersView, Seq<char>> {
        next_leaders(
            self.leader_cache,
            self.nodes_cache,
            self.slot_ms_estimate,
            limit,
            latest_slot,
            now,
        )
    }

    /// Whether [`AppState::build_next_leaders_payload`] can number all rows.
    pub fn next_leaders_fit(&self, limit: usize, latest_slot: Option<u64>) -> (fits: bool)
        ensures
            fits == rows_fit(self.leader_cache, limit, latest_slot),
    {
        match self.leader_cache.start_slot {
            Some(start) => {
                let slot: u64 = match latest_slot {
                    Some(slot) => if slot < start {
                        start
                    } else {
                        slot
                    },
                    None => start,
                };
                let len: u64 = self.leader_cache.leaders.len() as u64;
                if slot - start >= len {
                    return true;
                }
                let available: u64 = len - (slot - start);
                let take: u64 = if (limit as u64) < available {
                    limit as u64
                } else {
                    available
                };
                take == 0 || take - 1 <= u64::MAX - slot
            },
            None => true,
        }
    }

    /// The leaders that a client is told at the time `now`, or why it is told none.
    pub fn build_next_leaders_payload(
        &self,
        limit: usize,
        latest_slot: Option<u64>,
        now: u64,
    ) -> (result: Result<NextLeadersPayload, String>)
        requires
            rows_fit(self.leader_cache, limit, latest_slot),
        ensures
            match result {
                Ok(payload) => self.leaders_told(limit, latest_slot, now) == Ok::<_, Seq<char>>(
                    payload@,
                ),
                Err(message) => self.leaders_told(limit, latest_slot, now) == Err::<
                    NextLeadersView,
                    _,
                >(message@),
            },
    {
        let start: u64 = match self.leader_cache.start_slot {
            Some(start) => start,
            None => return Err("leader cache warming; try again shortly".to_owned()),
        };
        let len: usize = self.leader_cache.leaders.len();
        if len == 0 {
            return Err("leader cache warming; try again shortly".to_owned());
        }
        let slot: u64 = match latest_slot {
            Some(slot) => if slot < start {
                start
            } else {
                slot
            },
            None => start,
        };
        if slot - start >= len as u64 {
            return Err("leader cache missing for current slot; try again shortly".to_owned());
        }
        let offset: usize = (slot - start) as usize;
        let take: usize = if limit < len - offset {
            limit
        } else {
            len - offset
        };
        let mut leaders: Vec<LeaderRowPayload> = Vec::new();
        let mut index: usize = 0;
        while index < take
            invariant
                index <= take,
                offset + take <= self.leader_cache.leaders.len(),
                slot + take - 1 <= u64::MAX,
                leaders@.len() == index,
                forall|i: int|
                    0 <= i < index ==> (#[trigger] leaders@[i])@ == leader_row(
                        self.leader_cache.names(),
                        self.nodes_cache,
                        offset as int,
                        slot,
                        i,
                    ),
            decreases take - index,
        {
            let leader: String = self.leader_cache.leaders[offset + index].clone();
            let tpu: Option<String> = self.nodes_cache.tpu(leader.as_str());
            let address = parse_opt_tpu(&tpu);
            leaders.push(
                LeaderRowPayload {
                    slot: slot + index as u64,
                    leader,
                    tpu,
                    ip: address.ip,
                    port: address.port,
                },
            );
            index = index + 1;
        }
        let slot_ms: u64 = if self.slot_ms_estimate > API_FALLBACK_SLOT_MS {
            self.slot_ms_estimate
        } else {
            API_FALLBACK_SLOT_MS
        };
        let payload = NextLeadersPayload { current_slot: slot, limit, leaders, slot_ms, ts: now };
        assert(payload@.leaders =~= self.leaders_told(limit, latest_slot, now)->Ok_0.leaders);
        Ok(payload)
    }
}

/// The rows that a client is told are numbered without gaps, are no more than it
/// wants, and tell of their slots what the payloads of those slots tell.
pub proof fn rows_agree_with_slot_payloads(
    cache: LeaderCache,
    nodes: NodesCache,
    slot_ms_estimate: u64,
    limit: usize,
    latest_slot: Option<u64>,
    now: u64,
    timestamp: u64,
    index: int,
)
    requires
        rows_fit(cache, limit, latest_slot),
        next_leaders(cache, nodes, slot_ms_estimate, limit, latest_slot, now) is Ok,
        0 <= index < next_leaders(
            cache,
            nodes,
            slot_ms_estimate,
            limit,
            latest_slot,
            now,
        )->Ok_0.leaders.len(),
    ensures
        ({
            let told = next_leaders(cache, nodes, slot_ms_estimate, limit, latest_slot, now)->Ok_0;
            let row = told.leaders[index];
            let payload = slot_payload(row.slot, timestamp, cache, nodes);
            &&& told.leaders.len() <= limit
            &&& row.slot == told.current_slot + index
            &&& payload is Some
            &&& row.leader.len() > 0 ==> payload->0.currentValidator == Some(row.leader)
                && payload->0.currentTpu == row.tpu && payload->0.currentIp == row.ip
                && payload->0.currentPort == row.port
        }),
{
}

/// A client is told rows exactly where the cache holds the slot that they begin with,
/// and then at least one, if it wants any.
pub proof fn rows_are_told_where_the_first_is_held(
    cache: LeaderCache,
    nodes: NodesCache,
    slot_ms_estimate: u64,
    limit: usize,
    latest_slot: Option<u64>,
    now: u64,
)
    ensures
        ({
            let told = next_leaders(cache, nodes, slot_ms_estimate, limit, latest_slot, now);
            &&& told is Ok <==> cache.start_slot is Some && cache.offset_of(
                first_row_slot(cache.start_slot->0, latest_slot),
            ) is Some
            &&& told is Ok && limit > 0 ==> told->Ok_0.leaders.len() > 0
        }),
{
}

/// A client that wants fewer rows is told the first of the rows that one is told that
/// wants more, and is told none for the same reason.
pub proof fn fewer_rows_are_the_first_ones(
    cache: LeaderCache,
    nodes: NodesCache,
    slot_ms_estimate: u64,
    fewer: usize,
    more: usize,
    latest_slot: Option<u64>,
    now: u64,
)
    requires
        fewer <= more,
    ensures
        ({
            let first = next_leaders(cache, nodes, slot_ms_estimate, fewer, latest_slot, now);
            let all = next_leaders(cache, nodes, slot_ms_estimate, more, latest_slot, now);
            match all {
                Ok(told) => first is Ok && first->Ok_0.leaders.is_prefix_of(told.leaders),
                Err(message) => first == Err::<NextLeadersView, _>(message),
            }
        }),
{
    let first = next_leaders(cache, nodes, slot_ms_estimate, fewer, latest_slot, now);
    let all = next_leaders(cache, nodes, slot_ms_estimate, more, latest_slot, now);
    if all is Ok {
        let rows = first->Ok_0.leaders;
        assert(rows =~= all->Ok_0.leaders.take(rows.len() as int));
    }
}

/// Whether an answer that was handed out before is handed out again: it is recent,
/// and begins with the current slot, if that is known.
pub open spec fn fresh(
    entry: CachedPayload<NextLeadersPayload>,
    latest_slot: Option<u64>,
    now: u64,
) -> bool {
    &&& age(now, entry.ts_ms) < API_CACHE_TTL_MS
    &&& latest_slot is None || latest_slot == Some(entry.payload.current_slot)
}

/// Whether the answers are the same but for one, which is new.
pub open spec fn one_answer_added(
    before: Map<usize, CachedPayload<NextLeadersPayload>>,
    after: Map<usize, CachedPayload<NextLeadersPayload>>,
    limit: usize,
    payload: NextLeadersView,
    now: u64,
) -> bool {
    &&& after.contains_key(limit)
    &&& after == before.insert(limit, after[limit])
    &&& after[limit].ts_ms == now
    &&& after[limit].payload@ == payload
}

impl AppState {
    /// Whether an answer is at hand for a client that wants this many leaders.
    pub open spec fn answer_at_hand(&self, limit: usize, now: u64) -> bool {
        self.next_leaders_cache@.contains_key(limit) && fresh(
            self.next_leaders_cache@[limit],
            self.slot_hint(),
            now,
        )
    }

    /// Whether an answer is at hand for a client that wants this many leaders.
    pub fn has_fresh_answer(&self, limit: usize, now: u64) -> (found: bool)
        ensures
            found == self.answer_at_hand(limit, now),
    {
        let latest_slot: Option<u64> = self.latest_slot_hint();
        match self.next_leaders_cache.get(&limit) {
            Some(entry) => {
                let current: bool = match latest_slot {
                    Some(slot) => slot == entry.payload.current_slot,
                    None => true,
                };
                now.saturating_sub(entry.ts_ms) < API_CACHE_TTL_MS && current
            },
            None => false,
        }
    }

    /// What a client that asks for the next leaders is told at the time `now`: the
    /// answer that is at hand, or else a new one, which is kept; where there is no
    /// new one, the last one for this limit, or else why there is none.
    pub fn next_leaders_handler(&mut self, limit_param: Option<&str>, now: u64) -> (result: Result<
        NextLeadersPayload,
        String,
    >)
        requires
            old(self).answer_at_hand(clamped_limit(opt_str(limit_param)), now) || rows_fit(
                old(self).leader_cache,
                clamped_limit(opt_str(limit_param)),
                old(self).slot_hint(),
            ),
        ensures
            ({
                let limit = clamped_limit(opt_str(limit_param));
                let answers = old(self).next_leaders_cache@;
                if old(self).answer_at_hand(limit, now) {
                    &&& *final(self) == *old(self)
                    &&& result is Ok
                    &&& result->Ok_0@ == answers[limit].payload@
                } else {
                    match old(self).leaders_told(limit, old(self).slot_hint(), now) {
                        Ok(payload) => {
                            &&& *final(self) == (AppState {
                                next_leaders_cache: final(self).next_leaders_cache,
                                ..*old(self)
                            })
                            &&& one_answer_added(
                                answers,
                                final(self).next_leaders_cache@,
                                limit,
                                payload,
                                now,
                            )
                            &&& result is Ok
                            &&& result->Ok_0@ == payload
                        },
                        Err(message) => {
                            &&& *final(self) == *old(self)
                            &&& if answers.contains_key(limit) {
                                result is Ok && result->Ok_0@ == answers[limit].payload@
                            } else {
                                result is Err && result->Err_0@ == message
                            }
                        },
                    }
                }
            }),
            old(self).wf() ==> final(self).wf(),
    {
        let limit: usize = clamp_limit(limit_param);
        let latest_slot: Option<u64> = self.latest_slot_hint();
        if self.has_fresh_answer(limit, now) {
            if let Some(entry) = self.next_leaders_cache.get(&limit) {
                return Ok(entry.payload.clone());
            }
        }
        match self.build_next_leaders_payload(limit, latest_slot, now) {
            Ok(payload) => {
                self.next_leaders_cache.insert(
                    limit,
                    CachedPayload { ts_ms: now, payload: payload.clone() },
                );
                Ok(payload)
            },
            Err(message) => match self.next_leaders_cache.get(&limit) {
                Some(entry) => Ok(entry.payload.clone()),
                None => Err(message),
            },
        }
    }

    /// What a client that asks for the current slot is told at the time `now`: the
    /// slot, where it is known; or else what was last taken note of.
    pub fn current_slot_handler(&self, now: u64) -> (result: Result<CurrentSlotPayload, String>)
        ensures
            match self.slot_hint() {
                Some(slot) => result == Ok::<_, String>(
                    CurrentSlotPayload { current_slot: slot, ts: now },
                ),
                None => match self.current_slot_cache {
                    Some(entry) => result == Ok::<_, String>(entry.payload),
                    None => result is Err && result->Err_0@
                        == "slot cache warming; try again shortly"@,
                },
            },
    {
        if let Some(slot) = self.latest_slot_hint() {
            return Ok(CurrentSlotPayload { current_slot: slot, ts: now });
        }
        if let Some(entry) = &self.current_slot_cache {
            return Ok(entry.payload);
        }
        Err("slot cache warming; try again shortly".to_owned())
    }

    /// The leaders that the page is to be delivered with, where they are known.
    pub fn refresh_initial_payload(&self, now: u64) -> (payload: Option<NextLeadersPayload>)
        requires
            rows_fit(self.leader_cache, INITIAL_PAYLOAD_LIMIT, self.slot_hint()),
        ensures
            match payload {
                Some(payload) => self.leaders_told(INITIAL_PAYLOAD_LIMIT, self.slot_hint(), now)
                    == Ok::<_, Seq<char>>(payload@),
                None => self.leaders_told(INITIAL_PAYLOAD_LIMIT, self.slot_hint(), now) is Err,
            },
    {
        let latest_slot: Option<u64> = self.latest_slot_hint();
        match self.build_next_leaders_payload(INITIAL_PAYLOAD_LIMIT, latest_slot, now) {
            Ok(payload) => Some(payload),
            Err(_) => None,
        }
    }

    /// Takes in the payload that the page is delivered with and, where it could be
    /// written as JSON, its text. Without a text nothing changes.
    pub fn install_initial_payload(
        &mut self,
        payload: NextLeadersPayload,
        json: Option<String>,
        now: u64,
    )
        ensures
            match json {
                Some(json) => {
                    &&& *final(self) == (AppState {
                        initial_html: final(self).initial_html,
                        next_leaders_cache: final(self).next_leaders_cache,
                        ..*old(self)
                    })
                    &&& final(self).initial_html@ == index_page(
                        old(self).leader_stream_url@,
                        old(self).cache_bust@,
                        Some(html_safe(json@)),
                    )
                    &&& final(self).next_leaders_cache@ == old(self).next_leaders_cache@.insert(
                        INITIAL_PAYLOAD_LIMIT,
                        CachedPayload { ts_ms: now, payload },
                    )
                },
                None => *final(self) == *old(self),
            },
            old(self).wf() ==> final(self).wf(),
    {
        if let Some(text) = serialize_payload_for_html(json) {
            self.initial_html = render_index(
                self.leader_stream_url.as_str(),
                self.cache_bust.as_str(),
                Some(text.as_str()),
            );
            self.next_leaders_cache.insert(
                INITIAL_PAYLOAD_LIMIT,
                CachedPayload { ts_ms: now, payload },
            );
        }
    }
}

/// A client that asks again within the time for which answers are kept, while the
/// slot that its answer begins with is current or none is known to be, gets the
/// same answer.
pub proof fn asking_again_gives_the_same_answer(
    before: AppState,
    after: AppState,
    limit: usize,
    payload: NextLeadersView,
    now: u64,
    later: u64,
)
    requires
        one_answer_added(
            before.next_leaders_cache@,
            after.next_leaders_cache@,
            limit,
            payload,
            now,
        ),
        now <= later < now + API_CACHE_TTL_MS,
        after.slot_hint() is None || after.slot_hint() == Some(payload.current_slot),
    ensures
        after.answer_at_hand(limit, later),
        after.next_leaders_cache@[limit].payload@ == payload,
{
}

/// JSON text as it can stand in a script of a page: no `</` ends the script.
pub open spec fn html_safe(json: Seq<char>) -> Seq<char> {
    replaced(json, "</"@, "<\\/"@)
}

/// JSON text as it can stand in a script of a page, where there is any.
pub fn serialize_payload_for_html(json: Option<String>) -> (text: Option<String>)
    ensures
        match json {
            Some(json) => text is Some && text->0@ == html_safe(json@),
            None => text is None,
        },
{
    proof {
        reveal_strlit("</");
    }
    match json {
        Some(json) => Some(replace_text(json.as_str(), "</", "<\\/")),
        None => None,
    }
}

proof fn lemma_safe(json: Seq<char>)
    ensures
        html_safe(json).len() > 0 && html_safe(json).first() == '/' ==> json.len() > 0
            && json.first() == '/',
        forall|at: int| !#[trigger] stands_at(html_safe(json), "</"@, at),
    decreases json.len(),
{
    reveal_strlit("</");
    reveal_strlit("<\\/");
    let from = "</"@;
    let to = "<\\/"@;
    let result = html_safe(json);
    if json.len() < from.len() {
        assert forall|at: int| !#[trigger] stands_at(result, from, at) by {
            if stands_at(result, from, at) {
                assert(result.skip(at).len() >= 2);
            }
        }
    } else if from.is_prefix_of(json) {
        let rest = html_safe(json.skip(2));
        lemma_safe(json.skip(2));
        assert(result == to + rest);
        assert forall|at: int| !#[trigger] stands_at(result, from, at) by {
            if stands_at(result, from, at) {
                let tail = result.skip(at);
                assert(from == tail.take(2));
                assert(tail[0] == tail.take(2)[0]);
                assert(tail[1] == tail.take(2)[1]);
                assert(tail[0] == result[at]);
                assert(tail[1] == result[at + 1]);
                if at >= 3 {
                    assert(rest.skip(at - 3) =~= tail);
                    assert(stands_at(rest, from, at - 3));
                }
            }
        }
    } else {
        let rest = html_safe(json.drop_first());
        lemma_safe(json.drop_first());
        assert(result == seq![json.first()] + rest);
        assert forall|at: int| !#[trigger] stands_at(result, from, at) by {
            if stands_at(result, from, at) {
                let tail = result.skip(at);
                assert(from == tail.take(2));
                assert(tail[0] == tail.take(2)[0]);
                assert(tail[1] == tail.take(2)[1]);
                assert(tail[0] == result[at]);
                assert(tail[1] == result[at + 1]);
                if at >= 1 {
                    assert(rest.skip(at - 1) =~= tail);
                    assert(stands_at(rest, from, at - 1));
                } else {
                    assert(rest.first() == '/');
                    assert(json[1] == '/');
                    assert(from =~= json.take(2));
                }
            }
        }
    }
}

/// Text made safe for a script ends no script.
pub proof fn safe_text_closes_no_tag(json: Seq<char>)
    ensures
        !holds_text(html_safe(json), "</"@),
{
    lemma_safe(json);
}

/// Text that ends no script is left as it is.
pub proof fn harmless_text_is_left_alone(json: Seq<char>)
    requires
        !holds_text(json, "</"@),
    ensures
        html_safe(json) == json,
    decreases json.len(),
{
    reveal_strlit("</");
    if json.len() >= 2 {
        assert(json.skip(0) =~= json);
        assert(!stands_at(json, "</"@, 0));
        assert forall|at: int| !#[trigger] stands_at(json.drop_first(), "</"@, at) by {
            if stands_at(json.drop_first(), "</"@, at) {
                assert(json.drop_first().skip(at) =~= json.skip(at + 1));
                assert(stands_at(json, "</"@, at + 1));
            }
        }
        harmless_text_is_left_alone(json.drop_first());
        assert(html_safe(json) =~= json);
    }
}

proof fn lemma_shift(text: Seq<char>, part: Seq<char>, by: int)
    requires
        0 <= by <= text.len(),
        !holds_text(text, part),
    ensures
        !holds_text(text.skip(by), part),
{
    assert forall|at: int| !#[trigger] stands_at(text.skip(by), part, at) by {
        if stands_at(text.skip(by), part, at) {
            assert(text.skip(by).skip(at) =~= text.skip(at + by));
            assert(stands_at(text, part, at + by));
        }
    }
}

/// What making text safe for a script did can be undone, where the text did not
/// hold the escaped form already.
pub proof fn safe_text_reads_back(json: Seq<char>)
    requires
        !holds_text(json, "<\\/"@),
    ensures
        replaced(html_safe(json), "<\\/"@, "</"@) == json,
    decreases json.len(),
{
    reveal_strlit("</");
    reveal_strlit("<\\/");
    let from = "</"@;
    let to = "<\\/"@;
    let safe = html_safe(json);
    if json.len() >= 2 {
        if from.is_prefix_of(json) {
            let rest = html_safe(json.skip(2));
            lemma_shift(json, to, 2);
            safe_text_reads_back(json.skip(2));
            assert(safe == to + rest);
            assert(safe.take(3) =~= to);
            assert(safe.skip(3) =~= rest);
            assert(from =~= json.take(2));
            assert(replaced(safe, to, from) =~= json);
        } else {
            let rest = html_safe(json.drop_first());
            assert(json.skip(1) =~= json.drop_first());
            lemma_shift(json, to, 1);
            safe_text_reads_back(json.drop_first());
            assert(safe == seq![json.first()] + rest);
            assert(safe.drop_first() =~= rest);
            if to.is_prefix_of(safe) {
                assert(to == safe.take(3));
                assert(safe[0] == safe.take(3)[0]);
                assert(safe[1] == safe.take(3)[1]);
                assert(safe[2] == safe.take(3)[2]);
                let next = json.drop_first();
                assert(rest[0] == '\\' && rest[1] == '/');
                assert(!from.is_prefix_of(next));
                let last = html_safe(next.drop_first());
                assert(rest == if next.len() < 2 {
                    next
                } else {
                    seq![next.first()] + last
                });
                lemma_safe(next.drop_first());
                assert(last.first() == '/');
                assert(json[1] == '\\' && json[2] == '/');
                assert(json.skip(0) =~= json);
                assert(to =~= json.take(3));
                assert(stands_at(json, to, 0));
            }
            assert(replaced(safe, to, from) =~= json);
        }
    }
}

} // verus!
