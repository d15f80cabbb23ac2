//! Laws on the answers of the service: what they carry, and what is kept of them.
use vstd::prelude::*;
use vstd::string::*;

use crate::responses::{
    cors, failure, json_answer, page_answer, stream_headers, HttpResponse,
};
use crate::rpc::EpochInfo;
use crate::state::AppState;
use crate::stream::schedule_kept;

verus! {

/// Whether a header stands among these, with this value.
pub open spec fn carries(
    headers: Seq<(Seq<char>, Seq<char>)>,
    name: Seq<char>,
    value: Seq<char>,
) -> bool {
    exists|i: int| 0 <= i < headers.len() && #[trigger] headers[i] == (name, value)
}

/// Whether the headers let every page call the service, from wherever it comes.
pub open spec fn open_to_all(headers: Seq<(Seq<char>, Seq<char>)>) -> bool {
    &&& carries(headers, "Access-Control-Allow-Origin"@, "*"@)
    &&& carries(headers, "Access-Control-Allow-Methods"@, "GET, OPTIONS"@)
    &&& carries(headers, "Access-Control-Allow-Headers"@, "Content-Type"@)
}

proof fn lemma_cors_opens(more: Seq<(Seq<char>, Seq<char>)>)
    ensures
        open_to_all(cors() + more),
        cors().len() == 3,
{
    let headers = cors() + more;
    assert(headers[0] == ("Access-Control-Allow-Origin"@, "*"@));
    assert(headers[1] == ("Access-Control-Allow-Methods"@, "GET, OPTIONS"@));
    assert(headers[2] == ("Access-Control-Allow-Headers"@, "Content-Type"@));
}

/// A failure is answered with the message, whatever it says, and JSON with the JSON;
/// every page may read either, and only the second may be kept for a while.
pub proof fn answers_carry_what_was_to_be_said(text: Seq<char>)
    ensures
        failure(text).status == 500,
        failure(text).body == text,
        open_to_all(failure(text).headers),
        failure(text).headers.len() == 3,
        json_answer(text).status == 200,
        json_answer(text).body == text,
        open_to_all(json_answer(text).headers),
        carries(json_answer(text).headers, "Content-Type"@, "application/json"@),
        carries(
            json_answer(text).headers,
            "Cache-Control"@,
            "public, s-maxage=1, stale-while-revalidate=1, stale-if-error=30"@,
        ),
        json_answer(text).headers.len() == 5,
{
    lemma_cors_opens(Seq::empty());
    assert(cors() + Seq::empty() =~= cors());
    let headers = json_answer(text).headers;
    lemma_cors_opens(headers.skip(3));
    assert(cors() + headers.skip(3) =~= headers);
    assert(headers[3] == ("Content-Type"@, "application/json"@));
    assert(headers[4] == (
        "Cache-Control"@,
        "public, s-maxage=1, stale-while-revalidate=1, stale-if-error=30"@,
    ));
}

/// A page is answered as it is, as HTML.
pub proof fn pages_are_answered_as_they_are(page: Seq<char>)
    ensures
        page_answer(page).status == 200,
        page_answer(page).body == page,
        page_answer(page).headers.len() == 1,
        carries(page_answer(page).headers, "Content-Type"@, "text/html; charset=utf-8"@),
{
    assert(page_answer(page).headers[0] == ("Content-Type"@, "text/html; charset=utf-8"@));
}

/// A stream is open to every page, and nothing on the way keeps it, changes it or holds
/// it back.
pub proof fn streams_are_passed_on()
    ensures
        open_to_all(stream_headers()),
        carries(stream_headers(), "Cache-Control"@, "no-cache, no-transform"@),
        carries(stream_headers(), "Connection"@, "keep-alive"@),
        carries(stream_headers(), "X-Accel-Buffering"@, "no"@),
        stream_headers().len() == 6,
{
    let headers = stream_headers();
    lemma_cors_opens(headers.skip(3));
    assert(cors() + headers.skip(3) =~= headers);
    assert(headers[3] == ("Cache-Control"@, "no-cache, no-transform"@));
    assert(headers[4] == ("Connection"@, "keep-alive"@));
    assert(headers[5] == ("X-Accel-Buffering"@, "no"@));
}

/// The model of an answer has its status, its headers one by one, and its body.
pub proof fn answers_are_told_as_they_are(answer: HttpResponse, i: int)
    ensures
        answer@.status == answer.status,
        answer@.body == answer.body@,
        answer@.headers.len() == answer.headers@.len(),
        0 <= i < answer.headers@.len() ==> answer@.headers[i].0 == answer.headers@[i].0@
            && answer@.headers[i].1 == answer.headers@[i].1@,
{
}

/// A schedule that is kept for a validator leaves those of all the others as they were,
/// and everything else of the service too.
pub proof fn other_schedules_stay(
    before: AppState,
    after: AppState,
    track: Seq<char>,
    other: Seq<char>,
    epoch: EpochInfo,
    indices: Option<Vec<u64>>,
)
    requires
        schedule_kept(before, after, track, epoch, indices),
    ensures
        after.track_cache@.contains_key(track),
        other != track ==> (after.track_cache@.contains_key(other)
            <==> before.track_cache@.contains_key(other)),
        other != track && before.track_cache@.contains_key(other) ==> after.track_cache@[other]
            == before.track_cache@[other],
        after.latest == before.latest,
        after.slot_informer == before.slot_informer,
        after.leader_cache == before.leader_cache,
        after.nodes_cache == before.nodes_cache,
        after.current_slot_cache == before.current_slot_cache,
        after.next_leaders_cache == before.next_leaders_cache,
        after.initial_html == before.initial_html,
        after.docs_html == before.docs_html,
        after.config == before.config,
        after.track_subscribers == before.track_subscribers,
        after.leader_lookahead == before.leader_lookahead,
        after.slot_ms_estimate == before.slot_ms_estimate,
{
}

} // verus!
