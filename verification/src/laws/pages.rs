//! Laws on the pages: where the values stand that are filled in.
use vstd::prelude::*;

use crate::template::{
    docs_page, index_page, map_page, CACHE_BUST_TOKEN, DOCS_TEMPLATE, INDEX_TEMPLATE,
    INITIAL_SCRIPT_TOKEN, LEADER_STREAM_TOKEN, MAP_TEMPLATE, SCRIPT_CLOSE, SCRIPT_OPEN,
};
use crate::text::replaced;

verus! {

/// A text in which something is made the same thing again is the text itself.
pub proof fn replacing_by_the_same_changes_nothing(text: Seq<char>, part: Seq<char>)
    ensures
        replaced(text, part, part) == text,
    decreases text.len(),
{
    if part.len() == 0 || text.len() < part.len() {
    } else if part.is_prefix_of(text) {
        let rest = text.skip(part.len() as int);
        replacing_by_the_same_changes_nothing(rest, part);
        assert(part + rest =~= text);
    } else {
        replacing_by_the_same_changes_nothing(text.drop_first(), part);
        assert(seq![text.first()] + text.drop_first() =~= text);
    }
}

/// The documentation is its template, with each token made the number of the build.
pub proof fn docs_are_filled_in(cache_bust: Seq<char>)
    ensures
        docs_page(CACHE_BUST_TOKEN@) == DOCS_TEMPLATE@,
        docs_page(cache_bust) == replaced(
            docs_page(CACHE_BUST_TOKEN@),
            CACHE_BUST_TOKEN@,
            cache_bust,
        ),
{
    replacing_by_the_same_changes_nothing(DOCS_TEMPLATE@, CACHE_BUST_TOKEN@);
}

/// Of the page with the map either value may be filled in later than the page is made,
/// the address of the stream as the last one.
pub proof fn map_is_filled_in(cache_bust: Seq<char>, leader_stream_url: Seq<char>)
    ensures
        map_page(CACHE_BUST_TOKEN@, LEADER_STREAM_TOKEN@) == MAP_TEMPLATE@,
        map_page(cache_bust, LEADER_STREAM_TOKEN@) == replaced(
            map_page(CACHE_BUST_TOKEN@, LEADER_STREAM_TOKEN@),
            CACHE_BUST_TOKEN@,
            cache_bust,
        ),
        map_page(cache_bust, leader_stream_url) == replaced(
            map_page(cache_bust, LEADER_STREAM_TOKEN@),
            LEADER_STREAM_TOKEN@,
            leader_stream_url,
        ),
{
    let page = replaced(MAP_TEMPLATE@, CACHE_BUST_TOKEN@, cache_bust);
    replacing_by_the_same_changes_nothing(MAP_TEMPLATE@, CACHE_BUST_TOKEN@);
    replacing_by_the_same_changes_nothing(MAP_TEMPLATE@, LEADER_STREAM_TOKEN@);
    replacing_by_the_same_changes_nothing(page, LEADER_STREAM_TOKEN@);
}

/// The page with the table is its template with the address of the stream and the number
/// of the build in it, and then either nothing or the payload, in a script, at the place
/// for that; so pages for different payloads differ only there.
pub proof fn index_is_filled_in(
    leader_stream_url: Seq<char>,
    cache_bust: Seq<char>,
    payload: Seq<char>,
)
    ensures
        index_page(leader_stream_url, CACHE_BUST_TOKEN@, None) == replaced(
            replaced(INDEX_TEMPLATE@, LEADER_STREAM_TOKEN@, leader_stream_url),
            INITIAL_SCRIPT_TOKEN@,
            Seq::empty(),
        ),
        index_page(LEADER_STREAM_TOKEN@, cache_bust, None) == replaced(
            replaced(INDEX_TEMPLATE@, CACHE_BUST_TOKEN@, cache_bust),
            INITIAL_SCRIPT_TOKEN@,
            Seq::empty(),
        ),
        exists|page: Seq<char>|
            index_page(leader_stream_url, cache_bust, None) == #[trigger] replaced(
                page,
                INITIAL_SCRIPT_TOKEN@,
                Seq::empty(),
            ) && index_page(leader_stream_url, cache_bust, Some(payload)) == replaced(
                page,
                INITIAL_SCRIPT_TOKEN@,
                SCRIPT_OPEN@ + payload + SCRIPT_CLOSE@,
            ),
{
    let with_url = replaced(INDEX_TEMPLATE@, LEADER_STREAM_TOKEN@, leader_stream_url);
    let page = replaced(with_url, CACHE_BUST_TOKEN@, cache_bust);
    replacing_by_the_same_changes_nothing(with_url, CACHE_BUST_TOKEN@);
    replacing_by_the_same_changes_nothing(INDEX_TEMPLATE@, LEADER_STREAM_TOKEN@);
    assert(index_page(leader_stream_url, cache_bust, None) == replaced(
        page,
        INITIAL_SCRIPT_TOKEN@,
        Seq::empty(),
    ));
}

} // verus!
