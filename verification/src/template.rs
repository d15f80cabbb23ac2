//! The pages of the service.
use vstd::prelude::*;
use vstd::string::*;

use crate::text::{replace_text, replaced};

verus! {

/// The page with the table of the next leaders.
pub const INDEX_TEMPLATE: &'static str = r#"<!doctype html>
<html lang="en">
  <head>
    <meta charset="utf-8">
    <meta name="viewport" content="width=device-width, initial-scale=1">
    <meta name="leader-stream-url" content="{{leader_stream_url}}">
    <title>Leader stream</title>
    <link rel="stylesheet" href="/styles.css?v={{cache_bust}}">
  </head>
  <body>
    <header>
      <h1>Next leaders</h1>
      <p id="status" data-tone="info"></p>
      <p id="meta"></p>
      <input id="leader-filter" type="search" placeholder="Leader prefix">
      <span id="filter-summary"></span>
      <a href="/docs">API</a>
      <button class="donate-link" type="button">Donate</button>
    </header>
    <main class="table-wrap">
      <table id="leaders-table">
        <thead><tr></tr></thead>
        <tbody><tr><td class="empty">Loading...</td></tr></tbody>
      </table>
    </main>
{{initial_script}}
    <script type="module">
      import init from "/leader_stream.js?v={{cache_bust}}";
      init("/leader_stream_bg.wasm?v={{cache_bust}}");
    </script>
  </body>
</html>
"#;

/// The page that documents the API.
pub const DOCS_TEMPLATE: &'static str = r#"<!doctype html>
<html lang="en">
  <head>
    <meta charset="utf-8">
    <title>Leader stream API</title>
    <link rel="stylesheet" href="/styles.css?v={{cache_bust}}">
  </head>
  <body>
    <h1>API</h1>
    <dl>
      <dt>GET /api/current-slot</dt>
      <dd>The current slot.</dd>
      <dt>GET /api/next-leaders?limit=N</dt>
      <dd>The leaders of the slots from the current one on.</dd>
      <dt>GET /api/leader-stream?track=VALIDATOR</dt>
      <dd>Server-sent events: one for each slot.</dd>
      <dt>GET /health</dt>
      <dd>Whether the service is up.</dd>
    </dl>
  </body>
</html>
"#;

/// The page with the map of the leaders.
pub const MAP_TEMPLATE: &'static str = r#"<!doctype html>
<html lang="en">
  <head>
    <meta charset="utf-8">
    <meta name="leader-stream-url" content="{{leader_stream_url}}">
    <title>Leader map</title>
    <link rel="stylesheet" href="/styles.css?v={{cache_bust}}">
  </head>
  <body>
    <main id="map"></main>
    <script type="module" src="/map.js?v={{cache_bust}}"></script>
  </body>
</html>
"#;

/// Stands in a page for the address of the stream.
pub const LEADER_STREAM_TOKEN: &'static str = "{{leader_stream_url}}";

/// Stands in a page for the script with the first payload.
pub const INITIAL_SCRIPT_TOKEN: &'static str = "{{initial_script}}";

/// Stands in a page for the number that tells builds apart.
pub const CACHE_BUST_TOKEN: &'static str = "{{cache_bust}}";

/// What the script with the first payload opens with.
pub const SCRIPT_OPEN: &'static str =
    r#"    <script id=\"initial-data\" type=\"application/json\">"#;

/// What the script with the first payload ends with.
pub const SCRIPT_CLOSE: &'static str = "</script>";

/// The script with the first payload; nothing where there is none.
pub open spec fn initial_script(payload: Option<Seq<char>>) -> Seq<char> {
    match payload {
        Some(payload) => SCRIPT_OPEN@ + payload + SCRIPT_CLOSE@,
        None => Seq::empty(),
    }
}

/// The page with the table: the tokens are filled in one after the other, so what
/// was filled in may hold a later token.
pub open spec fn index_page(
    leader_stream_url: Seq<char>,
    cache_bust: Seq<char>,
    payload: Option<Seq<char>>,
) -> Seq<char> {
    replaced(
        replaced(
            replaced(INDEX_TEMPLATE@, LEADER_STREAM_TOKEN@, leader_stream_url),
            CACHE_BUST_TOKEN@,
            cache_bust,
        ),
        INITIAL_SCRIPT_TOKEN@,
        initial_script(payload),
    )
}

/// The page that documents the API.
pub open spec fn docs_page(cache_bust: Seq<char>) -> Seq<char> {
    replaced(DOCS_TEMPLATE@, CACHE_BUST_TOKEN@, cache_bust)
}

/// The page with the map.
pub open spec fn map_page(cache_bust: Seq<char>, leader_stream_url: Seq<char>) -> Seq<char> {
    replaced(
        replaced(MAP_TEMPLATE@, CACHE_BUST_TOKEN@, cache_bust),
        LEADER_STREAM_TOKEN@,
        leader_stream_url,
    )
}

proof fn lemma_tokens()
    ensures
        LEADER_STREAM_TOKEN@.len() > 0,
        INITIAL_SCRIPT_TOKEN@.len() > 0,
        CACHE_BUST_TOKEN@.len() > 0,
{
    reveal_strlit("{{leader_stream_url}}");
    reveal_strlit("{{initial_script}}");
    reveal_strlit("{{cache_bust}}");
}

/// The page with the table of the next leaders.
pub fn render_index(
    leader_stream_url: &str,
    cache_bust: &str,
    initial_payload: Option<&str>,
) -> (page: String)
    ensures
        page@ == index_page(
            leader_stream_url@,
            cache_bust@,
            match initial_payload {
                Some(payload) => Some(payload@),
                None => None,
            },
        ),
{
    let mut script: String = String::new();
    if let Some(payload) = initial_payload {
        script.append(SCRIPT_OPEN);
        script.append(payload);
        script.append(SCRIPT_CLOSE);
        assert(script@ =~= SCRIPT_OPEN@ + payload@ + SCRIPT_CLOSE@);
    }
    proof {
        lemma_tokens();
    }
    let page: String = replace_text(INDEX_TEMPLATE, LEADER_STREAM_TOKEN, leader_stream_url);
    let page: String = replace_text(page.as_str(), CACHE_BUST_TOKEN, cache_bust);
    replace_text(page.as_str(), INITIAL_SCRIPT_TOKEN, script.as_str())
}

/// The page that documents the API.
pub fn render_docs(cache_bust: &str) -> (page: String)
    ensures
        page@ == docs_page(cache_bust@),
{
    proof {
        lemma_tokens();
    }
    replace_text(DOCS_TEMPLATE, CACHE_BUST_TOKEN, cache_bust)
}

/// The page with the map of the leaders.
pub fn render_map(cache_bust: &str, leader_stream_url: &str) -> (page: String)
    ensures
        page@ == map_page(cache_bust@, leader_stream_url@),
{
    proof {
        lemma_tokens();
    }
    let page: String = replace_text(MAP_TEMPLATE, CACHE_BUST_TOKEN, cache_bust);
    replace_text(page.as_str(), LEADER_STREAM_TOKEN, leader_stream_url)
}

} // verus!
