//! The answers of the service as status, headers and body.
use vstd::prelude::*;
use vstd::string::*;

use crate::state::AppState;
use crate::template::{map_page, render_map};
use crate::text::pairs;

verus! {

/// An answer. The headers stand beside those that the kind of body brings.
pub struct HttpResponse {
    pub status: u16,
    pub headers: Vec<(String, String)>,
    pub body: String,
}

/// The model of [`HttpResponse`].
#[verifier::ext_equal]
pub struct HttpResponseView {
    pub status: u16,
    pub headers: Seq<(Seq<char>, Seq<char>)>,
    pub body: Seq<char>,
}

impl View for HttpResponse {
    type V = HttpResponseView;

    open spec fn view(&self) -> HttpResponseView {
        HttpResponseView {
            status: self.status,
            headers: pairs(self.headers@),
            body: self.body@,
        }
    }
}

/// The header that keeps browsers to encrypted connections.
pub const STRICT_TRANSPORT_SECURITY: &'static str = "max-age=31536000; includeSubDomains; preload";

/// The headers that let every page call the service.
pub open spec fn cors() -> Seq<(Seq<char>, Seq<char>)> {
    seq![
        ("Access-Control-Allow-Origin"@, "*"@),
        ("Access-Control-Allow-Methods"@, "GET, OPTIONS"@),
        ("Access-Control-Allow-Headers"@, "Content-Type"@),
    ]
}

/// The headers of a stream of events.
pub open spec fn stream_headers() -> Seq<(Seq<char>, Seq<char>)> {
    cors() + seq![
        ("Cache-Control"@, "no-cache, no-transform"@),
        ("Connection"@, "keep-alive"@),
        ("X-Accel-Buffering"@, "no"@),
    ]
}

fn add_header(headers: &mut Vec<(String, String)>, name: &str, value: &str)
    ensures
        pairs(final(headers)@) == pairs(old(headers)@).push((name@, value@)),
{
    headers.push((name.to_owned(), value.to_owned()));
    assert(pairs(headers@) =~= pairs(old(headers)@).push((name@, value@)));
}

/// The headers that let every page call the service.
pub fn cors_headers() -> (headers: Vec<(String, String)>)
    ensures
        pairs(headers@) == cors(),
{
    let mut headers: Vec<(String, String)> = Vec::new();
    assert(pairs(headers@) =~= seq![]);
    add_header(&mut headers, "Access-Control-Allow-Origin", "*");
    add_header(&mut headers, "Access-Control-Allow-Methods", "GET, OPTIONS");
    add_header(&mut headers, "Access-Control-Allow-Headers", "Content-Type");
    assert(pairs(headers@) =~= cors());
    headers
}

/// The headers of a stream of events.
pub fn apply_stream_headers() -> (headers: Vec<(String, String)>)
    ensures
        pairs(headers@) == stream_headers(),
{
    let mut headers: Vec<(String, String)> = cors_headers();
    add_header(&mut headers, "Cache-Control", "no-cache, no-transform");
    add_header(&mut headers, "Connection", "keep-alive");
    add_header(&mut headers, "X-Accel-Buffering", "no");
    assert(pairs(headers@) =~= stream_headers());
    headers
}

/// The answer to a request that failed.
pub open spec fn failure(message: Seq<char>) -> HttpResponseView {
    HttpResponseView { status: 500, headers: cors(), body: message }
}

/// The answer that carries JSON.
pub open spec fn json_answer(body: Seq<char>) -> HttpResponseView {
    HttpResponseView {
        status: 200,
        headers: cors() + seq![
            ("Content-Type"@, "application/json"@),
            (
                "Cache-Control"@,
                "public, s-maxage=1, stale-while-revalidate=1, stale-if-error=30"@,
            ),
        ],
        body,
    }
}

/// The answer that carries a page.
pub open spec fn page_answer(page: Seq<char>) -> HttpResponseView {
    HttpResponseView {
        status: 200,
        headers: seq![("Content-Type"@, "text/html; charset=utf-8"@)],
        body: page,
    }
}

/// The answer to a request that failed.
pub fn error_response(message: String) -> (response: HttpResponse)
    ensures
        response@ == failure(message@),
{
    HttpResponse { status: 500, headers: cors_headers(), body: message }
}

/// The answer that carries what was written as JSON, or tells why it could not be.
pub fn json_response(serialized: Result<String, String>) -> (response: HttpResponse)
    ensures
        match serialized {
            Ok(body) => response@ == json_answer(body@),
            Err(message) => response@ == failure(message@),
        },
{
    match serialized {
        Ok(body) => {
            let mut headers: Vec<(String, String)> = cors_headers();
            add_header(&mut headers, "Content-Type", "application/json");
            add_header(
                &mut headers,
                "Cache-Control",
                "public, s-maxage=1, stale-while-revalidate=1, stale-if-error=30",
            );
            assert(pairs(headers@) =~= json_answer(body@).headers);
            HttpResponse { status: 200, headers, body }
        },
        Err(message) => error_response(message),
    }
}

/// The answer to whether the service is up.
pub fn health_handler() -> (response: HttpResponse)
    ensures
        response@ == (HttpResponseView { status: 200, headers: seq![], body: "ok"@ }),
{
    let headers: Vec<(String, String)> = Vec::new();
    assert(pairs(headers@) =~= seq![]);
    HttpResponse { status: 200, headers, body: "ok".to_owned() }
}

/// The answer to what a page may do.
pub fn options_handler() -> (response: HttpResponse)
    ensures
        response@ == (HttpResponseView { status: 204, headers: cors(), body: seq![] }),
{
    let body: String = String::new();
    assert(body@ =~= seq![]);
    HttpResponse { status: 204, headers: cors_headers(), body }
}

fn page_response(page: &String) -> (response: HttpResponse)
    ensures
        response@ == page_answer(page@),
{
    let mut headers: Vec<(String, String)> = Vec::new();
    assert(pairs(headers@) =~= seq![]);
    add_header(&mut headers, "Content-Type", "text/html; charset=utf-8");
    assert(pairs(headers@) =~= page_answer(page@).headers);
    HttpResponse { status: 200, headers, body: page.clone() }
}

impl AppState {
    /// The page, with the leaders it was last refreshed with.
    pub fn index_handler(&self) -> (response: HttpResponse)
        ensures
            response@ == page_answer(self.initial_html@),
    {
        page_response(&self.initial_html)
    }

    /// The documentation.
    pub fn docs_handler(&self) -> (response: HttpResponse)
        ensures
            response@ == page_answer(self.docs_html@),
    {
        page_response(&self.docs_html)
    }

    /// The page with the map.
    pub fn map_handler(&self) -> (response: HttpResponse)
        ensures
            response@ == page_answer(map_page(self.cache_bust@, self.leader_stream_url@)),
    {
        page_response(&render_map(self.cache_bust.as_str(), self.leader_stream_url.as_str()))
    }
}

} // verus!
