//! URLs, as the `url` crate reads them.
use vstd::prelude::*;

use crate::text::opt_text;

verus! {

/// What a parsed URL says: its parts as plain values.
pub struct UrlParts {
    pub scheme: String,
    pub host: Option<String>,
    pub port: Option<u16>,
    pub text: String,
}

/// The model of [`UrlParts`].
pub struct UrlView {
    pub scheme: Seq<char>,
    pub host: Option<Seq<char>>,
    pub port: Option<u16>,
    pub text: Seq<char>,
}

impl View for UrlParts {
    type V = UrlView;

    open spec fn view(&self) -> UrlView {
        UrlView {
            scheme: self.scheme@,
            host: opt_text(self.host),
            port: self.port,
            text: self.text@,
        }
    }
}

/// The model of optional parts.
pub open spec fn opt_parts(parts: Option<UrlParts>) -> Option<UrlView> {
    match parts {
        Some(parts) => Some(parts@),
        None => None,
    }
}

/// What `url::Url::parse` reads in a text: the scheme, host, explicit port and
/// serialization of the URL, or nothing where the text is no absolute URL.
pub uninterp spec fn url_of(text: Seq<char>) -> Option<UrlView>;

/// Whether a text, where it is read as a URL at all, is read as one with this scheme
/// that is written as the text itself.
pub open spec fn reads_back(text: Seq<char>, scheme: Seq<char>) -> bool {
    url_of(text) matches Some(url) ==> url.scheme == scheme && url.text == text
}

/// Calls `url::Url::parse` and reads the result's `scheme`, `host_str`, `port` and
/// serialization. Trusted: these depend on the text alone; the serialization begins
/// with the scheme and a colon; a port comes with a host; and the serialization of a
/// websocket's URL, where it is read again, gives that scheme and itself. That it can
/// be read again is not stated: a host name may be refused for the length that its
/// labels get in ASCII.
#[verifier::external_body]
pub(crate) fn parse_url(text: &str) -> (parts: Option<UrlParts>)
    ensures
        opt_parts(parts) == url_of(text@),
        parts matches Some(p) ==> p.scheme@.push(':').is_prefix_of(p.text@),
        parts matches Some(p) ==> (p.port is Some ==> p.host is Some),
        parts matches Some(p) ==> (p.scheme@ == "ws"@ || p.scheme@ == "wss"@ ==> reads_back(
            p.text@,
            p.scheme@,
        )),
{
    match url::Url::parse(text) {
        Ok(url) => Some(UrlParts {
            scheme: url.scheme().to_string(),
            host: url.host_str().map(|host| host.to_string()),
            port: url.port(),
            text: url.to_string(),
        }),
        Err(_) => None,
    }
}

/// Whether a URL of the one scheme may be given the other one: the two schemes
/// have the same default port.
pub open spec fn plain_to_socket(from: Seq<char>, to: Seq<char>) -> bool {
    (from == "http"@ && to == "ws"@) || (from == "https"@ && to == "wss"@)
}

/// Calls `url::Url::parse` and `url::Url::set_scheme`, and hands the serialization
/// back. Trusted: the new scheme stands where the old one stood, the rest of the
/// serialization stays, and the result, where it is read again, gives the new scheme
/// and itself.
#[verifier::external_body]
pub(crate) fn with_scheme(text: &str, scheme: &str) -> (result: Option<String>)
    requires
        url_of(text@) is Some,
        plain_to_socket(url_of(text@)->0.scheme, scheme@),
    ensures
        opt_text(result) == Some(
            scheme@ + url_of(text@)->0.text.skip(url_of(text@)->0.scheme.len() as int),
        ),
        result matches Some(r) ==> reads_back(r@, scheme@),
{
    match url::Url::parse(text) {
        Ok(mut url) => {
            let _ = url.set_scheme(scheme);
            Some(url.to_string())
        },
        Err(_) => None,
    }
}

} // verus!
