//! What the log tells of a request.
use vstd::prelude::*;
use vstd::string::*;

use crate::text::{chars_of, find_first, first_at, trim, trimmed};

verus! {

/// The address that a list of forwarding addresses begins with.
pub open spec fn first_forwarded(list: Seq<char>) -> Seq<char> {
    trimmed(list.take(first_at(list, ',')))
}

/// The address that a request came from: the first one that it was forwarded for,
/// unless that is blank; or else the other side's; or else a dash.
pub open spec fn request_origin(
    forwarded_for: Option<Seq<char>>,
    peer: Option<Seq<char>>,
) -> Seq<char> {
    if forwarded_for is Some && first_forwarded(forwarded_for->0).len() > 0 {
        first_forwarded(forwarded_for->0)
    } else {
        match peer {
            Some(peer) => peer,
            None => "-"@,
        }
    }
}

/// The address that a request came from.
pub fn remote_ip(forwarded_for: Option<&str>, peer: Option<String>) -> (ip: String)
    ensures
        ip@ == request_origin(
            match forwarded_for {
                Some(list) => Some(list@),
                None => None,
            },
            match peer {
                Some(peer) => Some(peer@),
                None => None,
            },
        ),
{
    if let Some(list) = forwarded_for {
        let chars = chars_of(list);
        let comma: usize = find_first(&chars, ',');
        let first: String = trim(list.substring_char(0, comma));
        assert(list@.subrange(0, comma as int) =~= list@.take(comma as int));
        if !first.as_str().is_empty() {
            return first;
        }
    }
    match peer {
        Some(peer) => peer,
        None => "-".to_owned(),
    }
}

/// The part of a request's address that is told: with the query where there is one.
pub fn request_uri(path_and_query: Option<&str>, path: &str) -> (uri: String)
    ensures
        uri@ == match path_and_query {
            Some(text) => text@,
            None => path@,
        },
{
    match path_and_query {
        Some(text) => text.to_owned(),
        None => path.to_owned(),
    }
}

} // verus!
