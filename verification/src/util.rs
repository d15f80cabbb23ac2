//! Addresses of validators and the clock.
use vstd::prelude::*;
use vstd::string::*;

use crate::number::{decimal, decimal_text};
use crate::text::{
    chars_of, contains_text, find_first, find_last, first_at, holds_text, last_at, lemma_first_at,
    lemma_first_at_bounds, lemma_last_at, opt_text, trim, trimmed,
};
use crate::web_url::{opt_parts, parse_url, url_of, UrlParts, UrlView};

verus! {

/// Where a validator takes transactions.
pub struct TpuAddress {
    pub ip: Option<String>,
    pub port: Option<String>,
}

/// The model of [`TpuAddress`].
pub struct TpuAddressView {
    pub ip: Option<Seq<char>>,
    pub port: Option<Seq<char>>,
}

impl View for TpuAddress {
    type V = TpuAddressView;

    open spec fn view(&self) -> TpuAddressView {
        TpuAddressView { ip: opt_text(self.ip), port: opt_text(self.port) }
    }
}

/// The address that a trimmed text gives, where `parsed` is the URL it was read
/// as, if it was read as one: the URL's host and port; or what stands in the
/// brackets it opens with, and after the colon that follows them; or what stands
/// before and after its last colon; or the whole text.
pub open spec fn address_in(value: Seq<char>, parsed: Option<UrlView>) -> TpuAddressView {
    let close = first_at(value, ']');
    let colon = last_at(value, ':');
    if value.len() == 0 {
        TpuAddressView { ip: None, port: None }
    } else if parsed is Some {
        TpuAddressView {
            ip: parsed->0.host,
            port: match parsed->0.port {
                Some(port) => Some(decimal(port as nat)),
                None => None,
            },
        }
    } else if value.first() == '[' && close < value.len() {
        TpuAddressView {
            ip: Some(value.subrange(1, close)),
            port: if close + 2 < value.len() && value[close + 1] == ':' {
                Some(value.skip(close + 2))
            } else {
                None
            },
        }
    } else if 0 < colon < value.len() - 1 {
        TpuAddressView { ip: Some(value.take(colon)), port: Some(value.skip(colon + 1)) }
    } else {
        TpuAddressView { ip: Some(value), port: None }
    }
}

/// The URL that a trimmed address is read as: only where it holds `://`.
pub open spec fn address_url(value: Seq<char>) -> Option<UrlView> {
    if holds_text(value, "://"@) {
        url_of(value)
    } else {
        None
    }
}

/// The address that an optional text gives.
pub open spec fn tpu_address(tpu: Option<Seq<char>>) -> TpuAddressView {
    match tpu {
        Some(text) => address_in(trimmed(text), address_url(trimmed(text))),
        None => TpuAddressView { ip: None, port: None },
    }
}

/// Whether a port is something, and comes with a host.
pub open spec fn port_has_host(address: TpuAddressView) -> bool {
    address.port matches Some(port) ==> port.len() > 0 && address.ip is Some
}

/// A port that is read is something and comes with a host, if it does so in what a
/// text is read as; a text that is not read as a URL has a host, unless it is empty.
pub proof fn port_comes_with_a_host(value: Seq<char>, parsed: Option<UrlView>)
    requires
        parsed matches Some(url) ==> (url.port is Some ==> url.host is Some),
    ensures
        port_has_host(address_in(value, parsed)),
        parsed is None && value.len() > 0 ==> address_in(value, parsed).ip is Some,
        value.len() == 0 ==> address_in(value, parsed).ip is None && address_in(
            value,
            parsed,
        ).port is None,
{
    lemma_first_at_bounds(value, ']');
    if parsed is Some && parsed->0.port is Some {
        assert(decimal(parsed->0.port->0 as nat).len() > 0);
    }
}

/// The address in a trimmed text that was read as the URL `parsed`, or as none.
pub fn address_from(value: &str, parsed: Option<UrlParts>) -> (address: TpuAddress)
    ensures
        address@ == address_in(value@, opt_parts(parsed)),
{
    let chars = chars_of(value);
    if chars.len() == 0 {
        return TpuAddress { ip: None, port: None };
    }
    if let Some(url) = parsed {
        let port: Option<String> = match url.port {
            Some(port) => Some(decimal_text(port as u64)),
            None => None,
        };
        return TpuAddress { ip: url.host, port };
    }
    let len: usize = chars.len();
    let close: usize = find_first(&chars, ']');
    if chars[0] == '[' && close < len {
        let ip: String = value.substring_char(1, close).to_owned();
        let port: Option<String> = if len - close > 2 && chars[close + 1] == ':' {
            assert(value@.subrange(close + 2, len as int) =~= value@.skip(close + 2));
            Some(value.substring_char(close + 2, len).to_owned())
        } else {
            None
        };
        return TpuAddress { ip: Some(ip), port };
    }
    if let Some(colon) = find_last(&chars, ':') {
        if colon > 0 && colon < len - 1 {
            assert(value@.subrange(0, colon as int) =~= value@.take(colon as int));
            assert(value@.subrange(colon + 1, len as int) =~= value@.skip(colon + 1));
            return TpuAddress {
                ip: Some(value.substring_char(0, colon).to_owned()),
                port: Some(value.substring_char(colon + 1, len).to_owned()),
            };
        }
    }
    TpuAddress { ip: Some(value.to_owned()), port: None }
}

/// The address that a validator announces, split into host and port. A port is never
/// empty and comes with a host; a text that is not blank and holds no `://` has a host.
pub fn parse_tpu_address(tpu: Option<&str>) -> (address: TpuAddress)
    ensures
        address@ == tpu_address(
            match tpu {
                Some(text) => Some(text@),
                None => None,
            },
        ),
        port_has_host(address@),
        tpu is None || trimmed(tpu->0@).len() == 0 ==> address@.ip is None && address@.port is None,
        tpu is Some && trimmed(tpu->0@).len() > 0 && !holds_text(trimmed(tpu->0@), "://"@)
            ==> address@.ip is Some,
{
    match tpu {
        Some(text) => {
            let value: String = trim(text);
            let parsed: Option<UrlParts> = if contains_text(value.as_str(), "://") {
                parse_url(value.as_str())
            } else {
                None
            };
            proof {
                port_comes_with_a_host(value@, opt_parts(parsed));
            }
            address_from(value.as_str(), parsed)
        },
        None => TpuAddress { ip: None, port: None },
    }
}

/// [`parse_tpu_address`] on an optional string.
pub fn parse_opt_tpu(tpu: &Option<String>) -> (address: TpuAddress)
    ensures
        address@ == tpu_address(opt_text(*tpu)),
        port_has_host(address@),
{
    match tpu {
        Some(text) => parse_tpu_address(Some(text.as_str())),
        None => parse_tpu_address(None),
    }
}

/// The clock's reading as a time stamp: the milliseconds since the epoch, to 64
/// bits, or zero where the clock stands before the epoch.
pub fn now_ms(since_epoch: Option<u128>) -> (now: u64)
    ensures
        now == match since_epoch {
            Some(millis) => millis as int % 0x1_0000_0000_0000_0000,
            None => 0,
        },
{
    match since_epoch {
        Some(millis) => {
            let low: u128 = millis % 0x1_0000_0000_0000_0000u128;
            low as u64
        },
        None => 0,
    }
}

/// White space around an address does not matter.
pub proof fn space_around_an_address_is_ignored(text: Seq<char>)
    ensures
        tpu_address(Some(text)) == tpu_address(Some(trimmed(text))),
{
    crate::text::trimming_twice_is_trimming_once(text);
}

/// A host and a port with a colon between them are read apart again.
pub proof fn host_and_port_are_read_apart(host: Seq<char>, port: Seq<char>)
    requires
        host.len() > 0,
        host.first() != '[',
        port.len() > 0,
        !port.contains(':'),
        trimmed(host.push(':') + port) == host.push(':') + port,
        address_url(host.push(':') + port) is None,
    ensures
        tpu_address(Some(host.push(':') + port)) == (TpuAddressView {
            ip: Some(host),
            port: Some(port),
        }),
{
    let text = host.push(':') + port;
    assert forall|k: int| host.len() < k < text.len() implies text[k] != ':' by {
        assert(text[k] == port[k - host.len() - 1]);
    }
    lemma_last_at(text, ':', host.len() as int);
    assert(text.first() == host.first());
    assert(text.take(host.len() as int) =~= host);
    assert(text.skip(host.len() as int + 1) =~= port);
}

/// An address in brackets and a port after it are read apart again.
pub proof fn bracketed_host_and_port_are_read_apart(ip: Seq<char>, port: Seq<char>)
    requires
        !ip.contains(']'),
        port.len() > 0,
        trimmed(seq!['['] + ip + seq![']', ':'] + port) == seq!['['] + ip + seq![']', ':'] + port,
        address_url(seq!['['] + ip + seq![']', ':'] + port) is None,
    ensures
        tpu_address(Some(seq!['['] + ip + seq![']', ':'] + port)) == (TpuAddressView {
            ip: Some(ip),
            port: Some(port),
        }),
{
    let text = seq!['['] + ip + seq![']', ':'] + port;
    let close = ip.len() as int + 1;
    assert forall|k: int| 0 <= k < close implies text[k] != ']' by {
        if k > 0 {
            assert(text[k] == ip[k - 1]);
        }
    }
    assert(text[close] == ']');
    lemma_first_at(text, ']', close);
    assert(text.first() == '[');
    assert(text.subrange(1, close) =~= ip);
    assert(text.skip(close + 2) =~= port);
}

} // verus!
