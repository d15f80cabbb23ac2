//! The configuration, from the variables of the environment.
use vstd::prelude::*;
use vstd::hash_map::StringHashMap;
use vstd::string::*;

use crate::constants::{
    DEFAULT_HEARTBEAT_MS, DEFAULT_LEADER_LOOKAHEAD, DEFAULT_NODE_CACHE_TTL_MS, DEFAULT_PORT,
    DEFAULT_REQUEST_TIMEOUT_MS, DEFAULT_RPC_URL, DEFAULT_STATIC_DIR, DEFAULT_STREAM_URL,
    DEFAULT_TRACK_LOOKAHEAD, DEFAULT_WS_PING_MS,
};
use crate::number::{decimal, decimal_text, parse_unsigned, read_unsigned};
use crate::text::{copy_opt, opt_text, same_text, trim, trimmed};
use crate::web_url::{parse_url, plain_to_socket, url_of, with_scheme, UrlView};

verus! {

/// The variables of the environment.
pub struct Environment {
    pub vars: StringHashMap<String>,
}

impl Environment {
    /// The value of a variable, where it is set.
    pub open spec fn value_of(&self, name: Seq<char>) -> Option<Seq<char>> {
        if self.vars@.contains_key(name) {
            Some(self.vars@[name]@)
        } else {
            None
        }
    }

    /// An environment without variables.
    pub fn new() -> (env: Self)
        ensures
            forall|name: Seq<char>| #[trigger] env.value_of(name) is None,
    {
        Environment { vars: StringHashMap::new() }
    }

    /// Sets a variable.
    pub fn set(&mut self, name: String, value: String)
        ensures
            forall|other: Seq<char>| #[trigger]
                final(self).value_of(other) == if other == name@ {
                    Some(value@)
                } else {
                    old(self).value_of(other)
                },
    {
        self.vars.insert(name, value);
    }

    /// The value of a variable.
    pub fn get(&self, name: &str) -> (value: Option<String>)
        ensures
            opt_text(value) == self.value_of(name@),
    {
        match self.vars.get(name) {
            Some(value) => Some(value.clone()),
            None => None,
        }
    }
}

/// The names that string slices hold.
pub open spec fn names_of(keys: Seq<&str>) -> Seq<Seq<char>> {
    Seq::new(keys.len(), |i: int| keys[i]@)
}

/// The trimmed value of the first of the variables that has one to show.
pub open spec fn first_set(env: Environment, names: Seq<Seq<char>>) -> Option<Seq<char>>
    decreases names.len(),
{
    if names.len() == 0 {
        None
    } else {
        match env.value_of(names.first()) {
            Some(value) => if trimmed(value).len() > 0 {
                Some(trimmed(value))
            } else {
                first_set(env, names.drop_first())
            },
            None => first_set(env, names.drop_first()),
        }
    }
}

/// The trimmed value of the first of the variables that is more than white space.
pub fn read_env_first(env: &Environment, keys: &Vec<&str>) -> (value: Option<String>)
    ensures
        opt_text(value) == first_set(*env, names_of(keys@)),
        value matches Some(v) ==> v@.len() > 0 && trimmed(v@) == v@,
{
    let ghost names = names_of(keys@);
    let mut index: usize = 0;
    assert(names.skip(0) =~= names);
    while index < keys.len()
        invariant
            index <= keys.len(),
            names == names_of(keys@),
            first_set(*env, names) == first_set(*env, names.skip(index as int)),
        decreases keys.len() - index,
    {
        assert(names.skip(index as int).first() == keys@[index as int]@);
        assert(names.skip(index as int).drop_first() =~= names.skip(index + 1));
        if let Some(value) = env.get(keys[index]) {
            let kept: String = trim(value.as_str());
            if !kept.as_str().is_empty() {
                proof {
                    crate::text::trimming_twice_is_trimming_once(value@);
                }
                return Some(kept);
            }
        }
        index = index + 1;
    }
    None
}

/// What becomes of a URL whose scheme was read, to make it a websocket's.
#[derive(Debug, PartialEq, Eq)]
pub enum SchemeChange {
    /// The URL gets another scheme.
    Replace(&'static str),
    /// The URL has a scheme for websockets.
    Keep,
    /// There is no such URL: the text stays as it is.
    Leave,
}

/// The scheme for websockets that goes with a URL's scheme.
pub open spec fn socket_scheme(scheme: Seq<char>) -> Option<Seq<char>> {
    if scheme == "http"@ || scheme == "ws"@ {
        Some("ws"@)
    } else if scheme == "https"@ || scheme == "wss"@ {
        Some("wss"@)
    } else {
        None
    }
}

proof fn lemma_schemes_differ()
    ensures
        "http"@.len() == 4,
        "https"@.len() == 5,
        "ws"@.len() == 2,
        "wss"@.len() == 3,
{
    reveal_strlit("http");
    reveal_strlit("https");
    reveal_strlit("ws");
    reveal_strlit("wss");
}

/// What becomes of a URL with this scheme.
pub fn websocket_scheme(scheme: &str) -> (change: SchemeChange)
    ensures
        match change {
            SchemeChange::Replace(to) => plain_to_socket(scheme@, to@) && socket_scheme(scheme@)
                == Some(to@),
            SchemeChange::Keep => scheme@ == "ws"@ || scheme@ == "wss"@,
            SchemeChange::Leave => socket_scheme(scheme@) is None,
        },
{
    proof {
        lemma_schemes_differ();
    }
    if same_text(scheme, "http") {
        SchemeChange::Replace("ws")
    } else if same_text(scheme, "https") {
        SchemeChange::Replace("wss")
    } else if same_text(scheme, "ws") || same_text(scheme, "wss") {
        SchemeChange::Keep
    } else {
        SchemeChange::Leave
    }
}

/// The address of the websocket that goes with the address of an RPC endpoint,
/// where `parsed` is the URL that the text was read as: the same URL with a scheme
/// for websockets; the text itself where it is no URL or one of another scheme.
pub open spec fn websocket_url(text: Seq<char>, parsed: Option<UrlView>) -> Seq<char> {
    match parsed {
        Some(url) => match socket_scheme(url.scheme) {
            Some(scheme) => if scheme == url.scheme {
                url.text
            } else {
                scheme + url.text.skip(url.scheme.len() as int)
            },
            None => text,
        },
        None => text,
    }
}

/// The address of the websocket that goes with the address of an RPC endpoint. The
/// address that goes with the result is the result itself, and the result is no URL
/// for plain requests.
pub fn derive_ws_url(rpc_url: &str) -> (ws_url: String)
    ensures
        ws_url@ == websocket_url(rpc_url@, url_of(rpc_url@)),
        websocket_url(ws_url@, url_of(ws_url@)) == ws_url@,
        url_of(ws_url@) matches Some(url) ==> url.scheme != "http"@ && url.scheme != "https"@,
        url_of(rpc_url@) is None ==> ws_url@ == rpc_url@,
        url_of(rpc_url@) matches Some(url) ==> (socket_scheme(url.scheme) matches Some(scheme)
            ==> scheme.push(':').is_prefix_of(ws_url@)),
{
    let parsed = parse_url(rpc_url);
    proof {
        lemma_schemes_differ();
    }
    match parsed {
        Some(url) => {
            let ghost scheme = url.scheme@;
            let ghost text = url.text@;
            match websocket_scheme(url.scheme.as_str()) {
                SchemeChange::Replace(to) => {
                    proof {
                        assert(text.skip(scheme.len() as int).first() == ':') by {
                            let at = scheme.len() as int;
                            assert(text[at] == scheme.push(':')[at]);
                        }
                        assert(to@.push(':').is_prefix_of(to@ + text.skip(scheme.len() as int)));
                    }
                    match with_scheme(rpc_url, to) {
                        Some(result) => result,
                        None => rpc_url.to_owned(),
                    }
                },
                SchemeChange::Keep => url.text,
                SchemeChange::Leave => rpc_url.to_owned(),
            }
        },
        None => rpc_url.to_owned(),
    }
}

/// How the service is set up. Times are in milliseconds.
pub struct Config {
    pub rpc_url: String,
    pub rpc_x_token: Option<String>,
    pub ws_url: String,
    pub ws_x_token: Option<String>,
    pub port: u16,
    pub request_timeout_ms: u64,
    pub node_cache_ttl_ms: u64,
    pub heartbeat_ms: u64,
    pub ws_ping_interval_ms: u64,
    pub leader_lookahead: usize,
    pub track_lookahead: usize,
    pub maxmind_db_path: String,
    pub maxmind_license_key: Option<String>,
    pub maxmind_edition_id: String,
    pub maxmind_db_download_url: Option<String>,
    pub maxmind_fallback_url: Option<String>,
}

/// The model of [`Config`].
pub struct ConfigView {
    pub rpc_url: Seq<char>,
    pub rpc_x_token: Option<Seq<char>>,
    pub ws_url: Seq<char>,
    pub ws_x_token: Option<Seq<char>>,
    pub port: u16,
    pub request_timeout_ms: u64,
    pub node_cache_ttl_ms: u64,
    pub heartbeat_ms: u64,
    pub ws_ping_interval_ms: u64,
    pub leader_lookahead: usize,
    pub track_lookahead: usize,
    pub maxmind_db_path: Seq<char>,
    pub maxmind_license_key: Option<Seq<char>>,
    pub maxmind_edition_id: Seq<char>,
    pub maxmind_db_download_url: Option<Seq<char>>,
    pub maxmind_fallback_url: Option<Seq<char>>,
}

impl View for Config {
    type V = ConfigView;

    open spec fn view(&self) -> ConfigView {
        ConfigView {
            rpc_url: self.rpc_url@,
            rpc_x_token: opt_text(self.rpc_x_token),
            ws_url: self.ws_url@,
            ws_x_token: opt_text(self.ws_x_token),
            port: self.port,
            request_timeout_ms: self.request_timeout_ms,
            node_cache_ttl_ms: self.node_cache_ttl_ms,
            heartbeat_ms: self.heartbeat_ms,
            ws_ping_interval_ms: self.ws_ping_interval_ms,
            leader_lookahead: self.leader_lookahead,
            track_lookahead: self.track_lookahead,
            maxmind_db_path: self.maxmind_db_path@,
            maxmind_license_key: opt_text(self.maxmind_license_key),
            maxmind_edition_id: self.maxmind_edition_id@,
            maxmind_db_download_url: opt_text(self.maxmind_db_download_url),
            maxmind_fallback_url: opt_text(self.maxmind_fallback_url),
        }
    }
}

/// The text, or another one where there is none.
pub open spec fn or_text(value: Option<Seq<char>>, other: Seq<char>) -> Seq<char> {
    match value {
        Some(value) => value,
        None => other,
    }
}

/// The number that a text writes, or another one where it writes none up to `max`.
pub open spec fn number_or(value: Option<Seq<char>>, max: nat, other: nat) -> nat {
    match value {
        Some(text) => match read_unsigned(text, max) {
            Some(n) => n,
            None => other,
        },
        None => other,
    }
}

/// The configuration that an environment gives.
pub open spec fn config_of(env: Environment) -> ConfigView {
    let rpc_url = or_text(first_set(env, seq!["SOLANA_RPC_URL"@]), DEFAULT_RPC_URL@);
    let rpc_x_token = first_set(env, seq!["SOLANA_RPC_X_TOKEN"@]);
    let socket = or_text(first_set(env, seq!["SOLANA_WSS_URL"@, "SOLANA_WS_URL"@]), rpc_url);
    let ws_x_token = first_set(env, seq!["SOLANA_WS_X_TOKEN"@]);
    ConfigView {
        rpc_url,
        rpc_x_token,
        ws_url: websocket_url(socket, url_of(socket)),
        ws_x_token: if ws_x_token is Some {
            ws_x_token
        } else {
            rpc_x_token
        },
        port: number_or(env.value_of("PORT"@), u16::MAX as nat, DEFAULT_PORT as nat) as u16,
        request_timeout_ms: number_or(
            env.value_of("RPC_TIMEOUT_MS"@),
            u64::MAX as nat,
            DEFAULT_REQUEST_TIMEOUT_MS as nat,
        ) as u64,
        node_cache_ttl_ms: number_or(
            env.value_of("NODE_CACHE_TTL_MS"@),
            u64::MAX as nat,
            DEFAULT_NODE_CACHE_TTL_MS as nat,
        ) as u64,
        heartbeat_ms: number_or(
            env.value_of("SSE_HEARTBEAT_MS"@),
            u64::MAX as nat,
            DEFAULT_HEARTBEAT_MS as nat,
        ) as u64,
        ws_ping_interval_ms: number_or(
            first_set(env, seq!["WS_PING_MS"@, "GRPC_PING_MS"@]),
            u64::MAX as nat,
            DEFAULT_WS_PING_MS as nat,
        ) as u64,
        leader_lookahead: number_or(
            env.value_of("LEADER_LOOKAHEAD"@),
            usize::MAX as nat,
            DEFAULT_LEADER_LOOKAHEAD as nat,
        ) as usize,
        track_lookahead: number_or(
            env.value_of("TRACK_LOOKAHEAD"@),
            usize::MAX as nat,
            DEFAULT_TRACK_LOOKAHEAD as nat,
        ) as usize,
        maxmind_db_path: or_text(env.value_of("MAXMIND_DB_PATH"@), "./GeoLite2-City.mmdb"@),
        maxmind_license_key: first_set(env, seq!["MAXMIND_LICENSE_KEY"@, "GEOIP_LICENSE_KEY"@]),
        maxmind_edition_id: or_text(env.value_of("MAXMIND_EDITION_ID"@), "GeoLite2-City"@),
        maxmind_db_download_url: first_set(env, seq!["MAXMIND_DB_DOWNLOAD_URL"@]),
        maxmind_fallback_url: first_set(env, seq!["MAXMIND_FALLBACK_URL"@]),
    }
}

fn read_one(env: &Environment, name: &str) -> (value: Option<String>)
    ensures
        opt_text(value) == first_set(*env, seq![name@]),
{
    let keys: Vec<&str> = vec![name];
    assert(names_of(keys@) =~= seq![name@]);
    read_env_first(env, &keys)
}

fn read_either(env: &Environment, first: &str, second: &str) -> (value: Option<String>)
    ensures
        opt_text(value) == first_set(*env, seq![first@, second@]),
{
    let keys: Vec<&str> = vec![first, second];
    assert(names_of(keys@) =~= seq![first@, second@]);
    read_env_first(env, &keys)
}

fn text_or(value: Option<String>, other: &str) -> (text: String)
    ensures
        text@ == or_text(opt_text(value), other@),
{
    match value {
        Some(text) => text,
        None => other.to_owned(),
    }
}

fn parse_or(value: Option<String>, max: u64, other: u64) -> (number: u64)
    requires
        other <= max,
    ensures
        number == number_or(opt_text(value), max as nat, other as nat),
        number <= max,
{
    match value {
        Some(text) => match parse_unsigned(text.as_str(), max) {
            Some(number) => number,
            None => other,
        },
        None => other,
    }
}

impl Config {
    /// The configuration that an environment gives.
    pub fn from_env(env: &Environment) -> (config: Self)
        ensures
            config@ == config_of(*env),
    {
        let rpc_url: String = text_or(read_one(env, "SOLANA_RPC_URL"), DEFAULT_RPC_URL);
        let rpc_x_token: Option<String> = read_one(env, "SOLANA_RPC_X_TOKEN");
        let ws_url: String = match read_either(env, "SOLANA_WSS_URL", "SOLANA_WS_URL") {
            Some(url) => derive_ws_url(url.as_str()),
            None => derive_ws_url(rpc_url.as_str()),
        };
        let ws_x_token: Option<String> = match read_one(env, "SOLANA_WS_X_TOKEN") {
            Some(token) => Some(token),
            None => copy_opt(&rpc_x_token),
        };
        let widest: u64 = u64::MAX;
        let port: u64 = parse_or(env.get("PORT"), u16::MAX as u64, DEFAULT_PORT as u64);
        let lookahead: u64 = parse_or(
            env.get("LEADER_LOOKAHEAD"),
            usize::MAX as u64,
            DEFAULT_LEADER_LOOKAHEAD as u64,
        );
        let track_lookahead: u64 = parse_or(
            env.get("TRACK_LOOKAHEAD"),
            usize::MAX as u64,
            DEFAULT_TRACK_LOOKAHEAD as u64,
        );
        Config {
            rpc_url,
            rpc_x_token,
            ws_url,
            ws_x_token,
            port: port as u16,
            request_timeout_ms: parse_or(
                env.get("RPC_TIMEOUT_MS"),
                widest,
                DEFAULT_REQUEST_TIMEOUT_MS,
            ),
            node_cache_ttl_ms: parse_or(
                env.get("NODE_CACHE_TTL_MS"),
                widest,
                DEFAULT_NODE_CACHE_TTL_MS,
            ),
            heartbeat_ms: parse_or(env.get("SSE_HEARTBEAT_MS"), widest, DEFAULT_HEARTBEAT_MS),
            ws_ping_interval_ms: parse_or(
                read_either(env, "WS_PING_MS", "GRPC_PING_MS"),
                widest,
                DEFAULT_WS_PING_MS,
            ),
            leader_lookahead: lookahead as usize,
            track_lookahead: track_lookahead as usize,
            maxmind_db_path: text_or(env.get("MAXMIND_DB_PATH"), "./GeoLite2-City.mmdb"),
            maxmind_license_key: read_either(env, "MAXMIND_LICENSE_KEY", "GEOIP_LICENSE_KEY"),
            maxmind_edition_id: text_or(env.get("MAXMIND_EDITION_ID"), "GeoLite2-City"),
            maxmind_db_download_url: read_one(env, "MAXMIND_DB_DOWNLOAD_URL"),
            maxmind_fallback_url: read_one(env, "MAXMIND_FALLBACK_URL"),
        }
    }
}

impl Clone for Config {
    fn clone(&self) -> (copy: Self)
        ensures
            copy == *self,
    {
        Config {
            rpc_url: self.rpc_url.clone(),
            rpc_x_token: copy_opt(&self.rpc_x_token),
            ws_url: self.ws_url.clone(),
            ws_x_token: copy_opt(&self.ws_x_token),
            port: self.port,
            request_timeout_ms: self.request_timeout_ms,
            node_cache_ttl_ms: self.node_cache_ttl_ms,
            heartbeat_ms: self.heartbeat_ms,
            ws_ping_interval_ms: self.ws_ping_interval_ms,
            leader_lookahead: self.leader_lookahead,
            track_lookahead: self.track_lookahead,
            maxmind_db_path: self.maxmind_db_path.clone(),
            maxmind_license_key: copy_opt(&self.maxmind_license_key),
            maxmind_edition_id: self.maxmind_edition_id.clone(),
            maxmind_db_download_url: copy_opt(&self.maxmind_db_download_url),
            maxmind_fallback_url: copy_opt(&self.maxmind_fallback_url),
        }
    }
}

/// Where clients find the stream.
pub fn stream_url(env: &Environment) -> (url: String)
    ensures
        url@ == or_text(
            first_set(*env, seq!["NEXT_PUBLIC_LEADER_STREAM_URL"@]),
            DEFAULT_STREAM_URL@,
        ),
{
    text_or(read_one(env, "NEXT_PUBLIC_LEADER_STREAM_URL"), DEFAULT_STREAM_URL)
}

/// Where the static files are served from.
pub fn static_dir(env: &Environment) -> (dir: String)
    ensures
        dir@ == or_text(env.value_of("STATIC_DIR"@), DEFAULT_STATIC_DIR@),
{
    text_or(env.get("STATIC_DIR"), DEFAULT_STATIC_DIR)
}

/// Whether the service runs without its background tasks: where the variable for
/// it holds something that is not `0`.
pub fn background_disabled(env: &Environment) -> (disabled: bool)
    ensures
        disabled == match env.value_of("DISABLE_BACKGROUND_TASKS"@) {
            Some(value) => trimmed(value).len() > 0 && trimmed(value) != "0"@,
            None => false,
        },
{
    match env.get("DISABLE_BACKGROUND_TASKS") {
        Some(value) => {
            let kept: String = trim(value.as_str());
            !kept.as_str().is_empty() && !same_text(kept.as_str(), "0")
        },
        None => false,
    }
}

/// The address to listen on.
pub fn bind_address(port: u16) -> (address: String)
    ensures
        address@ == "0.0.0.0:"@ + decimal(port as nat),
{
    let mut address: String = "0.0.0.0:".to_owned();
    address.append(decimal_text(port as u64).as_str());
    address
}

} // verus!
