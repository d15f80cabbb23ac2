//! The service's fixed numbers and names.
use vstd::prelude::*;

verus! {

/// The RPC endpoint where none is configured.
pub const DEFAULT_RPC_URL: &'static str = "https://api.mainnet-beta.solana.com";

/// The port to listen on where none is configured.
pub const DEFAULT_PORT: u16 = 3000;

/// How long an RPC request may take, in milliseconds.
pub const DEFAULT_REQUEST_TIMEOUT_MS: u64 = 10_000;

/// How long the validators that were asked for stay fresh, in milliseconds.
pub const DEFAULT_NODE_CACHE_TTL_MS: u64 = 60_000;

/// The time between two heartbeats of a stream, in milliseconds.
pub const DEFAULT_HEARTBEAT_MS: u64 = 10_000;

/// The time between two pings of the websocket, in milliseconds.
pub const DEFAULT_WS_PING_MS: u64 = 10_000;

/// How many leaders are kept while no client tracks a validator.
pub const DEFAULT_LEADER_LOOKAHEAD: usize = 5000;

/// How many leaders are kept while a client tracks a validator, and the most
/// that are ever asked for.
pub const DEFAULT_TRACK_LOOKAHEAD: usize = 5000;

/// The time between two refreshes of the leaders, in milliseconds.
pub const DEFAULT_LEADER_CACHE_REFRESH_MS: u64 = 1000;

/// The longest wait after refreshes that failed, in milliseconds.
pub const MAX_BACKOFF_MS: u64 = 30_000;

/// Where the static files are served from where nothing else is configured.
pub const DEFAULT_STATIC_DIR: &'static str = "./public";

/// Where clients find the stream where nothing else is configured.
pub const DEFAULT_STREAM_URL: &'static str = "/api/leader-stream";

/// How many events a slow subscriber may lag behind.
pub const BROADCAST_BUFFER: usize = 1024;

/// How long an answer is handed out again, in milliseconds.
pub const API_CACHE_TTL_MS: u64 = 1000;

/// The least time that a slot is taken to last, in milliseconds.
pub const API_FALLBACK_SLOT_MS: u64 = 400;

/// How many leaders the page is delivered with.
pub const INITIAL_PAYLOAD_LIMIT: usize = 200;

/// How many leaders are told where the client names no number.
pub const NEXT_LEADERS_DEFAULT_LIMIT: usize = 1000;

/// The fewest leaders that are told.
pub const NEXT_LEADERS_MIN_LIMIT: usize = 1;

/// The most leaders that are told.
pub const NEXT_LEADERS_MAX_LIMIT: usize = 5000;

} // verus!
