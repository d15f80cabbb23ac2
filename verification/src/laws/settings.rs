//! Laws on what is configured, asked for and answered.
use vstd::prelude::*;
use vstd::string::*;

use crate::config::{config_of, first_set, websocket_url, Environment};
use crate::constants::{
    DEFAULT_HEARTBEAT_MS, DEFAULT_LEADER_LOOKAHEAD, DEFAULT_NODE_CACHE_TTL_MS, DEFAULT_PORT,
    DEFAULT_REQUEST_TIMEOUT_MS, DEFAULT_RPC_URL, DEFAULT_TRACK_LOOKAHEAD, DEFAULT_WS_PING_MS,
};
use crate::number::{read_signed, read_unsigned};
use crate::page::{
    at_least_zero, first_slots, kept_limit, later_slot, slots_until, window_size,
};
use crate::rows::LeaderSlotView;
use crate::rpc::{
    failure_of, message_action, slots_of, JsonRpcEnvelope, RpcReply, RpcRequest,
    RpcParamView,
};
use crate::text::trimmed;
use crate::wasm_app::{
    asked_config, is_after, is_up, RowMark, DEFAULT_LIMIT, MAX_LIMIT, MOBILE_MAX_LIMIT,
};
use crate::web_url::{url_of, UrlView};

verus! {

/// What a variable is set to.
pub open spec fn set_to(env: Environment, name: Seq<char>) -> Option<Seq<char>> {
    if env.vars@.contains_key(name) {
        Some(env.vars@[name]@)
    } else {
        None
    }
}

/// What a variable is set to, without the white space around it, if there is more.
pub open spec fn shown(env: Environment, name: Seq<char>) -> Option<Seq<char>> {
    if set_to(env, name) is Some && trimmed(set_to(env, name)->0).len() > 0 {
        Some(trimmed(set_to(env, name)->0))
    } else {
        None
    }
}

/// Whether a number is the one that a text writes, if it writes one that is not too
/// great; and the default otherwise.
pub open spec fn number_from(text: Option<Seq<char>>, max: int, default: int, number: int) -> bool {
    if text is Some && read_unsigned(text->0, max as nat) is Some {
        number == read_unsigned(text->0, max as nat)->0
    } else {
        number == default
    }
}

/// The first of two, or else the second.
pub open spec fn either(first: Option<Seq<char>>, second: Option<Seq<char>>) -> Option<Seq<char>> {
    if first is Some {
        first
    } else {
        second
    }
}

proof fn lemma_shown(env: Environment, first: Seq<char>, second: Seq<char>)
    ensures
        env.value_of(first) == set_to(env, first),
        first_set(env, seq![first]) == shown(env, first),
        first_set(env, seq![first, second]) == either(shown(env, first), shown(env, second)),
{
    assert(seq![first].drop_first() =~= Seq::<Seq<char>>::empty());
    assert(seq![first, second].drop_first() =~= seq![second]);
    assert(seq![second].drop_first() =~= Seq::<Seq<char>>::empty());
    reveal_with_fuel(first_set, 3);
}

/// The numbers of the configuration are those that their variables write.
pub proof fn numbers_are_those_of_the_variables(env: Environment)
    ensures
        ({
            let config = config_of(env);
            &&& number_from(
                set_to(env, "PORT"@),
                u16::MAX as int,
                DEFAULT_PORT as int,
                config.port as int,
            )
            &&& number_from(
                set_to(env, "RPC_TIMEOUT_MS"@),
                u64::MAX as int,
                DEFAULT_REQUEST_TIMEOUT_MS as int,
                config.request_timeout_ms as int,
            )
            &&& number_from(
                set_to(env, "NODE_CACHE_TTL_MS"@),
                u64::MAX as int,
                DEFAULT_NODE_CACHE_TTL_MS as int,
                config.node_cache_ttl_ms as int,
            )
            &&& number_from(
                set_to(env, "SSE_HEARTBEAT_MS"@),
                u64::MAX as int,
                DEFAULT_HEARTBEAT_MS as int,
                config.heartbeat_ms as int,
            )
            &&& number_from(
                either(shown(env, "WS_PING_MS"@), shown(env, "GRPC_PING_MS"@)),
                u64::MAX as int,
                DEFAULT_WS_PING_MS as int,
                config.ws_ping_interval_ms as int,
            )
            &&& number_from(
                set_to(env, "LEADER_LOOKAHEAD"@),
                usize::MAX as int,
                DEFAULT_LEADER_LOOKAHEAD as int,
                config.leader_lookahead as int,
            )
            &&& number_from(
                set_to(env, "TRACK_LOOKAHEAD"@),
                usize::MAX as int,
                DEFAULT_TRACK_LOOKAHEAD as int,
                config.track_lookahead as int,
            )
        }),
{
    lemma_shown(env, "WS_PING_MS"@, "GRPC_PING_MS"@);
}

/// The texts of the configuration are those that their variables hold; the websocket's
/// address goes with its own variables, or else with the endpoint's; and the
/// websocket's token is its own, or else the endpoint's.
pub proof fn texts_are_those_of_the_variables(env: Environment)
    ensures
        ({
            let config = config_of(env);
            let rpc = shown(env, "SOLANA_RPC_URL"@);
            let socket = either(shown(env, "SOLANA_WSS_URL"@), shown(env, "SOLANA_WS_URL"@));
            let source = if socket is Some {
                socket->0
            } else {
                config.rpc_url
            };
            &&& config.rpc_url == if rpc is Some {
                rpc->0
            } else {
                DEFAULT_RPC_URL@
            }
            &&& config.rpc_x_token == shown(env, "SOLANA_RPC_X_TOKEN"@)
            &&& config.ws_url == websocket_url(source, url_of(source))
            &&& config.ws_x_token == either(
                shown(env, "SOLANA_WS_X_TOKEN"@),
                shown(env, "SOLANA_RPC_X_TOKEN"@),
            )
            &&& config.maxmind_license_key == either(
                shown(env, "MAXMIND_LICENSE_KEY"@),
                shown(env, "GEOIP_LICENSE_KEY"@),
            )
            &&& config.maxmind_db_download_url == shown(env, "MAXMIND_DB_DOWNLOAD_URL"@)
            &&& config.maxmind_fallback_url == shown(env, "MAXMIND_FALLBACK_URL"@)
            &&& config.maxmind_db_path == if set_to(env, "MAXMIND_DB_PATH"@) is Some {
                set_to(env, "MAXMIND_DB_PATH"@)->0
            } else {
                "./GeoLite2-City.mmdb"@
            }
            &&& config.maxmind_edition_id == if set_to(env, "MAXMIND_EDITION_ID"@) is Some {
                set_to(env, "MAXMIND_EDITION_ID"@)->0
            } else {
                "GeoLite2-City"@
            }
        }),
{
    lemma_shown(env, "SOLANA_RPC_URL"@, "SOLANA_RPC_X_TOKEN"@);
    lemma_shown(env, "SOLANA_RPC_X_TOKEN"@, "SOLANA_WS_X_TOKEN"@);
    lemma_shown(env, "SOLANA_WSS_URL"@, "SOLANA_WS_URL"@);
    lemma_shown(env, "SOLANA_WS_X_TOKEN"@, "SOLANA_WS_URL"@);
    lemma_shown(env, "MAXMIND_LICENSE_KEY"@, "GEOIP_LICENSE_KEY"@);
    lemma_shown(env, "MAXMIND_DB_DOWNLOAD_URL"@, "MAXMIND_FALLBACK_URL"@);
    lemma_shown(env, "MAXMIND_FALLBACK_URL"@, "MAXMIND_DB_DOWNLOAD_URL"@);
}

/// The websocket that goes with a plain URL is at the same URL, but for the scheme: the
/// one without encryption for the one without, and the one with it for the one with it.
pub proof fn websocket_differs_in_the_scheme_alone(text: Seq<char>, url: UrlView)
    ensures
        url.scheme == "http"@ ==> websocket_url(text, Some(url)) == "ws"@ + url.text.skip(4),
        url.scheme == "https"@ ==> websocket_url(text, Some(url)) == "wss"@ + url.text.skip(5),
        url.scheme == "ws"@ || url.scheme == "wss"@ ==> websocket_url(text, Some(url)) == url.text,
        url.scheme != "http"@ && url.scheme != "https"@ && url.scheme != "ws"@ && url.scheme
            != "wss"@ ==> websocket_url(text, Some(url)) == text,
        websocket_url(text, None) == text,
{
    reveal_strlit("http");
    reveal_strlit("https");
    reveal_strlit("ws");
    reveal_strlit("wss");
    assert("http"@.len() == 4 && "https"@.len() == 5 && "ws"@.len() == 2 && "wss"@.len() == 3);
}

/// A minus makes the number that is read after it negative, as far as 64 bits reach;
/// without one a number is read as an unsigned one is.
pub proof fn minus_is_read(digits: Seq<char>)
    requires
        digits.len() > 0,
        digits[0] != '+' && digits[0] != '-',
    ensures
        read_signed(digits) == match read_unsigned(digits, i64::MAX as nat) {
            Some(n) => Some(n as int),
            None => None,
        },
        read_signed(seq!['-'] + digits) == match read_unsigned(digits, (i64::MAX + 1) as nat) {
            Some(n) => Some(-(n as int)),
            None => None,
        },
        read_signed(seq!['+'] + digits) == read_signed(digits),
{
    assert(digits.first() == digits[0]);
    assert((seq!['-'] + digits).drop_first() =~= digits);
    assert((seq!['+'] + digits).drop_first() =~= digits);
}

/// The page shows as many slots as its address asks for, brought into range, and no
/// more than a device with a touch screen can take.
pub proof fn page_limit_is_what_is_asked_for(
    limit: Option<Seq<char>>,
    window: Option<Seq<char>>,
    max: Option<Seq<char>>,
    touch: bool,
)
    ensures
        ({
            let config = asked_config(limit, window, max, touch);
            let asked = if limit is Some && read_signed(limit->0) is Some {
                read_signed(limit->0)->0
            } else {
                DEFAULT_LIMIT as int
            };
            let most = if touch {
                MOBILE_MAX_LIMIT
            } else {
                MAX_LIMIT
            };
            let view = if window is Some {
                window
            } else {
                max
            };
            &&& asked < 1 ==> config.limit == 1
            &&& 1 <= asked <= most ==> config.limit == asked
            &&& asked > most ==> config.limit == most
            &&& view is None <==> config.window_override is None
            &&& view matches Some(text) ==> {
                let number = if read_signed(text) is Some {
                    read_signed(text)->0
                } else {
                    DEFAULT_LIMIT as int
                };
                let shown = config.window_override->0;
                &&& number < 1 ==> shown == 1
                &&& 1 <= number <= most ==> shown == number
                &&& number > most ==> shown == most
            }
        }),
{
}

/// The table shows as many rows as the limit says, where it says any, or else as are at
/// hand; and no more than the page's address says, if there are any.
pub proof fn window_keeps_to_limit_and_address(
    window_override: Option<i64>,
    limit: i64,
    fallback: i64,
)
    ensures
        ({
            let size = window_size(window_override, limit, fallback);
            let rows = if limit > 0 {
                limit
            } else {
                fallback
            };
            &&& size <= rows
            &&& rows > 0 && window_override is Some ==> size <= window_override->0
            &&& size == rows || (rows > 0 && window_override == Some(size))
        }),
{
}

/// The limit that is kept is at least one; it is what was asked for, unless the service
/// gives less.
pub proof fn kept_limit_is_the_lesser(requested: i64, given: i64)
    ensures
        kept_limit(requested, given) >= 1,
        requested >= 1 && (given <= 0 || given >= requested) ==> kept_limit(requested, given)
            == requested,
        requested >= 1 && 0 < given < requested ==> kept_limit(requested, given) == given,
        requested < 1 ==> kept_limit(requested, given) == 1,
{
}

/// Of two slots the later one is current.
pub proof fn later_slot_is_current(current: i64, slot: i64)
    ensures
        later_slot(Some(current), slot) >= current,
        later_slot(Some(current), slot) >= slot,
        later_slot(Some(current), slot) == current || later_slot(Some(current), slot) == slot,
        later_slot(None, slot) == slot,
{
}

/// The first slots are as many as are wanted, or all; in their order.
pub proof fn first_slots_come_first(rows: Seq<LeaderSlotView>, count: int)
    requires
        count >= 0,
    ensures
        first_slots(rows, count).len() <= count,
        first_slots(rows, count).len() <= rows.len(),
        first_slots(rows, count).len() == count || first_slots(rows, count).len() == rows.len(),
        forall|i: int|
            0 <= i < first_slots(rows, count).len() ==> #[trigger] first_slots(rows, count)[i]
                == rows[i],
{
}

/// A number that is cut off at zero is kept where it is not negative.
pub proof fn cut_off_numbers_are_not_negative(value: i64)
    ensures
        value >= 0 ==> at_least_zero(value) == value,
        value < 0 ==> at_least_zero(value) == 0,
{
}

/// A slot that is to come is so many slots away that they lead to it; one that is over
/// is none away; and nothing is told while no slot is current.
pub proof fn slots_until_lead_to_the_slot(current: i64, slot: i64)
    ensures
        slot > current ==> exists|n: nat|
            current + n == slot && #[trigger] crate::number::decimal(n) == slots_until(
                Some(current),
                slot,
            ),
        slot <= current ==> slots_until(Some(current), slot) == "0"@,
        slots_until(None, slot) == "-"@,
{
    if slot > current {
        let n = (slot - current) as nat;
        assert(crate::number::decimal(n) == slots_until(Some(current), slot));
    }
}

/// A row is up if it neither goes nor is hidden; it stands after a slot if it does not
/// go and says a later one.
pub proof fn rows_say_where_they_stand(mark: RowMark, slot: i64, number: i64)
    ensures
        is_up(mark) <==> !(mark.exiting || mark.filtered),
        mark.slot is None || mark.exiting ==> !is_after(mark, slot),
        mark.slot is Some && !mark.exiting ==> (is_after(mark, slot) <==> exists|n: int|
            n > slot && #[trigger] read_signed(mark.slot->0@) == Some(n)),
{
    if mark.slot is Some && !mark.exiting && is_after(mark, slot) {
        let n = read_signed(mark.slot->0@)->0;
        assert(read_signed(mark.slot->0@) == Some(n));
    }
}

/// A schedule gives a validator the slots of the first entry under its name, and none
/// where there is no such entry.
pub proof fn schedule_gives_the_first_entry(
    schedule: Seq<(String, Vec<u64>)>,
    identity: Seq<char>,
    at: int,
)
    requires
        0 <= at <= schedule.len(),
        forall|k: int| 0 <= k < at ==> (#[trigger] schedule[k]).0@ != identity,
    ensures
        at < schedule.len() && schedule[at].0@ == identity ==> slots_of(schedule, identity) == Some(
            schedule[at].1@,
        ),
        at == schedule.len() ==> slots_of(schedule, identity) is None,
    decreases at,
{
    if at > 0 {
        let rest = schedule.drop_first();
        assert(schedule.first() == schedule[0]);
        assert forall|k: int| 0 <= k < at - 1 implies (#[trigger] rest[k]).0@ != identity by {
            assert(rest[k] == schedule[k + 1]);
        }
        schedule_gives_the_first_entry(rest, identity, at - 1);
    }
}

/// A reply counts as a success just where it is an answer with a result and without an
/// error; an error that it carries is what is told.
pub proof fn replies_succeed_with_a_result_alone<T>(method: Seq<char>, reply: RpcReply<T>)
    ensures
        failure_of(method, reply) is None <==> reply is Answer && reply->result is Some
            && reply->error is None,
        reply is Answer && reply->error is Some ==> failure_of(method, reply) == Some(
            reply->error->0.message@,
        ),
{
}

/// A reply without a result tells in words what went wrong, and which method was called
/// where the endpoint is at fault.
pub proof fn failures_say_what_went_wrong<T>(method: Seq<char>, reply: RpcReply<T>)
    ensures
        reply is NotSent ==> failure_of(method, reply) == Some("RPC request failed"@),
        reply is Malformed ==> failure_of(method, reply) == Some("Invalid RPC response"@),
        reply is Refused ==> failure_of(method, reply) == Some(
            "RPC "@ + method + " failed ("@ + reply->status@ + ")"@,
        ),
        reply is Answer && reply->error is None && reply->result is None ==> failure_of(
            method,
            reply,
        ) == Some("RPC "@ + method + " missing result"@),
{
}

/// A message of the websocket tells a slot just where it notifies of slots and says
/// that the first piece of one came in; the slot is the one that it names, and the time
/// the one that it names, or else the present.
pub proof fn messages_tell_slots(message: JsonRpcEnvelope, now: u64)
    ensures
        ({
            let notified = message.method is Some && message.method->0@
                == "slotsUpdatesNotification"@ && message.params is Some;
            let update = message.params->0.result;
            let first = update.update_type@ == "firstShred"@ || update.update_type@
                == "firstShredReceived"@;
            let action = message_action(message, now);
            &&& action is Update <==> notified && first
            &&& action is Update ==> action->slot == update.slot
            &&& action is Update && update.timestamp is Some ==> action->timestamp
                == update.timestamp->0
            &&& action is Update && update.timestamp is None ==> action->timestamp == now
            &&& action is Update || action is Confirmed || action is Ignore
            &&& action is Confirmed ==> message.id is Some && message.has_result
            &&& message.method is None && message.id is Some && message.has_result
                ==> action is Confirmed
        }),
{
}

/// What is asked of the endpoint, by name and arguments.
pub proof fn requests_name_what_they_ask(start_slot: u64, limit: usize, identity: String)
    ensures
        ({
            let leaders = RpcRequest::SlotLeaders { start_slot, limit };
            let schedule = RpcRequest::LeaderSchedule { slot: start_slot, identity };
            &&& leaders.name() == "getSlotLeaders"@
            &&& leaders.arguments().len() == 2
            &&& leaders.arguments()[0] == RpcParamView::Number(start_slot)
            &&& leaders.arguments()[1] == RpcParamView::Number(limit as u64)
            &&& schedule.name() == "getLeaderSchedule"@
            &&& schedule.arguments().len() == 2
            &&& schedule.arguments()[0] == RpcParamView::Number(start_slot)
            &&& schedule.arguments()[1] is Settings
            &&& schedule.arguments()[1]->Settings_0.contains(("identity"@, identity@))
            &&& schedule.arguments()[1]->Settings_0.contains(("commitment"@, "processed"@))
        }),
{
    let schedule = RpcRequest::LeaderSchedule { slot: start_slot, identity };
    let settings = schedule.arguments()[1]->Settings_0;
    assert(settings[0] == ("commitment"@, "processed"@));
    assert(settings[1] == ("identity"@, identity@));
}

} // verus!
