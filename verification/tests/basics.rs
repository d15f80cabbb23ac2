use leader_stream::background::build_payload_for_slot;
use leader_stream::config::{
    background_disabled, bind_address, derive_ws_url, read_env_first, static_dir, stream_url,
    websocket_scheme, Config, Environment, SchemeChange,
};
use leader_stream::models::{LeaderCache, NodesCache};
use leader_stream::number::{decimal_text, parse_signed, parse_unsigned, signed_text};
use leader_stream::rpc::{
    get_leader_schedule, informer_step, is_first_shred_update, request_outcome, InformerAction,
    JsonRpcEnvelope, RpcError, RpcParam, RpcReply, RpcRequest, SlotsUpdate, SlotsUpdateParams,
    SocketEvent,
};
use leader_stream::text::{begins_with, contains_text, replace_text, trim};
use leader_stream::util::{address_from, now_ms, parse_tpu_address};
use leader_stream::web_url::UrlParts;
use leader_stream::{render_docs, render_index, render_map, wasm_placeholder};

fn address(text: &str) -> (Option<String>, Option<String>) {
    let address = parse_tpu_address(Some(text));
    (address.ip, address.port)
}

fn some(text: &str) -> Option<String> {
    Some(text.to_string())
}

fn env(entries: &[(&str, &str)]) -> Environment {
    let mut env = Environment::new();
    for (name, value) in entries {
        env.set(name.to_string(), value.to_string());
    }
    env
}

#[test]
fn addresses_are_split() {
    assert_eq!(address("127.0.0.1:8001"), (some("127.0.0.1"), some("8001")));
    assert_eq!(address("  host:9 "), (some("host"), some("9")));
    assert_eq!(address("host"), (some("host"), None));
    assert_eq!(address("host:"), (some("host:"), None));
    assert_eq!(address(":9"), (some(":9"), None));
    assert_eq!(address("a:b:c"), (some("a:b"), some("c")));
    assert_eq!(address("[::1]:80"), (some("::1"), some("80")));
    assert_eq!(address("[::1]:"), (some("::1"), None));
    assert_eq!(address("[::1]"), (some("::1"), None));
    assert_eq!(address("[::1]x:80"), (some("::1"), None));
    assert_eq!(address("[::1"), (some("[:"), some("1")));
    assert_eq!(address(""), (None, None));
    assert_eq!(address(" \u{3000}"), (None, None));
    let none = parse_tpu_address(None);
    assert_eq!((none.ip, none.port), (None, None));
}

#[test]
fn urls_give_host_and_port() {
    assert_eq!(address("http://192.168.1.5:9001"), (some("192.168.1.5"), some("9001")));
    assert_eq!(address("http://Example.COM/path"), (some("example.com"), None));
    assert_eq!(address("http://a:80"), (some("a"), None));
    assert_eq!(address("foo:///x"), (None, None));
    assert_eq!(address("foo://:80/x"), (some("foo://"), some("80/x")));
    assert_eq!(address("not a url://x:1"), (some("not a url://x"), some("1")));
}

#[test]
fn parsed_url_counts_before_the_text() {
    let parts = UrlParts {
        scheme: "http".to_string(),
        host: some("h"),
        port: Some(7),
        text: "http://h:7/".to_string(),
    };
    let address = address_from("x:1", Some(parts));
    assert_eq!((address.ip, address.port), (some("h"), some("7")));
    let address = address_from("x:1", None);
    assert_eq!((address.ip, address.port), (some("x"), some("1")));
}

#[test]
fn websocket_urls_are_derived() {
    assert_eq!(derive_ws_url("http://h"), "ws://h/");
    assert_eq!(derive_ws_url("https://h:8899/p?q"), "wss://h:8899/p?q");
    assert_eq!(derive_ws_url("https://h:443"), "wss://h/");
    assert_eq!(derive_ws_url("ws://H"), "ws://h/");
    assert_eq!(derive_ws_url("wss://h/x"), "wss://h/x");
    assert_eq!(derive_ws_url("ftp://h"), "ftp://h");
    assert_eq!(derive_ws_url("no url"), "no url");
    let wide: String = (0..600u32)
        .filter_map(|n| char::from_u32(0x20000 + n * 67))
        .collect();
    let wide_url = format!("http://{}/", wide);
    for text in [
        "http://u:p@H:8080/a/./b/../%2e/c?q='#f g",
        "https://[::1]:9/\\x",
        "WSS://b\u{fc}cher.example:443//..//y",
        "ws://0x7f.1",
        "ftp://h",
        "no url",
        wide_url.as_str(),
    ] {
        let derived = derive_ws_url(text);
        assert_eq!(derive_ws_url(&derived), derived);
        assert!(!derived.starts_with("http"));
    }
    assert_eq!(websocket_scheme("http"), SchemeChange::Replace("ws"));
    assert_eq!(websocket_scheme("https"), SchemeChange::Replace("wss"));
    assert_eq!(websocket_scheme("ws"), SchemeChange::Keep);
    assert_eq!(websocket_scheme("ftp"), SchemeChange::Leave);
}

#[test]
fn configuration_has_defaults() {
    let config = Config::from_env(&env(&[]));
    assert_eq!(config.rpc_url, "https://api.mainnet-beta.solana.com");
    assert_eq!(config.ws_url, "wss://api.mainnet-beta.solana.com/");
    assert_eq!(config.rpc_x_token, None);
    assert_eq!(config.port, 3000);
    assert_eq!(config.leader_lookahead, 5000);
    assert_eq!(config.maxmind_db_path, "./GeoLite2-City.mmdb");
    assert_eq!(config.maxmind_edition_id, "GeoLite2-City");
    assert_eq!(stream_url(&env(&[])), "/api/leader-stream");
    assert_eq!(static_dir(&env(&[])), "./public");
    assert_eq!(bind_address(config.port), "0.0.0.0:3000");
}

#[test]
fn configuration_is_read() {
    let env = env(&[
        ("SOLANA_RPC_URL", " http://r:1 "),
        ("SOLANA_RPC_X_TOKEN", "t"),
        ("SOLANA_WSS_URL", "  "),
        ("SOLANA_WS_URL", "http://w"),
        ("PORT", "8080"),
        ("RPC_TIMEOUT_MS", "x"),
        ("GRPC_PING_MS", "5"),
        ("LEADER_LOOKAHEAD", "7"),
        ("TRACK_LOOKAHEAD", " 7"),
        ("NEXT_PUBLIC_LEADER_STREAM_URL", "/s"),
        ("STATIC_DIR", ""),
    ]);
    let config = Config::from_env(&env);
    assert_eq!(config.rpc_url, "http://r:1");
    assert_eq!(config.ws_url, "ws://w/");
    assert_eq!(config.ws_x_token, some("t"));
    assert_eq!(config.port, 8080);
    assert_eq!(config.request_timeout_ms, 10_000);
    assert_eq!(config.ws_ping_interval_ms, 5);
    assert_eq!(config.leader_lookahead, 7);
    assert_eq!(config.track_lookahead, 5000);
    assert_eq!(stream_url(&env), "/s");
    assert_eq!(static_dir(&env), "");
    assert_eq!(read_env_first(&env, &vec!["NONE", "PORT"]), some("8080"));
    assert_eq!(read_env_first(&env, &vec!["SOLANA_WSS_URL"]), None);
}

#[test]
fn background_tasks_can_be_disabled() {
    assert!(!background_disabled(&env(&[])));
    assert!(!background_disabled(&env(&[("DISABLE_BACKGROUND_TASKS", " ")])));
    assert!(!background_disabled(&env(&[("DISABLE_BACKGROUND_TASKS", " 0 ")])));
    assert!(background_disabled(&env(&[("DISABLE_BACKGROUND_TASKS", "1")])));
    assert!(background_disabled(&env(&[("DISABLE_BACKGROUND_TASKS", "false")])));
}

#[test]
fn numbers_are_written_and_read() {
    for n in [0, 7, 10, 4242, u64::MAX] {
        assert_eq!(decimal_text(n), n.to_string());
        assert_eq!(parse_unsigned(&decimal_text(n), u64::MAX), Some(n));
    }
    for n in [0, -1, 10, i64::MIN, i64::MAX] {
        assert_eq!(signed_text(n), n.to_string());
        assert_eq!(parse_signed(&signed_text(n)), Some(n));
    }
    for text in ["", "+", "-", "+5", "-5", "05", "5 ", "9223372036854775808", "-9223372036854775808"] {
        assert_eq!(parse_signed(text), text.parse::<i64>().ok());
        assert_eq!(parse_unsigned(text, u64::MAX), text.parse::<u64>().ok());
        assert_eq!(parse_unsigned(text, 255), text.parse::<u8>().ok().map(u64::from));
    }
}

#[test]
fn texts_are_searched() {
    for text in ["", " a ", "\u{a0}\tx\u{2029}", "ab ab", "\u{200b}x"] {
        assert_eq!(trim(text), text.trim());
        assert_eq!(trim(&trim(text)), trim(text));
        assert_eq!(replace_text(text, "ab", "-"), text.replace("ab", "-"));
        assert_eq!(contains_text(text, "b "), text.contains("b "));
        assert_eq!(begins_with(text, "ab"), text.starts_with("ab"));
    }
    assert_eq!(replace_text("aaa", "aa", "b"), "ba");
}

#[test]
fn clock_readings_are_cut_to_size() {
    assert_eq!(now_ms(None), 0);
    assert_eq!(now_ms(Some(1234)), 1234);
    assert_eq!(now_ms(Some((1u128 << 64) + 5)), 5);
}

#[test]
fn pages_are_filled_in() {
    wasm_placeholder();
    let page = render_index("/s", "42", Some("[1]"));
    assert!(page.contains("content=\"/s\""));
    assert!(page.contains("?v=42"));
    assert!(page.contains("type=\\\"application/json\\\">[1]</script>"));
    assert!(!page.contains("{{"));
    let page = render_index("/s", "42", None);
    assert!(!page.contains("initial-data"));
    assert!(!page.contains("{{"));
    assert!(render_docs("42").contains("/api/next-leaders"));
    let page = render_map("42", "/s");
    assert!(page.contains("content=\"/s\"") && page.contains("?v=42"));
}

#[test]
fn payloads_name_leader_and_switch() {
    let cache = LeaderCache {
        start_slot: Some(10),
        leaders: ["a", "a", "b", "a"].iter().map(|name| name.to_string()).collect(),
    };
    let nodes = NodesCache::default();
    let payload = build_payload_for_slot(11, 3, &cache, &nodes).unwrap();
    assert_eq!(payload.currentValidator, some("a"));
    assert_eq!(payload.nextValidator, some("b"));
    assert_eq!(payload.slotsUntilSwitch, Some(1));
    assert_eq!(cache.slots_until_leader("a", 11), Some(0));
    assert_eq!(cache.slots_until_leader("b", 11), Some(1));
    assert_eq!(cache.slots_until_leader("c", 11), None);
    let last = build_payload_for_slot(13, 3, &cache, &nodes).unwrap();
    assert_eq!(last.nextValidator, None);
    assert_eq!(last.slotsUntilSwitch, None);
    assert_eq!(last.currentValidator, some("a"));
    assert_eq!(cache.slots_until_leader("a", 13), Some(0));
    assert!(build_payload_for_slot(14, 3, &cache, &nodes).is_none());
    assert!(build_payload_for_slot(9, 3, &cache, &nodes).is_none());
    assert_eq!(cache.end_slot(), Some(13));
}

#[test]
fn requests_have_methods_and_arguments() {
    let leaders = RpcRequest::SlotLeaders {
        start_slot: 5,
        limit: 2,
    };
    assert_eq!(leaders.method(), "getSlotLeaders");
    assert!(matches!(
        leaders.params().as_slice(),
        [RpcParam::Number(5), RpcParam::Number(2)]
    ));
    assert_eq!(RpcRequest::ClusterNodes.method(), "getClusterNodes");
    assert!(RpcRequest::ClusterNodes.params().is_empty());
    for request in [RpcRequest::Slot, RpcRequest::EpochInfo] {
        match request.params().as_slice() {
            [RpcParam::Settings(settings)] => {
                assert_eq!(settings.as_slice(), [("commitment".to_string(), "processed".to_string())]);
            }
            _ => panic!("one argument"),
        }
    }
    let schedule = RpcRequest::LeaderSchedule {
        slot: 8,
        identity: "v".to_string(),
    };
    assert_eq!(schedule.method(), "getLeaderSchedule");
    match schedule.params().as_slice() {
        [RpcParam::Number(8), RpcParam::Settings(settings)] => {
            assert_eq!(settings[1], ("identity".to_string(), "v".to_string()));
        }
        _ => panic!("two arguments"),
    }
}

#[test]
fn replies_are_judged() {
    assert_eq!(request_outcome::<u8>("m", RpcReply::NotSent), Err("RPC request failed".to_string()));
    assert_eq!(
        request_outcome::<u8>(
            "m",
            RpcReply::Refused {
                status: "500 Internal Server Error".to_string()
            }
        ),
        Err("RPC m failed (500 Internal Server Error)".to_string())
    );
    assert_eq!(request_outcome::<u8>("m", RpcReply::Malformed), Err("Invalid RPC response".to_string()));
    let error = || {
        Some(RpcError {
            message: "e".to_string(),
        })
    };
    assert_eq!(
        request_outcome("m", RpcReply::Answer { result: Some(1), error: error() }),
        Err("e".to_string())
    );
    assert_eq!(
        request_outcome::<u8>("m", RpcReply::Answer { result: None, error: None }),
        Err("RPC m missing result".to_string())
    );
    assert_eq!(request_outcome("m", RpcReply::Answer { result: Some(1), error: None }), Ok(1));
}

#[test]
fn schedules_are_looked_up() {
    assert_eq!(get_leader_schedule(None, "v"), None);
    let entries = vec![("u".to_string(), vec![1]), ("v".to_string(), vec![2, 3])];
    assert_eq!(get_leader_schedule(Some(entries), "v"), Some(vec![2, 3]));
    assert_eq!(get_leader_schedule(Some(vec![]), "v"), None);
}

fn message(method: &str, update_type: &str, timestamp: Option<u64>) -> JsonRpcEnvelope {
    JsonRpcEnvelope {
        error: None,
        id: None,
        method: some(method),
        params: Some(SlotsUpdateParams {
            result: SlotsUpdate {
                slot: 9,
                timestamp,
                update_type: update_type.to_string(),
            },
            subscription: 1,
        }),
        has_result: false,
    }
}

#[test]
fn socket_events_are_decided() {
    let step = |event| informer_step(event, 77);
    assert!(matches!(step(SocketEvent::PingDue), InformerAction::SendPing));
    assert!(matches!(step(SocketEvent::Other), InformerAction::Ignore));
    assert!(matches!(step(SocketEvent::Text(None)), InformerAction::Unreadable));
    assert!(matches!(step(SocketEvent::Ping(vec![1])), InformerAction::SendPong(bytes) if bytes == [1]));
    let text = |event| match step(event) {
        InformerAction::Stop(text) => text,
        _ => panic!("the informer stops"),
    };
    assert_eq!(text(SocketEvent::Ended), "websocket stream ended");
    assert_eq!(text(SocketEvent::Broken), "websocket stream error");
    assert_eq!(text(SocketEvent::PingFailed("x".to_string())), "failed to send ping: x");
    assert_eq!(text(SocketEvent::PongFailed("x".to_string())), "failed to respond to ping: x");
    assert_eq!(text(SocketEvent::Closed("None".to_string())), "websocket closed: None");
    let mut failed = message("slotsUpdatesNotification", "firstShred", None);
    failed.error = Some(RpcError {
        message: "e".to_string(),
    });
    assert_eq!(text(SocketEvent::Text(Some(failed))), "websocket error: e");

    let told = |message| step(SocketEvent::Text(Some(message)));
    assert!(matches!(
        told(message("slotsUpdatesNotification", "firstShredReceived", Some(5))),
        InformerAction::Update { slot: 9, timestamp: 5 }
    ));
    assert!(matches!(
        told(message("slotsUpdatesNotification", "firstShred", None)),
        InformerAction::Update { slot: 9, timestamp: 77 }
    ));
    assert!(matches!(
        told(message("slotsUpdatesNotification", "completed", None)),
        InformerAction::Ignore
    ));
    assert!(matches!(told(message("other", "firstShred", None)), InformerAction::Ignore));
    let mut bare = message("slotsUpdatesNotification", "firstShred", None);
    bare.params = None;
    assert!(matches!(told(bare), InformerAction::Ignore));
    let mut confirmed = message("other", "firstShred", None);
    confirmed.method = None;
    confirmed.id = Some(1);
    confirmed.has_result = true;
    assert!(matches!(told(confirmed), InformerAction::Confirmed));
    assert!(is_first_shred_update("firstShred"));
    assert!(!is_first_shred_update("firstshred"));
}
