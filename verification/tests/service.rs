use leader_stream::background::{
    build_payload_for_slot, LeadersRequest, RefreshChore, RefreshPacer, SlotChore,
};
use leader_stream::config::Config;
use leader_stream::handlers::{clamp_limit, serialize_payload_for_html};
use leader_stream::models::{
    BasePayload, CachedPayload, CurrentSlotPayload, LeaderCache, NodeInfo, TrackSchedule,
};
use leader_stream::responses::{
    apply_stream_headers, cors_headers, error_response, health_handler, json_response,
    options_handler, HttpResponse,
};
use leader_stream::rpc::{ClusterNode, EpochInfo};
use leader_stream::server::{remote_ip, request_uri};
use leader_stream::state::{AppState, SlotInformerUpdate, StreamEvent};
use leader_stream::stream::{
    build_payload_event, schedule_from, stream_step, ClientPayload, Received, StreamStep,
    TrackLookup, HEARTBEAT, STREAM_OPEN,
};

fn test_config() -> Config {
    Config {
        rpc_url: "http://127.0.0.1:1".to_string(),
        rpc_x_token: None,
        ws_url: "ws://127.0.0.1:1".to_string(),
        ws_x_token: None,
        port: 0,
        request_timeout_ms: 200,
        node_cache_ttl_ms: 1000,
        heartbeat_ms: 1000,
        ws_ping_interval_ms: 1000,
        leader_lookahead: 100,
        track_lookahead: 200,
        maxmind_db_path: String::new(),
        maxmind_license_key: None,
        maxmind_edition_id: String::new(),
        maxmind_db_download_url: None,
        maxmind_fallback_url: None,
    }
}

fn test_state() -> AppState {
    AppState::new(test_config(), "/api/leader-stream".to_string(), 1700)
}

fn names(leaders: &[&str]) -> Vec<String> {
    leaders.iter().map(|name| name.to_string()).collect()
}

fn node(pubkey: &str, tpu: Option<&str>) -> ClusterNode {
    ClusterNode {
        pubkey: pubkey.to_string(),
        tpu: tpu.map(|text| text.to_string()),
    }
}

fn header<'a>(headers: &'a [(String, String)], name: &str) -> Option<&'a str> {
    headers
        .iter()
        .find(|entry| entry.0.eq_ignore_ascii_case(name))
        .map(|entry| entry.1.as_str())
}

fn content_type(response: &HttpResponse) -> Option<&str> {
    header(&response.headers, "content-type")
}

fn payload_at(slot: u64) -> BasePayload {
    BasePayload {
        slot,
        slotTimestamp: 7,
        currentValidator: Some("a".to_string()),
        nextValidator: None,
        currentTpu: None,
        currentIp: None,
        currentPort: None,
        nextTpu: None,
        nextIp: None,
        nextPort: None,
        slotsUntilSwitch: None,
    }
}

#[test]
fn health_endpoint_returns_ok() {
    let response = health_handler();
    assert_eq!(response.status, 200);
    assert_eq!(response.body, "ok");
}

#[test]
fn current_slot_returns_cached_payload() {
    let mut state = test_state();
    let payload = CurrentSlotPayload {
        current_slot: 4242,
        ts: 123,
    };
    state.current_slot_cache = Some(CachedPayload {
        ts_ms: payload.ts,
        payload,
    });
    let told = state.current_slot_handler(9).expect("current slot");
    assert_eq!(told.current_slot, 4242);
    assert_eq!(told.ts, 123);

    let text = format!("{{\"currentSlot\":{},\"ts\":{}}}", told.current_slot, told.ts);
    let response = json_response(Ok(text));
    assert_eq!(response.status, 200);
    assert_eq!(content_type(&response), Some("application/json"));
    let value: serde_json::Value = serde_json::from_str(&response.body).expect("current slot json");
    assert_eq!(value["currentSlot"], 4242);
    assert_eq!(value["ts"], 123);
}

#[test]
fn next_leaders_returns_leaders_payload() {
    let mut state = test_state();
    state.leader_cache = LeaderCache {
        start_slot: Some(100),
        leaders: names(&["leader-1", "leader-2", "leader-3"]),
    };
    state.nodes_cache.nodes_by_pubkey.insert(
        "leader-1".to_string(),
        NodeInfo {
            tpu: Some("127.0.0.1:8001".to_string()),
        },
    );
    state.nodes_cache.nodes_by_pubkey.insert(
        "leader-2".to_string(),
        NodeInfo {
            tpu: Some("http://192.168.1.5:9001".to_string()),
        },
    );
    let payload = state.next_leaders_handler(Some("2"), 5).expect("leaders");
    assert_eq!(payload.current_slot, 100);
    assert_eq!(payload.limit, 2);
    assert_eq!(payload.slot_ms, 400);
    assert_eq!(payload.ts, 5);
    let rows = &payload.leaders;
    assert_eq!(rows.len(), 2);
    assert_eq!(rows[0].slot, 100);
    assert_eq!(rows[0].leader, "leader-1");
    assert_eq!(rows[0].ip.as_deref(), Some("127.0.0.1"));
    assert_eq!(rows[0].port.as_deref(), Some("8001"));
    assert_eq!(rows[1].slot, 101);
    assert_eq!(rows[1].ip.as_deref(), Some("192.168.1.5"));
    assert_eq!(rows[1].port.as_deref(), Some("9001"));

    for row in rows {
        let told = build_payload_for_slot(row.slot, 1, &state.leader_cache, &state.nodes_cache)
            .expect("slot payload");
        assert_eq!(told.currentValidator.as_deref(), Some(row.leader.as_str()));
        assert_eq!(told.currentTpu, row.tpu);
        assert_eq!(told.currentIp, row.ip);
        assert_eq!(told.currentPort, row.port);
    }

    let all = state.next_leaders_handler(Some("3"), 5).expect("all leaders");
    assert_eq!(all.leaders.len(), 3);
    for (row, same) in rows.iter().zip(&all.leaders) {
        assert_eq!((row.slot, &row.leader), (same.slot, &same.leader));
    }

    let response = json_response(Ok("{}".to_string()));
    assert_eq!(response.status, 200);
    assert_eq!(content_type(&response), Some("application/json"));
}

#[test]
fn http_endpoints_smoke() {
    let health = health_handler();
    assert!(health.status >= 200 && health.status < 300);
    assert_eq!(health.body, "ok");

    let docs = test_state().docs_handler();
    assert!(docs.status >= 200 && docs.status < 300);
    assert!(docs.body.contains("/api/next-leaders"));
}

#[test]
fn streams_have_their_headers_and_comments() {
    let headers = apply_stream_headers();
    assert_eq!(header(&headers, "cache-control"), Some("no-cache, no-transform"));
    assert_eq!(header(&headers, "connection"), Some("keep-alive"));
    assert_eq!(header(&headers, "x-accel-buffering"), Some("no"));
    assert_eq!(header(&headers, "access-control-allow-origin"), Some("*"));
    assert_eq!(headers.len(), 6);
    assert_eq!(STREAM_OPEN, "stream-open");
    assert_eq!(HEARTBEAT, "heartbeat");
}

#[test]
fn answers_carry_their_headers() {
    let failed = error_response("no".to_string());
    assert_eq!(failed.status, 500);
    assert_eq!(failed.body, "no");
    assert_eq!(failed.headers.len(), cors_headers().len());
    assert_eq!(header(&failed.headers, "access-control-allow-methods"), Some("GET, OPTIONS"));

    let options = options_handler();
    assert_eq!(options.status, 204);
    assert_eq!(options.body, "");
    assert_eq!(header(&options.headers, "access-control-allow-headers"), Some("Content-Type"));

    let unwritten = json_response(Err("bad".to_string()));
    assert_eq!(unwritten.status, 500);
    assert_eq!(unwritten.body, "bad");

    let written = json_response(Ok("[]".to_string()));
    assert_eq!(
        header(&written.headers, "cache-control"),
        Some("public, s-maxage=1, stale-while-revalidate=1, stale-if-error=30")
    );

    let page = test_state().index_handler();
    assert_eq!(content_type(&page), Some("text/html; charset=utf-8"));
    assert!(page.body.contains("content=\"/api/leader-stream\""));
    assert!(page.body.contains("v=1700"));
    let map = test_state().map_handler();
    assert_eq!(map.status, 200);
    assert!(map.body.contains("content=\"/api/leader-stream\""));
}

#[test]
fn unknown_slot_is_an_error() {
    let state = test_state();
    assert_eq!(
        state.current_slot_handler(1).unwrap_err(),
        "slot cache warming; try again shortly"
    );
}

#[test]
fn limits_are_clamped() {
    assert_eq!(clamp_limit(None), 1000);
    assert_eq!(clamp_limit(Some("")), 1000);
    assert_eq!(clamp_limit(Some("ten")), 1000);
    assert_eq!(clamp_limit(Some("-1")), 1000);
    assert_eq!(clamp_limit(Some("0")), 1);
    assert_eq!(clamp_limit(Some("+7")), 7);
    assert_eq!(clamp_limit(Some("5000")), 5000);
    assert_eq!(clamp_limit(Some("5001")), 5000);
    assert_eq!(clamp_limit(Some("99999999999999999999999")), 1000);
}

#[test]
fn leaders_need_a_warm_cache() {
    let mut state = test_state();
    assert_eq!(
        state.next_leaders_handler(None, 1).err().unwrap(),
        "leader cache warming; try again shortly"
    );
    state.leader_cache.start_slot = Some(10);
    assert_eq!(
        state.next_leaders_handler(None, 1).err().unwrap(),
        "leader cache warming; try again shortly"
    );
    state.leader_cache.leaders = names(&["a", "b"]);
    state.slot_informer = Some(SlotInformerUpdate {
        slot: 12,
        timestamp_ms: 1,
    });
    assert_eq!(
        state.next_leaders_handler(None, 1).err().unwrap(),
        "leader cache missing for current slot; try again shortly"
    );
    state.slot_informer = Some(SlotInformerUpdate {
        slot: 3,
        timestamp_ms: 1,
    });
    let payload = state.next_leaders_handler(None, 1).expect("leaders");
    assert_eq!(payload.current_slot, 10);
    assert_eq!(payload.limit, 1000);
    assert_eq!(payload.leaders.len(), 2);
}

#[test]
fn answers_are_handed_out_again_for_a_while() {
    let mut state = test_state();
    state.leader_cache.start_slot = Some(10);
    state.leader_cache.leaders = names(&["a", "b"]);
    let first = state.next_leaders_handler(Some("1"), 1000).expect("first");
    assert_eq!(first.ts, 1000);
    assert!(state.has_fresh_answer(1, 1999));
    let again = state.next_leaders_handler(Some("1"), 1999).expect("again");
    assert_eq!(again.ts, 1000);
    assert!(!state.has_fresh_answer(1, 2000));
    let later = state.next_leaders_handler(Some("1"), 2000).expect("later");
    assert_eq!(later.ts, 2000);
    state.slot_informer = Some(SlotInformerUpdate {
        slot: 11,
        timestamp_ms: 1,
    });
    let moved = state.next_leaders_handler(Some("1"), 2001).expect("moved");
    assert_eq!(moved.current_slot, 11);
    state.leader_cache.reset();
    let stale = state.next_leaders_handler(Some("1"), 9000).expect("stale");
    assert_eq!(stale.ts, 2001);
}

#[test]
fn rows_must_fit() {
    let mut state = test_state();
    state.leader_cache.start_slot = Some(u64::MAX);
    state.leader_cache.leaders = names(&["a", "b"]);
    assert!(state.next_leaders_fit(1, None));
    assert!(!state.next_leaders_fit(2, None));
    let payload = state.next_leaders_handler(Some("1"), 1).expect("one row");
    assert_eq!(payload.leaders[0].slot, u64::MAX);
}

#[test]
fn page_is_delivered_with_leaders() {
    let mut state = test_state();
    assert!(state.refresh_initial_payload(3).is_none());
    state.leader_cache.start_slot = Some(10);
    state.leader_cache.leaders = names(&["a", "b"]);
    let payload = state.refresh_initial_payload(3).expect("payload");
    assert_eq!(payload.limit, 200);
    let before = state.initial_html.clone();
    state.install_initial_payload(payload.clone(), None, 3);
    assert_eq!(state.initial_html, before);
    state.install_initial_payload(payload, Some("{\"x\":\"</script>\"}".to_string()), 3);
    assert!(state.initial_html.contains("{\"x\":\"<\\/script>\"}</script>"));
    assert!(state.has_fresh_answer(200, 4));
}

#[test]
fn script_text_is_made_safe() {
    assert_eq!(serialize_payload_for_html(None), None);
    assert_eq!(serialize_payload_for_html(Some("{}".to_string())).unwrap(), "{}");
    let safe = serialize_payload_for_html(Some("<</a></".to_string())).unwrap();
    assert_eq!(safe, "<<\\/a><\\/");
    assert!(!safe.contains("</"));
    assert_eq!(safe.replace("<\\/", "</"), "<</a></");
}

#[test]
fn tracking_changes_the_lookahead() {
    let mut state = test_state();
    state.leader_cache.start_slot = Some(1);
    state.leader_cache.leaders = names(&["a"]);
    assert_eq!(state.open_stream(None), None);
    assert_eq!(state.open_stream(Some("  ")), None);
    assert_eq!(state.leader_lookahead, 100);
    assert_eq!(state.leader_cache.leaders.len(), 1);
    assert_eq!(state.open_stream(Some(" a ")).as_deref(), Some("a"));
    assert_eq!(state.track_subscribers, 1);
    assert_eq!(state.leader_lookahead, 200);
    assert_eq!(state.leader_cache.leaders.len(), 0);
    state.leader_cache.start_slot = Some(1);
    state.leader_cache.leaders = names(&["a"]);
    assert_eq!(state.open_stream(Some("b")).as_deref(), Some("b"));
    assert_eq!(state.leader_cache.leaders.len(), 1);
    state.close_stream(false);
    state.close_stream(true);
    assert_eq!(state.leader_lookahead, 200);
    state.close_stream(true);
    assert_eq!(state.track_subscribers, 0);
    assert_eq!(state.leader_lookahead, 100);
    assert_eq!(state.leader_cache.start_slot, None);
    state.close_stream(true);
    assert_eq!(state.track_subscribers, usize::MAX);
    assert_eq!(state.leader_lookahead, 100);
}

#[test]
fn announcements_move_the_slot_and_the_estimate() {
    let mut state = test_state();
    assert_eq!(state.latest_slot_hint(), None);
    state.latest = Some(payload_at(5));
    assert_eq!(state.latest_slot_hint(), Some(5));
    state.record_slot_update(10, 1000, 77);
    assert_eq!(state.latest_slot_hint(), Some(10));
    assert_eq!(state.slot_ms_estimate, 400);
    assert_eq!(state.current_slot_cache.as_ref().unwrap().payload.ts, 77);
    state.record_slot_update(12, 2000, 78);
    assert_eq!(state.slot_ms_estimate, (3 * 400 + 500) / 4);
    state.record_slot_update(12, 9000, 79);
    state.record_slot_update(11, 9000, 79);
    assert_eq!(state.slot_ms_estimate, 425);
    assert_eq!(state.current_slot_cache.as_ref().unwrap().payload.ts, 78);
    state.record_slot_update(13, 1500, 80);
    assert_eq!(state.slot_ms_estimate, 425);
    state.slot_ms_estimate = 0;
    state.record_slot_update(15, 2100, 81);
    assert_eq!(state.slot_ms_estimate, 300);
    state.slot_ms_estimate = u64::MAX;
    assert!(!state.slot_update_fits(16, 3000));
    assert!(state.slot_update_fits(16, 100));
}

#[test]
fn slots_are_processed_step_by_step() {
    let mut state = test_state();
    assert!(matches!(state.process_slot(50, 9, 5000), SlotChore::AskNodes));
    let nodes = vec![
        node("a", Some("1.2.3.4:5")),
        node("b", None),
        node("b", Some("[::1]:7")),
    ];
    let request = match state.slot_nodes_answered(50, 9, 5000, Ok(nodes)) {
        SlotChore::AskLeaders(request) => request,
        _ => panic!("leaders are asked for"),
    };
    assert_eq!(
        request,
        LeadersRequest {
            start_slot: 50,
            limit: 100
        }
    );
    let payload = match state.slot_leaders_answered(50, 9, request, Ok(names(&["a", "a", "b"]))) {
        SlotChore::Publish(payload) => payload,
        _ => panic!("the slot is published"),
    };
    assert_eq!(payload.slot, 50);
    assert_eq!(payload.slotTimestamp, 9);
    assert_eq!(payload.currentValidator.as_deref(), Some("a"));
    assert_eq!(payload.currentIp.as_deref(), Some("1.2.3.4"));
    assert_eq!(payload.currentPort.as_deref(), Some("5"));
    assert_eq!(payload.nextValidator.as_deref(), Some("b"));
    assert_eq!(payload.nextIp.as_deref(), Some("::1"));
    assert_eq!(payload.nextPort.as_deref(), Some("7"));
    assert_eq!(payload.slotsUntilSwitch, Some(2));
    assert_eq!(state.latest.as_ref().unwrap().slot, 50);
    assert!(matches!(state.process_slot(50, 9, 5001), SlotChore::Done));
    assert!(matches!(state.process_slot(51, 9, 5999), SlotChore::AskLeaders(_)));
    assert!(matches!(state.process_slot(51, 9, 6000), SlotChore::AskNodes));
    match state.slot_nodes_answered(51, 9, 6000, Err("down".to_string())) {
        SlotChore::Fail(message) => assert_eq!(message, "down"),
        _ => panic!("the slot is given up"),
    }
    match state.slot_leaders_answered(51, 9, request, Err("out".to_string())) {
        SlotChore::Fail(message) => assert_eq!(message, "out"),
        _ => panic!("the slot is given up"),
    }
    assert_eq!(state.latest.as_ref().unwrap().slot, 50);
}

#[test]
fn known_leaders_are_published_at_once() {
    let mut state = test_state();
    state.nodes_cache.ts_ms = 5000;
    state
        .nodes_cache
        .nodes_by_pubkey
        .insert("a".to_string(), NodeInfo { tpu: None });
    state.leader_cache.start_slot = Some(50);
    let mut leaders = vec!["a".to_string(); 100];
    leaders[0] = String::new();
    state.leader_cache.leaders = leaders;
    match state.process_slot(50, 9, 5500) {
        SlotChore::Publish(payload) => {
            assert_eq!(payload.currentValidator, None);
            assert_eq!(payload.nextValidator, None);
            assert_eq!(payload.slotsUntilSwitch, None);
        }
        _ => panic!("the slot is published"),
    }
    assert!(matches!(state.process_slot(124, 9, 5500), SlotChore::Publish(_)));
    assert!(matches!(state.process_slot(125, 9, 5500), SlotChore::AskLeaders(_)));
}

#[test]
fn leaders_are_refreshed_step_by_step() {
    let mut state = test_state();
    match state.refresh_leader_cache(1) {
        RefreshChore::AskSlot { lookahead } => assert_eq!(lookahead, 100),
        _ => panic!("the slot is asked for"),
    }
    match state.refresh_slot_answered(100, 1, Err("down".to_string())) {
        RefreshChore::Fail(message) => assert_eq!(message, "down"),
        _ => panic!("the refresh fails"),
    }
    match state.refresh_slot_answered(100, 2, Ok(70)) {
        RefreshChore::AskNodes { slot, lookahead } => {
            assert_eq!(slot, 70);
            assert_eq!(lookahead, 100);
        }
        _ => panic!("the validators are asked for"),
    }
    assert_eq!(state.current_slot_cache.as_ref().unwrap().payload.current_slot, 70);
    let request = match state.refresh_nodes_answered(70, 100, 2, Err("down".to_string())) {
        RefreshChore::AskLeaders(request) => request,
        _ => panic!("the leaders are asked for"),
    };
    assert_eq!(request.start_slot, 70);
    match state.refresh_leaders_answered(request, Err("down".to_string())) {
        RefreshChore::Fail(message) => assert_eq!(message, "down"),
        _ => panic!("the refresh fails"),
    }
    assert!(matches!(
        state.refresh_leaders_answered(request, Ok(vec!["a".to_string(); 100])),
        RefreshChore::Done
    ));
    assert!(matches!(
        state.refresh_nodes_answered(70, 100, 3, Ok(vec![node("a", None)])),
        RefreshChore::Done
    ));
    state.record_slot_update(71, 5, 5);
    assert!(matches!(state.refresh_leader_cache(6), RefreshChore::Done));
    state.leader_lookahead = 0;
    state.leader_cache.reset();
    assert!(matches!(state.refresh_leader_cache(7), RefreshChore::Done));
}

#[test]
fn waits_grow_and_shrink_again() {
    let mut pacer = RefreshPacer::new();
    let waits: Vec<u64> = (0..7).map(|_| pacer.after_attempt(false)).collect();
    assert_eq!(waits, vec![1000, 2000, 4000, 8000, 16000, 30000, 30000]);
    assert_eq!(pacer.after_attempt(true), 1000);
    assert_eq!(pacer.after_attempt(false), 1000);
}

#[test]
fn subscribers_are_measured() {
    let mut state = test_state();
    assert!(state.subscriber_metrics(0, 1).is_none());
    let metrics = state.subscriber_metrics(2, 1).unwrap();
    assert_eq!(metrics.subscribers, 2);
    assert_eq!(metrics.latest_slot, "-");
    assert_eq!(metrics.nodes_cache_age_ms, "-");
    assert_eq!(metrics.leader_cache_end, "-");
    state.latest = Some(payload_at(5));
    state.leader_cache.start_slot = Some(5);
    state.leader_cache.leaders = names(&["a", "b"]);
    state.nodes_cache.ts_ms = 10;
    state.note_current_slot(5, 40);
    let metrics = state.subscriber_metrics(1, 30).unwrap();
    assert_eq!(metrics.latest_slot, "5");
    assert_eq!(metrics.latest_slot_ts, "7");
    assert_eq!(metrics.leader_cache_start, "5");
    assert_eq!(metrics.leader_cache_end, "6");
    assert_eq!(metrics.leader_cache_len, 2);
    assert_eq!(metrics.nodes_cache_age_ms, "20");
    assert_eq!(metrics.current_slot_cache_age_ms, "0");
    assert_eq!(metrics.track_cache_len, 0);
}

#[test]
fn stream_events_are_told() {
    match stream_step(Received::Event(StreamEvent::Error("a \"b\"\n".to_string()))) {
        StreamStep::Error(json) => {
            assert_eq!(json, "{\"message\":\"a \\\"b\\\"\\n\"}");
        }
        _ => panic!("the error is told"),
    }
    let odd = "\\ / \u{8}\u{9}\u{a}\u{c}\u{d} \u{0}\u{1b}\u{1f} \u{7f}\u{e9}\u{2028}\u{1f600}";
    match stream_step(Received::Event(StreamEvent::Error(odd.to_string()))) {
        StreamStep::Error(json) => {
            assert_eq!(
                json,
                "{\"message\":\"\\\\ / \\b\\t\\n\\f\\r \\u0000\\u001b\\u001f \u{7f}\u{e9}\u{2028}\u{1f600}\"}"
            );
            assert!(json.chars().all(|c| c >= ' '));
        }
        _ => panic!("the error is told"),
    }
    assert!(matches!(
        stream_step(Received::Event(StreamEvent::Payload(payload_at(3)))),
        StreamStep::Payload(payload) if payload.slot == 3
    ));
    assert!(matches!(
        stream_step(Received::Event(StreamEvent::Shutdown)),
        StreamStep::Stop
    ));
    assert!(matches!(stream_step(Received::Lagged), StreamStep::Skip));
    assert!(matches!(stream_step(Received::Closed), StreamStep::Stop));
}

#[test]
fn payloads_depend_on_tracking() {
    match build_payload_event(payload_at(3), Some(Some(4))) {
        ClientPayload::Tracking(payload) => {
            assert_eq!(payload.slot, 3);
            assert_eq!(payload.currentValidator.as_deref(), Some("a"));
            assert_eq!(payload.slotsUntilLeader, Some(4));
        }
        ClientPayload::Plain(_) => panic!("the client tracks"),
    }
    match build_payload_event(payload_at(3), None) {
        ClientPayload::Plain(payload) => assert_eq!(payload.slotTimestamp, 7),
        ClientPayload::Tracking(_) => panic!("the client tracks none"),
    }
}

#[test]
fn schedules_are_sorted_and_kept() {
    let epoch = EpochInfo {
        absoluteSlot: 1040,
        slotIndex: 40,
        slotsInEpoch: 100,
    };
    let schedule = schedule_from(epoch, Some(vec![60, 8, 60, 44]));
    assert_eq!(schedule.epoch_start, 1000);
    assert_eq!(schedule.slots, vec![1008, 1044, 1060, 1060]);

    let mut state = test_state();
    assert_eq!(state.resolve_slots_until_leader("v", 1040), TrackLookup::AskSchedule);
    let told = state.store_schedule("v", 1040, epoch, Some(vec![60, 8, 60, 44]));
    assert_eq!(told, Some(4));
    assert_eq!(
        state.resolve_slots_until_leader("v", 1045),
        TrackLookup::Known(Some(15))
    );
    assert_eq!(state.resolve_slots_until_leader("v", 1061), TrackLookup::Known(None));
    assert_eq!(state.resolve_slots_until_leader("v", 1100), TrackLookup::AskSchedule);
    assert_eq!(state.resolve_slots_until_leader("v", 999), TrackLookup::AskSchedule);
    state.leader_cache.start_slot = Some(1045);
    state.leader_cache.leaders = names(&["a", "v"]);
    assert_eq!(
        state.resolve_slots_until_leader("v", 1045),
        TrackLookup::Known(Some(1))
    );
    assert_eq!(state.store_schedule("w", 1040, epoch, None), None);
    assert_eq!(state.resolve_slots_until_leader("w", 1040), TrackLookup::Known(None));
    let failed = || Err("down".to_string());
    assert_eq!(state.schedule_answered("x", 1040, failed(), Ok(Some(vec![44]))), None);
    assert_eq!(state.schedule_answered("x", 1040, Ok(epoch), Err("down".to_string())), None);
    assert_eq!(state.resolve_slots_until_leader("x", 1040), TrackLookup::AskSchedule);
    assert_eq!(state.schedule_answered("x", 1040, Ok(epoch), Ok(Some(vec![44]))), Some(4));
    assert_eq!(
        state.resolve_slots_until_leader("x", 1041),
        TrackLookup::Known(Some(3))
    );
    let late = EpochInfo {
        absoluteSlot: u64::MAX,
        slotIndex: 1,
        slotsInEpoch: 5,
    };
    assert_eq!(schedule_from(late, Some(vec![9, 0])).slots, vec![u64::MAX - 1, u64::MAX]);
    let early = EpochInfo {
        absoluteSlot: 1,
        slotIndex: 5,
        slotsInEpoch: 5,
    };
    assert_eq!(schedule_from(early, None).epoch_start, 0);
}

#[test]
fn leaders_of_another_lookahead_are_forgotten() {
    let mut state = test_state();
    state.leader_cache.start_slot = Some(5);
    state.leader_cache.leaders = names(&["a", "v"]);
    state.forget_outdated(100);
    assert_eq!(state.leader_cache.leaders.len(), 2);
    state.set_leader_lookahead(300);
    assert_eq!(state.leader_cache.start_slot, None);
    state.leader_cache.start_slot = Some(5);
    state.leader_cache.leaders = names(&["a", "v"]);
    assert_eq!(state.resolve_slots_until_leader("v", 5), TrackLookup::Known(Some(1)));
    state.forget_outdated(100);
    assert_eq!(state.leader_cache.leaders.len(), 0);
    assert_eq!(state.leader_cache.start_slot, None);
}

#[test]
fn schedule_ends_with_its_epoch() {
    let schedule = TrackSchedule {
        epoch_start: 10,
        slots_in_epoch: 5,
        slots: vec![9, 12, 20],
    };
    assert!(!schedule.covers_slot(9));
    assert!(schedule.covers_slot(14));
    assert!(!schedule.covers_slot(15));
    assert_eq!(schedule.slots_until(10), Some(2));
    assert_eq!(schedule.slots_until(13), Some(7));
    assert_eq!(schedule.slots_until(15), None);
}

#[test]
fn requests_are_told_apart() {
    assert_eq!(remote_ip(Some(" 1.1.1.1 , 2.2.2.2"), Some("3.3.3.3".to_string())), "1.1.1.1");
    assert_eq!(remote_ip(Some(" , 2.2.2.2"), Some("3.3.3.3".to_string())), "3.3.3.3");
    assert_eq!(remote_ip(None, Some("3.3.3.3".to_string())), "3.3.3.3");
    assert_eq!(remote_ip(Some(""), None), "-");
    assert_eq!(request_uri(Some("/a?b"), "/a"), "/a?b");
    assert_eq!(request_uri(None, "/a"), "/a");
}
