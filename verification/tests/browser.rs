use leader_stream::page::{
    start_plan, FetchPlan, LeadersData, PageState, Resumed, SlotUpdate, StartPlan, StreamUpdate,
    TableUpdate,
};
use leader_stream::rows::{group_leaders, group_leaders_with_limit, LeaderRow, LeaderSlot};
use leader_stream::table::{row_matches_prefix, LeaderTable, RowAction};
use leader_stream::wasm_app::{
    build_params, clears_filter, copies, copy_feedback, empty_row, get_initial_config,
    has_initial_payload, insert_row_in_order, js_error_message, leaders_url, normalize_prefix,
    parse_limit, resolve_leader_stream_url, resumes, set_copy_cell, text_to_restore,
    update_active_row, validator_link, value_to_copy, InitialConfig, RowMark,
};

fn slot(slot: i64, leader: &str) -> LeaderSlot {
    LeaderSlot {
        slot,
        leader: leader.to_string(),
        tpu: None,
        ip: None,
        port: None,
    }
}

fn slots(from: i64, leaders: &[&str]) -> Vec<LeaderSlot> {
    leaders
        .iter()
        .enumerate()
        .map(|(index, leader)| slot(from + index as i64, leader))
        .collect()
}

fn run(start: i64, end: i64, leader: &str) -> LeaderRow {
    LeaderRow {
        start_slot: start,
        end_slot: end,
        range_start: start,
        leader: leader.to_string(),
        tpu: None,
        ip: None,
        port: None,
    }
}

fn shape(rows: &[LeaderRow]) -> Vec<(i64, i64, i64, &str)> {
    rows.iter()
        .map(|row| (row.start_slot, row.end_slot, row.range_start, row.leader.as_str()))
        .collect()
}

fn named(actions: &[RowAction]) -> Vec<String> {
    actions
        .iter()
        .map(|action| match action {
            RowAction::Remove(slot) => format!("remove {}", slot),
            RowAction::Refresh(row) => format!("refresh {}", row.start_slot),
            RowAction::Create(row) => format!("create {}", row.start_slot),
            RowAction::Move { from, row } => format!("move {} {}", from, row.start_slot),
        })
        .collect()
}

fn page(leaders: &[&str]) -> PageState {
    let mut state = PageState::new(true);
    state.apply_leaders_payload(
        LeadersData {
            current_slot: 10,
            limit: 5000,
            leaders: Some(slots(10, leaders)),
        },
        5000,
    );
    state
}

#[test]
fn slots_are_grouped() {
    assert!(group_leaders(&vec![]).is_empty());
    let rows = slots(10, &["a", "a", "b", "b", "b", "a"]);
    assert_eq!(
        shape(&group_leaders(&rows)),
        vec![(10, 11, 10, "a"), (12, 14, 12, "b"), (15, 15, 15, "a")]
    );
    assert_eq!(
        shape(&group_leaders_with_limit(&rows, Some(2))),
        vec![(10, 11, 10, "a"), (12, 13, 12, "b"), (14, 14, 14, "b"), (15, 15, 15, "a")]
    );
    assert_eq!(group_leaders_with_limit(&rows, Some(0)).len(), 6);
    let gap = vec![slot(1, "a"), slot(3, "a"), slot(2, "a")];
    assert_eq!(group_leaders(&gap).len(), 3);
    assert_eq!(group_leaders(&vec![slot(i64::MAX, "a"), slot(i64::MIN, "a")]).len(), 2);
}

#[test]
fn groups_take_the_first_known_address() {
    let mut rows = slots(1, &["a", "a", "a"]);
    rows[1].tpu = Some("x:1".to_string());
    rows[2].tpu = Some("y:2".to_string());
    rows[2].ip = Some("y".to_string());
    let groups = group_leaders(&rows);
    assert_eq!(groups.len(), 1);
    assert_eq!(groups[0].tpu.as_deref(), Some("x:1"));
    assert_eq!(groups[0].ip.as_deref(), Some("y"));
    assert_eq!(groups[0].port, None);
}

#[test]
fn tables_are_kept_in_order() {
    let mut table = LeaderTable::new();
    table.render(&vec![run(5, 6, "b"), run(1, 2, "a"), run(5, 9, "c"), run(3, 3, "d")]);
    assert_eq!(
        shape(&table.rows),
        vec![(1, 2, 1, "a"), (3, 3, 3, "d"), (5, 9, 5, "c")]
    );
    assert_eq!(table.count(""), 8);
    assert_eq!(table.count("c"), 5);
    assert_eq!(table.marks("c"), vec![(1, false), (3, false), (5, true)]);
    let actions = table.reconcile(&vec![run(3, 4, "d"), run(7, 7, "e"), run(7, 8, "f")]);
    assert_eq!(
        named(&actions),
        vec!["remove 1", "remove 5", "refresh 3", "create 7", "refresh 7"]
    );
    assert_eq!(shape(&table.rows), vec![(3, 4, 3, "d"), (7, 8, 7, "f")]);
}

#[test]
fn tables_lose_what_is_over() {
    let mut table = LeaderTable::new();
    table.render(&vec![run(1, 4, "a"), run(5, 8, "b"), run(9, 9, "c")]);
    assert_eq!(named(&table.prune(3)), vec!["move 1 3"]);
    assert_eq!(shape(&table.rows)[0], (3, 4, 1, "a"));
    assert!(table.prune(3).is_empty());
    assert_eq!(named(&table.prune(6)), vec!["remove 3", "move 5 6"]);
    assert_eq!(shape(&table.rows), vec![(6, 8, 5, "b"), (9, 9, 9, "c")]);
    let mut direct = LeaderTable::new();
    direct.render(&vec![run(1, 4, "a"), run(5, 8, "b"), run(9, 9, "c")]);
    direct.prune(6);
    assert_eq!(shape(&direct.rows), shape(&table.rows));
    assert_eq!(named(&table.prune(20)), vec!["remove 6", "remove 9"]);
    assert!(table.is_empty());
}

#[test]
fn overlapping_runs_give_way() {
    let mut table = LeaderTable::new();
    table.render(&vec![run(1, 9, "a"), run(4, 5, "b"), run(6, 7, "c")]);
    assert_eq!(named(&table.prune(4)), vec!["move 1 4"]);
    assert_eq!(shape(&table.rows), vec![(4, 9, 1, "a"), (6, 7, 6, "c")]);
    let mut table = LeaderTable::new();
    table.render(&vec![run(1, 9, "a"), run(2, 8, "b")]);
    assert_eq!(named(&table.prune(4)), vec!["move 1 4", "move 2 4"]);
    assert_eq!(shape(&table.rows), vec![(4, 8, 2, "b")]);
}

#[test]
fn limits_are_parsed() {
    assert_eq!(parse_limit("20"), 20);
    assert_eq!(parse_limit("0"), 1);
    assert_eq!(parse_limit("-9"), 1);
    assert_eq!(parse_limit("9000"), 5000);
    assert_eq!(parse_limit("x"), 5000);
    assert_eq!(
        get_initial_config(None, None, None, false),
        InitialConfig {
            limit: 5000,
            window_override: None
        }
    );
    assert_eq!(
        get_initial_config(Some("300"), None, Some("10"), false),
        InitialConfig {
            limit: 300,
            window_override: Some(10)
        }
    );
    assert_eq!(
        get_initial_config(Some("300"), Some("1000"), Some("10"), true),
        InitialConfig {
            limit: 200,
            window_override: Some(200)
        }
    );
}

#[test]
fn small_decisions() {
    assert_eq!(resolve_leader_stream_url(Some(" /x ")), "/x");
    assert_eq!(resolve_leader_stream_url(Some(" ")), "/api/leader-stream");
    assert_eq!(resolve_leader_stream_url(None), "/api/leader-stream");
    assert!(has_initial_payload(" {} "));
    assert!(!has_initial_payload(" \n"));
    assert_eq!(normalize_prefix(" ab "), "ab");
    assert_eq!(build_params(7), "limit=7");
    assert_eq!(leaders_url(7), "/api/next-leaders?limit=7");
    assert_eq!(js_error_message(Some("t".to_string()), Some("m".to_string()), "f"), "t");
    assert_eq!(js_error_message(None, Some("m".to_string()), "f"), "m");
    assert_eq!(js_error_message(None, None, "f"), "f");
    for name in ["mouseleave", "focusout", "pointerleave"] {
        assert!(resumes(name));
    }
    for name in ["mouseenter", "focusin", "pointerenter"] {
        assert!(!resumes(name));
    }
    assert!(clears_filter("Escape") && !clears_filter("Enter"));
    assert!(copies("Enter") && copies(" ") && !copies("a"));
    assert_eq!(copy_feedback(true, "Copied!"), "Copied!");
    assert_eq!(copy_feedback(false, "Copied!"), "Copy failed");
    assert_eq!(empty_row("m"), "<tr><td colspan=\"5\" class=\"empty\">m</td></tr>");
    assert_eq!(
        validator_link("v"),
        "https://www.validators.app/validators?q=v&network=mainnet"
    );
    assert!(row_matches_prefix(&run(1, 1, "abc"), "ab"));
    assert!(!row_matches_prefix(&run(1, 1, "abc"), "bc"));
    assert!(row_matches_prefix(&run(1, 1, "abc"), ""));
}

#[test]
fn copy_cells_need_a_value() {
    let cell = set_copy_cell(Some("x:1"), "x:1");
    assert!(cell.copyable);
    assert_eq!(cell.value, "x:1");
    let cell = set_copy_cell(None, "-");
    assert!(!cell.copyable);
    assert_eq!((cell.display.as_str(), cell.value.as_str()), ("-", ""));
    assert!(!set_copy_cell(Some(""), "").copyable);
    assert_eq!(value_to_copy(Some("v".to_string())).as_deref(), Some("v"));
    assert_eq!(value_to_copy(Some(String::new())), None);
    assert_eq!(value_to_copy(None), None);
    assert_eq!(text_to_restore(Some("d".to_string()), Some("t".to_string())), "d");
    assert_eq!(text_to_restore(None, Some("t".to_string())), "t");
    assert_eq!(text_to_restore(None, None), "");
}

#[test]
fn table_names_the_leaders_of_coming_slots() {
    let leaders = ["a", "a", "b", "a", "c", "c", "c"];
    for next in 8..20 {
        let mut table = LeaderTable::new();
        table.render(&group_leaders(&slots(10, &leaders)));
        assert_eq!(table.count(""), 7);
        table.prune(next);
        for at in 8..20 {
            let found: Vec<&str> = table
                .rows
                .iter()
                .filter(|row| row.start_slot <= at && at <= row.end_slot)
                .map(|row| row.leader.as_str())
                .collect();
            let expected: Vec<&str> = if at >= next && (10..17).contains(&at) {
                vec![leaders[(at - 10) as usize]]
            } else {
                vec![]
            };
            assert_eq!(found, expected);
        }
    }
}

fn mark(exiting: bool, filtered: bool, slot: Option<&str>) -> RowMark {
    RowMark {
        exiting,
        filtered,
        slot: slot.map(|text| text.to_string()),
    }
}

#[test]
fn rows_find_their_place() {
    let marks = vec![
        mark(true, false, Some("9")),
        mark(false, true, Some("3")),
        mark(false, false, Some("x")),
        mark(false, false, Some("7")),
    ];
    assert_eq!(update_active_row(&marks), Some(2));
    assert_eq!(insert_row_in_order(&marks, 2), Some(1));
    assert_eq!(insert_row_in_order(&marks, 3), Some(3));
    assert_eq!(insert_row_in_order(&marks, 7), None);
    assert_eq!(update_active_row(&vec![mark(false, true, None)]), None);
}

#[test]
fn page_starts() {
    let mut state = PageState::new(true);
    assert_eq!(state.last_limit, 5000);
    assert_eq!(state.format_slots_until(3), "-");
    assert_eq!(state.update_meta("now"), "");
    state.configure(
        InitialConfig {
            limit: 100,
            window_override: Some(30),
        },
        Some(" ab "),
    );
    assert_eq!(state.max_visible_rows, 30);
    assert_eq!(state.filter_prefix, "ab");
    assert_eq!(state.update_filter_summary(), "No leaders loaded");
    assert_eq!(start_plan(100, None), StartPlan::Fetch);
    assert_eq!(start_plan(100, Some(50)), StartPlan::ShowAndFetch);
    assert_eq!(start_plan(100, Some(100)), StartPlan::Show);
    assert_eq!(start_plan(100, Some(-5)), StartPlan::ShowAndFetch);
    assert_eq!(start_plan(0, Some(-5)), StartPlan::Show);
}

#[test]
fn leaders_are_shown() {
    let mut state = page(&["a", "a", "b"]);
    assert_eq!(state.visible_slot_count, 3);
    assert_eq!(state.current_slot, Some(10));
    assert_eq!(state.update_meta("12:00"), "Slot 10 - 3/5000 slots - 12:00");
    assert_eq!(state.update_filter_summary(), "All leaders");
    assert_eq!(
        state.update_status_loaded(None, false).unwrap(),
        "Showing 3 next slots"
    );
    state.set_filter(" b ");
    assert_eq!(state.visible_slot_count, 1);
    assert_eq!(state.update_filter_summary(), "1 slot match");
    assert_eq!(state.update_meta("x"), "Slot 10 - 1/5000 slots (filtered) - x");
    assert_eq!(state.apply_filter_to_table(), vec![(10, false), (12, true)]);
    assert_eq!(state.update_status_loaded(Some("error"), false), None);
    assert_eq!(
        state.update_status_loaded(Some("error"), true).unwrap(),
        "Showing 1 next slots (filtered)"
    );
    state.set_filter("a");
    assert_eq!(state.update_filter_summary(), "2 slots match");
}

#[test]
fn payloads_are_cut_and_pruned() {
    let mut state = PageState::new(true);
    state.window_override = Some(3);
    let update = state.apply_leaders_payload(
        LeadersData {
            current_slot: 11,
            limit: 2000,
            leaders: Some(slots(10, &["a", "a", "b", "b"])),
        },
        500,
    );
    assert!(update.advanced);
    assert!(matches!(update.table, TableUpdate::Rendered));
    assert_eq!(shape(&update.rows), vec![(10, 11, 10, "a"), (12, 12, 12, "b")]);
    assert_eq!(named(&update.pruned.unwrap()), vec!["move 10 11"]);
    assert_eq!(state.last_limit, 500);
    assert_eq!(state.max_visible_rows, 3);
    assert_eq!(state.visible_slot_count, 2);

    let update = state.apply_leaders_payload(
        LeadersData {
            current_slot: 5,
            limit: 0,
            leaders: Some(slots(12, &["b", "c"])),
        },
        -3,
    );
    assert!(!update.advanced);
    assert_eq!(state.current_slot, Some(11));
    assert_eq!(state.last_limit, 1);
    match update.table {
        TableUpdate::Changed(actions) => assert_eq!(named(&actions), vec!["remove 11", "refresh 12"]),
        _ => panic!("rows are changed"),
    }

    let update = state.apply_leaders_payload(
        LeadersData {
            current_slot: 12,
            limit: 9,
            leaders: None,
        },
        9,
    );
    assert!(matches!(update.table, TableUpdate::Cleared));
    assert!(update.pruned.is_none());
    assert!(state.table.is_empty());

    let mut bare = PageState::new(false);
    let update = bare.apply_leaders_payload(
        LeadersData {
            current_slot: 1,
            limit: 9,
            leaders: Some(slots(1, &["a"])),
        },
        9,
    );
    assert!(matches!(update.table, TableUpdate::Untouched));
    assert!(bare.table.is_empty());
}

#[test]
fn slots_advance() {
    let mut state = page(&["a", "a", "b"]);
    assert!(matches!(state.apply_slot_update(10), SlotUpdate::Ignored));
    match state.apply_slot_update(11) {
        SlotUpdate::Advanced(Some(actions)) => assert_eq!(named(&actions), vec!["move 10 11"]),
        _ => panic!("the slot is taken in"),
    }
    assert_eq!(state.visible_slot_count, 2);
    assert_eq!(state.format_slots_until(11), "0");
    assert_eq!(state.format_slots_until(15), "4");
    assert_eq!(state.format_slots_until(i64::MIN), "0");
    assert_eq!(state.row_until("13").unwrap(), "2");
    assert_eq!(state.row_until("x"), None);
    state.current_slot = Some(i64::MIN);
    assert_eq!(state.format_slots_until(i64::MAX), u64::MAX.to_string());
    let mut empty = PageState::new(true);
    assert!(matches!(empty.apply_slot_update(4), SlotUpdate::Advanced(None)));
}

#[test]
fn pauses_hold_slots_back() {
    let mut state = page(&["a", "a", "b"]);
    assert!(matches!(state.resume_updates(), Resumed::NotPaused));
    assert!(state.update_eta_cells());
    assert!(state.pause_updates());
    assert!(!state.pause_updates());
    assert!(!state.update_eta_cells());
    assert_eq!(state.auto_refresh_limit(), None);
    assert!(matches!(state.resume_updates(), Resumed::Refresh));
    assert_eq!(state.auto_refresh_limit(), Some(5000));
    state.pause_updates();
    assert!(matches!(state.handle_stream_slot(11), StreamUpdate::Queued));
    assert!(matches!(state.handle_stream_slot(12), StreamUpdate::Queued));
    assert_eq!(state.current_slot, Some(10));
    assert!(matches!(state.resume_updates(), Resumed::Slot(SlotUpdate::Advanced(_))));
    assert_eq!(state.pending_slot, None);

    let mut direct = page(&["a", "a", "b"]);
    assert!(matches!(
        direct.handle_stream_slot(12),
        StreamUpdate::Slot(SlotUpdate::Advanced(_))
    ));
    assert_eq!(direct.current_slot, state.current_slot);
    assert_eq!(shape(&direct.table.rows), shape(&state.table.rows));
}

#[test]
fn requests_do_not_overlap() {
    let mut state = page(&["a"]);
    assert_eq!(state.fetch_leaders(true), FetchPlan::Fetch);
    assert_eq!(state.visible_slot_count, 1);
    assert_eq!(state.fetch_leaders(false), FetchPlan::Skip);
    state.fetch_failed(true);
    assert_eq!(state.visible_slot_count, 1);
    assert_eq!(state.fetch_leaders(false), FetchPlan::Fetch);
    assert_eq!(state.visible_slot_count, 0);
    state.fetch_succeeded();
    assert!(!state.is_loading);
    let mut state = page(&["a"]);
    state.fetch_leaders(true);
    state.fetch_failed(false);
    assert!(state.table.is_empty());
    assert!(!state.is_loading);
}

#[test]
fn rows_have_their_cells() {
    let state = page(&["a", "a"]);
    let mut row = run(11, 14, "v");
    row.range_start = 10;
    let cells = state.apply_row_data(&row);
    assert_eq!(cells.data_slot, "11");
    assert_eq!(cells.data_end_slot, "14");
    assert_eq!(cells.slot, "10");
    assert_eq!(cells.until, "0");
    assert_eq!(cells.tpu.display, "-");
    row.tpu = Some("h:1".to_string());
    let cells = state.apply_row_data(&row);
    assert_eq!(cells.tpu.value, "h:1");
    assert!(cells.tpu.copyable);
}

#[test]
fn copied_cells_are_numbered() {
    let mut state = PageState::new(true);
    assert_eq!(state.ensure_copy_id(None), (1, true));
    assert_eq!(state.ensure_copy_id(Some("7")), (7, false));
    assert_eq!(state.ensure_copy_id(Some("x")), (2, true));
    assert_eq!(state.next_copy_id, 3);
}
