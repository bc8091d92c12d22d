use splitrail::time::Timestamp;
use splitrail::tui::{
    activity_buckets, activity_buckets_checked, aggregate_period, animate_upload, calculate_summary_data,
    get_last_message_preview, has_data, period_fits_check, preview_positions, react, summary_if_fits, simplify_analyzer_name, update_table_states, DayRange, KeyPress, PanelRect, ScreenEvent,
    SummaryDays, TableCursor, TuiState, UiLayout, UploadStatus,
};
use splitrail::types::{AgenticCodingToolStats, Application, ConversationMessage, DailyStats, MessageRole, Stats};

fn cursor(row: usize) -> TableCursor {
    TableCursor { selected: Some(row), offset: 0, selected_column: None }
}

fn key(k: KeyPress) -> ScreenEvent {
    ScreenEvent::Key(k)
}

fn message(secs: i64, role: MessageRole, content: Option<&str>, input: u64) -> ConversationMessage {
    let mut stats = Stats::zero();
    stats.input_tokens = input;
    ConversationMessage {
        application: Application::CodexCli,
        date: Timestamp { secs, nanos: 0 },
        project_hash: String::new(),
        conversation_hash: "c".to_string(),
        local_hash: None,
        global_hash: format!("g{secs}"),
        model: None,
        stats,
        role,
        content: content.map(|c| c.to_string()),
    }
}

fn day(date: i64, input: u64, conversations: u32) -> DailyStats {
    let mut stats = Stats::zero();
    stats.input_tokens = input;
    stats.tool_calls = 2;
    DailyStats {
        date,
        user_messages: 0,
        ai_messages: 0,
        conversations,
        models: Vec::new(),
        stats,
        active_seconds: 0,
    }
}

fn analyzer(name: &str, days: Vec<DailyStats>, messages: Vec<ConversationMessage>) -> AgenticCodingToolStats {
    AgenticCodingToolStats { daily_stats: days, num_conversations: 0, messages, analyzer_name: name.to_string() }
}

#[test]
fn tabs_move_within_the_analyzers_with_data() {
    let mut state = TuiState::default();
    let mut cursors = vec![cursor(0), cursor(0)];
    let days = [3usize, 5];
    let r = react(&mut state, &mut cursors, &days, key(KeyPress::Left));
    assert!(!r.redraw);
    assert_eq!(state.selected_tab, 0);
    react(&mut state, &mut cursors, &days, key(KeyPress::Right));
    react(&mut state, &mut cursors, &days, key(KeyPress::Right));
    let r = react(&mut state, &mut cursors, &days, key(KeyPress::Right));
    assert_eq!(state.selected_tab, 2);
    assert!(!r.redraw);
}

#[test]
fn summary_tab_steps_back_at_most_thirty_days() {
    let mut state = TuiState::default();
    let mut cursors = vec![cursor(0)];
    for _ in 0..40 {
        react(&mut state, &mut cursors, &[1], key(KeyPress::Up));
    }
    assert_eq!(state.summary_day_offset, 30);
    let r = react(&mut state, &mut cursors, &[1], key(KeyPress::Down));
    assert!(r.recompute_summary);
    assert_eq!(state.summary_day_offset, 29);
}

#[test]
fn table_cursor_skips_the_separator_row() {
    let mut state = TuiState { selected_tab: 1, ..TuiState::default() };
    let mut cursors = vec![cursor(2)];
    let days = [3usize];
    react(&mut state, &mut cursors, &days, key(KeyPress::Down));
    assert_eq!(cursors[0].selected, Some(3));
    react(&mut state, &mut cursors, &days, key(KeyPress::Down));
    assert_eq!(cursors[0].selected, Some(5));
    react(&mut state, &mut cursors, &days, key(KeyPress::Up));
    assert_eq!(cursors[0].selected, Some(4));
    react(&mut state, &mut cursors, &days, key(KeyPress::Up));
    assert_eq!(cursors[0].selected, Some(2));
    react(&mut state, &mut cursors, &days, key(KeyPress::End));
    assert_eq!(cursors[0].selected, Some(4));
    react(&mut state, &mut cursors, &days, key(KeyPress::Home));
    assert_eq!(cursors[0].selected, Some(0));
    react(&mut state, &mut cursors, &days, key(KeyPress::PageDown));
    assert_eq!(cursors[0].selected, Some(4));
    react(&mut state, &mut cursors, &days, key(KeyPress::PageUp));
    assert_eq!(cursors[0].selected, Some(0));
}

#[test]
fn quit_and_mouse_toggle() {
    let mut state = TuiState { mouse_mode_enabled: true, ..TuiState::default() };
    let mut cursors = Vec::new();
    let r = react(&mut state, &mut cursors, &[], key(KeyPress::ToggleMouse));
    assert_eq!(r.mouse_capture, Some(false));
    assert!(!state.mouse_mode_enabled);
    let r = react(&mut state, &mut cursors, &[], key(KeyPress::Quit));
    assert!(r.quit);
    let r = react(&mut state, &mut cursors, &[], key(KeyPress::Right));
    assert!(!r.redraw, "navigation needs data");
}

#[test]
fn wheel_scrolls_the_panel_under_the_pointer() {
    let layout = UiLayout {
        today_by_cli_rect: Some(PanelRect { x: 0, y: 10, width: 80, height: 5 }),
        live_activity_rect: Some(PanelRect { x: 0, y: 20, width: 80, height: 5 }),
    };
    let mut state = TuiState { layout, mouse_mode_enabled: true, ..TuiState::default() };
    let mut cursors = vec![cursor(0), cursor(0), cursor(0)];
    let days = [1usize, 1, 1];
    react(&mut state, &mut cursors, &days, ScreenEvent::ScrollDown(21));
    assert_eq!(state.cli_scroll_offset, 1);
    react(&mut state, &mut cursors, &days, ScreenEvent::ScrollDown(12));
    react(&mut state, &mut cursors, &days, ScreenEvent::ScrollDown(12));
    react(&mut state, &mut cursors, &days, ScreenEvent::ScrollDown(12));
    assert_eq!(state.cli_table_scroll_offset, 2);
    let r = react(&mut state, &mut cursors, &days, ScreenEvent::ScrollUp(0));
    assert!(!r.redraw);
}

#[test]
fn upload_dots_advance_every_fifth_frame() {
    let mut status = UploadStatus::Uploading { current: 1, total: 9, dots: 3 };
    let mut frames = 0u32;
    for _ in 0..4 {
        assert!(!animate_upload(&mut status, &mut frames));
    }
    assert!(animate_upload(&mut status, &mut frames));
    assert!(matches!(status, UploadStatus::Uploading { dots: 0, current: 1, total: 9 }));
    let mut idle = UploadStatus::Uploaded;
    let mut frames = 3u32;
    assert!(!animate_upload(&mut idle, &mut frames));
    assert_eq!(frames, 0);
}

#[test]
fn table_cursors_follow_their_analyzer_positions() {
    let mut cursors = vec![cursor(4), cursor(7)];
    let names = vec!["Codex CLI".to_string(), "Kilo Code".to_string(), "Qwen Code".to_string()];
    let mut tab = 9usize;
    update_table_states(&mut cursors, &names, &mut tab);
    assert_eq!(cursors, vec![cursor(4), cursor(7), cursor(0)]);
    assert_eq!(tab, 3);
}

#[test]
fn analyzers_show_data_from_conversations_tokens_or_cost() {
    let empty = analyzer("x", vec![day(1, 0, 0)], Vec::new());
    let mut quiet = empty.clone();
    quiet.daily_stats[0].stats.tool_calls = 0;
    assert!(!has_data(&quiet, &[false]));
    assert!(has_data(&quiet, &[true]));
    assert!(has_data(&analyzer("x", vec![day(1, 5, 0)], Vec::new()), &[false]));
    let mut talked = quiet.clone();
    talked.num_conversations = 1;
    assert!(has_data(&talked, &[false]));
}

#[test]
fn analyzer_names_are_shortened() {
    assert_eq!(simplify_analyzer_name("Codex CLI"), "Codex");
    assert_eq!(simplify_analyzer_name("Q CLI"), "Q");
    assert_eq!(simplify_analyzer_name("Kiro CLI"), "Kiro CLI");
}

#[test]
fn activity_buckets_cover_the_last_hour() {
    let now = Timestamp { secs: 10_000, nanos: 0 };
    let messages = vec![
        message(10_000, MessageRole::User, None, 0),
        message(9_970, MessageRole::User, None, 7),
        message(10_000 - 3599, MessageRole::User, None, 2),
        message(10_000 - 3600, MessageRole::User, None, 50),
        message(10_005, MessageRole::User, None, 50),
    ];
    let b = activity_buckets(&messages, &now);
    assert_eq!(b.len(), 120);
    assert_eq!(b[119], 1);
    assert_eq!(b[118], 7);
    assert_eq!(b[0], 2);
    assert_eq!(b.iter().sum::<u64>(), 10);
}

#[test]
fn summary_periods_add_up_their_days() {
    let stats = vec![
        analyzer("a", vec![day(100, 1, 1), day(95, 10, 2), day(80, 100, 3)], Vec::new()),
        analyzer("b", vec![day(99, 1000, 4)], Vec::new()),
    ];
    let days = SummaryDays { today: 100, yesterday: 99, week_ago: 93, two_weeks_ago: 86, selected_day: 95 };
    let s = calculate_summary_data(&stats, days, 5);
    assert_eq!(s.today_stats.input_tokens, 1);
    assert_eq!(s.yesterday_stats.input_tokens, 1000);
    assert_eq!(s.week_stats.input_tokens, 1011);
    assert_eq!(s.week_stats.conversations, 7);
    assert_eq!(s.two_week_stats.days, vec![(0, 0), (0, 1), (1, 0)]);
    assert_eq!(s.selected_day_stats.tool_calls, 2);
    assert_eq!(s.active_clis, 2);
    let all = aggregate_period(&stats, DayRange { from: i64::MIN, to: i64::MAX });
    assert_eq!(all.input_tokens, 1111);
}

#[test]
fn preview_shows_the_five_newest_messages_with_text_oldest_first() {
    let mut messages = Vec::new();
    for i in 0..7 {
        messages.push(message(100 + i, MessageRole::Assistant, Some(&format!("m{i}\nline")), 0));
    }
    messages.push(message(500, MessageRole::User, Some("  \n\r "), 0));
    messages.push(message(90, MessageRole::User, None, 0));
    let stats = analyzer("Codex CLI", Vec::new(), messages);
    let (who, lines) = get_last_message_preview(&stats, "ana");
    assert_eq!(who, "ana");
    assert_eq!(lines.len(), 5);
    assert_eq!(lines[0].content, "m2 line");
    assert_eq!(lines[4].content, "m6 line");
    assert_eq!(lines[4].role_name, "Codex");
    let picked = preview_positions(&stats.messages);
    assert_eq!(picked, vec![6, 5, 4, 3, 2]);
    let none = analyzer("Codex CLI", Vec::new(), Vec::new());
    assert_eq!(get_last_message_preview(&none, "ana").0, "—");
}

#[test]
fn preview_ties_keep_the_earlier_listed_message_newer() {
    let messages = vec![
        message(5, MessageRole::User, Some("first"), 0),
        message(5, MessageRole::Assistant, Some("second"), 0),
    ];
    let stats = analyzer("Kilo Code", Vec::new(), messages);
    assert_eq!(preview_positions(&stats.messages), vec![0, 1]);
    let (who, lines) = get_last_message_preview(&stats, "ana");
    assert_eq!(who, "Kilo", "the last of the equally new messages decides");
    assert_eq!(lines[0].content, "second");
}

#[test]
fn checked_buckets_refuse_what_the_clock_cannot_hold() {
    let now = Timestamp { secs: 10_000, nanos: 0 };
    let messages = vec![message(9_970, MessageRole::User, None, 7)];
    assert_eq!(activity_buckets_checked(&messages, &now), Some(activity_buckets(&messages, &now)));
    let bad_now = Timestamp { secs: 10_000, nanos: 1_000_000_000 };
    assert_eq!(activity_buckets_checked(&messages, &bad_now), None);
    let far = vec![message(i64::MAX, MessageRole::User, None, 7)];
    assert_eq!(activity_buckets_checked(&far, &now), None);
    let heavy = vec![message(9_000, MessageRole::User, None, u64::MAX), message(9_001, MessageRole::User, None, 1)];
    assert_eq!(activity_buckets_checked(&heavy, &now), None);
}

#[test]
fn summary_is_refused_only_when_a_period_total_overflows() {
    let days = SummaryDays { today: 100, yesterday: 99, week_ago: 93, two_weeks_ago: 86, selected_day: 95 };
    let fine = vec![analyzer("a", vec![day(100, 1, 1), day(95, 10, 2)], Vec::new())];
    let s = summary_if_fits(&fine, days, 5).expect("fits");
    assert_eq!(s.week_stats.input_tokens, 11);
    // two huge days outside every period do not matter
    let old = vec![analyzer("a", vec![day(10, u64::MAX, 0), day(11, u64::MAX, 0), day(100, 1, 1)], Vec::new())];
    assert_eq!(summary_if_fits(&old, days, 0).expect("fits").today_stats.input_tokens, 1);
    let recent = vec![analyzer("a", vec![day(99, u64::MAX, 0), day(100, 1, 1)], Vec::new())];
    assert!(summary_if_fits(&recent, days, 0).is_none());
    assert!(!period_fits_check(&recent, DayRange { from: 90, to: i64::MAX }));
    assert!(period_fits_check(&recent, DayRange { from: 100, to: 100 }));
}
