use splitrail::aggregate::aggregate_by_date;
use splitrail::hashing::hash_text;
use splitrail::time::Timestamp;
use splitrail::types::{AgenticCodingToolStats, Application, ConversationMessage, MessageRole, Stats};
use splitrail::utils::{
    format_number, keep_last_lines, live_window_cutoff, log_cut_offset, log_line, retain_live_window, NumberFormatOptions,
    WarningLog,
};

const DAY_2024_01_01: i64 = 19723;
const NOON: i64 = 12 * 3600;

fn at_secs(secs: i64) -> Timestamp {
    Timestamp { secs, nanos: 0 }
}

fn message(date: Timestamp, role: MessageRole, input: u64, output: u64) -> ConversationMessage {
    let mut stats = Stats::zero();
    stats.input_tokens = input;
    stats.output_tokens = output;
    stats.tool_calls = 1;
    ConversationMessage {
        application: Application::CodexCli,
        date,
        project_hash: "test_project".to_string(),
        conversation_hash: "test_conversation".to_string(),
        local_hash: Some("test_local_hash".to_string()),
        global_hash: "test_global_hash".to_string(),
        model: if role == MessageRole::Assistant { Some("gpt-4o".to_string()) } else { None },
        stats,
        role,
        content: Some("Test message".to_string()),
    }
}

fn on_day(day: i64, role: MessageRole) -> ConversationMessage {
    message(at_secs(day * 86400 + NOON), role, 1000, 500)
}

fn with_model(day: i64, model: &str) -> ConversationMessage {
    let mut m = message(at_secs(day * 86400 + NOON), MessageRole::User, 1000, 500);
    m.model = Some(model.to_string());
    m
}

#[test]
fn test_hash_text_consistency() {
    let text = "test message content";
    let hash1 = hash_text(text);
    let hash2 = hash_text(text);
    assert_eq!(hash1, hash2);
    assert!(!hash1.is_empty());
    assert_eq!(hash1.len(), 64);
}

#[test]
fn test_hash_text_uniqueness() {
    assert_ne!(hash_text("test message content 1"), hash_text("test message content 2"));
}

#[test]
fn test_hash_text_empty_string() {
    let hash = hash_text("");
    assert!(!hash.is_empty());
    assert_eq!(hash.len(), 64);
}

#[test]
fn hash_text_is_the_sha256_of_the_text() {
    assert_eq!(hash_text(""), "e3b0c44298fc1c149afbf4c8996fb92427ae41e4649b934ca495991b7852b855");
    assert_eq!(hash_text("abc"), "ba7816bf8f01cfea414140de5dae2223b00361a396177a9cb410ff61f20015ad");
}

#[test]
fn aggregate_records_active_seconds_from_sub_15_minute_gaps() {
    let base = DAY_2024_01_01 * 86400;
    let at = |h: i64, m: i64| {
        let mut msg = message(at_secs(base + h * 3600 + m * 60), MessageRole::User, 0, 0);
        msg.conversation_hash = "c".to_string();
        msg
    };
    let messages = vec![at(12, 40), at(12, 0), at(12, 50), at(12, 5)];
    let days = vec![DAY_2024_01_01; 4];
    let result = aggregate_by_date(&messages, &days, DAY_2024_01_01);
    let day = result.iter().find(|d| d.active_seconds > 0).expect("the populated day should record active time");
    assert_eq!(day.active_seconds, 900, "300 s + 600 s, excluding the 35 min gap");
}

#[test]
fn test_aggregate_by_date_empty() {
    let result = aggregate_by_date(&[], &[], DAY_2024_01_01);
    assert!(result.is_empty());
}

#[test]
fn test_aggregate_by_date_single_message() {
    let today = DAY_2024_01_01 + 3;
    let messages = vec![on_day(DAY_2024_01_01, MessageRole::User)];
    let result = aggregate_by_date(&messages, &[DAY_2024_01_01], today);
    assert_eq!(result.len(), 4, "gaps are filled through today");
    assert_eq!(result[0].date, DAY_2024_01_01);
    assert_eq!(result[3].date, today);
    assert_eq!(result[0].user_messages, 1);
    assert_eq!(result[0].ai_messages, 0);
    assert_eq!(result[0].conversations, 1);
}

#[test]
fn test_aggregate_by_date_multiple_messages() {
    let messages = vec![
        on_day(DAY_2024_01_01, MessageRole::User),
        on_day(DAY_2024_01_01, MessageRole::Assistant),
        on_day(DAY_2024_01_01 + 1, MessageRole::User),
    ];
    let days = vec![DAY_2024_01_01, DAY_2024_01_01, DAY_2024_01_01 + 1];
    let result = aggregate_by_date(&messages, &days, DAY_2024_01_01 + 1);
    assert_eq!(result.len(), 2);
    let day1 = &result[0];
    assert_eq!(day1.user_messages, 1);
    assert_eq!(day1.ai_messages, 1);
    assert_eq!(day1.conversations, 1);
    let day2 = &result[1];
    assert_eq!(day2.date, DAY_2024_01_01 + 1);
    assert_eq!(day2.user_messages, 1);
    assert_eq!(day2.ai_messages, 0);
    assert_eq!(day2.conversations, 0);
}

#[test]
fn test_aggregate_by_date_stats_accumulation() {
    let messages = vec![
        message(at_secs(DAY_2024_01_01 * 86400 + NOON), MessageRole::Assistant, 1000, 500),
        message(at_secs(DAY_2024_01_01 * 86400 + NOON), MessageRole::Assistant, 2000, 1000),
    ];
    let result = aggregate_by_date(&messages, &[DAY_2024_01_01, DAY_2024_01_01], DAY_2024_01_01);
    let day_stats = &result[0];
    assert_eq!(day_stats.stats.input_tokens, 3000, "Input tokens should be sum of all messages");
    assert_eq!(day_stats.stats.output_tokens, 1500, "Output tokens should be sum of all messages");
    assert_eq!(day_stats.stats.tool_calls, 2, "Tool calls should be sum of all message tool calls");
}

#[test]
fn user_messages_add_no_tokens_to_a_day() {
    let messages = vec![message(at_secs(DAY_2024_01_01 * 86400 + NOON), MessageRole::User, 1000, 500)];
    let result = aggregate_by_date(&messages, &[DAY_2024_01_01], DAY_2024_01_01);
    assert_eq!(result[0].stats.input_tokens, 0);
    assert_eq!(result[0].user_messages, 1);
}

#[test]
fn test_aggregate_by_date_model_tracking() {
    let messages = vec![
        with_model(DAY_2024_01_01, "gpt-4o"),
        with_model(DAY_2024_01_01, "gpt-4o"),
        with_model(DAY_2024_01_01, "gpt-4o-mini"),
    ];
    let result = aggregate_by_date(&messages, &[DAY_2024_01_01; 3], DAY_2024_01_01);
    let models = &result[0].models;
    assert_eq!(models.len(), 2);
    let count = |name: &str| models.iter().find(|m| m.name == name).map(|m| m.count);
    assert_eq!(count("gpt-4o"), Some(2));
    assert_eq!(count("gpt-4o-mini"), Some(1));
}

#[test]
fn test_format_number_basic() {
    let options = NumberFormatOptions::default();
    assert_eq!(format_number(0, &options).as_deref(), Some("0"));
    assert_eq!(format_number(123, &options).as_deref(), Some("123"));
    assert_eq!(format_number(1234567, &options).as_deref(), Some("1234567"));
}

#[test]
fn test_format_number_comma() {
    let options = NumberFormatOptions { use_comma: true, use_human: false, locale: "en".to_string(), decimal_places: 0 };
    assert_eq!(format_number(1234567, &options).as_deref(), Some("1,234,567"));
    assert_eq!(format_number(1234567890, &options).as_deref(), Some("1,234,567,890"));
}

#[test]
fn test_format_number_human() {
    let options = NumberFormatOptions { use_comma: false, use_human: true, locale: "en".to_string(), decimal_places: 1 };
    assert_eq!(format_number(999, &options).as_deref(), Some("999"));
    // Scaled figures need a fractional division, which the caller does.
    assert_eq!(format_number(1000, &options), None);
    assert_eq!(format_number(2500000000, &options), None);
}

#[test]
fn format_number_groups_by_locale() {
    let options = NumberFormatOptions { use_comma: true, use_human: false, locale: "de".to_string(), decimal_places: 0 };
    assert_eq!(format_number(1234567, &options).as_deref(), Some("1.234.567"));
}

#[test]
fn test_warn_once_functionality() {
    let now = at_secs(1_700_000_000);
    let mut log = WarningLog::new();
    log.warn_once("Test warning message".to_string(), now);
    let warnings = log.get_warnings(now);
    assert_eq!(warnings.len(), 1);
    assert!(warnings[0].contains("Test warning message"));
    log.warn_once("Test warning message".to_string(), now);
    assert_eq!(log.get_warnings(now).len(), 1);
    log.warn_once("Different warning message".to_string(), now);
    assert_eq!(log.get_warnings(now).len(), 2);
}

#[test]
fn live_window_drops_old_messages_but_keeps_their_aggregates() {
    let now = at_secs(1717243200); // 2024-06-01T12:00:00Z
    let msg = |secs: i64| {
        let mut m = message(at_secs(secs), MessageRole::User, 0, 0);
        m.conversation_hash = "c".to_string();
        m
    };
    let messages = vec![msg(1705309200), msg(1717059600), msg(1717232400)];
    let days = vec![19737, 19873, 19875];
    let daily_stats = aggregate_by_date(&messages, &days, 19875);
    let mut stats = AgenticCodingToolStats {
        daily_stats: daily_stats.clone(),
        num_conversations: 1,
        messages,
        analyzer_name: "test".to_string(),
    };
    retain_live_window(&mut stats, live_window_cutoff(now, None));
    assert_eq!(stats.messages.len(), 1, "only the message inside the window survives");
    assert_eq!(stats.daily_stats.len(), daily_stats.len(), "aggregates are untouched");
    assert!(stats.daily_stats.iter().any(|d| d.date == 19737), "history stays available in aggregate form");
}

#[test]
fn live_window_keeps_messages_the_uploader_has_not_sent() {
    let now = at_secs(1717243200);
    let watermark_millis = 1709251200_i64 * 1000;
    let cutoff = live_window_cutoff(now, Some(watermark_millis));
    assert_eq!(cutoff, at_secs(1709251200), "a lagging watermark pulls the cutoff back");
}

#[test]
fn error_log_line_has_time_level_and_message() {
    assert_eq!(
        log_line("2025-01-02T03:04:05+00:00", "ERROR", "parse failed"),
        "[2025-01-02T03:04:05+00:00] ERROR: parse failed\n"
    );
}

#[test]
fn error_log_is_cut_only_past_its_limit() {
    assert_eq!(log_cut_offset(0), None);
    assert_eq!(log_cut_offset(1_000_000), None);
    assert_eq!(log_cut_offset(1_000_001), Some(488_001));
    assert_eq!(log_cut_offset(2_000_000), Some(1_488_000));
}

#[test]
fn log_tail_keeps_the_last_lines_in_order() {
    let lines: Vec<String> = ["a", "b", "c", "d"].iter().map(|s| s.to_string()).collect();
    assert_eq!(keep_last_lines(lines.clone(), 2), vec!["c".to_string(), "d".to_string()]);
    assert_eq!(keep_last_lines(lines.clone(), 4), lines);
    assert_eq!(keep_last_lines(lines.clone(), 9), lines);
    assert!(keep_last_lines(lines, 0).is_empty());
}
