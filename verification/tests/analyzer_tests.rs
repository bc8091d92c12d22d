use splitrail::analyzer::{sources_fingerprint, watch_candidates, SourceStamp};
use splitrail::analyzers::codex_cli::{codex_source_kind, CodexSourceKind};
use splitrail::analyzers::kilo_code::extract_and_hash_project_id_kilo_code;
use splitrail::aggregate::{active_seconds_for_day, aggregate_by_date_checked};
use splitrail::daily::{
    count_distinct_conversations, first_of_each_global_hash, rule_conversations, rule_days, tally_by_day, tally_by_day_checked,
    DayRule,
};
use splitrail::hashing::hash_text;
use splitrail::locations::{
    codex_glob_patterns, database_candidates, droid_glob_patterns, kilo_code_glob_patterns, qwen_glob_patterns,
    warp_log_candidates,
};
use splitrail::time::Timestamp;
use splitrail::types::{Application, ConversationMessage, MessageRole, Stats};
use splitrail::warp::health::warp_terminal_detected;

#[test]
fn test_extract_project_hash() {
    let parent = "/home/user/.config/Code/User/globalStorage/kilocode.kilo-code/tasks/9f365349-84f2-4a9a-b470-f94910583293";
    let hash = extract_and_hash_project_id_kilo_code(parent);
    assert!(!hash.is_empty());
    assert_eq!(hash.len(), 64);
}

#[test]
fn kilo_project_is_the_hash_of_the_directory_above_tasks() {
    let parent = "/home/user/.config/Code/User/globalStorage/kilocode.kilo-code/tasks/9f365349";
    assert_eq!(extract_and_hash_project_id_kilo_code(parent), hash_text("kilocode.kilo-code"));
    assert_eq!(extract_and_hash_project_id_kilo_code("/x/y"), hash_text("/x/y"));
}

#[test]
fn test_is_running_in_warp() {
    assert!(warp_terminal_detected(Some("WarpTerminal"), false));
    assert!(!warp_terminal_detected(None, false));
    assert!(warp_terminal_detected(None, true));
    assert!(!warp_terminal_detected(Some("iTerm.app"), false));
}

#[test]
fn codex_history_file_is_told_apart() {
    assert_eq!(codex_source_kind("/home/u/.codex/history.jsonl"), CodexSourceKind::History);
    assert_eq!(codex_source_kind("/home/u/.codex/sessions/2025/01/02/rollout.jsonl"), CodexSourceKind::Session);
    assert_eq!(codex_source_kind("history.jsonl.bak"), CodexSourceKind::Session);
}

#[test]
fn watch_directories_come_from_the_pattern() {
    assert_eq!(
        watch_candidates("/h/.qwen/tmp/*/chats/*.json"),
        ["/h/.qwen/tmp", "/h/.qwen/tmp/*/chats"]
    );
    assert_eq!(watch_candidates("/h/a/**/x.json"), ["/h/a", "/h/a", "/h/a/**"]);
    // the directory before the first wildcard comes first
    assert_eq!(watch_candidates("/h/x/*/y/**/z.json"), ["/h/x", "/h/x/*/y", "/h/x/*/y/**"]);
    assert_eq!(watch_candidates("/h/.codex/history.jsonl"), ["/h/.codex"]);
    assert!(watch_candidates("*.json").is_empty());
}

#[test]
fn data_locations_under_the_home_directory() {
    assert_eq!(droid_glob_patterns(Some("/h")), ["/h/.factory/sessions/*/*.jsonl"]);
    assert!(droid_glob_patterns(None).is_empty());
    assert_eq!(qwen_glob_patterns(Some("/h")), ["/h/.qwen/tmp/*/chats/*.json", "/h/.qwen/auto_stats/*.jsonl"]);
    assert_eq!(
        codex_glob_patterns(Some("/h"), "2025/01/02", "2025/01/01"),
        ["/h/.codex/history.jsonl", "/h/.codex/sessions/2025/01/02/*.jsonl", "/h/.codex/sessions/2025/01/01/*.jsonl"]
    );
    let kilo = kilo_code_glob_patterns(Some("/h"), Some("C:\\AppData"));
    assert_eq!(kilo.len(), 1 + 6 + 2 + 6 + 6);
    assert_eq!(kilo[0], "/h/.kilocode/cli/global/tasks/*/ui_messages.json");
    assert_eq!(kilo[7], "/h/.vscode-server-insiders/data/User/globalStorage/kilocode.kilo-code/tasks/*/ui_messages.json");
    assert_eq!(kilo[15], "C:\\AppData\\Code\\User\\globalStorage\\kilocode.kilo-code\\tasks\\*\\ui_messages.json");
    let db = database_candidates("kiro-cli", Some("/h"), None);
    assert_eq!(db, ["/h/Library/Application Support/kiro-cli/data.sqlite3", "/h/.config/kiro-cli/data.sqlite3", "/h/.local/share/kiro-cli/data.sqlite3"]);
    assert!(db.iter().all(|p| p.ends_with("data.sqlite3")));
    assert_eq!(warp_log_candidates("/h")[0], "/h/Library/Application Support/Warp/warp_network.log");
}

fn message(day: i64, role: MessageRole, model: Option<&str>, input: u64, lines_added: u64, conversation: &str) -> ConversationMessage {
    let mut stats = Stats::zero();
    stats.input_tokens = input;
    stats.lines_added = lines_added;
    ConversationMessage {
        application: Application::OpenCode,
        date: Timestamp { secs: day * 86400, nanos: 0 },
        project_hash: String::new(),
        conversation_hash: conversation.to_string(),
        local_hash: None,
        global_hash: String::new(),
        model: model.map(|m| m.to_string()),
        stats,
        role,
        content: None,
    }
}

#[test]
fn days_are_tallied_by_the_analyzers_rule() {
    let msgs = vec![
        message(12, MessageRole::User, Some("m"), 5, 1, "a"),
        message(10, MessageRole::Assistant, Some("m"), 7, 2, "a"),
        message(12, MessageRole::Assistant, Some("n"), 1, 3, "b"),
    ];
    let days = [12, 10, 12];
    let (open, members) = tally_by_day(&msgs, &days, DayRule::OpenCode);
    assert_eq!(open.iter().map(|d| d.date).collect::<Vec<_>>(), [10, 12]);
    assert_eq!(members, vec![vec![1], vec![0, 2]]);
    assert_eq!(open[1].user_messages, 1);
    assert_eq!(open[1].ai_messages, 1);
    assert_eq!(open[1].stats.input_tokens, 6);
    assert_eq!(open[1].stats.lines_added, 4);
    assert_eq!(open[1].models.len(), 1, "a user message's model is not counted");
    let (droid, _) = tally_by_day(&msgs, &days, DayRule::Droid);
    assert_eq!(droid[1].stats.lines_added, 0, "the droid rule counts tokens and tool calls only");
    assert_eq!(droid[1].models.len(), 2);
    assert_eq!(count_distinct_conversations(&msgs), 2);
}

#[test]
fn checked_tallies_refuse_counters_out_of_range() {
    let msgs = vec![
        message(12, MessageRole::User, Some("m"), 5, 1, "a"),
        message(10, MessageRole::Assistant, Some("m"), 7, 2, "a"),
    ];
    let days = [12, 10];
    let (plain, _) = tally_by_day(&msgs, &days, DayRule::OpenCode);
    let (checked, _) = tally_by_day_checked(&msgs, &days, DayRule::OpenCode).expect("in range");
    assert_eq!(checked.len(), plain.len());
    assert_eq!(checked[1].stats.input_tokens, 5);
    assert!(tally_by_day_checked(&msgs, &[12], DayRule::OpenCode).is_none(), "one day per message");
    assert!(tally_by_day_checked(&msgs, &[12, 200_000_000], DayRule::OpenCode).is_none(), "day beyond the dates chrono represents");
    let huge = vec![
        message(12, MessageRole::Assistant, Some("m"), u64::MAX, 0, "a"),
        message(13, MessageRole::Assistant, Some("m"), 1, 0, "a"),
    ];
    assert!(tally_by_day_checked(&huge, &[12, 13], DayRule::Droid).is_none());
    let daily = aggregate_by_date_checked(&msgs, &days, 12).expect("in range");
    assert_eq!(daily.len(), 3);
    assert!(aggregate_by_date_checked(&huge, &[12, 13], 13).is_none());
    assert!(aggregate_by_date_checked(&msgs, &days, 99_999_999).is_none(), "today beyond the dates chrono represents");
    let mut bad_time = msgs.clone();
    bad_time[0].date.nanos = 2_000_000_000;
    assert!(aggregate_by_date_checked(&bad_time, &days, 12).is_none());
}

#[test]
fn first_message_of_each_global_hash_is_kept() {
    let mut msgs = Vec::new();
    for hash in ["x", "y", "x", "z", "y"] {
        let mut m = message(1, MessageRole::User, None, 0, 0, "c");
        m.global_hash = hash.to_string();
        msgs.push(m);
    }
    assert_eq!(first_of_each_global_hash(&msgs), vec![0, 1, 3]);
    assert!(first_of_each_global_hash(&[]).is_empty());
}

fn stamp(path: &str, len: u64, modified: Option<(i64, u32)>) -> SourceStamp {
    SourceStamp { path: path.to_string(), len, modified }
}

#[test]
fn source_fingerprint_is_stable_and_ignores_order() {
    let a = stamp("/d/a.jsonl", 4, Some((1_700_000_000, 5)));
    let b = stamp("/d/b.jsonl", 4, Some((1_700_000_100, 0)));
    let forward = sources_fingerprint(&[a.clone(), b.clone()]);
    assert_eq!(sources_fingerprint(&[a.clone(), b.clone()]), forward);
    assert_eq!(sources_fingerprint(&[b.clone(), a.clone()]), forward);
    assert_eq!(sources_fingerprint(&[]), sources_fingerprint(&[]));
}

#[test]
fn source_fingerprint_sees_growth_and_new_files() {
    let a = stamp("/d/a.jsonl", 4, Some((1_700_000_000, 5)));
    let one = sources_fingerprint(&[a.clone()]);
    let grown = stamp("/d/a.jsonl", 8, Some((1_700_000_000, 5)));
    assert_ne!(sources_fingerprint(&[grown]), one, "size change must be detected");
    let b = stamp("/d/b.jsonl", 4, None);
    assert_ne!(sources_fingerprint(&[a.clone(), b]), one);
    assert_eq!(sources_fingerprint(&[a]), one);
}

#[test]
fn active_time_sums_short_gaps_between_sorted_times() {
    let mut t = vec![2400, 0, 3000, 300];
    assert_eq!(active_seconds_for_day(&mut t), 900);
    assert_eq!(t, vec![0, 300, 2400, 3000]);
    let mut extremes = vec![i64::MAX, i64::MIN, i64::MAX - 10];
    assert_eq!(active_seconds_for_day(&mut extremes), 10);
    let mut few: Vec<i64> = vec![5];
    assert_eq!(active_seconds_for_day(&mut few), 0);
}

#[test]
fn droid_counts_by_utc_day_and_one_conversation_per_message() {
    let mut msgs = vec![
        message(0, MessageRole::User, None, 0, 0, "a"),
        message(0, MessageRole::Assistant, None, 0, 0, "a"),
        message(0, MessageRole::Assistant, None, 0, 0, "b"),
    ];
    msgs[0].date = Timestamp { secs: 86_399, nanos: 0 };
    msgs[1].date = Timestamp { secs: -1, nanos: 0 };
    msgs[2].date = Timestamp { secs: -86_401, nanos: 0 };
    let local = [7, 8, 9];
    assert_eq!(rule_days(&msgs, &local, DayRule::Droid), vec![0, -1, -2]);
    assert_eq!(rule_days(&msgs, &local, DayRule::OpenCode), vec![7, 8, 9]);
    assert_eq!(rule_conversations(&msgs, DayRule::Droid), 3);
    assert_eq!(rule_conversations(&msgs, DayRule::OpenCode), 2);
}

#[test]
fn day_totals_add_up_to_the_messages() {
    let msgs = vec![
        message(10, MessageRole::Assistant, Some("m"), 7, 2, "a"),
        message(12, MessageRole::Assistant, Some("m"), 5, 1, "a"),
        message(12, MessageRole::Assistant, Some("n"), 1, 3, "b"),
    ];
    let days = [10, 12, 12];
    let daily = aggregate_by_date_checked(&msgs, &days, 12).expect("in range");
    assert_eq!(daily.iter().map(|d| d.stats.input_tokens).sum::<u64>(), 13);
    assert_eq!(daily.iter().map(|d| d.stats.lines_added).sum::<u64>(), 6);
}
