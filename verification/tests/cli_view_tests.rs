use splitrail::cli_view::{
    active_label, cli_order, cli_status, columns_that_fit, day_activity, day_tokens, idle_label, overall_stats, panels_that_fit,
    visible_window, CliState, CliStatus, DayActivity, NO_DATA_AGE,
};
use splitrail::time::Timestamp;
use splitrail::types::{AgenticCodingToolStats, Application, ConversationMessage, DailyStats, MessageRole, Stats};

const NOW: i64 = 1_000_000;

fn msg(secs: i64, role: MessageRole, conversation: &str) -> ConversationMessage {
    ConversationMessage {
        application: Application::CodexCli,
        date: Timestamp { secs, nanos: 0 },
        project_hash: String::new(),
        conversation_hash: conversation.to_string(),
        local_hash: None,
        global_hash: format!("g{secs}"),
        model: None,
        stats: Stats::zero(),
        role,
        content: None,
    }
}

fn now() -> Timestamp {
    Timestamp { secs: NOW, nanos: 0 }
}

fn day(date: i64, input: u64, cached: u64) -> DailyStats {
    let mut stats = Stats::zero();
    stats.input_tokens = input;
    stats.cached_tokens = cached;
    DailyStats { date, user_messages: 0, ai_messages: 0, conversations: 0, models: Vec::new(), stats, active_seconds: 0 }
}

fn analyzer(days: Vec<DailyStats>) -> AgenticCodingToolStats {
    AgenticCodingToolStats { daily_stats: days, num_conversations: 0, messages: Vec::new(), analyzer_name: "a".to_string() }
}

#[test]
fn status_follows_the_latest_message() {
    let none = cli_status(&[], &now());
    assert_eq!(none, CliStatus { state: CliState::NoData, age: NO_DATA_AGE, rank: 2 });
    let active = [msg(NOW - 50, MessageRole::Assistant, "c"), msg(NOW - 10, MessageRole::Assistant, "c")];
    assert_eq!(cli_status(&active, &now()), CliStatus { state: CliState::Active, age: 10, rank: 0 });
    let waiting = [msg(NOW - 500, MessageRole::Assistant, "c"), msg(NOW - 40, MessageRole::Assistant, "c")];
    assert_eq!(cli_status(&waiting, &now()).state, CliState::Waiting);
    let processing = [msg(NOW - 100, MessageRole::User, "c")];
    assert_eq!(cli_status(&processing, &now()).state, CliState::Processing);
    let idle = [msg(NOW - 600, MessageRole::User, "c")];
    assert_eq!(cli_status(&idle, &now()), CliStatus { state: CliState::Idle, age: 600, rank: 1 });
    let inactive = [msg(NOW - 5000, MessageRole::Assistant, "c"), msg(NOW - 900, MessageRole::User, "c")];
    assert_eq!(cli_status(&inactive, &now()), CliStatus { state: CliState::Inactive, age: 900, rank: 2 });
    let future = [msg(NOW + 30, MessageRole::User, "c")];
    assert_eq!(cli_status(&future, &now()), CliStatus { state: CliState::Processing, age: 0, rank: 0 });
}

#[test]
fn idle_time_is_told_in_the_largest_whole_unit() {
    let one = |secs: i64| idle_label(&[msg(NOW - secs, MessageRole::User, "c")], &now());
    assert_eq!(idle_label(&[], &now()), "No data");
    assert_eq!(one(3 * 86400 + 5), "3d ago");
    assert_eq!(one(86400), "1d ago");
    assert_eq!(one(7200), "2h ago");
    assert_eq!(one(3599), "59m ago");
    assert_eq!(one(59), "Just now");
    assert_eq!(one(-500), "Just now");
    let newest_counts = [msg(NOW - 7200, MessageRole::User, "c"), msg(NOW - 120, MessageRole::User, "c")];
    assert_eq!(idle_label(&newest_counts, &now()), "2m ago");
}

#[test]
fn a_days_activity_counts_its_messages_sessions_and_short_gaps() {
    let msgs = [
        msg(2000, MessageRole::User, "b"),
        msg(100, MessageRole::User, "a"),
        msg(2100, MessageRole::Assistant, "b"),
        msg(200, MessageRole::Assistant, "a"),
        msg(150, MessageRole::Assistant, "x"),
    ];
    let days = [5, 5, 5, 5, 6];
    let a = day_activity(&msgs, &days, 5);
    assert_eq!(a, DayActivity { messages: 4, sessions: 2, active_secs: 200 });
    assert_eq!(active_label(&a), "3m");
    let none = day_activity(&msgs, &days, 7);
    assert_eq!(none, DayActivity { messages: 0, sessions: 0, active_secs: 0 });
    assert_eq!(active_label(&none), "0m");
}

#[test]
fn active_time_is_written_in_hours_minutes_or_seconds() {
    let label = |secs: u128, messages: u64| active_label(&DayActivity { messages, sessions: 1, active_secs: secs });
    assert_eq!(label(3700, 9), "1h 1m");
    assert_eq!(label(7200, 9), "2h 0m");
    assert_eq!(label(125, 9), "2m");
    assert_eq!(label(45, 9), "45s");
    assert_eq!(label(0, 9), "< 1m");
    assert_eq!(label(5000, 1), "0m");
}

#[test]
fn analyzers_are_listed_working_first_then_by_age() {
    let st = |rank: u8, age: i64| CliStatus { state: CliState::Idle, age, rank };
    let statuses = [st(2, 5000), st(0, 40), st(1, 300), st(0, 10), st(0, 40)];
    assert_eq!(cli_order(&statuses), vec![3, 1, 4, 2, 0]);
    assert!(cli_order(&[]).is_empty());
}

#[test]
fn panels_and_columns_fit_their_space() {
    assert_eq!(columns_that_fit(15), 1);
    assert_eq!(columns_that_fit(45), 2);
    assert_eq!(columns_that_fit(100), 5);
    assert_eq!(panels_that_fit(0), 1);
    assert_eq!(panels_that_fit(16), 2);
    assert_eq!(panels_that_fit(30), 4);
    assert_eq!(visible_window(5, 3, 2), (3, 3));
    assert_eq!(visible_window(1, 10, 4), (1, 5));
    assert_eq!(visible_window(0, 2, usize::MAX), (0, 2));
}

#[test]
fn a_days_tokens_add_every_entry_of_that_day() {
    let s = analyzer(vec![day(5, 10, 1), day(6, 100, 0), day(5, 7, 2)]);
    let t = day_tokens(&s, 5);
    assert_eq!(t.input_tokens, 17);
    assert_eq!(t.cached_tokens, 3);
    assert_eq!(day_tokens(&s, 9).input_tokens, 0);
}

#[test]
fn overall_stats_count_each_tracked_date_once() {
    let a = analyzer(vec![day(5, 10, 1), day(6, 0, 0), day(7, 0, 0)]);
    let b = analyzer(vec![day(5, 3, 0), day(8, 0, 4)]);
    let priced = vec![vec![false, false, true], vec![false, false]];
    let o = overall_stats(&[a.clone(), b.clone()], &priced).expect("fits");
    assert_eq!(o.tools, 2);
    assert_eq!(o.tokens, 18);
    assert_eq!(o.days_tracked, 3, "days 5, 7 (priced) and 8; day 6 shows nothing");
    let o2 = overall_stats(&[a, b], &[]).expect("fits");
    assert_eq!(o2.days_tracked, 2);
    let huge = analyzer(vec![day(1, u64::MAX, 0), day(2, 1, 0)]);
    assert!(overall_stats(&[huge], &[]).is_none());
}
