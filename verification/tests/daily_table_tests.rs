use splitrail::daily_table::{all_model_names, best_rows, day_model_names, is_blank_day, table_totals};
use splitrail::text::text_less;
use splitrail::types::{DailyStats, ModelCount, Stats};

fn day(input: u64, output: u64, conversations: u32, models: &[&str]) -> DailyStats {
    let mut stats = Stats::zero();
    stats.input_tokens = input;
    stats.output_tokens = output;
    DailyStats {
        date: 20000,
        user_messages: 0,
        ai_messages: 0,
        conversations,
        models: models.iter().map(|m| ModelCount { name: m.to_string(), count: 1 }).collect(),
        stats,
        active_seconds: 0,
    }
}

fn strings(names: &[&str]) -> Vec<String> {
    names.iter().map(|s| s.to_string()).collect()
}

#[test]
fn best_row_is_the_first_day_with_the_most() {
    let days = vec![day(5, 0, 1, &[]), day(9, 0, 3, &[]), day(9, 0, 3, &[]), day(2, 0, 0, &[])];
    let best = best_rows(&days);
    assert_eq!(best.input_tokens, 1);
    assert_eq!(best.conversations, 1);
    // no day has any output: the first row is marked
    assert_eq!(best.output_tokens, 0);
    assert_eq!(best.tool_calls, 0);
}

#[test]
fn best_rows_of_no_days_point_at_the_first_row() {
    let best = best_rows(&[]);
    assert_eq!(best.input_tokens, 0);
    assert_eq!(best.reasoning_tokens, 0);
}

#[test]
fn a_day_is_dimmed_only_when_nothing_was_counted_or_paid() {
    let empty = day(0, 0, 0, &[]);
    assert!(is_blank_day(&empty, true));
    assert!(!is_blank_day(&empty, false));
    assert!(!is_blank_day(&day(1, 0, 0, &[]), true));
    let mut messages_only = day(0, 0, 0, &[]);
    messages_only.user_messages = 1;
    assert!(!is_blank_day(&messages_only, true));
}

#[test]
fn totals_add_every_day_without_overflow() {
    let days = vec![day(u64::MAX, 1, 0, &[]), day(u64::MAX, 2, 0, &[]), day(3, 3, 0, &[])];
    let t = table_totals(&days);
    assert_eq!(t.input_tokens, 2 * (u64::MAX as u128) + 3);
    assert_eq!(t.output_tokens, 6);
    assert_eq!(t.cached_tokens, 0);
    assert_eq!(t.days, 3);
}

#[test]
fn model_names_come_sorted_and_once() {
    let d = day(0, 0, 0, &["gpt-4o", "gemini-2.5-pro", "gpt-4o-mini"]);
    assert_eq!(day_model_names(&d), strings(&["gemini-2.5-pro", "gpt-4o", "gpt-4o-mini"]));
    let days = vec![d, day(0, 0, 0, &["o3", "gpt-4o"]), day(0, 0, 0, &[])];
    assert_eq!(all_model_names(&days), strings(&["gemini-2.5-pro", "gpt-4o", "gpt-4o-mini", "o3"]));
    assert!(all_model_names(&[]).is_empty());
}

#[test]
fn text_order_is_the_order_of_strings() {
    let cases = ["", "a", "ab", "b", "B", "é", "z", "aa"];
    for x in cases {
        for y in cases {
            let xs: Vec<char> = x.chars().collect();
            let ys: Vec<char> = y.chars().collect();
            assert_eq!(text_less(&xs, &ys), x < y, "{x:?} < {y:?}");
        }
    }
}
