use splitrail::types::AgenticCodingToolStats;
use splitrail::watcher::{
    eq_ignore_ascii_case, handle_fs_event, poll_due, replace_analyzer_stats, FsChange, ReloadBatcher, WatchDebugConfig,
    UploadScheduler, UploadStep, WatchEntry, WatcherEvent, UPLOAD_DEBOUNCE_MS,
};

fn entry(name: &str, watch: &str, matched: &str, pattern: &str) -> WatchEntry {
    WatchEntry {
        analyzer_name: name.to_string(),
        match_dir: matched.to_string(),
        watch_dir: watch.to_string(),
        pattern: pattern.to_string(),
    }
}

fn names(events: &[WatcherEvent]) -> Vec<String> {
    events
        .iter()
        .map(|e| match e {
            WatcherEvent::DataChanged(n) => n.clone(),
            WatcherEvent::Error(m) => m.clone(),
        })
        .collect()
}

#[test]
fn file_events_notify_each_concerned_analyzer_once() {
    let entries = vec![
        entry("Codex CLI", "/h/.codex", "/h/.codex/sessions", "/h/.codex/sessions/*/*.jsonl"),
        entry("Qwen Code", "/h/.qwen", "/h/.qwen/tmp", "/h/.qwen/auto_stats/*.jsonl"),
        entry("Codex CLI", "/h/.codex", "/h/.codex/history", "/h/.codex/history.jsonl"),
    ];
    let paths = vec![
        "/h/.qwen/auto_stats/a.jsonl".to_string(),
        "/h/.codex/history.jsonl".to_string(),
        "/h/.codex/sessions/2025/x.jsonl".to_string(),
        "/h/elsewhere/x.jsonl".to_string(),
    ];
    let events = handle_fs_event(FsChange::Modify, &paths, &entries);
    assert_eq!(names(&events), ["Qwen Code", "Codex CLI"]);
    assert!(handle_fs_event(FsChange::Other, &paths, &entries).is_empty());
}

#[test]
fn debug_setting_from_its_variable() {
    assert!(WatchDebugConfig::from_value(None).is_none());
    for all in ["", "  ", "1", "TRUE", "All"] {
        assert!(WatchDebugConfig::from_value(Some(all)).unwrap().analyzer_filter.is_none());
    }
    let c = WatchDebugConfig::from_value(Some(" Codex ")).unwrap();
    assert_eq!(c.analyzer_filter.as_deref(), Some("codex"));
    assert!(c.matches("Codex CLI"));
    assert!(!c.matches("Qwen Code"));
    assert!(eq_ignore_ascii_case("aBc", "AbC"));
    assert!(!eq_ignore_ascii_case("abc", "abd"));
}

#[test]
fn batches_wait_for_their_window_and_debounce_reloads() {
    let mut b = ReloadBatcher::new();
    b.note_change("A".to_string(), 1000);
    b.note_change("B".to_string(), 1200);
    b.note_change("A".to_string(), 1300);
    assert_eq!(b.pending, ["A", "B"]);
    assert!(b.take_due(1400).is_empty());
    assert_eq!(b.take_due(1500), ["A", "B"]);
    assert!(b.pending.is_empty());
    b.note_change("A".to_string(), 2000);
    b.note_change("C".to_string(), 2000);
    assert_eq!(b.take_due(2600), ["C"], "A was reloaded less than two seconds ago");
    b.note_change("A".to_string(), 4000);
    assert_eq!(b.take_due(4500), ["A"]);
}

#[test]
fn codex_is_polled_every_five_seconds() {
    assert!(!poll_due(1000, 5999));
    assert!(poll_due(1000, 6000));
    assert!(!poll_due(7000, 6000));
}

#[test]
fn reloaded_figures_replace_the_old_ones() {
    let stats = |name: &str, n: u64| AgenticCodingToolStats {
        daily_stats: Vec::new(),
        num_conversations: n,
        messages: Vec::new(),
        analyzer_name: name.to_string(),
    };
    let mut current = vec![stats("A", 1), stats("B", 2)];
    replace_analyzer_stats(&mut current, stats("B", 5));
    assert_eq!(current[1].num_conversations, 5);
    replace_analyzer_stats(&mut current, stats("C", 7));
    assert_eq!(current.len(), 3);
    assert_eq!(current[2].analyzer_name, "C");
}

#[test]
fn reload_uploads_are_debounced_and_queued() {
    let mut s = UploadScheduler::new();
    assert_eq!(s.on_reload(false, 0), UploadStep::Skip);
    assert_eq!(s, UploadScheduler::new());
    assert_eq!(s.on_reload(true, 10_000), UploadStep::StartNow);
    assert!(s.in_progress);
    assert_eq!(s.last_start, Some(10_000));
    // a change during the upload waits for the next one
    assert_eq!(s.on_reload(true, 10_500), UploadStep::Queue);
    assert!(s.pending);
    assert!(s.on_upload_done(), "the queued changes are uploaded again");
    assert!(!s.in_progress && !s.pending);
    // within three seconds of the last start: wait for the rest
    assert_eq!(s.on_reload(true, 11_000), UploadStep::StartAfter(UPLOAD_DEBOUNCE_MS - 1000));
    assert!(s.on_wait_over());
    assert!(s.in_progress);
    s.on_other_upload_done();
    assert!(!s.in_progress);
    assert!(!s.on_wait_over(), "nothing pending, nothing to run");
    assert_eq!(s.on_reload(true, 13_000), UploadStep::StartNow);
}

#[test]
fn manual_uploads_wait_for_a_running_one() {
    let mut s = UploadScheduler::new();
    assert!(!s.on_manual(false, 5), "nothing to upload");
    assert!(s.on_manual(true, 5));
    assert!(!s.on_manual(true, 6));
    s.on_other_upload_done();
    assert!(s.on_manual(true, 7));
    assert_eq!(s.last_start, Some(7));
}
