//! The reload bookkeeping driven over in-memory files: each file is its text and a version
//! number standing for its modification time.
use std::sync::Arc;

use splitrail::analyzer::DataSource;
use splitrail::incremental::{
    absorb, fresh_entry, gather, same_stamp, unique_paths, FileStamp, IncrementalJsonlCache, Outcome,
    RefreshReport, RefreshStep,
};
use splitrail::time::Timestamp;
use splitrail::types::{Application, ConversationMessage, MessageRole, Stats};

struct Disk {
    files: Vec<(String, String, i64)>,
}

impl Disk {
    fn stat(&self, path: &str) -> Option<FileStamp> {
        self.files.iter().find(|f| f.0 == path).map(|f| FileStamp {
            len: f.1.len() as u64,
            modified: Some(Timestamp { secs: f.2, nanos: 0 }),
        })
    }
    fn text(&self, path: &str) -> String {
        self.files.iter().find(|f| f.0 == path).map(|f| f.1.clone()).unwrap()
    }
    fn write(&mut self, path: &str, text: &str) {
        if let Some(f) = self.files.iter_mut().find(|f| f.0 == path) {
            f.1 = text.to_string();
            f.2 += 1;
        } else {
            self.files.push((path.to_string(), text.to_string(), 1));
        }
    }
    fn append(&mut self, path: &str, text: &str) {
        let f = self.files.iter_mut().find(|f| f.0 == path).unwrap();
        f.1.push_str(text);
        f.2 += 1;
    }
    fn remove(&mut self, path: &str) {
        self.files.retain(|f| f.0 != path);
    }
}

fn line_message(line_no: usize, text: &str) -> ConversationMessage {
    ConversationMessage {
        application: Application::CodexCli,
        date: Timestamp { secs: 0, nanos: 0 },
        project_hash: "p".to_string(),
        conversation_hash: "c".to_string(),
        local_hash: None,
        global_hash: format!("{line_no}"),
        model: None,
        stats: Stats::zero(),
        role: MessageRole::User,
        content: Some(format!("{line_no}:{text}")),
    }
}

/// One message per complete line; the state is the running line number.
fn parse_lines(text: &str, line_no: &mut usize) -> (Vec<ConversationMessage>, u64) {
    let mut out = Vec::new();
    let mut consumed = 0u64;
    let mut rest = text;
    while let Some(pos) = rest.find('\n') {
        *line_no += 1;
        out.push(line_message(*line_no, &rest[..pos]));
        consumed += pos as u64 + 1;
        rest = &rest[pos + 1..];
    }
    (out, consumed)
}

/// One reload, driven the way the live mode drives it.
fn refresh(
    cache: &mut IncrementalJsonlCache<usize>,
    disk: &Disk,
    sources: &[DataSource],
    calls: &mut usize,
) -> (Vec<Arc<Vec<ConversationMessage>>>, RefreshReport) {
    let paths = unique_paths(sources);
    let mut results = Vec::new();
    for path in &paths {
        let stamp = disk.stat(path);
        let outcome = match cache.plan(path, stamp) {
            RefreshStep::Missing => {
                cache.forget(path);
                results.push((Arc::new(Vec::new()), Outcome::Missing));
                continue;
            }
            RefreshStep::Unchanged => {
                results.push((cache.chunk(path).unwrap(), Outcome::Unchanged));
                continue;
            }
            RefreshStep::Resume(offset) => {
                let mut entry = cache.take(path).unwrap();
                *calls += 1;
                let text = disk.text(path);
                let (msgs, consumed) = parse_lines(&text[offset as usize..], &mut entry.state);
                let entry = absorb(entry, stamp.unwrap(), msgs, consumed);
                cache.keep(path.clone(), entry);
                Outcome::Appended(consumed)
            }
            RefreshStep::Restart => {
                *calls += 1;
                let mut state = 0usize;
                let (msgs, consumed) = parse_lines(&disk.text(path), &mut state);
                cache.keep(path.clone(), fresh_entry(stamp.unwrap(), state, msgs, consumed));
                Outcome::Reparsed(consumed)
            }
        };
        results.push((cache.chunk(path).unwrap(), outcome));
    }
    let (chunks, report) = gather(&results);
    let dropped = cache.retain_live(&paths);
    let report = splitrail::incremental::with_dropped(report, dropped);
    (chunks, report)
}

fn contents(chunks: &[Arc<Vec<ConversationMessage>>]) -> Vec<String> {
    chunks.iter().flat_map(|c| c.iter()).map(|m| m.content.clone().unwrap()).collect()
}

fn src(path: &str) -> Vec<DataSource> {
    vec![DataSource { path: path.to_string() }]
}

#[test]
fn unchanged_file_hands_back_the_same_allocation_instead_of_a_copy() {
    let mut disk = Disk { files: Vec::new() };
    disk.write("s.jsonl", "a\nb\nc\n");
    let mut cache = IncrementalJsonlCache::<usize>::new();
    let mut calls = 0;
    let (first, _) = refresh(&mut cache, &disk, &src("s.jsonl"), &mut calls);
    let (second, report) = refresh(&mut cache, &disk, &src("s.jsonl"), &mut calls);
    assert_eq!(report.unchanged, 1, "precondition: the file did not change");
    assert!(Arc::ptr_eq(&first[0], &second[0]), "an unchanged file must not re-allocate its messages on refresh");
}

#[test]
fn first_refresh_parses_everything_and_second_refresh_reads_nothing() {
    let mut disk = Disk { files: Vec::new() };
    disk.write("s.jsonl", "a\nb\nc\n");
    let mut cache = IncrementalJsonlCache::<usize>::new();
    let mut calls = 0;
    let (msgs, report) = refresh(&mut cache, &disk, &src("s.jsonl"), &mut calls);
    assert_eq!(contents(&msgs), ["1:a", "2:b", "3:c"]);
    assert_eq!(report.reparsed, 1);
    assert_eq!(report.bytes_parsed, 6);
    let (msgs, report) = refresh(&mut cache, &disk, &src("s.jsonl"), &mut calls);
    assert_eq!(contents(&msgs), ["1:a", "2:b", "3:c"]);
    assert_eq!(report.unchanged, 1);
    assert_eq!(report.bytes_parsed, 0);
    assert_eq!(calls, 1, "unchanged file must not be re-read");
}

#[test]
fn appended_lines_are_parsed_from_the_old_offset_with_state_carried() {
    let mut disk = Disk { files: Vec::new() };
    disk.write("s.jsonl", "a\nb\n");
    let mut cache = IncrementalJsonlCache::<usize>::new();
    let mut calls = 0;
    refresh(&mut cache, &disk, &src("s.jsonl"), &mut calls);
    disk.append("s.jsonl", "c\nd\n");
    let (msgs, report) = refresh(&mut cache, &disk, &src("s.jsonl"), &mut calls);
    assert_eq!(contents(&msgs), ["1:a", "2:b", "3:c", "4:d"]);
    assert_eq!(report.appended, 1);
    assert_eq!(report.bytes_parsed, 4, "only the appended bytes are parsed");
}

#[test]
fn partial_trailing_line_waits_for_its_newline_and_is_parsed_once() {
    let mut disk = Disk { files: Vec::new() };
    disk.write("s.jsonl", "a\n");
    let mut cache = IncrementalJsonlCache::<usize>::new();
    let mut calls = 0;
    refresh(&mut cache, &disk, &src("s.jsonl"), &mut calls);
    disk.append("s.jsonl", "part");
    let (msgs, report) = refresh(&mut cache, &disk, &src("s.jsonl"), &mut calls);
    assert_eq!(contents(&msgs), ["1:a"], "half-written line must not appear");
    assert_eq!(report.appended, 1);
    assert_eq!(report.bytes_parsed, 0);
    disk.append("s.jsonl", "ial\n");
    let (msgs, report) = refresh(&mut cache, &disk, &src("s.jsonl"), &mut calls);
    assert_eq!(contents(&msgs), ["1:a", "2:partial"]);
    assert_eq!(report.bytes_parsed, 8, "the whole line is parsed exactly once");
}

#[test]
fn shrunk_file_is_reparsed_from_scratch() {
    let mut disk = Disk { files: Vec::new() };
    disk.write("s.jsonl", "a\nb\nc\n");
    let mut cache = IncrementalJsonlCache::<usize>::new();
    let mut calls = 0;
    refresh(&mut cache, &disk, &src("s.jsonl"), &mut calls);
    disk.write("s.jsonl", "x\n");
    let (msgs, report) = refresh(&mut cache, &disk, &src("s.jsonl"), &mut calls);
    assert_eq!(contents(&msgs), ["1:x"]);
    assert_eq!(report.reparsed, 1);
}

#[test]
fn files_that_disappear_are_dropped() {
    let mut disk = Disk { files: Vec::new() };
    disk.write("a.jsonl", "a\n");
    disk.write("b.jsonl", "b\n");
    let mut cache = IncrementalJsonlCache::<usize>::new();
    let mut calls = 0;
    let sources = vec![DataSource { path: "a.jsonl".to_string() }, DataSource { path: "b.jsonl".to_string() }];
    let (msgs, _) = refresh(&mut cache, &disk, &sources, &mut calls);
    assert_eq!(msgs.len(), 2);
    let (msgs, report) = refresh(&mut cache, &disk, &src("a.jsonl"), &mut calls);
    assert_eq!(contents(&msgs), ["1:a"]);
    assert_eq!(report.removed, 1);
    disk.remove("a.jsonl");
    let (msgs, report) = refresh(&mut cache, &disk, &src("a.jsonl"), &mut calls);
    assert!(msgs.is_empty());
    assert_eq!(report.removed, 1);
    assert_eq!(cache.len(), 0);
}

#[test]
fn duplicate_source_paths_are_parsed_once() {
    let mut disk = Disk { files: Vec::new() };
    disk.write("s.jsonl", "a\n");
    let mut cache = IncrementalJsonlCache::<usize>::new();
    let mut calls = 0;
    let sources = vec![DataSource { path: "s.jsonl".to_string() }, DataSource { path: "s.jsonl".to_string() }];
    let (msgs, report) = refresh(&mut cache, &disk, &sources, &mut calls);
    assert_eq!(msgs.len(), 1);
    assert_eq!(report.reparsed, 1);
}

#[test]
fn unique_paths_keeps_first_order() {
    let sources: Vec<DataSource> = ["b", "a", "b", "c", "a"].iter().map(|p| DataSource { path: p.to_string() }).collect();
    assert_eq!(unique_paths(&sources), ["b", "a", "c"]);
}

#[test]
fn plan_reuses_resumes_and_restarts() {
    let mut cache = IncrementalJsonlCache::<usize>::new();
    let stamp = FileStamp { len: 10, modified: Some(Timestamp { secs: 5, nanos: 0 }) };
    assert_eq!(cache.plan("f", Some(stamp)), RefreshStep::Restart);
    assert_eq!(cache.plan("f", None), RefreshStep::Missing);
    cache.keep("f".to_string(), fresh_entry(stamp, 0usize, Vec::new(), 8));
    assert_eq!(cache.plan("f", Some(stamp)), RefreshStep::Unchanged);
    let grown = FileStamp { len: 12, modified: Some(Timestamp { secs: 6, nanos: 0 }) };
    assert_eq!(cache.plan("f", Some(grown)), RefreshStep::Resume(8));
    let shrunk = FileStamp { len: 3, modified: Some(Timestamp { secs: 6, nanos: 0 }) };
    assert_eq!(cache.plan("f", Some(shrunk)), RefreshStep::Restart);
    assert!(same_stamp(&stamp, &stamp));
    assert!(!same_stamp(&stamp, &grown));
}

#[test]
fn gather_counts_each_outcome_and_skips_empty_chunks() {
    let one = Arc::new(vec![line_message(1, "a")]);
    let results = vec![
        (one.clone(), Outcome::Unchanged),
        (Arc::new(Vec::new()), Outcome::Missing),
        (one.clone(), Outcome::Appended(7)),
        (one, Outcome::Reparsed(5)),
    ];
    let (chunks, report) = gather(&results);
    assert_eq!(chunks.len(), 3);
    assert_eq!(report, RefreshReport { unchanged: 1, appended: 1, reparsed: 1, removed: 1, bytes_parsed: 12 });
}
