//! The analyzer for Qwen Code: chat session files, and the request and statistics logs of its
//! auto-stats files.
use vstd::prelude::*;
use crate::analyzer::Analyzer;
use crate::hashing::{hash_chars, hash_text, text_fingerprint};
use crate::json::{as_count, as_text, count_member, get_json, json_get, str_eq, text_member, JsonNumber, JsonValue};
use crate::text::{
    append_chars, chars_of, decimal, decimal_chars, path_components, path_ext, path_extension, path_parts,
    string_of,
};
use crate::time::{chrono_secs_in_range, format_rfc3339, rfc3339_text, parse_instant, instant_of_rfc3339, Timestamp};
use crate::types::{
    opt_view, Application, ConversationMessage, CostQuery, CostQueryView, MessageRole, MessageView, PricedMessage,
    PricedMessageView, Stats, zero_stats,
};

verus! {

/// The analyzer for Qwen Code.
pub struct QwenCodeAnalyzer;

impl QwenCodeAnalyzer {
    pub fn new() -> (a: Self) {
        QwenCodeAnalyzer
    }
}

impl Analyzer for QwenCodeAnalyzer {
    open spec fn name_spec(&self) -> Seq<char> {
        "Qwen Code"@
    }

    fn display_name(&self) -> (s: &'static str) {
        "Qwen Code"
    }
}

/// What kind of file a path names, by its extension.
#[derive(Debug, Clone, Copy, PartialEq, Eq, Structural)]
pub enum FileCategory {
    SourceCode,
    Documentation,
    Data,
    Media,
    Config,
    Other,
}

/// The category `table` gives extension `ext`: the first entry for it, else other.
pub open spec fn category_in(table: Seq<(String, FileCategory)>, ext: Seq<char>) -> FileCategory
    decreases table.len(),
{
    if table.len() == 0 {
        FileCategory::Other
    } else if table[0].0@ == ext {
        table[0].1
    } else {
        category_in(table.drop_first(), ext)
    }
}

fn lookup_category(table: &[(String, FileCategory)], ext: &str) -> (r: FileCategory)
    ensures
        r == category_in(table@, ext@),
{
    let mut i: usize = 0;
    proof {
        assert(table@.skip(0) =~= table@);
    }
    while i < table.len()
        invariant
            i <= table.len(),
            category_in(table@, ext@) == category_in(table@.skip(i as int), ext@),
        decreases table.len() - i,
    {
        proof {
            assert(table@.skip(i as int)[0] == table@[i as int]);
            assert(table@.skip(i as int).drop_first() =~= table@.skip(i + 1));
        }
        if str_eq(table[i].0.as_str(), ext) {
            return table[i].1;
        }
        i = i + 1;
    }
    proof {
        assert(table@.skip(i as int).len() == 0);
    }
    FileCategory::Other
}

/// Tool-use counts gathered from a message's tool calls, before they become counters.
pub ghost struct ToolTally {
    pub files_read: int,
    pub lines_read: int,
    pub bytes_read: int,
    pub files_edited: int,
    pub lines_edited: int,
    pub bytes_edited: int,
    pub terminal_commands: int,
    pub code_lines: int,
    pub docs_lines: int,
    pub data_lines: int,
    pub media_lines: int,
    pub config_lines: int,
    pub other_lines: int,
}

/// Nothing counted yet.
pub open spec fn empty_tally() -> ToolTally {
    ToolTally {
        files_read: 0,
        lines_read: 0,
        bytes_read: 0,
        files_edited: 0,
        lines_edited: 0,
        bytes_edited: 0,
        terminal_commands: 0,
        code_lines: 0,
        docs_lines: 0,
        data_lines: 0,
        media_lines: 0,
        config_lines: 0,
        other_lines: 0,
    }
}

/// The lines one file of category `c` is estimated at.
pub open spec fn add_category_lines(t: ToolTally, c: FileCategory) -> ToolTally {
    match c {
        FileCategory::SourceCode => ToolTally { code_lines: t.code_lines + 100, ..t },
        FileCategory::Documentation => ToolTally { docs_lines: t.docs_lines + 100, ..t },
        FileCategory::Data => ToolTally { data_lines: t.data_lines + 100, ..t },
        FileCategory::Media => ToolTally { media_lines: t.media_lines + 100, ..t },
        FileCategory::Config => ToolTally { config_lines: t.config_lines + 100, ..t },
        FileCategory::Other => ToolTally { other_lines: t.other_lines + 100, ..t },
    }
}

/// The estimated lines of the first `n` files of a `read_many_files` call, by category.
pub open spec fn tally_paths(t: ToolTally, paths: Seq<JsonValue>, table: Seq<(String, FileCategory)>, n: int) -> ToolTally
    decreases n,
{
    if n <= 0 {
        t
    } else {
        let prev = tally_paths(t, paths, table, n - 1);
        match paths[n - 1] {
            JsonValue::Str(p) => add_category_lines(prev, category_in(table, match path_ext(p@) {
                Some(e) => e,
                None => Seq::empty(),
            })),
            _ => prev,
        }
    }
}

/// What one tool call adds: files read (with estimated lines and bytes per file) for
/// `read_many_files`, an edit for `replace`, a command for `run_shell_command`, a read for
/// `list_directory`; nothing otherwise.
pub open spec fn tally_call(t: ToolTally, call: JsonValue, table: Seq<(String, FileCategory)>) -> ToolTally {
    match as_text(json_get(call, "name"@)) {
        None => t,
        Some(name) => if name == "read_many_files"@ {
            match json_get(call, "args"@) {
                Some(args) => match json_get(args, "paths"@) {
                    Some(JsonValue::Array(paths)) => {
                        let n = paths.len() as int;
                        let t1 = ToolTally { files_read: t.files_read + n, ..t };
                        let t2 = tally_paths(t1, paths@, table, n);
                        ToolTally { lines_read: t2.lines_read + n * 100, bytes_read: t2.bytes_read + n * 8000, ..t2 }
                    },
                    _ => t,
                },
                None => t,
            }
        } else if name == "replace"@ {
            ToolTally {
                files_edited: t.files_edited + 1,
                lines_edited: t.lines_edited + 10,
                bytes_edited: t.bytes_edited + 800,
                ..t
            }
        } else if name == "run_shell_command"@ {
            ToolTally { terminal_commands: t.terminal_commands + 1, ..t }
        } else if name == "list_directory"@ {
            ToolTally { files_read: t.files_read + 1, ..t }
        } else {
            t
        },
    }
}

/// The tally of the first `n` tool calls.
pub open spec fn tally_calls(calls: Seq<JsonValue>, table: Seq<(String, FileCategory)>, n: int) -> ToolTally
    decreases n,
{
    if n <= 0 {
        empty_tally()
    } else {
        tally_call(tally_calls(calls, table, n - 1), calls[n - 1], table)
    }
}

/// Every count of a tally fits a counter.
pub open spec fn tally_fits(t: ToolTally) -> bool {
    &&& 0 <= t.files_read <= u64::MAX
    &&& 0 <= t.lines_read <= u64::MAX
    &&& 0 <= t.bytes_read <= u64::MAX
    &&& 0 <= t.files_edited <= u64::MAX
    &&& 0 <= t.lines_edited <= u64::MAX
    &&& 0 <= t.bytes_edited <= u64::MAX
    &&& 0 <= t.terminal_commands <= u64::MAX
    &&& 0 <= t.code_lines <= u64::MAX
    &&& 0 <= t.docs_lines <= u64::MAX
    &&& 0 <= t.data_lines <= u64::MAX
    &&& 0 <= t.media_lines <= u64::MAX
    &&& 0 <= t.config_lines <= u64::MAX
    &&& 0 <= t.other_lines <= u64::MAX
}

/// The counters of a tally; added and deleted lines are estimated from the edited ones (at
/// least one each).
pub open spec fn tally_stats(t: ToolTally) -> Stats {
    let added = t.lines_edited / 2;
    let deleted = t.lines_edited / 3;
    Stats {
        files_read: t.files_read as u64,
        lines_read: t.lines_read as u64,
        bytes_read: t.bytes_read as u64,
        files_edited: t.files_edited as u64,
        lines_edited: t.lines_edited as u64,
        bytes_edited: t.bytes_edited as u64,
        terminal_commands: t.terminal_commands as u64,
        code_lines: t.code_lines as u64,
        docs_lines: t.docs_lines as u64,
        data_lines: t.data_lines as u64,
        media_lines: t.media_lines as u64,
        config_lines: t.config_lines as u64,
        other_lines: t.other_lines as u64,
        lines_added: if added > 1 { added as u64 } else { 1 },
        lines_deleted: if deleted > 1 { deleted as u64 } else { 1 },
        ..zero_stats()
    }
}

/// Every partial tally of the calls fits, so no counter overflows on the way.
pub open spec fn calls_fit(calls: Seq<JsonValue>, table: Seq<(String, FileCategory)>) -> bool {
    forall|n: int| 0 <= n <= calls.len() ==> tally_fits(#[trigger] tally_calls(calls, table, n))
}

/// The running tally as counters.
struct Tally {
    files_read: u64,
    lines_read: u64,
    bytes_read: u64,
    files_edited: u64,
    lines_edited: u64,
    bytes_edited: u64,
    terminal_commands: u64,
    code_lines: u64,
    docs_lines: u64,
    data_lines: u64,
    media_lines: u64,
    config_lines: u64,
    other_lines: u64,
}

impl Tally {
    spec fn view_tally(&self) -> ToolTally {
        ToolTally {
            files_read: self.files_read as int,
            lines_read: self.lines_read as int,
            bytes_read: self.bytes_read as int,
            files_edited: self.files_edited as int,
            lines_edited: self.lines_edited as int,
            bytes_edited: self.bytes_edited as int,
            terminal_commands: self.terminal_commands as int,
            code_lines: self.code_lines as int,
            docs_lines: self.docs_lines as int,
            data_lines: self.data_lines as int,
            media_lines: self.media_lines as int,
            config_lines: self.config_lines as int,
            other_lines: self.other_lines as int,
        }
    }
}

pub proof fn lemma_tally_paths_grows(t: ToolTally, paths: Seq<JsonValue>, table: Seq<(String, FileCategory)>, m: int, n: int)
    requires
        0 <= m <= n,
    ensures
        tally_paths(t, paths, table, m).code_lines <= tally_paths(t, paths, table, n).code_lines,
        tally_paths(t, paths, table, m).docs_lines <= tally_paths(t, paths, table, n).docs_lines,
        tally_paths(t, paths, table, m).data_lines <= tally_paths(t, paths, table, n).data_lines,
        tally_paths(t, paths, table, m).media_lines <= tally_paths(t, paths, table, n).media_lines,
        tally_paths(t, paths, table, m).config_lines <= tally_paths(t, paths, table, n).config_lines,
        tally_paths(t, paths, table, m).other_lines <= tally_paths(t, paths, table, n).other_lines,
    decreases n - m,
{
    if m < n {
        lemma_tally_paths_grows(t, paths, table, m, n - 1);
    }
}

pub proof fn lemma_tally_paths_frame(t: ToolTally, paths: Seq<JsonValue>, table: Seq<(String, FileCategory)>, n: int)
    ensures
        tally_paths(t, paths, table, n).files_read == t.files_read,
        tally_paths(t, paths, table, n).lines_read == t.lines_read,
        tally_paths(t, paths, table, n).bytes_read == t.bytes_read,
        tally_paths(t, paths, table, n).files_edited == t.files_edited,
        tally_paths(t, paths, table, n).lines_edited == t.lines_edited,
        tally_paths(t, paths, table, n).bytes_edited == t.bytes_edited,
        tally_paths(t, paths, table, n).terminal_commands == t.terminal_commands,
        t.code_lines <= tally_paths(t, paths, table, n).code_lines,
        t.docs_lines <= tally_paths(t, paths, table, n).docs_lines,
        t.data_lines <= tally_paths(t, paths, table, n).data_lines,
        t.media_lines <= tally_paths(t, paths, table, n).media_lines,
        t.config_lines <= tally_paths(t, paths, table, n).config_lines,
        t.other_lines <= tally_paths(t, paths, table, n).other_lines,
    decreases n,
{
    if n > 0 {
        lemma_tally_paths_frame(t, paths, table, n - 1);
    }
}

/// Adds the tool use of one call (see [`tally_call`]).
fn tally_one(t: &mut Tally, call: &JsonValue, table: &[(String, FileCategory)])
    requires
        tally_fits(tally_call(old(t).view_tally(), *call, table@)),
    ensures
        final(t).view_tally() == tally_call(old(t).view_tally(), *call, table@),
{
    let name = match text_member(call, "name") {
        Some(n) => n,
        None => return,
    };
    if str_eq(name.as_str(), "read_many_files") {
        let args = match get_json(call, "args") {
            Some(a) => a,
            None => return,
        };
        let paths = match get_json(args, "paths") {
            Some(JsonValue::Array(p)) => p,
            _ => return,
        };
        let ghost t0 = t.view_tally();
        let ghost n = paths.len() as int;
        let ghost t1 = ToolTally { files_read: t0.files_read + n, ..t0 };
        proof {
            lemma_tally_paths_frame(t1, paths@, table@, n);
        }
        t.files_read = t.files_read + paths.len() as u64;
        let mut k: usize = 0;
        while k < paths.len()
            invariant
                k <= paths.len(),
                n == paths.len(),
                t.view_tally() == tally_paths(t1, paths@, table@, k as int),
                tally_fits(tally_call(t0, *call, table@)),
                tally_call(t0, *call, table@) == ({
                    let t2 = tally_paths(t1, paths@, table@, n);
                    ToolTally { lines_read: t2.lines_read + n * 100, bytes_read: t2.bytes_read + n * 8000, ..t2 }
                }),
            decreases paths.len() - k,
        {
            proof {
                lemma_tally_paths_grows(t1, paths@, table@, k + 1, n);
                lemma_tally_paths_frame(t1, paths@, table@, k + 1);
                lemma_tally_paths_frame(t1, paths@, table@, n);
            }
            match &paths[k] {
                JsonValue::Str(p) => {
                    let ext = match path_extension(p.as_str()) {
                        Some(e) => e,
                        None => String::new(),
                    };
                    match lookup_category(table, ext.as_str()) {
                        FileCategory::SourceCode => t.code_lines = t.code_lines + 100,
                        FileCategory::Documentation => t.docs_lines = t.docs_lines + 100,
                        FileCategory::Data => t.data_lines = t.data_lines + 100,
                        FileCategory::Media => t.media_lines = t.media_lines + 100,
                        FileCategory::Config => t.config_lines = t.config_lines + 100,
                        FileCategory::Other => t.other_lines = t.other_lines + 100,
                    }
                },
                _ => {},
            }
            k = k + 1;
        }
        t.lines_read = t.lines_read + (paths.len() as u64) * 100;
        t.bytes_read = t.bytes_read + (paths.len() as u64) * 8000;
    } else if str_eq(name.as_str(), "replace") {
        t.files_edited = t.files_edited + 1;
        t.lines_edited = t.lines_edited + 10;
        t.bytes_edited = t.bytes_edited + 800;
    } else if str_eq(name.as_str(), "run_shell_command") {
        t.terminal_commands = t.terminal_commands + 1;
    } else if str_eq(name.as_str(), "list_directory") {
        t.files_read = t.files_read + 1;
    }
}

/// The counters a message's tool calls add up to (see [`tally_calls`] and [`tally_stats`]);
/// `table` categorizes file extensions.
pub fn extract_tool_stats(tool_calls: &[JsonValue], table: &[(String, FileCategory)]) -> (r: Stats)
    requires
        calls_fit(tool_calls@, table@),
    ensures
        r == tally_stats(tally_calls(tool_calls@, table@, tool_calls.len() as int)),
{
    let mut t = Tally {
        files_read: 0,
        lines_read: 0,
        bytes_read: 0,
        files_edited: 0,
        lines_edited: 0,
        bytes_edited: 0,
        terminal_commands: 0,
        code_lines: 0,
        docs_lines: 0,
        data_lines: 0,
        media_lines: 0,
        config_lines: 0,
        other_lines: 0,
    };
    let mut i: usize = 0;
    while i < tool_calls.len()
        invariant
            i <= tool_calls.len(),
            calls_fit(tool_calls@, table@),
            t.view_tally() == tally_calls(tool_calls@, table@, i as int),
        decreases tool_calls.len() - i,
    {
        proof {
            assert(tally_fits(tally_calls(tool_calls@, table@, i + 1)));
        }
        tally_one(&mut t, &tool_calls[i], table);
        i = i + 1;
    }
    let mut s = Stats::zero();
    s.files_read = t.files_read;
    s.lines_read = t.lines_read;
    s.bytes_read = t.bytes_read;
    s.files_edited = t.files_edited;
    s.lines_edited = t.lines_edited;
    s.bytes_edited = t.bytes_edited;
    s.terminal_commands = t.terminal_commands;
    s.code_lines = t.code_lines;
    s.docs_lines = t.docs_lines;
    s.data_lines = t.data_lines;
    s.media_lines = t.media_lines;
    s.config_lines = t.config_lines;
    s.other_lines = t.other_lines;
    let added = t.lines_edited / 2;
    let deleted = t.lines_edited / 3;
    s.lines_added = if added > 1 { added } else { 1 };
    s.lines_deleted = if deleted > 1 { deleted } else { 1 };
    s
}

/// Token counts of a Qwen message.
#[derive(Debug, Clone, Copy)]
pub struct QwenCodeTokens {
    pub input: u64,
    pub output: u64,
    pub cached: u64,
    pub thoughts: u64,
    pub tool: u64,
    pub total: u64,
}

/// A message of a chat session file.
#[derive(Debug)]
pub enum QwenCodeMessage {
    User { id: String, timestamp: Timestamp, content: String },
    Qwen {
        id: String,
        timestamp: Timestamp,
        content: String,
        model: String,
        tokens: Option<QwenCodeTokens>,
        tool_calls: Vec<JsonValue>,
    },
    System { id: String, timestamp: Timestamp, content: String },
    Error { id: String, timestamp: Timestamp, content: String },
}

/// A chat session file.
#[derive(Debug)]
pub struct QwenCodeSession {
    pub session_id: String,
    pub project_hash: String,
    pub start_time: String,
    pub last_updated: String,
    pub messages: Vec<QwenCodeMessage>,
}

/// The first normal component after a `tmp` component, from position `i` on.
pub open spec fn tmp_child(parts: Seq<Option<Seq<char>>>, i: int) -> Option<Seq<char>>
    decreases parts.len() - i,
{
    if i < 0 || i >= parts.len() {
        None
    } else if parts[i] == Some("tmp"@) && i + 1 < parts.len() && parts[i + 1] is Some {
        parts[i + 1]
    } else {
        tmp_child(parts, i + 1)
    }
}

/// The project of a session file: the directory under `tmp` it lies in, or nothing.
pub open spec fn qwen_project(path: Seq<char>) -> Seq<char> {
    match tmp_child(path_parts(path), 0) {
        Some(id) => id,
        None => Seq::empty(),
    }
}

/// The project of a session file (see [`qwen_project`]).
pub fn extract_project_id_qwen_code(path: &str) -> (r: String)
    ensures
        r@ == qwen_project(path@),
{
    let parts = path_components(path);
    let ghost pv = parts@.map_values(|c: Option<String>| opt_view(c));
    let mut i: usize = 0;
    while i < parts.len()
        invariant
            i <= parts.len(),
            pv == parts@.map_values(|c: Option<String>| opt_view(c)),
            pv == path_parts(path@),
            tmp_child(pv, 0) == tmp_child(pv, i as int),
        decreases parts.len() - i,
    {
        proof {
            assert(pv[i as int] == opt_view(parts@[i as int]));
            if i + 1 < parts.len() {
                assert(pv[i + 1] == opt_view(parts@[i + 1]));
            }
        }
        match &parts[i] {
            Some(name) => {
                if str_eq(name.as_str(), "tmp") && i + 1 < parts.len() {
                    match &parts[i + 1] {
                        Some(id) => {
                            proof {
                                reveal_strlit("tmp");
                            }
                            return id.clone();
                        },
                        None => {},
                    }
                }
            },
            None => {},
        }
        i = i + 1;
    }
    String::new()
}

/// New input tokens: when the input is at least the cached count it is taken to include the
/// cached tokens, which are then taken off.
pub open spec fn real_input(input: u64, cached: u64) -> u64 {
    if input >= cached { (input - cached) as u64 } else { input }
}

fn real_input_tokens(input: u64, cached: u64) -> (r: u64)
    ensures
        r == real_input(input, cached),
{
    if input >= cached { input - cached } else { input }
}

/// The counters of a Qwen message with tokens `tokens` and tool calls `calls`.
pub open spec fn qwen_stats(tokens: Option<QwenCodeTokens>, calls: Seq<JsonValue>, table: Seq<(String, FileCategory)>) -> Stats {
    let base = tally_stats(tally_calls(calls, table, calls.len() as int));
    match tokens {
        Some(t) => Stats {
            input_tokens: real_input(t.input, t.cached),
            output_tokens: t.output,
            reasoning_tokens: (t.thoughts + t.tool) as u64,
            cache_creation_tokens: 0,
            cache_read_tokens: 0,
            cached_tokens: t.cached,
            tool_calls: calls.len() as u32,
            ..base
        },
        None => Stats { tool_calls: calls.len() as u32, ..base },
    }
}

/// What a session message becomes in the session file `path` (project `project`).
pub open spec fn qwen_message(m: QwenCodeMessage, path: Seq<char>, project: Seq<char>, table: Seq<(String, FileCategory)>) -> PricedMessageView {
    let (ts, role, model, stats, usage, content) = match m {
        QwenCodeMessage::User { timestamp, content, .. } => (timestamp, MessageRole::User, None, zero_stats(), None, content@),
        QwenCodeMessage::Qwen { timestamp, content, model, tokens, tool_calls, .. } => (
            timestamp,
            MessageRole::Assistant,
            Some(model@),
            qwen_stats(tokens, tool_calls@, table),
            match tokens {
                Some(t) => Some(CostQueryView {
                    model: model@,
                    input_tokens: (real_input(t.input, t.cached) + t.thoughts + t.tool) as u64,
                    output_tokens: t.output,
                    cache_creation_tokens: 0,
                    cache_read_tokens: t.cached,
                }),
                None => None,
            },
            content@,
        ),
        QwenCodeMessage::System { timestamp, content, .. } => (timestamp, MessageRole::Assistant, None, zero_stats(), None, content@),
        QwenCodeMessage::Error { timestamp, content, .. } => (timestamp, MessageRole::Assistant, None, zero_stats(), None, content@),
    };
    PricedMessageView {
        message: MessageView {
            application: Application::QwenCode,
            date: ts,
            project_hash: project,
            conversation_hash: text_fingerprint(path),
            local_hash: None,
            global_hash: text_fingerprint(path + seq!['_'] + rfc3339_text(ts.secs, ts.nanos)),
            model,
            stats,
            role,
            content: Some(content),
        },
        usage,
    }
}

/// What a session message needs: a timestamp chrono writes, token sums within a counter, and
/// tool calls whose counts fit.
pub open spec fn qwen_message_ok(m: QwenCodeMessage, table: Seq<(String, FileCategory)>) -> bool {
    let ts = match m {
        QwenCodeMessage::User { timestamp, .. } => timestamp,
        QwenCodeMessage::Qwen { timestamp, .. } => timestamp,
        QwenCodeMessage::System { timestamp, .. } => timestamp,
        QwenCodeMessage::Error { timestamp, .. } => timestamp,
    };
    &&& ts.wf()
    &&& -8_000_000_000_000 <= ts.secs <= 8_000_000_000_000
    &&& match m {
        QwenCodeMessage::Qwen { tokens, tool_calls, .. } => {
            &&& calls_fit(tool_calls@, table)
            &&& (tokens matches Some(t) ==> real_input(t.input, t.cached) + t.thoughts + t.tool <= u64::MAX)
        },
        _ => true,
    }
}

/// The views of priced messages.
pub open spec fn priced_views(v: Seq<PricedMessage>) -> Seq<PricedMessageView> {
    v.map_values(|p: PricedMessage| p@)
}

fn qwen_priced(m: &QwenCodeMessage, path: &str, project: &String, table: &[(String, FileCategory)]) -> (r: PricedMessage)
    requires
        qwen_message_ok(*m, table@),
    ensures
        r@ == qwen_message(*m, path@, project@, table@),
{
    let (ts, role, model, stats, usage, content): (Timestamp, MessageRole, Option<String>, Stats, Option<CostQuery>, &String) = match m {
        QwenCodeMessage::User { timestamp, content, .. } => (*timestamp, MessageRole::User, None, Stats::zero(), None, content),
        QwenCodeMessage::Qwen { timestamp, content, model, tokens, tool_calls, .. } => {
            let mut stats = extract_tool_stats(tool_calls.as_slice(), table);
            let usage = match tokens {
                Some(t) => {
                    let fresh: u64 = real_input_tokens(t.input, t.cached);
                    stats.input_tokens = fresh;
                    stats.output_tokens = t.output;
                    stats.reasoning_tokens = t.thoughts + t.tool;
                    stats.cache_creation_tokens = 0;
                    stats.cache_read_tokens = 0;
                    stats.cached_tokens = t.cached;
                    Some(CostQuery {
                        model: model.clone(),
                        input_tokens: fresh + t.thoughts + t.tool,
                        output_tokens: t.output,
                        cache_creation_tokens: 0,
                        cache_read_tokens: t.cached,
                    })
                },
                None => None,
            };
            stats.tool_calls = tool_calls.len() as u32;
            (*timestamp, MessageRole::Assistant, Some(model.clone()), stats, usage, content)
        },
        QwenCodeMessage::System { timestamp, content, .. } => (*timestamp, MessageRole::Assistant, None, Stats::zero(), None, content),
        QwenCodeMessage::Error { timestamp, content, .. } => (*timestamp, MessageRole::Assistant, None, Stats::zero(), None, content),
    };
    let stamp = match format_rfc3339(ts) {
        Some(s) => s,
        None => String::new(),
    };
    let mut g = chars_of(path);
    g.push('_');
    let sc = chars_of(stamp.as_str());
    append_chars(&mut g, sc.as_slice());
    proof {
        assert(g@ =~= path@ + seq!['_'] + rfc3339_text(ts.secs, ts.nanos));
    }
    PricedMessage {
        message: ConversationMessage {
            application: Application::QwenCode,
            date: ts,
            project_hash: project.clone(),
            conversation_hash: hash_text(path),
            local_hash: None,
            global_hash: hash_chars(g.as_slice()),
            model,
            stats,
            role,
            content: Some(content.clone()),
        },
        usage,
    }
}

/// The messages of a chat session file at `path`, one per session message in order (see
/// [`qwen_message`]); `table` categorizes file extensions.
pub fn parse_json_session_file(path: &str, session: &QwenCodeSession, table: &[(String, FileCategory)]) -> (r: Vec<PricedMessage>)
    requires
        forall|i: int| 0 <= i < session.messages.len() ==> qwen_message_ok(#[trigger] session.messages@[i], table@),
    ensures
        priced_views(r@) == session.messages@.map_values(
            |m: QwenCodeMessage| qwen_message(m, path@, qwen_project(path@), table@),
        ),
{
    let project = extract_project_id_qwen_code(path);
    let mut out: Vec<PricedMessage> = Vec::new();
    let mut i: usize = 0;
    while i < session.messages.len()
        invariant
            i <= session.messages.len(),
            project@ == qwen_project(path@),
            forall|k: int| 0 <= k < session.messages.len() ==> qwen_message_ok(#[trigger] session.messages@[k], table@),
            priced_views(out@) == session.messages@.take(i as int).map_values(
                |m: QwenCodeMessage| qwen_message(m, path@, qwen_project(path@), table@),
            ),
        decreases session.messages.len() - i,
    {
        proof {
            assert(qwen_message_ok(session.messages@[i as int], table@));
        }
        let p = qwen_priced(&session.messages[i], path, &project, table);
        let ghost before = out@;
        out.push(p);
        proof {
            assert(priced_views(out@) =~= priced_views(before).push(p@));
            assert(session.messages@.take(i + 1) =~= session.messages@.take(i as int).push(session.messages@[i as int]));
        }
        i = i + 1;
    }
    proof {
        assert(session.messages@.take(session.messages.len() as int) =~= session.messages@);
    }
    out
}

/// Whether a JSON value is an object.
pub open spec fn is_object(v: Option<JsonValue>) -> bool {
    v matches Some(JsonValue::Object(_))
}

/// A count member of `v`, zero when it holds none.
pub open spec fn count_of(v: JsonValue, key: Seq<char>) -> u64 {
    match as_count(json_get(v, key)) {
        Some(n) => n,
        None => 0,
    }
}

/// The first `n` characters of `s` (all of them if fewer).
pub open spec fn first_chars(s: Seq<char>, n: int) -> Seq<char> {
    s.take(if s.len() < n { s.len() as int } else { n })
}

/// The message a request-log line stands for in the stats file `path`: an object with a
/// `sessionId` string, `type` `auto_request_log`, an RFC 3339 `timestamp` and an object `data`.
/// The request's usage (when `data.usageMetadata` is an object) gives its counters; an event
/// `request` is the user's, any other the assistant's; the content is the first 200 characters
/// of `data.userPromptId`.
pub open spec fn request_log_message(v: JsonValue, path: Seq<char>) -> Option<PricedMessageView> {
    match (as_text(json_get(v, "sessionId"@)), as_text(json_get(v, "type"@))) {
        (Some(session), Some(ty)) => if ty != "auto_request_log"@ || !(v is Object) || !is_object(json_get(v, "data"@)) {
            None
        } else {
            let data = json_get(v, "data"@)->0;
            let ts = match as_text(json_get(v, "timestamp"@)) {
                Some(t) => instant_of_rfc3339(t),
                None => None,
            };
            match ts {
                None => None,
                Some(t) => {
                    let event = match as_text(json_get(v, "event"@)) {
                        Some(e) => e,
                        None => Seq::empty(),
                    };
                    let model = as_text(json_get(data, "model"@));
                    let usage_obj = json_get(data, "usageMetadata"@);
                    let (stats, usage) = if is_object(usage_obj) {
                        let u = usage_obj->0;
                        let prompt = count_of(u, "promptTokenCount"@);
                        let cand = count_of(u, "candidatesTokenCount"@);
                        let cached = count_of(u, "cachedContentTokenCount"@);
                        (
                            Stats {
                                input_tokens: real_input(prompt, cached),
                                output_tokens: cand,
                                cached_tokens: cached,
                                ..zero_stats()
                            },
                            match model {
                                Some(m) => Some(CostQueryView {
                                    model: m,
                                    input_tokens: real_input(prompt, cached),
                                    output_tokens: cand,
                                    cache_creation_tokens: 0,
                                    cache_read_tokens: cached,
                                }),
                                None => None,
                            },
                        )
                    } else {
                        (zero_stats(), None)
                    };
                    Some(PricedMessageView {
                        message: MessageView {
                            application: Application::QwenCode,
                            date: t,
                            project_hash: Seq::empty(),
                            conversation_hash: text_fingerprint(session),
                            local_hash: Some("req-"@ + session + seq!['-'] + event),
                            global_hash: text_fingerprint(
                                path + seq![':'] + session + seq![':'] + rfc3339_text(t.secs, t.nanos) + seq![':'] + event,
                            ),
                            model,
                            stats,
                            role: if event == "request"@ { MessageRole::User } else { MessageRole::Assistant },
                            content: match as_text(json_get(data, "userPromptId"@)) {
                                Some(id) => Some(first_chars(id, 200)),
                                None => None,
                            },
                        },
                        usage,
                    })
                },
            }
        },
        _ => None,
    }
}

fn first_chars_of(s: &str, n: usize) -> (r: String)
    ensures
        r@ == first_chars(s@, n as int),
{
    let cs = chars_of(s);
    let k: usize = if cs.len() < n { cs.len() } else { n };
    let head = crate::text::sub_chars(cs.as_slice(), 0, k);
    proof {
        assert(head@ =~= first_chars(s@, n as int));
    }
    string_of(head.as_slice())
}

/// The message of a request-log line (see [`request_log_message`]), if it is one.
pub fn parse_request_log_from_json_value(v: &JsonValue, path: &str) -> (r: Option<PricedMessage>)
    ensures
        match r {
            Some(p) => request_log_message(*v, path@) == Some(p@),
            None => request_log_message(*v, path@) is None,
        },
{
    let session = match text_member(v, "sessionId") {
        Some(s) => s,
        None => return None,
    };
    let ty = match text_member(v, "type") {
        Some(t) => t,
        None => return None,
    };
    if !str_eq(ty.as_str(), "auto_request_log") {
        return None;
    }
    match v {
        JsonValue::Object(_) => {},
        _ => return None,
    }
    let data = match get_json(v, "data") {
        Some(d) => d,
        None => return None,
    };
    match data {
        JsonValue::Object(_) => {},
        _ => return None,
    }
    let t = match text_member(v, "timestamp") {
        Some(ts) => match parse_instant(ts.as_str()) {
            Some(t) => t,
            None => return None,
        },
        None => return None,
    };
    let event = match text_member(v, "event") {
        Some(e) => e,
        None => String::new(),
    };
    let model = text_member(data, "model");
    let mut stats = Stats::zero();
    let mut usage: Option<CostQuery> = None;
    match get_json(data, "usageMetadata") {
        Some(u) => match u {
            JsonValue::Object(_) => {
                let prompt = count_member(u, "promptTokenCount");
                let cand = count_member(u, "candidatesTokenCount");
                let cached = count_member(u, "cachedContentTokenCount");
                let fresh = real_input_tokens(prompt, cached);
                stats.input_tokens = fresh;
                stats.output_tokens = cand;
                stats.cached_tokens = cached;
                usage = match &model {
                    Some(m) => Some(CostQuery {
                        model: m.clone(),
                        input_tokens: fresh,
                        output_tokens: cand,
                        cache_creation_tokens: 0,
                        cache_read_tokens: cached,
                    }),
                    None => None,
                };
            },
            _ => {},
        },
        None => {},
    }
    let stamp = match format_rfc3339(t) {
        Some(s) => s,
        None => String::new(),
    };
    let mut local = chars_of("req-");
    let sc = chars_of(session.as_str());
    append_chars(&mut local, sc.as_slice());
    local.push('-');
    let ec = chars_of(event.as_str());
    append_chars(&mut local, ec.as_slice());
    let mut g = chars_of(path);
    g.push(':');
    append_chars(&mut g, sc.as_slice());
    g.push(':');
    let stc = chars_of(stamp.as_str());
    append_chars(&mut g, stc.as_slice());
    g.push(':');
    append_chars(&mut g, ec.as_slice());
    let role = if str_eq(event.as_str(), "request") { MessageRole::User } else { MessageRole::Assistant };
    let content = match text_member(data, "userPromptId") {
        Some(id) => Some(first_chars_of(id.as_str(), 200)),
        None => None,
    };
    proof {
        assert(local@ =~= "req-"@ + session@ + seq!['-'] + event@);
        assert(g@ =~= path@ + seq![':'] + session@ + seq![':'] + rfc3339_text(t.secs, t.nanos) + seq![':'] + event@);
    }
    Some(PricedMessage {
        message: ConversationMessage {
            application: Application::QwenCode,
            date: t,
            project_hash: String::new(),
            conversation_hash: hash_text(session.as_str()),
            local_hash: Some(string_of(local.as_slice())),
            global_hash: hash_chars(g.as_slice()),
            model,
            stats,
            role,
            content,
        },
        usage,
    })
}

/// The message of one model's entry `mv` (named `name`) of a stats log for session `session`
/// in file `path`, stamped `ts`: the model's request, error and latency counts with its tokens.
pub open spec fn model_stats_message(
    name: Seq<char>,
    mv: JsonValue,
    session: Seq<char>,
    path: Seq<char>,
    ts: Option<Timestamp>,
) -> Option<PricedMessageView> {
    if !(mv is Object) || !is_object(json_get(mv, "tokens"@)) {
        None
    } else {
        match ts {
            None => None,
            Some(t) => {
                let tok = json_get(mv, "tokens"@)->0;
                let requests = count_of(mv, "requests"@);
                let errors = count_of(mv, "errors"@);
                let latency = count_of(mv, "latency_ms"@);
                let prompt = count_of(tok, "prompt"@);
                let cand = count_of(tok, "candidates"@);
                let cached = count_of(tok, "cached"@);
                Some(PricedMessageView {
                    message: MessageView {
                        application: Application::QwenCode,
                        date: t,
                        project_hash: Seq::empty(),
                        conversation_hash: text_fingerprint(session),
                        local_hash: Some("stats-"@ + session + seq!['-'] + name),
                        global_hash: text_fingerprint(path + seq![':'] + session + ":stats:"@ + name),
                        model: Some(name),
                        stats: Stats {
                            tool_calls: requests as u32,
                            cached_tokens: cached,
                            input_tokens: real_input(prompt, cached),
                            output_tokens: cand,
                            ..zero_stats()
                        },
                        role: MessageRole::Assistant,
                        content: Some("Session stats: "@ + decimal(requests as nat) + " requests, "@ + decimal(errors as nat)
                            + " errors, "@ + decimal(latency as nat) + "ms latency, "@ + decimal((prompt + cand) as nat)
                            + " total tokens"@),
                    },
                    usage: if name.len() > 0 {
                        Some(CostQueryView {
                            model: name,
                            input_tokens: real_input(prompt, cached),
                            output_tokens: cand,
                            cache_creation_tokens: 0,
                            cache_read_tokens: cached,
                        })
                    } else {
                        None
                    },
                })
            },
        }
    }
}

/// The messages of the first `n` model entries of a stats log.
pub open spec fn model_stats_messages(
    models: Seq<(String, JsonValue)>,
    session: Seq<char>,
    path: Seq<char>,
    ts: Option<Timestamp>,
    n: int,
) -> Seq<PricedMessageView>
    decreases n,
{
    if n <= 0 {
        Seq::empty()
    } else {
        let prev = model_stats_messages(models, session, path, ts, n - 1);
        match model_stats_message(models[n - 1].0@, models[n - 1].1, session, path, ts) {
            Some(m) => prev.push(m),
            None => prev,
        }
    }
}

/// The model entries of a stats log, when it has them.
pub open spec fn stats_models(v: JsonValue) -> Seq<(String, JsonValue)> {
    match json_get(v, "stats"@) {
        Some(st) => match json_get(st, "models"@) {
            Some(JsonValue::Object(ms)) => ms@,
            _ => Seq::empty(),
        },
        None => Seq::empty(),
    }
}

/// The messages a stats-log line stands for in the stats file `path`: an object with a
/// `sessionId` string, `type` `auto_stats` and an object `stats`, one message per model entry
/// of `stats.models` that has a `tokens` object (when the line's `timestamp` parses); none when
/// that yields no message.
pub open spec fn stats_log_messages(v: JsonValue, path: Seq<char>) -> Option<Seq<PricedMessageView>> {
    match (as_text(json_get(v, "sessionId"@)), as_text(json_get(v, "type"@))) {
        (Some(session), Some(ty)) => if ty != "auto_stats"@ || !(v is Object) || !is_object(json_get(v, "stats"@)) {
            None
        } else {
            let ts = match as_text(json_get(v, "timestamp"@)) {
                Some(t) => instant_of_rfc3339(t),
                None => None,
            };
            let ms = stats_models(v);
            let out = model_stats_messages(ms, session, path, ts, ms.len() as int);
            if out.len() > 0 { Some(out) } else { None }
        },
        _ => None,
    }
}

/// Every model entry's prompt and candidate tokens add up within a counter.
pub open spec fn stats_log_fits(v: JsonValue) -> bool {
    forall|i: int|
        0 <= i < stats_models(v).len() ==> {
            let mv = (#[trigger] stats_models(v)[i]).1;
            match json_get(mv, "tokens"@) {
                Some(tok) => count_of(tok, "prompt"@) + count_of(tok, "candidates"@) <= u64::MAX,
                None => true,
            }
        }
}

fn model_stats_entry(name: &String, mv: &JsonValue, session: &String, path: &str, ts: Option<Timestamp>) -> (r: Option<PricedMessage>)
    requires
        ts matches Some(t) ==> t.wf(),
        match json_get(*mv, "tokens"@) {
            Some(tok) => count_of(tok, "prompt"@) + count_of(tok, "candidates"@) <= u64::MAX,
            None => true,
        },
    ensures
        match r {
            Some(p) => model_stats_message(name@, *mv, session@, path@, ts) == Some(p@),
            None => model_stats_message(name@, *mv, session@, path@, ts) is None,
        },
{
    match mv {
        JsonValue::Object(_) => {},
        _ => return None,
    }
    let tok = match get_json(mv, "tokens") {
        Some(t) => t,
        None => return None,
    };
    match tok {
        JsonValue::Object(_) => {},
        _ => return None,
    }
    let t = match ts {
        Some(t) => t,
        None => return None,
    };
    let requests = count_member(mv, "requests");
    let errors = count_member(mv, "errors");
    let latency = count_member(mv, "latency_ms");
    let prompt = count_member(tok, "prompt");
    let cand = count_member(tok, "candidates");
    let cached = count_member(tok, "cached");
    let fresh = real_input_tokens(prompt, cached);
    let mut stats = Stats::zero();
    stats.tool_calls = requests as u32;
    stats.cached_tokens = cached;
    stats.input_tokens = fresh;
    stats.output_tokens = cand;
    let nc = chars_of(name.as_str());
    let sc = chars_of(session.as_str());
    let mut local = chars_of("stats-");
    append_chars(&mut local, sc.as_slice());
    local.push('-');
    append_chars(&mut local, nc.as_slice());
    let mut g = chars_of(path);
    g.push(':');
    append_chars(&mut g, sc.as_slice());
    let mid = chars_of(":stats:");
    append_chars(&mut g, mid.as_slice());
    append_chars(&mut g, nc.as_slice());
    let mut content = chars_of("Session stats: ");
    let d1 = decimal_chars(requests);
    append_chars(&mut content, d1.as_slice());
    let p1 = chars_of(" requests, ");
    append_chars(&mut content, p1.as_slice());
    let d2 = decimal_chars(errors);
    append_chars(&mut content, d2.as_slice());
    let p2 = chars_of(" errors, ");
    append_chars(&mut content, p2.as_slice());
    let d3 = decimal_chars(latency);
    append_chars(&mut content, d3.as_slice());
    let p3 = chars_of("ms latency, ");
    append_chars(&mut content, p3.as_slice());
    let d4 = decimal_chars(prompt + cand);
    append_chars(&mut content, d4.as_slice());
    let p4 = chars_of(" total tokens");
    append_chars(&mut content, p4.as_slice());
    let usage = if nc.len() > 0 {
        Some(CostQuery {
            model: name.clone(),
            input_tokens: fresh,
            output_tokens: cand,
            cache_creation_tokens: 0,
            cache_read_tokens: cached,
        })
    } else {
        None
    };
    proof {
        assert(local@ =~= "stats-"@ + session@ + seq!['-'] + name@);
        assert(g@ =~= path@ + seq![':'] + session@ + ":stats:"@ + name@);
        assert(content@ =~= "Session stats: "@ + decimal(requests as nat) + " requests, "@ + decimal(errors as nat)
            + " errors, "@ + decimal(latency as nat) + "ms latency, "@ + decimal((prompt + cand) as nat)
            + " total tokens"@);
    }
    Some(PricedMessage {
        message: ConversationMessage {
            application: Application::QwenCode,
            date: t,
            project_hash: String::new(),
            conversation_hash: hash_text(session.as_str()),
            local_hash: Some(string_of(local.as_slice())),
            global_hash: hash_chars(g.as_slice()),
            model: Some(name.clone()),
            stats,
            role: MessageRole::Assistant,
            content: Some(string_of(content.as_slice())),
        },
        usage,
    })
}

/// The messages of a stats-log line (see [`stats_log_messages`]), if it is one.
pub fn parse_stats_log_from_json_value(v: &JsonValue, path: &str) -> (r: Option<Vec<PricedMessage>>)
    requires
        stats_log_fits(*v),
    ensures
        match r {
            Some(ms) => stats_log_messages(*v, path@) == Some(priced_views(ms@)),
            None => stats_log_messages(*v, path@) is None,
        },
{
    let session = match text_member(v, "sessionId") {
        Some(s) => s,
        None => return None,
    };
    let ty = match text_member(v, "type") {
        Some(t) => t,
        None => return None,
    };
    if !str_eq(ty.as_str(), "auto_stats") {
        return None;
    }
    match v {
        JsonValue::Object(_) => {},
        _ => return None,
    }
    let stats = match get_json(v, "stats") {
        Some(st) => st,
        None => return None,
    };
    match stats {
        JsonValue::Object(_) => {},
        _ => return None,
    }
    let ts = match text_member(v, "timestamp") {
        Some(t) => parse_instant(t.as_str()),
        None => None,
    };
    let mut out: Vec<PricedMessage> = Vec::new();
    match get_json(stats, "models") {
        Some(JsonValue::Object(models)) => {
            let ghost ms = models@;
            proof {
                assert(ms == stats_models(*v));
            }
            let mut i: usize = 0;
            while i < models.len()
                invariant
                    i <= models.len(),
                    ms == models@,
                    ms == stats_models(*v),
                    stats_log_fits(*v),
                    ts matches Some(t) ==> t.wf(),
                    priced_views(out@) == model_stats_messages(ms, session@, path@, ts, i as int),
                decreases models.len() - i,
            {
                proof {
                    assert(stats_models(*v)[i as int] == models@[i as int]);
                }
                let (name, mv) = &models[i];
                match model_stats_entry(name, mv, &session, path, ts) {
                    Some(p) => {
                        let ghost before = out@;
                        out.push(p);
                        proof {
                            assert(priced_views(out@) =~= priced_views(before).push(p@));
                        }
                    },
                    None => {},
                }
                i = i + 1;
            }
        },
        _ => {
            proof {
                assert(stats_models(*v) =~= Seq::<(String, JsonValue)>::empty());
                assert(priced_views(out@) =~= Seq::<PricedMessageView>::empty());
            }
        },
    }
    if out.len() > 0 {
        Some(out)
    } else {
        None
    }
}

/// The messages of the first `n` lines of an auto-stats file at `path` (each already read as
/// JSON, or not): a request-log line gives its message, else a stats-log line its messages.
pub open spec fn jsonl_messages(lines: Seq<Option<JsonValue>>, path: Seq<char>, n: int) -> Seq<PricedMessageView>
    decreases n,
{
    if n <= 0 {
        Seq::empty()
    } else {
        let prev = jsonl_messages(lines, path, n - 1);
        match lines[n - 1] {
            None => prev,
            Some(v) => match request_log_message(v, path) {
                Some(m) => prev.push(m),
                None => match stats_log_messages(v, path) {
                    Some(ms) => prev + ms,
                    None => prev,
                },
            },
        }
    }
}

/// The messages of an auto-stats file (see [`jsonl_messages`]); lines that are blank or not
/// JSON come as `None`.
pub fn parse_jsonl_stats_file(lines: &[Option<JsonValue>], path: &str) -> (r: Vec<PricedMessage>)
    requires
        forall|i: int| 0 <= i < lines.len() ==> (#[trigger] lines@[i] matches Some(v) ==> stats_log_fits(v)),
    ensures
        priced_views(r@) == jsonl_messages(lines@, path@, lines.len() as int),
{
    let mut out: Vec<PricedMessage> = Vec::new();
    let mut i: usize = 0;
    while i < lines.len()
        invariant
            i <= lines.len(),
            forall|k: int| 0 <= k < lines.len() ==> (#[trigger] lines@[k] matches Some(v) ==> stats_log_fits(v)),
            priced_views(out@) == jsonl_messages(lines@, path@, i as int),
        decreases lines.len() - i,
    {
        let ghost before = out@;
        match &lines[i] {
            None => {},
            Some(v) => {
                proof {
                    assert(lines@[i as int] matches Some(w) ==> stats_log_fits(w));
                }
                match parse_request_log_from_json_value(v, path) {
                    Some(m) => {
                        out.push(m);
                        proof {
                            assert(priced_views(out@) =~= priced_views(before).push(m@));
                        }
                    },
                    None => match parse_stats_log_from_json_value(v, path) {
                        Some(ms) => {
                            let mut k: usize = 0;
                            while k < ms.len()
                                invariant
                                    k <= ms.len(),
                                    priced_views(out@) == priced_views(before) + priced_views(ms@).take(k as int),
                                decreases ms.len() - k,
                            {
                                let ghost b2 = out@;
                                let m = PricedMessage {
                                    message: ms[k].message.duplicate(),
                                    usage: match &ms[k].usage {
                                        Some(q) => Some(CostQuery {
                                            model: q.model.clone(),
                                            input_tokens: q.input_tokens,
                                            output_tokens: q.output_tokens,
                                            cache_creation_tokens: q.cache_creation_tokens,
                                            cache_read_tokens: q.cache_read_tokens,
                                        }),
                                        None => None,
                                    },
                                };
                                out.push(m);
                                k = k + 1;
                                proof {
                                    assert(m@ == ms@[k - 1]@);
                                    assert(priced_views(out@) =~= priced_views(b2).push(m@));
                                    assert(priced_views(ms@).take(k as int) =~= priced_views(ms@).take(k - 1).push(ms@[k - 1]@));
                                }
                            }
                            proof {
                                assert(priced_views(ms@).take(ms.len() as int) =~= priced_views(ms@));
                            }
                        },
                        None => {},
                    },
                }
            },
        }
        i = i + 1;
    }
    out
}

} // verus!


