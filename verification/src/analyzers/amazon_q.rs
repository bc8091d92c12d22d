//! The analyzer for Amazon Q conversations: what a conversation's history becomes. Kiro CLI
//! records its conversations in the same shape, and shares what is common here.
use vstd::prelude::*;
use crate::analyzer::Analyzer;
use crate::hashing::{hash_chars, hash_text, text_fingerprint};
use crate::json::str_eq;
use crate::text::{
    append_chars, chars_of, decimal, decimal_chars, path_components, path_parts, signed_decimal, signed_decimal_chars,
    string_of, trim, trim_chars,
};
use crate::time::{instant_of_rfc3339, parse_instant, Timestamp};
use crate::types::{
    opt_view, Application, ConversationMessage, CostQuery, CostQueryView, MessageRole, MessageView, PricedMessage,
    PricedMessageView, Stats, zero_stats,
};
use crate::utils::{instant_of_millis, timestamp_from_millis};
use crate::time::chrono_secs_in_range;

verus! {

/// The analyzer for Amazon Q conversations.
pub struct AmazonQAnalyzer;

impl AmazonQAnalyzer {
    pub fn new() -> (a: Self) {
        AmazonQAnalyzer
    }
}

impl Analyzer for AmazonQAnalyzer {
    open spec fn name_spec(&self) -> Seq<char> {
        "Amazon Q"@
    }

    fn display_name(&self) -> (s: &'static str) {
        "Amazon Q"
    }
}

/// A piece of a tool's result: text, or JSON (written out as text).
#[derive(Debug, Clone)]
pub enum QToolResultContent {
    Text(String),
    Json(String),
}

/// The result of one tool use.
#[derive(Debug, Clone)]
pub struct QToolUseResult {
    pub tool_use_id: String,
    pub content: Vec<QToolResultContent>,
    pub status: String,
}

/// What the user sent.
#[derive(Debug, Clone)]
pub enum QUserContent {
    Prompt { prompt: String },
    ToolUseResults { tool_use_results: Vec<QToolUseResult> },
    CancelledToolUses { prompt: String, tool_use_results: Vec<QToolUseResult> },
}

/// A user turn.
#[derive(Debug, Clone)]
pub struct QUserMessage {
    pub timestamp: Option<String>,
    pub content: QUserContent,
    /// The working directory of the turn's environment, if recorded.
    pub current_working_directory: Option<String>,
    pub additional_context: Option<String>,
}

/// A tool the assistant used; its arguments written out as JSON text.
#[derive(Debug, Clone)]
pub struct QToolUse {
    pub id: String,
    pub name: String,
    pub orig_name: Option<String>,
    pub args: String,
    pub args_is_null: bool,
}

/// An assistant turn.
#[derive(Debug, Clone)]
pub enum QAssistantMessage {
    ToolUse { message_id: String, content: String, tool_uses: Vec<QToolUse> },
    Response { message_id: String, content: String },
}

/// What was recorded of a request.
#[derive(Debug, Clone)]
pub struct QRequestMetadata {
    pub model_id: Option<String>,
    pub request_start_timestamp_ms: Option<i64>,
    pub user_prompt_length: Option<u64>,
    pub response_size: Option<u64>,
}

/// One exchange of a conversation.
#[derive(Debug, Clone)]
pub struct QHistoryEntry {
    pub user: QUserMessage,
    pub assistant: QAssistantMessage,
    pub request_metadata: Option<QRequestMetadata>,
}

/// A stored conversation.
#[derive(Debug, Clone)]
pub struct QConversation {
    pub conversation_id: String,
    pub history: Vec<QHistoryEntry>,
}

/// The project a conversation belongs to: the last component of its path, when a normal one,
/// else nothing.
pub open spec fn q_project(path: Seq<char>) -> Seq<char> {
    let parts = path_parts(path);
    if parts.len() > 0 && parts.last() is Some { parts.last()->0 } else { Seq::empty() }
}

/// The project a conversation belongs to (see [`q_project`]).
pub fn project_of_path(path: &str) -> (r: String)
    ensures
        r@ == q_project(path@),
{
    let parts = path_components(path);
    let n = parts.len();
    proof {
        if n > 0 {
            assert(path_parts(path@)[n - 1] == opt_view(parts@[n - 1]));
        }
    }
    if n > 0 {
        match &parts[n - 1] {
            Some(name) => return name.clone(),
            None => {},
        }
    }
    String::new()
}

/// When an exchange happened: the user's RFC 3339 timestamp, else the request's start, else
/// `now`.
pub open spec fn q_date(ts: Option<String>, meta: Option<QRequestMetadata>, now: Timestamp) -> Timestamp {
    match (match ts {
        Some(t) => instant_of_rfc3339(t@),
        None => None,
    }) {
        Some(t) => t,
        None => match meta {
            Some(m) => match m.request_start_timestamp_ms {
                Some(ms) => if chrono_secs_in_range((ms as int / 1000) as i64) { instant_of_millis(ms as int) } else { now },
                None => now,
            },
            None => now,
        },
    }
}

/// When an exchange happened (see [`q_date`]).
pub fn exchange_date(ts: &Option<String>, meta: &Option<QRequestMetadata>, now: Timestamp) -> (r: Timestamp)
    requires
        now.wf(),
    ensures
        r == q_date(*ts, *meta, now),
        r.wf(),
{
    match ts {
        Some(t) => match parse_instant(t.as_str()) {
            Some(d) => return d,
            None => {},
        },
        None => {},
    }
    match meta {
        Some(m) => match m.request_start_timestamp_ms {
            Some(ms) => match timestamp_from_millis(ms) {
                Some(d) => d,
                None => now,
            },
            None => now,
        },
        None => now,
    }
}

/// The token estimates of an exchange: the prompt length in, the response size out.
pub open spec fn q_tokens(meta: Option<QRequestMetadata>) -> (u64, u64) {
    match meta {
        Some(m) => (
            match m.user_prompt_length {
                Some(n) => n,
                None => 0,
            },
            match m.response_size {
                Some(n) => n,
                None => 0,
            },
        ),
        None => (0, 0),
    }
}

/// The cost query of an exchange: its model's prices on its token estimates, when there is a
/// model and any tokens.
pub open spec fn q_usage(meta: Option<QRequestMetadata>) -> Option<CostQueryView> {
    let (i, o) = q_tokens(meta);
    match meta {
        Some(m) => match m.model_id {
            Some(model) => if i > 0 || o > 0 {
                Some(CostQueryView { model: model@, input_tokens: i, output_tokens: o, cache_creation_tokens: 0, cache_read_tokens: 0 })
            } else {
                None
            },
            None => None,
        },
        None => None,
    }
}

/// The model of an exchange.
pub open spec fn q_model(meta: Option<QRequestMetadata>) -> Option<Seq<char>> {
    match meta {
        Some(m) => opt_view(m.model_id),
        None => None,
    }
}

/// The local identity of a turn: conversation, side and position.
pub open spec fn q_local(conv: Seq<char>, side: Seq<char>, idx: int) -> Seq<char> {
    conv + seq!['-'] + side + seq!['-'] + decimal(idx as nat)
}

/// The global identity of a turn: project, conversation, side, position and milliseconds.
pub open spec fn q_global(project: Seq<char>, conv: Seq<char>, side: Seq<char>, idx: int, date: Timestamp) -> Seq<char> {
    text_fingerprint(project + seq![':'] + conv + seq![':'] + side + seq![':'] + decimal(idx as nat) + seq![':'] + signed_decimal(
        date.secs * 1000 + date.nanos / 1_000_000,
    ))
}

/// Builds the local identity of a turn.
pub fn local_id(conv: &String, side: &str, idx: usize) -> (r: String)
    ensures
        r@ == q_local(conv@, side@, idx as int),
{
    let mut v = chars_of(conv.as_str());
    v.push('-');
    let sc = chars_of(side);
    append_chars(&mut v, sc.as_slice());
    v.push('-');
    let d = decimal_chars(idx as u64);
    append_chars(&mut v, d.as_slice());
    proof {
        assert(v@ =~= q_local(conv@, side@, idx as int));
    }
    string_of(v.as_slice())
}

/// Builds the global identity of a turn.
pub fn global_id(project: &String, conv: &String, side: &str, idx: usize, date: Timestamp) -> (r: String)
    requires
        date.wf(),
    ensures
        r@ == q_global(project@, conv@, side@, idx as int, date),
{
    let mut v = chars_of(project.as_str());
    v.push(':');
    let cc = chars_of(conv.as_str());
    append_chars(&mut v, cc.as_slice());
    v.push(':');
    let sc = chars_of(side);
    append_chars(&mut v, sc.as_slice());
    v.push(':');
    let d = decimal_chars(idx as u64);
    append_chars(&mut v, d.as_slice());
    v.push(':');
    let ms = signed_decimal_chars(date.millis());
    append_chars(&mut v, ms.as_slice());
    proof {
        assert(v@ =~= project@ + seq![':'] + conv@ + seq![':'] + side@ + seq![':'] + decimal(idx as nat) + seq![':'] + signed_decimal(
            date.secs * 1000 + date.nanos / 1_000_000,
        ));
    }
    hash_chars(v.as_slice())
}

/// The cost query and token estimates of an exchange (see [`q_usage`] and [`q_tokens`]).
pub fn exchange_usage(meta: &Option<QRequestMetadata>) -> (r: (u64, u64, Option<CostQuery>))
    ensures
        (r.0, r.1) == q_tokens(*meta),
        match r.2 {
            Some(q) => q_usage(*meta) == Some(q@),
            None => q_usage(*meta) is None,
        },
{
    match meta {
        None => (0, 0, None),
        Some(m) => {
            let i = match m.user_prompt_length {
                Some(n) => n,
                None => 0,
            };
            let o = match m.response_size {
                Some(n) => n,
                None => 0,
            };
            let q = match &m.model_id {
                Some(model) => if i > 0 || o > 0 {
                    Some(CostQuery { model: model.clone(), input_tokens: i, output_tokens: o, cache_creation_tokens: 0, cache_read_tokens: 0 })
                } else {
                    None
                },
                None => None,
            };
            (i, o, q)
        },
    }
}

/// Texts joined by blank lines.
pub open spec fn join_paragraphs(ps: Seq<Seq<char>>) -> Seq<char>
    decreases ps.len(),
{
    if ps.len() == 0 {
        Seq::empty()
    } else if ps.len() == 1 {
        ps[0]
    } else {
        join_paragraphs(ps.drop_last()) + "\n\n"@ + ps.last()
    }
}

/// The text of a user turn: its prompt (trimmed, when not empty) and its additional context
/// (when not blank, as `Context:` and the context), as paragraphs; nothing when neither.
pub open spec fn q_user_text(m: QUserMessage) -> Option<Seq<char>> {
    let prompt_part: Seq<Seq<char>> = match m.content {
        QUserContent::Prompt { prompt } => if trim(prompt@).len() > 0 { seq![trim(prompt@)] } else { Seq::empty() },
        _ => Seq::empty(),
    };
    let ctx_part: Seq<Seq<char>> = match m.additional_context {
        Some(c) => if trim(c@).len() > 0 { seq!["Context:\n"@ + c@] } else { Seq::empty() },
        None => Seq::empty(),
    };
    let parts = prompt_part + ctx_part;
    if parts.len() == 0 { None } else { Some(join_paragraphs(parts)) }
}

fn trimmed(s: &String) -> (r: Vec<char>)
    ensures
        r@ == trim(s@),
{
    let cs = chars_of(s.as_str());
    trim_chars(cs.as_slice())
}

/// The text of a user turn (see [`q_user_text`]).
pub fn format_q_user_message(m: &QUserMessage) -> (r: Option<String>)
    ensures
        opt_view(r) == q_user_text(*m),
{
    let mut out: Vec<char> = Vec::new();
    let mut any = false;
    match &m.content {
        QUserContent::Prompt { prompt } => {
            let t = trimmed(prompt);
            if t.len() > 0 {
                append_chars(&mut out, t.as_slice());
                any = true;
            }
        },
        _ => {},
    }
    match &m.additional_context {
        Some(c) => {
            let t = trimmed(c);
            if t.len() > 0 {
                if any {
                    let sep = chars_of("\n\n");
                    append_chars(&mut out, sep.as_slice());
                }
                let label = chars_of("Context:\n");
                append_chars(&mut out, label.as_slice());
                let cc = chars_of(c.as_str());
                append_chars(&mut out, cc.as_slice());
                any = true;
            }
        },
        None => {},
    }
    proof {
        let prompt_part: Seq<Seq<char>> = match &m.content {
            QUserContent::Prompt { prompt } => if trim(prompt@).len() > 0 { seq![trim(prompt@)] } else { Seq::empty() },
            _ => Seq::empty(),
        };
        let ctx_part: Seq<Seq<char>> = match &m.additional_context {
            Some(c) => if trim(c@).len() > 0 { seq!["Context:\n"@ + c@] } else { Seq::empty() },
            None => Seq::empty(),
        };
        let parts = prompt_part + ctx_part;
        if parts.len() == 2 {
            assert(parts.drop_last() =~= prompt_part);
            assert(join_paragraphs(parts.drop_last()) == parts[0]);
            assert(parts.last() == parts[1]);
            assert(out@ =~= parts[0] + "\n\n"@ + parts[1]);
            assert(out@ =~= join_paragraphs(parts));
        } else if parts.len() == 1 {
            assert(out@ =~= parts[0]);
        }
    }
    if any {
        Some(string_of(out.as_slice()))
    } else {
        None
    }
}

/// One line of the tool summary: `- name`, its original name when it differs, and its
/// arguments unless they are null.
pub open spec fn tool_line(t: QToolUse) -> Seq<char> {
    "- "@ + t.name@ + match t.orig_name {
        Some(o) => if o@ != t.name@ { " (source: "@ + o@ + seq![')'] } else { Seq::empty() },
        None => Seq::empty(),
    } + if !t.args_is_null { " args: "@ + t.args@ } else { Seq::empty() }
}

/// The lines of the first `n` tools, each after a newline.
pub open spec fn tool_lines(ts: Seq<QToolUse>, n: int) -> Seq<char>
    decreases n,
{
    if n <= 0 { Seq::empty() } else { tool_lines(ts, n - 1) + seq!['\n'] + tool_line(ts[n - 1]) }
}

/// The summary of the tools an assistant turn used.
pub open spec fn tool_summary(ts: Seq<QToolUse>) -> Seq<char> {
    "Tool calls:"@ + tool_lines(ts, ts.len() as int)
}

/// Writes the summary of the tools an assistant turn used (see [`tool_summary`]).
pub fn format_tool_use_summary(tools: &[QToolUse]) -> (r: String)
    ensures
        r@ == tool_summary(tools@),
{
    let mut out = chars_of("Tool calls:");
    let mut k: usize = 0;
    while k < tools.len()
        invariant
            k <= tools.len(),
            out@ == "Tool calls:"@ + tool_lines(tools@, k as int),
        decreases tools.len() - k,
    {
        let t = &tools[k];
        let ghost before = out@;
        out.push('\n');
        let p = chars_of("- ");
        append_chars(&mut out, p.as_slice());
        let nc = chars_of(t.name.as_str());
        append_chars(&mut out, nc.as_slice());
        match &t.orig_name {
            Some(o) => {
                if !str_eq(o.as_str(), t.name.as_str()) {
                    let a = chars_of(" (source: ");
                    append_chars(&mut out, a.as_slice());
                    let oc = chars_of(o.as_str());
                    append_chars(&mut out, oc.as_slice());
                    out.push(')');
                }
            },
            None => {},
        }
        if !t.args_is_null {
            let a = chars_of(" args: ");
            append_chars(&mut out, a.as_slice());
            let ac = chars_of(t.args.as_str());
            append_chars(&mut out, ac.as_slice());
        }
        proof {
            assert(out@ =~= before + seq!['\n'] + tool_line(tools@[k as int]));
        }
        k = k + 1;
    }
    string_of(out.as_slice())
}

/// The text of an assistant turn: a response trimmed (nothing if empty); for tool use, the
/// trimmed content (when not empty) and the tool summary (when tools were used), as paragraphs.
pub open spec fn q_assistant_text(m: QAssistantMessage) -> Option<Seq<char>> {
    match m {
        QAssistantMessage::Response { content, .. } => if trim(content@).len() > 0 { Some(trim(content@)) } else { None },
        QAssistantMessage::ToolUse { content, tool_uses, .. } => {
            let a: Seq<Seq<char>> = if trim(content@).len() > 0 { seq![trim(content@)] } else { Seq::empty() };
            let b: Seq<Seq<char>> = if tool_uses.len() > 0 { seq![tool_summary(tool_uses@)] } else { Seq::empty() };
            let parts = a + b;
            if parts.len() == 0 { None } else { Some(join_paragraphs(parts)) }
        },
    }
}

/// The text of an assistant turn (see [`q_assistant_text`]).
pub fn format_q_assistant_message(m: &QAssistantMessage) -> (r: Option<String>)
    ensures
        opt_view(r) == q_assistant_text(*m),
{
    match m {
        QAssistantMessage::Response { content, .. } => {
            let t = trimmed(content);
            if t.len() > 0 { Some(string_of(t.as_slice())) } else { None }
        },
        QAssistantMessage::ToolUse { content, tool_uses, .. } => {
            let t = trimmed(content);
            let mut out: Vec<char> = Vec::new();
            let mut any = false;
            if t.len() > 0 {
                append_chars(&mut out, t.as_slice());
                any = true;
            }
            if tool_uses.len() > 0 {
                if any {
                    let sep = chars_of("\n\n");
                    append_chars(&mut out, sep.as_slice());
                }
                let s = format_tool_use_summary(tool_uses.as_slice());
                let sc = chars_of(s.as_str());
                append_chars(&mut out, sc.as_slice());
                any = true;
            }
            proof {
                let a: Seq<Seq<char>> = if trim(content@).len() > 0 { seq![trim(content@)] } else { Seq::empty() };
                let b: Seq<Seq<char>> = if tool_uses.len() > 0 { seq![tool_summary(tool_uses@)] } else { Seq::empty() };
                let parts = a + b;
                if parts.len() == 2 {
                    assert(parts.drop_last() =~= a);
                    assert(join_paragraphs(parts.drop_last()) == parts[0]);
                    assert(parts.last() == parts[1]);
                    assert(out@ =~= parts[0] + "\n\n"@ + parts[1]);
                    assert(out@ =~= join_paragraphs(parts));
                } else if parts.len() == 1 {
                    assert(out@ =~= parts[0]);
                }
            }
            if any { Some(string_of(out.as_slice())) } else { None }
        },
    }
}

/// The kind of work a tool name stands for: 1 file read, 2 file added, 3 file edited, 4 file
/// deleted, 5 command, 6 file search, 7 content search, 0 anything else.
pub open spec fn tool_kind(name: Seq<char>) -> int {
    if name == "read_file"@ || name == "read_many_files"@ {
        1
    } else if name == "write_file"@ || name == "create_file"@ {
        2
    } else if name == "edit_file"@ || name == "replace_string"@ {
        3
    } else if name == "delete_file"@ {
        4
    } else if name == "execute_bash"@ || name == "run_shell_command"@ {
        5
    } else if name == "file_search"@ || name == "glob"@ {
        6
    } else if name == "grep"@ || name == "search_in_file"@ {
        7
    } else {
        0
    }
}

fn kind_of_tool(name: &str) -> (k: u8)
    ensures
        k == tool_kind(name@),
{
    if str_eq(name, "read_file") || str_eq(name, "read_many_files") {
        1
    } else if str_eq(name, "write_file") || str_eq(name, "create_file") {
        2
    } else if str_eq(name, "edit_file") || str_eq(name, "replace_string") {
        3
    } else if str_eq(name, "delete_file") {
        4
    } else if str_eq(name, "execute_bash") || str_eq(name, "run_shell_command") {
        5
    } else if str_eq(name, "file_search") || str_eq(name, "glob") {
        6
    } else if str_eq(name, "grep") || str_eq(name, "search_in_file") {
        7
    } else {
        0
    }
}

/// How many of the first `n` tools are of kind `kind`.
pub open spec fn count_kind(ts: Seq<QToolUse>, kind: int, n: int) -> nat
    decreases n,
{
    if n <= 0 {
        0
    } else {
        count_kind(ts, kind, n - 1) + if tool_kind(ts[n - 1].name@) == kind { 1nat } else { 0nat }
    }
}

pub proof fn lemma_count_kind_bound(ts: Seq<QToolUse>, kind: int, n: int)
    requires
        0 <= n,
    ensures
        count_kind(ts, kind, n) <= n,
    decreases n,
{
    if n > 0 {
        lemma_count_kind_bound(ts, kind, n - 1);
    }
}

/// The counters of an assistant turn with token estimates `i` in and `o` out: for tool use, the
/// number of tools and of each kind of file operation, command and search among them.
pub open spec fn q_assistant_stats(m: QAssistantMessage, i: u64, o: u64) -> Stats {
    match m {
        QAssistantMessage::Response { .. } => Stats { input_tokens: i, output_tokens: o, ..zero_stats() },
        QAssistantMessage::ToolUse { tool_uses, .. } => {
            let ts = tool_uses@;
            let n = ts.len() as int;
            Stats {
                input_tokens: i,
                output_tokens: o,
                tool_calls: ts.len() as u32,
                files_read: count_kind(ts, 1, n) as u64,
                files_added: count_kind(ts, 2, n) as u64,
                files_edited: count_kind(ts, 3, n) as u64,
                files_deleted: count_kind(ts, 4, n) as u64,
                terminal_commands: count_kind(ts, 5, n) as u64,
                file_searches: count_kind(ts, 6, n) as u64,
                file_content_searches: count_kind(ts, 7, n) as u64,
                ..zero_stats()
            }
        },
    }
}

/// The counters of an assistant turn (see [`q_assistant_stats`]).
fn assistant_stats(m: &QAssistantMessage, i: u64, o: u64) -> (r: Stats)
    ensures
        r == q_assistant_stats(*m, i, o),
{
    let mut s = Stats::zero();
    s.input_tokens = i;
    s.output_tokens = o;
    match m {
        QAssistantMessage::Response { .. } => {},
        QAssistantMessage::ToolUse { tool_uses, .. } => {
            let ghost ts = tool_uses@;
            s.tool_calls = tool_uses.len() as u32;
            let mut k: usize = 0;
            while k < tool_uses.len()
                invariant
                    k <= tool_uses.len(),
                    ts == tool_uses@,
                    s == (Stats {
                        input_tokens: i,
                        output_tokens: o,
                        tool_calls: ts.len() as u32,
                        files_read: count_kind(ts, 1, k as int) as u64,
                        files_added: count_kind(ts, 2, k as int) as u64,
                        files_edited: count_kind(ts, 3, k as int) as u64,
                        files_deleted: count_kind(ts, 4, k as int) as u64,
                        terminal_commands: count_kind(ts, 5, k as int) as u64,
                        file_searches: count_kind(ts, 6, k as int) as u64,
                        file_content_searches: count_kind(ts, 7, k as int) as u64,
                        ..zero_stats()
                    }),
                decreases tool_uses.len() - k,
            {
                proof {
                    lemma_count_kind_bound(ts, 1, k as int);
                    lemma_count_kind_bound(ts, 2, k as int);
                    lemma_count_kind_bound(ts, 3, k as int);
                    lemma_count_kind_bound(ts, 4, k as int);
                    lemma_count_kind_bound(ts, 5, k as int);
                    lemma_count_kind_bound(ts, 6, k as int);
                    lemma_count_kind_bound(ts, 7, k as int);
                }
                let kind = kind_of_tool(tool_uses[k].name.as_str());
                if kind == 1 {
                    s.files_read = s.files_read + 1;
                } else if kind == 2 {
                    s.files_added = s.files_added + 1;
                } else if kind == 3 {
                    s.files_edited = s.files_edited + 1;
                } else if kind == 4 {
                    s.files_deleted = s.files_deleted + 1;
                } else if kind == 5 {
                    s.terminal_commands = s.terminal_commands + 1;
                } else if kind == 6 {
                    s.file_searches = s.file_searches + 1;
                } else if kind == 7 {
                    s.file_content_searches = s.file_content_searches + 1;
                }
                k = k + 1;
            }
        },
    }
    s
}

/// The two messages of exchange `idx`: the user's turn and the assistant's.
pub open spec fn q_entry_messages(
    e: QHistoryEntry,
    idx: int,
    project: Seq<char>,
    conv: Seq<char>,
    now: Timestamp,
) -> Seq<PricedMessageView> {
    let date = q_date(e.user.timestamp, e.request_metadata, now);
    let (i, o) = q_tokens(e.request_metadata);
    seq![
        PricedMessageView {
            message: MessageView {
                application: Application::AmazonQ,
                date,
                project_hash: project,
                conversation_hash: conv,
                local_hash: Some(q_local(conv, "user"@, idx)),
                global_hash: q_global(project, conv, "user"@, idx, date),
                model: None,
                stats: zero_stats(),
                role: MessageRole::User,
                content: q_user_text(e.user),
            },
            usage: None,
        },
        PricedMessageView {
            message: MessageView {
                application: Application::AmazonQ,
                date,
                project_hash: project,
                conversation_hash: conv,
                local_hash: Some(q_local(conv, "assistant"@, idx)),
                global_hash: q_global(project, conv, "assistant"@, idx, date),
                model: q_model(e.request_metadata),
                stats: q_assistant_stats(e.assistant, i, o),
                role: MessageRole::Assistant,
                content: q_assistant_text(e.assistant),
            },
            usage: q_usage(e.request_metadata),
        },
    ]
}

/// The messages of the first `n` exchanges.
pub open spec fn q_messages(h: Seq<QHistoryEntry>, project: Seq<char>, conv: Seq<char>, now: Timestamp, n: int) -> Seq<PricedMessageView>
    decreases n,
{
    if n <= 0 { Seq::empty() } else { q_messages(h, project, conv, now, n - 1) + q_entry_messages(h[n - 1], n - 1, project, conv, now) }
}

/// The views of priced messages.
pub open spec fn priced_views(v: Seq<PricedMessage>) -> Seq<PricedMessageView> {
    v.map_values(|p: PricedMessage| p@)
}

/// The messages of a conversation stored under `project_path` (see [`q_messages`]), two per
/// exchange; `now` stands in for exchanges with no usable time.
pub fn parse_amazon_q_conversation(project_path: &str, conversation: &QConversation, now: Timestamp) -> (r: Vec<PricedMessage>)
    requires
        now.wf(),
    ensures
        priced_views(r@) == q_messages(
            conversation.history@,
            q_project(project_path@),
            text_fingerprint(conversation.conversation_id@),
            now,
            conversation.history.len() as int,
        ),
{
    let project = project_of_path(project_path);
    let conv = hash_text(conversation.conversation_id.as_str());
    let mut out: Vec<PricedMessage> = Vec::new();
    let mut idx: usize = 0;
    while idx < conversation.history.len()
        invariant
            idx <= conversation.history.len(),
            now.wf(),
            project@ == q_project(project_path@),
            conv@ == text_fingerprint(conversation.conversation_id@),
            priced_views(out@) == q_messages(conversation.history@, project@, conv@, now, idx as int),
        decreases conversation.history.len() - idx,
    {
        let e = &conversation.history[idx];
        let date = exchange_date(&e.user.timestamp, &e.request_metadata, now);
        let model = match &e.request_metadata {
            Some(m) => crate::types::copy_opt_string(&m.model_id),
            None => None,
        };
        let (i, o, usage) = exchange_usage(&e.request_metadata);
        let user = PricedMessage {
            message: ConversationMessage {
                application: Application::AmazonQ,
                date,
                project_hash: project.clone(),
                conversation_hash: conv.clone(),
                local_hash: Some(local_id(&conv, "user", idx)),
                global_hash: global_id(&project, &conv, "user", idx, date),
                model: None,
                stats: Stats::zero(),
                role: MessageRole::User,
                content: format_q_user_message(&e.user),
            },
            usage: None,
        };
        let assistant = PricedMessage {
            message: ConversationMessage {
                application: Application::AmazonQ,
                date,
                project_hash: project.clone(),
                conversation_hash: conv.clone(),
                local_hash: Some(local_id(&conv, "assistant", idx)),
                global_hash: global_id(&project, &conv, "assistant", idx, date),
                model,
                stats: assistant_stats(&e.assistant, i, o),
                role: MessageRole::Assistant,
                content: format_q_assistant_message(&e.assistant),
            },
            usage,
        };
        let ghost before = out@;
        out.push(user);
        out.push(assistant);
        proof {
            assert(priced_views(out@) =~= priced_views(before) + seq![user@, assistant@]);
            assert(seq![user@, assistant@] =~= q_entry_messages(*e, idx as int, project@, conv@, now));
        }
        idx = idx + 1;
    }
    out
}

} // verus!

