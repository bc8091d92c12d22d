//! Codex CLI session logs and prompt history.
use vstd::prelude::*;
use crate::hashing::{hash_chars, text_fingerprint};
use crate::analyzer::Analyzer;
use crate::json::{get_member, member_value, JsonValue};
use crate::text::{append_chars, chars_of, decimal, decimal_chars, string_of, trim, trim_chars};
use crate::time::{chrono_secs_in_range, Timestamp};
use crate::types::{
    Application, ConversationMessage, CostQuery, CostQueryView, MessageRole, MessageView,
    PricedMessage, PricedMessageView, Stats, zero_stats,
};

verus! {

/// The analyzer for OpenAI's Codex CLI.
pub struct CodexCliAnalyzer;

impl CodexCliAnalyzer {
    pub fn new() -> (a: Self) {
        CodexCliAnalyzer
    }
}

impl Analyzer for CodexCliAnalyzer {
    open spec fn name_spec(&self) -> Seq<char> {
        "Codex CLI"@
    }

    fn display_name(&self) -> (s: &'static str) {
        "Codex CLI"
    }
}

/// The model assumed for cost estimation when a session never names one.
pub open spec fn fallback_model() -> Seq<char> {
    seq!['g', 'p', 't', '-', '5']
}

fn fallback_model_string() -> (s: String)
    ensures
        s@ == fallback_model(),
{
    let mut v: Vec<char> = Vec::new();
    v.push('g');
    v.push('p');
    v.push('t');
    v.push('-');
    v.push('5');
    proof {
        assert(v@ =~= fallback_model());
    }
    string_of(&v)
}

/// A model name read from a string member: the string trimmed, if anything is left.
pub open spec fn model_from_member(v: Option<JsonValue>) -> Option<Seq<char>> {
    match v {
        Some(JsonValue::Str(s)) => if trim(s@).len() > 0 { Some(trim(s@)) } else { None },
        _ => None,
    }
}

/// The model a JSON value names, searched to a nesting depth of four: first the members
/// `model`, `model_name` and `modelName` of an object, then inside its `metadata` and `info`
/// members; for an array, the first element that names one.
pub open spec fn model_in(v: JsonValue, depth: int) -> Option<Seq<char>>
    decreases 5 - depth, 0int,
{
    if depth > 4 {
        None
    } else {
        match v {
            JsonValue::Object(members) => {
                let ms = members@;
                if model_from_member(member_value(ms, "model"@)) is Some {
                    model_from_member(member_value(ms, "model"@))
                } else if model_from_member(member_value(ms, "model_name"@)) is Some {
                    model_from_member(member_value(ms, "model_name"@))
                } else if model_from_member(member_value(ms, "modelName"@)) is Some {
                    model_from_member(member_value(ms, "modelName"@))
                } else if member_value(ms, "metadata"@) is Some && model_in(
                    member_value(ms, "metadata"@)->0,
                    depth + 1,
                ) is Some {
                    model_in(member_value(ms, "metadata"@)->0, depth + 1)
                } else if member_value(ms, "info"@) is Some && model_in(
                    member_value(ms, "info"@)->0,
                    depth + 1,
                ) is Some {
                    model_in(member_value(ms, "info"@)->0, depth + 1)
                } else {
                    None
                }
            },
            JsonValue::Array(items) => model_in_items(items@, depth + 1, 0),
            _ => None,
        }
    }
}

/// The model named by the first of `items[i..]` that names one, each searched at `depth`.
pub open spec fn model_in_items(items: Seq<JsonValue>, depth: int, i: int) -> Option<Seq<char>>
    decreases 5 - depth, items.len() - i + 1,
{
    if i < 0 || i >= items.len() || depth > 5 {
        None
    } else if model_in(items[i], depth) is Some {
        model_in(items[i], depth)
    } else {
        model_in_items(items, depth, i + 1)
    }
}

/// A trimmed, non-empty model name from an optional string member.
fn model_of_member(v: Option<&JsonValue>) -> (r: Option<String>)
    ensures
        match v {
            Some(x) => opt_chars(r) == model_from_member(Some(*x)),
            None => r is None,
        },
{
    match v {
        Some(JsonValue::Str(s)) => {
            let cs = chars_of(s.as_str());
            let t = trim_chars(&cs);
            if t.len() > 0 {
                Some(string_of(&t))
            } else {
                None
            }
        },
        _ => None,
    }
}

/// The characters of an optional string.
pub open spec fn opt_chars(s: Option<String>) -> Option<Seq<char>> {
    match s {
        Some(t) => Some(t@),
        None => None,
    }
}

/// The model `value` names, searched as [`model_in`] describes.
pub fn extract_model_from_value(value: &JsonValue) -> (r: Option<String>)
    ensures
        opt_chars(r) == model_in(*value, 0),
{
    extract_model_from_value_rec(value, 0)
}

fn extract_model_from_value_rec(value: &JsonValue, depth: usize) -> (r: Option<String>)
    requires
        depth <= 5,
    ensures
        opt_chars(r) == model_in(*value, depth as int),
    decreases 5 - depth, 0int,
{
    if depth > 4 {
        return None;
    }
    match value {
        JsonValue::Object(members) => {
            let a = model_of_member(get_member(members, "model"));
            if a.is_some() {
                return a;
            }
            let b = model_of_member(get_member(members, "model_name"));
            if b.is_some() {
                return b;
            }
            let c = model_of_member(get_member(members, "modelName"));
            if c.is_some() {
                return c;
            }
            match get_member(members, "metadata") {
                Some(nested) => {
                    let m = extract_model_from_value_rec(nested, depth + 1);
                    if m.is_some() {
                        return m;
                    }
                },
                None => {},
            }
            match get_member(members, "info") {
                Some(nested) => {
                    let m = extract_model_from_value_rec(nested, depth + 1);
                    if m.is_some() {
                        return m;
                    }
                },
                None => {},
            }
            None
        },
        JsonValue::Array(items) => extract_model_from_items(items, depth + 1, 0),
        _ => None,
    }
}

fn extract_model_from_items(items: &Vec<JsonValue>, depth: usize, i: usize) -> (r: Option<String>)
    requires
        depth <= 5,
        i <= items.len(),
    ensures
        opt_chars(r) == model_in_items(items@, depth as int, i as int),
    decreases 5 - depth, items.len() - i + 1,
{
    if i >= items.len() {
        return None;
    }
    let m = extract_model_from_value_rec(&items[i], depth);
    if m.is_some() {
        m
    } else {
        extract_model_from_items(items, depth, i + 1)
    }
}

/// The model named inside the `info` member of a token-count event's payload.
pub open spec fn model_in_token_event(payload: JsonValue) -> Option<Seq<char>> {
    match payload {
        JsonValue::Object(members) => match member_value(members@, "info"@) {
            Some(info) => model_in(info, 0),
            None => None,
        },
        _ => None,
    }
}

fn extract_model_from_token_event(payload: &JsonValue) -> (r: Option<String>)
    ensures
        opt_chars(r) == model_in_token_event(*payload),
{
    match payload {
        JsonValue::Object(members) => match get_member(members, "info") {
            Some(info) => extract_model_from_value(info),
            None => None,
        },
        _ => None,
    }
}

/// Cumulative or per-turn token counts as Codex reports them. `input_tokens` includes the
/// cached input tokens and `output_tokens` the reasoning tokens.
#[derive(Clone, Copy, Debug, PartialEq, Eq, Structural)]
pub struct TokenUsage {
    pub input_tokens: u64,
    pub output_tokens: u64,
    pub cached_input_tokens: u64,
    pub reasoning_output_tokens: u64,
    pub total_tokens: u64,
}

/// `a - b`, or zero when `b` is larger.
pub open spec fn sat_sub(a: u64, b: u64) -> u64 {
    if a >= b { (a - b) as u64 } else { 0 }
}

/// The usage between two cumulative reports: each count minus the previous one (saturating),
/// or the current counts when there is no previous report.
pub open spec fn usage_delta(current: TokenUsage, previous: Option<TokenUsage>) -> TokenUsage {
    match previous {
        Some(p) => TokenUsage {
            input_tokens: sat_sub(current.input_tokens, p.input_tokens),
            output_tokens: sat_sub(current.output_tokens, p.output_tokens),
            cached_input_tokens: sat_sub(current.cached_input_tokens, p.cached_input_tokens),
            reasoning_output_tokens: sat_sub(current.reasoning_output_tokens, p.reasoning_output_tokens),
            total_tokens: sat_sub(current.total_tokens, p.total_tokens),
        },
        None => current,
    }
}

/// Subtracts the previous cumulative usage from the current one, field by field, saturating at
/// zero.
pub fn subtract_token_usage(current: &TokenUsage, previous: Option<&TokenUsage>) -> (r: TokenUsage)
    ensures
        r == usage_delta(
            *current,
            match previous {
                Some(p) => Some(*p),
                None => None,
            },
        ),
{
    let prev_input = match previous { Some(p) => p.input_tokens, None => 0 };
    let prev_cached = match previous { Some(p) => p.cached_input_tokens, None => 0 };
    let prev_output = match previous { Some(p) => p.output_tokens, None => 0 };
    let prev_reasoning = match previous { Some(p) => p.reasoning_output_tokens, None => 0 };
    let prev_total = match previous { Some(p) => p.total_tokens, None => 0 };
    TokenUsage {
        input_tokens: current.input_tokens.saturating_sub(prev_input),
        cached_input_tokens: current.cached_input_tokens.saturating_sub(prev_cached),
        output_tokens: current.output_tokens.saturating_sub(prev_output),
        reasoning_output_tokens: current.reasoning_output_tokens.saturating_sub(prev_reasoning),
        total_tokens: current.total_tokens.saturating_sub(prev_total),
    }
}

/// The counters a usage report yields: new (uncached) input, output as reported, reasoning and
/// cached tokens; everything else zero.
pub open spec fn usage_stats(u: TokenUsage) -> Stats {
    Stats {
        input_tokens: sat_sub(u.input_tokens, u.cached_input_tokens),
        output_tokens: u.output_tokens,
        reasoning_tokens: u.reasoning_output_tokens,
        cached_tokens: u.cached_input_tokens,
        ..zero_stats()
    }
}

/// What a usage report is priced as: new input, output, no cache writes, cached input as reads.
pub open spec fn usage_cost(u: TokenUsage, model: Seq<char>) -> CostQueryView {
    CostQueryView {
        model,
        input_tokens: sat_sub(u.input_tokens, u.cached_input_tokens),
        output_tokens: u.output_tokens,
        cache_creation_tokens: 0,
        cache_read_tokens: u.cached_input_tokens,
    }
}

/// The counters of a usage report (see [`usage_stats`]).
pub fn stats_from_usage(usage: &TokenUsage) -> (s: Stats)
    ensures
        s == usage_stats(*usage),
{
    let mut s = Stats::zero();
    s.input_tokens = usage.input_tokens.saturating_sub(usage.cached_input_tokens);
    s.output_tokens = usage.output_tokens;
    s.reasoning_tokens = usage.reasoning_output_tokens;
    s.cached_tokens = usage.cached_input_tokens;
    s
}

/// The cost lookup for a usage report (see [`usage_cost`]).
pub fn cost_from_usage(usage: &TokenUsage, model: &String) -> (q: CostQuery)
    ensures
        q@ == usage_cost(*usage, model@),
{
    CostQuery {
        model: model.clone(),
        input_tokens: usage.input_tokens.saturating_sub(usage.cached_input_tokens),
        output_tokens: usage.output_tokens,
        cache_creation_tokens: 0,
        cache_read_tokens: usage.cached_input_tokens,
    }
}

/// The `info` of a token-count event: cumulative and last-turn usage.
#[derive(Clone, Copy, Debug)]
pub struct TokenCountInfo {
    pub total_token_usage: Option<TokenUsage>,
    pub last_token_usage: Option<TokenUsage>,
}

/// A `response_item` payload read as a message: its `type` and `role`.
#[derive(Clone, Debug)]
pub struct CodexMessageShape {
    pub message_type: String,
    pub role: Option<String>,
}

/// An `event_msg` payload read as an event: its `type` and `info`.
#[derive(Clone, Debug)]
pub struct CodexEventShape {
    pub event_type: String,
    pub info: Option<TokenCountInfo>,
}

/// One line of a session log, after JSON parsing: the wrapper's timestamp (as an instant and as
/// its RFC 3339 text), its `type`, its payload, and which of the expected payload shapes the
/// payload has.
#[derive(Debug)]
pub struct CodexEntry {
    pub timestamp: Timestamp,
    pub timestamp_rfc3339: String,
    pub entry_type: String,
    pub payload: JsonValue,
    pub parses_as_session_meta: bool,
    pub parses_as_turn_context: bool,
    pub as_message: Option<CodexMessageShape>,
    pub as_event: Option<CodexEventShape>,
}

/// What reading a session log remembers between lines.
pub ghost struct CodexState {
    /// The model the session is on, once named (or once the fallback was assumed).
    pub model: Option<Seq<char>>,
    /// The last cumulative usage reported.
    pub prev_total: Option<TokenUsage>,
    /// Whether a usage report has been seen; afterwards plain assistant messages are not recorded.
    pub saw_usage: bool,
    /// The distinct tool calls since the last usage report.
    pub calls: Seq<Seq<char>>,
    /// Whether the fallback model had to be assumed.
    pub fell_back: bool,
}

pub open spec fn initial_codex_state() -> CodexState {
    CodexState { model: None, prev_total: None, saw_usage: false, calls: Seq::empty(), fell_back: false }
}

/// The call id a `function_call` item is recorded under: its `call_id`, or its timestamp and the
/// number of calls recorded so far.
pub open spec fn call_key(payload: JsonValue, ts: Seq<char>, count: int) -> Seq<char> {
    match payload {
        JsonValue::Object(members) => match member_value(members@, "call_id"@) {
            Some(JsonValue::Str(c)) => c@,
            _ => ts + seq!['_'] + decimal(count as nat),
        },
        _ => ts + seq!['_'] + decimal(count as nat),
    }
}

/// Whether a payload is a `function_call` item.
pub open spec fn is_function_call(payload: JsonValue) -> bool {
    match payload {
        JsonValue::Object(members) => match member_value(members@, "type"@) {
            Some(JsonValue::Str(t)) => t@ == "function_call"@,
            _ => false,
        },
        _ => false,
    }
}

/// Adds `c` to a list of distinct keys.
pub open spec fn insert_distinct(keys: Seq<Seq<char>>, c: Seq<char>) -> Seq<Seq<char>> {
    if keys.contains(c) { keys } else { keys.push(c) }
}

/// A message of this log: the conversation is the file, the global hash the file, the
/// timestamp text and `suffix`.
pub open spec fn codex_message(path: Seq<char>, e: CodexEntry, suffix: Seq<char>, role: MessageRole, model: Option<Seq<char>>, stats: Stats) -> MessageView {
    MessageView {
        application: Application::CodexCli,
        date: e.timestamp,
        project_hash: Seq::empty(),
        conversation_hash: text_fingerprint(path),
        local_hash: None,
        global_hash: text_fingerprint(path + seq!['_'] + e.timestamp_rfc3339@ + suffix),
        model,
        stats,
        role,
        content: None,
    }
}

/// The state with a model settled on: the session's, or the fallback (remembered) when none.
pub open spec fn settle_model(st: CodexState) -> CodexState {
    if st.model is Some { st } else { CodexState { model: Some(fallback_model()), fell_back: true, ..st } }
}

/// What one log line does to the state, and the message it yields if any.
pub open spec fn codex_step(st: CodexState, e: CodexEntry, path: Seq<char>) -> (CodexState, Option<PricedMessageView>) {
    let t = e.entry_type@;
    if t == "session_meta"@ {
        if e.parses_as_session_meta {
            (CodexState { model: model_in(e.payload, 0), ..st }, None)
        } else {
            (st, None)
        }
    } else if t == "turn_context"@ {
        if e.parses_as_turn_context && model_in(e.payload, 0) is Some {
            (CodexState { model: model_in(e.payload, 0), ..st }, None)
        } else {
            (st, None)
        }
    } else if t == "response_item"@ {
        if is_function_call(e.payload) {
            (
                CodexState {
                    calls: insert_distinct(st.calls, call_key(e.payload, e.timestamp_rfc3339@, st.calls.len() as int)),
                    ..st
                },
                None,
            )
        } else {
            match e.as_message {
                Some(m) => if m.message_type@ == "message"@ && m.role is Some {
                    let role = m.role->0@;
                    if role == "user"@ {
                        (st, Some(PricedMessageView {
                            message: codex_message(path, e, Seq::empty(), MessageRole::User, None, zero_stats()),
                            usage: None,
                        }))
                    } else if role == "assistant"@ && !st.saw_usage {
                        let s2 = settle_model(st);
                        (s2, Some(PricedMessageView {
                            message: codex_message(path, e, "_assistant"@, MessageRole::Assistant, s2.model, zero_stats()),
                            usage: None,
                        }))
                    } else {
                        (st, None)
                    }
                } else {
                    (st, None)
                },
                None => (st, None),
            }
        }
    } else if t == "event_msg"@ {
        match e.as_event {
            Some(ev) => if ev.event_type@ == "token_count"@ {
                let st1 = if model_in_token_event(e.payload) is Some {
                    CodexState { model: model_in_token_event(e.payload), ..st }
                } else {
                    st
                };
                match ev.info {
                    Some(info) => {
                        let usage = match info.last_token_usage {
                            Some(l) => Some(l),
                            None => match info.total_token_usage {
                                Some(t) => Some(usage_delta(t, st1.prev_total)),
                                None => None,
                            },
                        };
                        let st2 = match info.total_token_usage {
                            Some(t) => CodexState { prev_total: Some(t), ..st1 },
                            None => st1,
                        };
                        match usage {
                            Some(u) => {
                                let st3 = settle_model(st2);
                                let stats = Stats { tool_calls: st3.calls.len() as u32, ..usage_stats(u) };
                                (
                                    CodexState { calls: Seq::empty(), saw_usage: true, ..st3 },
                                    Some(PricedMessageView {
                                        message: codex_message(path, e, "_token"@, MessageRole::Assistant, st3.model, stats),
                                        usage: Some(usage_cost(u, st3.model->0)),
                                    }),
                                )
                            },
                            None => (st2, None),
                        }
                    },
                    None => (st1, None),
                }
            } else {
                (st, None)
            },
            None => (st, None),
        }
    } else {
        (st, None)
    }
}

/// The state after the first `n` lines of a log and the messages they yield, in order.
pub open spec fn codex_run(entries: Seq<CodexEntry>, path: Seq<char>, n: int) -> (CodexState, Seq<PricedMessageView>)
    decreases n,
{
    if n <= 0 {
        (initial_codex_state(), Seq::empty())
    } else {
        let (st, out) = codex_run(entries, path, n - 1);
        let (st2, o) = codex_step(st, entries[n - 1], path);
        (st2, if o is Some { out.push(o->0) } else { out })
    }
}

/// The exec-side state of [`parse_codex_cli_jsonl_file`].
struct CodexReader {
    model: Option<String>,
    prev_total: Option<TokenUsage>,
    saw_usage: bool,
    calls: Vec<String>,
    fell_back: bool,
}

impl CodexReader {
    spec fn view(&self) -> CodexState {
        CodexState {
            model: opt_chars(self.model),
            prev_total: self.prev_total,
            saw_usage: self.saw_usage,
            calls: self.calls@.map_values(|s: String| s@),
            fell_back: self.fell_back,
        }
    }

    /// Settles on a model (see [`settle_model`]) and returns it.
    fn settle(&mut self) -> (m: String)
        ensures
            final(self).view() == settle_model(old(self).view()),
            final(self).model == Some(m),
            final(self).calls@ == old(self).calls@,
    {
        match &self.model {
            Some(m) => m.clone(),
            None => {
                let f = fallback_model_string();
                self.model = Some(f.clone());
                self.fell_back = true;
                proof {
                    assert(self.view() =~= settle_model(old(self).view()));
                }
                f
            },
        }
    }
}

/// The characters `path`, `_`, `ts` and `suffix`, fingerprinted.
fn global_hash(path: &Vec<char>, ts: &String, suffix: &str) -> (h: String)
    ensures
        h@ == text_fingerprint(path@ + seq!['_'] + ts@ + suffix@),
{
    let mut cs = path.clone();
    proof {
        assert(cs@ == path@);
    }
    cs.push('_');
    proof {
        assert(cs@ =~= path@ + seq!['_']);
    }
    let t = chars_of(ts.as_str());
    append_chars(&mut cs, &t);
    let s = chars_of(suffix);
    append_chars(&mut cs, &s);
    hash_chars(&cs)
}

fn make_message(
    path: &Vec<char>,
    conv: &String,
    e: &CodexEntry,
    suffix: &str,
    role: MessageRole,
    model: Option<String>,
    stats: Stats,
) -> (m: ConversationMessage)
    requires
        conv@ == text_fingerprint(path@),
    ensures
        m@ == codex_message(path@, *e, suffix@, role, opt_chars(model), stats),
{
    ConversationMessage {
        application: Application::CodexCli,
        date: e.timestamp,
        project_hash: String::new(),
        conversation_hash: conv.clone(),
        local_hash: None,
        global_hash: global_hash(path, &e.timestamp_rfc3339, suffix),
        model,
        stats,
        role,
        content: None,
    }
}

/// Whether `payload` is a `function_call` item, and the key it is recorded under.
fn function_call_key(payload: &JsonValue, ts: &String, count: usize) -> (r: Option<String>)
    ensures
        r is Some <==> is_function_call(*payload),
        r is Some ==> r->0@ == call_key(*payload, ts@, count as int),
{
    match payload {
        JsonValue::Object(members) => {
            let is_call = match get_member(members, "type") {
                Some(JsonValue::Str(t)) => crate::json::str_eq(t.as_str(), "function_call"),
                _ => false,
            };
            if !is_call {
                return None;
            }
            match get_member(members, "call_id") {
                Some(JsonValue::Str(c)) => Some(c.clone()),
                _ => {
                    let mut cs = chars_of(ts.as_str());
                    cs.push('_');
                    let d = decimal_chars(count as u64);
                    append_chars(&mut cs, &d);
                    Some(string_of(&cs))
                },
            }
        },
        _ => None,
    }
}

fn step(st: &mut CodexReader, e: &CodexEntry, path: &Vec<char>, conv: &String, out: &mut Vec<PricedMessage>)
    requires
        conv@ == text_fingerprint(path@),
    ensures
        ({
            let (s2, o) = codex_step(old(st).view(), *e, path@);
            &&& final(st).view() == s2
            &&& final(out)@.map_values(|p: PricedMessage| p@) == if o is Some {
                old(out)@.map_values(|p: PricedMessage| p@).push(o->0)
            } else {
                old(out)@.map_values(|p: PricedMessage| p@)
            }
        }),
{
    let ghost before = out@.map_values(|p: PricedMessage| p@);
    let t = e.entry_type.as_str();
    if crate::json::str_eq(t, "session_meta") {
        if e.parses_as_session_meta {
            st.model = extract_model_from_value(&e.payload);
            proof { assert(st.view() =~= codex_step(old(st).view(), *e, path@).0); }
        }
    } else if crate::json::str_eq(t, "turn_context") {
        if e.parses_as_turn_context {
            let m = extract_model_from_value(&e.payload);
            if m.is_some() {
                st.model = m;
                proof { assert(st.view() =~= codex_step(old(st).view(), *e, path@).0); }
            }
        }
    } else if crate::json::str_eq(t, "response_item") {
        match function_call_key(&e.payload, &e.timestamp_rfc3339, st.calls.len()) {
            Some(key) => {
                let ghost calls_before = st.calls@.map_values(|s: String| s@);
                let mut found = false;
                let mut i: usize = 0;
                while i < st.calls.len()
                    invariant
                        i <= st.calls.len(),
                        !found ==> forall|j: int| 0 <= j < i ==> st.calls@[j]@ != key@,
                        found ==> calls_before.contains(key@),
                        calls_before == st.calls@.map_values(|s: String| s@),
                    decreases st.calls.len() - i,
                {
                    if st.calls[i] == key {
                        found = true;
                        proof { assert(calls_before[i as int] == key@); }
                    }
                    i = i + 1;
                }
                if !found {
                    st.calls.push(key);
                    proof {
                        assert(!calls_before.contains(key@)) by {
                            if calls_before.contains(key@) {
                                let j = choose|j: int| 0 <= j < calls_before.len() && calls_before[j] == key@;
                                assert(st.calls@[j]@ == key@);
                            }
                        }
                        assert(st.calls@.map_values(|s: String| s@) =~= calls_before.push(key@));
                    }
                }
                proof { assert(st.view() =~= codex_step(old(st).view(), *e, path@).0); }
            },
            None => {
                match &e.as_message {
                    Some(m) => {
                        if crate::json::str_eq(m.message_type.as_str(), "message") {
                            match &m.role {
                                Some(role) => {
                                    if crate::json::str_eq(role.as_str(), "user") {
                                        let msg = make_message(path, conv, e, "", MessageRole::User, None, Stats::zero());
                                        proof { reveal_strlit(""); assert(""@ =~= Seq::<char>::empty()); }
                                        out.push(PricedMessage { message: msg, usage: None });
                                    } else if crate::json::str_eq(role.as_str(), "assistant") && !st.saw_usage {
                                        let model = st.settle();
                                        let msg = make_message(path, conv, e, "_assistant", MessageRole::Assistant, Some(model), Stats::zero());
                                        out.push(PricedMessage { message: msg, usage: None });
                                    }
                                },
                                None => {},
                            }
                        }
                    },
                    None => {},
                }
                proof {
                    assert(out@.map_values(|p: PricedMessage| p@) =~= (if codex_step(old(st).view(), *e, path@).1 is Some {
                        before.push(codex_step(old(st).view(), *e, path@).1->0)
                    } else {
                        before
                    }));
                }
            },
        }
    } else if crate::json::str_eq(t, "event_msg") {
        match &e.as_event {
            Some(ev) => {
                if crate::json::str_eq(ev.event_type.as_str(), "token_count") {
                    let m = extract_model_from_token_event(&e.payload);
                    if m.is_some() {
                        st.model = m;
                    }
                    let ghost st1 = st.view();
                    match &ev.info {
                        Some(info) => {
                            let usage = match &info.last_token_usage {
                                Some(l) => Some(*l),
                                None => match &info.total_token_usage {
                                    Some(total) => Some(subtract_token_usage(total, st.prev_total.as_ref())),
                                    None => None,
                                },
                            };
                            match &info.total_token_usage {
                                Some(total) => { st.prev_total = Some(*total); },
                                None => {},
                            }
                            match usage {
                                Some(u) => {
                                    let model = st.settle();
                                    let mut stats = stats_from_usage(&u);
                                    stats.tool_calls = st.calls.len() as u32;
                                    let q = cost_from_usage(&u, &model);
                                    let msg = make_message(path, conv, e, "_token", MessageRole::Assistant, Some(model), stats);
                                    out.push(PricedMessage { message: msg, usage: Some(q) });
                                    st.calls = Vec::new();
                                    st.saw_usage = true;
                                    proof {
                                        assert(st.calls@.map_values(|s: String| s@) =~= Seq::<Seq<char>>::empty());
                                    }
                                },
                                None => {},
                            }
                        },
                        None => {},
                    }
                    proof {
                        assert(st.view() =~= codex_step(old(st).view(), *e, path@).0);
                        assert(out@.map_values(|p: PricedMessage| p@) =~= (if codex_step(old(st).view(), *e, path@).1 is Some {
                            before.push(codex_step(old(st).view(), *e, path@).1->0)
                        } else {
                            before
                        }));
                    }
                }
            },
            None => {},
        }
    }
}

/// Reads the lines of one session log (already parsed) from the file at `file_path`.
///
/// Returns the messages they yield, in order, and a warning to show when the session never
/// named its model and [`fallback_model`] was assumed for cost estimation.
pub fn parse_codex_cli_jsonl_file(entries: &[CodexEntry], file_path: &str) -> (r: (Vec<PricedMessage>, Option<String>))
    ensures
        r.0@.map_values(|p: PricedMessage| p@) == codex_run(entries@, file_path@, entries.len() as int).1,
        r.1 is Some <==> codex_run(entries@, file_path@, entries.len() as int).0.fell_back,
{
    let path = chars_of(file_path);
    let conv = hash_chars(&path);
    let mut st = CodexReader { model: None, prev_total: None, saw_usage: false, calls: Vec::new(), fell_back: false };
    let mut out: Vec<PricedMessage> = Vec::new();
    proof {
        assert(st.calls@.map_values(|s: String| s@) =~= Seq::<Seq<char>>::empty());
        assert(st.view() =~= initial_codex_state());
        assert(out@.map_values(|p: PricedMessage| p@) =~= Seq::<PricedMessageView>::empty());
    }
    let mut i: usize = 0;
    while i < entries.len()
        invariant
            i <= entries.len(),
            path@ == file_path@,
            conv@ == text_fingerprint(path@),
            st.view() == codex_run(entries@, file_path@, i as int).0,
            out@.map_values(|p: PricedMessage| p@) == codex_run(entries@, file_path@, i as int).1,
        decreases entries.len() - i,
    {
        step(&mut st, &entries[i], &path, &conv, &mut out);
        i = i + 1;
    }
    let warning = if st.fell_back {
        let mut msg = chars_of("WARNING: session ");
        append_chars(&mut msg, &path);
        let tail = chars_of(" missing model metadata; using fallback model gpt-5 for cost estimation.");
        append_chars(&mut msg, &tail);
        Some(string_of(&msg))
    } else {
        None
    };
    (out, warning)
}

/// One line of the prompt history file, after JSON parsing.
#[derive(Clone, Debug)]
pub struct CodexHistoryEntry {
    pub session_id: String,
    pub ts: i64,
    pub text: String,
}

/// Whether a history line is kept: its text is not blank.
pub open spec fn history_kept(e: CodexHistoryEntry) -> bool {
    trim(e.text@).len() > 0
}

/// How many of the first `n` lines are kept and belong to session `sid`.
pub open spec fn history_count(entries: Seq<CodexHistoryEntry>, sid: Seq<char>, n: int) -> int
    decreases n,
{
    if n <= 0 {
        0
    } else {
        history_count(entries, sid, n - 1) + if history_kept(entries[n - 1]) && entries[n - 1].session_id@ == sid { 1int } else { 0 }
    }
}

/// The user message line `i` of the history yields (when kept): numbered by how many earlier
/// lines of its session were kept, dated at its timestamp (or `now` when that is out of range).
pub open spec fn history_message(entries: Seq<CodexHistoryEntry>, i: int, now: Timestamp) -> MessageView {
    let e = entries[i];
    let counter = history_count(entries, e.session_id@, i);
    MessageView {
        application: Application::CodexCli,
        date: if chrono_secs_in_range(e.ts) { Timestamp { secs: e.ts, nanos: 0 } } else { now },
        project_hash: Seq::empty(),
        conversation_hash: text_fingerprint(e.session_id@),
        local_hash: Some("history-"@ + e.session_id@ + seq!['-'] + decimal(counter as nat)),
        global_hash: text_fingerprint("history:"@ + e.session_id@ + seq![':'] + crate::text::signed_decimal(e.ts as int) + seq![':'] + decimal(counter as nat)),
        model: None,
        stats: zero_stats(),
        role: MessageRole::User,
        content: Some(trim(e.text@)),
    }
}

/// The messages the first `n` history lines yield, in order.
pub open spec fn history_run(entries: Seq<CodexHistoryEntry>, now: Timestamp, n: int) -> Seq<MessageView>
    decreases n,
{
    if n <= 0 {
        Seq::empty()
    } else if history_kept(entries[n - 1]) {
        history_run(entries, now, n - 1).push(history_message(entries, n - 1, now))
    } else {
        history_run(entries, now, n - 1)
    }
}

pub proof fn lemma_history_count_bound(entries: Seq<CodexHistoryEntry>, sid: Seq<char>, n: int)
    requires
        0 <= n,
    ensures
        0 <= history_count(entries, sid, n) <= n,
    decreases n,
{
    if n > 0 {
        lemma_history_count_bound(entries, sid, n - 1);
    }
}

/// Reads the prompt history: each non-blank line becomes a user message whose content is the
/// trimmed text. `now` dates lines whose timestamp is out of range.
pub fn parse_codex_cli_history_file(entries: &[CodexHistoryEntry], now: Timestamp) -> (r: Vec<ConversationMessage>)
    ensures
        r@.map_values(|m: ConversationMessage| m@) == history_run(entries@, now, entries.len() as int),
{
    let mut counts: vstd::hash_map::StringHashMap<u64> = vstd::hash_map::StringHashMap::new();
    let mut out: Vec<ConversationMessage> = Vec::new();
    let mut i: usize = 0;
    proof {
        assert(out@.map_values(|m: ConversationMessage| m@) =~= Seq::<MessageView>::empty());
    }
    while i < entries.len()
        invariant
            i <= entries.len(),
            forall|s: Seq<char>| #[trigger] counts@.contains_key(s) ==> counts@[s] == history_count(entries@, s, i as int),
            forall|s: Seq<char>| !(#[trigger] counts@.contains_key(s)) ==> history_count(entries@, s, i as int) == 0,
            out@.map_values(|m: ConversationMessage| m@) == history_run(entries@, now, i as int),
        decreases entries.len() - i,
    {
        let e = &entries[i];
        let text = chars_of(e.text.as_str());
        let trimmed = trim_chars(&text);
        if trimmed.len() > 0 {
            let sid = e.session_id.as_str();
            proof {
                lemma_history_count_bound(entries@, sid@, i as int);
            }
            let counter: u64 = match counts.get(sid) {
                Some(c) => *c,
                None => 0,
            };
            counts.insert(e.session_id.clone(), counter + 1);
            let date = match crate::time::timestamp_from_secs(e.ts) {
                Some(d) => d,
                None => now,
            };
            let sid_chars = chars_of(sid);
            let conversation_hash = hash_chars(&sid_chars);
            let counter_chars = decimal_chars(counter);
            let mut g = chars_of("history:");
            append_chars(&mut g, &sid_chars);
            g.push(':');
            let ts_chars = crate::text::signed_decimal_chars(e.ts);
            append_chars(&mut g, &ts_chars);
            g.push(':');
            append_chars(&mut g, &counter_chars);
            let global_hash = hash_chars(&g);
            let mut l = chars_of("history-");
            append_chars(&mut l, &sid_chars);
            l.push('-');
            append_chars(&mut l, &counter_chars);
            let msg = ConversationMessage {
                application: Application::CodexCli,
                date,
                project_hash: String::new(),
                conversation_hash,
                local_hash: Some(string_of(&l)),
                global_hash,
                model: None,
                stats: Stats::zero(),
                role: MessageRole::User,
                content: Some(string_of(&trimmed)),
            };
            proof {
                assert(g@ =~= "history:"@ + sid@ + seq![':'] + crate::text::signed_decimal(e.ts as int) + seq![':'] + decimal(counter as nat));
                assert(l@ =~= "history-"@ + sid@ + seq!['-'] + decimal(counter as nat));
                assert(msg@ == history_message(entries@, i as int, now));
            }
            out.push(msg);
            proof {
                assert(out@.map_values(|m: ConversationMessage| m@) =~= history_run(entries@, now, i + 1));
            }
        } else {
            proof {
                assert(history_run(entries@, now, i + 1) == history_run(entries@, now, i as int));
            }
        }
        i = i + 1;
    }
    out
}

/// Which reader a Codex CLI file needs.
#[derive(Clone, Copy, Debug, PartialEq, Eq, Structural)]
pub enum CodexSourceKind {
    /// `history.jsonl`: the prompt history.
    History,
    /// Any other file: a session log.
    Session,
}

/// The reader for the file at path `p`: the prompt history when its last component is
/// `history.jsonl`, a session log otherwise.
pub open spec fn source_kind_of(p: Seq<char>) -> CodexSourceKind {
    let parts = crate::text::path_parts(p);
    if parts.len() > 0 && parts.last() == Some("history.jsonl"@) {
        CodexSourceKind::History
    } else {
        CodexSourceKind::Session
    }
}

/// Decides which reader the file at `path` needs, by its file name.
pub fn codex_source_kind(path: &str) -> (r: CodexSourceKind)
    ensures
        r == source_kind_of(path@),
{
    let parts = crate::text::path_components(path);
    let n = parts.len();
    proof {
        assert(parts@.map_values(|c: Option<String>| crate::types::opt_view(c)).len() == parts@.len());
    }
    if n == 0 {
        return CodexSourceKind::Session;
    }
    proof {
        assert(parts@.map_values(|c: Option<String>| crate::types::opt_view(c))[n - 1] == crate::types::opt_view(parts@[n - 1]));
    }
    match &parts[n - 1] {
        Some(name) => {
            if crate::json::str_eq(name.as_str(), "history.jsonl") {
                CodexSourceKind::History
            } else {
                CodexSourceKind::Session
            }
        },
        None => CodexSourceKind::Session,
    }
}

/// A usage report's input is counted once: the message's new input and cached tokens together
/// are the reported input (when the cached part is within it; none is new otherwise), output
/// and reasoning are as reported, and the price query splits the input the same way.
pub proof fn law_usage_counts_input_once(u: TokenUsage, model: Seq<char>)
    ensures
        u.cached_input_tokens <= u.input_tokens ==> usage_stats(u).input_tokens + usage_stats(u).cached_tokens
            == u.input_tokens,
        u.cached_input_tokens > u.input_tokens ==> usage_stats(u).input_tokens == 0,
        usage_stats(u).cached_tokens == u.cached_input_tokens,
        usage_stats(u).output_tokens == u.output_tokens,
        usage_stats(u).reasoning_tokens == u.reasoning_output_tokens,
        u.cached_input_tokens <= u.input_tokens ==> usage_cost(u, model).input_tokens + usage_cost(u, model).cache_read_tokens
            == u.input_tokens,
{
}

} // verus!
