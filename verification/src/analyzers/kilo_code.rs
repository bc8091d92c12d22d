//! The analyzer for Kilo Code task directories: cleaning message text, finding the model a
//! task ran with, and walking a task's UI messages into conversation messages.
use vstd::prelude::*;
use crate::analyzer::Analyzer;
use crate::hashing::{hash_chars, hash_text, text_fingerprint};
use crate::json::{get_json, json_get, str_eq, JsonValue};
use crate::text::{
    append_chars, chars_of, decimal, decimal_chars, find_from, find_pattern, lemma_find_from_range,
    path_components, path_parts, remove_all, remove_all_chars, signed_decimal, signed_decimal_chars,
    string_of, sub_chars, trim, trim_chars,
};
use crate::time::{chrono_secs_in_range, Timestamp};
use crate::types::{
    opt_view, Application, ConversationMessage, CostQuery, CostQueryView, MessageRole, MessageView, Stats,
    zero_stats,
};
use crate::utils::{instant_of_millis, timestamp_from_millis};

verus! {

/// The analyzer for Kilo Code task directories.
pub struct KiloCodeAnalyzer;

impl KiloCodeAnalyzer {
    pub fn new() -> (a: Self) {
        KiloCodeAnalyzer
    }
}

impl Analyzer for KiloCodeAnalyzer {
    open spec fn name_spec(&self) -> Seq<char> {
        "Kilo Code"@
    }

    fn display_name(&self) -> (s: &'static str) {
        "Kilo Code"
    }
}

/// `s` without its caveat: from the first `Caveat:` through the next blank line (or to the end
/// when none follows).
pub open spec fn strip_caveat(s: Seq<char>) -> Seq<char> {
    match find_from(s, "Caveat:"@, 0) {
        None => s,
        Some(c) => match find_from(s, "\n\n"@, c) {
            Some(d) => s.take(c) + s.skip(d + 2),
            None => s.take(c),
        },
    }
}

/// `s` with each `<command-name>…</command-name>` replaced by what it encloses, first to last.
pub open spec fn unwrap_command_tags(s: Seq<char>) -> Seq<char>
    decreases s.len(),
{
    match find_from(s, "<command-name>"@, 0) {
        None => s,
        Some(a) => match find_from(s, "</command-name>"@, a) {
            None => s,
            Some(b) => {
                proof {
                    reveal_strlit("</command-name>");
                    lemma_find_from_range(s, "</command-name>"@, a);
                }
                if b < a + 14 {
                    s
                } else {
                    unwrap_command_tags(s.take(a) + s.subrange(a + 14, b) + s.skip(b + 15))
                }
            },
        },
    }
}

/// Message text as shown: the caveat dropped, command-name tags unwrapped, the other command
/// tags removed, and the whole trimmed.
pub open spec fn cleaned_text(s: Seq<char>) -> Seq<char> {
    let a = unwrap_command_tags(strip_caveat(s));
    let b = remove_all(remove_all(remove_all(remove_all(remove_all(remove_all(
        a,
        "<command-message>"@,
    ), "</command-message>"@), "<command-args>"@), "</command-args>"@), "<local-command-stdout>"@), "</local-command-stdout>"@);
    trim(b)
}

fn drop_caveat(s: &Vec<char>) -> (r: Vec<char>)
    ensures
        r@ == strip_caveat(s@),
{
    let caveat = chars_of("Caveat:");
    let blank = chars_of("\n\n");
    proof {
        reveal_strlit("Caveat:");
        reveal_strlit("\n\n");
    }
    match find_pattern(s, &caveat, 0) {
        None => sub_chars(s.as_slice(), 0, s.len()),
        Some(c) => {
            proof {
                lemma_find_from_range(s@, caveat@, 0);
                lemma_find_from_range(s@, blank@, c as int);
            }
            match find_pattern(s, &blank, c) {
                Some(d) => {
                    let mut r = sub_chars(s.as_slice(), 0, c);
                    let tail = sub_chars(s.as_slice(), d + 2, s.len());
                    append_chars(&mut r, tail.as_slice());
                    r
                },
                None => sub_chars(s.as_slice(), 0, c),
            }
        },
    }
}

fn unwrap_commands(s: Vec<char>) -> (r: Vec<char>)
    ensures
        r@ == unwrap_command_tags(s@),
{
    let open = chars_of("<command-name>");
    let close = chars_of("</command-name>");
    proof {
        reveal_strlit("<command-name>");
        reveal_strlit("</command-name>");
    }
    let mut cur = s;
    loop
        invariant
            open@ == "<command-name>"@,
            close@ == "</command-name>"@,
            unwrap_command_tags(s@) == unwrap_command_tags(cur@),
        decreases cur.len(),
    {
        proof {
            reveal_strlit("<command-name>");
            reveal_strlit("</command-name>");
            assert(open@.len() == 14);
            assert(close@.len() == 15);
        }
        let a = match find_pattern(&cur, &open, 0) {
            None => return cur,
            Some(a) => a,
        };
        proof {
            lemma_find_from_range(cur@, open@, 0);
        }
        let b = match find_pattern(&cur, &close, a) {
            None => return cur,
            Some(b) => b,
        };
        proof {
            lemma_find_from_range(cur@, close@, a as int);
        }
        if b < a + 14 {
            return cur;
        }
        let mut next = sub_chars(cur.as_slice(), 0, a);
        let inner = sub_chars(cur.as_slice(), a + 14, b);
        append_chars(&mut next, inner.as_slice());
        let tail = sub_chars(cur.as_slice(), b + 15, cur.len());
        append_chars(&mut next, tail.as_slice());
        proof {
            assert(next@ =~= cur@.take(a as int) + cur@.subrange(a + 14, b as int) + cur@.skip(b + 15));
        }
        cur = next;
    }
}

/// Cleans message text (see [`cleaned_text`]).
pub fn clean_message_text(text: &str) -> (r: String)
    ensures
        r@ == cleaned_text(text@),
{
    let s = chars_of(text);
    let a = unwrap_commands(drop_caveat(&s));
    let t1 = chars_of("<command-message>");
    let t2 = chars_of("</command-message>");
    let t3 = chars_of("<command-args>");
    let t4 = chars_of("</command-args>");
    let t5 = chars_of("<local-command-stdout>");
    let t6 = chars_of("</local-command-stdout>");
    proof {
        reveal_strlit("<command-message>");
        reveal_strlit("</command-message>");
        reveal_strlit("<command-args>");
        reveal_strlit("</command-args>");
        reveal_strlit("<local-command-stdout>");
        reveal_strlit("</local-command-stdout>");
    }
    let b1 = remove_all_chars(&a, &t1);
    let b2 = remove_all_chars(&b1, &t2);
    let b3 = remove_all_chars(&b2, &t3);
    let b4 = remove_all_chars(&b3, &t4);
    let b5 = remove_all_chars(&b4, &t5);
    let b6 = remove_all_chars(&b5, &t6);
    let r = trim_chars(b6.as_slice());
    string_of(r.as_slice())
}

/// The model named between the first `<model>` and the `</model>` after it.
pub open spec fn model_in_text(t: Seq<char>) -> Option<Seq<char>> {
    match find_from(t, "<model>"@, 0) {
        None => None,
        Some(s) => match find_from(t, "</model>"@, s) {
            None => None,
            Some(e) => if e < s + 7 { None } else { Some(t.subrange(s + 7, e)) },
        },
    }
}

/// The model named in environment details (see [`model_in_text`]).
pub fn extract_model_from_text(text: &str) -> (r: Option<String>)
    ensures
        opt_view(r) == model_in_text(text@),
{
    let t = chars_of(text);
    let open = chars_of("<model>");
    let close = chars_of("</model>");
    proof {
        reveal_strlit("<model>");
        reveal_strlit("</model>");
        assert(open@.len() == 7);
        assert(close@.len() == 8);
    }
    let s = match find_pattern(&t, &open, 0) {
        None => return None,
        Some(s) => s,
    };
    proof {
        lemma_find_from_range(t@, open@, 0);
    }
    let e = match find_pattern(&t, &close, s) {
        None => return None,
        Some(e) => e,
    };
    proof {
        lemma_find_from_range(t@, close@, s as int);
    }
    if e < s + 7 {
        return None;
    }
    let m = sub_chars(t.as_slice(), s + 7, e);
    Some(string_of(m.as_slice()))
}

/// The model a user entry of the API history names last among its content items.
pub open spec fn model_in_items(items: Seq<JsonValue>, n: int, found: Option<Seq<char>>) -> Option<Seq<char>>
    decreases n,
{
    if n <= 0 {
        found
    } else {
        let prev = model_in_items(items, n - 1, found);
        match json_get(items[n - 1], "text"@) {
            Some(JsonValue::Str(t)) => match model_in_text(t@) {
                Some(m) => Some(m),
                None => prev,
            },
            _ => prev,
        }
    }
}

/// The model the first `n` entries of a task's API history name last, in the content items of
/// user entries.
pub open spec fn model_in_history(history: Seq<JsonValue>, n: int) -> Option<Seq<char>>
    decreases n,
{
    if n <= 0 {
        None
    } else {
        let prev = model_in_history(history, n - 1);
        let e = history[n - 1];
        match (json_get(e, "role"@), json_get(e, "content"@)) {
            (Some(JsonValue::Str(r)), Some(JsonValue::Array(items))) => if r@ == "user"@ {
                model_in_items(items@, items.len() as int, prev)
            } else {
                prev
            },
            _ => prev,
        }
    }
}

/// The model a task ran with, from its API history (see [`model_in_history`]).
pub fn model_from_history(history: &[JsonValue]) -> (r: Option<String>)
    ensures
        opt_view(r) == model_in_history(history@, history.len() as int),
{
    let mut current: Option<String> = None;
    let mut i: usize = 0;
    while i < history.len()
        invariant
            i <= history.len(),
            opt_view(current) == model_in_history(history@, i as int),
        decreases history.len() - i,
    {
        let e = &history[i];
        match (get_json(e, "role"), get_json(e, "content")) {
            (Some(JsonValue::Str(r)), Some(JsonValue::Array(items))) => {
                if str_eq(r.as_str(), "user") {
                    let ghost start = opt_view(current);
                    let mut k: usize = 0;
                    while k < items.len()
                        invariant
                            k <= items.len(),
                            opt_view(current) == model_in_items(items@, k as int, start),
                        decreases items.len() - k,
                    {
                        match get_json(&items[k], "text") {
                            Some(JsonValue::Str(t)) => {
                                match extract_model_from_text(t.as_str()) {
                                    Some(m) => {
                                        current = Some(m);
                                    },
                                    None => {},
                                }
                            },
                            _ => {},
                        }
                        k = k + 1;
                    }
                }
            },
            _ => {},
        }
        i = i + 1;
    }
    current
}

/// The position of the first component `tasks` that follows a normal component, among the
/// components `parts` from `i` on.
pub open spec fn tasks_parent(parts: Seq<Option<Seq<char>>>, i: int) -> Option<Seq<char>>
    decreases parts.len() - i,
{
    if i < 0 || i >= parts.len() {
        None
    } else if parts[i] == Some("tasks"@) && i > 0 && parts[i - 1] is Some {
        parts[i - 1]
    } else {
        tasks_parent(parts, i + 1)
    }
}

/// The project of a task directory: the fingerprint of the component before `tasks` (the
/// storage the tasks belong to), else of the whole path.
pub open spec fn kilo_project(path: Seq<char>) -> Seq<char> {
    match tasks_parent(path_parts(path), 0) {
        Some(id) => text_fingerprint(id),
        None => text_fingerprint(path),
    }
}

/// The project of a task directory (see [`kilo_project`]).
pub fn extract_and_hash_project_id_kilo_code(path: &str) -> (r: String)
    ensures
        r@ == kilo_project(path@),
{
    let parts = path_components(path);
    let ghost pv = parts@.map_values(|c: Option<String>| opt_view(c));
    let mut i: usize = 0;
    while i < parts.len()
        invariant
            i <= parts.len(),
            pv == parts@.map_values(|c: Option<String>| opt_view(c)),
            pv == path_parts(path@),
            tasks_parent(pv, 0) == tasks_parent(pv, i as int),
        decreases parts.len() - i,
    {
        proof {
            assert(pv[i as int] == opt_view(parts@[i as int]));
            if i > 0 {
                assert(pv[i - 1] == opt_view(parts@[i - 1]));
            }
        }
        match &parts[i] {
            Some(name) => {
                if str_eq(name.as_str(), "tasks") && i > 0 {
                    match &parts[i - 1] {
                        Some(id) => {
                            proof {
                                reveal_strlit("tasks");
                            }
                            return hash_text(id.as_str());
                        },
                        None => {},
                    }
                }
            },
            None => {},
        }
        i = i + 1;
    }
    hash_text(path)
}

/// The conversation of a task directory: the fingerprint of its last component, when that is a
/// normal one, else of the whole path.
pub open spec fn kilo_conversation(path: Seq<char>) -> Seq<char> {
    let parts = path_parts(path);
    if parts.len() > 0 && parts.last() is Some {
        text_fingerprint(parts.last()->0)
    } else {
        text_fingerprint(path)
    }
}

/// The conversation of a task directory (see [`kilo_conversation`]).
pub fn kilo_conversation_hash(path: &str) -> (r: String)
    ensures
        r@ == kilo_conversation(path@),
{
    let parts = path_components(path);
    let n = parts.len();
    proof {
        if n > 0 {
            assert(path_parts(path@)[n - 1] == opt_view(parts@[n - 1]));
        }
    }
    if n > 0 {
        match &parts[n - 1] {
            Some(name) => return hash_text(name.as_str()),
            None => {},
        }
    }
    hash_text(path)
}

/// The token counts of an `api_req_started` message's embedded request; its logged cost, which
/// is floating point, is kept by the caller under the message's position.
#[derive(Debug, Clone)]
pub struct KiloCodeApiRequest {
    pub api_protocol: String,
    pub tokens_in: u64,
    pub tokens_out: u64,
    pub cache_writes: u64,
    pub cache_reads: u64,
    pub usage_missing: bool,
}

/// A UI message of a task.
#[derive(Debug, Clone)]
pub enum KiloCodeUiMessage {
    Say {
        ts: i64,
        say: String,
        text: String,
        images: Vec<String>,
        partial: bool,
        /// For an `api_req_started` message, its text read as a request (none when it is not one).
        api_request: Option<KiloCodeApiRequest>,
    },
    Ask {
        ts: i64,
        ask: String,
        text: String,
    },
}

/// Where a message's cost comes from.
#[derive(Debug, Clone)]
pub enum KiloCost {
    /// No cost.
    Nothing,
    /// The model's prices applied to these tokens.
    Priced(CostQuery),
    /// The cost logged with the request of the UI message at this position.
    Logged(usize),
}

/// A cost source as the contracts see it.
pub ghost enum KiloCostView {
    Nothing,
    Priced(CostQueryView),
    Logged(int),
}

impl View for KiloCost {
    type V = KiloCostView;

    open spec fn view(&self) -> KiloCostView {
        match self {
            KiloCost::Nothing => KiloCostView::Nothing,
            KiloCost::Priced(q) => KiloCostView::Priced(q@),
            KiloCost::Logged(i) => KiloCostView::Logged(*i as int),
        }
    }
}

/// A message of a task and where its cost comes from.
#[derive(Debug)]
pub struct KiloEntry {
    pub message: ConversationMessage,
    pub cost: KiloCost,
}

/// An entry as the contracts see it.
pub ghost struct KiloEntryView {
    pub message: MessageView,
    pub cost: KiloCostView,
}

impl View for KiloEntry {
    type V = KiloEntryView;

    open spec fn view(&self) -> KiloEntryView {
        KiloEntryView { message: self.message@, cost: self.cost@ }
    }
}

/// The counters of an API request: its tokens (cache writes and reads both counting as cached)
/// and one tool call when it produced output.
pub open spec fn request_stats(r: KiloCodeApiRequest) -> Stats {
    Stats {
        input_tokens: r.tokens_in,
        output_tokens: r.tokens_out,
        cache_creation_tokens: r.cache_writes,
        cache_read_tokens: r.cache_reads,
        cached_tokens: (r.cache_writes + r.cache_reads) as u64,
        tool_calls: if r.tokens_out > 0 { 1 } else { 0 },
        ..zero_stats()
    }
}

/// The cost of the API request of the UI message at `idx`: priced by the task's model when it is
/// known, else as logged.
pub open spec fn request_cost(r: KiloCodeApiRequest, model: Option<Seq<char>>, idx: int) -> KiloCostView {
    match model {
        Some(m) => KiloCostView::Priced(
            CostQueryView {
                model: m,
                input_tokens: r.tokens_in,
                output_tokens: r.tokens_out,
                cache_creation_tokens: r.cache_writes,
                cache_read_tokens: r.cache_reads,
            },
        ),
        None => KiloCostView::Logged(idx),
    }
}

/// Where walking a task's UI messages stands.
pub ghost struct KiloState {
    /// The counters and cost of an API request not yet attached to a message.
    pub pending: Option<(Stats, KiloCostView)>,
    pub last_role: Option<MessageRole>,
    pub index: int,
    pub out: Seq<KiloEntryView>,
}

/// Whether the UI message is a `say` of kind `kind`.
pub open spec fn is_say(m: KiloCodeUiMessage, kind: Seq<char>) -> bool {
    m matches KiloCodeUiMessage::Say { say, .. } && say@ == kind
}

/// Whether the reasoning at `idx` is followed by assistant text that survives cleaning, before
/// the next request or user feedback (from position `j` on).
pub open spec fn followed_by_text(msgs: Seq<KiloCodeUiMessage>, j: int) -> bool
    decreases msgs.len() - j,
{
    if j < 0 || j >= msgs.len() {
        false
    } else {
        match msgs[j] {
            KiloCodeUiMessage::Say { say, text, .. } => if say@ == "text"@ || say@ == "completion_result"@ || say@
                == "error"@ {
                cleaned_text(text@).len() > 0
            } else if say@ == "api_req_started"@ || say@ == "user_feedback"@ {
                false
            } else {
                followed_by_text(msgs, j + 1)
            },
            KiloCodeUiMessage::Ask { .. } => followed_by_text(msgs, j + 1),
        }
    }
}

/// Whether the reasoning at `idx` will be followed by non-empty assistant text.
pub fn reasoning_followed_by_non_empty_text(messages: &[KiloCodeUiMessage], current_index: usize) -> (r: bool)
    ensures
        r == followed_by_text(messages@, current_index + 1),
{
    if current_index >= messages.len() {
        return false;
    }
    let mut j: usize = current_index + 1;
    while j < messages.len()
        invariant
            current_index < messages.len(),
            j <= messages.len(),
            followed_by_text(messages@, current_index + 1) == followed_by_text(messages@, j as int),
        decreases messages.len() - j,
    {
        match &messages[j] {
            KiloCodeUiMessage::Say { say, text, .. } => {
                if str_eq(say.as_str(), "text") || str_eq(say.as_str(), "completion_result") || str_eq(say.as_str(), "error") {
                    let cleaned = clean_message_text(text.as_str());
                    return !cleaned.as_str().is_empty();
                } else if str_eq(say.as_str(), "api_req_started") || str_eq(say.as_str(), "user_feedback") {
                    return false;
                }
            },
            KiloCodeUiMessage::Ask { .. } => {},
        }
        j = j + 1;
    }
    false
}

/// The instant of a UI message stamped `ts` milliseconds, or `now` when chrono cannot represent
/// it.
pub open spec fn kilo_date(ts: i64, now: Timestamp) -> Timestamp {
    if chrono_secs_in_range((ts as int / 1000) as i64) { instant_of_millis(ts as int) } else { now }
}

/// The entry made for the task's next message.
pub open spec fn kilo_entry(
    project: Seq<char>,
    conv: Seq<char>,
    index: int,
    ts: i64,
    now: Timestamp,
    role: MessageRole,
    model: Option<Seq<char>>,
    stats: Stats,
    cost: KiloCostView,
    content: Option<Seq<char>>,
) -> KiloEntryView {
    KiloEntryView {
        message: MessageView {
            application: Application::KiloCode,
            date: kilo_date(ts, now),
            project_hash: project,
            conversation_hash: conv,
            local_hash: Some(conv + seq!['-'] + decimal(index as nat)),
            global_hash: text_fingerprint(project + seq![':'] + conv + seq![':'] + decimal(index as nat) + seq![':'] + signed_decimal(ts as int)),
            model,
            stats,
            role,
            content,
        },
        cost,
    }
}

/// The state after emitting a message.
pub open spec fn emit(
    st: KiloState,
    project: Seq<char>,
    conv: Seq<char>,
    ts: i64,
    now: Timestamp,
    role: MessageRole,
    model: Option<Seq<char>>,
    stats: Stats,
    cost: KiloCostView,
    content: Option<Seq<char>>,
    pending: Option<(Stats, KiloCostView)>,
) -> KiloState {
    KiloState {
        pending,
        last_role: Some(role),
        index: st.index + 1,
        out: st.out.push(kilo_entry(project, conv, st.index, ts, now, role, model, stats, cost, content)),
    }
}

/// The pending counters and cost, or nothing.
pub open spec fn pending_or_zero(p: Option<(Stats, KiloCostView)>) -> (Stats, KiloCostView) {
    match p {
        Some(x) => x,
        None => (zero_stats(), KiloCostView::Nothing),
    }
}

/// The role a non-empty `text` message at `idx` takes: the assistant's while a request is
/// pending; the user's right before a request; otherwise the assistant's after the assistant,
/// the user's at the very start, and the assistant's after the user.
pub open spec fn text_role(msgs: Seq<KiloCodeUiMessage>, idx: int, st: KiloState) -> MessageRole {
    let next_is_api = idx + 1 < msgs.len() && match msgs[idx + 1] {
        KiloCodeUiMessage::Say { say, .. } => say@ == "api_req_started"@,
        KiloCodeUiMessage::Ask { ask, .. } => ask@ == "api_req_failed"@,
    };
    if st.pending is Some {
        MessageRole::Assistant
    } else if next_is_api {
        MessageRole::User
    } else if st.last_role == Some(MessageRole::Assistant) {
        MessageRole::Assistant
    } else if st.last_role is None {
        MessageRole::User
    } else {
        MessageRole::Assistant
    }
}

/// One step of the walk: what the UI message at `idx` does to the state.
pub open spec fn kilo_step(
    msgs: Seq<KiloCodeUiMessage>,
    idx: int,
    st: KiloState,
    model: Option<Seq<char>>,
    project: Seq<char>,
    conv: Seq<char>,
    now: Timestamp,
) -> KiloState {
    match msgs[idx] {
        KiloCodeUiMessage::Ask { .. } => st,
        KiloCodeUiMessage::Say { ts, say, text, api_request, .. } => {
            let cleaned = cleaned_text(text@);
            if say@ == "api_req_started"@ {
                match api_request {
                    Some(r) => KiloState { pending: Some((request_stats(r), request_cost(r, model, idx))), ..st },
                    None => if cleaned.len() == 0 {
                        st
                    } else {
                        emit(st, project, conv, ts, now, MessageRole::Assistant, model, zero_stats(), KiloCostView::Nothing, Some(cleaned), st.pending)
                    },
                }
            } else if say@ == "reasoning"@ {
                if followed_by_text(msgs, idx + 1) {
                    st
                } else {
                    match st.pending {
                        None => st,
                        Some((s, c)) => emit(st, project, conv, ts, now, MessageRole::Assistant, model, s, c, if cleaned.len() > 0 {
                            Some(cleaned)
                        } else {
                            None
                        }, None),
                    }
                }
            } else if say@ == "completion_result"@ || say@ == "error"@ {
                if cleaned.len() == 0 {
                    st
                } else {
                    let (s, c) = pending_or_zero(st.pending);
                    emit(st, project, conv, ts, now, MessageRole::Assistant, model, s, c, Some(cleaned), None)
                }
            } else if say@ == "text"@ {
                if cleaned.len() == 0 {
                    match st.pending {
                        None => st,
                        Some((s, c)) => emit(st, project, conv, ts, now, MessageRole::Assistant, model, s, c, None, None),
                    }
                } else {
                    let role = text_role(msgs, idx, st);
                    if role == MessageRole::Assistant {
                        let (s, c) = pending_or_zero(st.pending);
                        emit(st, project, conv, ts, now, role, model, s, c, Some(cleaned), None)
                    } else {
                        emit(st, project, conv, ts, now, role, None, zero_stats(), KiloCostView::Nothing, Some(cleaned), st.pending)
                    }
                }
            } else if say@ == "user_feedback"@ {
                if cleaned.len() == 0 {
                    st
                } else {
                    emit(st, project, conv, ts, now, MessageRole::User, None, zero_stats(), KiloCostView::Nothing, Some(cleaned), st.pending)
                }
            } else {
                st
            }
        },
    }
}

/// The state after walking the first `n` UI messages.
pub open spec fn kilo_walk(
    msgs: Seq<KiloCodeUiMessage>,
    n: int,
    model: Option<Seq<char>>,
    project: Seq<char>,
    conv: Seq<char>,
    now: Timestamp,
) -> KiloState
    decreases n,
{
    if n <= 0 {
        KiloState { pending: None, last_role: None, index: 0, out: Seq::empty() }
    } else {
        kilo_step(msgs, n - 1, kilo_walk(msgs, n - 1, model, project, conv, now), model, project, conv, now)
    }
}

/// What a task's UI messages need for the walk: every embedded request's cache counts add up
/// within a counter.
pub open spec fn requests_fit(msgs: Seq<KiloCodeUiMessage>) -> bool {
    forall|i: int|
        0 <= i < msgs.len() ==> match #[trigger] msgs[i] {
            KiloCodeUiMessage::Say { api_request: Some(r), .. } => r.cache_writes + r.cache_reads <= u64::MAX,
            _ => true,
        }
}

/// The views of a sequence of entries.
pub open spec fn entry_views(v: Seq<KiloEntry>) -> Seq<KiloEntryView> {
    v.map_values(|e: KiloEntry| e@)
}

/// The counters and cost source of a request not yet attached to a message.
pub struct Pending {
    pub stats: Stats,
    pub cost: KiloCost,
}

fn kilo_message(
    project: &String,
    conv: &String,
    index: usize,
    ts: i64,
    now: Timestamp,
    role: MessageRole,
    model: &Option<String>,
    stats: Stats,
    cost: KiloCost,
    content: Option<Vec<char>>,
) -> (r: KiloEntry)
    requires
        now.wf(),
    ensures
        r@ == kilo_entry(project@, conv@, index as int, ts, now, role, opt_view(*model), stats, cost@, match content {
            Some(c) => Some(c@),
            None => None,
        }),
{
    let idx = decimal_chars(index as u64);
    let mut local = chars_of(conv.as_str());
    local.push('-');
    append_chars(&mut local, idx.as_slice());
    let mut g = chars_of(project.as_str());
    g.push(':');
    let cc = chars_of(conv.as_str());
    append_chars(&mut g, cc.as_slice());
    g.push(':');
    append_chars(&mut g, idx.as_slice());
    g.push(':');
    let tsd = signed_decimal_chars(ts);
    append_chars(&mut g, tsd.as_slice());
    let date = match timestamp_from_millis(ts) {
        Some(t) => t,
        None => now,
    };
    proof {
        assert(local@ =~= conv@ + seq!['-'] + decimal(index as nat));
        assert(g@ =~= project@ + seq![':'] + conv@ + seq![':'] + decimal(index as nat) + seq![':'] + signed_decimal(ts as int));
    }
    KiloEntry {
        message: ConversationMessage {
            application: Application::KiloCode,
            date,
            project_hash: project.clone(),
            conversation_hash: conv.clone(),
            local_hash: Some(string_of(local.as_slice())),
            global_hash: hash_chars(g.as_slice()),
            model: crate::types::copy_opt_string(model),
            stats,
            role,
            content: match content {
                Some(c) => Some(string_of(c.as_slice())),
                None => None,
            },
        },
        cost,
    }
}

/// The view of a pending request.
pub open spec fn pending_view(p: Option<Pending>) -> Option<(Stats, KiloCostView)> {
    match p {
        Some(x) => Some((x.stats, x.cost@)),
        None => None,
    }
}

fn copy_cost(c: &KiloCost) -> (r: KiloCost)
    ensures
        r@ == c@,
{
    match c {
        KiloCost::Nothing => KiloCost::Nothing,
        KiloCost::Priced(q) => KiloCost::Priced(CostQuery {
            model: q.model.clone(),
            input_tokens: q.input_tokens,
            output_tokens: q.output_tokens,
            cache_creation_tokens: q.cache_creation_tokens,
            cache_read_tokens: q.cache_read_tokens,
        }),
        KiloCost::Logged(i) => KiloCost::Logged(*i),
    }
}

/// The walk in progress.
struct Walker {
    pending: Option<Pending>,
    last_role: Option<MessageRole>,
    index: usize,
    out: Vec<KiloEntry>,
}

impl Walker {
    spec fn state(&self) -> KiloState {
        KiloState {
            pending: pending_view(self.pending),
            last_role: self.last_role,
            index: self.index as int,
            out: entry_views(self.out@),
        }
    }

    /// Emits a message and moves on (see [`emit`]).
    fn emit_entry(
        &mut self,
        project: &String,
        conv: &String,
        ts: i64,
        now: Timestamp,
        role: MessageRole,
        model: &Option<String>,
        stats: Stats,
        cost: KiloCost,
        content: Option<Vec<char>>,
        keep_pending: bool,
    )
        requires
            now.wf(),
            old(self).index < usize::MAX,
        ensures
            final(self).state() == emit(
                old(self).state(),
                project@,
                conv@,
                ts,
                now,
                role,
                opt_view(*model),
                stats,
                cost@,
                match content {
                    Some(c) => Some(c@),
                    None => None,
                },
                if keep_pending { old(self).state().pending } else { None },
            ),
    {
        let e = kilo_message(project, conv, self.index, ts, now, role, model, stats, cost, content);
        let ghost before = self.out@;
        self.out.push(e);
        proof {
            assert(entry_views(self.out@) =~= entry_views(before).push(e@));
        }
        self.index = self.index + 1;
        self.last_role = Some(role);
        if !keep_pending {
            self.pending = None;
        }
    }

    /// Takes the pending counters and cost, or nothing.
    fn take_pending(&mut self) -> (r: (Stats, KiloCost))
        ensures
            (r.0, r.1@) == pending_or_zero(old(self).state().pending),
            final(self).out@ == old(self).out@,
            final(self).index == old(self).index,
            final(self).last_role == old(self).last_role,
    {
        let mut p: Option<Pending> = None;
        std::mem::swap(&mut p, &mut self.pending);
        match p {
            Some(p) => (p.stats, p.cost),
            None => (Stats::zero(), KiloCost::Nothing),
        }
    }
}

/// The role of a non-empty `text` message (see [`text_role`]).
fn role_of_text(msgs: &[KiloCodeUiMessage], idx: usize, w: &Walker) -> (r: MessageRole)
    requires
        idx < msgs.len(),
    ensures
        r == text_role(msgs@, idx as int, w.state()),
{
    let next_is_api = if idx + 1 < msgs.len() {
        match &msgs[idx + 1] {
            KiloCodeUiMessage::Say { say, .. } => str_eq(say.as_str(), "api_req_started"),
            KiloCodeUiMessage::Ask { ask, .. } => str_eq(ask.as_str(), "api_req_failed"),
        }
    } else {
        false
    };
    if w.pending.is_some() {
        MessageRole::Assistant
    } else if next_is_api {
        MessageRole::User
    } else if w.last_role == Some(MessageRole::Assistant) {
        MessageRole::Assistant
    } else if w.last_role.is_none() {
        MessageRole::User
    } else {
        MessageRole::Assistant
    }
}

/// The pending request of an `api_req_started` message at `idx`.
fn pending_request(r: &KiloCodeApiRequest, model: &Option<String>, idx: usize) -> (p: Pending)
    requires
        r.cache_writes + r.cache_reads <= u64::MAX,
    ensures
        p.stats == request_stats(*r),
        p.cost@ == request_cost(*r, opt_view(*model), idx as int),
{
    let mut stats = Stats::zero();
    stats.input_tokens = r.tokens_in;
    stats.output_tokens = r.tokens_out;
    stats.cache_creation_tokens = r.cache_writes;
    stats.cache_read_tokens = r.cache_reads;
    stats.cached_tokens = r.cache_writes + r.cache_reads;
    stats.tool_calls = if r.tokens_out > 0 { 1 } else { 0 };
    let cost = match model {
        Some(m) => KiloCost::Priced(CostQuery {
            model: m.clone(),
            input_tokens: r.tokens_in,
            output_tokens: r.tokens_out,
            cache_creation_tokens: r.cache_writes,
            cache_read_tokens: r.cache_reads,
        }),
        None => KiloCost::Logged(idx),
    };
    Pending { stats, cost }
}

/// One step of the walk (see [`kilo_step`]).
fn walk_step(
    w: &mut Walker,
    msgs: &[KiloCodeUiMessage],
    idx: usize,
    model: &Option<String>,
    project: &String,
    conv: &String,
    now: Timestamp,
)
    requires
        idx < msgs.len(),
        old(w).index <= idx,
        msgs.len() < usize::MAX,
        now.wf(),
        requests_fit(msgs@),
    ensures
        final(w).state() == kilo_step(msgs@, idx as int, old(w).state(), opt_view(*model), project@, conv@, now),
        final(w).index <= idx + 1,
{
    let (ts, say, text, api_request) = match &msgs[idx] {
        KiloCodeUiMessage::Ask { .. } => return,
        KiloCodeUiMessage::Say { ts, say, text, api_request, .. } => (*ts, say, text, api_request),
    };
    let cleaned = clean_message_text(text.as_str());
    let cc = chars_of(cleaned.as_str());
    let empty = cc.len() == 0;
    if str_eq(say.as_str(), "api_req_started") {
        match api_request {
            Some(r) => {
                proof {
                    assert(msgs@[idx as int] matches KiloCodeUiMessage::Say { api_request: Some(q), .. } && q == *r);
                }
                w.pending = Some(pending_request(r, model, idx));
            },
            None => {
                if !empty {
                    w.emit_entry(project, conv, ts, now, MessageRole::Assistant, model, Stats::zero(), KiloCost::Nothing, Some(cc), true);
                }
            },
        }
    } else if str_eq(say.as_str(), "reasoning") {
        if !reasoning_followed_by_non_empty_text(msgs, idx) && w.pending.is_some() {
            let (stats, cost) = w.take_pending();
            let content = if !empty { Some(cc) } else { None };
            w.emit_entry(project, conv, ts, now, MessageRole::Assistant, model, stats, cost, content, false);
        }
    } else if str_eq(say.as_str(), "completion_result") || str_eq(say.as_str(), "error") {
        if !empty {
            let (stats, cost) = w.take_pending();
            w.emit_entry(project, conv, ts, now, MessageRole::Assistant, model, stats, cost, Some(cc), false);
        }
    } else if str_eq(say.as_str(), "text") {
        if empty {
            if w.pending.is_some() {
                let (stats, cost) = w.take_pending();
                w.emit_entry(project, conv, ts, now, MessageRole::Assistant, model, stats, cost, None, false);
            }
        } else {
            let role = role_of_text(msgs, idx, w);
            if role == MessageRole::Assistant {
                let (stats, cost) = w.take_pending();
                w.emit_entry(project, conv, ts, now, role, model, stats, cost, Some(cc), false);
            } else {
                w.emit_entry(project, conv, ts, now, role, &None, Stats::zero(), KiloCost::Nothing, Some(cc), true);
            }
        }
    } else if str_eq(say.as_str(), "user_feedback") {
        if !empty {
            w.emit_entry(project, conv, ts, now, MessageRole::User, &None, Stats::zero(), KiloCost::Nothing, Some(cc), true);
        }
    }
}

/// Walks a task's UI messages into its messages (see [`kilo_walk`]); `task_dir` is the task's
/// directory, `model` the model its API history names (see [`model_from_history`]) and `now`
/// the instant that stands in for timestamps chrono cannot represent.
pub fn parse_kilo_code_task_directory(
    task_dir: &str,
    ui_messages: &[KiloCodeUiMessage],
    model: &Option<String>,
    now: Timestamp,
) -> (r: Vec<KiloEntry>)
    requires
        now.wf(),
        requests_fit(ui_messages@),
        ui_messages.len() < usize::MAX,
    ensures
        entry_views(r@) == kilo_walk(
            ui_messages@,
            ui_messages.len() as int,
            opt_view(*model),
            kilo_project(task_dir@),
            kilo_conversation(task_dir@),
            now,
        ).out,
{
    let project = extract_and_hash_project_id_kilo_code(task_dir);
    let conv = kilo_conversation_hash(task_dir);
    let mut w = Walker { pending: None, last_role: None, index: 0, out: Vec::new() };
    proof {
        assert(entry_views(w.out@) =~= Seq::<KiloEntryView>::empty());
    }
    let mut idx: usize = 0;
    while idx < ui_messages.len()
        invariant
            idx <= ui_messages.len(),
            ui_messages.len() < usize::MAX,
            now.wf(),
            requests_fit(ui_messages@),
            w.index <= idx,
            w.state() == kilo_walk(ui_messages@, idx as int, opt_view(*model), project@, conv@, now),
        decreases ui_messages.len() - idx,
    {
        walk_step(&mut w, ui_messages, idx, model, &project, &conv, now);
        idx = idx + 1;
    }
    w.out
}

} // verus!
