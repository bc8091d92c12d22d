//! The analyzer for OpenCode's stored messages: what a stored message record becomes, where its
//! text comes from, and how a whole store's records are brought together.
use vstd::prelude::*;
use vstd::hash_map::StringHashMap;
use vstd::hash_set::StringHashSet;
use crate::analyzer::Analyzer;
use crate::hashing::{hash_chars, hash_text, text_fingerprint};
use crate::json::str_eq;
use crate::text::{append_chars, chars_of, decimal, decimal_chars, lowercase, lowercase_of, string_of, trim};
use crate::time::{chrono_secs_in_range, Timestamp};
use crate::types::{
    opt_view, Application, ConversationMessage, CostQuery, CostQueryView, MessageRole, MessageView, PricedMessage,
    PricedMessageView, Stats, zero_stats,
};
use crate::utils::{instant_of_millis, timestamp_from_millis};

verus! {

/// The analyzer for OpenCode's stored messages.
pub struct OpenCodeAnalyzer;

impl OpenCodeAnalyzer {
    pub fn new() -> (a: Self) {
        OpenCodeAnalyzer
    }
}

impl Analyzer for OpenCodeAnalyzer {
    open spec fn name_spec(&self) -> Seq<char> {
        "OpenCode"@
    }

    fn display_name(&self) -> (s: &'static str) {
        "OpenCode"
    }
}

/// A session record: the project directory its messages belong to.
#[derive(Debug, Clone)]
pub struct OpenCodeSession {
    pub id: String,
    pub directory: String,
    pub title: String,
}

/// A part of a message; text parts carry what was said.
#[derive(Debug, Clone)]
pub struct OpenCodePart {
    pub id: String,
    pub session_id: String,
    pub message_id: String,
    pub part_type: String,
    pub text: Option<String>,
}

/// When a message was created and completed, in milliseconds since the epoch.
#[derive(Debug, Clone, Copy)]
pub struct OpenCodeMessageTime {
    pub created: u64,
    pub completed: Option<u64>,
}

/// Cache token counts.
#[derive(Debug, Clone, Copy)]
pub struct OpenCodeCache {
    pub read: u64,
    pub write: u64,
}

/// Token counts of a message.
#[derive(Debug, Clone, Copy)]
pub struct OpenCodeTokens {
    pub input: u64,
    pub output: u64,
    pub reasoning: u64,
    pub cache: Option<OpenCodeCache>,
}

/// The model a message names in its nested record.
#[derive(Debug, Clone)]
pub struct OpenCodeMessageModel {
    pub provider_id: String,
    pub model_id: String,
}

/// A stored message record.
#[derive(Debug, Clone)]
pub struct OpenCodeMessageData {
    pub id: String,
    pub session_id: String,
    pub role: String,
    pub time: OpenCodeMessageTime,
    pub model_id: Option<String>,
    pub tokens: Option<OpenCodeTokens>,
    pub finish: Option<String>,
    pub model: Option<OpenCodeMessageModel>,
}

/// The role a lowercased role name stands for, if any.
pub open spec fn role_named(lower: Seq<char>) -> Option<MessageRole> {
    if lower == "user"@ {
        Some(MessageRole::User)
    } else if lower == "assistant"@ || lower == "ai"@ {
        Some(MessageRole::Assistant)
    } else {
        None
    }
}

/// The model a message is attributed to: its own model id, else the nested record's, else
/// OpenCode's free tier.
pub open spec fn opencode_model(msg: OpenCodeMessageData) -> Seq<char> {
    match msg.model_id {
        Some(m) => m@,
        None => match msg.model {
            Some(mm) => mm.model_id@,
            None => "opencode-zen"@,
        },
    }
}

/// The counters of a message: its tokens (cache reads counting as cached tokens too) and one
/// tool call when it finished to call tools.
pub open spec fn opencode_stats(msg: OpenCodeMessageData) -> Stats {
    let base = match msg.tokens {
        None => zero_stats(),
        Some(t) => match t.cache {
            None => Stats { input_tokens: t.input, output_tokens: t.output, reasoning_tokens: t.reasoning, ..zero_stats() },
            Some(c) => Stats {
                input_tokens: t.input,
                output_tokens: t.output,
                reasoning_tokens: t.reasoning,
                cache_read_tokens: c.read,
                cache_creation_tokens: c.write,
                cached_tokens: c.read,
                ..zero_stats()
            },
        },
    };
    if msg.finish matches Some(f) && f@ == "tool-calls"@ {
        Stats { tool_calls: 1, ..base }
    } else {
        base
    }
}

/// The instant a message was created: its millisecond stamp, or the epoch when chrono cannot
/// represent it.
pub open spec fn opencode_date(created: u64) -> Timestamp {
    let ms = created as i64;
    if chrono_secs_in_range((ms as int / 1000) as i64) {
        instant_of_millis(ms as int)
    } else {
        Timestamp { secs: 0, nanos: 0 }
    }
}

/// `id`, a hyphen and the creation stamp: the text a message's local hash is taken of.
pub open spec fn stamp_text(id: Seq<char>, created: u64) -> Seq<char> {
    id + seq!['-'] + decimal(created as nat)
}

/// What a stored message becomes in project `project`, with text `content`; none for a role
/// that is neither the user's nor the assistant's. Its cost is asked of the model's prices.
pub open spec fn opencode_message(msg: OpenCodeMessageData, project: Seq<char>, content: Option<Seq<char>>) -> Option<PricedMessageView> {
    match role_named(lowercase_of(msg.role@)) {
        None => None,
        Some(role) => {
            let stats = opencode_stats(msg);
            let model = opencode_model(msg);
            Some(PricedMessageView {
                message: MessageView {
                    application: Application::OpenCode,
                    date: opencode_date(msg.time.created),
                    project_hash: text_fingerprint(project),
                    conversation_hash: text_fingerprint(msg.session_id@),
                    local_hash: Some(text_fingerprint(stamp_text(msg.id@, msg.time.created))),
                    global_hash: text_fingerprint("opencode-"@ + stamp_text(msg.id@, msg.time.created)),
                    model: Some(model),
                    stats,
                    role,
                    content,
                },
                usage: Some(CostQueryView {
                    model,
                    input_tokens: stats.input_tokens,
                    output_tokens: stats.output_tokens,
                    cache_creation_tokens: stats.cache_creation_tokens,
                    cache_read_tokens: stats.cache_read_tokens,
                }),
            })
        },
    }
}

fn copy_string(s: &String) -> (r: String)
    ensures
        r@ == s@,
{
    s.clone()
}

impl OpenCodeAnalyzer {
    /// Converts a stored message (see [`opencode_message`]).
    pub fn convert_opencode_message_data(
        &self,
        msg: &OpenCodeMessageData,
        project_path: &str,
        content: Option<String>,
    ) -> (r: Option<PricedMessage>)
        ensures
            match r {
                Some(p) => opencode_message(*msg, project_path@, opt_view(content)) == Some(p@),
                None => opencode_message(*msg, project_path@, opt_view(content)) is None,
            },
    {
        let lower = lowercase(msg.role.as_str());
        let role = if str_eq(lower.as_str(), "user") {
            MessageRole::User
        } else if str_eq(lower.as_str(), "assistant") || str_eq(lower.as_str(), "ai") {
            MessageRole::Assistant
        } else {
            return None;
        };
        let project_hash = hash_text(project_path);
        let conversation_hash = hash_text(msg.session_id.as_str());
        let mut stamp = chars_of(msg.id.as_str());
        stamp.push('-');
        let created = decimal_chars(msg.time.created);
        append_chars(&mut stamp, created.as_slice());
        let local_hash = hash_chars(stamp.as_slice());
        let mut global = chars_of("opencode-");
        append_chars(&mut global, stamp.as_slice());
        let global_hash = hash_chars(global.as_slice());
        let model = match &msg.model_id {
            Some(m) => copy_string(m),
            None => match &msg.model {
                Some(mm) => copy_string(&mm.model_id),
                None => "opencode-zen".to_owned(),
            },
        };
        let mut stats = Stats::zero();
        match &msg.tokens {
            Some(t) => {
                stats.input_tokens = t.input;
                stats.output_tokens = t.output;
                stats.reasoning_tokens = t.reasoning;
                match &t.cache {
                    Some(c) => {
                        stats.cache_read_tokens = c.read;
                        stats.cache_creation_tokens = c.write;
                        stats.cached_tokens = c.read;
                    },
                    None => {},
                }
            },
            None => {},
        }
        match &msg.finish {
            Some(f) => {
                if str_eq(f.as_str(), "tool-calls") {
                    stats.tool_calls = 1;
                }
            },
            None => {},
        }
        let date = match timestamp_from_millis(msg.time.created as i64) {
            Some(t) => t,
            None => Timestamp { secs: 0, nanos: 0 },
        };
        let usage = CostQuery {
            model: copy_string(&model),
            input_tokens: stats.input_tokens,
            output_tokens: stats.output_tokens,
            cache_creation_tokens: stats.cache_creation_tokens,
            cache_read_tokens: stats.cache_read_tokens,
        };
        proof {
            assert(global@ =~= "opencode-"@ + stamp_text(msg.id@, msg.time.created));
            assert(stamp@ =~= stamp_text(msg.id@, msg.time.created));
            assert(stats == opencode_stats(*msg));
        }
        Some(PricedMessage {
            message: ConversationMessage {
                application: Application::OpenCode,
                date,
                project_hash,
                conversation_hash,
                local_hash: Some(local_hash),
                global_hash,
                model: Some(model),
                stats,
                role,
                content,
            },
            usage: Some(usage),
        })
    }
}

/// The text parts of a message that hold more than whitespace, joined by single spaces; none
/// when there are none.
pub open spec fn parts_text(parts: Seq<OpenCodePart>, n: int) -> Seq<Seq<char>>
    decreases n,
{
    if n <= 0 {
        Seq::empty()
    } else {
        let prev = parts_text(parts, n - 1);
        let p = parts[n - 1];
        if p.part_type@ != "text"@ {
            prev
        } else {
            match p.text {
                Some(t) => if trim(t@).len() > 0 { prev.push(t@) } else { prev },
                None => prev,
            }
        }
    }
}

/// Texts joined by single spaces.
pub open spec fn join_spaced(ts: Seq<Seq<char>>) -> Seq<char>
    decreases ts.len(),
{
    if ts.len() == 0 {
        Seq::empty()
    } else if ts.len() == 1 {
        ts[0]
    } else {
        join_spaced(ts.drop_last()) + seq![' '] + ts.last()
    }
}

/// The text of a message, from its parts in the order they were read: the non-blank text parts
/// joined by single spaces, or none.
pub fn message_text_from_parts(parts: &[OpenCodePart]) -> (r: Option<String>)
    ensures
        match r {
            Some(t) => parts_text(parts@, parts.len() as int).len() > 0 && t@ == join_spaced(
                parts_text(parts@, parts.len() as int),
            ),
            None => parts_text(parts@, parts.len() as int).len() == 0,
        },
{
    let mut out: Vec<char> = Vec::new();
    let mut count: usize = 0;
    let mut i: usize = 0;
    while i < parts.len()
        invariant
            i <= parts.len(),
            count == parts_text(parts@, i as int).len(),
            count <= i,
            out@ == join_spaced(parts_text(parts@, i as int)),
        decreases parts.len() - i,
    {
        let p = &parts[i];
        if str_eq(p.part_type.as_str(), "text") {
            match &p.text {
                Some(t) => {
                    let tc = chars_of(t.as_str());
                    let trimmed = crate::text::trim_chars(tc.as_slice());
                    if trimmed.len() > 0 {
                        let ghost prev = parts_text(parts@, i as int);
                        if count > 0 {
                            out.push(' ');
                        }
                        append_chars(&mut out, tc.as_slice());
                        count = count + 1;
                        proof {
                            let cur = prev.push(t@);
                            assert(cur.drop_last() =~= prev);
                            if prev.len() == 0 {
                                assert(join_spaced(prev) == Seq::<char>::empty());
                                assert(out@ =~= t@);
                            }
                        }
                    }
                },
                None => {},
            }
        }
        i = i + 1;
    }
    if count == 0 {
        None
    } else {
        Some(string_of(out.as_slice()))
    }
}

/// Whether a stored file is a message record or a session record, by its path.
#[derive(Debug, Clone, Copy, PartialEq, Eq, Structural)]
pub enum StoredKind {
    Message,
    Session,
    Other,
}

/// The session directory recorded last for `id` among the first `n` sessions.
pub open spec fn session_directory(sessions: Seq<OpenCodeSession>, id: Seq<char>, n: int) -> Option<Seq<char>>
    decreases n,
{
    if n <= 0 {
        None
    } else if sessions[n - 1].id@ == id {
        Some(sessions[n - 1].directory@)
    } else {
        session_directory(sessions, id, n - 1)
    }
}

/// The project directory of a message's session, `unknown` when its session was not read.
pub open spec fn project_of(sessions: Seq<OpenCodeSession>, session_id: Seq<char>) -> Seq<char> {
    match session_directory(sessions, session_id, sessions.len() as int) {
        Some(d) => d,
        None => "unknown"@,
    }
}

/// The messages of the first `n` records, each converted within its session's project, the
/// later of two with the same global hash dropped; with the global hashes seen.
pub open spec fn assembled(
    sessions: Seq<OpenCodeSession>,
    records: Seq<(OpenCodeMessageData, Option<String>)>,
    n: int,
) -> (Seq<PricedMessageView>, Set<Seq<char>>)
    decreases n,
{
    if n <= 0 {
        (Seq::empty(), Set::empty())
    } else {
        let (out, seen) = assembled(sessions, records, n - 1);
        let (msg, content) = records[n - 1];
        match opencode_message(msg, project_of(sessions, msg.session_id@), opt_view(content)) {
            Some(p) => if seen.contains(p.message.global_hash) {
                (out, seen)
            } else {
                (out.push(p), seen.insert(p.message.global_hash))
            },
            None => (out, seen),
        }
    }
}

/// The views of priced messages.
pub open spec fn priced_views(v: Seq<PricedMessage>) -> Seq<PricedMessageView> {
    v.map_values(|p: PricedMessage| p@)
}

impl OpenCodeAnalyzer {
    /// Brings a store's records together: the message records in the order they were read, each
    /// with its text, converted within the project of its session (the session read last with
    /// that id, `unknown` if none), dropping any whose global hash came before.
    pub fn parse_conversations(
        &self,
        sessions: &[OpenCodeSession],
        records: Vec<(OpenCodeMessageData, Option<String>)>,
    ) -> (r: Vec<PricedMessage>)
        ensures
            priced_views(r@) == assembled(sessions@, records@, records.len() as int).0,
    {
        let mut dirs: StringHashMap<usize> = StringHashMap::new();
        let mut s: usize = 0;
        while s < sessions.len()
            invariant
                s <= sessions.len(),
                forall|id: Seq<char>| #[trigger] dirs@.contains_key(id) <==> session_directory(sessions@, id, s as int) is Some,
                forall|id: Seq<char>| dirs@.contains_key(id) ==> (#[trigger] dirs@[id]) < s && session_directory(
                    sessions@,
                    id,
                    s as int,
                ) == Some(sessions@[dirs@[id] as int].directory@),
            decreases sessions.len() - s,
        {
            dirs.insert(sessions[s].id.clone(), s);
            s = s + 1;
        }
        let mut out: Vec<PricedMessage> = Vec::new();
        let mut seen: StringHashSet = StringHashSet::new();
        let ghost n_records = records@;
        let mut k: usize = 0;
        while k < records.len()
            invariant
                k <= records.len(),
                records@ == n_records,
                forall|id: Seq<char>| #[trigger] dirs@.contains_key(id) <==> session_directory(sessions@, id, sessions.len() as int) is Some,
                forall|id: Seq<char>| dirs@.contains_key(id) ==> (#[trigger] dirs@[id]) < sessions.len() && session_directory(
                    sessions@,
                    id,
                    sessions.len() as int,
                ) == Some(sessions@[dirs@[id] as int].directory@),
                (priced_views(out@), seen@) == assembled(sessions@, records@, k as int),
            decreases records.len() - k,
        {
            let (msg, content) = &records[k];
            let project: String = match dirs.get(msg.session_id.as_str()) {
                Some(i) => copy_string(&sessions[*i].directory),
                None => "unknown".to_owned(),
            };
            proof {
                assert(project@ == project_of(sessions@, msg.session_id@));
            }
            let content_copy = crate::types::copy_opt_string(content);
            let converted = self.convert_opencode_message_data(msg, project.as_str(), content_copy);
            match converted {
                Some(p) => {
                    let fresh = seen.insert(p.message.global_hash.clone());
                    if fresh {
                        let ghost before = out@;
                        out.push(p);
                        proof {
                            assert(priced_views(out@) =~= priced_views(before).push(p@));
                        }
                    }
                },
                None => {},
            }
            k = k + 1;
        }
        out
    }
}

/// Where a stored file belongs: message records lie under `message/`, session records under
/// `session/`.
pub fn stored_kind(path: &str) -> (r: StoredKind)
    ensures
        r == if crate::warp::health::contains_text(path@, "message/"@) {
            StoredKind::Message
        } else if crate::warp::health::contains_text(path@, "session/"@) {
            StoredKind::Session
        } else {
            StoredKind::Other
        },
{
    if crate::warp::health::text_contains(path, "message/") {
        StoredKind::Message
    } else if crate::warp::health::text_contains(path, "session/") {
        StoredKind::Session
    } else {
        StoredKind::Other
    }
}

} // verus!
