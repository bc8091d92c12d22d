//! The analyzer for Kiro CLI conversations, which Kiro stores in the shape Amazon Q uses.
use vstd::prelude::*;
use crate::analyzer::Analyzer;
use crate::analyzers::amazon_q::{
    exchange_date, exchange_usage, global_id, local_id, priced_views, project_of_path, q_date, q_global, q_local,
    q_model, q_project, q_tokens, q_usage, QRequestMetadata, QToolResultContent, QToolUse, QToolUseResult,
    QUserContent, QUserMessage,
};
use crate::hashing::{hash_text, text_fingerprint};
use crate::text::{append_chars, chars_of, string_of};
use crate::time::Timestamp;
use crate::types::{Application, ConversationMessage, MessageRole, MessageView, PricedMessage, PricedMessageView, Stats, zero_stats};

verus! {

/// The analyzer for Kiro CLI conversations.
pub struct KiroCliAnalyzer;

impl Analyzer for KiroCliAnalyzer {
    open spec fn name_spec(&self) -> Seq<char> {
        "Kiro CLI"@
    }

    fn display_name(&self) -> (s: &'static str) {
        "Kiro CLI"
    }
}

/// An assistant turn that used tools.
#[derive(Debug, Clone)]
pub struct KiroToolUseMessage {
    pub message_id: String,
    pub content: String,
    pub tool_uses: Vec<QToolUse>,
}

/// An assistant turn that answered.
#[derive(Debug, Clone)]
pub struct KiroResponseMessage {
    pub message_id: Option<String>,
    pub content: String,
}

/// An assistant turn: either kind, as Kiro records it.
#[derive(Debug, Clone)]
pub struct KiroAssistantMessage {
    pub tool_use: Option<KiroToolUseMessage>,
    pub response: Option<KiroResponseMessage>,
}

/// One exchange of a conversation.
#[derive(Debug, Clone)]
pub struct KiroHistoryEntry {
    pub user: QUserMessage,
    pub assistant: KiroAssistantMessage,
    pub request_metadata: Option<QRequestMetadata>,
}

/// A stored conversation.
#[derive(Debug, Clone)]
pub struct KiroConversation {
    pub conversation_id: String,
    pub next_message: Option<String>,
    pub history: Vec<KiroHistoryEntry>,
}

/// The lines of the first `n` results of tool uses.
pub open spec fn result_items(items: Seq<QToolResultContent>, n: int) -> Seq<char>
    decreases n,
{
    if n <= 0 {
        Seq::empty()
    } else {
        result_items(items, n - 1) + match items[n - 1] {
            QToolResultContent::Text(t) => t@,
            QToolResultContent::Json(j) => "JSON: "@ + j@,
        } + seq!['\n']
    }
}

/// The text of the first `n` tool results.
pub open spec fn results_text(rs: Seq<QToolUseResult>, n: int) -> Seq<char>
    decreases n,
{
    if n <= 0 {
        Seq::empty()
    } else {
        results_text(rs, n - 1) + "Tool Result ("@ + rs[n - 1].tool_use_id@ + ")\n"@ + result_items(
            rs[n - 1].content@,
            rs[n - 1].content.len() as int,
        )
    }
}

/// The lines naming the first `n` cancelled tools.
pub open spec fn cancelled_text(rs: Seq<QToolUseResult>, n: int) -> Seq<char>
    decreases n,
{
    if n <= 0 { Seq::empty() } else { cancelled_text(rs, n - 1) + "Cancelled Tool: "@ + rs[n - 1].tool_use_id@ + seq!['\n'] }
}

/// The text of a user turn: the prompt with the working directory and any additional context in
/// brackets; the results of tool uses; or the cancelled tool uses.
pub open spec fn kiro_user_text(u: QUserMessage) -> Seq<char> {
    match u.content {
        QUserContent::Prompt { prompt } => prompt@ + match u.current_working_directory {
            Some(cwd) => "\n\n[Working Directory: "@ + cwd@ + seq![']'],
            None => Seq::empty(),
        } + match u.additional_context {
            Some(a) => if a@.len() > 0 { "\n\n[Additional Context: "@ + a@ + seq![']'] } else { Seq::empty() },
            None => Seq::empty(),
        },
        QUserContent::ToolUseResults { tool_use_results } => results_text(tool_use_results@, tool_use_results.len() as int),
        QUserContent::CancelledToolUses { prompt, tool_use_results } => "Cancelled Tool Uses\nPrompt: "@ + prompt@ + seq!['\n']
            + cancelled_text(tool_use_results@, tool_use_results.len() as int),
    }
}

/// Writes the text of a user turn (see [`kiro_user_text`]).
pub fn format_kiro_user_message(u: &QUserMessage) -> (r: String)
    ensures
        r@ == kiro_user_text(*u),
{
    let mut out: Vec<char> = Vec::new();
    match &u.content {
        QUserContent::Prompt { prompt } => {
            out = chars_of(prompt.as_str());
            match &u.current_working_directory {
                Some(cwd) => {
                    let a = chars_of("\n\n[Working Directory: ");
                    append_chars(&mut out, a.as_slice());
                    let c = chars_of(cwd.as_str());
                    append_chars(&mut out, c.as_slice());
                    out.push(']');
                },
                None => {},
            }
            match &u.additional_context {
                Some(add) => {
                    let ac = chars_of(add.as_str());
                    if ac.len() > 0 {
                        let a = chars_of("\n\n[Additional Context: ");
                        append_chars(&mut out, a.as_slice());
                        append_chars(&mut out, ac.as_slice());
                        out.push(']');
                    }
                },
                None => {},
            }
            proof {
                assert(out@ =~= kiro_user_text(*u));
            }
        },
        QUserContent::ToolUseResults { tool_use_results } => {
            let mut k: usize = 0;
            while k < tool_use_results.len()
                invariant
                    k <= tool_use_results.len(),
                    out@ == results_text(tool_use_results@, k as int),
                decreases tool_use_results.len() - k,
            {
                let r = &tool_use_results[k];
                let ghost before = out@;
                let a = chars_of("Tool Result (");
                append_chars(&mut out, a.as_slice());
                let id = chars_of(r.tool_use_id.as_str());
                append_chars(&mut out, id.as_slice());
                let b = chars_of(")\n");
                append_chars(&mut out, b.as_slice());
                let ghost mid = out@;
                let mut j: usize = 0;
                while j < r.content.len()
                    invariant
                        j <= r.content.len(),
                        out@ == mid + result_items(r.content@, j as int),
                    decreases r.content.len() - j,
                {
                    match &r.content[j] {
                        QToolResultContent::Text(t) => {
                            let tc = chars_of(t.as_str());
                            append_chars(&mut out, tc.as_slice());
                        },
                        QToolResultContent::Json(js) => {
                            let p = chars_of("JSON: ");
                            append_chars(&mut out, p.as_slice());
                            let jc = chars_of(js.as_str());
                            append_chars(&mut out, jc.as_slice());
                        },
                    }
                    out.push('\n');
                    j = j + 1;
                    proof {
                        assert(out@ =~= mid + result_items(r.content@, j as int));
                    }
                }
                k = k + 1;
                proof {
                    assert(out@ =~= results_text(tool_use_results@, k as int));
                }
            }
        },
        QUserContent::CancelledToolUses { prompt, tool_use_results } => {
            out = chars_of("Cancelled Tool Uses\nPrompt: ");
            let pc = chars_of(prompt.as_str());
            append_chars(&mut out, pc.as_slice());
            out.push('\n');
            let ghost head = out@;
            let mut k: usize = 0;
            while k < tool_use_results.len()
                invariant
                    k <= tool_use_results.len(),
                    out@ == head + cancelled_text(tool_use_results@, k as int),
                decreases tool_use_results.len() - k,
            {
                let a = chars_of("Cancelled Tool: ");
                append_chars(&mut out, a.as_slice());
                let id = chars_of(tool_use_results[k].tool_use_id.as_str());
                append_chars(&mut out, id.as_slice());
                out.push('\n');
                k = k + 1;
                proof {
                    assert(out@ =~= head + cancelled_text(tool_use_results@, k as int));
                }
            }
            proof {
                assert(out@ =~= kiro_user_text(*u));
            }
        },
    }
    string_of(out.as_slice())
}

/// The lines of the first `n` tools of a tool-using turn.
pub open spec fn kiro_tool_lines(ts: Seq<QToolUse>, n: int) -> Seq<char>
    decreases n,
{
    if n <= 0 {
        Seq::empty()
    } else {
        kiro_tool_lines(ts, n - 1) + "\n\n[Tool Use: "@ + ts[n - 1].name@ + "]\nArgs: "@ + ts[n - 1].args@
    }
}

/// The text of an assistant turn: a tool-using turn's content and its tools, else the response,
/// else a note that the turn is empty.
pub open spec fn kiro_assistant_text(a: KiroAssistantMessage) -> Seq<char> {
    match a.tool_use {
        Some(t) => t.content@ + kiro_tool_lines(t.tool_uses@, t.tool_uses.len() as int),
        None => match a.response {
            Some(r) => r.content@,
            None => "Empty assistant message"@,
        },
    }
}

/// Writes the text of an assistant turn (see [`kiro_assistant_text`]).
pub fn format_kiro_assistant_message(a: &KiroAssistantMessage) -> (r: String)
    ensures
        r@ == kiro_assistant_text(*a),
{
    match &a.tool_use {
        Some(t) => {
            let mut out = chars_of(t.content.as_str());
            let mut k: usize = 0;
            while k < t.tool_uses.len()
                invariant
                    k <= t.tool_uses.len(),
                    out@ == t.content@ + kiro_tool_lines(t.tool_uses@, k as int),
                decreases t.tool_uses.len() - k,
            {
                let a1 = chars_of("\n\n[Tool Use: ");
                append_chars(&mut out, a1.as_slice());
                let nc = chars_of(t.tool_uses[k].name.as_str());
                append_chars(&mut out, nc.as_slice());
                let a2 = chars_of("]\nArgs: ");
                append_chars(&mut out, a2.as_slice());
                let ac = chars_of(t.tool_uses[k].args.as_str());
                append_chars(&mut out, ac.as_slice());
                k = k + 1;
                proof {
                    assert(out@ =~= t.content@ + kiro_tool_lines(t.tool_uses@, k as int));
                }
            }
            string_of(out.as_slice())
        },
        None => match &a.response {
            Some(r) => r.content.clone(),
            None => "Empty assistant message".to_owned(),
        },
    }
}

/// The two messages of exchange `idx`: the user's turn and the assistant's.
pub open spec fn kiro_entry_messages(
    e: KiroHistoryEntry,
    idx: int,
    project: Seq<char>,
    conv: Seq<char>,
    now: Timestamp,
) -> Seq<PricedMessageView> {
    let date = q_date(e.user.timestamp, e.request_metadata, now);
    let (i, o) = q_tokens(e.request_metadata);
    seq![
        PricedMessageView {
            message: MessageView {
                application: Application::KiroCli,
                date,
                project_hash: project,
                conversation_hash: conv,
                local_hash: Some(q_local(conv, "user"@, idx)),
                global_hash: q_global(project, conv, "user"@, idx, date),
                model: None,
                stats: zero_stats(),
                role: MessageRole::User,
                content: Some(kiro_user_text(e.user)),
            },
            usage: None,
        },
        PricedMessageView {
            message: MessageView {
                application: Application::KiroCli,
                date,
                project_hash: project,
                conversation_hash: conv,
                local_hash: Some(q_local(conv, "assistant"@, idx)),
                global_hash: q_global(project, conv, "assistant"@, idx, date),
                model: q_model(e.request_metadata),
                stats: Stats { input_tokens: i, output_tokens: o, ..zero_stats() },
                role: MessageRole::Assistant,
                content: Some(kiro_assistant_text(e.assistant)),
            },
            usage: q_usage(e.request_metadata),
        },
    ]
}

/// The messages of the first `n` exchanges.
pub open spec fn kiro_messages(h: Seq<KiroHistoryEntry>, project: Seq<char>, conv: Seq<char>, now: Timestamp, n: int) -> Seq<PricedMessageView>
    decreases n,
{
    if n <= 0 { Seq::empty() } else { kiro_messages(h, project, conv, now, n - 1) + kiro_entry_messages(h[n - 1], n - 1, project, conv, now) }
}

impl KiroCliAnalyzer {
    pub fn new() -> (a: Self) {
        KiroCliAnalyzer
    }

    /// The messages of a conversation stored under `project_path` (see [`kiro_messages`]), two
    /// per exchange; `now` stands in for exchanges with no usable time.
    pub fn parse_kiro_cli_conversation(project_path: &str, conversation: &KiroConversation, now: Timestamp) -> (r: Vec<PricedMessage>)
        requires
            now.wf(),
        ensures
            priced_views(r@) == kiro_messages(
                conversation.history@,
                q_project(project_path@),
                text_fingerprint(conversation.conversation_id@),
                now,
                conversation.history.len() as int,
            ),
    {
        let project = project_of_path(project_path);
        let conv = hash_text(conversation.conversation_id.as_str());
        let mut out: Vec<PricedMessage> = Vec::new();
        let mut idx: usize = 0;
        while idx < conversation.history.len()
            invariant
                idx <= conversation.history.len(),
                now.wf(),
                project@ == q_project(project_path@),
                conv@ == text_fingerprint(conversation.conversation_id@),
                priced_views(out@) == kiro_messages(conversation.history@, project@, conv@, now, idx as int),
            decreases conversation.history.len() - idx,
        {
            let e = &conversation.history[idx];
            let date = exchange_date(&e.user.timestamp, &e.request_metadata, now);
            let model = match &e.request_metadata {
                Some(m) => crate::types::copy_opt_string(&m.model_id),
                None => None,
            };
            let (i, o, usage) = exchange_usage(&e.request_metadata);
            let mut stats = Stats::zero();
            stats.input_tokens = i;
            stats.output_tokens = o;
            let user = PricedMessage {
                message: ConversationMessage {
                    application: Application::KiroCli,
                    date,
                    project_hash: project.clone(),
                    conversation_hash: conv.clone(),
                    local_hash: Some(local_id(&conv, "user", idx)),
                    global_hash: global_id(&project, &conv, "user", idx, date),
                    model: None,
                    stats: Stats::zero(),
                    role: MessageRole::User,
                    content: Some(format_kiro_user_message(&e.user)),
                },
                usage: None,
            };
            let assistant = PricedMessage {
                message: ConversationMessage {
                    application: Application::KiroCli,
                    date,
                    project_hash: project.clone(),
                    conversation_hash: conv.clone(),
                    local_hash: Some(local_id(&conv, "assistant", idx)),
                    global_hash: global_id(&project, &conv, "assistant", idx, date),
                    model,
                    stats,
                    role: MessageRole::Assistant,
                    content: Some(format_kiro_assistant_message(&e.assistant)),
                },
                usage,
            };
            let ghost before = out@;
            out.push(user);
            out.push(assistant);
            proof {
                assert(priced_views(out@) =~= priced_views(before) + seq![user@, assistant@]);
                assert(seq![user@, assistant@] =~= kiro_entry_messages(*e, idx as int, project@, conv@, now));
            }
            idx = idx + 1;
        }
        out
    }
}

} // verus!
