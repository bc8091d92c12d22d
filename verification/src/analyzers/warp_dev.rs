//! The analyzer for the Warp terminal's network log: finding the JSON bodies the log holds,
//! and what each logged entry says was asked and run.
use vstd::prelude::*;
use vstd::utf8::encode_utf8;
use crate::analyzer::Analyzer;
use crate::hashing::{hash_chars, hash_text, text_fingerprint};
use crate::json::str_eq;
use crate::text::{find_from, lemma_find_from_range, find_pattern, append_chars, chars_of, signed_decimal, signed_decimal_chars, string_of, trim, trim_chars};
use crate::time::{Timestamp, instant_of_rfc3339, rfc3339_text, utc_display_text, parse_instant, format_rfc3339, format_utc_display};
use crate::json::{json_string_field, json_nested_string_field, json_field_string, json_nested_field_string};
use crate::types::{Application, ConversationMessage, MessageRole, MessageView, Stats, zero_stats};

verus! {

/// The analyzer for the Warp terminal's network log.
pub struct WarpDevAnalyzer;

impl WarpDevAnalyzer {
    pub fn new() -> (a: Self) {
        WarpDevAnalyzer
    }
}

impl Analyzer for WarpDevAnalyzer {
    open spec fn name_spec(&self) -> Seq<char> {
        "Warp"@
    }

    fn display_name(&self) -> (s: &'static str) {
        "Warp"
    }
}

/// Scanning `cs` from `i` with `depth` braces open, the position of the brace that closes the
/// last of them.
pub open spec fn closing_brace(cs: Seq<char>, i: int, depth: int) -> Option<int>
    decreases cs.len() - i,
{
    if i < 0 || i >= cs.len() {
        None
    } else if cs[i] == '{' {
        closing_brace(cs, i + 1, depth + 1)
    } else if cs[i] == '}' {
        if depth - 1 == 0 { Some(i) } else { closing_brace(cs, i + 1, depth - 1) }
    } else {
        closing_brace(cs, i + 1, depth)
    }
}

pub proof fn lemma_closing_brace_range(cs: Seq<char>, i: int, depth: int)
    ensures
        closing_brace(cs, i, depth) matches Some(e) ==> i <= e < cs.len(),
    decreases cs.len() - i,
{
    if 0 <= i < cs.len() {
        if cs[i] == '{' {
            lemma_closing_brace_range(cs, i + 1, depth + 1);
        } else if cs[i] == '}' {
            if depth - 1 != 0 {
                lemma_closing_brace_range(cs, i + 1, depth - 1);
            }
        } else {
            lemma_closing_brace_range(cs, i + 1, depth);
        }
    }
}

/// The marker that precedes each JSON body in the log: `Body {`.
pub open spec fn body_marker() -> Seq<char> {
    seq!['B', 'o', 'd', 'y', ' ', '{']
}

/// The JSON bodies of the log from `pos` on: after each `Body ` marker, the text from its `{`
/// through the brace that closes it; a marker whose brace never closes is skipped.
pub open spec fn log_bodies(cs: Seq<char>, pos: int) -> Seq<Seq<char>>
    decreases cs.len() - pos,
{
    if pos < 0 || pos > cs.len() {
        Seq::empty()
    } else {
        match find_from(cs, body_marker(), pos) {
            None => Seq::empty(),
            Some(f) => {
                proof {
                    lemma_find_from_range(cs, body_marker(), pos);
                    lemma_closing_brace_range(cs, f + 5, 0);
                }
                match closing_brace(cs, f + 5, 0) {
                    Some(e) => seq![cs.subrange(f + 5, e + 1)] + log_bodies(cs, e + 1),
                    None => log_bodies(cs, f + 6),
                }
            },
        }
    }
}

fn find_closing(cs: &Vec<char>, start: usize) -> (r: Option<usize>)
    requires
        start <= cs.len(),
    ensures
        match r {
            Some(e) => closing_brace(cs@, start as int, 0) == Some(e as int),
            None => closing_brace(cs@, start as int, 0) is None,
        },
{
    let mut depth: i128 = 0;
    let mut i: usize = start;
    while i < cs.len()
        invariant
            start <= i <= cs.len(),
            -(i - start) <= depth <= i - start,
            closing_brace(cs@, start as int, 0) == closing_brace(cs@, i as int, depth as int),
        decreases cs.len() - i,
    {
        if cs[i] == '{' {
            depth = depth + 1;
        } else if cs[i] == '}' {
            if depth - 1 == 0 {
                return Some(i);
            }
            depth = depth - 1;
        }
        i = i + 1;
    }
    None
}

/// The JSON bodies of a Warp network log (see [`log_bodies`]), positions counted in characters.
pub fn extract_log_bodies(content: &str) -> (r: Vec<String>)
    ensures
        r@.map_values(|s: String| s@) == log_bodies(content@, 0),
{
    let cs = chars_of(content);
    let mut marker: Vec<char> = Vec::new();
    marker.push('B');
    marker.push('o');
    marker.push('d');
    marker.push('y');
    marker.push(' ');
    marker.push('{');
    proof {
        assert(marker@ =~= body_marker());
    }
    let mut out: Vec<String> = Vec::new();
    let mut pos: usize = 0;
    while pos <= cs.len()
        invariant
            pos <= cs.len() + 1,
            cs@ == content@,
            marker@ == body_marker(),
            log_bodies(cs@, 0) == out@.map_values(|s: String| s@) + log_bodies(cs@, pos as int),
        decreases cs.len() + 1 - pos,
    {
        proof {
            lemma_find_from_range(cs@, marker@, pos as int);
        }
        match find_pattern(&cs, &marker, pos) {
            None => {
                proof {
                    assert(log_bodies(cs@, pos as int) =~= Seq::<Seq<char>>::empty());
                    assert(out@.map_values(|s: String| s@) + Seq::<Seq<char>>::empty() =~= out@.map_values(|s: String| s@));
                }
                return out;
            },
            Some(f) => {
                let start = f + 5;
                proof {
                    lemma_closing_brace_range(cs@, start as int, 0);
                }
                match find_closing(&cs, start) {
                    Some(e) => {
                        let mut body: Vec<char> = Vec::new();
                        let mut k: usize = start;
                        while k <= e
                            invariant
                                start <= k <= e + 1,
                                e < cs.len(),
                                body@ == cs@.subrange(start as int, k as int),
                            decreases e + 1 - k,
                        {
                            body.push(cs[k]);
                            k = k + 1;
                            proof {
                                assert(body@ =~= cs@.subrange(start as int, k as int));
                            }
                        }
                        let ghost before = out@;
                        out.push(string_of(body.as_slice()));
                        proof {
                            let bv = cs@.subrange(start as int, e + 1);
                            assert(out@.map_values(|s: String| s@) =~= before.map_values(|s: String| s@).push(bv));
                            assert(log_bodies(cs@, pos as int) == seq![bv] + log_bodies(cs@, e + 1));
                            assert(before.map_values(|s: String| s@) + log_bodies(cs@, pos as int) =~= out@.map_values(
                                |s: String| s@,
                            ) + log_bodies(cs@, e + 1));
                        }
                        pos = e + 1;
                    },
                    None => {
                        pos = start + 1;
                    },
                }
            },
        }
    }
    proof {
        assert(log_bodies(cs@, pos as int) =~= Seq::<Seq<char>>::empty());
        assert(out@.map_values(|s: String| s@) + Seq::<Seq<char>>::empty() =~= out@.map_values(|s: String| s@));
    }
    out
}

/// A JSON body of the log, as far as the analyzer reads it.
#[derive(Debug, Clone)]
pub struct WarpLogEntry {
    /// Batched telemetry events.
    pub batch: Option<Vec<WarpBatchItem>>,
    /// A command run directly, and its output.
    pub command: Option<String>,
    pub output: Option<String>,
    pub exit_code: Option<i32>,
    pub context_messages: Option<Vec<String>>,
}

/// One telemetry event.
#[derive(Debug, Clone)]
pub struct WarpBatchItem {
    pub event_type: String,
    pub properties: Option<WarpProperties>,
    pub original_timestamp: Option<String>,
}

/// What a telemetry event carries.
#[derive(Debug, Clone)]
pub struct WarpProperties {
    pub actual_next_command_run: Option<String>,
    /// One JSON object per line, each a command from the shell history.
    pub history_context: Option<String>,
    pub ai_suggestions_request: Option<WarpAiSuggestionsRequest>,
}

/// A request for AI input suggestions.
#[derive(Debug, Clone)]
pub struct WarpAiSuggestionsRequest {
    /// JSON texts, each an input and the output it got.
    pub context_messages: Option<Vec<String>>,
}

/// The characters of the first twenty bytes of `s` (all of it, if shorter); none when the
/// twentieth byte falls inside a character, where slicing the `str` would panic.
pub open spec fn lead20(s: Seq<char>) -> Option<Seq<char>> {
    let b = encode_utf8(s);
    let k = if b.len() < 20 { b.len() as int } else { 20 };
    if vstd::utf8::is_char_boundary(b, k) {
        Some(vstd::utf8::decode_utf8(b.subrange(0, k)))
    } else {
        None
    }
}

/// The first twenty bytes of `s` (see [`lead20`]).
fn lead_twenty(s: &str) -> (r: Option<Vec<char>>)
    ensures
        match r {
            Some(v) => lead20(s@) == Some(v@),
            None => lead20(s@) is None,
        },
{
    let n = s.as_bytes().len();
    let k: usize = if n < 20 { n } else { 20 };
    if !s.is_char_boundary(k) {
        return None;
    }
    let (head, _) = s.split_at(k);
    proof {
        vstd::utf8::encode_utf8_decode_utf8(head@);
    }
    Some(chars_of(head))
}

/// A Warp message: dated `date`, in project `project`, in conversation `conv`, with global
/// identity `global` (each hashed), saying `content`.
pub open spec fn warp_msg(
    date: Timestamp,
    project: Seq<char>,
    conv: Seq<char>,
    global: Seq<char>,
    role: MessageRole,
    content: Seq<char>,
    model: Option<Seq<char>>,
    stats: Stats,
) -> MessageView {
    MessageView {
        application: Application::Warp,
        date,
        project_hash: text_fingerprint(project),
        conversation_hash: text_fingerprint(conv),
        local_hash: None,
        global_hash: text_fingerprint(global),
        model,
        stats,
        role,
        content: Some(content),
    }
}

/// The counters of a command the terminal ran.
pub open spec fn command_stats() -> Stats {
    Stats { terminal_commands: 1, ..zero_stats() }
}

/// The counters of an answer from Warp's AI.
pub open spec fn ai_stats() -> Stats {
    Stats { tool_calls: 1, ..zero_stats() }
}

/// Both sequences, one after the other, when both are there.
pub open spec fn opt_cat(a: Option<Seq<MessageView>>, b: Option<Seq<MessageView>>) -> Option<Seq<MessageView>> {
    match (a, b) {
        (Some(x), Some(y)) => Some(x + y),
        _ => None,
    }
}

/// The messages of a command run directly at `now` (a command with its output): the command,
/// and its execution.
pub open spec fn direct_messages(e: WarpLogEntry, now: Timestamp, home: Seq<char>) -> Option<Seq<MessageView>> {
    match (e.command, e.output) {
        (Some(cmd), Some(_)) => match lead20(cmd@) {
            None => None,
            Some(p) => {
                let conv = utc_display_text(now.secs, now.nanos) + cmd@;
                let stamp = signed_decimal(now.secs as int) + seq!['_'] + p;
                Some(seq![
                    warp_msg(now, home, conv, "warp_cmd_"@ + stamp, MessageRole::User, cmd@, None, zero_stats()),
                    warp_msg(now, home, conv, "warp_out_"@ + stamp, MessageRole::Assistant, "Command executed"@, Some("Warp Terminal"@), command_stats()),
                ])
            },
        },
        _ => Some(Seq::empty()),
    }
}

/// The timestamp text of an event: its own, or `now` in RFC 3339.
pub open spec fn event_stamp(item: WarpBatchItem, now: Timestamp) -> Seq<char> {
    match item.original_timestamp {
        Some(s) => s@,
        None => rfc3339_text(now.secs, now.nanos),
    }
}

/// The messages of the command an event reports run, when its timestamp parses.
pub open spec fn run_messages(item: WarpBatchItem, p: WarpProperties, now: Timestamp, home: Seq<char>) -> Option<Seq<MessageView>> {
    match p.actual_next_command_run {
        None => Some(Seq::empty()),
        Some(cmd) => {
            let ts = event_stamp(item, now);
            match instant_of_rfc3339(ts) {
                None => Some(Seq::empty()),
                Some(t) => match lead20(cmd@) {
                    None => None,
                    Some(l) => Some(seq![
                        warp_msg(t, home, ts, ts + seq!['_'] + l + "_command"@, MessageRole::User, cmd@, None, zero_stats()),
                        warp_msg(t, home, ts, ts + seq!['_'] + l + "_output"@, MessageRole::Assistant, "Command executed"@, Some("Warp Terminal"@), command_stats()),
                    ]),
                },
            }
        },
    }
}

/// A line without the carriage return that ended it.
pub open spec fn strip_cr(l: Seq<char>) -> Seq<char> {
    if l.len() > 0 && l.last() == '\r' { l.drop_last() } else { l }
}

/// The complete lines of the first `n` characters of `s`, and the partial line after them.
pub open spec fn lines_acc(s: Seq<char>, n: int) -> (Seq<Seq<char>>, Seq<char>)
    decreases n,
{
    if n <= 0 {
        (Seq::empty(), Seq::empty())
    } else {
        let (ls, cur) = lines_acc(s, n - 1);
        if s[n - 1] == '\n' { (ls.push(strip_cr(cur)), Seq::empty()) } else { (ls, cur.push(s[n - 1])) }
    }
}

/// The lines of `s` as `str::lines` yields them: split at each `\n` (dropping a `\r` right
/// before it), with no empty line after a final line ending.
pub open spec fn text_lines(s: Seq<char>) -> Seq<Seq<char>> {
    let (ls, cur) = lines_acc(s, s.len() as int);
    if cur.len() > 0 { ls.push(cur) } else { ls }
}

/// The lines of `s` (see [`text_lines`]).
pub fn split_lines(s: &str) -> (r: Vec<Vec<char>>)
    ensures
        r@.map_values(|l: Vec<char>| l@) == text_lines(s@),
{
    let cs = chars_of(s);
    let mut out: Vec<Vec<char>> = Vec::new();
    let mut cur: Vec<char> = Vec::new();
    let mut i: usize = 0;
    while i < cs.len()
        invariant
            i <= cs.len(),
            cs@ == s@,
            (out@.map_values(|l: Vec<char>| l@), cur@) == lines_acc(cs@, i as int),
        decreases cs.len() - i,
    {
        if cs[i] == '\n' {
            let mut line = cur;
            let len = line.len();
            if len > 0 && line[len - 1] == '\r' {
                line.pop();
            }
            let ghost before = out@;
            out.push(line);
            proof {
                assert(out@.map_values(|l: Vec<char>| l@) =~= before.map_values(|l: Vec<char>| l@).push(line@));
            }
            cur = Vec::new();
        } else {
            cur.push(cs[i]);
        }
        i = i + 1;
    }
    if cur.len() > 0 {
        let ghost before = out@;
        out.push(cur);
        proof {
            assert(out@.map_values(|l: Vec<char>| l@) =~= before.map_values(|l: Vec<char>| l@).push(cur@));
        }
    }
    out
}

/// The messages of the shell-history lines `lines[..n]`: each line that holds a JSON object with
/// a `command` and a parsable `start_ts` is a user message in its `pwd` (else `home`).
pub open spec fn history_messages(lines: Seq<Seq<char>>, home: Seq<char>, n: int) -> Option<Seq<MessageView>>
    decreases n,
{
    if n <= 0 {
        Some(Seq::empty())
    } else {
        match history_messages(lines, home, n - 1) {
            None => None,
            Some(prev) => {
                let line = lines[n - 1];
                if trim(line).len() == 0 {
                    Some(prev)
                } else {
                    match (json_string_field(line, "command"@), json_string_field(line, "start_ts"@)) {
                        (Some(cmd), Some(st)) => match instant_of_rfc3339(st) {
                            None => Some(prev),
                            Some(t) => {
                                let pwd = match json_string_field(line, "pwd"@) {
                                    Some(p) => p,
                                    None => home,
                                };
                                match lead20(cmd) {
                                    None => None,
                                    Some(l) => Some(prev.push(warp_msg(t, pwd, st, st + seq!['_'] + l + "_history"@, MessageRole::User, cmd, None, zero_stats()))),
                                }
                            },
                        },
                        _ => Some(prev),
                    }
                }
            },
        }
    }
}

/// The messages of the AI contexts `cms[..n]` of an event: each JSON text with an `input` and an
/// `output` is the input (a user message) and, when the output is not empty, the answer.
pub open spec fn ai_messages(cms: Seq<Seq<char>>, item: WarpBatchItem, now: Timestamp, home: Seq<char>, n: int) -> Option<Seq<MessageView>>
    decreases n,
{
    if n <= 0 {
        Some(Seq::empty())
    } else {
        match ai_messages(cms, item, now, home, n - 1) {
            None => None,
            Some(prev) => {
                let c = cms[n - 1];
                match (json_string_field(c, "input"@), json_string_field(c, "output"@)) {
                    (Some(inp), Some(out)) => {
                        let ts = event_stamp(item, now);
                        match instant_of_rfc3339(ts) {
                            None => Some(prev),
                            Some(t) => {
                                let pwd = match json_nested_string_field(c, "context"@, "pwd"@) {
                                    Some(p) => p,
                                    None => home,
                                };
                                match lead20(inp) {
                                    None => None,
                                    Some(l) => {
                                        let u = warp_msg(t, pwd, ts, ts + seq!['_'] + l + "_ai_input"@, MessageRole::User, inp, None, zero_stats());
                                        if out.len() == 0 {
                                            Some(prev.push(u))
                                        } else {
                                            Some(prev.push(u).push(warp_msg(t, pwd, ts, ts + seq!['_'] + l + "_ai_output"@, MessageRole::Assistant, out, Some("Warp AI"@), ai_stats())))
                                        }
                                    },
                                }
                            },
                        }
                    },
                    _ => Some(prev),
                }
            },
        }
    }
}

/// The messages of one telemetry event: only `track` events with properties say anything.
pub open spec fn item_messages(item: WarpBatchItem, now: Timestamp, home: Seq<char>) -> Option<Seq<MessageView>> {
    if item.event_type@ != "track"@ {
        Some(Seq::empty())
    } else {
        match item.properties {
            None => Some(Seq::empty()),
            Some(p) => opt_cat(
                opt_cat(
                    run_messages(item, p, now, home),
                    match p.history_context {
                        None => Some(Seq::empty()),
                        Some(h) => history_messages(text_lines(h@), home, text_lines(h@).len() as int),
                    },
                ),
                match p.ai_suggestions_request {
                    Some(r) => match r.context_messages {
                        Some(cms) => ai_messages(cms@.map_values(|c: String| c@), item, now, home, cms.len() as int),
                        None => Some(Seq::empty()),
                    },
                    None => Some(Seq::empty()),
                },
            ),
        }
    }
}

/// The messages of the first `n` events of a batch.
pub open spec fn batch_messages(items: Seq<WarpBatchItem>, now: Timestamp, home: Seq<char>, n: int) -> Option<Seq<MessageView>>
    decreases n,
{
    if n <= 0 {
        Some(Seq::empty())
    } else {
        opt_cat(batch_messages(items, now, home, n - 1), item_messages(items[n - 1], now, home))
    }
}

/// The messages a logged entry stands for at `now`, with `home` as the directory of commands
/// that name none: a direct command first, then the batch's events in order. None where the
/// twenty-byte cut of a command or input would fall inside a character (slicing panics there).
pub open spec fn entry_messages(e: WarpLogEntry, now: Timestamp, home: Seq<char>) -> Option<Seq<MessageView>> {
    opt_cat(
        direct_messages(e, now, home),
        match e.batch {
            Some(b) => batch_messages(b@, now, home, b.len() as int),
            None => Some(Seq::empty()),
        },
    )
}

/// The views of a sequence of messages.
pub open spec fn views(ms: Seq<ConversationMessage>) -> Seq<MessageView> {
    ms.map_values(|m: ConversationMessage| m@)
}

fn warp_message(
    date: Timestamp,
    project: &[char],
    conv: &[char],
    global: &[char],
    role: MessageRole,
    content: &[char],
    model: Option<&str>,
    stats: Stats,
) -> (r: ConversationMessage)
    ensures
        r@ == warp_msg(date, project@, conv@, global@, role, content@, match model {
            Some(m) => Some(m@),
            None => None,
        }, stats),
{
    ConversationMessage {
        application: Application::Warp,
        date,
        project_hash: hash_chars(project),
        conversation_hash: hash_chars(conv),
        local_hash: None,
        global_hash: hash_chars(global),
        model: match model {
            Some(m) => Some(m.to_owned()),
            None => None,
        },
        stats,
        role,
        content: Some(string_of(content)),
    }
}

fn concat(a: &[char], b: &[char]) -> (r: Vec<char>)
    ensures
        r@ == a@ + b@,
{
    let mut out: Vec<char> = Vec::new();
    append_chars(&mut out, a);
    append_chars(&mut out, b);
    proof {
        assert(out@ =~= a@ + b@);
    }
    out
}

fn push_msg(out: &mut Vec<ConversationMessage>, m: ConversationMessage)
    ensures
        views(final(out)@) == views(old(out)@).push(m@),
{
    let ghost before = out@;
    out.push(m);
    proof {
        assert(views(out@) =~= views(before).push(m@));
    }
}

fn command_stats_value() -> (s: Stats)
    ensures
        s == command_stats(),
{
    let mut s = Stats::zero();
    s.terminal_commands = 1;
    s
}

fn ai_stats_value() -> (s: Stats)
    ensures
        s == ai_stats(),
{
    let mut s = Stats::zero();
    s.tool_calls = 1;
    s
}

/// Appends the messages of a direct command (see [`direct_messages`]); false where a cut fails.
fn push_direct(out: &mut Vec<ConversationMessage>, e: &WarpLogEntry, now: Timestamp, home: &[char]) -> (ok: bool)
    requires
        now.wf(),
        -8_000_000_000_000 <= now.secs <= 8_000_000_000_000,
    ensures
        ok <==> direct_messages(*e, now, home@) is Some,
        ok ==> views(final(out)@) == views(old(out)@) + direct_messages(*e, now, home@)->0,
{
    match (&e.command, &e.output) {
        (Some(cmd), Some(_)) => {
            let lead = match lead_twenty(cmd.as_str()) {
                Some(l) => l,
                None => return false,
            };
            let display = match format_utc_display(now) {
                Some(d) => d,
                None => return false,
            };
            let cmd_chars = chars_of(cmd.as_str());
            let dc = chars_of(display.as_str());
            let conv = concat(dc.as_slice(), cmd_chars.as_slice());
            let mut stamp = signed_decimal_chars(now.secs);
            stamp.push('_');
            append_chars(&mut stamp, lead.as_slice());
            let pre_cmd = chars_of("warp_cmd_");
            let pre_out = chars_of("warp_out_");
            let g1 = concat(pre_cmd.as_slice(), stamp.as_slice());
            let g2 = concat(pre_out.as_slice(), stamp.as_slice());
            let executed = chars_of("Command executed");
            let ghost before = out@;
            let m1 = warp_message(now, home, conv.as_slice(), g1.as_slice(), MessageRole::User, cmd_chars.as_slice(), None, Stats::zero());
            let m2 = warp_message(now, home, conv.as_slice(), g2.as_slice(), MessageRole::Assistant, executed.as_slice(), Some("Warp Terminal"), command_stats_value());
            push_msg(out, m1);
            push_msg(out, m2);
            proof {
                let p = lead20(cmd@)->0;
                let cv = utc_display_text(now.secs, now.nanos) + cmd@;
                let stamp_s = signed_decimal(now.secs as int) + seq!['_'] + p;
                assert(conv@ =~= cv);
                assert(stamp@ =~= stamp_s);
                assert(g1@ =~= "warp_cmd_"@ + stamp_s);
                assert(g2@ =~= "warp_out_"@ + stamp_s);
                assert(m1@ == warp_msg(now, home@, cv, "warp_cmd_"@ + stamp_s, MessageRole::User, cmd@, None, zero_stats()));
                assert(m2@ == warp_msg(now, home@, cv, "warp_out_"@ + stamp_s, MessageRole::Assistant, "Command executed"@, Some("Warp Terminal"@), command_stats()));
                assert(views(out@) =~= views(before) + direct_messages(*e, now, home@)->0);
            }
            true
        },
        _ => {
            proof {
                assert(views(out@) =~= views(out@) + Seq::<MessageView>::empty());
            }
            true
        },
    }
}

/// The timestamp text of an event (see [`event_stamp`]).
fn stamp_of(item: &WarpBatchItem, now: Timestamp) -> (r: Option<String>)
    requires
        now.wf(),
        -8_000_000_000_000 <= now.secs <= 8_000_000_000_000,
    ensures
        r matches Some(s) && s@ == event_stamp(*item, now),
{
    match &item.original_timestamp {
        Some(s) => Some(s.clone()),
        None => format_rfc3339(now),
    }
}

/// Appends the messages of an event's command run (see [`run_messages`]).
fn push_run(out: &mut Vec<ConversationMessage>, item: &WarpBatchItem, p: &WarpProperties, now: Timestamp, home: &[char]) -> (ok: bool)
    requires
        now.wf(),
        -8_000_000_000_000 <= now.secs <= 8_000_000_000_000,
    ensures
        ok <==> run_messages(*item, *p, now, home@) is Some,
        ok ==> views(final(out)@) == views(old(out)@) + run_messages(*item, *p, now, home@)->0,
{
    let ghost before = out@;
    match &p.actual_next_command_run {
        None => {
            proof {
                assert(views(out@) =~= views(before) + Seq::<MessageView>::empty());
            }
            true
        },
        Some(cmd) => {
            let ts = match stamp_of(item, now) {
                Some(t) => t,
                None => return false,
            };
            match parse_instant(ts.as_str()) {
                None => {
                    proof {
                        assert(views(out@) =~= views(before) + Seq::<MessageView>::empty());
                    }
                    true
                },
                Some(t) => {
                    let lead = match lead_twenty(cmd.as_str()) {
                        Some(l) => l,
                        None => return false,
                    };
                    let tsc = chars_of(ts.as_str());
                    let mut base = tsc.clone();
                    base.push('_');
                    append_chars(&mut base, lead.as_slice());
                    let sfx1 = chars_of("_command");
                    let sfx2 = chars_of("_output");
                    let g1 = concat(base.as_slice(), sfx1.as_slice());
                    let g2 = concat(base.as_slice(), sfx2.as_slice());
                    let cmd_chars = chars_of(cmd.as_str());
                    let executed = chars_of("Command executed");
                    let m1 = warp_message(t, home, tsc.as_slice(), g1.as_slice(), MessageRole::User, cmd_chars.as_slice(), None, Stats::zero());
                    let m2 = warp_message(t, home, tsc.as_slice(), g2.as_slice(), MessageRole::Assistant, executed.as_slice(), Some("Warp Terminal"), command_stats_value());
                    push_msg(out, m1);
                    push_msg(out, m2);
                    proof {
                        let ts_s = event_stamp(*item, now);
                        let l = lead20(cmd@)->0;
                        assert(tsc@ == ts_s);
                        assert(base@ =~= ts_s + seq!['_'] + l);
                        assert(g1@ =~= ts_s + seq!['_'] + l + "_command"@);
                        assert(g2@ =~= ts_s + seq!['_'] + l + "_output"@);
                        assert(m1@ == warp_msg(t, home@, ts_s, ts_s + seq!['_'] + l + "_command"@, MessageRole::User, cmd@, None, zero_stats()));
                        assert(m2@ == warp_msg(t, home@, ts_s, ts_s + seq!['_'] + l + "_output"@, MessageRole::Assistant, "Command executed"@, Some("Warp Terminal"@), command_stats()));
                        assert(views(out@) =~= views(before) + run_messages(*item, *p, now, home@)->0);
                    }
                    true
                },
            }
        },
    }
}

pub proof fn lemma_history_none_stable(lines: Seq<Seq<char>>, home: Seq<char>, m: int, n: int)
    requires
        m <= n,
        history_messages(lines, home, m) is None,
    ensures
        history_messages(lines, home, n) is None,
    decreases n - m,
{
    if m < n {
        lemma_history_none_stable(lines, home, m, n - 1);
    }
}

/// Appends the messages of shell-history lines (see [`history_messages`]).
fn push_history(out: &mut Vec<ConversationMessage>, history: &str, home: &[char]) -> (ok: bool)
    ensures
        ok <==> history_messages(text_lines(history@), home@, text_lines(history@).len() as int) is Some,
        ok ==> views(final(out)@) == views(old(out)@) + history_messages(text_lines(history@), home@, text_lines(history@).len() as int)->0,
{
    let lines = split_lines(history);
    let ghost lv = lines@.map_values(|l: Vec<char>| l@);
    let ghost start = views(out@);
    let mut i: usize = 0;
    while i < lines.len()
        invariant
            i <= lines.len(),
            lv == lines@.map_values(|l: Vec<char>| l@),
            lv == text_lines(history@),
            history_messages(lv, home@, i as int) matches Some(done) && views(out@) == start + done,
        decreases lines.len() - i,
    {
        let ghost done = history_messages(lv, home@, i as int)->0;
        let line_chars = &lines[i];
        proof {
            assert(lv[i as int] == line_chars@);
        }
        let trimmed = trim_chars(line_chars.as_slice());
        if trimmed.len() == 0 {
            proof {
                assert(history_messages(lv, home@, i + 1) == Some(done));
            }
        } else {
            let line = string_of(line_chars.as_slice());
            let cmd = json_field_string(line.as_str(), "command");
            let st = json_field_string(line.as_str(), "start_ts");
            proof {
                assert(line@ == lv[i as int]);
            }
            match (cmd, st) {
                (Some(cmd), Some(st)) => {
                    match parse_instant(st.as_str()) {
                        None => {
                            proof {
                                assert(history_messages(lv, home@, i + 1) == Some(done));
                            }
                        },
                        Some(t) => {
                            let pwd = match json_field_string(line.as_str(), "pwd") {
                                Some(p) => chars_of(p.as_str()),
                                None => concat(home, &[]),
                            };
                            let lead = match lead_twenty(cmd.as_str()) {
                                Some(l) => l,
                                None => {
                                    proof {
                                        assert(history_messages(lv, home@, i + 1) is None);
                                        lemma_history_none_stable(lv, home@, i + 1, lv.len() as int);
                                    }
                                    return false;
                                },
                            };
                            let stc = chars_of(st.as_str());
                            let mut g = stc.clone();
                            g.push('_');
                            append_chars(&mut g, lead.as_slice());
                            let sfx = chars_of("_history");
                            append_chars(&mut g, sfx.as_slice());
                            let cmd_chars = chars_of(cmd.as_str());
                            let m = warp_message(t, pwd.as_slice(), stc.as_slice(), g.as_slice(), MessageRole::User, cmd_chars.as_slice(), None, Stats::zero());
                            push_msg(out, m);
                            proof {
                                let l = lead20(cmd@)->0;
                                assert(g@ =~= st@ + seq!['_'] + l + "_history"@);
                                assert(history_messages(lv, home@, i + 1) == Some(done.push(m@)));
                                assert(views(out@) =~= start + done.push(m@));
                            }
                        },
                    }
                },
                _ => {
                    proof {
                        assert(history_messages(lv, home@, i + 1) == Some(done));
                    }
                },
            }
        }
        i = i + 1;
    }
    true
}

pub proof fn lemma_ai_none_stable(cms: Seq<Seq<char>>, item: WarpBatchItem, now: Timestamp, home: Seq<char>, m: int, n: int)
    requires
        m <= n,
        ai_messages(cms, item, now, home, m) is None,
    ensures
        ai_messages(cms, item, now, home, n) is None,
    decreases n - m,
{
    if m < n {
        lemma_ai_none_stable(cms, item, now, home, m, n - 1);
    }
}

/// Appends the messages of an event's AI contexts (see [`ai_messages`]).
fn push_ai(out: &mut Vec<ConversationMessage>, cms: &Vec<String>, item: &WarpBatchItem, now: Timestamp, home: &[char]) -> (ok: bool)
    requires
        now.wf(),
        -8_000_000_000_000 <= now.secs <= 8_000_000_000_000,
    ensures
        ok <==> ai_messages(cms@.map_values(|c: String| c@), *item, now, home@, cms.len() as int) is Some,
        ok ==> views(final(out)@) == views(old(out)@) + ai_messages(cms@.map_values(|c: String| c@), *item, now, home@, cms.len() as int)->0,
{
    let ghost cv = cms@.map_values(|c: String| c@);
    let ghost start = views(out@);
    let mut i: usize = 0;
    while i < cms.len()
        invariant
            i <= cms.len(),
            now.wf(),
            -8_000_000_000_000 <= now.secs <= 8_000_000_000_000,
            cv == cms@.map_values(|c: String| c@),
            ai_messages(cv, *item, now, home@, i as int) matches Some(done) && views(out@) == start + done,
        decreases cms.len() - i,
    {
        let ghost done = ai_messages(cv, *item, now, home@, i as int)->0;
        let c = &cms[i];
        proof {
            assert(cv[i as int] == c@);
        }
        let inp = json_field_string(c.as_str(), "input");
        let outp = json_field_string(c.as_str(), "output");
        match (inp, outp) {
            (Some(inp), Some(outp)) => {
                let ts = match stamp_of(item, now) {
                    Some(t) => t,
                    None => return false,
                };
                match parse_instant(ts.as_str()) {
                    None => {
                        proof {
                            assert(ai_messages(cv, *item, now, home@, i + 1) == Some(done));
                        }
                    },
                    Some(t) => {
                        let pwd = match json_nested_field_string(c.as_str(), "context", "pwd") {
                            Some(p) => chars_of(p.as_str()),
                            None => concat(home, &[]),
                        };
                        let lead = match lead_twenty(inp.as_str()) {
                            Some(l) => l,
                            None => {
                                proof {
                                    assert(ai_messages(cv, *item, now, home@, i + 1) is None);
                                    lemma_ai_none_stable(cv, *item, now, home@, i + 1, cv.len() as int);
                                }
                                return false;
                            },
                        };
                        let tsc = chars_of(ts.as_str());
                        let mut base = tsc.clone();
                        base.push('_');
                        append_chars(&mut base, lead.as_slice());
                        let s_in = chars_of("_ai_input");
                        let g1 = concat(base.as_slice(), s_in.as_slice());
                        let inp_chars = chars_of(inp.as_str());
                        let m1 = warp_message(t, pwd.as_slice(), tsc.as_slice(), g1.as_slice(), MessageRole::User, inp_chars.as_slice(), None, Stats::zero());
                        push_msg(out, m1);
                        let ghost ts_s = event_stamp(*item, now);
                        let ghost l = lead20(inp@)->0;
                        proof {
                            assert(base@ =~= ts_s + seq!['_'] + l);
                            assert(g1@ =~= ts_s + seq!['_'] + l + "_ai_input"@);
                        }
                        if outp.as_str().is_empty() {
                            proof {
                                assert(ai_messages(cv, *item, now, home@, i + 1) == Some(done.push(m1@)));
                                assert(views(out@) =~= start + done.push(m1@));
                            }
                        } else {
                            let s_out = chars_of("_ai_output");
                            let g2 = concat(base.as_slice(), s_out.as_slice());
                            let out_chars = chars_of(outp.as_str());
                            let m2 = warp_message(t, pwd.as_slice(), tsc.as_slice(), g2.as_slice(), MessageRole::Assistant, out_chars.as_slice(), Some("Warp AI"), ai_stats_value());
                            push_msg(out, m2);
                            proof {
                                assert(g2@ =~= ts_s + seq!['_'] + l + "_ai_output"@);
                                assert(ai_messages(cv, *item, now, home@, i + 1) == Some(done.push(m1@).push(m2@)));
                                assert(views(out@) =~= start + done.push(m1@).push(m2@));
                            }
                        }
                    },
                }
            },
            _ => {
                proof {
                    assert(ai_messages(cv, *item, now, home@, i + 1) == Some(done));
                }
            },
        }
        i = i + 1;
    }
    true
}

/// Appends the messages of one event (see [`item_messages`]).
fn push_item(out: &mut Vec<ConversationMessage>, item: &WarpBatchItem, now: Timestamp, home: &[char]) -> (ok: bool)
    requires
        now.wf(),
        -8_000_000_000_000 <= now.secs <= 8_000_000_000_000,
    ensures
        ok <==> item_messages(*item, now, home@) is Some,
        ok ==> views(final(out)@) == views(old(out)@) + item_messages(*item, now, home@)->0,
{
    let ghost start = views(out@);
    if !str_eq(item.event_type.as_str(), "track") {
        proof {
            assert(views(out@) =~= start + Seq::<MessageView>::empty());
        }
        return true;
    }
    match &item.properties {
        None => {
            proof {
                assert(views(out@) =~= start + Seq::<MessageView>::empty());
            }
            true
        },
        Some(p) => {
            if !push_run(out, item, p, now, home) {
                return false;
            }
            let ghost after_run = views(out@);
            let hist_ok = match &p.history_context {
                None => {
                    proof {
                        assert(views(out@) =~= after_run + Seq::<MessageView>::empty());
                    }
                    true
                },
                Some(h) => push_history(out, h.as_str(), home),
            };
            if !hist_ok {
                return false;
            }
            let ghost after_hist = views(out@);
            let ai_ok = match &p.ai_suggestions_request {
                Some(r) => match &r.context_messages {
                    Some(cms) => push_ai(out, cms, item, now, home),
                    None => {
                        proof {
                            assert(views(out@) =~= after_hist + Seq::<MessageView>::empty());
                        }
                        true
                    },
                },
                None => {
                    proof {
                        assert(views(out@) =~= after_hist + Seq::<MessageView>::empty());
                    }
                    true
                },
            };
            if !ai_ok {
                return false;
            }
            proof {
                assert(views(out@) =~= start + item_messages(*item, now, home@)->0);
            }
            true
        },
    }
}

pub proof fn lemma_batch_none_stable(items: Seq<WarpBatchItem>, now: Timestamp, home: Seq<char>, m: int, n: int)
    requires
        m <= n,
        batch_messages(items, now, home, m) is None,
    ensures
        batch_messages(items, now, home, n) is None,
    decreases n - m,
{
    if m < n {
        lemma_batch_none_stable(items, now, home, m, n - 1);
    }
}

/// The messages a logged entry stands for at `now` (see [`entry_messages`]); `home` is the
/// directory of commands that name none. `None` where a command or input would be cut inside a
/// character.
pub fn warp_entry_messages(entry: &WarpLogEntry, now: Timestamp, home: &str) -> (r: Option<Vec<ConversationMessage>>)
    requires
        now.wf(),
        -8_000_000_000_000 <= now.secs <= 8_000_000_000_000,
    ensures
        match r {
            Some(v) => entry_messages(*entry, now, home@) == Some(views(v@)),
            None => entry_messages(*entry, now, home@) is None,
        },
{
    let hc = chars_of(home);
    let mut out: Vec<ConversationMessage> = Vec::new();
    proof {
        assert(views(out@) =~= Seq::<MessageView>::empty());
    }
    if !push_direct(&mut out, entry, now, hc.as_slice()) {
        return None;
    }
    let ghost after_direct = views(out@);
    match &entry.batch {
        None => {
            proof {
                assert(views(out@) =~= after_direct + Seq::<MessageView>::empty());
            }
        },
        Some(b) => {
            let mut i: usize = 0;
            while i < b.len()
                invariant
                    i <= b.len(),
                    now.wf(),
                    -8_000_000_000_000 <= now.secs <= 8_000_000_000_000,
                    hc@ == home@,
                    entry.batch == Some(*b),
                    direct_messages(*entry, now, home@) == Some(after_direct),
                    batch_messages(b@, now, home@, i as int) matches Some(done) && views(out@) == after_direct + done,
                decreases b.len() - i,
            {
                let ghost done = batch_messages(b@, now, home@, i as int)->0;
                if !push_item(&mut out, &b[i], now, hc.as_slice()) {
                    proof {
                        assert(item_messages(b@[i as int], now, home@) is None);
                        assert(batch_messages(b@, now, home@, i + 1) is None);
                        lemma_batch_none_stable(b@, now, home@, i + 1, b.len() as int);
                        assert(entry_messages(*entry, now, home@) is None);
                    }
                    return None;
                }
                proof {
                    assert(views(out@) =~= after_direct + (done + item_messages(b@[i as int], now, home@)->0));
                }
                i = i + 1;
            }
        },
    }
    Some(out)
}

/// The messages of a whole log read at `now`: its bodies in order (see [`extract_log_bodies`]),
/// each read as an entry by the caller (`None` where it is not one) and turned into messages.
/// `None` where any entry's messages are (see [`entry_messages`]).
pub fn parse_warp_log_file(entries: &[Option<WarpLogEntry>], now: Timestamp, home: &str) -> (r: Option<Vec<ConversationMessage>>)
    requires
        now.wf(),
        -8_000_000_000_000 <= now.secs <= 8_000_000_000_000,
    ensures
        match r {
            Some(v) => log_messages(entries@, now, home@, entries.len() as int) == Some(views(v@)),
            None => log_messages(entries@, now, home@, entries.len() as int) is None,
        },
{
    let mut out: Vec<ConversationMessage> = Vec::new();
    let mut i: usize = 0;
    proof {
        assert(views(out@) =~= Seq::<MessageView>::empty());
    }
    while i < entries.len()
        invariant
            i <= entries.len(),
            now.wf(),
            -8_000_000_000_000 <= now.secs <= 8_000_000_000_000,
            log_messages(entries@, now, home@, i as int) matches Some(done) && views(out@) == done,
        decreases entries.len() - i,
    {
        let ghost done = log_messages(entries@, now, home@, i as int)->0;
        match &entries[i] {
            None => {
                proof {
                    assert(views(out@) =~= done + Seq::<MessageView>::empty());
                }
            },
            Some(e) => {
                match warp_entry_messages(e, now, home) {
                    None => {
                        proof {
                            lemma_log_none_stable(entries@, now, home@, i + 1, entries.len() as int);
                        }
                        return None;
                    },
                    Some(ms) => {
                        let ghost before = out@;
                        let mut k: usize = 0;
                        while k < ms.len()
                            invariant
                                k <= ms.len(),
                                views(out@) == views(before) + views(ms@).take(k as int),
                            decreases ms.len() - k,
                        {
                            push_msg(&mut out, ms[k].duplicate());
                            k = k + 1;
                            proof {
                                assert(views(ms@).take(k as int) =~= views(ms@).take(k - 1).push(ms@[k - 1]@));
                            }
                        }
                        proof {
                            assert(views(ms@).take(ms.len() as int) =~= views(ms@));
                        }
                    },
                }
            },
        }
        i = i + 1;
    }
    Some(out)
}

/// The messages of the first `n` entries of a log (unreadable bodies say nothing).
pub open spec fn log_messages(entries: Seq<Option<WarpLogEntry>>, now: Timestamp, home: Seq<char>, n: int) -> Option<Seq<MessageView>>
    decreases n,
{
    if n <= 0 {
        Some(Seq::empty())
    } else {
        opt_cat(
            log_messages(entries, now, home, n - 1),
            match entries[n - 1] {
                Some(e) => entry_messages(e, now, home),
                None => Some(Seq::empty()),
            },
        )
    }
}

pub proof fn lemma_log_none_stable(entries: Seq<Option<WarpLogEntry>>, now: Timestamp, home: Seq<char>, m: int, n: int)
    requires
        m <= n,
        log_messages(entries, now, home, m) is None,
    ensures
        log_messages(entries, now, home, n) is None,
    decreases n - m,
{
    if m < n {
        lemma_log_none_stable(entries, now, home, m, n - 1);
    }
}

} // verus!
