//! The analyzer for Factory's Droid CLI: one message per recorded session, carrying the token
//! usage of the session's settings file.
use vstd::prelude::*;
use std::hash::{Hash, Hasher};
use crate::analyzer::Analyzer;
use crate::json::str_eq;
use crate::text::{append_chars, chars_of, signed_decimal, signed_decimal_chars, string_of};
use crate::time::Timestamp;
use crate::types::{
    Application, ConversationMessage, CostQuery, CostQueryView, MessageRole, MessageView, PricedMessage,
    PricedMessageView, Stats, zero_stats,
};

verus! {

/// The analyzer for Factory's Droid CLI.
pub struct DroidCliAnalyzer;

impl DroidCliAnalyzer {
    pub fn new() -> (a: Self) {
        DroidCliAnalyzer
    }
}

impl Analyzer for DroidCliAnalyzer {
    open spec fn name_spec(&self) -> Seq<char> {
        "Droid CLI"@
    }

    fn display_name(&self) -> (s: &'static str) {
        "Droid CLI"
    }
}

/// A line of a session file.
#[derive(Debug, Clone)]
pub struct DroidSession {
    pub session_type: String,
    pub id: String,
    pub title: String,
    pub owner: String,
    pub version: i32,
    pub cwd: String,
}

/// Token usage of a session.
#[derive(Debug, Clone, Copy)]
pub struct DroidTokenUsage {
    pub input_tokens: u32,
    pub output_tokens: u32,
    pub cache_creation_tokens: u32,
    pub cache_read_tokens: u32,
    pub thinking_tokens: u32,
}

/// A session's settings file.
#[derive(Debug, Clone)]
pub struct DroidSessionSettings {
    pub assistant_active_time_ms: u64,
    pub model: String,
    pub reasoning_effort: String,
    pub autonomy_mode: String,
    pub token_usage: DroidTokenUsage,
}

/// The lowercase hexadecimal digits of `n`, without leading zeros (`0` for zero).
pub open spec fn hex_digits(n: nat) -> Seq<char>
    decreases n,
{
    if n < 16 {
        seq![crate::hashing::hex_digit(n as int)]
    } else {
        hex_digits(n / 16).push(crate::hashing::hex_digit((n % 16) as int))
    }
}

fn hex_digit_char(d: u64) -> (c: char)
    requires
        d < 16,
    ensures
        c == crate::hashing::hex_digit(d as int),
{
    let b: u8 = if d < 10 { (d + 48) as u8 } else { (d - 10 + 97) as u8 };
    b as char
}

/// The lowercase hexadecimal digits of `n`, as `{:x}` writes them.
pub fn hex_chars(n: u64) -> (r: Vec<char>)
    ensures
        r@ == hex_digits(n as nat),
    decreases n,
{
    if n < 16 {
        let mut r = Vec::new();
        r.push(hex_digit_char(n));
        r
    } else {
        let mut r = hex_chars(n / 16);
        r.push(hex_digit_char(n % 16));
        r
    }
}

/// What a fresh `std::collections::hash_map::DefaultHasher` finishes with after hashing the
/// string `s`.
pub uninterp spec fn default_str_hash(s: Seq<char>) -> u64;

/// Hashes `s` with a fresh `DefaultHasher` (`DefaultHasher::new`, whose keys are fixed, so one
/// build gives every process the same value) and returns `finish()`; the value is named by
/// [`default_str_hash`].
#[verifier::external_body]
fn default_hash(s: &str) -> (h: u64)
    ensures
        h == default_str_hash(s@),
{
    let mut hasher = std::collections::hash_map::DefaultHasher::new();
    s.hash(&mut hasher);
    hasher.finish()
}

/// The model name a session's model is reported under (every name is kept as it is).
pub open spec fn normalized_model(model: Seq<char>) -> Seq<char> {
    model
}

/// What one session line becomes with its settings and the session file's modification time.
pub open spec fn droid_message(session: DroidSession, settings: DroidSessionSettings, modified: Timestamp) -> PricedMessageView {
    let u = settings.token_usage;
    let stats = Stats {
        input_tokens: u.input_tokens as u64,
        output_tokens: u.output_tokens as u64,
        reasoning_tokens: u.thinking_tokens as u64,
        cache_creation_tokens: u.cache_creation_tokens as u64,
        cache_read_tokens: u.cache_read_tokens as u64,
        cached_tokens: u.cache_read_tokens as u64,
        ..zero_stats()
    };
    let model = normalized_model(settings.model@);
    PricedMessageView {
        message: MessageView {
            application: Application::DroidCli,
            date: modified,
            project_hash: hex_digits(default_str_hash(session.cwd@) as nat),
            conversation_hash: session.id@,
            local_hash: Some(session.id@),
            global_hash: "droid-cli:"@ + session.id@ + seq![':'] + signed_decimal(modified.secs as int),
            model: Some(model),
            stats,
            role: MessageRole::Assistant,
            content: Some("Droid CLI session: "@ + session.title@),
        },
        usage: Some(CostQueryView {
            model,
            input_tokens: stats.input_tokens,
            output_tokens: stats.output_tokens,
            cache_creation_tokens: stats.cache_creation_tokens,
            cache_read_tokens: stats.cache_read_tokens,
        }),
    }
}

impl DroidCliAnalyzer {
    /// The model name a session's model is reported under: every model is kept by its own name.
    pub fn normalize_model_name(&self, model: &str) -> (r: String)
        ensures
            r@ == normalized_model(model@),
    {
        model.to_owned()
    }

    /// The project a working directory stands for: the lowercase hex of its `DefaultHasher` hash.
    pub fn extract_project_hash(&self, cwd: &str) -> (r: String)
        ensures
            r@ == hex_digits(default_str_hash(cwd@) as nat),
    {
        let h = default_hash(cwd);
        let digits = hex_chars(h);
        string_of(digits.as_slice())
    }

    /// The message of one session, given its settings and the session file's modification time
    /// (see [`droid_message`]).
    pub fn create_conversation_message(
        &self,
        session: &DroidSession,
        settings: &DroidSessionSettings,
        modified: Timestamp,
    ) -> (r: PricedMessage)
        ensures
            r@ == droid_message(*session, *settings, modified),
    {
        let model_name = self.normalize_model_name(settings.model.as_str());
        let u = &settings.token_usage;
        let mut stats = Stats::zero();
        stats.input_tokens = u.input_tokens as u64;
        stats.output_tokens = u.output_tokens as u64;
        stats.reasoning_tokens = u.thinking_tokens as u64;
        stats.cache_creation_tokens = u.cache_creation_tokens as u64;
        stats.cache_read_tokens = u.cache_read_tokens as u64;
        stats.cached_tokens = u.cache_read_tokens as u64;
        let project_hash = self.extract_project_hash(session.cwd.as_str());
        let mut global = chars_of("droid-cli:");
        let idc = chars_of(session.id.as_str());
        append_chars(&mut global, idc.as_slice());
        global.push(':');
        let secs = signed_decimal_chars(modified.secs);
        append_chars(&mut global, secs.as_slice());
        let mut content = chars_of("Droid CLI session: ");
        let tc = chars_of(session.title.as_str());
        append_chars(&mut content, tc.as_slice());
        let usage = CostQuery {
            model: model_name.clone(),
            input_tokens: stats.input_tokens,
            output_tokens: stats.output_tokens,
            cache_creation_tokens: stats.cache_creation_tokens,
            cache_read_tokens: stats.cache_read_tokens,
        };
        proof {
            assert(global@ =~= "droid-cli:"@ + session.id@ + seq![':'] + signed_decimal(modified.secs as int));
            assert(content@ =~= "Droid CLI session: "@ + session.title@);
        }
        PricedMessage {
            message: ConversationMessage {
                application: Application::DroidCli,
                date: modified,
                project_hash,
                conversation_hash: session.id.clone(),
                local_hash: Some(session.id.clone()),
                global_hash: string_of(global.as_slice()),
                model: Some(model_name),
                stats,
                role: MessageRole::Assistant,
                content: Some(string_of(content.as_slice())),
            },
            usage: Some(usage),
        }
    }

    /// The messages of one session file, given its lines that parse as session records, its
    /// settings (if they could be read) and its modification time: one message for each
    /// `session_start` line, none without settings.
    pub fn parse_session_file(
        &self,
        lines: &[DroidSession],
        settings: &Option<DroidSessionSettings>,
        modified: Timestamp,
    ) -> (r: Vec<PricedMessage>)
        ensures
            r@.map_values(|p: PricedMessage| p@) == match settings {
                None => Seq::<PricedMessageView>::empty(),
                Some(st) => lines@.filter(|l: DroidSession| l.session_type@ == "session_start"@).map_values(
                    |l: DroidSession| droid_message(l, *st, modified),
                ),
            },
    {
        let mut out: Vec<PricedMessage> = Vec::new();
        match settings {
            None => {
                proof {
                    assert(out@.map_values(|p: PricedMessage| p@) =~= Seq::<PricedMessageView>::empty());
                }
                out
            },
            Some(st) => {
                let ghost keep = |l: DroidSession| l.session_type@ == "session_start"@;
                let ghost conv = |l: DroidSession| droid_message(l, *st, modified);
                let mut i: usize = 0;
                while i < lines.len()
                    invariant
                        i <= lines.len(),
                        keep == (|l: DroidSession| l.session_type@ == "session_start"@),
                        conv == (|l: DroidSession| droid_message(l, *st, modified)),
                        out@.map_values(|p: PricedMessage| p@) == lines@.take(i as int).filter(keep).map_values(conv),
                    decreases lines.len() - i,
                {
                    proof {
                        reveal(Seq::filter);
                        assert(lines@.take(i + 1).drop_last() =~= lines@.take(i as int));
                        assert(lines@.take(i + 1).last() == lines@[i as int]);
                    }
                    if str_eq(lines[i].session_type.as_str(), "session_start") {
                        let m = self.create_conversation_message(&lines[i], st, modified);
                        let ghost before = out@;
                        out.push(m);
                        proof {
                            assert(keep(lines@[i as int]));
                            assert(lines@.take(i + 1).filter(keep) == lines@.take(i as int).filter(keep).push(lines@[i as int]));
                            assert(out@.map_values(|p: PricedMessage| p@) =~= before.map_values(|p: PricedMessage| p@).push(m@));
                            assert(lines@.take(i + 1).filter(keep).map_values(conv) =~= lines@.take(i as int).filter(keep).map_values(conv).push(conv(lines@[i as int])));
                        }
                    } else {
                        proof {
                            assert(!keep(lines@[i as int]));
                            assert(lines@.take(i + 1).filter(keep) == lines@.take(i as int).filter(keep));
                        }
                    }
                    i = i + 1;
                }
                proof {
                    assert(lines@.take(lines.len() as int) =~= lines@);
                }
                out
            },
        }
    }
}

} // verus!
