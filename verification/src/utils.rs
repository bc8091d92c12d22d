//! Shared helpers: the live window of resident messages, number and label formatting, and the
//! one-shot warning log.
use vstd::prelude::*;
use vstd::hash_set::StringHashSet;
use vstd::utf8::encode_utf8;
use num_format::ToFormattedString;
use chrono::Datelike;
use crate::time::{Timestamp, seconds_between, chrono_secs_in_range};
use crate::types::{ConversationMessage, AgenticCodingToolStats};
use crate::text::{chars_of, string_of, append_chars, decimal, decimal_chars, signed_decimal, signed_decimal_chars};
use crate::hashing::{hash_text, text_fingerprint};
use crate::json::str_eq;

verus! {

/// Quota limits for different time periods and kinds of use.
#[derive(Debug, Clone, Copy, PartialEq, Eq, Structural)]
pub struct QuotaLimits {
    /// Daily token limit (input + output).
    pub daily_tokens: Option<u64>,
    /// Weekly token limit.
    pub weekly_tokens: Option<u64>,
    /// Monthly token limit.
    pub monthly_tokens: Option<u64>,
    /// Session time limit in minutes.
    pub session_time_minutes: Option<u64>,
    /// Daily request limit.
    pub daily_requests: Option<u64>,
}

/// How many hours of raw messages stay resident. Every live view reads at most the last hour;
/// a day gives generous headroom. Older messages live on only in the daily totals.
pub const LIVE_WINDOW_HOURS: i64 = 24;

/// The live window in seconds.
pub const LIVE_WINDOW_SECS: i64 = LIVE_WINDOW_HOURS * 3600;

/// The instant `ms` milliseconds after the epoch.
pub open spec fn instant_of_millis(ms: int) -> Timestamp {
    Timestamp { secs: (ms / 1000) as i64, nanos: ((ms % 1000) * 1_000_000) as u32 }
}

/// Calls chrono's `DateTime::from_timestamp_millis(ms)`, which splits `ms` into whole seconds
/// (rounded toward minus infinity) and the milliseconds left over, and gives that instant when
/// chrono represents its seconds (through `DateTime::from_timestamp`; see
/// [`crate::time::timestamp_from_secs`] for what is known of that range).
#[verifier::external_body]
pub(crate) fn timestamp_from_millis(ms: i64) -> (r: Option<Timestamp>)
    ensures
        r is Some <==> chrono_secs_in_range((ms as int / 1000) as i64),
        r matches Some(t) ==> t == instant_of_millis(ms as int),
        -8_000_000_000_000_000 <= ms <= 8_000_000_000_000_000 ==> r is Some,
        r matches Some(t) ==> t.wf(),
{
    match chrono::DateTime::from_timestamp_millis(ms) {
        Some(d) => Some(Timestamp { secs: d.timestamp(), nanos: d.timestamp_subsec_nanos() }),
        None => None,
    }
}

/// The oldest instant worth keeping in memory: a day before `now`, pulled further back to the
/// upload watermark (milliseconds since the epoch) when that is earlier, so trimming never drops
/// what the uploader still owes the server. A watermark chrono cannot represent is ignored.
pub open spec fn cutoff_spec(now: Timestamp, watermark: Option<i64>) -> Timestamp {
    let window_start = Timestamp { secs: (now.secs - LIVE_WINDOW_SECS) as i64, nanos: now.nanos };
    match watermark {
        Some(ms) => if chrono_secs_in_range((ms as int / 1000) as i64) && instant_of_millis(ms as int).as_nanos()
            < window_start.as_nanos() {
            instant_of_millis(ms as int)
        } else {
            window_start
        },
        None => window_start,
    }
}

/// The oldest instant worth keeping in memory (see [`cutoff_spec`]).
pub fn live_window_cutoff(now: Timestamp, upload_watermark_millis: Option<i64>) -> (r: Timestamp)
    requires
        now.wf(),
    ensures
        r == cutoff_spec(now, upload_watermark_millis),
        r.nanos < 1_000_000_000,
{
    let window_start = Timestamp { secs: now.secs - LIVE_WINDOW_SECS, nanos: now.nanos };
    match upload_watermark_millis {
        Some(ms) => match timestamp_from_millis(ms) {
            Some(w) => {
                proof {
                    assert(w.nanos < 1_000_000_000) by (nonlinear_arith)
                        requires
                            w == instant_of_millis(ms as int),
                    {
                    }
                }
                if w.is_before(&window_start) { w } else { window_start }
            },
            None => window_start,
        },
        None => window_start,
    }
}

/// Drops the messages dated before `cutoff`, keeping the others in order. The daily totals are
/// left alone: they already carry every message's contribution.
pub fn retain_live_window(stats: &mut AgenticCodingToolStats, cutoff: Timestamp)
    requires
        cutoff.nanos < 1_000_000_000,
        forall|i: int| 0 <= i < old(stats).messages.len() ==> (#[trigger] old(stats).messages@[i]).date.wf(),
    ensures
        final(stats).messages@ == old(stats).messages@.filter(
            |m: ConversationMessage| m.date.as_nanos() >= cutoff.as_nanos(),
        ),
        final(stats).daily_stats@ == old(stats).daily_stats@,
        final(stats).num_conversations == old(stats).num_conversations,
        final(stats).analyzer_name == old(stats).analyzer_name,
{
    let ghost orig = stats.messages@;
    let ghost keep = |m: ConversationMessage| m.date.as_nanos() >= cutoff.as_nanos();
    let mut kept: Vec<ConversationMessage> = Vec::new();
    let mut old_msgs: Vec<ConversationMessage> = Vec::new();
    std::mem::swap(&mut old_msgs, &mut stats.messages);
    let mut i: usize = 0;
    while i < old_msgs.len()
        invariant
            i <= old_msgs.len(),
            old_msgs@ == orig,
            cutoff.nanos < 1_000_000_000,
            forall|k: int| 0 <= k < orig.len() ==> (#[trigger] orig[k]).date.wf(),
            keep == (|m: ConversationMessage| m.date.as_nanos() >= cutoff.as_nanos()),
            kept@ == orig.take(i as int).filter(keep),
        decreases old_msgs.len() - i,
    {
        proof {
            reveal(Seq::filter);
            assert(orig.take(i + 1).drop_last() =~= orig.take(i as int));
            assert(orig[i as int].date.wf());
        }
        let ghost before = kept@;
        if !old_msgs[i].date.is_before(&cutoff) {
            kept.push(old_msgs[i].duplicate());
            proof {
                assert(keep(orig[i as int]));
            }
        } else {
            proof {
                assert(!keep(orig[i as int]));
            }
        }
        proof {
            assert(orig.take(i + 1).last() == orig[i as int]);
            assert(orig.take(i + 1).filter(keep) == if keep(orig[i as int]) {
                orig.take(i as int).filter(keep).push(orig[i as int])
            } else {
                orig.take(i as int).filter(keep)
            });
        }
        i = i + 1;
    }
    proof {
        assert(orig.take(orig.len() as int) =~= orig);
    }
    stats.messages = kept;
}

/// The messages dated at or after `date` milliseconds since the epoch, in order.
pub fn get_messages_later_than(date: i64, messages: Vec<ConversationMessage>) -> (r: Vec<ConversationMessage>)
    requires
        forall|i: int| 0 <= i < messages.len() ==> (#[trigger] messages@[i]).date.wf(),
    ensures
        r@ == messages@.filter(|m: ConversationMessage| m.date.secs * 1000 + m.date.nanos / 1_000_000 >= date),
{
    let ghost keep = |m: ConversationMessage| m.date.secs * 1000 + m.date.nanos / 1_000_000 >= date;
    let mut out: Vec<ConversationMessage> = Vec::new();
    let mut i: usize = 0;
    while i < messages.len()
        invariant
            i <= messages.len(),
            forall|k: int| 0 <= k < messages.len() ==> (#[trigger] messages@[k]).date.wf(),
            keep == (|m: ConversationMessage| m.date.secs * 1000 + m.date.nanos / 1_000_000 >= date),
            out@ == messages@.take(i as int).filter(keep),
        decreases messages.len() - i,
    {
        proof {
            reveal(Seq::filter);
            assert(messages@.take(i + 1).drop_last() =~= messages@.take(i as int));
            assert(messages@[i as int].date.wf());
        }
        if messages[i].date.millis() >= date {
            out.push(messages[i].duplicate());
            proof {
                assert(keep(messages@[i as int]));
            }
        } else {
            proof {
                assert(!keep(messages@[i as int]));
            }
        }
        proof {
            assert(messages@.take(i + 1).last() == messages@[i as int]);
            assert(messages@.take(i + 1).filter(keep) == if keep(messages@[i as int]) {
                messages@.take(i as int).filter(keep).push(messages@[i as int])
            } else {
                messages@.take(i as int).filter(keep)
            });
        }
        i = i + 1;
    }
    proof {
        assert(messages@.take(messages.len() as int) =~= messages@);
    }
    out
}

/// `s` padded with spaces on the right to `width` characters.
pub open spec fn pad_right(s: Seq<char>, width: int) -> Seq<char> {
    if s.len() < width { s + Seq::new((width - s.len()) as nat, |i: int| ' ') } else { s }
}

/// A project label fitted to `max_len` columns: the label itself if it is at most `max_len`
/// bytes, else its first `max_len - 5` characters, `…` and the first four hex digits of its
/// SHA-256 fingerprint; padded with spaces to `max_len` characters either way.
pub open spec fn project_label(label: Seq<char>, max_len: int) -> Seq<char> {
    let body = if encode_utf8(label).len() <= max_len {
        label
    } else {
        let take = if max_len >= 5 { max_len - 5 } else { 0 };
        label.take(if take < label.len() { take } else { label.len() as int }) + seq!['…'] + text_fingerprint(
            label,
        ).take(4)
    };
    pad_right(body, max_len)
}

/// Appends `n` spaces.
fn push_spaces(out: &mut Vec<char>, n: usize)
    ensures
        final(out)@ == old(out)@ + Seq::new(n as nat, |i: int| ' '),
{
    let ghost start = old(out)@;
    let mut k: usize = 0;
    while k < n
        invariant
            k <= n,
            out@ == start + Seq::new(k as nat, |i: int| ' '),
        decreases n - k,
    {
        out.push(' ');
        k = k + 1;
        proof {
            assert(out@ =~= start + Seq::new(k as nat, |i: int| ' '));
        }
    }
}

/// Fits a project label to `max_len` columns (see [`project_label`]).
pub fn truncate_project_label(label: &str, max_len: usize) -> (r: String)
    ensures
        r@ == project_label(label@, max_len as int),
{
    let mut out: Vec<char>;
    if label.as_bytes().len() <= max_len {
        out = chars_of(label);
    } else {
        let hash = hash_text(label);
        let hc = chars_of(hash.as_str());
        let take: usize = if max_len >= 5 { max_len - 5 } else { 0 };
        let cs = chars_of(label);
        let n: usize = if take < cs.len() { take } else { cs.len() };
        out = Vec::new();
        let mut k: usize = 0;
        while k < n
            invariant
                k <= n <= cs.len(),
                out@ == cs@.take(k as int),
            decreases n - k,
        {
            out.push(cs[k]);
            k = k + 1;
            proof {
                assert(cs@.take(k as int) =~= cs@.take(k - 1).push(cs@[k - 1]));
            }
        }
        out.push('…');
        let mut j: usize = 0;
        while j < 4
            invariant
                j <= 4,
                hc@.len() == 64,
                out@ == cs@.take(n as int) + seq!['…'] + hc@.take(j as int),
            decreases 4 - j,
        {
            out.push(hc[j]);
            j = j + 1;
            proof {
                assert(hc@.take(j as int) =~= hc@.take(j - 1).push(hc@[j - 1]));
            }
        }
    }
    let len = out.len();
    if len < max_len {
        push_spaces(&mut out, max_len - len);
    }
    proof {
        assert(out@ =~= project_label(label@, max_len as int));
    }
    string_of(out.as_slice())
}

/// Past this many bytes the error log is cut back before the next line is written.
pub const MAX_LOG_BYTES: u64 = 1_000_000;

/// How many bytes at the end of the error log a cut keeps.
pub const RETAIN_LOG_BYTES: u64 = 512_000;

/// Where the error log of `len` bytes is cut: nowhere while it holds at most
/// `MAX_LOG_BYTES`, else at the offset from which its last `RETAIN_LOG_BYTES` bytes run.
pub fn log_cut_offset(len: u64) -> (r: Option<u64>)
    ensures
        len <= MAX_LOG_BYTES ==> r.is_none(),
        len > MAX_LOG_BYTES ==> r == Some((len - RETAIN_LOG_BYTES) as u64),
{
    if len <= MAX_LOG_BYTES {
        None
    } else {
        Some(len - RETAIN_LOG_BYTES)
    }
}

/// One line of the error log: `[timestamp] level: message` and a line break.
pub open spec fn log_line_spec(timestamp: Seq<char>, level: Seq<char>, message: Seq<char>) -> Seq<char> {
    seq!['['] + timestamp + seq![']', ' '] + level + seq![':', ' '] + message + seq!['\n']
}

/// The line the error log gets for `message` at level `level`, written at `timestamp`.
pub fn log_line(timestamp: &str, level: &str, message: &str) -> (r: String)
    ensures
        r@ == log_line_spec(timestamp@, level@, message@),
{
    proof {
        reveal_strlit("[");
        reveal_strlit("] ");
        reveal_strlit(": ");
        reveal_strlit("\n");
    }
    String::from_str("[").concat(timestamp).concat("] ").concat(level).concat(": ").concat(message).concat(
        "\n",
    )
}

/// The last `max_lines` of `lines`, in their order; all of them when there are no more.
pub fn keep_last_lines(lines: Vec<String>, max_lines: usize) -> (r: Vec<String>)
    ensures
        lines.len() <= max_lines ==> r@ == lines@,
        lines.len() > max_lines ==> r@ == lines@.subrange(
            lines.len() - max_lines,
            lines.len() as int,
        ),
{
    let mut lines = lines;
    let n = lines.len();
    if n <= max_lines {
        lines
    } else {
        lines.split_off(n - max_lines)
    }
}

/// A warning shown once, and when.
#[derive(Debug)]
pub struct WarningEntry {
    pub message: String,
    pub timestamp: Timestamp,
}

/// Warnings the user has been shown, each text at most once over the run.
pub struct WarningLog {
    /// Every text ever warned about.
    pub warned: StringHashSet,
    /// The warnings still on display, oldest first.
    pub entries: Vec<WarningEntry>,
}

/// Warning entries as text and time.
pub open spec fn entry_views(es: Seq<WarningEntry>) -> Seq<(Seq<char>, Timestamp)> {
    es.map_values(|e: WarningEntry| (e.message@, e.timestamp))
}

/// Warning about `msg` at `now`: nothing changes if it was warned about before; otherwise it
/// is remembered and put on display.
pub open spec fn warn_once_spec(
    warned: Set<Seq<char>>,
    entries: Seq<(Seq<char>, Timestamp)>,
    msg: Seq<char>,
    now: Timestamp,
) -> (Set<Seq<char>>, Seq<(Seq<char>, Timestamp)>) {
    if warned.contains(msg) {
        (warned, entries)
    } else {
        (warned.insert(msg), entries.push((msg, now)))
    }
}

/// How long a warning stays on display, in whole seconds.
pub const WARNING_DISPLAY_SECS: i64 = 60;

/// The first `n` entries that are less than a minute old at `now`.
pub open spec fn fresh_entries(es: Seq<(Seq<char>, Timestamp)>, now: Timestamp, n: int) -> Seq<(Seq<char>, Timestamp)>
    decreases n,
{
    if n <= 0 {
        Seq::empty()
    } else {
        let prev = fresh_entries(es, now, n - 1);
        if seconds_between(now, es[n - 1].1) < WARNING_DISPLAY_SECS { prev.push(es[n - 1]) } else { prev }
    }
}

impl WarningLog {
    pub fn new() -> (r: WarningLog)
        ensures
            r.warned@ == Set::<Seq<char>>::empty(),
            r.entries@ == Seq::<WarningEntry>::empty(),
    {
        WarningLog { warned: StringHashSet::new(), entries: Vec::new() }
    }

    /// Warns about `message` at `now` unless it was warned about before (see [`warn_once_spec`]).
    pub fn warn_once(&mut self, message: String, now: Timestamp)
        ensures
            (final(self).warned@, entry_views(final(self).entries@)) == warn_once_spec(
                old(self).warned@,
                entry_views(old(self).entries@),
                message@,
                now,
            ),
    {
        let fresh = self.warned.insert(message.clone());
        if fresh {
            let ghost before = self.entries@;
            self.entries.push(WarningEntry { message, timestamp: now });
            proof {
                assert(entry_views(self.entries@) =~= entry_views(before).push((message@, now)));
            }
        }
    }

    /// The texts of the warnings less than a minute old at `now`, oldest first.
    pub fn get_warnings(&self, now: Timestamp) -> (r: Vec<String>)
        requires
            now.wf(),
            forall|k: int| 0 <= k < self.entries.len() ==> (#[trigger] self.entries@[k]).timestamp.wf(),
        ensures
            r@.map_values(|m: String| m@) == fresh_entries(entry_views(self.entries@), now, self.entries.len() as int).map_values(
                |e: (Seq<char>, Timestamp)| e.0,
            ),
    {
        let ghost ev = entry_views(self.entries@);
        let mut out: Vec<String> = Vec::new();
        let mut k: usize = 0;
        while k < self.entries.len()
            invariant
                k <= self.entries.len(),
                now.wf(),
                ev == entry_views(self.entries@),
                forall|q: int| 0 <= q < self.entries.len() ==> (#[trigger] self.entries@[q]).timestamp.wf(),
                out@.map_values(|m: String| m@) == fresh_entries(ev, now, k as int).map_values(
                    |e: (Seq<char>, Timestamp)| e.0,
                ),
            decreases self.entries.len() - k,
        {
            let e = &self.entries[k];
            proof {
                assert(self.entries@[k as int].timestamp.wf());
                assert(ev[k as int] == (e.message@, e.timestamp));
            }
            if now.seconds_since(&e.timestamp) < WARNING_DISPLAY_SECS {
                let ghost before = out@;
                out.push(e.message.clone());
                proof {
                    assert(out@.map_values(|m: String| m@) =~= before.map_values(|m: String| m@).push(e.message@));
                    assert(fresh_entries(ev, now, k + 1).map_values(|e: (Seq<char>, Timestamp)| e.0) =~= fresh_entries(
                        ev,
                        now,
                        k as int,
                    ).map_values(|e: (Seq<char>, Timestamp)| e.0).push(e.message@));
                }
            }
            k = k + 1;
        }
        out
    }

    /// Takes down the warnings a minute old or older at `now`; what remains stays in order.
    pub fn clear_old_warnings(&mut self, now: Timestamp)
        requires
            now.wf(),
            forall|k: int| 0 <= k < old(self).entries.len() ==> (#[trigger] old(self).entries@[k]).timestamp.wf(),
        ensures
            final(self).warned@ == old(self).warned@,
            entry_views(final(self).entries@) == fresh_entries(entry_views(old(self).entries@), now, old(self).entries.len() as int),
            forall|k: int| 0 <= k < final(self).entries.len() ==> (#[trigger] final(self).entries@[k]).timestamp.wf(),
    {
        let mut old_entries: Vec<WarningEntry> = Vec::new();
        std::mem::swap(&mut old_entries, &mut self.entries);
        let ghost ev = entry_views(old_entries@);
        let mut k: usize = 0;
        while k < old_entries.len()
            invariant
                k <= old_entries.len(),
                now.wf(),
                ev == entry_views(old_entries@),
                forall|q: int| 0 <= q < old_entries.len() ==> (#[trigger] old_entries@[q]).timestamp.wf(),
                forall|q: int| 0 <= q < self.entries.len() ==> (#[trigger] self.entries@[q]).timestamp.wf(),
                entry_views(self.entries@) == fresh_entries(ev, now, k as int),
                self.warned@ == old(self).warned@,
            decreases old_entries.len() - k,
        {
            let e = &old_entries[k];
            proof {
                assert(old_entries@[k as int].timestamp.wf());
                assert(ev[k as int] == (e.message@, e.timestamp));
            }
            if now.seconds_since(&e.timestamp) < WARNING_DISPLAY_SECS {
                let ghost before = self.entries@;
                self.entries.push(WarningEntry { message: e.message.clone(), timestamp: e.timestamp });
                proof {
                    assert(entry_views(self.entries@) =~= entry_views(before).push(ev[k as int]));
                }
            }
            k = k + 1;
        }
    }
}

/// The locales numbers can be grouped for.
#[derive(Debug, Clone, Copy, PartialEq, Eq, Structural)]
pub enum NumberLocale {
    En,
    De,
    Fr,
    Es,
    It,
    Ja,
    Ko,
    Zh,
}

/// The locale a configured name selects; English for any name not listed.
pub open spec fn locale_named(name: Seq<char>) -> NumberLocale {
    if name == "de"@ {
        NumberLocale::De
    } else if name == "fr"@ {
        NumberLocale::Fr
    } else if name == "es"@ {
        NumberLocale::Es
    } else if name == "it"@ {
        NumberLocale::It
    } else if name == "ja"@ {
        NumberLocale::Ja
    } else if name == "ko"@ {
        NumberLocale::Ko
    } else if name == "zh"@ {
        NumberLocale::Zh
    } else {
        NumberLocale::En
    }
}

/// The locale a configured name selects (see [`locale_named`]).
pub fn locale_from_name(name: &str) -> (r: NumberLocale)
    ensures
        r == locale_named(name@),
{
    if str_eq(name, "de") {
        NumberLocale::De
    } else if str_eq(name, "fr") {
        NumberLocale::Fr
    } else if str_eq(name, "es") {
        NumberLocale::Es
    } else if str_eq(name, "it") {
        NumberLocale::It
    } else if str_eq(name, "ja") {
        NumberLocale::Ja
    } else if str_eq(name, "ko") {
        NumberLocale::Ko
    } else if str_eq(name, "zh") {
        NumberLocale::Zh
    } else {
        NumberLocale::En
    }
}

/// The thousands separator of each locale.
pub open spec fn group_separator(l: NumberLocale) -> Seq<char> {
    match l {
        NumberLocale::En => ","@,
        NumberLocale::De => "."@,
        NumberLocale::Fr => seq!['\u{202f}'],
        NumberLocale::Es => "."@,
        NumberLocale::It => "."@,
        NumberLocale::Ja => ","@,
        NumberLocale::Ko => ","@,
        NumberLocale::Zh => ","@,
    }
}

/// `digits` in groups of three from the right, joined by `sep`.
pub open spec fn grouped(digits: Seq<char>, sep: Seq<char>) -> Seq<char>
    decreases digits.len(),
{
    if digits.len() <= 3 {
        digits
    } else {
        grouped(digits.take(digits.len() - 3), sep) + sep + digits.skip(digits.len() - 3)
    }
}

/// Calls `num_format`'s `to_formatted_string` with the matching `num_format::Locale`. Every one
/// of these locales uses the standard grouping, so the digits come in groups of three from the
/// right, joined by the locale's separator (listed in [`group_separator`]).
#[verifier::external_body]
fn grouped_decimal(n: u64, locale: NumberLocale) -> (r: String)
    ensures
        r@ == grouped(decimal(n as nat), group_separator(locale)),
{
    let l = match locale {
        NumberLocale::En => num_format::Locale::en,
        NumberLocale::De => num_format::Locale::de,
        NumberLocale::Fr => num_format::Locale::fr,
        NumberLocale::Es => num_format::Locale::es,
        NumberLocale::It => num_format::Locale::it,
        NumberLocale::Ja => num_format::Locale::ja,
        NumberLocale::Ko => num_format::Locale::ko,
        NumberLocale::Zh => num_format::Locale::zh,
    };
    n.to_formatted_string(&l)
}

/// How numbers are shown.
#[derive(Debug, Clone)]
pub struct NumberFormatOptions {
    pub use_comma: bool,
    pub use_human: bool,
    pub locale: String,
    pub decimal_places: usize,
}

impl Default for NumberFormatOptions {
    fn default() -> (r: NumberFormatOptions)
        ensures
            !r.use_comma,
            !r.use_human,
            r.locale@ == Seq::<char>::empty(),
            r.decimal_places == 0,
    {
        NumberFormatOptions { use_comma: false, use_human: false, locale: String::new(), decimal_places: 0 }
    }
}

/// How `n` is written under `options`: in human scale (`1.5k`, …) from a thousand up, which is
/// written in floating point and so left to the caller (`None`); grouped by the locale's
/// separator with `use_comma`; plain digits otherwise.
pub open spec fn number_text(n: u64, options: NumberFormatOptions) -> Option<Seq<char>> {
    if options.use_human && n >= 1000 {
        None
    } else if !options.use_human && options.use_comma {
        Some(grouped(decimal(n as nat), group_separator(locale_named(options.locale@))))
    } else {
        Some(decimal(n as nat))
    }
}

/// Writes `n` as `options` ask (see [`number_text`]); `None` for the human scale, which the
/// caller writes in floating point.
pub fn format_number(n: u64, options: &NumberFormatOptions) -> (r: Option<String>)
    ensures
        match r {
            Some(t) => number_text(n, *options) == Some(t@),
            None => number_text(n, *options) is None,
        },
{
    if options.use_human {
        if n >= 1000 {
            None
        } else {
            let d = decimal_chars(n);
            Some(string_of(d.as_slice()))
        }
    } else if options.use_comma {
        let locale = locale_from_name(options.locale.as_str());
        Some(grouped_decimal(n, locale))
    } else {
        let d = decimal_chars(n);
        Some(string_of(d.as_slice()))
    }
}

/// What chrono's `NaiveDate::parse_from_str(s, "%Y-%m-%d")` makes of `s`: the year, month, day
/// and the day's number counted from 1970-01-01, or nothing.
pub uninterp spec fn parsed_ymd(s: Seq<char>) -> Option<(i32, u32, u32, i64)>;

/// Calls chrono's `NaiveDate::parse_from_str(s, "%Y-%m-%d")` and reads the date's year, month,
/// day and its days since the epoch (`signed_duration_since` of the epoch date).
#[verifier::external_body]
fn parse_ymd(s: &str) -> (r: Option<(i32, u32, u32, i64)>)
    ensures
        r == parsed_ymd(s@),
        r matches Some(t) ==> 1 <= t.1 <= 12 && 1 <= t.2 <= 31,
{
    match chrono::NaiveDate::parse_from_str(s, "%Y-%m-%d") {
        Ok(d) => Some((d.year(), d.month(), d.day(), d.signed_duration_since(chrono::NaiveDate::default()).num_days())),
        Err(_) => None,
    }
}

/// Calls chrono's `DateTime::from_timestamp(t.secs, t.nanos)` and, when it gives an instant,
/// takes its date in the machine's local time zone (`with_timezone(&Local).date_naive()`): the
/// year, month, day and days since 1970-01-01. There is a date exactly when chrono represents
/// `t.secs`; which date it is depends on the machine's time zone, so only the ranges of month
/// and day are stated.
#[verifier::external_body]
fn local_date_of(t: Timestamp) -> (r: Option<(i32, u32, u32, i64)>)
    requires
        t.wf(),
    ensures
        r is Some <==> chrono_secs_in_range(t.secs),
        r matches Some(d) ==> 1 <= d.1 <= 12 && 1 <= d.2 <= 31,
{
    match chrono::DateTime::from_timestamp(t.secs, t.nanos) {
        Some(d) => {
            let day = d.with_timezone(&chrono::Local).date_naive();
            Some((day.year(), day.month(), day.day(), day.signed_duration_since(chrono::NaiveDate::default()).num_days()))
        },
        None => None,
    }
}

/// Today's date on this machine's clock and time zone, when the clock reads a time that
/// chrono represents.
fn local_today() -> (r: Option<(i32, u32, u32, i64)>)
    ensures
        r matches Some(d) ==> 1 <= d.1 <= 12 && 1 <= d.2 <= 31,
{
    match crate::time::utc_now() {
        Some(t) => local_date_of(t),
        None => None,
    }
}

/// How a `YYYY-MM-DD` date is shown: `M/D/YYYY` without padding, with `*` when it is `today`;
/// `Unknown` for `unknown`; anything else unparsable as it is.
pub open spec fn date_display(date: Seq<char>, today: (i32, u32, u32, i64)) -> Seq<char> {
    if date == "unknown"@ {
        "Unknown"@
    } else {
        match parsed_ymd(date) {
            Some(t) => decimal(t.1 as nat) + seq!['/'] + decimal(t.2 as nat) + seq!['/'] + signed_decimal(t.0 as int) + if t
                == today {
                seq!['*']
            } else {
                Seq::empty()
            },
            None => date,
        }
    }
}

/// Shows a `YYYY-MM-DD` date as [`date_display`] describes, for the given `today`.
pub fn display_date(date: &str, today: (i32, u32, u32, i64)) -> (r: String)
    ensures
        r@ == date_display(date@, today),
{
    if str_eq(date, "unknown") {
        return "Unknown".to_owned();
    }
    match parse_ymd(date) {
        Some(t) => {
            let mut out = decimal_chars(t.1 as u64);
            out.push('/');
            let d = decimal_chars(t.2 as u64);
            append_chars(&mut out, d.as_slice());
            out.push('/');
            let y = signed_decimal_chars(t.0 as i64);
            append_chars(&mut out, y.as_slice());
            if t.0 == today.0 && t.1 == today.1 && t.2 == today.2 && t.3 == today.3 {
                out.push('*');
            }
            proof {
                assert(out@ =~= date_display(date@, today));
            }
            string_of(out.as_slice())
        },
        None => date.to_owned(),
    }
}

/// Shows a `YYYY-MM-DD` date for the table, marking today's by this machine's clock and zone.
pub fn format_date_for_display(date: &str) -> (r: String)
    ensures
        exists|today: (i32, u32, u32, i64)| r@ == date_display(date@, today),
{
    // When the clock cannot be read no date is marked: month zero matches none.
    let today = match local_today() {
        Some(d) => d,
        None => (0, 0, 0, 0),
    };
    display_date(date, today)
}

/// The UTC day of an instant, counted from 1970-01-01.
pub open spec fn utc_day(t: Timestamp) -> int {
    t.secs as int / 86400
}

/// Output tokens of the first `n` messages dated on UTC day `day`.
pub open spec fn output_on_day(msgs: Seq<ConversationMessage>, day: int, n: int) -> int
    decreases n,
{
    if n <= 0 {
        0
    } else {
        output_on_day(msgs, day, n - 1) + if utc_day(msgs[n - 1].date) == day { msgs[n - 1].stats.output_tokens as int } else { 0 }
    }
}

/// Output tokens of the first `n` messages dated in the seven UTC days ending on `day`.
pub open spec fn output_in_week(msgs: Seq<ConversationMessage>, day: int, n: int) -> int
    decreases n,
{
    if n <= 0 {
        0
    } else {
        output_in_week(msgs, day, n - 1) + if 0 <= day - utc_day(msgs[n - 1].date) < 7 {
            msgs[n - 1].stats.output_tokens as int
        } else {
            0
        }
    }
}

/// Output tokens of the first `n` messages.
pub open spec fn output_total(msgs: Seq<ConversationMessage>, n: int) -> int
    decreases n,
{
    if n <= 0 { 0 } else { output_total(msgs, n - 1) + msgs[n - 1].stats.output_tokens }
}

pub proof fn lemma_output_bounds(msgs: Seq<ConversationMessage>, day: int, n: int)
    ensures
        0 <= output_on_day(msgs, day, n) <= output_total(msgs, n),
        0 <= output_in_week(msgs, day, n) <= output_total(msgs, n),
    decreases n,
{
    if n > 0 {
        lemma_output_bounds(msgs, day, n - 1);
    }
}

/// The output tokens of `messages` on UTC day `day` and in the seven UTC days ending on it.
pub fn output_token_usage(messages: &[ConversationMessage], day: i64) -> (r: (u64, u64))
    requires
        output_total(messages@, messages.len() as int) <= u64::MAX,
    ensures
        r.0 == output_on_day(messages@, day as int, messages.len() as int),
        r.1 == output_in_week(messages@, day as int, messages.len() as int),
{
    let mut daily: u64 = 0;
    let mut weekly: u64 = 0;
    let mut i: usize = 0;
    while i < messages.len()
        invariant
            i <= messages.len(),
            output_total(messages@, messages.len() as int) <= u64::MAX,
            daily == output_on_day(messages@, day as int, i as int),
            weekly == output_in_week(messages@, day as int, i as int),
        decreases messages.len() - i,
    {
        proof {
            lemma_output_bounds(messages@, day as int, i + 1);
            lemma_output_total_mono(messages@, i + 1, messages.len() as int);
        }
        let m = &messages[i];
        let mday = m.date.secs / 86400 - if m.date.secs % 86400 < 0 { 1 } else { 0 };
        proof {
            assert(mday == utc_day(m.date)) by (nonlinear_arith)
                requires
                    mday == (m.date.secs / 86400) - if m.date.secs % 86400 < 0 { 1int } else { 0int },
            {
            }
        }
        if mday == day {
            daily = daily + m.stats.output_tokens;
        }
        let diff: i128 = day as i128 - mday as i128;
        if 0 <= diff && diff < 7 {
            weekly = weekly + m.stats.output_tokens;
        }
        i = i + 1;
    }
    (daily, weekly)
}

pub proof fn lemma_output_total_mono(msgs: Seq<ConversationMessage>, a: int, b: int)
    requires
        a <= b,
    ensures
        output_total(msgs, a) <= output_total(msgs, b),
    decreases b - a,
{
    if a < b {
        lemma_output_total_mono(msgs, a, b - 1);
    }
}

/// The output tokens of `messages` on the day `current_date` names (`YYYY-MM-DD`, or today by
/// this machine's clock when it does not parse) and in the seven days ending on it, by UTC date:
/// the usage the health gauge compares with its daily and weekly targets.
pub fn health_usage(messages: &[ConversationMessage], current_date: &str) -> (r: (u64, u64))
    requires
        output_total(messages@, messages.len() as int) <= u64::MAX,
    ensures
        exists|day: i64| #![auto]
            (parsed_ymd(current_date@) matches Some(t) ==> day == t.3) && r.0 == output_on_day(messages@, day as int, messages.len() as int)
                && r.1 == output_in_week(messages@, day as int, messages.len() as int),
{
    let day = match parse_ymd(current_date) {
        Some(t) => t.3,
        None => match local_today() {
            Some(d) => d.3,
            None => 0,
        },
    };
    output_token_usage(messages, day)
}

/// The name the configuration gives each locale.
pub open spec fn locale_code(l: NumberLocale) -> Seq<char> {
    match l {
        NumberLocale::En => "en"@,
        NumberLocale::De => "de"@,
        NumberLocale::Fr => "fr"@,
        NumberLocale::Es => "es"@,
        NumberLocale::It => "it"@,
        NumberLocale::Ja => "ja"@,
        NumberLocale::Ko => "ko"@,
        NumberLocale::Zh => "zh"@,
    }
}

/// Every locale is selected by its own name, so two names never select one locale; and the
/// German, Spanish and Italian names group digits with `.`, the English, Japanese, Korean and
/// Chinese ones with `,`.
pub proof fn law_each_locale_name_selects_its_locale(l: NumberLocale, name: Seq<char>)
    ensures
        locale_named(locale_code(l)) == l,
        (name == "de"@ || name == "es"@ || name == "it"@) ==> group_separator(locale_named(name)) == "."@,
        (name == "en"@ || name == "ja"@ || name == "ko"@ || name == "zh"@) ==> group_separator(locale_named(name)) == ","@,
{
    reveal_strlit("en");
    reveal_strlit("de");
    reveal_strlit("fr");
    reveal_strlit("es");
    reveal_strlit("it");
    reveal_strlit("ja");
    reveal_strlit("ko");
    reveal_strlit("zh");
    reveal_strlit(".");
    reveal_strlit(",");
    assert("en"@ != "de"@) by {
        assert("en"@[0] != "de"@[0]);
    }
    assert("en"@ != "fr"@) by {
        assert("en"@[0] != "fr"@[0]);
    }
    assert("en"@ != "es"@) by {
        assert("en"@[1] != "es"@[1]);
    }
    assert("en"@ != "it"@) by {
        assert("en"@[0] != "it"@[0]);
    }
    assert("en"@ != "ja"@) by {
        assert("en"@[0] != "ja"@[0]);
    }
    assert("en"@ != "ko"@) by {
        assert("en"@[0] != "ko"@[0]);
    }
    assert("en"@ != "zh"@) by {
        assert("en"@[0] != "zh"@[0]);
    }
    assert("de"@ != "fr"@) by {
        assert("de"@[0] != "fr"@[0]);
    }
    assert("de"@ != "es"@) by {
        assert("de"@[0] != "es"@[0]);
    }
    assert("de"@ != "it"@) by {
        assert("de"@[0] != "it"@[0]);
    }
    assert("de"@ != "ja"@) by {
        assert("de"@[0] != "ja"@[0]);
    }
    assert("de"@ != "ko"@) by {
        assert("de"@[0] != "ko"@[0]);
    }
    assert("de"@ != "zh"@) by {
        assert("de"@[0] != "zh"@[0]);
    }
    assert("fr"@ != "es"@) by {
        assert("fr"@[0] != "es"@[0]);
    }
    assert("fr"@ != "it"@) by {
        assert("fr"@[0] != "it"@[0]);
    }
    assert("fr"@ != "ja"@) by {
        assert("fr"@[0] != "ja"@[0]);
    }
    assert("fr"@ != "ko"@) by {
        assert("fr"@[0] != "ko"@[0]);
    }
    assert("fr"@ != "zh"@) by {
        assert("fr"@[0] != "zh"@[0]);
    }
    assert("es"@ != "it"@) by {
        assert("es"@[0] != "it"@[0]);
    }
    assert("es"@ != "ja"@) by {
        assert("es"@[0] != "ja"@[0]);
    }
    assert("es"@ != "ko"@) by {
        assert("es"@[0] != "ko"@[0]);
    }
    assert("es"@ != "zh"@) by {
        assert("es"@[0] != "zh"@[0]);
    }
    assert("it"@ != "ja"@) by {
        assert("it"@[0] != "ja"@[0]);
    }
    assert("it"@ != "ko"@) by {
        assert("it"@[0] != "ko"@[0]);
    }
    assert("it"@ != "zh"@) by {
        assert("it"@[0] != "zh"@[0]);
    }
    assert("ja"@ != "ko"@) by {
        assert("ja"@[0] != "ko"@[0]);
    }
    assert("ja"@ != "zh"@) by {
        assert("ja"@[0] != "zh"@[0]);
    }
    assert("ko"@ != "zh"@) by {
        assert("ko"@[0] != "zh"@[0]);
    }
}

} // verus!
