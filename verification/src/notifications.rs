//! Waiting-conversation alerts: which conversations are waiting on their user, which alert is
//! worth sending, what it says, and when the next one falls due.
use vstd::prelude::*;
use vstd::multiset::Multiset;
use vstd::relations::{sorted_by, total_ordering};
use crate::time::{Timestamp, seconds_between, trunc_div, chrono_secs_in_range, sat_sub_i64, saturating_sub_i64, utc_now};
use crate::config::{Config, SlackConfig};
use vstd::hash_set::StringHashSet;
use vstd::hash_map::StringHashMap;
use crate::types::{Application, ConversationMessage, MessageRole, MessageView, AgenticCodingToolStats, MultiAnalyzerStats};
use crate::conversations::{conv_order, members, group_by_conversation, lemma_members_props};
use crate::text::{chars_of, string_of, append_chars, decimal, signed_decimal, decimal_chars, signed_decimal_chars, words, join_words, clean_message};
use vstd::utf8::encode_utf8;

verus! {

/// When a conversation counts as waiting on its user.
#[derive(Clone, Copy, Debug)]
pub struct NotificationSettings {
    /// Idle seconds after the assistant's last message from which the user is waited on.
    pub waiting_seconds: i64,
    /// Idle seconds beyond which a conversation is abandoned rather than waiting.
    pub stale_seconds: i64,
    /// How many of the conversation's latest messages an alert carries.
    pub sample_messages: usize,
}

/// The order in which a conversation's messages are read: by time, and messages recorded at the
/// same instant in the order they were recorded (what a stable sort by date gives).
pub open spec fn time_leq(msgs: Seq<ConversationMessage>) -> spec_fn(usize, usize) -> bool {
    |a: usize, b: usize|
        msgs[a as int].date.as_nanos() < msgs[b as int].date.as_nanos() || (msgs[a as int].date.as_nanos()
            == msgs[b as int].date.as_nanos() && a <= b)
}

pub proof fn lemma_time_leq_total(msgs: Seq<ConversationMessage>)
    ensures
        total_ordering(time_leq(msgs)),
{
}

/// Every message's timestamp is well-formed.
pub open spec fn dates_wf(msgs: Seq<ConversationMessage>) -> bool {
    forall|i: int| 0 <= i < msgs.len() ==> (#[trigger] msgs[i]).date.wf()
}

/// The indices of conversation `c`'s messages in reading order.
pub open spec fn timeline(msgs: Seq<ConversationMessage>, c: Seq<char>) -> Seq<usize> {
    members(msgs, c, msgs.len() as int).sort_by(time_leq(msgs))
}

/// `time_leq` on two message indices.
fn read_before_or_same(msgs: &[ConversationMessage], a: usize, b: usize) -> (r: bool)
    requires
        a < msgs.len(),
        b < msgs.len(),
        dates_wf(msgs@),
    ensures
        r == (time_leq(msgs@))(a, b),
{
    let da = msgs[a].date;
    let db = msgs[b].date;
    proof {
        assert(msgs@[a as int].date.wf());
        assert(msgs@[b as int].date.wf());
    }
    da.is_before(&db) || (!db.is_before(&da) && a <= b)
}

/// Sorts message indices into reading order, by insertion into a fresh vector.
fn sort_by_time(msgs: &[ConversationMessage], idxs: &Vec<usize>) -> (r: Vec<usize>)
    requires
        dates_wf(msgs@),
        forall|k: int| 0 <= k < idxs.len() ==> #[trigger] idxs[k] < msgs.len(),
    ensures
        sorted_by(r@, time_leq(msgs@)),
        r@.to_multiset() == idxs@.to_multiset(),
{
    broadcast use vstd::seq_lib::group_to_multiset_ensures;
    let ghost leq = time_leq(msgs@);
    proof {
        lemma_time_leq_total(msgs@);
    }
    let mut r: Vec<usize> = Vec::new();
    let mut i: usize = 0;
    while i < idxs.len()
        invariant
            i <= idxs.len(),
            leq == time_leq(msgs@),
            total_ordering(leq),
            dates_wf(msgs@),
            forall|k: int| 0 <= k < idxs.len() ==> #[trigger] idxs[k] < msgs.len(),
            forall|k: int| 0 <= k < r.len() ==> #[trigger] r[k] < msgs.len(),
            sorted_by(r@, leq),
            r@.to_multiset() == idxs@.take(i as int).to_multiset(),
        decreases idxs.len() - i,
    {
        let x = idxs[i];
        let mut p: usize = 0;
        while p < r.len() && read_before_or_same(msgs, r[p], x)
            invariant
                p <= r.len(),
                x < msgs.len(),
                dates_wf(msgs@),
                forall|k: int| 0 <= k < r.len() ==> #[trigger] r[k] < msgs.len(),
                forall|a: int| 0 <= a < p ==> #[trigger] leq(r[a], x),
                leq == time_leq(msgs@),
            decreases r.len() - p,
        {
            p = p + 1;
        }
        let ghost before = r@;
        r.insert(p, x);
        proof {
            let a = before.take(p as int);
            let b = before.skip(p as int);
            let xs = seq![x];
            assert(r@ =~= (a + xs) + b);
            assert(before =~= a + b);
            vstd::seq_lib::lemma_multiset_commutative(a, b);
            vstd::seq_lib::lemma_multiset_commutative(a + xs, b);
            vstd::seq_lib::lemma_multiset_commutative(a, xs);
            assert(xs =~= Seq::<usize>::empty().push(x));
            assert(Seq::<usize>::empty().to_multiset() =~= Multiset::<usize>::empty()) by {
                broadcast use vstd::multiset::group_multiset_axioms;
                broadcast use vstd::seq_lib::group_to_multiset_ensures;
                vstd::multiset::lemma_multiset_empty_len(Seq::<usize>::empty().to_multiset());
                assert(Seq::<usize>::empty().to_multiset().len() == 0);
            }
            assert(xs.to_multiset() =~= Multiset::<usize>::empty().insert(x)) by {
                broadcast use vstd::seq_lib::group_to_multiset_ensures;
                assert(xs.to_multiset() == Seq::<usize>::empty().push(x).to_multiset());
            }
            assert(r@.to_multiset() =~= before.to_multiset().insert(x)) by {
                broadcast use vstd::multiset::group_multiset_axioms;
                assert(r@.to_multiset() =~= a.to_multiset().add(xs.to_multiset()).add(b.to_multiset()));
                assert(before.to_multiset() =~= a.to_multiset().add(b.to_multiset()));
            }
            assert(idxs@.take(i + 1) =~= idxs@.take(i as int).push(x));
            idxs@.take(i as int).to_multiset_ensures();
            assert(idxs@.take(i as int).push(x).to_multiset() =~= idxs@.take(i as int).to_multiset().insert(x));
            assert(r@.to_multiset() =~= idxs@.take(i + 1).to_multiset());
            if p < before.len() {
                assert(!leq(before[p as int], x));
                assert(leq(x, before[p as int]));
            }
            assert forall|a: int, b: int| 0 <= a < b < r@.len() implies #[trigger] leq(r@[a], r@[b]) by {
                if b < p {
                } else if b == p {
                    assert(r@[a] == before[a]);
                } else if a < p {
                    assert(r@[a] == before[a]);
                    assert(r@[b] == before[b - 1]);
                } else if a == p {
                    assert(r@[b] == before[b - 1]);
                    if p < b - 1 {
                        assert(leq(before[p as int], before[b - 1]));
                    }
                } else {
                    assert(r@[a] == before[a - 1]);
                    assert(r@[b] == before[b - 1]);
                }
            }
            assert forall|k: int| 0 <= k < r.len() implies #[trigger] r[k] < msgs.len() by {
                if k < p {
                    assert(r@[k] == before[k]);
                } else if k > p {
                    assert(r@[k] == before[k - 1]);
                }
            }
        }
        i = i + 1;
    }
    proof {
        assert(idxs@.take(idxs.len() as int) =~= idxs@);
    }
    r
}

/// A conversation's messages in reading order, given the ascending indices of its messages.
fn read_in_order(msgs: &[ConversationMessage], group: &Vec<usize>, Ghost(c): Ghost<Seq<char>>) -> (r: Vec<usize>)
    requires
        dates_wf(msgs@),
        group@ == members(msgs@, c, msgs.len() as int),
    ensures
        r@ == timeline(msgs@, c),
        forall|k: int| 0 <= k < r.len() ==> #[trigger] r[k] < msgs.len(),
        forall|k: int| 0 <= k < r.len() ==> msgs@[#[trigger] r[k] as int].conversation_hash@ == c,
        r.len() == group.len(),
{
    proof {
        lemma_members_props(msgs@, c, msgs.len() as int);
    }
    let r = sort_by_time(msgs, group);
    proof {
        broadcast use vstd::seq_lib::group_to_multiset_ensures;
        lemma_time_leq_total(msgs@);
        group@.lemma_sort_by_ensures(time_leq(msgs@));
        vstd::seq_lib::lemma_sorted_unique(r@, group@.sort_by(time_leq(msgs@)), time_leq(msgs@));
        assert(r@.len() == group@.len()) by {
            assert(r@.to_multiset().len() == group@.to_multiset().len());
        }
        assert forall|k: int| 0 <= k < r.len() implies #[trigger] r[k] < msgs.len()
            && msgs@[r[k] as int].conversation_hash@ == c by {
            assert(r@.contains(r@[k]));
            assert(group@.contains(r@[k]));
        }
    }
    r
}

/// The position, among the first `n` of a timeline, of the last message the user wrote.
pub open spec fn last_user_pos(msgs: Seq<ConversationMessage>, tl: Seq<usize>, n: int) -> Option<int>
    decreases n,
{
    if n <= 0 {
        None
    } else if msgs[tl[n - 1] as int].role == MessageRole::User {
        Some(n - 1)
    } else {
        last_user_pos(msgs, tl, n - 1)
    }
}

pub proof fn lemma_last_user_pos_range(msgs: Seq<ConversationMessage>, tl: Seq<usize>, n: int)
    ensures
        last_user_pos(msgs, tl, n) matches Some(p) ==> 0 <= p < n && msgs[tl[p] as int].role == MessageRole::User,
    decreases n,
{
    if n > 0 {
        lemma_last_user_pos_range(msgs, tl, n - 1);
    }
}

/// Seconds idle since `t`, never negative.
pub open spec fn idle_seconds(now: Timestamp, t: Timestamp) -> int {
    let s = seconds_between(now, t);
    if s > 0 { s } else { 0 }
}

/// An alert as the contracts see it.
pub ghost struct AlertView {
    pub analyzer_name: Seq<char>,
    pub application: Application,
    pub last_global_hash: Seq<char>,
    pub conversation_hash: Seq<char>,
    pub project_hash: Seq<char>,
    pub model: Option<Seq<char>>,
    pub idle_seconds: int,
    pub last_message_time: Timestamp,
    pub recent_messages: Seq<MessageView>,
}

/// A conversation whose assistant spoke last and which now waits on its user.
#[derive(Debug)]
pub struct WaitingAlert {
    pub analyzer_name: String,
    pub application: Application,
    pub last_global_hash: String,
    pub conversation_hash: String,
    pub project_hash: String,
    pub model: Option<String>,
    pub idle_seconds: i64,
    pub last_message_time: Timestamp,
    /// The latest messages, oldest first.
    pub recent_messages: Vec<ConversationMessage>,
}

/// The views of a sequence of messages.
pub open spec fn message_views(ms: Seq<ConversationMessage>) -> Seq<MessageView> {
    ms.map_values(|m: ConversationMessage| m@)
}

impl View for WaitingAlert {
    type V = AlertView;

    open spec fn view(&self) -> AlertView {
        AlertView {
            analyzer_name: self.analyzer_name@,
            application: self.application,
            last_global_hash: self.last_global_hash@,
            conversation_hash: self.conversation_hash@,
            project_hash: self.project_hash@,
            model: crate::types::opt_view(self.model),
            idle_seconds: self.idle_seconds as int,
            last_message_time: self.last_message_time,
            recent_messages: message_views(self.recent_messages@),
        }
    }
}

/// The views of a sequence of alerts.
pub open spec fn alert_views(v: Seq<WaitingAlert>) -> Seq<AlertView> {
    v.map_values(|a: WaitingAlert| a@)
}

/// The last `k` messages of a timeline, oldest first.
pub open spec fn recent_views(msgs: Seq<ConversationMessage>, tl: Seq<usize>, k: int) -> Seq<MessageView> {
    let start = if tl.len() > k { tl.len() - k } else { 0 };
    tl.subrange(start, tl.len() as int).map_values(|i: usize| msgs[i as int]@)
}

/// The alert conversation `c` raises at `now`, if it waits on its user: the assistant spoke
/// last, between `waiting_seconds` and `stale_seconds` ago, and the user's last message before it
/// came at most an hour (in whole minutes) earlier.
pub open spec fn waiting_alert(
    msgs: Seq<ConversationMessage>,
    c: Seq<char>,
    s: NotificationSettings,
    now: Timestamp,
    name: Seq<char>,
) -> Option<AlertView> {
    let tl = timeline(msgs, c);
    if tl.len() == 0 {
        None
    } else {
        let last = msgs[tl.last() as int];
        let idle = idle_seconds(now, last.date);
        if last.role != MessageRole::Assistant || idle < s.waiting_seconds || idle > s.stale_seconds {
            None
        } else {
            match last_user_pos(msgs, tl, tl.len() - 1) {
                None => None,
                Some(p) => if trunc_div(seconds_between(last.date, msgs[tl[p] as int].date), 60) > 60 {
                    None
                } else {
                    Some(AlertView {
                        analyzer_name: name,
                        application: last.application,
                        last_global_hash: last.global_hash@,
                        conversation_hash: last.conversation_hash@,
                        project_hash: last.project_hash@,
                        model: crate::types::opt_view(last.model),
                        idle_seconds: idle,
                        last_message_time: last.date,
                        recent_messages: recent_views(msgs, tl, s.sample_messages as int),
                    })
                },
            }
        }
    }
}

/// The alerts of the conversations `names`, in that order.
pub open spec fn waiting_alerts(
    msgs: Seq<ConversationMessage>,
    names: Seq<Seq<char>>,
    s: NotificationSettings,
    now: Timestamp,
    name: Seq<char>,
) -> Seq<AlertView>
    decreases names.len(),
{
    if names.len() == 0 {
        Seq::empty()
    } else {
        let prev = waiting_alerts(msgs, names.drop_last(), s, now, name);
        match waiting_alert(msgs, names.last(), s, now, name) {
            Some(a) => prev.push(a),
            None => prev,
        }
    }
}

/// The position of the last user message among the first `n` of a timeline.
fn find_last_user(msgs: &[ConversationMessage], tl: &Vec<usize>, n: usize) -> (r: Option<usize>)
    requires
        n <= tl.len(),
        forall|k: int| 0 <= k < tl.len() ==> #[trigger] tl[k] < msgs.len(),
    ensures
        match r {
            Some(p) => last_user_pos(msgs@, tl@, n as int) == Some(p as int),
            None => last_user_pos(msgs@, tl@, n as int) is None,
        },
{
    let mut j: usize = n;
    while j > 0
        invariant
            j <= n <= tl.len(),
            forall|k: int| 0 <= k < tl.len() ==> #[trigger] tl[k] < msgs.len(),
            last_user_pos(msgs@, tl@, n as int) == last_user_pos(msgs@, tl@, j as int),
        decreases j,
    {
        if msgs[tl[j - 1]].role == MessageRole::User {
            return Some(j - 1);
        }
        j = j - 1;
    }
    None
}

/// The alert one conversation raises, given its timeline.
fn alert_for(
    msgs: &[ConversationMessage],
    tl: &Vec<usize>,
    Ghost(c): Ghost<Seq<char>>,
    settings: &NotificationSettings,
    now: Timestamp,
    analyzer_name: &String,
) -> (r: Option<WaitingAlert>)
    requires
        dates_wf(msgs@),
        now.wf(),
        tl@ == timeline(msgs@, c),
        forall|k: int| 0 <= k < tl.len() ==> #[trigger] tl[k] < msgs.len(),
    ensures
        match r {
            Some(a) => waiting_alert(msgs@, c, *settings, now, analyzer_name@) == Some(a@),
            None => waiting_alert(msgs@, c, *settings, now, analyzer_name@) is None,
        },
{
    let len = tl.len();
    if len == 0 {
        return None;
    }
    let li = tl[len - 1];
    let last = &msgs[li];
    proof {
        assert(tl@.last() == li);
        assert(msgs@[li as int].date.wf());
    }
    let since = now.seconds_since(&last.date);
    let idle: i64 = if since > 0 { since } else { 0 };
    if last.role != MessageRole::Assistant || idle < settings.waiting_seconds || idle > settings.stale_seconds {
        return None;
    }
    let found = find_last_user(msgs, tl, len - 1);
    let p = match found {
        Some(p) => p,
        None => return None,
    };
    proof {
        lemma_last_user_pos_range(msgs@, tl@, len - 1);
        lemma_time_leq_total(msgs@);
        let tlv = timeline(msgs@, c);
        members(msgs@, c, msgs.len() as int).lemma_sort_by_ensures(time_leq(msgs@));
        assert((time_leq(msgs@))(tl@[p as int], tl@[len - 1]));
        assert(msgs@[tl@[p as int] as int].date.wf());
    }
    let gap = last.date.seconds_since(&msgs[tl[p]].date);
    proof {
        assert(gap >= 0);
        assert(trunc_div(gap as int, 60) == gap / 60);
    }
    if gap / 60 > 60 {
        return None;
    }
    let start: usize = if len > settings.sample_messages { len - settings.sample_messages } else { 0 };
    let mut recent: Vec<ConversationMessage> = Vec::new();
    let mut k: usize = start;
    while k < len
        invariant
            start <= k <= len,
            len == tl.len(),
            forall|q: int| 0 <= q < tl.len() ==> #[trigger] tl[q] < msgs.len(),
            message_views(recent@) == tl@.subrange(start as int, k as int).map_values(|i: usize| msgs@[i as int]@),
        decreases len - k,
    {
        let m = msgs[tl[k]].duplicate();
        let ghost before = recent@;
        recent.push(m);
        proof {
            assert(recent@ == before.push(m));
            assert(message_views(recent@) =~= message_views(before).push(m@));
            assert(tl@.subrange(start as int, k + 1) =~= tl@.subrange(start as int, k as int).push(tl@[k as int]));
        }
        k = k + 1;
    }
    Some(WaitingAlert {
        analyzer_name: analyzer_name.clone(),
        application: last.application,
        last_global_hash: last.global_hash.clone(),
        conversation_hash: last.conversation_hash.clone(),
        project_hash: last.project_hash.clone(),
        model: crate::types::copy_opt_string(&last.model),
        idle_seconds: idle,
        last_message_time: last.date,
        recent_messages: recent,
    })
}

/// The conversations of one analyzer that wait on their user at `now`, one alert each, in the
/// order the conversations first appear among the messages (see [`waiting_alert`]).
pub fn find_waiting_conversations(
    stats: &AgenticCodingToolStats,
    settings: &NotificationSettings,
    now: Timestamp,
) -> (r: Vec<WaitingAlert>)
    requires
        dates_wf(stats.messages@),
        now.wf(),
    ensures
        alert_views(r@) == waiting_alerts(
            stats.messages@,
            conv_order(stats.messages@, stats.messages.len() as int),
            *settings,
            now,
            stats.analyzer_name@,
        ),
{
    let msgs = stats.messages.as_slice();
    let (groups, Ghost(names)) = group_by_conversation(msgs);
    let mut alerts: Vec<WaitingAlert> = Vec::new();
    let mut g: usize = 0;
    while g < groups.len()
        invariant
            g <= groups.len(),
            msgs@ == stats.messages@,
            dates_wf(msgs@),
            now.wf(),
            names == conv_order(msgs@, msgs.len() as int),
            groups.len() == names.len(),
            forall|h: int| 0 <= h < groups.len() ==> (#[trigger] groups[h])@ == members(msgs@, names[h], msgs.len() as int),
            alert_views(alerts@) == waiting_alerts(msgs@, names.take(g as int), *settings, now, stats.analyzer_name@),
        decreases groups.len() - g,
    {
        let tl = read_in_order(msgs, &groups[g], Ghost(names[g as int]));
        let found = alert_for(msgs, &tl, Ghost(names[g as int]), settings, now, &stats.analyzer_name);
        proof {
            assert(names.take(g + 1).drop_last() =~= names.take(g as int));
            assert(names.take(g + 1).last() == names[g as int]);
        }
        match found {
            Some(a) => {
                let ghost before = alerts@;
                alerts.push(a);
                proof {
                    assert(alert_views(alerts@) =~= alert_views(before).push(a@));
                }
            },
            None => {},
        }
        g = g + 1;
    }
    proof {
        assert(names.take(groups.len() as int) =~= names);
    }
    alerts
}

/// A duration in seconds in its shortest form: `42s`, `5m`, `2h`, `2h5m`.
pub open spec fn duration_text(seconds: int) -> Seq<char> {
    if seconds < 60 {
        signed_decimal(seconds) + seq!['s']
    } else if seconds < 3600 {
        decimal((seconds / 60) as nat) + seq!['m']
    } else {
        let hours = seconds / 3600;
        let minutes = (seconds % 3600) / 60;
        if minutes == 0 {
            decimal(hours as nat) + seq!['h']
        } else {
            decimal(hours as nat) + seq!['h'] + decimal(minutes as nat) + seq!['m']
        }
    }
}

/// Writes a duration in seconds in its shortest form (see [`duration_text`]).
pub fn format_duration(seconds: i64) -> (r: String)
    ensures
        r@ == duration_text(seconds as int),
{
    let mut out: Vec<char>;
    if seconds < 60 {
        out = signed_decimal_chars(seconds);
        out.push('s');
    } else if seconds < 3600 {
        out = decimal_chars((seconds / 60) as u64);
        out.push('m');
    } else {
        let hours = seconds / 3600;
        let minutes = (seconds % 3600) / 60;
        out = decimal_chars(hours as u64);
        out.push('h');
        if minutes != 0 {
            let m = decimal_chars(minutes as u64);
            append_chars(&mut out, m.as_slice());
            out.push('m');
        }
    }
    string_of(out.as_slice())
}

/// The short name alerts give each tool.
pub open spec fn app_label(app: Application) -> Seq<char> {
    match app {
        Application::GeminiCli => "Gemini"@,
        Application::QwenCode => "Qwen"@,
        Application::CodexCli => "Codex"@,
        Application::Cline => "Cline"@,
        Application::RooCode => "Roo"@,
        Application::KiloCode => "Kilo"@,
        Application::Copilot => "Copilot"@,
        Application::AmazonQ => "Amazon Q"@,
        Application::KiroCli => "Kiro"@,
        Application::Warp => "Warp"@,
        Application::OpenCode => "OpenCode"@,
        Application::DroidCli => "Droid"@,
    }
}

/// The short name alerts give `app`.
pub fn format_application(app: &Application) -> (r: &'static str)
    ensures
        r@ == app_label(*app),
{
    match app {
        Application::GeminiCli => "Gemini",
        Application::QwenCode => "Qwen",
        Application::CodexCli => "Codex",
        Application::Cline => "Cline",
        Application::RooCode => "Roo",
        Application::KiloCode => "Kilo",
        Application::Copilot => "Copilot",
        Application::AmazonQ => "Amazon Q",
        Application::KiroCli => "Kiro",
        Application::Warp => "Warp",
        Application::OpenCode => "OpenCode",
        Application::DroidCli => "Droid",
    }
}

/// The number of bytes of `s` in UTF-8, what `str::len` counts.
pub open spec fn byte_len(s: Seq<char>) -> int {
    encode_utf8(s).len() as int
}

/// `msg` if it is at most `max_len` bytes long, else its first `max_len` characters (all of
/// them, if it has fewer) followed by `…`.
pub open spec fn truncated_text(msg: Seq<char>, max_len: int) -> Seq<char> {
    if byte_len(msg) <= max_len {
        msg
    } else {
        msg.take(if max_len < msg.len() { max_len } else { msg.len() as int }) + seq!['…']
    }
}

/// Shortens `msg` for an alert line (see [`truncated_text`]).
pub fn truncate_content(msg: &str, max_len: usize) -> (r: String)
    ensures
        r@ == truncated_text(msg@, max_len as int),
{
    if msg.as_bytes().len() <= max_len {
        return msg.to_owned();
    }
    let cs = chars_of(msg);
    let n: usize = if max_len < cs.len() { max_len } else { cs.len() };
    let mut out: Vec<char> = Vec::new();
    let mut k: usize = 0;
    while k < n
        invariant
            k <= n <= cs.len(),
            out@ == cs@.take(k as int),
        decreases n - k,
    {
        out.push(cs[k]);
        k = k + 1;
        proof {
            assert(cs@.take(k as int) =~= cs@.take(k - 1).push(cs@[k - 1]));
        }
    }
    out.push('…');
    string_of(out.as_slice())
}

/// How many leading bytes [`abbreviate`] keeps of a text longer than `max_len` bytes.
pub open spec fn abbreviation_cut(max_len: int) -> int {
    if max_len >= 3 { max_len - 3 } else { 0 }
}

/// Whether [`abbreviate`] can cut `text`: it fits, or the cut falls between two characters.
pub open spec fn can_abbreviate(text: Seq<char>, max_len: int) -> bool {
    byte_len(text) > max_len ==> vstd::utf8::is_char_boundary(encode_utf8(text), abbreviation_cut(max_len))
}

/// `text` if it is at most `max_len` bytes long, else the characters of its first
/// `max_len - 3` bytes followed by `...`.
pub open spec fn abbreviated(text: Seq<char>, max_len: int) -> Seq<char> {
    if byte_len(text) <= max_len {
        text
    } else {
        vstd::utf8::decode_utf8(encode_utf8(text).subrange(0, abbreviation_cut(max_len))) + "..."@
    }
}

/// Shortens an identifier to at most `max_len` bytes (see [`abbreviated`]). Cutting inside a
/// character is refused, as slicing a `str` there is.
pub fn abbreviate(text: &str, max_len: usize) -> (r: String)
    requires
        can_abbreviate(text@, max_len as int),
    ensures
        r@ == abbreviated(text@, max_len as int),
{
    if text.as_bytes().len() <= max_len {
        return text.to_owned();
    }
    let cut: usize = if max_len >= 3 { max_len - 3 } else { 0 };
    let (head, _tail) = text.split_at(cut);
    proof {
        vstd::utf8::encode_utf8_decode_utf8(head@);
    }
    let mut out = chars_of(head);
    let dots = chars_of("...");
    append_chars(&mut out, dots.as_slice());
    string_of(out.as_slice())
}

/// The marker an alert line puts before a message of each role.
pub open spec fn role_emoji(r: MessageRole) -> Seq<char> {
    match r {
        MessageRole::User => "👤"@,
        MessageRole::Assistant => "💬"@,
    }
}

/// How many bytes of a message an alert line keeps: more for the two newest messages, more for
/// the assistant than for the user.
pub open spec fn line_width(r: MessageRole, newest: bool) -> int {
    match r {
        MessageRole::User => if newest { 50 } else { 40 },
        MessageRole::Assistant => if newest { 70 } else { 60 },
    }
}

/// The alert line for one message stamped `label`, if it has any text once whitespace is
/// collapsed: `[label] emoji text`.
pub open spec fn message_line(m: MessageView, label: Seq<char>, newest: bool) -> Option<Seq<char>> {
    match m.content {
        None => None,
        Some(c) => {
            let cleaned = join_words(words(c));
            if cleaned.len() == 0 {
                None
            } else {
                Some(seq!['['] + label + "] "@ + role_emoji(m.role) + seq![' '] + truncated_text(
                    cleaned,
                    line_width(m.role, newest),
                ))
            }
        },
    }
}

/// The lines for the messages `j0..j1` places back from the newest (the newest is place 0),
/// newest first.
pub open spec fn lines_back(
    ms: Seq<MessageView>,
    labels: Seq<Seq<char>>,
    j0: int,
    j1: int,
    newest: bool,
) -> Seq<Seq<char>>
    decreases j1 - j0,
{
    if j1 <= j0 {
        Seq::empty()
    } else {
        let prev = lines_back(ms, labels, j0, j1 - 1, newest);
        let i = ms.len() - j1;
        match message_line(ms[i], labels[i], newest) {
            Some(l) => prev.push(l),
            None => prev,
        }
    }
}

pub proof fn lemma_lines_back_len(ms: Seq<MessageView>, labels: Seq<Seq<char>>, j0: int, j1: int, newest: bool)
    requires
        j0 <= j1,
    ensures
        lines_back(ms, labels, j0, j1, newest).len() <= j1 - j0,
    decreases j1 - j0,
{
    if j1 > j0 {
        lemma_lines_back_len(ms, labels, j0, j1 - 1, newest);
    }
}

/// The first line of an alert: tool, idle time, project and model.
pub open spec fn alert_header(a: AlertView) -> Seq<char> {
    "🟡 "@ + app_label(a.application) + seq![' '] + duration_text(a.idle_seconds) + " | "@ + abbreviated(
        a.project_hash,
        6,
    ) + " | "@ + match a.model {
        Some(m) => m,
        None => "unknown"@,
    }
}

/// The lines of an alert whose recent messages are stamped `labels`: the header, then the two
/// newest messages that have text, newest first, then older ones until three messages in all
/// have been looked at beyond those lines.
pub open spec fn alert_lines(a: AlertView, labels: Seq<Seq<char>>) -> Seq<Seq<char>> {
    let n = a.recent_messages.len() as int;
    let first = lines_back(a.recent_messages, labels, 0, if n < 2 { n } else { 2 }, true);
    let more = 3 - first.len();
    let second = lines_back(a.recent_messages, labels, 2, if n < 2 + more { n } else { 2 + more }, false);
    seq![alert_header(a)] + first + second
}

/// Lines joined by newlines.
pub open spec fn join_lines(ls: Seq<Seq<char>>) -> Seq<char>
    decreases ls.len(),
{
    if ls.len() == 0 {
        Seq::empty()
    } else if ls.len() == 1 {
        ls[0]
    } else {
        join_lines(ls.drop_last()) + seq!['\n'] + ls.last()
    }
}

/// The alert line for one message (see [`message_line`]).
fn alert_message_line(m: &ConversationMessage, label: &String, newest: bool) -> (r: Option<Vec<char>>)
    ensures
        match r {
            Some(v) => message_line(m@, label@, newest) == Some(v@),
            None => message_line(m@, label@, newest) is None,
        },
{
    match &m.content {
        None => None,
        Some(c) => {
            let cleaned = clean_message(c.as_str());
            if cleaned.as_str().is_empty() {
                return None;
            }
            let width: usize = match m.role {
                MessageRole::User => if newest { 50 } else { 40 },
                MessageRole::Assistant => if newest { 70 } else { 60 },
            };
            let text = truncate_content(cleaned.as_str(), width);
            let emoji = match m.role {
                MessageRole::User => "👤",
                MessageRole::Assistant => "💬",
            };
            let mut out: Vec<char> = Vec::new();
            out.push('[');
            let lc = chars_of(label.as_str());
            append_chars(&mut out, lc.as_slice());
            let close = chars_of("] ");
            append_chars(&mut out, close.as_slice());
            let ec = chars_of(emoji);
            append_chars(&mut out, ec.as_slice());
            out.push(' ');
            let tc = chars_of(text.as_str());
            append_chars(&mut out, tc.as_slice());
            proof {
                assert(out@ =~= seq!['['] + label@ + "] "@ + role_emoji(m.role) + seq![' '] + truncated_text(
                    join_words(words(c@)),
                    line_width(m.role, newest),
                ));
            }
            Some(out)
        },
    }
}

/// Appends the lines for the messages `j0..j1` places back from the newest to `out`, each after
/// a newline; returns how many lines it appended.
fn push_lines_back(
    out: &mut Vec<char>,
    ms: &Vec<ConversationMessage>,
    labels: &[String],
    j0: usize,
    j1: usize,
    newest: bool,
    Ghost(done): Ghost<Seq<Seq<char>>>,
) -> (count: usize)
    requires
        j0 <= j1 <= ms.len(),
        labels.len() == ms.len(),
        done.len() >= 1,
        old(out)@ == join_lines(done),
    ensures
        final(out)@ == join_lines(done + lines_back(message_views(ms@), labels@.map_values(|l: String| l@), j0 as int, j1 as int, newest)),
        count == lines_back(message_views(ms@), labels@.map_values(|l: String| l@), j0 as int, j1 as int, newest).len(),
{
    let ghost mv = message_views(ms@);
    let ghost lv = labels@.map_values(|l: String| l@);
    let mut count: usize = 0;
    let mut j: usize = j0;
    while j < j1
        invariant
            j0 <= j <= j1 <= ms.len(),
            labels.len() == ms.len(),
            mv == message_views(ms@),
            lv == labels@.map_values(|l: String| l@),
            done.len() >= 1,
            out@ == join_lines(done + lines_back(mv, lv, j0 as int, j as int, newest)),
            count == lines_back(mv, lv, j0 as int, j as int, newest).len(),
            count <= j - j0,
        decreases j1 - j,
    {
        let i = ms.len() - 1 - j;
        let line = alert_message_line(&ms[i], &labels[i], newest);
        let ghost prev = lines_back(mv, lv, j0 as int, j as int, newest);
        proof {
            assert(mv[i as int] == ms@[i as int]@);
            assert(lv[i as int] == labels@[i as int]@);
            assert(mv.len() - (j + 1) == i);
        }
        match line {
            Some(l) => {
                out.push('\n');
                append_chars(out, l.as_slice());
                count = count + 1;
                proof {
                    let all = done + prev.push(l@);
                    assert(all.drop_last() =~= done + prev);
                    assert(out@ =~= join_lines(all.drop_last()) + seq!['\n'] + all.last());
                }
            },
            None => {},
        }
        j = j + 1;
    }
    count
}

/// The text of an alert whose recent messages are stamped `labels` (see [`alert_lines`]).
pub fn compose_notification_text(alert: &WaitingAlert, labels: &[String]) -> (r: String)
    requires
        labels.len() == alert.recent_messages.len(),
        can_abbreviate(alert.project_hash@, 6),
    ensures
        r@ == join_lines(alert_lines(alert@, labels@.map_values(|l: String| l@))),
{
    let app = format_application(&alert.application);
    let mut out: Vec<char> = chars_of("🟡 ");
    let ac = chars_of(app);
    append_chars(&mut out, ac.as_slice());
    out.push(' ');
    let dur = format_duration(alert.idle_seconds);
    let dc = chars_of(dur.as_str());
    append_chars(&mut out, dc.as_slice());
    let sep = chars_of(" | ");
    append_chars(&mut out, sep.as_slice());
    let proj = abbreviate(alert.project_hash.as_str(), 6);
    let pc = chars_of(proj.as_str());
    append_chars(&mut out, pc.as_slice());
    append_chars(&mut out, sep.as_slice());
    let model: &str = match &alert.model {
        Some(m) => m.as_str(),
        None => "unknown",
    };
    let mc = chars_of(model);
    append_chars(&mut out, mc.as_slice());
    let ghost header = alert_header(alert@);
    proof {
        assert(out@ =~= header);
        assert(join_lines(seq![header]) == header);
    }
    let n = alert.recent_messages.len();
    let first_end: usize = if n < 2 { n } else { 2 };
    let ghost mv = message_views(alert.recent_messages@);
    let ghost lv = labels@.map_values(|l: String| l@);
    let ghost head_only = seq![header];
    let got = push_lines_back(&mut out, &alert.recent_messages, labels, 0, first_end, true, Ghost(head_only));
    let ghost first = lines_back(mv, lv, 0, first_end as int, true);
    proof {
        lemma_lines_back_len(mv, lv, 0, first_end as int, true);
    }
    let more: usize = 3 - got;
    let second_end: usize = if n < 2 + more { n } else { 2 + more };
    if second_end > 2 {
        let ghost so_far = seq![header] + first;
        push_lines_back(&mut out, &alert.recent_messages, labels, 2, second_end, false, Ghost(so_far));
        proof {
            assert(seq![header] + first + lines_back(mv, lv, 2, second_end as int, false) =~= alert_lines(alert@, lv));
        }
    } else {
        proof {
            assert(lines_back(mv, lv, 2, second_end as int, false) =~= Seq::<Seq<char>>::empty());
            assert(seq![header] + first =~= alert_lines(alert@, lv));
        }
    }
    string_of(out.as_slice())
}

/// Calls chrono's `DateTime::from_timestamp(t.secs, t.nanos)` and, when it gives an instant,
/// writes that instant's hour and minute (`%H:%M`) in the machine's local time zone through
/// `with_timezone(&Local)` and `format`. There is an instant exactly when chrono represents
/// `t.secs` (the sub-second part is below a second); the text depends on the machine's time
/// zone, so nothing more is stated of it.
#[verifier::external_body]
fn local_clock_label(t: Timestamp) -> (r: Option<String>)
    requires
        t.wf(),
    ensures
        r is Some <==> chrono_secs_in_range(t.secs),
{
    match chrono::DateTime::from_timestamp(t.secs, t.nanos) {
        Some(d) => Some(d.with_timezone(&chrono::Local).format("%H:%M").to_string()),
        None => None,
    }
}

/// The text of an alert, each message stamped with its local wall-clock time (`HH:MM`); see
/// [`compose_notification_text`], which this calls with those stamps. An instant chrono does not
/// represent (none that a clock or a log yields) is stamped with an empty text.
pub fn build_notification_text(alert: &WaitingAlert) -> (r: String)
    requires
        can_abbreviate(alert.project_hash@, 6),
        dates_wf(alert.recent_messages@),
    ensures
        exists|labels: Seq<Seq<char>>| #![auto]
            labels.len() == alert.recent_messages.len() && r@ == join_lines(alert_lines(alert@, labels)),
{
    let mut labels: Vec<String> = Vec::new();
    let mut k: usize = 0;
    while k < alert.recent_messages.len()
        invariant
            k <= alert.recent_messages.len(),
            labels.len() == k,
            dates_wf(alert.recent_messages@),
        decreases alert.recent_messages.len() - k,
    {
        proof {
            assert(alert.recent_messages@[k as int].date.wf());
        }
        let label = match local_clock_label(alert.recent_messages[k].date) {
            Some(l) => l,
            None => String::new(),
        };
        labels.push(label);
        k = k + 1;
    }
    let r = compose_notification_text(alert, labels.as_slice());
    proof {
        let lv = labels@.map_values(|l: String| l@);
        assert(lv.len() == alert.recent_messages.len());
    }
    r
}

/// Where alerts are posted: a Slack incoming webhook.
#[derive(Debug)]
pub struct SlackNotifier {
    pub webhook_url: String,
    pub channel: Option<String>,
    pub username: Option<String>,
}

impl SlackNotifier {
    /// The webhook target of a Slack configuration; none without a webhook URL.
    pub fn from_config(config: &SlackConfig) -> (r: Option<SlackNotifier>)
        ensures
            r is Some <==> config.webhook_url is Some,
            r matches Some(n) ==> config.webhook_url == Some(n.webhook_url) && n.channel == config.channel
                && n.username == config.username,
    {
        match &config.webhook_url {
            None => None,
            Some(url) => Some(SlackNotifier {
                webhook_url: url.clone(),
                channel: crate::types::copy_opt_string(&config.channel),
                username: crate::types::copy_opt_string(&config.username),
            }),
        }
    }
}

/// Sends alerts for conversations that wait on their user, at most once per assistant message.
pub struct NotificationManager {
    pub settings: NotificationSettings,
    pub slack: Option<SlackNotifier>,
    /// The global hashes of the assistant messages already alerted on.
    pub notified_messages: StringHashSet,
}

/// How many alerted messages the manager remembers before it forgets them all.
pub const MAX_REMEMBERED_ALERTS: usize = 10_000;

/// How long past the waiting threshold an alert is still sent (later ones are catch-up noise).
pub const RECENT_WINDOW_SECS: i64 = 15 * 60;

/// An alert still fresh enough to send.
pub open spec fn fresh_alert(a: AlertView, s: NotificationSettings) -> bool {
    sat_sub_i64(a.idle_seconds, s.waiting_seconds as int) <= RECENT_WINDOW_SECS
}

/// Among the first `n` alerts, the first of the freshest ones that are fresh enough to send.
pub open spec fn freshest(alerts: Seq<AlertView>, s: NotificationSettings, n: int) -> Option<int>
    decreases n,
{
    if n <= 0 {
        None
    } else {
        let prev = freshest(alerts, s, n - 1);
        if !fresh_alert(alerts[n - 1], s) {
            prev
        } else {
            match prev {
                None => Some(n - 1),
                Some(p) => if alerts[n - 1].idle_seconds < alerts[p].idle_seconds { Some(n - 1) } else { prev },
            }
        }
    }
}

pub proof fn lemma_freshest_range(alerts: Seq<AlertView>, s: NotificationSettings, n: int)
    ensures
        freshest(alerts, s, n) matches Some(p) ==> 0 <= p < n,
    decreases n,
{
    if n > 0 {
        lemma_freshest_range(alerts, s, n - 1);
    }
}

/// The alert one analyzer's stats raise at `now`, if any: the freshest one fresh enough to send.
pub open spec fn chosen_alert(
    msgs: Seq<ConversationMessage>,
    name: Seq<char>,
    s: NotificationSettings,
    now: Timestamp,
) -> Option<AlertView> {
    let alerts = waiting_alerts(msgs, conv_order(msgs, msgs.len() as int), s, now, name);
    match freshest(alerts, s, alerts.len() as int) {
        Some(i) => Some(alerts[i]),
        None => None,
    }
}

/// Going through the first `k` analyzers with the alerted messages `seen`: the messages alerted
/// on afterwards and the alerts to send, one per analyzer at most, never twice for a message.
pub open spec fn notify_run(
    seen: Set<Seq<char>>,
    all: Seq<AgenticCodingToolStats>,
    s: NotificationSettings,
    now: Timestamp,
    k: int,
) -> (Set<Seq<char>>, Seq<AlertView>)
    decreases k,
{
    if k <= 0 {
        (seen, Seq::empty())
    } else {
        let (set, out) = notify_run(seen, all, s, now, k - 1);
        match chosen_alert(all[k - 1].messages@, all[k - 1].analyzer_name@, s, now) {
            Some(a) => if set.contains(a.last_global_hash) {
                (set, out)
            } else {
                (set.insert(a.last_global_hash), out.push(a))
            },
            None => (set, out),
        }
    }
}

/// Every message of every analyzer has a well-formed timestamp.
pub open spec fn all_dates_wf(all: Seq<AgenticCodingToolStats>) -> bool {
    forall|k: int| 0 <= k < all.len() ==> dates_wf(#[trigger] all[k].messages@)
}

impl NotificationManager {
    /// A manager for the notification settings of `config`; none when notifications are off.
    /// Without a Slack webhook, alerts are surfaced locally.
    pub fn from_config(config: &Config) -> (r: Option<NotificationManager>)
        requires
            config.notifications.stale_minutes <= u64::MAX / 60,
        ensures
            r is Some <==> config.notifications.enabled,
            r matches Some(m) ==> {
                &&& m.settings.waiting_seconds == config.notifications.waiting_seconds as i64
                &&& m.settings.stale_seconds == (config.notifications.stale_minutes * 60) as i64
                &&& m.settings.sample_messages == if config.notifications.sample_messages > 1 {
                    config.notifications.sample_messages
                } else {
                    1
                }
                &&& (m.slack is Some <==> config.notifications.slack.enabled
                    && config.notifications.slack.webhook_url is Some)
                &&& (m.slack matches Some(n) ==> config.notifications.slack.webhook_url == Some(n.webhook_url)
                    && n.channel == config.notifications.slack.channel
                    && n.username == config.notifications.slack.username)
                &&& m.notified_messages@ == Set::<Seq<char>>::empty()
            },
    {
        if !config.notifications.enabled {
            return None;
        }
        let slack = if config.notifications.slack.enabled {
            SlackNotifier::from_config(&config.notifications.slack)
        } else {
            None
        };
        let n = &config.notifications;
        Some(NotificationManager {
            settings: NotificationSettings {
                waiting_seconds: n.waiting_seconds as i64,
                stale_seconds: (n.stale_minutes * 60) as i64,
                sample_messages: if n.sample_messages > 1 { n.sample_messages } else { 1 },
            },
            slack,
            notified_messages: StringHashSet::new(),
        })
    }

    /// One round of checks at `now`: forgets every alerted message once more than
    /// [`MAX_REMEMBERED_ALERTS`] are remembered, then picks for each analyzer the freshest
    /// waiting conversation still within [`RECENT_WINDOW_SECS`] of the threshold, and returns
    /// those whose assistant message was not alerted on before, remembering them. The caller
    /// delivers them.
    pub fn check_and_notify(&mut self, stats: &MultiAnalyzerStats, now: Timestamp) -> (r: Vec<WaitingAlert>)
        requires
            now.wf(),
            all_dates_wf(stats.analyzer_stats@),
        ensures
            final(self).settings == old(self).settings,
            final(self).slack == old(self).slack,
            ({
                let start = if old(self).notified_messages@.len() > MAX_REMEMBERED_ALERTS {
                    Set::<Seq<char>>::empty()
                } else {
                    old(self).notified_messages@
                };
                notify_run(start, stats.analyzer_stats@, old(self).settings, now, stats.analyzer_stats.len() as int)
                    == (final(self).notified_messages@, alert_views(r@))
            }),
    {
        broadcast use vstd::hash_set::group_hash_set_axioms;
        if self.notified_messages.len() > MAX_REMEMBERED_ALERTS {
            self.notified_messages.clear();
        }
        let ghost start = self.notified_messages@;
        let mut out: Vec<WaitingAlert> = Vec::new();
        let mut k: usize = 0;
        while k < stats.analyzer_stats.len()
            invariant
                k <= stats.analyzer_stats.len(),
                now.wf(),
                all_dates_wf(stats.analyzer_stats@),
                self.settings == old(self).settings,
                self.slack == old(self).slack,
                notify_run(start, stats.analyzer_stats@, self.settings, now, k as int) == (
                    self.notified_messages@,
                    alert_views(out@),
                ),
            decreases stats.analyzer_stats.len() - k,
        {
            let st = &stats.analyzer_stats[k];
            proof {
                assert(dates_wf(stats.analyzer_stats@[k as int].messages@));
            }
            let alerts = find_waiting_conversations(st, &self.settings, now);
            let picked = pick_freshest(&alerts, &self.settings);
            match picked {
                Some(i) => {
                    let hash = alerts[i].last_global_hash.clone();
                    let fresh = self.notified_messages.insert(hash);
                    if fresh {
                        let mut alerts = alerts;
                        let a = alerts.swap_remove(i);
                        let ghost before = out@;
                        out.push(a);
                        proof {
                            assert(alert_views(out@) =~= alert_views(before).push(a@));
                        }
                    }
                },
                None => {},
            }
            k = k + 1;
        }
        out
    }
}

/// The position of the first of the freshest alerts fresh enough to send (see [`freshest`]).
fn pick_freshest(alerts: &Vec<WaitingAlert>, s: &NotificationSettings) -> (r: Option<usize>)
    ensures
        match r {
            Some(i) => freshest(alert_views(alerts@), *s, alerts.len() as int) == Some(i as int) && i < alerts.len(),
            None => freshest(alert_views(alerts@), *s, alerts.len() as int) is None,
        },
{
    let ghost av = alert_views(alerts@);
    let mut best: Option<usize> = None;
    let mut k: usize = 0;
    while k < alerts.len()
        invariant
            k <= alerts.len(),
            av == alert_views(alerts@),
            match best {
                Some(i) => freshest(av, *s, k as int) == Some(i as int) && i < k,
                None => freshest(av, *s, k as int) is None,
            },
        decreases alerts.len() - k,
    {
        let over = saturating_sub_i64(alerts[k].idle_seconds, s.waiting_seconds);
        proof {
            assert(av[k as int] == alerts@[k as int]@);
        }
        if over <= RECENT_WINDOW_SECS {
            match best {
                None => {
                    best = Some(k);
                },
                Some(b) => {
                    proof {
                        assert(av[b as int] == alerts@[b as int]@);
                    }
                    if alerts[k].idle_seconds < alerts[b].idle_seconds {
                        best = Some(k);
                    }
                },
            }
        }
        k = k + 1;
    }
    best
}

/// How long ago, in whole seconds (never negative), an alert sent at `last_sent` went out,
/// if that is at most `max_age_secs`.
pub fn notification_age_seconds(last_sent: Option<Timestamp>, now: Timestamp, max_age_secs: i64) -> (r: Option<i64>)
    requires
        now.wf(),
        last_sent matches Some(t) ==> t.wf(),
    ensures
        r == match last_sent {
            None => None::<i64>,
            Some(t) => if idle_seconds(now, t) <= max_age_secs {
                Some(idle_seconds(now, t) as i64)
            } else {
                None::<i64>
            },
        },
{
    match last_sent {
        None => None,
        Some(t) => {
            let s = now.seconds_since(&t);
            let age: i64 = if s > 0 { s } else { 0 };
            if age <= max_age_secs { Some(age) } else { None }
        },
    }
}

/// Among the first `n` messages, the first of the latest ones of conversation `c`.
pub open spec fn latest_in(msgs: Seq<ConversationMessage>, c: Seq<char>, n: int) -> Option<int>
    decreases n,
{
    if n <= 0 {
        None
    } else {
        let prev = latest_in(msgs, c, n - 1);
        if msgs[n - 1].conversation_hash@ != c {
            prev
        } else {
            match prev {
                None => Some(n - 1),
                Some(p) => if msgs[n - 1].date.as_nanos() > msgs[p].date.as_nanos() { Some(n - 1) } else { prev },
            }
        }
    }
}

pub proof fn lemma_latest_in_range(msgs: Seq<ConversationMessage>, c: Seq<char>, n: int)
    ensures
        latest_in(msgs, c, n) matches Some(p) ==> 0 <= p < n && msgs[p].conversation_hash@ == c,
    decreases n,
{
    if n > 0 {
        lemma_latest_in_range(msgs, c, n - 1);
    }
}

/// Seconds until message `i` raises a waiting alert, if it is the latest of its conversation,
/// the assistant wrote it, and it is neither past the threshold nor stale.
pub open spec fn message_eta(msgs: Seq<ConversationMessage>, i: int, waiting: int, stale: int, now: Timestamp) -> Option<int> {
    let m = msgs[i];
    let idle = idle_seconds(now, m.date);
    if latest_in(msgs, m.conversation_hash@, msgs.len() as int) != Some(i) || m.role != MessageRole::Assistant
        || idle >= waiting || idle > stale {
        None
    } else {
        Some(sat_sub_i64(waiting, idle))
    }
}

/// The smaller of a best-so-far and a candidate.
pub open spec fn min_opt(best: Option<int>, c: Option<int>) -> Option<int> {
    match (best, c) {
        (None, c) => c,
        (b, None) => b,
        (Some(x), Some(y)) => Some(if y < x { y } else { x }),
    }
}

/// The soonest [`message_eta`] among the first `n` messages, starting from `best`.
pub open spec fn eta_in(msgs: Seq<ConversationMessage>, waiting: int, stale: int, now: Timestamp, n: int, best: Option<int>) -> Option<int>
    decreases n,
{
    if n <= 0 {
        best
    } else {
        min_opt(eta_in(msgs, waiting, stale, now, n - 1, best), message_eta(msgs, n - 1, waiting, stale, now))
    }
}

/// The soonest alert among the first `k` analyzers.
pub open spec fn eta_all(all: Seq<&AgenticCodingToolStats>, waiting: int, stale: int, now: Timestamp, k: int) -> Option<int>
    decreases k,
{
    if k <= 0 {
        None
    } else {
        let msgs = all[k - 1].messages@;
        eta_in(msgs, waiting, stale, now, msgs.len() as int, eta_all(all, waiting, stale, now, k - 1))
    }
}

/// For each conversation of `msgs`, the position of its latest message (see [`latest_in`]).
fn latest_by_conversation(msgs: &[ConversationMessage]) -> (r: StringHashMap<usize>)
    requires
        dates_wf(msgs@),
    ensures
        forall|c: Seq<char>| #[trigger] r@.contains_key(c) <==> latest_in(msgs@, c, msgs.len() as int) is Some,
        forall|c: Seq<char>| r@.contains_key(c) ==> latest_in(msgs@, c, msgs.len() as int) == Some(#[trigger] r@[c] as int),
{
    let mut map: StringHashMap<usize> = StringHashMap::new();
    let mut i: usize = 0;
    while i < msgs.len()
        invariant
            i <= msgs.len(),
            dates_wf(msgs@),
            forall|c: Seq<char>| #[trigger] map@.contains_key(c) <==> latest_in(msgs@, c, i as int) is Some,
            forall|c: Seq<char>| map@.contains_key(c) ==> latest_in(msgs@, c, i as int) == Some(#[trigger] map@[c] as int),
        decreases msgs.len() - i,
    {
        let c = msgs[i].conversation_hash.as_str();
        let ghost cv = c@;
        proof {
            assert(cv == msgs@[i as int].conversation_hash@);
            assert forall|d: Seq<char>| d != cv implies latest_in(msgs@, d, i + 1) == latest_in(msgs@, d, i as int) by {}
        }
        let replace = match map.get(c) {
            None => true,
            Some(p) => {
                let p = *p;
                proof {
                    lemma_latest_in_range(msgs@, cv, i as int);
                    assert(msgs@[p as int].date.wf());
                    assert(msgs@[i as int].date.wf());
                }
                msgs[p].date.is_before(&msgs[i].date)
            },
        };
        if replace {
            map.insert(msgs[i].conversation_hash.clone(), i);
        }
        i = i + 1;
    }
    map
}

/// The soonest alert among `msgs`, starting from `best`.
fn eta_of_messages(msgs: &[ConversationMessage], waiting: i64, stale: i64, now: Timestamp, best: Option<i64>) -> (r: Option<i64>)
    requires
        dates_wf(msgs@),
        now.wf(),
    ensures
        eta_in(msgs@, waiting as int, stale as int, now, msgs.len() as int, opt_int(best)) == opt_int(r),
{
    let latest = latest_by_conversation(msgs);
    let mut acc = best;
    let mut i: usize = 0;
    while i < msgs.len()
        invariant
            i <= msgs.len(),
            dates_wf(msgs@),
            now.wf(),
            forall|c: Seq<char>| #[trigger] latest@.contains_key(c) <==> latest_in(msgs@, c, msgs.len() as int) is Some,
            forall|c: Seq<char>| latest@.contains_key(c) ==> latest_in(msgs@, c, msgs.len() as int) == Some(#[trigger] latest@[c] as int),
            eta_in(msgs@, waiting as int, stale as int, now, i as int, opt_int(best)) == opt_int(acc),
        decreases msgs.len() - i,
    {
        let m = &msgs[i];
        let is_latest = match latest.get(m.conversation_hash.as_str()) {
            Some(p) => *p == i,
            None => false,
        };
        proof {
            assert(msgs@[i as int].date.wf());
            lemma_latest_in_range(msgs@, m.conversation_hash@, msgs.len() as int);
        }
        if is_latest && m.role == MessageRole::Assistant {
            let s = now.seconds_since(&m.date);
            let idle: i64 = if s > 0 { s } else { 0 };
            if !(idle >= waiting || idle > stale) {
                let remaining = saturating_sub_i64(waiting, idle);
                acc = match acc {
                    Some(cur) => Some(if remaining < cur { remaining } else { cur }),
                    None => Some(remaining),
                };
            }
        }
        i = i + 1;
    }
    acc
}

/// An optional `i64` as an optional integer.
pub open spec fn opt_int(o: Option<i64>) -> Option<int> {
    match o {
        Some(x) => Some(x as int),
        None => None,
    }
}

/// Seconds until the soonest waiting alert among the analyzers' conversations would fire at
/// `now`: the least, over each conversation's latest message written by the assistant that has
/// been idle less than `waiting_threshold_secs` and at most `stale_secs`, of the idle time still
/// to go; `None` when no conversation is on its way to an alert.
pub fn next_notification_eta_at(
    stats: &[&AgenticCodingToolStats],
    waiting_threshold_secs: i64,
    stale_secs: i64,
    now: Timestamp,
) -> (r: Option<i64>)
    requires
        now.wf(),
        forall|k: int| 0 <= k < stats.len() ==> dates_wf(#[trigger] stats@[k].messages@),
    ensures
        opt_int(r) == eta_all(stats@, waiting_threshold_secs as int, stale_secs as int, now, stats.len() as int),
{
    let mut best: Option<i64> = None;
    let mut k: usize = 0;
    while k < stats.len()
        invariant
            k <= stats.len(),
            now.wf(),
            forall|q: int| 0 <= q < stats.len() ==> dates_wf(#[trigger] stats@[q].messages@),
            opt_int(best) == eta_all(stats@, waiting_threshold_secs as int, stale_secs as int, now, k as int),
        decreases stats.len() - k,
    {
        proof {
            assert(dates_wf(stats@[k as int].messages@));
        }
        best = eta_of_messages(stats[k].messages.as_slice(), waiting_threshold_secs, stale_secs, now, best);
        k = k + 1;
    }
    best
}

/// [`next_notification_eta_at`] at the current instant by the system clock.
pub fn next_notification_eta_seconds(
    stats: &[&AgenticCodingToolStats],
    waiting_threshold_secs: i64,
    stale_secs: i64,
) -> (r: Option<i64>)
    requires
        forall|k: int| 0 <= k < stats.len() ==> dates_wf(#[trigger] stats@[k].messages@),
    ensures
        r is None || exists|now: Timestamp| now.wf() && opt_int(r) == eta_all(stats@, waiting_threshold_secs as int, stale_secs as int, now, stats.len() as int),
{
    match utc_now() {
        Some(now) => next_notification_eta_at(stats, waiting_threshold_secs, stale_secs, now),
        None => None,
    }
}

/// A conversation raises a waiting alert only when the assistant spoke last: the alert carries
/// the time of an assistant message of that conversation, and no message of the conversation
/// is later.
pub proof fn law_alert_only_when_assistant_spoke_last(
    msgs: Seq<ConversationMessage>,
    c: Seq<char>,
    s: NotificationSettings,
    now: Timestamp,
    name: Seq<char>,
)
    requires
        msgs.len() <= usize::MAX,
        waiting_alert(msgs, c, s, now, name) is Some,
    ensures
        exists|i: int| #![trigger msgs[i]]
            0 <= i < msgs.len() && msgs[i].conversation_hash@ == c && msgs[i].role == MessageRole::Assistant
                && msgs[i].date == waiting_alert(msgs, c, s, now, name)->0.last_message_time && forall|j: int|
                0 <= j < msgs.len() && (#[trigger] msgs[j]).conversation_hash@ == c ==> msgs[j].date.as_nanos()
                    <= msgs[i].date.as_nanos(),
{
    broadcast use vstd::seq_lib::group_to_multiset_ensures;
    let m = members(msgs, c, msgs.len() as int);
    let tl = timeline(msgs, c);
    lemma_time_leq_total(msgs);
    m.lemma_sort_by_ensures(time_leq(msgs));
    lemma_members_props(msgs, c, msgs.len() as int);
    let last = tl.len() - 1;
    let i = tl[last] as int;
    assert(tl.contains(tl[last]));
    assert(m.contains(tl[last]));
    let q = choose|q: int| 0 <= q < m.len() && m[q] == tl[last];
    assert(i < msgs.len() && msgs[i].conversation_hash@ == c);
    assert forall|j: int| 0 <= j < msgs.len() && (#[trigger] msgs[j]).conversation_hash@ == c implies msgs[j].date.as_nanos()
        <= msgs[i].date.as_nanos() by {
        assert(m.contains(j as usize));
        m.to_multiset_ensures();
        tl.to_multiset_ensures();
        assert(m.to_multiset().count(j as usize) > 0);
        assert(tl.to_multiset().count(j as usize) > 0);
        assert(tl.contains(j as usize));
        let k = choose|k: int| 0 <= k < tl.len() && tl[k] == j as usize;
        if k < last {
            assert((time_leq(msgs))(tl[k], tl[last]));
        }
    }
}

} // verus!
