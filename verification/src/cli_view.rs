//! The summary tab's breakdown by analyzer: each analyzer's state and idle time by its latest
//! message, its messages, sessions, active time and tokens on the selected day, the order the
//! live panel lists analyzers in, and the overall totals. The clock and each message's local
//! day are worked out outside.
use vstd::prelude::*;
use crate::text::{append_chars, decimal, decimal_chars, string_of, wide_decimal_chars};
use crate::time::{seconds_between, Timestamp};
use crate::tui::{
    aggregate_period, day_field, days_total, is_latest, latest_position, period_fits, period_fits_check, period_total,
    DayRange,
};
use crate::types::{AgenticCodingToolStats, ConversationMessage, DailyStats, MessageRole};
use crate::aggregate::gap_credit;
use crate::daily::conversation_names;
use crate::incremental::first_occurrences;
use vstd::multiset::Multiset;
use vstd::relations::{sorted_by, total_ordering};

verus! {

/// How an analyzer stands, by its latest message.
#[derive(Debug, Clone, Copy, PartialEq, Eq, Structural)]
pub enum CliState {
    /// Several assistant messages in the last minute, the latest under 30 seconds old.
    Active,
    /// The assistant wrote last, under two minutes ago.
    Waiting,
    /// The user wrote last, under two minutes ago.
    Processing,
    /// Nothing for two minutes, but something within a quarter of an hour.
    Idle,
    /// Nothing for a quarter of an hour.
    Inactive,
    /// No messages at all.
    NoData,
}

/// An analyzer's state, the age in whole seconds of its latest message (never below zero), and
/// how it ranks in the live panel: 0 while working, 1 idle, 2 inactive or without data.
#[derive(Debug, Clone, Copy, PartialEq, Eq, Structural)]
pub struct CliStatus {
    pub state: CliState,
    pub age: i64,
    pub rank: u8,
}

/// The age given to an analyzer without messages, which ranks it after every other.
pub const NO_DATA_AGE: i64 = 2_305_843_009_213_693_951;

/// How many of the first `n` messages are assistant messages less than a minute old at `now`.
pub open spec fn recent_assistant_count(msgs: Seq<ConversationMessage>, now: Timestamp, n: int) -> nat
    decreases n,
{
    if n <= 0 {
        0
    } else {
        recent_assistant_count(msgs, now, n - 1) + if seconds_between(now, msgs[n - 1].date) < 60
            && msgs[n - 1].role == MessageRole::Assistant {
            1nat
        } else {
            0nat
        }
    }
}

/// The state and rank of an analyzer whose latest message is `age` seconds old and came from
/// `role`, with `recent` assistant messages in the last minute.
pub open spec fn classify(age: int, role: MessageRole, recent: int) -> (CliState, u8) {
    if age < 30 && recent > 1 {
        (CliState::Active, 0u8)
    } else if role == MessageRole::Assistant && age < 120 {
        (CliState::Waiting, 0u8)
    } else if role == MessageRole::User && age < 120 {
        (CliState::Processing, 0u8)
    } else if age < 900 {
        (CliState::Idle, 1u8)
    } else {
        (CliState::Inactive, 2u8)
    }
}

/// The status at `now` of an analyzer with messages `msgs`, whose latest is the `m`-th.
pub open spec fn status_of(msgs: Seq<ConversationMessage>, now: Timestamp, m: int) -> CliStatus {
    let secs = seconds_between(now, msgs[m].date);
    let age = if secs < 0 { 0 } else { secs };
    let (state, rank) = classify(age, msgs[m].role, recent_assistant_count(msgs, now, msgs.len() as int) as int);
    CliStatus { state, age: age as i64, rank }
}

/// Every timestamp of `msgs` is well-formed.
pub open spec fn dates_wf(msgs: Seq<ConversationMessage>) -> bool {
    forall|i: int| 0 <= i < msgs.len() ==> (#[trigger] msgs[i]).date.wf()
}

/// The status of an analyzer with messages `msgs` at `now`.
pub fn cli_status(msgs: &[ConversationMessage], now: &Timestamp) -> (r: CliStatus)
    requires
        now.wf(),
        dates_wf(msgs@),
    ensures
        msgs@.len() == 0 ==> r == (CliStatus { state: CliState::NoData, age: NO_DATA_AGE, rank: 2 }),
        msgs@.len() > 0 ==> exists|m: int| is_latest(msgs@, m) && r == status_of(msgs@, *now, m),
{
    let m = match latest_position(msgs) {
        None => return CliStatus { state: CliState::NoData, age: NO_DATA_AGE, rank: 2 },
        Some(m) => m,
    };
    let mut recent: u64 = 0;
    let mut i: usize = 0;
    while i < msgs.len()
        invariant
            i <= msgs@.len(),
            now.wf(),
            dates_wf(msgs@),
            recent == recent_assistant_count(msgs@, *now, i as int),
            recent <= i,
        decreases msgs@.len() - i,
    {
        let age = now.seconds_since(&msgs[i].date);
        if age < 60 && msgs[i].role == MessageRole::Assistant {
            recent = recent + 1;
        }
        i = i + 1;
    }
    let secs = now.seconds_since(&msgs[m].date);
    let age: i64 = if secs < 0 { 0 } else { secs };
    let role = msgs[m].role;
    let (state, rank) = if age < 30 && recent > 1 {
        (CliState::Active, 0u8)
    } else if role == MessageRole::Assistant && age < 120 {
        (CliState::Waiting, 0u8)
    } else if role == MessageRole::User && age < 120 {
        (CliState::Processing, 0u8)
    } else if age < 900 {
        (CliState::Idle, 1u8)
    } else {
        (CliState::Inactive, 2u8)
    };
    CliStatus { state, age, rank }
}

/// The idle-time text of a latest message `secs` whole seconds old: whole days, hours or
/// minutes ago, or just now.
pub open spec fn idle_text(secs: int) -> Seq<char> {
    if secs >= 86400 {
        decimal((secs / 86400) as nat) + seq!['d', ' ', 'a', 'g', 'o']
    } else if secs >= 3600 {
        decimal((secs / 3600) as nat) + seq!['h', ' ', 'a', 'g', 'o']
    } else if secs >= 60 {
        decimal((secs / 60) as nat) + seq!['m', ' ', 'a', 'g', 'o']
    } else {
        seq!['J', 'u', 's', 't', ' ', 'n', 'o', 'w']
    }
}

/// `n` in decimal followed by `unit` and " ago".
fn ago(n: u64, unit: char) -> (r: String)
    ensures
        r@ == decimal(n as nat) + seq![unit, ' ', 'a', 'g', 'o'],
{
    let mut v = decimal_chars(n);
    let tail = vec![unit, ' ', 'a', 'g', 'o'];
    append_chars(&mut v, tail.as_slice());
    string_of(v.as_slice())
}

/// How long ago an analyzer with messages `msgs` last saw one, at `now`; "No data" without
/// messages.
pub fn idle_label(msgs: &[ConversationMessage], now: &Timestamp) -> (r: String)
    requires
        now.wf(),
        dates_wf(msgs@),
    ensures
        msgs@.len() == 0 ==> r@ == seq!['N', 'o', ' ', 'd', 'a', 't', 'a'],
        msgs@.len() > 0 ==> exists|m: int| is_latest(msgs@, m) && r@ == idle_text(seconds_between(*now, msgs@[m].date)),
{
    let m = match latest_position(msgs) {
        None => {
            let v = vec!['N', 'o', ' ', 'd', 'a', 't', 'a'];
            return string_of(v.as_slice());
        },
        Some(m) => m,
    };
    let secs = now.seconds_since(&msgs[m].date);
    if secs >= 86400 {
        ago((secs / 86400) as u64, 'd')
    } else if secs >= 3600 {
        ago((secs / 3600) as u64, 'h')
    } else if secs >= 60 {
        ago((secs / 60) as u64, 'm')
    } else {
        let v = vec!['J', 'u', 's', 't', ' ', 'n', 'o', 'w'];
        string_of(v.as_slice())
    }
}

/// The messages among the first `n` whose local day (in `days`) is `day`, in order.
pub open spec fn day_messages(msgs: Seq<ConversationMessage>, days: Seq<i64>, day: i64, n: int) -> Seq<ConversationMessage>
    decreases n,
{
    if n <= 0 {
        Seq::empty()
    } else {
        let rest = day_messages(msgs, days, day, n - 1);
        if days[n - 1] == day {
            rest.push(msgs[n - 1])
        } else {
            rest
        }
    }
}

/// The timestamps of `msgs`, in order.
pub open spec fn dates_of(msgs: Seq<ConversationMessage>) -> Seq<Timestamp> {
    msgs.map_values(|m: ConversationMessage| m.date)
}

/// The order a day's messages are sorted in: by time.
pub open spec fn ts_le() -> spec_fn(Timestamp, Timestamp) -> bool {
    |a: Timestamp, b: Timestamp| a.secs < b.secs || (a.secs == b.secs && a.nanos <= b.nanos)
}

proof fn lemma_ts_le_total()
    ensures
        total_ordering(ts_le()),
{
}

/// Active time of timestamps `ts` taken in order: the credited whole-second gaps between
/// neighbours (see `gap_credit`).
pub open spec fn active_total(ts: Seq<Timestamp>) -> int
    decreases ts.len(),
{
    if ts.len() < 2 {
        0
    } else {
        active_total(ts.drop_last()) + gap_credit(seconds_between(ts.last(), ts[ts.len() - 2]))
    }
}

/// What an analyzer did on the selected day: its messages, the distinct sessions they belong
/// to, and its active seconds.
#[derive(Debug, Clone, Copy, PartialEq, Eq, Structural)]
pub struct DayActivity {
    pub messages: u64,
    pub sessions: u64,
    pub active_secs: u128,
}

/// Sorts `v` by time, by insertion into a fresh vector.
fn sort_by_time(v: &Vec<Timestamp>) -> (r: Vec<Timestamp>)
    requires
        forall|k: int| 0 <= k < v@.len() ==> (#[trigger] v@[k]).wf(),
    ensures
        sorted_by(r@, ts_le()),
        r@.to_multiset() == v@.to_multiset(),
        forall|k: int| 0 <= k < r@.len() ==> (#[trigger] r@[k]).wf(),
{
    broadcast use vstd::seq_lib::group_to_multiset_ensures;
    let mut r: Vec<Timestamp> = Vec::new();
    let mut i: usize = 0;
    while i < v.len()
        invariant
            i <= v@.len(),
            forall|k: int| 0 <= k < v@.len() ==> (#[trigger] v@[k]).wf(),
            forall|k: int| 0 <= k < r@.len() ==> (#[trigger] r@[k]).wf(),
            sorted_by(r@, ts_le()),
            r@.to_multiset() == v@.take(i as int).to_multiset(),
        decreases v@.len() - i,
    {
        let x = v[i];
        let mut p: usize = 0;
        while p < r.len() && (r[p].secs < x.secs || (r[p].secs == x.secs && r[p].nanos <= x.nanos))
            invariant
                p <= r@.len(),
                forall|a: int| 0 <= a < p ==> #[trigger] (ts_le())(r@[a], x),
            decreases r@.len() - p,
        {
            p = p + 1;
        }
        let ghost before = r@;
        r.insert(p, x);
        proof {
            let a = before.take(p as int);
            let b = before.skip(p as int);
            let xs = seq![x];
            assert(r@ =~= (a + xs) + b);
            assert(before =~= a + b);
            vstd::seq_lib::lemma_multiset_commutative(a, b);
            vstd::seq_lib::lemma_multiset_commutative(a + xs, b);
            vstd::seq_lib::lemma_multiset_commutative(a, xs);
            assert(xs =~= Seq::<Timestamp>::empty().push(x));
            assert(Seq::<Timestamp>::empty().to_multiset() =~= Multiset::<Timestamp>::empty()) by {
                broadcast use vstd::multiset::group_multiset_axioms;
                broadcast use vstd::seq_lib::group_to_multiset_ensures;
                vstd::multiset::lemma_multiset_empty_len(Seq::<Timestamp>::empty().to_multiset());
                assert(Seq::<Timestamp>::empty().to_multiset().len() == 0);
            }
            assert(xs.to_multiset() =~= Multiset::<Timestamp>::empty().insert(x)) by {
                broadcast use vstd::seq_lib::group_to_multiset_ensures;
                assert(xs.to_multiset() == Seq::<Timestamp>::empty().push(x).to_multiset());
            }
            assert(r@.to_multiset() =~= before.to_multiset().insert(x)) by {
                broadcast use vstd::multiset::group_multiset_axioms;
                assert(r@.to_multiset() =~= a.to_multiset().add(xs.to_multiset()).add(b.to_multiset()));
                assert(before.to_multiset() =~= a.to_multiset().add(b.to_multiset()));
            }
            assert(v@.take(i + 1) =~= v@.take(i as int).push(x));
            v@.take(i as int).to_multiset_ensures();
            assert(r@.to_multiset() =~= v@.take(i + 1).to_multiset());
            assert forall|k: int| 0 <= k < r@.len() implies (#[trigger] r@[k]).wf() by {
                if k > p {
                    assert(r@[k] == before[k - 1]);
                } else if k < p {
                    assert(r@[k] == before[k]);
                }
            }
            assert forall|c: int, d: int| 0 <= c < d < r@.len() implies #[trigger] (ts_le())(r@[c], r@[d]) by {
                if d < p {
                } else if d == p {
                    assert(r@[c] == before[c]);
                } else if c < p {
                    assert(r@[d] == before[d - 1]);
                    if p < before.len() {
                        assert((ts_le())(before[c], before[p as int]));
                        assert((ts_le())(before[p as int], before[d - 1]) || p == d - 1);
                    }
                } else if c == p {
                    assert(r@[d] == before[d - 1]);
                    assert(p == d - 1 || (ts_le())(before[p as int], before[d - 1]));
                } else {
                    assert(r@[c] == before[c - 1]);
                    assert(r@[d] == before[d - 1]);
                }
            }
        }
        i = i + 1;
    }
    proof {
        assert(v@.take(v@.len() as int) =~= v@);
    }
    r
}

/// What an analyzer did on day `day`: `days[i]` is the local day of `msgs[i]`.
pub fn day_activity(msgs: &[ConversationMessage], days: &[i64], day: i64) -> (r: DayActivity)
    requires
        msgs@.len() == days@.len(),
        dates_wf(msgs@),
    ensures
        r.messages == day_messages(msgs@, days@, day, msgs@.len() as int).len(),
        r.sessions == first_occurrences(conversation_names(day_messages(msgs@, days@, day, msgs@.len() as int))).len(),
        r.active_secs == active_total(dates_of(day_messages(msgs@, days@, day, msgs@.len() as int)).sort_by(ts_le())),
{
    let mut picked: Vec<ConversationMessage> = Vec::new();
    let mut times: Vec<Timestamp> = Vec::new();
    let mut i: usize = 0;
    while i < msgs.len()
        invariant
            i <= msgs@.len(),
            msgs@.len() == days@.len(),
            dates_wf(msgs@),
            picked@ == day_messages(msgs@, days@, day, i as int),
            times@ == dates_of(picked@),
            picked@.len() <= i,
            forall|k: int| 0 <= k < times@.len() ==> (#[trigger] times@[k]).wf(),
        decreases msgs@.len() - i,
    {
        if days[i] == day {
            let m = msgs[i].duplicate();
            times.push(m.date);
            picked.push(m);
            proof {
                assert(times@ =~= dates_of(picked@));
            }
        }
        i = i + 1;
    }
    let sessions = crate::daily::count_distinct_conversations(picked.as_slice());
    let sorted = sort_by_time(&times);
    proof {
        lemma_ts_le_total();
        times@.lemma_sort_by_ensures(ts_le());
        vstd::seq_lib::lemma_sorted_unique(sorted@, times@.sort_by(ts_le()), ts_le());
    }
    let mut active: u128 = 0;
    if sorted.len() >= 2 {
        let mut k: usize = 1;
        assert(sorted@.take(1).len() == 1);
        while k < sorted.len()
            invariant
                1 <= k <= sorted@.len(),
                forall|q: int| 0 <= q < sorted@.len() ==> (#[trigger] sorted@[q]).wf(),
                active == active_total(sorted@.take(k as int)),
                active <= 900 * k,
            decreases sorted@.len() - k,
        {
            let g = sorted[k].seconds_since(&sorted[k - 1]);
            proof {
                let t = sorted@.take(k as int + 1);
                assert(t.drop_last() =~= sorted@.take(k as int));
                assert(t.last() == sorted@[k as int]);
                assert(t[t.len() - 2] == sorted@[k - 1]);
            }
            if 0 < g && g < 900 {
                active = active + g as u128;
            }
            k = k + 1;
        }
        assert(sorted@.take(sorted@.len() as int) =~= sorted@);
    }
    DayActivity { messages: picked.len() as u64, sessions, active_secs: active }
}

/// The active-time text of `secs` active seconds over `messages` messages: none below two
/// messages, else hours and minutes, minutes, seconds, or under a minute.
pub open spec fn active_text(secs: int, messages: int) -> Seq<char> {
    let h = secs / 3600;
    let m = (secs % 3600) / 60;
    if messages < 2 {
        seq!['0', 'm']
    } else if h > 0 {
        decimal(h as nat) + seq!['h', ' '] + decimal(m as nat) + seq!['m']
    } else if m > 0 {
        decimal(m as nat) + seq!['m']
    } else if secs > 0 {
        decimal(secs as nat) + seq!['s']
    } else {
        seq!['<', ' ', '1', 'm']
    }
}

/// The active-time text of a day's activity.
pub fn active_label(a: &DayActivity) -> (r: String)
    ensures
        r@ == active_text(a.active_secs as int, a.messages as int),
{
    let secs = a.active_secs;
    let h = secs / 3600;
    let m = (secs % 3600) / 60;
    let mut v: Vec<char>;
    if a.messages < 2 {
        v = vec!['0', 'm'];
    } else if h > 0 {
        v = wide_decimal_chars(h);
        let hs = vec!['h', ' '];
        append_chars(&mut v, hs.as_slice());
        let mv = wide_decimal_chars(m);
        append_chars(&mut v, mv.as_slice());
        v.push('m');
    } else if m > 0 {
        v = wide_decimal_chars(m);
        v.push('m');
    } else if secs > 0 {
        v = wide_decimal_chars(secs);
        v.push('s');
    } else {
        v = vec!['<', ' ', '1', 'm'];
    }
    proof {
        if a.messages >= 2 && h > 0 {
            assert(v@ =~= decimal(h as nat) + seq!['h', ' '] + decimal(m as nat) + seq!['m']);
        }
    }
    string_of(v.as_slice())
}

/// Whether analyzer `i` is listed before analyzer `j`: a lower rank first, then the younger
/// latest message, then the earlier position.
pub open spec fn listed_before(st: Seq<CliStatus>, i: int, j: int) -> bool {
    ||| st[i].rank < st[j].rank
    ||| st[i].rank == st[j].rank && st[i].age < st[j].age
    ||| st[i].rank == st[j].rank && st[i].age == st[j].age && i < j
}

fn listed_before_exec(st: &[CliStatus], i: usize, j: usize) -> (r: bool)
    requires
        i < st@.len(),
        j < st@.len(),
    ensures
        r == listed_before(st@, i as int, j as int),
{
    let a = st[i];
    let b = st[j];
    a.rank < b.rank || (a.rank == b.rank && a.age < b.age) || (a.rank == b.rank && a.age == b.age && i < j)
}

/// The order the breakdown and the live panel list analyzers in: the positions of `st`, each
/// once, working analyzers first, then by the age of their latest message.
pub fn cli_order(st: &[CliStatus]) -> (r: Vec<usize>)
    ensures
        r@.len() == st@.len(),
        forall|k: int| 0 <= k < r@.len() ==> #[trigger] r@[k] < st@.len(),
        forall|a: int, b: int| 0 <= a < b < r@.len() ==> listed_before(st@, #[trigger] r@[a] as int, #[trigger] r@[b] as int),
{
    let mut r: Vec<usize> = Vec::new();
    let mut i: usize = 0;
    while i < st.len()
        invariant
            i <= st@.len(),
            r@.len() == i,
            forall|k: int| 0 <= k < r@.len() ==> #[trigger] r@[k] < i,
            forall|a: int, b: int| 0 <= a < b < r@.len() ==> listed_before(st@, #[trigger] r@[a] as int, #[trigger] r@[b] as int),
        decreases st@.len() - i,
    {
        let mut p: usize = 0;
        while p < r.len() && !listed_before_exec(st, i, r[p])
            invariant
                p <= r@.len(),
                i < st@.len(),
                forall|k: int| 0 <= k < r@.len() ==> #[trigger] r@[k] < i,
                forall|a: int| 0 <= a < p ==> listed_before(st@, #[trigger] r@[a] as int, i as int),
            decreases r@.len() - p,
        {
            p = p + 1;
        }
        let ghost before = r@;
        r.insert(p, i);
        proof {
            assert forall|k: int| 0 <= k < r@.len() implies #[trigger] r@[k] < i + 1 by {
                if k < p {
                    assert(r@[k] == before[k]);
                } else if k > p {
                    assert(r@[k] == before[k - 1]);
                }
            }
            assert forall|a: int, b: int| 0 <= a < b < r@.len() implies listed_before(st@, #[trigger] r@[a] as int, #[trigger] r@[b] as int) by {
                if b < p {
                    assert(r@[a] == before[a]);
                    assert(r@[b] == before[b]);
                } else if b == p {
                    assert(r@[a] == before[a]);
                } else if a < p {
                    assert(r@[a] == before[a]);
                    assert(r@[b] == before[b - 1]);
                } else if a == p {
                    assert(r@[b] == before[b - 1]);
                    assert(listed_before(st@, i as int, before[p as int] as int));
                    if b - 1 > p {
                        assert(listed_before(st@, before[p as int] as int, before[b - 1] as int));
                    }
                } else {
                    assert(r@[a] == before[a - 1]);
                    assert(r@[b] == before[b - 1]);
                }
            }
        }
        i = i + 1;
    }
    r
}

/// How many analyzer columns the breakdown table shows when it is `width` cells wide: a
/// fifteen-cell label column, then fifteen cells per analyzer, and at least one.
pub fn columns_that_fit(width: u16) -> (r: usize)
    requires
        width >= 15,
    ensures
        r == if (width - 15) / 15 > 0 { ((width - 15) / 15) as int } else { 1 },
{
    let n = ((width - 15) / 15) as usize;
    if n > 0 {
        n
    } else {
        1
    }
}

/// How many analyzers the live panel shows when it is `height` rows high: seven rows each,
/// after two rows of frame, and at least one.
pub fn panels_that_fit(height: u16) -> (r: usize)
    ensures
        r == if height >= 2 && (height - 2) / 7 > 0 { ((height - 2) / 7) as int } else { 1 },
{
    let avail: u16 = if height >= 2 { height - 2 } else { 0 };
    let n = (avail / 7) as usize;
    if n > 0 {
        n
    } else {
        1
    }
}

/// The stretch of a list of `total` items shown when scrolled to `offset` with room for
/// `count`: from the offset (at most the end) for as many as fit.
pub fn visible_window(offset: usize, total: usize, count: usize) -> (r: (usize, usize))
    ensures
        r.0 == if offset < total { offset } else { total },
        r.1 == if r.0 + count < total { r.0 + count } else { total as int },
{
    let start = if offset < total { offset } else { total };
    let room = total - start;
    let end = if count < room { start + count } else { total };
    (start, end)
}

/// An analyzer's tokens on one day, summed over its entries for that day.
#[derive(Debug, Clone, Copy, PartialEq, Eq, Structural)]
pub struct DayTokens {
    pub input_tokens: u128,
    pub output_tokens: u128,
    pub cached_tokens: u128,
    pub reasoning_tokens: u128,
}

impl DayTokens {
    /// The total of counter `k` (see `day_field`), for `k` below 4.
    pub open spec fn field(self, k: int) -> nat {
        if k == 0 {
            self.input_tokens as nat
        } else if k == 1 {
            self.output_tokens as nat
        } else if k == 2 {
            self.cached_tokens as nat
        } else {
            self.reasoning_tokens as nat
        }
    }
}

proof fn lemma_days_total_bound(s: AgenticCodingToolStats, range: DayRange, k: int, d: int)
    requires
        0 <= d <= s.daily_stats@.len(),
    ensures
        days_total(s, range, k, d) <= d * 0xffff_ffff_ffff_ffffnat,
    decreases d,
{
    if d > 0 {
        lemma_days_total_bound(s, range, k, d - 1);
        assert(day_field(s.daily_stats@[d - 1], k) <= 0xffff_ffff_ffff_ffffnat);
    }
}

/// The tokens of `stats` on day `day`.
pub fn day_tokens(stats: &AgenticCodingToolStats, day: i64) -> (r: DayTokens)
    ensures
        forall|k: int| 0 <= k < 4 ==> #[trigger] r.field(k) == days_total(*stats, DayRange { from: day, to: day }, k,
            stats.daily_stats@.len() as int),
{
    let ghost range = DayRange { from: day, to: day };
    let mut acc = DayTokens { input_tokens: 0, output_tokens: 0, cached_tokens: 0, reasoning_tokens: 0 };
    let mut d: usize = 0;
    while d < stats.daily_stats.len()
        invariant
            d <= stats.daily_stats@.len(),
            range == (DayRange { from: day, to: day }),
            forall|k: int| 0 <= k < 4 ==> #[trigger] acc.field(k) == days_total(*stats, range, k, d as int),
        decreases stats.daily_stats@.len() - d,
    {
        let e = &stats.daily_stats[d];
        proof {
            assert forall|k: int| 0 <= k < 4 implies #[trigger] days_total(*stats, range, k, d + 1)
                < 0x1_0000_0000_0000_0000_0000_0000_0000_0000 by {
                lemma_days_total_bound(*stats, range, k, d + 1);
                let n: int = d + 1;
                assert(n * 0xffff_ffff_ffff_ffffnat <= 0x1_0000_0000_0000_0000 * 0xffff_ffff_ffff_ffffnat)
                    by (nonlinear_arith)
                    requires
                        0 <= n <= 0x1_0000_0000_0000_0000,
                ;
            }
            assert(days_total(*stats, range, 0, d + 1) == acc.field(0) + if e.date == day { day_field(*e, 0) } else { 0 });
            assert(days_total(*stats, range, 1, d + 1) == acc.field(1) + if e.date == day { day_field(*e, 1) } else { 0 });
            assert(days_total(*stats, range, 2, d + 1) == acc.field(2) + if e.date == day { day_field(*e, 2) } else { 0 });
            assert(days_total(*stats, range, 3, d + 1) == acc.field(3) + if e.date == day { day_field(*e, 3) } else { 0 });
        }
        if e.date == day {
            acc.input_tokens = acc.input_tokens + e.stats.input_tokens as u128;
            acc.output_tokens = acc.output_tokens + e.stats.output_tokens as u128;
            acc.cached_tokens = acc.cached_tokens + e.stats.cached_tokens as u128;
            acc.reasoning_tokens = acc.reasoning_tokens + e.stats.reasoning_tokens as u128;
        }
        d = d + 1;
    }
    acc
}

/// Whether the overall panel counts day `d` as tracked: it cost something (`priced`, worked out
/// outside from prices) or counts tokens, tool calls, assistant messages or conversations.
pub open spec fn tracked_day(d: DailyStats, priced: bool) -> bool {
    ||| priced
    ||| d.stats.input_tokens > 0
    ||| d.stats.output_tokens > 0
    ||| d.stats.reasoning_tokens > 0
    ||| d.stats.cached_tokens > 0
    ||| d.stats.tool_calls > 0
    ||| d.ai_messages > 0
    ||| d.conversations > 0
}

/// Whether day `d` of analyzer `a` cost something, by `priced[a][d]`; no when that is missing.
pub open spec fn priced_at(priced: Seq<Vec<bool>>, a: int, d: int) -> bool {
    0 <= a < priced.len() && 0 <= d < priced[a]@.len() && priced[a]@[d]
}

/// The dates of the tracked days among the first `d` of analyzer `a`, `s`.
pub open spec fn tracked_in(s: AgenticCodingToolStats, priced: Seq<Vec<bool>>, a: int, d: int) -> Seq<i64>
    decreases d,
{
    if d <= 0 {
        Seq::empty()
    } else {
        let rest = tracked_in(s, priced, a, d - 1);
        let day = s.daily_stats@[d - 1];
        if tracked_day(day, priced_at(priced, a, d - 1)) {
            rest.push(day.date)
        } else {
            rest
        }
    }
}

/// The dates of the tracked days of the first `a` analyzers.
pub open spec fn tracked_dates(stats: Seq<AgenticCodingToolStats>, priced: Seq<Vec<bool>>, a: int) -> Seq<i64>
    decreases a,
{
    if a <= 0 {
        Seq::empty()
    } else {
        tracked_dates(stats, priced, a - 1) + tracked_in(stats[a - 1], priced, a - 1, stats[a - 1].daily_stats@.len() as int)
    }
}

/// How many distinct values `s` holds.
pub open spec fn distinct_count(s: Seq<i64>) -> nat
    decreases s.len(),
{
    if s.len() == 0 {
        0
    } else {
        distinct_count(s.drop_last()) + if s.drop_last().contains(s.last()) { 0nat } else { 1nat }
    }
}

/// Every day of every analyzer.
pub open spec fn all_days() -> DayRange {
    DayRange { from: i64::MIN, to: i64::MAX }
}

/// The overall panel: how many analyzers, their tokens (cached, input and output together),
/// reasoning tokens and tool calls over every day, and the number of distinct tracked dates.
#[derive(Debug, Clone, Copy, PartialEq, Eq, Structural)]
pub struct OverallStats {
    pub tools: usize,
    pub tokens: u128,
    pub reasoning_tokens: u64,
    pub tool_calls: u64,
    pub days_tracked: usize,
}

/// The overall panel's figures when every counter summed over every day fits in 64 bits;
/// `None` otherwise. `priced[a][d]` says whether day `d` of analyzer `a` cost anything.
pub fn overall_stats(stats: &[AgenticCodingToolStats], priced: &[Vec<bool>]) -> (r: Option<OverallStats>)
    ensures
        r is Some <==> period_fits(stats@, all_days()),
        r matches Some(o) ==> {
            &&& o.tools == stats@.len()
            &&& o.tokens == period_total(stats@, all_days(), 2, stats@.len() as int) + period_total(stats@, all_days(), 0,
                stats@.len() as int) + period_total(stats@, all_days(), 1, stats@.len() as int)
            &&& o.reasoning_tokens == period_total(stats@, all_days(), 3, stats@.len() as int)
            &&& o.tool_calls == period_total(stats@, all_days(), 4, stats@.len() as int)
            &&& o.days_tracked == distinct_count(tracked_dates(stats@, priced@, stats@.len() as int))
        },
{
    let range = DayRange { from: i64::MIN, to: i64::MAX };
    if !period_fits_check(stats, range) {
        return None;
    }
    let totals = aggregate_period(stats, range);
    assert(totals.field(0) == period_total(stats@, all_days(), 0, stats@.len() as int));
    assert(totals.field(1) == period_total(stats@, all_days(), 1, stats@.len() as int));
    assert(totals.field(2) == period_total(stats@, all_days(), 2, stats@.len() as int));
    assert(totals.field(3) == period_total(stats@, all_days(), 3, stats@.len() as int));
    assert(totals.field(4) == period_total(stats@, all_days(), 4, stats@.len() as int));
    let mut seen: Vec<i64> = Vec::new();
    let mut a: usize = 0;
    while a < stats.len()
        invariant
            a <= stats@.len(),
            forall|x: i64| seen@.contains(x) <==> #[trigger] tracked_dates(stats@, priced@, a as int).contains(x),
            seen@.len() == distinct_count(tracked_dates(stats@, priced@, a as int)),
        decreases stats@.len() - a,
    {
        let s = &stats[a];
        let mut d: usize = 0;
        let ghost base = tracked_dates(stats@, priced@, a as int);
        while d < s.daily_stats.len()
            invariant
                a < stats@.len(),
                *s == stats@[a as int],
                d <= s.daily_stats@.len(),
                base == tracked_dates(stats@, priced@, a as int),
                forall|x: i64| seen@.contains(x) <==> #[trigger] (base + tracked_in(*s, priced@, a as int, d as int)).contains(x),
                seen@.len() == distinct_count(base + tracked_in(*s, priced@, a as int, d as int)),
            decreases s.daily_stats@.len() - d,
        {
            let day = &s.daily_stats[d];
            let cost = a < priced.len() && d < priced[a].len() && priced[a][d];
            let ghost prev = base + tracked_in(*s, priced@, a as int, d as int);
            let ghost next = base + tracked_in(*s, priced@, a as int, d as int + 1);
            if cost || day.stats.input_tokens > 0 || day.stats.output_tokens > 0 || day.stats.reasoning_tokens > 0
                || day.stats.cached_tokens > 0 || day.stats.tool_calls > 0 || day.ai_messages > 0 || day.conversations > 0 {
                proof {
                    assert(next =~= prev.push(day.date));
                    assert(next.drop_last() =~= prev);
                }
                let ghost old_seen = seen@;
                let mut known = false;
                let mut q: usize = 0;
                while q < seen.len()
                    invariant
                        q <= seen@.len(),
                        known == exists|j: int| 0 <= j < q && seen@[j] == day.date,
                    decreases seen@.len() - q,
                {
                    if seen[q] == day.date {
                        known = true;
                    }
                    q = q + 1;
                }
                proof {
                    assert(known <==> old_seen.contains(day.date));
                    assert(forall|x: i64| old_seen.contains(x) <==> #[trigger] prev.contains(x));
                    assert forall|x: i64| #[trigger] next.contains(x) <==> (prev.contains(x) || x == day.date) by {
                        if next.contains(x) {
                            let j = choose|j: int| 0 <= j < next.len() && next[j] == x;
                            if j < prev.len() {
                                assert(prev[j] == x);
                            }
                        }
                        if prev.contains(x) {
                            let j = choose|j: int| 0 <= j < prev.len() && prev[j] == x;
                            assert(next[j] == x);
                        }
                        assert(next[next.len() - 1] == day.date);
                    }
                }
                if !known {
                    seen.push(day.date);
                    proof {
                        assert forall|x: i64| #[trigger] seen@.contains(x) <==> (old_seen.contains(x) || x == day.date) by {
                            if seen@.contains(x) {
                                let j = choose|j: int| 0 <= j < seen@.len() && seen@[j] == x;
                                if j < old_seen.len() {
                                    assert(old_seen[j] == x);
                                }
                            }
                            if old_seen.contains(x) {
                                let j = choose|j: int| 0 <= j < old_seen.len() && old_seen[j] == x;
                                assert(seen@[j] == x);
                            }
                            assert(seen@[seen@.len() - 1] == day.date);
                        }
                    }
                }
                proof {
                    assert forall|x: i64| seen@.contains(x) <==> #[trigger] next.contains(x) by {
                        assert(next.contains(x) <==> (prev.contains(x) || x == day.date));
                    }
                }
            } else {
                proof {
                    assert(next =~= prev);
                }
            }
            d = d + 1;
        }
        a = a + 1;
        proof {
            assert(tracked_dates(stats@, priced@, a as int) =~= base + tracked_in(*s, priced@, a - 1,
                s.daily_stats@.len() as int));
        }
    }
    Some(OverallStats {
        tools: stats.len(),
        tokens: totals.cached_tokens as u128 + totals.input_tokens as u128 + totals.output_tokens as u128,
        reasoning_tokens: totals.reasoning_tokens,
        tool_calls: totals.tool_calls,
        days_tracked: seen.len(),
    })
}

} // verus!
