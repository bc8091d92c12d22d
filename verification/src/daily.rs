//! Daily statistics for the analyzers that count every message alike: one entry per day that
//! has messages, in date order, with its message counts, per-model counts and counter totals.
use vstd::prelude::*;
use crate::aggregate::{
    counters_fit, counters_fit_check, day_range, days_in_range, lemma_min_max_bounds, max_day, min_day, models_exact, raw_total,
    tally_models, MAX_DAY, MIN_DAY,
};
use crate::incremental::first_occurrences;
use crate::json::str_eq;
use crate::types::{field_bound, ConversationMessage, DailyStats, MessageRole, ModelCount, Stats, NUM_FIELDS};

verus! {

/// Which analyzer's counting rule applies.
#[derive(Clone, Copy, Debug, PartialEq, Eq, Structural)]
pub enum DayRule {
    /// Factory Droid: the token counters and tool calls of every message; every named model.
    Droid,
    /// OpenCode: every counter up to the bytes deleted, of every message; the models of
    /// assistant messages.
    OpenCode,
}

/// How many leading counters (in declaration order) the rule adds up.
pub open spec fn rule_fields(rule: DayRule) -> int {
    match rule {
        DayRule::Droid => 7,
        DayRule::OpenCode => 22,
    }
}

/// What message `m` adds to counter `f` of its day.
pub open spec fn rule_part(m: ConversationMessage, f: int, rule: DayRule) -> int {
    if f < rule_fields(rule) { m.stats.field(f) } else { 0 }
}

/// Counter `f` of day `d` over the first `n` messages.
pub open spec fn rule_sum(msgs: Seq<ConversationMessage>, days: Seq<i64>, d: int, f: int, rule: DayRule, n: int) -> int
    decreases n,
{
    if n <= 0 {
        0
    } else {
        rule_sum(msgs, days, d, f, rule, n - 1) + if days[n - 1] == d { rule_part(msgs[n - 1], f, rule) } else { 0 }
    }
}

/// How many of the first `n` messages of day `d` are assistant messages (`assistant`) or not.
pub open spec fn role_tally(msgs: Seq<ConversationMessage>, days: Seq<i64>, d: int, assistant: bool, n: int) -> int
    decreases n,
{
    if n <= 0 {
        0
    } else {
        role_tally(msgs, days, d, assistant, n - 1) + if days[n - 1] == d && (msgs[n - 1].role
            == MessageRole::Assistant) == assistant {
            1int
        } else {
            0
        }
    }
}

/// The message as the per-model counts see it: under OpenCode's rule only assistant messages
/// name their model.
pub open spec fn model_side(m: ConversationMessage, rule: DayRule) -> ConversationMessage {
    if rule == DayRule::OpenCode && m.role != MessageRole::Assistant {
        ConversationMessage { model: None, ..m }
    } else {
        m
    }
}

pub open spec fn model_sides(msgs: Seq<ConversationMessage>, rule: DayRule) -> Seq<ConversationMessage> {
    Seq::new(msgs.len(), |i: int| model_side(msgs[i], rule))
}

/// The positions of the first `n` messages that fall on day `d`, in order.
pub open spec fn day_members(days: Seq<i64>, d: int, n: int) -> Seq<usize>
    decreases n,
{
    if n <= 0 {
        Seq::empty()
    } else if days[n - 1] == d {
        day_members(days, d, n - 1).push((n - 1) as usize)
    } else {
        day_members(days, d, n - 1)
    }
}

/// `ds` holds what the rule counts of the messages of day `d`.
pub open spec fn rule_day_matches(ds: DailyStats, msgs: Seq<ConversationMessage>, days: Seq<i64>, d: int, rule: DayRule) -> bool {
    let n = msgs.len() as int;
    &&& ds.date == d
    &&& ds.user_messages == role_tally(msgs, days, d, false, n)
    &&& ds.ai_messages == role_tally(msgs, days, d, true, n)
    &&& ds.conversations == 0
    &&& ds.active_seconds == 0
    &&& models_exact(ds.models@, model_sides(msgs, rule), days, d, n)
    &&& forall|f: int| 0 <= f < NUM_FIELDS ==> #[trigger] ds.stats.field(f) == rule_sum(msgs, days, d, f, rule, n)
}

/// Every day of `days` has its entry in `out`.
pub open spec fn covers_days(out: Seq<DailyStats>, days: Seq<i64>) -> bool {
    forall|i: int| #![trigger days[i]] 0 <= i < days.len() ==> exists|k: int| 0 <= k < out.len() && (#[trigger] out[k]).date == days[i]
}

/// What [`tally_by_day`] needs: one day per message, days within the dates chrono represents, and no day's
/// counter beyond its range.
pub open spec fn tallyable(msgs: Seq<ConversationMessage>, days: Seq<i64>, rule: DayRule) -> bool {
    &&& msgs.len() == days.len()
    &&& msgs.len() < u32::MAX
    &&& forall|i: int| 0 <= i < days.len() ==> MIN_DAY <= #[trigger] days[i] <= MAX_DAY
    &&& forall|d: int, f: int| 0 <= f < NUM_FIELDS ==> #[trigger] rule_sum(msgs, days, d, f, rule, msgs.len() as int) <= field_bound(f)
}

proof fn lemma_rule_sum_mono(msgs: Seq<ConversationMessage>, days: Seq<i64>, d: int, f: int, rule: DayRule, n: int, m: int)
    requires
        0 <= n <= m,
        0 <= f < NUM_FIELDS,
    ensures
        0 <= rule_sum(msgs, days, d, f, rule, n) <= rule_sum(msgs, days, d, f, rule, m),
    decreases m - n + m,
{
    if n < m {
        lemma_rule_sum_mono(msgs, days, d, f, rule, n, m - 1);
    } else if n > 0 {
        lemma_rule_sum_mono(msgs, days, d, f, rule, n - 1, n - 1);
    }
}

proof fn lemma_role_tally_bound(msgs: Seq<ConversationMessage>, days: Seq<i64>, d: int, assistant: bool, n: int)
    requires
        0 <= n,
    ensures
        0 <= role_tally(msgs, days, d, assistant, n) <= n,
    decreases n,
{
    if n > 0 {
        lemma_role_tally_bound(msgs, days, d, assistant, n - 1);
    }
}

fn add_rule(acc: &mut Stats, s: &Stats, rule: DayRule)
    requires
        forall|f: int| 0 <= f < NUM_FIELDS ==> old(acc).field(f) + (if f < rule_fields(rule) { s.field(f) } else { 0 }) <= field_bound(f),
    ensures
        forall|f: int| 0 <= f < NUM_FIELDS ==> #[trigger] final(acc).field(f) == old(acc).field(f) + if f < rule_fields(rule) {
            s.field(f)
        } else {
            0
        },
{
    proof {
        assert(old(acc).field(0) + s.field(0) <= field_bound(0));
        assert(old(acc).field(1) + s.field(1) <= field_bound(1));
        assert(old(acc).field(2) + s.field(2) <= field_bound(2));
        assert(old(acc).field(3) + s.field(3) <= field_bound(3));
        assert(old(acc).field(4) + s.field(4) <= field_bound(4));
        assert(old(acc).field(5) + s.field(5) <= field_bound(5));
        assert(old(acc).field(6) + s.field(6) <= field_bound(6));
    }
    acc.input_tokens = acc.input_tokens + s.input_tokens;
    acc.output_tokens = acc.output_tokens + s.output_tokens;
    acc.reasoning_tokens = acc.reasoning_tokens + s.reasoning_tokens;
    acc.cache_creation_tokens = acc.cache_creation_tokens + s.cache_creation_tokens;
    acc.cache_read_tokens = acc.cache_read_tokens + s.cache_read_tokens;
    acc.cached_tokens = acc.cached_tokens + s.cached_tokens;
    acc.tool_calls = acc.tool_calls + s.tool_calls;
    if rule == DayRule::OpenCode {
        proof {
            assert(old(acc).field(7) + s.field(7) <= field_bound(7));
            assert(old(acc).field(8) + s.field(8) <= field_bound(8));
            assert(old(acc).field(9) + s.field(9) <= field_bound(9));
            assert(old(acc).field(10) + s.field(10) <= field_bound(10));
            assert(old(acc).field(11) + s.field(11) <= field_bound(11));
            assert(old(acc).field(12) + s.field(12) <= field_bound(12));
            assert(old(acc).field(13) + s.field(13) <= field_bound(13));
            assert(old(acc).field(14) + s.field(14) <= field_bound(14));
            assert(old(acc).field(15) + s.field(15) <= field_bound(15));
            assert(old(acc).field(16) + s.field(16) <= field_bound(16));
            assert(old(acc).field(17) + s.field(17) <= field_bound(17));
            assert(old(acc).field(18) + s.field(18) <= field_bound(18));
            assert(old(acc).field(19) + s.field(19) <= field_bound(19));
            assert(old(acc).field(20) + s.field(20) <= field_bound(20));
            assert(old(acc).field(21) + s.field(21) <= field_bound(21));
        }
        acc.terminal_commands = acc.terminal_commands + s.terminal_commands;
        acc.file_searches = acc.file_searches + s.file_searches;
        acc.file_content_searches = acc.file_content_searches + s.file_content_searches;
        acc.files_read = acc.files_read + s.files_read;
        acc.files_added = acc.files_added + s.files_added;
        acc.files_edited = acc.files_edited + s.files_edited;
        acc.files_deleted = acc.files_deleted + s.files_deleted;
        acc.lines_read = acc.lines_read + s.lines_read;
        acc.lines_added = acc.lines_added + s.lines_added;
        acc.lines_edited = acc.lines_edited + s.lines_edited;
        acc.lines_deleted = acc.lines_deleted + s.lines_deleted;
        acc.bytes_read = acc.bytes_read + s.bytes_read;
        acc.bytes_added = acc.bytes_added + s.bytes_added;
        acc.bytes_edited = acc.bytes_edited + s.bytes_edited;
        acc.bytes_deleted = acc.bytes_deleted + s.bytes_deleted;
    }
}

fn model_side_copies(msgs: &[ConversationMessage], rule: DayRule) -> (r: Vec<ConversationMessage>)
    ensures
        r@ == model_sides(msgs@, rule),
{
    let mut out: Vec<ConversationMessage> = Vec::new();
    let mut i: usize = 0;
    while i < msgs.len()
        invariant
            i <= msgs@.len(),
            out@ == model_sides(msgs@, rule).take(i as int),
        decreases msgs@.len() - i,
    {
        let mut m = msgs[i].duplicate();
        if rule == DayRule::OpenCode && m.role != MessageRole::Assistant {
            m.model = None;
        }
        out.push(m);
        i = i + 1;
        assert(out@ =~= model_sides(msgs@, rule).take(i as int));
    }
    assert(model_sides(msgs@, rule).take(msgs@.len() as int) =~= model_sides(msgs@, rule));
    out
}

/// One entry per day that has messages, in date order; `days[i]` is the day of `entries[i]`.
/// Beside each entry come the positions of its messages, in order, so that their costs can be
/// summed alike.
pub fn tally_by_day(entries: &[ConversationMessage], days: &[i64], rule: DayRule) -> (r: (Vec<DailyStats>, Vec<Vec<usize>>))
    requires
        tallyable(entries@, days@, rule),
    ensures
        r.0@.len() == r.1@.len(),
        forall|k: int, l: int| 0 <= k < l < r.0@.len() ==> (#[trigger] r.0@[k]).date < (#[trigger] r.0@[l]).date,
        forall|k: int| 0 <= k < r.0@.len() ==> rule_day_matches(#[trigger] r.0@[k], entries@, days@, r.0@[k].date as int, rule),
        forall|k: int| 0 <= k < r.0@.len() ==> (#[trigger] r.1@[k])@ == day_members(days@, r.0@[k].date as int, days@.len() as int),
        forall|k: int| 0 <= k < r.0@.len() ==> (#[trigger] r.1@[k])@.len() > 0,
        covers_days(r.0@, days@),
{
    let mut out: Vec<DailyStats> = Vec::new();
    let mut members: Vec<Vec<usize>> = Vec::new();
    if entries.len() == 0 {
        assert(covers_days(out@, days@));
        return (out, members);
    }
    let (first, last) = day_range(days, days[0]);
    proof {
        lemma_min_max_bounds(days@, days@.len() as int);
    }
    let ghost n = entries@.len() as int;
    let len: usize = (last - first + 1) as usize;
    let sides = model_side_copies(entries, rule);
    let mut models = tally_models(sides.as_slice(), days, first, len);
    let mut k: usize = 0;
    while k < len
        invariant
            tallyable(entries@, days@, rule),
            n == entries@.len(),
            n >= 1,
            len == last - first + 1,
            first == min_day(days@, n),
            last == max_day(days@, n),
            MIN_DAY <= first <= last <= MAX_DAY,
            forall|i: int| 0 <= i < n ==> first <= #[trigger] days@[i] <= last,
            k <= len,
            models@.len() == len,
            sides@ == model_sides(entries@, rule),
            forall|j: int| k <= j < len ==> models_exact(#[trigger] models@[j]@, sides@, days@, first + j, n),
            out@.len() == members@.len(),
            forall|a: int, b: int| 0 <= a < b < out@.len() ==> (#[trigger] out@[a]).date < (#[trigger] out@[b]).date,
            forall|a: int| 0 <= a < out@.len() ==> first <= (#[trigger] out@[a]).date < first + k,
            forall|a: int| 0 <= a < out@.len() ==> rule_day_matches(#[trigger] out@[a], entries@, days@, out@[a].date as int, rule),
            forall|a: int| 0 <= a < out@.len() ==> (#[trigger] members@[a])@ == day_members(days@, out@[a].date as int, n),
            forall|a: int| 0 <= a < out@.len() ==> (#[trigger] members@[a])@.len() > 0,
            forall|i: int| #![trigger days@[i]] 0 <= i < n && days@[i] < first + k ==> exists|a: int| 0 <= a < out@.len() && (#[trigger] out@[a]).date == days@[i],
        decreases len - k,
    {
        let d: i64 = first + k as i64;
        let mut acc = Stats::zero();
        let mut users: u32 = 0;
        let mut ais: u32 = 0;
        let mut here: Vec<usize> = Vec::new();
        let mut i: usize = 0;
        while i < entries.len()
            invariant
                tallyable(entries@, days@, rule),
                n == entries@.len(),
                i <= n,
                forall|f: int| 0 <= f < NUM_FIELDS ==> #[trigger] acc.field(f) == rule_sum(entries@, days@, d as int, f, rule, i as int),
                users == role_tally(entries@, days@, d as int, false, i as int),
                ais == role_tally(entries@, days@, d as int, true, i as int),
                here@ == day_members(days@, d as int, i as int),
            decreases n - i,
        {
            if days[i] == d {
                proof {
                    assert forall|f: int| 0 <= f < NUM_FIELDS implies acc.field(f) + (if f < rule_fields(rule) {
                        entries@[i as int].stats.field(f)
                    } else {
                        0
                    }) <= field_bound(f) by {
                        lemma_rule_sum_mono(entries@, days@, d as int, f, rule, i as int + 1, n);
                        assert(rule_sum(entries@, days@, d as int, f, rule, n) <= field_bound(f));
                    }
                    lemma_role_tally_bound(entries@, days@, d as int, false, i as int);
                    lemma_role_tally_bound(entries@, days@, d as int, true, i as int);
                }
                add_rule(&mut acc, &entries[i].stats, rule);
                if entries[i].role == MessageRole::Assistant {
                    ais = ais + 1;
                } else {
                    users = users + 1;
                }
                here.push(i);
            }
            i = i + 1;
        }
        if here.len() > 0 {
            let mut day_models: Vec<ModelCount> = Vec::new();
            std::mem::swap(&mut day_models, &mut models[k]);
            let ghost kept = out@;
            out.push(DailyStats {
                date: d,
                user_messages: users,
                ai_messages: ais,
                conversations: 0,
                models: day_models,
                stats: acc,
                active_seconds: 0,
            });
            members.push(here);
            proof {
                assert forall|i: int| #![trigger days@[i]] 0 <= i < n && days@[i] < first + k + 1 implies exists|a: int|
                    0 <= a < out@.len() && (#[trigger] out@[a]).date == days@[i] by {
                    if days@[i] == d {
                        assert(out@[kept.len() as int].date == days@[i]);
                    } else {
                        let a = choose|a: int| 0 <= a < kept.len() && (#[trigger] kept[a]).date == days@[i];
                        assert(out@[a] == kept[a]);
                    }
                }
            }
        } else {
            proof {
                assert forall|i: int| #![trigger days@[i]] 0 <= i < n && days@[i] < first + k + 1 implies exists|a: int|
                    0 <= a < out@.len() && (#[trigger] out@[a]).date == days@[i] by {
                    if days@[i] == d {
                        lemma_member_present(days@, d as int, i, n);
                    }
                }
            }
        }
        k = k + 1;
    }
    assert forall|i: int| #![trigger days@[i]] 0 <= i < days@.len() implies exists|a: int| 0 <= a < out@.len() && (#[trigger] out@[a]).date == days@[i] by {
        assert(days@[i] < first + k);
    }
    assert(covers_days(out@, days@));
    (out, members)
}

proof fn lemma_member_present(days: Seq<i64>, d: int, i: int, n: int)
    requires
        0 <= i < n,
        days[i] == d,
    ensures
        day_members(days, d, n).len() > 0,
    decreases n,
{
    if n - 1 > i {
        lemma_member_present(days, d, i, n - 1);
    }
}

/// The conversation names of `msgs`, in order.
pub open spec fn conversation_names(msgs: Seq<ConversationMessage>) -> Seq<Seq<char>> {
    msgs.map_values(|m: ConversationMessage| m.conversation_hash@)
}

/// How many distinct conversations `msgs` belong to.
pub fn count_distinct_conversations(msgs: &[ConversationMessage]) -> (r: u64)
    ensures
        r == first_occurrences(conversation_names(msgs@)).len(),
{
    let mut seen: Vec<String> = Vec::new();
    let mut i: usize = 0;
    while i < msgs.len()
        invariant
            i <= msgs@.len(),
            seen@.map_values(|x: String| x@) == first_occurrences(conversation_names(msgs@).take(i as int)),
            seen@.len() <= i,
        decreases msgs@.len() - i,
    {
        let ghost names = conversation_names(msgs@);
        assert(names.take(i as int + 1).drop_last() =~= names.take(i as int));
        assert(names.take(i as int + 1).last() == msgs@[i as int].conversation_hash@);
        let h = msgs[i].conversation_hash.as_str();
        let ghost sv = seen@.map_values(|x: String| x@);
        let mut k: usize = 0;
        let mut found = false;
        while k < seen.len() && !found
            invariant
                k <= seen@.len(),
                sv == seen@.map_values(|x: String| x@),
                found ==> sv.contains(h@),
                !found ==> forall|m: int| 0 <= m < k ==> sv[m] != h@,
            decreases seen@.len() - k,
        {
            if str_eq(seen[k].as_str(), h) {
                assert(sv[k as int] == h@);
                found = true;
            }
            k = k + 1;
        }
        if !found {
            seen.push(msgs[i].conversation_hash.clone());
            assert(seen@.map_values(|x: String| x@) =~= sv.push(h@));
        }
        i = i + 1;
    }
    assert(conversation_names(msgs@).take(msgs@.len() as int) =~= conversation_names(msgs@));
    seen.len() as u64
}

proof fn lemma_rule_sum_below_raw(msgs: Seq<ConversationMessage>, days: Seq<i64>, d: int, f: int, rule: DayRule, n: int)
    ensures
        rule_sum(msgs, days, d, f, rule, n) <= raw_total(msgs, f, n),
    decreases n,
{
    if n > 0 {
        lemma_rule_sum_below_raw(msgs, days, d, f, rule, n - 1);
    }
}

/// The inputs `tally_by_day_checked` folds: those of `tallyable`, with every counter summed
/// over all the messages, not only day by day, within its range.
pub open spec fn tallyable_overall(msgs: Seq<ConversationMessage>, days: Seq<i64>) -> bool {
    &&& msgs.len() == days.len()
    &&& msgs.len() < u32::MAX
    &&& forall|i: int| 0 <= i < days.len() ==> MIN_DAY <= #[trigger] days[i] <= MAX_DAY
    &&& counters_fit(msgs)
}

/// [`tally_by_day`] on inputs it can fold (see [`tallyable_overall`]); `None` on others.
pub fn tally_by_day_checked(entries: &[ConversationMessage], days: &[i64], rule: DayRule) -> (r: Option<(Vec<DailyStats>, Vec<Vec<usize>>)>)
    ensures
        r is Some <==> tallyable_overall(entries@, days@),
        r matches Some(t) ==> {
            &&& t.0@.len() == t.1@.len()
            &&& forall|k: int, l: int| 0 <= k < l < t.0@.len() ==> (#[trigger] t.0@[k]).date < (#[trigger] t.0@[l]).date
            &&& forall|k: int| 0 <= k < t.0@.len() ==> rule_day_matches(#[trigger] t.0@[k], entries@, days@, t.0@[k].date as int, rule)
            &&& forall|k: int| 0 <= k < t.0@.len() ==> (#[trigger] t.1@[k])@ == day_members(days@, t.0@[k].date as int, days@.len() as int)
            &&& forall|k: int| 0 <= k < t.0@.len() ==> (#[trigger] t.1@[k])@.len() > 0
            &&& covers_days(t.0@, days@)
        },
{
    if entries.len() != days.len() || entries.len() >= 0xffff_ffff || !days_in_range(days) || !counters_fit_check(entries) {
        return None;
    }
    proof {
        assert forall|d: int, f: int| 0 <= f < NUM_FIELDS implies #[trigger] rule_sum(entries@, days@, d, f, rule, entries@.len() as int)
            <= field_bound(f) by {
            lemma_rule_sum_below_raw(entries@, days@, d, f, rule, entries@.len() as int);
            assert(raw_total(entries@, f, entries@.len() as int) <= field_bound(f));
        }
    }
    Some(tally_by_day(entries, days, rule))
}

/// The day message `m` is counted on under `rule`: Factory Droid by its UTC date, OpenCode by
/// its local date `local_day`.
pub open spec fn rule_day_of(m: ConversationMessage, local_day: i64, rule: DayRule) -> int {
    match rule {
        DayRule::Droid => m.date.secs as int / 86400,
        DayRule::OpenCode => local_day as int,
    }
}

/// The day numbers the messages are counted on under `rule` (see [`rule_day_of`]); `local_days[i]`
/// is the local day of `msgs[i]`.
pub fn rule_days(msgs: &[ConversationMessage], local_days: &[i64], rule: DayRule) -> (r: Vec<i64>)
    requires
        msgs@.len() == local_days@.len(),
    ensures
        r@.len() == msgs@.len(),
        forall|i: int| 0 <= i < r@.len() ==> #[trigger] r@[i] == rule_day_of(msgs@[i], local_days@[i], rule),
{
    let mut out: Vec<i64> = Vec::new();
    let mut i: usize = 0;
    while i < msgs.len()
        invariant
            i <= msgs@.len(),
            msgs@.len() == local_days@.len(),
            out@.len() == i,
            forall|k: int| 0 <= k < i ==> #[trigger] out@[k] == rule_day_of(msgs@[k], local_days@[k], rule),
        decreases msgs@.len() - i,
    {
        let d = match rule {
            DayRule::Droid => {
                let s = msgs[i].date.secs;
                if s >= 0 {
                    s / 86400
                } else {
                    let t: i64 = -(s + 1);
                    let q = t / 86400;
                    assert(q * 86400 <= t < q * 86400 + 86400);
                    assert(s as int / 86400 == -q - 1) by (nonlinear_arith)
                        requires
                            t == -(s + 1),
                            q * 86400 <= t < q * 86400 + 86400,
                    ;
                    -q - 1
                }
            },
            DayRule::OpenCode => local_days[i],
        };
        out.push(d);
        i = i + 1;
    }
    out
}

/// How many conversations an analyzer counting by `rule` reports: Factory Droid one per
/// message (each session makes one), OpenCode the distinct conversations.
pub fn rule_conversations(msgs: &[ConversationMessage], rule: DayRule) -> (r: u64)
    ensures
        rule == DayRule::Droid ==> r == msgs@.len(),
        rule == DayRule::OpenCode ==> r == first_occurrences(conversation_names(msgs@)).len(),
{
    match rule {
        DayRule::Droid => msgs.len() as u64,
        DayRule::OpenCode => count_distinct_conversations(msgs),
    }
}

} // verus!

verus! {

/// The global hashes of `ms`.
pub open spec fn priced_hashes(ms: Seq<crate::types::PricedMessage>) -> Seq<Seq<char>> {
    ms.map_values(|m: crate::types::PricedMessage| m.message.global_hash@)
}

/// `ms` without the messages whose global hash an earlier one already has.
pub open spec fn first_of_each_hash(ms: Seq<crate::types::PricedMessage>) -> Seq<crate::types::PricedMessage>
    decreases ms.len(),
{
    if ms.len() == 0 {
        ms
    } else {
        let rest = first_of_each_hash(ms.drop_last());
        if priced_hashes(ms.drop_last()).contains(ms.last().message.global_hash@) {
            rest
        } else {
            rest.push(ms.last())
        }
    }
}

proof fn lemma_first_of_each_hash_members(ms: Seq<crate::types::PricedMessage>)
    ensures
        forall|h: Seq<char>| priced_hashes(first_of_each_hash(ms)).contains(h) <==> priced_hashes(ms).contains(h),
    decreases ms.len(),
{
    if ms.len() > 0 {
        let d = ms.drop_last();
        lemma_first_of_each_hash_members(d);
        let r = first_of_each_hash(d);
        assert forall|h: Seq<char>| priced_hashes(ms).contains(h) <==> (priced_hashes(d).contains(h) || h == ms.last().message.global_hash@) by {
            if priced_hashes(ms).contains(h) {
                let i = choose|i: int| 0 <= i < priced_hashes(ms).len() && priced_hashes(ms)[i] == h;
                if i < d.len() {
                    assert(priced_hashes(d)[i] == h);
                }
            }
            if priced_hashes(d).contains(h) {
                let i = choose|i: int| 0 <= i < priced_hashes(d).len() && priced_hashes(d)[i] == h;
                assert(priced_hashes(ms)[i] == h);
            }
            assert(priced_hashes(ms)[ms.len() - 1] == ms.last().message.global_hash@);
        }
        if !priced_hashes(d).contains(ms.last().message.global_hash@) {
            let t = r.push(ms.last());
            assert forall|h: Seq<char>| priced_hashes(t).contains(h) <==> (priced_hashes(r).contains(h) || h == ms.last().message.global_hash@) by {
                if priced_hashes(t).contains(h) {
                    let i = choose|i: int| 0 <= i < priced_hashes(t).len() && priced_hashes(t)[i] == h;
                    if i < r.len() {
                        assert(priced_hashes(r)[i] == h);
                    }
                }
                if priced_hashes(r).contains(h) {
                    let i = choose|i: int| 0 <= i < priced_hashes(r).len() && priced_hashes(r)[i] == h;
                    assert(priced_hashes(t)[i] == h);
                }
                assert(priced_hashes(t)[t.len() - 1] == ms.last().message.global_hash@);
            }
        }
    }
}

fn copy_priced(p: &crate::types::PricedMessage) -> (r: crate::types::PricedMessage)
    ensures
        r == *p,
{
    let usage = match &p.usage {
        Some(q) => Some(crate::types::CostQuery {
            model: q.model.clone(),
            input_tokens: q.input_tokens,
            output_tokens: q.output_tokens,
            cache_creation_tokens: q.cache_creation_tokens,
            cache_read_tokens: q.cache_read_tokens,
        }),
        None => None,
    };
    crate::types::PricedMessage { message: p.message.duplicate(), usage }
}

/// Keeps, in order, only the first message of each global hash, so that files whose data
/// overlap count each message once.
pub fn dedup_by_global_hash(messages: &[crate::types::PricedMessage]) -> (r: Vec<crate::types::PricedMessage>)
    ensures
        r@ == first_of_each_hash(messages@),
{
    let mut seen: vstd::hash_map::StringHashMap<bool> = vstd::hash_map::StringHashMap::new();
    let mut out: Vec<crate::types::PricedMessage> = Vec::new();
    let ghost all = messages@;
    let mut i: usize = 0;
    while i < messages.len()
        invariant
            i <= all.len(),
            all == messages@,
            out@ == first_of_each_hash(all.take(i as int)),
            forall|h: Seq<char>| seen@.contains_key(h) <==> priced_hashes(all.take(i as int)).contains(h),
        decreases all.len() - i,
    {
        let ghost pre = all.take(i as int);
        assert(all.take(i as int + 1).drop_last() =~= pre);
        assert(all.take(i as int + 1).last() == all[i as int]);
        proof {
            lemma_first_of_each_hash_members(pre);
        }
        let h = messages[i].message.global_hash.clone();
        let ghost old_seen = seen@;
        let ghost hv = h@;
        if !seen.contains_key(h.as_str()) {
            seen.insert(h, true);
            out.push(copy_priced(&messages[i]));
        }
        i = i + 1;
        assert(forall|h2: Seq<char>| h2 != hv ==> (seen@.contains_key(h2) == old_seen.contains_key(h2)));
        assert(seen@.contains_key(hv));
        assert forall|h2: Seq<char>| seen@.contains_key(h2) <==> priced_hashes(all.take(i as int)).contains(h2) by {
            let now = all.take(i as int);
            assert(old_seen.contains_key(h2) <==> priced_hashes(pre).contains(h2));
            assert(priced_hashes(now)[i - 1] == hv);
            assert(priced_hashes(now) =~= priced_hashes(pre).push(all[i - 1].message.global_hash@));
            if priced_hashes(now).contains(h2) {
                let k = choose|k: int| 0 <= k < priced_hashes(now).len() && priced_hashes(now)[k] == h2;
                if k < pre.len() {
                    assert(priced_hashes(pre)[k] == h2);
                }
            }
            if priced_hashes(pre).contains(h2) {
                let k = choose|k: int| 0 <= k < priced_hashes(pre).len() && priced_hashes(pre)[k] == h2;
                assert(priced_hashes(now)[k] == h2);
            }
        }
    }
    assert(all.take(all.len() as int) =~= all);
    out
}

/// The global hashes of `ms`.
pub open spec fn message_hashes(ms: Seq<ConversationMessage>) -> Seq<Seq<char>> {
    ms.map_values(|m: ConversationMessage| m.global_hash@)
}

/// The positions in `hs` of the first occurrence of each text, in order.
pub open spec fn first_positions(hs: Seq<Seq<char>>) -> Seq<usize>
    decreases hs.len(),
{
    if hs.len() == 0 {
        Seq::empty()
    } else {
        let rest = first_positions(hs.drop_last());
        if hs.drop_last().contains(hs.last()) {
            rest
        } else {
            rest.push((hs.len() - 1) as usize)
        }
    }
}

/// The positions of the messages whose global hash no earlier message has, in order.
pub fn first_of_each_global_hash(messages: &[ConversationMessage]) -> (r: Vec<usize>)
    ensures
        r@ == first_positions(message_hashes(messages@)),
{
    let mut seen: vstd::hash_map::StringHashMap<bool> = vstd::hash_map::StringHashMap::new();
    let mut out: Vec<usize> = Vec::new();
    let ghost all = messages@;
    let mut i: usize = 0;
    while i < messages.len()
        invariant
            i <= all.len(),
            all == messages@,
            out@ == first_positions(message_hashes(all.take(i as int))),
            forall|h: Seq<char>| seen@.contains_key(h) <==> message_hashes(all.take(i as int)).contains(h),
        decreases all.len() - i,
    {
        let ghost pre = message_hashes(all.take(i as int));
        let ghost now = message_hashes(all.take(i as int + 1));
        let h = messages[i].global_hash.clone();
        let ghost hv = h@;
        proof {
            assert(now =~= pre.push(hv));
            assert(now.drop_last() =~= pre);
        }
        let ghost old_seen = seen@;
        assert(forall|h2: Seq<char>| old_seen.contains_key(h2) <==> pre.contains(h2));
        if !seen.contains_key(h.as_str()) {
            seen.insert(h, true);
            out.push(i);
        }
        i = i + 1;
        assert(forall|h2: Seq<char>| h2 != hv ==> (seen@.contains_key(h2) == old_seen.contains_key(h2)));
        assert(seen@.contains_key(hv));
        assert forall|h2: Seq<char>| seen@.contains_key(h2) <==> now.contains(h2) by {
            assert(now[now.len() - 1] == hv);
            if now.contains(h2) {
                let k = choose|k: int| 0 <= k < now.len() && now[k] == h2;
                if k < pre.len() {
                    assert(pre[k] == h2);
                }
            }
            if pre.contains(h2) {
                let k = choose|k: int| 0 <= k < pre.len() && pre[k] == h2;
                assert(now[k] == h2);
            }
        }
    }
    assert(all.take(all.len() as int) =~= all);
    out
}

} // verus!
