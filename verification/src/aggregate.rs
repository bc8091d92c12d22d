//! Folding messages into per-day totals.
use vstd::prelude::*;
use vstd::hash_map::StringHashMap;
use vstd::relations::{sorted_by, total_ordering};
use vstd::multiset::Multiset;
use crate::types::{contribution, field_bound, ConversationMessage, DailyStats, ModelCount, Stats, NUM_FIELDS};

verus! {

/// Day number of -262144-01-01, the first date chrono represents; every day the aggregation
/// handles is on or after it.
pub const MIN_DAY: i64 = -96_465_659;

/// Day number of 262143-12-31, the last date chrono represents; every day the aggregation
/// handles is on or before it.
pub const MAX_DAY: i64 = 95_026_601;

/// Whether message `m` counts as an AI message (it names a model).
pub open spec fn is_ai(m: ConversationMessage) -> bool {
    m.model is Some
}

/// Counter `f` summed over the contributions of the first `n` messages that fall on day `d`.
pub open spec fn day_total(msgs: Seq<ConversationMessage>, days: Seq<i64>, d: int, f: int, n: int) -> int
    decreases n,
{
    if n <= 0 {
        0
    } else {
        day_total(msgs, days, d, f, n - 1) + if days[n - 1] == d {
            contribution(msgs[n - 1].stats, is_ai(msgs[n - 1]), f)
        } else {
            0
        }
    }
}

/// Number of the first `n` messages on day `d` that are user messages (`user == true`) or AI
/// messages (`user == false`).
pub open spec fn day_count(msgs: Seq<ConversationMessage>, days: Seq<i64>, d: int, user: bool, n: int) -> int
    decreases n,
{
    if n <= 0 {
        0
    } else {
        day_count(msgs, days, d, user, n - 1) + if days[n - 1] == d && is_ai(msgs[n - 1]) != user {
            1int
        } else {
            0
        }
    }
}

/// The smallest of the first `n` day numbers.
pub open spec fn min_day(days: Seq<i64>, n: int) -> int
    decreases n,
{
    if n <= 1 {
        days[0] as int
    } else {
        let m = min_day(days, n - 1);
        if days[n - 1] < m { days[n - 1] as int } else { m }
    }
}

/// The largest of the first `n` day numbers.
pub open spec fn max_day(days: Seq<i64>, n: int) -> int
    decreases n,
{
    if n <= 1 {
        days[0] as int
    } else {
        let m = max_day(days, n - 1);
        if days[n - 1] > m { days[n - 1] as int } else { m }
    }
}

pub proof fn lemma_day_total_nonneg(msgs: Seq<ConversationMessage>, days: Seq<i64>, d: int, f: int, n: int)
    requires
        n <= msgs.len(),
        n <= days.len(),
    ensures
        day_total(msgs, days, d, f, n) >= 0,
    decreases n,
{
    if n > 0 {
        lemma_day_total_nonneg(msgs, days, d, f, n - 1);
    }
}

/// Totals over a prefix never exceed totals over a longer prefix.
pub proof fn lemma_day_total_mono(msgs: Seq<ConversationMessage>, days: Seq<i64>, d: int, f: int, n: int, m: int)
    requires
        0 <= n <= m,
        m <= msgs.len(),
        m <= days.len(),
    ensures
        day_total(msgs, days, d, f, n) <= day_total(msgs, days, d, f, m),
    decreases m - n,
{
    if n < m {
        lemma_day_total_mono(msgs, days, d, f, n, m - 1);
    }
}

pub proof fn lemma_min_max_bounds(days: Seq<i64>, n: int)
    requires
        1 <= n <= days.len(),
    ensures
        forall|i: int| 0 <= i < n ==> min_day(days, n) <= #[trigger] days[i] <= max_day(days, n),
        exists|i: int| 0 <= i < n && days[i] == min_day(days, n),
        exists|i: int| 0 <= i < n && days[i] == max_day(days, n),
    decreases n,
{
    if n == 1 {
        assert(days[0] as int == min_day(days, 1));
        assert(days[0] as int == max_day(days, 1));
    } else {
        lemma_min_max_bounds(days, n - 1);
        if days[n - 1] < min_day(days, n - 1) {
            assert(days[n - 1] as int == min_day(days, n));
        } else {
            let i = choose|i: int| 0 <= i < n - 1 && days[i] == min_day(days, n - 1);
            assert(days[i] as int == min_day(days, n));
        }
        if days[n - 1] > max_day(days, n - 1) {
            assert(days[n - 1] as int == max_day(days, n));
        } else {
            let i = choose|i: int| 0 <= i < n - 1 && days[i] == max_day(days, n - 1);
            assert(days[i] as int == max_day(days, n));
        }
    }
}

/// The first and last day the aggregation covers: from the earliest message through the later of
/// the latest message and `today`.
pub(crate) fn day_range(days: &[i64], today: i64) -> (r: (i64, i64))
    requires
        days.len() >= 1,
    ensures
        r.0 == min_day(days@, days.len() as int),
        r.1 == if max_day(days@, days.len() as int) > today { max_day(days@, days.len() as int) } else { today as int },
{
    let mut lo = days[0];
    let mut hi = days[0];
    let mut i: usize = 1;
    while i < days.len()
        invariant
            1 <= i <= days.len(),
            lo == min_day(days@, i as int),
            hi == max_day(days@, i as int),
        decreases days.len() - i,
    {
        if days[i] < lo {
            lo = days[i];
        }
        if days[i] > hi {
            hi = days[i];
        }
        i = i + 1;
    }
    if today > hi {
        hi = today;
    }
    (lo, hi)
}

pub proof fn lemma_day_count_bound(msgs: Seq<ConversationMessage>, days: Seq<i64>, d: int, user: bool, n: int)
    requires
        0 <= n,
    ensures
        0 <= day_count(msgs, days, d, user, n) <= n,
    decreases n,
{
    if n > 0 {
        lemma_day_count_bound(msgs, days, d, user, n - 1);
    }
}

/// Message counts and counter totals for each of the `len` days starting at `first`.
fn tally(msgs: &[ConversationMessage], days: &[i64], first: i64, len: usize) -> (r: (
    Vec<u32>,
    Vec<u32>,
    Vec<Stats>,
))
    requires
        msgs.len() == days.len(),
        msgs.len() < u32::MAX,
        len <= 0x7fff_ffff,
        forall|i: int| 0 <= i < days.len() ==> first <= #[trigger] days[i] < first + len,
        forall|d: int, f: int|
            0 <= f < NUM_FIELDS ==> #[trigger] day_total(msgs@, days@, d, f, msgs.len() as int)
                <= field_bound(f),
    ensures
        r.0.len() == len,
        r.1.len() == len,
        r.2.len() == len,
        forall|k: int|
            0 <= k < len ==> #[trigger] r.0[k] == day_count(msgs@, days@, first + k, true, msgs.len() as int),
        forall|k: int|
            0 <= k < len ==> #[trigger] r.1[k] == day_count(msgs@, days@, first + k, false, msgs.len() as int),
        forall|k: int, f: int|
            0 <= k < len && 0 <= f < NUM_FIELDS ==> #[trigger] r.2[k].field(f) == day_total(
                msgs@,
                days@,
                first + k,
                f,
                msgs.len() as int,
            ),
{
    let mut users: Vec<u32> = Vec::new();
    let mut ais: Vec<u32> = Vec::new();
    let mut totals: Vec<Stats> = Vec::new();
    let mut k: usize = 0;
    while k < len
        invariant
            k <= len,
            users.len() == k,
            ais.len() == k,
            totals.len() == k,
            forall|j: int| 0 <= j < k ==> #[trigger] users[j] == 0,
            forall|j: int| 0 <= j < k ==> #[trigger] ais[j] == 0,
            forall|j: int| 0 <= j < k ==> (#[trigger] totals[j]).is_zero(),
        decreases len - k,
    {
        users.push(0);
        ais.push(0);
        totals.push(Stats::zero());
        k = k + 1;
    }
    let mut i: usize = 0;
    while i < msgs.len()
        invariant
            i <= msgs.len(),
            msgs.len() == days.len(),
            msgs.len() < u32::MAX,
            len <= 0x7fff_ffff,
            forall|j: int| 0 <= j < days.len() ==> first <= #[trigger] days[j] < first + len,
            forall|d: int, f: int|
                0 <= f < NUM_FIELDS ==> #[trigger] day_total(msgs@, days@, d, f, msgs.len() as int)
                    <= field_bound(f),
            users.len() == len,
            ais.len() == len,
            totals.len() == len,
            forall|j: int|
                0 <= j < len ==> #[trigger] users[j] == day_count(msgs@, days@, first + j, true, i as int),
            forall|j: int|
                0 <= j < len ==> #[trigger] ais[j] == day_count(msgs@, days@, first + j, false, i as int),
            forall|j: int, f: int|
                0 <= j < len && 0 <= f < NUM_FIELDS ==> #[trigger] totals[j].field(f) == day_total(
                    msgs@,
                    days@,
                    first + j,
                    f,
                    i as int,
                ),
        decreases msgs.len() - i,
    {
        let idx = (days[i] - first) as usize;
        let ai = msgs[i].model.is_some();
        proof {
            lemma_day_count_bound(msgs@, days@, days[i as int] as int, true, i as int);
            lemma_day_count_bound(msgs@, days@, days[i as int] as int, false, i as int);
        }
        if ai {
            let c = ais[idx];
            ais.set(idx, c + 1);
        } else {
            let c = users[idx];
            users.set(idx, c + 1);
        }
        let mut t = totals[idx];
        proof {
            assert forall|f: int| 0 <= f < NUM_FIELDS implies t.field(f) + contribution(
                msgs[i as int].stats,
                ai,
                f,
            ) <= field_bound(f) by {
                assert(t.field(f) == day_total(msgs@, days@, first + idx, f, i as int));
                lemma_day_total_mono(msgs@, days@, first + idx, f, i as int + 1, msgs.len() as int);
                assert(day_total(msgs@, days@, first + idx, f, i as int + 1) <= field_bound(f));
            }
        }
        t.accumulate(&msgs[i].stats, ai);
        totals.set(idx, t);
        i = i + 1;
        proof {
            assert forall|j: int, f: int| 0 <= j < len && 0 <= f < NUM_FIELDS implies #[trigger] totals[j].field(f) == day_total(
                msgs@,
                days@,
                first + j,
                f,
                i as int,
            ) by {
                if j != idx as int {
                    assert(days[i - 1] != first + j);
                }
            }
        }
    }
    (users, ais, totals)
}

/// Number of the first `n` messages on day `d` whose model is named `name`.
pub open spec fn model_count(msgs: Seq<ConversationMessage>, days: Seq<i64>, d: int, name: Seq<char>, n: int) -> int
    decreases n,
{
    if n <= 0 {
        0
    } else {
        model_count(msgs, days, d, name, n - 1) + if days[n - 1] == d && msgs[n - 1].model is Some
            && msgs[n - 1].model->0@ == name {
            1int
        } else {
            0
        }
    }
}

/// `models` lists each model named by the first `n` messages of day `d` exactly once, with the
/// number of those messages that name it.
pub open spec fn models_exact(models: Seq<ModelCount>, msgs: Seq<ConversationMessage>, days: Seq<i64>, d: int, n: int) -> bool {
    &&& forall|a: int, b: int|
        0 <= a < b < models.len() ==> (#[trigger] models[a]).name@ != (#[trigger] models[b]).name@
    &&& forall|a: int|
        0 <= a < models.len() ==> (#[trigger] models[a]).count == model_count(msgs, days, d, models[a].name@, n)
            && models[a].count > 0
    &&& forall|j: int|
        0 <= j < n && days[j] == d && (#[trigger] msgs[j]).model is Some ==> exists|a: int|
            0 <= a < models.len() && (#[trigger] models[a]).name@ == msgs[j].model->0@
}

pub proof fn lemma_model_count_bound(msgs: Seq<ConversationMessage>, days: Seq<i64>, d: int, name: Seq<char>, n: int)
    requires
        0 <= n,
    ensures
        0 <= model_count(msgs, days, d, name, n) <= n,
    decreases n,
{
    if n > 0 {
        lemma_model_count_bound(msgs, days, d, name, n - 1);
    }
}

pub proof fn lemma_model_count_witness(msgs: Seq<ConversationMessage>, days: Seq<i64>, d: int, name: Seq<char>, n: int) -> (j: int)
    requires
        model_count(msgs, days, d, name, n) > 0,
    ensures
        0 <= j < n,
        days[j] == d,
        msgs[j].model is Some,
        msgs[j].model->0@ == name,
    decreases n,
{
    if days[n - 1] == d && msgs[n - 1].model is Some && msgs[n - 1].model->0@ == name {
        n - 1
    } else {
        lemma_model_count_witness(msgs, days, d, name, n - 1)
    }
}

/// Per-model message counts for each of the `len` days starting at `first`.
pub(crate) fn tally_models(msgs: &[ConversationMessage], days: &[i64], first: i64, len: usize) -> (r: Vec<Vec<ModelCount>>)
    requires
        msgs.len() == days.len(),
        msgs.len() < u32::MAX,
        len <= 0x7fff_ffff,
        forall|i: int| 0 <= i < days.len() ==> first <= #[trigger] days[i] < first + len,
    ensures
        r.len() == len,
        forall|k: int| 0 <= k < len ==> models_exact(#[trigger] r[k]@, msgs@, days@, first + k, msgs.len() as int),
{
    let mut lists: Vec<Vec<ModelCount>> = Vec::new();
    let mut k: usize = 0;
    while k < len
        invariant
            k <= len,
            lists.len() == k,
            forall|j: int| 0 <= j < k ==> (#[trigger] lists[j])@.len() == 0,
        decreases len - k,
    {
        lists.push(Vec::new());
        k = k + 1;
    }
    let mut i: usize = 0;
    while i < msgs.len()
        invariant
            i <= msgs.len(),
            msgs.len() == days.len(),
            msgs.len() < u32::MAX,
            len <= 0x7fff_ffff,
            forall|j: int| 0 <= j < days.len() ==> first <= #[trigger] days[j] < first + len,
            lists.len() == len,
            forall|j: int| 0 <= j < len ==> models_exact(#[trigger] lists[j]@, msgs@, days@, first + j, i as int),
        decreases msgs.len() - i,
    {
        let idx = (days[i] - first) as usize;
        let ghost d = first + idx;
        match &msgs[i].model {
            None => {
                proof {
                    assert forall|j: int| 0 <= j < len implies models_exact(#[trigger] lists[j]@, msgs@, days@, first + j, i + 1) by {
                        let ms = lists[j]@;
                        assert forall|a: int| 0 <= a < ms.len() implies (#[trigger] ms[a]).count == model_count(msgs@, days@, first + j, ms[a].name@, i + 1) by {
                            assert(model_count(msgs@, days@, first + j, ms[a].name@, i + 1) == model_count(msgs@, days@, first + j, ms[a].name@, i as int));
                        }
                    }
                }
            },
            Some(m) => {
                let mut inner: Vec<ModelCount> = Vec::new();
                std::mem::swap(&mut inner, &mut lists[idx]);
                let ghost before = inner@;
                let mut p: usize = 0;
                let mut found = false;
                while p < inner.len()
                    invariant_except_break
                        !found,
                        forall|a: int| 0 <= a < p ==> (#[trigger] inner[a]).name@ != m@,
                    invariant
                        p <= inner.len(),
                        inner@ == before,
                    ensures
                        found ==> p < inner.len() && inner[p as int].name@ == m@,
                        !found ==> forall|a: int| 0 <= a < inner.len() ==> (#[trigger] inner[a]).name@ != m@,
                    decreases inner.len() - p,
                {
                    if inner[p].name == *m {
                        found = true;
                        break;
                    }
                    p = p + 1;
                }
                proof {
                    lemma_model_count_bound(msgs@, days@, d, m@, i as int);
                    if !found && model_count(msgs@, days@, d, m@, i as int) > 0 {
                        let j = lemma_model_count_witness(msgs@, days@, d, m@, i as int);
                        assert(msgs@[j].model is Some);
                    }
                }
                if found {
                    let old_count = inner[p].count;
                    let entry = ModelCount { name: m.clone(), count: old_count + 1 };
                    inner.set(p, entry);
                } else {
                    inner.push(ModelCount { name: m.clone(), count: 1 });
                }
                proof {
                    let ms = inner@;
                    assert forall|a: int| 0 <= a < ms.len() implies (#[trigger] ms[a]).count == model_count(msgs@, days@, d, ms[a].name@, i + 1)
                        && ms[a].count > 0 by {
                        if !(found && a == p) && a < before.len() {
                            assert(ms[a] == before[a]);
                            assert(before[a].name@ != m@);
                        }
                    }
                    assert forall|j: int|
                        0 <= j < i + 1 && days[j] == d && (#[trigger] msgs[j]).model is Some implies exists|a: int|
                            0 <= a < ms.len() && (#[trigger] ms[a]).name@ == msgs[j].model->0@ by {
                        if j == i {
                            if found {
                                assert(ms[p as int].name@ == m@);
                            } else {
                                assert(ms[before.len() as int].name@ == m@);
                            }
                        } else {
                            let a = choose|a: int| 0 <= a < before.len() && (#[trigger] before[a]).name@ == msgs[j].model->0@;
                            if found && a == p {
                                assert(ms[a].name@ == msgs[j].model->0@);
                            } else {
                                assert(ms[a] == before[a]);
                            }
                        }
                    }
                    assert forall|a: int, b: int| 0 <= a < b < ms.len() implies (#[trigger] ms[a]).name@ != (#[trigger] ms[b]).name@ by {
                        if !found && b == before.len() {
                            assert(ms[a] == before[a]);
                        } else if found && a == p {
                            assert(ms[b] == before[b]);
                        } else if found && b == p {
                            assert(ms[a] == before[a]);
                        } else {
                            assert(ms[a] == before[a]);
                            assert(ms[b] == before[b]);
                        }
                    }
                }
                std::mem::swap(&mut inner, &mut lists[idx]);
                proof {
                    assert forall|j: int| 0 <= j < len implies models_exact(#[trigger] lists[j]@, msgs@, days@, first + j, i + 1) by {
                        if j != idx {
                            let ms = lists[j]@;
                            assert forall|a: int| 0 <= a < ms.len() implies (#[trigger] ms[a]).count == model_count(msgs@, days@, first + j, ms[a].name@, i + 1) by {
                                assert(model_count(msgs@, days@, first + j, ms[a].name@, i + 1) == model_count(msgs@, days@, first + j, ms[a].name@, i as int));
                            }
                        }
                    }
                }
            },
        }
        i = i + 1;
    }
    lists
}

/// The day the conversation named `c` started among the first `n` messages: the earliest day of
/// a message in it, or `None` when none of them belongs to it.
pub open spec fn conv_start(msgs: Seq<ConversationMessage>, days: Seq<i64>, c: Seq<char>, n: int) -> Option<int>
    decreases n,
{
    if n <= 0 {
        None
    } else {
        let prev = conv_start(msgs, days, c, n - 1);
        if msgs[n - 1].conversation_hash@ == c {
            match prev {
                None => Some(days[n - 1] as int),
                Some(s) => Some(if days[n - 1] < s { days[n - 1] as int } else { s }),
            }
        } else {
            prev
        }
    }
}

/// The conversations whose first message (among the first `n`) falls on day `d`.
pub open spec fn conversations_started(msgs: Seq<ConversationMessage>, days: Seq<i64>, d: int, n: int) -> Set<Seq<char>> {
    Set::new(|c: Seq<char>| conv_start(msgs, days, c, n) == Some(d))
}

/// Number of the first `n` entries of `starts` equal to `d`.
pub open spec fn count_equal(starts: Seq<i64>, d: int, n: int) -> int
    decreases n,
{
    if n <= 0 {
        0
    } else {
        count_equal(starts, d, n - 1) + if starts[n - 1] == d { 1int } else { 0 }
    }
}

/// The names among the first `n` whose start is `d`.
pub open spec fn names_starting(names: Seq<Seq<char>>, starts: Seq<i64>, d: int, n: int) -> Set<Seq<char>> {
    Set::new(|c: Seq<char>| exists|k: int| 0 <= k < n && names[k] == c && starts[k] == d)
}

pub proof fn lemma_names_starting_len(names: Seq<Seq<char>>, starts: Seq<i64>, d: int, n: int)
    requires
        0 <= n <= names.len(),
        names.len() == starts.len(),
        names.no_duplicates(),
    ensures
        names_starting(names, starts, d, n).finite(),
        names_starting(names, starts, d, n).len() == count_equal(starts, d, n),
    decreases n,
{
    if n == 0 {
        assert(names_starting(names, starts, d, 0) =~= Set::empty());
    } else {
        lemma_names_starting_len(names, starts, d, n - 1);
        let prev = names_starting(names, starts, d, n - 1);
        if starts[n - 1] == d {
            assert(names_starting(names, starts, d, n) =~= prev.insert(names[n - 1]));
            assert(!prev.contains(names[n - 1]));
        } else {
            assert forall|c: Seq<char>| names_starting(names, starts, d, n).contains(c) implies prev.contains(c) by {
                let k = choose|k: int| 0 <= k < n && names[k] == c && starts[k] == d;
                assert(k != n - 1);
            }
            assert(names_starting(names, starts, d, n) =~= prev);
        }
    }
}

pub proof fn lemma_count_equal_bound(starts: Seq<i64>, d: int, n: int)
    requires
        0 <= n,
    ensures
        0 <= count_equal(starts, d, n) <= n,
    decreases n,
{
    if n > 0 {
        lemma_count_equal_bound(starts, d, n - 1);
    }
}

/// The distinct conversations of `msgs` and the day each started.
fn conversation_starts(msgs: &[ConversationMessage], days: &[i64]) -> (r: (Vec<i64>, Ghost<Seq<Seq<char>>>))
    requires
        msgs.len() == days.len(),
    ensures
        r.0.len() == r.1@.len(),
        r.1@.no_duplicates(),
        forall|c: Seq<char>| r.1@.contains(c) <==> conv_start(msgs@, days@, c, msgs.len() as int) is Some,
        forall|k: int|
            0 <= k < r.0.len() ==> conv_start(msgs@, days@, #[trigger] r.1@[k], msgs.len() as int) == Some(r.0[k] as int),
{
    let mut index: StringHashMap<usize> = StringHashMap::new();
    let mut starts: Vec<i64> = Vec::new();
    let ghost mut names: Seq<Seq<char>> = Seq::empty();
    let mut i: usize = 0;
    while i < msgs.len()
        invariant
            i <= msgs.len(),
            msgs.len() == days.len(),
            starts.len() == names.len(),
            names.no_duplicates(),
            forall|c: Seq<char>| #[trigger] index@.contains_key(c) <==> names.contains(c),
            forall|k: int| 0 <= k < names.len() ==> index@[#[trigger] names[k]] == k,
            forall|c: Seq<char>| names.contains(c) <==> conv_start(msgs@, days@, c, i as int) is Some,
            forall|k: int|
                0 <= k < starts.len() ==> conv_start(msgs@, days@, #[trigger] names[k], i as int) == Some(starts[k] as int),
        decreases msgs.len() - i,
    {
        let c = msgs[i].conversation_hash.as_str();
        let day = days[i];
        let ghost cv = c@;
        match index.get(c) {
            Some(k) => {
                let k = *k;
                proof {
                    assert(names.contains(cv));
                    let k2 = choose|k2: int| 0 <= k2 < names.len() && names[k2] == cv;
                    assert(index@[names[k2]] == k2);
                }
                let s = starts[k];
                if day < s {
                    starts.set(k, day);
                }
                proof {
                    assert forall|kk: int| 0 <= kk < starts.len() implies conv_start(msgs@, days@, #[trigger] names[kk], i + 1) == Some(starts[kk] as int) by {
                        if kk != k as int {
                            assert(names[kk] != names[k as int]);
                        }
                    }
                }
            },
            None => {
                let k = starts.len();
                starts.push(day);
                proof {
                    assert(!names.contains(cv));
                    assert(conv_start(msgs@, days@, cv, i as int) is None);
                    let old_names = names;
                    names = names.push(cv);
                    assert forall|a: int, b: int| 0 <= a < b < names.len() implies names[a] != names[b] by {
                        if b == names.len() - 1 {
                            assert(old_names.contains(old_names[a]));
                        }
                    }
                    assert forall|c2: Seq<char>| names.contains(c2) implies old_names.contains(c2) || c2 == cv by {
                        let j = choose|j: int| 0 <= j < names.len() && names[j] == c2;
                        if j < old_names.len() {
                            assert(old_names[j] == c2);
                        }
                    }
                    assert forall|c2: Seq<char>| old_names.contains(c2) implies names.contains(c2) by {
                        let j = choose|j: int| 0 <= j < old_names.len() && old_names[j] == c2;
                        assert(names[j] == c2);
                    }
                    assert(names[k as int] == cv);
                }
                index.insert(msgs[i].conversation_hash.clone(), k);
            },
        }
        i = i + 1;
    }
    (starts, Ghost(names))
}

/// For each of the `len` days from `first`, the number of conversations that started on it.
fn count_conversations(starts: &[i64], Ghost(names): Ghost<Seq<Seq<char>>>, first: i64, len: usize) -> (r: Vec<u32>)
    requires
        starts.len() == names.len(),
        names.no_duplicates(),
        starts.len() < u32::MAX,
        len <= 0x7fff_ffff,
        forall|k: int| 0 <= k < starts.len() ==> first <= #[trigger] starts[k] < first + len,
    ensures
        r.len() == len,
        forall|j: int|
            0 <= j < len ==> #[trigger] r[j] == names_starting(names, starts@, first + j, starts.len() as int).len(),
{
    let mut counts: Vec<u32> = Vec::new();
    let mut j: usize = 0;
    while j < len
        invariant
            j <= len,
            counts.len() == j,
            forall|x: int| 0 <= x < j ==> #[trigger] counts[x] == 0,
        decreases len - j,
    {
        counts.push(0);
        j = j + 1;
    }
    let mut k: usize = 0;
    while k < starts.len()
        invariant
            k <= starts.len(),
            starts.len() < u32::MAX,
            len <= 0x7fff_ffff,
            forall|x: int| 0 <= x < starts.len() ==> first <= #[trigger] starts[x] < first + len,
            counts.len() == len,
            forall|x: int| 0 <= x < len ==> #[trigger] counts[x] == count_equal(starts@, first + x, k as int),
        decreases starts.len() - k,
    {
        let idx = (starts[k] - first) as usize;
        proof {
            lemma_count_equal_bound(starts@, first + idx, k as int);
        }
        let c = counts[idx];
        counts.set(idx, c + 1);
        k = k + 1;
        proof {
            assert forall|x: int| 0 <= x < len implies #[trigger] counts[x] == count_equal(starts@, first + x, k as int) by {
                if x != idx as int {
                    assert(starts[k - 1] != first + x);
                }
            }
        }
    }
    proof {
        assert forall|x: int| 0 <= x < len implies #[trigger] counts[x] == names_starting(names, starts@, first + x, starts.len() as int).len() by {
            lemma_names_starting_len(names, starts@, first + x, starts.len() as int);
        }
    }
    counts
}

/// Gaps between consecutive messages longer than this many seconds count as time away.
pub const ACTIVE_GAP_LIMIT_SECS: i64 = 900;

/// What a gap of `g` seconds adds to active time: itself when positive and under the limit.
pub open spec fn gap_credit(g: int) -> int {
    if 0 < g < ACTIVE_GAP_LIMIT_SECS { g } else { 0 }
}

/// Sum of the credited gaps between consecutive entries of `s`.
pub open spec fn gap_sum(s: Seq<i64>) -> int
    decreases s.len(),
{
    if s.len() < 2 {
        0
    } else {
        gap_sum(s.drop_last()) + gap_credit(s.last() - s[s.len() - 2])
    }
}

/// The order on timestamps that sorting uses.
pub open spec fn ts_leq() -> spec_fn(i64, i64) -> bool {
    |a: i64, b: i64| a <= b
}

/// Active time of a day whose messages carry the timestamps `ts` (in any order): the credited
/// gaps between consecutive timestamps once sorted.
pub open spec fn active_seconds_of(ts: Seq<i64>) -> int {
    gap_sum(ts.sort_by(ts_leq()))
}

pub proof fn lemma_ts_leq_total()
    ensures
        total_ordering(ts_leq()),
{
}

/// Sorts `v` ascending by insertion into a fresh vector.
fn sort_ascending(v: &Vec<i64>) -> (r: Vec<i64>)
    ensures
        sorted_by(r@, ts_leq()),
        r@.to_multiset() == v@.to_multiset(),
{
    broadcast use vstd::seq_lib::group_to_multiset_ensures;
    let mut r: Vec<i64> = Vec::new();
    let mut i: usize = 0;
    while i < v.len()
        invariant
            i <= v.len(),
            sorted_by(r@, ts_leq()),
            r@.to_multiset() == v@.take(i as int).to_multiset(),
        decreases v.len() - i,
    {
        let x = v[i];
        let mut p: usize = 0;
        while p < r.len() && r[p] <= x
            invariant
                p <= r.len(),
                forall|a: int| 0 <= a < p ==> #[trigger] r[a] <= x,
            decreases r.len() - p,
        {
            p = p + 1;
        }
        let ghost before = r@;
        r.insert(p, x);
        proof {
            let a = before.take(p as int);
            let b = before.skip(p as int);
            let xs = seq![x];
            assert(r@ =~= (a + xs) + b);
            assert(before =~= a + b);
            vstd::seq_lib::lemma_multiset_commutative(a, b);
            vstd::seq_lib::lemma_multiset_commutative(a + xs, b);
            vstd::seq_lib::lemma_multiset_commutative(a, xs);
            assert(xs =~= Seq::<i64>::empty().push(x));
            assert(Seq::<i64>::empty().to_multiset() =~= Multiset::<i64>::empty()) by {
                broadcast use vstd::multiset::group_multiset_axioms;
                broadcast use vstd::seq_lib::group_to_multiset_ensures;
                vstd::multiset::lemma_multiset_empty_len(Seq::<i64>::empty().to_multiset());
                assert(Seq::<i64>::empty().to_multiset().len() == 0);
            }
            assert(xs.to_multiset() =~= Multiset::<i64>::empty().insert(x)) by {
                broadcast use vstd::seq_lib::group_to_multiset_ensures;
                assert(xs.to_multiset() == Seq::<i64>::empty().push(x).to_multiset());
            }
            assert(r@.to_multiset() =~= before.to_multiset().insert(x)) by {
                broadcast use vstd::multiset::group_multiset_axioms;
                assert(r@.to_multiset() =~= a.to_multiset().add(xs.to_multiset()).add(b.to_multiset()));
                assert(before.to_multiset() =~= a.to_multiset().add(b.to_multiset()));
            }
            assert(v@.take(i + 1) =~= v@.take(i as int).push(x));
            v@.take(i as int).to_multiset_ensures();
            assert(v@.take(i as int).push(x).to_multiset() =~= v@.take(i as int).to_multiset().insert(x));
            assert(r@.to_multiset() =~= v@.take(i + 1).to_multiset());
            assert forall|a: int, b: int| 0 <= a < b < r@.len() implies #[trigger] (ts_leq())(r@[a], r@[b]) by {
                if b < p {
                } else if b == p {
                    assert(r@[a] == before[a]);
                } else if a < p {
                    assert(r@[b] == before[b - 1]);
                    if p < before.len() {
                        assert(r@[a] <= x);
                        assert(x < before[p as int]);
                        assert((ts_leq())(before[p as int], before[b - 1]) || p == b - 1);
                    }
                } else if a == p {
                    assert(r@[b] == before[b - 1]);
                    assert(x < before[p as int]);
                    assert(p == b - 1 || (ts_leq())(before[p as int], before[b - 1]));
                } else {
                    assert(r@[a] == before[a - 1]);
                    assert(r@[b] == before[b - 1]);
                }
            }
        }
        i = i + 1;
    }
    proof {
        assert(v@.take(v.len() as int) =~= v@);
    }
    r
}

/// Sorts `timestamps` in place and sums the gaps under [`ACTIVE_GAP_LIMIT_SECS`] between
/// consecutive ones: the seconds of activity on a day with those message times.
pub fn active_seconds_for_day(timestamps: &mut Vec<i64>) -> (secs: u64)
    ensures
        secs == active_seconds_of(old(timestamps)@),
        final(timestamps)@ == old(timestamps)@.sort_by(ts_leq()),
{
    let sorted = sort_ascending(timestamps);
    proof {
        lemma_ts_leq_total();
        timestamps@.lemma_sort_by_ensures(ts_leq());
        vstd::seq_lib::lemma_sorted_unique(sorted@, timestamps@.sort_by(ts_leq()), ts_leq());
    }
    *timestamps = sorted;
    if timestamps.len() < 2 {
        proof {
            assert(gap_sum(timestamps@) == 0);
        }
        return 0;
    }
    let mut total: u64 = 0;
    let mut i: usize = 1;
    proof {
        assert(gap_sum(timestamps@.take(1)) == 0);
    }
    while i < timestamps.len()
        invariant
            1 <= i <= timestamps.len(),
            sorted_by(timestamps@, ts_leq()),
            total == gap_sum(timestamps@.take(i as int)),
            total <= timestamps@[i - 1] - timestamps@[0],
        decreases timestamps.len() - i,
    {
        let a = timestamps[i - 1];
        let b = timestamps[i];
        proof {
            assert((ts_leq())(a, b));
            assert(timestamps@.take(i + 1).drop_last() =~= timestamps@.take(i as int));
            assert(timestamps@.take(i + 1).last() == b);
            assert(timestamps@.take(i + 1)[i - 1] == a);
            if i > 1 {
                assert((ts_leq())(timestamps@[0], a));
            }
        }
        let gap: i128 = b as i128 - a as i128;
        if gap > 0 && gap < ACTIVE_GAP_LIMIT_SECS as i128 {
            total = total + gap as u64;
        }
        i = i + 1;
    }
    proof {
        assert(timestamps@.take(timestamps.len() as int) =~= timestamps@);
    }
    total
}

/// Whole-second timestamps of the first `n` messages that fall on day `d`, in message order.
pub open spec fn day_timestamps(msgs: Seq<ConversationMessage>, days: Seq<i64>, d: int, n: int) -> Seq<i64>
    decreases n,
{
    if n <= 0 {
        Seq::empty()
    } else if days[n - 1] == d {
        day_timestamps(msgs, days, d, n - 1).push(msgs[n - 1].date.secs)
    } else {
        day_timestamps(msgs, days, d, n - 1)
    }
}

/// Active seconds for each of the `len` days from `first`.
fn active_per_day(msgs: &[ConversationMessage], days: &[i64], first: i64, len: usize) -> (r: Vec<u64>)
    requires
        msgs.len() == days.len(),
        msgs.len() < 0x1_0000_0000,
        len <= 0x7fff_ffff,
        forall|i: int| 0 <= i < days.len() ==> first <= #[trigger] days[i] < first + len,
        forall|i: int| 0 <= i < msgs.len() ==> (#[trigger] msgs[i]).date.wf(),
    ensures
        r.len() == len,
        forall|j: int|
            0 <= j < len ==> #[trigger] r[j] == active_seconds_of(
                day_timestamps(msgs@, days@, first + j, msgs.len() as int),
            ),
{
    let mut buckets: Vec<Vec<i64>> = Vec::new();
    let mut k: usize = 0;
    while k < len
        invariant
            k <= len,
            buckets.len() == k,
            forall|j: int| 0 <= j < k ==> (#[trigger] buckets[j])@ == Seq::<i64>::empty(),
        decreases len - k,
    {
        buckets.push(Vec::new());
        k = k + 1;
    }
    let mut i: usize = 0;
    while i < msgs.len()
        invariant
            i <= msgs.len(),
            msgs.len() == days.len(),
            len <= 0x7fff_ffff,
            forall|j: int| 0 <= j < days.len() ==> first <= #[trigger] days[j] < first + len,
            buckets.len() == len,
            forall|j: int| 0 <= j < len ==> (#[trigger] buckets[j])@ == day_timestamps(msgs@, days@, first + j, i as int),
        decreases msgs.len() - i,
    {
        let idx = (days[i] - first) as usize;
        buckets[idx].push(msgs[i].date.secs);
        i = i + 1;
        proof {
            assert forall|j: int| 0 <= j < len implies (#[trigger] buckets[j])@ == day_timestamps(msgs@, days@, first + j, i as int) by {
                if j != idx as int {
                    assert(days[i - 1] != first + j);
                }
            }
        }
    }
    let mut result: Vec<u64> = Vec::new();
    let mut j: usize = 0;
    while j < len
        invariant
            j <= len,
            buckets.len() == len,
            msgs.len() < 0x1_0000_0000,
            forall|i: int| 0 <= i < msgs.len() ==> (#[trigger] msgs[i]).date.wf(),
            forall|x: int| j <= x < len ==> (#[trigger] buckets[x])@ == day_timestamps(msgs@, days@, first + x, msgs.len() as int),
            result.len() == j,
            forall|x: int|
                0 <= x < j ==> #[trigger] result[x] == active_seconds_of(
                    day_timestamps(msgs@, days@, first + x, msgs.len() as int),
                ),
        decreases len - j,
    {
        let secs = active_seconds_for_day(&mut buckets[j]);
        result.push(secs);
        j = j + 1;
    }
    result
}

pub proof fn lemma_conv_start_witness(msgs: Seq<ConversationMessage>, days: Seq<i64>, c: Seq<char>, n: int)
    requires
        conv_start(msgs, days, c, n) is Some,
    ensures
        exists|j: int| 0 <= j < n && days[j] == conv_start(msgs, days, c, n)->0,
    decreases n,
{
    let prev = conv_start(msgs, days, c, n - 1);
    if prev is Some {
        lemma_conv_start_witness(msgs, days, c, n - 1);
    }
    if msgs[n - 1].conversation_hash@ == c && (prev is None || days[n - 1] < prev->0) {
        assert(days[n - 1] == conv_start(msgs, days, c, n)->0);
    }
}

/// `ds` holds exactly what the messages `msgs` (falling on `days`) recorded on day `d`.
pub open spec fn day_matches(ds: DailyStats, msgs: Seq<ConversationMessage>, days: Seq<i64>, d: int) -> bool {
    let n = msgs.len() as int;
    &&& ds.date == d
    &&& ds.user_messages == day_count(msgs, days, d, true, n)
    &&& ds.ai_messages == day_count(msgs, days, d, false, n)
    &&& ds.conversations == conversations_started(msgs, days, d, n).len()
    &&& models_exact(ds.models@, msgs, days, d, n)
    &&& forall|f: int| 0 <= f < NUM_FIELDS ==> #[trigger] ds.stats.field(f) == day_total(msgs, days, d, f, n)
    &&& ds.active_seconds == active_seconds_of(day_timestamps(msgs, days, d, n))
}

/// What [`aggregate_by_date`] needs of its input: one day per message, every day (and `today`)
/// within the dates chrono represents, well-formed timestamps, and no daily total beyond its counter's range.
pub open spec fn aggregatable(msgs: Seq<ConversationMessage>, days: Seq<i64>, today: i64) -> bool {
    &&& msgs.len() == days.len()
    &&& msgs.len() < u32::MAX
    &&& MIN_DAY <= today <= MAX_DAY
    &&& forall|i: int| 0 <= i < days.len() ==> MIN_DAY <= #[trigger] days[i] <= MAX_DAY
    &&& forall|i: int| 0 <= i < msgs.len() ==> (#[trigger] msgs[i]).date.wf()
    &&& forall|d: int, f: int|
        0 <= f < NUM_FIELDS ==> #[trigger] day_total(msgs, days, d, f, msgs.len() as int) <= field_bound(f)
}

/// Folds messages into one [`DailyStats`] per local calendar day. `days[i]` is the local day of
/// `entries[i]` and `today` the current local day.
///
/// A message with a model is an AI message and contributes all its counters; one without is a
/// user message and contributes only its todo counters. A conversation is counted on the day of
/// its earliest message. Active seconds are the gaps under 15 minutes between the day's sorted
/// message times. Every day from the earliest message through the later of the latest message
/// and `today` is present, in order; days without messages are empty. No messages, no days.
pub fn aggregate_by_date(entries: &[ConversationMessage], days: &[i64], today: i64) -> (r: Vec<DailyStats>)
    requires
        aggregatable(entries@, days@, today),
    ensures
        entries.len() == 0 ==> r.len() == 0,
        entries.len() > 0 ==> {
            let first = min_day(days@, days.len() as int);
            let last = if max_day(days@, days.len() as int) > today {
                max_day(days@, days.len() as int)
            } else {
                today as int
            };
            &&& r.len() == last - first + 1
            &&& forall|k: int| 0 <= k < r.len() ==> day_matches(#[trigger] r[k], entries@, days@, first + k)
        },
{
    if entries.len() == 0 {
        return Vec::new();
    }
    let (first, last) = day_range(days, today);
    proof {
        lemma_min_max_bounds(days@, days.len() as int);
    }
    assert(MIN_DAY <= first <= last <= MAX_DAY);
    let len = (last - first + 1) as usize;
    let (users, ais, totals) = tally(entries, days, first, len);
    let models = tally_models(entries, days, first, len);
    let active = active_per_day(entries, days, first, len);
    let (starts, Ghost(names)) = conversation_starts(entries, days);
    proof {
        assert forall|k: int| 0 <= k < starts.len() implies first <= #[trigger] starts[k] < first + len by {
            assert(conv_start(entries@, days@, names[k], entries.len() as int) == Some(starts[k] as int));
            lemma_conv_start_witness(entries@, days@, names[k], entries.len() as int);
        }
        lemma_names_len_bound(entries@, days@, names, entries.len() as int);
    }
    let convs = count_conversations(&starts, Ghost(names), first, len);
    let mut result: Vec<DailyStats> = Vec::new();
    let mut models = models;
    let mut j: usize = 0;
    while j < len
        invariant
            j <= len,
            len == last - first + 1,
            MIN_DAY <= first <= last <= MAX_DAY,
            users.len() == len,
            ais.len() == len,
            totals.len() == len,
            models.len() == len,
            active.len() == len,
            convs.len() == len,
            result.len() == j,
            forall|x: int| 0 <= x < j ==> day_matches(#[trigger] result[x], entries@, days@, first + x),
            forall|k: int|
                0 <= k < len ==> #[trigger] users[k] == day_count(entries@, days@, first + k, true, entries.len() as int),
            forall|k: int|
                0 <= k < len ==> #[trigger] ais[k] == day_count(entries@, days@, first + k, false, entries.len() as int),
            forall|k: int, f: int|
                0 <= k < len && 0 <= f < NUM_FIELDS ==> #[trigger] totals[k].field(f) == day_total(
                    entries@,
                    days@,
                    first + k,
                    f,
                    entries.len() as int,
                ),
            forall|k: int| j <= k < len ==> models_exact(#[trigger] models[k]@, entries@, days@, first + k, entries.len() as int),
            forall|k: int|
                0 <= k < len ==> #[trigger] active[k] == active_seconds_of(
                    day_timestamps(entries@, days@, first + k, entries.len() as int),
                ),
            forall|k: int|
                0 <= k < len ==> #[trigger] convs[k] == names_starting(names, starts@, first + k, starts.len() as int).len(),
            starts.len() == names.len(),
            forall|c: Seq<char>| names.contains(c) <==> conv_start(entries@, days@, c, entries.len() as int) is Some,
            forall|k: int|
                0 <= k < starts.len() ==> conv_start(entries@, days@, #[trigger] names[k], entries.len() as int) == Some(starts[k] as int),
        decreases len - j,
    {
        let mut day_models: Vec<ModelCount> = Vec::new();
        std::mem::swap(&mut day_models, &mut models[j]);
        let ds = DailyStats {
            date: first + j as i64,
            user_messages: users[j],
            ai_messages: ais[j],
            conversations: convs[j],
            models: day_models,
            stats: totals[j],
            active_seconds: active[j],
        };
        proof {
            let d = first + j;
            assert(conversations_started(entries@, days@, d, entries.len() as int) =~= names_starting(names, starts@, d, starts.len() as int)) by {
                assert forall|c: Seq<char>| conversations_started(entries@, days@, d, entries.len() as int).contains(c) implies names_starting(names, starts@, d, starts.len() as int).contains(c) by {
                    assert(names.contains(c));
                    let k = choose|k: int| 0 <= k < names.len() && names[k] == c;
                    assert(conv_start(entries@, days@, names[k], entries.len() as int) == Some(starts[k] as int));
                }
                assert forall|c: Seq<char>| names_starting(names, starts@, d, starts.len() as int).contains(c) implies conversations_started(entries@, days@, d, entries.len() as int).contains(c) by {
                    let k = choose|k: int| 0 <= k < starts.len() && names[k] == c && starts[k] == d;
                    assert(conv_start(entries@, days@, names[k], entries.len() as int) == Some(starts[k] as int));
                }
            }
        }
        assert(day_matches(ds, entries@, days@, first + j));
        result.push(ds);
        j = j + 1;
    }
    result
}

pub proof fn lemma_names_len_bound(msgs: Seq<ConversationMessage>, days: Seq<i64>, names: Seq<Seq<char>>, n: int)
    requires
        0 <= n,
        names.no_duplicates(),
        forall|c: Seq<char>| names.contains(c) <==> conv_start(msgs, days, c, n) is Some,
    ensures
        names.len() <= n,
{
    let seen = Set::new(|c: Seq<char>| exists|j: int| 0 <= j < n && msgs[j].conversation_hash@ == c);
    let image = Seq::new(n as nat, |j: int| msgs[j].conversation_hash@);
    assert forall|c: Seq<char>| names.to_set().contains(c) implies image.to_set().contains(c) by {
        assert(names.contains(c));
        lemma_conv_start_member(msgs, days, c, n);
        let j = choose|j: int| 0 <= j < n && msgs[j].conversation_hash@ == c;
        assert(image[j] == c);
    }
    names.unique_seq_to_set();
    image.lemma_cardinality_of_set();
    vstd::set_lib::lemma_len_subset(names.to_set(), image.to_set());
}

pub proof fn lemma_conv_start_member(msgs: Seq<ConversationMessage>, days: Seq<i64>, c: Seq<char>, n: int)
    requires
        conv_start(msgs, days, c, n) is Some,
    ensures
        exists|j: int| 0 <= j < n && msgs[j].conversation_hash@ == c,
    decreases n,
{
    if msgs[n - 1].conversation_hash@ != c {
        lemma_conv_start_member(msgs, days, c, n - 1);
    }
}

/// Counter `f` summed over the first `n` messages, whatever their day and role.
pub open spec fn raw_total(msgs: Seq<ConversationMessage>, f: int, n: int) -> int
    decreases n,
{
    if n <= 0 {
        0
    } else {
        raw_total(msgs, f, n - 1) + msgs[n - 1].stats.field(f)
    }
}

proof fn lemma_raw_total_mono(msgs: Seq<ConversationMessage>, f: int, n: int, m: int)
    requires
        0 <= n <= m,
    ensures
        raw_total(msgs, f, n) <= raw_total(msgs, f, m),
    decreases m - n,
{
    if n < m {
        lemma_raw_total_mono(msgs, f, n, m - 1);
    }
}

proof fn lemma_day_total_below_raw(msgs: Seq<ConversationMessage>, days: Seq<i64>, d: int, f: int, n: int)
    ensures
        day_total(msgs, days, d, f, n) <= raw_total(msgs, f, n),
    decreases n,
{
    if n > 0 {
        lemma_day_total_below_raw(msgs, days, d, f, n - 1);
    }
}

/// Whether every counter, summed over all of `msgs`, stays within its range.
pub open spec fn counters_fit(msgs: Seq<ConversationMessage>) -> bool {
    forall|f: int| 0 <= f < NUM_FIELDS ==> #[trigger] raw_total(msgs, f, msgs.len() as int) <= field_bound(f)
}

/// Whether every counter, summed over all of `msgs`, stays within its range.
pub fn counters_fit_check(msgs: &[ConversationMessage]) -> (r: bool)
    ensures
        r == counters_fit(msgs@),
{
    let mut f: usize = 0;
    while f < NUM_FIELDS
        invariant
            f <= NUM_FIELDS,
            forall|g: int| 0 <= g < f ==> #[trigger] raw_total(msgs@, g, msgs@.len() as int) <= field_bound(g),
        decreases NUM_FIELDS - f,
    {
        let bound: u128 = if f == crate::types::TOOL_CALLS_FIELD { u32::MAX as u128 } else { u64::MAX as u128 };
        let mut total: u128 = 0;
        let mut i: usize = 0;
        while i < msgs.len()
            invariant
                f < NUM_FIELDS,
                i <= msgs@.len(),
                bound == field_bound(f as int),
                total == raw_total(msgs@, f as int, i as int),
                total <= bound,
                forall|g: int| 0 <= g < f ==> #[trigger] raw_total(msgs@, g, msgs@.len() as int) <= field_bound(g),
            decreases msgs@.len() - i,
        {
            let v = msgs[i].stats.field_value(f) as u128;
            if total + v > bound {
                proof {
                    lemma_raw_total_mono(msgs@, f as int, i + 1, msgs@.len() as int);
                }
                return false;
            }
            total = total + v;
            i = i + 1;
        }
        f = f + 1;
    }
    true
}

/// Whether every day number of `days` lies within the dates chrono represents.
pub fn days_in_range(days: &[i64]) -> (r: bool)
    ensures
        r == forall|i: int| 0 <= i < days@.len() ==> MIN_DAY <= #[trigger] days@[i] <= MAX_DAY,
{
    let mut i: usize = 0;
    while i < days.len()
        invariant
            i <= days@.len(),
            forall|j: int| 0 <= j < i ==> MIN_DAY <= #[trigger] days@[j] <= MAX_DAY,
        decreases days@.len() - i,
    {
        if days[i] < MIN_DAY || days[i] > MAX_DAY {
            return false;
        }
        i = i + 1;
    }
    true
}

/// Whether every message's timestamp is well-formed.
pub fn dates_in_range(msgs: &[ConversationMessage]) -> (r: bool)
    ensures
        r == forall|i: int| 0 <= i < msgs@.len() ==> (#[trigger] msgs@[i]).date.wf(),
{
    let mut i: usize = 0;
    while i < msgs.len()
        invariant
            i <= msgs@.len(),
            forall|j: int| 0 <= j < i ==> (#[trigger] msgs@[j]).date.wf(),
        decreases msgs@.len() - i,
    {
        if !msgs[i].date.is_wf() {
            return false;
        }
        i = i + 1;
    }
    true
}

/// The inputs `aggregate_by_date_checked` folds: those of `aggregatable`, with every counter
/// summed over all the messages, not only day by day, within its range.
pub open spec fn aggregatable_overall(msgs: Seq<ConversationMessage>, days: Seq<i64>, today: i64) -> bool {
    &&& msgs.len() == days.len()
    &&& msgs.len() < u32::MAX
    &&& MIN_DAY <= today <= MAX_DAY
    &&& forall|i: int| 0 <= i < days.len() ==> MIN_DAY <= #[trigger] days[i] <= MAX_DAY
    &&& forall|i: int| 0 <= i < msgs.len() ==> (#[trigger] msgs[i]).date.wf()
    &&& counters_fit(msgs)
}

/// [`aggregate_by_date`] on inputs it can fold (see [`aggregatable_overall`]); `None` on others.
pub fn aggregate_by_date_checked(entries: &[ConversationMessage], days: &[i64], today: i64) -> (r: Option<Vec<DailyStats>>)
    ensures
        r is Some <==> aggregatable_overall(entries@, days@, today),
        r matches Some(v) ==> (entries.len() == 0 ==> v.len() == 0),
        r matches Some(v) ==> (entries.len() > 0 ==> {
            let first = min_day(days@, days.len() as int);
            let last = if max_day(days@, days.len() as int) > today {
                max_day(days@, days.len() as int)
            } else {
                today as int
            };
            &&& v.len() == last - first + 1
            &&& forall|k: int| 0 <= k < v.len() ==> day_matches(#[trigger] v[k], entries@, days@, first + k)
        }),
{
    if entries.len() != days.len() || entries.len() >= 0xffff_ffff || today < MIN_DAY || today > MAX_DAY {
        return None;
    }
    if !days_in_range(days) || !dates_in_range(entries) || !counters_fit_check(entries) {
        return None;
    }
    proof {
        assert forall|d: int, f: int| 0 <= f < NUM_FIELDS implies #[trigger] day_total(entries@, days@, d, f, entries@.len() as int)
            <= field_bound(f) by {
            lemma_day_total_below_raw(entries@, days@, d, f, entries@.len() as int);
            assert(raw_total(entries@, f, entries@.len() as int) <= field_bound(f));
        }
    }
    Some(aggregate_by_date(entries, days, today))
}

/// Counter `f` summed over the `len` days from `first`, each day's total taken over the first
/// `n` messages (see [`day_total`]).
pub open spec fn days_sum(msgs: Seq<ConversationMessage>, days: Seq<i64>, first: int, len: int, f: int, n: int) -> int
    decreases len,
{
    if len <= 0 {
        0
    } else {
        days_sum(msgs, days, first, len - 1, f, n) + day_total(msgs, days, first + len - 1, f, n)
    }
}

/// What the first `n` messages contribute to counter `f`, whatever their day.
pub open spec fn contribution_total(msgs: Seq<ConversationMessage>, f: int, n: int) -> int
    decreases n,
{
    if n <= 0 {
        0
    } else {
        contribution_total(msgs, f, n - 1) + contribution(msgs[n - 1].stats, is_ai(msgs[n - 1]), f)
    }
}

proof fn lemma_days_sum_step(msgs: Seq<ConversationMessage>, days: Seq<i64>, first: int, len: int, f: int, n: int)
    requires
        0 < n <= days.len(),
        n <= msgs.len(),
        len >= 0,
    ensures
        days_sum(msgs, days, first, len, f, n) == days_sum(msgs, days, first, len, f, n - 1) + if first <= days[n - 1]
            < first + len {
            contribution(msgs[n - 1].stats, is_ai(msgs[n - 1]), f)
        } else {
            0
        },
    decreases len,
{
    if len > 0 {
        lemma_days_sum_step(msgs, days, first, len - 1, f, n);
    }
}

/// The daily totals add up to the messages' totals: when every message's day lies among the
/// `len` days from `first`, counter `f` summed over those days is what the messages contribute
/// to it.
pub proof fn law_day_totals_add_up(msgs: Seq<ConversationMessage>, days: Seq<i64>, first: int, len: int, f: int, n: int)
    requires
        0 <= n <= msgs.len(),
        n <= days.len(),
        len >= 0,
        forall|i: int| 0 <= i < n ==> first <= #[trigger] days[i] < first + len,
    ensures
        days_sum(msgs, days, first, len, f, n) == contribution_total(msgs, f, n),
    decreases n,
{
    if n > 0 {
        law_day_totals_add_up(msgs, days, first, len, f, n - 1);
        lemma_days_sum_step(msgs, days, first, len, f, n);
        assert(first <= days[n - 1] < first + len);
    } else {
        lemma_days_sum_zero(msgs, days, first, len, f);
    }
}

proof fn lemma_days_sum_zero(msgs: Seq<ConversationMessage>, days: Seq<i64>, first: int, len: int, f: int)
    ensures
        days_sum(msgs, days, first, len, f, 0) == 0,
    decreases len,
{
    if len > 0 {
        lemma_days_sum_zero(msgs, days, first, len - 1, f);
    }
}

/// Whether `t` is the time of one of the first `n` messages, one of day `d`.
pub open spec fn from_day_message(msgs: Seq<ConversationMessage>, days: Seq<i64>, d: int, n: int, t: i64) -> bool {
    exists|i: int| 0 <= i < n && days[i] == d && msgs[i].date.secs == t
}

/// Every message of a day puts its time on that day's active-time timeline, whatever its role
/// or model, and nothing else does: the timeline holds one time per user and per assistant
/// message of the day, and each is the time of one of the day's messages.
pub proof fn law_every_message_counts_toward_active_time(msgs: Seq<ConversationMessage>, days: Seq<i64>, d: int, n: int)
    requires
        0 <= n <= msgs.len(),
        n <= days.len(),
    ensures
        day_timestamps(msgs, days, d, n).len() == day_count(msgs, days, d, true, n) + day_count(msgs, days, d, false, n),
        forall|i: int| 0 <= i < n && days[i] == d ==> day_timestamps(msgs, days, d, n).contains(#[trigger] msgs[i].date.secs),
        forall|k: int| 0 <= k < day_timestamps(msgs, days, d, n).len() ==> #[trigger] from_day_message(msgs, days, d, n,
            day_timestamps(msgs, days, d, n)[k]),
    decreases n,
{
    if n > 0 {
        law_every_message_counts_toward_active_time(msgs, days, d, n - 1);
        let prev = day_timestamps(msgs, days, d, n - 1);
        let cur = day_timestamps(msgs, days, d, n);
        assert forall|i: int| 0 <= i < n && days[i] == d implies cur.contains(#[trigger] msgs[i].date.secs) by {
            if i < n - 1 {
                assert(prev.contains(msgs[i].date.secs));
                let k = choose|k: int| 0 <= k < prev.len() && prev[k] == msgs[i].date.secs;
                if days[n - 1] == d {
                    assert(cur[k] == prev[k]);
                }
            } else {
                assert(cur[cur.len() - 1] == msgs[i].date.secs);
            }
        }
        assert forall|k: int| 0 <= k < cur.len() implies #[trigger] from_day_message(msgs, days, d, n, cur[k]) by {
            if k < prev.len() {
                assert(cur[k] == prev[k]);
                assert(from_day_message(msgs, days, d, n - 1, prev[k]));
                let i = choose|i: int| 0 <= i < n - 1 && days[i] == d && msgs[i].date.secs == prev[k];
                assert(0 <= i < n && days[i] == d && msgs[i].date.secs == cur[k]);
            } else {
                assert(0 <= n - 1 < n && days[n - 1] == d && msgs[n - 1].date.secs == cur[k]);
            }
        }
    }
}

} // verus!
