//! The figures of an analyzer's daily table: the best day of each column, the days shown
//! dimmed, the totals row, and the sorted model lists. Costs are priced and summed outside.
use vstd::prelude::*;
use crate::text::{chars_of, lemma_text_lt_total, lemma_text_lt_transitive, string_of, text_less, text_lt};
use crate::tui::day_field;
use crate::types::DailyStats;

verus! {

/// The value of counter `k` (see `day_field`) on day `d`.
pub fn day_value(d: &DailyStats, k: usize) -> (r: u64)
    requires
        k < 6,
    ensures
        r as nat == day_field(*d, k as int),
{
    if k == 0 {
        d.stats.input_tokens
    } else if k == 1 {
        d.stats.output_tokens
    } else if k == 2 {
        d.stats.cached_tokens
    } else if k == 3 {
        d.stats.reasoning_tokens
    } else if k == 4 {
        d.stats.tool_calls as u64
    } else {
        d.conversations as u64
    }
}

/// Whether row `r` is the one the daily table marks as the best for counter `k`: the first
/// day with the largest value, or the first row when no day counts any.
pub open spec fn is_best_row(days: Seq<DailyStats>, k: int, r: int) -> bool {
    if forall|j: int| 0 <= j < days.len() ==> day_field(#[trigger] days[j], k) == 0 {
        r == 0
    } else {
        &&& 0 <= r < days.len()
        &&& forall|j: int| 0 <= j < days.len() ==> day_field(#[trigger] days[j], k) <= day_field(days[r], k)
        &&& forall|j: int| 0 <= j < r ==> day_field(#[trigger] days[j], k) < day_field(days[r], k)
    }
}

/// The row the daily table marks as the best for counter `k`.
pub fn best_row(days: &[DailyStats], k: usize) -> (r: usize)
    requires
        k < 6,
    ensures
        is_best_row(days@, k as int, r as int),
{
    let mut best: u64 = 0;
    let mut best_i: usize = 0;
    let mut i: usize = 0;
    while i < days.len()
        invariant
            k < 6,
            i <= days@.len(),
            forall|j: int| 0 <= j < i ==> day_field(#[trigger] days@[j], k as int) <= best,
            best == 0 ==> best_i == 0,
            best > 0 ==> best_i < i && day_field(days@[best_i as int], k as int) == best,
            best > 0 ==> forall|j: int| 0 <= j < best_i ==> day_field(#[trigger] days@[j], k as int) < best,
        decreases days@.len() - i,
    {
        let v = day_value(&days[i], k);
        if v > best {
            best = v;
            best_i = i;
        }
        i = i + 1;
    }
    proof {
        if !(forall|j: int| 0 <= j < days@.len() ==> day_field(#[trigger] days@[j], k as int) == 0) {
            let j = choose|j: int| 0 <= j < days@.len() && day_field(#[trigger] days@[j], k as int) != 0;
            assert(day_field(days@[j], k as int) <= best);
        } else if best > 0 {
            assert(day_field(days@[best_i as int], k as int) == 0);
        }
    }
    best_i
}

/// The best row of each counter the daily table highlights.
#[derive(Debug, Clone, Copy, PartialEq, Eq, Structural)]
pub struct BestRows {
    pub input_tokens: usize,
    pub output_tokens: usize,
    pub cached_tokens: usize,
    pub reasoning_tokens: usize,
    pub tool_calls: usize,
    pub conversations: usize,
}

impl BestRows {
    /// The best row of counter `k` (see `day_field`).
    pub open spec fn row(self, k: int) -> int {
        if k == 0 {
            self.input_tokens as int
        } else if k == 1 {
            self.output_tokens as int
        } else if k == 2 {
            self.cached_tokens as int
        } else if k == 3 {
            self.reasoning_tokens as int
        } else if k == 4 {
            self.tool_calls as int
        } else {
            self.conversations as int
        }
    }
}

/// The rows the daily table highlights, one per counter.
pub fn best_rows(days: &[DailyStats]) -> (r: BestRows)
    ensures
        forall|k: int| 0 <= k < 6 ==> is_best_row(days@, k, #[trigger] r.row(k)),
{
    let r = BestRows {
        input_tokens: best_row(days, 0),
        output_tokens: best_row(days, 1),
        cached_tokens: best_row(days, 2),
        reasoning_tokens: best_row(days, 3),
        tool_calls: best_row(days, 4),
        conversations: best_row(days, 5),
    };
    assert forall|k: int| 0 <= k < 6 implies is_best_row(days@, k, #[trigger] r.row(k)) by {
        if k == 0 {
        } else if k == 1 {
        } else if k == 2 {
        } else if k == 3 {
        } else if k == 4 {
        } else {
        }
    }
    r
}

/// Whether the daily table dims day `d`: its cost is zero (`zero_cost`, priced outside) and
/// it counts no token, conversation, message or tool call.
pub open spec fn blank_day(d: DailyStats, zero_cost: bool) -> bool {
    &&& zero_cost
    &&& d.stats.cached_tokens == 0
    &&& d.stats.input_tokens == 0
    &&& d.stats.output_tokens == 0
    &&& d.stats.reasoning_tokens == 0
    &&& d.conversations == 0
    &&& d.user_messages == 0
    &&& d.ai_messages == 0
    &&& d.stats.tool_calls == 0
}

/// Whether the daily table dims day `d`, whose cost is zero exactly when `zero_cost` holds.
pub fn is_blank_day(d: &DailyStats, zero_cost: bool) -> (r: bool)
    ensures
        r == blank_day(*d, zero_cost),
{
    zero_cost && d.stats.cached_tokens == 0 && d.stats.input_tokens == 0 && d.stats.output_tokens == 0
        && d.stats.reasoning_tokens == 0 && d.conversations == 0 && d.user_messages == 0 && d.ai_messages == 0
        && d.stats.tool_calls == 0
}

/// Counter `k` summed over the first `n` days.
pub open spec fn column_total(days: Seq<DailyStats>, k: int, n: int) -> nat
    decreases n,
{
    if n <= 0 {
        0
    } else {
        column_total(days, k, n - 1) + day_field(days[n - 1], k)
    }
}

/// The token and tool-call totals of the daily table's last row, and the number of days.
#[derive(Debug, Clone, Copy, PartialEq, Eq, Structural)]
pub struct TableTotals {
    pub input_tokens: u128,
    pub output_tokens: u128,
    pub cached_tokens: u128,
    pub reasoning_tokens: u128,
    pub tool_calls: u128,
    pub days: usize,
}

impl TableTotals {
    /// The total of counter `k` (see `day_field`), for `k` below 5.
    pub open spec fn field(self, k: int) -> nat {
        if k == 0 {
            self.input_tokens as nat
        } else if k == 1 {
            self.output_tokens as nat
        } else if k == 2 {
            self.cached_tokens as nat
        } else if k == 3 {
            self.reasoning_tokens as nat
        } else {
            self.tool_calls as nat
        }
    }
}

proof fn lemma_column_total_bound(days: Seq<DailyStats>, k: int, n: int)
    requires
        0 <= n <= days.len(),
    ensures
        column_total(days, k, n) <= n * 0xffff_ffff_ffff_ffffnat,
    decreases n,
{
    if n > 0 {
        lemma_column_total_bound(days, k, n - 1);
        assert(day_field(days[n - 1], k) <= 0xffff_ffff_ffff_ffffnat);
    }
}

/// Sums the daily table's token and tool-call columns over every day.
pub fn table_totals(days: &[DailyStats]) -> (r: TableTotals)
    ensures
        forall|k: int| 0 <= k < 5 ==> #[trigger] r.field(k) == column_total(days@, k, days@.len() as int),
        r.days == days.len(),
{
    let mut acc = TableTotals {
        input_tokens: 0,
        output_tokens: 0,
        cached_tokens: 0,
        reasoning_tokens: 0,
        tool_calls: 0,
        days: days.len(),
    };
    let mut i: usize = 0;
    while i < days.len()
        invariant
            i <= days@.len(),
            acc.days == days.len(),
            forall|k: int| 0 <= k < 5 ==> #[trigger] acc.field(k) == column_total(days@, k, i as int),
        decreases days@.len() - i,
    {
        let d = &days[i];
        proof {
            assert forall|k: int| 0 <= k < 5 implies #[trigger] column_total(days@, k, i + 1)
                < 0x1_0000_0000_0000_0000_0000_0000_0000_0000 by {
                lemma_column_total_bound(days@, k, i + 1);
                let n: int = i + 1;
                assert(n * 0xffff_ffff_ffff_ffffnat <= 0x1_0000_0000_0000_0000 * 0xffff_ffff_ffff_ffffnat)
                    by (nonlinear_arith)
                    requires
                        0 <= n <= 0x1_0000_0000_0000_0000,
                ;
            }
            assert(column_total(days@, 0, i + 1) == acc.field(0) + day_field(*d, 0));
            assert(column_total(days@, 1, i + 1) == acc.field(1) + day_field(*d, 1));
            assert(column_total(days@, 2, i + 1) == acc.field(2) + day_field(*d, 2));
            assert(column_total(days@, 3, i + 1) == acc.field(3) + day_field(*d, 3));
            assert(column_total(days@, 4, i + 1) == acc.field(4) + day_field(*d, 4));
        }
        acc.input_tokens = acc.input_tokens + d.stats.input_tokens as u128;
        acc.output_tokens = acc.output_tokens + d.stats.output_tokens as u128;
        acc.cached_tokens = acc.cached_tokens + d.stats.cached_tokens as u128;
        acc.reasoning_tokens = acc.reasoning_tokens + d.stats.reasoning_tokens as u128;
        acc.tool_calls = acc.tool_calls + d.stats.tool_calls as u128;
        i = i + 1;
    }
    acc
}

/// Whether `names` is strictly increasing in the order of `String`s: sorted, each once.
pub open spec fn strictly_sorted(names: Seq<Seq<char>>) -> bool {
    forall|a: int, b: int| 0 <= a < b < names.len() ==> text_lt(#[trigger] names[a], #[trigger] names[b])
}

/// The texts of a list of character vectors.
pub open spec fn char_views(s: Seq<Vec<char>>) -> Seq<Seq<char>> {
    s.map_values(|v: Vec<char>| v@)
}

/// The texts of a list of strings.
pub open spec fn string_views(s: Seq<String>) -> Seq<Seq<char>> {
    s.map_values(|t: String| t@)
}

/// Adds `x` to the sorted list unless it holds it already.
fn insert_name(list: &mut Vec<Vec<char>>, x: Vec<char>)
    requires
        strictly_sorted(char_views(old(list)@)),
    ensures
        strictly_sorted(char_views(final(list)@)),
        forall|n: Seq<char>| #[trigger] char_views(final(list)@).contains(n) <==> (char_views(old(list)@).contains(n) || n == x@),
{
    let ghost before = char_views(list@);
    let mut p: usize = 0;
    while p < list.len() && text_less(list[p].as_slice(), x.as_slice())
        invariant
            p <= list@.len(),
            char_views(list@) == before,
            strictly_sorted(before),
            forall|a: int| 0 <= a < p ==> text_lt(#[trigger] before[a], x@),
        decreases list@.len() - p,
    {
        p = p + 1;
    }
    if p < list.len() && !text_less(x.as_slice(), list[p].as_slice()) {
        proof {
            lemma_text_lt_total(before[p as int], x@);
            assert(before[p as int] == x@);
        }
        return;
    }
    proof {
        if p < list@.len() {
            assert(text_lt(x@, before[p as int]));
        }
    }
    list.insert(p, x);
    proof {
        let after = char_views(list@);
        assert(after.len() == before.len() + 1);
        assert forall|i: int| 0 <= i < after.len() implies #[trigger] after[i] == (if i < p {
            before[i]
        } else if i == p {
            x@
        } else {
            before[i - 1]
        }) by {}
        assert forall|a: int, b: int| 0 <= a < b < after.len() implies text_lt(#[trigger] after[a], #[trigger] after[b]) by {
            if b < p {
            } else if b == p {
            } else if a < p {
                assert(after[b] == before[b - 1]);
            } else if a == p {
                assert(after[b] == before[b - 1]);
                if b - 1 > p {
                    assert(text_lt(before[p as int], before[b - 1]));
                    lemma_text_lt_transitive(x@, before[p as int], before[b - 1]);
                }
            } else {
                assert(after[a] == before[a - 1]);
                assert(after[b] == before[b - 1]);
            }
        }
        assert forall|n: Seq<char>| #[trigger] after.contains(n) <==> (before.contains(n) || n == x@) by {
            if after.contains(n) {
                let i = choose|i: int| 0 <= i < after.len() && after[i] == n;
                if i < p {
                    assert(before[i] == n);
                } else if i > p {
                    assert(before[i - 1] == n);
                }
            }
            if before.contains(n) {
                let i = choose|i: int| 0 <= i < before.len() && before[i] == n;
                if i < p {
                    assert(after[i] == n);
                } else {
                    assert(after[i + 1] == n);
                }
            }
            if n == x@ {
                assert(after[p as int] == n);
            }
        }
    }
}

/// Whether day `d` lists a model named `n`.
pub open spec fn model_on(d: DailyStats, n: Seq<char>) -> bool {
    exists|a: int| 0 <= a < d.models@.len() && (#[trigger] d.models@[a]).name@ == n
}

/// Whether any of `days` lists a model named `n`.
pub open spec fn model_on_days(days: Seq<DailyStats>, n: Seq<char>) -> bool {
    exists|j: int| 0 <= j < days.len() && model_on(#[trigger] days[j], n)
}

/// Turns the sorted character lists back into strings.
fn into_strings(list: &Vec<Vec<char>>) -> (r: Vec<String>)
    ensures
        string_views(r@) == char_views(list@),
{
    let mut out: Vec<String> = Vec::new();
    let mut i: usize = 0;
    while i < list.len()
        invariant
            i <= list@.len(),
            out@.len() == i,
            string_views(out@) == char_views(list@).take(i as int),
        decreases list@.len() - i,
    {
        let ghost prev = out@;
        let t = string_of(list[i].as_slice());
        out.push(t);
        proof {
            assert(out@ == prev.push(t));
            assert forall|k: int| 0 <= k <= i implies #[trigger] string_views(out@)[k] == char_views(list@)[k] by {
                if k < i {
                    assert(out@[k] == prev[k]);
                    assert(string_views(prev)[k] == char_views(list@).take(i as int)[k]);
                }
            }
        }
        i = i + 1;
        assert(string_views(out@) =~= char_views(list@).take(i as int));
    }
    assert(char_views(list@).take(i as int) =~= char_views(list@));
    out
}

/// Adds the names of day `d`'s models to the sorted list.
fn insert_day_models(list: &mut Vec<Vec<char>>, d: &DailyStats)
    requires
        strictly_sorted(char_views(old(list)@)),
    ensures
        strictly_sorted(char_views(final(list)@)),
        forall|n: Seq<char>| #[trigger] char_views(final(list)@).contains(n) <==> (char_views(old(list)@).contains(n)
            || model_on(*d, n)),
{
    let ghost start = char_views(list@);
    let mut a: usize = 0;
    while a < d.models.len()
        invariant
            a <= d.models@.len(),
            strictly_sorted(char_views(list@)),
            forall|n: Seq<char>| #[trigger] char_views(list@).contains(n) <==> (start.contains(n) || exists|b: int|
                0 <= b < a && (#[trigger] d.models@[b]).name@ == n),
        decreases d.models@.len() - a,
    {
        let name = chars_of(d.models[a].name.as_str());
        let ghost mid = char_views(list@);
        insert_name(list, name);
        proof {
            assert forall|n: Seq<char>| #[trigger] char_views(list@).contains(n) <==> (start.contains(n) || exists|b: int|
                0 <= b < a + 1 && (#[trigger] d.models@[b]).name@ == n) by {
                if n == d.models@[a as int].name@ {
                    assert(exists|b: int| 0 <= b < a + 1 && (#[trigger] d.models@[b]).name@ == n);
                }
                if exists|b: int| 0 <= b < a + 1 && (#[trigger] d.models@[b]).name@ == n {
                    let b = choose|b: int| 0 <= b < a + 1 && (#[trigger] d.models@[b]).name@ == n;
                    if b < a {
                        assert(mid.contains(n));
                    }
                }
            }
        }
        a = a + 1;
    }
}

/// The names of day `d`'s models, each once, sorted as `String`s sort.
pub fn day_model_names(d: &DailyStats) -> (r: Vec<String>)
    ensures
        strictly_sorted(string_views(r@)),
        forall|n: Seq<char>| #[trigger] string_views(r@).contains(n) <==> model_on(*d, n),
{
    let mut list: Vec<Vec<char>> = Vec::new();
    assert(char_views(list@) =~= Seq::<Seq<char>>::empty());
    insert_day_models(&mut list, d);
    into_strings(&list)
}

/// The names of every model of `days`, each once, sorted as `String`s sort.
pub fn all_model_names(days: &[DailyStats]) -> (r: Vec<String>)
    ensures
        strictly_sorted(string_views(r@)),
        forall|n: Seq<char>| #[trigger] string_views(r@).contains(n) <==> model_on_days(days@, n),
{
    let mut list: Vec<Vec<char>> = Vec::new();
    assert(char_views(list@) =~= Seq::<Seq<char>>::empty());
    let mut j: usize = 0;
    while j < days.len()
        invariant
            j <= days@.len(),
            strictly_sorted(char_views(list@)),
            forall|n: Seq<char>| #[trigger] char_views(list@).contains(n) <==> model_on_days(days@.take(j as int), n),
        decreases days@.len() - j,
    {
        let ghost mid = char_views(list@);
        insert_day_models(&mut list, &days[j]);
        proof {
            assert forall|n: Seq<char>| #[trigger] char_views(list@).contains(n) <==> model_on_days(days@.take(j + 1), n) by {
                let t = days@.take(j + 1);
                if model_on(days@[j as int], n) {
                    assert(t[j as int] == days@[j as int]);
                }
                if model_on_days(t, n) {
                    let i = choose|i: int| 0 <= i < t.len() && model_on(#[trigger] t[i], n);
                    if i < j {
                        assert(days@.take(j as int)[i] == t[i]);
                    }
                }
                if model_on_days(days@.take(j as int), n) {
                    let i = choose|i: int| 0 <= i < j && model_on(#[trigger] days@.take(j as int)[i], n);
                    assert(t[i] == days@.take(j as int)[i]);
                }
            }
        }
        j = j + 1;
    }
    assert(days@.take(days@.len() as int) =~= days@);
    into_strings(&list)
}

} // verus!
