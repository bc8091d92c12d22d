//! What every analyzer offers, and the registry that holds them.
use vstd::prelude::*;
use crate::analyzers::amazon_q::AmazonQAnalyzer;
use crate::analyzers::codex_cli::CodexCliAnalyzer;
use crate::analyzers::droid_cli::DroidCliAnalyzer;
use crate::analyzers::kilo_code::KiloCodeAnalyzer;
use crate::analyzers::kiro_cli::KiroCliAnalyzer;
use crate::analyzers::opencode::OpenCodeAnalyzer;
use crate::analyzers::qwen_code::QwenCodeAnalyzer;
use crate::analyzers::warp_dev::WarpDevAnalyzer;
use crate::json::str_eq;
use crate::text::{
    chars_of, find_from, find_pattern, lemma_find_from_range, lemma_text_lt_asymmetric, lemma_text_lt_irreflexive,
    lemma_text_lt_total, lemma_text_lt_transitive, string_of, text_less, text_lt,
};
use vstd::relations::{sorted_by, total_ordering};
use vstd::multiset::Multiset;
use crate::types::opt_view;

verus! {

/// A data source of an analyzer: a file it reads.
#[derive(Debug, Clone)]
pub struct DataSource {
    pub path: String,
}

/// What every analyzer offers the registry.
pub trait Analyzer {
    /// The name the analyzer reports under.
    spec fn name_spec(&self) -> Seq<char>;

    /// The name the analyzer reports under.
    fn display_name(&self) -> (s: &'static str)
        ensures
            s@ == self.name_spec();
}

/// Every analyzer of the library, as one type.
pub enum ToolAnalyzer {
    AmazonQ(AmazonQAnalyzer),
    CodexCli(CodexCliAnalyzer),
    DroidCli(DroidCliAnalyzer),
    KiloCode(KiloCodeAnalyzer),
    KiroCli(KiroCliAnalyzer),
    OpenCode(OpenCodeAnalyzer),
    QwenCode(QwenCodeAnalyzer),
    WarpDev(WarpDevAnalyzer),
}

impl Analyzer for ToolAnalyzer {
    open spec fn name_spec(&self) -> Seq<char> {
        match self {
            ToolAnalyzer::AmazonQ(a) => a.name_spec(),
            ToolAnalyzer::CodexCli(a) => a.name_spec(),
            ToolAnalyzer::DroidCli(a) => a.name_spec(),
            ToolAnalyzer::KiloCode(a) => a.name_spec(),
            ToolAnalyzer::KiroCli(a) => a.name_spec(),
            ToolAnalyzer::OpenCode(a) => a.name_spec(),
            ToolAnalyzer::QwenCode(a) => a.name_spec(),
            ToolAnalyzer::WarpDev(a) => a.name_spec(),
        }
    }

    fn display_name(&self) -> (s: &'static str) {
        match self {
            ToolAnalyzer::AmazonQ(a) => a.display_name(),
            ToolAnalyzer::CodexCli(a) => a.display_name(),
            ToolAnalyzer::DroidCli(a) => a.display_name(),
            ToolAnalyzer::KiloCode(a) => a.display_name(),
            ToolAnalyzer::KiroCli(a) => a.display_name(),
            ToolAnalyzer::OpenCode(a) => a.display_name(),
            ToolAnalyzer::QwenCode(a) => a.display_name(),
            ToolAnalyzer::WarpDev(a) => a.display_name(),
        }
    }
}

/// The registered analyzers, in registration order.
pub struct AnalyzerRegistry<A> {
    pub analyzers: Vec<A>,
}

/// The positions, among the first `n` registered analyzers, of those available on this system.
pub open spec fn available_positions(available: Seq<bool>, n: int) -> Seq<int>
    decreases n,
{
    if n <= 0 {
        Seq::empty()
    } else if available[n - 1] {
        available_positions(available, n - 1).push(n - 1)
    } else {
        available_positions(available, n - 1)
    }
}

/// The position of the first analyzer among the first `n` that reports under `name`.
pub open spec fn first_named<A: Analyzer>(analyzers: Seq<A>, name: Seq<char>, n: int) -> Option<int>
    decreases n,
{
    if n <= 0 {
        None
    } else {
        match first_named(analyzers, name, n - 1) {
            Some(p) => Some(p),
            None => if analyzers[n - 1].name_spec() == name { Some(n - 1) } else { None },
        }
    }
}

impl<A: Analyzer> AnalyzerRegistry<A> {
    /// An empty registry.
    pub fn new() -> (r: Self)
        ensures
            r.analyzers@ == Seq::<A>::empty(),
    {
        AnalyzerRegistry { analyzers: Vec::new() }
    }

    /// Registers `analyzer` after those registered before.
    pub fn register(&mut self, analyzer: A)
        ensures
            final(self).analyzers@ == old(self).analyzers@.push(analyzer),
    {
        self.analyzers.push(analyzer);
    }

    /// The analyzers present on this system, in registration order; `available[i]` tells whether
    /// the `i`-th registered one is.
    pub fn available_analyzers(&self, available: &[bool]) -> (r: Vec<&A>)
        requires
            available.len() == self.analyzers.len(),
        ensures
            r.len() == available_positions(available@, available.len() as int).len(),
            forall|k: int| 0 <= k < r.len() ==> *(#[trigger] r@[k]) == self.analyzers@[available_positions(
                available@,
                available.len() as int,
            )[k]],
    {
        let mut out: Vec<&A> = Vec::new();
        let mut i: usize = 0;
        while i < self.analyzers.len()
            invariant
                i <= self.analyzers.len(),
                available.len() == self.analyzers.len(),
                out.len() == available_positions(available@, i as int).len(),
                forall|k: int| 0 <= k < out.len() ==> *(#[trigger] out@[k]) == self.analyzers@[available_positions(
                    available@,
                    i as int,
                )[k]],
            decreases self.analyzers.len() - i,
        {
            if available[i] {
                out.push(&self.analyzers[i]);
            }
            i = i + 1;
        }
        out
    }

    /// The first registered analyzer that reports under `display_name`.
    pub fn get_analyzer_by_display_name(&self, display_name: &str) -> (r: Option<&A>)
        ensures
            match first_named(self.analyzers@, display_name@, self.analyzers.len() as int) {
                Some(p) => r matches Some(a) && *a == self.analyzers@[p],
                None => r is None,
            },
    {
        let mut i: usize = 0;
        while i < self.analyzers.len()
            invariant
                i <= self.analyzers.len(),
                first_named(self.analyzers@, display_name@, i as int) is None,
            decreases self.analyzers.len() - i,
        {
            let name = self.analyzers[i].display_name();
            if str_eq(name, display_name) {
                proof {
                    lemma_first_named_stable(self.analyzers@, display_name@, i + 1, self.analyzers.len() as int);
                }
                return Some(&self.analyzers[i]);
            }
            i = i + 1;
        }
        None
    }
}

pub proof fn lemma_first_named_stable<A: Analyzer>(analyzers: Seq<A>, name: Seq<char>, m: int, n: int)
    requires
        m <= n,
        first_named(analyzers, name, m) is Some,
    ensures
        first_named(analyzers, name, n) == first_named(analyzers, name, m),
    decreases n - m,
{
    if m < n {
        lemma_first_named_stable(analyzers, name, m, n - 1);
    }
}

/// The registry of the analyzers this build enables, in the order they are consulted: Kilo
/// Code, Qwen Code, Codex CLI, Kiro CLI and OpenCode.
pub fn create_analyzer_registry() -> (r: AnalyzerRegistry<ToolAnalyzer>)
    ensures
        r.analyzers@.map_values(|a: ToolAnalyzer| a.name_spec()) == seq![
            "Kilo Code"@,
            "Qwen Code"@,
            "Codex CLI"@,
            "Kiro CLI"@,
            "OpenCode"@,
        ],
{
    let mut registry = AnalyzerRegistry::new();
    registry.register(ToolAnalyzer::KiloCode(KiloCodeAnalyzer::new()));
    registry.register(ToolAnalyzer::QwenCode(QwenCodeAnalyzer::new()));
    registry.register(ToolAnalyzer::CodexCli(CodexCliAnalyzer::new()));
    registry.register(ToolAnalyzer::KiroCli(KiroCliAnalyzer::new()));
    registry.register(ToolAnalyzer::OpenCode(OpenCodeAnalyzer::new()));
    proof {
        assert(registry.analyzers@.map_values(|a: ToolAnalyzer| a.name_spec()) =~= seq![
            "Kilo Code"@,
            "Qwen Code"@,
            "Codex CLI"@,
            "Kiro CLI"@,
            "OpenCode"@,
        ]);
    }
    registry
}

/// The directory part of path `p` (`Path::parent`), when it has one.
pub uninterp spec fn parent_path(p: Seq<char>) -> Option<Seq<char>>;

/// `Path::parent`, read back as text; the result is named by [`parent_path`].
#[verifier::external_body]
fn path_parent(p: &str) -> (r: Option<String>)
    ensures
        opt_view(r) == parent_path(p@),
{
    std::path::Path::new(p).parent().and_then(|q| q.to_str()).map(str::to_owned)
}

/// `s` without its trailing `/` and `\` characters.
pub open spec fn trim_end_slashes(s: Seq<char>) -> Seq<char>
    decreases s.len(),
{
    if s.len() > 0 && (s.last() == '/' || s.last() == '\\') {
        trim_end_slashes(s.drop_last())
    } else {
        s
    }
}

/// `s` as a one-element list when it is not empty, else the empty list.
pub open spec fn if_nonempty(s: Seq<char>) -> Seq<Seq<char>> {
    if s.len() > 0 { seq![s] } else { Seq::empty() }
}

/// The directory before the first occurrence of `wild` in pattern `p`, without trailing
/// separators, when there is one and it is not empty.
pub open spec fn prefix_before(p: Seq<char>, wild: Seq<char>) -> Seq<Seq<char>> {
    match find_from(p, wild, 0) {
        Some(i) => if_nonempty(trim_end_slashes(p.take(i))),
        None => Seq::empty(),
    }
}

/// The directories the data matching glob pattern `p` lies under: the part before the first
/// wildcard (the first `*`), then the part before the first `**`, and the pattern's parent
/// directory. The watcher uses the first that has an existing ancestor.
pub open spec fn watch_candidates_of(p: Seq<char>) -> Seq<Seq<char>> {
    prefix_before(p, "*"@) + prefix_before(p, "**"@) + match parent_path(p) {
        Some(q) => if_nonempty(q),
        None => Seq::empty(),
    }
}

fn trimmed_dir(cs: &Vec<char>, end: usize) -> (r: Option<String>)
    requires
        end <= cs@.len(),
    ensures
        match r {
            Some(d) => if_nonempty(trim_end_slashes(cs@.take(end as int))) == seq![d@],
            None => if_nonempty(trim_end_slashes(cs@.take(end as int))) == Seq::<Seq<char>>::empty(),
        },
{
    let mut k: usize = end;
    while k > 0 && (cs[k - 1] == '/' || cs[k - 1] == '\\')
        invariant
            k <= end <= cs@.len(),
            trim_end_slashes(cs@.take(end as int)) == trim_end_slashes(cs@.take(k as int)),
        decreases k,
    {
        assert(cs@.take(k as int).drop_last() =~= cs@.take(k as int - 1));
        k = k - 1;
    }
    if k == 0 {
        assert(cs@.take(0) =~= Seq::<char>::empty());
        return None;
    }
    let mut out: Vec<char> = Vec::new();
    let mut i: usize = 0;
    while i < k
        invariant
            i <= k <= cs@.len(),
            out@ == cs@.take(i as int),
        decreases k - i,
    {
        out.push(cs[i]);
        i = i + 1;
        assert(out@ =~= cs@.take(i as int));
    }
    Some(string_of(&out))
}

/// The directories to try, in order, when watching the data of glob pattern `pattern` (see
/// [`watch_candidates_of`]).
pub fn watch_candidates(pattern: &str) -> (r: Vec<String>)
    ensures
        r@.map_values(|s: String| s@) == watch_candidates_of(pattern@),
{
    let cs = chars_of(pattern);
    let mut out: Vec<String> = Vec::new();
    let double = chars_of("**");
    let single = chars_of("*");
    match find_pattern(&cs, &single, 0) {
        Some(i) => {
            proof {
                lemma_find_from_range(cs@, single@, 0);
            }
            match trimmed_dir(&cs, i) {
                Some(d) => out.push(d),
                None => {},
            }
        },
        None => {},
    }
    assert(out@.map_values(|s: String| s@) =~= prefix_before(pattern@, "*"@));
    let ghost after_a = out@.map_values(|s: String| s@);
    match find_pattern(&cs, &double, 0) {
        Some(i) => {
            proof {
                lemma_find_from_range(cs@, double@, 0);
            }
            match trimmed_dir(&cs, i) {
                Some(d) => out.push(d),
                None => {},
            }
        },
        None => {},
    }
    assert(out@.map_values(|s: String| s@) =~= after_a + prefix_before(pattern@, "**"@));
    let ghost after_b = out@.map_values(|s: String| s@);
    match path_parent(pattern) {
        Some(q) => {
            let qc = chars_of(q.as_str());
            if qc.len() > 0 {
                out.push(q);
            }
        },
        None => {},
    }
    assert(out@.map_values(|s: String| s@) =~= watch_candidates_of(pattern@));
    out
}

/// What the change detector reads of one data source, with one `stat` and no read: its path,
/// its size in bytes (0 when it cannot be read) and its modification time as whole seconds
/// since the epoch and nanoseconds (floored, as the system clock holds it; `None` when it is
/// not known).
#[derive(Clone, Debug)]
pub struct SourceStamp {
    pub path: String,
    pub len: u64,
    pub modified: Option<(i64, u32)>,
}

impl View for SourceStamp {
    type V = (Seq<char>, u64, Option<(i64, u32)>);

    open spec fn view(&self) -> Self::V {
        (self.path@, self.len, self.modified)
    }
}

/// The stamps of a list of sources.
pub open spec fn stamp_views(s: Seq<SourceStamp>) -> Seq<(Seq<char>, u64, Option<(i64, u32)>)> {
    s.map_values(|x: SourceStamp| x@)
}

/// The order of modification times: unknown first, then by time.
pub open spec fn time_le(a: Option<(i64, u32)>, b: Option<(i64, u32)>) -> bool {
    match (a, b) {
        (None, _) => true,
        (Some(_), None) => false,
        (Some(x), Some(y)) => x.0 < y.0 || (x.0 == y.0 && x.1 <= y.1),
    }
}

/// The order the stamps are hashed in: by path, then size, then modification time.
pub open spec fn stamp_le() -> spec_fn((Seq<char>, u64, Option<(i64, u32)>), (Seq<char>, u64, Option<(i64, u32)>)) -> bool {
    |a: (Seq<char>, u64, Option<(i64, u32)>), b: (Seq<char>, u64, Option<(i64, u32)>)|
        text_lt(a.0, b.0) || (a.0 == b.0 && (a.1 < b.1 || (a.1 == b.1 && time_le(a.2, b.2))))
}

proof fn lemma_stamp_le_total()
    ensures
        total_ordering(stamp_le()),
{
    let le = stamp_le();
    assert forall|a: (Seq<char>, u64, Option<(i64, u32)>), b: (Seq<char>, u64, Option<(i64, u32)>)| #[trigger] le(a, b) && #[trigger] le(b, a) implies a == b by {
        lemma_text_lt_asymmetric(a.0, b.0);
        lemma_text_lt_irreflexive(a.0);
        lemma_text_lt_irreflexive(b.0);
        if text_lt(a.0, b.0) {
            assert(!text_lt(b.0, a.0));
        }
    }
    assert forall|a: (Seq<char>, u64, Option<(i64, u32)>), b: (Seq<char>, u64, Option<(i64, u32)>), c: (Seq<char>, u64, Option<(i64, u32)>)|
        #[trigger] le(a, b) && #[trigger] le(b, c) implies le(a, c) by {
        if text_lt(a.0, b.0) && text_lt(b.0, c.0) {
            lemma_text_lt_transitive(a.0, b.0, c.0);
        }
    }
    assert forall|a: (Seq<char>, u64, Option<(i64, u32)>), b: (Seq<char>, u64, Option<(i64, u32)>)| #[trigger] le(a, b) || #[trigger] le(b, a) by {
        lemma_text_lt_total(a.0, b.0);
    }
    assert forall|a: (Seq<char>, u64, Option<(i64, u32)>)| #[trigger] le(a, a) by {
        lemma_text_lt_irreflexive(a.0);
    }
}

fn stamp_before_or_same(a: &SourceStamp, b: &SourceStamp) -> (r: bool)
    ensures
        r == (stamp_le())(a@, b@),
{
    let pa = chars_of(a.path.as_str());
    let pb = chars_of(b.path.as_str());
    if text_less(pa.as_slice(), pb.as_slice()) {
        return true;
    }
    if text_less(pb.as_slice(), pa.as_slice()) {
        proof {
            lemma_text_lt_asymmetric(a.path@, b.path@);
            lemma_text_lt_irreflexive(a.path@);
        }
        return false;
    }
    proof {
        lemma_text_lt_total(a.path@, b.path@);
    }
    if a.len != b.len {
        return a.len < b.len;
    }
    match (a.modified, b.modified) {
        (None, _) => true,
        (Some(_), None) => false,
        (Some(x), Some(y)) => x.0 < y.0 || (x.0 == y.0 && x.1 <= y.1),
    }
}

/// What a fresh `std::collections::hash_map::DefaultHasher` finishes with after hashing the
/// number of stamps and then, stamp by stamp, the path as a `Path`, the size and the
/// modification time.
pub uninterp spec fn default_stamps_hash(stamps: Seq<(Seq<char>, u64, Option<(i64, u32)>)>) -> u64;

/// Feeds the stamps, in the order given, to a fresh `DefaultHasher` (`DefaultHasher::new`,
/// whose keys are fixed, so one build gives every process the same value): their number, then
/// each path as a `std::path::Path`, size and modification time through their `Hash` impls;
/// returns `finish()`, named by [`default_stamps_hash`].
#[verifier::external_body]
fn hash_stamps(stamps: &[SourceStamp]) -> (h: u64)
    ensures
        h == default_stamps_hash(stamp_views(stamps@)),
{
    let mut hasher = std::collections::hash_map::DefaultHasher::new();
    std::hash::Hash::hash(&stamps.len(), &mut hasher);
    for s in stamps {
        std::hash::Hash::hash(std::path::Path::new(&s.path), &mut hasher);
        std::hash::Hash::hash(&s.len, &mut hasher);
        std::hash::Hash::hash(&s.modified, &mut hasher);
    }
    std::hash::Hasher::finish(&hasher)
}

/// A source's fingerprint, from its stamps: their hash once sorted, so that the order in
/// which sources are found does not matter.
pub open spec fn fingerprint_of(stamps: Seq<SourceStamp>) -> u64 {
    default_stamps_hash(stamp_views(stamps).sort_by(stamp_le()))
}

/// Sorts the stamps by insertion into a fresh vector.
fn sort_stamps(v: &[SourceStamp]) -> (r: Vec<SourceStamp>)
    ensures
        sorted_by(stamp_views(r@), stamp_le()),
        stamp_views(r@).to_multiset() == stamp_views(v@).to_multiset(),
{
    broadcast use vstd::seq_lib::group_to_multiset_ensures;
    let mut r: Vec<SourceStamp> = Vec::new();
    let mut i: usize = 0;
    assert(stamp_views(r@) =~= Seq::<(Seq<char>, u64, Option<(i64, u32)>)>::empty());
    while i < v.len()
        invariant
            i <= v@.len(),
            sorted_by(stamp_views(r@), stamp_le()),
            stamp_views(r@).to_multiset() == stamp_views(v@.take(i as int)).to_multiset(),
        decreases v@.len() - i,
    {
        let x = SourceStamp { path: v[i].path.clone(), len: v[i].len, modified: v[i].modified };
        assert(x@ == v@[i as int]@);
        let mut p: usize = 0;
        while p < r.len() && stamp_before_or_same(&r[p], &x)
            invariant
                p <= r@.len(),
                forall|a: int| 0 <= a < p ==> #[trigger] (stamp_le())(stamp_views(r@)[a], x@),
            decreases r@.len() - p,
        {
            p = p + 1;
        }
        let ghost before = stamp_views(r@);
        let ghost old_r = r@;
        let ghost xv = x@;
        r.insert(p, x);
        proof {
            lemma_stamp_le_total();
            let after = stamp_views(r@);
            let a = before.take(p as int);
            let b = before.skip(p as int);
            let xs = seq![xv];
            assert(r@ == old_r.insert(p as int, x));
            assert(after =~= (a + xs) + b) by {
                assert forall|k: int| 0 <= k < after.len() implies after[k] == ((a + xs) + b)[k] by {
                    if k < p {
                        assert(r@[k] == old_r[k]);
                    } else if k > p {
                        assert(r@[k] == old_r[k - 1]);
                    }
                }
            }
            assert(before =~= a + b);
            vstd::seq_lib::lemma_multiset_commutative(a, b);
            vstd::seq_lib::lemma_multiset_commutative(a + xs, b);
            vstd::seq_lib::lemma_multiset_commutative(a, xs);
            assert(xs =~= Seq::<(Seq<char>, u64, Option<(i64, u32)>)>::empty().push(xv));
            assert(Seq::<(Seq<char>, u64, Option<(i64, u32)>)>::empty().to_multiset() =~= Multiset::<(Seq<char>, u64, Option<(i64, u32)>)>::empty()) by {
                broadcast use vstd::multiset::group_multiset_axioms;
                broadcast use vstd::seq_lib::group_to_multiset_ensures;
                vstd::multiset::lemma_multiset_empty_len(Seq::<(Seq<char>, u64, Option<(i64, u32)>)>::empty().to_multiset());
                assert(Seq::<(Seq<char>, u64, Option<(i64, u32)>)>::empty().to_multiset().len() == 0);
            }
            assert(xs.to_multiset() =~= Multiset::<(Seq<char>, u64, Option<(i64, u32)>)>::empty().insert(xv)) by {
                broadcast use vstd::seq_lib::group_to_multiset_ensures;
                assert(xs.to_multiset() == Seq::<(Seq<char>, u64, Option<(i64, u32)>)>::empty().push(xv).to_multiset());
            }
            assert(after.to_multiset() =~= before.to_multiset().insert(xv)) by {
                broadcast use vstd::multiset::group_multiset_axioms;
                assert(after.to_multiset() =~= a.to_multiset().add(xs.to_multiset()).add(b.to_multiset()));
                assert(before.to_multiset() =~= a.to_multiset().add(b.to_multiset()));
            }
            assert(stamp_views(v@.take(i + 1)) =~= stamp_views(v@.take(i as int)).push(xv));
            stamp_views(v@.take(i as int)).to_multiset_ensures();
            assert forall|k: int| 0 <= k < after.len() implies #[trigger] after[k] == (if k < p {
                before[k]
            } else if k == p {
                xv
            } else {
                before[k - 1]
            }) by {
                assert(after[k] == ((a + xs) + b)[k]);
            }
            if p < before.len() {
                assert(!(stamp_le())(before[p as int], xv));
                assert((stamp_le())(before[p as int], xv) || (stamp_le())(xv, before[p as int]));
            }
            assert forall|c: int, d: int| 0 <= c < d < after.len() implies #[trigger] (stamp_le())(after[c], after[d]) by {
                if d < p {
                    assert(after[c] == before[c]);
                    assert(after[d] == before[d]);
                } else if d == p {
                    assert(after[c] == before[c]);
                    assert(after[d] == xv);
                } else if c < p {
                    assert(after[c] == before[c]);
                    assert(after[d] == before[d - 1]);
                } else if c == p {
                    assert(after[c] == xv);
                    assert(after[d] == before[d - 1]);
                    if d - 1 > p {
                        assert((stamp_le())(before[p as int], before[d - 1]));
                        assert((stamp_le())(xv, before[p as int]));
                    }
                } else {
                    assert(after[c] == before[c - 1]);
                    assert(after[d] == before[d - 1]);
                }
            }
        }
        i = i + 1;
    }
    proof {
        assert(v@.take(v@.len() as int) =~= v@);
    }
    r
}

/// A cheap change detector for a set of data sources, from their stamps (one `stat` each,
/// gathered outside): the hash of the stamps in a fixed order, so that sources found in any
/// order give the same value.
pub fn sources_fingerprint(stamps: &[SourceStamp]) -> (r: u64)
    ensures
        r == fingerprint_of(stamps@),
{
    let sorted = sort_stamps(stamps);
    proof {
        lemma_stamp_le_total();
        stamp_views(stamps@).lemma_sort_by_ensures(stamp_le());
        vstd::seq_lib::lemma_sorted_unique(stamp_views(sorted@), stamp_views(stamps@).sort_by(stamp_le()), stamp_le());
    }
    hash_stamps(sorted.as_slice())
}

/// The fingerprint does not depend on the order in which the sources come.
pub proof fn law_fingerprint_ignores_order(a: Seq<SourceStamp>, b: Seq<SourceStamp>)
    requires
        stamp_views(a).to_multiset() == stamp_views(b).to_multiset(),
    ensures
        fingerprint_of(a) == fingerprint_of(b),
{
    lemma_stamp_le_total();
    stamp_views(a).lemma_sort_by_ensures(stamp_le());
    stamp_views(b).lemma_sort_by_ensures(stamp_le());
    vstd::seq_lib::lemma_sorted_unique(stamp_views(a).sort_by(stamp_le()), stamp_views(b).sort_by(stamp_le()), stamp_le());
}

} // verus!
