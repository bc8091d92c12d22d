//! The decisions of live mode: which analyzers a file-system event concerns, how change
//! notices are batched and debounced into reloads, when the Codex CLI logs are polled, and how a
//! reloaded analyzer's figures replace the old ones. Watching, timers and reloading happen
//! outside.
use vstd::prelude::*;
use crate::incremental::first_occurrences;
use crate::json::str_eq;
use crate::text::{lowercase, lowercase_of, trim, trim_chars, chars_of, string_of};
use crate::types::AgenticCodingToolStats;
use crate::warp::health::{contains_text, text_contains};

verus! {

/// What the file watcher reports.
#[derive(Debug, Clone)]
pub enum WatcherEvent {
    /// The data of the analyzer with this name changed.
    DataChanged(String),
    /// Watching failed with this message.
    Error(String),
}

/// Where an analyzer's data lives, for watching: the directory that is watched (the closest one
/// that exists), the most specific directory the data is under, and the glob pattern of its
/// files.
#[derive(Debug, Clone)]
pub struct WatchEntry {
    pub analyzer_name: String,
    pub match_dir: String,
    pub watch_dir: String,
    pub pattern: String,
}

/// What happened to the paths of a file-system event.
#[derive(Debug, Clone, Copy, PartialEq, Eq, Structural)]
pub enum FsChange {
    Create,
    Modify,
    Remove,
    /// Access and other events, which change no data.
    Other,
}

/// Whether path `p` starts with path `base`, component by component (`Path::starts_with`).
pub uninterp spec fn path_prefix(p: Seq<char>, base: Seq<char>) -> bool;

/// `Path::starts_with`: whether `base`'s components begin `path`'s; the result is named by
/// [`path_prefix`].
#[verifier::external_body]
fn path_starts_with(path: &str, base: &str) -> (r: bool)
    ensures
        r == path_prefix(path@, base@),
{
    std::path::Path::new(path).starts_with(base)
}

/// Whether the glob `pattern` accepts path `p`: what `glob::Pattern::new` and then
/// `Pattern::matches_path` give; a pattern that does not compile accepts nothing.
pub uninterp spec fn glob_match(pattern: Seq<char>, p: Seq<char>) -> bool;

/// Compiles `pattern` with `glob::Pattern::new` and tests `path` with `matches_path`; the
/// result is named by [`glob_match`].
#[verifier::external_body]
fn glob_matches(pattern: &str, path: &str) -> (r: bool)
    ensures
        r == glob_match(pattern@, path@),
{
    match glob::Pattern::new(pattern) {
        Ok(p) => p.matches_path(std::path::Path::new(path)),
        Err(_) => false,
    }
}

/// Whether a change of path `p` concerns the analyzer of `e`: the path is under the watched
/// directory, and under the data's directory or accepted by its pattern.
pub open spec fn concerns(e: WatchEntry, p: Seq<char>) -> bool {
    path_prefix(p, e.watch_dir@) && (path_prefix(p, e.match_dir@) || glob_match(e.pattern@, p))
}

/// The analyzer names, in order, of the first `j` entries concerned by path `p`.
pub open spec fn path_hits(p: Seq<char>, entries: Seq<WatchEntry>, j: int) -> Seq<Seq<char>>
    decreases j,
{
    if j <= 0 {
        Seq::empty()
    } else if concerns(entries[j - 1], p) {
        path_hits(p, entries, j - 1).push(entries[j - 1].analyzer_name@)
    } else {
        path_hits(p, entries, j - 1)
    }
}

/// The analyzer names, in order, concerned by the first `i` paths.
pub open spec fn event_hits(paths: Seq<String>, entries: Seq<WatchEntry>, i: int) -> Seq<Seq<char>>
    decreases i,
{
    if i <= 0 {
        Seq::empty()
    } else {
        event_hits(paths, entries, i - 1) + path_hits(paths[i - 1]@, entries, entries.len() as int)
    }
}

/// The names carried by change notices.
pub open spec fn notice_names(events: Seq<WatcherEvent>) -> Seq<Seq<char>> {
    events.map_values(|e: WatcherEvent| match e {
        WatcherEvent::DataChanged(n) => n@,
        WatcherEvent::Error(m) => m@,
    })
}

proof fn lemma_first_occurrences_push(s: Seq<Seq<char>>, x: Seq<char>)
    ensures
        first_occurrences(s.push(x)) == if first_occurrences(s).contains(x) {
            first_occurrences(s)
        } else {
            first_occurrences(s).push(x)
        },
{
    assert(s.push(x).drop_last() =~= s);
}

/// The change notices for a file-system event: a create, modify or remove event notifies each
/// concerned analyzer once, in the order in which its paths and the entries concern them; other
/// events notify nobody.
pub fn handle_fs_event(change: FsChange, paths: &[String], entries: &[WatchEntry]) -> (r: Vec<WatcherEvent>)
    ensures
        forall|k: int| 0 <= k < r@.len() ==> r@[k] is DataChanged,
        notice_names(r@) == if change == FsChange::Other {
            Seq::<Seq<char>>::empty()
        } else {
            first_occurrences(event_hits(paths@, entries@, paths@.len() as int))
        },
{
    let mut out: Vec<WatcherEvent> = Vec::new();
    if change == FsChange::Other {
        assert(notice_names(out@) =~= Seq::<Seq<char>>::empty());
        return out;
    }
    let mut names: Vec<String> = Vec::new();
    let mut i: usize = 0;
    while i < paths.len()
        invariant
            i <= paths@.len(),
            names@.map_values(|x: String| x@) == first_occurrences(event_hits(paths@, entries@, i as int)),
            notice_names(out@) == names@.map_values(|x: String| x@),
            forall|k: int| 0 <= k < out@.len() ==> out@[k] is DataChanged,
        decreases paths@.len() - i,
    {
        let p = paths[i].as_str();
        let ghost before = event_hits(paths@, entries@, i as int);
        let mut j: usize = 0;
        while j < entries.len()
            invariant
                i < paths@.len(),
                p@ == paths@[i as int]@,
                j <= entries@.len(),
                names@.map_values(|x: String| x@) == first_occurrences(before + path_hits(p@, entries@, j as int)),
                notice_names(out@) == names@.map_values(|x: String| x@),
                forall|k: int| 0 <= k < out@.len() ==> out@[k] is DataChanged,
            decreases entries@.len() - j,
        {
            let e = &entries[j];
            let hit = path_starts_with(p, e.watch_dir.as_str())
                && (path_starts_with(p, e.match_dir.as_str()) || glob_matches(e.pattern.as_str(), p));
            if hit {
                let ghost hits = before + path_hits(p@, entries@, j as int);
                assert(before + path_hits(p@, entries@, j as int + 1) =~= hits.push(e.analyzer_name@));
                proof {
                    lemma_first_occurrences_push(hits, e.analyzer_name@);
                }
                let seen = listed_in(&names, e.analyzer_name.as_str());
                if !seen {
                    let ghost nv = names@.map_values(|x: String| x@);
                    names.push(e.analyzer_name.clone());
                    out.push(WatcherEvent::DataChanged(e.analyzer_name.clone()));
                    assert(names@.map_values(|x: String| x@) =~= nv.push(e.analyzer_name@));
                    assert(notice_names(out@) =~= nv.push(e.analyzer_name@));
                }
            } else {
                assert(before + path_hits(p@, entries@, j as int + 1) =~= before + path_hits(p@, entries@, j as int));
            }
            j = j + 1;
        }
        i = i + 1;
    }
    out
}

fn listed_in(names: &Vec<String>, name: &str) -> (r: bool)
    ensures
        r == names@.map_values(|x: String| x@).contains(name@),
{
    let ghost nv = names@.map_values(|x: String| x@);
    let mut k: usize = 0;
    while k < names.len()
        invariant
            k <= names@.len(),
            nv == names@.map_values(|x: String| x@),
            forall|m: int| 0 <= m < k ==> nv[m] != name@,
        decreases names@.len() - k,
    {
        if str_eq(names[k].as_str(), name) {
            assert(nv[k as int] == name@);
            return true;
        }
        k = k + 1;
    }
    false
}

/// Which analyzers' watcher activity is logged: `None` logs them all, `Some(f)` those whose
/// lowercased name contains `f`.
#[derive(Debug, Clone)]
pub struct WatchDebugConfig {
    pub analyzer_filter: Option<String>,
}

/// The code of one character after ASCII case folding.
pub open spec fn ascii_lower(c: char) -> u32 {
    if 'A' <= c <= 'Z' {
        ((c as u32) + 32) as u32
    } else {
        c as u32
    }
}

/// Whether `a` and `b` are equal once ASCII letters are folded to lower case.
pub open spec fn same_ignoring_ascii_case(a: Seq<char>, b: Seq<char>) -> bool {
    a.len() == b.len() && forall|i: int| 0 <= i < a.len() ==> #[trigger] ascii_lower(a[i]) == ascii_lower(b[i])
}

fn fold(c: char) -> (r: u32)
    ensures
        r == ascii_lower(c),
{
    if 'A' <= c && c <= 'Z' {
        c as u32 + 32
    } else {
        c as u32
    }
}

/// Whether `a` and `b` are equal ignoring ASCII case (`str::eq_ignore_ascii_case`).
pub fn eq_ignore_ascii_case(a: &str, b: &str) -> (r: bool)
    ensures
        r == same_ignoring_ascii_case(a@, b@),
{
    let x = chars_of(a);
    let y = chars_of(b);
    if x.len() != y.len() {
        return false;
    }
    let mut i: usize = 0;
    while i < x.len()
        invariant
            i <= x@.len(),
            x@ == a@,
            y@ == b@,
            x@.len() == y@.len(),
            forall|k: int| 0 <= k < i ==> #[trigger] ascii_lower(x@[k]) == ascii_lower(y@[k]),
        decreases x@.len() - i,
    {
        if fold(x[i]) != fold(y[i]) {
            return false;
        }
        i = i + 1;
    }
    true
}

/// The debug setting a value of the watcher-debug variable gives: none when it is unset; every
/// analyzer when it is blank, `1`, `true` or `all` (in any ASCII case); otherwise the analyzers
/// whose lowercased name contains the lowercased, trimmed value.
pub open spec fn debug_setting(value: Option<Seq<char>>) -> Option<Option<Seq<char>>> {
    match value {
        None => None,
        Some(v) => {
            let t = trim(v);
            if t.len() == 0 || t == "1"@ || same_ignoring_ascii_case(t, "true"@) || same_ignoring_ascii_case(t, "all"@) {
                Some(None)
            } else {
                Some(Some(lowercase_of(t)))
            }
        },
    }
}

impl WatchDebugConfig {
    /// Reads the setting from the value of the watcher-debug variable (`None` when unset).
    pub fn from_value(value: Option<&str>) -> (r: Option<WatchDebugConfig>)
        ensures
            match r {
                None => debug_setting(crate::types::opt_str_view(value)) is None,
                Some(c) => debug_setting(crate::types::opt_str_view(value)) == Some(crate::types::opt_view(c.analyzer_filter)),
            },
    {
        match value {
            None => None,
            Some(v) => {
                let cs = chars_of(v);
                let t = trim_chars(&cs);
                let ts = string_of(&t);
                if t.len() == 0 || str_eq(ts.as_str(), "1") || eq_ignore_ascii_case(ts.as_str(), "true")
                    || eq_ignore_ascii_case(ts.as_str(), "all") {
                    Some(WatchDebugConfig { analyzer_filter: None })
                } else {
                    Some(WatchDebugConfig { analyzer_filter: Some(lowercase(ts.as_str())) })
                }
            },
        }
    }

    /// Whether activity of the analyzer named `analyzer_name` is logged.
    pub fn matches(&self, analyzer_name: &str) -> (r: bool)
        ensures
            r == match self.analyzer_filter {
                Some(f) => contains_text(lowercase_of(analyzer_name@), f@),
                None => true,
            },
    {
        match &self.analyzer_filter {
            Some(f) => {
                let low = lowercase(analyzer_name);
                text_contains(low.as_str(), f.as_str())
            },
            None => true,
        }
    }
}

/// The change notices waiting to become reloads, and when each analyzer was last reloaded.
/// Times are milliseconds of a monotonic clock.
#[derive(Debug, Clone)]
pub struct ReloadBatcher {
    /// Analyzers with a change notice in the current batch, each once.
    pub pending: Vec<String>,
    /// When the first notice of the current batch came.
    pub batch_start: Option<u64>,
    /// The last reload of each analyzer reloaded so far.
    pub last_reload: Vec<(String, u64)>,
}

/// How long a batch collects notices before its reloads run.
pub const BATCH_WINDOW_MS: u64 = 500;

/// The least time between two reloads of one analyzer.
pub const RELOAD_DEBOUNCE_MS: u64 = 2000;

/// The names of `v`.
pub open spec fn names_of(v: Seq<String>) -> Seq<Seq<char>> {
    v.map_values(|x: String| x@)
}

/// The last reload time recorded for `name`, if any (the first entry for it).
pub open spec fn reload_time(log: Seq<(String, u64)>, name: Seq<char>) -> Option<u64>
    decreases log.len(),
{
    if log.len() == 0 {
        None
    } else if log[0].0@ == name {
        Some(log[0].1)
    } else {
        reload_time(log.drop_first(), name)
    }
}

/// Whether an analyzer last reloaded at `last` may be reloaded again at `now`.
pub open spec fn reload_allowed(last: Option<u64>, now: u64) -> bool {
    match last {
        Some(t) => now >= t && now - t >= RELOAD_DEBOUNCE_MS || now < t && false,
        None => true,
    }
}

impl ReloadBatcher {
    /// No notices and no reloads yet.
    pub fn new() -> (r: Self)
        ensures
            r.pending@.len() == 0,
            r.batch_start is None,
            r.last_reload@.len() == 0,
    {
        ReloadBatcher { pending: Vec::new(), batch_start: None, last_reload: Vec::new() }
    }

    /// Notes a change of analyzer `name` at time `now`: it joins the batch (once), and the batch
    /// starts now if none was running.
    pub fn note_change(&mut self, name: String, now: u64)
        ensures
            names_of(final(self).pending@) == if names_of(old(self).pending@).contains(name@) {
                names_of(old(self).pending@)
            } else {
                names_of(old(self).pending@).push(name@)
            },
            final(self).batch_start == match old(self).batch_start {
                Some(t) => Some(t),
                None => Some(now),
            },
            final(self).last_reload == old(self).last_reload,
    {
        let seen = listed_in(&self.pending, name.as_str());
        if !seen {
            let ghost nv = names_of(self.pending@);
            self.pending.push(name);
            assert(names_of(self.pending@) =~= nv.push(name@));
        }
        if self.batch_start.is_none() {
            self.batch_start = Some(now);
        }
    }

    /// At time `now`, whether the batch window has passed.
    pub open spec fn batch_due(self, now: u64) -> bool {
        match self.batch_start {
            Some(t) => now >= t && now - t >= BATCH_WINDOW_MS,
            None => false,
        }
    }

    /// At time `now`, ends the batch when its window has passed: hands back, in order, the
    /// pending analyzers not reloaded within the debounce time, records `now` as their reload
    /// time, and empties the batch. Before the window has passed nothing changes.
    pub fn take_due(&mut self, now: u64) -> (r: Vec<String>)
        requires
            names_of(old(self).pending@).no_duplicates(),
        ensures
            !old(self).batch_due(now) ==> r@.len() == 0 && *final(self) == *old(self),
            old(self).batch_due(now) ==> {
                &&& final(self).pending@.len() == 0
                &&& final(self).batch_start is None
                &&& names_of(r@) == names_of(old(self).pending@).filter(
                    |n: Seq<char>| reload_allowed(reload_time(old(self).last_reload@, n), now),
                )
                &&& forall|n: Seq<char>| #[trigger] reload_time(final(self).last_reload@, n) == if names_of(r@).contains(n) {
                    Some(now)
                } else {
                    reload_time(old(self).last_reload@, n)
                }
            },
    {
        let due = match self.batch_start {
            Some(t) => now >= t && now - t >= BATCH_WINDOW_MS,
            None => false,
        };
        if !due {
            return Vec::new();
        }
        let ghost old_log = self.last_reload@;
        let ghost pend = names_of(self.pending@);
        let mut out: Vec<String> = Vec::new();
        let mut i: usize = 0;
        while i < self.pending.len()
            invariant
                i <= self.pending@.len(),
                pend == names_of(self.pending@),
                pend.no_duplicates(),
                forall|k: int| 0 <= k < out@.len() ==> pend.take(i as int).contains(#[trigger] names_of(out@)[k]),
                names_of(out@) == pend.take(i as int).filter(|n: Seq<char>| reload_allowed(reload_time(old_log, n), now)),
                forall|n: Seq<char>| #[trigger] reload_time(self.last_reload@, n) == if names_of(out@).contains(n) {
                    Some(now)
                } else {
                    reload_time(old_log, n)
                },
            decreases self.pending@.len() - i,
        {
            let name = &self.pending[i];
            let last = lookup_reload(&self.last_reload, name.as_str());
            assert(pend[i as int] == name@);
            assert(!names_of(out@).contains(name@)) by {
                if names_of(out@).contains(name@) {
                    let k = choose|k: int| 0 <= k < names_of(out@).len() && names_of(out@)[k] == name@;
                    assert(pend.take(i as int).contains(name@));
                    let m = choose|m: int| 0 <= m < i && pend.take(i as int)[m] == name@;
                    assert(pend[m] == pend[i as int]);
                }
            }
            proof {
                lemma_reload_time_after_stamp(old_log, self.last_reload@, names_of(out@), name@, now);
                reveal(Seq::filter);
            }
            let allowed = match last {
                Some(t) => now >= t && now - t >= RELOAD_DEBOUNCE_MS,
                None => true,
            };
            assert(pend.take(i as int + 1).drop_last() =~= pend.take(i as int));
            assert(pend.take(i as int + 1).last() == name@);
            if allowed {
                let ghost ov = names_of(out@);
                out.push(name.clone());
                let ghost log_before = self.last_reload@;
                self.last_reload.insert(0, (name.clone(), now));
                assert(names_of(out@) =~= ov.push(name@));
                assert(self.last_reload@[0].0@ == name@ && self.last_reload@[0].1 == now);
                assert forall|k: int| 0 <= k < out@.len() implies pend.take(i as int + 1).contains(#[trigger] names_of(out@)[k]) by {
                    if k < ov.len() {
                        assert(names_of(out@)[k] == ov[k]);
                        let m = choose|m: int| 0 <= m < i && pend.take(i as int)[m] == ov[k];
                        assert(pend.take(i as int + 1)[m] == ov[k]);
                    } else {
                        assert(pend.take(i as int + 1)[i as int] == name@);
                    }
                }
                assert forall|n: Seq<char>| #[trigger] reload_time(self.last_reload@, n) == if names_of(out@).contains(n) {
                    Some(now)
                } else {
                    reload_time(old_log, n)
                } by {
                    let nm = self.last_reload@[0].0;
                    lemma_reload_time_front(log_before, nm, now, n);
                    assert(self.last_reload@ =~= log_before.insert(0, (nm, now)));
                    lemma_reload_time_after_stamp(old_log, log_before, ov, n, now);
                    if n != name@ {
                        assert(names_of(out@).contains(n) == ov.contains(n)) by {
                            if names_of(out@).contains(n) {
                                let k = choose|k: int| 0 <= k < names_of(out@).len() && names_of(out@)[k] == n;
                                assert(k < ov.len());
                                assert(ov[k] == n);
                            }
                            if ov.contains(n) {
                                let k = choose|k: int| 0 <= k < ov.len() && ov[k] == n;
                                assert(names_of(out@)[k] == n);
                            }
                        }
                    } else {
                        assert(names_of(out@)[ov.len() as int] == n);
                    }
                }
            }
            else {
                assert forall|k: int| 0 <= k < out@.len() implies pend.take(i as int + 1).contains(#[trigger] names_of(out@)[k]) by {
                    let m = choose|m: int| 0 <= m < i && pend.take(i as int)[m] == names_of(out@)[k];
                    assert(pend.take(i as int + 1)[m] == names_of(out@)[k]);
                }
            }
            i = i + 1;
        }
        assert(pend.take(self.pending@.len() as int) =~= pend);
        self.pending = Vec::new();
        self.batch_start = None;
        out
    }
}

proof fn lemma_reload_time_front(log: Seq<(String, u64)>, nm: String, t: u64, n: Seq<char>)
    ensures
        reload_time(log.insert(0, (nm, t)), n) == if n == nm@ { Some(t) } else { reload_time(log, n) },
{
    let l = log.insert(0, (nm, t));
    assert(l[0] == (nm, t));
    assert(l.drop_first() =~= log);
}

proof fn lemma_reload_time_after_stamp(old_log: Seq<(String, u64)>, log: Seq<(String, u64)>, stamped: Seq<Seq<char>>, name: Seq<char>, now: u64)
    requires
        forall|n: Seq<char>| #[trigger] reload_time(log, n) == if stamped.contains(n) { Some(now) } else { reload_time(old_log, n) },
    ensures
        reload_time(log, name) == if stamped.contains(name) { Some(now) } else { reload_time(old_log, name) },
{
}

fn lookup_reload(log: &Vec<(String, u64)>, name: &str) -> (r: Option<u64>)
    ensures
        r == reload_time(log@, name@),
{
    let mut k: usize = 0;
    assert(log@.skip(0) =~= log@);
    while k < log.len()
        invariant
            k <= log@.len(),
            reload_time(log@, name@) == reload_time(log@.skip(k as int), name@),
        decreases log@.len() - k,
    {
        assert(log@.skip(k as int)[0] == log@[k as int]);
        if str_eq(log[k].0.as_str(), name) {
            return Some(log[k].1);
        }
        assert(log@.skip(k as int).drop_first() =~= log@.skip(k as int + 1));
        k = k + 1;
    }
    None
}

/// How often the Codex CLI logs are polled, which the watcher cannot see change reliably.
pub const POLL_INTERVAL_MS: u64 = 5000;

/// Whether the Codex CLI logs are due for polling at `now`, when they were last polled at
/// `last_poll`.
pub fn poll_due(last_poll: u64, now: u64) -> (r: bool)
    ensures
        r == (now >= last_poll && now - last_poll >= POLL_INTERVAL_MS),
{
    now >= last_poll && now - last_poll >= POLL_INTERVAL_MS
}

/// The position of the first analyzer named `name` among the first `n` of `stats`.
pub open spec fn first_named(stats: Seq<AgenticCodingToolStats>, name: Seq<char>, n: int) -> Option<int>
    decreases n,
{
    if n <= 0 {
        None
    } else {
        match first_named(stats, name, n - 1) {
            Some(i) => Some(i),
            None => if stats[n - 1].analyzer_name@ == name {
                Some(n - 1)
            } else {
                None
            },
        }
    }
}

/// Puts the freshly computed figures of one analyzer in place of that analyzer's old ones (the
/// first with its name), or after the others when it had none.
pub fn replace_analyzer_stats(current: &mut Vec<AgenticCodingToolStats>, fresh: AgenticCodingToolStats)
    ensures
        final(current)@ == match first_named(old(current)@, fresh.analyzer_name@, old(current)@.len() as int) {
            Some(i) => old(current)@.update(i, fresh),
            None => old(current)@.push(fresh),
        },
{
    let mut i: usize = 0;
    while i < current.len()
        invariant
            i <= current@.len(),
            current@ == old(current)@,
            first_named(current@, fresh.analyzer_name@, i as int) is None,
        decreases current@.len() - i,
    {
        if str_eq(current[i].analyzer_name.as_str(), fresh.analyzer_name.as_str()) {
            assert(first_named(current@, fresh.analyzer_name@, i as int + 1) == Some(i as int));
            proof {
                lemma_first_named_stable(current@, fresh.analyzer_name@, i as int + 1, current@.len() as int);
            }
            current.set(i, fresh);
            return;
        }
        i = i + 1;
    }
    current.push(fresh);
}

proof fn lemma_first_named_stable(stats: Seq<AgenticCodingToolStats>, name: Seq<char>, n: int, m: int)
    requires
        n <= m,
        first_named(stats, name, n) is Some,
    ensures
        first_named(stats, name, m) == first_named(stats, name, n),
    decreases m - n,
{
    if n < m {
        lemma_first_named_stable(stats, name, n, m - 1);
    }
}

/// A notice joins its batch once however often it comes, and a batch is emptied when it ends.
pub proof fn law_batch_holds_each_analyzer_once(pending: Seq<Seq<char>>, name: Seq<char>)
    ensures
        (if pending.contains(name) { pending } else { pending.push(name) }).contains(name),
        pending.no_duplicates() ==> (if pending.contains(name) { pending } else { pending.push(name) }).no_duplicates(),
{
    if pending.no_duplicates() && !pending.contains(name) {
        let q = pending.push(name);
        assert forall|i: int, j: int| 0 <= i < q.len() && 0 <= j < q.len() && i != j implies q[i] != q[j] by {
            if i < pending.len() && j < pending.len() {
            } else if i < pending.len() {
                assert(pending.contains(q[i]));
            } else {
                assert(pending.contains(q[j]));
            }
        }
    }
    if !pending.contains(name) {
        assert(pending.push(name)[pending.len() as int] == name);
    }
}

/// An analyzer reloaded at `now` is not reloaded again before the debounce time has passed.
pub proof fn law_reloads_are_debounced(now: u64, later: u64)
    requires
        later < now + RELOAD_DEBOUNCE_MS,
    ensures
        !reload_allowed(Some(now), later),
{
}

/// The least time, in milliseconds, between two uploads a reload starts.
pub const UPLOAD_DEBOUNCE_MS: u64 = 3000;

/// How long, in milliseconds, to wait before uploading again the changes that came during an
/// upload.
pub const UPLOAD_AGAIN_MS: u64 = 1000;

/// What live mode knows of its uploads: whether one is running, whether changes wait for the
/// next, and when (milliseconds on a monotonic clock) the last one started.
#[derive(Debug, Clone, Copy, Default, PartialEq, Eq, Structural)]
pub struct UploadScheduler {
    pub in_progress: bool,
    pub pending: bool,
    pub last_start: Option<u64>,
}

/// What a reload does about uploading.
#[derive(Debug, Clone, Copy, PartialEq, Eq, Structural)]
pub enum UploadStep {
    /// Nothing: auto-upload is off.
    Skip,
    /// Nothing now; the changes go with the next upload.
    Queue,
    /// Upload after waiting this many milliseconds, if still wanted then.
    StartAfter(u64),
    /// Upload now.
    StartNow,
}

/// Milliseconds from `earlier` to `now`, zero when `now` is earlier.
pub open spec fn elapsed(earlier: u64, now: u64) -> int {
    if now >= earlier { now - earlier } else { 0 }
}

/// What a reload at `now` does about uploading, and the scheduler after it: nothing when
/// auto-upload is off (`enabled` false); the changes queued while an upload runs; a wait for
/// what remains of the debounce time after the last start, the changes pending; else an
/// upload started now.
pub open spec fn reload_step(s: UploadScheduler, enabled: bool, now: u64) -> (UploadStep, UploadScheduler) {
    if !enabled {
        (UploadStep::Skip, s)
    } else if s.in_progress {
        (UploadStep::Queue, UploadScheduler { pending: true, ..s })
    } else if s.last_start matches Some(t) && elapsed(t, now) < UPLOAD_DEBOUNCE_MS {
        (UploadStep::StartAfter((UPLOAD_DEBOUNCE_MS - elapsed(s.last_start->0, now)) as u64), UploadScheduler { pending: true, ..s })
    } else {
        (UploadStep::StartNow, UploadScheduler { in_progress: true, last_start: Some(now), ..s })
    }
}

impl UploadScheduler {
    pub fn new() -> (r: UploadScheduler)
        ensures
            r == (UploadScheduler { in_progress: false, pending: false, last_start: None }),
    {
        UploadScheduler { in_progress: false, pending: false, last_start: None }
    }

    /// A reload at `now` with auto-upload `enabled` (and the configuration complete); see
    /// `reload_step`.
    pub fn on_reload(&mut self, enabled: bool, now: u64) -> (step: UploadStep)
        ensures
            (step, *final(self)) == reload_step(*old(self), enabled, now),
    {
        if !enabled {
            return UploadStep::Skip;
        }
        if self.in_progress {
            self.pending = true;
            return UploadStep::Queue;
        }
        if let Some(t) = self.last_start {
            let gone = if now >= t { now - t } else { 0 };
            if gone < UPLOAD_DEBOUNCE_MS {
                self.pending = true;
                return UploadStep::StartAfter(UPLOAD_DEBOUNCE_MS - gone);
            }
        }
        self.last_start = Some(now);
        self.in_progress = true;
        UploadStep::StartNow
    }

    /// The end of a wait (see `UploadStep::StartAfter`): the upload runs only if changes are
    /// still pending, which it takes; it is then in progress.
    pub fn on_wait_over(&mut self) -> (run: bool)
        ensures
            run == old(self).pending,
            *final(self) == (UploadScheduler {
                pending: false,
                in_progress: if old(self).pending { true } else { old(self).in_progress },
                ..*old(self)
            }),
    {
        let run = self.pending;
        self.pending = false;
        if run {
            self.in_progress = true;
        }
        run
    }

    /// The end of an upload a reload started at once: no longer in progress, and whether the
    /// changes that came meanwhile are uploaded again (after `UPLOAD_AGAIN_MS`), which takes
    /// them.
    pub fn on_upload_done(&mut self) -> (again: bool)
        ensures
            again == old(self).pending,
            *final(self) == (UploadScheduler { in_progress: false, pending: false, ..*old(self) }),
    {
        let again = self.pending;
        self.in_progress = false;
        self.pending = false;
        again
    }

    /// The end of an upload after a wait, or of a manual one: no longer in progress.
    pub fn on_other_upload_done(&mut self)
        ensures
            *final(self) == (UploadScheduler { in_progress: false, ..*old(self) }),
    {
        self.in_progress = false;
    }

    /// A manual upload at `now`, when the configuration is complete and there is something to
    /// upload (`ready`): refused while one runs; else started.
    pub fn on_manual(&mut self, ready: bool, now: u64) -> (start: bool)
        ensures
            start == (!old(self).in_progress && ready),
            start ==> *final(self) == (UploadScheduler { in_progress: true, last_start: Some(now), ..*old(self) }),
            !start ==> *final(self) == *old(self),
    {
        if self.in_progress || !ready {
            return false;
        }
        self.in_progress = true;
        self.last_start = Some(now);
        true
    }
}

/// A reload never starts an upload while another runs.
pub proof fn law_no_upload_starts_during_another(s: UploadScheduler, enabled: bool, now: u64)
    requires
        s.in_progress,
    ensures
        reload_step(s, enabled, now).0 != UploadStep::StartNow,
{
}

/// Uploads that reloads start at once are at least the debounce time apart, and each is in
/// progress once started.
pub proof fn law_reload_uploads_are_debounced(s: UploadScheduler, enabled: bool, now: u64)
    requires
        reload_step(s, enabled, now).0 == UploadStep::StartNow,
    ensures
        s.last_start matches Some(t) ==> elapsed(t, now) >= UPLOAD_DEBOUNCE_MS,
        reload_step(s, enabled, now).1.in_progress,
        reload_step(s, enabled, now).1.last_start == Some(now),
{
}

/// Changes that come while an upload runs are not lost: they wait, pending, for the next.
pub proof fn law_changes_during_upload_wait(s: UploadScheduler, now: u64)
    requires
        s.in_progress,
    ensures
        reload_step(s, true, now).1.pending,
{
}

} // verus!
