//! Per-file bookkeeping for append-only JSONL sources.
//!
//! For every file it has read, the cache remembers the file's length and modification time when
//! it was last read, how many bytes of complete lines have been handed to the parser, the
//! parser's state, and the messages produced so far. On a reload it decides, from a fresh `stat`,
//! whether a file can be reused as it is, continued from where parsing stopped, or must be read
//! from the start; the reading itself happens outside.
use vstd::prelude::*;
use std::sync::Arc;
use crate::analyzer::DataSource;
use crate::json::str_eq;
use crate::time::Timestamp;
use crate::types::ConversationMessage;

verus! {

/// What a `stat` of a source file shows: its length, and its modification time where the
/// platform reports one.
#[derive(Clone, Copy, Debug)]
pub struct FileStamp {
    pub len: u64,
    pub modified: Option<Timestamp>,
}

/// Whether two stamps are the same length and modification time.
pub fn same_stamp(a: &FileStamp, b: &FileStamp) -> (r: bool)
    ensures
        r == (*a == *b),
{
    if a.len != b.len {
        return false;
    }
    match (a.modified, b.modified) {
        (Some(x), Some(y)) => x.secs == y.secs && x.nanos == y.nanos,
        (None, None) => true,
        _ => false,
    }
}

/// What the cache holds for one file.
pub struct CachedFile<S> {
    /// The file's stamp when it was last read.
    pub stamp: FileStamp,
    /// Byte offset just past the last complete line handed to the parser.
    pub parsed_bytes: u64,
    /// Parser state carried across appends.
    pub state: S,
    /// Every message the file has produced so far, shared with whoever received it.
    pub messages: Arc<Vec<ConversationMessage>>,
}

/// What a reload must do with one listed file.
#[derive(Clone, Copy, Debug, PartialEq, Eq, Structural)]
pub enum RefreshStep {
    /// The file cannot be stat'ed: forget it.
    Missing,
    /// Same length and modification time as last read: reuse its messages without opening it.
    Unchanged,
    /// The file is at least as long as what was parsed: parse on from this byte offset, with the
    /// carried parser state.
    Resume(u64),
    /// A new file, or one now shorter than what was parsed: parse it from the start with fresh
    /// state.
    Restart,
}

/// The cached entry for `path` in `m`, if any.
pub open spec fn lookup<S>(m: Map<Seq<char>, CachedFile<S>>, path: Seq<char>) -> Option<CachedFile<S>> {
    if m.dom().contains(path) {
        Some(m[path])
    } else {
        None
    }
}

/// The step for a file whose cached entry is `cached` and whose `stat` gave `stamp` (`None` when
/// it failed).
pub open spec fn step_for<S>(cached: Option<CachedFile<S>>, stamp: Option<FileStamp>) -> RefreshStep {
    match stamp {
        None => RefreshStep::Missing,
        Some(st) => match cached {
            Some(e) => if e.stamp == st {
                RefreshStep::Unchanged
            } else if st.len >= e.parsed_bytes {
                RefreshStep::Resume(e.parsed_bytes)
            } else {
                RefreshStep::Restart
            },
            None => RefreshStep::Restart,
        },
    }
}

/// The entries of `s` as a map from path to entry.
pub open spec fn keyed<S>(s: Seq<(String, CachedFile<S>)>) -> Map<Seq<char>, CachedFile<S>> {
    Map::new(
        |p: Seq<char>| exists|i: int| 0 <= i < s.len() && s[i].0@ == p,
        |p: Seq<char>| s[choose|i: int| 0 <= i < s.len() && s[i].0@ == p].1,
    )
}

/// No two entries of `s` are for the same path.
pub open spec fn distinct_keys<S>(s: Seq<(String, CachedFile<S>)>) -> bool {
    forall|i: int, j: int|
        0 <= i < s.len() && 0 <= j < s.len() && i != j ==> #[trigger] s[i].0@ != #[trigger] s[j].0@
}

proof fn lemma_keyed_at<S>(s: Seq<(String, CachedFile<S>)>, i: int)
    requires
        distinct_keys(s),
        0 <= i < s.len(),
    ensures
        keyed(s).dom().contains(s[i].0@),
        keyed(s)[s[i].0@] == s[i].1,
{
    let p = s[i].0@;
    assert(keyed(s).dom().contains(p));
    let j = choose|j: int| 0 <= j < s.len() && s[j].0@ == p;
    assert(s[j].0@ == p);
}

proof fn lemma_keyed_push<S>(s: Seq<(String, CachedFile<S>)>, e: (String, CachedFile<S>))
    requires
        distinct_keys(s),
        !keyed(s).dom().contains(e.0@),
    ensures
        distinct_keys(s.push(e)),
        keyed(s.push(e)) == keyed(s).insert(e.0@, e.1),
{
    let t = s.push(e);
    assert forall|i: int, j: int|
        0 <= i < t.len() && 0 <= j < t.len() && i != j implies #[trigger] t[i].0@ != #[trigger] t[j].0@ by {
        if i < s.len() && j < s.len() {
            assert(t[i] == s[i] && t[j] == s[j]);
        } else if i < s.len() {
            assert(t[i] == s[i]);
            assert(keyed(s).dom().contains(s[i].0@));
        } else {
            assert(t[j] == s[j]);
            assert(keyed(s).dom().contains(s[j].0@));
        }
    }
    assert forall|p: Seq<char>| #[trigger] keyed(t).dom().contains(p) == keyed(s).insert(e.0@, e.1).dom().contains(p) by {
        if keyed(t).dom().contains(p) {
            let i = choose|i: int| 0 <= i < t.len() && t[i].0@ == p;
            if i < s.len() {
                assert(t[i] == s[i]);
                assert(keyed(s).dom().contains(p));
            }
        }
        if keyed(s).dom().contains(p) {
            let i = choose|i: int| 0 <= i < s.len() && s[i].0@ == p;
            assert(t[i] == s[i]);
        }
        if p == e.0@ {
            assert(t[s.len() as int] == e);
        }
    }
    assert forall|p: Seq<char>| #[trigger] keyed(t).dom().contains(p) implies keyed(t)[p]
        == keyed(s).insert(e.0@, e.1)[p] by {
        let i = choose|i: int| 0 <= i < t.len() && t[i].0@ == p;
        lemma_keyed_at(t, i);
        if i < s.len() {
            assert(t[i] == s[i]);
            lemma_keyed_at(s, i);
        } else {
            assert(t[i] == e);
        }
    }
    assert(keyed(t) =~= keyed(s).insert(e.0@, e.1));
}

proof fn lemma_keyed_remove<S>(s: Seq<(String, CachedFile<S>)>, k: int)
    requires
        distinct_keys(s),
        0 <= k < s.len(),
    ensures
        distinct_keys(s.remove(k)),
        keyed(s.remove(k)) == keyed(s).remove(s[k].0@),
{
    let t = s.remove(k);
    let q = s[k].0@;
    assert forall|i: int| 0 <= i < t.len() implies #[trigger] t[i] == s[if i < k { i } else { i + 1 }] by {}
    assert forall|i: int, j: int|
        0 <= i < t.len() && 0 <= j < t.len() && i != j implies #[trigger] t[i].0@ != #[trigger] t[j].0@ by {
        assert(t[i] == s[if i < k { i } else { i + 1 }]);
        assert(t[j] == s[if j < k { j } else { j + 1 }]);
    }
    assert forall|p: Seq<char>| #[trigger] keyed(t).dom().contains(p) == keyed(s).remove(q).dom().contains(p) by {
        if keyed(t).dom().contains(p) {
            let i = choose|i: int| 0 <= i < t.len() && t[i].0@ == p;
            let si = if i < k { i } else { i + 1 };
            assert(t[i] == s[si]);
            assert(keyed(s).dom().contains(p));
            assert(si != k);
            assert(s[si].0@ != s[k].0@);
        }
        if keyed(s).dom().contains(p) && p != q {
            let i = choose|i: int| 0 <= i < s.len() && s[i].0@ == p;
            assert(i != k);
            let ti = if i < k { i } else { i - 1 };
            assert(t[ti] == s[i]);
        }
    }
    assert forall|p: Seq<char>| #[trigger] keyed(t).dom().contains(p) implies keyed(t)[p]
        == keyed(s).remove(q)[p] by {
        let i = choose|i: int| 0 <= i < t.len() && t[i].0@ == p;
        lemma_keyed_at(t, i);
        let si = if i < k { i } else { i + 1 };
        assert(t[i] == s[si]);
        lemma_keyed_at(s, si);
    }
    assert(keyed(t) =~= keyed(s).remove(q));
}

proof fn lemma_keyed_len<S>(s: Seq<(String, CachedFile<S>)>)
    requires
        distinct_keys(s),
    ensures
        keyed(s).dom().finite(),
        keyed(s).dom().len() == s.len(),
    decreases s.len(),
{
    if s.len() == 0 {
        assert(keyed(s).dom() =~= Set::empty());
    } else {
        let k = (s.len() - 1) as int;
        lemma_keyed_remove(s, k);
        lemma_keyed_len(s.remove(k));
        lemma_keyed_at(s, k);
    }
}

/// The files a cache has read, with what it knows of each.
pub struct IncrementalJsonlCache<S> {
    files: Vec<(String, CachedFile<S>)>,
}

impl<S> View for IncrementalJsonlCache<S> {
    type V = Map<Seq<char>, CachedFile<S>>;

    closed spec fn view(&self) -> Map<Seq<char>, CachedFile<S>> {
        keyed(self.files@)
    }
}

impl<S> IncrementalJsonlCache<S> {
    #[verifier::type_invariant]
    spec fn one_entry_per_path(&self) -> bool {
        distinct_keys(self.files@)
    }

    /// An empty cache.
    pub fn new() -> (r: Self)
        ensures
            r@ == Map::<Seq<char>, CachedFile<S>>::empty(),
    {
        let r = IncrementalJsonlCache { files: Vec::new() };
        assert(r@ =~= Map::<Seq<char>, CachedFile<S>>::empty());
        r
    }

    /// How many files the cache holds.
    pub fn len(&self) -> (r: usize)
        ensures
            self@.dom().finite(),
            r == self@.dom().len(),
    {
        proof {
            use_type_invariant(self);
            lemma_keyed_len(self.files@);
        }
        self.files.len()
    }

    fn position(&self, path: &str) -> (r: Option<usize>)
        ensures
            match r {
                Some(i) => i < self.files@.len() && self.files@[i as int].0@ == path@,
                None => !self@.dom().contains(path@),
            },
    {
        position_in(&self.files, path)
    }

    /// What a reload must do with `path`, whose `stat` gave `stamp` (`None` when it failed).
    pub fn plan(&self, path: &str, stamp: Option<FileStamp>) -> (r: RefreshStep)
        ensures
            r == step_for(lookup(self@, path@), stamp),
    {
        proof {
            use_type_invariant(self);
        }
        let st = match stamp {
            None => return RefreshStep::Missing,
            Some(st) => st,
        };
        match self.position(path) {
            None => RefreshStep::Restart,
            Some(i) => {
                proof {
                    lemma_keyed_at(self.files@, i as int);
                }
                let e = &self.files[i].1;
                if same_stamp(&e.stamp, &st) {
                    RefreshStep::Unchanged
                } else if st.len >= e.parsed_bytes {
                    RefreshStep::Resume(e.parsed_bytes)
                } else {
                    RefreshStep::Restart
                }
            },
        }
    }

    /// Another handle on the messages cached for `path`; nothing is copied.
    pub fn chunk(&self, path: &str) -> (r: Option<Arc<Vec<ConversationMessage>>>)
        ensures
            match r {
                Some(c) => self@.dom().contains(path@) && c@ == self@[path@].messages@,
                None => !self@.dom().contains(path@),
            },
    {
        proof {
            use_type_invariant(self);
        }
        match self.position(path) {
            None => None,
            Some(i) => {
                proof {
                    lemma_keyed_at(self.files@, i as int);
                }
                Some(share(&self.files[i].1.messages))
            },
        }
    }

    /// Removes and hands back the entry for `path`, if there is one.
    pub fn take(&mut self, path: &str) -> (r: Option<CachedFile<S>>)
        ensures
            r == lookup(old(self)@, path@),
            final(self)@ == old(self)@.remove(path@),
    {
        proof {
            use_type_invariant(&*self);
        }
        let mut files: Vec<(String, CachedFile<S>)> = Vec::new();
        std::mem::swap(&mut files, &mut self.files);
        let r = take_entry(&mut files, path);
        self.files = files;
        r
    }

    /// Forgets `path`.
    pub fn forget(&mut self, path: &str)
        ensures
            final(self)@ == old(self)@.remove(path@),
    {
        let _ = self.take(path);
    }

    /// Records `entry` for `path`, replacing what was there.
    pub fn keep(&mut self, path: String, entry: CachedFile<S>)
        ensures
            final(self)@ == old(self)@.insert(path@, entry),
    {
        let _ = self.take(path.as_str());
        proof {
            use_type_invariant(&*self);
        }
        let mut files: Vec<(String, CachedFile<S>)> = Vec::new();
        std::mem::swap(&mut files, &mut self.files);
        proof {
            lemma_keyed_push(files@, (path, entry));
        }
        files.push((path, entry));
        self.files = files;
    }

    /// Forgets every file that is not among `live`, and says how many were forgotten.
    pub fn retain_live(&mut self, live: &[String]) -> (removed: usize)
        ensures
            final(self)@ == old(self)@.restrict(listed(live@)),
            old(self)@.dom().finite(),
            final(self)@.dom().finite(),
            removed == old(self)@.dom().len() - final(self)@.dom().len(),
    {
        proof {
            use_type_invariant(&*self);
        }
        let mut files: Vec<(String, CachedFile<S>)> = Vec::new();
        std::mem::swap(&mut files, &mut self.files);
        let removed = retain_entries(&mut files, live);
        self.files = files;
        removed
    }
}

fn retain_entries<S>(files: &mut Vec<(String, CachedFile<S>)>, live: &[String]) -> (removed: usize)
    requires
        distinct_keys(old(files)@),
    ensures
        distinct_keys(final(files)@),
        keyed(final(files)@) == keyed(old(files)@).restrict(listed(live@)),
        keyed(old(files)@).dom().finite(),
        keyed(final(files)@).dom().finite(),
        removed == keyed(old(files)@).dom().len() - keyed(final(files)@).dom().len(),
{
    proof {
        lemma_keyed_len(files@);
    }
    let ghost before = files@;
    let ghost live_set = listed(live@);
    let mut i: usize = files.len();
    let mut removed: usize = 0;
    while i > 0
        invariant
            i <= files@.len(),
            before.len() <= usize::MAX,
            distinct_keys(before),
            distinct_keys(files@),
            files@.take(i as int) == before.take(i as int),
            removed == before.len() - files@.len(),
            live_set == listed(live@),
            keyed(files@) == keyed(before).restrict(
                Set::new(|p: Seq<char>| live_set.contains(p) || exists|j: int| 0 <= j < i && before[j].0@ == p),
            ),
        decreases i,
    {
        i = i - 1;
        assert(files@[i as int] == files@.take(i as int + 1)[i as int]);
        assert(before[i as int] == before.take(i as int + 1)[i as int]);
        let ghost prev = files@;
        let ghost key = before[i as int].0@;
        let keep_it = contains_str(live, files[i].0.as_str());
        let ghost old_set = Set::new(|p: Seq<char>| live_set.contains(p) || exists|j: int| 0 <= j < i + 1 && before[j].0@ == p);
        let ghost new_set = Set::new(|p: Seq<char>| live_set.contains(p) || exists|j: int| 0 <= j < i && before[j].0@ == p);
        assert(forall|p: Seq<char>| p != key ==> (old_set.contains(p) == new_set.contains(p)));
        assert(!(exists|j: int| 0 <= j < i && before[j].0@ == key)) by {
            if exists|j: int| 0 <= j < i && before[j].0@ == key {
                let j = choose|j: int| 0 <= j < i && before[j].0@ == key;
                assert(before[j].0@ != before[i as int].0@);
            }
        }
        if keep_it {
            assert(keyed(files@) =~= keyed(before).restrict(new_set));
        } else {
            proof {
                lemma_keyed_remove(prev, i as int);
            }
            files.remove(i);
            removed = removed + 1;
            assert(files@.take(i as int) =~= prev.take(i as int));
            assert(keyed(files@) =~= keyed(before).restrict(new_set));
        }
    }
    proof {
        let final_set = Set::new(|p: Seq<char>| live_set.contains(p) || exists|j: int| 0 <= j < 0 && before[j].0@ == p);
        assert(final_set =~= live_set);
        lemma_keyed_len(files@);
    }
    removed
}

fn take_entry<S>(files: &mut Vec<(String, CachedFile<S>)>, path: &str) -> (r: Option<CachedFile<S>>)
    requires
        distinct_keys(old(files)@),
    ensures
        distinct_keys(final(files)@),
        r == lookup(keyed(old(files)@), path@),
        keyed(final(files)@) == keyed(old(files)@).remove(path@),
{
    match position_in(files, path) {
        None => {
            assert(keyed(files@) =~= keyed(files@).remove(path@));
            None
        },
        Some(i) => {
            proof {
                lemma_keyed_at(files@, i as int);
                lemma_keyed_remove(files@, i as int);
            }
            let (_, entry) = files.remove(i);
            Some(entry)
        },
    }
}

fn position_in<S>(files: &Vec<(String, CachedFile<S>)>, path: &str) -> (r: Option<usize>)
    ensures
        match r {
            Some(i) => i < files@.len() && files@[i as int].0@ == path@,
            None => !keyed(files@).dom().contains(path@),
        },
{
    let mut i: usize = 0;
    while i < files.len()
        invariant
            i <= files@.len(),
            forall|j: int| 0 <= j < i ==> files@[j].0@ != path@,
        decreases files@.len() - i,
    {
        if str_eq(files[i].0.as_str(), path) {
            return Some(i);
        }
        i = i + 1;
    }
    None
}

/// The paths named in `live`.
pub open spec fn listed(live: Seq<String>) -> Set<Seq<char>> {
    Set::new(|p: Seq<char>| exists|i: int| 0 <= i < live.len() && live[i]@ == p)
}

fn contains_str(items: &[String], s: &str) -> (r: bool)
    ensures
        r == listed(items@).contains(s@),
{
    let mut i: usize = 0;
    while i < items.len()
        invariant
            i <= items@.len(),
            forall|j: int| 0 <= j < i ==> items@[j]@ != s@,
        decreases items@.len() - i,
    {
        if str_eq(items[i].as_str(), s) {
            return true;
        }
        i = i + 1;
    }
    false
}

/// `Arc::clone`: a second handle on the same allocation.
#[verifier::external_body]
fn share(chunk: &Arc<Vec<ConversationMessage>>) -> (r: Arc<Vec<ConversationMessage>>)
    ensures
        r@ == chunk@,
{
    Arc::clone(chunk)
}

/// `Arc::try_unwrap`: the value itself when this is its only handle, else the handle back.
#[verifier::external_body]
fn unshare(chunk: Arc<Vec<ConversationMessage>>) -> (r: Result<
    Vec<ConversationMessage>,
    Arc<Vec<ConversationMessage>>,
>)
    ensures
        match r {
            Ok(v) => v@ == chunk@,
            Err(a) => a@ == chunk@,
        },
{
    Arc::try_unwrap(chunk)
}

/// The entry after parsing appended lines: `consumed` more bytes parsed, `new_messages` added
/// after the earlier ones, and the new `stamp`. The messages are copied only where another handle
/// on them is still alive.
pub fn absorb<S>(
    entry: CachedFile<S>,
    stamp: FileStamp,
    new_messages: Vec<ConversationMessage>,
    consumed: u64,
) -> (r: CachedFile<S>)
    requires
        entry.parsed_bytes + consumed <= u64::MAX,
    ensures
        r.stamp == stamp,
        r.parsed_bytes == entry.parsed_bytes + consumed,
        r.state == entry.state,
        r.messages@ == entry.messages@ + new_messages@,
{
    let CachedFile { stamp: _, parsed_bytes, state, messages } = entry;
    let mut all = match unshare(messages) {
        Ok(v) => v,
        Err(shared) => copy_messages(&shared),
    };
    let mut new_messages = new_messages;
    let ghost earlier = all@;
    all.append(&mut new_messages);
    CachedFile { stamp, parsed_bytes: parsed_bytes + consumed, state, messages: Arc::new(all) }
}

fn copy_messages(messages: &Vec<ConversationMessage>) -> (r: Vec<ConversationMessage>)
    ensures
        r@ == messages@,
{
    let mut out: Vec<ConversationMessage> = Vec::new();
    let mut i: usize = 0;
    while i < messages.len()
        invariant
            i <= messages@.len(),
            out@ == messages@.take(i as int),
        decreases messages@.len() - i,
    {
        out.push(messages[i].duplicate());
        i = i + 1;
        assert(out@ =~= messages@.take(i as int));
    }
    assert(messages@.take(messages@.len() as int) =~= messages@);
    out
}

/// A fresh entry for a file parsed from its start.
pub fn fresh_entry<S>(stamp: FileStamp, state: S, messages: Vec<ConversationMessage>, consumed: u64) -> (r:
    CachedFile<S>)
    ensures
        r.stamp == stamp,
        r.parsed_bytes == consumed,
        r.state == state,
        r.messages@ == messages@,
{
    CachedFile { stamp, parsed_bytes: consumed, state, messages: Arc::new(messages) }
}

/// What a reload did with one file.
#[derive(Clone, Copy, Debug, PartialEq, Eq, Structural)]
pub enum Outcome {
    /// Reused without being opened.
    Unchanged,
    /// Parsed on from the previous offset; this many bytes were parsed.
    Appended(u64),
    /// Parsed from the start; this many bytes were parsed.
    Reparsed(u64),
    /// Could not be read: forgotten.
    Missing,
}

/// Counts of what a reload had to do.
#[derive(Debug, Clone, Copy, PartialEq, Eq, Structural)]
pub struct RefreshReport {
    pub unchanged: usize,
    pub appended: usize,
    pub reparsed: usize,
    pub removed: usize,
    /// Bytes handed to the parser during the reload.
    pub bytes_parsed: u64,
}

impl Default for RefreshReport {
    fn default() -> (r: Self)
        ensures
            r == (RefreshReport { unchanged: 0, appended: 0, reparsed: 0, removed: 0, bytes_parsed: 0 }),
    {
        RefreshReport { unchanged: 0, appended: 0, reparsed: 0, removed: 0, bytes_parsed: 0 }
    }
}

/// Which counter of a report an outcome adds to: 0 unchanged, 1 appended, 2 reparsed, 3 removed.
pub open spec fn outcome_kind(o: Outcome) -> int {
    match o {
        Outcome::Unchanged => 0,
        Outcome::Appended(_) => 1,
        Outcome::Reparsed(_) => 2,
        Outcome::Missing => 3,
    }
}

/// The bytes an outcome handed to the parser.
pub open spec fn outcome_bytes(o: Outcome) -> nat {
    match o {
        Outcome::Appended(n) => n as nat,
        Outcome::Reparsed(n) => n as nat,
        _ => 0,
    }
}

/// How many of `os` add to counter `k`.
pub open spec fn count_kind(os: Seq<Outcome>, k: int) -> nat
    decreases os.len(),
{
    if os.len() == 0 {
        0
    } else {
        count_kind(os.drop_last(), k) + if outcome_kind(os.last()) == k { 1nat } else { 0nat }
    }
}

/// The bytes all of `os` handed to the parser.
pub open spec fn bytes_total(os: Seq<Outcome>) -> nat
    decreases os.len(),
{
    if os.len() == 0 {
        0
    } else {
        bytes_total(os.drop_last()) + outcome_bytes(os.last())
    }
}

/// The outcomes of per-file results.
pub open spec fn outcomes(rs: Seq<(Arc<Vec<ConversationMessage>>, Outcome)>) -> Seq<Outcome> {
    rs.map_values(|r: (Arc<Vec<ConversationMessage>>, Outcome)| r.1)
}

/// The message lists of per-file results that are not empty, in order.
pub open spec fn kept_chunks(rs: Seq<(Arc<Vec<ConversationMessage>>, Outcome)>) -> Seq<Seq<ConversationMessage>>
    decreases rs.len(),
{
    if rs.len() == 0 {
        Seq::empty()
    } else if rs.last().0@.len() == 0 {
        kept_chunks(rs.drop_last())
    } else {
        kept_chunks(rs.drop_last()).push(rs.last().0@)
    }
}

/// The message lists of `chunks`.
pub open spec fn chunk_views(chunks: Seq<Arc<Vec<ConversationMessage>>>) -> Seq<Seq<ConversationMessage>> {
    chunks.map_values(|c: Arc<Vec<ConversationMessage>>| c@)
}

/// Gathers the per-file results of a reload, in source order: the non-empty message lists
/// (an empty one carries nothing downstream), and the counts of what was done.
pub fn gather(results: &Vec<(Arc<Vec<ConversationMessage>>, Outcome)>) -> (r: (
    Vec<Arc<Vec<ConversationMessage>>>,
    RefreshReport,
))
    requires
        bytes_total(outcomes(results@)) <= u64::MAX,
    ensures
        chunk_views(r.0@) == kept_chunks(results@),
        r.1.unchanged == count_kind(outcomes(results@), 0),
        r.1.appended == count_kind(outcomes(results@), 1),
        r.1.reparsed == count_kind(outcomes(results@), 2),
        r.1.removed == count_kind(outcomes(results@), 3),
        r.1.bytes_parsed == bytes_total(outcomes(results@)),
{
    let mut report = RefreshReport::default();
    let mut chunks: Vec<Arc<Vec<ConversationMessage>>> = Vec::new();
    let mut i: usize = 0;
    while i < results.len()
        invariant
            i <= results@.len(),
            bytes_total(outcomes(results@)) <= u64::MAX,
            chunk_views(chunks@) == kept_chunks(results@.take(i as int)),
            report.unchanged == count_kind(outcomes(results@.take(i as int)), 0),
            report.appended == count_kind(outcomes(results@.take(i as int)), 1),
            report.reparsed == count_kind(outcomes(results@.take(i as int)), 2),
            report.removed == count_kind(outcomes(results@.take(i as int)), 3),
            report.bytes_parsed == bytes_total(outcomes(results@.take(i as int))),
            report.unchanged + report.appended + report.reparsed + report.removed == i,
        decreases results@.len() - i,
    {
        let ghost pre = results@.take(i as int);
        let ghost now = results@.take(i as int + 1);
        assert(now.drop_last() =~= pre);
        assert(outcomes(now).drop_last() =~= outcomes(pre));
        assert(outcomes(now).last() == results@[i as int].1);
        proof {
            lemma_bytes_prefix(outcomes(results@), i as int + 1);
            assert(outcomes(results@).take(i as int + 1) =~= outcomes(now));
        }
        match results[i].1 {
            Outcome::Unchanged => report.unchanged = report.unchanged + 1,
            Outcome::Appended(n) => {
                report.appended = report.appended + 1;
                report.bytes_parsed = report.bytes_parsed + n;
            },
            Outcome::Reparsed(n) => {
                report.reparsed = report.reparsed + 1;
                report.bytes_parsed = report.bytes_parsed + n;
            },
            Outcome::Missing => report.removed = report.removed + 1,
        }
        if results[i].0.len() > 0 {
            let c = share(&results[i].0);
            chunks.push(c);
            assert(chunk_views(chunks@) =~= kept_chunks(pre).push(results@[i as int].0@));
        }
        i = i + 1;
    }
    assert(results@.take(results@.len() as int) =~= results@);
    (chunks, report)
}

proof fn lemma_bytes_prefix(os: Seq<Outcome>, n: int)
    requires
        0 <= n <= os.len(),
    ensures
        bytes_total(os.take(n)) <= bytes_total(os),
    decreases os.len() - n,
{
    if n < os.len() {
        lemma_bytes_prefix(os, n + 1);
        assert(os.take(n + 1).drop_last() =~= os.take(n));
    } else {
        assert(os.take(n) =~= os);
    }
}

/// Adds to a reload's report the files forgotten because they are no longer listed.
pub fn with_dropped(report: RefreshReport, dropped: usize) -> (r: RefreshReport)
    requires
        report.removed + dropped <= usize::MAX,
    ensures
        r == (RefreshReport { removed: (report.removed + dropped) as usize, ..report }),
{
    RefreshReport { removed: report.removed + dropped, ..report }
}

/// The paths of `s` in order of first appearance, each once.
pub open spec fn first_occurrences(s: Seq<Seq<char>>) -> Seq<Seq<char>>
    decreases s.len(),
{
    if s.len() == 0 {
        Seq::empty()
    } else {
        let r = first_occurrences(s.drop_last());
        if r.contains(s.last()) {
            r
        } else {
            r.push(s.last())
        }
    }
}

proof fn lemma_first_occurrences(s: Seq<Seq<char>>)
    ensures
        first_occurrences(s).no_duplicates(),
        forall|x: Seq<char>| first_occurrences(s).contains(x) <==> s.contains(x),
    decreases s.len(),
{
    if s.len() > 0 {
        let d = s.drop_last();
        lemma_first_occurrences(d);
        assert forall|x: Seq<char>| s.contains(x) <==> (d.contains(x) || x == s.last()) by {
            if s.contains(x) {
                let i = choose|i: int| 0 <= i < s.len() && s[i] == x;
                if i < d.len() {
                    assert(d[i] == x);
                }
            }
            if d.contains(x) {
                let i = choose|i: int| 0 <= i < d.len() && d[i] == x;
                assert(s[i] == x);
            }
            assert(s[s.len() - 1] == s.last());
        }
        let r = first_occurrences(d);
        if !r.contains(s.last()) {
            let t = r.push(s.last());
            assert forall|x: Seq<char>| t.contains(x) <==> (r.contains(x) || x == s.last()) by {
                if t.contains(x) {
                    let i = choose|i: int| 0 <= i < t.len() && t[i] == x;
                    if i < r.len() {
                        assert(r[i] == x);
                    }
                }
                if r.contains(x) {
                    let i = choose|i: int| 0 <= i < r.len() && r[i] == x;
                    assert(t[i] == x);
                }
                assert(t[t.len() - 1] == s.last());
            }
            assert forall|i: int, j: int| 0 <= i < t.len() && 0 <= j < t.len() && i != j implies t[i] != t[j] by {
                if i < r.len() && j < r.len() {
                } else if i < r.len() {
                    assert(r.contains(t[i]));
                } else {
                    assert(r.contains(t[j]));
                }
            }
        }
    }
}

/// The paths of `sources`.
pub open spec fn source_paths(sources: Seq<DataSource>) -> Seq<Seq<char>> {
    sources.map_values(|d: DataSource| d.path@)
}

/// The paths of `sources` in order, each once: overlapping glob patterns can list a file twice,
/// and it is parsed once.
pub fn unique_paths(sources: &[DataSource]) -> (r: Vec<String>)
    ensures
        r@.map_values(|x: String| x@) == first_occurrences(source_paths(sources@)),
        r@.map_values(|x: String| x@).no_duplicates(),
{
    let mut out: Vec<String> = Vec::new();
    let mut i: usize = 0;
    while i < sources.len()
        invariant
            i <= sources@.len(),
            out@.map_values(|x: String| x@) == first_occurrences(source_paths(sources@).take(i as int)),
        decreases sources@.len() - i,
    {
        let ghost pre = source_paths(sources@).take(i as int);
        let ghost now = source_paths(sources@).take(i as int + 1);
        assert(now.drop_last() =~= pre);
        assert(now.last() == sources@[i as int].path@);
        let seen = contains_str(out.as_slice(), sources[i].path.as_str());
        let ghost ov = out@.map_values(|x: String| x@);
        assert(seen == ov.contains(sources@[i as int].path@)) by {
            if seen {
                let j = choose|j: int| 0 <= j < out@.len() && out@[j]@ == sources@[i as int].path@;
                assert(ov[j] == out@[j]@);
            }
            if ov.contains(sources@[i as int].path@) {
                let j = choose|j: int| 0 <= j < ov.len() && ov[j] == sources@[i as int].path@;
                assert(ov[j] == out@[j]@);
            }
        }
        if !seen {
            out.push(sources[i].path.clone());
            assert(out@.map_values(|x: String| x@) =~= ov.push(sources@[i as int].path@));
        }
        i = i + 1;
    }
    assert(source_paths(sources@).take(sources@.len() as int) =~= source_paths(sources@));
    proof {
        lemma_first_occurrences(source_paths(sources@));
    }
    out
}

/// A file whose stamp is the one it was last read with is reused as it is, without being
/// opened.
pub proof fn law_unchanged_file_is_reused<S>(m: Map<Seq<char>, CachedFile<S>>, path: Seq<char>, entry: CachedFile<S>)
    ensures
        step_for(lookup(m.insert(path, entry), path), Some(entry.stamp)) == RefreshStep::Unchanged,
{
}

/// A file that changed and is at least as long as what was parsed of it is parsed on from the
/// end of the last complete line, with the carried state; one now shorter than that is parsed
/// again from the start.
pub proof fn law_changed_file_resumes_or_restarts<S>(entry: CachedFile<S>, stamp: FileStamp)
    requires
        entry.stamp != stamp,
    ensures
        stamp.len >= entry.parsed_bytes ==> step_for(Some(entry), Some(stamp)) == RefreshStep::Resume(entry.parsed_bytes),
        stamp.len < entry.parsed_bytes ==> step_for(Some(entry), Some(stamp)) == RefreshStep::Restart,
{
}

/// Every file of a reload is counted in exactly one of the report's four counters.
pub proof fn law_every_file_counted_once(os: Seq<Outcome>)
    ensures
        count_kind(os, 0) + count_kind(os, 1) + count_kind(os, 2) + count_kind(os, 3) == os.len(),
    decreases os.len(),
{
    if os.len() > 0 {
        law_every_file_counted_once(os.drop_last());
    }
}

} // verus!
