//! Character-level text utilities: whitespace, trimming, decimal digits, word joining.
use vstd::prelude::*;

verus! {

/// Calls `str::chars` and collects the characters into a vector, one for one.
#[verifier::external_body]
pub(crate) fn chars_of(s: &str) -> (v: Vec<char>)
    ensures
        v@ == s@,
{
    s.chars().collect()
}

/// Collects characters into a `String` through its `FromIterator<char>` impl, which appends
/// them in order.
#[verifier::external_body]
pub(crate) fn string_of(cs: &[char]) -> (s: String)
    ensures
        s@ == cs@,
{
    cs.iter().collect()
}

/// The Unicode `White_Space` property, which `char::is_whitespace` tests.
pub open spec fn is_ws(c: char) -> bool {
    ||| ('\u{9}' <= c && c <= '\u{d}')
    ||| c == ' '
    ||| c == '\u{85}'
    ||| c == '\u{a0}'
    ||| c == '\u{1680}'
    ||| ('\u{2000}' <= c && c <= '\u{200a}')
    ||| c == '\u{2028}'
    ||| c == '\u{2029}'
    ||| c == '\u{202f}'
    ||| c == '\u{205f}'
    ||| c == '\u{3000}'
}

/// Whether `c` is Unicode whitespace.
pub fn is_whitespace(c: char) -> (b: bool)
    ensures
        b == is_ws(c),
{
    ('\u{9}' <= c && c <= '\u{d}') || c == ' ' || c == '\u{85}' || c == '\u{a0}' || c == '\u{1680}'
        || ('\u{2000}' <= c && c <= '\u{200a}') || c == '\u{2028}' || c == '\u{2029}' || c
        == '\u{202f}' || c == '\u{205f}' || c == '\u{3000}'
}

/// `s` without leading whitespace.
pub open spec fn trim_start(s: Seq<char>) -> Seq<char>
    decreases s.len(),
{
    if s.len() > 0 && is_ws(s[0]) { trim_start(s.drop_first()) } else { s }
}

/// `s` without trailing whitespace.
pub open spec fn trim_end(s: Seq<char>) -> Seq<char>
    decreases s.len(),
{
    if s.len() > 0 && is_ws(s.last()) { trim_end(s.drop_last()) } else { s }
}

/// `s` without leading or trailing whitespace, as `str::trim` returns it.
pub open spec fn trim(s: Seq<char>) -> Seq<char> {
    trim_end(trim_start(s))
}

pub proof fn lemma_trim_start_skip(s: Seq<char>, i: int)
    requires
        0 <= i <= s.len(),
        forall|k: int| 0 <= k < i ==> is_ws(#[trigger] s[k]),
    ensures
        trim_start(s) == trim_start(s.skip(i)),
    decreases i,
{
    if i > 0 {
        assert(s.skip(1) =~= s.drop_first());
        lemma_trim_start_skip(s.drop_first(), i - 1);
        assert(s.drop_first().skip(i - 1) =~= s.skip(i));
    } else {
        assert(s.skip(0) =~= s);
    }
}

pub proof fn lemma_trim_end_take(s: Seq<char>, j: int)
    requires
        0 <= j <= s.len(),
        forall|k: int| j <= k < s.len() ==> is_ws(#[trigger] s[k]),
    ensures
        trim_end(s) == trim_end(s.take(j)),
    decreases s.len() - j,
{
    if j < s.len() {
        assert(s.take(s.len() - 1) =~= s.drop_last());
        lemma_trim_end_take(s.drop_last(), j);
        assert(s.drop_last().take(j) =~= s.take(j));
    } else {
        assert(s.take(j) =~= s);
    }
}

/// Removes leading and trailing whitespace.
pub fn trim_chars(s: &[char]) -> (r: Vec<char>)
    ensures
        r@ == trim(s@),
{
    let mut i: usize = 0;
    while i < s.len() && is_whitespace(s[i])
        invariant
            i <= s.len(),
            forall|k: int| 0 <= k < i ==> is_ws(#[trigger] s@[k]),
        decreases s.len() - i,
    {
        i = i + 1;
    }
    let mut j: usize = s.len();
    while j > i && is_whitespace(s[j - 1])
        invariant
            i <= j <= s.len(),
            forall|k: int| j <= k < s.len() ==> is_ws(#[trigger] s@[k]),
        decreases j - i,
    {
        j = j - 1;
    }
    let mut r: Vec<char> = Vec::new();
    let mut k: usize = i;
    while k < j
        invariant
            i <= k <= j,
            j <= s.len(),
            r@ == s@.subrange(i as int, k as int),
        decreases j - k,
    {
        r.push(s[k]);
        k = k + 1;
    }
    proof {
        lemma_trim_start_skip(s@, i as int);
        let t = s@.skip(i as int);
        if i < s.len() {
            assert(!is_ws(t[0]));
            assert(trim_start(t) == t);
        } else {
            assert(t.len() == 0);
        }
        assert forall|k: int| j - i <= k < t.len() implies is_ws(#[trigger] t[k]) by {
            assert(t[k] == s@[k + i]);
        }
        lemma_trim_end_take(t, j - i);
        let u = t.take(j - i);
        assert(u =~= s@.subrange(i as int, j as int));
        if j > i {
            assert(!is_ws(u.last()));
        }
        assert(trim_end(u) == u);
    }
    r
}

/// The character for decimal digit `d`.
pub open spec fn digit_char(d: int) -> char {
    if d == 0 { '0' }
    else if d == 1 { '1' }
    else if d == 2 { '2' }
    else if d == 3 { '3' }
    else if d == 4 { '4' }
    else if d == 5 { '5' }
    else if d == 6 { '6' }
    else if d == 7 { '7' }
    else if d == 8 { '8' }
    else { '9' }
}

/// The decimal digits of `n`, without leading zeros (`"0"` for zero).
pub open spec fn decimal(n: nat) -> Seq<char>
    decreases n,
{
    if n < 10 { seq![digit_char(n as int)] } else { decimal(n / 10).push(digit_char((n % 10) as int)) }
}

/// A signed integer in decimal, with a leading `-` when negative.
pub open spec fn signed_decimal(n: int) -> Seq<char> {
    if n < 0 { seq!['-'] + decimal((-n) as nat) } else { decimal(n as nat) }
}

fn digit(d: u64) -> (c: char)
    requires
        d < 10,
    ensures
        c == digit_char(d as int),
{
    if d == 0 { '0' }
    else if d == 1 { '1' }
    else if d == 2 { '2' }
    else if d == 3 { '3' }
    else if d == 4 { '4' }
    else if d == 5 { '5' }
    else if d == 6 { '6' }
    else if d == 7 { '7' }
    else if d == 8 { '8' }
    else { '9' }
}

/// The decimal digits of `n`, as `n.to_string()` writes them.
pub fn decimal_chars(n: u64) -> (r: Vec<char>)
    ensures
        r@ == decimal(n as nat),
    decreases n,
{
    if n < 10 {
        let mut r = Vec::new();
        r.push(digit(n));
        r
    } else {
        let mut r = decimal_chars(n / 10);
        r.push(digit(n % 10));
        r
    }
}

/// The decimal digits of a 128-bit `n`, as `n.to_string()` writes them.
pub fn wide_decimal_chars(n: u128) -> (r: Vec<char>)
    ensures
        r@ == decimal(n as nat),
    decreases n,
{
    if n < 10 {
        let mut r = Vec::new();
        r.push(digit(n as u64));
        r
    } else {
        let mut r = wide_decimal_chars(n / 10);
        r.push(digit((n % 10) as u64));
        r
    }
}

/// A signed integer in decimal, as `n.to_string()` writes it.
pub fn signed_decimal_chars(n: i64) -> (r: Vec<char>)
    ensures
        r@ == signed_decimal(n as int),
{
    if n < 0 {
        let mag: u64 = if n == i64::MIN { 9_223_372_036_854_775_808u64 } else { (-n) as u64 };
        let digits = decimal_chars(mag);
        let mut r = Vec::new();
        r.push('-');
        let mut k: usize = 0;
        while k < digits.len()
            invariant
                k <= digits.len(),
                r@ == seq!['-'] + digits@.take(k as int),
            decreases digits.len() - k,
        {
            r.push(digits[k]);
            k = k + 1;
            proof {
                assert(digits@.take(k as int) =~= digits@.take(k - 1).push(digits@[k - 1]));
            }
        }
        proof {
            assert(digits@.take(digits.len() as int) =~= digits@);
        }
        r
    } else {
        decimal_chars(n as u64)
    }
}

/// Appends `b` to `a`.
pub fn append_chars(a: &mut Vec<char>, b: &[char])
    ensures
        final(a)@ == old(a)@ + b@,
{
    let ghost start = a@;
    let mut k: usize = 0;
    while k < b.len()
        invariant
            k <= b.len(),
            a@ == start + b@.take(k as int),
        decreases b.len() - k,
    {
        a.push(b[k]);
        k = k + 1;
        proof {
            assert(b@.take(k as int) =~= b@.take(k - 1).push(b@[k - 1]));
        }
    }
    proof {
        assert(b@.take(b.len() as int) =~= b@);
    }
}

/// The maximal runs of non-whitespace characters of `s`, in order, as `str::split_whitespace`
/// yields them.
pub open spec fn words(s: Seq<char>) -> Seq<Seq<char>>
    decreases s.len(),
{
    if s.len() == 0 {
        Seq::empty()
    } else {
        let w = words(s.drop_last());
        let c = s.last();
        if is_ws(c) {
            w
        } else if s.len() >= 2 && !is_ws(s[s.len() - 2]) {
            w.update(w.len() - 1, w.last().push(c))
        } else {
            w.push(seq![c])
        }
    }
}

/// `ws` joined with single spaces.
pub open spec fn join_words(ws: Seq<Seq<char>>) -> Seq<char>
    decreases ws.len(),
{
    if ws.len() == 0 {
        Seq::empty()
    } else if ws.len() == 1 {
        ws[0]
    } else {
        join_words(ws.drop_last()) + seq![' '] + ws.last()
    }
}

pub proof fn lemma_words_nonempty(s: Seq<char>)
    ensures
        s.len() > 0 && !is_ws(s.last()) ==> words(s).len() > 0,
        forall|k: int| 0 <= k < words(s).len() ==> (#[trigger] words(s)[k]).len() > 0,
    decreases s.len(),
{
    if s.len() > 0 {
        lemma_words_nonempty(s.drop_last());
    }
}

pub proof fn lemma_join_words_empty(ws: Seq<Seq<char>>)
    requires
        forall|k: int| 0 <= k < ws.len() ==> (#[trigger] ws[k]).len() > 0,
    ensures
        (join_words(ws).len() == 0) == (ws.len() == 0),
    decreases ws.len(),
{
    if ws.len() > 1 {
        lemma_join_words_empty(ws.drop_last());
    }
}

pub proof fn lemma_join_extend_last(ws: Seq<Seq<char>>, c: char)
    requires
        ws.len() > 0,
    ensures
        join_words(ws.update(ws.len() - 1, ws.last().push(c))) == join_words(ws).push(c),
{
    let ws2 = ws.update(ws.len() - 1, ws.last().push(c));
    if ws.len() > 1 {
        assert(ws2.drop_last() =~= ws.drop_last());
    }
}

/// `msg` with whitespace runs collapsed to single spaces and trimmed at both ends.
pub fn clean_message(msg: &str) -> (r: String)
    ensures
        r@ == join_words(words(msg@)),
{
    let s = chars_of(msg);
    let mut out: Vec<char> = Vec::new();
    let mut i: usize = 0;
    proof {
        assert(s@.take(0) =~= Seq::<char>::empty());
    }
    while i < s.len()
        invariant
            i <= s.len(),
            out@ == join_words(words(s@.take(i as int))),
            (out@.len() == 0) == (words(s@.take(i as int)).len() == 0),
        decreases s.len() - i,
    {
        let c = s[i];
        let ghost pre = s@.take(i as int);
        proof {
            assert(s@.take(i + 1).drop_last() =~= pre);
            assert(s@.take(i + 1).last() == c);
            lemma_words_nonempty(pre);
            lemma_words_nonempty(s@.take(i + 1));
        }
        if !is_whitespace(c) {
            if i > 0 && !is_whitespace(s[i - 1]) {
                proof {
                    assert(s@.take(i + 1)[i - 1] == s[i - 1]);
                    assert(pre.last() == s[i - 1]);
                    lemma_join_extend_last(words(pre), c);
                }
                out.push(c);
            } else {
                if out.len() > 0 {
                    out.push(' ');
                }
                out.push(c);
                proof {
                    if i > 0 {
                        assert(s@.take(i + 1)[i - 1] == s[i - 1]);
                    }
                    let w = words(pre);
                    let w2 = w.push(seq![c]);
                    assert(w2.drop_last() =~= w);
                    if w.len() == 0 {
                        assert(out@ =~= seq![c]);
                    } else {
                        assert(out@ =~= join_words(w) + seq![' '] + seq![c]);
                    }
                }
            }
        }
        i = i + 1;
        proof {
            lemma_words_nonempty(s@.take(i as int));
            lemma_join_words_empty(words(s@.take(i as int)));
        }
    }
    proof {
        assert(s@.take(s.len() as int) =~= s@);
    }
    string_of(&out)
}

/// What `str::to_lowercase` makes of `s`: every character mapped to its Unicode lowercase.
pub uninterp spec fn lowercase_of(s: Seq<char>) -> Seq<char>;

/// Calls `str::to_lowercase`, whose result is named [`lowercase_of`].
#[verifier::external_body]
pub(crate) fn lowercase(s: &str) -> (r: String)
    ensures
        r@ == lowercase_of(s@),
{
    s.to_lowercase()
}

/// The first position at or after `pos` where `pat` occurs in `cs`.
pub open spec fn find_from(cs: Seq<char>, pat: Seq<char>, pos: int) -> Option<int>
    decreases cs.len() + 1 - pos,
{
    if pos < 0 || pos + pat.len() > cs.len() {
        None
    } else if cs.subrange(pos, pos + pat.len()) == pat {
        Some(pos)
    } else {
        find_from(cs, pat, pos + 1)
    }
}

pub proof fn lemma_find_from_range(cs: Seq<char>, pat: Seq<char>, pos: int)
    ensures
        find_from(cs, pat, pos) matches Some(f) ==> pos <= f && f + pat.len() <= cs.len()
            && cs.subrange(f, f + pat.len()) == pat,
    decreases cs.len() + 1 - pos,
{
    if !(pos < 0 || pos + pat.len() > cs.len()) && cs.subrange(pos, pos + pat.len()) != pat {
        lemma_find_from_range(cs, pat, pos + 1);
    }
}

/// The first position at or after `pos` where `pat` occurs in `cs` (see [`find_from`]).
pub fn find_pattern(cs: &Vec<char>, pat: &Vec<char>, pos: usize) -> (r: Option<usize>)
    requires
        pos <= cs.len(),
    ensures
        match r {
            Some(f) => find_from(cs@, pat@, pos as int) == Some(f as int),
            None => find_from(cs@, pat@, pos as int) is None,
        },
{
    if pat.len() > cs.len() {
        return None;
    }
    let mut i: usize = pos;
    while i <= cs.len() - pat.len()
        invariant
            pos <= i,
            pat.len() <= cs.len(),
            find_from(cs@, pat@, pos as int) == find_from(cs@, pat@, i as int),
        decreases cs.len() - i,
    {
        let mut k: usize = 0;
        let mut same = true;
        while k < pat.len()
            invariant
                k <= pat.len(),
                i + pat.len() <= cs.len(),
                same == (forall|q: int| 0 <= q < k ==> cs@[i + q] == pat@[q]),
            decreases pat.len() - k,
        {
            if cs[i + k] != pat[k] {
                same = false;
            }
            k = k + 1;
        }
        if same {
            proof {
                assert(cs@.subrange(i as int, i + pat@.len()) =~= pat@);
            }
            return Some(i);
        }
        proof {
            let q = choose|q: int| 0 <= q < pat.len() && cs@[i + q] != pat@[q];
            assert(cs@.subrange(i as int, i + pat@.len())[q] != pat@[q]);
        }
        i = i + 1;
    }
    None
}

/// The characters of `v` from `a` to `b`.
pub fn sub_chars(v: &[char], a: usize, b: usize) -> (r: Vec<char>)
    requires
        a <= b <= v.len(),
    ensures
        r@ == v@.subrange(a as int, b as int),
{
    let mut out: Vec<char> = Vec::new();
    let mut k: usize = a;
    while k < b
        invariant
            a <= k <= b <= v.len(),
            out@ == v@.subrange(a as int, k as int),
        decreases b - k,
    {
        out.push(v[k]);
        k = k + 1;
        proof {
            assert(out@ =~= v@.subrange(a as int, k as int));
        }
    }
    out
}

/// `s` with every occurrence of `pat` from `pos` on removed, scanning left to right (what
/// `str::replace(pat, "")` leaves of that part).
pub open spec fn remove_all_from(s: Seq<char>, pat: Seq<char>, pos: int) -> Seq<char>
    decreases s.len() - pos,
{
    if pos < 0 || pos > s.len() || pat.len() == 0 {
        s.subrange(if pos < 0 { 0 } else if pos > s.len() { s.len() as int } else { pos }, s.len() as int)
    } else {
        match find_from(s, pat, pos) {
            None => s.subrange(pos, s.len() as int),
            Some(i) => {
                proof {
                    lemma_find_from_range(s, pat, pos);
                }
                s.subrange(pos, i) + remove_all_from(s, pat, i + pat.len())
            },
        }
    }
}

/// `s` with every occurrence of the non-empty `pat` removed.
pub open spec fn remove_all(s: Seq<char>, pat: Seq<char>) -> Seq<char> {
    remove_all_from(s, pat, 0)
}

/// Removes every occurrence of the non-empty `pat` from `s` (see [`remove_all`]).
pub fn remove_all_chars(s: &Vec<char>, pat: &Vec<char>) -> (r: Vec<char>)
    requires
        pat.len() > 0,
    ensures
        r@ == remove_all(s@, pat@),
{
    let mut out: Vec<char> = Vec::new();
    let mut pos: usize = 0;
    while pos <= s.len()
        invariant
            pos <= s.len() + 1,
            pat.len() > 0,
            pos <= s.len() ==> remove_all(s@, pat@) == out@ + remove_all_from(s@, pat@, pos as int),
            pos > s.len() ==> remove_all(s@, pat@) == out@,
        decreases s.len() + 1 - pos,
    {
        proof {
            lemma_find_from_range(s@, pat@, pos as int);
        }
        match find_pattern(s, pat, pos) {
            None => {
                let rest = sub_chars(s.as_slice(), pos, s.len());
                append_chars(&mut out, rest.as_slice());
                proof {
                    assert(remove_all(s@, pat@) =~= out@);
                }
                return out;
            },
            Some(i) => {
                let part = sub_chars(s.as_slice(), pos, i);
                append_chars(&mut out, part.as_slice());
                let ghost before_pos = pos;
                pos = i + pat.len();
                proof {
                    if pos <= s.len() {
                        assert(remove_all(s@, pat@) =~= out@ + remove_all_from(s@, pat@, pos as int));
                    }
                }
            },
        }
    }
    out
}

/// The components of the path `p` as `Path::components` yields them: the text of each normal
/// component, and none for the root, `.`, `..` or a prefix.
pub uninterp spec fn path_parts(p: Seq<char>) -> Seq<Option<Seq<char>>>;

/// Calls `Path::components` on `p` and keeps, for each component, its text when it is a normal
/// one (`Component::Normal`, read with `to_str`); the result is named by [`path_parts`].
#[verifier::external_body]
pub(crate) fn path_components(p: &str) -> (r: Vec<Option<String>>)
    ensures
        r@.map_values(|c: Option<String>| crate::types::opt_view(c)) == path_parts(p@),
{
    let mut out = Vec::new();
    for c in std::path::Path::new(p).components() {
        match c {
            std::path::Component::Normal(name) => out.push(name.to_str().map(str::to_owned)),
            _ => out.push(None),
        }
    }
    out
}

/// The extension of the path `p` as `Path::extension` gives it, read with `to_str`.
pub uninterp spec fn path_ext(p: Seq<char>) -> Option<Seq<char>>;

/// Calls `Path::extension` on `p` and reads it with `to_str`; the result is named by
/// [`path_ext`].
#[verifier::external_body]
pub(crate) fn path_extension(p: &str) -> (r: Option<String>)
    ensures
        crate::types::opt_view(r) == path_ext(p@),
{
    match std::path::Path::new(p).extension() {
        Some(e) => e.to_str().map(str::to_owned),
        None => None,
    }
}

/// Whether `a` sorts strictly before `b` as `String`s do: at the first character where they
/// differ, by code point, and a proper prefix before the longer text. (UTF-8 keeps code point
/// order, so this is the byte order by which `String` compares.)
pub open spec fn text_lt(a: Seq<char>, b: Seq<char>) -> bool
    decreases a.len(),
{
    if b.len() == 0 {
        false
    } else if a.len() == 0 {
        true
    } else if a[0] != b[0] {
        a[0] < b[0]
    } else {
        text_lt(a.drop_first(), b.drop_first())
    }
}

pub proof fn lemma_text_lt_irreflexive(a: Seq<char>)
    ensures
        !text_lt(a, a),
    decreases a.len(),
{
    if a.len() > 0 {
        lemma_text_lt_irreflexive(a.drop_first());
    }
}

pub proof fn lemma_text_lt_asymmetric(a: Seq<char>, b: Seq<char>)
    ensures
        !(text_lt(a, b) && text_lt(b, a)),
    decreases a.len(),
{
    if a.len() > 0 && b.len() > 0 && a[0] == b[0] {
        lemma_text_lt_asymmetric(a.drop_first(), b.drop_first());
    }
}

pub proof fn lemma_text_lt_total(a: Seq<char>, b: Seq<char>)
    ensures
        a == b || text_lt(a, b) || text_lt(b, a),
    decreases a.len(),
{
    if a.len() > 0 && b.len() > 0 && a[0] == b[0] {
        lemma_text_lt_total(a.drop_first(), b.drop_first());
        if a.drop_first() == b.drop_first() {
            assert(a =~= b) by {
                assert forall|i: int| 0 <= i < a.len() implies a[i] == b[i] by {
                    if i > 0 {
                        assert(a[i] == a.drop_first()[i - 1]);
                        assert(b[i] == b.drop_first()[i - 1]);
                    }
                }
            }
        }
    } else if a.len() == 0 && b.len() == 0 {
        assert(a =~= b);
    }
}

pub proof fn lemma_text_lt_transitive(a: Seq<char>, b: Seq<char>, c: Seq<char>)
    requires
        text_lt(a, b),
        text_lt(b, c),
    ensures
        text_lt(a, c),
    decreases a.len(),
{
    if a.len() > 0 && a[0] == b[0] && b[0] == c[0] {
        lemma_text_lt_transitive(a.drop_first(), b.drop_first(), c.drop_first());
    }
}

proof fn lemma_text_lt_step(a: Seq<char>, b: Seq<char>, i: int)
    requires
        0 <= i < a.len(),
        i < b.len(),
        a[i] == b[i],
    ensures
        text_lt(a.skip(i), b.skip(i)) == text_lt(a.skip(i + 1), b.skip(i + 1)),
{
    assert(a.skip(i).drop_first() =~= a.skip(i + 1));
    assert(b.skip(i).drop_first() =~= b.skip(i + 1));
}

/// Whether `a` sorts strictly before `b`.
pub fn text_less(a: &[char], b: &[char]) -> (r: bool)
    ensures
        r == text_lt(a@, b@),
{
    let mut i: usize = 0;
    assert(a@.skip(0) =~= a@);
    assert(b@.skip(0) =~= b@);
    while i < a.len() && i < b.len() && a[i] == b[i]
        invariant
            i <= a@.len(),
            i <= b@.len(),
            text_lt(a@, b@) == text_lt(a@.skip(i as int), b@.skip(i as int)),
        decreases a@.len() - i,
    {
        proof {
            lemma_text_lt_step(a@, b@, i as int);
        }
        i = i + 1;
    }
    if i == b.len() {
        assert(b@.skip(i as int).len() == 0);
        false
    } else if i == a.len() {
        assert(a@.skip(i as int).len() == 0);
        true
    } else {
        assert(a@.skip(i as int)[0] == a@[i as int]);
        assert(b@.skip(i as int)[0] == b@[i as int]);
        a[i] < b[i]
    }
}

} // verus!
