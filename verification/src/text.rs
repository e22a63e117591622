//! Character-level text handling: whitespace trimming, ASCII case folding,
//! substring search and line splitting, each specified over `Seq<char>`.
use vstd::prelude::*;
use vstd::slice::slice_subrange;
use vstd::slice::slice_to_vec;

verus! {

/// The Unicode `White_Space` property, which is what `char::is_whitespace`
/// (and therefore `str::trim` and `str::split_whitespace`) tests.
pub open spec fn is_space(c: char) -> bool {
    ||| c == ' '
    ||| c == '\t'
    ||| c == '\n'
    ||| c == '\x0B'
    ||| c == '\x0C'
    ||| c == '\r'
    ||| c == '\u{85}'
    ||| c == '\u{A0}'
    ||| c == '\u{1680}'
    ||| ('\u{2000}' <= c && c <= '\u{200A}')
    ||| c == '\u{2028}'
    ||| c == '\u{2029}'
    ||| c == '\u{202F}'
    ||| c == '\u{205F}'
    ||| c == '\u{3000}'
}

/// `s` without its leading whitespace.
pub open spec fn trim_start(s: Seq<char>) -> Seq<char>
    decreases s.len(),
{
    if s.len() > 0 && is_space(s[0]) {
        trim_start(s.drop_first())
    } else {
        s
    }
}

/// `s` without its trailing whitespace.
pub open spec fn trim_end(s: Seq<char>) -> Seq<char>
    decreases s.len(),
{
    if s.len() > 0 && is_space(s.last()) {
        trim_end(s.drop_last())
    } else {
        s
    }
}

/// `s` without leading and trailing whitespace (what `str::trim` returns).
pub open spec fn trim(s: Seq<char>) -> Seq<char> {
    trim_end(trim_start(s))
}

/// ASCII upper-case letters mapped to lower case, every other char kept.
pub open spec fn ascii_lower_char(c: char) -> char {
    if 'A' <= c && c <= 'Z' {
        ((c as u32) + 32) as char
    } else {
        c
    }
}

/// What `str::to_ascii_lowercase` returns.
pub open spec fn ascii_lower(s: Seq<char>) -> Seq<char> {
    s.map_values(|c: char| ascii_lower_char(c))
}

/// `pat` occurs in `s` starting at index `i`.
pub open spec fn occurs_at(s: Seq<char>, pat: Seq<char>, i: int) -> bool {
    0 <= i && i + pat.len() <= s.len() && s.subrange(i, i + pat.len()) == pat
}

/// `pat` occurs somewhere in `s` (what `str::contains` with a `&str` tests).
pub open spec fn contains_text(s: Seq<char>, pat: Seq<char>) -> bool {
    exists|i: int| occurs_at(s, pat, i)
}

/// `s` begins with `p`.
pub open spec fn starts_with(s: Seq<char>, p: Seq<char>) -> bool {
    p.len() <= s.len() && s.take(p.len() as int) == p
}

/// Index of the first element of `s` on which `p` holds, or `s.len()`.
pub open spec fn first_where(s: Seq<char>, p: spec_fn(char) -> bool) -> int
    decreases s.len(),
{
    if s.len() == 0 {
        0
    } else if p(s[0]) {
        0
    } else {
        1 + first_where(s.drop_first(), p)
    }
}

/// The element sequences held by a sequence of vectors.
pub open spec fn views<T>(v: Seq<Vec<T>>) -> Seq<Seq<T>> {
    v.map_values(|x: Vec<T>| x@)
}

/// The char sequences held by a sequence of strings.
pub open spec fn string_views(v: Seq<String>) -> Seq<Seq<char>> {
    v.map_values(|x: String| x@)
}

/// The char sequence held by an optional string.
pub open spec fn opt_string_view(o: Option<String>) -> Option<Seq<char>> {
    match o {
        Some(s) => Some(s@),
        None => None,
    }
}

/// The whitespace test as a predicate value.
pub open spec fn space_pred() -> spec_fn(char) -> bool {
    |c: char| is_space(c)
}

/// The line-feed test as a predicate value.
pub open spec fn newline_pred() -> spec_fn(char) -> bool {
    |c: char| c == '\n'
}

/// The first maximal run of non-whitespace chars (what
/// `split_whitespace().next()` yields), if any.
pub open spec fn first_word(s: Seq<char>) -> Option<Seq<char>> {
    let t = trim_start(s);
    if t.len() == 0 {
        None
    } else {
        Some(t.take(first_where(t, space_pred())))
    }
}

/// A line as `str::lines` hands it out: one trailing `'\r'` is dropped.
pub open spec fn strip_cr(line: Seq<char>) -> Seq<char> {
    if line.len() > 0 && line.last() == '\r' {
        line.drop_last()
    } else {
        line
    }
}

/// What `str::lines` yields: the text split at each `'\n'`, a `'\r'` before
/// the `'\n'` dropped, and no empty line after a final `'\n'`.
pub open spec fn lines(s: Seq<char>) -> Seq<Seq<char>>
    decreases s.len(),
{
    if s.len() == 0 {
        Seq::empty()
    } else {
        let i = first_where(s, newline_pred());
        if 0 <= i < s.len() {
            seq![strip_cr(s.take(i))] + lines(s.skip(i + 1))
        } else {
            seq![s]
        }
    }
}

/// `first_where` is the index of the first match.
pub proof fn lemma_first_where(s: Seq<char>, p: spec_fn(char) -> bool, k: int)
    requires
        0 <= k <= s.len(),
        forall|i: int| 0 <= i < k ==> !p(#[trigger] s[i]),
        k < s.len() ==> p(s[k]),
    ensures
        first_where(s, p) == k,
    decreases s.len(),
{
    if s.len() > 0 && k > 0 {
        assert forall|i: int| 0 <= i < k - 1 implies !p(#[trigger] s.drop_first()[i]) by {
            assert(s.drop_first()[i] == s[i + 1]);
        }
        lemma_first_where(s.drop_first(), p, k - 1);
    }
}

/// The value `first_where` takes is a valid index, or the length.
pub proof fn lemma_first_where_bounds(s: Seq<char>, p: spec_fn(char) -> bool)
    ensures
        0 <= first_where(s, p) <= s.len(),
    decreases s.len(),
{
    if s.len() > 0 && !p(s[0]) {
        lemma_first_where_bounds(s.drop_first(), p);
    }
}

/// What `trim_start` leaves begins with a non-whitespace char.
pub proof fn lemma_trim_start_head(s: Seq<char>)
    ensures
        trim_start(s).len() <= s.len(),
        trim_start(s).len() > 0 ==> !is_space(trim_start(s)[0]),
    decreases s.len(),
{
    if s.len() > 0 && is_space(s[0]) {
        lemma_trim_start_head(s.drop_first());
    }
}

/// A word is never empty.
pub proof fn lemma_first_word_nonempty(s: Seq<char>)
    ensures
        first_word(s) matches Some(w) ==> w.len() > 0,
{
    let t = trim_start(s);
    lemma_trim_start_head(s);
    if t.len() > 0 {
        lemma_first_where_bounds(t, space_pred());
        assert(!space_pred()(t[0]));
        lemma_first_where_bounds(t.drop_first(), space_pred());
    }
}

/// What `trim_start` keeps is a suffix, after a run of whitespace.
proof fn lemma_trim_start_at(x: Seq<char>) -> (k: int)
    ensures
        0 <= k <= x.len(),
        trim_start(x) == x.skip(k),
        forall|i: int| 0 <= i < k ==> is_space(#[trigger] x[i]),
        k < x.len() ==> !is_space(x[k]),
    decreases x.len(),
{
    if x.len() > 0 && is_space(x[0]) {
        let k1 = lemma_trim_start_at(x.drop_first());
        assert(x.drop_first().skip(k1) =~= x.skip(k1 + 1));
        assert forall|i: int| 0 <= i < k1 + 1 implies is_space(#[trigger] x[i]) by {
            if i > 0 {
                assert(x[i] == x.drop_first()[i - 1]);
            }
        }
        k1 + 1
    } else {
        assert(x.skip(0) =~= x);
        0
    }
}

/// What `trim_end` keeps is a prefix, before a run of whitespace.
proof fn lemma_trim_end_at(x: Seq<char>) -> (e: int)
    ensures
        0 <= e <= x.len(),
        trim_end(x) == x.take(e),
        forall|i: int| e <= i < x.len() ==> is_space(#[trigger] x[i]),
        e > 0 ==> !is_space(x[e - 1]),
    decreases x.len(),
{
    if x.len() > 0 && is_space(x.last()) {
        let e1 = lemma_trim_end_at(x.drop_last());
        assert(x.drop_last().take(e1) =~= x.take(e1));
        assert forall|i: int| e1 <= i < x.len() implies is_space(#[trigger] x[i]) by {
            if i < x.len() - 1 {
                assert(x[i] == x.drop_last()[i]);
            }
        }
        e1
    } else {
        assert(x.take(x.len() as int) =~= x);
        x.len() as int
    }
}

/// `trim` keeps the part of `x` from its first to its last non-whitespace
/// char; with none, nothing.
pub proof fn lemma_trim_bounds(x: Seq<char>) -> (r: (int, int))
    ensures
        0 <= r.0 <= r.1 <= x.len(),
        trim(x) == x.subrange(r.0, r.1),
        forall|i: int| 0 <= i < r.0 ==> is_space(#[trigger] x[i]),
        forall|i: int| r.1 <= i < x.len() ==> is_space(#[trigger] x[i]),
        r.0 < r.1 ==> !is_space(x[r.0]) && !is_space(x[r.1 - 1]),
        r.0 == r.1 ==> forall|i: int| 0 <= i < x.len() ==> is_space(#[trigger] x[i]),
{
    let k = lemma_trim_start_at(x);
    let y = x.skip(k);
    let e = lemma_trim_end_at(y);
    assert(y.take(e) =~= x.subrange(k, k + e));
    assert forall|i: int| k + e <= i < x.len() implies is_space(#[trigger] x[i]) by {
        assert(x[i] == y[i - k]);
    }
    if e > 0 {
        assert(x[k + e - 1] == y[e - 1]);
    }
    if k < x.len() && e == 0 {
        assert(is_space(y[0]));
        assert(y[0] == x[k]);
    }
    (k, k + e)
}

/// ASCII lower-case letters mapped to upper case, every other char kept.
pub open spec fn ascii_upper_char(c: char) -> char {
    if 'a' <= c && c <= 'z' {
        ((c as u32) - 32) as char
    } else {
        c
    }
}

/// What `str::to_ascii_uppercase` returns.
pub open spec fn ascii_upper(s: Seq<char>) -> Seq<char> {
    s.map_values(|c: char| ascii_upper_char(c))
}

/// Whitespace test for one char (what `char::is_whitespace` returns).
pub fn is_space_char(c: char) -> (r: bool)
    ensures
        r == is_space(c),
{
    c == ' ' || c == '\t' || c == '\n' || c == '\x0B' || c == '\x0C' || c == '\r'
        || c == '\u{85}' || c == '\u{A0}' || c == '\u{1680}' || ('\u{2000}' <= c && c
        <= '\u{200A}') || c == '\u{2028}' || c == '\u{2029}' || c == '\u{202F}' || c
        == '\u{205F}' || c == '\u{3000}'
}

/// The chars of `s`, in order.
pub fn chars_of(s: &str) -> (r: Vec<char>)
    ensures
        r@ == s@,
{
    let n = s.unicode_len();
    let mut v: Vec<char> = Vec::new();
    let mut i: usize = 0;
    while i < n
        invariant
            i <= n,
            n == s@.len(),
            v@ == s@.take(i as int),
        decreases n - i,
    {
        v.push(s.get_char(i));
        i = i + 1;
    }
    assert(s@.take(n as int) =~= s@);
    v
}

/// A `String` made of the given chars (`FromIterator<char>` for `String`).
#[verifier::external_body]
pub(crate) fn string_from_chars(chars: &[char]) -> (r: String)
    ensures
        r@ == chars@,
{
    chars.iter().collect()
}

/// The chars of `s` from index `from` up to, not including, `to`.
pub fn copy_range(s: &[char], from: usize, to: usize) -> (r: Vec<char>)
    requires
        from <= to <= s@.len(),
    ensures
        r@ == s@.subrange(from as int, to as int),
{
    slice_to_vec(slice_subrange(s, from, to))
}

/// Index of the first non-whitespace char of `s`, or its length.
fn trim_start_index(s: &[char]) -> (r: usize)
    ensures
        r <= s@.len(),
        trim_start(s@) == s@.subrange(r as int, s@.len() as int),
{
    let n = s.len();
    let mut start: usize = 0;
    assert(s@.subrange(0, n as int) =~= s@);
    while start < n && is_space_char(s[start])
        invariant
            start <= n,
            n == s@.len(),
            trim_start(s@) == trim_start(s@.subrange(start as int, n as int)),
        decreases n - start,
    {
        assert(s@.subrange(start as int, n as int).drop_first() =~= s@.subrange(
            start + 1,
            n as int,
        ));
        start = start + 1;
    }
    start
}

/// `s` without leading and trailing whitespace.
pub fn trim_chars(s: &[char]) -> (r: Vec<char>)
    ensures
        r@ == trim(s@),
{
    let n = s.len();
    let start = trim_start_index(s);
    let ghost front = s@.subrange(start as int, n as int);
    let mut end: usize = n;
    while end > start && is_space_char(s[end - 1])
        invariant
            start <= end <= n,
            n == s@.len(),
            trim_end(front) == trim_end(s@.subrange(start as int, end as int)),
        decreases end - start,
    {
        assert(s@.subrange(start as int, end as int).drop_last() =~= s@.subrange(
            start as int,
            end - 1,
        ));
        end = end - 1;
    }
    copy_range(s, start, end)
}

/// One char folded to ASCII lower case.
pub fn ascii_lower_char_exec(c: char) -> (r: char)
    ensures
        r == ascii_lower_char(c),
{
    if 'A' <= c && c <= 'Z' {
        ((c as u8) + 32) as char
    } else {
        c
    }
}

/// `s` with its ASCII letters in lower case.
pub fn ascii_lower_chars(s: &[char]) -> (r: Vec<char>)
    ensures
        r@ == ascii_lower(s@),
{
    let mut v: Vec<char> = Vec::new();
    let mut i: usize = 0;
    while i < s.len()
        invariant
            i <= s@.len(),
            v@ == ascii_lower(s@.take(i as int)),
        decreases s@.len() - i,
    {
        v.push(ascii_lower_char_exec(s[i]));
        assert(ascii_lower(s@.take(i + 1)) =~= ascii_lower(s@.take(i as int)).push(
            ascii_lower_char(s@[i as int]),
        ));
        i = i + 1;
    }
    assert(s@.take(s@.len() as int) =~= s@);
    v
}

/// Does `pat` occur in `s` at index `at`?
fn occurs_at_exec(s: &[char], pat: &[char], at: usize) -> (r: bool)
    requires
        at + pat.len() <= s.len(),
    ensures
        r == occurs_at(s@, pat@, at as int),
{
    let mut j: usize = 0;
    while j < pat.len()
        invariant
            j <= pat@.len(),
            at + pat.len() <= s.len(),
            forall|k: int| 0 <= k < j ==> s@[at + k] == pat@[k],
        decreases pat@.len() - j,
    {
        if s[at + j] != pat[j] {
            assert(s@.subrange(at as int, at + pat@.len())[j as int] != pat@[j as int]);
            return false;
        }
        j = j + 1;
    }
    assert(s@.subrange(at as int, at + pat@.len()) =~= pat@);
    true
}

/// Does `pat` occur anywhere in `s`?
pub fn contains_chars(s: &[char], pat: &[char]) -> (r: bool)
    ensures
        r == contains_text(s@, pat@),
{
    if pat.len() > s.len() {
        return false;
    }
    if pat.len() == 0 {
        assert(s@.subrange(0, 0) =~= pat@);
        assert(occurs_at(s@, pat@, 0));
        return true;
    }
    let last = s.len() - pat.len();
    let mut i: usize = 0;
    while i <= last
        invariant
            last + pat.len() == s.len(),
            pat@.len() > 0,
            i <= last + 1,
            forall|k: int| 0 <= k < i ==> !occurs_at(s@, pat@, k),
        decreases last + 1 - i,
    {
        if occurs_at_exec(s, pat, i) {
            return true;
        }
        i = i + 1;
    }
    assert forall|k: int| !occurs_at(s@, pat@, k) by {
        if 0 <= k < i {
        }
    }
    false
}

/// Does `s` begin with `p`?
pub fn starts_with_chars(s: &[char], p: &[char]) -> (r: bool)
    ensures
        r == starts_with(s@, p@),
{
    if p.len() > s.len() {
        return false;
    }
    let r = occurs_at_exec(s, p, 0);
    assert(s@.subrange(0, p@.len() as int) =~= s@.take(p@.len() as int));
    r
}

/// The first whitespace-separated word of `s`, if there is one.
pub fn first_word_chars(s: &[char]) -> (r: Option<Vec<char>>)
    ensures
        r matches Some(w) ==> first_word(s@) == Some(w@),
        r is None ==> first_word(s@) is None,
{
    let n = s.len();
    let start = trim_start_index(s);
    if start == n {
        return None;
    }
    let mut end: usize = start;
    while end < n && !is_space_char(s[end])
        invariant
            start <= end <= n,
            n == s@.len(),
            forall|k: int| start <= k < end ==> !is_space(#[trigger] s@[k]),
        decreases n - end,
    {
        end = end + 1;
    }
    let ghost t = s@.subrange(start as int, n as int);
    proof {
        assert forall|i: int| 0 <= i < end - start implies !space_pred()(#[trigger] t[i]) by {
            assert(t[i] == s@[start + i]);
        }
        lemma_first_where(t, space_pred(), end - start);
        assert(t.take(end - start) =~= s@.subrange(start as int, end as int));
    }
    Some(copy_range(s, start, end))
}

/// A line with one trailing `'\r'` removed.
fn strip_cr_chars(line: Vec<char>) -> (r: Vec<char>)
    ensures
        r@ == strip_cr(line@),
{
    let mut line = line;
    let n = line.len();
    if n > 0 && line[n - 1] == '\r' {
        line.pop();
    }
    line
}

/// Unfolding `lines` at a line feed.
proof fn lemma_lines_step(t: Seq<char>, k: int)
    requires
        0 <= k < t.len(),
        t[k] == '\n',
        forall|i: int| 0 <= i < k ==> t[i] != '\n',
    ensures
        lines(t) == seq![strip_cr(t.take(k))] + lines(t.skip(k + 1)),
{
    assert forall|i: int| 0 <= i < k implies !newline_pred()(#[trigger] t[i]) by {}
    lemma_first_where(t, newline_pred(), k);
}

/// `lines` of a text without line feeds.
proof fn lemma_lines_last(t: Seq<char>)
    requires
        forall|i: int| 0 <= i < t.len() ==> t[i] != '\n',
    ensures
        t.len() == 0 ==> lines(t) == Seq::<Seq<char>>::empty(),
        t.len() > 0 ==> lines(t) == seq![t],
{
    assert forall|i: int| 0 <= i < t.len() implies !newline_pred()(#[trigger] t[i]) by {}
    lemma_first_where(t, newline_pred(), t.len() as int);
}

/// The lines of `s`, as `str::lines` splits them.
pub fn split_lines(s: &[char]) -> (r: Vec<Vec<char>>)
    ensures
        views(r@) == lines(s@),
{
    let n = s.len();
    let mut out: Vec<Vec<char>> = Vec::new();
    let mut start: usize = 0;
    let mut j: usize = 0;
    assert(s@.subrange(0, n as int) =~= s@);
    while j < n
        invariant
            start <= j <= n,
            n == s@.len(),
            forall|k: int| start <= k < j ==> s@[k] != '\n',
            views(out@) + lines(s@.subrange(start as int, n as int)) == lines(s@),
        decreases n - j,
    {
        if s[j] == '\n' {
            let ghost t = s@.subrange(start as int, n as int);
            proof {
                assert forall|i: int| 0 <= i < j - start implies t[i] != '\n' by {
                    assert(t[i] == s@[start + i]);
                }
                lemma_lines_step(t, j - start);
                assert(t.take(j - start) =~= s@.subrange(start as int, j as int));
                assert(t.skip(j - start + 1) =~= s@.subrange(j + 1, n as int));
            }
            let piece = copy_range(s, start, j);
            let line = strip_cr_chars(piece);
            let ghost before = views(out@);
            out.push(line);
            assert(views(out@) =~= before.push(strip_cr(s@.subrange(start as int, j as int))));
            start = j + 1;
        }
        j = j + 1;
    }
    let ghost t = s@.subrange(start as int, n as int);
    proof {
        assert forall|i: int| 0 <= i < t.len() implies t[i] != '\n' by {
            assert(t[i] == s@[start + i]);
        }
        lemma_lines_last(t);
    }
    if start < n {
        let ghost before = views(out@);
        out.push(copy_range(s, start, n));
        assert(views(out@) =~= before.push(t));
    } else {
        assert(views(out@) + lines(t) =~= views(out@));
    }
    out
}

} // verus!
