//! Character-level text helpers shared by the naming rules: whitespace,
//! trimming, collapsing, substring tests and line splitting, each stated over
//! `Seq<char>` and implemented on `Vec<char>`.
use vstd::prelude::*;

verus! {

/// Unicode `White_Space`, the set `char::is_whitespace` tests.
pub open spec fn is_ws(c: char) -> bool {
    ||| ('\u{9}' <= c && c <= '\u{d}')
    ||| c == ' '
    ||| c == '\u{85}'
    ||| c == '\u{a0}'
    ||| c == '\u{1680}'
    ||| ('\u{2000}' <= c && c <= '\u{200a}')
    ||| c == '\u{2028}'
    ||| c == '\u{2029}'
    ||| c == '\u{202f}'
    ||| c == '\u{205f}'
    ||| c == '\u{3000}'
}

/// `char::is_ascii_hexdigit`.
pub open spec fn is_hex_digit(c: char) -> bool {
    ||| ('0' <= c && c <= '9')
    ||| ('a' <= c && c <= 'f')
    ||| ('A' <= c && c <= 'F')
}

/// `char::is_ascii_alphanumeric`.
pub open spec fn is_ascii_alnum(c: char) -> bool {
    ||| ('0' <= c && c <= '9')
    ||| ('a' <= c && c <= 'z')
    ||| ('A' <= c && c <= 'Z')
}

/// The code point of `char::to_ascii_lowercase`.
pub open spec fn ascii_lower(c: char) -> u32 {
    if 'A' <= c && c <= 'Z' {
        ((c as u32) + 32) as u32
    } else {
        c as u32
    }
}

/// Leading whitespace removed.
pub open spec fn trim_start(s: Seq<char>) -> Seq<char>
    decreases s.len(),
{
    if s.len() > 0 && is_ws(s[0]) {
        trim_start(s.drop_first())
    } else {
        s
    }
}

/// Trailing whitespace removed.
pub open spec fn trim_end(s: Seq<char>) -> Seq<char>
    decreases s.len(),
{
    if s.len() > 0 && is_ws(s.last()) {
        trim_end(s.drop_last())
    } else {
        s
    }
}

/// `str::trim`: whitespace removed at both ends.
pub open spec fn trim(s: Seq<char>) -> Seq<char> {
    trim_end(trim_start(s))
}

/// The words of `s` (maximal runs of non-whitespace) joined by single
/// spaces: `s.split_whitespace().collect::<Vec<_>>().join(" ")`.
///
/// Stated by the last character: whitespace adds nothing; a word character
/// extends the current word, or starts a new one after a single separating
/// space when whitespace precedes it and some word came before.
pub open spec fn collapse_ws(s: Seq<char>) -> Seq<char>
    decreases s.len(),
{
    if s.len() == 0 {
        Seq::empty()
    } else {
        let prev = collapse_ws(s.drop_last());
        let c = s.last();
        if is_ws(c) {
            prev
        } else if s.len() >= 2 && is_ws(s[s.len() - 2]) && prev.len() > 0 {
            prev.push(' ').push(c)
        } else {
            prev.push(c)
        }
    }
}

/// `s` holds `pat` as a contiguous run.
pub open spec fn contains_seq(s: Seq<char>, pat: Seq<char>) -> bool {
    exists|i: int| 0 <= i && i + pat.len() <= s.len() && #[trigger] s.subrange(i, i + pat.len()) == pat
}

/// `s` begins with `pat`.
pub open spec fn starts_with(s: Seq<char>, pat: Seq<char>) -> bool {
    pat.len() <= s.len() && s.subrange(0, pat.len() as int) == pat
}

/// Every `from` in `s` replaced by `to` (`str::replace` with one-char
/// pattern and one-char replacement).
pub open spec fn replace_char(s: Seq<char>, from: char, to: char) -> Seq<char> {
    s.map_values(|c: char| if c == from { to } else { c })
}

/// Every `drop` removed from `s` (`str::replace(drop, "")`).
pub open spec fn remove_char(s: Seq<char>, drop: char) -> Seq<char>
    decreases s.len(),
{
    if s.len() == 0 {
        s
    } else if s.last() == drop {
        remove_char(s.drop_last(), drop)
    } else {
        remove_char(s.drop_last(), drop).push(s.last())
    }
}

/// The `sep`-separated pieces of `s` (`str::split(sep)`): one more piece
/// than `s` holds `sep`.
pub open spec fn pieces(s: Seq<char>, sep: char) -> Seq<Seq<char>>
    decreases s.len(),
{
    if s.len() == 0 {
        seq![Seq::empty()]
    } else {
        let p = pieces(s.drop_last(), sep);
        if s.last() == sep {
            p.push(Seq::empty())
        } else {
            p.update(p.len() - 1, p.last().push(s.last()))
        }
    }
}

/// A line that was ended by `'\n'` loses one trailing `'\r'`.
pub open spec fn strip_cr(l: Seq<char>) -> Seq<char> {
    if l.len() > 0 && l.last() == '\r' {
        l.drop_last()
    } else {
        l
    }
}

/// `str::lines`: the pieces between `'\n'`s, each terminated one without a
/// trailing `'\r'`; a final empty piece (after a last `'\n'`, or of an empty
/// text) is no line.
pub open spec fn lines(s: Seq<char>) -> Seq<Seq<char>> {
    let p = pieces(s, '\n');
    let terminated = p.drop_last().map_values(|l: Seq<char>| strip_cr(l));
    if p.last().len() == 0 {
        terminated
    } else {
        terminated.push(p.last())
    }
}

pub proof fn lemma_pieces_nonempty(s: Seq<char>, sep: char)
    ensures
        pieces(s, sep).len() >= 1,
    decreases s.len(),
{
    if s.len() > 0 {
        lemma_pieces_nonempty(s.drop_last(), sep);
    }
}

/// The characters of `s`, in order.
pub fn chars_of(s: &str) -> (v: Vec<char>)
    ensures
        v@ == s@,
{
    let mut v: Vec<char> = Vec::new();
    for c in it: s.chars()
        invariant
            v@ == it.seq().take(it.index() as int),
    {
        v.push(c);
    }
    v
}

/// A `String` holding exactly `chars`, in order (`String::from_iter`).
#[verifier::external_body]
pub fn string_of(chars: Vec<char>) -> (s: String)
    ensures
        s@ == chars@,
{
    String::from_iter(chars)
}

/// `char::is_whitespace`.
pub fn is_whitespace(c: char) -> (r: bool)
    ensures
        r == is_ws(c),
{
    ('\u{9}' <= c && c <= '\u{d}') || c == ' ' || c == '\u{85}' || c == '\u{a0}' || c
        == '\u{1680}' || ('\u{2000}' <= c && c <= '\u{200a}') || c == '\u{2028}' || c
        == '\u{2029}' || c == '\u{202f}' || c == '\u{205f}' || c == '\u{3000}'
}

/// `char::is_ascii_hexdigit`.
pub fn is_hex_digit_char(c: char) -> (r: bool)
    ensures
        r == is_hex_digit(c),
{
    ('0' <= c && c <= '9') || ('a' <= c && c <= 'f') || ('A' <= c && c <= 'F')
}

/// `char::is_ascii_alphanumeric`.
pub fn is_ascii_alnum_char(c: char) -> (r: bool)
    ensures
        r == is_ascii_alnum(c),
{
    ('0' <= c && c <= '9') || ('a' <= c && c <= 'z') || ('A' <= c && c <= 'Z')
}

/// `char::eq_ignore_ascii_case`.
pub fn eq_ignore_ascii_case_char(a: char, b: char) -> (r: bool)
    ensures
        r == (ascii_lower(a) == ascii_lower(b)),
{
    let x: u32 = a as u32;
    let y: u32 = b as u32;
    let lx: u32 = if 65 <= x && x <= 90 { x + 32 } else { x };
    let ly: u32 = if 65 <= y && y <= 90 { y + 32 } else { y };
    lx == ly
}

/// Whether `v` equals the literal `lit`.
pub fn eq_lit(v: &[char], lit: &str) -> (r: bool)
    ensures
        r == (v@ == lit@),
{
    let n = lit.unicode_len();
    if v.len() != n {
        return false;
    }
    let mut i: usize = 0;
    while i < n
        invariant
            n == lit@.len(),
            v@.len() == n,
            i <= n,
            forall|j: int| 0 <= j < i ==> v@[j] == lit@[j],
        decreases n - i,
    {
        if v[i] != lit.get_char(i) {
            return false;
        }
        i = i + 1;
    }
    assert(v@ =~= lit@);
    true
}

/// Whether `v[at..]` begins with `pat`.
pub fn matches_at(v: &[char], at: usize, pat: &[char]) -> (r: bool)
    requires
        at + pat@.len() <= v@.len(),
    ensures
        r == (v@.subrange(at as int, at + pat@.len()) == pat@),
{
    let vlen = v.len();
    let mut i: usize = 0;
    while i < pat.len()
        invariant
            vlen == v@.len(),
            at + pat@.len() <= v@.len(),
            i <= pat@.len(),
            forall|j: int| 0 <= j < i ==> v@[at + j] == pat@[j],
        decreases pat.len() - i,
    {
        if v[at + i] != pat[i] {
            assert(v@.subrange(at as int, at + pat@.len())[i as int] != pat@[i as int]);
            return false;
        }
        i = i + 1;
    }
    assert(v@.subrange(at as int, at + pat@.len()) =~= pat@);
    true
}

/// Whether `v` holds the literal `lit` as a contiguous run (`str::contains`).
pub fn contains_lit(v: &[char], lit: &str) -> (r: bool)
    ensures
        r == contains_seq(v@, lit@),
{
    let pat = chars_of(lit);
    if pat.len() > v.len() {
        return false;
    }
    if pat.len() == 0 {
        assert(v@.subrange(0int, 0int + pat@.len()) =~= pat@);
        return true;
    }
    let vlen = v.len();
    let last = vlen - pat.len();
    let mut i: usize = 0;
    while i <= last
        invariant
            vlen == v@.len(),
            pat@ == lit@,
            pat@.len() >= 1,
            last + pat@.len() == v@.len(),
            i <= last + 1,
            forall|j: int| 0 <= j < i ==> #[trigger] v@.subrange(j, j + pat@.len()) != pat@,
        decreases last + 1 - i,
    {
        if matches_at(v, i, pat.as_slice()) {
            return true;
        }
        i = i + 1;
    }
    assert forall|j: int| 0 <= j && j + pat@.len() <= v@.len() implies #[trigger] v@.subrange(
        j,
        j + pat@.len(),
    ) != pat@ by {}
    false
}

/// Whether `v` begins with the literal `lit`.
pub fn starts_with_lit(v: &[char], lit: &str) -> (r: bool)
    ensures
        r == starts_with(v@, lit@),
{
    let pat = chars_of(lit);
    if pat.len() > v.len() {
        return false;
    }
    matches_at(v, 0, pat.as_slice())
}

pub proof fn lemma_trim_start_skip(s: Seq<char>, i: int)
    requires
        0 <= i <= s.len(),
        forall|j: int| 0 <= j < i ==> is_ws(#[trigger] s[j]),
        i == s.len() || !is_ws(s[i]),
    ensures
        trim_start(s) == s.skip(i),
    decreases i,
{
    if i > 0 {
        assert(s.drop_first().skip(i - 1) =~= s.skip(i));
        lemma_trim_start_skip(s.drop_first(), i - 1);
    } else {
        assert(s.skip(0) =~= s);
    }
}

pub proof fn lemma_trim_end_take(s: Seq<char>, i: int)
    requires
        0 <= i <= s.len(),
        forall|j: int| i <= j < s.len() ==> is_ws(#[trigger] s[j]),
        i == 0 || !is_ws(s[i - 1]),
    ensures
        trim_end(s) == s.take(i),
    decreases s.len() - i,
{
    if i < s.len() {
        assert(s.drop_last().take(i) =~= s.take(i));
        lemma_trim_end_take(s.drop_last(), i);
    } else {
        assert(s.take(i) =~= s);
    }
}

/// `v` with trailing whitespace removed.
pub fn trim_end_chars(v: &[char]) -> (r: Vec<char>)
    ensures
        r@ == trim_end(v@),
{
    let mut end = v.len();
    while end > 0 && is_whitespace(v[end - 1])
        invariant
            end <= v@.len(),
            forall|j: int| end <= j < v@.len() ==> is_ws(#[trigger] v@[j]),
        decreases end,
    {
        end = end - 1;
    }
    proof {
        lemma_trim_end_take(v@, end as int);
    }
    let mut r: Vec<char> = Vec::new();
    let mut k: usize = 0;
    while k < end
        invariant
            end <= v@.len(),
            k <= end,
            r@ == v@.take(k as int),
        decreases end - k,
    {
        r.push(v[k]);
        k = k + 1;
        assert(r@ =~= v@.take(k as int));
    }
    r
}

/// `v` with whitespace removed at both ends (`str::trim`).
pub fn trim_chars(v: &[char]) -> (r: Vec<char>)
    ensures
        r@ == trim(v@),
{
    let mut start: usize = 0;
    while start < v.len() && is_whitespace(v[start])
        invariant
            start <= v@.len(),
            forall|j: int| 0 <= j < start ==> is_ws(#[trigger] v@[j]),
        decreases v.len() - start,
    {
        start = start + 1;
    }
    proof {
        lemma_trim_start_skip(v@, start as int);
    }
    let mut rest: Vec<char> = Vec::new();
    let mut k: usize = start;
    while k < v.len()
        invariant
            start <= k <= v@.len(),
            rest@ == v@.subrange(start as int, k as int),
        decreases v.len() - k,
    {
        rest.push(v[k]);
        k = k + 1;
        assert(rest@ =~= v@.subrange(start as int, k as int));
    }
    assert(rest@ =~= v@.skip(start as int));
    trim_end_chars(rest.as_slice())
}

/// The words of `v` joined by single spaces.
pub fn collapse_whitespace(v: &[char]) -> (r: Vec<char>)
    ensures
        r@ == collapse_ws(v@),
{
    let mut out: Vec<char> = Vec::new();
    let mut k: usize = 0;
    while k < v.len()
        invariant
            k <= v@.len(),
            out@ == collapse_ws(v@.take(k as int)),
        decreases v.len() - k,
    {
        let c = v[k];
        let ghost before = v@.take(k as int);
        proof {
            assert(v@.take(k + 1).drop_last() =~= before);
        }
        if is_whitespace(c) {
        } else {
            if k > 0 && is_whitespace(v[k - 1]) && out.len() > 0 {
                out.push(' ');
            }
            out.push(c);
        }
        k = k + 1;
    }
    assert(v@.take(v@.len() as int) =~= v@);
    out
}

/// `v` with every `from` replaced by `to`.
pub fn replace_chars(v: &[char], from: char, to: char) -> (r: Vec<char>)
    ensures
        r@ == replace_char(v@, from, to),
{
    let mut out: Vec<char> = Vec::new();
    let mut k: usize = 0;
    while k < v.len()
        invariant
            k <= v@.len(),
            out@ == replace_char(v@.take(k as int), from, to),
        decreases v.len() - k,
    {
        let c = v[k];
        if c == from {
            out.push(to);
        } else {
            out.push(c);
        }
        k = k + 1;
        assert(out@ =~= replace_char(v@.take(k as int), from, to));
    }
    assert(v@.take(v@.len() as int) =~= v@);
    out
}

/// `v` with every `drop` removed.
pub fn remove_chars(v: &[char], drop: char) -> (r: Vec<char>)
    ensures
        r@ == remove_char(v@, drop),
{
    let mut out: Vec<char> = Vec::new();
    let mut k: usize = 0;
    while k < v.len()
        invariant
            k <= v@.len(),
            out@ == remove_char(v@.take(k as int), drop),
        decreases v.len() - k,
    {
        let c = v[k];
        proof {
            assert(v@.take(k + 1).drop_last() =~= v@.take(k as int));
        }
        if c != drop {
            out.push(c);
        }
        k = k + 1;
    }
    assert(v@.take(v@.len() as int) =~= v@);
    out
}

/// The lines of `s`, as `str::lines` yields them.
pub fn split_lines(s: &[char]) -> (r: Vec<Vec<char>>)
    ensures
        r@.len() == lines(s@).len(),
        forall|i: int| 0 <= i < r@.len() ==> #[trigger] r@[i]@ == lines(s@)[i],
{
    let mut done: Vec<Vec<char>> = Vec::new();
    let mut cur: Vec<char> = Vec::new();
    let mut k: usize = 0;
    while k < s.len()
        invariant
            k <= s@.len(),
            pieces(s@.take(k as int), '\n').len() == done@.len() + 1,
            forall|i: int|
                0 <= i < done@.len() ==> #[trigger] done@[i]@ == strip_cr(
                    pieces(s@.take(k as int), '\n')[i],
                ),
            cur@ == pieces(s@.take(k as int), '\n').last(),
        decreases s.len() - k,
    {
        let c = s[k];
        let ghost before = s@.take(k as int);
        proof {
            assert(s@.take(k + 1).drop_last() =~= before);
            lemma_pieces_nonempty(before, '\n');
        }
        if c == '\n' {
            let mut line = cur;
            if line.len() > 0 && line[line.len() - 1] == '\r' {
                line.pop();
            }
            proof {
                assert(line@ == strip_cr(pieces(before, '\n').last()));
            }
            done.push(line);
            cur = Vec::new();
        } else {
            cur.push(c);
        }
        k = k + 1;
    }
    proof {
        assert(s@.take(s@.len() as int) =~= s@);
        lemma_pieces_nonempty(s@, '\n');
    }
    if cur.len() > 0 {
        done.push(cur);
    }
    done
}


/// The `sep`-separated pieces of `s`, every one of them.
pub fn split_pieces(s: &[char], sep: char) -> (r: Vec<Vec<char>>)
    ensures
        r@.len() == pieces(s@, sep).len(),
        forall|i: int| 0 <= i < r@.len() ==> #[trigger] r@[i]@ == pieces(s@, sep)[i],
{
    let mut done: Vec<Vec<char>> = Vec::new();
    let mut cur: Vec<char> = Vec::new();
    let mut k: usize = 0;
    while k < s.len()
        invariant
            k <= s@.len(),
            pieces(s@.take(k as int), sep).len() == done@.len() + 1,
            forall|i: int|
                0 <= i < done@.len() ==> #[trigger] done@[i]@ == pieces(s@.take(k as int), sep)[i],
            cur@ == pieces(s@.take(k as int), sep).last(),
        decreases s.len() - k,
    {
        let c = s[k];
        let ghost before = s@.take(k as int);
        proof {
            assert(s@.take(k + 1).drop_last() =~= before);
            lemma_pieces_nonempty(before, sep);
        }
        if c == sep {
            done.push(cur);
            cur = Vec::new();
        } else {
            cur.push(c);
        }
        k = k + 1;
    }
    proof {
        assert(s@.take(s@.len() as int) =~= s@);
    }
    done.push(cur);
    done
}

/// Whitespace occurs only as single `' '`s, never first and never after
/// other whitespace (a final single space is allowed).
pub open spec fn spaced_words_prefix(s: Seq<char>) -> bool {
    forall|i: int|
        0 <= i < s.len() && is_ws(#[trigger] s[i]) ==> s[i] == ' ' && i > 0 && !is_ws(s[i - 1])
}

/// Words separated by single spaces, with no whitespace at either end.
pub open spec fn spaced_words(s: Seq<char>) -> bool {
    spaced_words_prefix(s) && (s.len() == 0 || !is_ws(s.last()))
}

/// Collapsing yields words separated by single spaces.
pub proof fn lemma_collapse_spaced(s: Seq<char>)
    ensures
        spaced_words(collapse_ws(s)),
    decreases s.len(),
{
    if s.len() > 0 {
        let prev = collapse_ws(s.drop_last());
        lemma_collapse_spaced(s.drop_last());
        let c = s.last();
        if is_ws(c) {
        } else if s.len() >= 2 && is_ws(s[s.len() - 2]) && prev.len() > 0 {
            let r = prev.push(' ').push(c);
            assert forall|i: int| 0 <= i < r.len() && is_ws(#[trigger] r[i]) implies r[i] == ' '
                && i > 0 && !is_ws(r[i - 1]) by {
                if i < prev.len() {
                    assert(r[i] == prev[i]);
                    assert(r[i - 1] == prev[i - 1]);
                } else if i == prev.len() {
                    assert(r[i - 1] == prev.last());
                }
            }
        } else {
            let r = prev.push(c);
            assert forall|i: int| 0 <= i < r.len() && is_ws(#[trigger] r[i]) implies r[i] == ' '
                && i > 0 && !is_ws(r[i - 1]) by {
                if i < prev.len() {
                    assert(r[i] == prev[i]);
                    assert(r[i - 1] == prev[i - 1]);
                }
            }
        }
    }
}

/// On words already separated by single spaces, collapsing only drops a
/// final space.
pub proof fn lemma_collapse_of_spaced(s: Seq<char>)
    requires
        spaced_words_prefix(s),
    ensures
        s.len() == 0 || !is_ws(s.last()) ==> collapse_ws(s) == s,
        s.len() > 0 && is_ws(s.last()) ==> collapse_ws(s) == s.drop_last(),
    decreases s.len(),
{
    if s.len() > 0 {
        let d = s.drop_last();
        assert(spaced_words_prefix(d)) by {
            assert forall|i: int| 0 <= i < d.len() && is_ws(#[trigger] d[i]) implies d[i] == ' '
                && i > 0 && !is_ws(d[i - 1]) by {
                assert(s[i] == d[i]);
            }
        }
        lemma_collapse_of_spaced(d);
        if is_ws(s.last()) {
            assert(s[s.len() - 1] == s.last());
        } else if d.len() > 0 && is_ws(d.last()) {
            assert(d[d.len() - 1] == d.last());
            assert(d.len() >= 2);
            assert(d.drop_last().len() > 0);
            assert(d.drop_last().push(' ').push(s.last()) =~= s);
        } else {
            assert(d.push(s.last()) =~= s);
        }
    }
}

/// A prefix keeps single spacing.
pub proof fn lemma_spaced_prefix(s: Seq<char>, n: int)
    requires
        spaced_words_prefix(s),
        0 <= n <= s.len(),
    ensures
        spaced_words_prefix(s.take(n)),
{
    let t = s.take(n);
    assert forall|i: int| 0 <= i < t.len() && is_ws(#[trigger] t[i]) implies t[i] == ' ' && i > 0
        && !is_ws(t[i - 1]) by {
        assert(s[i] == t[i]);
    }
}

/// Trimming the end of singly spaced words leaves words separated by single
/// spaces; at most the final space goes.
pub proof fn lemma_trim_end_spaced(s: Seq<char>)
    requires
        spaced_words_prefix(s),
    ensures
        spaced_words(trim_end(s)),
        trim_end(s).len() <= s.len(),
{
    if s.len() > 0 && is_ws(s.last()) {
        let d = s.drop_last();
        assert(s[s.len() - 1] == s.last());
        assert(d.len() > 0 && !is_ws(d.last())) by {
            assert(d[d.len() - 1] == s[s.len() - 2]);
        }
        assert(trim_end(d) == d);
        assert forall|i: int| 0 <= i < d.len() && is_ws(#[trigger] d[i]) implies d[i] == ' ' && i > 0
            && !is_ws(d[i - 1]) by {
            assert(s[i] == d[i]);
        }
    }
}

/// A text that ends with `sep` (or is empty) ends with an empty piece.
pub proof fn lemma_pieces_last_empty(a: Seq<char>, sep: char)
    requires
        a.len() == 0 || a.last() == sep,
    ensures
        pieces(a, sep).last().len() == 0,
{
}

/// A text without `sep` is a single piece.
pub proof fn lemma_pieces_without_sep(l: Seq<char>, sep: char)
    requires
        forall|i: int| 0 <= i < l.len() ==> #[trigger] l[i] != sep,
    ensures
        pieces(l, sep) == seq![l],
    decreases l.len(),
{
    if l.len() > 0 {
        let d = l.drop_last();
        assert forall|i: int| 0 <= i < d.len() implies #[trigger] d[i] != sep by {
            assert(d[i] == l[i]);
        }
        lemma_pieces_without_sep(d, sep);
        assert(l[l.len() - 1] == l.last());
        assert(d.push(l.last()) =~= l);
        assert(seq![d].update(0, d.push(l.last())) =~= seq![l]);
    } else {
        assert(l =~= Seq::<char>::empty());
    }
}

/// Splitting a text that follows a completed piece: the pieces of `a + b`
/// are those of `a`, but its final empty one, followed by those of `b`.
pub proof fn lemma_pieces_append(a: Seq<char>, b: Seq<char>, sep: char)
    requires
        pieces(a, sep).last().len() == 0,
    ensures
        pieces(a + b, sep) == pieces(a, sep).drop_last() + pieces(b, sep),
    decreases b.len(),
{
    lemma_pieces_nonempty(a, sep);
    if b.len() == 0 {
        assert(a + b =~= a);
        assert(pieces(a, sep).last() =~= Seq::<char>::empty());
        assert(pieces(a, sep).drop_last() + seq![Seq::<char>::empty()] =~= pieces(a, sep));
    } else {
        let b0 = b.drop_last();
        lemma_pieces_append(a, b0, sep);
        assert((a + b).drop_last() =~= a + b0);
        assert((a + b).last() == b.last());
        lemma_pieces_nonempty(b0, sep);
        let d = pieces(a, sep).drop_last();
        let pb = pieces(b0, sep);
        if b.last() == sep {
            assert((d + pb).push(Seq::<char>::empty()) =~= d + pb.push(Seq::<char>::empty()));
        } else {
            assert((d + pb).update((d + pb).len() - 1, (d + pb).last().push(b.last())) =~= d
                + pb.update(pb.len() - 1, pb.last().push(b.last())));
        }
    }
}

/// Appending one line and its `'\n'` to a text of whole lines appends that
/// line to its lines.
pub proof fn lemma_lines_append_line(a: Seq<char>, l: Seq<char>)
    requires
        a.len() == 0 || a.last() == '\n',
        forall|i: int| 0 <= i < l.len() ==> #[trigger] l[i] != '\n',
    ensures
        lines(a + l + seq!['\n']) == lines(a).push(strip_cr(l)),
{
    let b = l + seq!['\n'];
    assert(a + l + seq!['\n'] =~= a + b);
    lemma_pieces_last_empty(a, '\n');
    lemma_pieces_append(a, b, '\n');
    lemma_pieces_without_sep(l, '\n');
    assert(b.drop_last() =~= l);
    assert(pieces(b, '\n') == seq![l, Seq::<char>::empty()]);
    lemma_pieces_nonempty(a, '\n');
    let d = pieces(a, '\n').drop_last();
    let p = pieces(a + b, '\n');
    assert(p =~= d + seq![l, Seq::<char>::empty()]);
    assert(p.drop_last() =~= d.push(l));
    assert(p.drop_last().map_values(|x: Seq<char>| strip_cr(x)) =~= d.map_values(
        |x: Seq<char>| strip_cr(x),
    ).push(strip_cr(l)));
}

} // verus!
