//! Character-level text helpers shared by the rest of the library.
//!
//! Strings cross the public API as `&str` / `String`; internally the
//! library works on `Vec<char>` and states its contracts over `Seq<char>`.

use vstd::prelude::*;

verus! {

broadcast use vstd::string::group_string_axioms;

// ---------------------------------------------------------------------
// Specifications
// ---------------------------------------------------------------------

/// Unicode `White_Space` property, the set `char::is_whitespace` tests.
pub open spec fn is_ws(c: char) -> bool {
    ||| ('\u{9}' <= c && c <= '\u{d}')
    ||| c == ' '
    ||| c == '\u{85}'
    ||| c == '\u{a0}'
    ||| c == '\u{1680}'
    ||| ('\u{2000}' <= c && c <= '\u{200a}')
    ||| c == '\u{2028}'
    ||| c == '\u{2029}'
    ||| c == '\u{202f}'
    ||| c == '\u{205f}'
    ||| c == '\u{3000}'
}

/// `s` with leading whitespace removed.
pub open spec fn trim_start(s: Seq<char>) -> Seq<char>
    decreases s.len(),
{
    if s.len() > 0 && is_ws(s[0]) {
        trim_start(s.drop_first())
    } else {
        s
    }
}

/// `s` with trailing whitespace removed.
pub open spec fn trim_end(s: Seq<char>) -> Seq<char>
    decreases s.len(),
{
    if s.len() > 0 && is_ws(s.last()) {
        trim_end(s.drop_last())
    } else {
        s
    }
}

/// `s` with leading and trailing whitespace removed (`str::trim`).
pub open spec fn trim(s: Seq<char>) -> Seq<char> {
    trim_end(trim_start(s))
}

/// Number of leading characters of `s` that are not whitespace.
pub open spec fn word_prefix_len(s: Seq<char>) -> nat
    decreases s.len(),
{
    if s.len() > 0 && !is_ws(s[0]) {
        1 + word_prefix_len(s.drop_first())
    } else {
        0
    }
}

/// Bounds on the length of the leading word.
pub proof fn lemma_word_prefix_len(s: Seq<char>)
    ensures
        word_prefix_len(s) <= s.len(),
        s.len() > 0 && !is_ws(s[0]) ==> word_prefix_len(s) >= 1,
        forall|j: int| 0 <= j < word_prefix_len(s) ==> !is_ws(#[trigger] s[j]),
        word_prefix_len(s) < s.len() ==> is_ws(s[word_prefix_len(s) as int]),
    decreases s.len(),
{
    if s.len() > 0 && !is_ws(s[0]) {
        lemma_word_prefix_len(s.drop_first());
        assert forall|j: int| 0 <= j < word_prefix_len(s) implies !is_ws(#[trigger] s[j]) by {
            if j > 0 {
                assert(s[j] == s.drop_first()[j - 1]);
            }
        }
    }
}

/// The maximal runs of non-whitespace characters of `s`, in order
/// (`str::split_whitespace`).
pub open spec fn words(s: Seq<char>) -> Seq<Seq<char>>
    decreases s.len(),
{
    if s.len() == 0 {
        Seq::empty()
    } else if is_ws(s[0]) {
        words(s.drop_first())
    } else {
        proof {
            lemma_word_prefix_len(s);
        }
        let k = word_prefix_len(s);
        seq![s.subrange(0, k as int)] + words(s.subrange(k as int, s.len() as int))
    }
}

/// `parts` joined with `sep` between consecutive parts.
pub open spec fn join(parts: Seq<Seq<char>>, sep: Seq<char>) -> Seq<char>
    decreases parts.len(),
{
    if parts.len() == 0 {
        Seq::empty()
    } else if parts.len() == 1 {
        parts[0]
    } else {
        join(parts.drop_last(), sep) + sep + parts.last()
    }
}

/// `s` with every occurrence of the character `c` replaced by `r`.
pub open spec fn replace_char(s: Seq<char>, c: char, r: Seq<char>) -> Seq<char>
    decreases s.len(),
{
    if s.len() == 0 {
        s
    } else {
        replace_char(s.drop_last(), c, r) + (if s.last() == c {
            r
        } else {
            seq![s.last()]
        })
    }
}

/// `pat` occurs in `s` starting at position `i`.
pub open spec fn occurs_at(s: Seq<char>, pat: Seq<char>, i: int) -> bool {
    0 <= i && i + pat.len() <= s.len() && s.subrange(i, i + pat.len()) == pat
}

/// `pat` occurs somewhere in `s`.
pub open spec fn contains(s: Seq<char>, pat: Seq<char>) -> bool {
    exists|i: int| occurs_at(s, pat, i)
}

/// The decimal digit character for `d < 10`.
pub open spec fn digit(d: nat) -> char {
    if d == 0 { '0' }
    else if d == 1 { '1' }
    else if d == 2 { '2' }
    else if d == 3 { '3' }
    else if d == 4 { '4' }
    else if d == 5 { '5' }
    else if d == 6 { '6' }
    else if d == 7 { '7' }
    else if d == 8 { '8' }
    else { '9' }
}

/// Decimal rendering of `n`, without leading zeros (`"0"` for zero).
pub open spec fn dec(n: nat) -> Seq<char>
    decreases n,
{
    if n < 10 {
        seq![digit(n)]
    } else {
        dec(n / 10) + seq![digit(n % 10)]
    }
}

// ---------------------------------------------------------------------
// Conversions
// ---------------------------------------------------------------------

/// The characters of `s`, in order.
pub fn chars_of(s: &str) -> (v: Vec<char>)
    ensures
        v@ == s@,
{
    let mut v: Vec<char> = Vec::new();
    for c in it: s.chars()
        invariant
            v@ == it.seq().take(it.index()),
            it.seq() == s@,
    {
        v.push(c);
        assert(v@ == it.seq().take(it.index() + 1));
    }
    v
}

/// Builds a `String` holding exactly the characters of `v`.
///
/// Trusted: wraps std's `FromIterator<&char> for String`, which appends
/// each character in order; the contract claims the string's characters
/// are those of `v`.
#[verifier::external_body]
pub(crate) fn string_from_chars(v: &Vec<char>) -> (s: String)
    ensures
        s@ == v@,
{
    String::from_iter(v.iter())
}

/// Appends the characters of `s` to `out`.
pub fn push_str(out: &mut Vec<char>, s: &str)
    ensures
        final(out)@ == old(out)@ + s@,
{
    let v = chars_of(s);
    push_all(out, &v);
}

/// Appends the characters of `v` to `out`.
pub fn push_all(out: &mut Vec<char>, v: &Vec<char>)
    ensures
        final(out)@ == old(out)@ + v@,
{
    let ghost start = out@;
    let mut i: usize = 0;
    while i < v.len()
        invariant
            i <= v.len(),
            out@ == start + v@.take(i as int),
        decreases v.len() - i,
    {
        out.push(v[i]);
        i += 1;
        assert(out@ == start + v@.take(i as int));
    }
    assert(v@.take(i as int) == v@);
}

/// `a` and `b` hold the same characters.
pub fn str_eq(a: &str, b: &str) -> (r: bool)
    ensures
        r == (a@ == b@),
{
    let x = chars_of(a);
    let y = chars_of(b);
    seq_eq(&x, &y)
}

/// `x` and `y` hold the same characters.
pub fn seq_eq(x: &Vec<char>, y: &Vec<char>) -> (r: bool)
    ensures
        r == (x@ == y@),
{
    if x.len() != y.len() {
        return false;
    }
    let mut i: usize = 0;
    while i < x.len()
        invariant
            x.len() == y.len(),
            i <= x.len(),
            forall|j: int| 0 <= j < i ==> x@[j] == y@[j],
        decreases x.len() - i,
    {
        if x[i] != y[i] {
            return false;
        }
        i += 1;
    }
    assert(x@ =~= y@);
    true
}

/// Whether `c` is whitespace in the sense of `char::is_whitespace`.
pub fn is_ws_char(c: char) -> (r: bool)
    ensures
        r == is_ws(c),
{
    ('\u{9}' <= c && c <= '\u{d}') || c == ' ' || c == '\u{85}' || c == '\u{a0}'
        || c == '\u{1680}' || ('\u{2000}' <= c && c <= '\u{200a}') || c == '\u{2028}'
        || c == '\u{2029}' || c == '\u{202f}' || c == '\u{205f}' || c == '\u{3000}'
}

/// Decimal digits of `n`.
pub fn dec_chars(n: u128) -> (v: Vec<char>)
    ensures
        v@ == dec(n as nat),
    decreases n,
{
    if n < 10 {
        let d = digit_char(n);
        vec![d]
    } else {
        let mut v = dec_chars(n / 10);
        v.push(digit_char(n % 10));
        v
    }
}

pub fn digit_char(d: u128) -> (c: char)
    requires
        d < 10,
    ensures
        c == digit(d as nat),
{
    if d == 0 { '0' }
    else if d == 1 { '1' }
    else if d == 2 { '2' }
    else if d == 3 { '3' }
    else if d == 4 { '4' }
    else if d == 5 { '5' }
    else if d == 6 { '6' }
    else if d == 7 { '7' }
    else if d == 8 { '8' }
    else { '9' }
}


// ---------------------------------------------------------------------
// Words, trimming, joining
// ---------------------------------------------------------------------

/// A run of `k` non-whitespace characters ended by whitespace or the end
/// of `t` is exactly the leading word of `t`.
pub proof fn lemma_word_prefix_exact(t: Seq<char>, k: int)
    requires
        0 <= k <= t.len(),
        forall|j: int| 0 <= j < k ==> !is_ws(#[trigger] t[j]),
        k == t.len() || is_ws(t[k]),
    ensures
        word_prefix_len(t) == k,
    decreases k,
{
    if k > 0 {
        let u = t.drop_first();
        assert forall|j: int| 0 <= j < k - 1 implies !is_ws(#[trigger] u[j]) by {
            assert(u[j] == t[j + 1]);
        }
        if k < t.len() {
            assert(u[k - 1] == t[k]);
        }
        lemma_word_prefix_exact(u, k - 1);
    }
}

/// For a vector of characters the deep view is the plain view.
pub proof fn lemma_chars_deep_view(v: &Vec<char>)
    ensures
        v.deep_view() == v@,
{
    assert(v.deep_view() =~= v@);
}

/// The whitespace-separated words of `s` (`str::split_whitespace`).
pub fn words_of(s: &Vec<char>) -> (r: Vec<Vec<char>>)
    ensures
        r.deep_view() == words(s@),
{
    let n = s.len();
    let mut i: usize = 0;
    let mut out: Vec<Vec<char>> = Vec::new();
    assert(s@.subrange(0, n as int) == s@);
    while i < n
        invariant
            n == s.len(),
            i <= n,
            words(s@) == out.deep_view() + words(s@.subrange(i as int, n as int)),
        decreases n - i,
    {
        let ghost t = s@.subrange(i as int, n as int);
        if is_ws_char(s[i]) {
            assert(t.drop_first() == s@.subrange(i + 1, n as int));
            i += 1;
        } else {
            let mut j: usize = i;
            let mut w: Vec<char> = Vec::new();
            while j < n && !is_ws_char(s[j])
                invariant
                    n == s.len(),
                    i <= j <= n,
                    w@ == s@.subrange(i as int, j as int),
                    forall|k: int| i <= k < j ==> !is_ws(#[trigger] s@[k]),
                decreases n - j,
            {
                w.push(s[j]);
                j += 1;
                assert(w@ == s@.subrange(i as int, j as int));
            }
            proof {
                assert forall|k: int| 0 <= k < j - i implies !is_ws(#[trigger] t[k]) by {
                    assert(t[k] == s@[i + k]);
                }
                if j < n {
                    assert(t[j - i] == s@[j as int]);
                }
                lemma_word_prefix_exact(t, j - i);
                assert(t.subrange(0, j - i) == w@);
                assert(t.subrange(j - i, t.len() as int) == s@.subrange(j as int, n as int));
            }
            let ghost before = out.deep_view();
            proof {
                lemma_chars_deep_view(&w);
            }
            let ghost wv = w@;
            out.push(w);
            assert(out.deep_view() =~= before.push(wv));
            i = j;
        }
    }
    assert(out.deep_view() + words(s@.subrange(n as int, n as int)) == out.deep_view());
    out
}

/// Index of the first non-whitespace character of `s` (or its length).
spec fn first_non_ws(s: Seq<char>) -> nat
    decreases s.len(),
{
    if s.len() > 0 && is_ws(s[0]) {
        1 + first_non_ws(s.drop_first())
    } else {
        0
    }
}

proof fn lemma_trim_start_skip(s: Seq<char>, k: int)
    requires
        0 <= k <= s.len(),
        forall|j: int| 0 <= j < k ==> is_ws(#[trigger] s[j]),
    ensures
        trim_start(s) == trim_start(s.subrange(k, s.len() as int)),
    decreases k,
{
    if k > 0 {
        assert(is_ws(s[0]));
        assert(s.drop_first().subrange(k - 1, s.drop_first().len() as int) == s.subrange(k, s.len() as int));
        assert forall|j: int| 0 <= j < k - 1 implies is_ws(#[trigger] s.drop_first()[j]) by {
            assert(s.drop_first()[j] == s[j + 1]);
        }
        lemma_trim_start_skip(s.drop_first(), k - 1);
    } else {
        assert(s.subrange(0, s.len() as int) == s);
    }
}

proof fn lemma_trim_end_skip(s: Seq<char>, k: int)
    requires
        0 <= k <= s.len(),
        forall|j: int| k <= j < s.len() ==> is_ws(#[trigger] s[j]),
    ensures
        trim_end(s) == trim_end(s.subrange(0, k)),
    decreases s.len() - k,
{
    if k < s.len() {
        assert(s.drop_last().subrange(0, k) == s.subrange(0, k));
        assert forall|j: int| k <= j < s.drop_last().len() implies is_ws(#[trigger] s.drop_last()[j]) by {
            assert(s.drop_last()[j] == s[j]);
        }
        lemma_trim_end_skip(s.drop_last(), k);
    } else {
        assert(s.subrange(0, k) == s);
    }
}

/// `s` without leading and trailing whitespace (`str::trim`).
pub fn trim_chars(s: &Vec<char>) -> (r: Vec<char>)
    ensures
        r@ == trim(s@),
{
    let n = s.len();
    let mut lo: usize = 0;
    while lo < n && is_ws_char(s[lo])
        invariant
            n == s.len(),
            lo <= n,
            forall|j: int| 0 <= j < lo ==> is_ws(#[trigger] s@[j]),
        decreases n - lo,
    {
        lo += 1;
    }
    proof {
        lemma_trim_start_skip(s@, lo as int);
    }
    let ghost t = s@.subrange(lo as int, n as int);
    assert(lo < n ==> !is_ws(t[0]));
    assert(trim_start(t) == t);
    let mut hi: usize = n;
    while hi > lo && is_ws_char(s[hi - 1])
        invariant
            n == s.len(),
            lo <= hi <= n,
            forall|j: int| hi <= j < n ==> is_ws(#[trigger] s@[j]),
        decreases hi,
    {
        hi -= 1;
    }
    proof {
        assert forall|j: int| hi - lo <= j < t.len() implies is_ws(#[trigger] t[j]) by {
            assert(t[j] == s@[lo + j]);
        }
        lemma_trim_end_skip(t, hi - lo);
        let u = t.subrange(0, hi - lo);
        assert(u.len() > 0 ==> u.last() == s@[hi - 1]);
        assert(trim_end(u) == u);
        assert(u == s@.subrange(lo as int, hi as int));
    }
    let mut r: Vec<char> = Vec::new();
    let mut k: usize = lo;
    while k < hi
        invariant
            lo <= k <= hi <= n,
            n == s.len(),
            r@ == s@.subrange(lo as int, k as int),
        decreases hi - k,
    {
        r.push(s[k]);
        k += 1;
        assert(r@ == s@.subrange(lo as int, k as int));
    }
    r
}

/// `parts` joined with `sep` between consecutive parts.
pub fn join_chars(parts: &Vec<Vec<char>>, sep: &Vec<char>) -> (r: Vec<char>)
    ensures
        r@ == join(parts.deep_view(), sep@),
{
    let mut r: Vec<char> = Vec::new();
    let mut i: usize = 0;
    while i < parts.len()
        invariant
            i <= parts.len(),
            r@ == join(parts.deep_view().take(i as int), sep@),
        decreases parts.len() - i,
    {
        let ghost pv = parts.deep_view();
        assert(pv.take(i + 1).drop_last() == pv.take(i as int));
        if i > 0 {
            push_all(&mut r, sep);
        }
        push_all(&mut r, &parts[i]);
        i += 1;
    }
    assert(parts.deep_view().take(i as int) == parts.deep_view());
    r
}

/// `s` with every `c` replaced by the characters of `rep`.
pub fn replace_char_chars(s: &Vec<char>, c: char, rep: &Vec<char>) -> (r: Vec<char>)
    ensures
        r@ == replace_char(s@, c, rep@),
{
    let mut r: Vec<char> = Vec::new();
    let mut i: usize = 0;
    while i < s.len()
        invariant
            i <= s.len(),
            r@ == replace_char(s@.take(i as int), c, rep@),
        decreases s.len() - i,
    {
        assert(s@.take(i + 1).drop_last() == s@.take(i as int));
        if s[i] == c {
            push_all(&mut r, rep);
        } else {
            r.push(s[i]);
        }
        i += 1;
    }
    assert(s@.take(i as int) == s@);
    r
}

/// Appends the decimal digits of `n` to `out`.
pub fn push_dec(out: &mut Vec<char>, n: u128)
    ensures
        final(out)@ == old(out)@ + dec(n as nat),
{
    let d = dec_chars(n);
    push_all(out, &d);
}

/// Converts each character vector to a `String`, keeping the order.
pub fn strings_from(v: Vec<Vec<char>>) -> (r: Vec<String>)
    ensures
        r.deep_view() == v.deep_view(),
{
    let mut r: Vec<String> = Vec::new();
    let mut i: usize = 0;
    while i < v.len()
        invariant
            i <= v.len(),
            r.deep_view() == v.deep_view().take(i as int),
        decreases v.len() - i,
    {
        let s = string_from_chars(&v[i]);
        proof {
            lemma_chars_deep_view(&v[i as int]);
        }
        let ghost before = r.deep_view();
        let ghost sv = s@;
        assert(sv == v.deep_view()[i as int]);
        r.push(s);
        assert(r.deep_view() =~= before.push(sv));
        assert(before.push(sv) =~= v.deep_view().take(i + 1));
        i += 1;
    }
    assert(v.deep_view().take(i as int) =~= v.deep_view());
    r
}

/// Every word of `s` is a non-empty run of non-whitespace characters.
pub proof fn lemma_words_shape(s: Seq<char>)
    ensures
        forall|k: int| 0 <= k < words(s).len() ==> #[trigger] words(s)[k].len() > 0,
        forall|k: int, j: int|
            0 <= k < words(s).len() && 0 <= j < words(s)[k].len() ==> !is_ws(#[trigger] words(s)[k][j]),
    decreases s.len(),
{
    if s.len() == 0 {
    } else if is_ws(s[0]) {
        lemma_words_shape(s.drop_first());
        assert(words(s) == words(s.drop_first()));
    } else {
        lemma_word_prefix_len(s);
        let k = word_prefix_len(s);
        let rest = s.subrange(k as int, s.len() as int);
        lemma_words_shape(rest);
        let w = s.subrange(0, k as int);
        assert(words(s) == seq![w] + words(rest));
        assert forall|a: int| 0 <= a < words(s).len() implies #[trigger] words(s)[a].len() > 0 by {
            if a > 0 {
                assert(words(s)[a] == words(rest)[a - 1]);
            }
        }
        assert forall|a: int, j: int|
            0 <= a < words(s).len() && 0 <= j < words(s)[a].len() implies !is_ws(#[trigger] words(s)[a][j]) by {
            if a > 0 {
                assert(words(s)[a] == words(rest)[a - 1]);
            } else {
                assert(words(s)[a] == w);
                assert(w[j] == s[j]);
            }
        }
    }
}

/// Joining after appending one more part.
pub proof fn lemma_join_push(parts: Seq<Seq<char>>, sep: Seq<char>, x: Seq<char>)
    ensures
        join(parts.push(x), sep) == if parts.len() == 0 { x } else { join(parts, sep) + sep + x },
{
    assert(parts.push(x).drop_last() == parts);
    assert(parts.push(x).last() == x);
    if parts.len() == 0 {
        assert(parts.push(x)[0] == x);
    }
}

/// Number of characters in `s` (`s.chars().count()`).
pub fn char_count(s: &str) -> (n: usize)
    ensures
        n == s@.len(),
{
    s.unicode_len()
}

/// Replacing a character distributes over concatenation.
pub proof fn lemma_replace_char_concat(a: Seq<char>, b: Seq<char>, c: char, r: Seq<char>)
    ensures
        replace_char(a + b, c, r) == replace_char(a, c, r) + replace_char(b, c, r),
    decreases b.len(),
{
    if b.len() == 0 {
        assert(a + b == a);
    } else {
        assert((a + b).drop_last() == a + b.drop_last());
        assert((a + b).last() == b.last());
        lemma_replace_char_concat(a, b.drop_last(), c, r);
    }
}

/// `s` without any occurrence of `c`.
pub open spec fn remove_char(s: Seq<char>, c: char) -> Seq<char>
    decreases s.len(),
{
    if s.len() == 0 {
        s
    } else if s[0] == c {
        remove_char(s.drop_first(), c)
    } else {
        seq![s[0]] + remove_char(s.drop_first(), c)
    }
}

/// First position at or after `i` where `pat` occurs in `s`, or -1.
pub open spec fn find_from(s: Seq<char>, pat: Seq<char>, i: int) -> int
    decreases s.len() + 1 - i,
{
    if i < 0 || i + pat.len() > s.len() {
        -1
    } else if occurs_at(s, pat, i) {
        i
    } else {
        find_from(s, pat, i + 1)
    }
}

/// What `find_from` finds.
pub proof fn lemma_find_from(s: Seq<char>, pat: Seq<char>, i: int)
    requires
        0 <= i,
    ensures
        find_from(s, pat, i) == -1 ==> forall|j: int| i <= j ==> !occurs_at(s, pat, j),
        find_from(s, pat, i) != -1 ==> {
            &&& i <= find_from(s, pat, i)
            &&& occurs_at(s, pat, find_from(s, pat, i))
            &&& forall|j: int| i <= j < find_from(s, pat, i) ==> !occurs_at(s, pat, j)
        },
    decreases s.len() + 1 - i,
{
    if i + pat.len() > s.len() {
    } else if occurs_at(s, pat, i) {
    } else {
        lemma_find_from(s, pat, i + 1);
    }
}

/// Whether `pat` occurs in `s` at position `i`.
pub fn occurs_at_exec(s: &Vec<char>, pat: &Vec<char>, i: usize) -> (r: bool)
    ensures
        r == occurs_at(s@, pat@, i as int),
{
    if i > s.len() || pat.len() > s.len() - i {
        return false;
    }
    let mut k: usize = 0;
    while k < pat.len()
        invariant
            i + pat.len() <= s.len(),
            k <= pat.len(),
            forall|j: int| 0 <= j < k ==> s@[i + j] == pat@[j],
        decreases pat.len() - k,
    {
        if s[i + k] != pat[k] {
            assert(s@.subrange(i as int, i + pat.len())[k as int] != pat@[k as int]);
            return false;
        }
        k += 1;
    }
    assert(s@.subrange(i as int, i + pat.len()) =~= pat@);
    true
}

/// First position at or after `start` where `pat` occurs in `s`.
pub fn find_from_exec(s: &Vec<char>, pat: &Vec<char>, start: usize) -> (r: Option<usize>)
    ensures
        match r {
            Some(k) => find_from(s@, pat@, start as int) == k as int,
            None => find_from(s@, pat@, start as int) == -1,
        },
{
    let mut i = start;
    while i <= s.len() && pat.len() <= s.len() - i
        invariant
            start <= i,
            find_from(s@, pat@, start as int) == find_from(s@, pat@, i as int),
        decreases s.len() + 1 - i,
    {
        if occurs_at_exec(s, pat, i) {
            return Some(i);
        }
        assert(pat@.len() == 0 ==> s@.subrange(i as int, i as int) =~= pat@);
        i += 1;
    }
    None
}

/// Appends `v[lo..hi]` to `out`.
pub fn push_range(out: &mut Vec<char>, v: &Vec<char>, lo: usize, hi: usize)
    requires
        lo <= hi <= v.len(),
    ensures
        final(out)@ == old(out)@ + v@.subrange(lo as int, hi as int),
{
    let ghost start = out@;
    let mut k = lo;
    while k < hi
        invariant
            lo <= k <= hi <= v.len(),
            out@ == start + v@.subrange(lo as int, k as int),
        decreases hi - k,
    {
        out.push(v[k]);
        k += 1;
        assert(out@ == start + v@.subrange(lo as int, k as int));
    }
}

/// Replacing `c` by nothing leaves no `c` behind.
pub proof fn lemma_replace_char_removes(s: Seq<char>, c: char)
    ensures
        forall|j: int| 0 <= j < replace_char(s, c, Seq::empty()).len()
            ==> replace_char(s, c, Seq::empty())[j] != c,
    decreases s.len(),
{
    if s.len() > 0 {
        lemma_replace_char_removes(s.drop_last(), c);
        let a = replace_char(s.drop_last(), c, Seq::empty());
        let tail: Seq<char> = if s.last() == c { Seq::empty() } else { seq![s.last()] };
        assert forall|j: int| 0 <= j < (a + tail).len() implies (a + tail)[j] != c by {
            if j >= a.len() {
                assert((a + tail)[j] == tail[j - a.len()]);
            } else {
                assert((a + tail)[j] == a[j]);
            }
        }
    }
}

/// A character absent from `s` and from the replacement stays absent
/// after replacing another character.
pub proof fn lemma_replace_char_keeps_absent(s: Seq<char>, c: char, r: Seq<char>, d: char)
    requires
        forall|j: int| 0 <= j < s.len() ==> s[j] != d,
        forall|j: int| 0 <= j < r.len() ==> r[j] != d,
    ensures
        forall|j: int| 0 <= j < replace_char(s, c, r).len() ==> replace_char(s, c, r)[j] != d,
    decreases s.len(),
{
    if s.len() > 0 {
        lemma_replace_char_keeps_absent(s.drop_last(), c, r, d);
        let a = replace_char(s.drop_last(), c, r);
        let tail: Seq<char> = if s.last() == c { r } else { seq![s.last()] };
        assert forall|j: int| 0 <= j < (a + tail).len() implies (a + tail)[j] != d by {
            if j >= a.len() {
                assert((a + tail)[j] == tail[j - a.len()]);
            } else {
                assert((a + tail)[j] == a[j]);
            }
        }
    }
}

/// The lines of `s` as `str::lines` yields them: split at `\n`, a `\r`
/// right before the `\n` dropped, and no empty line after a final `\n`.
pub open spec fn lines(s: Seq<char>) -> Seq<Seq<char>>
    decreases s.len(),
{
    if s.len() == 0 {
        Seq::empty()
    } else {
        let k = find_from(s, seq!['\n'], 0);
        if k == -1 {
            seq![s]
        } else {
            proof {
                lemma_find_from(s, seq!['\n'], 0);
            }
            let line = s.subrange(0, k);
            let line2 = if line.len() > 0 && line.last() == '\r' {
                line.drop_last()
            } else {
                line
            };
            seq![line2] + lines(s.subrange(k + 1, s.len() as int))
        }
    }
}

/// The lines of `s` (`str::lines`).
pub fn lines_of(s: &Vec<char>) -> (r: Vec<Vec<char>>)
    ensures
        r.deep_view() == lines(s@),
{
    let nl = vec!['\n'];
    assert(nl@ == seq!['\n']);
    let n = s.len();
    let mut out: Vec<Vec<char>> = Vec::new();
    let mut cur: usize = 0;
    assert(s@.subrange(0, n as int) == s@);
    while cur < n
        invariant
            n == s.len(),
            cur <= n,
            nl@ == seq!['\n'],
            lines(s@) == out.deep_view() + lines(s@.subrange(cur as int, n as int)),
        decreases n - cur,
    {
        let ghost t = s@.subrange(cur as int, n as int);
        let mut j = cur;
        while j < n && s[j] != '\n'
            invariant
                n == s.len(),
                cur <= j <= n,
                forall|q: int| cur <= q < j ==> s@[q] != '\n',
            decreases n - j,
        {
            j += 1;
        }
        proof {
            lemma_find_from(t, seq!['\n'], 0);
            let f = find_from(t, seq!['\n'], 0);
            if j < n {
                assert(occurs_at(t, seq!['\n'], j - cur)) by {
                    assert(t.subrange(j - cur, j - cur + 1) =~= seq!['\n']);
                }
                if f != -1 && f < j - cur {
                    assert(t.subrange(f, f + 1)[0] == t[f]);
                    assert(t[f] == s@[cur + f]);
                }
                assert(f == j - cur);
            } else {
                if f != -1 {
                    assert(t.subrange(f, f + 1)[0] == t[f]);
                    assert(t[f] == s@[cur + f]);
                }
                assert(f == -1);
            }
        }
        let mut end = j;
        if end > cur && s[end - 1] == '\r' && j < n {
            end = end - 1;
        }
        let mut line: Vec<char> = Vec::new();
        push_range(&mut line, s, cur, end);
        proof {
            lemma_chars_deep_view(&line);
            if j < n {
                assert(t.subrange(0, j - cur) == s@.subrange(cur as int, j as int));
                assert(t.subrange(j - cur + 1, t.len() as int) == s@.subrange(j + 1, n as int));
                if j > cur {
                    assert(s@.subrange(cur as int, j as int).drop_last() == s@.subrange(cur as int, j - 1));
                }
            } else {
                assert(line@ == t);
                assert(s@.subrange(n as int, n as int) == Seq::<char>::empty());
            }
        }
        let ghost before = out.deep_view();
        let ghost lv = line@;
        out.push(line);
        assert(out.deep_view() =~= before.push(lv));
        if j < n {
            cur = j + 1;
        } else {
            cur = n;
        }
    }
    assert(out.deep_view() + lines(s@.subrange(n as int, n as int)) == out.deep_view());
    out
}

/// The first `n` lines of `text` joined with `" | "`.
pub open spec fn first_lines_spec(text: Seq<char>, n: nat) -> Seq<char> {
    let ls = lines(text);
    join(if n < ls.len() { ls.take(n as int) } else { ls }, " | "@)
}

/// The first `n` lines of `text` joined with `" | "`, for compact error
/// messages built from a tool's stderr.
pub fn first_lines(text: &str, n: usize) -> (r: String)
    ensures
        r@ == first_lines_spec(text@, n as nat),
{
    let v = chars_of(text);
    let ls = lines_of(&v);
    let mut taken: Vec<Vec<char>> = Vec::new();
    let mut i: usize = 0;
    while i < ls.len() && i < n
        invariant
            i <= ls.len(),
            i <= n,
            taken.deep_view() == ls.deep_view().take(i as int),
        decreases ls.len() - i,
    {
        let ghost before = taken.deep_view();
        let mut c: Vec<char> = Vec::new();
        push_all(&mut c, &ls[i]);
        proof {
            lemma_chars_deep_view(&c);
            lemma_chars_deep_view(&ls[i as int]);
        }
        let ghost cv = c@;
        assert(cv == ls.deep_view()[i as int]);
        taken.push(c);
        assert(taken.deep_view() =~= before.push(cv));
        assert(before.push(cv) =~= ls.deep_view().take(i + 1));
        i += 1;
    }
    assert(n >= ls.len() ==> ls.deep_view().take(i as int) == ls.deep_view());
    assert(n < ls.len() ==> i == n);
    assert(taken.deep_view() == (if (n as nat) < lines(v@).len() {
        lines(v@).take(n as int)
    } else {
        lines(v@)
    }));
    let sep = chars_of(" | ");
    let j = join_chars(&taken, &sep);
    string_from_chars(&j)
}

/// Whether `c` is alphabetic or numeric in the Unicode sense, as
/// `char::is_alphanumeric` decides it.
pub uninterp spec fn unicode_alphanumeric(c: char) -> bool;

/// ASCII letters and digits.
pub open spec fn ascii_alphanumeric(c: char) -> bool {
    ('a' <= c && c <= 'z') || ('A' <= c && c <= 'Z') || ('0' <= c && c <= '9')
}

/// Trusted: calls std's `char::is_alphanumeric`. The contract claims the
/// result is the Unicode alphanumeric property of `c` (named, not spelled
/// out: it rests on Unicode's Alphabetic and Numeric tables), and that
/// within ASCII it holds exactly for letters and digits.
#[verifier::external_body]
pub(crate) fn is_alphanumeric(c: char) -> (b: bool)
    ensures
        b == unicode_alphanumeric(c),
        (c as u32) < 128 ==> (b == ascii_alphanumeric(c)),
{
    c.is_alphanumeric()
}

/// Searching from `c + i` in `s` is searching from `i` in `s[c..]`.
pub proof fn lemma_find_from_shift(s: Seq<char>, pat: Seq<char>, c: int, i: int)
    requires
        0 <= c <= s.len(),
        0 <= i,
    ensures
        find_from(s, pat, c + i) == if find_from(s.subrange(c, s.len() as int), pat, i) == -1 {
            -1
        } else {
            find_from(s.subrange(c, s.len() as int), pat, i) + c
        },
    decreases s.len() + 1 - (c + i),
{
    let t = s.subrange(c, s.len() as int);
    if c + i + pat.len() > s.len() {
    } else {
        assert(t.subrange(i, i + pat.len()) == s.subrange(c + i, c + i + pat.len()));
        if occurs_at(s, pat, c + i) {
        } else {
            lemma_find_from_shift(s, pat, c, i + 1);
        }
    }
}

/// The pieces of `s` between the non-overlapping occurrences of `pat`,
/// left to right (`str::split` with a non-empty pattern).
pub open spec fn split_on(s: Seq<char>, pat: Seq<char>) -> Seq<Seq<char>>
    decreases s.len(),
{
    if pat.len() == 0 {
        seq![s]
    } else {
        let k = find_from(s, pat, 0);
        if k == -1 {
            seq![s]
        } else {
            proof {
                lemma_find_from(s, pat, 0);
            }
            seq![s.subrange(0, k)] + split_on(s.subrange(k + pat.len(), s.len() as int), pat)
        }
    }
}

/// The pieces of `s` between the occurrences of `pat`.
pub fn split_on_exec(s: &Vec<char>, pat: &Vec<char>) -> (r: Vec<Vec<char>>)
    requires
        pat.len() > 0,
    ensures
        r.deep_view() == split_on(s@, pat@),
{
    let n = s.len();
    let mut out: Vec<Vec<char>> = Vec::new();
    let mut cur: usize = 0;
    assert(s@.subrange(0, n as int) == s@);
    loop
        invariant_except_break
            n == s.len(),
            pat.len() > 0,
            cur <= n,
            split_on(s@, pat@) == out.deep_view() + split_on(s@.subrange(cur as int, n as int), pat@),
        ensures
            out.deep_view() == split_on(s@, pat@),
        decreases n - cur,
    {
        let ghost t = s@.subrange(cur as int, n as int);
        proof {
            lemma_find_from_shift(s@, pat@, cur as int, 0);
            lemma_find_from(t, pat@, 0);
        }
        let ghost before = out.deep_view();
        match find_from_exec(s, pat, cur) {
            Some(k) => {
                let mut piece: Vec<char> = Vec::new();
                push_range(&mut piece, s, cur, k);
                proof {
                    lemma_chars_deep_view(&piece);
                    let f = find_from(t, pat@, 0);
                    assert(f == k - cur);
                    assert(t.subrange(0, f) == piece@);
                    assert(t.subrange(f + pat@.len(), t.len() as int) == s@.subrange(
                        k + pat@.len(),
                        n as int,
                    ));
                }
                let ghost pv = piece@;
                out.push(piece);
                assert(out.deep_view() =~= before.push(pv));
                cur = k + pat.len();
            },
            None => {
                let mut piece: Vec<char> = Vec::new();
                push_range(&mut piece, s, cur, n);
                proof {
                    lemma_chars_deep_view(&piece);
                }
                let ghost pv = piece@;
                out.push(piece);
                assert(out.deep_view() =~= before.push(pv));
                break ;
            },
        }
    }
    out
}

/// ASCII-lowercase form of a character.
pub open spec fn ascii_lower(c: char) -> char {
    if 'A' <= c && c <= 'Z' {
        ((c as u32) + 32) as char
    } else {
        c
    }
}

/// `a` equals `b` ignoring ASCII case (`str::eq_ignore_ascii_case`).
pub open spec fn eq_ignore_ascii_case(a: Seq<char>, b: Seq<char>) -> bool {
    a.len() == b.len() && forall|i: int| 0 <= i < a.len() ==> ascii_lower(#[trigger] a[i]) == ascii_lower(b[i])
}

fn ascii_lower_char(c: char) -> (r: char)
    ensures
        r == ascii_lower(c),
{
    if 'A' <= c && c <= 'Z' {
        let u: u8 = c as u8;
        assert(u == c as u32);
        (u + 32) as char
    } else {
        c
    }
}

/// Whether `a` equals `b` ignoring ASCII case.
pub fn eq_ignore_ascii_case_exec(a: &Vec<char>, b: &Vec<char>) -> (r: bool)
    ensures
        r == eq_ignore_ascii_case(a@, b@),
{
    if a.len() != b.len() {
        return false;
    }
    let mut i: usize = 0;
    while i < a.len()
        invariant
            a.len() == b.len(),
            i <= a.len(),
            forall|j: int| 0 <= j < i ==> ascii_lower(#[trigger] a@[j]) == ascii_lower(b@[j]),
        decreases a.len() - i,
    {
        if ascii_lower_char(a[i]) != ascii_lower_char(b[i]) {
            return false;
        }
        i += 1;
    }
    true
}

/// Whether `s` contains the character `c`.
pub open spec fn has_char(s: Seq<char>, c: char) -> bool {
    exists|i: int| 0 <= i < s.len() && s[i] == c
}

/// Whether `s` contains the character `c`.
pub fn has_char_exec(s: &str, c: char) -> (r: bool)
    ensures
        r == has_char(s@, c),
{
    let v = chars_of(s);
    let mut i: usize = 0;
    while i < v.len()
        invariant
            i <= v.len(),
            v@ == s@,
            forall|j: int| 0 <= j < i ==> v@[j] != c,
        decreases v.len() - i,
    {
        if v[i] == c {
            return true;
        }
        i += 1;
    }
    false
}

/// `p` is a prefix of `s`.
pub open spec fn starts_with(s: Seq<char>, p: Seq<char>) -> bool {
    p.len() <= s.len() && s.subrange(0, p.len() as int) == p
}

/// Whether `s` starts with `p`.
pub fn starts_with_exec(s: &Vec<char>, p: &str) -> (r: bool)
    ensures
        r == starts_with(s@, p@),
{
    let pv = chars_of(p);
    if pv.len() > s.len() {
        return false;
    }
    let mut i: usize = 0;
    while i < pv.len()
        invariant
            pv@ == p@,
            pv.len() <= s.len(),
            i <= pv.len(),
            forall|j: int| 0 <= j < i ==> s@[j] == pv@[j],
        decreases pv.len() - i,
    {
        if s[i] != pv[i] {
            assert(s@.subrange(0, pv.len() as int)[i as int] != pv@[i as int]);
            return false;
        }
        i += 1;
    }
    assert(s@.subrange(0, pv.len() as int) =~= pv@);
    true
}

/// Whether `pat` occurs in `s`.
pub fn contains_exec(s: &Vec<char>, pat: &str) -> (r: bool)
    ensures
        r == contains(s@, pat@),
{
    let pv = chars_of(pat);
    let found = find_from_exec(s, &pv, 0);
    proof {
        lemma_find_from(s@, pv@, 0);
    }
    proof {
        if contains(s@, pat@) {
            let j = choose|j: int| occurs_at(s@, pv@, j);
            assert(0 <= j);
        }
    }
    found.is_some()
}

// ---------------------------------------------------------------------
// Counting occurrences
// ---------------------------------------------------------------------

/// The number of positions of `s` at which `pat` starts.
pub open spec fn occurrences(s: Seq<char>, pat: Seq<char>) -> nat
    decreases s.len(),
{
    if s.len() == 0 {
        0
    } else {
        (if occurs_at(s, pat, 0) {
            1nat
        } else {
            0nat
        }) + occurrences(s.drop_first(), pat)
    }
}

/// A text shorter than the pattern holds no occurrence of it.
pub proof fn lemma_occurrences_short(s: Seq<char>, pat: Seq<char>)
    requires
        s.len() < pat.len(),
    ensures
        occurrences(s, pat) == 0,
    decreases s.len(),
{
    if s.len() > 0 {
        lemma_occurrences_short(s.drop_first(), pat);
    }
}

/// A text without some character of the pattern holds no occurrence.
pub proof fn lemma_occurrences_missing_char(s: Seq<char>, pat: Seq<char>, c: char)
    requires
        pat.contains(c),
        forall|j: int| 0 <= j < s.len() ==> s[j] != c,
    ensures
        occurrences(s, pat) == 0,
    decreases s.len(),
{
    if s.len() > 0 {
        let k = choose|k: int| 0 <= k < pat.len() && pat[k] == c;
        if occurs_at(s, pat, 0) {
            assert(s.subrange(0, pat.len() as int)[k] == s[k]);
        }
        lemma_occurrences_missing_char(s.drop_first(), pat, c);
    }
}

/// The pattern occurs once in itself.
pub proof fn lemma_occurrences_self(pat: Seq<char>)
    requires
        pat.len() > 0,
    ensures
        occurrences(pat, pat) == 1,
{
    assert(pat.subrange(0, pat.len() as int) == pat);
    lemma_occurrences_short(pat.drop_first(), pat);
}

/// Occurrences add up over a concatenation when no occurrence can span
/// the seam: a character on one side of it is not in the pattern.
pub proof fn lemma_occurrences_concat(x: Seq<char>, y: Seq<char>, pat: Seq<char>)
    requires
        pat.len() > 0,
        x.len() == 0 || y.len() == 0 || !pat.contains(x.last()) || !pat.contains(y[0]),
    ensures
        occurrences(x + y, pat) == occurrences(x, pat) + occurrences(y, pat),
    decreases x.len(),
{
    if x.len() == 0 {
        assert(x + y == y);
    } else if y.len() == 0 {
        assert(x + y == x);
        assert(occurrences(y, pat) == 0);
    } else {
        let s = x + y;
        assert(s.drop_first() == x.drop_first() + y);
        if x.len() >= pat.len() {
            assert(s.subrange(0, pat.len() as int) == x.subrange(0, pat.len() as int));
        } else if occurs_at(s, pat, 0) {
            let sub = s.subrange(0, pat.len() as int);
            assert(sub[x.len() - 1] == x.last());
            assert(sub[x.len() as int] == y[0]);
            assert(pat[x.len() - 1] == x.last());
            assert(pat[x.len() as int] == y[0]);
            assert(pat.contains(x.last()));
            assert(pat.contains(y[0]));
        }
        if x.len() > 1 {
            assert(x.drop_first().last() == x.last());
        }
        lemma_occurrences_concat(x.drop_first(), y, pat);
    }
}

/// Occurrences add up over a concatenation when the second character
/// after the seam is not in the pattern and the last character before it
/// is not the pattern's next-to-last character.
pub proof fn lemma_occurrences_concat_second(x: Seq<char>, y: Seq<char>, pat: Seq<char>)
    requires
        pat.len() >= 2,
        y.len() >= 2,
        !pat.contains(y[1]),
        x.len() == 0 || x.last() != pat[pat.len() - 2],
    ensures
        occurrences(x + y, pat) == occurrences(x, pat) + occurrences(y, pat),
    decreases x.len(),
{
    if x.len() == 0 {
        assert(x + y == y);
    } else {
        let s = x + y;
        assert(s.drop_first() == x.drop_first() + y);
        if x.len() >= pat.len() {
            assert(s.subrange(0, pat.len() as int) == x.subrange(0, pat.len() as int));
        } else if occurs_at(s, pat, 0) {
            let sub = s.subrange(0, pat.len() as int);
            if x.len() + 1 < pat.len() {
                assert(sub[x.len() as int + 1] == y[1]);
                assert(pat[x.len() as int + 1] == y[1]);
                assert(pat.contains(y[1]));
            } else {
                assert(sub[x.len() - 1] == x.last());
            }
        }
        if x.len() > 1 {
            assert(x.drop_first().last() == x.last());
        }
        lemma_occurrences_concat_second(x.drop_first(), y, pat);
    }
}

/// A text in which the pattern starts nowhere holds no occurrence.
pub proof fn lemma_occurrences_none(s: Seq<char>, pat: Seq<char>)
    requires
        forall|j: int| !occurs_at(s, pat, j),
    ensures
        occurrences(s, pat) == 0,
    decreases s.len(),
{
    if s.len() > 0 {
        let t = s.drop_first();
        assert forall|j: int| !occurs_at(t, pat, j) by {
            if occurs_at(t, pat, j) {
                assert(t.subrange(j, j + pat.len()) == s.subrange(j + 1, j + 1 + pat.len()));
                assert(occurs_at(s, pat, j + 1));
            }
        }
        lemma_occurrences_none(t, pat);
    }
}

/// `s` with each non-overlapping occurrence of the non-empty `pat`, found
/// left to right, replaced by `rep`: what `str::replace` does.
pub open spec fn replace_all(s: Seq<char>, pat: Seq<char>, rep: Seq<char>) -> Seq<char>
    decreases s.len(),
{
    if s.len() == 0 || pat.len() == 0 {
        s
    } else if occurs_at(s, pat, 0) {
        rep + replace_all(s.skip(pat.len() as int), pat, rep)
    } else {
        seq![s[0]] + replace_all(s.drop_first(), pat, rep)
    }
}

proof fn lemma_occurs_at_skip(s: Seq<char>, pat: Seq<char>, cur: int)
    requires
        0 <= cur <= s.len(),
    ensures
        occurs_at(s.skip(cur), pat, 0) == occurs_at(s, pat, cur),
{
    if cur + pat.len() <= s.len() {
        assert(s.skip(cur).subrange(0, pat.len() as int) == s.subrange(cur, cur + pat.len()));
    }
}

/// Where the pattern does not start in `s[cur..j]`, replacing copies
/// that stretch unchanged.
pub proof fn lemma_replace_all_copies(s: Seq<char>, pat: Seq<char>, rep: Seq<char>, cur: int, j: int)
    requires
        pat.len() > 0,
        0 <= cur <= j <= s.len(),
        forall|i: int| cur <= i < j ==> !occurs_at(s, pat, i),
    ensures
        replace_all(s.skip(cur), pat, rep) == s.subrange(cur, j) + replace_all(s.skip(j), pat, rep),
    decreases j - cur,
{
    if cur == j {
        assert(s.subrange(cur, j) + replace_all(s.skip(j), pat, rep) == replace_all(
            s.skip(j),
            pat,
            rep,
        ));
    } else {
        lemma_occurs_at_skip(s, pat, cur);
        assert(!occurs_at(s, pat, cur));
        lemma_replace_all_copies(s, pat, rep, cur + 1, j);
        assert(s.skip(cur).drop_first() == s.skip(cur + 1));
        assert(s.skip(cur)[0] == s[cur]);
        assert(seq![s[cur]] + s.subrange(cur + 1, j) == s.subrange(cur, j));
        assert(seq![s[cur]] + (s.subrange(cur + 1, j) + replace_all(s.skip(j), pat, rep)) == (seq![
            s[cur],
        ] + s.subrange(cur + 1, j)) + replace_all(s.skip(j), pat, rep));
    }
}

/// At an occurrence of the pattern, replacing puts `rep` in its place.
pub proof fn lemma_replace_all_at(s: Seq<char>, pat: Seq<char>, rep: Seq<char>, k: int)
    requires
        pat.len() > 0,
        occurs_at(s, pat, k),
    ensures
        replace_all(s.skip(k), pat, rep) == rep + replace_all(s.skip(k + pat.len()), pat, rep),
{
    lemma_occurs_at_skip(s, pat, k);
    assert(s.skip(k).skip(pat.len() as int) == s.skip(k + pat.len()));
}

} // verus!
