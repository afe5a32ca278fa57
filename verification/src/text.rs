//! Character classes, line splitting and token counting over unicode text.
//!
//! Bodies and paths enter the library as `String`/`&str`; every function here
//! works on their `Seq<char>` views, so the rest of the crate can state its
//! contracts purely over character sequences.

use vstd::prelude::*;

verus! {

/// The unicode `White_Space` property, the class used by `str::trim`,
/// `str::split_whitespace` and `char::is_whitespace`.
pub open spec fn is_ws(c: char) -> bool {
    ||| c == '\u{0009}'
    ||| c == '\u{000A}'
    ||| c == '\u{000B}'
    ||| c == '\u{000C}'
    ||| c == '\u{000D}'
    ||| c == '\u{0020}'
    ||| c == '\u{0085}'
    ||| c == '\u{00A0}'
    ||| c == '\u{1680}'
    ||| c == '\u{2000}'
    ||| c == '\u{2001}'
    ||| c == '\u{2002}'
    ||| c == '\u{2003}'
    ||| c == '\u{2004}'
    ||| c == '\u{2005}'
    ||| c == '\u{2006}'
    ||| c == '\u{2007}'
    ||| c == '\u{2008}'
    ||| c == '\u{2009}'
    ||| c == '\u{200A}'
    ||| c == '\u{2028}'
    ||| c == '\u{2029}'
    ||| c == '\u{202F}'
    ||| c == '\u{205F}'
    ||| c == '\u{3000}'
}

/// Executable test for [`is_ws`].
pub fn char_is_ws(c: char) -> (r: bool)
    ensures
        r == is_ws(c),
{
    c == '\u{0009}' || c == '\u{000A}' || c == '\u{000B}' || c == '\u{000C}' || c == '\u{000D}'
        || c == '\u{0020}' || c == '\u{0085}' || c == '\u{00A0}' || c == '\u{1680}'
        || c == '\u{2000}' || c == '\u{2001}' || c == '\u{2002}' || c == '\u{2003}'
        || c == '\u{2004}' || c == '\u{2005}' || c == '\u{2006}' || c == '\u{2007}'
        || c == '\u{2008}' || c == '\u{2009}' || c == '\u{200A}' || c == '\u{2028}'
        || c == '\u{2029}' || c == '\u{202F}' || c == '\u{205F}' || c == '\u{3000}'
}

/// Collects the characters of a string slice into a vector, giving the rest of
/// the crate random access to the `Seq<char>` view.
pub fn chars_of(s: &str) -> (r: Vec<char>)
    ensures
        r@ == s@,
{
    let n = s.unicode_len();
    let mut r: Vec<char> = Vec::new();
    let mut i: usize = 0;
    while i < n
        invariant
            n == s@.len(),
            i <= n,
            r@ == s@.take(i as int),
        decreases n - i,
    {
        let c = s.get_char(i);
        r.push(c);
        i = i + 1;
        proof {
            assert(r@ =~= s@.take(i as int));
        }
    }
    proof {
        assert(r@ =~= s@);
    }
    r
}

/// True at positions where a whitespace-separated token begins.
pub open spec fn token_starts_at(s: Seq<char>, i: int) -> bool {
    &&& 0 <= i < s.len()
    &&& !is_ws(s[i])
    &&& (i == 0 || is_ws(s[i - 1]))
}

/// Number of token starts among the first `n` characters.
pub open spec fn spec_token_count_prefix(s: Seq<char>, n: int) -> int
    decreases n,
{
    if n <= 0 {
        0
    } else {
        spec_token_count_prefix(s, n - 1) + if token_starts_at(s, n - 1) {
            1int
        } else {
            0int
        }
    }
}

/// Number of whitespace-separated tokens in `s`, as `str::split_whitespace`
/// counts them.
pub open spec fn spec_token_count(s: Seq<char>) -> int {
    spec_token_count_prefix(s, s.len() as int)
}

/// Counts whitespace-separated tokens in a string.
pub fn token_count(s: &str) -> (r: usize)
    ensures
        r == spec_token_count(s@),
{
    let chars = chars_of(s);
    token_count_chars(&chars)
}

/// Compares two string slices character by character.
pub fn str_eq(a: &str, b: &str) -> (r: bool)
    ensures
        r == (a@ == b@),
{
    let na = a.unicode_len();
    let nb = b.unicode_len();
    if na != nb {
        proof {
            assert(a@ != b@);
        }
        return false;
    }
    let mut i: usize = 0;
    while i < na
        invariant
            na == a@.len(),
            na == b@.len(),
            i <= na,
            forall|j: int| 0 <= j < i ==> a@[j] == b@[j],
        decreases na - i,
    {
        if a.get_char(i) != b.get_char(i) {
            return false;
        }
        i = i + 1;
    }
    proof {
        assert(a@ =~= b@);
    }
    true
}

/// Counts whitespace-separated tokens in a character vector.
pub fn token_count_chars(chars: &Vec<char>) -> (r: usize)
    ensures
        r == spec_token_count(chars@),
{
    let n = chars.len();
    let mut count: usize = 0;
    let mut i: usize = 0;
    while i < n
        invariant
            n == chars@.len(),
            i <= n,
            count == spec_token_count_prefix(chars@, i as int),
            count <= i,
        decreases n - i,
    {
        let starts = !char_is_ws(chars[i]) && (i == 0 || char_is_ws(chars[i - 1]));
        if starts {
            count = count + 1;
        }
        i = i + 1;
    }
    count
}

/// Index of the first newline in `s`, or `s.len()` if there is none.
pub open spec fn first_nl(s: Seq<char>) -> int
    decreases s.len(),
{
    if s.len() == 0 {
        0
    } else if s[0] == '\n' {
        0
    } else {
        1 + first_nl(s.drop_first())
    }
}

pub proof fn lemma_first_nl(s: Seq<char>)
    ensures
        0 <= first_nl(s) <= s.len(),
        first_nl(s) < s.len() ==> s[first_nl(s)] == '\n',
        forall|j: int| 0 <= j < first_nl(s) ==> s[j] != '\n',
    decreases s.len(),
{
    if s.len() > 0 && s[0] != '\n' {
        lemma_first_nl(s.drop_first());
        assert forall|j: int| 0 <= j < first_nl(s) implies s[j] != '\n' by {
            if j > 0 {
                assert(s.drop_first()[j - 1] == s[j]);
            }
        }
    }
}

/// Drops the carriage return that ends a line split off before a newline.
pub open spec fn strip_cr(l: Seq<char>) -> Seq<char> {
    if l.len() > 0 && l.last() == '\r' {
        l.drop_last()
    } else {
        l
    }
}

/// The lines of `s`, as `str::lines` yields them: split at `\n`, a `\r`
/// directly before the `\n` is dropped, and a final newline ends the last
/// line rather than starting an empty one.
pub open spec fn spec_lines(s: Seq<char>) -> Seq<Seq<char>>
    decreases s.len(),
    via spec_lines_decreases
{
    if s.len() == 0 {
        Seq::empty()
    } else {
        let i = first_nl(s);
        if i == s.len() {
            seq![s]
        } else {
            seq![strip_cr(s.take(i))] + spec_lines(s.skip(i + 1))
        }
    }
}

#[via_fn]
proof fn spec_lines_decreases(s: Seq<char>) {
    lemma_first_nl(s);
}

/// Copies `chars[from..to]` into a fresh vector.
pub fn sub_vec(chars: &Vec<char>, from: usize, to: usize) -> (r: Vec<char>)
    requires
        from <= to <= chars@.len(),
    ensures
        r@ == chars@.subrange(from as int, to as int),
{
    let mut r: Vec<char> = Vec::new();
    let mut i: usize = from;
    while i < to
        invariant
            from <= i <= to <= chars@.len(),
            r@ == chars@.subrange(from as int, i as int),
        decreases to - i,
    {
        r.push(chars[i]);
        i = i + 1;
        proof {
            assert(r@ =~= chars@.subrange(from as int, i as int));
        }
    }
    r
}

/// Finds the first newline at or after `from`.
fn find_nl(chars: &Vec<char>, from: usize) -> (r: usize)
    requires
        from <= chars@.len(),
    ensures
        r == from + first_nl(chars@.skip(from as int)),
        from <= r <= chars@.len(),
        r < chars@.len() ==> chars@[r as int] == '\n',
        forall|j: int| from <= j < r ==> chars@[j] != '\n',
{
    let n = chars.len();
    let mut i: usize = from;
    while i < n
        invariant
            from <= i <= n,
            n == chars@.len(),
            forall|j: int| from <= j < i ==> chars@[j] != '\n',
        decreases n - i,
    {
        if chars[i] == '\n' {
            proof {
                lemma_first_nl_unique(chars@.skip(from as int), i - from);
            }
            return i;
        }
        i = i + 1;
    }
    proof {
        lemma_first_nl_unique(chars@.skip(from as int), n - from);
    }
    n
}

/// If position `k` looks like the first newline (everything before it is not a
/// newline, and it is a newline or the end), then it is `first_nl`.
proof fn lemma_first_nl_unique(s: Seq<char>, k: int)
    requires
        0 <= k <= s.len(),
        forall|j: int| 0 <= j < k ==> s[j] != '\n',
        k < s.len() ==> s[k] == '\n',
    ensures
        first_nl(s) == k,
{
    lemma_first_nl(s);
    if first_nl(s) < k {
        assert(s[first_nl(s)] == '\n');
    }
    if first_nl(s) > k {
        assert(k < s.len());
    }
}

/// Splits a body into its lines.
pub fn split_lines(chars: &Vec<char>) -> (r: Vec<Vec<char>>)
    ensures
        r@.len() == spec_lines(chars@).len(),
        forall|i: int| 0 <= i < r@.len() ==> r@[i]@ == spec_lines(chars@)[i],
{
    let n = chars.len();
    let mut r: Vec<Vec<char>> = Vec::new();
    let mut pos: usize = 0;
    proof {
        assert(chars@.skip(0) =~= chars@);
    }
    while pos < n
        invariant
            pos <= n,
            n == chars@.len(),
            spec_lines(chars@).len() == r@.len() + spec_lines(chars@.skip(pos as int)).len(),
            forall|i: int|
                0 <= i < r@.len() ==> #[trigger] spec_lines(chars@)[i] == r@[i]@,
            forall|i: int|
                r@.len() <= i < spec_lines(chars@).len() ==> #[trigger] spec_lines(chars@)[i]
                    == spec_lines(chars@.skip(pos as int))[i - r@.len()],
        decreases n - pos,
    {
        let ghost rest = chars@.skip(pos as int);
        let j = find_nl(chars, pos);
        proof {
            assert(rest.len() > 0);
            assert(first_nl(rest) == j - pos);
        }
        if j < n {
            let line_end = if j > pos && chars[j - 1] == '\r' {
                j - 1
            } else {
                j
            };
            let line = sub_vec(chars, pos, line_end);
            proof {
                assert(rest.take(j - pos) =~= chars@.subrange(pos as int, j as int));
                if j > pos && chars@[j - 1] == '\r' {
                    assert(strip_cr(rest.take(j - pos)) =~= chars@.subrange(
                        pos as int,
                        line_end as int,
                    ));
                } else {
                    assert(strip_cr(rest.take(j - pos)) =~= chars@.subrange(
                        pos as int,
                        line_end as int,
                    ));
                }
                assert(spec_lines(rest) == seq![strip_cr(rest.take(j - pos))] + spec_lines(
                    rest.skip(j - pos + 1),
                ));
                assert(rest.skip(j - pos + 1) =~= chars@.skip(j + 1));
            }
            r.push(line);
            pos = j + 1;
        } else {
            let line = sub_vec(chars, pos, n);
            proof {
                assert(first_nl(rest) == rest.len());
                assert(spec_lines(rest) == seq![rest]);
                assert(rest =~= chars@.subrange(pos as int, n as int));
                assert(chars@.skip(n as int).len() == 0);
            }
            r.push(line);
            pos = n;
        }
    }
    proof {
        assert(spec_lines(chars@.skip(pos as int)).len() == 0);
    }
    r
}

/// A line is blank when every character is whitespace; `str::trim` leaves
/// nothing of it.
pub open spec fn nonblank(l: Seq<char>) -> bool {
    exists|j: int| 0 <= j < l.len() && !is_ws(l[j])
}

/// Executable test for [`nonblank`].
pub fn line_nonblank(l: &Vec<char>) -> (r: bool)
    ensures
        r == nonblank(l@),
{
    let n = l.len();
    let mut i: usize = 0;
    while i < n
        invariant
            i <= n,
            n == l@.len(),
            forall|j: int| 0 <= j < i ==> is_ws(l@[j]),
        decreases n - i,
    {
        if !char_is_ws(l[i]) {
            return true;
        }
        i = i + 1;
    }
    false
}

/// Number of leading space or tab characters of a line.
pub open spec fn indent_of(l: Seq<char>) -> int
    decreases l.len(),
{
    if l.len() == 0 {
        0
    } else if l[0] == ' ' || l[0] == '\t' {
        1 + indent_of(l.drop_first())
    } else {
        0
    }
}

proof fn lemma_indent_unique(l: Seq<char>, k: int)
    requires
        0 <= k <= l.len(),
        forall|j: int| 0 <= j < k ==> l[j] == ' ' || l[j] == '\t',
        k < l.len() ==> !(l[k] == ' ' || l[k] == '\t'),
    ensures
        indent_of(l) == k,
    decreases l.len(),
{
    if l.len() > 0 && (l[0] == ' ' || l[0] == '\t') {
        assert(k >= 1);
        lemma_indent_unique(l.drop_first(), k - 1);
    }
}

/// Counts the leading space or tab characters of a line.
pub fn line_indent(l: &Vec<char>) -> (r: usize)
    ensures
        r == indent_of(l@),
        r <= l@.len(),
{
    let n = l.len();
    let mut i: usize = 0;
    while i < n
        invariant
            i <= n,
            n == l@.len(),
            forall|j: int| 0 <= j < i ==> l@[j] == ' ' || l@[j] == '\t',
        decreases n - i,
    {
        if !(l[i] == ' ' || l[i] == '\t') {
            proof {
                lemma_indent_unique(l@, i as int);
            }
            return i;
        }
        i = i + 1;
    }
    proof {
        lemma_indent_unique(l@, n as int);
    }
    n
}

/// The line with its leading whitespace removed.
pub open spec fn trim_start(l: Seq<char>) -> Seq<char>
    decreases l.len(),
{
    if l.len() > 0 && is_ws(l[0]) {
        trim_start(l.drop_first())
    } else {
        l
    }
}

/// `p` is a prefix of `l`.
pub open spec fn has_prefix(l: Seq<char>, p: Seq<char>) -> bool {
    p.len() <= l.len() && l.take(p.len() as int) == p
}

/// Does the line, once its leading whitespace is dropped, start with `p`?
pub fn starts_with_after_ws(l: &Vec<char>, p: &str) -> (r: bool)
    ensures
        r == has_prefix(trim_start(l@), p@),
{
    let n = l.len();
    let mut i: usize = 0;
    proof {
        assert(l@.skip(0) =~= l@);
    }
    while i < n && char_is_ws(l[i])
        invariant
            i <= n,
            n == l@.len(),
            trim_start(l@) == trim_start(l@.skip(i as int)),
        decreases n - i,
    {
        proof {
            assert(l@.skip(i as int).drop_first() =~= l@.skip(i + 1));
        }
        i = i + 1;
    }
    proof {
        assert(trim_start(l@.skip(i as int)) == l@.skip(i as int));
    }
    let np = p.unicode_len();
    if np > n - i {
        return false;
    }
    let mut k: usize = 0;
    while k < np
        invariant
            i + np <= n,
            np == p@.len(),
            n == l@.len(),
            trim_start(l@) == l@.skip(i as int),
            forall|j: int| 0 <= j < k ==> l@[i + j] == p@[j],
        decreases np - k,
    {
        if l[i + k] != p.get_char(k) {
            proof {
                assert(trim_start(l@).take(p@.len() as int)[k as int] != p@[k as int]);
            }
            return false;
        }
        k = k + 1;
    }
    proof {
        assert(trim_start(l@).take(p@.len() as int) =~= p@);
    }
    true
}

/// Tests whether `s` starts with `p`.
pub fn str_starts_with(s: &str, p: &str) -> (r: bool)
    ensures
        r == has_prefix(s@, p@),
{
    let n = s.unicode_len();
    let m = p.unicode_len();
    if m > n {
        return false;
    }
    let mut k: usize = 0;
    while k < m
        invariant
            m <= n,
            n == s@.len(),
            m == p@.len(),
            forall|j: int| 0 <= j < k ==> s@[j] == p@[j],
        decreases m - k,
    {
        if s.get_char(k) != p.get_char(k) {
            proof {
                assert(s@.take(p@.len() as int)[k as int] != p@[k as int]);
            }
            return false;
        }
        k = k + 1;
    }
    proof {
        assert(s@.take(p@.len() as int) =~= p@);
    }
    true
}

/// `pat` occurs in `text` at position `i`.
pub open spec fn occurs_at(text: Seq<char>, pat: Seq<char>, i: int) -> bool {
    0 <= i && i + pat.len() <= text.len() && text.subrange(i, i + pat.len()) == pat
}

/// The first position where `pat` occurs in `text`, or `-1` if it never does.
pub open spec fn find_first(text: Seq<char>, pat: Seq<char>) -> int
    decreases text.len(),
{
    if occurs_at(text, pat, 0) {
        0
    } else if text.len() == 0 {
        -1
    } else {
        let r = find_first(text.drop_first(), pat);
        if r == -1 {
            -1
        } else {
            r + 1
        }
    }
}

pub proof fn lemma_find_first(text: Seq<char>, pat: Seq<char>)
    ensures
        find_first(text, pat) >= 0 ==> occurs_at(text, pat, find_first(text, pat)),
        find_first(text, pat) == -1 || find_first(text, pat) >= 0,
        forall|j: int| 0 <= j < find_first(text, pat) ==> !occurs_at(text, pat, j),
        find_first(text, pat) == -1 ==> forall|j: int| !occurs_at(text, pat, j),
    decreases text.len(),
{
    if !occurs_at(text, pat, 0) && text.len() > 0 {
        lemma_find_first(text.drop_first(), pat);
        assert forall|j: int| 1 <= j implies occurs_at(text, pat, j) == occurs_at(
            text.drop_first(),
            pat,
            j - 1,
        ) by {
            if occurs_at(text, pat, j) {
                assert(text.drop_first().subrange(j - 1, j - 1 + pat.len() as int) =~= text
                    .subrange(j, j + pat.len() as int));
            }
            if occurs_at(text.drop_first(), pat, j - 1) {
                assert(text.subrange(j, j + pat.len() as int) =~= text.drop_first().subrange(
                    j - 1,
                    j - 1 + pat.len() as int,
                ));
            }
        }
    }
}

/// If `k` looks like the first occurrence, it is `find_first`.
proof fn lemma_find_first_unique(text: Seq<char>, pat: Seq<char>, k: int)
    requires
        occurs_at(text, pat, k),
        forall|j: int| 0 <= j < k ==> !occurs_at(text, pat, j),
    ensures
        find_first(text, pat) == k,
{
    lemma_find_first(text, pat);
    let f = find_first(text, pat);
    if f == -1 {
        assert(!occurs_at(text, pat, k));
    } else if f < k {
        assert(!occurs_at(text, pat, f));
    } else if f > k {
        assert(!occurs_at(text, pat, k));
    }
}

/// And if nothing looks like one, there is none.
proof fn lemma_find_first_none(text: Seq<char>, pat: Seq<char>)
    requires
        forall|j: int| 0 <= j <= text.len() - pat.len() ==> !occurs_at(text, pat, j),
    ensures
        find_first(text, pat) == -1,
{
    lemma_find_first(text, pat);
    let f = find_first(text, pat);
    if f >= 0 {
        assert(occurs_at(text, pat, f));
        assert(0 <= f <= text.len() - pat.len());
    }
}

/// Checks one candidate position for a match of `pat`.
fn matches_at(text: &Vec<char>, pat: &Vec<char>, i: usize) -> (r: bool)
    requires
        i + pat@.len() <= text@.len(),
    ensures
        r == occurs_at(text@, pat@, i as int),
{
    let n = text.len();
    let m = pat.len();
    let mut k: usize = 0;
    while k < m
        invariant
            n == text@.len(),
            i + m <= n,
            m == pat@.len(),
            forall|j: int| 0 <= j < k ==> text@[i + j] == pat@[j],
        decreases m - k,
    {
        if text[i + k] != pat[k] {
            proof {
                assert(text@.subrange(i as int, i + pat@.len() as int)[k as int] != pat@[
                    k as int]);
            }
            return false;
        }
        k = k + 1;
    }
    proof {
        assert(text@.subrange(i as int, i + pat@.len() as int) =~= pat@);
    }
    true
}

/// Finds the first occurrence of `pat` in `text`, if any.
pub fn find_sub(text: &Vec<char>, pat: &Vec<char>) -> (r: Option<usize>)
    requires
        pat@.len() >= 1,
    ensures
        match r {
            Some(i) => i == find_first(text@, pat@),
            None => find_first(text@, pat@) == -1,
        },
{
    let n = text.len();
    let m = pat.len();
    if m > n {
        proof {
            lemma_find_first_none(text@, pat@);
        }
        return None;
    }
    let mut i: usize = 0;
    while i <= n - m
        invariant
            1 <= m <= n,
            n == text@.len(),
            m == pat@.len(),
            i <= n - m + 1,
            forall|j: int| 0 <= j < i ==> !occurs_at(text@, pat@, j),
        decreases n + 1 - m - i,
    {
        if matches_at(text, pat, i) {
            proof {
                lemma_find_first_unique(text@, pat@, i as int);
            }
            return Some(i);
        }
        i = i + 1;
    }
    proof {
        lemma_find_first_none(text@, pat@);
    }
    None
}

/// Whether `pat` occurs anywhere in `text`.
pub fn contains_sub(text: &Vec<char>, pat: &Vec<char>) -> (r: bool)
    requires
        pat@.len() >= 1,
    ensures
        r == (find_first(text@, pat@) >= 0),
{
    match find_sub(text, pat) {
        Some(_) => true,
        None => false,
    }
}

/// Relies on `String::from_iter` over `char`: collecting characters yields the
/// string of exactly those characters.
#[verifier::external_body]
pub fn string_from_chars(v: &Vec<char>) -> (r: String)
    ensures
        r@ == v@,
{
    v.iter().collect()
}

} // verus!
