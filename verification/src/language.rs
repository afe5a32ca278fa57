//! Language detection from a fragment's path suffix and body keywords.
//!
//! Precedence is fixed: python beats rust beats typescript beats config beats
//! plain text, and for each language the (cheap) extension test is tried
//! before the line-anchored keyword test.

use vstd::prelude::*;

use crate::text::{
    chars_of, has_prefix, nonblank, spec_lines, split_lines, starts_with_after_ws, trim_start,
};

verus! {

/// ASCII lowercasing of one character, as `str::to_ascii_lowercase` does it.
pub open spec fn lower_char(c: char) -> char {
    if 65 <= c as u32 && c as u32 <= 90 {
        (c as u32 + 32) as char
    } else {
        c
    }
}

/// The ASCII-lowercased character sequence.
pub open spec fn lower_seq(s: Seq<char>) -> Seq<char> {
    Seq::new(s.len(), |i: int| lower_char(s[i]))
}

/// `ext` is a suffix of `s`.
pub open spec fn has_suffix(s: Seq<char>, ext: Seq<char>) -> bool {
    ext.len() <= s.len() && s.skip(s.len() - ext.len()) == ext
}

/// Which keyword family a line is matched against.
#[derive(Clone, Copy, PartialEq, Eq, Structural)]
pub enum KeywordSet {
    Python,
    Rust,
    Js,
}

/// A line matches a keyword family when, after its leading whitespace, it
/// starts with one of the family's keywords.
pub open spec fn spec_kw_line(l: Seq<char>, set: KeywordSet) -> bool {
    let t = trim_start(l);
    match set {
        KeywordSet::Python => {
            ||| has_prefix(t, "def "@)
            ||| has_prefix(t, "class "@)
            ||| has_prefix(t, "async "@)
            ||| has_prefix(t, "from "@)
            ||| has_prefix(t, "import "@)
        },
        KeywordSet::Rust => {
            ||| has_prefix(t, "pub "@)
            ||| has_prefix(t, "fn "@)
            ||| has_prefix(t, "impl "@)
            ||| has_prefix(t, "use "@)
            ||| has_prefix(t, "struct "@)
            ||| has_prefix(t, "enum "@)
        },
        KeywordSet::Js => {
            ||| has_prefix(t, "export "@)
            ||| has_prefix(t, "import "@)
            ||| has_prefix(t, "const "@)
            ||| has_prefix(t, "let "@)
            ||| has_prefix(t, "async "@)
            ||| has_prefix(t, "function "@)
        },
    }
}

/// Some line of the body matches the keyword family.
pub open spec fn spec_body_kw(body: Seq<char>, set: KeywordSet) -> bool {
    exists|i: int| 0 <= i < spec_lines(body).len() && spec_kw_line(spec_lines(body)[i], set)
}

/// The detected language label.
pub open spec fn spec_language(path: Seq<char>, body: Seq<char>) -> Seq<char> {
    let lp = lower_seq(path);
    if has_suffix(lp, ".py"@) || spec_body_kw(body, KeywordSet::Python) {
        "python"@
    } else if has_suffix(lp, ".rs"@) || spec_body_kw(body, KeywordSet::Rust) {
        "rust"@
    } else if has_suffix(lp, ".ts"@) || has_suffix(lp, ".tsx"@) || has_suffix(lp, ".js"@)
        || spec_body_kw(body, KeywordSet::Js) {
        "typescript"@
    } else if has_suffix(lp, ".json"@) || has_suffix(lp, ".yaml"@) || has_suffix(lp, ".yml"@) {
        "config"@
    } else {
        "text"@
    }
}

/// ASCII-lowercases one character.
fn lower_char_exec(c: char) -> (r: char)
    ensures
        r == lower_char(c),
{
    match c {
        'A' => 'a',
        'B' => 'b',
        'C' => 'c',
        'D' => 'd',
        'E' => 'e',
        'F' => 'f',
        'G' => 'g',
        'H' => 'h',
        'I' => 'i',
        'J' => 'j',
        'K' => 'k',
        'L' => 'l',
        'M' => 'm',
        'N' => 'n',
        'O' => 'o',
        'P' => 'p',
        'Q' => 'q',
        'R' => 'r',
        'S' => 's',
        'T' => 't',
        'U' => 'u',
        'V' => 'v',
        'W' => 'w',
        'X' => 'x',
        'Y' => 'y',
        'Z' => 'z',
        _ => c,
    }
}

/// ASCII-lowercases a character vector.
fn to_lower_vec(s: &Vec<char>) -> (r: Vec<char>)
    ensures
        r@ == lower_seq(s@),
{
    let n = s.len();
    let mut r: Vec<char> = Vec::new();
    let mut i: usize = 0;
    while i < n
        invariant
            i <= n,
            n == s@.len(),
            r@.len() == i,
            forall|j: int| 0 <= j < i ==> r@[j] == lower_char(s@[j]),
        decreases n - i,
    {
        r.push(lower_char_exec(s[i]));
        i = i + 1;
    }
    proof {
        assert(r@ =~= lower_seq(s@));
    }
    r
}

/// Tests whether `chars` ends with `suffix`.
fn ends_with(chars: &Vec<char>, suffix: &str) -> (r: bool)
    ensures
        r == has_suffix(chars@, suffix@),
{
    let n = chars.len();
    let m = suffix.unicode_len();
    if m > n {
        return false;
    }
    let start = n - m;
    let mut j: usize = 0;
    while j < m
        invariant
            m <= n,
            n == chars@.len(),
            m == suffix@.len(),
            start == n - m,
            forall|k: int| 0 <= k < j ==> chars@[start + k] == suffix@[k],
        decreases m - j,
    {
        if chars[start + j] != suffix.get_char(j) {
            proof {
                assert(chars@.skip(n - m)[j as int] != suffix@[j as int]);
            }
            return false;
        }
        j = j + 1;
    }
    proof {
        assert(chars@.skip(n - m) =~= suffix@);
    }
    true
}

/// Tests one line against a keyword family.
fn kw_line(l: &Vec<char>, set: KeywordSet) -> (r: bool)
    ensures
        r == spec_kw_line(l@, set),
{
    match set {
        KeywordSet::Python => {
            starts_with_after_ws(l, "def ") || starts_with_after_ws(l, "class ")
                || starts_with_after_ws(l, "async ") || starts_with_after_ws(l, "from ")
                || starts_with_after_ws(l, "import ")
        },
        KeywordSet::Rust => {
            starts_with_after_ws(l, "pub ") || starts_with_after_ws(l, "fn ")
                || starts_with_after_ws(l, "impl ") || starts_with_after_ws(l, "use ")
                || starts_with_after_ws(l, "struct ") || starts_with_after_ws(l, "enum ")
        },
        KeywordSet::Js => {
            starts_with_after_ws(l, "export ") || starts_with_after_ws(l, "import ")
                || starts_with_after_ws(l, "const ") || starts_with_after_ws(l, "let ")
                || starts_with_after_ws(l, "async ") || starts_with_after_ws(l, "function ")
        },
    }
}

/// Tests whether any line of the body matches the keyword family.
fn body_kw(lines: &Vec<Vec<char>>, set: KeywordSet, Ghost(body): Ghost<Seq<char>>) -> (r: bool)
    requires
        lines@.len() == spec_lines(body).len(),
        forall|i: int| 0 <= i < lines@.len() ==> lines@[i]@ == spec_lines(body)[i],
    ensures
        r == spec_body_kw(body, set),
{
    let n = lines.len();
    let mut i: usize = 0;
    while i < n
        invariant
            i <= n,
            n == lines@.len(),
            n == spec_lines(body).len(),
            forall|j: int| 0 <= j < n ==> lines@[j]@ == spec_lines(body)[j],
            forall|j: int| 0 <= j < i ==> !spec_kw_line(spec_lines(body)[j], set),
        decreases n - i,
    {
        if kw_line(&lines[i], set) {
            proof {
                assert(spec_kw_line(spec_lines(body)[i as int], set));
            }
            return true;
        }
        i = i + 1;
    }
    false
}

/// Detects the language of a fragment from its path and body.
pub fn detect_language(path: &str, body: &str) -> (r: String)
    ensures
        r@ == spec_language(path@, body@),
{
    let path_chars = chars_of(path);
    let lower = to_lower_vec(&path_chars);
    let body_chars = chars_of(body);
    let lines = split_lines(&body_chars);
    let ghost b = body@;
    if ends_with(&lower, ".py") || body_kw(&lines, KeywordSet::Python, Ghost(b)) {
        "python".to_owned()
    } else if ends_with(&lower, ".rs") || body_kw(&lines, KeywordSet::Rust, Ghost(b)) {
        "rust".to_owned()
    } else if ends_with(&lower, ".ts") || ends_with(&lower, ".tsx") || ends_with(&lower, ".js")
        || body_kw(&lines, KeywordSet::Js, Ghost(b)) {
        "typescript".to_owned()
    } else if ends_with(&lower, ".json") || ends_with(&lower, ".yaml") || ends_with(
        &lower,
        ".yml",
    ) {
        "config".to_owned()
    } else {
        "text".to_owned()
    }
}

/// A blank body without a matching path suffix always classifies as `text`:
/// a keyword line is nonblank, and a blank body has no nonblank line.
pub proof fn lemma_blank_body_is_text(path: Seq<char>, body: Seq<char>)
    requires
        forall|i: int| 0 <= i < spec_lines(body).len() ==> !nonblank(spec_lines(body)[i]),
        !has_suffix(lower_seq(path), ".py"@),
        !has_suffix(lower_seq(path), ".rs"@),
        !has_suffix(lower_seq(path), ".ts"@),
        !has_suffix(lower_seq(path), ".tsx"@),
        !has_suffix(lower_seq(path), ".js"@),
        !has_suffix(lower_seq(path), ".json"@),
        !has_suffix(lower_seq(path), ".yaml"@),
        !has_suffix(lower_seq(path), ".yml"@),
    ensures
        spec_language(path, body) == "text"@,
{
    assert forall|i: int, set: KeywordSet|
        0 <= i < spec_lines(body).len() implies !spec_kw_line(
        spec_lines(body)[i],
        set,
    ) by {
        let l = spec_lines(body)[i];
        lemma_blank_trim(l);
        reveal_strlit("def ");
        reveal_strlit("class ");
        reveal_strlit("async ");
        reveal_strlit("from ");
        reveal_strlit("import ");
        reveal_strlit("pub ");
        reveal_strlit("fn ");
        reveal_strlit("impl ");
        reveal_strlit("use ");
        reveal_strlit("struct ");
        reveal_strlit("enum ");
        reveal_strlit("export ");
        reveal_strlit("const ");
        reveal_strlit("let ");
        reveal_strlit("function ");
    }
}

/// A line of nothing but whitespace trims to the empty sequence.
proof fn lemma_blank_trim(l: Seq<char>)
    requires
        !nonblank(l),
    ensures
        trim_start(l).len() == 0,
    decreases l.len(),
{
    if l.len() > 0 {
        assert(crate::text::is_ws(l[0]));
        assert(!nonblank(l.drop_first()));
        lemma_blank_trim(l.drop_first());
    }
}

} // verus!
