//! The hygiene scorer.
//!
//! A body's score is a quality metric in `[0, 1]` with four-decimal
//! resolution, carried here as an integer count of ten-thousandths
//! ("units", `0 ..= 10000`).  Over the body's nonblank lines it combines
//!
//! - token density: tokens per line against a budget of 8,
//! - character density: characters per line against a budget of 120,
//! - indentation stability: `1 / (1 + variance/16)` over the leading
//!   space/tab counts of the nonblank lines (`0.5` when there are none),
//! - a comment penalty: `1 - min(comment_ratio, 0.8)/0.8`, and
//! - a structure bonus per language,
//!
//! weighted `0.25 / 0.25 / 0.25 / 0.15 / +bonus`, clamped to `[0, 1]` and
//! rounded half-up to units once, at the end.  The weighted sum is kept as one
//! exact rational — numerator and denominator on 64-bit limbs ([`Wide`]) —
//! so the single rounding is exact for every input.  Line, character and
//! token counts are taken over the nonblank lines (a blank line holds no
//! token, so the body-wide token count is already that count), each floored
//! at 1.

use vstd::arithmetic::div_mod::lemma_fundamental_div_mod;
use vstd::prelude::*;

use crate::text::{
    chars_of, has_prefix, indent_of, line_indent, line_nonblank, nonblank, spec_lines,
    spec_token_count, spec_token_count_prefix, split_lines, starts_with_after_ws, str_eq,
    token_count_chars, trim_start,
};
use crate::wide::{
    wide_add, wide_from_u128, wide_le, wide_mul, wide_mul_u64, wide_sub, Wide,
};

verus! {

/// Which leading markers make a line a comment.
#[derive(Clone, Copy, PartialEq, Eq, Structural)]
pub enum CommentStyle {
    Hash,
    Slash,
    HashSlash,
}

/// The comment markers of a language label: `#` for python and for config,
/// `//` or `/*` for rust and typescript, and `#` or `//` for anything else.
pub open spec fn spec_comment_style(lang: Seq<char>) -> CommentStyle {
    if lang == "python"@ || lang == "config"@ {
        CommentStyle::Hash
    } else if lang == "rust"@ || lang == "typescript"@ {
        CommentStyle::Slash
    } else {
        CommentStyle::HashSlash
    }
}

/// A nonblank line is a comment when its first non-whitespace characters are
/// one of the style's markers.
pub open spec fn spec_is_comment(l: Seq<char>, style: CommentStyle) -> bool {
    let t = trim_start(l);
    match style {
        CommentStyle::Hash => has_prefix(t, "#"@),
        CommentStyle::Slash => has_prefix(t, "//"@) || has_prefix(t, "/*"@),
        CommentStyle::HashSlash => has_prefix(t, "#"@) || has_prefix(t, "//"@),
    }
}

/// The structure bonus, in units.
pub open spec fn spec_bonus(lang: Seq<char>) -> int {
    if lang == "python"@ || lang == "rust"@ || lang == "typescript"@ {
        1000
    } else if lang == "config"@ {
        500
    } else {
        0
    }
}

/// Nonblank lines among the first `k`.
pub open spec fn nb_count(lines: Seq<Seq<char>>, k: int) -> int
    decreases k,
{
    if k <= 0 {
        0
    } else {
        nb_count(lines, k - 1) + if nonblank(lines[k - 1]) {
            1int
        } else {
            0int
        }
    }
}

/// Sum of the indents of the nonblank lines among the first `k`.
pub open spec fn indent_sum(lines: Seq<Seq<char>>, k: int) -> int
    decreases k,
{
    if k <= 0 {
        0
    } else {
        indent_sum(lines, k - 1) + if nonblank(lines[k - 1]) {
            indent_of(lines[k - 1])
        } else {
            0int
        }
    }
}

/// Sum of the squared indents of the nonblank lines among the first `k`.
pub open spec fn indent_sqsum(lines: Seq<Seq<char>>, k: int) -> int
    decreases k,
{
    if k <= 0 {
        0
    } else {
        indent_sqsum(lines, k - 1) + if nonblank(lines[k - 1]) {
            indent_of(lines[k - 1]) * indent_of(lines[k - 1])
        } else {
            0int
        }
    }
}

/// Comment lines among the first `k` nonblank lines.
pub open spec fn comment_count(lines: Seq<Seq<char>>, style: CommentStyle, k: int) -> int
    decreases k,
{
    if k <= 0 {
        0
    } else {
        comment_count(lines, style, k - 1) + if nonblank(lines[k - 1]) && spec_is_comment(
            lines[k - 1],
            style,
        ) {
            1int
        } else {
            0int
        }
    }
}

/// Total length of the first `k` lines.
pub open spec fn len_sum(lines: Seq<Seq<char>>, k: int) -> int
    decreases k,
{
    if k <= 0 {
        0
    } else {
        len_sum(lines, k - 1) + lines[k - 1].len()
    }
}

/// Total length of the nonblank lines among the first `k`.
pub open spec fn nb_len_sum(lines: Seq<Seq<char>>, k: int) -> int
    decreases k,
{
    if k <= 0 {
        0
    } else {
        nb_len_sum(lines, k - 1) + if nonblank(lines[k - 1]) {
            lines[k - 1].len() as int
        } else {
            0int
        }
    }
}

/// Division rounded half away from zero, for nonnegative operands.
pub open spec fn round_div(a: int, b: int) -> int {
    (2 * a + b) / (2 * b)
}

/// The weighted sum of the four metric fractions `a1/d1` (token density),
/// `a2/d2` (character density), `v3/d3` (indentation stability) and `w4/d4`
/// (comment penalty), plus the bonus, as one exact rational `num/den` —
/// clamped to `[0, 1]` and rounded half-up to units of `1/10000`.
pub open spec fn weighted_units(
    a1: int,
    d1: int,
    a2: int,
    d2: int,
    v3: int,
    d3: int,
    w4: int,
    d4: int,
    bonus: int,
) -> int {
    let den = d1 * d2 * d3 * d4;
    let num = 2500 * a1 * d2 * d3 * d4 + 2500 * a2 * d1 * d3 * d4 + 2500 * v3 * d1 * d2 * d4 + 1500
        * w4 * d1 * d2 * d3 + bonus * den;
    let clamped_high: int = if num <= 10000 * den { num } else { 10000 * den };
    let clamped: int = if clamped_high >= 0 { clamped_high } else { 0 };
    round_div(clamped, den)
}

/// The hygiene score of a body under a language label, in units of `1/10000`.
pub open spec fn spec_score_units(body: Seq<char>, lang: Seq<char>) -> int {
    let lines = spec_lines(body);
    let nl = lines.len() as int;
    let n = nb_count(lines, nl);
    let s = indent_sum(lines, nl);
    let q = indent_sqsum(lines, nl);
    let cl = comment_count(lines, spec_comment_style(lang), nl);
    let lcount: int = if n >= 1 { n } else { 1 };
    let cchars = nb_len_sum(lines, nl);
    let ccount: int = if cchars >= 1 { cchars } else { 1 };
    let tc = spec_token_count(body);
    let tcount: int = if tc >= 1 { tc } else { 1 };
    let d1 = 8 * lcount;
    let a1: int = if tcount <= d1 { tcount } else { d1 };
    let d2 = 120 * lcount;
    let a2: int = if ccount <= d2 { ccount } else { d2 };
    let v3: int = if n == 0 { 1 } else { 16 * (n * n) };
    let d3: int = if n == 0 { 2 } else { 16 * (n * n) + (n * q - s * s) };
    let d4 = 4 * lcount;
    let w4: int = if 5 * cl >= 4 * lcount { 0 } else { 4 * lcount - 5 * cl };
    weighted_units(a1, d1, a2, d2, v3, d3, w4, d4, spec_bonus(lang))
}

/// The indent of a line never exceeds its length.
proof fn lemma_indent_le_len(l: Seq<char>)
    ensures
        0 <= indent_of(l) <= l.len(),
    decreases l.len(),
{
    if l.len() > 0 && (l[0] == ' ' || l[0] == '\t') {
        lemma_indent_le_len(l.drop_first());
    }
}

/// Elementary bounds of the aggregates.
proof fn lemma_aggregate_bounds(lines: Seq<Seq<char>>, style: CommentStyle, k: int)
    requires
        k <= lines.len(),
    ensures
        0 <= nb_count(lines, k) <= (if k >= 0 { k } else { 0 }),
        0 <= comment_count(lines, style, k) <= nb_count(lines, k),
        0 <= indent_sum(lines, k) <= len_sum(lines, k),
        0 <= indent_sqsum(lines, k),
        0 <= nb_len_sum(lines, k) <= len_sum(lines, k),
        0 <= len_sum(lines, k),
    decreases k,
{
    if k > 0 {
        lemma_aggregate_bounds(lines, style, k - 1);
        lemma_indent_le_len(lines[k - 1]);
    }
}

/// `len_sum` grows with its prefix length.
proof fn lemma_len_sum_mono(lines: Seq<Seq<char>>, j: int, k: int)
    requires
        0 <= j <= k <= lines.len(),
    ensures
        len_sum(lines, j) <= len_sum(lines, k),
    decreases k,
{
    if j < k {
        lemma_len_sum_mono(lines, j, k - 1);
    }
}

/// Prepending one line shifts `len_sum` by that line's length.
proof fn lemma_len_sum_cons(a: Seq<char>, rest: Seq<Seq<char>>, k: int)
    requires
        0 <= k <= rest.len(),
    ensures
        len_sum(seq![a] + rest, k + 1) == a.len() + len_sum(rest, k),
    decreases k,
{
    let both = seq![a] + rest;
    if k == 0 {
        assert(len_sum(both, 1) == len_sum(both, 0) + both[0].len());
        assert(both[0] == a);
    } else {
        lemma_len_sum_cons(a, rest, k - 1);
        assert(both[k] == rest[k - 1]);
    }
}

/// The lines of a body are no longer, in total, than the body itself, and
/// there are no more of them than it has characters.
proof fn lemma_lines_of_body(s: Seq<char>)
    ensures
        len_sum(spec_lines(s), spec_lines(s).len() as int) <= s.len(),
        spec_lines(s).len() <= s.len(),
    decreases s.len(),
{
    crate::text::lemma_first_nl(s);
    if s.len() == 0 {
    } else {
        let i = crate::text::first_nl(s);
        if i == s.len() {
            assert(len_sum(spec_lines(s), 1) == len_sum(spec_lines(s), 0) + s.len());
        } else {
            let head = crate::text::strip_cr(s.take(i));
            let rest = s.skip(i + 1);
            lemma_lines_of_body(rest);
            lemma_len_sum_cons(head, spec_lines(rest), spec_lines(rest).len() as int);
            assert(head.len() <= i);
            assert(rest.len() == s.len() - i - 1);
        }
    }
}

/// `2 * indent_sum * d <= indent_sqsum + nb_count * d^2`: summing
/// `2 e d <= e^2 + d^2` over the nonblank lines.
proof fn lemma_cross(lines: Seq<Seq<char>>, k: int, d: int)
    requires
        0 <= k <= lines.len(),
        d >= 0,
    ensures
        2 * indent_sum(lines, k) * d <= indent_sqsum(lines, k) + nb_count(lines, k) * d * d,
    decreases k,
{
    if k > 0 {
        lemma_cross(lines, k - 1, d);
        if nonblank(lines[k - 1]) {
            let e = indent_of(lines[k - 1]);
            lemma_indent_le_len(lines[k - 1]);
            assert(2 * (indent_sum(lines, k - 1) + e) * d <= (indent_sqsum(lines, k - 1) + e * e)
                + (nb_count(lines, k - 1) + 1) * d * d) by (nonlinear_arith)
                requires
                    2 * indent_sum(lines, k - 1) * d <= indent_sqsum(lines, k - 1) + nb_count(
                        lines,
                        k - 1,
                    ) * d * d,
                    e >= 0,
                    d >= 0,
            ;
        } else {
            assert(2 * indent_sum(lines, k) * d == 2 * indent_sum(lines, k - 1) * d)
                by (nonlinear_arith)
                requires
                    indent_sum(lines, k) == indent_sum(lines, k - 1),
            ;
            assert(nb_count(lines, k) * d * d == nb_count(lines, k - 1) * d * d)
                by (nonlinear_arith)
                requires
                    nb_count(lines, k) == nb_count(lines, k - 1),
            ;
        }
    } else {
        assert(2 * indent_sum(lines, k) * d == 0) by (nonlinear_arith)
            requires
                indent_sum(lines, k) == 0,
        ;
        assert(nb_count(lines, k) * d * d == 0) by (nonlinear_arith)
            requires
                nb_count(lines, k) == 0,
        ;
    }
}

/// Cauchy–Schwarz for the indent aggregates: the squared sum never exceeds
/// the count times the sum of squares, so the variance numerator is never
/// negative.
pub proof fn lemma_indent_cauchy(lines: Seq<Seq<char>>, k: int)
    requires
        0 <= k <= lines.len(),
    ensures
        indent_sum(lines, k) * indent_sum(lines, k) <= nb_count(lines, k) * indent_sqsum(lines, k),
    decreases k,
{
    if k > 0 {
        lemma_indent_cauchy(lines, k - 1);
        if nonblank(lines[k - 1]) {
            let e = indent_of(lines[k - 1]);
            let s = indent_sum(lines, k - 1);
            let n = nb_count(lines, k - 1);
            let q = indent_sqsum(lines, k - 1);
            lemma_indent_le_len(lines[k - 1]);
            lemma_cross(lines, k - 1, e);
            assert((s + e) * (s + e) <= (n + 1) * (q + e * e)) by (nonlinear_arith)
                requires
                    s * s <= n * q,
                    2 * s * e <= q + n * e * e,
                    e >= 0,
            ;
        }
    }
}

/// `round_div` of a value at most `w` times the divisor lies in `[0, w]`.
proof fn lemma_round_div_bounds(a: int, b: int, w: int)
    requires
        0 <= a,
        1 <= b,
        0 <= w,
        a <= w * b,
    ensures
        0 <= round_div(a, b) <= w,
{
    lemma_fundamental_div_mod(2 * a + b, 2 * b);
    let q = (2 * a + b) / (2 * b);
    let r = (2 * a + b) % (2 * b);
    assert(0 <= r < 2 * b);
    assert(q >= 0 && q <= w) by (nonlinear_arith)
        requires
            2 * a + b == 2 * b * q + r,
            0 <= r < 2 * b,
            0 <= a,
            1 <= b,
            0 <= w,
            a <= w * b,
    ;
}

/// `round_div(a, b)` is the largest `k` with `k * 2b <= 2a + b`.
proof fn lemma_round_div_is_max(a: int, b: int, k: int)
    requires
        0 <= a,
        1 <= b,
        0 <= k,
        k * (2 * b) <= 2 * a + b,
        (k + 1) * (2 * b) > 2 * a + b,
    ensures
        round_div(a, b) == k,
{
    lemma_fundamental_div_mod(2 * a + b, 2 * b);
    let q = (2 * a + b) / (2 * b);
    let r = (2 * a + b) % (2 * b);
    assert(q == k) by (nonlinear_arith)
        requires
            2 * a + b == 2 * b * q + r,
            0 <= r < 2 * b,
            k * (2 * b) <= 2 * a + b,
            (k + 1) * (2 * b) > 2 * a + b,
            1 <= b,
            0 <= k,
    ;
}

/// Rounded division of bounded 128-bit values.
pub(crate) fn round_div_u128(a: u128, b: u128, w: u32) -> (r: u32)
    requires
        1 <= b,
        b <= 0x1_0000_0000_0000_0000_0000u128,
        a <= w * b,
    ensures
        r == round_div(a as int, b as int),
        r <= w,
{
    proof {
        lemma_round_div_bounds(a as int, b as int, w as int);
        assert(a <= 0x1_0000_0000u128 * 0x1_0000_0000_0000_0000_0000u128) by (nonlinear_arith)
            requires
                a <= w * b,
                w <= 0x1_0000_0000u128,
                b <= 0x1_0000_0000_0000_0000_0000u128,
                1 <= b,
                0 <= a,
        ;
    }
    let num = 2 * a + b;
    let den = 2 * b;
    let q = num / den;
    proof {
        assert(q <= w) by (nonlinear_arith)
            requires
                q == (2 * a + b) as int / (2 * b) as int,
                q == round_div(a as int, b as int),
                round_div(a as int, b as int) <= w,
        ;
    }
    q as u32
}

/// The weighted numerator of four in-range metric fractions plus a bonus of
/// at most 1000 units stays within 10000 times the common denominator.
proof fn lemma_weighted_bounds(
    a1: int,
    d1: int,
    a2: int,
    d2: int,
    v3: int,
    d3: int,
    w4: int,
    d4: int,
    bonus: int,
)
    requires
        0 <= a1 <= d1,
        0 <= a2 <= d2,
        0 <= v3 <= d3,
        0 <= w4 <= d4,
        1 <= d1,
        1 <= d2,
        1 <= d3,
        1 <= d4,
        0 <= bonus <= 1000,
    ensures
        1 <= d1 * d2 * d3 * d4,
        0 <= 2500 * a1 * d2 * d3 * d4 + 2500 * a2 * d1 * d3 * d4 + 2500 * v3 * d1 * d2 * d4 + 1500
            * w4 * d1 * d2 * d3 + bonus * (d1 * d2 * d3 * d4) <= 10000 * (d1 * d2 * d3 * d4),
{
    let den = d1 * d2 * d3 * d4;
    assert(1 <= den && 0 <= 2500 * a1 * d2 * d3 * d4 <= 2500 * den && 0 <= 2500 * a2 * d1 * d3 * d4
        <= 2500 * den && 0 <= 2500 * v3 * d1 * d2 * d4 <= 2500 * den && 0 <= 1500 * w4 * d1 * d2
        * d3 <= 1500 * den && 0 <= bonus * den <= 1000 * den) by (nonlinear_arith)
        requires
            0 <= a1 <= d1,
            0 <= a2 <= d2,
            0 <= v3 <= d3,
            0 <= w4 <= d4,
            1 <= d1,
            1 <= d2,
            1 <= d3,
            1 <= d4,
            0 <= bonus <= 1000,
            den == d1 * d2 * d3 * d4,
    ;
}

/// Every score lies in `[0, 10000]`: the weighted sum is clamped to `[0, 1]`
/// (and could not exceed it anyway, the weights and the bonus totalling one).
pub proof fn lemma_score_range(body: Seq<char>, lang: Seq<char>)
    ensures
        0 <= spec_score_units(body, lang) <= 10000,
{
    let lines = spec_lines(body);
    let nl = lines.len() as int;
    let style = spec_comment_style(lang);
    lemma_aggregate_bounds(lines, style, nl);
    lemma_token_count_nonneg(body, body.len() as int);
    let n = nb_count(lines, nl);
    let s = indent_sum(lines, nl);
    let q = indent_sqsum(lines, nl);
    let cl = comment_count(lines, style, nl);
    let lcount: int = if n >= 1 { n } else { 1 };
    let d3: int = if n == 0 { 2 } else { 16 * (n * n) + (n * q - s * s) };
    let v3: int = if n == 0 { 1 } else { 16 * (n * n) };
    if n != 0 {
        lemma_indent_cauchy(lines, nl);
        assert(1 <= 16 * (n * n) && v3 <= d3) by (nonlinear_arith)
            requires
                n >= 1,
                s * s <= n * q,
                v3 == 16 * (n * n),
                d3 == 16 * (n * n) + (n * q - s * s),
        ;
    }
    let cchars = nb_len_sum(lines, nl);
    let ccount: int = if cchars >= 1 { cchars } else { 1 };
    let tc = spec_token_count(body);
    let tcount: int = if tc >= 1 { tc } else { 1 };
    let d1 = 8 * lcount;
    let a1: int = if tcount <= d1 { tcount } else { d1 };
    let d2 = 120 * lcount;
    let a2: int = if ccount <= d2 { ccount } else { d2 };
    let d4 = 4 * lcount;
    let w4: int = if 5 * cl >= 4 * lcount { 0 } else { 4 * lcount - 5 * cl };
    lemma_weighted_bounds(a1, d1, a2, d2, v3, d3, w4, d4, spec_bonus(lang));
    let den = d1 * d2 * d3 * d4;
    let num = 2500 * a1 * d2 * d3 * d4 + 2500 * a2 * d1 * d3 * d4 + 2500 * v3 * d1 * d2 * d4 + 1500
        * w4 * d1 * d2 * d3 + spec_bonus(lang) * den;
    lemma_round_div_bounds(num, den, 10000);
    assert(spec_score_units(body, lang) == round_div(num, den));
}

/// Token counts are never negative.
proof fn lemma_token_count_nonneg(s: Seq<char>, k: int)
    ensures
        spec_token_count_prefix(s, k) >= 0,
    decreases k,
{
    if k > 0 {
        lemma_token_count_nonneg(s, k - 1);
    }
}

/// Tests one line against a comment style.
fn is_comment_line(l: &Vec<char>, style: CommentStyle) -> (r: bool)
    ensures
        r == spec_is_comment(l@, style),
{
    match style {
        CommentStyle::Hash => starts_with_after_ws(l, "#"),
        CommentStyle::Slash => starts_with_after_ws(l, "//") || starts_with_after_ws(l, "/*"),
        CommentStyle::HashSlash => starts_with_after_ws(l, "#") || starts_with_after_ws(l, "//"),
    }
}

/// Evaluates [`weighted_units`] exactly: the numerator and denominator are
/// assembled on limbs and the rounded quotient is found by binary search.
fn weighted_round(
    a1: u128,
    d1: u128,
    a2: u128,
    d2: u128,
    wv3: Wide,
    wd3: Wide,
    w4: u128,
    d4: u128,
    bonus: u32,
    Ghost(v3): Ghost<int>,
    Ghost(d3): Ghost<int>,
) -> (r: u32)
    requires
        wv3.val() == v3,
        wd3.val() == d3,
        0 <= v3 <= d3,
        1 <= d3,
        a1 <= d1,
        1 <= d1,
        a2 <= d2,
        1 <= d2,
        w4 <= d4,
        1 <= d4,
        bonus <= 1000,
        2500 * a1 <= u128::MAX,
        2500 * a2 <= u128::MAX,
        1500 * w4 <= u128::MAX,
    ensures
        r == weighted_units(a1 as int, d1 as int, a2 as int, d2 as int, v3, d3, w4 as int,
            d4 as int, bonus as int),
        r <= 10000,
{
    let wd1 = wide_from_u128(d1);
    let wd2 = wide_from_u128(d2);
    let wd4 = wide_from_u128(d4);
    let wden = wide_mul(&wide_mul(&wide_mul(&wd1, &wd2), &wd3), &wd4);
    let wt1 = wide_mul(&wide_mul(&wide_mul(&wide_from_u128(2500 * a1), &wd2), &wd3), &wd4);
    let wt2 = wide_mul(&wide_mul(&wide_mul(&wide_from_u128(2500 * a2), &wd1), &wd3), &wd4);
    let wt3 = wide_mul(&wide_mul(&wide_mul(&wide_mul_u64(&wv3, 2500), &wd1), &wd2), &wd4);
    let wt4 = wide_mul(&wide_mul(&wide_mul(&wide_from_u128(1500 * w4), &wd1), &wd2), &wd3);
    let wtb = wide_mul_u64(&wden, bonus as u64);
    let wnum = wide_add(&wide_add(&wide_add(&wide_add(&wt1, &wt2), &wt3), &wt4), &wtb);

    let ghost den: int = d1 * d2 * d3 * d4;
    let ghost num: int = 2500 * a1 * d2 * d3 * d4 + 2500 * a2 * d1 * d3 * d4 + 2500 * v3 * d1 * d2
        * d4 + 1500 * w4 * d1 * d2 * d3 + bonus * den;
    proof {
        assert(wt3.val() == 2500 * v3 * d1 * d2 * d4) by (nonlinear_arith)
            requires
                wt3.val() == ((v3 * 2500) * d1) * d2 * d4,
        ;
        assert(wden.val() == den);
        assert(wtb.val() == bonus * den) by (nonlinear_arith)
            requires
                wtb.val() == wden.val() * bonus,
                wden.val() == den,
        ;
        assert(wnum.val() == num);
        lemma_weighted_bounds(a1 as int, d1 as int, a2 as int, d2 as int, v3, d3, w4 as int,
            d4 as int, bonus as int);
        assert(0 <= num <= 10000 * den);
        assert(1 <= den);
    }

    let w2den = wide_mul_u64(&wden, 2);
    let w2numpden = wide_add(&wide_mul_u64(&wnum, 2), &wden);
    proof {
        assert(w2den.val() == 2 * den) by (nonlinear_arith)
            requires
                w2den.val() == den * 2,
        ;
        assert(w2numpden.val() == 2 * num + den) by (nonlinear_arith)
            requires
                w2numpden.val() == num * 2 + den,
        ;
        assert((10001int) * (2 * den) > 2 * num + den) by (nonlinear_arith)
            requires
                0 <= num <= 10000 * den,
                1 <= den,
        ;
    }
    let mut lo: u32 = 0;
    let mut hi: u32 = 10001;
    while lo + 1 < hi
        invariant
            lo < hi <= 10001,
            w2den.val() == 2 * den,
            w2numpden.val() == 2 * num + den,
            0 <= num,
            1 <= den,
            (lo as int) * (2 * den) <= 2 * num + den,
            (hi as int) * (2 * den) > 2 * num + den,
        decreases hi - lo,
    {
        let mid = lo + (hi - lo) / 2;
        let trial = wide_mul_u64(&w2den, mid as u64);
        proof {
            assert(trial.val() == (mid as int) * (2 * den)) by (nonlinear_arith)
                requires
                    trial.val() == (2 * den) * mid,
            ;
        }
        if wide_le(&trial, &w2numpden) {
            lo = mid;
        } else {
            hi = mid;
        }
    }
    proof {
        lemma_round_div_is_max(num, den, lo as int);
        assert(weighted_units(a1 as int, d1 as int, a2 as int, d2 as int, v3, d3, w4 as int,
            d4 as int, bonus as int) == round_div(num, den));
        lemma_round_div_bounds(num, den, 10000);
    }
    lo
}

/// Scores a body under a language label, in units of `1/10000`.
pub fn hygiene_score(body: &str, language: &str) -> (r: u32)
    ensures
        r == spec_score_units(body@, language@),
        r <= 10000,
{
    let chars = chars_of(body);
    let lines = split_lines(&chars);
    let tokens = token_count_chars(&chars);
    let style = if str_eq(language, "python") || str_eq(language, "config") {
        CommentStyle::Hash
    } else if str_eq(language, "rust") || str_eq(language, "typescript") {
        CommentStyle::Slash
    } else {
        CommentStyle::HashSlash
    };
    let ghost sl = spec_lines(body@);
    let nlines = lines.len();
    let total = chars.len();
    proof {
        lemma_lines_of_body(body@);
        lemma_aggregate_bounds(sl, style, sl.len() as int);
        assert(body@.len() == chars@.len());
        assert(chars@.len() == total);
    }

    let mut n: usize = 0;
    let mut cl: usize = 0;
    let mut c_nb: usize = 0;
    let mut s_sum: u128 = 0;
    let mut q_sum: u128 = 0;
    let mut i: usize = 0;
    while i < nlines
        invariant
            i <= nlines,
            nlines == sl.len(),
            nlines == lines@.len(),
            forall|j: int| 0 <= j < nlines ==> lines@[j]@ == sl[j],
            len_sum(sl, sl.len() as int) <= body@.len(),
            body@.len() <= usize::MAX,
            body@.len() <= 0xffff_ffff_ffff_ffff,
            n == nb_count(sl, i as int),
            cl == comment_count(sl, style, i as int),
            c_nb == nb_len_sum(sl, i as int),
            s_sum == indent_sum(sl, i as int),
            q_sum == indent_sqsum(sl, i as int),
            s_sum <= len_sum(sl, i as int),
            c_nb <= len_sum(sl, i as int),
            q_sum <= s_sum * s_sum,
            n <= i,
            cl <= n,
        decreases nlines - i,
    {
        proof {
            lemma_len_sum_mono(sl, i as int, i + 1);
            lemma_len_sum_mono(sl, i + 1, sl.len() as int);
            lemma_indent_le_len(sl[i as int]);
        }
        if line_nonblank(&lines[i]) {
            n = n + 1;
            proof {
                assert(c_nb + lines@[i as int]@.len() <= len_sum(sl, i + 1));
            }
            c_nb = c_nb + lines[i].len();
            let d = line_indent(&lines[i]);
            proof {
                assert(s_sum + d <= len_sum(sl, i + 1));
                assert(s_sum + d <= 0xffff_ffff_ffff_ffff);
                assert(q_sum + d * d <= (s_sum + d) * (s_sum + d)) by (nonlinear_arith)
                    requires
                        q_sum <= s_sum * s_sum,
                        0 <= d,
                        0 <= s_sum,
                ;
                assert((s_sum + d) * (s_sum + d) <= u128::MAX) by (nonlinear_arith)
                    requires
                        0 <= s_sum + d <= 0xffff_ffff_ffff_ffff,
                ;
            }
            q_sum = q_sum + (d as u128) * (d as u128);
            s_sum = s_sum + d as u128;
            if is_comment_line(&lines[i], style) {
                cl = cl + 1;
            }
        }
        i = i + 1;
    }

    let ghost gn = n as int;
    let ghost gs = s_sum as int;
    let ghost gq = q_sum as int;

    let lcount: u128 = if n == 0 {
        1
    } else {
        n as u128
    };
    let ccount: u128 = if c_nb == 0 {
        1
    } else {
        c_nb as u128
    };
    let tcount: u128 = if tokens == 0 {
        1
    } else {
        tokens as u128
    };
    let d1: u128 = 8 * lcount;
    let a1: u128 = if tcount <= d1 {
        tcount
    } else {
        d1
    };
    let d2: u128 = 120 * lcount;
    let a2: u128 = if ccount <= d2 {
        ccount
    } else {
        d2
    };
    let d4: u128 = 4 * lcount;
    let w4: u128 = if 5 * (cl as u128) >= 4 * lcount {
        0
    } else {
        4 * lcount - 5 * (cl as u128)
    };
    let bonus: u32 = if str_eq(language, "python") || str_eq(language, "rust") || str_eq(
        language,
        "typescript",
    ) {
        1000
    } else if str_eq(language, "config") {
        500
    } else {
        0
    };

    let (wv3, wd3): (Wide, Wide) = if n == 0 {
        (wide_from_u128(1), wide_from_u128(2))
    } else {
        proof {
            lemma_indent_cauchy(sl, sl.len() as int);
            assert(n * n <= u128::MAX && s_sum * s_sum <= u128::MAX) by (nonlinear_arith)
                requires
                    0 <= n <= 0xffff_ffff_ffff_ffffu128,
                    0 <= s_sum <= 0xffff_ffff_ffff_ffffu128,
            ;
        }
        let n2: u128 = (n as u128) * (n as u128);
        let wn = wide_from_u128(n as u128);
        let wq = wide_from_u128(q_sum);
        let wnq = wide_mul(&wn, &wq);
        let ws2 = wide_from_u128(s_sum * s_sum);
        let wvar = wide_sub(&wnq, &ws2);
        let w16n2 = wide_mul_u64(&wide_from_u128(n2), 16);
        let wd3 = wide_add(&wide_mul_u64(&wide_from_u128(n2), 16), &wvar);
        proof {
            assert(w16n2.val() == 16 * (gn * gn));
            assert(wd3.val() == 16 * (gn * gn) + (gn * gq - gs * gs));
        }
        (w16n2, wd3)
    };
    let ghost v3: int = if gn == 0 {
        1int
    } else {
        16 * (gn * gn)
    };
    let ghost d3: int = if gn == 0 {
        2int
    } else {
        16 * (gn * gn) + (gn * gq - gs * gs)
    };
    proof {
        assert(wv3.val() == v3);
        assert(wd3.val() == d3);
        if gn != 0 {
            lemma_indent_cauchy(sl, sl.len() as int);
            assert(1 <= 16 * (gn * gn) && v3 <= d3) by (nonlinear_arith)
                requires
                    gn >= 1,
                    gs * gs <= gn * gq,
                    v3 == 16 * (gn * gn),
                    d3 == 16 * (gn * gn) + (gn * gq - gs * gs),
            ;
        }
    }

    let r = weighted_round(a1, d1, a2, d2, wv3, wd3, w4, d4, bonus, Ghost(v3), Ghost(d3));
    proof {
        assert(spec_score_units(body@, language@) == weighted_units(a1 as int, d1 as int,
            a2 as int, d2 as int, v3, d3, w4 as int, d4 as int, bonus as int));
    }
    r
}

} // verus!
