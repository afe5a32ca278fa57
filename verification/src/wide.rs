//! Exact unsigned integers on 64-bit limbs, of any width.
//!
//! The scorer forms its weighted sum as one exact rational and rounds it a
//! single time; on long bodies the numerator and denominator outgrow 128
//! bits, so these operations carry them exactly at whatever width they need.

use vstd::arithmetic::div_mod::lemma_fundamental_div_mod;
use vstd::prelude::*;

verus! {

/// `2^64`, the limb base.
pub open spec fn base() -> int {
    0x1_0000_0000_0000_0000
}

/// The integer a limb sequence stands for, least significant limb first.
pub open spec fn limbs_val(s: Seq<u64>) -> int
    decreases s.len(),
{
    if s.len() == 0 {
        0
    } else {
        s[0] + base() * limbs_val(s.drop_first())
    }
}

/// `base()^k`.
pub open spec fn pow_base(k: nat) -> int
    decreases k,
{
    if k == 0 {
        1
    } else {
        base() * pow_base((k - 1) as nat)
    }
}

/// An exact unsigned integer.
pub struct Wide {
    pub limbs: Vec<u64>,
}

impl Wide {
    /// The integer this value stands for.
    pub open spec fn val(&self) -> int {
        limbs_val(self.limbs@)
    }
}

pub proof fn lemma_pow_pos(k: nat)
    ensures
        pow_base(k) >= 1,
    decreases k,
{
    if k > 0 {
        lemma_pow_pos((k - 1) as nat);
        assert(base() * pow_base((k - 1) as nat) >= base()) by (nonlinear_arith)
            requires
                pow_base((k - 1) as nat) >= 1,
        ;
    }
}

/// A sequence of `k` limbs stands for a value in `[0, base^k)`.
pub proof fn lemma_val_bounds(s: Seq<u64>)
    ensures
        0 <= limbs_val(s) < pow_base(s.len()),
    decreases s.len(),
{
    if s.len() == 0 {
    } else {
        lemma_val_bounds(s.drop_first());
        lemma_pow_pos((s.len() - 1) as nat);
        assert(0 <= s[0] + base() * limbs_val(s.drop_first()) < base() * pow_base(
            (s.len() - 1) as nat,
        )) by (nonlinear_arith)
            requires
                0 <= s[0] < base(),
                0 <= limbs_val(s.drop_first()) < pow_base((s.len() - 1) as nat),
                pow_base((s.len() - 1) as nat) >= 1,
        ;
    }
}

/// Appending a limb adds its value at the next power of the base.
pub proof fn lemma_val_push(s: Seq<u64>, x: u64)
    ensures
        limbs_val(s.push(x)) == limbs_val(s) + x * pow_base(s.len()),
    decreases s.len(),
{
    if s.len() == 0 {
        let pushed = s.push(x);
        assert(pushed.len() == 1);
        assert(pushed[0] == x);
        assert(pushed.drop_first() =~= Seq::<u64>::empty());
        assert(limbs_val(pushed.drop_first()) == 0);
        assert(limbs_val(pushed) == x + base() * 0);
        assert(limbs_val(s) == 0);
    } else {
        assert(s.push(x).drop_first() =~= s.drop_first().push(x));
        lemma_val_push(s.drop_first(), x);
        assert(s[0] + base() * (limbs_val(s.drop_first()) + x * pow_base((s.len() - 1) as nat))
            == limbs_val(s) + x * (base() * pow_base((s.len() - 1) as nat))) by (nonlinear_arith)
            requires
                limbs_val(s) == s[0] + base() * limbs_val(s.drop_first()),
        ;
    }
}

/// The value of the first `i + 1` limbs extends the value of the first `i`.
proof fn lemma_val_take_succ(s: Seq<u64>, i: int)
    requires
        0 <= i < s.len(),
    ensures
        limbs_val(s.take(i + 1)) == limbs_val(s.take(i)) + s[i] * pow_base(i as nat),
{
    assert(s.take(i + 1) =~= s.take(i).push(s[i]));
    lemma_val_push(s.take(i), s[i]);
}

/// Splits a value at limb `i`.
proof fn lemma_val_split(s: Seq<u64>, i: int)
    requires
        0 <= i <= s.len(),
    ensures
        limbs_val(s) == limbs_val(s.take(i)) + pow_base(i as nat) * limbs_val(s.skip(i)),
    decreases i,
{
    if i == 0 {
        assert(s.take(0) =~= Seq::<u64>::empty());
        assert(s.skip(0) =~= s);
    } else {
        lemma_val_split(s, i - 1);
        lemma_val_take_succ(s, i - 1);
        assert(s.skip(i - 1)[0] == s[i - 1]);
        assert(s.skip(i - 1).drop_first() =~= s.skip(i));
        assert(limbs_val(s.skip(i - 1)) == s[i - 1] + base() * limbs_val(s.skip(i)));
        assert(limbs_val(s.take(i - 1)) + pow_base((i - 1) as nat) * (s[i - 1] + base() * limbs_val(
            s.skip(i),
        )) == limbs_val(s.take(i - 1)) + s[i - 1] * pow_base((i - 1) as nat) + (base() * pow_base(
            (i - 1) as nat,
        )) * limbs_val(s.skip(i))) by (nonlinear_arith);
    }
}

/// Splits a `u128` into its low and high 64-bit limbs.
fn split_u128(x: u128) -> (r: (u64, u64))
    ensures
        x == r.0 + r.1 * base(),
        r.1 < base(),
{
    let lo = (x % 0x1_0000_0000_0000_0000u128) as u64;
    let hi = (x / 0x1_0000_0000_0000_0000u128) as u64;
    proof {
        lemma_fundamental_div_mod(x as int, base());
        assert(x / 0x1_0000_0000_0000_0000u128 < 0x1_0000_0000_0000_0000u128) by (nonlinear_arith);
    }
    (lo, hi)
}

/// Embeds a `u128`.
pub fn wide_from_u128(x: u128) -> (r: Wide)
    ensures
        r.val() == x,
{
    let (lo, hi) = split_u128(x);
    let mut limbs: Vec<u64> = Vec::new();
    limbs.push(lo);
    limbs.push(hi);
    proof {
        assert(limbs@.len() == 2 && limbs@[0] == lo);
        assert(limbs@.drop_first() =~= seq![hi]);
        assert(limbs@.drop_first().drop_first() =~= Seq::<u64>::empty());
        assert(limbs_val(limbs@.drop_first().drop_first()) == 0);
        assert(limbs_val(limbs@.drop_first()) == hi + base() * 0);
        assert(limbs_val(limbs@) == lo + base() * (hi + base() * 0));
    }
    Wide { limbs }
}

/// The limb at position `i`, reading past the end as zero.
pub open spec fn limb(s: Seq<u64>, i: int) -> u64 {
    if 0 <= i < s.len() {
        s[i]
    } else {
        0
    }
}

/// Copies a value into exactly `n` limbs.
fn padded(v: &Wide, n: usize) -> (r: Vec<u64>)
    requires
        v.limbs@.len() <= n,
    ensures
        r@.len() == n,
        limbs_val(r@) == v.val(),
        forall|j: int| 0 <= j < n ==> r@[j] == limb(v.limbs@, j),
{
    let mut r: Vec<u64> = Vec::new();
    let len = v.limbs.len();
    let mut i: usize = 0;
    while i < len
        invariant
            i <= len,
            len == v.limbs@.len(),
            r@ =~= v.limbs@.take(i as int),
        decreases len - i,
    {
        r.push(v.limbs[i]);
        i = i + 1;
        proof {
            assert(r@ =~= v.limbs@.take(i as int));
        }
    }
    proof {
        assert(r@ =~= v.limbs@);
    }
    while i < n
        invariant
            len <= i <= n,
            len == v.limbs@.len(),
            r@.len() == i,
            limbs_val(r@) == v.val(),
            forall|j: int| 0 <= j < i ==> r@[j] == limb(v.limbs@, j),
        decreases n - i,
    {
        proof {
            lemma_val_push(r@, 0);
        }
        let ghost before = r@;
        r.push(0);
        i = i + 1;
        proof {
            assert forall|j: int| 0 <= j < i implies r@[j] == limb(v.limbs@, j) by {
                if j < i - 1 {
                    assert(r@[j] == before[j]);
                } else {
                    assert(j == before.len());
                    assert(r@[j] == 0u64);
                    assert(j >= v.limbs@.len());
                }
            }
        }
    }
    r
}

/// Exact addition.
pub fn wide_add(a: &Wide, b: &Wide) -> (r: Wide)
    ensures
        r.val() == a.val() + b.val(),
{
    let n = if a.limbs.len() >= b.limbs.len() {
        a.limbs.len()
    } else {
        b.limbs.len()
    };
    let pa = padded(a, n);
    let pb = padded(b, n);
    let mut limbs: Vec<u64> = Vec::new();
    let mut carry: u64 = 0;
    let mut i: usize = 0;
    while i < n
        invariant
            i <= n,
            pa@.len() == n,
            pb@.len() == n,
            limbs@.len() == i,
            carry <= 1,
            limbs_val(limbs@) + carry * pow_base(i as nat) == limbs_val(pa@.take(i as int))
                + limbs_val(pb@.take(i as int)),
        decreases n - i,
    {
        let t: u128 = pa[i] as u128 + pb[i] as u128 + carry as u128;
        let (lo, hi) = split_u128(t);
        proof {
            assert(hi <= 1) by (nonlinear_arith)
                requires
                    t == lo + hi * base() && t < 2 * base() && lo >= 0,
            ;
            lemma_val_push(limbs@, lo);
            lemma_val_take_succ(pa@, i as int);
            lemma_val_take_succ(pb@, i as int);
            assert(limbs_val(limbs@) + lo * pow_base(i as nat) + hi * (base() * pow_base(
                i as nat,
            )) == limbs_val(pa@.take(i as int)) + pa@[i as int] * pow_base(i as nat) + limbs_val(
                pb@.take(i as int),
            ) + pb@[i as int] * pow_base(i as nat)) by (nonlinear_arith)
                requires
                    limbs_val(limbs@) + carry * pow_base(i as nat) == limbs_val(pa@.take(i as int))
                        + limbs_val(pb@.take(i as int)),
                    pa@[i as int] + pb@[i as int] + carry == lo + hi * base(),
            ;
        }
        limbs.push(lo);
        carry = hi;
        i = i + 1;
    }
    proof {
        assert(pa@.take(n as int) =~= pa@);
        assert(pb@.take(n as int) =~= pb@);
        lemma_val_push(limbs@, carry);
    }
    limbs.push(carry);
    Wide { limbs }
}

/// Exact subtraction of a smaller value.
pub fn wide_sub(a: &Wide, b: &Wide) -> (r: Wide)
    requires
        b.val() <= a.val(),
    ensures
        r.val() == a.val() - b.val(),
{
    let n = if a.limbs.len() >= b.limbs.len() {
        a.limbs.len()
    } else {
        b.limbs.len()
    };
    let pa = padded(a, n);
    let pb = padded(b, n);
    let mut limbs: Vec<u64> = Vec::new();
    let mut borrow: u64 = 0;
    let mut i: usize = 0;
    while i < n
        invariant
            i <= n,
            pa@.len() == n,
            pb@.len() == n,
            limbs@.len() == i,
            borrow <= 1,
            limbs_val(limbs@) - borrow * pow_base(i as nat) == limbs_val(pa@.take(i as int))
                - limbs_val(pb@.take(i as int)),
        decreases n - i,
    {
        let t: u128 = 0x1_0000_0000_0000_0000u128 + pa[i] as u128 - pb[i] as u128 - borrow as u128;
        let (lo, hi) = split_u128(t);
        let new_borrow: u64 = 1 - hi;
        proof {
            assert(hi <= 1) by (nonlinear_arith)
                requires
                    t == lo + hi * base() && t < 2 * base() && lo >= 0,
            ;
            lemma_val_push(limbs@, lo);
            lemma_val_take_succ(pa@, i as int);
            lemma_val_take_succ(pb@, i as int);
            assert(limbs_val(limbs@) + lo * pow_base(i as nat) - (1 - hi) * (base() * pow_base(
                i as nat,
            )) == limbs_val(pa@.take(i as int)) + pa@[i as int] * pow_base(i as nat) - limbs_val(
                pb@.take(i as int),
            ) - pb@[i as int] * pow_base(i as nat)) by (nonlinear_arith)
                requires
                    limbs_val(limbs@) - borrow * pow_base(i as nat) == limbs_val(pa@.take(i as int))
                        - limbs_val(pb@.take(i as int)),
                    base() + pa@[i as int] - pb@[i as int] - borrow == lo + hi * base(),
            ;
        }
        limbs.push(lo);
        borrow = new_borrow;
        i = i + 1;
    }
    proof {
        assert(pa@.take(n as int) =~= pa@);
        assert(pb@.take(n as int) =~= pb@);
        if borrow == 1 {
            lemma_val_bounds(limbs@);
            lemma_pow_pos(n as nat);
            assert(false);
        }
    }
    Wide { limbs }
}

/// Exact multiplication by a single limb.
pub fn wide_mul_u64(a: &Wide, m: u64) -> (r: Wide)
    ensures
        r.val() == a.val() * m,
{
    let n = a.limbs.len();
    let mut limbs: Vec<u64> = Vec::new();
    let mut carry: u64 = 0;
    let mut i: usize = 0;
    while i < n
        invariant
            i <= n,
            n == a.limbs@.len(),
            limbs@.len() == i,
            limbs_val(limbs@) + carry * pow_base(i as nat) == limbs_val(a.limbs@.take(i as int))
                * m,
        decreases n - i,
    {
        proof {
            assert(a.limbs@[i as int] * m + carry <= 0xffff_ffff_ffff_ffff_ffff_ffff_ffff_ffffu128)
                by (nonlinear_arith)
                requires
                    a.limbs@[i as int] < base() && m < base() && carry < base(),
            ;
        }
        let t: u128 = a.limbs[i] as u128 * m as u128 + carry as u128;
        let (lo, hi) = split_u128(t);
        proof {
            lemma_val_push(limbs@, lo);
            lemma_val_take_succ(a.limbs@, i as int);
            assert(limbs_val(limbs@) + lo * pow_base(i as nat) + hi * (base() * pow_base(
                i as nat,
            )) == (limbs_val(a.limbs@.take(i as int)) + a.limbs@[i as int] * pow_base(i as nat))
                * m) by (nonlinear_arith)
                requires
                    limbs_val(limbs@) + carry * pow_base(i as nat) == limbs_val(
                        a.limbs@.take(i as int),
                    ) * m,
                    a.limbs@[i as int] * m + carry == lo + hi * base(),
            ;
        }
        limbs.push(lo);
        carry = hi;
        i = i + 1;
    }
    proof {
        assert(a.limbs@.take(n as int) =~= a.limbs@);
        lemma_val_push(limbs@, carry);
    }
    limbs.push(carry);
    Wide { limbs }
}

/// Shifts a value up by `k` limbs: multiplication by `base^k`.
fn wide_shift(a: &Wide, k: usize) -> (r: Wide)
    ensures
        r.val() == pow_base(k as nat) * a.val(),
{
    let mut limbs: Vec<u64> = Vec::new();
    let mut i: usize = 0;
    let ghost av = a.limbs@;
    while i < k
        invariant
            i <= k,
            limbs@.len() == i,
            forall|j: int| 0 <= j < i ==> limbs@[j] == 0u64,
        decreases k - i,
    {
        limbs.push(0);
        i = i + 1;
    }
    let n = a.limbs.len();
    let mut j: usize = 0;
    while j < n
        invariant
            j <= n,
            n == a.limbs@.len(),
            a.limbs@ == av,
            limbs@.len() == k + j,
            forall|p: int| 0 <= p < k ==> limbs@[p] == 0u64,
            forall|p: int| 0 <= p < j ==> limbs@[k + p] == av[p],
        decreases n - j,
    {
        limbs.push(a.limbs[j]);
        j = j + 1;
    }
    let r = Wide { limbs };
    proof {
        lemma_val_split(r.limbs@, k as int);
        assert(r.limbs@.take(k as int) =~= Seq::new(k as nat, |p: int| 0u64));
        lemma_val_zeros(k as nat);
        assert(r.limbs@.skip(k as int) =~= av);
    }
    r
}

/// A run of zero limbs stands for zero.
proof fn lemma_val_zeros(k: nat)
    ensures
        limbs_val(Seq::new(k, |p: int| 0u64)) == 0,
    decreases k,
{
    if k > 0 {
        let s = Seq::new(k, |p: int| 0u64);
        assert(s.drop_first() =~= Seq::new((k - 1) as nat, |p: int| 0u64));
        lemma_val_zeros((k - 1) as nat);
    }
}

/// Exact multiplication.
pub fn wide_mul(a: &Wide, b: &Wide) -> (r: Wide)
    ensures
        r.val() == a.val() * b.val(),
{
    let n = b.limbs.len();
    let mut acc = wide_from_u128(0);
    let mut i: usize = 0;
    while i < n
        invariant
            i <= n,
            n == b.limbs@.len(),
            acc.val() == a.val() * limbs_val(b.limbs@.take(i as int)),
        decreases n - i,
    {
        let part = wide_shift(&wide_mul_u64(a, b.limbs[i]), i);
        proof {
            lemma_val_take_succ(b.limbs@, i as int);
            assert(acc.val() + pow_base(i as nat) * (a.val() * b.limbs@[i as int]) == a.val() * (
            limbs_val(b.limbs@.take(i as int)) + b.limbs@[i as int] * pow_base(i as nat)))
                by (nonlinear_arith)
                requires
                    acc.val() == a.val() * limbs_val(b.limbs@.take(i as int)),
            ;
        }
        acc = wide_add(&acc, &part);
        i = i + 1;
    }
    proof {
        assert(b.limbs@.take(n as int) =~= b.limbs@);
    }
    acc
}

/// If two equally long limb vectors agree above position `i` and differ at
/// `i`, the one with the smaller limb stands for the smaller value.
proof fn lemma_val_order(a: Seq<u64>, b: Seq<u64>, i: int)
    requires
        a.len() == b.len(),
        0 <= i < a.len(),
        forall|j: int| i < j < a.len() ==> a[j] == b[j],
        a[i] < b[i],
    ensures
        limbs_val(a) < limbs_val(b),
{
    lemma_val_split(a, i + 1);
    lemma_val_split(b, i + 1);
    assert(a.skip(i + 1) =~= b.skip(i + 1));
    lemma_val_take_succ(a, i);
    lemma_val_take_succ(b, i);
    lemma_val_bounds(a.take(i));
    lemma_val_bounds(b.take(i));
    assert(a.take(i).len() == i && b.take(i).len() == i);
    lemma_pow_pos(i as nat);
    assert(limbs_val(a.take(i + 1)) < limbs_val(b.take(i + 1))) by (nonlinear_arith)
        requires
            limbs_val(a.take(i + 1)) == limbs_val(a.take(i)) + a[i] * pow_base(i as nat),
            limbs_val(b.take(i + 1)) == limbs_val(b.take(i)) + b[i] * pow_base(i as nat),
            0 <= limbs_val(a.take(i)) < pow_base(i as nat),
            0 <= limbs_val(b.take(i)) < pow_base(i as nat),
            a[i] < b[i],
            pow_base(i as nat) >= 1,
    ;
    assert(limbs_val(a) < limbs_val(b)) by (nonlinear_arith)
        requires
            limbs_val(a) == limbs_val(a.take(i + 1)) + pow_base((i + 1) as nat) * limbs_val(
                a.skip(i + 1),
            ),
            limbs_val(b) == limbs_val(b.take(i + 1)) + pow_base((i + 1) as nat) * limbs_val(
                b.skip(i + 1),
            ),
            limbs_val(a.skip(i + 1)) == limbs_val(b.skip(i + 1)),
            limbs_val(a.take(i + 1)) < limbs_val(b.take(i + 1)),
    ;
}

/// `a <= b` on exact values.
pub fn wide_le(a: &Wide, b: &Wide) -> (r: bool)
    ensures
        r == (a.val() <= b.val()),
{
    let n = if a.limbs.len() >= b.limbs.len() {
        a.limbs.len()
    } else {
        b.limbs.len()
    };
    let pa = padded(a, n);
    let pb = padded(b, n);
    let mut i: usize = n;
    while i > 0
        invariant
            i <= n,
            pa@.len() == n,
            pb@.len() == n,
            limbs_val(pa@) == a.val(),
            limbs_val(pb@) == b.val(),
            forall|j: int| i <= j < n ==> pa@[j] == pb@[j],
        decreases i,
    {
        i = i - 1;
        if pa[i] != pb[i] {
            proof {
                if pa@[i as int] < pb@[i as int] {
                    lemma_val_order(pa@, pb@, i as int);
                } else {
                    lemma_val_order(pb@, pa@, i as int);
                }
            }
            return pa[i] < pb[i];
        }
    }
    proof {
        assert(pa@ =~= pb@);
    }
    true
}

} // verus!
