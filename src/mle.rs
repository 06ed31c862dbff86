//! Multilinear extensions of tables, over the integers.
//!
//! A table of `2^n` values is extended to points of `n` coordinates. The first
//! coordinate chooses between the lower and the upper half of the table, so at a point
//! whose coordinates are all 0 or 1 the extension reads the entry whose binary digits,
//! most significant first, are the coordinates.

use vstd::arithmetic::power2::{lemma2_to64, lemma_pow2_pos, lemma_pow2_unfold, pow2};
use vstd::prelude::*;

verus! {

/// The multilinear extension of `t` (of length `2^p.len()`) at `p`.
pub open spec fn mle_seq(t: Seq<int>, p: Seq<int>) -> int
    decreases p.len(),
{
    if p.len() == 0 {
        t[0]
    } else {
        let h = pow2((p.len() - 1) as nat) as int;
        (1 - p[0]) * mle_seq(t.subrange(0, h), p.drop_first()) + p[0] * mle_seq(
            t.subrange(h, 2 * h),
            p.drop_first(),
        )
    }
}

/// `t` with its first coordinate fixed at `c`: entry `i` becomes
/// `(1 - c) t[i] + c t[i + h]`, where `h` is half the length of `t`.
pub open spec fn fold_half(t: Seq<int>, c: int) -> Seq<int> {
    let h = t.len() / 2;
    Seq::new(h as nat, |i: int| (1 - c) * t[i] + c * t[i + h])
}

/// The pointwise combination `a u + b w`.
pub open spec fn combine(u: Seq<int>, w: Seq<int>, a: int, b: int) -> Seq<int> {
    Seq::new(u.len(), |i: int| a * u[i] + b * w[i])
}

/// The index whose binary digits, most significant first, are the entries of `s`.
pub open spec fn first_index(s: Seq<int>) -> int
    decreases s.len(),
{
    if s.len() == 0 {
        0
    } else {
        s[0] * pow2((s.len() - 1) as nat) + first_index(s.drop_first())
    }
}

/// The same index, read from the least significant digit.
pub open spec fn last_index(s: Seq<int>) -> int
    decreases s.len(),
{
    if s.len() == 0 {
        0
    } else {
        last_index(s.drop_last()) * 2 + s.last()
    }
}

/// Every entry of `s` is 0 or 1.
pub open spec fn is_boolean(s: Seq<int>) -> bool {
    forall|j: int| 0 <= j < s.len() ==> #[trigger] s[j] == 0 || s[j] == 1
}

/// The extension is linear in the table.
pub proof fn lemma_mle_linear(u: Seq<int>, w: Seq<int>, a: int, b: int, p: Seq<int>)
    requires
        u.len() == pow2(p.len()),
        w.len() == pow2(p.len()),
    ensures
        mle_seq(combine(u, w, a, b), p) == a * mle_seq(u, p) + b * mle_seq(w, p),
    decreases p.len(),
{
    lemma2_to64();
    if p.len() > 0 {
        let n = p.len();
        let h = pow2((n - 1) as nat) as int;
        lemma_pow2_unfold(n);
        lemma_pow2_pos((n - 1) as nat);
        let c = combine(u, w, a, b);
        let q = p.drop_first();
        assert(c.subrange(0, h) =~= combine(u.subrange(0, h), w.subrange(0, h), a, b));
        assert(c.subrange(h, 2 * h) =~= combine(u.subrange(h, 2 * h), w.subrange(h, 2 * h), a, b));
        lemma_mle_linear(u.subrange(0, h), w.subrange(0, h), a, b, q);
        lemma_mle_linear(u.subrange(h, 2 * h), w.subrange(h, 2 * h), a, b, q);
        let x = p[0];
        let ul = mle_seq(u.subrange(0, h), q);
        let uh = mle_seq(u.subrange(h, 2 * h), q);
        let wl = mle_seq(w.subrange(0, h), q);
        let wh = mle_seq(w.subrange(h, 2 * h), q);
        lemma_regroup(1 - x, a, b, ul, wl);
        lemma_regroup(x, a, b, uh, wh);
        assert(mle_seq(c, p) == (1 - x) * mle_seq(c.subrange(0, h), q) + x * mle_seq(
            c.subrange(h, 2 * h),
            q,
        ));
        vstd::arithmetic::mul::lemma_mul_is_distributive_add(a, (1 - x) * ul, x * uh);
        vstd::arithmetic::mul::lemma_mul_is_distributive_add(b, (1 - x) * wl, x * wh);
        assert(mle_seq(u, p) == (1 - x) * ul + x * uh);
        assert(mle_seq(w, p) == (1 - x) * wl + x * wh);
        assert(mle_seq(c.subrange(0, h), q) == a * ul + b * wl);
        assert(mle_seq(c.subrange(h, 2 * h), q) == a * uh + b * wh);
        assert(mle_seq(c, p) == (1 - x) * (a * ul + b * wl) + x * (a * uh + b * wh));
        assert(a * mle_seq(u, p) == a * ((1 - x) * ul) + a * (x * uh));
        assert(b * mle_seq(w, p) == b * ((1 - x) * wl) + b * (x * wh));
    }
}

proof fn lemma_regroup(k: int, a: int, b: int, u: int, w: int)
    ensures
        k * (a * u + b * w) == a * (k * u) + b * (k * w),
{
    vstd::arithmetic::mul::lemma_mul_is_distributive_add(k, a * u, b * w);
    assert(k * (a * u) == a * (k * u)) by (nonlinear_arith);
    assert(k * (b * w) == b * (k * w)) by (nonlinear_arith);
}

/// Fixing the first coordinate of the table leaves the extension unchanged.
pub proof fn lemma_mle_fold(t: Seq<int>, p: Seq<int>)
    requires
        p.len() > 0,
        t.len() == pow2(p.len()),
    ensures
        fold_half(t, p[0]).len() == pow2((p.len() - 1) as nat),
        mle_seq(t, p) == mle_seq(fold_half(t, p[0]), p.drop_first()),
{
    let n = p.len();
    let h = pow2((n - 1) as nat) as int;
    lemma_pow2_unfold(n);
    assert(fold_half(t, p[0]) =~= combine(t.subrange(0, h), t.subrange(h, 2 * h), 1 - p[0], p[0]));
    lemma_mle_linear(t.subrange(0, h), t.subrange(h, 2 * h), 1 - p[0], p[0], p.drop_first());
}

/// At a point of zeros and ones the extension is the entry the point spells.
pub proof fn lemma_mle_boolean(t: Seq<int>, s: Seq<int>)
    requires
        is_boolean(s),
        t.len() == pow2(s.len()),
    ensures
        0 <= first_index(s) < pow2(s.len()),
        mle_seq(t, s) == t[first_index(s)],
    decreases s.len(),
{
    lemma2_to64();
    if s.len() > 0 {
        let n = s.len();
        let h = pow2((n - 1) as nat) as int;
        lemma_pow2_unfold(n);
        let q = s.drop_first();
        assert(is_boolean(q)) by {
            assert forall|j: int| 0 <= j < q.len() implies #[trigger] q[j] == 0 || q[j] == 1 by {
                assert(q[j] == s[j + 1]);
            }
        }
        assert(s[0] == 0 || s[0] == 1);
        let x = s[0];
        lemma_mle_boolean(t.subrange(0, h), q);
        lemma_mle_boolean(t.subrange(h, 2 * h), q);
        let lo = mle_seq(t.subrange(0, h), q);
        let hi = mle_seq(t.subrange(h, 2 * h), q);
        if x == 0 {
            assert(x * h == 0 && (1 - x) * lo == lo && x * hi == 0) by (nonlinear_arith)
                requires
                    x == 0,
            ;
        } else {
            assert(x * h == h && (1 - x) * lo == 0 && x * hi == hi) by (nonlinear_arith)
                requires
                    x == 1,
            ;
        }
    }
}

/// Reading the digits from either end gives the same index.
pub proof fn lemma_first_last_index(s: Seq<int>)
    ensures
        first_index(s) == last_index(s),
    decreases s.len(),
{
    lemma2_to64();
    if s.len() == 1 {
        assert(s.drop_first().len() == 0);
        assert(s.drop_last().len() == 0);
        assert(s[0] * 1 == s[0]);
        assert(s.last() == s[0]);
        assert(first_index(s.drop_first()) == 0);
        assert(last_index(s.drop_last()) == 0);
        assert(first_index(s) == s[0]);
        assert(last_index(s) == s[0]);
    } else if s.len() > 1 {
        let n = s.len();
        let q = s.drop_first();
        let r = s.drop_last();
        lemma_first_last_index(q);
        lemma_first_last_index(r);
        lemma_first_last_index(q.drop_last());
        assert(r.drop_first() =~= q.drop_last());
        assert(q.last() == s.last());
        assert(r[0] == s[0]);
        lemma_pow2_unfold((n - 1) as nat);
        let x = s[0];
        let e = pow2((n - 2) as nat) as int;
        assert(x * (2 * e) == 2 * (x * e)) by (nonlinear_arith);
        assert(pow2((n - 1) as nat) == 2 * e);
        assert(first_index(s) == x * (2 * e) + first_index(q));
        assert(first_index(q) == last_index(q.drop_last()) * 2 + q.last());
        assert(first_index(r) == x * e + first_index(q.drop_last()));
        assert(last_index(s) == last_index(r) * 2 + s.last());
        assert(first_index(s) == x * (2 * e) + last_index(q.drop_last()) * 2 + s.last());
        assert(last_index(s) == (x * e + last_index(q.drop_last())) * 2 + s.last());
        assert((x * e + last_index(q.drop_last())) * 2 == 2 * (x * e) + 2 * last_index(q.drop_last()));
    }
}

} // verus!
