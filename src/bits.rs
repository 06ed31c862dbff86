//! Index arithmetic shared by subtables and instructions: splitting a packed index
//! into its two operand fields, packing operands, and the boolean points of the
//! hypercube that stand for an index (most significant coordinate first).

use crate::field::Scalar;
use crate::mle::{is_boolean, last_index};
use crate::poly::scalar_values;
use vstd::arithmetic::power2::{lemma_pow2_pos, lemma_pow2_unfold, pow2};
use vstd::bits::{
    low_bits_mask, lemma_usize_low_bits_mask_is_mod, lemma_usize_pow2_no_overflow,
    lemma_usize_shl_is_mul, lemma_usize_shr_is_div,
};
use vstd::prelude::*;

verus! {

/// `ceil(log2(x))`, with 0 for 0 and 1.
pub open spec fn ceil_log2(x: nat) -> nat
    decreases x,
{
    if x <= 1 {
        0
    } else {
        1 + ceil_log2(((x + 1) / 2) as nat)
    }
}

/// Relies on `ark_std::log2`: the ceiling of the base-two logarithm, 0 for 0 and 1.
#[verifier::external_body]
pub(crate) fn log2(x: usize) -> (r: u32)
    ensures
        r as nat == ceil_log2(x as nat),
{
    ark_std::log2(x)
}

pub proof fn lemma_ceil_log2_pow2(n: nat)
    ensures
        ceil_log2(pow2(n)) == n,
    decreases n,
{
    if n == 0 {
        assert(pow2(0) == 1) by {
            vstd::arithmetic::power2::lemma2_to64();
        }
    } else {
        lemma_pow2_unfold(n);
        lemma_pow2_pos((n - 1) as nat);
        assert((pow2(n) + 1) / 2 == pow2((n - 1) as nat));
        lemma_ceil_log2_pow2((n - 1) as nat);
    }
}

/// A table of at most `2^k` entries needs at most `k` index bits.
pub proof fn lemma_ceil_log2_bound(x: nat, k: nat)
    requires
        x <= pow2(k),
    ensures
        ceil_log2(x) <= k,
    decreases k,
{
    if x > 1 {
        if k == 0 {
            assert(pow2(0) == 1) by {
                vstd::arithmetic::power2::lemma2_to64();
            }
        } else {
            lemma_pow2_unfold(k);
            lemma_ceil_log2_bound(((x + 1) / 2) as nat, (k - 1) as nat);
        }
    }
}

/// `ceil_log2` of a `usize` is at most the width of `usize`.
pub proof fn lemma_ceil_log2_usize(x: usize)
    ensures
        ceil_log2(x as nat) <= usize::BITS,
{
    vstd::arithmetic::power2::lemma2_to64();
    vstd::arithmetic::power2::lemma2_to64_rest();
    lemma_ceil_log2_bound(x as nat, usize::BITS as nat);
}

/// The field above the low `b` bits of `idx`.
pub open spec fn high_field(idx: nat, b: nat) -> nat {
    idx / pow2(b)
}

/// The low `b` bits of `idx`.
pub open spec fn low_field(idx: nat, b: nat) -> nat {
    idx % pow2(b)
}

/// Splits `idx` into the part above its low `b` bits and those bits.
pub fn split_bits(idx: usize, b: usize) -> (r: (usize, usize))
    requires
        b < usize::BITS,
    ensures
        r.0 as nat == high_field(idx as nat, b as nat),
        r.1 as nat == low_field(idx as nat, b as nat),
{
    proof {
        lemma_usize_pow2_no_overflow(b as nat);
        lemma_usize_shl_is_mul(1, b);
        lemma_usize_shr_is_div(idx, b);
        lemma_usize_low_bits_mask_is_mod(idx, b as nat);
    }
    let one: usize = 1;
    let mask: usize = (one << b) - 1;
    assert(mask == low_bits_mask(b as nat) as usize);
    (idx >> b, idx & mask)
}

/// Bit `k` of `i`.
pub open spec fn bit_at(i: nat, k: nat) -> nat {
    (i / pow2(k)) % 2
}

/// `p` is the boolean point of index `i`: coordinate `j` holds bit `len - 1 - j` of `i`.
pub open spec fn is_binary_point(p: Seq<Scalar>, i: nat) -> bool {
    forall|j: int| 0 <= j < p.len() ==> #[trigger] p[j].value() == bit_at(i, (p.len() - 1 - j) as nat)
}

proof fn lemma_bit_at_half(i: nat, k: nat)
    ensures
        bit_at(i, k + 1) == bit_at(i / 2, k),
{
    lemma_pow2_pos(k);
    lemma_pow2_unfold(k + 1);
    vstd::arithmetic::div_mod::lemma_div_denominator(i as int, 2, pow2(k) as int);
    assert(pow2(k + 1) == 2 * pow2(k));
}

/// The coordinates of the boolean point of `i` are zeros and ones, and read as binary
/// digits, most significant first, they give `i`.
pub proof fn lemma_binary_point_digits(p: Seq<Scalar>, i: nat)
    requires
        is_binary_point(p, i),
        i < pow2(p.len()),
    ensures
        is_boolean(scalar_values(p)),
        last_index(scalar_values(p)) == i,
    decreases p.len(),
{
    vstd::arithmetic::power2::lemma2_to64();
    let v = scalar_values(p);
    assert(is_boolean(v)) by {
        assert forall|j: int| 0 <= j < v.len() implies #[trigger] v[j] == 0 || v[j] == 1 by {
            assert(p[j].value() == bit_at(i, (p.len() - 1 - j) as nat));
        }
    }
    if p.len() > 0 {
        let q = p.drop_last();
        let n = p.len();
        assert forall|j: int| 0 <= j < q.len() implies #[trigger] q[j].value() == bit_at(
            i / 2,
            (q.len() - 1 - j) as nat,
        ) by {
            assert(q[j] == p[j]);
            assert(p[j].value() == bit_at(i, (n - 1 - j) as nat));
            lemma_bit_at_half(i, (q.len() - 1 - j) as nat);
        }
        lemma_pow2_unfold(n as nat);
        assert(i / 2 < pow2(q.len()));
        lemma_binary_point_digits(q, i / 2);
        assert(scalar_values(q) =~= v.drop_last());
        assert(p.last().value() == bit_at(i, 0));
        assert(bit_at(i, 0) == i % 2);
    }
}

/// The boolean point of `index` with `num_vars` coordinates.
pub fn binary_point(index: usize, num_vars: usize) -> (r: Vec<Scalar>)
    requires
        num_vars <= usize::BITS,
    ensures
        r@.len() == num_vars,
        is_binary_point(r@, index as nat),
{
    let mut r: Vec<Scalar> = Vec::new();
    let mut j: usize = 0;
    while j < num_vars
        invariant
            j <= num_vars <= usize::BITS,
            r@.len() == j,
            forall|k: int| 0 <= k < j ==> #[trigger] r@[k].value() == bit_at(
                index as nat,
                (num_vars - 1 - k) as nat,
            ),
        decreases num_vars - j,
    {
        let shift: usize = num_vars - 1 - j;
        let (high, _low) = split_bits(index, shift);
        let bit: u64 = (high % 2) as u64;
        r.push(Scalar::from_u64(bit));
        j = j + 1;
    }
    r
}

} // verus!
