//! Multilinear polynomials given by coefficient tables: the model against which the
//! combination polynomial of an instruction and its declared degree are stated.
//!
//! Entry `s` of a table over `k` variables is the coefficient of the monomial that
//! multiplies the variables `x_j` whose bit `j` is set in `s`.

use crate::bits::bit_at;
use crate::field::{modulus, Scalar};
use vstd::prelude::*;

verus! {

/// The product of the variables `xs[j]` whose bit `j` is set in `s`.
pub open spec fn monomial(s: nat, xs: Seq<int>) -> int
    decreases xs.len(),
{
    if xs.len() == 0 {
        1
    } else {
        monomial(s, xs.drop_last()) * if bit_at(s, (xs.len() - 1) as nat) == 1 {
            xs.last()
        } else {
            1
        }
    }
}

/// The polynomial with coefficient table `coeffs`, evaluated over the integers at `xs`.
pub open spec fn poly_eval(coeffs: Seq<int>, xs: Seq<int>) -> int
    decreases coeffs.len(),
{
    if coeffs.len() == 0 {
        0
    } else {
        poly_eval(coeffs.drop_last(), xs) + coeffs.last() * monomial((coeffs.len() - 1) as nat, xs)
    }
}

/// The number of one bits of `s`: the degree of monomial `s`.
pub open spec fn popcount(s: nat) -> nat
    decreases s,
{
    if s == 0 {
        0
    } else {
        s % 2 + popcount(s / 2)
    }
}

/// The total degree of the polynomial over the field: the largest degree of a monomial
/// whose coefficient is not zero in the field.
pub open spec fn poly_degree(coeffs: Seq<int>) -> nat
    decreases coeffs.len(),
{
    if coeffs.len() == 0 {
        0
    } else {
        let d = poly_degree(coeffs.drop_last());
        let s = (coeffs.len() - 1) as nat;
        if coeffs.last() % (modulus() as int) != 0 && popcount(s) > d {
            popcount(s)
        } else {
            d
        }
    }
}

/// The values of field elements, as integers.
pub open spec fn scalar_values(s: Seq<Scalar>) -> Seq<int> {
    s.map_values(|e: Scalar| e.value() as int)
}

/// A table over one variable, evaluated term by term.
pub proof fn lemma_eval_one(coeffs: Seq<int>, a: int)
    requires
        coeffs.len() == 2,
    ensures
        poly_eval(coeffs, seq![a]) == coeffs[0] + coeffs[1] * a,
{
    vstd::arithmetic::power2::lemma2_to64();
    reveal_with_fuel(poly_eval, 3);
    reveal_with_fuel(monomial, 2);
    assert(seq![a].drop_last() =~= Seq::<int>::empty());
    assert(coeffs.drop_last().drop_last() =~= Seq::<int>::empty());
    assert(bit_at(0, 0) == 0);
    assert(bit_at(1, 0) == 1);
    assert(monomial(0, seq![a]) == 1);
    assert(monomial(1, seq![a]) == a);
}

/// A table over three variables, evaluated term by term.
pub proof fn lemma_eval_three(coeffs: Seq<int>, a: int, b: int, c: int)
    requires
        coeffs.len() == 8,
    ensures
        poly_eval(coeffs, seq![a, b, c]) == coeffs[0] + coeffs[1] * a + coeffs[2] * b + coeffs[3] * (
        a * b) + coeffs[4] * c + coeffs[5] * (a * c) + coeffs[6] * (b * c) + coeffs[7] * (a * b
            * c),
{
    let xs = seq![a, b, c];
    vstd::arithmetic::power2::lemma2_to64();
    reveal_with_fuel(poly_eval, 9);
    reveal_with_fuel(monomial, 4);
    assert(xs.drop_last() =~= seq![a, b]);
    assert(xs.drop_last().drop_last() =~= seq![a]);
    assert(xs.drop_last().drop_last().drop_last() =~= Seq::<int>::empty());
    assert forall|s: nat| s < 8 implies #[trigger] monomial(s, xs) == (if bit_at(s, 0) == 1 {
        a
    } else {
        1
    }) * (if bit_at(s, 1) == 1 {
        b
    } else {
        1
    }) * (if bit_at(s, 2) == 1 {
        c
    } else {
        1
    }) by {
        assert(monomial(s, seq![a]) == 1 * if bit_at(s, 0) == 1 {
            a
        } else {
            1
        });
    }
    assert(bit_at(0, 0) == 0 && bit_at(0, 1) == 0 && bit_at(0, 2) == 0);
    assert(bit_at(1, 0) == 1 && bit_at(1, 1) == 0 && bit_at(1, 2) == 0);
    assert(bit_at(2, 0) == 0 && bit_at(2, 1) == 1 && bit_at(2, 2) == 0);
    assert(bit_at(3, 0) == 1 && bit_at(3, 1) == 1 && bit_at(3, 2) == 0);
    assert(bit_at(4, 0) == 0 && bit_at(4, 1) == 0 && bit_at(4, 2) == 1);
    assert(bit_at(5, 0) == 1 && bit_at(5, 1) == 0 && bit_at(5, 2) == 1);
    assert(bit_at(6, 0) == 0 && bit_at(6, 1) == 1 && bit_at(6, 2) == 1);
    assert(bit_at(7, 0) == 1 && bit_at(7, 1) == 1 && bit_at(7, 2) == 1);
    let m = |s: nat| monomial(s, xs);
    assert(m(0) == 1);
    assert(m(1) == a);
    assert(m(2) == b);
    assert(m(3) == a * b);
    assert(m(4) == c);
    assert(m(5) == a * c);
    assert(m(6) == b * c);
    assert(m(7) == a * b * c);
    let p = |k: int| poly_eval(coeffs.subrange(0, k), xs);
    assert forall|k: int| 0 <= k < 8 implies #[trigger] p(k + 1) == p(k) + coeffs[k] * m(
        k as nat,
    ) by {
        assert(coeffs.subrange(0, k + 1).drop_last() =~= coeffs.subrange(0, k));
    }
    assert(p(0) == 0);
    assert(coeffs.subrange(0, 8) =~= coeffs);
}

} // verus!
