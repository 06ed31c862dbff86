//! Elements of BN254's scalar field, held as four canonical little-endian limbs.
//!
//! The arithmetic itself is carried out by `ark_bn254::Fr`; this module keeps the
//! value of an element as plain integers so that contracts can speak of it.

use ark_bn254::Fr;
use ark_ff::{BigInt, PrimeField};
use vstd::prelude::*;

verus! {

/// The order of BN254's scalar field.
pub open spec fn modulus() -> nat {
    21888242871839275222246405745257275088548364400416034343698204186575808495617nat
}

/// The number held by four little-endian 64-bit limbs.
pub open spec fn limbs_value(l: Seq<u64>) -> nat
    recommends
        l.len() == 4,
{
    l[0] as nat + l[1] as nat * 0x1_0000_0000_0000_0000nat + l[2] as nat
        * 0x1_0000_0000_0000_0000_0000_0000_0000_0000nat + l[3] as nat
        * 0x1_0000_0000_0000_0000_0000_0000_0000_0000_0000_0000_0000_0000nat
}

/// `a` and `b` are the same element of the field.
pub open spec fn congruent(a: int, b: int) -> bool {
    a % (modulus() as int) == b % (modulus() as int)
}

/// The residue of a product depends only on the residues of its factors.
pub proof fn lemma_congruent_mul(av: int, bv: int, rv: int, a: int, b: int)
    requires
        congruent(av, a),
        congruent(bv, b),
        rv == (av * bv) % (modulus() as int),
    ensures
        congruent(rv, a * b),
{
    let p = modulus() as int;
    vstd::arithmetic::div_mod::lemma_mod_twice(av * bv, p);
    vstd::arithmetic::div_mod::lemma_mul_mod_noop_general(av, bv, p);
    vstd::arithmetic::div_mod::lemma_mul_mod_noop_general(a, b, p);
}

/// The residue of a sum depends only on the residues of its terms.
pub proof fn lemma_congruent_add(av: int, bv: int, rv: int, a: int, b: int)
    requires
        congruent(av, a),
        congruent(bv, b),
        rv == (av + bv) % (modulus() as int),
    ensures
        congruent(rv, a + b),
{
    let p = modulus() as int;
    vstd::arithmetic::div_mod::lemma_mod_twice(av + bv, p);
    vstd::arithmetic::div_mod::lemma_add_mod_noop(av, bv, p);
    vstd::arithmetic::div_mod::lemma_add_mod_noop(a, b, p);
}

/// The residue of a difference depends only on the residues of its terms.
pub proof fn lemma_congruent_sub(av: int, bv: int, rv: int, a: int, b: int)
    requires
        congruent(av, a),
        congruent(bv, b),
        rv == (av - bv) % (modulus() as int),
    ensures
        congruent(rv, a - b),
{
    let p = modulus() as int;
    vstd::arithmetic::div_mod::lemma_mod_twice(av - bv, p);
    vstd::arithmetic::div_mod::lemma_sub_mod_noop(av, bv, p);
    vstd::arithmetic::div_mod::lemma_sub_mod_noop(a, b, p);
}

/// A value below the modulus is its own residue.
pub proof fn lemma_congruent_small(v: int)
    requires
        0 <= v < modulus(),
    ensures
        congruent(v, v),
        v % (modulus() as int) == v,
{
    vstd::arithmetic::div_mod::lemma_small_mod(v as nat, modulus());
}

/// Relies on `Add` of `ark_bn254::Fr`, with `PrimeField::from_bigint` and
/// `PrimeField::into_bigint` converting from and to canonical limbs.
#[verifier::external_body]
fn ark_add(a: [u64; 4], b: [u64; 4]) -> (r: [u64; 4])
    requires
        limbs_value(a@) < modulus(),
        limbs_value(b@) < modulus(),
    ensures
        limbs_value(r@) == (limbs_value(a@) + limbs_value(b@)) % modulus(),
{
    let x = Fr::from_bigint(BigInt(a)).unwrap();
    let y = Fr::from_bigint(BigInt(b)).unwrap();
    (x + y).into_bigint().0
}

/// Relies on `Sub` of `ark_bn254::Fr`, with `PrimeField::from_bigint` and
/// `PrimeField::into_bigint` converting from and to canonical limbs.
#[verifier::external_body]
fn ark_sub(a: [u64; 4], b: [u64; 4]) -> (r: [u64; 4])
    requires
        limbs_value(a@) < modulus(),
        limbs_value(b@) < modulus(),
    ensures
        limbs_value(r@) == (limbs_value(a@) - limbs_value(b@)) % (modulus() as int),
{
    let x = Fr::from_bigint(BigInt(a)).unwrap();
    let y = Fr::from_bigint(BigInt(b)).unwrap();
    (x - y).into_bigint().0
}

/// Relies on `Mul` of `ark_bn254::Fr`, with `PrimeField::from_bigint` and
/// `PrimeField::into_bigint` converting from and to canonical limbs.
#[verifier::external_body]
fn ark_mul(a: [u64; 4], b: [u64; 4]) -> (r: [u64; 4])
    requires
        limbs_value(a@) < modulus(),
        limbs_value(b@) < modulus(),
    ensures
        limbs_value(r@) == (limbs_value(a@) * limbs_value(b@)) % modulus(),
{
    let x = Fr::from_bigint(BigInt(a)).unwrap();
    let y = Fr::from_bigint(BigInt(b)).unwrap();
    (x * y).into_bigint().0
}

/// An element of BN254's scalar field.
#[derive(Clone, Copy, Debug, PartialEq, Eq)]
pub struct Scalar {
    limbs: [u64; 4],
}

impl Scalar {
    #[verifier::type_invariant]
    spec fn canonical(self) -> bool {
        limbs_value(self.limbs@) < modulus()
    }

    /// The element as an integer in `[0, modulus())`.
    pub closed spec fn value(self) -> nat {
        limbs_value(self.limbs@)
    }

    /// Every element's value is below the modulus.
    pub fn check_bound(&self)
        ensures
            self.value() < modulus(),
    {
        proof {
            use_type_invariant(self);
        }
    }

    pub fn zero() -> (r: Scalar)
        ensures
            r.value() == 0,
    {
        Scalar { limbs: [0, 0, 0, 0] }
    }

    pub fn one() -> (r: Scalar)
        ensures
            r.value() == 1,
    {
        Scalar { limbs: [1, 0, 0, 0] }
    }

    /// The element whose value is `v`.
    pub fn from_u64(v: u64) -> (r: Scalar)
        ensures
            r.value() == v,
    {
        Scalar { limbs: [v, 0, 0, 0] }
    }

    pub fn is_zero(&self) -> (r: bool)
        ensures
            r == (self.value() == 0),
    {
        self.limbs[0] == 0 && self.limbs[1] == 0 && self.limbs[2] == 0 && self.limbs[3] == 0
    }

    pub fn plus(&self, other: &Scalar) -> (r: Scalar)
        ensures
            r.value() == (self.value() + other.value()) % modulus(),
    {
        proof {
            use_type_invariant(self);
            use_type_invariant(other);
        }
        let limbs = ark_add(self.limbs, other.limbs);
        proof {
            vstd::arithmetic::div_mod::lemma_mod_bound(
                (self.value() + other.value()) as int,
                modulus() as int,
            );
        }
        Scalar { limbs }
    }

    pub fn minus(&self, other: &Scalar) -> (r: Scalar)
        ensures
            r.value() == (self.value() - other.value()) % (modulus() as int),
    {
        proof {
            use_type_invariant(self);
            use_type_invariant(other);
        }
        let limbs = ark_sub(self.limbs, other.limbs);
        proof {
            vstd::arithmetic::div_mod::lemma_mod_bound(
                self.value() - other.value(),
                modulus() as int,
            );
        }
        Scalar { limbs }
    }

    pub fn times(&self, other: &Scalar) -> (r: Scalar)
        ensures
            r.value() == (self.value() * other.value()) % modulus(),
    {
        proof {
            use_type_invariant(self);
            use_type_invariant(other);
        }
        let limbs = ark_mul(self.limbs, other.limbs);
        proof {
            vstd::arithmetic::div_mod::lemma_mod_bound(
                (self.value() * other.value()) as int,
                modulus() as int,
            );
        }
        Scalar { limbs }
    }
}

} // verus!
