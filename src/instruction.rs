//! The decision tree as a lookup instruction, in two decompositions.
//!
//! `GradientBoostInstruction` consults the decision-tree subtable once, at the index
//! that packs both operands; its combination is the identity. `GBDTInstruction`
//! consults the less-than subtable three times, comparing an operand with each
//! threshold, and rebuilds the tree's routing as a multilinear polynomial in the three
//! comparison bits.

use crate::bits::{high_field, low_field};
use crate::field::{
    lemma_congruent_add, lemma_congruent_mul, lemma_congruent_small,
    lemma_congruent_sub, modulus, Scalar,
};
use crate::poly::{lemma_eval_one, lemma_eval_three, poly_degree, poly_eval, popcount, scalar_values};
use crate::subtable::{
    gradient_boost_entry, less_than_entry, subtable_entry, SubtableId,
};
use crate::tree::{tree, T1, T2, T3, V1, V2, V3, V4};
use rand::rngs::StdRng;
use rand::RngCore;
use vstd::arithmetic::power2::{lemma2_to64, lemma_pow2_adds, lemma_pow2_strictly_increases, pow2};
use vstd::prelude::*;

verus! {

#[verifier::external_type_specification]
#[verifier::external_body]
pub struct ExStdRng(StdRng);

/// Relies on `RngCore::next_u64` of `rand::rngs::StdRng`: a pseudo-random word, of
/// which nothing is promised.
#[verifier::external_body]
pub(crate) fn next_word(rng: &mut StdRng) -> (r: u64) {
    rng.next_u64()
}

/// The operand pairs on which the instructions are defined: two byte features.
pub open spec fn in_domain(x: u64, y: u64) -> bool {
    x < 256 && y < 256
}

/// Both operands fit in an operand field of `log_m / 2` bits.
pub open spec fn fits_fields(x: u64, y: u64, log_m: nat) -> bool {
    x < pow2(log_m / 2) && y < pow2(log_m / 2)
}

/// The thresholds `T1`, `T2` and `T3` fit in an operand field of `log_m / 2` bits.
pub open spec fn thresholds_fit(log_m: nat) -> bool {
    14 <= log_m
}

/// The index that packs `x` above `y`, each kept to its low `b` bits.
pub open spec fn pack(x: nat, y: nat, b: nat) -> nat {
    (x % pow2(b)) * pow2(b) + y % pow2(b)
}

pub proof fn lemma_pack_fields(x: nat, y: nat, b: nat)
    ensures
        high_field(pack(x, y, b), b) == x % pow2(b),
        low_field(pack(x, y, b), b) == y % pow2(b),
        pack(x, y, b) < pow2(2 * b),
{
    vstd::arithmetic::power2::lemma_pow2_pos(b);
    let p = pow2(b) as int;
    vstd::arithmetic::div_mod::lemma_fundamental_div_mod_converse(
        pack(x, y, b) as int,
        p,
        (x % pow2(b)) as int,
        (y % pow2(b)) as int,
    );
    lemma_pow2_adds(b, b);
    let xs = (x % pow2(b)) as int;
    let ys = (y % pow2(b)) as int;
    assert(xs * p + ys < p * p) by (nonlinear_arith)
        requires
            0 <= xs < p,
            0 <= ys < p,
    ;
}

/// A value that fits in a field is its own low field.
pub proof fn lemma_field_fits(x: nat, b: nat)
    requires
        x < pow2(b),
    ensures
        x % pow2(b) == x,
{
    vstd::arithmetic::div_mod::lemma_small_mod(x, pow2(b));
}

/// When the thresholds fit, every threshold is below the field bound.
proof fn lemma_thresholds_fit(log_m: nat)
    requires
        thresholds_fit(log_m),
    ensures
        T1 < pow2(log_m / 2),
        T2 < pow2(log_m / 2),
        T3 < pow2(log_m / 2),
{
    lemma2_to64();
    if log_m / 2 > 7 {
        lemma_pow2_strictly_increases(7, log_m / 2);
    }
}

/// Packs `x` above `y` into one index of `2 * b` bits.
pub fn pack_operands(x: u64, y: u64, b: usize) -> (r: usize)
    requires
        2 * b < usize::BITS,
    ensures
        r as nat == pack(x as nat, y as nat, b as nat),
        (r as nat) < pow2(2 * b as nat),
{
    proof {
        vstd::bits::lemma_u64_pow2_no_overflow(b as nat);
        vstd::bits::lemma_usize_pow2_no_overflow(2 * b as nat);
        vstd::bits::lemma_u64_shl_is_mul(1, b as u64);
        lemma_pack_fields(x as nat, y as nat, b as nat);
        lemma_pow2_adds(b as nat, b as nat);
    }
    let one: u64 = 1;
    let p: u64 = one << (b as u64);
    let xs: u64 = x % p;
    let ys: u64 = y % p;
    assert(xs * p + ys < p * p) by (nonlinear_arith)
        requires
            xs < p,
            ys < p,
    ;
    (xs * p + ys) as usize
}

/// The value of the entry at `index` of the subtable of kind `id` with `2^log_m`
/// entries, which by parity is also its extension at the boolean point of `index`.
pub fn lookup_value(id: SubtableId, index: usize, log_m: usize) -> (r: Scalar)
    requires
        log_m < usize::BITS,
        (index as nat) < pow2(log_m as nat),
    ensures
        r.value() == subtable_entry(id, index as nat, log_m as nat / 2),
{
    crate::subtable::entry_scalar(id, index, log_m / 2)
}

/// The decision tree as one lookup into the decision-tree subtable.
#[derive(Clone, Copy, Debug, PartialEq, Eq)]
pub struct GradientBoostInstruction(pub u64, pub u64);

impl GradientBoostInstruction {
    /// The coefficient table of the combination: the single looked-up value itself.
    pub open spec fn coefficients() -> Seq<int> {
        seq![0, 1]
    }

    /// The index in each of the `c` slots for a layout of `2^log_m` entries.
    pub open spec fn spec_indices(self, c: nat, log_m: nat) -> Seq<nat> {
        Seq::new(c, |i: int| if i == 0 { pack(self.0 as nat, self.1 as nat, log_m / 2) } else { 0 })
    }

    /// The looked-up values, in the order that `subtables` lists them.
    pub open spec fn lookup_values(self, log_m: nat) -> Seq<int> {
        let b = log_m / 2;
        seq![gradient_boost_entry(pack(self.0 as nat, self.1 as nat, b), b) as int]
    }

    /// The leaf that the decision tree gives for `(left, right)`.
    pub fn inference(left: u64, right: u64) -> (r: u64)
        ensures
            r == tree(left as int, right as int),
    {
        if left < T1 {
            if right < T2 {
                V1
            } else {
                V2
            }
        } else {
            if right < T3 {
                V3
            } else {
                V4
            }
        }
    }

    pub fn operands(&self) -> (r: (u64, u64))
        ensures
            r == (self.0, self.1),
    {
        (self.0, self.1)
    }

    /// The instance built from two random words: each operand is a word's low byte.
    pub fn from_random_words(a: u64, b: u64) -> (r: Self)
        ensures
            r.0 == a % 256,
            r.1 == b % 256,
    {
        GradientBoostInstruction(a % 256, b % 256)
    }

    /// A random instance whose operands are bytes.
    pub fn random(&self, rng: &mut StdRng) -> (r: Self)
        ensures
            in_domain(r.0, r.1),
    {
        let a = next_word(rng);
        let b = next_word(rng);
        Self::from_random_words(a, b)
    }

    /// The `c` indices: slot 0 packs the first operand above the second, each in a field
    /// of `log_m / 2` bits; the other slots are unused and hold 0.
    pub fn to_indices(&self, c: usize, log_m: usize) -> (r: Vec<usize>)
        requires
            c >= 1,
            log_m < usize::BITS,
        ensures
            r@.len() == c,
            forall|i: int|
                0 <= i < c ==> #[trigger] r@[i] as nat == self.spec_indices(c as nat, log_m as nat)[i]
                    && (r@[i] as nat) < pow2(log_m as nat),
    {
        let b = log_m / 2;
        let packed = pack_operands(self.0, self.1, b);
        proof {
            vstd::arithmetic::power2::lemma_pow2_pos(log_m as nat);
            if 2 * b < log_m {
                lemma_pow2_strictly_increases(2 * b as nat, log_m as nat);
            }
        }
        let mut r: Vec<usize> = Vec::new();
        r.push(packed);
        while r.len() < c
            invariant
                1 <= r@.len() <= c,
                r@[0] == packed,
                (packed as nat) < pow2(log_m as nat),
                0 < pow2(log_m as nat),
                forall|i: int| 1 <= i < r@.len() ==> #[trigger] r@[i] == 0,
            decreases c - r@.len(),
        {
            r.push(0);
        }
        r
    }

    /// The subtables consulted, each with the slots whose indices it is looked up at.
    pub fn subtables(&self, c: usize, m: usize) -> (r: Vec<(SubtableId, Vec<usize>)>)
        requires
            c >= 1,
        ensures
            r@.len() == 1,
            r@[0].0 == SubtableId::GradientBoost,
            r@[0].1@ == seq![0usize],
    {
        let mut r: Vec<(SubtableId, Vec<usize>)> = Vec::new();
        r.push((SubtableId::GradientBoost, vec![0usize]));
        proof {
            assert(r@[0].1@ =~= seq![0usize]);
        }
        r
    }

    /// The values looked up at `indices`, in the order that `subtables` lists them.
    pub fn subtable_values_at(&self, indices: &[usize], log_m: usize) -> (r: Vec<Scalar>)
        requires
            indices@.len() >= 1,
            log_m < usize::BITS,
            (indices@[0] as nat) < pow2(log_m as nat),
        ensures
            r@.len() == 1,
            r@[0].value() == subtable_entry(
                SubtableId::GradientBoost,
                indices@[0] as nat,
                log_m as nat / 2,
            ),
    {
        let mut r: Vec<Scalar> = Vec::new();
        r.push(lookup_value(SubtableId::GradientBoost, indices[0], log_m));
        r
    }

    /// The looked-up value itself.
    pub fn combine_lookups(&self, vals: &[Scalar], c: usize, m: usize) -> (r: Scalar)
        requires
            vals@.len() == 1,
        ensures
            r.value() == poly_eval(Self::coefficients(), scalar_values(vals@)) % (modulus() as int),
    {
        let r = vals[0];
        r.check_bound();
        proof {
            let a = r.value() as int;
            assert(scalar_values(vals@) =~= seq![a]);
            lemma_eval_one(Self::coefficients(), a);
            let k = Self::coefficients()[1];
            assert(k == 1);
            assert(k * a == a) by (nonlinear_arith)
                requires
                    k == 1,
            ;
            lemma_congruent_small(a);
        }
        r
    }

    /// The total degree of the combination.
    pub fn g_poly_degree(&self, c: usize) -> (r: usize)
        ensures
            r as nat == poly_degree(Self::coefficients()),
    {
        proof {
            reveal_with_fuel(poly_degree, 3);
            reveal_with_fuel(popcount, 2);
            assert(Self::coefficients().drop_last() =~= seq![0int]);
            assert(Self::coefficients().drop_last().drop_last() =~= Seq::<int>::empty());
        }
        1
    }

    /// The instruction's output, computed directly.
    pub fn lookup_entry(&self) -> (r: u64)
        ensures
            r == tree(self.0 as int, self.1 as int),
    {
        Self::inference(self.0, self.1)
    }

    /// The output rebuilt from lookups: indices, then looked-up values, then combination.
    pub fn evaluate_lookups(&self, c: usize, log_m: usize) -> (r: Scalar)
        requires
            c >= 1,
            log_m < usize::BITS,
        ensures
            r.value() == poly_eval(Self::coefficients(), self.lookup_values(log_m as nat)) % (
            modulus() as int),
            fits_fields(self.0, self.1, log_m as nat) ==> r.value() == tree(
                self.0 as int,
                self.1 as int,
            ),
    {
        let indices = self.to_indices(c, log_m);
        assert(indices@[0] as nat == self.spec_indices(c as nat, log_m as nat)[0]);
        let vals = self.subtable_values_at(indices.as_slice(), log_m);
        proof {
            assert(scalar_values(vals@) =~= self.lookup_values(log_m as nat));
            if fits_fields(self.0, self.1, log_m as nat) {
                lemma_gradient_boost_sound(*self, log_m as nat);
            }
        }
        self.combine_lookups(vals.as_slice(), c, 1)
    }
}

/// Decomposition soundness of the single-lookup strategy: on operands that fit the
/// fields, the
/// combination of the looked-up values is the instruction's output.
pub proof fn lemma_gradient_boost_sound(instr: GradientBoostInstruction, log_m: nat)
    requires
        fits_fields(instr.0, instr.1, log_m),
    ensures
        poly_eval(GradientBoostInstruction::coefficients(), instr.lookup_values(log_m)) % (
        modulus() as int) == tree(instr.0 as int, instr.1 as int),
{
    let b = log_m / 2;
    let (x, y) = (instr.0 as nat, instr.1 as nat);
    lemma_pack_fields(x, y, b);
    lemma_field_fits(x, b);
    lemma_field_fits(y, b);
    let v = gradient_boost_entry(pack(x, y, b), b) as int;
    assert(v == tree(x as int, y as int));
    lemma_eval_one(GradientBoostInstruction::coefficients(), v);
    lemma_congruent_small(v);
}

/// The decision tree rebuilt from three lookups into the less-than subtable: whether
/// the first operand is below `T1`, and whether the second is below `T2` and `T3`.
#[derive(Clone, Copy, Debug, PartialEq, Eq)]
pub struct GBDTInstruction(pub u64, pub u64);

impl GBDTInstruction {
    /// The coefficient table of the combination
    /// `lt1 lt2 V1 + lt1 (1 - lt2) V2 + (1 - lt1) lt3 V3 + (1 - lt1)(1 - lt3) V4`
    /// over the variables `(lt1, lt2, lt3)`.
    pub open spec fn coefficients() -> Seq<int> {
        seq![
            V4 as int,
            V2 - V4,
            0,
            V1 - V2,
            V3 - V4,
            V4 - V3,
            0,
            0,
        ]
    }

    /// The index in each of the `c` slots for a layout of `2^log_m` entries.
    pub open spec fn spec_indices(self, c: nat, log_m: nat) -> Seq<nat> {
        let b = log_m / 2;
        Seq::new(
            c,
            |i: int|
                if i == 0 {
                    pack(self.0 as nat, T1 as nat, b)
                } else if i == 1 {
                    pack(self.1 as nat, T2 as nat, b)
                } else if i == 2 {
                    pack(self.1 as nat, T3 as nat, b)
                } else {
                    0
                },
        )
    }

    /// The looked-up values, in the order that `subtables` lists them.
    pub open spec fn lookup_values(self, log_m: nat) -> Seq<int> {
        let b = log_m / 2;
        seq![
            less_than_entry(pack(self.0 as nat, T1 as nat, b), b) as int,
            less_than_entry(pack(self.1 as nat, T2 as nat, b), b) as int,
            less_than_entry(pack(self.1 as nat, T3 as nat, b), b) as int,
        ]
    }

    /// The leaf that the decision tree gives for `(left, right)`.
    pub fn inference(left: u64, right: u64) -> (r: u64)
        ensures
            r == tree(left as int, right as int),
    {
        if left < T1 {
            if right < T2 {
                V1
            } else {
                V2
            }
        } else {
            if right < T3 {
                V3
            } else {
                V4
            }
        }
    }

    pub fn operands(&self) -> (r: (u64, u64))
        ensures
            r == (self.0, self.1),
    {
        (self.0, self.1)
    }

    /// The instance built from two random words: each operand is a word's low byte.
    pub fn from_random_words(a: u64, b: u64) -> (r: Self)
        ensures
            r.0 == a % 256,
            r.1 == b % 256,
    {
        GBDTInstruction(a % 256, b % 256)
    }

    /// A random instance whose operands are bytes.
    pub fn random(&self, rng: &mut StdRng) -> (r: Self)
        ensures
            in_domain(r.0, r.1),
    {
        let a = next_word(rng);
        let b = next_word(rng);
        Self::from_random_words(a, b)
    }

    /// The `c` indices: slot 0 packs the first operand above `T1`, slots 1 and 2 pack
    /// the second operand above `T2` and `T3`, each in a field of `log_m / 2` bits; the
    /// other slots are unused and hold 0.
    pub fn to_indices(&self, c: usize, log_m: usize) -> (r: Vec<usize>)
        requires
            c >= 3,
            log_m < usize::BITS,
        ensures
            r@.len() == c,
            forall|i: int|
                0 <= i < c ==> #[trigger] r@[i] as nat == self.spec_indices(c as nat, log_m as nat)[i]
                    && (r@[i] as nat) < pow2(log_m as nat),
    {
        let b = log_m / 2;
        let i0 = pack_operands(self.0, T1, b);
        let i1 = pack_operands(self.1, T2, b);
        let i2 = pack_operands(self.1, T3, b);
        proof {
            vstd::arithmetic::power2::lemma_pow2_pos(log_m as nat);
            if 2 * b < log_m {
                lemma_pow2_strictly_increases(2 * b as nat, log_m as nat);
            }
        }
        let mut r: Vec<usize> = Vec::new();
        r.push(i0);
        r.push(i1);
        r.push(i2);
        while r.len() < c
            invariant
                3 <= r@.len() <= c,
                r@[0] == i0,
                r@[1] == i1,
                r@[2] == i2,
                (i0 as nat) < pow2(log_m as nat),
                (i1 as nat) < pow2(log_m as nat),
                (i2 as nat) < pow2(log_m as nat),
                0 < pow2(log_m as nat),
                forall|i: int| 3 <= i < r@.len() ==> #[trigger] r@[i] == 0,
            decreases c - r@.len(),
        {
            r.push(0);
        }
        r
    }

    /// The subtables consulted, each with the slots whose indices it is looked up at.
    pub fn subtables(&self, c: usize, m: usize) -> (r: Vec<(SubtableId, Vec<usize>)>)
        requires
            c >= 3,
        ensures
            r@.len() == 1,
            r@[0].0 == SubtableId::LessThan,
            r@[0].1@ == seq![0usize, 1, 2],
    {
        let mut r: Vec<(SubtableId, Vec<usize>)> = Vec::new();
        r.push((SubtableId::LessThan, vec![0usize, 1, 2]));
        proof {
            assert(r@[0].1@ =~= seq![0usize, 1, 2]);
        }
        r
    }

    /// The values looked up at `indices`, in the order that `subtables` lists them.
    pub fn subtable_values_at(&self, indices: &[usize], log_m: usize) -> (r: Vec<Scalar>)
        requires
            indices@.len() >= 3,
            log_m < usize::BITS,
            forall|i: int| 0 <= i < 3 ==> (#[trigger] indices@[i] as nat) < pow2(log_m as nat),
        ensures
            r@.len() == 3,
            forall|i: int|
                0 <= i < 3 ==> #[trigger] r@[i].value() == subtable_entry(
                    SubtableId::LessThan,
                    indices@[i] as nat,
                    log_m as nat / 2,
                ),
    {
        let mut r: Vec<Scalar> = Vec::new();
        let mut i: usize = 0;
        while i < 3
            invariant
                i <= 3,
                r@.len() == i,
                indices@.len() >= 3,
                log_m < usize::BITS,
                forall|k: int| 0 <= k < 3 ==> (#[trigger] indices@[k] as nat) < pow2(log_m as nat),
                forall|k: int|
                    0 <= k < i ==> #[trigger] r@[k].value() == subtable_entry(
                        SubtableId::LessThan,
                        indices@[k] as nat,
                        log_m as nat / 2,
                    ),
            decreases 3 - i,
        {
            r.push(lookup_value(SubtableId::LessThan, indices[i], log_m));
            i = i + 1;
        }
        r
    }

    /// `lt1 lt2 V1 + lt1 (1 - lt2) V2 + (1 - lt1) lt3 V3 + (1 - lt1)(1 - lt3) V4` over
    /// the three looked-up comparison values.
    #[verifier::spinoff_prover]
    #[verifier::rlimit(40)]
    pub fn combine_lookups(&self, vals: &[Scalar], c: usize, m: usize) -> (r: Scalar)
        requires
            vals@.len() == 3,
        ensures
            r.value() == poly_eval(Self::coefficients(), scalar_values(vals@)) % (modulus() as int),
    {
        let lt1 = vals[0];
        let lt2 = vals[1];
        let lt3 = vals[2];
        let one = Scalar::one();
        let v1 = Scalar::from_u64(V1);
        let v2 = Scalar::from_u64(V2);
        let v3 = Scalar::from_u64(V3);
        let v4 = Scalar::from_u64(V4);
        let not1 = one.minus(&lt1);
        let not2 = one.minus(&lt2);
        let not3 = one.minus(&lt3);
        let p12 = lt1.times(&lt2);
        let t1 = p12.times(&v1);
        let q12 = lt1.times(&not2);
        let t2 = q12.times(&v2);
        let p13 = not1.times(&lt3);
        let t3 = p13.times(&v3);
        let q13 = not1.times(&not3);
        let t4 = q13.times(&v4);
        let s12 = t1.plus(&t2);
        let s123 = s12.plus(&t3);
        let r = s123.plus(&t4);
        r.check_bound();
        proof {
            let a = lt1.value() as int;
            let b = lt2.value() as int;
            let c = lt3.value() as int;
            lemma_congruent_sub(1, a, not1.value() as int, 1, a);
            lemma_congruent_sub(1, b, not2.value() as int, 1, b);
            lemma_congruent_sub(1, c, not3.value() as int, 1, c);
            lemma_congruent_mul(a, b, p12.value() as int, a, b);
            lemma_congruent_mul(p12.value() as int, 10, t1.value() as int, a * b, 10);
            lemma_congruent_mul(a, not2.value() as int, q12.value() as int, a, 1 - b);
            lemma_congruent_mul(q12.value() as int, 20, t2.value() as int, a * (1 - b), 20);
            lemma_congruent_mul(not1.value() as int, c, p13.value() as int, 1 - a, c);
            lemma_congruent_mul(p13.value() as int, 30, t3.value() as int, (1 - a) * c, 30);
            lemma_congruent_mul(not1.value() as int, not3.value() as int, q13.value() as int, 1 - a, 1 - c);
            lemma_congruent_mul(q13.value() as int, 40, t4.value() as int, (1 - a) * (1 - c), 40);
            let e1 = a * b * 10;
            let e2 = a * (1 - b) * 20;
            let e3 = (1 - a) * c * 30;
            let e4 = (1 - a) * (1 - c) * 40;
            lemma_congruent_add(t1.value() as int, t2.value() as int, s12.value() as int, e1, e2);
            lemma_congruent_add(s12.value() as int, t3.value() as int, s123.value() as int, e1 + e2, e3);
            lemma_congruent_add(s123.value() as int, t4.value() as int, r.value() as int, e1 + e2 + e3, e4);
            assert(scalar_values(vals@) =~= seq![a, b, c]);
            lemma_eval_three(Self::coefficients(), a, b, c);
            assert(e1 + e2 + e3 + e4 == 40 - 20 * a - 10 * (a * b) - 10 * c + 10 * (a * c))
                by (nonlinear_arith)
                requires
                    e1 == a * b * 10,
                    e2 == a * (1 - b) * 20,
                    e3 == (1 - a) * c * 30,
                    e4 == (1 - a) * (1 - c) * 40,
            ;
            lemma_congruent_small(r.value() as int);
        }
        r
    }

    /// The total degree of the combination: every monomial of the table has at most two
    /// variables, and `lt1 lt2` has a nonzero coefficient.
    pub fn g_poly_degree(&self, c: usize) -> (r: usize)
        ensures
            r as nat == poly_degree(Self::coefficients()),
    {
        proof {
            lemma_gbdt_degree();
        }
        2
    }

    /// The instruction's output, computed directly.
    pub fn lookup_entry(&self) -> (r: u64)
        ensures
            r == tree(self.0 as int, self.1 as int),
    {
        Self::inference(self.0, self.1)
    }

    /// The output rebuilt from lookups: indices, then looked-up values, then combination.
    pub fn evaluate_lookups(&self, c: usize, log_m: usize) -> (r: Scalar)
        requires
            c >= 3,
            log_m < usize::BITS,
        ensures
            r.value() == poly_eval(Self::coefficients(), self.lookup_values(log_m as nat)) % (
            modulus() as int),
            fits_fields(self.0, self.1, log_m as nat) && thresholds_fit(log_m as nat) ==> r.value()
                == tree(
                self.0 as int,
                self.1 as int,
            ),
    {
        let indices = self.to_indices(c, log_m);
        assert(indices@[0] as nat == self.spec_indices(c as nat, log_m as nat)[0]);
        assert(indices@[1] as nat == self.spec_indices(c as nat, log_m as nat)[1]);
        assert(indices@[2] as nat == self.spec_indices(c as nat, log_m as nat)[2]);
        let vals = self.subtable_values_at(indices.as_slice(), log_m);
        proof {
            assert(scalar_values(vals@) =~= self.lookup_values(log_m as nat));
            if fits_fields(self.0, self.1, log_m as nat) && thresholds_fit(log_m as nat) {
                lemma_gbdt_sound(*self, log_m as nat);
            }
        }
        self.combine_lookups(vals.as_slice(), c, 1)
    }
}

/// The total degree of the three-comparison combination is 2.
pub proof fn lemma_gbdt_degree()
    ensures
        poly_degree(GBDTInstruction::coefficients()) == 2,
{
    let t = GBDTInstruction::coefficients();
    reveal_with_fuel(poly_degree, 9);
    reveal_with_fuel(popcount, 4);
    let p = modulus() as int;
    assert(40int % p != 0);
    assert((-20int) % p != 0);
    assert((-10int) % p != 0);
    assert(popcount(0) == 0);
    assert(popcount(1) == 1);
    assert(popcount(3) == 2);
    assert(t.subrange(0, 8) =~= t);
    assert forall|k: int| 0 < k <= 8 implies #[trigger] t.subrange(0, k).drop_last() =~= t.subrange(
        0,
        k - 1,
    ) by {}
    assert(poly_degree(t.subrange(0, 1)) == 0);
    assert(poly_degree(t.subrange(0, 2)) == 1);
    assert(poly_degree(t.subrange(0, 3)) == 1);
    assert(poly_degree(t.subrange(0, 4)) == 2);
    assert(poly_degree(t.subrange(0, 5)) == 2);
    assert(poly_degree(t.subrange(0, 6)) == 2);
    assert(poly_degree(t.subrange(0, 7)) == 2);
}

/// Decomposition soundness of the three-comparison strategy: on operands that fit the
/// fields, with thresholds that fit too, the
/// combination of the looked-up comparison bits is the instruction's output.
pub proof fn lemma_gbdt_sound(instr: GBDTInstruction, log_m: nat)
    requires
        fits_fields(instr.0, instr.1, log_m),
        thresholds_fit(log_m),
    ensures
        poly_eval(GBDTInstruction::coefficients(), instr.lookup_values(log_m)) % (modulus() as int)
            == tree(instr.0 as int, instr.1 as int),
{
    let b = log_m / 2;
    let (x, y) = (instr.0 as nat, instr.1 as nat);
    lemma_pack_fields(x, T1 as nat, b);
    lemma_pack_fields(y, T2 as nat, b);
    lemma_pack_fields(y, T3 as nat, b);
    lemma_thresholds_fit(log_m);
    lemma_field_fits(x, b);
    lemma_field_fits(y, b);
    lemma_field_fits(T1 as nat, b);
    lemma_field_fits(T2 as nat, b);
    lemma_field_fits(T3 as nat, b);
    let vals = instr.lookup_values(log_m);
    let a = vals[0];
    let bb = vals[1];
    let c = vals[2];
    assert(a == if x < T1 { 1int } else { 0 });
    assert(bb == if y < T2 { 1int } else { 0 });
    assert(c == if y < T3 { 1int } else { 0 });
    assert(vals =~= seq![a, bb, c]);
    lemma_eval_three(GBDTInstruction::coefficients(), a, bb, c);
    let v = poly_eval(GBDTInstruction::coefficients(), vals);
    assert(v == tree(x as int, y as int));
    lemma_congruent_small(v);
}

/// The two decompositions agree: on operands that fit the fields, beside thresholds
/// that fit too, the single lookup into the
/// decision-tree subtable and the three lookups into the less-than subtable combine to
/// the same value, the output of the tree.
pub proof fn lemma_strategies_agree(x: u64, y: u64, log_m: nat)
    requires
        fits_fields(x, y, log_m),
        thresholds_fit(log_m),
    ensures
        poly_eval(GradientBoostInstruction::coefficients(), GradientBoostInstruction(x, y).lookup_values(log_m)) % (modulus() as int)
            == poly_eval(GBDTInstruction::coefficients(), GBDTInstruction(x, y).lookup_values(log_m)) % (modulus() as int),
        poly_eval(GBDTInstruction::coefficients(), GBDTInstruction(x, y).lookup_values(log_m)) % (modulus() as int)
            == tree(x as int, y as int),
{
    lemma_gradient_boost_sound(GradientBoostInstruction(x, y), log_m);
    lemma_gbdt_sound(GBDTInstruction(x, y), log_m);
}

} // verus!
