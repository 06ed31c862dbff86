//! The instructions that the virtual sequences expand into: the advice and move
//! instructions, and the three assertions that tie the advice to the thresholds. Each is
//! one lookup, whose combination is the looked-up value itself.

use crate::field::{lemma_congruent_small, modulus, Scalar};
use crate::instruction::{
    fits_fields, lemma_field_fits, lemma_pack_fields, lookup_value, pack, pack_operands,
};
use crate::poly::{lemma_eval_one, poly_degree, poly_eval, popcount, scalar_values};
use crate::subtable::{subtable_entry, SubtableId};
use crate::tree::{
    check_first_split, check_lower_split, check_upper_split, first_split_holds, indicator,
    lower_split_holds, upper_split_holds,
};
use vstd::arithmetic::power2::{lemma_pow2_strictly_increases, pow2};
use vstd::prelude::*;

verus! {

/// The coefficient table of a single lookup whose value is the result.
pub open spec fn single_coefficients() -> Seq<int> {
    seq![0, 1]
}

proof fn lemma_single_eval(a: int)
    requires
        0 <= a < modulus(),
    ensures
        poly_eval(single_coefficients(), seq![a]) % (modulus() as int) == a,
{
    lemma_eval_one(single_coefficients(), a);
    let k = single_coefficients()[1];
    assert(k * a == a) by (nonlinear_arith)
        requires
            k == 1,
    ;
    lemma_congruent_small(a);
}

proof fn lemma_single_value(vals: Seq<Scalar>)
    requires
        vals.len() == 1,
        vals[0].value() < modulus(),
    ensures
        vals[0].value() == poly_eval(single_coefficients(), scalar_values(vals)) % (modulus() as int),
{
    let a = vals[0].value() as int;
    assert(scalar_values(vals) =~= seq![a]);
    lemma_single_eval(a);
}

proof fn lemma_single_degree()
    ensures
        poly_degree(single_coefficients()) == 1,
{
    reveal_with_fuel(poly_degree, 3);
    reveal_with_fuel(popcount, 2);
    assert(single_coefficients().drop_last() =~= seq![0int]);
    assert(single_coefficients().drop_last().drop_last() =~= Seq::<int>::empty());
}

/// The `c` indices of a single lookup at the index packing `left` above `right`; the
/// other slots are unused and hold 0.
pub fn single_slot_indices(left: u64, right: u64, c: usize, log_m: usize) -> (r: Vec<usize>)
    requires
        c >= 1,
        log_m < usize::BITS,
    ensures
        r@.len() == c,
        r@[0] as nat == pack(left as nat, right as nat, log_m as nat / 2),
        forall|i: int| 1 <= i < c ==> #[trigger] r@[i] == 0,
        forall|i: int| 0 <= i < c ==> (#[trigger] r@[i] as nat) < pow2(log_m as nat),
{
    let b = log_m / 2;
    let packed = pack_operands(left, right, b);
    proof {
        vstd::arithmetic::power2::lemma_pow2_pos(log_m as nat);
        if 2 * b < log_m {
            lemma_pow2_strictly_increases(2 * b as nat, log_m as nat);
        }
    }
    let mut r: Vec<usize> = Vec::new();
    r.push(packed);
    while r.len() < c
        invariant
            1 <= r@.len() <= c,
            r@[0] == packed,
            (packed as nat) < pow2(log_m as nat),
            0 < pow2(log_m as nat),
            forall|i: int| 1 <= i < r@.len() ==> #[trigger] r@[i] == 0,
        decreases c - r@.len(),
    {
        r.push(0);
    }
    r
}

/// On values that fit the fields, the single lookup reads the entry of the two values
/// themselves, and that entry is below the modulus.
proof fn lemma_single_lookup_sound(id: SubtableId, left: nat, right: nat, log_m: nat)
    requires
        left < pow2(log_m / 2),
        right < pow2(log_m / 2),
        log_m < 64,
    ensures
        subtable_entry(id, pack(left, right, log_m / 2), log_m / 2) == subtable_entry(
            id,
            left * pow2(log_m / 2) + right,
            log_m / 2,
        ),
        crate::bits::high_field(pack(left, right, log_m / 2), log_m / 2) == left,
        crate::bits::low_field(pack(left, right, log_m / 2), log_m / 2) == right,
        subtable_entry(id, pack(left, right, log_m / 2), log_m / 2) < modulus(),
{
    let b = log_m / 2;
    lemma_pack_fields(left, right, b);
    lemma_field_fits(left, b);
    lemma_field_fits(right, b);
    crate::subtable::lemma_entry_bound(id, pack(left, right, b), b);
    vstd::arithmetic::power2::lemma2_to64();
}

/// The advice instruction: its result is the advice value it carries.
#[derive(Clone, Copy, Debug, PartialEq, Eq)]
pub struct ADVICEInstruction(pub u64);

impl ADVICEInstruction {
    /// The instruction's output.
    pub open spec fn spec_lookup_entry(self) -> nat {
        self.0 as nat
    }

    /// The two fields that the lookup index packs.
    pub open spec fn spec_operands(self) -> (u64, u64) {
        (0, self.0)
    }

    /// The index in each of the `c` slots for a layout of `2^log_m` entries.
    pub open spec fn spec_indices(self, c: nat, log_m: nat) -> Seq<nat> {
        Seq::new(c, |i: int| if i == 0 { pack(0 as nat, self.0 as nat, log_m / 2) } else { 0 })
    }

    /// The looked-up value.
    pub open spec fn lookup_values(self, log_m: nat) -> Seq<int> {
        let b = log_m / 2;
        seq![subtable_entry(SubtableId::Identity, pack(0 as nat, self.0 as nat, b), b) as int]
    }

    pub fn operands(&self) -> (r: (u64, u64))
        ensures
            r == self.spec_operands(),
    {
        (0, self.0)
    }

    /// Slot 0 packs the two fields; the other slots hold 0.
    pub fn to_indices(&self, c: usize, log_m: usize) -> (r: Vec<usize>)
        requires
            c >= 1,
            log_m < usize::BITS,
        ensures
            r@.len() == c,
            forall|i: int|
                0 <= i < c ==> #[trigger] r@[i] as nat == self.spec_indices(c as nat, log_m as nat)[i]
                    && (r@[i] as nat) < pow2(log_m as nat),
    {
        single_slot_indices(0, self.0, c, log_m)
    }

    /// The subtables consulted, each with the slots whose indices it is looked up at.
    pub fn subtables(&self, c: usize, m: usize) -> (r: Vec<(SubtableId, Vec<usize>)>)
        requires
            c >= 1,
        ensures
            r@.len() == 1,
            r@[0].0 == SubtableId::Identity,
            r@[0].1@ == seq![0usize],
    {
        let mut r: Vec<(SubtableId, Vec<usize>)> = Vec::new();
        r.push((SubtableId::Identity, vec![0usize]));
        proof {
            assert(r@[0].1@ =~= seq![0usize]);
        }
        r
    }

    /// The value looked up at `indices[0]`.
    pub fn subtable_values_at(&self, indices: &[usize], log_m: usize) -> (r: Vec<Scalar>)
        requires
            indices@.len() >= 1,
            log_m < usize::BITS,
            (indices@[0] as nat) < pow2(log_m as nat),
        ensures
            r@.len() == 1,
            r@[0].value() == subtable_entry(SubtableId::Identity, indices@[0] as nat, log_m as nat / 2),
    {
        let mut r: Vec<Scalar> = Vec::new();
        r.push(lookup_value(SubtableId::Identity, indices[0], log_m));
        r
    }

    /// The looked-up value itself.
    pub fn combine_lookups(&self, vals: &[Scalar], c: usize, m: usize) -> (r: Scalar)
        requires
            vals@.len() == 1,
        ensures
            r.value() == poly_eval(single_coefficients(), scalar_values(vals@)) % (modulus() as int),
    {
        let r = vals[0];
        r.check_bound();
        proof {
            lemma_single_value(vals@);
        }
        r
    }

    /// The total degree of the combination.
    pub fn g_poly_degree(&self, c: usize) -> (r: usize)
        ensures
            r as nat == poly_degree(single_coefficients()),
    {
        proof {
            lemma_single_degree();
        }
        1
    }

    /// The instruction's output, computed directly.
    pub fn lookup_entry(&self) -> (r: u64)
        ensures
            r as nat == self.spec_lookup_entry(),
    {
        self.0
    }

    /// The output rebuilt from the lookup.
    pub fn evaluate_lookups(&self, c: usize, log_m: usize) -> (r: Scalar)
        requires
            c >= 1,
            log_m < usize::BITS,
        ensures
            r.value() == poly_eval(single_coefficients(), self.lookup_values(log_m as nat)) % (
            modulus() as int),
            fits_fields(0, self.0, log_m as nat) ==> r.value()
                == self.spec_lookup_entry(),
    {
        let indices = self.to_indices(c, log_m);
        assert(indices@[0] as nat == self.spec_indices(c as nat, log_m as nat)[0]);
        let vals = self.subtable_values_at(indices.as_slice(), log_m);
        proof {
            assert(scalar_values(vals@) =~= self.lookup_values(log_m as nat));
        }
        let r = self.combine_lookups(vals.as_slice(), c, 1);
        proof {
            if fits_fields(0, self.0, log_m as nat) {
                lemma_single_lookup_sound(SubtableId::Identity, 0 as nat, self.0 as nat, log_m as nat);
                let v = self.lookup_values(log_m as nat)[0];
                assert(self.lookup_values(log_m as nat) =~= seq![v]);
                assert(v == self.spec_lookup_entry());
                lemma_single_eval(v);
            }
        }
        r
    }
}

/// The move instruction: its result is the value it copies.
#[derive(Clone, Copy, Debug, PartialEq, Eq)]
pub struct MOVEInstruction(pub u64);

impl MOVEInstruction {
    /// The instruction's output.
    pub open spec fn spec_lookup_entry(self) -> nat {
        self.0 as nat
    }

    /// The two fields that the lookup index packs.
    pub open spec fn spec_operands(self) -> (u64, u64) {
        (0, self.0)
    }

    /// The index in each of the `c` slots for a layout of `2^log_m` entries.
    pub open spec fn spec_indices(self, c: nat, log_m: nat) -> Seq<nat> {
        Seq::new(c, |i: int| if i == 0 { pack(0 as nat, self.0 as nat, log_m / 2) } else { 0 })
    }

    /// The looked-up value.
    pub open spec fn lookup_values(self, log_m: nat) -> Seq<int> {
        let b = log_m / 2;
        seq![subtable_entry(SubtableId::Identity, pack(0 as nat, self.0 as nat, b), b) as int]
    }

    pub fn operands(&self) -> (r: (u64, u64))
        ensures
            r == self.spec_operands(),
    {
        (0, self.0)
    }

    /// Slot 0 packs the two fields; the other slots hold 0.
    pub fn to_indices(&self, c: usize, log_m: usize) -> (r: Vec<usize>)
        requires
            c >= 1,
            log_m < usize::BITS,
        ensures
            r@.len() == c,
            forall|i: int|
                0 <= i < c ==> #[trigger] r@[i] as nat == self.spec_indices(c as nat, log_m as nat)[i]
                    && (r@[i] as nat) < pow2(log_m as nat),
    {
        single_slot_indices(0, self.0, c, log_m)
    }

    /// The subtables consulted, each with the slots whose indices it is looked up at.
    pub fn subtables(&self, c: usize, m: usize) -> (r: Vec<(SubtableId, Vec<usize>)>)
        requires
            c >= 1,
        ensures
            r@.len() == 1,
            r@[0].0 == SubtableId::Identity,
            r@[0].1@ == seq![0usize],
    {
        let mut r: Vec<(SubtableId, Vec<usize>)> = Vec::new();
        r.push((SubtableId::Identity, vec![0usize]));
        proof {
            assert(r@[0].1@ =~= seq![0usize]);
        }
        r
    }

    /// The value looked up at `indices[0]`.
    pub fn subtable_values_at(&self, indices: &[usize], log_m: usize) -> (r: Vec<Scalar>)
        requires
            indices@.len() >= 1,
            log_m < usize::BITS,
            (indices@[0] as nat) < pow2(log_m as nat),
        ensures
            r@.len() == 1,
            r@[0].value() == subtable_entry(SubtableId::Identity, indices@[0] as nat, log_m as nat / 2),
    {
        let mut r: Vec<Scalar> = Vec::new();
        r.push(lookup_value(SubtableId::Identity, indices[0], log_m));
        r
    }

    /// The looked-up value itself.
    pub fn combine_lookups(&self, vals: &[Scalar], c: usize, m: usize) -> (r: Scalar)
        requires
            vals@.len() == 1,
        ensures
            r.value() == poly_eval(single_coefficients(), scalar_values(vals@)) % (modulus() as int),
    {
        let r = vals[0];
        r.check_bound();
        proof {
            lemma_single_value(vals@);
        }
        r
    }

    /// The total degree of the combination.
    pub fn g_poly_degree(&self, c: usize) -> (r: usize)
        ensures
            r as nat == poly_degree(single_coefficients()),
    {
        proof {
            lemma_single_degree();
        }
        1
    }

    /// The instruction's output, computed directly.
    pub fn lookup_entry(&self) -> (r: u64)
        ensures
            r as nat == self.spec_lookup_entry(),
    {
        self.0
    }

    /// The output rebuilt from the lookup.
    pub fn evaluate_lookups(&self, c: usize, log_m: usize) -> (r: Scalar)
        requires
            c >= 1,
            log_m < usize::BITS,
        ensures
            r.value() == poly_eval(single_coefficients(), self.lookup_values(log_m as nat)) % (
            modulus() as int),
            fits_fields(0, self.0, log_m as nat) ==> r.value()
                == self.spec_lookup_entry(),
    {
        let indices = self.to_indices(c, log_m);
        assert(indices@[0] as nat == self.spec_indices(c as nat, log_m as nat)[0]);
        let vals = self.subtable_values_at(indices.as_slice(), log_m);
        proof {
            assert(scalar_values(vals@) =~= self.lookup_values(log_m as nat));
        }
        let r = self.combine_lookups(vals.as_slice(), c, 1);
        proof {
            if fits_fields(0, self.0, log_m as nat) {
                lemma_single_lookup_sound(SubtableId::Identity, 0 as nat, self.0 as nat, log_m as nat);
                let v = self.lookup_values(log_m as nat)[0];
                assert(self.lookup_values(log_m as nat) =~= seq![v]);
                assert(v == self.spec_lookup_entry());
                lemma_single_eval(v);
            }
        }
        r
    }
}

/// Asserts the first split of an operand (first) and an advice value (second): 1 when
/// it holds, 0 otherwise.
#[derive(Clone, Copy, Debug, PartialEq, Eq)]
pub struct AssertFirstSplitInstruction(pub u64, pub u64);

impl AssertFirstSplitInstruction {
    /// The instruction's output.
    pub open spec fn spec_lookup_entry(self) -> nat {
        indicator(first_split_holds(self.0 as int, self.1 as int))
    }

    /// The two fields that the lookup index packs.
    pub open spec fn spec_operands(self) -> (u64, u64) {
        (self.0, self.1)
    }

    /// The index in each of the `c` slots for a layout of `2^log_m` entries.
    pub open spec fn spec_indices(self, c: nat, log_m: nat) -> Seq<nat> {
        Seq::new(c, |i: int| if i == 0 { pack(self.0 as nat, self.1 as nat, log_m / 2) } else { 0 })
    }

    /// The looked-up value.
    pub open spec fn lookup_values(self, log_m: nat) -> Seq<int> {
        let b = log_m / 2;
        seq![subtable_entry(SubtableId::FirstSplit, pack(self.0 as nat, self.1 as nat, b), b) as int]
    }

    pub fn operands(&self) -> (r: (u64, u64))
        ensures
            r == self.spec_operands(),
    {
        (self.0, self.1)
    }

    /// Slot 0 packs the two fields; the other slots hold 0.
    pub fn to_indices(&self, c: usize, log_m: usize) -> (r: Vec<usize>)
        requires
            c >= 1,
            log_m < usize::BITS,
        ensures
            r@.len() == c,
            forall|i: int|
                0 <= i < c ==> #[trigger] r@[i] as nat == self.spec_indices(c as nat, log_m as nat)[i]
                    && (r@[i] as nat) < pow2(log_m as nat),
    {
        single_slot_indices(self.0, self.1, c, log_m)
    }

    /// The subtables consulted, each with the slots whose indices it is looked up at.
    pub fn subtables(&self, c: usize, m: usize) -> (r: Vec<(SubtableId, Vec<usize>)>)
        requires
            c >= 1,
        ensures
            r@.len() == 1,
            r@[0].0 == SubtableId::FirstSplit,
            r@[0].1@ == seq![0usize],
    {
        let mut r: Vec<(SubtableId, Vec<usize>)> = Vec::new();
        r.push((SubtableId::FirstSplit, vec![0usize]));
        proof {
            assert(r@[0].1@ =~= seq![0usize]);
        }
        r
    }

    /// The value looked up at `indices[0]`.
    pub fn subtable_values_at(&self, indices: &[usize], log_m: usize) -> (r: Vec<Scalar>)
        requires
            indices@.len() >= 1,
            log_m < usize::BITS,
            (indices@[0] as nat) < pow2(log_m as nat),
        ensures
            r@.len() == 1,
            r@[0].value() == subtable_entry(SubtableId::FirstSplit, indices@[0] as nat, log_m as nat / 2),
    {
        let mut r: Vec<Scalar> = Vec::new();
        r.push(lookup_value(SubtableId::FirstSplit, indices[0], log_m));
        r
    }

    /// The looked-up value itself.
    pub fn combine_lookups(&self, vals: &[Scalar], c: usize, m: usize) -> (r: Scalar)
        requires
            vals@.len() == 1,
        ensures
            r.value() == poly_eval(single_coefficients(), scalar_values(vals@)) % (modulus() as int),
    {
        let r = vals[0];
        r.check_bound();
        proof {
            lemma_single_value(vals@);
        }
        r
    }

    /// The total degree of the combination.
    pub fn g_poly_degree(&self, c: usize) -> (r: usize)
        ensures
            r as nat == poly_degree(single_coefficients()),
    {
        proof {
            lemma_single_degree();
        }
        1
    }

    /// The instruction's output, computed directly.
    pub fn lookup_entry(&self) -> (r: u64)
        ensures
            r as nat == self.spec_lookup_entry(),
    {
        if check_first_split(self.0, self.1) { 1 } else { 0 }
    }

    /// The output rebuilt from the lookup.
    pub fn evaluate_lookups(&self, c: usize, log_m: usize) -> (r: Scalar)
        requires
            c >= 1,
            log_m < usize::BITS,
        ensures
            r.value() == poly_eval(single_coefficients(), self.lookup_values(log_m as nat)) % (
            modulus() as int),
            fits_fields(self.0, self.1, log_m as nat) ==> r.value()
                == self.spec_lookup_entry(),
    {
        let indices = self.to_indices(c, log_m);
        assert(indices@[0] as nat == self.spec_indices(c as nat, log_m as nat)[0]);
        let vals = self.subtable_values_at(indices.as_slice(), log_m);
        proof {
            assert(scalar_values(vals@) =~= self.lookup_values(log_m as nat));
        }
        let r = self.combine_lookups(vals.as_slice(), c, 1);
        proof {
            if fits_fields(self.0, self.1, log_m as nat) {
                lemma_single_lookup_sound(SubtableId::FirstSplit, self.0 as nat, self.1 as nat, log_m as nat);
                let v = self.lookup_values(log_m as nat)[0];
                assert(self.lookup_values(log_m as nat) =~= seq![v]);
                assert(v == self.spec_lookup_entry());
                lemma_single_eval(v);
            }
        }
        r
    }
}

/// Asserts the lower second split of an operand (first) and an advice value (second):
/// 1 when it holds, 0 otherwise.
#[derive(Clone, Copy, Debug, PartialEq, Eq)]
pub struct AssertLowerSplitInstruction(pub u64, pub u64);

impl AssertLowerSplitInstruction {
    /// The instruction's output.
    pub open spec fn spec_lookup_entry(self) -> nat {
        indicator(lower_split_holds(self.0 as int, self.1 as int))
    }

    /// The two fields that the lookup index packs.
    pub open spec fn spec_operands(self) -> (u64, u64) {
        (self.0, self.1)
    }

    /// The index in each of the `c` slots for a layout of `2^log_m` entries.
    pub open spec fn spec_indices(self, c: nat, log_m: nat) -> Seq<nat> {
        Seq::new(c, |i: int| if i == 0 { pack(self.0 as nat, self.1 as nat, log_m / 2) } else { 0 })
    }

    /// The looked-up value.
    pub open spec fn lookup_values(self, log_m: nat) -> Seq<int> {
        let b = log_m / 2;
        seq![subtable_entry(SubtableId::LowerSplit, pack(self.0 as nat, self.1 as nat, b), b) as int]
    }

    pub fn operands(&self) -> (r: (u64, u64))
        ensures
            r == self.spec_operands(),
    {
        (self.0, self.1)
    }

    /// Slot 0 packs the two fields; the other slots hold 0.
    pub fn to_indices(&self, c: usize, log_m: usize) -> (r: Vec<usize>)
        requires
            c >= 1,
            log_m < usize::BITS,
        ensures
            r@.len() == c,
            forall|i: int|
                0 <= i < c ==> #[trigger] r@[i] as nat == self.spec_indices(c as nat, log_m as nat)[i]
                    && (r@[i] as nat) < pow2(log_m as nat),
    {
        single_slot_indices(self.0, self.1, c, log_m)
    }

    /// The subtables consulted, each with the slots whose indices it is looked up at.
    pub fn subtables(&self, c: usize, m: usize) -> (r: Vec<(SubtableId, Vec<usize>)>)
        requires
            c >= 1,
        ensures
            r@.len() == 1,
            r@[0].0 == SubtableId::LowerSplit,
            r@[0].1@ == seq![0usize],
    {
        let mut r: Vec<(SubtableId, Vec<usize>)> = Vec::new();
        r.push((SubtableId::LowerSplit, vec![0usize]));
        proof {
            assert(r@[0].1@ =~= seq![0usize]);
        }
        r
    }

    /// The value looked up at `indices[0]`.
    pub fn subtable_values_at(&self, indices: &[usize], log_m: usize) -> (r: Vec<Scalar>)
        requires
            indices@.len() >= 1,
            log_m < usize::BITS,
            (indices@[0] as nat) < pow2(log_m as nat),
        ensures
            r@.len() == 1,
            r@[0].value() == subtable_entry(SubtableId::LowerSplit, indices@[0] as nat, log_m as nat / 2),
    {
        let mut r: Vec<Scalar> = Vec::new();
        r.push(lookup_value(SubtableId::LowerSplit, indices[0], log_m));
        r
    }

    /// The looked-up value itself.
    pub fn combine_lookups(&self, vals: &[Scalar], c: usize, m: usize) -> (r: Scalar)
        requires
            vals@.len() == 1,
        ensures
            r.value() == poly_eval(single_coefficients(), scalar_values(vals@)) % (modulus() as int),
    {
        let r = vals[0];
        r.check_bound();
        proof {
            lemma_single_value(vals@);
        }
        r
    }

    /// The total degree of the combination.
    pub fn g_poly_degree(&self, c: usize) -> (r: usize)
        ensures
            r as nat == poly_degree(single_coefficients()),
    {
        proof {
            lemma_single_degree();
        }
        1
    }

    /// The instruction's output, computed directly.
    pub fn lookup_entry(&self) -> (r: u64)
        ensures
            r as nat == self.spec_lookup_entry(),
    {
        if check_lower_split(self.0, self.1) { 1 } else { 0 }
    }

    /// The output rebuilt from the lookup.
    pub fn evaluate_lookups(&self, c: usize, log_m: usize) -> (r: Scalar)
        requires
            c >= 1,
            log_m < usize::BITS,
        ensures
            r.value() == poly_eval(single_coefficients(), self.lookup_values(log_m as nat)) % (
            modulus() as int),
            fits_fields(self.0, self.1, log_m as nat) ==> r.value()
                == self.spec_lookup_entry(),
    {
        let indices = self.to_indices(c, log_m);
        assert(indices@[0] as nat == self.spec_indices(c as nat, log_m as nat)[0]);
        let vals = self.subtable_values_at(indices.as_slice(), log_m);
        proof {
            assert(scalar_values(vals@) =~= self.lookup_values(log_m as nat));
        }
        let r = self.combine_lookups(vals.as_slice(), c, 1);
        proof {
            if fits_fields(self.0, self.1, log_m as nat) {
                lemma_single_lookup_sound(SubtableId::LowerSplit, self.0 as nat, self.1 as nat, log_m as nat);
                let v = self.lookup_values(log_m as nat)[0];
                assert(self.lookup_values(log_m as nat) =~= seq![v]);
                assert(v == self.spec_lookup_entry());
                lemma_single_eval(v);
            }
        }
        r
    }
}

/// Asserts the upper second split of an operand (first) and an advice value (second):
/// 1 when it holds, 0 otherwise.
#[derive(Clone, Copy, Debug, PartialEq, Eq)]
pub struct AssertUpperSplitInstruction(pub u64, pub u64);

impl AssertUpperSplitInstruction {
    /// The instruction's output.
    pub open spec fn spec_lookup_entry(self) -> nat {
        indicator(upper_split_holds(self.0 as int, self.1 as int))
    }

    /// The two fields that the lookup index packs.
    pub open spec fn spec_operands(self) -> (u64, u64) {
        (self.0, self.1)
    }

    /// The index in each of the `c` slots for a layout of `2^log_m` entries.
    pub open spec fn spec_indices(self, c: nat, log_m: nat) -> Seq<nat> {
        Seq::new(c, |i: int| if i == 0 { pack(self.0 as nat, self.1 as nat, log_m / 2) } else { 0 })
    }

    /// The looked-up value.
    pub open spec fn lookup_values(self, log_m: nat) -> Seq<int> {
        let b = log_m / 2;
        seq![subtable_entry(SubtableId::UpperSplit, pack(self.0 as nat, self.1 as nat, b), b) as int]
    }

    pub fn operands(&self) -> (r: (u64, u64))
        ensures
            r == self.spec_operands(),
    {
        (self.0, self.1)
    }

    /// Slot 0 packs the two fields; the other slots hold 0.
    pub fn to_indices(&self, c: usize, log_m: usize) -> (r: Vec<usize>)
        requires
            c >= 1,
            log_m < usize::BITS,
        ensures
            r@.len() == c,
            forall|i: int|
                0 <= i < c ==> #[trigger] r@[i] as nat == self.spec_indices(c as nat, log_m as nat)[i]
                    && (r@[i] as nat) < pow2(log_m as nat),
    {
        single_slot_indices(self.0, self.1, c, log_m)
    }

    /// The subtables consulted, each with the slots whose indices it is looked up at.
    pub fn subtables(&self, c: usize, m: usize) -> (r: Vec<(SubtableId, Vec<usize>)>)
        requires
            c >= 1,
        ensures
            r@.len() == 1,
            r@[0].0 == SubtableId::UpperSplit,
            r@[0].1@ == seq![0usize],
    {
        let mut r: Vec<(SubtableId, Vec<usize>)> = Vec::new();
        r.push((SubtableId::UpperSplit, vec![0usize]));
        proof {
            assert(r@[0].1@ =~= seq![0usize]);
        }
        r
    }

    /// The value looked up at `indices[0]`.
    pub fn subtable_values_at(&self, indices: &[usize], log_m: usize) -> (r: Vec<Scalar>)
        requires
            indices@.len() >= 1,
            log_m < usize::BITS,
            (indices@[0] as nat) < pow2(log_m as nat),
        ensures
            r@.len() == 1,
            r@[0].value() == subtable_entry(SubtableId::UpperSplit, indices@[0] as nat, log_m as nat / 2),
    {
        let mut r: Vec<Scalar> = Vec::new();
        r.push(lookup_value(SubtableId::UpperSplit, indices[0], log_m));
        r
    }

    /// The looked-up value itself.
    pub fn combine_lookups(&self, vals: &[Scalar], c: usize, m: usize) -> (r: Scalar)
        requires
            vals@.len() == 1,
        ensures
            r.value() == poly_eval(single_coefficients(), scalar_values(vals@)) % (modulus() as int),
    {
        let r = vals[0];
        r.check_bound();
        proof {
            lemma_single_value(vals@);
        }
        r
    }

    /// The total degree of the combination.
    pub fn g_poly_degree(&self, c: usize) -> (r: usize)
        ensures
            r as nat == poly_degree(single_coefficients()),
    {
        proof {
            lemma_single_degree();
        }
        1
    }

    /// The instruction's output, computed directly.
    pub fn lookup_entry(&self) -> (r: u64)
        ensures
            r as nat == self.spec_lookup_entry(),
    {
        if check_upper_split(self.0, self.1) { 1 } else { 0 }
    }

    /// The output rebuilt from the lookup.
    pub fn evaluate_lookups(&self, c: usize, log_m: usize) -> (r: Scalar)
        requires
            c >= 1,
            log_m < usize::BITS,
        ensures
            r.value() == poly_eval(single_coefficients(), self.lookup_values(log_m as nat)) % (
            modulus() as int),
            fits_fields(self.0, self.1, log_m as nat) ==> r.value()
                == self.spec_lookup_entry(),
    {
        let indices = self.to_indices(c, log_m);
        assert(indices@[0] as nat == self.spec_indices(c as nat, log_m as nat)[0]);
        let vals = self.subtable_values_at(indices.as_slice(), log_m);
        proof {
            assert(scalar_values(vals@) =~= self.lookup_values(log_m as nat));
        }
        let r = self.combine_lookups(vals.as_slice(), c, 1);
        proof {
            if fits_fields(self.0, self.1, log_m as nat) {
                lemma_single_lookup_sound(SubtableId::UpperSplit, self.0 as nat, self.1 as nat, log_m as nat);
                let v = self.lookup_values(log_m as nat)[0];
                assert(self.lookup_values(log_m as nat) =~= seq![v]);
                assert(v == self.spec_lookup_entry());
                lemma_single_eval(v);
            }
        }
        r
    }
}

} // verus!
