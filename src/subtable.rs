//! Subtables: small truth tables over a packed pair of operand fields, and their
//! extensions to field-valued points.
//!
//! An index of a table with `M` entries is read as two fields: the part above the low
//! `b = log2(M) / 2` bits (left) and those low bits (right).

use crate::bits::{
    ceil_log2, high_field, is_binary_point, lemma_binary_point_digits, lemma_ceil_log2_pow2, log2,
    low_field, split_bits,
};
use crate::field::{
    congruent, lemma_congruent_add, lemma_congruent_mul, lemma_congruent_small, lemma_congruent_sub,
    modulus, Scalar,
};
use crate::mle::{fold_half, lemma_first_last_index, lemma_mle_boolean, lemma_mle_fold, mle_seq};
use crate::poly::scalar_values;
use crate::tree::{
    check_first_split, check_lower_split, check_upper_split, first_split_holds, indicator,
    lower_split_holds, tree, upper_split_holds, T1, T2, T3, V1, V2, V3, V4,
};
use vstd::arithmetic::power2::pow2;
use vstd::prelude::*;

verus! {

/// Identity of a kind of subtable.
#[derive(Clone, Copy, Debug, PartialEq, Eq, Structural)]
pub enum SubtableId {
    GradientBoost,
    LessThan,
    Identity,
    FirstSplit,
    LowerSplit,
    UpperSplit,
}

/// Entry `idx` of the decision-tree table whose operand fields are `b` bits wide: the
/// leaf that the tree gives for the two whole fields.
pub open spec fn gradient_boost_entry(idx: nat, b: nat) -> nat {
    tree(high_field(idx, b) as int, low_field(idx, b) as int)
}

/// Entry `idx` of the less-than table whose operand fields are `b` bits wide.
pub open spec fn less_than_entry(idx: nat, b: nat) -> nat {
    if high_field(idx, b) < low_field(idx, b) {
        1
    } else {
        0
    }
}

/// Entry `idx` of the identity table whose operand fields are `b` bits wide: the right
/// field.
pub open spec fn identity_entry(idx: nat, b: nat) -> nat {
    low_field(idx, b)
}

/// Entry `idx` of the table of kind `id` whose operand fields are `b` bits wide.
pub open spec fn subtable_entry(id: SubtableId, idx: nat, b: nat) -> nat {
    let left = high_field(idx, b) as int;
    let right = low_field(idx, b) as int;
    match id {
        SubtableId::GradientBoost => gradient_boost_entry(idx, b),
        SubtableId::LessThan => less_than_entry(idx, b),
        SubtableId::Identity => identity_entry(idx, b),
        SubtableId::FirstSplit => indicator(first_split_holds(left, right)),
        SubtableId::LowerSplit => indicator(lower_split_holds(left, right)),
        SubtableId::UpperSplit => indicator(upper_split_holds(left, right)),
    }
}

/// Entry `i` of the materialized table of kind `id` with `m` entries.
pub open spec fn table_entry(id: SubtableId, m: nat, i: nat) -> nat {
    subtable_entry(id, i, ceil_log2(m) / 2)
}

/// The table of kind `id` with `2^n` entries, as integers.
pub open spec fn table_values(id: SubtableId, n: nat) -> Seq<int> {
    Seq::new(pow2(n), |i: int| subtable_entry(id, i as nat, n / 2) as int)
}

/// The multilinear extension of the table of kind `id` with `2^len` entries at `point`,
/// an element of the field; the first coordinate is the most significant index bit.
pub open spec fn mle_value(id: SubtableId, point: Seq<Scalar>) -> int {
    mle_seq(table_values(id, point.len()), scalar_values(point)) % (modulus() as int)
}

/// Every entry of a table whose fields have at most 32 bits is below `2^32`.
pub proof fn lemma_entry_bound(id: SubtableId, idx: nat, b: nat)
    requires
        b <= 32,
    ensures
        subtable_entry(id, idx, b) < pow2(32),
{
    vstd::arithmetic::power2::lemma2_to64();
    vstd::arithmetic::power2::lemma_pow2_pos(b);
    if b < 32 {
        vstd::arithmetic::power2::lemma_pow2_strictly_increases(b, 32);
    }
}

/// Parity of a table and its extension: for a table of `2^n` entries and every index
/// `i` below that, the extension at the boolean point of `i` is entry `i` of the
/// materialized table.
pub proof fn lemma_mle_parity(id: SubtableId, n: nat, i: nat, point: Seq<Scalar>)
    requires
        n < 64,
        i < pow2(n),
        point.len() == n,
        is_binary_point(point, i),
    ensures
        mle_value(id, point) == table_entry(id, pow2(n), i),
{
    let v = scalar_values(point);
    lemma_binary_point_digits(point, i);
    lemma_first_last_index(v);
    lemma_mle_boolean(table_values(id, n), v);
    lemma_ceil_log2_pow2(n);
    lemma_entry_bound(id, i, n / 2);
    vstd::arithmetic::power2::lemma2_to64();
    assert(pow2(32) == 0x1_0000_0000);
    lemma_congruent_small(subtable_entry(id, i, n / 2) as int);
}

/// Entry `idx` of the table of kind `id` whose operand fields are `b` bits wide.
fn entry_of(id: SubtableId, idx: usize, b: usize) -> (r: u32)
    requires
        b < usize::BITS,
        b <= 32,
    ensures
        r as nat == subtable_entry(id, idx as nat, b as nat),
{
    let (left, right) = split_bits(idx, b);
    match id {
        SubtableId::GradientBoost => GradientBoostSubtable::entry(left, right),
        SubtableId::LessThan => if left < right {
            1
        } else {
            0
        },
        SubtableId::Identity => {
            proof {
                vstd::arithmetic::power2::lemma2_to64();
                if b < 32 {
                    vstd::arithmetic::power2::lemma_pow2_strictly_increases(b as nat, 32);
                }
            }
            right as u32
        },
        SubtableId::FirstSplit => if check_first_split(left as u64, right as u64) {
            1
        } else {
            0
        },
        SubtableId::LowerSplit => if check_lower_split(left as u64, right as u64) {
            1
        } else {
            0
        },
        SubtableId::UpperSplit => if check_upper_split(left as u64, right as u64) {
            1
        } else {
            0
        },
    }
}

/// The table of kind `id` with `m` entries.
fn materialize_table(id: SubtableId, m: usize) -> (r: Vec<u32>)
    ensures
        r@.len() == m,
        forall|i: int| 0 <= i < m ==> #[trigger] r@[i] as nat == table_entry(id, m as nat, i as nat),
{
    let b: usize = (log2(m) / 2) as usize;
    proof {
        crate::bits::lemma_ceil_log2_usize(m);
    }
    let mut entries: Vec<u32> = Vec::with_capacity(m);
    let mut idx: usize = 0;
    while idx < m
        invariant
            idx <= m,
            b as nat == ceil_log2(m as nat) / 2,
            b < usize::BITS,
            b <= 32,
            entries@.len() == idx,
            forall|i: int|
                0 <= i < idx ==> #[trigger] entries@[i] as nat == subtable_entry(id, i as nat, b as nat),
        decreases m - idx,
    {
        entries.push(entry_of(id, idx, b));
        idx = idx + 1;
    }
    entries
}

/// The entry at `index` of the table of kind `id` whose fields are `b` bits wide, as a
/// field element.
pub(crate) fn entry_scalar(id: SubtableId, index: usize, b: usize) -> (r: Scalar)
    requires
        b < usize::BITS,
        b <= 32,
    ensures
        r.value() == subtable_entry(id, index as nat, b as nat),
{
    Scalar::from_u64(entry_of(id, index, b) as u64)
}

/// One fold of the table: `(1 - c) t[i] + c t[i + h]` for each `i` of the lower half.
fn fold_step(t: &Vec<Scalar>, c: Scalar, g: Ghost<Seq<int>>) -> (r: Vec<Scalar>)
    requires
        t@.len() == g@.len(),
        t@.len() % 2 == 0,
        forall|i: int| 0 <= i < t@.len() ==> congruent(#[trigger] t@[i].value() as int, g@[i]),
    ensures
        r@.len() == fold_half(g@, c.value() as int).len(),
        forall|i: int|
            0 <= i < r@.len() ==> congruent(
                #[trigger] r@[i].value() as int,
                fold_half(g@, c.value() as int)[i],
            ),
{
    let len = t.len();
    let h = len / 2;
    let ghost cv = c.value() as int;
    let ghost gn = fold_half(g@, cv);
    let mut next: Vec<Scalar> = Vec::new();
    let mut i: usize = 0;
    while i < h
        invariant
            len == t@.len(),
            h == len / 2,
            h + h == len,
            t@.len() == g@.len(),
            t@.len() % 2 == 0,
            forall|k: int| 0 <= k < t@.len() ==> congruent(#[trigger] t@[k].value() as int, g@[k]),
            cv == c.value(),
            gn == fold_half(g@, cv),
            i <= h,
            next@.len() == i,
            forall|k: int| 0 <= k < i ==> congruent(#[trigger] next@[k].value() as int, gn[k]),
        decreases h - i,
    {
        let lo = t[i];
        let hi = t[i + h];
        let d = hi.minus(&lo);
        let m = c.times(&d);
        let v = lo.plus(&m);
        proof {
            let gl = g@[i as int];
            let gh = g@[i + h];
            assert(congruent(lo.value() as int, gl));
            assert(congruent(hi.value() as int, gh));
            lemma_congruent_sub(hi.value() as int, lo.value() as int, d.value() as int, gh, gl);
            lemma_congruent_mul(cv, d.value() as int, m.value() as int, cv, gh - gl);
            lemma_congruent_add(
                lo.value() as int,
                m.value() as int,
                v.value() as int,
                gl,
                cv * (gh - gl),
            );
            assert(gl + cv * (gh - gl) == (1 - cv) * gl + cv * gh) by (nonlinear_arith);
            assert(gn[i as int] == (1 - cv) * gl + cv * gh);
        }
        next.push(v);
        i = i + 1;
    }
    next
}

/// The multilinear extension of the table of kind `id` at `point`: the table with
/// `2^len` entries, folded coordinate by coordinate, first coordinate first.
fn evaluate_table(id: SubtableId, point: &[Scalar]) -> (r: Scalar)
    requires
        point@.len() < usize::BITS,
    ensures
        r.value() == mle_value(id, point@),
{
    let n = point.len();
    let b = n / 2;
    proof {
        vstd::bits::lemma_usize_pow2_no_overflow(n as nat);
        vstd::bits::lemma_usize_shl_is_mul(1, n);
    }
    let one: usize = 1;
    let size: usize = one << n;
    let ghost t0 = table_values(id, n as nat);
    let ghost sv = scalar_values(point@);
    let mut t: Vec<Scalar> = Vec::new();
    let mut idx: usize = 0;
    while idx < size
        invariant
            idx <= size,
            size == pow2(n as nat),
            b == n / 2,
            n < usize::BITS,
            t0 == table_values(id, n as nat),
            t@.len() == idx,
            forall|i: int| 0 <= i < idx ==> congruent(#[trigger] t@[i].value() as int, t0[i]),
        decreases size - idx,
    {
        let e = entry_scalar(id, idx, b);
        t.push(e);
        idx = idx + 1;
    }
    let ghost mut g = t0;
    let mut j: usize = 0;
    assert(sv.subrange(0, n as int) =~= sv);
    while j < n
        invariant
            j <= n,
            n == point@.len(),
            sv == scalar_values(point@),
            t@.len() == g.len(),
            g.len() == pow2((n - j) as nat),
            forall|i: int| 0 <= i < t@.len() ==> congruent(#[trigger] t@[i].value() as int, g[i]),
            mle_seq(t0, sv) == mle_seq(g, sv.subrange(j as int, n as int)),
        decreases n - j,
    {
        let c = point[j];
        proof {
            vstd::arithmetic::power2::lemma_pow2_unfold((n - j) as nat);
            let rest = sv.subrange(j as int, n as int);
            lemma_mle_fold(g, rest);
            assert(rest[0] == c.value());
            assert(rest.drop_first() =~= sv.subrange(j + 1, n as int));
        }
        let next = fold_step(&t, c, Ghost(g));
        proof {
            g = fold_half(g, c.value() as int);
        }
        t = next;
        j = j + 1;
    }
    proof {
        vstd::arithmetic::power2::lemma2_to64();
        assert(sv.subrange(n as int, n as int) =~= Seq::<int>::empty());
    }
    let r = t[0];
    r.check_bound();
    proof {
        lemma_congruent_small(r.value() as int);
    }
    r
}

/// A table whose entry is the leaf of the fixed decision tree for the two fields that
/// the index packs.
#[derive(Clone, Copy, Debug, Default, PartialEq, Eq)]
pub struct GradientBoostSubtable;

impl GradientBoostSubtable {
    pub fn new() -> (r: GradientBoostSubtable)
        ensures
            r == GradientBoostSubtable,
    {
        GradientBoostSubtable
    }

    pub fn subtable_id(&self) -> (r: SubtableId)
        ensures
            r == SubtableId::GradientBoost,
    {
        SubtableId::GradientBoost
    }

    /// The leaf that the decision tree gives for `(left, right)`.
    pub fn inference(left: u8, right: u8) -> (r: u8)
        ensures
            r as nat == tree(left as int, right as int),
    {
        if (left as u64) < T1 {
            if (right as u64) < T2 {
                V1 as u8
            } else {
                V2 as u8
            }
        } else {
            if (right as u64) < T3 {
                V3 as u8
            } else {
                V4 as u8
            }
        }
    }

    /// The leaf for the two whole fields `left` and `right`.
    fn entry(left: usize, right: usize) -> (r: u32)
        ensures
            r as nat == tree(left as int, right as int),
    {
        let leaf = if (left as u64) < T1 {
            if (right as u64) < T2 {
                V1
            } else {
                V2
            }
        } else {
            if (right as u64) < T3 {
                V3
            } else {
                V4
            }
        };
        leaf as u32
    }

    /// The table with `m` entries.
    pub fn materialize(&self, m: usize) -> (r: Vec<u32>)
        ensures
            r@.len() == m,
            forall|i: int|
                0 <= i < m ==> #[trigger] r@[i] as nat == table_entry(
                    SubtableId::GradientBoost,
                    m as nat,
                    i as nat,
                ),
    {
        materialize_table(SubtableId::GradientBoost, m)
    }

    /// The extension at `point`: the entry of the index that the point spells when each
    /// nonzero coordinate is read as a one bit, fields split at half the point's length.
    pub fn evaluate_mle(&self, point: &[Scalar]) -> (r: Scalar)
        requires
            point@.len() < usize::BITS,
        ensures
            r.value() == mle_value(SubtableId::GradientBoost, point@),
    {
        evaluate_table(SubtableId::GradientBoost, point)
    }
}

/// A table whose entry is 1 when the left field of the index is below the right one,
/// and 0 otherwise.
#[derive(Clone, Copy, Debug, Default, PartialEq, Eq)]
pub struct LtuSubtable;

impl LtuSubtable {
    pub fn new() -> (r: LtuSubtable)
        ensures
            r == LtuSubtable,
    {
        LtuSubtable
    }

    pub fn subtable_id(&self) -> (r: SubtableId)
        ensures
            r == SubtableId::LessThan,
    {
        SubtableId::LessThan
    }

    /// The table with `m` entries.
    pub fn materialize(&self, m: usize) -> (r: Vec<u32>)
        ensures
            r@.len() == m,
            forall|i: int|
                0 <= i < m ==> #[trigger] r@[i] as nat == table_entry(
                    SubtableId::LessThan,
                    m as nat,
                    i as nat,
                ),
    {
        materialize_table(SubtableId::LessThan, m)
    }

    /// The extension at `point`, read as for the decision-tree table.
    pub fn evaluate_mle(&self, point: &[Scalar]) -> (r: Scalar)
        requires
            point@.len() < usize::BITS,
        ensures
            r.value() == mle_value(SubtableId::LessThan, point@),
    {
        evaluate_table(SubtableId::LessThan, point)
    }
}

/// A table whose entry is the right field of the index.
#[derive(Clone, Copy, Debug, Default, PartialEq, Eq)]
pub struct IdentitySubtable;

impl IdentitySubtable {
    pub fn new() -> (r: IdentitySubtable)
        ensures
            r == IdentitySubtable,
    {
        IdentitySubtable
    }

    pub fn subtable_id(&self) -> (r: SubtableId)
        ensures
            r == SubtableId::Identity,
    {
        SubtableId::Identity
    }

    /// The table with `m` entries.
    pub fn materialize(&self, m: usize) -> (r: Vec<u32>)
        ensures
            r@.len() == m,
            forall|i: int|
                0 <= i < m ==> #[trigger] r@[i] as nat == table_entry(
                    SubtableId::Identity,
                    m as nat,
                    i as nat,
                ),
    {
        materialize_table(SubtableId::Identity, m)
    }

    /// The extension at `point`, read as for the decision-tree table.
    pub fn evaluate_mle(&self, point: &[Scalar]) -> (r: Scalar)
        requires
            point@.len() < usize::BITS,
        ensures
            r.value() == mle_value(SubtableId::Identity, point@),
    {
        evaluate_table(SubtableId::Identity, point)
    }
}

/// A table whose entry is 1 when the first split holds of the left field (an operand)
/// and the right field (an advice value), and 0 otherwise.
#[derive(Clone, Copy, Debug, Default, PartialEq, Eq)]
pub struct FirstSplitSubtable;

impl FirstSplitSubtable {
    pub fn new() -> (r: FirstSplitSubtable)
        ensures
            r == FirstSplitSubtable,
    {
        FirstSplitSubtable
    }

    pub fn subtable_id(&self) -> (r: SubtableId)
        ensures
            r == SubtableId::FirstSplit,
    {
        SubtableId::FirstSplit
    }

    /// The table with `m` entries.
    pub fn materialize(&self, m: usize) -> (r: Vec<u32>)
        ensures
            r@.len() == m,
            forall|i: int|
                0 <= i < m ==> #[trigger] r@[i] as nat == table_entry(
                    SubtableId::FirstSplit,
                    m as nat,
                    i as nat,
                ),
    {
        materialize_table(SubtableId::FirstSplit, m)
    }

    /// The extension at `point`, read as for the decision-tree table.
    pub fn evaluate_mle(&self, point: &[Scalar]) -> (r: Scalar)
        requires
            point@.len() < usize::BITS,
        ensures
            r.value() == mle_value(SubtableId::FirstSplit, point@),
    {
        evaluate_table(SubtableId::FirstSplit, point)
    }
}

/// A table whose entry is 1 when the lower second split holds of the left field (an
/// operand) and the right field (an advice value), and 0 otherwise.
#[derive(Clone, Copy, Debug, Default, PartialEq, Eq)]
pub struct LowerSplitSubtable;

impl LowerSplitSubtable {
    pub fn new() -> (r: LowerSplitSubtable)
        ensures
            r == LowerSplitSubtable,
    {
        LowerSplitSubtable
    }

    pub fn subtable_id(&self) -> (r: SubtableId)
        ensures
            r == SubtableId::LowerSplit,
    {
        SubtableId::LowerSplit
    }

    /// The table with `m` entries.
    pub fn materialize(&self, m: usize) -> (r: Vec<u32>)
        ensures
            r@.len() == m,
            forall|i: int|
                0 <= i < m ==> #[trigger] r@[i] as nat == table_entry(
                    SubtableId::LowerSplit,
                    m as nat,
                    i as nat,
                ),
    {
        materialize_table(SubtableId::LowerSplit, m)
    }

    /// The extension at `point`, read as for the decision-tree table.
    pub fn evaluate_mle(&self, point: &[Scalar]) -> (r: Scalar)
        requires
            point@.len() < usize::BITS,
        ensures
            r.value() == mle_value(SubtableId::LowerSplit, point@),
    {
        evaluate_table(SubtableId::LowerSplit, point)
    }
}

/// A table whose entry is 1 when the upper second split holds of the left field (an
/// operand) and the right field (an advice value), and 0 otherwise.
#[derive(Clone, Copy, Debug, Default, PartialEq, Eq)]
pub struct UpperSplitSubtable;

impl UpperSplitSubtable {
    pub fn new() -> (r: UpperSplitSubtable)
        ensures
            r == UpperSplitSubtable,
    {
        UpperSplitSubtable
    }

    pub fn subtable_id(&self) -> (r: SubtableId)
        ensures
            r == SubtableId::UpperSplit,
    {
        SubtableId::UpperSplit
    }

    /// The table with `m` entries.
    pub fn materialize(&self, m: usize) -> (r: Vec<u32>)
        ensures
            r@.len() == m,
            forall|i: int|
                0 <= i < m ==> #[trigger] r@[i] as nat == table_entry(
                    SubtableId::UpperSplit,
                    m as nat,
                    i as nat,
                ),
    {
        materialize_table(SubtableId::UpperSplit, m)
    }

    /// The extension at `point`, read as for the decision-tree table.
    pub fn evaluate_mle(&self, point: &[Scalar]) -> (r: Scalar)
        requires
            point@.len() < usize::BITS,
        ensures
            r.value() == mle_value(SubtableId::UpperSplit, point@),
    {
        evaluate_table(SubtableId::UpperSplit, point)
    }
}

} // verus!
