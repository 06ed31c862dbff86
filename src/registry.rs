//! The closed catalogs of a VM configuration: the instructions it decomposes and the
//! subtables they consult, each member with a stable, dense, zero-based discriminant.

use crate::field::{modulus, Scalar};
use crate::instruction::{
    fits_fields, in_domain, thresholds_fit, GBDTInstruction, GradientBoostInstruction,
};
use crate::poly::{poly_degree, poly_eval, scalar_values};
use crate::subtable::{
    mle_value, table_entry, FirstSplitSubtable, GradientBoostSubtable, IdentitySubtable,
    LowerSplitSubtable, LtuSubtable, SubtableId, UpperSplitSubtable,
};
use crate::tree::tree;
use crate::virtual_instruction::{
    single_coefficients, ADVICEInstruction, AssertFirstSplitInstruction,
    AssertLowerSplitInstruction, AssertUpperSplitInstruction, MOVEInstruction,
};
use rand::rngs::StdRng;
use vstd::prelude::*;

verus! {

/// The number of index slots of an instruction.
pub const C: usize = 4;

/// The base-two logarithm of the number of entries of a subtable.
pub const LOG_M: usize = 16;

/// The number of entries of a subtable.
pub const M: usize = 65536;

/// The subtable catalog, in discriminant order.
pub open spec fn subtable_catalog() -> Seq<SubtableId> {
    seq![
            SubtableId::GradientBoost,
            SubtableId::LessThan,
            SubtableId::Identity,
            SubtableId::FirstSplit,
            SubtableId::LowerSplit,
            SubtableId::UpperSplit,
    ]
}

/// How many times `id` appears in `s`.
pub open spec fn count_of(s: Seq<SubtableId>, id: SubtableId) -> nat {
    s.filter(|e: SubtableId| e == id).len()
}

/// How many times `id` appears in the subtable catalog.
pub open spec fn catalog_count(id: SubtableId) -> nat {
    count_of(subtable_catalog(), id)
}

/// The subtables that the instructions of the instruction set consult.
pub open spec fn used_subtable_ids() -> Set<SubtableId> {
    Set::new(|id: SubtableId| exists|i: InstructionSet| #[trigger] i.subtable_ids().contains(id))
}

/// The subtables of the catalog.
#[derive(Clone, Copy, Debug, PartialEq, Eq)]
pub enum SubtableSet {
    GradientBoost(GradientBoostSubtable),
    LessThan(LtuSubtable),
    Identity(IdentitySubtable),
    FirstSplit(FirstSplitSubtable),
    LowerSplit(LowerSplitSubtable),
    UpperSplit(UpperSplitSubtable),
}

impl SubtableSet {
    /// The number of subtables in the catalog.
    pub const COUNT: usize = 6;

    /// The catalog position of the subtable.
    pub fn discriminant(&self) -> (r: usize)
        ensures
            r < Self::COUNT,
            subtable_catalog()[r as int] == self.spec_id(),
    {
        match self {
            SubtableSet::GradientBoost(_) => 0,
            SubtableSet::LessThan(_) => 1,
            SubtableSet::Identity(_) => 2,
            SubtableSet::FirstSplit(_) => 3,
            SubtableSet::LowerSplit(_) => 4,
            SubtableSet::UpperSplit(_) => 5,
        }
    }

    /// The members of the catalog, in discriminant order.
    pub fn members() -> (r: Vec<SubtableSet>)
        ensures
            r@.len() == Self::COUNT,
            forall|k: int| 0 <= k < r@.len() ==> #[trigger] r@[k].spec_id() == subtable_catalog()[k],
    {
        vec![
            SubtableSet::GradientBoost(GradientBoostSubtable::new()),
            SubtableSet::LessThan(LtuSubtable::new()),
            SubtableSet::Identity(IdentitySubtable::new()),
            SubtableSet::FirstSplit(FirstSplitSubtable::new()),
            SubtableSet::LowerSplit(LowerSplitSubtable::new()),
            SubtableSet::UpperSplit(UpperSplitSubtable::new()),
        ]
    }

    /// The catalog member for a subtable identity.
    pub fn from_id(id: SubtableId) -> (r: SubtableSet)
        ensures
            r.spec_id() == id,
    {
        match id {
            SubtableId::GradientBoost => SubtableSet::GradientBoost(GradientBoostSubtable::new()),
            SubtableId::LessThan => SubtableSet::LessThan(LtuSubtable::new()),
            SubtableId::Identity => SubtableSet::Identity(IdentitySubtable::new()),
            SubtableId::FirstSplit => SubtableSet::FirstSplit(FirstSplitSubtable::new()),
            SubtableId::LowerSplit => SubtableSet::LowerSplit(LowerSplitSubtable::new()),
            SubtableId::UpperSplit => SubtableSet::UpperSplit(UpperSplitSubtable::new()),
        }
    }

    pub open spec fn spec_id(self) -> SubtableId {
        match self {
            SubtableSet::GradientBoost(_) => SubtableId::GradientBoost,
            SubtableSet::LessThan(_) => SubtableId::LessThan,
            SubtableSet::Identity(_) => SubtableId::Identity,
            SubtableSet::FirstSplit(_) => SubtableId::FirstSplit,
            SubtableSet::LowerSplit(_) => SubtableId::LowerSplit,
            SubtableSet::UpperSplit(_) => SubtableId::UpperSplit,
        }
    }

    pub fn subtable_id(&self) -> (r: SubtableId)
        ensures
            r == self.spec_id(),
    {
        match self {
            SubtableSet::GradientBoost(t) => t.subtable_id(),
            SubtableSet::LessThan(t) => t.subtable_id(),
            SubtableSet::Identity(t) => t.subtable_id(),
            SubtableSet::FirstSplit(t) => t.subtable_id(),
            SubtableSet::LowerSplit(t) => t.subtable_id(),
            SubtableSet::UpperSplit(t) => t.subtable_id(),
        }
    }

    /// The table with `m` entries.
    pub fn materialize(&self, m: usize) -> (r: Vec<u32>)
        ensures
            r@.len() == m,
            forall|i: int|
                0 <= i < m ==> #[trigger] r@[i] as nat == table_entry(
                    self.spec_id(),
                    m as nat,
                    i as nat,
                ),
    {
        match self {
            SubtableSet::GradientBoost(t) => t.materialize(m),
            SubtableSet::LessThan(t) => t.materialize(m),
            SubtableSet::Identity(t) => t.materialize(m),
            SubtableSet::FirstSplit(t) => t.materialize(m),
            SubtableSet::LowerSplit(t) => t.materialize(m),
            SubtableSet::UpperSplit(t) => t.materialize(m),
        }
    }

    /// The extension at `point`.
    pub fn evaluate_mle(&self, point: &[Scalar]) -> (r: Scalar)
        requires
            point@.len() < usize::BITS,
        ensures
            r.value() == mle_value(self.spec_id(), point@),
    {
        match self {
            SubtableSet::GradientBoost(t) => t.evaluate_mle(point),
            SubtableSet::LessThan(t) => t.evaluate_mle(point),
            SubtableSet::Identity(t) => t.evaluate_mle(point),
            SubtableSet::FirstSplit(t) => t.evaluate_mle(point),
            SubtableSet::LowerSplit(t) => t.evaluate_mle(point),
            SubtableSet::UpperSplit(t) => t.evaluate_mle(point),
        }
    }
}

/// The instructions of the VM, each holding its operands.
#[derive(Clone, Copy, Debug, PartialEq, Eq)]
pub enum InstructionSet {
    GradientBoost(GradientBoostInstruction),
    Gbdt(GBDTInstruction),
    Advice(ADVICEInstruction),
    Move(MOVEInstruction),
    AssertFirstSplit(AssertFirstSplitInstruction),
    AssertLowerSplit(AssertLowerSplitInstruction),
    AssertUpperSplit(AssertUpperSplitInstruction),
}

impl InstructionSet {
    /// The number of instructions in the set.
    pub const COUNT: usize = 7;

    /// The identities of the subtables that the instruction consults, in the order that
    /// `subtables` lists them.
    pub open spec fn subtable_ids(self) -> Seq<SubtableId> {
        match self {
            InstructionSet::GradientBoost(_) => seq![SubtableId::GradientBoost],
            InstructionSet::Gbdt(_) => seq![SubtableId::LessThan],
            InstructionSet::Advice(_) => seq![SubtableId::Identity],
            InstructionSet::Move(_) => seq![SubtableId::Identity],
            InstructionSet::AssertFirstSplit(_) => seq![SubtableId::FirstSplit],
            InstructionSet::AssertLowerSplit(_) => seq![SubtableId::LowerSplit],
            InstructionSet::AssertUpperSplit(_) => seq![SubtableId::UpperSplit],
        }
    }

    /// The slots at which each consulted subtable is looked up, in the order that
    /// `subtables` lists them.
    pub open spec fn subtable_slots(self) -> Seq<Seq<usize>> {
        match self {
            InstructionSet::Gbdt(_) => seq![seq![0usize, 1, 2]],
            _ => seq![seq![0usize]],
        }
    }

    /// The index in each of the `c` slots for a layout of `2^log_m` entries.
    pub open spec fn spec_indices(self, c: nat, log_m: nat) -> Seq<nat> {
        match self {
            InstructionSet::GradientBoost(i) => i.spec_indices(c, log_m),
            InstructionSet::Gbdt(i) => i.spec_indices(c, log_m),
            InstructionSet::Advice(i) => i.spec_indices(c, log_m),
            InstructionSet::Move(i) => i.spec_indices(c, log_m),
            InstructionSet::AssertFirstSplit(i) => i.spec_indices(c, log_m),
            InstructionSet::AssertLowerSplit(i) => i.spec_indices(c, log_m),
            InstructionSet::AssertUpperSplit(i) => i.spec_indices(c, log_m),
        }
    }

    /// The number of values the instruction looks up.
    pub open spec fn num_lookups(self) -> nat {
        match self {
            InstructionSet::GradientBoost(_) => 1,
            InstructionSet::Gbdt(_) => 3,
            InstructionSet::Advice(_) => 1,
            InstructionSet::Move(_) => 1,
            InstructionSet::AssertFirstSplit(_) => 1,
            InstructionSet::AssertLowerSplit(_) => 1,
            InstructionSet::AssertUpperSplit(_) => 1,
        }
    }

    /// The two fields that the instruction's lookups read.
    pub open spec fn spec_operands(self) -> (u64, u64) {
        match self {
            InstructionSet::GradientBoost(i) => (i.0, i.1),
            InstructionSet::Gbdt(i) => (i.0, i.1),
            InstructionSet::Advice(i) => i.spec_operands(),
            InstructionSet::Move(i) => i.spec_operands(),
            InstructionSet::AssertFirstSplit(i) => i.spec_operands(),
            InstructionSet::AssertLowerSplit(i) => i.spec_operands(),
            InstructionSet::AssertUpperSplit(i) => i.spec_operands(),
        }
    }

    /// The instruction's output.
    pub open spec fn spec_lookup_entry(self) -> nat {
        match self {
            InstructionSet::GradientBoost(i) => tree(i.0 as int, i.1 as int),
            InstructionSet::Gbdt(i) => tree(i.0 as int, i.1 as int),
            InstructionSet::Advice(i) => i.spec_lookup_entry(),
            InstructionSet::Move(i) => i.spec_lookup_entry(),
            InstructionSet::AssertFirstSplit(i) => i.spec_lookup_entry(),
            InstructionSet::AssertLowerSplit(i) => i.spec_lookup_entry(),
            InstructionSet::AssertUpperSplit(i) => i.spec_lookup_entry(),
        }
    }

    /// The coefficient table of the instruction's combination polynomial.
    pub open spec fn coefficients(self) -> Seq<int> {
        match self {
            InstructionSet::GradientBoost(_) => GradientBoostInstruction::coefficients(),
            InstructionSet::Gbdt(_) => GBDTInstruction::coefficients(),
            InstructionSet::Advice(_) => single_coefficients(),
            InstructionSet::Move(_) => single_coefficients(),
            InstructionSet::AssertFirstSplit(_) => single_coefficients(),
            InstructionSet::AssertLowerSplit(_) => single_coefficients(),
            InstructionSet::AssertUpperSplit(_) => single_coefficients(),
        }
    }

    /// The instruction's looked-up values for a layout of `2^log_m` entries.
    pub open spec fn lookup_values(self, log_m: nat) -> Seq<int> {
        match self {
            InstructionSet::GradientBoost(i) => i.lookup_values(log_m),
            InstructionSet::Gbdt(i) => i.lookup_values(log_m),
            InstructionSet::Advice(i) => i.lookup_values(log_m),
            InstructionSet::Move(i) => i.lookup_values(log_m),
            InstructionSet::AssertFirstSplit(i) => i.lookup_values(log_m),
            InstructionSet::AssertLowerSplit(i) => i.lookup_values(log_m),
            InstructionSet::AssertUpperSplit(i) => i.lookup_values(log_m),
        }
    }

    /// The instruction's position in the set.
    pub fn discriminant(&self) -> (r: usize)
        ensures
            r < Self::COUNT,
            r == 0 <==> self is GradientBoost,
            r == 1 <==> self is Gbdt,
            r == 2 <==> self is Advice,
            r == 3 <==> self is Move,
            r == 4 <==> self is AssertFirstSplit,
            r == 5 <==> self is AssertLowerSplit,
            r == 6 <==> self is AssertUpperSplit,
    {
        match self {
            InstructionSet::GradientBoost(_) => 0,
            InstructionSet::Gbdt(_) => 1,
            InstructionSet::Advice(_) => 2,
            InstructionSet::Move(_) => 3,
            InstructionSet::AssertFirstSplit(_) => 4,
            InstructionSet::AssertLowerSplit(_) => 5,
            InstructionSet::AssertUpperSplit(_) => 6,
        }
    }

    /// One instance of each instruction, in discriminant order, with zero operands.
    pub open spec fn spec_members() -> Seq<InstructionSet> {
        seq![
            InstructionSet::GradientBoost(GradientBoostInstruction(0, 0)),
            InstructionSet::Gbdt(GBDTInstruction(0, 0)),
            InstructionSet::Advice(ADVICEInstruction(0)),
            InstructionSet::Move(MOVEInstruction(0)),
            InstructionSet::AssertFirstSplit(AssertFirstSplitInstruction(0, 0)),
            InstructionSet::AssertLowerSplit(AssertLowerSplitInstruction(0, 0)),
            InstructionSet::AssertUpperSplit(AssertUpperSplitInstruction(0, 0)),
        ]
    }

    /// One instance of each instruction, in discriminant order, with zero operands.
    pub fn members() -> (r: Vec<InstructionSet>)
        ensures
            r@ == Self::spec_members(),
            r@.len() == Self::COUNT,
    {
        vec![
            InstructionSet::GradientBoost(GradientBoostInstruction(0, 0)),
            InstructionSet::Gbdt(GBDTInstruction(0, 0)),
            InstructionSet::Advice(ADVICEInstruction(0)),
            InstructionSet::Move(MOVEInstruction(0)),
            InstructionSet::AssertFirstSplit(AssertFirstSplitInstruction(0, 0)),
            InstructionSet::AssertLowerSplit(AssertLowerSplitInstruction(0, 0)),
            InstructionSet::AssertUpperSplit(AssertUpperSplitInstruction(0, 0)),
        ]
    }

    /// The instruction at position `selector % COUNT`, with operands the low bytes of two
    /// random words; the advice and move instructions take the second.
    pub fn from_random_words(selector: u64, a: u64, b: u64) -> (r: InstructionSet)
        ensures
            (selector % 7 == 0) == (r is GradientBoost),
            (selector % 7 == 1) == (r is Gbdt),
            (selector % 7 == 2) == (r is Advice),
            (selector % 7 == 3) == (r is Move),
            (selector % 7 == 4) == (r is AssertFirstSplit),
            (selector % 7 == 5) == (r is AssertLowerSplit),
            (selector % 7 == 6) == (r is AssertUpperSplit),
            (r is Advice || r is Move) ==> r.spec_operands() == (0u64, b % 256),
            !(r is Advice || r is Move) ==> r.spec_operands() == (a % 256, b % 256),
    {
        let k = selector % 7;
        if k == 0 {
            InstructionSet::GradientBoost(GradientBoostInstruction::from_random_words(a, b))
        } else if k == 1 {
            InstructionSet::Gbdt(GBDTInstruction::from_random_words(a, b))
        } else if k == 2 {
            InstructionSet::Advice(ADVICEInstruction(b % 256))
        } else if k == 3 {
            InstructionSet::Move(MOVEInstruction(b % 256))
        } else if k == 4 {
            InstructionSet::AssertFirstSplit(AssertFirstSplitInstruction(a % 256, b % 256))
        } else if k == 5 {
            InstructionSet::AssertLowerSplit(AssertLowerSplitInstruction(a % 256, b % 256))
        } else {
            InstructionSet::AssertUpperSplit(AssertUpperSplitInstruction(a % 256, b % 256))
        }
    }

    /// A random instruction of the set, with byte operands.
    pub fn random_instruction(rng: &mut StdRng) -> (r: InstructionSet)
        ensures
            in_domain(r.spec_operands().0, r.spec_operands().1),
    {
        let selector = crate::instruction::next_word(rng);
        let a = crate::instruction::next_word(rng);
        let b = crate::instruction::next_word(rng);
        Self::from_random_words(selector, a, b)
    }

    pub fn operands(&self) -> (r: (u64, u64))
        ensures
            r == self.spec_operands(),
    {
        match self {
            InstructionSet::GradientBoost(i) => i.operands(),
            InstructionSet::Gbdt(i) => i.operands(),
            InstructionSet::Advice(i) => i.operands(),
            InstructionSet::Move(i) => i.operands(),
            InstructionSet::AssertFirstSplit(i) => i.operands(),
            InstructionSet::AssertLowerSplit(i) => i.operands(),
            InstructionSet::AssertUpperSplit(i) => i.operands(),
        }
    }

    pub fn to_indices(&self, c: usize, log_m: usize) -> (r: Vec<usize>)
        requires
            c >= 3,
            log_m < usize::BITS,
        ensures
            r@.len() == c,
            forall|i: int|
                0 <= i < c ==> #[trigger] r@[i] as nat == self.spec_indices(c as nat, log_m as nat)[i]
                    && (r@[i] as nat) < vstd::arithmetic::power2::pow2(log_m as nat),
    {
        match self {
            InstructionSet::GradientBoost(i) => i.to_indices(c, log_m),
            InstructionSet::Gbdt(i) => i.to_indices(c, log_m),
            InstructionSet::Advice(i) => i.to_indices(c, log_m),
            InstructionSet::Move(i) => i.to_indices(c, log_m),
            InstructionSet::AssertFirstSplit(i) => i.to_indices(c, log_m),
            InstructionSet::AssertLowerSplit(i) => i.to_indices(c, log_m),
            InstructionSet::AssertUpperSplit(i) => i.to_indices(c, log_m),
        }
    }

    pub fn subtables(&self, c: usize, m: usize) -> (r: Vec<(SubtableId, Vec<usize>)>)
        requires
            c >= 3,
        ensures
            r@.len() == self.subtable_ids().len(),
            forall|k: int|
                0 <= k < r@.len() ==> #[trigger] r@[k].0 == self.subtable_ids()[k] && r@[k].1@
                    == self.subtable_slots()[k],
    {
        match self {
            InstructionSet::GradientBoost(i) => i.subtables(c, m),
            InstructionSet::Gbdt(i) => i.subtables(c, m),
            InstructionSet::Advice(i) => i.subtables(c, m),
            InstructionSet::Move(i) => i.subtables(c, m),
            InstructionSet::AssertFirstSplit(i) => i.subtables(c, m),
            InstructionSet::AssertLowerSplit(i) => i.subtables(c, m),
            InstructionSet::AssertUpperSplit(i) => i.subtables(c, m),
        }
    }

    pub fn combine_lookups(&self, vals: &[Scalar], c: usize, m: usize) -> (r: Scalar)
        requires
            vals@.len() == self.num_lookups(),
        ensures
            r.value() == poly_eval(self.coefficients(), scalar_values(vals@)) % (modulus() as int),
    {
        match self {
            InstructionSet::GradientBoost(i) => i.combine_lookups(vals, c, m),
            InstructionSet::Gbdt(i) => i.combine_lookups(vals, c, m),
            InstructionSet::Advice(i) => i.combine_lookups(vals, c, m),
            InstructionSet::Move(i) => i.combine_lookups(vals, c, m),
            InstructionSet::AssertFirstSplit(i) => i.combine_lookups(vals, c, m),
            InstructionSet::AssertLowerSplit(i) => i.combine_lookups(vals, c, m),
            InstructionSet::AssertUpperSplit(i) => i.combine_lookups(vals, c, m),
        }
    }

    pub fn g_poly_degree(&self, c: usize) -> (r: usize)
        ensures
            r as nat == poly_degree(self.coefficients()),
    {
        match self {
            InstructionSet::GradientBoost(i) => i.g_poly_degree(c),
            InstructionSet::Gbdt(i) => i.g_poly_degree(c),
            InstructionSet::Advice(i) => i.g_poly_degree(c),
            InstructionSet::Move(i) => i.g_poly_degree(c),
            InstructionSet::AssertFirstSplit(i) => i.g_poly_degree(c),
            InstructionSet::AssertLowerSplit(i) => i.g_poly_degree(c),
            InstructionSet::AssertUpperSplit(i) => i.g_poly_degree(c),
        }
    }

    pub fn lookup_entry(&self) -> (r: u64)
        ensures
            r as nat == self.spec_lookup_entry(),
    {
        match self {
            InstructionSet::GradientBoost(i) => i.lookup_entry(),
            InstructionSet::Gbdt(i) => i.lookup_entry(),
            InstructionSet::Advice(i) => i.lookup_entry(),
            InstructionSet::Move(i) => i.lookup_entry(),
            InstructionSet::AssertFirstSplit(i) => i.lookup_entry(),
            InstructionSet::AssertLowerSplit(i) => i.lookup_entry(),
            InstructionSet::AssertUpperSplit(i) => i.lookup_entry(),
        }
    }

    pub fn evaluate_lookups(&self, c: usize, log_m: usize) -> (r: Scalar)
        requires
            c >= 3,
            log_m < usize::BITS,
        ensures
            r.value() == poly_eval(self.coefficients(), self.lookup_values(log_m as nat)) % (
            modulus() as int),
            fits_fields(self.spec_operands().0, self.spec_operands().1, log_m as nat) && (self is Gbdt
                ==> thresholds_fit(log_m as nat)) ==> r.value() == self.spec_lookup_entry(),
    {
        match self {
            InstructionSet::GradientBoost(i) => i.evaluate_lookups(c, log_m),
            InstructionSet::Gbdt(i) => i.evaluate_lookups(c, log_m),
            InstructionSet::Advice(i) => i.evaluate_lookups(c, log_m),
            InstructionSet::Move(i) => i.evaluate_lookups(c, log_m),
            InstructionSet::AssertFirstSplit(i) => i.evaluate_lookups(c, log_m),
            InstructionSet::AssertLowerSplit(i) => i.evaluate_lookups(c, log_m),
            InstructionSet::AssertUpperSplit(i) => i.evaluate_lookups(c, log_m),
        }
    }
}

impl Default for InstructionSet {
    /// The first instruction of the set, with operands `(0, 0)`.
    fn default() -> (r: InstructionSet)
        ensures
            r == InstructionSet::GradientBoost(GradientBoostInstruction(0, 0)),
    {
        InstructionSet::GradientBoost(GradientBoostInstruction(0, 0))
    }
}

/// Completeness and uniqueness of the subtable catalog: every subtable that an
/// instruction of the set consults appears in the catalog exactly once, and the catalog
/// holds exactly the subtables that are consulted, as many as there are distinct ones.
pub proof fn lemma_catalog_complete(i: InstructionSet, id: SubtableId)
    ensures
        i.subtable_ids().contains(id) ==> catalog_count(id) == 1,
        subtable_catalog().no_duplicates(),
        subtable_catalog().to_set() == used_subtable_ids(),
        subtable_catalog().len() == used_subtable_ids().len(),
{
    let cat = subtable_catalog();
    assert(cat.no_duplicates());
    let members = InstructionSet::spec_members();
    assert forall|e: SubtableId| used_subtable_ids().contains(e) implies cat.to_set().contains(e) by {
        match e {
            SubtableId::GradientBoost => assert(cat[0] == e),
            SubtableId::LessThan => assert(cat[1] == e),
            SubtableId::Identity => assert(cat[2] == e),
            SubtableId::FirstSplit => assert(cat[3] == e),
            SubtableId::LowerSplit => assert(cat[4] == e),
            SubtableId::UpperSplit => assert(cat[5] == e),
        }
    }
    assert forall|e: SubtableId| cat.to_set().contains(e) implies used_subtable_ids().contains(e) by {
        match e {
            SubtableId::GradientBoost => {
                assert(members[0].subtable_ids()[0] == e);
                assert(members[0].subtable_ids().contains(e));
            },
            SubtableId::LessThan => {
                assert(members[1].subtable_ids()[0] == e);
                assert(members[1].subtable_ids().contains(e));
            },
            SubtableId::Identity => {
                assert(members[2].subtable_ids()[0] == e);
                assert(members[2].subtable_ids().contains(e));
            },
            SubtableId::FirstSplit => {
                assert(members[4].subtable_ids()[0] == e);
                assert(members[4].subtable_ids().contains(e));
            },
            SubtableId::LowerSplit => {
                assert(members[5].subtable_ids()[0] == e);
                assert(members[5].subtable_ids().contains(e));
            },
            SubtableId::UpperSplit => {
                assert(members[6].subtable_ids()[0] == e);
                assert(members[6].subtable_ids().contains(e));
            },
        }
    }
    assert(cat.to_set() =~= used_subtable_ids());
    cat.unique_seq_to_set();
    lemma_filter_count(cat, id);
    if i.subtable_ids().contains(id) {
        assert(used_subtable_ids().contains(id));
        assert(cat.to_set().contains(id));
    }
}

/// In a sequence without duplicates that holds `id`, exactly one element equals `id`.
proof fn lemma_filter_count(s: Seq<SubtableId>, id: SubtableId)
    requires
        s.no_duplicates(),
    ensures
        s.contains(id) ==> count_of(s, id) == 1,
        !s.contains(id) ==> count_of(s, id) == 0,
    decreases s.len(),
{
    reveal(Seq::filter);
    if s.len() > 0 {
        let t = s.drop_last();
        assert(t.no_duplicates());
        lemma_filter_count(t, id);
        if s.last() == id {
            assert(!t.contains(id));
        } else {
            assert(s.contains(id) ==> t.contains(id)) by {
                if s.contains(id) {
                    let k = choose|k: int| 0 <= k < s.len() && s[k] == id;
                    assert(t[k] == id);
                }
            }
            assert(t.contains(id) ==> s.contains(id)) by {
                if t.contains(id) {
                    let k = choose|k: int| 0 <= k < t.len() && t[k] == id;
                    assert(s[k] == id);
                }
            }
        }
    }
}

/// The VM configuration: the instruction set, the subtable catalog, `C` index slots and
/// subtables of `M = 2^LOG_M` entries.
#[derive(Clone, Copy, Debug, PartialEq, Eq)]
pub struct RV32IJoltVM;

impl RV32IJoltVM {
    /// One instance of each instruction of the VM, in discriminant order.
    pub fn instruction_set() -> (r: Vec<InstructionSet>)
        ensures
            r@ == InstructionSet::spec_members(),
    {
        InstructionSet::members()
    }

    /// The subtable catalog of the VM, in discriminant order.
    pub fn subtables() -> (r: Vec<SubtableSet>)
        ensures
            r@.len() == SubtableSet::COUNT,
            forall|k: int| 0 <= k < r@.len() ==> #[trigger] r@[k].spec_id() == subtable_catalog()[k],
    {
        SubtableSet::members()
    }
}

} // verus!
