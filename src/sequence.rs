//! Virtual instruction sequences: one trace row of a decision-tree instruction expanded
//! into primitive rows. The first row writes the tree's output as untrusted advice into a
//! virtual register, the last moves it into the destination register, and three
//! assertion rows in between tie the advice to the three threshold comparisons.

use crate::instruction::{GBDTInstruction, GradientBoostInstruction};
use crate::registry::{catalog_count, lemma_catalog_complete, InstructionSet};
use crate::virtual_instruction::{
    ADVICEInstruction, AssertFirstSplitInstruction, AssertLowerSplitInstruction,
    AssertUpperSplitInstruction, MOVEInstruction,
};
use crate::tree::{
    check_first_split, check_lower_split, check_upper_split, first_split_holds, lower_split_holds,
    tree, upper_split_holds,
};
use vstd::prelude::*;

verus! {

/// The number of architectural registers; virtual registers are numbered after them.
pub const RISCV_REGISTER_COUNT: u64 = 32;

/// The number of the virtual register `index`.
pub fn virtual_register_index(index: u64) -> (r: u64)
    requires
        index + RISCV_REGISTER_COUNT <= u64::MAX,
    ensures
        r == index + RISCV_REGISTER_COUNT,
{
    index + RISCV_REGISTER_COUNT
}

/// The operation of a trace row.
#[derive(Clone, Copy, Debug, PartialEq, Eq, Structural)]
pub enum Opcode {
    /// The decision tree, served by the three less-than lookups.
    Gbdt,
    /// The decision tree, served by one lookup into the decision-tree table.
    GbdtInfer,
    /// Writes the row's advice value to its destination register.
    VirtualAdvice,
    /// Copies its source register to its destination register.
    VirtualMove,
    /// Asserts that the advice (second source) is a leaf, and one of the two leaves
    /// below the first split exactly when the first source is below `T1`.
    VirtualAssertFirstSplit,
    /// Asserts that when the advice (second source) is one of the two lower leaves, it
    /// is the first of them exactly when the first source is below `T2`.
    VirtualAssertLowerSplit,
    /// Asserts that when the advice (second source) is one of the two upper leaves, it
    /// is the first of them exactly when the first source is below `T3`.
    VirtualAssertUpperSplit,
}

/// The static part of a trace row.
#[derive(Clone, Copy, Debug, PartialEq, Eq)]
pub struct ELFInstruction {
    pub address: u64,
    pub opcode: Opcode,
    pub rs1: Option<u64>,
    pub rs2: Option<u64>,
    pub rd: Option<u64>,
    pub imm: Option<i64>,
    pub virtual_sequence_remaining: Option<usize>,
}

/// The register values of a trace row.
#[derive(Clone, Copy, Debug, PartialEq, Eq)]
pub struct RegisterState {
    pub rs1_val: Option<u64>,
    pub rs2_val: Option<u64>,
    pub rd_post_val: Option<u64>,
}

/// One step of an execution trace.
#[derive(Clone, Copy, Debug, PartialEq, Eq)]
pub struct RVTraceRow {
    pub instruction: ELFInstruction,
    pub register_state: RegisterState,
    pub advice_value: Option<u64>,
}

/// The advice row: writes `a` to the first virtual register.
pub open spec fn advice_row(src: RVTraceRow, a: u64, remaining: usize) -> RVTraceRow {
    RVTraceRow {
        instruction: ELFInstruction {
            address: src.instruction.address,
            opcode: Opcode::VirtualAdvice,
            rs1: None,
            rs2: None,
            rd: Some(RISCV_REGISTER_COUNT),
            imm: None,
            virtual_sequence_remaining: Some(remaining),
        },
        register_state: RegisterState { rs1_val: None, rs2_val: None, rd_post_val: Some(a) },
        advice_value: Some(a),
    }
}

/// An assertion row comparing the source register `rs1`, holding `v`, with the threshold
/// that `opcode` names,
/// and reading the advice `a` from the first virtual register.
pub open spec fn assert_row(
    src: RVTraceRow,
    opcode: Opcode,
    rs1: Option<u64>,
    v: u64,
    a: u64,
    remaining: usize,
) -> RVTraceRow {
    RVTraceRow {
        instruction: ELFInstruction {
            address: src.instruction.address,
            opcode,
            rs1,
            rs2: Some(RISCV_REGISTER_COUNT),
            rd: None,
            imm: None,
            virtual_sequence_remaining: Some(remaining),
        },
        register_state: RegisterState { rs1_val: Some(v), rs2_val: Some(a), rd_post_val: None },
        advice_value: None,
    }
}

/// The move row: copies the first virtual register, holding `a`, to the destination.
pub open spec fn move_row(src: RVTraceRow, a: u64, remaining: usize) -> RVTraceRow {
    RVTraceRow {
        instruction: ELFInstruction {
            address: src.instruction.address,
            opcode: Opcode::VirtualMove,
            rs1: Some(RISCV_REGISTER_COUNT),
            rs2: None,
            rd: src.instruction.rd,
            imm: None,
            virtual_sequence_remaining: Some(remaining),
        },
        register_state: RegisterState { rs1_val: Some(a), rs2_val: None, rd_post_val: Some(a) },
        advice_value: None,
    }
}

/// The expansion of `src`, whose operands are `x` and `y`, with advice `a`.
pub open spec fn bound_expansion(src: RVTraceRow, x: u64, y: u64, a: u64) -> Seq<RVTraceRow> {
    seq![
        advice_row(src, a, 4),
        assert_row(src, Opcode::VirtualAssertFirstSplit, src.instruction.rs1, x, a, 3),
        assert_row(src, Opcode::VirtualAssertLowerSplit, src.instruction.rs2, y, a, 2),
        assert_row(src, Opcode::VirtualAssertUpperSplit, src.instruction.rs2, y, a, 1),
        move_row(src, a, 0),
    ]
}

/// The relation that a row of the given kind must satisfy for the trace to be accepted.
pub open spec fn row_holds(row: RVTraceRow) -> bool {
    let rs = row.register_state;
    match row.instruction.opcode {
        Opcode::Gbdt | Opcode::GbdtInfer => {
            &&& rs.rs1_val is Some
            &&& rs.rs2_val is Some
            &&& rs.rd_post_val == Some(tree(rs.rs1_val->0 as int, rs.rs2_val->0 as int) as u64)
        },
        Opcode::VirtualAdvice => rs.rd_post_val is Some && row.advice_value == rs.rd_post_val,
        Opcode::VirtualMove => rs.rs1_val is Some && rs.rd_post_val == rs.rs1_val,
        Opcode::VirtualAssertFirstSplit => {
            &&& rs.rs1_val is Some
            &&& rs.rs2_val is Some
            &&& first_split_holds(rs.rs1_val->0 as int, rs.rs2_val->0 as int)
        },
        Opcode::VirtualAssertLowerSplit => {
            &&& rs.rs1_val is Some
            &&& rs.rs2_val is Some
            &&& lower_split_holds(rs.rs1_val->0 as int, rs.rs2_val->0 as int)
        },
        Opcode::VirtualAssertUpperSplit => {
            &&& rs.rs1_val is Some
            &&& rs.rs2_val is Some
            &&& upper_split_holds(rs.rs1_val->0 as int, rs.rs2_val->0 as int)
        },
    }
}

/// Every row satisfies its relation.
pub open spec fn all_rows_hold(rows: Seq<RVTraceRow>) -> bool {
    forall|k: int| 0 <= k < rows.len() ==> #[trigger] row_holds(rows[k])
}

/// Whether `row` satisfies the relation of its kind.
pub fn check_row(row: &RVTraceRow) -> (r: bool)
    ensures
        r == row_holds(*row),
{
    let rs = row.register_state;
    match row.instruction.opcode {
        Opcode::Gbdt | Opcode::GbdtInfer => match (rs.rs1_val, rs.rs2_val, rs.rd_post_val) {
            (Some(x), Some(y), Some(v)) => v == GBDTInstruction::inference(x, y),
            _ => false,
        },
        Opcode::VirtualAdvice => match (rs.rd_post_val, row.advice_value) {
            (Some(v), Some(a)) => v == a,
            _ => false,
        },
        Opcode::VirtualMove => match (rs.rs1_val, rs.rd_post_val) {
            (Some(v), Some(w)) => v == w,
            _ => false,
        },
        Opcode::VirtualAssertFirstSplit => match (rs.rs1_val, rs.rs2_val) {
            (Some(x), Some(a)) => check_first_split(x, a),
            _ => false,
        },
        Opcode::VirtualAssertLowerSplit => match (rs.rs1_val, rs.rs2_val) {
            (Some(y), Some(a)) => check_lower_split(y, a),
            _ => false,
        },
        Opcode::VirtualAssertUpperSplit => match (rs.rs1_val, rs.rs2_val) {
            (Some(y), Some(a)) => check_upper_split(y, a),
            _ => false,
        },
    }
}

/// Whether every row of `rows` satisfies the relation of its kind.
pub fn check_rows(rows: &[RVTraceRow]) -> (r: bool)
    ensures
        r == all_rows_hold(rows@),
{
    let mut k: usize = 0;
    while k < rows.len()
        invariant
            k <= rows@.len(),
            forall|j: int| 0 <= j < k ==> #[trigger] row_holds(rows@[j]),
        decreases rows@.len() - k,
    {
        if !check_row(&rows[k]) {
            return false;
        }
        k = k + 1;
    }
    true
}

fn make_advice_row(src: &RVTraceRow, a: u64, remaining: usize) -> (r: RVTraceRow)
    ensures
        r == advice_row(*src, a, remaining),
{
    RVTraceRow {
        instruction: ELFInstruction {
            address: src.instruction.address,
            opcode: Opcode::VirtualAdvice,
            rs1: None,
            rs2: None,
            rd: Some(virtual_register_index(0)),
            imm: None,
            virtual_sequence_remaining: Some(remaining),
        },
        register_state: RegisterState { rs1_val: None, rs2_val: None, rd_post_val: Some(a) },
        advice_value: Some(a),
    }
}

fn make_assert_row(
    src: &RVTraceRow,
    opcode: Opcode,
    rs1: Option<u64>,
    v: u64,
    a: u64,
    remaining: usize,
) -> (r: RVTraceRow)
    ensures
        r == assert_row(*src, opcode, rs1, v, a, remaining),
{
    RVTraceRow {
        instruction: ELFInstruction {
            address: src.instruction.address,
            opcode,
            rs1,
            rs2: Some(virtual_register_index(0)),
            rd: None,
            imm: None,
            virtual_sequence_remaining: Some(remaining),
        },
        register_state: RegisterState { rs1_val: Some(v), rs2_val: Some(a), rd_post_val: None },
        advice_value: None,
    }
}

fn make_move_row(src: &RVTraceRow, a: u64, remaining: usize) -> (r: RVTraceRow)
    ensures
        r == move_row(*src, a, remaining),
{
    RVTraceRow {
        instruction: ELFInstruction {
            address: src.instruction.address,
            opcode: Opcode::VirtualMove,
            rs1: Some(virtual_register_index(0)),
            rs2: None,
            rd: src.instruction.rd,
            imm: None,
            virtual_sequence_remaining: Some(remaining),
        },
        register_state: RegisterState { rs1_val: Some(a), rs2_val: None, rd_post_val: Some(a) },
        advice_value: None,
    }
}

/// Builds the expansion of `trace_row` with `advice`: the advice row, the three
/// assertion rows, and the move row.
fn expand(trace_row: &RVTraceRow, advice: u64) -> (r: Vec<RVTraceRow>)
    requires
        trace_row.register_state.rs1_val is Some,
        trace_row.register_state.rs2_val is Some,
    ensures
        r@ == bound_expansion(
            *trace_row,
            trace_row.register_state.rs1_val->0,
            trace_row.register_state.rs2_val->0,
            advice,
        ),
{
    let x = trace_row.register_state.rs1_val.unwrap();
    let y = trace_row.register_state.rs2_val.unwrap();
    let len: usize = 5;
    let mut rows: Vec<RVTraceRow> = Vec::new();
    rows.push(make_advice_row(trace_row, advice, len - rows.len() - 1));
    rows.push(
        make_assert_row(
            trace_row,
            Opcode::VirtualAssertFirstSplit,
            trace_row.instruction.rs1,
            x,
            advice,
            len - rows.len() - 1,
        ),
    );
    rows.push(
        make_assert_row(
            trace_row,
            Opcode::VirtualAssertLowerSplit,
            trace_row.instruction.rs2,
            y,
            advice,
            len - rows.len() - 1,
        ),
    );
    rows.push(
        make_assert_row(
            trace_row,
            Opcode::VirtualAssertUpperSplit,
            trace_row.instruction.rs2,
            y,
            advice,
            len - rows.len() - 1,
        ),
    );
    rows.push(make_move_row(trace_row, advice, len - rows.len() - 1));
    assert(rows@ =~= bound_expansion(*trace_row, x, y, advice));
    rows
}

impl GBDTInstruction {
    /// The number of rows of the expansion.
    pub const SEQUENCE_LENGTH: usize = 5;

    /// The expansion of `trace_row` with `advice` in place of the tree's output.
    pub fn virtual_trace_with_advice(trace_row: &RVTraceRow, advice: u64) -> (r: Vec<RVTraceRow>)
        requires
            trace_row.register_state.rs1_val is Some,
            trace_row.register_state.rs2_val is Some,
        ensures
            r@ == bound_expansion(
                *trace_row,
                trace_row.register_state.rs1_val->0,
                trace_row.register_state.rs2_val->0,
                advice,
            ),
    {
        expand(trace_row, advice)
    }

    /// The expansion of `trace_row`, with the tree's output of its two source values as
    /// the advice.
    pub fn virtual_trace(trace_row: &RVTraceRow) -> (r: Vec<RVTraceRow>)
        requires
            trace_row.register_state.rs1_val is Some,
            trace_row.register_state.rs2_val is Some,
        ensures
            r@ == bound_expansion(
                *trace_row,
                trace_row.register_state.rs1_val->0,
                trace_row.register_state.rs2_val->0,
                tree(
                    trace_row.register_state.rs1_val->0 as int,
                    trace_row.register_state.rs2_val->0 as int,
                ) as u64,
            ),
    {
        let x = trace_row.register_state.rs1_val.unwrap();
        let y = trace_row.register_state.rs2_val.unwrap();
        let inference = Self::inference(x, y);
        expand(trace_row, inference)
    }

    /// The value the expansion leaves in the destination register.
    pub fn sequence_output(x: u64, y: u64) -> (r: u64)
        ensures
            r == tree(x as int, y as int),
    {
        Self::inference(x, y)
    }
}

impl GradientBoostInstruction {
    /// The number of rows of the expansion.
    pub const SEQUENCE_LENGTH: usize = 5;

    /// The expansion of `trace_row` with `advice` in place of the tree's output.
    pub fn virtual_trace_with_advice(trace_row: &RVTraceRow, advice: u64) -> (r: Vec<RVTraceRow>)
        requires
            trace_row.register_state.rs1_val is Some,
            trace_row.register_state.rs2_val is Some,
        ensures
            r@ == bound_expansion(
                *trace_row,
                trace_row.register_state.rs1_val->0,
                trace_row.register_state.rs2_val->0,
                advice,
            ),
    {
        expand(trace_row, advice)
    }

    /// The expansion of `trace_row`, with the tree's output of its two source values as
    /// the advice.
    pub fn virtual_trace(trace_row: &RVTraceRow) -> (r: Vec<RVTraceRow>)
        requires
            trace_row.register_state.rs1_val is Some,
            trace_row.register_state.rs2_val is Some,
        ensures
            r@ == bound_expansion(
                *trace_row,
                trace_row.register_state.rs1_val->0,
                trace_row.register_state.rs2_val->0,
                tree(
                    trace_row.register_state.rs1_val->0 as int,
                    trace_row.register_state.rs2_val->0 as int,
                ) as u64,
            ),
    {
        let x = trace_row.register_state.rs1_val.unwrap();
        let y = trace_row.register_state.rs2_val.unwrap();
        let inference = Self::inference(x, y);
        expand(trace_row, inference)
    }

    /// The value the expansion leaves in the destination register.
    pub fn sequence_output(x: u64, y: u64) -> (r: u64)
        ensures
            r == tree(x as int, y as int),
    {
        Self::inference(x, y)
    }
}

/// The expansion of a row whose sources hold `x` and `y`, with the tree's output as
/// advice, has `SEQUENCE_LENGTH` rows at the source row's address, none with an
/// immediate, whose remaining-steps counter falls by one to 0 at the last row; every
/// row holds, and the last row leaves the tree's output, the value
/// of `sequence_output(x, y)` and of the lookup instructions' `lookup_entry`, in the
/// source row's destination register.
pub proof fn lemma_sequence_output(src: RVTraceRow, x: u64, y: u64)
    ensures
        ({
            let rows = bound_expansion(src, x, y, tree(x as int, y as int) as u64);
            &&& rows.len() == GBDTInstruction::SEQUENCE_LENGTH
            &&& rows.len() == GradientBoostInstruction::SEQUENCE_LENGTH
            &&& forall|k: int|
                0 <= k < rows.len() ==> #[trigger] rows[k].instruction.virtual_sequence_remaining
                    == Some((rows.len() - k - 1) as usize)
            &&& forall|k: int|
                0 <= k < rows.len() ==> (#[trigger] rows[k]).instruction.imm is None
                    && rows[k].instruction.address == src.instruction.address
            &&& rows.last().instruction.rd == src.instruction.rd
            &&& rows.last().register_state.rd_post_val == Some(tree(x as int, y as int) as u64)
            &&& all_rows_hold(rows)
        }),
{
    lemma_advice_bound(src, x, y, tree(x as int, y as int) as u64);
}

/// The assertion rows bind the advice: every row of the expansion holds exactly when the
/// advice is the tree's output for the two source values.
pub proof fn lemma_advice_bound(src: RVTraceRow, x: u64, y: u64, a: u64)
    ensures
        all_rows_hold(bound_expansion(src, x, y, a)) <==> a == tree(x as int, y as int),
{
    let rows = bound_expansion(src, x, y, a);
    if a == tree(x as int, y as int) {
        assert forall|k: int| 0 <= k < rows.len() implies #[trigger] row_holds(rows[k]) by {}
    }
    if all_rows_hold(rows) {
        assert(row_holds(rows[1]));
        assert(row_holds(rows[2]));
        assert(row_holds(rows[3]));
    }
}

/// A register value, 0 where the row holds none.
pub open spec fn value_or_zero(v: Option<u64>) -> u64 {
    match v {
        Some(x) => x,
        None => 0,
    }
}

/// The instruction of the set that a row executes, with the row's values as operands.
pub open spec fn spec_row_instruction(row: RVTraceRow) -> InstructionSet {
    let rs = row.register_state;
    let v1 = value_or_zero(rs.rs1_val);
    let v2 = value_or_zero(rs.rs2_val);
    match row.instruction.opcode {
        Opcode::Gbdt => InstructionSet::Gbdt(GBDTInstruction(v1, v2)),
        Opcode::GbdtInfer => InstructionSet::GradientBoost(GradientBoostInstruction(v1, v2)),
        Opcode::VirtualAdvice => InstructionSet::Advice(
            ADVICEInstruction(value_or_zero(rs.rd_post_val)),
        ),
        Opcode::VirtualMove => InstructionSet::Move(MOVEInstruction(v1)),
        Opcode::VirtualAssertFirstSplit => InstructionSet::AssertFirstSplit(
            AssertFirstSplitInstruction(v1, v2),
        ),
        Opcode::VirtualAssertLowerSplit => InstructionSet::AssertLowerSplit(
            AssertLowerSplitInstruction(v1, v2),
        ),
        Opcode::VirtualAssertUpperSplit => InstructionSet::AssertUpperSplit(
            AssertUpperSplitInstruction(v1, v2),
        ),
    }
}

fn value_or_zero_exec(v: Option<u64>) -> (r: u64)
    ensures
        r == value_or_zero(v),
{
    match v {
        Some(x) => x,
        None => 0,
    }
}

/// The instruction of the set that `row` executes, with the row's values as operands.
pub fn row_instruction(row: &RVTraceRow) -> (r: InstructionSet)
    ensures
        r == spec_row_instruction(*row),
{
    let rs = row.register_state;
    let v1 = value_or_zero_exec(rs.rs1_val);
    let v2 = value_or_zero_exec(rs.rs2_val);
    match row.instruction.opcode {
        Opcode::Gbdt => InstructionSet::Gbdt(GBDTInstruction(v1, v2)),
        Opcode::GbdtInfer => InstructionSet::GradientBoost(GradientBoostInstruction(v1, v2)),
        Opcode::VirtualAdvice => InstructionSet::Advice(
            ADVICEInstruction(value_or_zero_exec(rs.rd_post_val)),
        ),
        Opcode::VirtualMove => InstructionSet::Move(MOVEInstruction(v1)),
        Opcode::VirtualAssertFirstSplit => InstructionSet::AssertFirstSplit(
            AssertFirstSplitInstruction(v1, v2),
        ),
        Opcode::VirtualAssertLowerSplit => InstructionSet::AssertLowerSplit(
            AssertLowerSplitInstruction(v1, v2),
        ),
        Opcode::VirtualAssertUpperSplit => InstructionSet::AssertUpperSplit(
            AssertUpperSplitInstruction(v1, v2),
        ),
    }
}

/// Every row of the expansion executes an instruction of the set, and each subtable
/// that instruction consults appears exactly once in the subtable catalog. The advice
/// and move rows write their instruction's output, and each assertion row holds exactly
/// when its instruction's output is 1.
pub proof fn lemma_expansion_in_instruction_set(src: RVTraceRow, x: u64, y: u64, a: u64)
    ensures
        ({
            let rows = bound_expansion(src, x, y, a);
            &&& forall|k: int, j: int|
                0 <= k < rows.len() && 0 <= j < spec_row_instruction(rows[k]).subtable_ids().len()
                    ==> catalog_count(#[trigger] spec_row_instruction(rows[k]).subtable_ids()[j]) == 1
            &&& rows[0].register_state.rd_post_val == Some(
                spec_row_instruction(rows[0]).spec_lookup_entry() as u64,
            )
            &&& rows[4].register_state.rd_post_val == Some(
                spec_row_instruction(rows[4]).spec_lookup_entry() as u64,
            )
            &&& forall|k: int|
                1 <= k <= 3 ==> (#[trigger] row_holds(rows[k]) <==> spec_row_instruction(
                    rows[k],
                ).spec_lookup_entry() == 1)
        }),
{
    let rows = bound_expansion(src, x, y, a);
    assert forall|k: int, j: int|
        0 <= k < rows.len() && 0 <= j < spec_row_instruction(rows[k]).subtable_ids().len()
            implies catalog_count(#[trigger] spec_row_instruction(rows[k]).subtable_ids()[j]) == 1 by {
        let i = spec_row_instruction(rows[k]);
        assert(i.subtable_ids().contains(i.subtable_ids()[j]));
        lemma_catalog_complete(i, i.subtable_ids()[j]);
    }
}

} // verus!
