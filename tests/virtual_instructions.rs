use jolt_gbdt::field::Scalar;
use jolt_gbdt::instruction::GBDTInstruction;
use jolt_gbdt::registry::{InstructionSet, SubtableSet, C, LOG_M, M};
use jolt_gbdt::sequence::{
    check_row, row_instruction, ELFInstruction, Opcode, RVTraceRow, RegisterState,
};
use jolt_gbdt::subtable::{FirstSplitSubtable, IdentitySubtable, SubtableId};
use jolt_gbdt::virtual_instruction::{
    ADVICEInstruction, AssertFirstSplitInstruction, AssertLowerSplitInstruction,
    AssertUpperSplitInstruction, MOVEInstruction,
};

#[test]
fn advice_and_move_decompose_to_their_value() {
    for v in 0..256u64 {
        let a = ADVICEInstruction(v);
        assert_eq!(a.lookup_entry(), v);
        assert_eq!(a.evaluate_lookups(C, LOG_M), Scalar::from_u64(v));
        let m = MOVEInstruction(v);
        assert_eq!(m.operands(), (0, v));
        assert_eq!(m.evaluate_lookups(C, LOG_M), Scalar::from_u64(v));
    }
    assert_eq!(ADVICEInstruction(7).to_indices(C, LOG_M), vec![7, 0, 0, 0]);
    assert_eq!(ADVICEInstruction(7).g_poly_degree(C), 1);
}

#[test]
fn split_assertions_outputs() {
    assert_eq!(AssertFirstSplitInstruction(10, 20).lookup_entry(), 1);
    assert_eq!(AssertFirstSplitInstruction(10, 30).lookup_entry(), 0);
    assert_eq!(AssertFirstSplitInstruction(60, 30).lookup_entry(), 1);
    assert_eq!(AssertFirstSplitInstruction(60, 5).lookup_entry(), 0);
    assert_eq!(AssertLowerSplitInstruction(29, 10).lookup_entry(), 1);
    assert_eq!(AssertLowerSplitInstruction(30, 10).lookup_entry(), 0);
    assert_eq!(AssertLowerSplitInstruction(0, 30).lookup_entry(), 1);
    assert_eq!(AssertUpperSplitInstruction(69, 30).lookup_entry(), 1);
    assert_eq!(AssertUpperSplitInstruction(70, 30).lookup_entry(), 0);
    assert_eq!(AssertUpperSplitInstruction(70, 40).lookup_entry(), 1);
}

#[test]
fn split_assertions_decompose_to_their_output() {
    let mut x = 0u64;
    while x < 256 {
        for a in [0u64, 5, 10, 20, 30, 40, 41, 255] {
            for instr in [
                InstructionSet::AssertFirstSplit(AssertFirstSplitInstruction(x, a)),
                InstructionSet::AssertLowerSplit(AssertLowerSplitInstruction(x, a)),
                InstructionSet::AssertUpperSplit(AssertUpperSplitInstruction(x, a)),
            ] {
                let want = Scalar::from_u64(instr.lookup_entry());
                assert_eq!(instr.evaluate_lookups(C, LOG_M), want, "{:?}", instr);
            }
        }
        x += if (25..75).contains(&x) { 1 } else { 9 };
    }
}

#[test]
fn new_subtables_materialize() {
    let t = IdentitySubtable::new().materialize(M);
    assert_eq!(t[0x1234], 0x34);
    let f = FirstSplitSubtable::new().materialize(M);
    assert_eq!(f[(10 << 8) | 20], 1);
    assert_eq!(f[(10 << 8) | 30], 0);
    assert_eq!(SubtableSet::from_id(SubtableId::UpperSplit).materialize(M)[(70 << 8) | 30], 0);
}

#[test]
fn expansion_rows_are_instructions_of_the_set() {
    let src = RVTraceRow {
        instruction: ELFInstruction {
            address: 4,
            opcode: Opcode::Gbdt,
            rs1: Some(10),
            rs2: Some(11),
            rd: Some(12),
            imm: None,
            virtual_sequence_remaining: None,
        },
        register_state: RegisterState { rs1_val: Some(60), rs2_val: Some(20), rd_post_val: None },
        advice_value: None,
    };
    let catalog: Vec<SubtableId> =
        SubtableSet::members().iter().map(|s| s.subtable_id()).collect();
    for advice in [30u64, 40] {
        let rows = GBDTInstruction::virtual_trace_with_advice(&src, advice);
        for (k, row) in rows.iter().enumerate() {
            let instr = row_instruction(row);
            for (id, _) in instr.subtables(C, M) {
                assert_eq!(catalog.iter().filter(|e| **e == id).count(), 1);
            }
            if (1..=3).contains(&k) {
                assert_eq!(check_row(row), instr.lookup_entry() == 1);
            } else {
                assert_eq!(row.register_state.rd_post_val, Some(instr.lookup_entry()));
            }
        }
    }
}
