use jolt_gbdt::instruction::{GBDTInstruction, GradientBoostInstruction};
use jolt_gbdt::sequence::{
    check_row, check_rows, virtual_register_index, ELFInstruction, Opcode, RVTraceRow,
    RegisterState,
};
use rand::rngs::StdRng;
use rand::{RngCore, SeedableRng};

fn source_row(opcode: Opcode, x: u64, y: u64) -> RVTraceRow {
    RVTraceRow {
        instruction: ELFInstruction {
            address: 0x8000_0010,
            opcode,
            rs1: Some(10),
            rs2: Some(11),
            rd: Some(12),
            imm: None,
            virtual_sequence_remaining: None,
        },
        register_state: RegisterState { rs1_val: Some(x), rs2_val: Some(y), rd_post_val: None },
        advice_value: None,
    }
}

fn check_expansion(rows: &[RVTraceRow], len: usize, want: u64) {
    assert_eq!(rows.len(), len);
    for (k, row) in rows.iter().enumerate() {
        assert_eq!(row.instruction.virtual_sequence_remaining, Some(len - k - 1));
        assert_eq!(row.instruction.address, 0x8000_0010);
    }
    assert!(check_rows(rows));
    let last = rows[len - 1];
    assert_eq!(last.instruction.opcode, Opcode::VirtualMove);
    assert_eq!(last.instruction.rd, Some(12));
    assert_eq!(last.register_state.rd_post_val, Some(want));
    assert_eq!(rows[0].instruction.opcode, Opcode::VirtualAdvice);
    assert_eq!(rows[0].advice_value, Some(want));
    assert_eq!(rows[0].instruction.rd, Some(virtual_register_index(0)));
}

#[test]
fn gbdt_gradient_boost_sequence_32() {
    let mut rng = StdRng::seed_from_u64(1);
    for _ in 0..1000 {
        let x = rng.next_u32() as u64 % 256;
        let y = rng.next_u32() as u64 % 256;
        let row = source_row(Opcode::Gbdt, x, y);
        let rows = GBDTInstruction::virtual_trace(&row);
        let want = GBDTInstruction::sequence_output(x, y);
        assert_eq!(want, GBDTInstruction(x, y).lookup_entry());
        check_expansion(&rows, GBDTInstruction::SEQUENCE_LENGTH, want);
    }
}

#[test]
fn gradient_boost_gradient_boost_sequence_32() {
    let mut rng = StdRng::seed_from_u64(2);
    for _ in 0..1000 {
        let x = rng.next_u32() as u64 % 256;
        let y = rng.next_u32() as u64 % 256;
        let row = source_row(Opcode::GbdtInfer, x, y);
        let rows = GradientBoostInstruction::virtual_trace(&row);
        let want = GradientBoostInstruction::sequence_output(x, y);
        assert_eq!(want, GradientBoostInstruction(x, y).lookup_entry());
        check_expansion(&rows, GradientBoostInstruction::SEQUENCE_LENGTH, want);
    }
}

#[test]
fn sequence_scenario() {
    for (x, y, want) in [(0, 0, 10), (10, 40, 20), (60, 20, 30), (90, 90, 40), (50, 70, 40)] {
        let rows = GBDTInstruction::virtual_trace(&source_row(Opcode::Gbdt, x, y));
        check_expansion(&rows, 5, want);
        let rows = GradientBoostInstruction::virtual_trace(&source_row(Opcode::GbdtInfer, x, y));
        check_expansion(&rows, 5, want);
    }
}

fn advice_then_move(advice: u64) -> Vec<RVTraceRow> {
    let advice_row = RVTraceRow {
        instruction: ELFInstruction {
            address: 0x8000_0010,
            opcode: Opcode::VirtualAdvice,
            rs1: None,
            rs2: None,
            rd: Some(virtual_register_index(0)),
            imm: None,
            virtual_sequence_remaining: Some(1),
        },
        register_state: RegisterState { rs1_val: None, rs2_val: None, rd_post_val: Some(advice) },
        advice_value: Some(advice),
    };
    let move_row = RVTraceRow {
        instruction: ELFInstruction {
            address: 0x8000_0010,
            opcode: Opcode::VirtualMove,
            rs1: Some(virtual_register_index(0)),
            rs2: None,
            rd: Some(12),
            imm: None,
            virtual_sequence_remaining: Some(0),
        },
        register_state: RegisterState {
            rs1_val: Some(advice),
            rs2_val: None,
            rd_post_val: Some(advice),
        },
        advice_value: None,
    };
    vec![advice_row, move_row]
}

#[test]
fn falsified_advice_passes_without_assertions() {
    // Advice followed by a move, with no assertion rows: nothing ties the advice to the
    // operands (10, 40), whose tree output is 20, so every falsified value passes.
    for advice in [0, 10, 30, 40, 99, u64::MAX] {
        let rows = advice_then_move(advice);
        assert!(check_rows(&rows), "advice {}", advice);
        assert_eq!(rows[1].register_state.rd_post_val, Some(advice));
    }
}

#[test]
fn falsified_advice_is_caught_by_assertions() {
    for (x, y) in [(10, 40), (0, 0), (49, 29), (50, 69), (50, 70), (255, 0)] {
        let row = source_row(Opcode::Gbdt, x, y);
        let honest = GBDTInstruction::inference(x, y);
        for advice in [0, 10, 20, 30, 40, 99, u64::MAX] {
            let rows = GBDTInstruction::virtual_trace_with_advice(&row, advice);
            assert_eq!(check_rows(&rows), advice == honest, "({}, {}) advice {}", x, y, advice);
            let row = source_row(Opcode::GbdtInfer, x, y);
            let rows = GradientBoostInstruction::virtual_trace_with_advice(&row, advice);
            assert_eq!(check_rows(&rows), advice == honest, "({}, {}) advice {}", x, y, advice);
        }
    }
}

#[test]
fn assertion_rows_name_their_registers() {
    let rows = GBDTInstruction::virtual_trace(&source_row(Opcode::Gbdt, 1, 2));
    for row in &rows {
        assert_eq!(row.instruction.imm, None);
    }
    assert_eq!(rows[1].instruction.opcode, Opcode::VirtualAssertFirstSplit);
    assert_eq!(rows[1].instruction.rs1, Some(10));
    assert_eq!(rows[2].instruction.opcode, Opcode::VirtualAssertLowerSplit);
    assert_eq!(rows[2].instruction.rs1, Some(11));
    assert_eq!(rows[3].instruction.opcode, Opcode::VirtualAssertUpperSplit);
    assert_eq!(rows[3].instruction.rs1, Some(11));
    assert_eq!(rows[1].register_state.rs1_val, Some(1));
    assert_eq!(rows[2].register_state.rs1_val, Some(2));
}

#[test]
fn check_row_rejects_incomplete_rows() {
    let mut row = source_row(Opcode::Gbdt, 60, 20);
    assert!(!check_row(&row));
    row.register_state.rd_post_val = Some(30);
    assert!(check_row(&row));
    row.register_state.rd_post_val = Some(20);
    assert!(!check_row(&row));
    row.register_state.rs2_val = None;
    assert!(!check_row(&row));
    let mut mv = source_row(Opcode::VirtualMove, 5, 0);
    assert!(!check_row(&mv));
    mv.register_state.rd_post_val = Some(5);
    assert!(check_row(&mv));
}

#[test]
fn virtual_register_numbering() {
    assert_eq!(virtual_register_index(0), 32);
    assert_eq!(virtual_register_index(3), 35);
}
