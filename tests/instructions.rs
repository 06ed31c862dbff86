use jolt_gbdt::field::Scalar;
use jolt_gbdt::instruction::{pack_operands, GBDTInstruction, GradientBoostInstruction};
use jolt_gbdt::registry::{InstructionSet, C, LOG_M};
use jolt_gbdt::subtable::SubtableId;
use jolt_gbdt::virtual_instruction::{ADVICEInstruction, AssertUpperSplitInstruction};
use rand::rngs::StdRng;
use rand::SeedableRng;

const SCENARIO: [(u64, u64, u64); 8] = [
    (0, 0, 10),
    (10, 40, 20),
    (60, 20, 30),
    (90, 90, 40),
    (49, 29, 10),
    (49, 30, 20),
    (50, 69, 30),
    (50, 70, 40),
];

fn neg(v: u64) -> Scalar {
    Scalar::zero().minus(&Scalar::from_u64(v))
}

#[test]
fn inference_scenario() {
    for (x, y, want) in SCENARIO {
        assert_eq!(GBDTInstruction::inference(x, y), want);
        assert_eq!(GradientBoostInstruction::inference(x, y), want);
        assert_eq!(GBDTInstruction(x, y).lookup_entry(), want);
        assert_eq!(GradientBoostInstruction(x, y).lookup_entry(), want);
        assert_eq!(GBDTInstruction::sequence_output(x, y), want);
        assert_eq!(GradientBoostInstruction::sequence_output(x, y), want);
    }
}

#[test]
fn decomposition_matches_lookup_entry() {
    let mut x = 0u64;
    while x < 256 {
        let mut y = 0u64;
        while y < 256 {
            for instr in [
                InstructionSet::GradientBoost(GradientBoostInstruction(x, y)),
                InstructionSet::Gbdt(GBDTInstruction(x, y)),
            ] {
                let want = Scalar::from_u64(instr.lookup_entry());
                assert_eq!(instr.evaluate_lookups(C, LOG_M), want, "({}, {})", x, y);
            }
            y += if (25..35).contains(&y) || (65..75).contains(&y) { 1 } else { 7 };
        }
        x += if (45..55).contains(&x) { 1 } else { 5 };
    }
}

#[test]
fn decomposition_beyond_bytes() {
    // 20 index bits: operand fields of 10 bits.
    for (x, y) in [(300u64, 600u64), (49, 1000), (1023, 69), (50, 70), (0, 1023)] {
        let want = Scalar::from_u64(GBDTInstruction::inference(x, y));
        assert_eq!(GBDTInstruction(x, y).evaluate_lookups(C, 20), want);
        assert_eq!(GradientBoostInstruction(x, y).evaluate_lookups(C, 20), want);
    }
}

#[test]
fn decomposition_scenario_step_by_step() {
    for (x, y, want) in SCENARIO {
        let gbdt = GBDTInstruction(x, y);
        let indices = gbdt.to_indices(C, LOG_M);
        assert_eq!(indices.len(), C);
        assert_eq!(indices[0], ((x as usize) << 8) | 50);
        assert_eq!(indices[1], ((y as usize) << 8) | 30);
        assert_eq!(indices[2], ((y as usize) << 8) | 70);
        assert_eq!(indices[3], 0);
        let vals = gbdt.subtable_values_at(&indices, LOG_M);
        assert_eq!(vals.len(), 3);
        let combined = gbdt.combine_lookups(&vals, C, 1 << LOG_M);
        assert_eq!(combined, Scalar::from_u64(want));

        let single = GradientBoostInstruction(x, y);
        let indices = single.to_indices(C, LOG_M);
        assert_eq!(indices, vec![((x as usize) << 8) | (y as usize), 0, 0, 0]);
        let vals = single.subtable_values_at(&indices, LOG_M);
        assert_eq!(vals, vec![Scalar::from_u64(want)]);
        assert_eq!(single.combine_lookups(&vals, C, 1 << LOG_M), Scalar::from_u64(want));
    }
}

#[test]
fn gbdt_combination_off_the_hypercube() {
    // 40 - 20a - 10c - 10ab + 10ac at (a, b, c) = (2, 3, 5) is -10.
    let vals = [Scalar::from_u64(2), Scalar::from_u64(3), Scalar::from_u64(5)];
    let r = GBDTInstruction(0, 0).combine_lookups(&vals, C, 1 << LOG_M);
    assert_eq!(r, neg(10));
    // At (1, 1, 7): 40 - 20 - 70 - 10 + 70 = 10.
    let vals = [Scalar::one(), Scalar::one(), Scalar::from_u64(7)];
    let r = GBDTInstruction(0, 0).combine_lookups(&vals, C, 1 << LOG_M);
    assert_eq!(r, Scalar::from_u64(10));
    // At (0, 9, 4): 40 - 40 = 0.
    let vals = [Scalar::zero(), Scalar::from_u64(9), Scalar::from_u64(4)];
    let r = GBDTInstruction(0, 0).combine_lookups(&vals, C, 1 << LOG_M);
    assert_eq!(r, Scalar::zero());
}

#[test]
fn gbdt_combination_is_linear_in_lt2() {
    // Degree 2, and no square of a variable: fixing lt1 and lt3, the value moves by a
    // constant step in lt2.
    let f = |b: u64| {
        GBDTInstruction(0, 0).combine_lookups(
            &[Scalar::from_u64(3), Scalar::from_u64(b), Scalar::from_u64(2)],
            C,
            1 << LOG_M,
        )
    };
    let d1 = f(1).minus(&f(0));
    let d2 = f(2).minus(&f(1));
    assert_eq!(d1, d2);
    assert_eq!(d1, neg(30));
}

#[test]
fn poly_degrees() {
    assert_eq!(GBDTInstruction(1, 2).g_poly_degree(C), 2);
    assert_eq!(GradientBoostInstruction(1, 2).g_poly_degree(C), 1);
    assert_eq!(InstructionSet::Gbdt(GBDTInstruction(0, 0)).g_poly_degree(C), 2);
}

#[test]
fn subtables_and_slots() {
    let s = GBDTInstruction(1, 2).subtables(C, 1 << LOG_M);
    assert_eq!(s, vec![(SubtableId::LessThan, vec![0, 1, 2])]);
    let s = GradientBoostInstruction(1, 2).subtables(C, 1 << LOG_M);
    assert_eq!(s, vec![(SubtableId::GradientBoost, vec![0])]);
}

#[test]
fn operands_and_packing() {
    assert_eq!(GBDTInstruction(7, 9).operands(), (7, 9));
    assert_eq!(InstructionSet::GradientBoost(GradientBoostInstruction(3, 4)).operands(), (3, 4));
    assert_eq!(pack_operands(0x1ab, 0x2cd, 8), 0xabcd);
    assert_eq!(pack_operands(3, 5, 0), 0);
}

#[test]
fn random_instances_have_byte_operands() {
    let mut rng = StdRng::seed_from_u64(7);
    for _ in 0..100 {
        let g = GBDTInstruction(0, 0).random(&mut rng);
        assert!(g.0 < 256 && g.1 < 256);
        let s = GradientBoostInstruction(0, 0).random(&mut rng);
        assert!(s.0 < 256 && s.1 < 256);
        let i = InstructionSet::random_instruction(&mut rng);
        let (x, y) = i.operands();
        assert!(x < 256 && y < 256);
        assert_eq!(i.evaluate_lookups(C, LOG_M), Scalar::from_u64(i.lookup_entry()));
    }
}

#[test]
fn from_random_words_keeps_low_bytes() {
    assert_eq!(GBDTInstruction::from_random_words(0x1234, 0xff01), GBDTInstruction(0x34, 0x01));
    assert_eq!(
        GradientBoostInstruction::from_random_words(0x1ff, 0x100),
        GradientBoostInstruction(0xff, 0)
    );
    assert_eq!(
        InstructionSet::from_random_words(7, 300, 2),
        InstructionSet::GradientBoost(GradientBoostInstruction(44, 2))
    );
    assert_eq!(
        InstructionSet::from_random_words(8, 300, 2),
        InstructionSet::Gbdt(GBDTInstruction(44, 2))
    );
    assert_eq!(
        InstructionSet::from_random_words(2, 300, 258),
        InstructionSet::Advice(ADVICEInstruction(2))
    );
    assert_eq!(
        InstructionSet::from_random_words(6, 300, 2),
        InstructionSet::AssertUpperSplit(AssertUpperSplitInstruction(44, 2))
    );
}
