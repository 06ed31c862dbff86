use std::collections::HashSet;

use jolt_gbdt::registry::{InstructionSet, RV32IJoltVM, SubtableSet, C, LOG_M, M};
use jolt_gbdt::subtable::SubtableId;

#[test]
fn instruction_set_subtables() {
    let mut subtable_set: HashSet<usize> = HashSet::new();
    for instruction in RV32IJoltVM::instruction_set() {
        for (subtable, _) in instruction.subtables(C, M) {
            let member = SubtableSet::from_id(subtable);
            assert_eq!(member.subtable_id(), subtable);
            subtable_set.insert(member.discriminant());
        }
    }
    assert_eq!(subtable_set.len(), SubtableSet::COUNT, "Unused enum variants in Subtables");
}

#[test]
fn discriminants_are_dense_and_stable() {
    let subtables = RV32IJoltVM::subtables();
    assert_eq!(subtables.len(), SubtableSet::COUNT);
    for (k, s) in subtables.iter().enumerate() {
        assert_eq!(s.discriminant(), k);
    }
    assert_eq!(SubtableSet::COUNT, 6);
    assert_eq!(InstructionSet::COUNT, 7);
    assert_eq!(SubtableSet::from_id(SubtableId::GradientBoost).discriminant(), 0);
    assert_eq!(SubtableSet::from_id(SubtableId::LessThan).discriminant(), 1);
    assert_eq!(SubtableSet::from_id(SubtableId::UpperSplit).discriminant(), 5);
    let instructions = InstructionSet::members();
    assert_eq!(instructions.len(), InstructionSet::COUNT);
    for (k, i) in instructions.iter().enumerate() {
        assert_eq!(i.discriminant(), k);
    }
}

#[test]
fn configuration_constants() {
    assert_eq!(C, 4);
    assert_eq!(M, 1 << LOG_M);
    assert_eq!(InstructionSet::default().discriminant(), 0);
    assert_eq!(InstructionSet::default().operands(), (0, 0));
}

#[test]
fn catalog_dispatch_materializes() {
    let t = SubtableSet::from_id(SubtableId::GradientBoost).materialize(M);
    assert_eq!(t[25671], 40);
    let u = SubtableSet::from_id(SubtableId::LessThan).materialize(M);
    assert_eq!(u[(10 << 8) | 50], 1);
    assert_eq!(u[(50 << 8) | 50], 0);
}
