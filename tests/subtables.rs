use jolt_gbdt::bits::binary_point;
use jolt_gbdt::field::Scalar;
use jolt_gbdt::registry::SubtableSet;
use jolt_gbdt::subtable::{GradientBoostSubtable, LtuSubtable, SubtableId};

#[test]
fn gradient_boost_basic_test() {
    let subtable = GradientBoostSubtable::new();
    let materialized = subtable.materialize(65536);

    assert_eq!(materialized[0] as u8, 10);
    assert_eq!(materialized[1] as u8, 10);
    assert_eq!(materialized[31] as u8, 20);
    assert_eq!(materialized[256] as u8, 10);
    assert_eq!(materialized[12800] as u8, 30);
    assert_eq!(materialized[25600] as u8, 30);
    assert_eq!(materialized[25670] as u8, 40);
    assert_eq!(materialized[25671] as u8, 40);
}

#[test]
fn gradient_boost_materialize_len() {
    let subtable = GradientBoostSubtable::new();
    assert_eq!(subtable.materialize(65536).len(), 65536);
    assert_eq!(subtable.materialize(256).len(), 256);
    assert_eq!(subtable.materialize(0).len(), 0);
    assert_eq!(subtable.materialize(1), vec![10]);
}

#[test]
fn gradient_boost_subtable_inference_scenario() {
    assert_eq!(GradientBoostSubtable::inference(0, 0), 10);
    assert_eq!(GradientBoostSubtable::inference(10, 40), 20);
    assert_eq!(GradientBoostSubtable::inference(60, 20), 30);
    assert_eq!(GradientBoostSubtable::inference(90, 90), 40);
    assert_eq!(GradientBoostSubtable::inference(49, 29), 10);
    assert_eq!(GradientBoostSubtable::inference(49, 30), 20);
    assert_eq!(GradientBoostSubtable::inference(50, 69), 30);
    assert_eq!(GradientBoostSubtable::inference(50, 70), 40);
    assert_eq!(GradientBoostSubtable::inference(255, 255), 40);
}

#[test]
fn gradient_boost_routes_on_whole_fields() {
    // 20 index bits: fields of 10 bits.
    let table = GradientBoostSubtable::new().materialize(1 << 20);
    // left = 316, right = 266
    assert_eq!(table[(316 << 10) | 266], 40);
    // left = 40, right = 592
    assert_eq!(table[(40 << 10) | 592], 20);
    // left = 256, right = 0 in a table of 2^18 entries
    let table = GradientBoostSubtable::new().materialize(1 << 18);
    assert_eq!(table[1 << 17], 30);
}

#[test]
fn subtable_constructors() {
    assert_eq!(GradientBoostSubtable::new(), GradientBoostSubtable::default());
    assert_eq!(LtuSubtable::new(), LtuSubtable::default());
}

#[test]
fn ltu_materialize_small_tables() {
    let t = LtuSubtable::new().materialize(256);
    // fields of 4 bits: 0x35 is (3, 5), 0x53 is (5, 3), 0x44 is (4, 4)
    assert_eq!(t[0x35], 1);
    assert_eq!(t[0x53], 0);
    assert_eq!(t[0x44], 0);
    // 300 entries need 9 index bits, so fields of 4 bits: 0x11f is (17, 15)
    let u = LtuSubtable::new().materialize(300);
    assert_eq!(u.len(), 300);
    assert_eq!(u[0x11f], 0);
    assert_eq!(u[0x01f], 1);
}

fn check_parity(table: SubtableSet, log_m: usize, step: usize) {
    let m = 1usize << log_m;
    let entries = table.materialize(m);
    assert_eq!(entries.len(), m);
    let mut i = 0;
    while i < m {
        let point = binary_point(i, log_m);
        assert_eq!(point.len(), log_m);
        let v = table.evaluate_mle(&point);
        assert_eq!(v, Scalar::from_u64(entries[i] as u64), "index {}", i);
        i += step;
    }
}

fn check_parity_at(table: SubtableSet, log_m: usize, indices: &[usize]) {
    let entries = table.materialize(1usize << log_m);
    for &i in indices {
        let v = table.evaluate_mle(&binary_point(i, log_m));
        assert_eq!(v, Scalar::from_u64(entries[i] as u64), "index {}", i);
    }
}

#[test]
fn gradient_boost_materialize_mle_parity() {
    check_parity(SubtableSet::from_id(SubtableId::GradientBoost), 8, 1);
    check_parity(SubtableSet::from_id(SubtableId::GradientBoost), 12, 37);
    check_parity_at(
        SubtableSet::from_id(SubtableId::GradientBoost),
        16,
        &[0, 31, 12800, 25671, 65535],
    );
}

#[test]
fn ltu_materialize_mle_parity() {
    check_parity(SubtableSet::from_id(SubtableId::LessThan), 8, 1);
    check_parity(SubtableSet::from_id(SubtableId::LessThan), 12, 37);
}

#[test]
fn split_and_identity_materialize_mle_parity() {
    for id in [
        SubtableId::Identity,
        SubtableId::FirstSplit,
        SubtableId::LowerSplit,
        SubtableId::UpperSplit,
    ] {
        check_parity(SubtableSet::from_id(id), 8, 1);
        check_parity(SubtableSet::from_id(id), 10, 13);
    }
}

#[test]
fn evaluate_mle_is_multilinear() {
    let t = GradientBoostSubtable::new();
    let zero = Scalar::zero();
    // 12 coordinates: coordinate 6 is the top bit of the right field.
    let p0 = vec![zero; 12];
    let mut p1 = p0.clone();
    p1[6] = Scalar::one();
    let mut p2 = p0.clone();
    p2[6] = Scalar::from_u64(2);
    assert_eq!(t.evaluate_mle(&p0), Scalar::from_u64(10));
    assert_eq!(t.evaluate_mle(&p1), Scalar::from_u64(20));
    // (1 - 2) * 10 + 2 * 20
    assert_eq!(t.evaluate_mle(&p2), Scalar::from_u64(30));
    // Along any one coordinate, with the others fixed, the value is affine.
    let mut q = vec![Scalar::from_u64(3); 8];
    q[1] = Scalar::from_u64(5);
    let at = |c: u64| {
        let mut r = q.clone();
        r[4] = Scalar::from_u64(c);
        LtuSubtable::new().evaluate_mle(&r)
    };
    let f0 = at(0);
    let f1 = at(1);
    let f7 = at(7);
    // f(7) = f(0) + 7 (f(1) - f(0))
    assert_eq!(f7, f0.plus(&Scalar::from_u64(7).times(&f1.minus(&f0))));
}

#[test]
fn evaluate_mle_of_an_empty_point_is_entry_zero() {
    assert_eq!(GradientBoostSubtable::new().evaluate_mle(&[]), Scalar::from_u64(10));
    assert_eq!(LtuSubtable::new().evaluate_mle(&[]), Scalar::zero());
}

#[test]
fn binary_point_is_msb_first() {
    let p = binary_point(6, 4);
    let zero = Scalar::zero();
    let one = Scalar::one();
    assert_eq!(p, vec![zero, one, one, zero]);
    assert_eq!(binary_point(0, 0), Vec::<Scalar>::new());
}
