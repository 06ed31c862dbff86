//! The fixed decision tree that the instructions and subtables of this crate encode.

use vstd::prelude::*;

verus! {

/// Threshold on the first feature.
pub const T1: u64 = 50;

/// Threshold on the second feature when the first is below `T1`.
pub const T2: u64 = 30;

/// Threshold on the second feature when the first is at least `T1`.
pub const T3: u64 = 70;

/// Leaf reached when `left < T1` and `right < T2`.
pub const V1: u64 = 10;

/// Leaf reached when `left < T1` and `right >= T2`.
pub const V2: u64 = 20;

/// Leaf reached when `left >= T1` and `right < T3`.
pub const V3: u64 = 30;

/// Leaf reached when `left >= T1` and `right >= T3`.
pub const V4: u64 = 40;

/// The leaf value that the tree gives for the feature pair `(left, right)`.
pub open spec fn tree(left: int, right: int) -> nat {
    if left < T1 {
        if right < T2 {
            V1 as nat
        } else {
            V2 as nat
        }
    } else {
        if right < T3 {
            V3 as nat
        } else {
            V4 as nat
        }
    }
}

/// `v` is one of the four leaf values.
pub open spec fn is_leaf(v: int) -> bool {
    v == V1 || v == V2 || v == V3 || v == V4
}

/// The first split holds of operand `x` and advice `a`: `a` is a leaf, and one of the
/// two leaves below the first split exactly when `x < T1`.
pub open spec fn first_split_holds(x: int, a: int) -> bool {
    is_leaf(a) && ((x < T1) == (a == V1 || a == V2))
}

/// The lower second split holds of operand `y` and advice `a`: when `a` is one of the two
/// lower leaves, it is `V1` exactly when `y < T2`.
pub open spec fn lower_split_holds(y: int, a: int) -> bool {
    (a == V1 || a == V2) ==> ((y < T2) == (a == V1))
}

/// The upper second split holds of operand `y` and advice `a`: when `a` is one of the two
/// upper leaves, it is `V3` exactly when `y < T3`.
pub open spec fn upper_split_holds(y: int, a: int) -> bool {
    (a == V3 || a == V4) ==> ((y < T3) == (a == V3))
}

/// 1 for true, 0 for false.
pub open spec fn indicator(b: bool) -> nat {
    if b {
        1
    } else {
        0
    }
}

/// Whether the first split holds of `x` and `a`.
pub fn check_first_split(x: u64, a: u64) -> (r: bool)
    ensures
        r == first_split_holds(x as int, a as int),
{
    (a == V1 || a == V2 || a == V3 || a == V4) && ((x < T1) == (a == V1 || a == V2))
}

/// Whether the lower second split holds of `y` and `a`.
pub fn check_lower_split(y: u64, a: u64) -> (r: bool)
    ensures
        r == lower_split_holds(y as int, a as int),
{
    !(a == V1 || a == V2) || ((y < T2) == (a == V1))
}

/// Whether the upper second split holds of `y` and `a`.
pub fn check_upper_split(y: u64, a: u64) -> (r: bool)
    ensures
        r == upper_split_holds(y as int, a as int),
{
    !(a == V3 || a == V4) || ((y < T3) == (a == V3))
}

} // verus!
