//! Level-30 S2 cell identifiers, checked through the `s2` crate.

use vstd::prelude::*;

verus! {

/// The lowest set bit of `v` (zero for zero), as two's complement `v & -v`.
pub open spec fn lowest_set_bit(v: u64) -> u64 {
    v & ((((!v) as u128) + 1) as u64)
}

/// `s2::cellid::CellID::is_valid` as its source computes it: the face
/// (the top three bits) is below six and the lowest set bit is at an even
/// position no higher than bit 60.
pub open spec fn s2_is_valid(v: u64) -> bool {
    (v >> 61u64) < 6 && (lowest_set_bit(v) & 0x1555555555555555u64) != 0
}

/// `s2::cellid::CellID::is_leaf`: bit zero is set.
pub open spec fn s2_is_leaf(v: u64) -> bool {
    v & 1 != 0
}

/// A valid cell at the deepest level (level 30).
pub open spec fn is_valid_leaf(v: u64) -> bool {
    s2_is_valid(v) && s2_is_leaf(v)
}

/// Calls `s2::cellid::CellID::is_valid`. Its source computes
/// `face < 6 && lsb & 0x1555555555555555 != 0`, where `lsb` negates the id
/// as an `i64`; that negation overflows (and panics in checked builds) for
/// `1 << 63` alone, which the precondition leaves out.
#[verifier::external_body]
fn cell_is_valid(value: u64) -> (valid: bool)
    requires
        value != 0x8000_0000_0000_0000u64,
    ensures
        valid == s2_is_valid(value),
{
    s2::cellid::CellID(value).is_valid()
}

/// Calls `s2::cellid::CellID::is_leaf`, which the source defines as
/// `id & 1 != 0`.
#[verifier::external_body]
fn cell_is_leaf(value: u64) -> (leaf: bool)
    ensures
        leaf == s2_is_leaf(value),
{
    s2::cellid::CellID(value).is_leaf()
}

/// Whether `value` is a valid level-30 S2 cell identifier.
pub fn is_level30_cell(value: u64) -> (ok: bool)
    ensures
        ok == is_valid_leaf(value),
{
    if !cell_is_leaf(value) {
        return false;
    }
    assert(value != 0x8000_0000_0000_0000u64) by (bit_vector)
        requires
            value & 1 != 0,
    ;
    cell_is_valid(value)
}

/// For a leaf identifier, validity is only the face bound: the lowest set
/// bit is bit zero.
pub proof fn lemma_valid_leaf_is_odd_with_face(v: u64)
    ensures
        is_valid_leaf(v) <==> (v & 1 == 1 && (v >> 61u64) < 6),
{
    assert((v & 1 != 0) ==> ((v & ((((!v) as u128) + 1) as u64)) & 0x1555555555555555u64) != 0)
        by (bit_vector);
    assert((v & 1 != 0) <==> (v & 1 == 1)) by (bit_vector);
}

} // verus!
