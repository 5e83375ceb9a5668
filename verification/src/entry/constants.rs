//! The slot array and the field shapes of a Btree leaf entry.

use vstd::prelude::*;

use crate::constants::BTDATAOFF;
use crate::util::{u16_at, w16_at, Endian};

verus! {

broadcast use vstd::slice::group_slice_axioms;

/// Reference to bytes stored off-page (overflow).
/// Start at `first_page` and read `total_len` bytes across a chain of
/// overflow pages.
#[derive(Debug, Copy, Clone, PartialEq, Eq, Structural)]
pub struct OverflowRef {
    pub first_page: u32,
    pub total_len: u32,
}

/// A leaf field (key or value), either inline on the leaf page or off-page
/// (overflow).
#[derive(Debug)]
pub enum Field<'a> {
    Inline(&'a [u8]),
    Overflow(OverflowRef),
}

/// Mathematical model of a `Field`: inline bytes as a sequence.
pub enum FieldModel {
    Inline(Seq<u8>),
    Overflow(OverflowRef),
}

impl<'a> View for Field<'a> {
    type V = FieldModel;

    open spec fn view(&self) -> FieldModel {
        match self {
            Field::Inline(s) => FieldModel::Inline(s@),
            Field::Overflow(r) => FieldModel::Overflow(*r),
        }
    }
}

/// How many two-byte slots the region `[BTDATAOFF, lower)` holds.
pub open spec fn spec_slot_count(lower: int) -> int {
    if lower <= 28 {
        0
    } else {
        (lower - 28 + 1) / 2
    }
}

/// The slot values read from the slot array `[BTDATAOFF, lower)`, two bytes
/// each in the page's byte order.
pub open spec fn spec_slots(p: Seq<u8>, e: Endian, lower: int) -> Seq<u16> {
    Seq::new(spec_slot_count(lower) as nat, |i: int| w16_at(e, p, 28 + 2 * i))
}

/// Read the u16 offsets from the slot array `[BTDATAOFF, lower)`.
pub fn iter_slots(page: &[u8], e: Endian, lower: u16) -> (r: Vec<u16>)
    requires
        spec_slot_count(lower as int) == 0 || 28 + 2 * spec_slot_count(lower as int)
            <= page@.len(),
    ensures
        r@ == spec_slots(page@, e, lower as int),
{
    read_slots(page, e, lower as usize)
}

/// Read the u16 offsets from the slot array `[BTDATAOFF, lower)`, for a
/// lower boundary wider than `u16` (the entries/hf_offset encoding derives
/// it from the slot count).
pub fn read_slots(page: &[u8], e: Endian, lower: usize) -> (r: Vec<u16>)
    requires
        lower <= 0x4_0000,
        spec_slot_count(lower as int) == 0 || 28 + 2 * spec_slot_count(lower as int)
            <= page@.len(),
    ensures
        r@ == spec_slots(page@, e, lower as int),
{
    let mut r: Vec<u16> = Vec::new();
    let mut i: usize = BTDATAOFF;
    while i < lower
        invariant
            28 <= i,
            i % 2 == 0,
            i <= 28 + 2 * spec_slot_count(lower as int),
            i < lower ==> i + 2 <= page@.len(),
            r@.len() == (i - 28) / 2,
            lower <= 0x4_0000,
            spec_slot_count(lower as int) == 0 || 28 + 2 * spec_slot_count(lower as int)
                <= page@.len(),
            r@ == spec_slots(page@, e, lower as int).take(((i - 28) / 2) as int),
        decreases lower + 1 - i,
    {
        r.push(u16_at(e, page, i));
        i = i + 2;
        proof {
            assert(r@ =~= spec_slots(page@, e, lower as int).take(((i - 28) / 2) as int));
        }
    }
    proof {
        assert(r@ =~= spec_slots(page@, e, lower as int));
    }
    r
}

} // verus!
