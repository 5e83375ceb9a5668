//! The canonical page header shape shared by both on-disk header encodings,
//! and the page-level data model.

use vstd::prelude::*;

use crate::error::FormatError;
use crate::page::{spec_page_type_from_code, spec_page_type_from_flags, PageType};
use crate::storage::types::{ByteVec, DbIndex, HeaderLayout, PageNumber};
use crate::util::{u16_at, u32_at, w16_at, w32_at, Endian};

verus! {

/// The header of a page in the entries/hf_offset encoding, with the fields
/// the traversal reads.
#[derive(Debug, Clone, PartialEq, Eq, Structural)]
pub struct PageHeader {
    /// Log sequence number (bytes 0..8, as file and offset words).
    pub lsn: u64,
    /// Previous page in a chain.
    pub prev_pgno: PageNumber,
    /// Next page in a chain (overflow chains follow this).
    pub next_pgno: PageNumber,
    /// Number of slot entries.
    pub entries: DbIndex,
    /// High free offset: start of the packed data region.
    pub hf_offset: DbIndex,
    /// Btree level (1 = leaf).
    pub level: u8,
    /// On-disk page type code.
    pub page_type: u8,
}

impl PageHeader {
    /// Derived: number of slots.
    pub fn num_slots(&self) -> (r: usize)
        ensures
            r == self.entries,
    {
        self.entries as usize
    }

    /// Derived: the lower boundary (end of header plus slot array) in bytes,
    /// computed from the header size and `entries`.
    pub fn lower_bound(&self, header_size: usize, slot_entry_size: usize) -> (r: usize)
        requires
            header_size + self.entries * slot_entry_size <= usize::MAX,
        ensures
            r == header_size + self.entries * slot_entry_size,
    {
        header_size + (self.entries as usize) * slot_entry_size
    }

    /// Derived: the upper boundary in bytes (`hf_offset`).
    pub fn upper_bound(&self) -> (r: usize)
        ensures
            r == self.hf_offset,
    {
        self.hf_offset as usize
    }
}

/// A page: its decoded header and its raw bytes.
#[derive(Debug)]
pub struct Page {
    pub header: PageHeader,
    pub raw: ByteVec,
}

/// Describes a slot entry inside a page without materializing the value.
/// The key and value ranges are byte offsets into the page.
#[derive(Debug, Clone, Copy, PartialEq, Eq, Structural)]
pub struct EntryDescriptor {
    pub slot_index: u16,
    pub key_len: usize,
    pub value_len: usize,
    pub flags: u8,
    pub key_start: usize,
    pub key_end: usize,
    pub value_start: usize,
    pub value_end: usize,
}

/// The geometry of a page that traversal and extraction need, identical for
/// both header encodings: the chain pointers, the page type, and the slot
/// array and payload boundaries ("lower" and "upper") as byte offsets.
#[derive(Debug, Clone, Copy, PartialEq, Eq, Structural)]
pub struct PageShape {
    pub pgno: u32,
    pub prev: u32,
    pub next: u32,
    pub level: u8,
    pub ptype: PageType,
    /// End of the slot array: slots occupy `[28, lower)`.
    pub lower: u32,
    /// Start of the packed data region: entries occupy `[upper, page_size)`.
    pub upper: u32,
}

/// Encapsulates the ability to materialize the full bytes of an entry's
/// value: implementations may own the buffer or reassemble it from overflow
/// pages.
pub trait ValueSupplier {
    /// The bytes this supplier stands for.
    spec fn bytes(&self) -> Seq<u8>;

    /// Materialize the full value bytes.
    fn materialize(&self) -> (r: ByteVec)
        ensures
            r@ == self.bytes(),
    ;

    /// Attempt a zero-copy borrow when the value is fully in memory.
    fn try_borrow(&self) -> (r: Option<&[u8]>)
        ensures
            match r {
                Some(s) => s@ == self.bytes(),
                None => true,
            },
    ;
}

/// A value already materialized in memory.
#[derive(Debug)]
pub struct OwnedValue {
    pub data: ByteVec,
}

impl ValueSupplier for OwnedValue {
    open spec fn bytes(&self) -> Seq<u8> {
        self.data@
    }

    fn materialize(&self) -> (r: ByteVec) {
        let s = self.data.as_slice();
        vstd::slice::slice_to_vec(s)
    }

    fn try_borrow(&self) -> (r: Option<&[u8]>) {
        Some(self.data.as_slice())
    }
}

/// The page type recorded in a page's leading bytes under the given layout.
pub open spec fn spec_page_kind(p: Seq<u8>, e: Endian, layout: HeaderLayout) -> PageType
    recommends
        p.len() >= 28,
{
    match layout {
        HeaderLayout::EntriesHf => spec_page_type_from_code(p[25]),
        HeaderLayout::LowerUpper => spec_page_type_from_flags(w32_at(e, p, 20)),
    }
}

/// Read the page type from a page's leading bytes under the given layout.
pub fn page_kind(p: &[u8], e: Endian, layout: HeaderLayout) -> (r: PageType)
    requires
        p@.len() >= 28,
    ensures
        r == spec_page_kind(p@, e, layout),
{
    match layout {
        HeaderLayout::EntriesHf => PageType::from_code(p[25]),
        HeaderLayout::LowerUpper => PageType::from_flags(u32_at(e, p, 20)),
    }
}

/// The canonical shape decoded from a page's leading bytes: under
/// `LowerUpper` the lower/upper boundaries are stored at bytes 24 and 26;
/// under `EntriesHf` they are derived from the slot count at byte 20 and the
/// high-free offset at byte 22.
pub open spec fn spec_page_shape(p: Seq<u8>, e: Endian, layout: HeaderLayout) -> Result<
    PageShape,
    FormatError,
> {
    if p.len() < 28 {
        Err(FormatError::ShortPage)
    } else {
        match layout {
            HeaderLayout::LowerUpper => Ok(
                PageShape {
                    pgno: w32_at(e, p, 8),
                    prev: w32_at(e, p, 12),
                    next: w32_at(e, p, 16),
                    level: 0,
                    ptype: spec_page_type_from_flags(w32_at(e, p, 20)),
                    lower: w16_at(e, p, 24) as u32,
                    upper: w16_at(e, p, 26) as u32,
                },
            ),
            HeaderLayout::EntriesHf => Ok(
                PageShape {
                    pgno: w32_at(e, p, 8),
                    prev: w32_at(e, p, 12),
                    next: w32_at(e, p, 16),
                    level: p[24],
                    ptype: spec_page_type_from_code(p[25]),
                    lower: (28 + 2 * (w16_at(e, p, 20) as u32)) as u32,
                    upper: w16_at(e, p, 22) as u32,
                },
            ),
        }
    }
}

/// Decode the canonical shape of a page under the given header layout.
pub fn page_shape(p: &[u8], e: Endian, layout: HeaderLayout) -> (r: Result<
    PageShape,
    FormatError,
>)
    ensures
        r == spec_page_shape(p@, e, layout),
{
    if p.len() < 28 {
        return Err(FormatError::ShortPage);
    }
    match layout {
        HeaderLayout::LowerUpper => Ok(
            PageShape {
                pgno: u32_at(e, p, 8),
                prev: u32_at(e, p, 12),
                next: u32_at(e, p, 16),
                level: 0,
                ptype: PageType::from_flags(u32_at(e, p, 20)),
                lower: u16_at(e, p, 24) as u32,
                upper: u16_at(e, p, 26) as u32,
            },
        ),
        HeaderLayout::EntriesHf => Ok(
            PageShape {
                pgno: u32_at(e, p, 8),
                prev: u32_at(e, p, 12),
                next: u32_at(e, p, 16),
                level: p[24],
                ptype: PageType::from_code(p[25]),
                lower: 28 + 2 * (u16_at(e, p, 20) as u32),
                upper: u16_at(e, p, 22) as u32,
            },
        ),
    }
}

/// The header-boundary invariant of a well-formed page:
/// `28 <= lower <= upper <= page_size`.
pub open spec fn spec_geometry_ok(s: PageShape, ps: int) -> bool {
    28 <= s.lower && s.lower <= s.upper && s.upper <= ps
}

/// Check the header-boundary invariant against the page size.
pub fn geometry_ok(s: &PageShape, ps: usize) -> (r: bool)
    ensures
        r == spec_geometry_ok(*s, ps as int),
{
    28 <= s.lower && s.lower <= s.upper && s.upper as usize <= ps
}

} // verus!
