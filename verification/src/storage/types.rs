//! Shared storage-level types: byte order, header layout, the format
//! profile, and the page-source capability.

use vstd::prelude::*;

use crate::util::Endian;

verus! {

/// Byte order of the file, as recorded in the format profile.
#[derive(Debug, Clone, Copy, PartialEq, Eq, Structural)]
pub enum Endianness {
    Little,
    Big,
}

impl Endianness {
    /// The word-decoding byte order this profile entry denotes.
    pub fn to_endian(self) -> (r: Endian)
        ensures
            r == spec_to_endian(self),
    {
        match self {
            Endianness::Little => Endian::Le,
            Endianness::Big => Endian::Be,
        }
    }

    /// Wrap a detected byte order for the format profile.
    pub fn from_endian(e: Endian) -> (r: Endianness)
        ensures
            r == spec_from_endian(e),
    {
        match e {
            Endian::Le => Endianness::Little,
            Endian::Be => Endianness::Big,
        }
    }
}

/// The word-decoding byte order an `Endianness` denotes.
pub open spec fn spec_to_endian(e: Endianness) -> Endian {
    match e {
        Endianness::Little => Endian::Le,
        Endianness::Big => Endian::Be,
    }
}

/// The profile entry a detected byte order becomes.
pub open spec fn spec_from_endian(e: Endian) -> Endianness {
    match e {
        Endian::Le => Endianness::Little,
        Endian::Be => Endianness::Big,
    }
}

/// Which of the two page-header encodings a file uses.
///
/// `LowerUpper` stores the slot-array end ("lower") and the start of the
/// packed data region ("upper") as byte boundaries at bytes 24 and 26, with
/// the page type in the low five bits of the flags word at byte 20.
/// `EntriesHf` stores the slot count at byte 20 and the high-free offset at
/// byte 22, with a one-byte type code at byte 25.  The canonical selection
/// rule lives in `storage::consistency::probe_format`.
#[derive(Debug, Clone, Copy, PartialEq, Eq, Structural)]
pub enum HeaderLayout {
    LowerUpper,
    EntriesHf,
}

/// A page number in the Btree storage format.
pub type PageNumber = u32;

/// A within-page index or byte boundary.
pub type DbIndex = u16;

/// The size of a page in bytes.
pub type PageSize = u32;

/// An owned byte buffer.
pub type ByteVec = Vec<u8>;

/// Represents the format of the database file, derived once from page 0 and
/// immutable thereafter.
#[derive(Debug, Clone, Copy, PartialEq, Eq, Structural)]
pub struct FormatProfile {
    pub page_size: PageSize,
    pub endianness: Endianness,
    pub btree_root: PageNumber,
    pub berkeley_db_version: u32,
    pub layout: HeaderLayout,
}

/// Low-level source of pages: anything that can serve page-sized byte
/// buffers by page number.
pub trait PageSource {
    /// The pages this source serves, in page-number order.
    spec fn pages(&self) -> Seq<Seq<u8>>;

    /// The source identifier, for provenance.
    spec fn spec_source_id(&self) -> Seq<char>;

    /// Read a single page by page number; `None` past the last page.
    fn read_page(&self, page_no: PageNumber) -> (r: Option<ByteVec>)
        ensures
            match r {
                Some(v) => (page_no as int) < self.pages().len() && v@ == self.pages()[
                    page_no as int
                ],
                None => (page_no as int) >= self.pages().len(),
            },
    ;

    /// Total number of pages.
    fn page_count(&self) -> (r: u64)
        ensures
            r as int == self.pages().len(),
    ;

    /// Path or source identifier (for provenance).
    fn source_id(&self) -> (r: String)
        ensures
            r@ == self.spec_source_id(),
    ;
}

/// An in-memory page source: the image already split into page-sized
/// buffers.
#[derive(Debug)]
pub struct MemoryPageSource {
    pub page_bufs: Vec<ByteVec>,
    pub id: String,
}

impl PageSource for MemoryPageSource {
    open spec fn pages(&self) -> Seq<Seq<u8>> {
        self.page_bufs@.map_values(|p: ByteVec| p@)
    }

    open spec fn spec_source_id(&self) -> Seq<char> {
        self.id@
    }

    fn read_page(&self, page_no: PageNumber) -> (r: Option<ByteVec>)
        ensures
            match r {
                Some(v) => (page_no as int) < self.pages().len() && v@ == self.pages()[
                    page_no as int
                ],
                None => (page_no as int) >= self.pages().len(),
            },
    {
        let idx = page_no as usize;
        if idx < self.page_bufs.len() {
            let s = self.page_bufs[idx].as_slice();
            Some(vstd::slice::slice_to_vec(s))
        } else {
            None
        }
    }

    fn page_count(&self) -> (r: u64)
        ensures
            r as int == self.pages().len(),
    {
        self.page_bufs.len() as u64
    }

    fn source_id(&self) -> (r: String)
        ensures
            r@ == self.spec_source_id(),
    {
        self.id.clone()
    }
}

} // verus!
