//! Decoding of a single leaf-page slot entry.

use vstd::prelude::*;

use crate::error::FormatError;
use crate::util::{Endian, w16_at, w32_at, u16_at, u32_at};

verus! {

broadcast use vstd::slice::group_slice_axioms;

/// Leaf entry kinds.
/// Kind 1 = inline bytes; kind 3 = overflow reference; the high bit of the
/// kind byte is the "deleted" marker.
#[derive(Debug, PartialEq, Eq)]
pub enum LeafItem<'a> {
    /// Key/value bytes live inline in this page.
    KeyData(&'a [u8]),
    /// Key/value live on an overflow chain.
    Overflow { first_pg: u32, total_len: u32 },
}

/// Mathematical model of a `LeafItem`: inline bytes as a sequence.
pub enum LeafItemModel {
    KeyData(Seq<u8>),
    Overflow { first_pg: u32, total_len: u32 },
}

impl<'a> View for LeafItem<'a> {
    type V = LeafItemModel;

    open spec fn view(&self) -> LeafItemModel {
        match self {
            LeafItem::KeyData(s) => LeafItemModel::KeyData(s@),
            LeafItem::Overflow { first_pg, total_len } => LeafItemModel::Overflow {
                first_pg: *first_pg,
                total_len: *total_len,
            },
        }
    }
}

/// One decoded leaf slot: its payload and whether it is a tombstone.
#[derive(Debug, PartialEq, Eq)]
pub struct ParsedLeafEntry<'a> {
    pub deleted: bool,
    pub item: LeafItem<'a>,
}

/// Mathematical model of a `ParsedLeafEntry`.
pub struct ParsedLeafEntryModel {
    pub deleted: bool,
    pub item: LeafItemModel,
}

impl<'a> View for ParsedLeafEntry<'a> {
    type V = ParsedLeafEntryModel;

    open spec fn view(&self) -> ParsedLeafEntryModel {
        ParsedLeafEntryModel { deleted: self.deleted, item: self.item@ }
    }
}

/// The entry encoded at absolute offset `off` of a leaf page:
///   - inline form: `len:u16 @off, kind:u8 @off+2 (1, or 0x81 if deleted),
///     data[len] @off+3`;
///   - overflow form: `pad:u16 @off, kind:u8 @off+2 (3, or 0x83 if deleted),
///     pad:u8 @off+3, first_page:u32 @off+4, total_len:u32 @off+8`.
pub open spec fn spec_parse_leaf_entry(p: Seq<u8>, off: int, e: Endian) -> Result<
    ParsedLeafEntryModel,
    FormatError,
> {
    if off < 0 || off + 3 > p.len() {
        Err(FormatError::FieldOutOfBounds(off as u32))
    } else {
        let len = w16_at(e, p, off) as int;
        let kind_raw = p[off + 2];
        let deleted = kind_raw & 0x80 != 0;
        let kind = kind_raw & 0x7f;
        if kind == 1 {
            if off + 3 + len > p.len() {
                Err(FormatError::FieldOutOfBounds(off as u32))
            } else {
                Ok(
                    ParsedLeafEntryModel {
                        deleted,
                        item: LeafItemModel::KeyData(p.subrange(off + 3, off + 3 + len)),
                    },
                )
            }
        } else if kind == 3 {
            if off + 12 > p.len() {
                Err(FormatError::FieldOutOfBounds(off as u32))
            } else {
                Ok(
                    ParsedLeafEntryModel {
                        deleted,
                        item: LeafItemModel::Overflow {
                            first_pg: w32_at(e, p, off + 4),
                            total_len: w32_at(e, p, off + 8),
                        },
                    },
                )
            }
        } else {
            Err(FormatError::UnknownLeafItemKind(kind))
        }
    }
}

/// Parse the single leaf entry at absolute offset `off` of `page`.
pub fn parse_leaf_entry<'a>(page: &'a [u8], off: usize, e: Endian) -> (r: Result<
    ParsedLeafEntry<'a>,
    FormatError,
>)
    ensures
        match (r, spec_parse_leaf_entry(page@, off as int, e)) {
            (Ok(a), Ok(b)) => a@ == b,
            (Err(a), Err(b)) => a == b,
            _ => false,
        },
{
    let n: usize = page.len();
    if n < 3 || off > n - 3 {
        return Err(FormatError::FieldOutOfBounds(off as u32));
    }
    let len = u16_at(e, page, off) as usize;
    let kind_raw = page[off + 2];
    let deleted = (kind_raw & 0x80) != 0;
    let kind = kind_raw & 0x7f;
    if kind == 1 {
        if len > n - (off + 3) {
            return Err(FormatError::FieldOutOfBounds(off as u32));
        }
        let s = vstd::slice::slice_subrange(page, off + 3, off + 3 + len);
        Ok(ParsedLeafEntry { deleted, item: LeafItem::KeyData(s) })
    } else if kind == 3 {
        if n < 12 || off > n - 12 {
            return Err(FormatError::FieldOutOfBounds(off as u32));
        }
        let first_pg = u32_at(e, page, off + 4);
        let total_len = u32_at(e, page, off + 8);
        Ok(ParsedLeafEntry { deleted, item: LeafItem::Overflow { first_pg, total_len } })
    } else {
        Err(FormatError::UnknownLeafItemKind(kind))
    }
}

} // verus!
