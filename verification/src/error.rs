//! Error kinds reported by the decoding pipeline.

use vstd::prelude::*;

verus! {

/// A fault found while decoding the file image.
///
/// Top-level structural faults (`MagicNotFound`, `ImplausiblePageSize`) are
/// always fatal: without a valid meta page there is no format profile to
/// proceed with.  Per-page and per-slot faults are policy-sensitive; see
/// `storage::consistency::SalvageMode`.
#[derive(Clone, Copy, Debug, PartialEq, Eq, Structural)]
pub enum FormatError {
    /// The Btree magic was found in neither byte order.
    MagicNotFound,
    /// The meta page's page size is zero or not a multiple of 512.
    ImplausiblePageSize(u32),
    /// A buffer was smaller than the minimum header it must hold.
    ShortPage,
    /// A page header's lower/upper bounds are inconsistent with the page
    /// geometry; the payload is the page number.
    HeaderInvariantViolation(u32),
    /// Traversal expected a Leaf, Internal or Overflow page and found
    /// another type; the payload is the page number.
    UnexpectedPageType(u32),
    /// An overflow chain ended (`next == 0`) before the target length was
    /// collected; the payload is the number of bytes still missing.
    TruncatedOverflowChain(u32),
    /// An entry, inline field or page reference would read past the end of
    /// its page or of the file; the payload is the offending offset or page
    /// number.
    FieldOutOfBounds(u32),
    /// A leaf slot's kind byte is neither 1 (inline) nor 3 (overflow); the
    /// payload is the kind.
    UnknownLeafItemKind(u8),
}

impl FormatError {
    /// Short name of the error kind.
    pub fn as_str(&self) -> (r: &'static str)
    {
        match self {
            FormatError::MagicNotFound => "magic not found",
            FormatError::ImplausiblePageSize(_) => "implausible page size",
            FormatError::ShortPage => "short page",
            FormatError::HeaderInvariantViolation(_) => "header invariant violation",
            FormatError::UnexpectedPageType(_) => "unexpected page type",
            FormatError::TruncatedOverflowChain(_) => "truncated overflow chain",
            FormatError::FieldOutOfBounds(_) => "field out of bounds",
            FormatError::UnknownLeafItemKind(_) => "unknown leaf item kind",
        }
    }
}

} // verus!
