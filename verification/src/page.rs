//! The page type tag common to all Berkeley DB page kinds.

use vstd::prelude::*;

verus! {

/// The kind of a database page, as recorded on disk either as a one-byte
/// type code or in the low five bits of a flags word.
#[derive(Debug, Copy, Clone, Eq, PartialEq, Structural)]
pub enum PageType {
    Meta,
    Internal,
    Leaf,
    Overflow,
    Other(u8),
}

/// The page type that a one-byte on-disk type code denotes.
pub open spec fn spec_page_type_from_code(t: u8) -> PageType {
    if t == 9 {
        PageType::Meta
    } else if t == 3 {
        PageType::Internal
    } else if t == 5 {
        PageType::Leaf
    } else if t == 4 {
        PageType::Overflow
    } else {
        PageType::Other(t)
    }
}

/// The page type that the low five bits of a flags word denote.
pub open spec fn spec_page_type_from_flags(flags: u32) -> PageType {
    let t = (flags & 0x1f) as u8;
    if t == 0x09 {
        PageType::Meta
    } else if t == 0x03 {
        PageType::Internal
    } else if t == 0x02 {
        PageType::Leaf
    } else if t == 0x04 {
        PageType::Overflow
    } else {
        PageType::Other(t)
    }
}

/// The canonical type code of a page type.
pub open spec fn spec_page_type_code(t: PageType) -> u8 {
    match t {
        PageType::Meta => 0x09,
        PageType::Internal => 0x03,
        PageType::Leaf => 0x02,
        PageType::Overflow => 0x04,
        PageType::Other(x) => x,
    }
}

impl PageType {
    /// Construct from the one-byte on-disk type code (9 = meta, 3 = internal,
    /// 5 = leaf, 4 = overflow).
    pub fn from_code(t: u8) -> (r: PageType)
        ensures
            r == spec_page_type_from_code(t),
    {
        match t {
            9 => PageType::Meta,
            3 => PageType::Internal,
            5 => PageType::Leaf,
            4 => PageType::Overflow,
            x => PageType::Other(x),
        }
    }

    /// Return the canonical Berkeley DB type code.
    pub fn code(self) -> (r: u8)
        ensures
            r == spec_page_type_code(self),
    {
        match self {
            Self::Meta => 0x09,
            Self::Internal => 0x03,
            Self::Leaf => 0x02,
            Self::Overflow => 0x04,
            Self::Other(x) => x,
        }
    }

    /// Human-readable name.
    pub fn as_str(self) -> (r: &'static str)
    {
        match self {
            Self::Meta => "meta",
            Self::Internal => "internal",
            Self::Leaf => "leaf",
            Self::Overflow => "overflow",
            Self::Other(_) => "other",
        }
    }

    /// Construct from the page flags field (type is low 5 bits).
    pub fn from_flags(flags: u32) -> (r: Self)
        ensures
            r == spec_page_type_from_flags(flags),
    {
        let t = (flags & 0x1f) as u8;
        if t == 0x09 {
            Self::Meta
        } else if t == 0x03 {
            Self::Internal
        } else if t == 0x02 {
            Self::Leaf
        } else if t == 0x04 {
            Self::Overflow
        } else {
            Self::Other(t)
        }
    }
}

} // verus!
