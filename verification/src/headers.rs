//! The Btree meta page (page 0) and its decoder.

use vstd::prelude::*;

use crate::error::FormatError;
use crate::page::{spec_page_type_from_code, PageType};
use crate::util::{bytes_range, detect_endian, spec_detect_endian, u32_at, w32_at, zero_bytes,
    Endian};

verus! {

/// The decoded meta page of a Btree database file.
///
/// The common 12-byte page header (LSN and page number) is followed by the
/// meta body: magic, version, page size, type and statistics, and the root
/// page number at byte 88.  The encryption-era tail fields (crypto magic,
/// IV, checksum) are surfaced but not acted upon.
#[derive(Debug, PartialEq, Eq)]
pub struct BtreeMeta {
    pub endian: Endian,
    pub lsn_file: u32,
    pub lsn_offset: u32,
    pub pgno: u32,
    pub magic: u32,
    pub version: u32,
    pub pagesize: u32,
    pub encrypt_alg: u8,
    pub p_type: PageType,
    pub metaflags: u8,
    pub free: u32,
    pub last_pgno: u32,
    pub key_count: u32,
    pub record_count: u32,
    pub flags: u32,
    pub uid: Vec<u8>,
    pub minkey: u32,
    pub re_len: u32,
    pub re_pad: u32,
    pub root: u32,
    pub crypto_magic: u32,
    pub iv: Vec<u8>,
    pub chksum: Vec<u8>,
}

/// Mathematical model of `BtreeMeta`: byte buffers as sequences.
pub struct BtreeMetaModel {
    pub endian: Endian,
    pub lsn_file: u32,
    pub lsn_offset: u32,
    pub pgno: u32,
    pub magic: u32,
    pub version: u32,
    pub pagesize: u32,
    pub encrypt_alg: u8,
    pub p_type: PageType,
    pub metaflags: u8,
    pub free: u32,
    pub last_pgno: u32,
    pub key_count: u32,
    pub record_count: u32,
    pub flags: u32,
    pub uid: Seq<u8>,
    pub minkey: u32,
    pub re_len: u32,
    pub re_pad: u32,
    pub root: u32,
    pub crypto_magic: u32,
    pub iv: Seq<u8>,
    pub chksum: Seq<u8>,
}

impl View for BtreeMeta {
    type V = BtreeMetaModel;

    open spec fn view(&self) -> BtreeMetaModel {
        BtreeMetaModel {
            endian: self.endian,
            lsn_file: self.lsn_file,
            lsn_offset: self.lsn_offset,
            pgno: self.pgno,
            magic: self.magic,
            version: self.version,
            pagesize: self.pagesize,
            encrypt_alg: self.encrypt_alg,
            p_type: self.p_type,
            metaflags: self.metaflags,
            free: self.free,
            last_pgno: self.last_pgno,
            key_count: self.key_count,
            record_count: self.record_count,
            flags: self.flags,
            uid: self.uid@,
            minkey: self.minkey,
            re_len: self.re_len,
            re_pad: self.re_pad,
            root: self.root,
            crypto_magic: self.crypto_magic,
            iv: self.iv@,
            chksum: self.chksum@,
        }
    }
}

/// The meta page that `parse_btree_meta_page0` decodes from the first page:
/// fails with `ShortPage` below 512 bytes, `MagicNotFound` when the magic
/// matches in neither byte order, and `ImplausiblePageSize` when the page
/// size is zero or not a multiple of 512; otherwise every field is the word
/// at its fixed offset, with the encryption tail fields zero where the
/// buffer is too short to hold them.
pub open spec fn spec_parse_meta(p: Seq<u8>) -> Result<BtreeMetaModel, FormatError> {
    if p.len() < 512 {
        Err(FormatError::ShortPage)
    } else {
        match spec_detect_endian(p) {
            None => Err(FormatError::MagicNotFound),
            Some(e) => {
                let pagesize = w32_at(e, p, 20);
                if pagesize == 0 || pagesize % 512 != 0 {
                    Err(FormatError::ImplausiblePageSize(pagesize))
                } else {
                    Ok(
                        BtreeMetaModel {
                            endian: e,
                            lsn_file: w32_at(e, p, 0),
                            lsn_offset: w32_at(e, p, 4),
                            pgno: w32_at(e, p, 8),
                            magic: w32_at(e, p, 12),
                            version: w32_at(e, p, 16),
                            pagesize: pagesize,
                            encrypt_alg: p[24],
                            p_type: spec_page_type_from_code(p[25]),
                            metaflags: p[26],
                            free: w32_at(e, p, 28),
                            last_pgno: w32_at(e, p, 32),
                            key_count: w32_at(e, p, 40),
                            record_count: w32_at(e, p, 44),
                            flags: w32_at(e, p, 48),
                            uid: p.subrange(52, 72),
                            minkey: w32_at(e, p, 76),
                            re_len: w32_at(e, p, 80),
                            re_pad: w32_at(e, p, 84),
                            root: w32_at(e, p, 88),
                            crypto_magic: if p.len() >= 464 {
                                w32_at(e, p, 460)
                            } else {
                                0
                            },
                            iv: if p.len() >= 492 {
                                p.subrange(476, 492)
                            } else {
                                Seq::new(16, |i: int| 0u8)
                            },
                            chksum: if p.len() >= 516 {
                                p.subrange(496, 516)
                            } else {
                                Seq::new(20, |i: int| 0u8)
                            },
                        },
                    )
                }
            },
        }
    }
}

/// Decode the meta page from the first page-sized region of the file,
/// detecting the byte order from the magic and validating the page size.
pub fn parse_btree_meta_page0(page: &[u8]) -> (r: Result<BtreeMeta, FormatError>)
    ensures
        match (r, spec_parse_meta(page@)) {
            (Ok(a), Ok(b)) => a@ == b,
            (Err(a), Err(b)) => a == b,
            _ => false,
        },
{
    let n: usize = page.len();
    if n < 512 {
        return Err(FormatError::ShortPage);
    }
    let endian = match detect_endian(page) {
        Some(e) => e,
        None => {
            return Err(FormatError::MagicNotFound);
        },
    };
    let pagesize = u32_at(endian, page, 20);
    if pagesize == 0 || pagesize % 512 != 0 {
        return Err(FormatError::ImplausiblePageSize(pagesize));
    }
    let crypto_magic = if n >= 464 {
        u32_at(endian, page, 460)
    } else {
        0
    };
    let iv = if n >= 492 {
        bytes_range(page, 476, 492)
    } else {
        zero_bytes(16)
    };
    let chksum = if n >= 516 {
        bytes_range(page, 496, 516)
    } else {
        zero_bytes(20)
    };
    Ok(
        BtreeMeta {
            endian,
            lsn_file: u32_at(endian, page, 0),
            lsn_offset: u32_at(endian, page, 4),
            pgno: u32_at(endian, page, 8),
            magic: u32_at(endian, page, 12),
            version: u32_at(endian, page, 16),
            pagesize,
            encrypt_alg: page[24],
            p_type: PageType::from_code(page[25]),
            metaflags: page[26],
            free: u32_at(endian, page, 28),
            last_pgno: u32_at(endian, page, 32),
            key_count: u32_at(endian, page, 40),
            record_count: u32_at(endian, page, 44),
            flags: u32_at(endian, page, 48),
            uid: bytes_range(page, 52, 72),
            minkey: u32_at(endian, page, 76),
            re_len: u32_at(endian, page, 80),
            re_pad: u32_at(endian, page, 84),
            root: u32_at(endian, page, 88),
            crypto_magic,
            iv,
            chksum,
        },
    )
}

} // verus!
