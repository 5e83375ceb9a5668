//! Byte-order aware word reads, byte-order detection, hex rendering, and the
//! entries/hf_offset-style page header decoder.

use vstd::prelude::*;

use crate::error::FormatError;
use crate::page::PageType;

verus! {

broadcast use vstd::slice::group_slice_axioms;

/// Byte order of a database file, fixed for the whole file.
#[derive(Copy, Clone, Debug, PartialEq, Eq, Structural)]
pub enum Endian {
    Le,
    Be,
}

/// The Btree magic constant, stored at bytes 12..16 of the meta page in the
/// file's native byte order.
pub const BTREE_MAGIC: u32 = 0x0005_3162;

/// The 16-bit value encoded by two bytes in the given byte order.
pub open spec fn word16(e: Endian, b0: u8, b1: u8) -> u16 {
    match e {
        Endian::Le => (b0 + b1 * 0x100) as u16,
        Endian::Be => (b1 + b0 * 0x100) as u16,
    }
}

/// The 32-bit value encoded by four bytes in the given byte order.
pub open spec fn word32(e: Endian, b0: u8, b1: u8, b2: u8, b3: u8) -> u32 {
    match e {
        Endian::Le => (b0 + b1 * 0x100 + b2 * 0x1_0000 + b3 * 0x100_0000) as u32,
        Endian::Be => (b3 + b2 * 0x100 + b1 * 0x1_0000 + b0 * 0x100_0000) as u32,
    }
}

/// The 64-bit value encoded by eight bytes in the given byte order.
pub open spec fn word64(e: Endian, b: Seq<u8>) -> u64
    recommends
        b.len() == 8,
{
    match e {
        Endian::Le => (b[0] + b[1] * 0x100 + b[2] * 0x1_0000 + b[3] * 0x100_0000
            + b[4] * 0x1_0000_0000 + b[5] * 0x100_0000_0000 + b[6] * 0x1_0000_0000_0000
            + b[7] * 0x100_0000_0000_0000) as u64,
        Endian::Be => (b[7] + b[6] * 0x100 + b[5] * 0x1_0000 + b[4] * 0x100_0000
            + b[3] * 0x1_0000_0000 + b[2] * 0x100_0000_0000 + b[1] * 0x1_0000_0000_0000
            + b[0] * 0x100_0000_0000_0000) as u64,
    }
}

/// The 16-bit word at byte offset `off` of `p`.
pub open spec fn w16_at(e: Endian, p: Seq<u8>, off: int) -> u16
    recommends
        0 <= off,
        off + 2 <= p.len(),
{
    word16(e, p[off], p[off + 1])
}

/// The 32-bit word at byte offset `off` of `p`.
pub open spec fn w32_at(e: Endian, p: Seq<u8>, off: int) -> u32
    recommends
        0 <= off,
        off + 4 <= p.len(),
{
    word32(e, p[off], p[off + 1], p[off + 2], p[off + 3])
}

/// Read a 16-bit word from the first two bytes of `b`.
pub fn u16e(e: Endian, b: &[u8]) -> (r: u16)
    requires
        b@.len() >= 2,
    ensures
        r == w16_at(e, b@, 0),
{
    match e {
        Endian::Le => b[0] as u16 + (b[1] as u16) * 0x100,
        Endian::Be => b[1] as u16 + (b[0] as u16) * 0x100,
    }
}

/// Read a 32-bit word from the first four bytes of `b`.
pub fn u32e(e: Endian, b: &[u8]) -> (r: u32)
    requires
        b@.len() >= 4,
    ensures
        r == w32_at(e, b@, 0),
{
    match e {
        Endian::Le => b[0] as u32 + (b[1] as u32) * 0x100 + (b[2] as u32) * 0x1_0000 + (b[3]
            as u32) * 0x100_0000,
        Endian::Be => b[3] as u32 + (b[2] as u32) * 0x100 + (b[1] as u32) * 0x1_0000 + (b[0]
            as u32) * 0x100_0000,
    }
}

/// Read a 64-bit word from the first eight bytes of `b`.
pub fn u64e(e: Endian, b: &[u8]) -> (r: u64)
    requires
        b@.len() >= 8,
    ensures
        r == word64(e, b@.subrange(0, 8)),
{
    proof {
        assert(b@.subrange(0, 8)[0] == b@[0]);
    }
    match e {
        Endian::Le => b[0] as u64 + (b[1] as u64) * 0x100 + (b[2] as u64) * 0x1_0000 + (b[3]
            as u64) * 0x100_0000 + (b[4] as u64) * 0x1_0000_0000 + (b[5] as u64)
            * 0x100_0000_0000 + (b[6] as u64) * 0x1_0000_0000_0000 + (b[7] as u64)
            * 0x100_0000_0000_0000,
        Endian::Be => b[7] as u64 + (b[6] as u64) * 0x100 + (b[5] as u64) * 0x1_0000 + (b[4]
            as u64) * 0x100_0000 + (b[3] as u64) * 0x1_0000_0000 + (b[2] as u64)
            * 0x100_0000_0000 + (b[1] as u64) * 0x1_0000_0000_0000 + (b[0] as u64)
            * 0x100_0000_0000_0000,
    }
}

/// Read a 16-bit word at offset `off` of `b`.
pub fn u16_at(e: Endian, b: &[u8], off: usize) -> (r: u16)
    requires
        off + 2 <= b@.len(),
    ensures
        r == w16_at(e, b@, off as int),
{
    let _len: usize = b.len();
    match e {
        Endian::Le => b[off] as u16 + (b[off + 1] as u16) * 0x100,
        Endian::Be => b[off + 1] as u16 + (b[off] as u16) * 0x100,
    }
}

/// Read a 32-bit word at offset `off` of `b`.
pub fn u32_at(e: Endian, b: &[u8], off: usize) -> (r: u32)
    requires
        off + 4 <= b@.len(),
    ensures
        r == w32_at(e, b@, off as int),
{
    let _len: usize = b.len();
    match e {
        Endian::Le => b[off] as u32 + (b[off + 1] as u32) * 0x100 + (b[off + 2] as u32)
            * 0x1_0000 + (b[off + 3] as u32) * 0x100_0000,
        Endian::Be => b[off + 3] as u32 + (b[off + 2] as u32) * 0x100 + (b[off + 1] as u32)
            * 0x1_0000 + (b[off] as u32) * 0x100_0000,
    }
}

/// The byte order under which `b` carries the Btree magic at bytes 12..16,
/// little-endian preferred where both would match.
pub open spec fn spec_detect_endian(b: Seq<u8>) -> Option<Endian> {
    if b.len() < 16 {
        None
    } else if w32_at(Endian::Le, b, 12) == BTREE_MAGIC {
        Some(Endian::Le)
    } else if w32_at(Endian::Be, b, 12) == BTREE_MAGIC {
        Some(Endian::Be)
    } else {
        None
    }
}

/// Detect the file's byte order from the Btree magic at bytes 12..16 of the
/// meta page.  Returns `None` when the magic matches in neither order or the
/// buffer is shorter than 16 bytes.
pub fn detect_endian(buf: &[u8]) -> (r: Option<Endian>)
    ensures
        r == spec_detect_endian(buf@),
{
    if buf.len() < 16 {
        return None;
    }
    if u32_at(Endian::Le, buf, 12) == BTREE_MAGIC {
        Some(Endian::Le)
    } else if u32_at(Endian::Be, buf, 12) == BTREE_MAGIC {
        Some(Endian::Be)
    } else {
        None
    }
}

/// A page header in the entries/hf_offset encoding: the slot count and the
/// high-free offset (start of the packed data region) are stored directly at
/// bytes 20 and 22, and the page type is the one-byte code at byte 25.
#[derive(Debug, Copy, Clone, PartialEq, Eq, Structural)]
pub struct PageHeader {
    pub lsn_file: u32,
    pub lsn_off: u32,
    pub pgno: u32,
    pub prev: u32,
    pub next: u32,
    pub entries: u16,
    pub hf_offset: u16,
    pub level: u8,
    pub ptype: PageType,
}

/// The header that `parse_page_header` decodes from a page's leading bytes.
pub open spec fn spec_parse_page_header(p: Seq<u8>, e: Endian) -> Result<
    PageHeader,
    FormatError,
> {
    if p.len() < 26 {
        Err(FormatError::ShortPage)
    } else {
        Ok(
            PageHeader {
                lsn_file: w32_at(e, p, 0),
                lsn_off: w32_at(e, p, 4),
                pgno: w32_at(e, p, 8),
                prev: w32_at(e, p, 12),
                next: w32_at(e, p, 16),
                entries: w16_at(e, p, 20),
                hf_offset: w16_at(e, p, 22),
                level: p[24],
                ptype: crate::page::spec_page_type_from_code(p[25]),
            },
        )
    }
}

/// Decode a page header in the entries/hf_offset encoding.  Fails with
/// `ShortPage` when the buffer is smaller than the 26-byte minimum.
pub fn parse_page_header(page: &[u8], e: Endian) -> (r: Result<PageHeader, FormatError>)
    ensures
        r == spec_parse_page_header(page@, e),
{
    if page.len() < 26 {
        return Err(FormatError::ShortPage);
    }
    Ok(
        PageHeader {
            lsn_file: u32_at(e, page, 0),
            lsn_off: u32_at(e, page, 4),
            pgno: u32_at(e, page, 8),
            prev: u32_at(e, page, 12),
            next: u32_at(e, page, 16),
            entries: u16_at(e, page, 20),
            hf_offset: u16_at(e, page, 22),
            level: page[24],
            ptype: PageType::from_code(page[25]),
        },
    )
}

/// The byte region of page `pgno` in the file image, given page size `ps`.
pub open spec fn spec_page_region(all: Seq<u8>, ps: int, pgno: int) -> Seq<u8> {
    all.subrange(pgno * ps, (pgno + 1) * ps)
}

/// Slice page `pgno` out of the file image.
pub fn page_slice<'a>(all: &'a [u8], ps: usize, pgno: u32) -> (r: &'a [u8])
    requires
        ps >= 1,
        (pgno as int + 1) * (ps as int) <= all@.len(),
    ensures
        r@ == spec_page_region(all@, ps as int, pgno as int),
        r@.len() == ps,
{
    let _len: usize = all.len();
    let i = pgno as usize;
    proof {
        assert((i as int + 1) * (ps as int) == i as int * ps as int + ps as int)
            by (nonlinear_arith);
        assert(i as int * ps as int >= 0) by (nonlinear_arith);
    }
    let start: usize = i * ps;
    vstd::slice::slice_subrange(all, start, start + ps)
}

/// Copy the bytes `[start, end)` of a slice into an owned vector.
pub fn bytes_range(s: &[u8], start: usize, end: usize) -> (r: Vec<u8>)
    requires
        start <= end,
        end <= s@.len(),
    ensures
        r@ == s@.subrange(start as int, end as int),
{
    let sub = vstd::slice::slice_subrange(s, start, end);
    vstd::slice::slice_to_vec(sub)
}

/// A vector of `n` zero bytes.
pub fn zero_bytes(n: usize) -> (r: Vec<u8>)
    ensures
        r@ == Seq::new(n as nat, |i: int| 0u8),
{
    let mut r: Vec<u8> = Vec::new();
    let mut i: usize = 0;
    while i < n
        invariant
            i <= n,
            r@ == Seq::new(i as nat, |j: int| 0u8),
        decreases n - i,
    {
        r.push(0u8);
        i = i + 1;
        proof {
            assert(r@ =~= Seq::new(i as nat, |j: int| 0u8));
        }
    }
    r
}

/// The character that renders a hex nibble.
pub open spec fn hex_digit(n: u8) -> char
    recommends
        n < 16,
{
    if n == 0 {
        '0'
    } else if n == 1 {
        '1'
    } else if n == 2 {
        '2'
    } else if n == 3 {
        '3'
    } else if n == 4 {
        '4'
    } else if n == 5 {
        '5'
    } else if n == 6 {
        '6'
    } else if n == 7 {
        '7'
    } else if n == 8 {
        '8'
    } else if n == 9 {
        '9'
    } else if n == 10 {
        'a'
    } else if n == 11 {
        'b'
    } else if n == 12 {
        'c'
    } else if n == 13 {
        'd'
    } else if n == 14 {
        'e'
    } else {
        'f'
    }
}

/// The lowercase hex rendering of a byte sequence: two digits per byte, the
/// high nibble first.
pub open spec fn hex_of(b: Seq<u8>) -> Seq<char> {
    Seq::new(
        2 * b.len(),
        |i: int|
            if i % 2 == 0 {
                hex_digit(b[i / 2] / 16)
            } else {
                hex_digit(b[i / 2] % 16)
            },
    )
}

/// The one-character string that renders a hex nibble.
fn hex_digit_str(n: u8) -> (r: &'static str)
    requires
        n < 16,
    ensures
        r@.len() == 1,
        r@[0] == hex_digit(n),
{
    proof {
        reveal_strlit("0");
        reveal_strlit("1");
        reveal_strlit("2");
        reveal_strlit("3");
        reveal_strlit("4");
        reveal_strlit("5");
        reveal_strlit("6");
        reveal_strlit("7");
        reveal_strlit("8");
        reveal_strlit("9");
        reveal_strlit("a");
        reveal_strlit("b");
        reveal_strlit("c");
        reveal_strlit("d");
        reveal_strlit("e");
        reveal_strlit("f");
    }
    if n == 0 {
        "0"
    } else if n == 1 {
        "1"
    } else if n == 2 {
        "2"
    } else if n == 3 {
        "3"
    } else if n == 4 {
        "4"
    } else if n == 5 {
        "5"
    } else if n == 6 {
        "6"
    } else if n == 7 {
        "7"
    } else if n == 8 {
        "8"
    } else if n == 9 {
        "9"
    } else if n == 10 {
        "a"
    } else if n == 11 {
        "b"
    } else if n == 12 {
        "c"
    } else if n == 13 {
        "d"
    } else if n == 14 {
        "e"
    } else {
        "f"
    }
}

/// Render bytes as lowercase hex, two digits per byte.
pub fn hex(bytes: &[u8]) -> (s: String)
    ensures
        s@ == hex_of(bytes@),
{
    let n: usize = bytes.len();
    let mut s = String::new();
    let mut i: usize = 0;
    while i < n
        invariant
            i <= n,
            n == bytes@.len(),
            s@ == hex_of(bytes@.take(i as int)),
        decreases n - i,
    {
        let b = bytes[i];
        let hi = hex_digit_str(b / 16);
        let lo = hex_digit_str(b % 16);
        s.append(hi);
        s.append(lo);
        i = i + 1;
        proof {
            assert(s@ =~= hex_of(bytes@.take(i as int)));
        }
    }
    proof {
        assert(bytes@.take(n as int) =~= bytes@);
    }
    s
}

} // verus!
