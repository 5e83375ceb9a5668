//! The leaf-page record pipeline: overflow-chain reassembly, slot pairing,
//! the alternate BLEAF field encoding, and the wallet key conventions.

use vstd::prelude::*;

use crate::entry::constants::{read_slots, spec_slot_count, spec_slots, Field, FieldModel,
    OverflowRef};
use crate::error::FormatError;
use crate::leaf::{parse_leaf_entry, spec_parse_leaf_entry, LeafItem, LeafItemModel,
    ParsedLeafEntry};
use crate::page::PageType;
use crate::storage::page::{page_kind, spec_page_kind};
use crate::storage::types::HeaderLayout;
use crate::util::{bytes_range, page_slice, spec_page_region, u32_at, w32_at, Endian, PageHeader};

verus! {

broadcast use vstd::slice::group_slice_axioms;

/// The bytes an overflow chain yields: starting at page `pg`, each page in
/// the chain must be overflow-typed and contributes its payload region
/// `[28, page_size)`; the chain follows each page's `next` pointer until
/// `rem` bytes are collected.  Fails when a page number lies outside the
/// image, a page is not overflow-typed, or the chain ends early.
pub open spec fn spec_read_overflow(
    all: Seq<u8>,
    ps: int,
    e: Endian,
    layout: HeaderLayout,
    pg: u32,
    rem: int,
) -> Result<Seq<u8>, FormatError>
    decreases rem,
{
    if rem <= 0 {
        Ok(Seq::empty())
    } else if ps < 29 {
        Err(FormatError::ImplausiblePageSize(ps as u32))
    } else if (pg + 1) * ps > all.len() {
        Err(FormatError::FieldOutOfBounds(pg))
    } else {
        let page = spec_page_region(all, ps, pg as int);
        if spec_page_kind(page, e, layout) != PageType::Overflow {
            Err(FormatError::UnexpectedPageType(pg))
        } else {
            let take = if rem < ps - 28 {
                rem
            } else {
                ps - 28
            };
            let head = page.subrange(28, 28 + take);
            if rem == take {
                Ok(head)
            } else {
                let next = w32_at(e, page, 16);
                if next == 0 {
                    Err(FormatError::TruncatedOverflowChain((rem - take) as u32))
                } else {
                    match spec_read_overflow(all, ps, e, layout, next, rem - take) {
                        Ok(tail) => Ok(head + tail),
                        Err(er) => Err(er),
                    }
                }
            }
        }
    }
}

/// A successful overflow read yields exactly the requested number of bytes.
pub proof fn lemma_overflow_len(
    all: Seq<u8>,
    ps: int,
    e: Endian,
    layout: HeaderLayout,
    pg: u32,
    rem: int,
)
    requires
        rem >= 0,
        spec_read_overflow(all, ps, e, layout, pg, rem) is Ok,
    ensures
        spec_read_overflow(all, ps, e, layout, pg, rem)->Ok_0.len() == rem,
    decreases rem,
{
    if rem > 0 {
        assert(ps >= 29);
        assert((pg as int) * ps >= 0 && (pg as int + 1) * ps == (pg as int) * ps + ps)
            by (nonlinear_arith)
            requires
                ps >= 29,
                pg as int >= 0,
        ;
        let page = spec_page_region(all, ps, pg as int);
        let take = if rem < ps - 28 {
            rem
        } else {
            ps - 28
        };
        if rem != take {
            let next = w32_at(e, page, 16);
            lemma_overflow_len(all, ps, e, layout, next, rem - take);
        }
    }
}

/// Walk an overflow chain, collecting `rem` more bytes starting at page
/// `pg`.
fn read_overflow_rec(
    all: &[u8],
    ps: usize,
    e: Endian,
    layout: HeaderLayout,
    pg: u32,
    rem: usize,
) -> (r: Result<Vec<u8>, FormatError>)
    requires
        512 <= ps <= u32::MAX,
        rem <= u32::MAX,
    ensures
        match (r, spec_read_overflow(all@, ps as int, e, layout, pg, rem as int)) {
            (Ok(v), Ok(s)) => v@ == s,
            (Err(a), Err(b)) => a == b,
            _ => false,
        },
    decreases rem,
{
    if rem == 0 {
        return Ok(Vec::new());
    }
    let n: usize = all.len();
    proof {
        assert((pg as int + 1) * (ps as int) <= 0xffff_ffff_0000_0000) by (nonlinear_arith)
            requires
                pg as int <= 0xffff_ffff,
                ps as int <= 0xffff_ffff,
        ;
    }
    if (pg as u64 + 1) * (ps as u64) > n as u64 {
        return Err(FormatError::FieldOutOfBounds(pg));
    }
    let page = page_slice(all, ps, pg);
    if !matches!(page_kind(page, e, layout), PageType::Overflow) {
        return Err(FormatError::UnexpectedPageType(pg));
    }
    let payload_len = ps - 28;
    let take = if rem < payload_len {
        rem
    } else {
        payload_len
    };
    let mut out = bytes_range(page, 28, 28 + take);
    if rem == take {
        return Ok(out);
    }
    let next = u32_at(e, page, 16);
    if next == 0 {
        return Err(FormatError::TruncatedOverflowChain((rem - take) as u32));
    }
    match read_overflow_rec(all, ps, e, layout, next, rem - take) {
        Ok(tail) => {
            let mut tail = tail;
            out.append(&mut tail);
            Ok(out)
        },
        Err(er) => Err(er),
    }
}

/// Follow an overflow chain and materialize `total_len` bytes.  Each
/// overflow page's payload is its bytes `[28, page_size)`; the chain follows
/// each header's `next` pointer.  On success the buffer holds exactly
/// `total_len` bytes.
pub fn read_overflow(all: &[u8], ps: usize, e: Endian, br: OverflowRef) -> (r: Result<
    Vec<u8>,
    FormatError,
>)
    requires
        512 <= ps <= u32::MAX,
    ensures
        match (
            r,
            spec_read_overflow(
                all@,
                ps as int,
                e,
                HeaderLayout::EntriesHf,
                br.first_page,
                br.total_len as int,
            ),
        ) {
            (Ok(v), Ok(s)) => v@ == s && v@.len() == br.total_len,
            (Err(a), Err(b)) => a == b,
            _ => false,
        },
{
    let r = read_overflow_rec(all, ps, e, HeaderLayout::EntriesHf, br.first_page, br.total_len
        as usize);
    proof {
        if r is Ok {
            lemma_overflow_len(
                all@,
                ps as int,
                e,
                HeaderLayout::EntriesHf,
                br.first_page,
                br.total_len as int,
            );
        }
    }
    r
}

/// One key/value record recovered from a leaf page, with the slot index of
/// its key.
#[derive(Debug)]
pub struct PageRecord {
    pub key: Vec<u8>,
    pub value: Vec<u8>,
    pub slot: u16,
}

/// Mathematical model of a `PageRecord`.
pub struct PageRecordModel {
    pub key: Seq<u8>,
    pub value: Seq<u8>,
    pub slot: u16,
}

impl View for PageRecord {
    type V = PageRecordModel;

    open spec fn view(&self) -> PageRecordModel {
        PageRecordModel { key: self.key@, value: self.value@, slot: self.slot }
    }
}

/// The models of a sequence of records.
pub open spec fn records_view(s: Seq<PageRecord>) -> Seq<PageRecordModel> {
    s.map_values(|r: PageRecord| r@)
}

/// The key/value pairs of a sequence of record models.
pub open spec fn record_pairs(s: Seq<PageRecordModel>) -> Seq<(Seq<u8>, Seq<u8>)> {
    s.map_values(|r: PageRecordModel| (r.key, r.value))
}

/// The views of a sequence of owned byte pairs.
pub open spec fn pairs_view(s: Seq<(Vec<u8>, Vec<u8>)>) -> Seq<(Seq<u8>, Seq<u8>)> {
    s.map_values(|p: (Vec<u8>, Vec<u8>)| (p.0@, p.1@))
}

/// The bytes a leaf field denotes: inline bytes as they stand, an overflow
/// reference by walking its chain.
pub open spec fn spec_field_bytes(
    all: Seq<u8>,
    ps: int,
    e: Endian,
    layout: HeaderLayout,
    item: LeafItemModel,
) -> Result<Seq<u8>, FormatError> {
    match item {
        LeafItemModel::KeyData(s) => Ok(s),
        LeafItemModel::Overflow { first_pg, total_len } => spec_read_overflow(
            all,
            ps,
            e,
            layout,
            first_pg,
            total_len as int,
        ),
    }
}

/// Materialize a leaf field as owned bytes.
fn field_bytes(all: &[u8], ps: usize, e: Endian, layout: HeaderLayout, item: &LeafItem) -> (r:
    Result<Vec<u8>, FormatError>)
    requires
        512 <= ps <= u32::MAX,
    ensures
        match (r, spec_field_bytes(all@, ps as int, e, layout, item@)) {
            (Ok(v), Ok(s)) => v@ == s,
            (Err(a), Err(b)) => a == b,
            _ => false,
        },
{
    match item {
        LeafItem::KeyData(s) => Ok(vstd::slice::slice_to_vec(s)),
        LeafItem::Overflow { first_pg, total_len } => read_overflow_rec(
            all,
            ps,
            e,
            layout,
            *first_pg,
            *total_len as usize,
        ),
    }
}

/// The model of a pending key entry.
pub open spec fn spec_pend_view<'a>(p: Option<(LeafItem<'a>, u16)>) -> Option<
    (LeafItemModel, u16),
> {
    match p {
        None => None,
        Some((it, s)) => Some((it@, s)),
    }
}

/// The records and skipped-slot diagnostics that pairing yields from slot
/// `i` onward, given a pending key.  A slot whose offset lies below `upper`
/// or whose three-byte entry header would not fit in the page is skipped
/// with a diagnostic (never fatal); tombstoned entries are skipped silently;
/// the remaining entries pair strictly by position, key then value, and a
/// trailing unpaired key is discarded.  Entry decode faults and overflow
/// faults end the page with an error.
pub open spec fn spec_pair_loop(
    all: Seq<u8>,
    ps: int,
    e: Endian,
    layout: HeaderLayout,
    page: Seq<u8>,
    offs: Seq<u16>,
    i: int,
    upper: int,
    pend: Option<(LeafItemModel, u16)>,
) -> Result<(Seq<PageRecordModel>, Seq<u32>), FormatError>
    decreases offs.len() - i,
{
    if i < 0 || i >= offs.len() {
        Ok((Seq::empty(), Seq::empty()))
    } else {
        let off = offs[i] as int;
        if off < upper || off + 3 > page.len() {
            match spec_pair_loop(all, ps, e, layout, page, offs, i + 1, upper, pend) {
                Ok(rest) => Ok((rest.0, seq![offs[i] as u32] + rest.1)),
                Err(er) => Err(er),
            }
        } else {
            match spec_parse_leaf_entry(page, off, e) {
                Err(er) => Err(er),
                Ok(ent) => {
                    if ent.deleted {
                        spec_pair_loop(all, ps, e, layout, page, offs, i + 1, upper, pend)
                    } else {
                        match pend {
                            None => spec_pair_loop(
                                all,
                                ps,
                                e,
                                layout,
                                page,
                                offs,
                                i + 1,
                                upper,
                                Some((ent.item, i as u16)),
                            ),
                            Some((kitem, kslot)) => match spec_field_bytes(
                                all,
                                ps,
                                e,
                                layout,
                                kitem,
                            ) {
                                Err(er) => Err(er),
                                Ok(kb) => match spec_field_bytes(all, ps, e, layout, ent.item) {
                                    Err(er) => Err(er),
                                    Ok(vb) => match spec_pair_loop(
                                        all,
                                        ps,
                                        e,
                                        layout,
                                        page,
                                        offs,
                                        i + 1,
                                        upper,
                                        None,
                                    ) {
                                        Ok(rest) => Ok(
                                            (
                                                seq![
                                                    PageRecordModel {
                                                        key: kb,
                                                        value: vb,
                                                        slot: kslot,
                                                    },
                                                ] + rest.0,
                                                rest.1,
                                            ),
                                        ),
                                        Err(er) => Err(er),
                                    },
                                },
                            },
                        }
                    }
                },
            }
        }
    }
}

/// Pair the slots of a leaf page from index `i` onward.
fn pairs_from_slots<'a>(
    all: &[u8],
    ps: usize,
    e: Endian,
    layout: HeaderLayout,
    page: &'a [u8],
    offs: &Vec<u16>,
    i: usize,
    upper: usize,
    pend: Option<(LeafItem<'a>, u16)>,
) -> (r: Result<(Vec<PageRecord>, Vec<u32>), FormatError>)
    requires
        512 <= ps <= u32::MAX,
        i <= offs@.len(),
        offs@.len() <= u16::MAX,
    ensures
        match (
            r,
            spec_pair_loop(
                all@,
                ps as int,
                e,
                layout,
                page@,
                offs@,
                i as int,
                upper as int,
                spec_pend_view(pend),
            ),
        ) {
            (Ok(v), Ok(s)) => records_view(v.0@) == s.0 && v.1@ == s.1,
            (Err(a), Err(b)) => a == b,
            _ => false,
        },
    decreases offs@.len() - i,
{
    if i >= offs.len() {
        return Ok((Vec::new(), Vec::new()));
    }
    let off = offs[i] as usize;
    let n: usize = page.len();
    if off < upper || off + 3 > n {
        match pairs_from_slots(all, ps, e, layout, page, offs, i + 1, upper, pend) {
            Ok((recs, diags)) => {
                let mut diags = diags;
                diags.insert(0, off as u32);
                Ok((recs, diags))
            },
            Err(er) => Err(er),
        }
    } else {
        match parse_leaf_entry(page, off, e) {
            Err(er) => Err(er),
            Ok(ent) => {
                if ent.deleted {
                    pairs_from_slots(all, ps, e, layout, page, offs, i + 1, upper, pend)
                } else {
                    match pend {
                        None => pairs_from_slots(
                            all,
                            ps,
                            e,
                            layout,
                            page,
                            offs,
                            i + 1,
                            upper,
                            Some((ent.item, i as u16)),
                        ),
                        Some((kitem, kslot)) => {
                            let kb = match field_bytes(all, ps, e, layout, &kitem) {
                                Ok(v) => v,
                                Err(er) => {
                                    return Err(er);
                                },
                            };
                            let vb = match field_bytes(all, ps, e, layout, &ent.item) {
                                Ok(v) => v,
                                Err(er) => {
                                    return Err(er);
                                },
                            };
                            match pairs_from_slots(all, ps, e, layout, page, offs, i + 1, upper,
                                None) {
                                Ok((recs, diags)) => {
                                    let mut recs = recs;
                                    recs.insert(0, PageRecord { key: kb, value: vb, slot: kslot });
                                    proof {
                                        assert(records_view(recs@) =~= seq![
                                            PageRecordModel {
                                                key: kb@,
                                                value: vb@,
                                                slot: kslot,
                                            },
                                        ] + records_view(recs@.skip(1)));
                                    }
                                    Ok((recs, diags))
                                },
                                Err(er) => Err(er),
                            }
                        },
                    }
                }
            },
        }
    }
}

/// The records and skipped-slot diagnostics of a leaf page whose slot array
/// ends at `lower` and whose packed data region starts at `upper`.
pub open spec fn spec_extract_records(
    all: Seq<u8>,
    ps: int,
    e: Endian,
    layout: HeaderLayout,
    page: Seq<u8>,
    lower: int,
    upper: int,
) -> Result<(Seq<PageRecordModel>, Seq<u32>), FormatError> {
    spec_pair_loop(all, ps, e, layout, page, spec_slots(page, e, lower), 0, upper, None)
}

/// Extract the records of one leaf page, pairing adjacent non-deleted slots
/// and materializing inline and overflow fields.  Also returns the offsets
/// of slots that were skipped as out of bounds.
pub fn extract_leaf_records(
    all: &[u8],
    ps: usize,
    e: Endian,
    layout: HeaderLayout,
    page: &[u8],
    lower: u32,
    upper: u32,
) -> (r: Result<(Vec<PageRecord>, Vec<u32>), FormatError>)
    requires
        512 <= ps <= u32::MAX,
        lower as int <= 28 + 2 * 65535,
        spec_slot_count(lower as int) == 0 || 28 + 2 * spec_slot_count(lower as int)
            <= page@.len(),
    ensures
        match (
            r,
            spec_extract_records(
                all@,
                ps as int,
                e,
                layout,
                page@,
                lower as int,
                upper as int,
            ),
        ) {
            (Ok(v), Ok(s)) => records_view(v.0@) == s.0 && v.1@ == s.1,
            (Err(a), Err(b)) => a == b,
            _ => false,
        },
{
    let offs = read_slots(page, e, lower as usize);
    pairs_from_slots(all, ps, e, layout, page, &offs, 0, upper as usize, None)
}

/// Strip records to bare key/value pairs.
fn records_to_pairs(recs: Vec<PageRecord>) -> (r: Vec<(Vec<u8>, Vec<u8>)>)
    ensures
        pairs_view(r@) == record_pairs(records_view(recs@)),
{
    let ghost full = records_view(recs@);
    let mut recs = recs;
    let mut pairs: Vec<(Vec<u8>, Vec<u8>)> = Vec::new();
    proof {
        assert(pairs_view(pairs@) + record_pairs(records_view(recs@)) =~= record_pairs(full));
    }
    while recs.len() > 0
        invariant
            pairs_view(pairs@) + record_pairs(records_view(recs@)) == record_pairs(full),
        decreases recs@.len(),
    {
        let rec = recs.remove(0);
        pairs.push((rec.key, rec.value));
        proof {
            assert(pairs_view(pairs@) + record_pairs(records_view(recs@)) =~= record_pairs(
                full,
            ));
        }
    }
    proof {
        assert(pairs_view(pairs@) =~= record_pairs(full));
    }
    pairs
}

/// The key/value pairs that `leaf_pairs_on_page` yields: pairing over the
/// slot array `[28, 28 + 2 * entries)` with entries validated against the
/// high-free offset.
pub open spec fn spec_leaf_pairs_on_page(
    all: Seq<u8>,
    ps: int,
    e: Endian,
    page: Seq<u8>,
    hdr: PageHeader,
) -> Result<Seq<(Seq<u8>, Seq<u8>)>, FormatError> {
    if hdr.ptype != PageType::Leaf {
        Err(FormatError::UnexpectedPageType(hdr.pgno))
    } else {
        match spec_extract_records(
            all,
            ps,
            e,
            HeaderLayout::EntriesHf,
            page,
            28 + 2 * hdr.entries as int,
            hdr.hf_offset as int,
        ) {
            Ok(rd) => Ok(record_pairs(rd.0)),
            Err(er) => Err(er),
        }
    }
}

/// Extract key/value pairs from a leaf page.  Pairs are formed by taking
/// the next non-deleted entry as the value for the previous non-deleted
/// entry as key; out-of-bounds slot offsets are skipped.
pub fn leaf_pairs_on_page(all: &[u8], ps: usize, e: Endian, page: &[u8], hdr: &PageHeader) -> (r:
    Result<Vec<(Vec<u8>, Vec<u8>)>, FormatError>)
    requires
        512 <= ps <= u32::MAX,
        hdr.entries == 0 || 28 + 2 * (hdr.entries as int) <= page@.len(),
    ensures
        match (r, spec_leaf_pairs_on_page(all@, ps as int, e, page@, *hdr)) {
            (Ok(v), Ok(s)) => pairs_view(v@) == s,
            (Err(a), Err(b)) => a == b,
            _ => false,
        },
{
    if !matches!(hdr.ptype, PageType::Leaf) {
        return Err(FormatError::UnexpectedPageType(hdr.pgno));
    }
    let lower: u32 = 28 + 2 * (hdr.entries as u32);
    match extract_leaf_records(
        all,
        ps,
        e,
        HeaderLayout::EntriesHf,
        page,
        lower,
        hdr.hf_offset as u32,
    ) {
        Ok((recs, _diags)) => Ok(records_to_pairs(recs)),
        Err(er) => Err(er),
    }
}

/// The pairs of the leaf page numbered `pgno`, decoded under the
/// entries/hf_offset header encoding; the slot count is validated against
/// the page size before the slot array is read.
pub open spec fn spec_extract_leaf_pairs(all: Seq<u8>, ps: int, e: Endian, pgno: u32) -> Result<
    Seq<(Seq<u8>, Seq<u8>)>,
    FormatError,
> {
    let page = spec_page_region(all, ps, pgno as int);
    match crate::util::spec_parse_page_header(page, e) {
        Err(er) => Err(er),
        Ok(hdr) => {
            if hdr.ptype != PageType::Leaf {
                Err(FormatError::UnexpectedPageType(pgno))
            } else if 28 + 2 * (hdr.entries as int) > ps {
                Err(FormatError::HeaderInvariantViolation(pgno))
            } else {
                spec_leaf_pairs_on_page(all, ps, e, page, hdr)
            }
        },
    }
}

/// Convenience wrapper: extract pairs from a leaf page by page number.
pub fn extract_leaf_pairs(all: &[u8], ps: usize, e: Endian, leaf_pgno: u32) -> (r: Result<
    Vec<(Vec<u8>, Vec<u8>)>,
    FormatError,
>)
    requires
        512 <= ps <= u32::MAX,
        (leaf_pgno as int + 1) * (ps as int) <= all@.len(),
    ensures
        match (r, spec_extract_leaf_pairs(all@, ps as int, e, leaf_pgno)) {
            (Ok(v), Ok(s)) => pairs_view(v@) == s,
            (Err(a), Err(b)) => a == b,
            _ => false,
        },
{
    let page = page_slice(all, ps, leaf_pgno);
    let hdr = match crate::util::parse_page_header(page, e) {
        Ok(h) => h,
        Err(er) => {
            return Err(er);
        },
    };
    if !matches!(hdr.ptype, PageType::Leaf) {
        return Err(FormatError::UnexpectedPageType(leaf_pgno));
    }
    if 28 + 2 * (hdr.entries as usize) > ps {
        return Err(FormatError::HeaderInvariantViolation(leaf_pgno));
    }
    leaf_pairs_on_page(all, ps, e, page, &hdr)
}

/// The bytes a BLEAF field denotes: inline bytes as they stand, an overflow
/// reference by walking its chain.
pub open spec fn spec_bleaf_field_bytes(
    all: Seq<u8>,
    ps: int,
    e: Endian,
    layout: HeaderLayout,
    f: FieldModel,
) -> Result<Seq<u8>, FormatError> {
    match f {
        FieldModel::Inline(s) => Ok(s),
        FieldModel::Overflow(rf) => spec_read_overflow(
            all,
            ps,
            e,
            layout,
            rf.first_page,
            rf.total_len as int,
        ),
    }
}

/// One field of a BLEAF entry at `pos`: `size` inline bytes when `big` is
/// false, an eight-byte overflow reference when `big` is true.  Returns the
/// field and the position after it.
pub open spec fn spec_bleaf_field(p: Seq<u8>, e: Endian, pos: int, size: int, big: bool) -> Result<
    (FieldModel, int),
    FormatError,
> {
    if !big {
        if pos + size > p.len() {
            Err(FormatError::FieldOutOfBounds(pos as u32))
        } else {
            Ok((FieldModel::Inline(p.subrange(pos, pos + size)), pos + size))
        }
    } else {
        if pos + 8 > p.len() {
            Err(FormatError::FieldOutOfBounds(pos as u32))
        } else {
            Ok(
                (
                    FieldModel::Overflow(
                        OverflowRef {
                            first_page: w32_at(e, p, pos),
                            total_len: w32_at(e, p, pos + 4),
                        },
                    ),
                    pos + 8,
                ),
            )
        }
    }
}

/// The key and data fields of the BLEAF entry at `off`: `ksize:u32 @off,
/// dsize:u32 @off+4, flags:u8 @off+8`, then the key (inline unless flags
/// bit 0) and the data (inline unless flags bit 1).
pub open spec fn spec_parse_bleaf_fields(p: Seq<u8>, off: int, e: Endian) -> Result<
    (FieldModel, FieldModel),
    FormatError,
> {
    if off < 0 || off + 9 > p.len() {
        Err(FormatError::FieldOutOfBounds(off as u32))
    } else {
        let ksize = w32_at(e, p, off) as int;
        let dsize = w32_at(e, p, off + 4) as int;
        let flags = p[off + 8];
        match spec_bleaf_field(p, e, off + 9, ksize, flags & 0x01 != 0) {
            Err(er) => Err(er),
            Ok((key, dpos)) => match spec_bleaf_field(p, e, dpos, dsize, flags & 0x02 != 0) {
                Err(er) => Err(er),
                Ok((data, _end)) => Ok((key, data)),
            },
        }
    }
}

/// Read one BLEAF field at `pos`.
fn bleaf_field<'a>(p: &'a [u8], e: Endian, pos: usize, size: usize, big: bool) -> (r: Result<
    (Field<'a>, usize),
    FormatError,
>)
    ensures
        match (r, spec_bleaf_field(p@, e, pos as int, size as int, big)) {
            (Ok(a), Ok(b)) => a.0@ == b.0 && a.1 == b.1,
            (Err(a), Err(b)) => a == b,
            _ => false,
        },
{
    let n: usize = p.len();
    if !big {
        if pos > n || size > n - pos {
            return Err(FormatError::FieldOutOfBounds(pos as u32));
        }
        let s = vstd::slice::slice_subrange(p, pos, pos + size);
        Ok((Field::Inline(s), pos + size))
    } else {
        if pos > n || 8 > n - pos {
            return Err(FormatError::FieldOutOfBounds(pos as u32));
        }
        let first_page = u32_at(e, p, pos);
        let total_len = u32_at(e, p, pos + 4);
        Ok((Field::Overflow(OverflowRef { first_page, total_len }), pos + 8))
    }
}

/// Parse one BLEAF entry at `off` into its key and data fields, each either
/// an inline slice or an overflow reference.
fn parse_bleaf_fields<'a>(page: &'a [u8], off: usize, e: Endian) -> (r: Result<
    (Field<'a>, Field<'a>),
    FormatError,
>)
    ensures
        match (r, spec_parse_bleaf_fields(page@, off as int, e)) {
            (Ok(a), Ok(b)) => a.0@ == b.0 && a.1@ == b.1,
            (Err(a), Err(b)) => a == b,
            _ => false,
        },
{
    let n: usize = page.len();
    if n < 9 || off > n - 9 {
        return Err(FormatError::FieldOutOfBounds(off as u32));
    }
    let ksize = u32_at(e, page, off) as usize;
    let dsize = u32_at(e, page, off + 4) as usize;
    let flags = page[off + 8];
    let (key, dpos) = match bleaf_field(page, e, off + 9, ksize, flags & 0x01 != 0) {
        Ok(x) => x,
        Err(er) => {
            return Err(er);
        },
    };
    let (data, _end) = match bleaf_field(page, e, dpos, dsize, flags & 0x02 != 0) {
        Ok(x) => x,
        Err(er) => {
            return Err(er);
        },
    };
    Ok((key, data))
}

/// The owned key and value of the BLEAF entry at `off`, with overflow
/// references materialized.
pub open spec fn spec_read_leaf_item(
    all: Seq<u8>,
    ps: int,
    e: Endian,
    page: Seq<u8>,
    off: int,
) -> Result<(Seq<u8>, Seq<u8>), FormatError> {
    match spec_parse_bleaf_fields(page, off, e) {
        Err(er) => Err(er),
        Ok((kf, df)) => match spec_bleaf_field_bytes(all, ps, e, HeaderLayout::EntriesHf, kf) {
            Err(er) => Err(er),
            Ok(kb) => match spec_bleaf_field_bytes(all, ps, e, HeaderLayout::EntriesHf, df) {
                Err(er) => Err(er),
                Ok(vb) => Ok((kb, vb)),
            },
        },
    }
}

/// Read one BLEAF item fully into owned buffers (follows overflow chains if
/// needed).
pub fn read_leaf_item(all: &[u8], ps: usize, e: Endian, page: &[u8], off: usize) -> (r: Result<
    (Vec<u8>, Vec<u8>),
    FormatError,
>)
    requires
        512 <= ps <= u32::MAX,
    ensures
        match (r, spec_read_leaf_item(all@, ps as int, e, page@, off as int)) {
            (Ok(v), Ok(s)) => v.0@ == s.0 && v.1@ == s.1,
            (Err(a), Err(b)) => a == b,
            _ => false,
        },
{
    let (kf, df) = match parse_bleaf_fields(page, off, e) {
        Ok(x) => x,
        Err(er) => {
            return Err(er);
        },
    };
    let key = match materialize_field(all, ps, e, &kf) {
        Ok(v) => v,
        Err(er) => {
            return Err(er);
        },
    };
    let val = match materialize_field(all, ps, e, &df) {
        Ok(v) => v,
        Err(er) => {
            return Err(er);
        },
    };
    Ok((key, val))
}

/// Materialize a BLEAF field as owned bytes.
fn materialize_field(all: &[u8], ps: usize, e: Endian, f: &Field) -> (r: Result<
    Vec<u8>,
    FormatError,
>)
    requires
        512 <= ps <= u32::MAX,
    ensures
        match (r, spec_bleaf_field_bytes(all@, ps as int, e, HeaderLayout::EntriesHf, f@)) {
            (Ok(v), Ok(s)) => v@ == s,
            (Err(a), Err(b)) => a == b,
            _ => false,
        },
{
    match f {
        Field::Inline(s) => Ok(vstd::slice::slice_to_vec(s)),
        Field::Overflow(rf) => read_overflow_rec(
            all,
            ps,
            e,
            HeaderLayout::EntriesHf,
            rf.first_page,
            rf.total_len as usize,
        ),
    }
}

/// The value and consumed width of a compact-size prefix: a first byte
/// `0x00..=0xfc` is the literal value (width 1); `0xfd`, `0xfe` and `0xff`
/// announce a little-endian 16-, 32- or 64-bit value (widths 3, 5 and 9).
/// `None` when the buffer is too short for the announced width.
pub open spec fn spec_read_compact_size(s: Seq<u8>) -> Option<(u64, usize)> {
    if s.len() == 0 {
        None
    } else {
        let b0 = s[0];
        if b0 <= 0xfc {
            Some((b0 as u64, 1usize))
        } else if b0 == 0xfd {
            if s.len() >= 3 {
                Some((crate::util::word16(Endian::Le, s[1], s[2]) as u64, 3usize))
            } else {
                None
            }
        } else if b0 == 0xfe {
            if s.len() >= 5 {
                Some((w32_at(Endian::Le, s, 1) as u64, 5usize))
            } else {
                None
            }
        } else {
            if s.len() >= 9 {
                Some((crate::util::word64(Endian::Le, s.subrange(1, 9)), 9usize))
            } else {
                None
            }
        }
    }
}

/// Decode a compact-size prefix, returning the value and the number of
/// bytes consumed.
pub fn read_compact_size(s: &[u8]) -> (r: Option<(u64, usize)>)
    ensures
        r == spec_read_compact_size(s@),
{
    if s.len() == 0 {
        return None;
    }
    let b0 = s[0];
    if b0 <= 0xfc {
        Some((b0 as u64, 1))
    } else if b0 == 0xfd {
        if s.len() >= 3 {
            Some((crate::util::u16_at(Endian::Le, s, 1) as u64, 3))
        } else {
            None
        }
    } else if b0 == 0xfe {
        if s.len() >= 5 {
            Some((u32_at(Endian::Le, s, 1) as u64, 5))
        } else {
            None
        }
    } else {
        if s.len() >= 9 {
            let sub = vstd::slice::slice_subrange(s, 1, 9);
            let v = crate::util::u64e(Endian::Le, sub);
            proof {
                assert(sub@.subrange(0, 8) =~= s@.subrange(1, 9));
            }
            Some((v, 9))
        } else {
            None
        }
    }
}

/// The width of the minimal compact-size encoding of `l`.
pub open spec fn spec_compact_size_width(l: u64) -> int {
    if l <= 0xfc {
        1
    } else if l <= 0xffff {
        3
    } else if l <= 0xffff_ffff {
        5
    } else {
        9
    }
}

/// The minimal-width compact-size encoding of `l`.
pub open spec fn spec_write_compact_size(l: u64) -> Seq<u8> {
    if l <= 0xfc {
        seq![l as u8]
    } else if l <= 0xffff {
        seq![0xfdu8, (l % 0x100) as u8, ((l / 0x100) % 0x100) as u8]
    } else if l <= 0xffff_ffff {
        seq![
            0xfeu8,
            (l % 0x100) as u8,
            ((l / 0x100) % 0x100) as u8,
            ((l / 0x1_0000) % 0x100) as u8,
            ((l / 0x100_0000) % 0x100) as u8,
        ]
    } else {
        seq![
            0xffu8,
            (l % 0x100) as u8,
            ((l / 0x100) % 0x100) as u8,
            ((l / 0x1_0000) % 0x100) as u8,
            ((l / 0x100_0000) % 0x100) as u8,
            ((l / 0x1_0000_0000) % 0x100) as u8,
            ((l / 0x100_0000_0000) % 0x100) as u8,
            ((l / 0x1_0000_0000_0000) % 0x100) as u8,
            ((l / 0x100_0000_0000_0000) % 0x100) as u8,
        ]
    }
}

/// Encode `l` with the minimal-width compact-size prefix.
pub fn write_compact_size(l: u64) -> (r: Vec<u8>)
    ensures
        r@ == spec_write_compact_size(l),
{
    let mut r: Vec<u8> = Vec::new();
    if l <= 0xfc {
        r.push(l as u8);
    } else if l <= 0xffff {
        r.push(0xfd);
        r.push((l % 0x100) as u8);
        r.push(((l / 0x100) % 0x100) as u8);
    } else if l <= 0xffff_ffff {
        r.push(0xfe);
        r.push((l % 0x100) as u8);
        r.push(((l / 0x100) % 0x100) as u8);
        r.push(((l / 0x1_0000) % 0x100) as u8);
        r.push(((l / 0x100_0000) % 0x100) as u8);
    } else {
        r.push(0xff);
        r.push((l % 0x100) as u8);
        r.push(((l / 0x100) % 0x100) as u8);
        r.push(((l / 0x1_0000) % 0x100) as u8);
        r.push(((l / 0x100_0000) % 0x100) as u8);
        r.push(((l / 0x1_0000_0000) % 0x100) as u8);
        r.push(((l / 0x100_0000_0000) % 0x100) as u8);
        r.push(((l / 0x1_0000_0000_0000) % 0x100) as u8);
        r.push(((l / 0x100_0000_0000_0000) % 0x100) as u8);
    }
    proof {
        assert(r@ =~= spec_write_compact_size(l));
    }
    r
}

/// Law: encoding any length with the minimal-width compact-size prefix and
/// decoding it returns the same length together with the prefix width.
#[verifier::rlimit(100)]
pub proof fn lemma_compact_size_round_trip(l: u64)
    ensures
        spec_write_compact_size(l).len() == spec_compact_size_width(l),
        spec_read_compact_size(spec_write_compact_size(l)) == Some(
            (l, spec_compact_size_width(l) as usize),
        ),
{
    let s = spec_write_compact_size(l);
    if l <= 0xfc {
    } else if l <= 0xffff {
        assert(s[0] == 0xfd && s.len() == 3);
        assert(l % 0x100 + 0x100 * ((l / 0x100) % 0x100) == l) by (bit_vector)
            requires
                l <= 0xffffu64,
        ;
        assert(crate::util::word16(Endian::Le, s[1], s[2]) == l);
    } else if l <= 0xffff_ffff {
        assert(s[0] == 0xfe && s.len() == 5);
        assert(l % 0x100 + 0x100 * ((l / 0x100) % 0x100) + 0x1_0000 * ((l / 0x1_0000) % 0x100)
            + 0x100_0000 * ((l / 0x100_0000) % 0x100) == l) by (bit_vector)
            requires
                l <= 0xffff_ffffu64,
        ;
        assert(w32_at(Endian::Le, s, 1) == l);
    } else {
        assert(s[0] == 0xff && s.len() == 9);
        assert(l % 0x100 + 0x100 * ((l / 0x100) % 0x100) + 0x1_0000 * ((l / 0x1_0000) % 0x100)
            + 0x100_0000 * ((l / 0x100_0000) % 0x100) + 0x1_0000_0000 * ((l / 0x1_0000_0000)
            % 0x100) + 0x100_0000_0000 * ((l / 0x100_0000_0000) % 0x100) + 0x1_0000_0000_0000 * (
        (l / 0x1_0000_0000_0000) % 0x100) + 0x100_0000_0000_0000 * ((l / 0x100_0000_0000_0000)
            % 0x100) == l) by (bit_vector);
        let t = s.subrange(1, 9);
        assert(t[0] == s[1] && t[1] == s[2] && t[2] == s[3] && t[3] == s[4] && t[4] == s[5]
            && t[5] == s[6] && t[6] == s[7] && t[7] == s[8]);
        assert(crate::util::word64(Endian::Le, t) == l);
    }
}

/// Relies on core::str::from_utf8: succeeds exactly on valid UTF-8 and
/// yields the decoded characters.
#[verifier::external_body]
fn utf8_from_bytes<'a>(b: &'a [u8]) -> (r: Option<&'a str>)
    ensures
        match r {
            Some(t) => vstd::utf8::valid_utf8(b@) && t@ == vstd::utf8::decode_utf8(b@),
            None => !vstd::utf8::valid_utf8(b@),
        },
{
    core::str::from_utf8(b).ok()
}

/// The tag and suffix of a wallet key: a compact-size length prefix, that
/// many bytes of UTF-8 tag text, and the type-specific remainder.  `None`
/// when the prefix is malformed, the key is shorter than the announced tag,
/// or the tag is not valid UTF-8.
pub open spec fn spec_split_walletdb_key(key: Seq<u8>) -> Option<(Seq<char>, Seq<u8>)> {
    match spec_read_compact_size(key) {
        None => None,
        Some((len, n)) => {
            if key.len() < n + len {
                None
            } else {
                let tag = key.subrange(n as int, n + len);
                if vstd::utf8::valid_utf8(tag) {
                    Some(
                        (
                            vstd::utf8::decode_utf8(tag),
                            key.subrange(n + len, key.len() as int),
                        ),
                    )
                } else {
                    None
                }
            }
        },
    }
}

/// Split a wallet key into its UTF-8 tag and its type-specific suffix.
pub fn split_walletdb_key<'a>(key: &'a [u8]) -> (r: Option<(&'a str, &'a [u8])>)
    ensures
        match (r, spec_split_walletdb_key(key@)) {
            (Some((t, s)), Some((st, ss))) => t@ == st && s@ == ss,
            (None, None) => true,
            _ => false,
        },
{
    let kn: usize = key.len();
    let (len, n) = match read_compact_size(key) {
        Some(x) => x,
        None => {
            return None;
        },
    };
    proof {
        assert(n <= key@.len());
    }
    if ((kn - n) as u64) < len {
        return None;
    }
    let len = len as usize;
    let tag_bytes = vstd::slice::slice_subrange(key, n, n + len);
    let tag = match utf8_from_bytes(tag_bytes) {
        Some(t) => t,
        None => {
            return None;
        },
    };
    Some((tag, vstd::slice::slice_subrange(key, n + len, kn)))
}

} // verus!
