//! Depth-first, left-to-right traversal of the Btree from a root page down
//! to its leaves.

use vstd::prelude::*;

use crate::entry::parser::{extract_leaf_records, records_view, spec_extract_records, PageRecord,
    PageRecordModel};
use crate::error::FormatError;
use crate::page::PageType;
use crate::storage::page::{geometry_ok, page_shape, spec_geometry_ok, spec_page_shape};
use crate::storage::types::HeaderLayout;
use crate::util::{page_slice, spec_page_region, u32_at, w32_at, Endian};

verus! {

broadcast use vstd::slice::group_slice_axioms;

/// A policy-tolerated fault, recorded instead of aborting the read: the page
/// it was found on and its kind.
#[derive(Debug, Clone, Copy, PartialEq, Eq, Structural)]
pub struct Diagnostic {
    pub page_no: u32,
    pub detail: FormatError,
}

/// One recovered record with its in-file provenance: the leaf page it was
/// found on and the slot index of its key.
#[derive(Debug, PartialEq, Eq)]
pub struct RecordPair {
    pub key: Vec<u8>,
    pub value: Vec<u8>,
    pub page_no: u32,
    pub slot: u16,
}

/// Mathematical model of a `RecordPair`.
pub struct RecordPairModel {
    pub key: Seq<u8>,
    pub value: Seq<u8>,
    pub page_no: u32,
    pub slot: u16,
}

impl View for RecordPair {
    type V = RecordPairModel;

    open spec fn view(&self) -> RecordPairModel {
        RecordPairModel {
            key: self.key@,
            value: self.value@,
            page_no: self.page_no,
            slot: self.slot,
        }
    }
}

/// The models of a sequence of record pairs.
pub open spec fn record_pairs_view(s: Seq<RecordPair>) -> Seq<RecordPairModel> {
    s.map_values(|r: RecordPair| r@)
}

/// A page record lifted to a record pair on page `pgno`.
pub open spec fn spec_lift_record(r: PageRecordModel, pgno: u32) -> RecordPairModel {
    RecordPairModel { key: r.key, value: r.value, page_no: pgno, slot: r.slot }
}

/// The outcome of a policy-gated fault: under a conservative walk the error
/// aborts the read; otherwise it becomes a diagnostic and the subtree is
/// skipped.
pub open spec fn spec_fault(pgno: u32, er: FormatError, conservative: bool) -> Result<
    (Seq<RecordPairModel>, Seq<Diagnostic>),
    FormatError,
> {
    if conservative {
        Err(er)
    } else {
        Ok((Seq::empty(), seq![Diagnostic { page_no: pgno, detail: er }]))
    }
}

/// The child page numbers and skipped slot offsets of an internal page:
/// each slot offset must lie in `[upper, ps - 8]` so that the twelve-byte
/// internal entry's child pointer at offset 4 can be read; offsets failing
/// the check are skipped with a diagnostic, as on leaf pages.
pub open spec fn spec_child_loop(
    page: Seq<u8>,
    e: Endian,
    offs: Seq<u16>,
    i: int,
    upper: int,
) -> (Seq<u32>, Seq<u32>)
    decreases offs.len() - i,
{
    if i < 0 || i >= offs.len() {
        (Seq::empty(), Seq::empty())
    } else {
        let off = offs[i] as int;
        let rest = spec_child_loop(page, e, offs, i + 1, upper);
        if off < upper || off + 8 > page.len() {
            (rest.0, seq![offs[i] as u32] + rest.1)
        } else {
            (seq![w32_at(e, page, off + 4)] + rest.0, rest.1)
        }
    }
}

/// Collect the child pointers of an internal page from slot `i` onward.
fn child_loop(page: &[u8], e: Endian, offs: &Vec<u16>, i: usize, upper: usize) -> (r: (
    Vec<u32>,
    Vec<u32>,
))
    requires
        i <= offs@.len(),
    ensures
        (r.0@, r.1@) == spec_child_loop(page@, e, offs@, i as int, upper as int),
    decreases offs@.len() - i,
{
    if i >= offs.len() {
        return (Vec::new(), Vec::new());
    }
    let off = offs[i] as usize;
    let n: usize = page.len();
    let (mut children, mut skips) = child_loop(page, e, offs, i + 1, upper);
    if off < upper || off + 8 > n {
        skips.insert(0, off as u32);
        proof {
            assert((children@, skips@) =~~= spec_child_loop(
                page@,
                e,
                offs@,
                i as int,
                upper as int,
            ));
        }
        (children, skips)
    } else {
        let child = u32_at(e, page, off + 4);
        children.insert(0, child);
        proof {
            assert((children@, skips@) =~~= spec_child_loop(
                page@,
                e,
                offs@,
                i as int,
                upper as int,
            ));
        }
        (children, skips)
    }
}

/// The records and diagnostics of the subtree rooted at page `pgno`,
/// traversed depth-first and left-to-right with at most `fuel` further
/// levels.  Leaf pages yield their paired records; internal pages yield
/// their children's results in slot order.  Faults (page out of bounds,
/// header-boundary violation, a page type other than leaf or internal,
/// fuel exhaustion on a cyclic structure, or a leaf decode error) abort
/// the walk when `conservative` and otherwise skip the subtree with a
/// diagnostic.
pub open spec fn spec_walk(
    all: Seq<u8>,
    ps: int,
    e: Endian,
    layout: HeaderLayout,
    pgno: u32,
    fuel: nat,
    conservative: bool,
) -> Result<(Seq<RecordPairModel>, Seq<Diagnostic>), FormatError>
    decreases fuel, 0nat, 0nat,
{
    if fuel == 0 {
        spec_fault(pgno, FormatError::HeaderInvariantViolation(pgno), conservative)
    } else if ps < 512 || (pgno + 1) * ps > all.len() {
        spec_fault(pgno, FormatError::FieldOutOfBounds(pgno), conservative)
    } else {
        let page = spec_page_region(all, ps, pgno as int);
        match spec_page_shape(page, e, layout) {
            Err(er) => spec_fault(pgno, er, conservative),
            Ok(shape) => {
                if !spec_geometry_ok(shape, ps) {
                    spec_fault(
                        pgno,
                        FormatError::HeaderInvariantViolation(pgno),
                        conservative,
                    )
                } else if shape.ptype == PageType::Leaf {
                    match spec_extract_records(
                        all,
                        ps,
                        e,
                        layout,
                        page,
                        shape.lower as int,
                        shape.upper as int,
                    ) {
                        Err(er) => spec_fault(pgno, er, conservative),
                        Ok(rd) => Ok(
                            (
                                rd.0.map_values(|r: PageRecordModel| spec_lift_record(r, pgno)),
                                rd.1.map_values(
                                    |off: u32|
                                        Diagnostic {
                                            page_no: pgno,
                                            detail: FormatError::FieldOutOfBounds(off),
                                        },
                                ),
                            ),
                        ),
                    }
                } else if shape.ptype == PageType::Internal {
                    let slots = crate::entry::constants::spec_slots(page, e, shape.lower as int);
                    let cs = spec_child_loop(page, e, slots, 0, shape.upper as int);
                    let skip_diags = cs.1.map_values(
                        |off: u32|
                            Diagnostic {
                                page_no: pgno,
                                detail: FormatError::FieldOutOfBounds(off),
                            },
                    );
                    match spec_walk_children(
                        all,
                        ps,
                        e,
                        layout,
                        cs.0,
                        0,
                        (fuel - 1) as nat,
                        conservative,
                    ) {
                        Err(er) => Err(er),
                        Ok(rest) => Ok((rest.0, skip_diags + rest.1)),
                    }
                } else {
                    spec_fault(pgno, FormatError::UnexpectedPageType(pgno), conservative)
                }
            },
        }
    }
}

/// The concatenated results of walking the children `cs[i..]`, each with
/// `fuel` further levels.
pub open spec fn spec_walk_children(
    all: Seq<u8>,
    ps: int,
    e: Endian,
    layout: HeaderLayout,
    cs: Seq<u32>,
    i: int,
    fuel: nat,
    conservative: bool,
) -> Result<(Seq<RecordPairModel>, Seq<Diagnostic>), FormatError>
    decreases fuel, 1nat, cs.len() - i,
{
    if i < 0 || i >= cs.len() {
        Ok((Seq::empty(), Seq::empty()))
    } else {
        match spec_walk(all, ps, e, layout, cs[i], fuel, conservative) {
            Err(er) => Err(er),
            Ok(head) => match spec_walk_children(
                all,
                ps,
                e,
                layout,
                cs,
                i + 1,
                fuel,
                conservative,
            ) {
                Err(er) => Err(er),
                Ok(rest) => Ok((head.0 + rest.0, head.1 + rest.1)),
            },
        }
    }
}

/// Lift a page's records to record pairs on page `pgno`.
fn lift_records(recs: Vec<PageRecord>, pgno: u32) -> (r: Vec<RecordPair>)
    ensures
        record_pairs_view(r@) == records_view(recs@).map_values(
            |m: PageRecordModel| spec_lift_record(m, pgno),
        ),
{
    let ghost full = records_view(recs@).map_values(|m: PageRecordModel| spec_lift_record(m, pgno));
    let mut recs = recs;
    let mut out: Vec<RecordPair> = Vec::new();
    proof {
        assert(record_pairs_view(out@) + records_view(recs@).map_values(
            |m: PageRecordModel| spec_lift_record(m, pgno),
        ) =~= full);
    }
    while recs.len() > 0
        invariant
            record_pairs_view(out@) + records_view(recs@).map_values(
                |m: PageRecordModel| spec_lift_record(m, pgno),
            ) == full,
        decreases recs@.len(),
    {
        let rec = recs.remove(0);
        out.push(RecordPair { key: rec.key, value: rec.value, page_no: pgno, slot: rec.slot });
        proof {
            assert(record_pairs_view(out@) + records_view(recs@).map_values(
                |m: PageRecordModel| spec_lift_record(m, pgno),
            ) =~= full);
        }
    }
    proof {
        assert(record_pairs_view(out@) =~= full);
    }
    out
}

/// Wrap skipped slot offsets as diagnostics on page `pgno`.
fn skips_to_diags(skips: Vec<u32>, pgno: u32) -> (r: Vec<Diagnostic>)
    ensures
        r@ == skips@.map_values(
            |off: u32| Diagnostic { page_no: pgno, detail: FormatError::FieldOutOfBounds(off) },
        ),
{
    let mut r: Vec<Diagnostic> = Vec::new();
    let mut i: usize = 0;
    while i < skips.len()
        invariant
            i <= skips@.len(),
            r@ == skips@.take(i as int).map_values(
                |off: u32|
                    Diagnostic { page_no: pgno, detail: FormatError::FieldOutOfBounds(off) },
            ),
        decreases skips@.len() - i,
    {
        r.push(Diagnostic { page_no: pgno, detail: FormatError::FieldOutOfBounds(skips[i]) });
        i = i + 1;
        proof {
            assert(r@ =~= skips@.take(i as int).map_values(
                |off: u32|
                    Diagnostic { page_no: pgno, detail: FormatError::FieldOutOfBounds(off) },
            ));
        }
    }
    proof {
        assert(skips@.take(skips@.len() as int) =~= skips@);
    }
    r
}

/// Apply the consistency policy to a fault.
fn fault(pgno: u32, er: FormatError, conservative: bool) -> (r: Result<
    (Vec<RecordPair>, Vec<Diagnostic>),
    FormatError,
>)
    ensures
        match (r, spec_fault(pgno, er, conservative)) {
            (Ok(v), Ok(s)) => record_pairs_view(v.0@) == s.0 && v.1@ == s.1,
            (Err(a), Err(b)) => a == b,
            _ => false,
        },
{
    if conservative {
        Err(er)
    } else {
        let mut d: Vec<Diagnostic> = Vec::new();
        d.push(Diagnostic { page_no: pgno, detail: er });
        proof {
            assert(record_pairs_view(Seq::<RecordPair>::empty()) =~= Seq::<
                RecordPairModel,
            >::empty());
        }
        Ok((Vec::new(), d))
    }
}

/// Walk the subtree rooted at page `pgno`, with at most `fuel` further
/// levels, under the given consistency policy.
#[verifier::rlimit(100)]
pub fn walk(
    all: &[u8],
    ps: usize,
    e: Endian,
    layout: HeaderLayout,
    pgno: u32,
    fuel: u64,
    conservative: bool,
) -> (r: Result<(Vec<RecordPair>, Vec<Diagnostic>), FormatError>)
    requires
        512 <= ps <= u32::MAX,
        ps % 512 == 0,
    ensures
        match (r, spec_walk(all@, ps as int, e, layout, pgno, fuel as nat, conservative)) {
            (Ok(v), Ok(s)) => record_pairs_view(v.0@) == s.0 && v.1@ == s.1,
            (Err(a), Err(b)) => a == b,
            _ => false,
        },
    decreases fuel, 0nat, 0nat,
{
    if fuel == 0 {
        return fault(pgno, FormatError::HeaderInvariantViolation(pgno), conservative);
    }
    let n: usize = all.len();
    proof {
        assert((pgno as int + 1) * (ps as int) <= 0xffff_ffff_0000_0000) by (nonlinear_arith)
            requires
                pgno as int <= 0xffff_ffff,
                ps as int <= 0xffff_ffff,
        ;
    }
    if (pgno as u64 + 1) * (ps as u64) > n as u64 {
        return fault(pgno, FormatError::FieldOutOfBounds(pgno), conservative);
    }
    let page = page_slice(all, ps, pgno);
    let shape = match page_shape(page, e, layout) {
        Ok(s) => s,
        Err(er) => {
            return fault(pgno, er, conservative);
        },
    };
    if !geometry_ok(&shape, ps) {
        return fault(pgno, FormatError::HeaderInvariantViolation(pgno), conservative);
    }
    if matches!(shape.ptype, PageType::Leaf) {
        match extract_leaf_records(all, ps, e, layout, page, shape.lower, shape.upper) {
            Err(er) => fault(pgno, er, conservative),
            Ok((recs, skips)) => Ok((lift_records(recs, pgno), skips_to_diags(skips, pgno))),
        }
    } else if matches!(shape.ptype, PageType::Internal) {
        let offs = crate::entry::constants::read_slots(page, e, shape.lower as usize);
        let (children, skips) = child_loop(page, e, &offs, 0, shape.upper as usize);
        let skip_diags = skips_to_diags(skips, pgno);
        match walk_children(all, ps, e, layout, &children, 0, fuel - 1, conservative) {
            Err(er) => Err(er),
            Ok((rs, ds)) => {
                let mut out_d = skip_diags;
                let mut ds = ds;
                out_d.append(&mut ds);
                Ok((rs, out_d))
            },
        }
    } else {
        fault(pgno, FormatError::UnexpectedPageType(pgno), conservative)
    }
}

/// Walk the children `cs[i..]`, each with at most `fuel` further levels,
/// concatenating their records and diagnostics in order.
pub fn walk_children(
    all: &[u8],
    ps: usize,
    e: Endian,
    layout: HeaderLayout,
    cs: &Vec<u32>,
    i: usize,
    fuel: u64,
    conservative: bool,
) -> (r: Result<(Vec<RecordPair>, Vec<Diagnostic>), FormatError>)
    requires
        512 <= ps <= u32::MAX,
        ps % 512 == 0,
        i <= cs@.len(),
    ensures
        match (
            r,
            spec_walk_children(
                all@,
                ps as int,
                e,
                layout,
                cs@,
                i as int,
                fuel as nat,
                conservative,
            ),
        ) {
            (Ok(v), Ok(s)) => record_pairs_view(v.0@) == s.0 && v.1@ == s.1,
            (Err(a), Err(b)) => a == b,
            _ => false,
        },
    decreases fuel, 1nat, cs@.len() - i,
{
    if i >= cs.len() {
        proof {
            assert(record_pairs_view(Seq::<RecordPair>::empty()) =~= Seq::<
                RecordPairModel,
            >::empty());
        }
        return Ok((Vec::new(), Vec::new()));
    }
    match walk(all, ps, e, layout, cs[i], fuel, conservative) {
        Err(er) => Err(er),
        Ok((rs, ds)) => match walk_children(all, ps, e, layout, cs, i + 1, fuel, conservative) {
            Err(er) => Err(er),
            Ok((rs2, ds2)) => {
                let mut rs = rs;
                let mut ds = ds;
                let mut rs2 = rs2;
                let mut ds2 = ds2;
                proof {
                    assert(record_pairs_view(rs@ + rs2@) =~= record_pairs_view(rs@)
                        + record_pairs_view(rs2@));
                }
                rs.append(&mut rs2);
                ds.append(&mut ds2);
                Ok((rs, ds))
            },
        },
    }
}

} // verus!
