//! The consistency driver: format probing, policy selection, and the
//! end-to-end record recovery it orchestrates.

use vstd::prelude::*;

use crate::error::FormatError;
use crate::headers::{parse_btree_meta_page0, spec_parse_meta};
use crate::page::PageType;
use crate::storage::btree::{record_pairs_view, spec_walk, walk, Diagnostic, RecordPair,
    RecordPairModel};
use crate::storage::page::{spec_geometry_ok, spec_page_shape};
use crate::storage::types::{spec_from_endian, spec_to_endian, Endianness, FormatProfile,
    HeaderLayout};
use crate::util::{spec_page_region, w32_at, BTREE_MAGIC};

verus! {

broadcast use vstd::slice::group_slice_axioms;

/// Modes controlling how aggressively a possibly-dirty image is read:
/// `Conservative` aborts on the first structural fault; `BestEffort` records
/// faults as diagnostics, skips the offending subtree and carries on.
#[derive(Debug, Clone, Copy, PartialEq, Eq, Structural)]
pub enum SalvageMode {
    Conservative,
    BestEffort,
}

/// Whether a mode aborts on structural faults.
pub open spec fn spec_is_conservative(m: SalvageMode) -> bool {
    m is Conservative
}

impl SalvageMode {
    /// Whether this mode aborts on structural faults.
    pub fn is_conservative(self) -> (r: bool)
        ensures
            r == spec_is_conservative(self),
    {
        matches!(self, SalvageMode::Conservative)
    }
}

/// The first meta-page-sized region of the image: up to 4096 bytes.
pub open spec fn spec_meta_prefix(all: Seq<u8>) -> Seq<u8> {
    if all.len() <= 4096 {
        all
    } else {
        all.take(4096)
    }
}

/// The canonical header-layout selection rule: meta versions of 9 and above
/// use the lower/upper byte-boundary encoding; older versions store the slot
/// count and high-free offset directly.
pub open spec fn spec_select_layout(version: u32) -> HeaderLayout {
    if version >= 9 {
        HeaderLayout::LowerUpper
    } else {
        HeaderLayout::EntriesHf
    }
}

/// Select the header layout from the meta version.
pub fn select_layout(version: u32) -> (r: HeaderLayout)
    ensures
        r == spec_select_layout(version),
{
    if version >= 9 {
        HeaderLayout::LowerUpper
    } else {
        HeaderLayout::EntriesHf
    }
}

/// The format profile derived from the image's first page: page size, byte
/// order, root page, version, and the header layout the version selects.
pub open spec fn spec_probe(all: Seq<u8>) -> Result<FormatProfile, FormatError> {
    match spec_parse_meta(spec_meta_prefix(all)) {
        Err(er) => Err(er),
        Ok(m) => Ok(
            FormatProfile {
                page_size: m.pagesize,
                endianness: spec_from_endian(m.endian),
                btree_root: m.root,
                berkeley_db_version: m.version,
                layout: spec_select_layout(m.version),
            },
        ),
    }
}

/// Probe the meta page and produce a format profile.  Fails exactly where
/// the meta page fails to parse: a buffer under 512 bytes, a missing magic,
/// or an implausible page size.
pub fn probe_format(all: &[u8]) -> (r: Result<FormatProfile, FormatError>)
    ensures
        r == spec_probe(all@),
{
    let n: usize = all.len();
    let end = if n <= 4096 {
        n
    } else {
        4096
    };
    let page0 = vstd::slice::slice_subrange(all, 0, end);
    proof {
        assert(page0@ =~= spec_meta_prefix(all@));
    }
    match parse_btree_meta_page0(page0) {
        Err(er) => Err(er),
        Ok(m) => Ok(
            FormatProfile {
                page_size: m.pagesize,
                endianness: Endianness::from_endian(m.endian),
                btree_root: m.root,
                berkeley_db_version: m.version,
                layout: select_layout(m.version),
            },
        ),
    }
}

/// Law: when probing succeeds, the image carries the Btree magic at bytes
/// 12..16 of the meta page in exactly the byte order the profile reports;
/// and a meta page large enough to probe but carrying the magic in neither
/// byte order fails with `MagicNotFound`.
pub proof fn lemma_probe_endianness(all: Seq<u8>)
    ensures
        spec_probe(all) is Ok ==> w32_at(
            spec_to_endian(spec_probe(all)->Ok_0.endianness),
            spec_meta_prefix(all),
            12,
        ) == BTREE_MAGIC,
        all.len() >= 512 && crate::util::spec_detect_endian(spec_meta_prefix(all)) is None
            ==> spec_probe(all) == Err::<FormatProfile, FormatError>(FormatError::MagicNotFound),
{
}

/// The records and diagnostics recovered from a full image: the meta page is
/// parsed (its faults are always fatal); a file shorter than the declared
/// last page or a root outside `1..=last_pgno` is fatal; a root page with
/// broken geometry or a type other than leaf or internal is fatal in both
/// modes; the tree is then walked from the root under the chosen policy,
/// with one fuel level per declared page so that a cyclic structure runs
/// out of fuel instead of looping.
pub open spec fn spec_recover(all: Seq<u8>, conservative: bool) -> Result<
    (Seq<RecordPairModel>, Seq<Diagnostic>),
    FormatError,
> {
    match spec_parse_meta(spec_meta_prefix(all)) {
        Err(er) => Err(er),
        Ok(m) => {
            let ps = m.pagesize as int;
            if all.len() < (m.last_pgno + 1) * ps {
                Err(FormatError::ShortPage)
            } else if m.root == 0 || m.root > m.last_pgno {
                Err(FormatError::FieldOutOfBounds(m.root))
            } else {
                let layout = spec_select_layout(m.version);
                let rootpage = spec_page_region(all, ps, m.root as int);
                match spec_page_shape(rootpage, m.endian, layout) {
                    Err(er) => Err(er),
                    Ok(shape) => {
                        if !spec_geometry_ok(shape, ps) {
                            Err(FormatError::HeaderInvariantViolation(m.root))
                        } else if shape.ptype != PageType::Leaf && shape.ptype
                            != PageType::Internal {
                            Err(FormatError::UnexpectedPageType(m.root))
                        } else {
                            spec_walk(
                                all,
                                ps,
                                m.endian,
                                layout,
                                m.root,
                                (m.last_pgno + 1) as nat,
                                conservative,
                            )
                        }
                    },
                }
            }
        },
    }
}

/// Law: the recovery is a pure function of the immutable image bytes and
/// the chosen mode; any two reads of the same source under the same mode
/// yield the same records and diagnostics.
pub proof fn lemma_recover_idempotent(
    all: Seq<u8>,
    conservative: bool,
    r1: Result<(Seq<RecordPairModel>, Seq<Diagnostic>), FormatError>,
    r2: Result<(Seq<RecordPairModel>, Seq<Diagnostic>), FormatError>,
)
    requires
        r1 == spec_recover(all, conservative),
        r2 == spec_recover(all, conservative),
    ensures
        r1 == r2,
{
}

/// Recover every reachable record from a raw file image under the chosen
/// consistency mode.  Returns the records in traversal order together with
/// the diagnostics for skipped slots and (under `BestEffort`) skipped
/// subtrees.
#[verifier::rlimit(100)]
#[verifier::spinoff_prover]
pub fn recover_records(all: &[u8], mode: SalvageMode) -> (r: Result<
    (Vec<RecordPair>, Vec<Diagnostic>),
    FormatError,
>)
    ensures
        match (r, spec_recover(all@, spec_is_conservative(mode))) {
            (Ok(v), Ok(s)) => record_pairs_view(v.0@) == s.0 && v.1@ == s.1,
            (Err(a), Err(b)) => a == b,
            _ => false,
        },
{
    let n: usize = all.len();
    let end = if n <= 4096 {
        n
    } else {
        4096
    };
    let page0 = vstd::slice::slice_subrange(all, 0, end);
    proof {
        assert(page0@ =~= spec_meta_prefix(all@));
    }
    let m = match parse_btree_meta_page0(page0) {
        Ok(m) => m,
        Err(er) => {
            return Err(er);
        },
    };
    proof {
        assert((m.last_pgno as int + 1) * (m.pagesize as int) <= 0xffff_ffff_0000_0000)
            by (nonlinear_arith)
            requires
                m.last_pgno as int <= 0xffff_ffff,
                m.pagesize as int <= 0xffff_ffff,
        ;
    }
    if (n as u64) < (m.last_pgno as u64 + 1) * (m.pagesize as u64) {
        return Err(FormatError::ShortPage);
    }
    if m.root == 0 || m.root > m.last_pgno {
        return Err(FormatError::FieldOutOfBounds(m.root));
    }
    let ps = m.pagesize as usize;
    let layout = select_layout(m.version);
    proof {
        assert((m.root as int + 1) * (ps as int) <= (m.last_pgno as int + 1) * (ps as int))
            by (nonlinear_arith)
            requires
                m.root as int <= m.last_pgno as int,
                ps as int >= 0,
        ;
    }
    let rootpage = crate::util::page_slice(all, ps, m.root);
    let shape = match crate::storage::page::page_shape(rootpage, m.endian, layout) {
        Ok(s) => s,
        Err(er) => {
            return Err(er);
        },
    };
    if !crate::storage::page::geometry_ok(&shape, ps) {
        return Err(FormatError::HeaderInvariantViolation(m.root));
    }
    let is_leaf = matches!(shape.ptype, PageType::Leaf);
    let is_internal = matches!(shape.ptype, PageType::Internal);
    if !is_leaf && !is_internal {
        return Err(FormatError::UnexpectedPageType(m.root));
    }
    walk(all, ps, m.endian, layout, m.root, m.last_pgno as u64 + 1, mode.is_conservative())
}

/// The key-to-value map a record sequence denotes, a later record with an
/// equal key overwriting the earlier one (last-write-wins in traversal
/// order).
pub open spec fn spec_map_of_records(rs: Seq<RecordPairModel>) -> Map<Seq<u8>, Seq<u8>>
    decreases rs.len(),
{
    if rs.len() == 0 {
        Map::empty()
    } else {
        spec_map_of_records(rs.drop_last()).insert(rs.last().key, rs.last().value)
    }
}

/// Exposes the high-level operations that drive the parsing pipeline over a
/// byte-addressable image.
pub trait DbImageReader {
    /// The full file image this reader serves.
    spec fn image(&self) -> Seq<u8>;

    /// Probe the meta page and produce a format profile.
    fn probe(&self) -> (r: Result<FormatProfile, FormatError>)
        ensures
            r == spec_probe(self.image()),
    ;

    /// Recover raw records with provenance and diagnostics from the image.
    fn entries(&self, salvage: SalvageMode) -> (r: Result<
        (Vec<RecordPair>, Vec<Diagnostic>),
        FormatError,
    >)
        ensures
            match (r, spec_recover(self.image(), spec_is_conservative(salvage))) {
                (Ok(v), Ok(s)) => record_pairs_view(v.0@) == s.0 && v.1@ == s.1,
                (Err(a), Err(b)) => a == b,
                _ => false,
            },
    ;

    /// Build an in-memory map eagerly from the recovered records, later
    /// records overwriting earlier ones with an equal key.
    fn build_map(&self, salvage: SalvageMode) -> (r: Result<
        (crate::storage::entry::RecordMap, Vec<Diagnostic>),
        FormatError,
    >)
        ensures
            match (r, spec_recover(self.image(), spec_is_conservative(salvage))) {
                (Ok((m, d)), Ok(s)) => m.wf() && m.as_map() == spec_map_of_records(s.0) && d@
                    == s.1,
                (Err(a), Err(b)) => a == b,
                _ => false,
            },
    ;
}

/// The driver that orchestrates probing, traversal and extraction over an
/// in-memory image under a selected policy.
#[derive(Debug)]
pub struct ConsistencyDriver {
    pub bytes: Vec<u8>,
    pub source_id: String,
}

impl ConsistencyDriver {
    /// Wrap an image and a source identifier for provenance.
    pub fn new(bytes: Vec<u8>, source_id: String) -> (r: ConsistencyDriver)
        ensures
            r.bytes@ == bytes@,
            r.source_id@ == source_id@,
    {
        ConsistencyDriver { bytes, source_id }
    }
}

impl DbImageReader for ConsistencyDriver {
    open spec fn image(&self) -> Seq<u8> {
        self.bytes@
    }

    fn probe(&self) -> (r: Result<FormatProfile, FormatError>) {
        probe_format(self.bytes.as_slice())
    }

    fn entries(&self, salvage: SalvageMode) -> (r: Result<
        (Vec<RecordPair>, Vec<Diagnostic>),
        FormatError,
    >) {
        recover_records(self.bytes.as_slice(), salvage)
    }

    fn build_map(&self, salvage: SalvageMode) -> (r: Result<
        (crate::storage::entry::RecordMap, Vec<Diagnostic>),
        FormatError,
    >) {
        let (recs, diags) = match recover_records(self.bytes.as_slice(), salvage) {
            Ok(x) => x,
            Err(er) => {
                return Err(er);
            },
        };
        let ghost full = record_pairs_view(recs@);
        let mut recs = recs;
        let mut map = crate::storage::entry::RecordMap::new();
        proof {
            assert(record_pairs_view(recs@) =~= full.skip(0));
            assert(full.take(0) =~= Seq::<RecordPairModel>::empty());
        }
        while recs.len() > 0
            invariant
                map.wf(),
                recs@.len() <= full.len(),
                record_pairs_view(recs@) == full.skip(full.len() - recs@.len()),
                map.as_map() == spec_map_of_records(
                    full.take(full.len() - recs@.len()),
                ),
            decreases recs@.len(),
        {
            let ghost k = full.len() - recs@.len();
            let ghost prev = recs@;
            let rp = recs.remove(0);
            proof {
                assert(recs@ =~= prev.skip(1));
                assert(rp@ == record_pairs_view(prev)[0]);
                assert(rp@ == full[k]);
                assert forall|i: int| 0 <= i < recs@.len() implies record_pairs_view(recs@)[i]
                    == full.skip(k + 1)[i] by {
                    assert(recs@[i] == prev[i + 1]);
                    assert(record_pairs_view(prev)[i + 1] == prev[i + 1]@);
                    assert(full.skip(k)[i + 1] == full[k + 1 + i]);
                }
                assert(record_pairs_view(recs@) =~= full.skip(k + 1));
            }
            let prov = crate::storage::entry::Provenance {
                source_id: self.source_id.clone(),
                page_no: rp.page_no,
                slot_index: rp.slot,
            };
            map.insert(rp.key, rp.value, Some(prov));
            proof {
                assert(full.take(k + 1).drop_last() =~= full.take(k));
                assert(full.take(k + 1).last() == full[k]);
            }
        }
        proof {
            assert(full.take(full.len() as int) =~= full);
        }
        Ok((map, diags))
    }
}

} // verus!
