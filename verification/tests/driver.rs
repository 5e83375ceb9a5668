use zcashd_walletdb_parser::entry::constants::{iter_slots, OverflowRef};
use zcashd_walletdb_parser::entry::parser::{extract_leaf_pairs, leaf_pairs_on_page,
    read_leaf_item, read_overflow};
use zcashd_walletdb_parser::error::FormatError;
use zcashd_walletdb_parser::storage::consistency::{ConsistencyDriver, DbImageReader, SalvageMode};
use zcashd_walletdb_parser::storage::entry::RecordMap;
use zcashd_walletdb_parser::storage::page::{OwnedValue, PageHeader as StoragePageHeader,
    ValueSupplier};
use zcashd_walletdb_parser::storage::types::{Endianness, HeaderLayout, MemoryPageSource,
    PageSource};
use zcashd_walletdb_parser::util::{parse_page_header, Endian, BTREE_MAGIC};

const PS: usize = 4096;

fn put_u32(buf: &mut [u8], off: usize, v: u32) {
    buf[off..off + 4].copy_from_slice(&v.to_le_bytes());
}

fn put_u16(buf: &mut [u8], off: usize, v: u16) {
    buf[off..off + 2].copy_from_slice(&v.to_le_bytes());
}

/// Write an inline leaf entry at `off`; returns the offset after it.
fn put_inline(buf: &mut [u8], off: usize, data: &[u8], deleted: bool) -> usize {
    put_u16(buf, off, data.len() as u16);
    buf[off + 2] = if deleted { 0x81 } else { 0x01 };
    buf[off + 3..off + 3 + data.len()].copy_from_slice(data);
    off + 3 + data.len()
}

/// A page in the entries/hf_offset encoding.
fn entries_hf_page(ptype: u8, next: u32, entries: u16, hf_offset: u16) -> Vec<u8> {
    let mut p = vec![0u8; PS];
    put_u32(&mut p, 16, next);
    put_u16(&mut p, 20, entries);
    put_u16(&mut p, 22, hf_offset);
    p[25] = ptype;
    p
}

/// A page in the lower/upper encoding: type in the low five bits of the
/// flags word.
fn lower_upper_page(type_code: u32, next: u32, lower: u16, upper: u16) -> Vec<u8> {
    let mut p = vec![0u8; PS];
    put_u32(&mut p, 16, next);
    put_u32(&mut p, 20, type_code);
    put_u16(&mut p, 24, lower);
    put_u16(&mut p, 26, upper);
    p
}

/// A meta page declaring a little-endian file of `PS`-sized pages.
fn meta_page(version: u32, last_pgno: u32, root: u32) -> Vec<u8> {
    let mut p = vec![0u8; PS];
    put_u32(&mut p, 12, BTREE_MAGIC);
    put_u32(&mut p, 16, version);
    put_u32(&mut p, 20, PS as u32);
    p[25] = 9;
    put_u32(&mut p, 32, last_pgno);
    put_u32(&mut p, 88, root);
    p
}

/// A synthetic wallet image: meta, one leaf with two inline pairs
/// ("a" -> "1", "b" -> "2"), one unused page.  Lower/upper page encoding
/// (meta version 9).
fn two_pair_image() -> Vec<u8> {
    let mut leaf = lower_upper_page(0x02, 0, 36, 4000);
    let mut off = 4000;
    let mut slots = Vec::new();
    for data in [b"a", b"1", b"b", b"2"] {
        slots.push(off as u16);
        off = put_inline(&mut leaf, off, data, false);
    }
    for (i, s) in slots.iter().enumerate() {
        put_u16(&mut leaf, 28 + 2 * i, *s);
    }
    let mut all = meta_page(9, 2, 1);
    all.extend_from_slice(&leaf);
    all.extend_from_slice(&vec![0u8; PS]);
    all
}

#[test]
fn overflow_chain_reassembles_exactly() {
    // Three overflow pages whose payloads concatenate to a known buffer.
    let payload = PS - 28;
    let expected: Vec<u8> = (0..10000u32).map(|i| (i % 251) as u8).collect();
    let mut all = vec![0u8; PS]; // page 0 unused
    for pg in 1..=3u32 {
        let next = if pg < 3 { pg + 1 } else { 0 };
        let mut page = entries_hf_page(4, next, 0, 0);
        let start = (pg as usize - 1) * payload;
        let take = payload.min(expected.len().saturating_sub(start));
        page[28..28 + take].copy_from_slice(&expected[start..start + take]);
        all.extend_from_slice(&page);
    }
    let got = read_overflow(&all, PS, Endian::Le, OverflowRef { first_page: 1, total_len: 10000 })
        .unwrap();
    assert_eq!(got.len(), 10000);
    assert_eq!(got, expected);
}

#[test]
fn overflow_chain_truncation_is_reported() {
    let payload = PS - 28;
    let mut all = vec![0u8; PS];
    for pg in 1..=3u32 {
        let next = if pg < 3 { pg + 1 } else { 0 };
        all.extend_from_slice(&entries_hf_page(4, next, 0, 0));
    }
    let want = 13000u32;
    let missing = want - 3 * payload as u32;
    assert_eq!(
        read_overflow(&all, PS, Endian::Le, OverflowRef { first_page: 1, total_len: want }),
        Err(FormatError::TruncatedOverflowChain(missing))
    );
}

#[test]
fn overflow_chain_rejects_wrong_page_type() {
    let mut all = vec![0u8; PS];
    all.extend_from_slice(&entries_hf_page(5, 0, 0, 0)); // leaf, not overflow
    assert_eq!(
        read_overflow(&all, PS, Endian::Le, OverflowRef { first_page: 1, total_len: 10 }),
        Err(FormatError::UnexpectedPageType(1))
    );
}

#[test]
fn overflow_chain_rejects_page_past_file_end() {
    let all = vec![0u8; PS];
    assert_eq!(
        read_overflow(&all, PS, Endian::Le, OverflowRef { first_page: 9, total_len: 10 }),
        Err(FormatError::FieldOutOfBounds(9))
    );
}

#[test]
fn leaf_pairing_pairs_adjacent_and_drops_trailing_key() {
    // Five non-deleted entries [k1, v1, k2, v2, k3]: two pairs, k3 dropped.
    let mut page = entries_hf_page(5, 0, 5, 4000);
    let mut off = 4000;
    let mut slots = Vec::new();
    for data in [b"k1", b"v1", b"k2", b"v2", b"k3"] {
        slots.push(off as u16);
        off = put_inline(&mut page, off, data, false);
    }
    for (i, s) in slots.iter().enumerate() {
        put_u16(&mut page, 28 + 2 * i, *s);
    }
    let hdr = parse_page_header(&page, Endian::Le).unwrap();
    let all = vec![0u8; PS];
    let pairs = leaf_pairs_on_page(&all, PS, Endian::Le, &page, &hdr).unwrap();
    assert_eq!(pairs.len(), 2);
    assert_eq!(pairs[0], (b"k1".to_vec(), b"v1".to_vec()));
    assert_eq!(pairs[1], (b"k2".to_vec(), b"v2".to_vec()));
}

#[test]
fn leaf_pairing_skips_tombstones() {
    // [k1, deleted, v1] still pairs (k1, v1).
    let mut page = entries_hf_page(5, 0, 3, 4000);
    let mut off = 4000;
    let mut slots = Vec::new();
    for (data, deleted) in [(&b"k1"[..], false), (&b"xx"[..], true), (&b"v1"[..], false)] {
        slots.push(off as u16);
        off = put_inline(&mut page, off, data, deleted);
    }
    for (i, s) in slots.iter().enumerate() {
        put_u16(&mut page, 28 + 2 * i, *s);
    }
    let hdr = parse_page_header(&page, Endian::Le).unwrap();
    let all = vec![0u8; PS];
    let pairs = leaf_pairs_on_page(&all, PS, Endian::Le, &page, &hdr).unwrap();
    assert_eq!(pairs.len(), 1);
    assert_eq!(pairs[0], (b"k1".to_vec(), b"v1".to_vec()));
}

#[test]
fn leaf_pairing_rejects_non_leaf_page() {
    let page = entries_hf_page(4, 0, 0, 4000);
    let hdr = parse_page_header(&page, Endian::Le).unwrap();
    let all = vec![0u8; PS];
    assert!(matches!(
        leaf_pairs_on_page(&all, PS, Endian::Le, &page, &hdr),
        Err(FormatError::UnexpectedPageType(_))
    ));
}

#[test]
fn extract_leaf_pairs_by_page_number() {
    let mut leaf = entries_hf_page(5, 0, 2, 4000);
    let mut off = 4000;
    let s0 = off as u16;
    off = put_inline(&mut leaf, off, b"key", false);
    let s1 = off as u16;
    put_inline(&mut leaf, off, b"value", false);
    put_u16(&mut leaf, 28, s0);
    put_u16(&mut leaf, 30, s1);
    let mut all = vec![0u8; PS];
    all.extend_from_slice(&leaf);
    let pairs = extract_leaf_pairs(&all, PS, Endian::Le, 1).unwrap();
    assert_eq!(pairs, vec![(b"key".to_vec(), b"value".to_vec())]);
}

#[test]
fn extract_leaf_pairs_rejects_inconsistent_slot_count() {
    // 3000 slots cannot fit below a 4096-byte page's boundaries.
    let leaf = entries_hf_page(5, 0, 3000, 4000);
    let mut all = vec![0u8; PS];
    all.extend_from_slice(&leaf);
    assert_eq!(
        extract_leaf_pairs(&all, PS, Endian::Le, 1),
        Err(FormatError::HeaderInvariantViolation(1))
    );
}

#[test]
fn bleaf_item_reads_inline_fields() {
    let mut page = vec![0u8; PS];
    let off = 100;
    put_u32(&mut page, off, 3); // ksize
    put_u32(&mut page, off + 4, 2); // dsize
    page[off + 8] = 0; // both inline
    page[off + 9..off + 12].copy_from_slice(b"abc");
    page[off + 12..off + 14].copy_from_slice(b"xy");
    let all = vec![0u8; PS];
    let (k, v) = read_leaf_item(&all, PS, Endian::Le, &page, off).unwrap();
    assert_eq!(k, b"abc".to_vec());
    assert_eq!(v, b"xy".to_vec());
}

#[test]
fn bleaf_item_follows_overflow_value() {
    let mut all = vec![0u8; PS];
    let mut ov = entries_hf_page(4, 0, 0, 0);
    ov[28..33].copy_from_slice(b"hello");
    all.extend_from_slice(&ov);
    let mut page = vec![0u8; PS];
    let off = 50;
    put_u32(&mut page, off, 1); // ksize
    put_u32(&mut page, off + 4, 5); // dsize (via overflow)
    page[off + 8] = 0x02; // big data
    page[off + 9] = b'k';
    put_u32(&mut page, off + 10, 1); // first overflow page
    put_u32(&mut page, off + 14, 5); // total length
    let (k, v) = read_leaf_item(&all, PS, Endian::Le, &page, off).unwrap();
    assert_eq!(k, b"k".to_vec());
    assert_eq!(v, b"hello".to_vec());
}

#[test]
fn driver_probe_reports_profile() {
    let all = two_pair_image();
    let d = ConsistencyDriver::new(all, String::from("image"));
    let p = d.probe().unwrap();
    assert_eq!(p.page_size, PS as u32);
    assert!(matches!(p.endianness, Endianness::Little));
    assert_eq!(p.btree_root, 1);
    assert_eq!(p.berkeley_db_version, 9);
    assert!(matches!(p.layout, HeaderLayout::LowerUpper));
}

#[test]
fn driver_selects_entries_hf_for_old_versions() {
    let mut all = meta_page(8, 0, 1);
    put_u32(&mut all, 88, 0);
    let d = ConsistencyDriver::new(all, String::from("image"));
    let p = d.probe().unwrap();
    assert!(matches!(p.layout, HeaderLayout::EntriesHf));
}

#[test]
fn driver_recovers_two_pairs_conservative() {
    let all = two_pair_image();
    let d = ConsistencyDriver::new(all, String::from("wallet"));
    let (map, diags) = d.build_map(SalvageMode::Conservative).unwrap();
    assert!(diags.is_empty());
    assert_eq!(map.len(), 2);
    assert_eq!(map.get(b"a").unwrap(), &b"1".to_vec());
    assert_eq!(map.get(b"b").unwrap(), &b"2".to_vec());
    assert!(map.get(b"c").is_none());
    let entries = map.entries();
    let prov = entries[0].meta.as_ref().unwrap();
    assert_eq!(prov.source_id, "wallet");
    assert_eq!(prov.page_no, 1);
    assert_eq!(prov.slot_index, 0);
}

#[test]
fn driver_is_idempotent_over_immutable_source() {
    let all = two_pair_image();
    let d = ConsistencyDriver::new(all, String::from("image"));
    for mode in [SalvageMode::Conservative, SalvageMode::BestEffort] {
        let (r1, d1) = d.entries(mode).unwrap();
        let (r2, d2) = d.entries(mode).unwrap();
        assert_eq!(r1.len(), r2.len());
        for (a, b) in r1.iter().zip(r2.iter()) {
            assert_eq!(a.key, b.key);
            assert_eq!(a.value, b.value);
            assert_eq!(a.page_no, b.page_no);
            assert_eq!(a.slot, b.slot);
        }
        assert_eq!(d1, d2);
    }
}

#[test]
fn corrupt_slot_is_skipped_with_diagnostic_in_both_modes() {
    // Same image, but the slot for the second key points past the page end.
    let mut all = two_pair_image();
    put_u16(&mut all[PS..2 * PS], 28 + 2 * 2, 4095);
    let d = ConsistencyDriver::new(all, String::from("image"));
    for mode in [SalvageMode::BestEffort, SalvageMode::Conservative] {
        let (recs, diags) = d.entries(mode).unwrap();
        assert_eq!(recs.len(), 1, "one pair left under {mode:?}");
        assert_eq!(recs[0].key, b"a".to_vec());
        assert_eq!(recs[0].value, b"1".to_vec());
        assert_eq!(diags.len(), 1);
        assert_eq!(diags[0].page_no, 1);
        assert_eq!(diags[0].detail, FormatError::FieldOutOfBounds(4095));
    }
}

#[test]
fn driver_walks_internal_pages_in_order() {
    // Root internal page with two leaf children, version 9 layout.
    let mut all = meta_page(9, 3, 1);
    let mut internal = lower_upper_page(0x03, 0, 32, 3000);
    // two internal entries, each carrying a child pointer at offset 4
    put_u16(&mut internal, 28, 3000);
    put_u16(&mut internal, 30, 3012);
    put_u32(&mut internal, 3004, 2); // first child
    put_u32(&mut internal, 3016, 3); // second child
    all.extend_from_slice(&internal);
    for (k, v) in [(&b"k1"[..], &b"v1"[..]), (&b"k2"[..], &b"v2"[..])] {
        let mut leaf = lower_upper_page(0x02, 0, 32, 4000);
        let mut off = 4000;
        let s0 = off as u16;
        off = put_inline(&mut leaf, off, k, false);
        let s1 = off as u16;
        put_inline(&mut leaf, off, v, false);
        put_u16(&mut leaf, 28, s0);
        put_u16(&mut leaf, 30, s1);
        all.extend_from_slice(&leaf);
    }
    let d = ConsistencyDriver::new(all, String::from("image"));
    let (recs, diags) = d.entries(SalvageMode::Conservative).unwrap();
    assert!(diags.is_empty());
    assert_eq!(recs.len(), 2);
    assert_eq!(recs[0].key, b"k1".to_vec());
    assert_eq!(recs[0].page_no, 2);
    assert_eq!(recs[1].key, b"k2".to_vec());
    assert_eq!(recs[1].page_no, 3);
}

#[test]
fn bad_subtree_aborts_conservative_and_skips_best_effort() {
    // Root internal page whose first child is overflow-typed; the second is
    // a good leaf.
    let mut all = meta_page(9, 3, 1);
    let mut internal = lower_upper_page(0x03, 0, 32, 3000);
    put_u16(&mut internal, 28, 3000);
    put_u16(&mut internal, 30, 3012);
    put_u32(&mut internal, 3004, 2);
    put_u32(&mut internal, 3016, 3);
    all.extend_from_slice(&internal);
    all.extend_from_slice(&lower_upper_page(0x04, 0, 28, 28)); // page 2: overflow
    let mut leaf = lower_upper_page(0x02, 0, 32, 4000);
    let mut off = 4000;
    let s0 = off as u16;
    off = put_inline(&mut leaf, off, b"k", false);
    let s1 = off as u16;
    put_inline(&mut leaf, off, b"v", false);
    put_u16(&mut leaf, 28, s0);
    put_u16(&mut leaf, 30, s1);
    all.extend_from_slice(&leaf);
    let d = ConsistencyDriver::new(all, String::from("image"));
    assert_eq!(
        d.entries(SalvageMode::Conservative),
        Err(FormatError::UnexpectedPageType(2))
    );
    let (recs, diags) = d.entries(SalvageMode::BestEffort).unwrap();
    assert_eq!(recs.len(), 1);
    assert_eq!(recs[0].key, b"k".to_vec());
    assert_eq!(diags.len(), 1);
    assert_eq!(diags[0].page_no, 2);
    assert_eq!(diags[0].detail, FormatError::UnexpectedPageType(2));
}

#[test]
fn driver_fatal_faults_are_fatal_in_both_modes() {
    // File shorter than the declared last page.
    let short = meta_page(9, 5, 1);
    let d = ConsistencyDriver::new(short, String::from("image"));
    assert_eq!(d.entries(SalvageMode::BestEffort), Err(FormatError::ShortPage));
    // Root out of range.
    let mut img = two_pair_image();
    put_u32(&mut img[0..PS], 88, 0);
    let d = ConsistencyDriver::new(img, String::from("image"));
    assert_eq!(
        d.entries(SalvageMode::BestEffort),
        Err(FormatError::FieldOutOfBounds(0))
    );
    // Root page of an unexpected type is unrecoverable even best-effort.
    let mut img = two_pair_image();
    put_u32(&mut img[PS..2 * PS], 20, 0x04);
    let d = ConsistencyDriver::new(img, String::from("image"));
    assert_eq!(
        d.entries(SalvageMode::BestEffort),
        Err(FormatError::UnexpectedPageType(1))
    );
    // Root page with inconsistent boundaries.
    let mut img = two_pair_image();
    put_u16(&mut img[PS..2 * PS], 24, 10); // lower below the header size
    let d = ConsistencyDriver::new(img, String::from("image"));
    assert_eq!(
        d.entries(SalvageMode::BestEffort),
        Err(FormatError::HeaderInvariantViolation(1))
    );
}

#[test]
fn driver_recovers_big_endian_image() {
    // The same two-pair layout, every word stored big-endian.
    let be16 = |buf: &mut [u8], off: usize, v: u16| {
        buf[off..off + 2].copy_from_slice(&v.to_be_bytes());
    };
    let be32 = |buf: &mut [u8], off: usize, v: u32| {
        buf[off..off + 4].copy_from_slice(&v.to_be_bytes());
    };
    let mut meta = vec![0u8; PS];
    be32(&mut meta, 12, BTREE_MAGIC);
    be32(&mut meta, 16, 9);
    be32(&mut meta, 20, PS as u32);
    meta[25] = 9;
    be32(&mut meta, 32, 1);
    be32(&mut meta, 88, 1);
    let mut leaf = vec![0u8; PS];
    be32(&mut leaf, 20, 0x02);
    be16(&mut leaf, 24, 32);
    be16(&mut leaf, 26, 4000);
    let mut off = 4000;
    let slots = [4000u16, 4004];
    for data in [b"a", b"1"] {
        be16(&mut leaf, off, data.len() as u16);
        leaf[off + 2] = 0x01;
        leaf[off + 3..off + 3 + data.len()].copy_from_slice(&data[..]);
        off += 3 + data.len();
    }
    be16(&mut leaf, 28, slots[0]);
    be16(&mut leaf, 30, slots[1]);
    let mut all = meta;
    all.extend_from_slice(&leaf);
    let d = ConsistencyDriver::new(all, String::from("be-image"));
    let p = d.probe().unwrap();
    assert!(matches!(p.endianness, Endianness::Big));
    let (map, diags) = d.build_map(SalvageMode::Conservative).unwrap();
    assert!(diags.is_empty());
    assert_eq!(map.len(), 1);
    assert_eq!(map.get(b"a").unwrap(), &b"1".to_vec());
}

#[test]
fn iter_slots_reads_slot_array() {
    let mut page = vec![0u8; 64];
    put_u16(&mut page, 28, 100);
    put_u16(&mut page, 30, 200);
    put_u16(&mut page, 32, 300);
    assert_eq!(iter_slots(&page, Endian::Le, 34), vec![100, 200, 300]);
    assert_eq!(iter_slots(&page, Endian::Le, 28), Vec::<u16>::new());
}

#[test]
fn record_map_overwrites_on_equal_key() {
    let mut m = RecordMap::new();
    assert!(m.insert(b"k".to_vec(), b"v1".to_vec(), None).is_none());
    assert_eq!(m.len(), 1);
    let prev = m.insert(b"k".to_vec(), b"v2".to_vec(), None).unwrap();
    assert_eq!(prev.value, b"v1".to_vec());
    assert_eq!(m.len(), 1);
    assert_eq!(m.get(b"k").unwrap(), &b"v2".to_vec());
    assert!(m.insert(b"other".to_vec(), b"v3".to_vec(), None).is_none());
    assert_eq!(m.len(), 2);
}

#[test]
fn memory_page_source_serves_pages() {
    let src = MemoryPageSource {
        page_bufs: vec![vec![1u8; 512], vec![2u8; 512]],
        id: String::from("mem"),
    };
    assert_eq!(src.page_count(), 2);
    assert_eq!(src.read_page(0).unwrap(), vec![1u8; 512]);
    assert_eq!(src.read_page(1).unwrap(), vec![2u8; 512]);
    assert!(src.read_page(2).is_none());
    assert_eq!(src.source_id(), "mem");
}

#[test]
fn owned_value_supplies_bytes() {
    let v = OwnedValue { data: b"bytes".to_vec() };
    assert_eq!(v.materialize(), b"bytes".to_vec());
    assert_eq!(v.try_borrow().unwrap(), b"bytes");
}

#[test]
fn storage_page_header_derived_bounds() {
    let h = StoragePageHeader {
        lsn: 0,
        prev_pgno: 0,
        next_pgno: 0,
        entries: 6,
        hf_offset: 3000,
        level: 1,
        page_type: 5,
    };
    assert_eq!(h.num_slots(), 6);
    assert_eq!(h.lower_bound(26, 2), 38);
    assert_eq!(h.upper_bound(), 3000);
}
