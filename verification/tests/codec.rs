use zcashd_walletdb_parser::entry::parser::{read_compact_size, split_walletdb_key,
    write_compact_size};
use zcashd_walletdb_parser::error::FormatError;
use zcashd_walletdb_parser::headers::parse_btree_meta_page0;
use zcashd_walletdb_parser::leaf::{parse_leaf_entry, LeafItem};
use zcashd_walletdb_parser::page::PageType;
use zcashd_walletdb_parser::util::{detect_endian, hex, page_slice, parse_page_header, u16e, u32e,
    u64e, Endian, BTREE_MAGIC};

fn put_u32(buf: &mut [u8], off: usize, v: u32, e: Endian) {
    let b = match e {
        Endian::Le => v.to_le_bytes(),
        Endian::Be => v.to_be_bytes(),
    };
    buf[off..off + 4].copy_from_slice(&b);
}

fn put_u16(buf: &mut [u8], off: usize, v: u16, e: Endian) {
    let b = match e {
        Endian::Le => v.to_le_bytes(),
        Endian::Be => v.to_be_bytes(),
    };
    buf[off..off + 2].copy_from_slice(&b);
}

fn meta_page(e: Endian, pagesize: u32, version: u32, last_pgno: u32, root: u32) -> Vec<u8> {
    let mut p = vec![0u8; 512];
    put_u32(&mut p, 12, BTREE_MAGIC, e);
    put_u32(&mut p, 16, version, e);
    put_u32(&mut p, 20, pagesize, e);
    p[25] = 9; // meta page type
    put_u32(&mut p, 32, last_pgno, e);
    put_u32(&mut p, 88, root, e);
    p
}

#[test]
fn word_reads_little_endian() {
    let b = [0x62, 0x31, 0x05, 0x00, 0xaa, 0xbb, 0xcc, 0xdd];
    assert_eq!(u16e(Endian::Le, &b), 0x3162);
    assert_eq!(u32e(Endian::Le, &b), 0x0005_3162);
    assert_eq!(u64e(Endian::Le, &b), 0xddcc_bbaa_0005_3162);
}

#[test]
fn word_reads_big_endian() {
    let b = [0x00, 0x05, 0x31, 0x62, 0x01, 0x02, 0x03, 0x04];
    assert_eq!(u16e(Endian::Be, &b), 0x0005);
    assert_eq!(u32e(Endian::Be, &b), 0x0005_3162);
    assert_eq!(u64e(Endian::Be, &b), 0x0005_3162_0102_0304);
}

#[test]
fn detect_endian_finds_little_endian_magic() {
    let p = meta_page(Endian::Le, 4096, 9, 1, 1);
    assert!(matches!(detect_endian(&p), Some(Endian::Le)));
}

#[test]
fn detect_endian_finds_big_endian_magic() {
    let p = meta_page(Endian::Be, 4096, 9, 1, 1);
    assert!(matches!(detect_endian(&p), Some(Endian::Be)));
}

#[test]
fn detect_endian_rejects_missing_magic() {
    let p = vec![0u8; 512];
    assert!(detect_endian(&p).is_none());
    let short = [0u8; 8];
    assert!(detect_endian(&short).is_none());
}

#[test]
fn hex_renders_bytes() {
    assert_eq!(hex(&[0x00, 0xff, 0x1a]), "00ff1a");
    assert_eq!(hex(&[]), "");
}

#[test]
fn page_type_codes() {
    assert_eq!(PageType::from_code(9), PageType::Meta);
    assert_eq!(PageType::from_code(3), PageType::Internal);
    assert_eq!(PageType::from_code(5), PageType::Leaf);
    assert_eq!(PageType::from_code(4), PageType::Overflow);
    assert_eq!(PageType::from_code(7), PageType::Other(7));
    assert_eq!(PageType::Meta.code(), 0x09);
    assert_eq!(PageType::Leaf.code(), 0x02);
    assert_eq!(PageType::Other(0x11).code(), 0x11);
    assert_eq!(PageType::Leaf.as_str(), "leaf");
    assert_eq!(PageType::Overflow.as_str(), "overflow");
    assert_eq!(PageType::from_flags(0x02), PageType::Leaf);
    assert_eq!(PageType::from_flags(0xe3), PageType::Internal);
    assert_eq!(PageType::from_flags(0x1f), PageType::Other(0x1f));
}

#[test]
fn page_header_fields_decode() {
    let mut p = vec![0u8; 512];
    put_u32(&mut p, 0, 7, Endian::Le); // lsn file
    put_u32(&mut p, 4, 77, Endian::Le); // lsn offset
    put_u32(&mut p, 8, 3, Endian::Le); // pgno
    put_u32(&mut p, 12, 2, Endian::Le); // prev
    put_u32(&mut p, 16, 4, Endian::Le); // next
    put_u16(&mut p, 20, 6, Endian::Le); // entries
    put_u16(&mut p, 22, 400, Endian::Le); // hf_offset
    p[24] = 1;
    p[25] = 5;
    let h = parse_page_header(&p, Endian::Le).unwrap();
    assert_eq!(h.lsn_file, 7);
    assert_eq!(h.lsn_off, 77);
    assert_eq!(h.pgno, 3);
    assert_eq!(h.prev, 2);
    assert_eq!(h.next, 4);
    assert_eq!(h.entries, 6);
    assert_eq!(h.hf_offset, 400);
    assert_eq!(h.level, 1);
    assert_eq!(h.ptype, PageType::Leaf);
}

#[test]
fn page_header_short_buffer_fails() {
    let p = [0u8; 25];
    assert_eq!(parse_page_header(&p, Endian::Le), Err(FormatError::ShortPage));
}

#[test]
fn page_slice_selects_region() {
    let mut all = vec![0u8; 2048];
    all[512] = 0xab;
    let s = page_slice(&all, 512, 1);
    assert_eq!(s.len(), 512);
    assert_eq!(s[0], 0xab);
}

#[test]
fn meta_page_parses_fields() {
    let mut p = meta_page(Endian::Le, 4096, 9, 5, 2);
    p[52..72].copy_from_slice(&[0x11u8; 20]);
    let m = parse_btree_meta_page0(&p).unwrap();
    assert!(matches!(m.endian, Endian::Le));
    assert_eq!(m.magic, BTREE_MAGIC);
    assert_eq!(m.version, 9);
    assert_eq!(m.pagesize, 4096);
    assert_eq!(m.p_type, PageType::Meta);
    assert_eq!(m.last_pgno, 5);
    assert_eq!(m.root, 2);
    assert_eq!(m.uid, vec![0x11u8; 20]);
}

#[test]
fn meta_page_big_endian_parses() {
    let p = meta_page(Endian::Be, 8192, 8, 3, 1);
    let m = parse_btree_meta_page0(&p).unwrap();
    assert!(matches!(m.endian, Endian::Be));
    assert_eq!(m.pagesize, 8192);
    assert_eq!(m.root, 1);
}

#[test]
fn meta_page_rejects_bad_magic() {
    let p = vec![0u8; 512];
    assert_eq!(parse_btree_meta_page0(&p), Err(FormatError::MagicNotFound));
}

#[test]
fn meta_page_rejects_implausible_pagesize() {
    let p = meta_page(Endian::Le, 1000, 9, 1, 1);
    assert_eq!(
        parse_btree_meta_page0(&p),
        Err(FormatError::ImplausiblePageSize(1000))
    );
    let z = meta_page(Endian::Le, 0, 9, 1, 1);
    assert_eq!(parse_btree_meta_page0(&z), Err(FormatError::ImplausiblePageSize(0)));
}

#[test]
fn meta_page_rejects_short_buffer() {
    let p = [0u8; 100];
    assert_eq!(parse_btree_meta_page0(&p), Err(FormatError::ShortPage));
}

#[test]
fn leaf_entry_inline_decodes() {
    let mut p = vec![0u8; 64];
    put_u16(&mut p, 40, 3, Endian::Le);
    p[42] = 1;
    p[43..46].copy_from_slice(b"abc");
    let ent = parse_leaf_entry(&p, 40, Endian::Le).unwrap();
    assert!(!ent.deleted);
    match ent.item {
        LeafItem::KeyData(s) => assert_eq!(s, b"abc"),
        _ => panic!("expected inline item"),
    }
}

#[test]
fn leaf_entry_overflow_decodes() {
    let mut p = vec![0u8; 64];
    p[42] = 0x83; // overflow, deleted
    put_u32(&mut p, 44, 7, Endian::Le);
    put_u32(&mut p, 48, 10000, Endian::Le);
    let ent = parse_leaf_entry(&p, 40, Endian::Le).unwrap();
    assert!(ent.deleted);
    match ent.item {
        LeafItem::Overflow { first_pg, total_len } => {
            assert_eq!(first_pg, 7);
            assert_eq!(total_len, 10000);
        },
        _ => panic!("expected overflow item"),
    }
}

#[test]
fn leaf_entry_rejects_unknown_kind() {
    let mut p = vec![0u8; 64];
    p[42] = 5;
    assert_eq!(
        parse_leaf_entry(&p, 40, Endian::Le),
        Err(FormatError::UnknownLeafItemKind(5))
    );
}

#[test]
fn leaf_entry_rejects_out_of_bounds() {
    let p = vec![0u8; 64];
    assert_eq!(
        parse_leaf_entry(&p, 63, Endian::Le),
        Err(FormatError::FieldOutOfBounds(63))
    );
    let mut q = vec![0u8; 64];
    put_u16(&mut q, 60, 40, Endian::Le); // inline length past page end
    q[62] = 1;
    assert_eq!(
        parse_leaf_entry(&q, 60, Endian::Le),
        Err(FormatError::FieldOutOfBounds(60))
    );
}

#[test]
fn compact_size_boundaries_select_prefixes() {
    let cases: [(u64, u8, usize); 6] = [
        (252, 0xfc, 1),
        (253, 0xfd, 3),
        (65535, 0xfd, 3),
        (65536, 0xfe, 5),
        (0xffff_ffff, 0xfe, 5),
        (0x1_0000_0000, 0xff, 9),
    ];
    for (l, prefix, width) in cases {
        let enc = write_compact_size(l);
        assert_eq!(enc[0], prefix, "prefix for {l}");
        assert_eq!(enc.len(), width, "width for {l}");
        assert_eq!(read_compact_size(&enc), Some((l, width)), "round trip for {l}");
    }
}

#[test]
fn compact_size_decodes_exact_bytes() {
    assert_eq!(read_compact_size(&[0x00]), Some((0, 1)));
    assert_eq!(read_compact_size(&[0x7b]), Some((123, 1)));
    assert_eq!(read_compact_size(&[0xfd, 0x01, 0x02]), Some((0x0201, 3)));
    assert_eq!(
        read_compact_size(&[0xfe, 0x01, 0x02, 0x03, 0x04]),
        Some((0x0403_0201, 5))
    );
    assert_eq!(
        read_compact_size(&[0xff, 1, 0, 0, 0, 0, 0, 0, 0x80]),
        Some((0x8000_0000_0000_0001, 9))
    );
}

#[test]
fn compact_size_rejects_short_buffers() {
    assert_eq!(read_compact_size(&[]), None);
    assert_eq!(read_compact_size(&[0xfd, 0x01]), None);
    assert_eq!(read_compact_size(&[0xfe, 1, 2, 3]), None);
    assert_eq!(read_compact_size(&[0xff, 1, 2, 3, 4, 5, 6, 7]), None);
}

#[test]
fn wallet_key_splits_tag_and_suffix() {
    let key = [&[4u8][..], b"name", &[0xde, 0xad][..]].concat();
    let (tag, suffix) = split_walletdb_key(&key).unwrap();
    assert_eq!(tag, "name");
    assert_eq!(suffix, &[0xde, 0xad]);
}

#[test]
fn wallet_key_rejects_short_and_invalid() {
    // announced tag longer than the key
    assert!(split_walletdb_key(&[10, b'a']).is_none());
    // tag bytes not valid UTF-8
    assert!(split_walletdb_key(&[2, 0xff, 0xfe]).is_none());
    // empty key has no compact-size prefix
    assert!(split_walletdb_key(&[]).is_none());
    // empty tag with empty suffix is fine
    let (tag, suffix) = split_walletdb_key(&[0]).unwrap();
    assert_eq!(tag, "");
    assert!(suffix.is_empty());
}
