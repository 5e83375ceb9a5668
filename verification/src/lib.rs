//! Decoder for the Berkeley DB Btree page format used by legacy wallet
//! database files.
//!
//! The crate reads a raw file image, detects byte order and page geometry
//! from the meta page, walks the Btree from its root to the leaves, pairs
//! adjacent leaf slots into key/value records, and reassembles values that
//! were split across overflow page chains.  All decoding is bounds-checked
//! against the page geometry, and a caller-chosen consistency policy decides
//! whether structural faults abort the read or are skipped with diagnostics.

pub mod constants;
pub mod entry;
pub mod error;
pub mod headers;
pub mod leaf;
pub mod page;
pub mod storage;
pub mod util;
