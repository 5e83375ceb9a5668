//! Fixed geometry constants of the page format.

use vstd::prelude::*;

verus! {

/// Start of the per-page slot area on Btree pages.
/// The slot array lives in [BTDATAOFF .. lower), and item payloads are in
/// [upper .. page_size).
pub const BTDATAOFF: usize = 28;

} // verus!
