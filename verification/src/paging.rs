//! Walking through a paginated search.

use vstd::prelude::*;

verus! {

/// Whether page number `page` (counted from zero) of `size` entries each is
/// the last of `total_count` entries.
pub open spec fn reaches_the_end(page: int, size: int, total_count: int) -> bool {
    (page + 1) * size >= total_count
}

/// Whether the page just fetched was the last one.
pub fn is_last_page(page: i32, size: i32, total_count: i32) -> (r: bool)
    ensures
        r == reaches_the_end(page as int, size as int, total_count as int),
{
    let pages: i64 = page as i64 + 1;
    assert(-0x8000_0000 * 0x8000_0000 <= pages * (size as i64) <= 0x8000_0000 * 0x8000_0000)
        by (nonlinear_arith)
        requires
            -0x8000_0000 <= pages <= 0x8000_0000,
            -0x8000_0000 <= size as i64 <= 0x8000_0000,
    ;
    pages * (size as i64) >= total_count as i64
}

} // verus!
