//! Pagination requests and the arithmetic that turns a (page, per_page)
//! pair into an offset into an ordered result set.

use vstd::prelude::*;

verus! {

/// A pagination request as it arrives from a caller: either value may be
/// absent, in which case a default applies (page 1, ten rows per page).
pub struct PaginationParams {
    pub page: Option<i64>,
    pub per_page: Option<i64>,
}

pub const DEFAULT_PAGE: i64 = 1;
pub const DEFAULT_PER_PAGE: i64 = 10;

impl PaginationParams {
    /// The (page, per_page) pair with defaults filled in. Values supplied
    /// explicitly are passed through uncorrected, even when out of range.
    pub fn resolve(&self) -> (r: (i64, i64))
        ensures
            r.0 == if self.page is Some { self.page->0 } else { DEFAULT_PAGE },
            r.1 == if self.per_page is Some { self.per_page->0 } else { DEFAULT_PER_PAGE },
    {
        let page = match self.page {
            Some(p) => p,
            None => DEFAULT_PAGE,
        };
        let per_page = match self.per_page {
            Some(n) => n,
            None => DEFAULT_PER_PAGE,
        };
        (page, per_page)
    }
}

/// The offset of the first row of the requested page.
pub open spec fn spec_offset(page: int, per_page: int) -> int {
    (page - 1) * per_page
}

/// A (page, per_page) pair that the store accepts: the row count asked for
/// and the computed offset must both be non-negative, as the store rejects
/// a negative limit or offset.
pub open spec fn page_args_ok(page: int, per_page: int) -> bool {
    per_page >= 0 && spec_offset(page, per_page) >= 0
}

/// The exact offset, computed in a type wide enough that it never overflows.
pub fn wide_offset(page: i64, per_page: i64) -> (r: i128)
    ensures
        r == spec_offset(page as int, per_page as int),
{
    let a: i128 = page as i128 - 1;
    let b: i128 = per_page as i128;
    proof {
        assert(-(0x8000000000000001i128 * 0x8000000000000000i128) <= a * b <= (
        0x8000000000000001i128 * 0x8000000000000000i128)) by (nonlinear_arith)
            requires
                -0x8000000000000001i128 <= a <= 0x8000000000000001i128,
                -0x8000000000000000i128 <= b <= 0x8000000000000000i128,
        ;
    }
    a * b
}

/// The offset of the first row of the requested page, or `None` where the
/// exact product does not fit in the store's 64-bit offset argument.
pub fn offset_for(page: i64, per_page: i64) -> (r: Option<i64>)
    ensures
        r is Some <==> i64::MIN <= spec_offset(page as int, per_page as int) <= i64::MAX,
        r is Some ==> r->0 == spec_offset(page as int, per_page as int),
{
    let wide: i128 = wide_offset(page, per_page);
    if wide >= i64::MIN as i128 && wide <= i64::MAX as i128 {
        Some(wide as i64)
    } else {
        None
    }
}

/// The page of an ordered result set selected by a pagination request:
/// at most `per_page` rows starting at the offset, and empty once the
/// offset passes the end.
pub open spec fn spec_paginate<T>(s: Seq<T>, page: int, per_page: int) -> Seq<T>
    recommends
        page_args_ok(page, per_page),
{
    let off = spec_offset(page, per_page);
    let start = if off > s.len() {
        s.len() as int
    } else {
        off
    };
    let end = if off + per_page > s.len() {
        s.len() as int
    } else {
        off + per_page
    };
    s.subrange(start, end)
}

/// For any page and size of at least one, the request is accepted, the
/// page holds at most `per_page` rows, and — whenever the result set
/// reaches that far — the page's first row is row `(page-1)*per_page`
/// of the single page that holds the whole result set.
pub proof fn lemma_pagination_window<T>(s: Seq<T>, page: int, per_page: int)
    requires
        page >= 1,
        per_page >= 1,
    ensures
        page_args_ok(page, per_page),
        spec_paginate(s, page, per_page).len() <= per_page,
        s.len() >= spec_offset(page, per_page) + 1 ==> spec_paginate(s, page, per_page)[0]
            == spec_paginate(s, 1, s.len() as int)[spec_offset(page, per_page)],
{
    assert(spec_offset(page, per_page) >= 0) by (nonlinear_arith)
        requires
            page >= 1,
            per_page >= 1,
    ;
    assert(spec_paginate(s, 1, s.len() as int) =~= s);
}

} // verus!
