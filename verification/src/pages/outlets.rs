//! An outlet's page: the articles we hold from it, a page at a time.

use vstd::prelude::*;

verus! {

/// The outlet page's query parameters: the page number.
pub struct Page {
    pub p: Option<i64>,
}

/// How many articles one page lists.
pub const PER_PAGE: i64 = 20;

/// The number of pages `count` articles fill: `(count + PER_PAGE - 1) /
/// PER_PAGE`, with integer division rounding toward zero.
pub open spec fn page_count(count: int) -> int {
    let n = count + PER_PAGE - 1;
    if n >= 0 {
        n / (PER_PAGE as int)
    } else {
        -((-n) / (PER_PAGE as int))
    }
}

/// The page shown: the requested one (the first when none is asked for),
/// clamped into the pages that exist, at least the first.
pub open spec fn current_page(requested: Option<i64>, count: int) -> int {
    let last = if page_count(count) < 1 {
        1
    } else {
        page_count(count)
    };
    let p = match requested {
        Some(p) => p as int,
        None => 1,
    };
    if p < 1 {
        1
    } else if p > last {
        last
    } else {
        p
    }
}

impl Page {
    /// For an outlet with `article_count` articles: the number of pages, the
    /// page shown, and the offset of its first article.
    pub fn window(&self, article_count: i64) -> (r: (i64, i64, i64))
        requires
            article_count <= i64::MAX - PER_PAGE,
        ensures
            r.0 == page_count(article_count as int),
            r.1 == current_page(self.p, article_count as int),
            r.2 == (r.1 - 1) * PER_PAGE,
    {
        let n = article_count + PER_PAGE - 1;
        let total_pages = if n >= 0 {
            n / PER_PAGE
        } else {
            -((-n) / PER_PAGE)
        };
        let last = if total_pages < 1 {
            1
        } else {
            total_pages
        };
        let p = match self.p {
            Some(p) => p,
            None => 1,
        };
        let current = if p < 1 {
            1
        } else if p > last {
            last
        } else {
            p
        };
        assert(last * PER_PAGE <= i64::MAX) by (nonlinear_arith)
            requires
                last == 1 || (last == total_pages && total_pages >= 1),
                n >= 0 ==> total_pages == (n as int) / (PER_PAGE as int),
                n < 0 ==> total_pages <= 0,
                n <= i64::MAX - 1,
        ;
        assert((current - 1) * PER_PAGE <= last * PER_PAGE) by (nonlinear_arith)
            requires
                1 <= current <= last,
        ;
        (total_pages, current, (current - 1) * PER_PAGE)
    }
}

} // verus!
