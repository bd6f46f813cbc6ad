//! The page record: navigation metadata plus the item-index range one
//! page covers, and the output record emitted for it.

use vstd::prelude::*;
use core::ops::Range;
use crate::count::spec_page_count;

verus! {

/// One paginated unit: a contiguous window over the source collection
/// plus navigation metadata.
///
/// Each reference to a page is a pair of its number and its output path.
/// Page numbers start at `0`: `first` always refers to page `0` and
/// `last` to page `page_count - 1`; both are identical across every page
/// of one pass. `prev` and `next` are absent at the respective boundary.
pub struct Page {
    /// Reference to the first page of the pass, page `0`.
    pub first: (usize, String),
    /// Reference to the following page, absent on the last page.
    pub next: Option<(usize, String)>,
    /// This page's own number and output path.
    pub curr: (usize, String),
    /// Reference to the preceding page, absent on the first page.
    pub prev: Option<(usize, String)>,
    /// Reference to the last page of the pass, page `page_count - 1`.
    pub last: (usize, String),

    /// Half-open interval of item indices this page covers. The indices
    /// are only valid against the exact ordering of the source collection
    /// at generation time.
    pub range: Range<usize>,

    /// Total number of pages in the pass.
    pub page_count: usize,
    /// Total number of items in the source collection.
    pub post_count: usize,
    /// Maximum number of items per page.
    pub posts_per_page: usize,
}

/// Start of the item-index range of page `i`.
pub open spec fn spec_range_start(i: int, factor: int) -> int {
    i * factor
}

/// End (exclusive) of the item-index range of page `i`: one full page
/// further, clipped to the collection's size.
pub open spec fn spec_range_end(i: int, post_count: int, factor: int) -> int {
    if post_count < (i + 1) * factor {
        post_count
    } else {
        (i + 1) * factor
    }
}

/// Page `i` of the sequence carries the right metadata: its own number
/// and range, the pass-wide constants, boundary-aware neighbour links,
/// and `first`/`last` references that agree with the boundary pages' own
/// paths.
pub open spec fn page_well_formed(pages: Seq<Page>, i: int, post_count: int, factor: int) -> bool {
    let n = pages.len() as int;
    let p = pages[i];
    &&& p.curr.0 == i
    &&& p.page_count == n
    &&& p.post_count == post_count
    &&& p.posts_per_page == factor
    &&& p.range.start == spec_range_start(i, factor)
    &&& p.range.end == spec_range_end(i, post_count, factor)
    &&& p.first == (0usize, pages[0].curr.1)
    &&& p.last == (((n - 1) as usize), pages[n - 1].curr.1)
    &&& (i == 0 ==> p.prev is None)
    &&& (i > 0 ==> p.prev == Some((((i - 1) as usize), pages[i - 1].curr.1)))
    &&& (i == n - 1 ==> p.next is None)
    &&& (i < n - 1 ==> p.next == Some((((i + 1) as usize), pages[i + 1].curr.1)))
}

/// Every page of the sequence is well formed for a pass over `post_count`
/// items at `factor` items per page.
pub open spec fn pages_linked(pages: Seq<Page>, post_count: int, factor: int) -> bool {
    forall|i: int|
        0 <= i < pages.len() ==> #[trigger] page_well_formed(pages, i, post_count, factor)
}

/// A full pass: as many pages as the count calculator demands, all of
/// them well formed.
pub open spec fn pages_complete(pages: Seq<Page>, post_count: int, factor: int) -> bool {
    &&& pages.len() == spec_page_count(post_count, factor)
    &&& pages_linked(pages, post_count, factor)
}

/// Item index `k` falls inside the range of some page of the pass.
pub open spec fn covered(pages: Seq<Page>, k: int) -> bool {
    exists|i: int|
        0 <= i < pages.len() && ((#[trigger] pages[i].range).start <= k < pages[i].range.end)
}

/// The ranges of the pages of one pass, taken in page order, tile the
/// item interval `[0, post_count)` exactly: the first range starts at
/// `0`, the last ends at `post_count`, each range ends where the next
/// begins, no range is empty, ranges of distinct pages never overlap,
/// and every item index falls inside some page's range.
pub proof fn lemma_ranges_partition(pages: Seq<Page>, post_count: int, factor: int)
    requires
        post_count >= 0,
        factor >= 1,
        pages_complete(pages, post_count, factor),
    ensures
        pages.len() > 0 ==> pages[0].range.start == 0,
        pages.len() > 0 ==> pages[pages.len() - 1].range.end == post_count,
        forall|i: int|
            0 <= i < pages.len() - 1 ==> (#[trigger] pages[i].range).end == pages[
                i + 1
            ].range.start,
        forall|i: int| 0 <= i < pages.len() ==> (#[trigger] pages[i].range).start < pages[i].range.end,
        forall|i: int, j: int|
            0 <= i < j < pages.len() ==> (#[trigger] pages[i].range).end <= (#[trigger] pages[
                j
            ].range).start,
        forall|k: int| 0 <= k < post_count ==> #[trigger] covered(pages, k),
{
    let n = pages.len() as int;
    crate::count::lemma_page_count_is_ceil(post_count, factor);
    if n > 0 {
        crate::count::lemma_last_page_start(post_count, factor);
    }
    assert forall|i: int| 0 <= i < n implies (#[trigger] pages[i].range).start < pages[
        i
    ].range.end by {
        assert(page_well_formed(pages, i, post_count, factor));
        assert(i * factor + factor == (i + 1) * factor && i * factor <= (n - 1) * factor)
            by (nonlinear_arith)
            requires
                0 <= i <= n - 1,
                factor >= 1,
        ;
    };
    assert forall|i: int| 0 <= i < n - 1 implies (#[trigger] pages[i].range).end == pages[
        i + 1
    ].range.start by {
        assert(page_well_formed(pages, i, post_count, factor));
        assert(page_well_formed(pages, i + 1, post_count, factor));
        assert((i + 1) * factor <= (n - 1) * factor) by (nonlinear_arith)
            requires
                i + 1 <= n - 1,
                factor >= 1,
        ;
    };
    assert forall|i: int, j: int| 0 <= i < j < n implies (#[trigger] pages[i].range).end <= (
    #[trigger] pages[j].range).start by {
        assert(page_well_formed(pages, i, post_count, factor));
        assert(page_well_formed(pages, j, post_count, factor));
        assert((i + 1) * factor <= j * factor) by (nonlinear_arith)
            requires
                i + 1 <= j,
                factor >= 1,
        ;
    };
    if n > 0 {
        assert(page_well_formed(pages, 0, post_count, factor));
        assert(page_well_formed(pages, n - 1, post_count, factor));
        assert(pages[0].range.start == 0 * factor == 0);
        assert(pages[n - 1].range.end == post_count);
    }
    assert forall|k: int| 0 <= k < post_count implies #[trigger] covered(pages, k) by {
        let w = k / factor;
        assert(w * factor <= k < w * factor + factor && 0 <= w) by (nonlinear_arith)
            requires
                0 <= k,
                factor >= 1,
                w == k / factor,
        ;
        assert(w < n) by (nonlinear_arith)
            requires
                w * factor <= k,
                k < post_count,
                post_count <= n * factor,
                factor >= 1,
                0 <= w,
        ;
        assert(page_well_formed(pages, w, post_count, factor));
        assert((w + 1) * factor == w * factor + factor) by (nonlinear_arith);
        assert(0 <= w < pages.len() && pages[w].range.start <= k < pages[w].range.end);
    };
}

/// In one pass, consecutive pages point at each other: page `i`'s `next`
/// names page `i + 1` and page `i + 1`'s `prev` names page `i`, each
/// carrying the named page's own path; `prev` is absent exactly on the
/// first page and `next` exactly on the last.
pub proof fn lemma_neighbor_links(pages: Seq<Page>, post_count: int, factor: int)
    requires
        pages_linked(pages, post_count, factor),
    ensures
        forall|i: int|
            0 <= i < pages.len() - 1 ==> (#[trigger] pages[i]).next == Some(
                (((i + 1) as usize), pages[i + 1].curr.1),
            ) && pages[i + 1].prev == Some(((i as usize), pages[i].curr.1)),
        pages.len() > 0 ==> pages[0].prev is None,
        pages.len() > 0 ==> pages[pages.len() - 1].next is None,
        forall|i: int| 0 <= i < pages.len() ==> (#[trigger] pages[i]).curr.0 == i,
{
    let n = pages.len() as int;
    assert forall|i: int| 0 <= i < n - 1 implies (#[trigger] pages[i]).next == Some(
        (((i + 1) as usize), pages[i + 1].curr.1),
    ) && pages[i + 1].prev == Some(((i as usize), pages[i].curr.1)) by {
        assert(page_well_formed(pages, i, post_count, factor));
        assert(page_well_formed(pages, i + 1, post_count, factor));
    };
    if n > 0 {
        assert(page_well_formed(pages, 0, post_count, factor));
        assert(page_well_formed(pages, n - 1, post_count, factor));
    }
    assert forall|i: int| 0 <= i < n implies (#[trigger] pages[i]).curr.0 == i by {
        assert(page_well_formed(pages, i, post_count, factor));
    };
}

/// `first` and `last` are identical — same page number and same path
/// value — across every page of one pass: each names the boundary page
/// together with that page's own path.
pub proof fn lemma_first_last_uniform(pages: Seq<Page>, post_count: int, factor: int)
    requires
        pages_linked(pages, post_count, factor),
    ensures
        forall|i: int, j: int|
            0 <= i < pages.len() && 0 <= j < pages.len() ==> (#[trigger] pages[i]).first == (
            #[trigger] pages[j]).first && pages[i].last == pages[j].last,
        forall|i: int|
            0 <= i < pages.len() ==> (#[trigger] pages[i]).first == (
            0usize,
            pages[0].curr.1,
        ) && pages[i].last == ((((pages.len() - 1) as usize)), pages[pages.len() - 1].curr.1),
{
    assert forall|i: int| 0 <= i < pages.len() implies (#[trigger] pages[i]).first == (
        0usize,
        pages[0].curr.1,
    ) && pages[i].last == ((((pages.len() - 1) as usize)), pages[pages.len() - 1].curr.1) by {
        assert(page_well_formed(pages, i, post_count, factor));
    };
}

/// One writable output record, emitted per page: the location the page is
/// rendered to, carrying the page's metadata.
pub struct PageRecord {
    /// Output location, the page's own path.
    pub location: String,
    /// The page metadata attached to the record.
    pub page: Page,
}

} // verus!
