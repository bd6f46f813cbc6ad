//! Page-count arithmetic: how many pages a collection of a given size
//! occupies when split into pages of a fixed maximum size.

use vstd::prelude::*;

verus! {

/// Number of pages needed for `post_count` items at `factor` items per
/// page: `post_count / factor`, rounded up.
pub open spec fn spec_page_count(post_count: int, factor: int) -> int
    recommends
        post_count >= 0,
        factor >= 1,
{
    if post_count % factor == 0 {
        post_count / factor
    } else {
        post_count / factor + 1
    }
}

/// The page count is the ceiling of `post_count / factor`: it is the
/// least multiple bound (`post_count <= page_count * factor
/// < post_count + factor`), it matches the closed ceiling formula, and it
/// is zero exactly when there are no items.
pub proof fn lemma_page_count_is_ceil(post_count: int, factor: int)
    requires
        post_count >= 0,
        factor >= 1,
    ensures
        spec_page_count(post_count, factor) >= 0,
        post_count <= spec_page_count(post_count, factor) * factor,
        spec_page_count(post_count, factor) * factor < post_count + factor,
        spec_page_count(post_count, factor) == (post_count + factor - 1) / factor,
        spec_page_count(post_count, factor) == 0 <==> post_count == 0,
{
    let q = post_count / factor;
    let r = post_count % factor;
    assert(post_count == q * factor + r && 0 <= r < factor && q >= 0) by (nonlinear_arith)
        requires
            post_count >= 0,
            factor >= 1,
            q == post_count / factor,
            r == post_count % factor,
    ;
    if r == 0 {
        assert(q * factor == post_count);
        assert((post_count + factor - 1) / factor == q) by (nonlinear_arith)
            requires
                factor >= 1,
                post_count == q * factor,
                q >= 0,
        ;
        assert(q == 0 <==> post_count == 0) by (nonlinear_arith)
            requires
                factor >= 1,
                post_count == q * factor,
                q >= 0,
        ;
    } else {
        assert((q + 1) * factor == q * factor + factor) by (nonlinear_arith);
        assert((post_count + factor - 1) / factor == q + 1) by (nonlinear_arith)
            requires
                factor >= 1,
                post_count == q * factor + r,
                1 <= r < factor,
                q >= 0,
        ;
    }
}

/// Each page but the last starts strictly inside the collection: with at
/// least one item, the last page's start index `(page_count - 1) * factor`
/// lies below `post_count`.
pub proof fn lemma_last_page_start(post_count: int, factor: int)
    requires
        post_count >= 1,
        factor >= 1,
    ensures
        spec_page_count(post_count, factor) >= 1,
        (spec_page_count(post_count, factor) - 1) * factor < post_count,
{
    lemma_page_count_is_ceil(post_count, factor);
    let pc = spec_page_count(post_count, factor);
    assert((pc - 1) * factor == pc * factor - factor) by (nonlinear_arith);
}

/// Ceiling division of `post_count` by `factor`, the number of pages the
/// collection occupies.
pub fn page_count(post_count: usize, factor: usize) -> (count: usize)
    requires
        factor >= 1,
    ensures
        count == spec_page_count(post_count as int, factor as int),
{
    let div: usize = post_count / factor;
    let rem: usize = post_count % factor;
    if rem == 0 {
        div
    } else {
        proof {
            lemma_page_count_is_ceil(post_count as int, factor as int);
            assert(div < post_count) by (nonlinear_arith)
                requires
                    factor >= 1,
                    post_count >= 0,
                    div == post_count as int / factor as int,
                    rem == post_count as int % factor as int,
                    rem != 0,
            ;
        }
        div + 1
    }
}

} // verus!
