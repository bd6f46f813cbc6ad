//! The page linker and emitter: build every page of a pass with its
//! navigation metadata, and append one output record per page to a
//! destination collection.

use vstd::prelude::*;
use crate::count::{spec_page_count, page_count, lemma_page_count_is_ceil, lemma_last_page_start};
use crate::page::{
    Page, PageRecord, spec_range_start, spec_range_end, page_well_formed, pages_complete,
};
use crate::route::RouterCache;

verus! {

/// Mid-pass shape of one built page: its links carry the paths the route
/// table holds for the referenced numbers, and `first`/`last` carry the
/// two paths resolved at the start of the pass.
spec fn page_built(
    p: Page,
    i: int,
    count: int,
    post_count: int,
    factor: int,
    routes: Map<usize, String>,
    first_path: String,
    last_path: String,
) -> bool {
    &&& p.curr.0 == i
    &&& routes.contains_key(i as usize) && p.curr.1 == routes[i as usize]
    &&& p.page_count == count
    &&& p.post_count == post_count
    &&& p.posts_per_page == factor
    &&& p.range.start == spec_range_start(i, factor)
    &&& p.range.end == spec_range_end(i, post_count, factor)
    &&& p.first == (0usize, first_path)
    &&& p.last == (((count - 1) as usize), last_path)
    &&& (i == 0 ==> p.prev is None)
    &&& (i > 0 ==> routes.contains_key((i - 1) as usize) && p.prev == Some(
        (((i - 1) as usize), routes[(i - 1) as usize]),
    ))
    &&& (i == count - 1 ==> p.next is None)
    &&& (i < count - 1 ==> routes.contains_key((i + 1) as usize) && p.next == Some(
        (((i + 1) as usize), routes[(i + 1) as usize]),
    ))
}

/// Build every page of one pass over `post_count` items at `factor` items
/// per page, routing page numbers through a fresh memoizing cache so that
/// all references to the same page number share one path value.
///
/// The result holds `ceil(post_count / factor)` pages, each well formed:
/// correct number, range and pass-wide constants, neighbour links absent
/// exactly at the boundaries, and `first`/`last` identical on every page.
/// Each page's own path is a value the router allows for its number.
pub fn build_pages<R: Fn(usize) -> String>(post_count: usize, factor: usize, router: &R) -> (pages:
    Vec<Page>)
    requires
        factor >= 1,
        forall|n: usize|
            n < spec_page_count(post_count as int, factor as int) ==> call_requires(
                *router,
                (n,),
            ),
    ensures
        pages_complete(pages@, post_count as int, factor as int),
        forall|i: int|
            0 <= i < pages@.len() ==> call_ensures(
                *router,
                ((i as usize),),
                (#[trigger] pages@[i]).curr.1,
            ),
{
    proof {
        lemma_page_count_is_ceil(post_count as int, factor as int);
    }
    let count = page_count(post_count, factor);
    let mut pages: Vec<Page> = Vec::new();
    if count == 0 {
        return pages;
    }
    proof {
        lemma_last_page_start(post_count as int, factor as int);
    }
    let last_num = count - 1;

    let mut cache = RouterCache::new();
    let first_path = cache.resolve(router, 0);
    let last_path = cache.resolve(router, last_num);

    for current in 0..count
        invariant
            factor >= 1,
            post_count >= 1,
            count == spec_page_count(post_count as int, factor as int),
            count >= 1,
            last_num == count - 1,
            (count - 1) * factor < post_count,
            forall|n: usize| n < count ==> call_requires(*router, (n,)),
            forall|n: usize|
                cache@.contains_key(n) ==> call_ensures(*router, (n,), cache@[n]),
            cache@.contains_key(0usize) && cache@[0usize] == first_path,
            cache@.contains_key(last_num) && cache@[last_num] == last_path,
            pages@.len() == current,
            forall|i: int|
                0 <= i < current ==> page_built(
                    #[trigger] pages@[i],
                    i,
                    count as int,
                    post_count as int,
                    factor as int,
                    cache@,
                    first_path,
                    last_path,
                ),
    {
        let prev = if current == 0 {
            None
        } else {
            let num = current - 1;
            let path = cache.resolve(router, num);
            Some((num, path))
        };
        let next = if current == last_num {
            None
        } else {
            let num = current + 1;
            let path = cache.resolve(router, num);
            Some((num, path))
        };

        proof {
            assert((current as int) * (factor as int) <= (count - 1) * (factor as int))
                by (nonlinear_arith)
                requires
                    current as int <= count - 1,
                    factor >= 1,
            ;
            assert(((current as int) + 1) * (factor as int) == (current as int) * (factor as int)
                + factor as int) by (nonlinear_arith);
        }
        let start = current * factor;
        let end = if post_count - start < factor {
            post_count
        } else {
            start + factor
        };

        let target = cache.resolve(router, current);

        let page = Page {
            first: (0, first_path.clone()),
            prev,
            curr: (current, target),
            next,
            last: (last_num, last_path.clone()),
            page_count: count,
            post_count,
            posts_per_page: factor,
            range: start..end,
        };
        pages.push(page);
    }

    proof {
        assert forall|i: int| 0 <= i < pages@.len() implies page_well_formed(
            pages@,
            i,
            post_count as int,
            factor as int,
        ) by {
            assert(page_built(
                pages@[i],
                i,
                count as int,
                post_count as int,
                factor as int,
                cache@,
                first_path,
                last_path,
            ));
            assert(page_built(
                pages@[0],
                0,
                count as int,
                post_count as int,
                factor as int,
                cache@,
                first_path,
                last_path,
            ));
            assert(page_built(
                pages@[count - 1],
                count - 1,
                count as int,
                post_count as int,
                factor as int,
                cache@,
                first_path,
                last_path,
            ));
            if i > 0 {
                assert(page_built(
                    pages@[i - 1],
                    i - 1,
                    count as int,
                    post_count as int,
                    factor as int,
                    cache@,
                    first_path,
                    last_path,
                ));
            }
            if i < count - 1 {
                assert(page_built(
                    pages@[i + 1],
                    i + 1,
                    count as int,
                    post_count as int,
                    factor as int,
                    cache@,
                    first_path,
                    last_path,
                ));
            }
        };
    }
    pages
}

/// Append one output record per page to `destination`, in ascending page
/// order: each record sits at its page's own path and carries the page's
/// metadata. Strictly additive: existing entries are neither removed nor
/// reordered, and with no pages the destination is untouched.
pub fn emit_pages(destination: &mut Vec<PageRecord>, pages: Vec<Page>)
    ensures
        final(destination)@.len() == old(destination)@.len() + pages@.len(),
        forall|i: int|
            0 <= i < old(destination)@.len() ==> final(destination)@[i] == old(destination)@[i],
        forall|i: int|
            0 <= i < pages@.len() ==> {
                let r = #[trigger] final(destination)@[old(destination)@.len() + i];
                r.location == pages@[i].curr.1 && r.page == pages@[i]
            },
{
    let ghost all = pages@;
    let ghost base = destination@.len() as int;
    let mut remaining = pages;
    while remaining.len() > 0
        invariant
            destination@.len() == base + all.len() - remaining@.len(),
            0 <= base <= destination@.len(),
            remaining@ =~= all.skip(destination@.len() - base),
            forall|i: int| 0 <= i < base ==> destination@[i] == old(destination)@[i],
            forall|i: int|
                0 <= i < destination@.len() - base ==> {
                    let r = #[trigger] destination@[base + i];
                    r.location == all[i].curr.1 && r.page == all[i]
                },
        decreases remaining@.len(),
    {
        let ghost done = destination@.len() - base;
        let page = remaining.remove(0);
        proof {
            assert(page == all[done]);
            assert(remaining@ =~= all.skip(done + 1));
        }
        let location = page.curr.1.clone();
        let record = PageRecord { location, page };
        let ghost rec = record;
        let ghost pre = destination@;
        destination.push(record);
        proof {
            assert(destination@ == pre.push(rec));
            assert forall|i: int| 0 <= i < destination@.len() - base implies {
                let r = #[trigger] destination@[base + i];
                r.location == all[i].curr.1 && r.page == all[i]
            } by {
                if i < done {
                    assert(pre.push(rec)[base + i] == pre[base + i]);
                } else {
                    assert(pre.push(rec)[base + i] == rec);
                }
            };
        }
    }
    proof {
        assert(all.skip(0) =~= all);
    }
}

/// One full pagination pass: count the pages for `post_count` items at
/// `factor` items per page, build them, and append one record per page to
/// `destination`. The records appended are exactly the well-formed pages
/// of the pass, in ascending page order, each at its page's own path;
/// entries already in `destination` are left as they were.
pub fn pages<R: Fn(usize) -> String>(
    destination: &mut Vec<PageRecord>,
    post_count: usize,
    factor: usize,
    router: &R,
)
    requires
        factor >= 1,
        forall|n: usize|
            n < spec_page_count(post_count as int, factor as int) ==> call_requires(
                *router,
                (n,),
            ),
    ensures
        final(destination)@.len() == old(destination)@.len() + spec_page_count(
            post_count as int,
            factor as int,
        ),
        forall|i: int|
            0 <= i < old(destination)@.len() ==> final(destination)@[i] == old(destination)@[i],
        pages_complete(
            final(destination)@.skip(old(destination)@.len() as int).map_values(
                |r: PageRecord| r.page,
            ),
            post_count as int,
            factor as int,
        ),
        forall|i: int|
            old(destination)@.len() <= i < final(destination)@.len() ==> {
                let r = #[trigger] final(destination)@[i];
                r.location == r.page.curr.1 && call_ensures(
                    *router,
                    (((i - old(destination)@.len()) as usize),),
                    r.page.curr.1,
                )
            },
{
    let built = build_pages(post_count, factor, router);
    let ghost built_seq = built@;
    emit_pages(destination, built);
    proof {
        let oldlen = old(destination)@.len() as int;
        let emitted = destination@.skip(oldlen).map_values(|r: PageRecord| r.page);
        assert forall|i: int| 0 <= i < built_seq.len() implies emitted[i] == built_seq[i] by {
            assert(destination@[oldlen + i].page == built_seq[i]);
            assert(destination@.skip(oldlen)[i] == destination@[oldlen + i]);
        };
        assert(emitted =~= built_seq);
        assert forall|i: int| oldlen <= i < destination@.len() implies {
            let r = #[trigger] destination@[i];
            r.location == r.page.curr.1 && call_ensures(
                *router,
                (((i - oldlen) as usize),),
                r.page.curr.1,
            )
        } by {
            assert(destination@[oldlen + (i - oldlen)].page == built_seq[i - oldlen]);
            assert(destination@[oldlen + (i - oldlen)].location == built_seq[i - oldlen].curr.1);
            assert(call_ensures(
                *router,
                (((i - oldlen) as usize),),
                built_seq[i - oldlen].curr.1,
            ));
        };
    }
}

/// Pagination handler: the configuration of one pass. `target` names the
/// source collection among the host pipeline's dependencies, `factor` is
/// the page size, and `router` maps a page number to its output path.
pub struct Paginate<R> where R: Fn(usize) -> String + Sync + Send + 'static {
    /// Name of the source collection within the host's dependency set.
    pub target: String,
    /// Maximum number of items per page; at least one.
    pub factor: usize,
    /// Caller-supplied routing function from page number to output path;
    /// it must be deterministic and side-effect-free for the shared path
    /// values of one pass to be consistent.
    pub router: R,
}

impl<R> Paginate<R> where R: Fn(usize) -> String + Sync + Send + 'static {
    /// Run one pagination pass against a source collection of
    /// `post_count` items (resolved from `target` by the host), appending
    /// the pass's records to `destination`.
    pub fn handle(&self, destination: &mut Vec<PageRecord>, post_count: usize)
        requires
            self.factor >= 1,
            forall|n: usize|
                n < spec_page_count(post_count as int, self.factor as int) ==> call_requires(
                    self.router,
                    (n,),
                ),
        ensures
            final(destination)@.len() == old(destination)@.len() + spec_page_count(
                post_count as int,
                self.factor as int,
            ),
            forall|i: int|
                0 <= i < old(destination)@.len() ==> final(destination)@[i] == old(
                    destination,
                )@[i],
            pages_complete(
                final(destination)@.skip(old(destination)@.len() as int).map_values(
                    |r: PageRecord| r.page,
                ),
                post_count as int,
                self.factor as int,
            ),
            forall|i: int|
                old(destination)@.len() <= i < final(destination)@.len() ==> {
                    let r = #[trigger] final(destination)@[i];
                    r.location == r.page.curr.1 && call_ensures(
                        self.router,
                        (((i - old(destination)@.len()) as usize),),
                        r.page.curr.1,
                    )
                },
    {
        pages(destination, post_count, self.factor, &self.router);
    }
}

/// Configure a pagination pass: items of the collection named `target`
/// are split into pages of at most `factor` items, each page rendered at
/// the path `router` gives for its number. A page size below one is an
/// invalid configuration and is rejected here, before any page
/// arithmetic runs.
pub fn paginate<R>(target: String, factor: usize, router: R) -> (handler: Paginate<R>) where
    R: Fn(usize) -> String + Sync + Send + 'static,

    requires
        factor >= 1,
    ensures
        handler.target == target,
        handler.factor == factor,
        handler.router == router,
{
    Paginate { target, factor, router }
}

} // verus!
