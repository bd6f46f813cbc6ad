use paginate::{build_pages, emit_pages, page_count, pages, paginate, Page, PageRecord, RouterCache};
use std::cell::Cell;

fn route(n: usize) -> String {
    format!("notes/{}/index.html", n)
}

#[test]
fn page_count_is_ceiling_division() {
    assert_eq!(page_count(0, 1), 0);
    assert_eq!(page_count(0, 10), 0);
    assert_eq!(page_count(1, 1), 1);
    assert_eq!(page_count(1, 10), 1);
    assert_eq!(page_count(9, 3), 3);
    assert_eq!(page_count(10, 3), 4);
    assert_eq!(page_count(25, 10), 3);
    assert_eq!(page_count(10, 10), 1);
    assert_eq!(page_count(11, 10), 2);
    assert_eq!(page_count(usize::MAX, 1), usize::MAX);
    assert_eq!(page_count(usize::MAX, usize::MAX), 1);
}

#[test]
fn example_a_three_pages() {
    let built: Vec<Page> = build_pages(25, 10, &route);
    assert_eq!(built.len(), 3);
    let ranges: Vec<(usize, usize)> = built.iter().map(|p| (p.range.start, p.range.end)).collect();
    assert_eq!(ranges, vec![(0, 10), (10, 20), (20, 25)]);
    for (i, p) in built.iter().enumerate() {
        assert_eq!(p.curr.0, i);
        assert_eq!(p.page_count, 3);
        assert_eq!(p.post_count, 25);
        assert_eq!(p.posts_per_page, 10);
        assert_eq!(p.last.0, 2);
        assert_eq!(p.first.0, 0);
    }
}

#[test]
fn example_b_no_items_emits_nothing() {
    let mut destination: Vec<PageRecord> = Vec::new();
    pages(&mut destination, 0, 10, &route);
    assert!(destination.is_empty());

    let mut seeded = vec![PageRecord {
        location: String::from("kept/index.html"),
        page: build_pages(1, 1, &route).pop().unwrap(),
    }];
    pages(&mut seeded, 0, 10, &route);
    assert_eq!(seeded.len(), 1);
    assert_eq!(seeded[0].location, "kept/index.html");
}

#[test]
fn example_c_single_full_page() {
    let built = build_pages(10, 10, &route);
    assert_eq!(built.len(), 1);
    let only = &built[0];
    assert!(only.prev.is_none());
    assert!(only.next.is_none());
    assert_eq!(only.range.start, 0);
    assert_eq!(only.range.end, 10);
    assert_eq!(only.curr.0, 0);
    assert_eq!(only.first.0, 0);
    assert_eq!(only.last.0, 0);
    assert_eq!(only.first.1, route(0));
    assert_eq!(only.last.1, route(0));
}

#[test]
fn neighbor_links_name_each_other() {
    let built = build_pages(25, 10, &route);
    assert!(built[0].prev.is_none());
    assert!(built[2].next.is_none());
    for i in 0..built.len() - 1 {
        let next = built[i].next.as_ref().expect("inner page lacks next");
        assert_eq!(next.0, i + 1);
        assert_eq!(next.1, built[i + 1].curr.1);
        let prev = built[i + 1].prev.as_ref().expect("inner page lacks prev");
        assert_eq!(prev.0, i);
        assert_eq!(prev.1, built[i].curr.1);
    }
}

#[test]
fn first_and_last_identical_across_pass() {
    let built = build_pages(47, 5, &route);
    assert_eq!(built.len(), 10);
    let first = (built[0].first.0, built[0].first.1.clone());
    let last = (built[0].last.0, built[0].last.1.clone());
    for p in &built {
        assert_eq!((p.first.0, p.first.1.clone()), first);
        assert_eq!((p.last.0, p.last.1.clone()), last);
    }
    assert_eq!(first, (0, route(0)));
    assert_eq!(last, (9, route(9)));
}

#[test]
fn router_paths_come_from_the_router() {
    let built = build_pages(25, 10, &route);
    for (i, p) in built.iter().enumerate() {
        assert_eq!(p.curr.1, format!("notes/{}/index.html", i));
    }
}

#[test]
fn cache_resolves_each_number_once() {
    let calls = Cell::new(0usize);
    let counting = |n: usize| -> String {
        calls.set(calls.get() + 1);
        route(n)
    };
    let mut cache = RouterCache::new();
    let a = cache.resolve(&counting, 4);
    let b = cache.resolve(&counting, 4);
    assert_eq!(a, b);
    assert_eq!(a, route(4));
    assert_eq!(calls.get(), 1);
    let c = cache.resolve(&counting, 7);
    assert_eq!(c, route(7));
    assert_eq!(calls.get(), 2);
}

#[test]
fn pass_routes_each_number_once() {
    let calls = Cell::new(0usize);
    let counting = |n: usize| -> String {
        calls.set(calls.get() + 1);
        route(n)
    };
    let built = build_pages(25, 10, &counting);
    assert_eq!(built.len(), 3);
    assert_eq!(calls.get(), 3);
}

#[test]
fn emit_appends_in_order_and_keeps_existing() {
    let mut destination = vec![PageRecord {
        location: String::from("existing/index.html"),
        page: build_pages(1, 1, &route).pop().unwrap(),
    }];
    let built = build_pages(25, 10, &route);
    emit_pages(&mut destination, built);
    assert_eq!(destination.len(), 4);
    assert_eq!(destination[0].location, "existing/index.html");
    for i in 0..3 {
        let record = &destination[i + 1];
        assert_eq!(record.location, route(i));
        assert_eq!(record.page.curr.0, i);
        assert_eq!(record.location, record.page.curr.1);
    }
}

#[test]
fn handler_runs_a_full_pass() {
    let handler = paginate(String::from("notes"), 10, route);
    assert_eq!(handler.target, "notes");
    assert_eq!(handler.factor, 10);
    let mut destination: Vec<PageRecord> = Vec::new();
    handler.handle(&mut destination, 25);
    assert_eq!(destination.len(), 3);
    for (i, record) in destination.iter().enumerate() {
        assert_eq!(record.page.curr.0, i);
        assert_eq!(record.location, route(i));
    }
}

#[test]
fn factor_one_gives_one_item_per_page() {
    let built = build_pages(3, 1, &route);
    assert_eq!(built.len(), 3);
    for (i, p) in built.iter().enumerate() {
        assert_eq!(p.range.start, i);
        assert_eq!(p.range.end, i + 1);
    }
}

#[test]
fn factor_above_count_gives_one_short_page() {
    let built = build_pages(3, 10, &route);
    assert_eq!(built.len(), 1);
    assert_eq!(built[0].range.start, 0);
    assert_eq!(built[0].range.end, 3);
    assert!(built[0].prev.is_none());
    assert!(built[0].next.is_none());
}
