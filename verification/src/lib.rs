//! Pagination of an ordered collection into fixed-size pages.
//!
//! The library splits a pre-ordered collection of `post_count` items into
//! pages of at most `posts_per_page` items each, computes navigation
//! metadata (first/previous/current/next/last page references) and the
//! half-open item-index range each page covers, memoizes the caller's
//! page-number-to-path routing function within one pass, and emits one
//! output record per page.
//!
//! Page numbers start at `0`; the first page of a pass is page `0` and the
//! last is `page_count - 1`.

pub mod count;
pub mod page;
pub mod route;
pub mod link;

pub use count::page_count;
pub use page::{Page, PageRecord};
pub use route::RouterCache;
pub use link::{Paginate, paginate, build_pages, emit_pages, pages};
