//! The path router cache: memoizes the caller's page-number-to-path
//! routing function within one pagination pass, so that every reference
//! to the same page number shares one path value.

use vstd::prelude::*;
use std::collections::HashMap;

verus! {

broadcast use vstd::std_specs::hash::group_hash_axioms;

/// Memoizing wrapper around a caller-supplied routing function. One cache
/// instance serves one pagination pass; its view is the table of page
/// numbers routed so far.
pub struct RouterCache {
    paths: HashMap<usize, String>,
}

impl View for RouterCache {
    type V = Map<usize, String>;

    closed spec fn view(&self) -> Map<usize, String> {
        self.paths@
    }
}

impl RouterCache {
    /// A fresh cache with no page number routed yet.
    pub fn new() -> (cache: Self)
        ensures
            cache@ == Map::<usize, String>::empty(),
    {
        RouterCache { paths: HashMap::new() }
    }

    /// The output path of page `number`. The first call for a given
    /// number invokes `router` and stores the result; later calls for
    /// the same number return the stored value without re-invoking, so
    /// within one pass the path of a page number never changes.
    pub fn resolve<R: Fn(usize) -> String>(&mut self, router: &R, number: usize) -> (path: String)
        requires
            call_requires(*router, (number,)),
        ensures
            final(self)@ == old(self)@.insert(number, path),
            old(self)@.contains_key(number) ==> path == old(self)@[number] && final(self)@ == old(
                self,
            )@,
            !old(self)@.contains_key(number) ==> call_ensures(*router, (number,), path),
    {
        match self.paths.get(&number) {
            Some(stored) => {
                let path = stored.clone();
                proof {
                    assert(self.paths@ =~= old(self).paths@.insert(number, path));
                }
                path
            },
            None => {
                let path = router(number);
                self.paths.insert(number, path.clone());
                path
            },
        }
    }
}

} // verus!
