//! The route registry the dev server resolves requests against.

use vstd::prelude::*;
use crate::error::RotivError;
use crate::router::discovery::{RouteEntry, RouteFile, discover_routes, is_route_listing, is_routes_dir_missing_error};
use crate::router::matcher::{RouteParams, spec_matches};
use crate::text::{copy_str, str_equal};

verus! {

/// The routes of a project, loaded from its routes directory.
pub struct RouteRegistry {
    routes_dir: String,
    entries: Vec<RouteEntry>,
}

/// The index `find_by_path` selects: the first entry whose route path is the
/// request path; failing that, the first entry whose pattern matches it.
pub open spec fn found_at(s: Seq<RouteEntry>, request: Seq<char>, i: int) -> bool {
    0 <= i < s.len() && (
        (s[i].route_path@ == request && forall|j: int| 0 <= j < i ==> s[j].route_path@ != request)
        || ((forall|j: int| 0 <= j < s.len() ==> s[j].route_path@ != request)
            && spec_matches(s[i].route_path@, request) is Some
            && forall|j: int| 0 <= j < i ==> spec_matches(s[j].route_path@, request) is None)
    )
}

/// No entry serves the request path.
pub open spec fn none_found(s: Seq<RouteEntry>, request: Seq<char>) -> bool {
    forall|j: int| 0 <= j < s.len() ==> s[j].route_path@ != request && spec_matches(s[j].route_path@, request) is None
}

impl RouteRegistry {
    /// The routes directory the registry reads.
    pub closed spec fn spec_routes_dir(&self) -> Seq<char> {
        self.routes_dir@
    }

    /// The registered entries.
    pub closed spec fn spec_entries(&self) -> Seq<RouteEntry> {
        self.entries@
    }

    /// An empty registry for `routes_dir`.
    pub fn new(routes_dir: &str) -> (r: Self)
        ensures
            r.spec_routes_dir() == routes_dir@,
            r.spec_entries() == Seq::<RouteEntry>::empty(),
    {
        RouteRegistry { routes_dir: copy_str(routes_dir), entries: Vec::new() }
    }

    /// The routes directory.
    pub fn routes_dir(&self) -> (r: &str)
        ensures
            r@ == self.spec_routes_dir(),
    {
        self.routes_dir.as_str()
    }

    /// Replaces the entries by the routes discovered among `files`, the files
    /// found below the routes directory. Fails, leaving the entries as they
    /// were, when the routes directory does not exist.
    pub fn load(&mut self, dir_exists: bool, files: &Vec<RouteFile>) -> (r: Result<(), RotivError>)
        ensures
            final(self).spec_routes_dir() == old(self).spec_routes_dir(),
            r is Err <==> !dir_exists,
            r matches Err(e) ==> is_routes_dir_missing_error(e, old(self).spec_routes_dir())
                && final(self).spec_entries() == old(self).spec_entries(),
            r is Ok ==> is_route_listing(final(self).spec_entries(), files@),
    {
        match discover_routes(self.routes_dir.as_str(), dir_exists, files) {
            Ok(v) => {
                self.entries = v;
                Ok(())
            },
            Err(e) => Err(e),
        }
    }

    /// Re-discovers the routes (after a change on disk); the same as `load`.
    pub fn reload(&mut self, dir_exists: bool, files: &Vec<RouteFile>) -> (r: Result<(), RotivError>)
        ensures
            final(self).spec_routes_dir() == old(self).spec_routes_dir(),
            r is Err <==> !dir_exists,
            r matches Err(e) ==> is_routes_dir_missing_error(e, old(self).spec_routes_dir())
                && final(self).spec_entries() == old(self).spec_entries(),
            r is Ok ==> is_route_listing(final(self).spec_entries(), files@),
    {
        self.load(dir_exists, files)
    }

    /// All registered entries.
    pub fn entries(&self) -> (r: &[RouteEntry])
        ensures
            r@ == self.spec_entries(),
    {
        self.entries.as_slice()
    }

    /// The entry serving `request_path`: an entry whose route path equals it,
    /// else the first whose `:param` pattern matches it.
    pub fn find_by_path(&self, request_path: &str) -> (r: Option<&RouteEntry>)
        ensures
            r matches Some(e) ==> exists|i: int| #[trigger] found_at(self.spec_entries(), request_path@, i) && *e == self.spec_entries()[i],
            r is None ==> none_found(self.spec_entries(), request_path@),
    {
        let n = self.entries.len();
        let mut i: usize = 0;
        while i < n
            invariant
                n == self.entries@.len(),
                i <= n,
                forall|j: int| 0 <= j < i ==> self.entries@[j].route_path@ != request_path@,
            decreases n - i,
        {
            if str_equal(self.entries[i].route_path.as_str(), request_path) {
                assert(found_at(self.spec_entries(), request_path@, i as int));
                return Some(&self.entries[i]);
            }
            i = i + 1;
        }
        let mut i: usize = 0;
        while i < n
            invariant
                n == self.entries@.len(),
                i <= n,
                forall|j: int| 0 <= j < n ==> self.entries@[j].route_path@ != request_path@,
                forall|j: int| 0 <= j < i ==> spec_matches(self.entries@[j].route_path@, request_path@) is None,
            decreases n - i,
        {
            if crate::router::matcher::matches(self.entries[i].route_path.as_str(), request_path).is_some() {
                assert(found_at(self.spec_entries(), request_path@, i as int));
                return Some(&self.entries[i]);
            }
            i = i + 1;
        }
        None
    }

    /// The path parameters of `request_path` against the entry's pattern;
    /// none when it does not match.
    pub fn extract_params(&self, entry: &RouteEntry, request_path: &str) -> (r: RouteParams)
        ensures
            r@ == match spec_matches(entry.route_path@, request_path@) {
                Some(m) => m,
                None => Map::empty(),
            },
    {
        match crate::router::matcher::matches(entry.route_path.as_str(), request_path) {
            Some(p) => p,
            None => RouteParams::new(),
        }
    }
}


/// A request path is served by at most one entry: the registry's choice is
/// unambiguous.
pub proof fn lemma_found_at_unique(s: Seq<RouteEntry>, request: Seq<char>, i: int, j: int)
    requires
        found_at(s, request, i),
        found_at(s, request, j),
    ensures
        i == j,
{
    if s[i].route_path@ == request || s[j].route_path@ == request {
        assert(s[i].route_path@ == request && s[j].route_path@ == request);
    }
}


/// Every registered route is reachable: a request for a registered route
/// path is served (by that route, or by an earlier one with the same path).
pub proof fn lemma_every_route_served(s: Seq<RouteEntry>, i: int)
    requires
        0 <= i < s.len(),
    ensures
        !none_found(s, s[i].route_path@),
        exists|j: int| #[trigger] found_at(s, s[i].route_path@, j) && s[j].route_path@ == s[i].route_path@,
{
    let p = s[i].route_path@;
    let j = choose|j: int| 0 <= j <= i && s[j].route_path@ == p && forall|k: int| 0 <= k < j ==> s[k].route_path@ != p;
    assert(exists|j: int| 0 <= j <= i && s[j].route_path@ == p && forall|k: int| 0 <= k < j ==> s[k].route_path@ != p) by {
        lemma_first_with_path(s, p, i);
    }
    assert(found_at(s, p, j));
}

proof fn lemma_first_with_path(s: Seq<RouteEntry>, p: Seq<char>, i: int)
    requires
        0 <= i < s.len(),
        s[i].route_path@ == p,
    ensures
        exists|j: int| 0 <= j <= i && s[j].route_path@ == p && forall|k: int| 0 <= k < j ==> s[k].route_path@ != p,
    decreases i,
{
    if exists|k: int| 0 <= k < i && s[k].route_path@ == p {
        let k = choose|k: int| 0 <= k < i && s[k].route_path@ == p;
        lemma_first_with_path(s, p, k);
    } else {
        assert(forall|k: int| 0 <= k < i ==> s[k].route_path@ != p);
    }
}

/// The entry chosen for a request serves it, and an exact route wins: the
/// chosen entry's route path is the request path or a pattern matching it;
/// when some entry's route path is the request path, the chosen one is the
/// first such entry; otherwise no earlier entry's pattern matches.
pub proof fn lemma_found_entry_serves(s: Seq<RouteEntry>, request: Seq<char>, i: int)
    requires
        found_at(s, request, i),
    ensures
        0 <= i < s.len(),
        s[i].route_path@ == request || spec_matches(s[i].route_path@, request) is Some,
        (exists|j: int| 0 <= j < s.len() && (#[trigger] s[j]).route_path@ == request) ==> {
            &&& s[i].route_path@ == request
            &&& forall|j: int| 0 <= j < i ==> (#[trigger] s[j]).route_path@ != request
        },
        (forall|j: int| 0 <= j < s.len() ==> (#[trigger] s[j]).route_path@ != request)
            ==> forall|j: int| 0 <= j < i ==> spec_matches((#[trigger] s[j]).route_path@, request) is None,
{
}

} // verus!
