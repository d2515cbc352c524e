//! Matching of request paths against route patterns with `:param` segments.

use vstd::prelude::*;
use crate::text::{str_equal, chars_of, eq_chars, eq_str, split_char, split_chars, string_from, string_of, trim_char, trim_chars, views};

verus! {

/// Path parameters extracted by a match. As with a map, a later value for the
/// same name replaces an earlier one.
#[derive(Debug)]
pub struct RouteParams {
    entries: Vec<(String, String)>,
}

/// The map built by inserting the pairs of `s` in order.
pub open spec fn params_map(s: Seq<(String, String)>) -> Map<Seq<char>, Seq<char>>
    decreases s.len(),
{
    if s.len() == 0 {
        Map::empty()
    } else {
        params_map(s.drop_last()).insert(s.last().0@, s.last().1@)
    }
}

proof fn lemma_params_last(s: Seq<(String, String)>, k: Seq<char>, i: int)
    requires
        0 <= i < s.len(),
        s[i].0@ == k,
        forall|j: int| i < j < s.len() ==> s[j].0@ != k,
    ensures
        params_map(s).contains_key(k),
        params_map(s)[k] == s[i].1@,
    decreases s.len(),
{
    if i < s.len() - 1 {
        lemma_params_last(s.drop_last(), k, i);
    }
}

proof fn lemma_params_absent(s: Seq<(String, String)>, k: Seq<char>)
    requires
        forall|j: int| 0 <= j < s.len() ==> s[j].0@ != k,
    ensures
        !params_map(s).contains_key(k),
    decreases s.len(),
{
    if s.len() > 0 {
        lemma_params_absent(s.drop_last(), k);
    }
}

proof fn lemma_params_same(a: Seq<(String, String)>, b: Seq<(String, String)>)
    requires
        a.len() == b.len(),
        forall|j: int| 0 <= j < a.len() ==> (#[trigger] a[j]).0@ == b[j].0@ && a[j].1@ == b[j].1@,
    ensures
        params_map(a) == params_map(b),
    decreases a.len(),
{
    if a.len() > 0 {
        lemma_params_same(a.drop_last(), b.drop_last());
        assert(a.last() == a[a.len() - 1]);
    }
}

impl View for RouteParams {
    type V = Map<Seq<char>, Seq<char>>;

    closed spec fn view(&self) -> Map<Seq<char>, Seq<char>> {
        params_map(self.entries@)
    }
}

impl RouteParams {
    /// No parameters.
    pub fn new() -> (r: Self)
        ensures
            r@ == Map::<Seq<char>, Seq<char>>::empty(),
    {
        RouteParams { entries: Vec::new() }
    }

    /// Sets `name` to `value`.
    pub fn insert(&mut self, name: String, value: String)
        ensures
            final(self)@ == old(self)@.insert(name@, value@),
    {
        let ghost pre = self.entries@;
        self.entries.push((name, value));
        assert(self.entries@.drop_last() =~= pre);
    }

    /// The value of `name`, if it was extracted.
    pub fn get(&self, name: &str) -> (r: Option<&String>)
        ensures
            r is Some <==> self@.contains_key(name@),
            r matches Some(v) ==> v@ == self@[name@],
    {
        let mut j = self.entries.len();
        while j > 0
            invariant
                j <= self.entries@.len(),
                forall|i: int| j <= i < self.entries@.len() ==> self.entries@[i].0@ != name@,
            decreases j,
        {
            let k = &self.entries[j - 1].0;
            if str_equal(k.as_str(), name) {
                proof {
                    lemma_params_last(self.entries@, name@, j - 1);
                }
                return Some(&self.entries[j - 1].1);
            }
            j = j - 1;
        }
        proof {
            lemma_params_absent(self.entries@, name@);
        }
        None
    }

    /// The (name, value) pairs in the order they were set; setting them in
    /// that order gives these parameters again.
    pub fn to_pairs(&self) -> (r: Vec<(String, String)>)
        ensures
            params_map(r@) == self@,
    {
        let mut out: Vec<(String, String)> = Vec::new();
        let mut i: usize = 0;
        while i < self.entries.len()
            invariant
                i <= self.entries@.len(),
                out@.len() == i,
                forall|j: int| 0 <= j < i ==> (#[trigger] out@[j]).0@ == self.entries@[j].0@ && out@[j].1@ == self.entries@[j].1@,
            decreases self.entries.len() - i,
        {
            out.push((self.entries[i].0.clone(), self.entries[i].1.clone()));
            i = i + 1;
        }
        proof {
            lemma_params_same(out@, self.entries@);
        }
        out
    }

    /// Whether no parameter was extracted.
    pub fn is_empty(&self) -> (r: bool)
        ensures
            r == (self@ =~= Map::<Seq<char>, Seq<char>>::empty()),
    {
        proof {
            if self.entries@.len() > 0 {
                let s = self.entries@;
                assert(params_map(s).contains_key(s.last().0@));
            } else {
                assert(params_map(self.entries@) =~= Map::empty());
            }
        }
        self.entries.len() == 0
    }
}

/// The segments of a path: slashes trimmed from both ends, then split on `/`.
pub open spec fn path_segments(p: Seq<char>) -> Seq<Seq<char>> {
    split_char(trim_char(p, '/'), '/')
}

/// Matches pattern segments against request segments of the same number,
/// left to right: a `:name` segment binds `name` to the request segment, any
/// other segment must be equal to it.
pub open spec fn match_segments(pats: Seq<Seq<char>>, reqs: Seq<Seq<char>>) -> Option<Map<Seq<char>, Seq<char>>>
    decreases pats.len(),
{
    if pats.len() == 0 || reqs.len() == 0 {
        Some(Map::empty())
    } else {
        match match_segments(pats.drop_last(), reqs.drop_last()) {
            None => None,
            Some(m) => {
                let p = pats.last();
                if p.len() > 0 && p[0] == ':' {
                    Some(m.insert(p.drop_first(), reqs.last()))
                } else if p == reqs.last() {
                    Some(m)
                } else {
                    None
                }
            }
        }
    }
}

/// What `matches(pattern, request)` returns.
pub open spec fn spec_matches(pattern: Seq<char>, request: Seq<char>) -> Option<Map<Seq<char>, Seq<char>>> {
    let ps = path_segments(pattern);
    let rs = path_segments(request);
    if ps.len() != rs.len() {
        if pattern == seq!['/'] && request == seq!['/'] {
            Some(Map::empty())
        } else {
            None
        }
    } else {
        match_segments(ps, rs)
    }
}

proof fn lemma_match_none_extends(pats: Seq<Seq<char>>, reqs: Seq<Seq<char>>, j: int, k: int)
    requires
        pats.len() == reqs.len(),
        0 < j <= k <= pats.len(),
        match_segments(pats.subrange(0, j), reqs.subrange(0, j)) is None,
    ensures
        match_segments(pats.subrange(0, k), reqs.subrange(0, k)) is None,
    decreases k - j,
{
    if j < k {
        lemma_match_none_extends(pats, reqs, j, k - 1);
        assert(pats.subrange(0, k).drop_last() =~= pats.subrange(0, k - 1));
        assert(reqs.subrange(0, k).drop_last() =~= reqs.subrange(0, k - 1));
    }
}

/// The segments of a path as character vectors.
pub fn segments_of(p: &Vec<char>) -> (r: Vec<Vec<char>>)
    ensures
        views(r@) == path_segments(p@),
{
    let t = trim_chars(p, '/');
    split_chars(&t, '/')
}

/// Converts a route path to the router's route string. Both use the same
/// `:param` syntax, so the path is returned as it is.
pub fn route_to_axum_path(route_path: &str) -> (r: &str)
    ensures
        r@ == route_path@,
{
    route_path
}

/// Checks whether `request_path` matches `route_pattern` and returns the
/// extracted `:param` values on a match.
pub fn matches(route_pattern: &str, request_path: &str) -> (r: Option<RouteParams>)
    ensures
        r is Some <==> spec_matches(route_pattern@, request_path@) is Some,
        r matches Some(p) ==> spec_matches(route_pattern@, request_path@) == Some(p@),
{
    let pv = chars_of(route_pattern);
    let rv = chars_of(request_path);
    let ps = segments_of(&pv);
    let rs = segments_of(&rv);
    let ghost gps = views(ps@);
    let ghost grs = views(rs@);
    if ps.len() != rs.len() {
        if eq_str(&pv, "/") && eq_str(&rv, "/") {
            proof {
                reveal_strlit("/");
                assert(route_pattern@ =~= seq!['/']);
            }
            return Some(RouteParams::new());
        }
        proof {
            reveal_strlit("/");
            if route_pattern@ == seq!['/'] && request_path@ == seq!['/'] {
                assert(pv@ =~= "/"@);
                assert(rv@ =~= "/"@);
            }
        }
        return None;
    }
    let mut params = RouteParams::new();
    let mut i: usize = 0;
    assert(gps.subrange(0, 0) =~= Seq::<Seq<char>>::empty());
    while i < ps.len()
        invariant
            ps.len() == rs.len(),
            gps == views(ps@),
            grs == views(rs@),
            gps == path_segments(route_pattern@),
            grs == path_segments(request_path@),
            i <= ps.len(),
            match_segments(gps.subrange(0, i as int), grs.subrange(0, i as int)) == Some(params@),
        decreases ps.len() - i,
    {
        let ghost old_map = params@;
        assert(gps.subrange(0, i + 1).drop_last() =~= gps.subrange(0, i as int));
        assert(grs.subrange(0, i + 1).drop_last() =~= grs.subrange(0, i as int));
        assert(gps.subrange(0, i + 1).last() == gps[i as int]);
        assert(grs.subrange(0, i + 1).last() == grs[i as int]);
        let pat = &ps[i];
        let req = &rs[i];
        assert(gps[i as int] == pat@);
        assert(grs[i as int] == req@);
        if pat.len() > 0 && pat[0] == ':' {
            let name = string_of(pat, 1, pat.len());
            let value = string_from(req);
            assert(name@ =~= gps[i as int].drop_first());
            params.insert(name, value);
        } else if !eq_chars(pat, req) {
            proof {
                assert(match_segments(gps.subrange(0, i + 1), grs.subrange(0, i + 1)) is None);
                lemma_match_none_extends(gps, grs, i + 1, gps.len() as int);
                assert(gps.subrange(0, gps.len() as int) =~= gps);
                assert(grs.subrange(0, grs.len() as int) =~= grs);
            }
            return None;
        }
        i = i + 1;
    }
    assert(gps.subrange(0, gps.len() as int) =~= gps);
    assert(grs.subrange(0, grs.len() as int) =~= grs);
    Some(params)
}

proof fn lemma_segments_match_themselves(ps: Seq<Seq<char>>)
    ensures
        match_segments(ps, ps) is Some,
    decreases ps.len(),
{
    if ps.len() > 0 {
        lemma_segments_match_themselves(ps.drop_last());
    }
}

/// Every route pattern matches its own text: a request for `/users/:id`
/// taken literally is served by the route `/users/:id`.
pub proof fn lemma_route_matches_itself(pattern: Seq<char>)
    ensures
        spec_matches(pattern, pattern) is Some,
{
    lemma_segments_match_themselves(path_segments(pattern));
}

/// A pattern without `:param` segments matches exactly the requests with the
/// same segments, and extracts nothing.
pub proof fn lemma_literal_pattern(pattern: Seq<char>, request: Seq<char>)
    requires
        forall|i: int| 0 <= i < path_segments(pattern).len() ==> !(#[trigger] path_segments(pattern)[i].len() > 0 && path_segments(pattern)[i][0] == ':'),
        path_segments(pattern).len() == path_segments(request).len(),
    ensures
        spec_matches(pattern, request) is Some <==> path_segments(pattern) == path_segments(request),
        spec_matches(pattern, request) matches Some(m) ==> m == Map::<Seq<char>, Seq<char>>::empty(),
{
    lemma_literal_segments(path_segments(pattern), path_segments(request));
}

proof fn lemma_literal_segments(ps: Seq<Seq<char>>, rs: Seq<Seq<char>>)
    requires
        forall|i: int| 0 <= i < ps.len() ==> !(#[trigger] ps[i].len() > 0 && ps[i][0] == ':'),
        ps.len() == rs.len(),
    ensures
        match_segments(ps, rs) is Some <==> ps == rs,
        match_segments(ps, rs) matches Some(m) ==> m == Map::<Seq<char>, Seq<char>>::empty(),
    decreases ps.len(),
{
    if ps.len() > 0 {
        assert forall|i: int| 0 <= i < ps.drop_last().len() implies !(#[trigger] ps.drop_last()[i].len() > 0 && ps.drop_last()[i][0] == ':') by {
            assert(ps.drop_last()[i] == ps[i]);
        }
        lemma_literal_segments(ps.drop_last(), rs.drop_last());
        assert(!(ps[ps.len() - 1].len() > 0 && ps[ps.len() - 1][0] == ':'));
        if ps == rs {
            assert(ps.drop_last() == rs.drop_last());
        } else if ps.drop_last() == rs.drop_last() {
            if ps.last() == rs.last() {
                assert forall|i: int| 0 <= i < ps.len() implies ps[i] == rs[i] by {
                    if i < ps.len() - 1 {
                        assert(ps.drop_last()[i] == rs.drop_last()[i]);
                    }
                }
                assert(ps =~= rs);
            }
        }
    } else {
        assert(ps =~= rs);
    }
}

/// Whether a pattern segment is a `:name` parameter.
pub open spec fn is_param_segment(p: Seq<char>) -> bool {
    p.len() > 0 && p[0] == ':'
}

proof fn lemma_match_segments_bindings(ps: Seq<Seq<char>>, rs: Seq<Seq<char>>)
    requires
        ps.len() == rs.len(),
    ensures
        match_segments(ps, rs) is Some <==> forall|i: int| 0 <= i < ps.len() ==> is_param_segment(#[trigger] ps[i]) || ps[i] == rs[i],
        match_segments(ps, rs) matches Some(m) ==> forall|i: int| #![trigger ps[i]]
            0 <= i < ps.len() && is_param_segment(ps[i])
            && (forall|j: int| i < j < ps.len() ==> !(is_param_segment(#[trigger] ps[j]) && ps[j].drop_first() == ps[i].drop_first()))
            ==> m.contains_key(ps[i].drop_first()) && m[ps[i].drop_first()] == rs[i],
        match_segments(ps, rs) matches Some(m) ==> forall|k: Seq<char>| #[trigger] m.contains_key(k) ==> exists|i: int|
            0 <= i < ps.len() && is_param_segment(#[trigger] ps[i]) && ps[i].drop_first() == k,
    decreases ps.len(),
{
    if ps.len() > 0 {
        let pd = ps.drop_last();
        let rd = rs.drop_last();
        let n = ps.len() - 1;
        lemma_match_segments_bindings(pd, rd);
        assert forall|i: int| 0 <= i < n implies pd[i] == ps[i] && rd[i] == rs[i] by {}
        assert(ps.last() == ps[n] && rs.last() == rs[n]);
        if match_segments(ps, rs) is Some {
            assert forall|i: int| 0 <= i < ps.len() implies is_param_segment(#[trigger] ps[i]) || ps[i] == rs[i] by {
                if i < n {
                    assert(is_param_segment(pd[i]) || pd[i] == rd[i]);
                }
            }
        }
        if forall|i: int| 0 <= i < ps.len() ==> is_param_segment(#[trigger] ps[i]) || ps[i] == rs[i] {
            assert forall|i: int| 0 <= i < pd.len() implies is_param_segment(#[trigger] pd[i]) || pd[i] == rd[i] by {
                assert(is_param_segment(ps[i]) || ps[i] == rs[i]);
            }
            assert(is_param_segment(ps[n]) || ps[n] == rs[n]);
        }
        if match_segments(ps, rs) is Some {
            let m = match_segments(ps, rs)->Some_0;
            let md = match_segments(pd, rd)->Some_0;
            assert forall|i: int| #![trigger ps[i]]
                0 <= i < ps.len() && is_param_segment(ps[i])
                && (forall|j: int| i < j < ps.len() ==> !(is_param_segment(#[trigger] ps[j]) && ps[j].drop_first() == ps[i].drop_first()))
                implies m.contains_key(ps[i].drop_first()) && m[ps[i].drop_first()] == rs[i] by {
                if i < n {
                    assert(pd[i] == ps[i]);
                    assert forall|j: int| i < j < pd.len() implies !(is_param_segment(#[trigger] pd[j]) && pd[j].drop_first() == pd[i].drop_first()) by {
                        assert(pd[j] == ps[j]);
                    }
                    assert(!(is_param_segment(ps[n]) && ps[n].drop_first() == ps[i].drop_first()));
                }
            }
            assert forall|k: Seq<char>| #[trigger] m.contains_key(k) implies exists|i: int|
                0 <= i < ps.len() && is_param_segment(#[trigger] ps[i]) && ps[i].drop_first() == k by {
                if md.contains_key(k) {
                    let i = choose|i: int| 0 <= i < pd.len() && is_param_segment(#[trigger] pd[i]) && pd[i].drop_first() == k;
                    assert(ps[i] == pd[i]);
                } else {
                    assert(is_param_segment(ps[n]) && ps[n].drop_first() == k);
                }
            }
        }
    }
}

/// What a match extracts: a request matches a pattern with the same number
/// of segments exactly when every segment that is not a `:name` parameter
/// equals the request's segment at its place; on a match, each parameter
/// name is bound to the whole request segment at the place of its last
/// occurrence, and nothing else is bound.
pub proof fn lemma_match_binds_request_segments(pattern: Seq<char>, request: Seq<char>)
    requires
        path_segments(pattern).len() == path_segments(request).len(),
    ensures
        spec_matches(pattern, request) is Some <==> forall|i: int| 0 <= i < path_segments(pattern).len()
            ==> is_param_segment(#[trigger] path_segments(pattern)[i]) || path_segments(pattern)[i] == path_segments(request)[i],
        spec_matches(pattern, request) matches Some(m) ==> forall|i: int| #![trigger path_segments(pattern)[i]]
            0 <= i < path_segments(pattern).len() && is_param_segment(path_segments(pattern)[i])
            && (forall|j: int| i < j < path_segments(pattern).len() ==> !(is_param_segment(#[trigger] path_segments(pattern)[j])
                && path_segments(pattern)[j].drop_first() == path_segments(pattern)[i].drop_first()))
            ==> m.contains_key(path_segments(pattern)[i].drop_first())
                && m[path_segments(pattern)[i].drop_first()] == path_segments(request)[i],
        spec_matches(pattern, request) matches Some(m) ==> forall|k: Seq<char>| #[trigger] m.contains_key(k) ==> exists|i: int|
            0 <= i < path_segments(pattern).len() && is_param_segment(#[trigger] path_segments(pattern)[i])
            && path_segments(pattern)[i].drop_first() == k,
{
    lemma_match_segments_bindings(path_segments(pattern), path_segments(request));
}

} // verus!
