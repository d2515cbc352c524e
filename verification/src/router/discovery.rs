//! Mapping of route files to route paths, and discovery of the routes below a
//! routes directory.

use vstd::prelude::*;
use crate::error::RotivError;
use crate::paths::{
    components, copy_chars, drop_extension, extension, extension_of_path, path_components,
    strip_components, strip_prefix_components, without_extension,
};
use crate::sorting::{Keyed, key_pred, sort_by_key, sorted_by_key, with_key};
use crate::text::{
    chars_of, copy_str, eq_chars, join_chars, join_with, push_all, replace_char, seq_lt, starts_with,
    starts_with_chars, string_from, views,
};

verus! {

broadcast use vstd::seq_lib::group_seq_properties;

/// A discovered route: a file and the HTTP path it serves.
#[derive(Debug)]
pub struct RouteEntry {
    /// Path to the route file (`.tsx` or `.ts`), canonical where it could be resolved.
    pub file_path: String,
    /// HTTP path, e.g. `/`, `/about`, `/users/:id`.
    pub route_path: String,
    /// True if this is an API-only route (`.ts` extension or path starting with `/api/`).
    pub is_api_only: bool,
}

impl Clone for RouteEntry {
    fn clone(&self) -> (r: Self)
        ensures
            r == *self,
    {
        RouteEntry {
            file_path: self.file_path.clone(),
            route_path: self.route_path.clone(),
            is_api_only: self.is_api_only,
        }
    }
}

/// The plain contents of a route entry.
pub open spec fn entry_view(e: RouteEntry) -> (Seq<char>, Seq<char>, bool) {
    (e.file_path@, e.route_path@, e.is_api_only)
}

/// The plain contents of a sequence of route entries.
pub open spec fn entry_views(s: Seq<RouteEntry>) -> Seq<(Seq<char>, Seq<char>, bool)> {
    s.map_values(|e: RouteEntry| entry_view(e))
}

/// A file found below the routes directory.
#[derive(Debug)]
pub struct RouteFile {
    /// Its path relative to the routes directory.
    pub relative: String,
    /// The path to record in the entry (the canonical path of the file).
    pub file_path: String,
}

/// `[name]` becomes `:name`; any other segment stays as it is.
pub open spec fn bracket_param(s: Seq<char>) -> Seq<char> {
    if s.len() > 0 && s[0] == '[' && s[s.len() - 1] == ']' {
        seq![':'] + s.subrange(1, s.len() - 1)
    } else {
        s
    }
}

pub open spec fn index_name() -> Seq<char> {
    seq!['i', 'n', 'd', 'e', 'x']
}

/// The route segments of a relative file path: its components with the
/// extension dropped and a final `index` removed.
pub open spec fn route_segments(c: Seq<Seq<char>>) -> Seq<Seq<char>> {
    let w = without_extension(c);
    if w.len() > 0 && w.last() == index_name() {
        w.drop_last()
    } else {
        w
    }
}

/// `/` followed by the segments, `[name]` written `:name`, joined with `/`.
pub open spec fn route_text(segs: Seq<Seq<char>>) -> Seq<char> {
    if segs.len() == 0 {
        seq!['/']
    } else {
        seq!['/'] + join_with(segs.map_values(|s: Seq<char>| bracket_param(s)), seq!['/'])
    }
}

/// The components of `file` below `base`, or all of them when `file` is not below `base`.
pub open spec fn relative_components(base: Seq<char>, file: Seq<char>) -> Seq<Seq<char>> {
    match strip_components(components(base), components(file)) {
        Some(r) => r,
        None => components(file),
    }
}

/// The route path that `file_to_route_path(base, file)` gives.
pub open spec fn spec_file_to_route_path(base: Seq<char>, file: Seq<char>) -> Seq<char> {
    route_text(route_segments(relative_components(base, file)))
}

/// `route_path.replace(':', '~')`.
pub open spec fn spec_sort_key(route_path: Seq<char>) -> Seq<char> {
    replace_char(route_path, ':', '~')
}

impl Keyed for RouteEntry {
    open spec fn spec_key(&self) -> Seq<char> {
        spec_sort_key(self.route_path@)
    }

    fn key(&self) -> (r: String) {
        sort_key(self.route_path.as_str())
    }
}

/// Whether some component starts with `.` or `_` (hidden or private files and directories).
pub open spec fn is_hidden(c: Seq<Seq<char>>) -> bool {
    exists|i: int| 0 <= i < c.len() && c[i].len() > 0 && (c[i][0] == '.' || c[i][0] == '_')
}

pub open spec fn tsx() -> Seq<char> {
    seq!['t', 's', 'x']
}

pub open spec fn ts() -> Seq<char> {
    seq!['t', 's']
}

pub open spec fn api_prefix() -> Seq<char> {
    seq!['/', 'a', 'p', 'i', '/']
}

/// The entry a file below the routes directory gives, if it is a route file.
pub open spec fn route_candidate(f: RouteFile) -> Option<(Seq<char>, Seq<char>, bool)> {
    let c = components(f.relative@);
    let ext = extension(f.relative@);
    if is_hidden(c) || !(ext == Some(tsx()) || ext == Some(ts())) {
        None
    } else {
        let route = route_text(route_segments(c));
        Some((f.file_path@, route, ext == Some(ts()) || starts_with(route, api_prefix())))
    }
}

/// The entries of the route files among `files`, in the order given.
pub open spec fn route_candidates(files: Seq<RouteFile>) -> Seq<(Seq<char>, Seq<char>, bool)> {
    files.filter_map(|f: RouteFile| route_candidate(f))
}

/// The entries among `s` whose sort key is `k`.
pub open spec fn with_sort_key(s: Seq<(Seq<char>, Seq<char>, bool)>, k: Seq<char>) -> Seq<(Seq<char>, Seq<char>, bool)> {
    s.filter(|v: (Seq<char>, Seq<char>, bool)| spec_sort_key(v.1) == k)
}

/// `v` lists the route files among `files`: sorted by sort key, and for each
/// key the entries with that key are those of the files, in the order given.
pub open spec fn is_route_listing(v: Seq<RouteEntry>, files: Seq<RouteFile>) -> bool {
    &&& sorted_by_key(v)
    &&& forall|k: Seq<char>| entry_views(#[trigger] with_key(v, k)) == with_sort_key(route_candidates(files), k)
}

/// The error for a missing routes directory.
pub open spec fn routes_dir_missing_message(dir: Seq<char>) -> Seq<char> {
    "routes directory not found: "@ + dir
}

/// Exact segments sort before parameterized ones: of two route paths that
/// agree up to a point where one has a literal character below `~` and the
/// other a `:`, the literal one has the smaller sort key.
pub proof fn lemma_exact_sorts_before_param(prefix: Seq<char>, c: char, rest_exact: Seq<char>, rest_param: Seq<char>)
    requires
        c != ':',
        (c as int) < ('~' as int),
    ensures
        seq_lt(
            spec_sort_key(prefix + seq![c] + rest_exact),
            spec_sort_key(prefix + seq![':'] + rest_param),
        ),
    decreases prefix.len(),
{
    let a = spec_sort_key(prefix + seq![c] + rest_exact);
    let b = spec_sort_key(prefix + seq![':'] + rest_param);
    if prefix.len() == 0 {
        assert(a[0] == c);
        assert(b[0] == '~');
    } else {
        lemma_exact_sorts_before_param(prefix.drop_first(), c, rest_exact, rest_param);
        assert((prefix + seq![c] + rest_exact).drop_first() =~= prefix.drop_first() + seq![c] + rest_exact);
        assert((prefix + seq![':'] + rest_param).drop_first() =~= prefix.drop_first() + seq![':'] + rest_param);
        assert(a.drop_first() =~= spec_sort_key(prefix.drop_first() + seq![c] + rest_exact));
        assert(b.drop_first() =~= spec_sort_key(prefix.drop_first() + seq![':'] + rest_param));
        assert(a[0] == b[0]);
    }
}

/// Every route path starts with `/`.
pub proof fn lemma_route_path_rooted(base: Seq<char>, file: Seq<char>)
    ensures
        spec_file_to_route_path(base, file).len() > 0,
        spec_file_to_route_path(base, file)[0] == '/',
{
}

proof fn lemma_filter_map_commute<A, B>(s: Seq<A>, f: spec_fn(A) -> B, p: spec_fn(B) -> bool)
    ensures
        s.filter(|a: A| p(f(a))).map_values(f) == s.map_values(f).filter(p),
    decreases s.len(),
{
    reveal(Seq::filter);
    if s.len() > 0 {
        lemma_filter_map_commute(s.drop_last(), f, p);
        assert(s.map_values(f).drop_last() =~= s.drop_last().map_values(f));
    }
    assert(s.filter(|a: A| p(f(a))).map_values(f) =~= s.map_values(f).filter(p));
}

/// `[name]` becomes `:name`.
fn bracket_param_chars(s: &Vec<char>) -> (r: Vec<char>)
    ensures
        r@ == bracket_param(s@),
{
    let n = s.len();
    if n > 0 && s[0] == '[' && s[n - 1] == ']' {
        let mut r: Vec<char> = vec![':'];
        let mut i: usize = 1;
        while i < n - 1
            invariant
                n == s.len(),
                n >= 2,
                1 <= i <= n - 1,
                r@ == seq![':'] + s@.subrange(1, i as int),
            decreases n - 1 - i,
        {
            r.push(s[i]);
            assert(s@.subrange(1, i + 1) =~= s@.subrange(1, i as int).push(s@[i as int]));
            assert(r@ =~= seq![':'] + s@.subrange(1, i + 1));
            i = i + 1;
        }
        r
    } else {
        copy_chars(s)
    }
}

/// Drops a final `index` segment from the extension-less components.
fn route_segments_of(comps: Vec<Vec<char>>) -> (r: Vec<Vec<char>>)
    ensures
        views(r@) == route_segments(views(comps@)),
{
    let mut w = drop_extension(comps);
    let n = w.len();
    let index = vec!['i', 'n', 'd', 'e', 'x'];
    assert(index@ =~= index_name());
    if n > 0 && eq_chars(&w[n - 1], &index) {
        let ghost pre = views(w@);
        assert(pre.last() == w@[n - 1]@);
        w.pop();
        assert(views(w@) =~= pre.drop_last());
        w
    } else {
        proof {
            if n > 0 {
                assert(views(w@).last() == w@[n - 1]@);
            }
        }
        w
    }
}

/// The route path text of route segments.
pub fn route_text_of(segs: &Vec<Vec<char>>) -> (r: String)
    ensures
        r@ == route_text(views(segs@)),
{
    let mut out: Vec<char> = vec!['/'];
    if segs.len() == 0 {
        assert(out@ =~= seq!['/']);
        return string_from(&out);
    }
    let mut mapped: Vec<Vec<char>> = Vec::new();
    let mut i: usize = 0;
    while i < segs.len()
        invariant
            i <= segs.len(),
            views(mapped@) == views(segs@).subrange(0, i as int).map_values(|s: Seq<char>| bracket_param(s)),
        decreases segs.len() - i,
    {
        let b = bracket_param_chars(&segs[i]);
        let ghost pre = views(mapped@);
        mapped.push(b);
        assert(views(mapped@) =~= pre.push(bracket_param(segs@[i as int]@)));
        assert(views(segs@).subrange(0, i + 1) =~= views(segs@).subrange(0, i as int).push(segs@[i as int]@));
        assert(views(mapped@) =~= views(segs@).subrange(0, i + 1).map_values(|s: Seq<char>| bracket_param(s)));
        i = i + 1;
    }
    assert(views(segs@).subrange(0, segs@.len() as int) =~= views(segs@));
    let slash = vec!['/'];
    let joined = join_chars(&mapped, &slash);
    assert(slash@ =~= seq!['/']);
    push_all(&mut out, &joined);
    assert(out@ =~= seq!['/'] + joined@);
    string_from(&out)
}

/// Converts the path of a route file to its HTTP route path:
/// `index.tsx` → `/`, `about.tsx` → `/about`, `users/index.tsx` → `/users`,
/// `users/[id].tsx` → `/users/:id`. `file` is taken relative to `base` when
/// it lies below it.
pub fn file_to_route_path(base: &str, file: &str) -> (r: String)
    ensures
        r@ == spec_file_to_route_path(base@, file@),
{
    let b = path_components(base);
    let f = path_components(file);
    let rel = match strip_prefix_components(&b, f) {
        Ok(rest) => rest,
        Err(all) => all,
    };
    let segs = route_segments_of(rel);
    route_text_of(&segs)
}

/// Sort key that places exact segments before parameterized ones:
/// `:` becomes `~`, which sorts after letters, digits and the other ASCII
/// punctuation used in paths.
pub fn sort_key(route_path: &str) -> (r: String)
    ensures
        r@ == spec_sort_key(route_path@),
{
    let v = chars_of(route_path);
    let out = crate::text::replace_char_chars(&v, ':', '~');
    string_from(&out)
}

/// Whether some component starts with `.` or `_`.
fn hidden_components(c: &Vec<Vec<char>>) -> (r: bool)
    ensures
        r == is_hidden(views(c@)),
{
    let mut i: usize = 0;
    while i < c.len()
        invariant
            i <= c.len(),
            forall|j: int| 0 <= j < i ==> !(c@[j]@.len() > 0 && (c@[j]@[0] == '.' || c@[j]@[0] == '_')),
        decreases c.len() - i,
    {
        if c[i].len() > 0 && (c[i][0] == '.' || c[i][0] == '_') {
            assert(views(c@)[i as int] == c@[i as int]@);
            return true;
        }
        i = i + 1;
    }
    assert forall|j: int| 0 <= j < views(c@).len() implies !(views(c@)[j].len() > 0 && (views(c@)[j][0] == '.' || views(c@)[j][0] == '_')) by {
        assert(views(c@)[j] == c@[j]@);
    }
    false
}

/// The entry for a file below the routes directory, if it is a route file.
fn route_entry_for(f: &RouteFile) -> (r: Option<RouteEntry>)
    ensures
        r matches Some(e) ==> route_candidate(*f) == Some(entry_view(e)),
        r is None ==> route_candidate(*f) is None,
{
    let rel = chars_of(f.relative.as_str());
    let comps = components_of_chars(&rel);
    if hidden_components(&comps) {
        return None;
    }
    let ext = extension_of_path(&rel);
    let tsx_v = vec!['t', 's', 'x'];
    let ts_v = vec!['t', 's'];
    assert(tsx_v@ =~= tsx());
    assert(ts_v@ =~= ts());
    let (is_tsx, is_ts) = match &ext {
        Some(e) => (eq_chars(e, &tsx_v), eq_chars(e, &ts_v)),
        None => (false, false),
    };
    if !is_tsx && !is_ts {
        return None;
    }
    let segs = route_segments_of(comps);
    let route = route_text_of(&segs);
    let route_v = chars_of(route.as_str());
    let api = vec!['/', 'a', 'p', 'i', '/'];
    assert(api@ =~= api_prefix());
    let is_api_only = is_ts || starts_with_chars(&route_v, &api);
    Some(RouteEntry { file_path: f.file_path.clone(), route_path: route, is_api_only })
}

/// The components of a path given as characters.
fn components_of_chars(p: &Vec<char>) -> (r: Vec<Vec<char>>)
    ensures
        views(r@) == components(p@),
{
    crate::paths::components_of(p)
}

/// The error for a missing routes directory `routes_dir`.
pub open spec fn is_routes_dir_missing_error(e: RotivError, routes_dir: Seq<char>) -> bool {
    &&& e.code@ == "E_ROUTES_DIR_NOT_FOUND"@
    &&& e.message@ == routes_dir_missing_message(routes_dir)
    &&& e.suggestion matches Some(s) && s@ == "Make sure you are inside a Rotiv project with an app/routes/ directory"@
    &&& e.file is None && e.line is None && e.expected is None && e.got is None && e.corrected_code is None
}

/// Lists the routes among the files found below `routes_dir`, sorted so that
/// exact segments come before parameterized ones (by `sort_key`, keeping the
/// given order among equal keys). Files whose path has a component starting
/// with `.` or `_`, and files that are not `.tsx` or `.ts`, are skipped.
/// A missing routes directory is an error.
pub fn discover_routes(routes_dir: &str, dir_exists: bool, files: &Vec<RouteFile>) -> (r: Result<Vec<RouteEntry>, RotivError>)
    ensures
        r is Err <==> !dir_exists,
        r matches Err(e) ==> is_routes_dir_missing_error(e, routes_dir@),
        r matches Ok(v) ==> is_route_listing(v@, files@),
{
    if !dir_exists {
        let mut msg = copy_str("routes directory not found: ");
        msg.append(routes_dir);
        let e = RotivError::new("E_ROUTES_DIR_NOT_FOUND", msg.as_str())
            .with_suggestion("Make sure you are inside a Rotiv project with an app/routes/ directory");
        return Err(e);
    }
    let mut found: Vec<RouteEntry> = Vec::new();
    let mut i: usize = 0;
    let ghost cand = |f: RouteFile| route_candidate(f);
    while i < files.len()
        invariant
            i <= files.len(),
            entry_views(found@) == files@.subrange(0, i as int).filter_map(cand),
            cand == (|f: RouteFile| route_candidate(f)),
        decreases files.len() - i,
    {
        let ghost pre = found@;
        proof {
            files@.lemma_filter_map_take_succ(cand, i as int);
            assert(files@.take(i as int) =~= files@.subrange(0, i as int));
            assert(files@.take(i + 1) =~= files@.subrange(0, i + 1));
        }
        match route_entry_for(&files[i]) {
            Some(e) => {
                found.push(e);
                assert(entry_views(found@) =~= entry_views(pre).push(entry_view(e)));
            },
            None => {},
        }
        i = i + 1;
    }
    assert(files@.subrange(0, files@.len() as int) =~= files@);
    let sorted = sort_by_key(found);
    proof {
        assert forall|k: Seq<char>| entry_views(#[trigger] with_key(sorted@, k))
            == with_sort_key(route_candidates(files@), k) by {
            let p = |v: (Seq<char>, Seq<char>, bool)| spec_sort_key(v.1) == k;
            let f = |e: RouteEntry| entry_view(e);
            lemma_filter_map_commute(found@, f, p);
            assert(crate::sorting::key_pred::<RouteEntry>(k) =~= (|a: RouteEntry| p(f(a))));
        }
    }
    Ok(sorted)
}

/// The segments without those equal to one of `names`.
pub open spec fn without_names(ws: Seq<Seq<char>>, names: Seq<Seq<char>>) -> Seq<Seq<char>>
    decreases ws.len(),
{
    if ws.len() == 0 {
        Seq::empty()
    } else {
        without_names(ws.drop_last(), names) + if names.contains(ws.last()) {
            Seq::empty()
        } else {
            seq![ws.last()]
        }
    }
}

/// Keeps the segments not in `names`.
pub fn drop_names(ws: Vec<Vec<char>>, names: &Vec<Vec<char>>) -> (r: Vec<Vec<char>>)
    ensures
        views(r@) == without_names(views(ws@), views(names@)),
{
    let ghost w = views(ws@);
    let mut out: Vec<Vec<char>> = Vec::new();
    let mut i: usize = 0;
    let mut ws = ws;
    while i < ws.len()
        invariant
            w == views(ws@),
            i <= ws.len(),
            views(out@) == without_names(w.subrange(0, i as int), views(names@)),
        decreases ws.len() - i,
    {
        assert(w.subrange(0, i + 1).drop_last() =~= w.subrange(0, i as int));
        assert(w[i as int] == ws@[i as int]@);
        let mut found = false;
        let mut j: usize = 0;
        while j < names.len()
            invariant
                i < ws.len(),
                j <= names.len(),
                found == exists|k: int| 0 <= k < j && names@[k]@ == ws@[i as int]@,
            decreases names.len() - j,
        {
            if eq_chars(&names[j], &ws[i]) {
                found = true;
            }
            j = j + 1;
        }
        proof {
            if found {
                let k = choose|k: int| 0 <= k < j && names@[k]@ == ws@[i as int]@;
                assert(views(names@)[k] == names@[k]@);
            } else {
                assert forall|k: int| 0 <= k < views(names@).len() implies views(names@)[k] != w[i as int] by {
                    assert(views(names@)[k] == names@[k]@);
                }
            }
        }
        if !found {
            let c = crate::paths::copy_chars(&ws[i]);
            let ghost pre = views(out@);
            out.push(c);
            assert(views(out@) =~= pre.push(w[i as int]));
        }
        i = i + 1;
    }
    assert(w.subrange(0, w.len() as int) =~= w);
    out
}


/// Discovery is determined by the files found: two route listings of the same
/// files hold the same entries in the same order, so reloading an unchanged
/// routes directory reproduces the registry.
pub proof fn lemma_route_listing_unique(a: Seq<RouteEntry>, b: Seq<RouteEntry>, files: Seq<RouteFile>)
    requires
        is_route_listing(a, files),
        is_route_listing(b, files),
    ensures
        entry_views(a) == entry_views(b),
{
    let f = |e: RouteEntry| entry_view(e);
    assert forall|k: Seq<char>| #[trigger] with_key(a, k).map_values(f) == with_key(b, k).map_values(f) by {
        assert(entry_views(with_key(a, k)) =~= with_key(a, k).map_values(f));
        assert(entry_views(with_key(b, k)) =~= with_key(b, k).map_values(f));
    }
    crate::sorting::lemma_sorted_groups_determine(a, b, f);
    assert(entry_views(a) =~= a.map_values(f));
    assert(entry_views(b) =~= b.map_values(f));
}

/// Every `[name]` segment of a route file's path, wherever it stands, is
/// written `:name` in its route path, and every other segment as it is: the
/// route path of `file` below `base` is `/` followed by the written segments
/// joined by `/`, one for each route segment of the file (its path's
/// components with the extension and a final `index` dropped), so none of
/// them keeps the form `[...]`.
pub proof fn lemma_route_path_converts_every_param(base: Seq<char>, file: Seq<char>)
    ensures
        ({
            let segs = route_segments(relative_components(base, file));
            let written = Seq::new(segs.len(), |i: int|
                if segs[i].len() > 0 && segs[i][0] == '[' && segs[i][segs[i].len() - 1] == ']' {
                    seq![':'] + segs[i].subrange(1, segs[i].len() - 1)
                } else {
                    segs[i]
                });
            &&& segs.len() > 0 ==> spec_file_to_route_path(base, file) == seq!['/'] + join_with(written, seq!['/'])
            &&& segs.len() == 0 ==> spec_file_to_route_path(base, file) == seq!['/']
            &&& forall|i: int| 0 <= i < written.len() ==> !((#[trigger] written[i]).len() > 0 && written[i][0] == '['
                && written[i][written[i].len() - 1] == ']')
        }),
{
    let segs = route_segments(relative_components(base, file));
    let written = Seq::new(segs.len(), |i: int|
        if segs[i].len() > 0 && segs[i][0] == '[' && segs[i][segs[i].len() - 1] == ']' {
            seq![':'] + segs[i].subrange(1, segs[i].len() - 1)
        } else {
            segs[i]
        });
    assert(segs.map_values(|s: Seq<char>| bracket_param(s)) =~= written);
}

proof fn lemma_filter_map_has<A, B>(s: Seq<A>, f: spec_fn(A) -> Option<B>, i: int)
    requires
        0 <= i < s.len(),
        f(s[i]) is Some,
    ensures
        s.filter_map(f).contains(f(s[i])->Some_0),
    decreases s.len(),
{
    let b = f(s[i])->Some_0;
    if i == s.len() - 1 {
        assert(s.last() == s[i]);
        let r = s.drop_last().filter_map(f);
        assert((r + seq![b])[r.len() as int] == b);
    } else {
        let d = s.drop_last();
        assert(d[i] == s[i]);
        lemma_filter_map_has(d, f, i);
        let j = choose|j: int| 0 <= j < d.filter_map(f).len() && d.filter_map(f)[j] == b;
        match f(s.last()) {
            Some(x) => {
                assert((d.filter_map(f) + seq![x])[j] == b);
            },
            None => {},
        }
    }
}

/// Whether a file's path below the routes directory names a route file:
/// none of its components starts with `.` or `_`, and its extension is `tsx`
/// or `ts`.
pub open spec fn names_route_file(rel: Seq<char>) -> bool {
    &&& forall|j: int| 0 <= j < components(rel).len() ==> !(components(rel)[j].len() > 0
        && (components(rel)[j][0] == '.' || components(rel)[j][0] == '_'))
    &&& (extension(rel) == Some(seq!['t', 's', 'x']) || extension(rel) == Some(seq!['t', 's']))
}

/// Each entry of a route listing is the entry of one of the files, whose
/// path names a route file (no component starting with `.` or `_`,
/// extension `tsx` or `ts`): it has that file's path and the route path of
/// the file's route segments.
pub proof fn lemma_listed_entry_from_file(v: Seq<RouteEntry>, files: Seq<RouteFile>, t: int)
    requires
        is_route_listing(v, files),
        0 <= t < v.len(),
    ensures
        exists|i: int| #![trigger files[i]] 0 <= i < files.len()
            && names_route_file(files[i].relative@)
            && v[t].file_path@ == files[i].file_path@
            && v[t].route_path@ == route_text(route_segments(components(files[i].relative@))),
{
    let cand = |f: RouteFile| route_candidate(f);
    let cands = route_candidates(files);
    assert(cands == files.filter_map(cand));
    let k = v[t].spec_key();
    let wk = with_key(v, k);
    v.lemma_filter_contains(key_pred::<RouteEntry>(k), t);
    let q = choose|q: int| 0 <= q < wk.len() && wk[q] == v[t];
    let ev = entry_view(v[t]);
    assert(entry_views(wk)[q] == ev);
    assert(entry_views(wk).contains(ev));
    assert(entry_views(with_key(v, k)) == with_sort_key(cands, k));
    cands.lemma_filter_contains_rev(|x: (Seq<char>, Seq<char>, bool)| spec_sort_key(x.1) == k, ev);
    files.lemma_filter_map_contains(cand, ev);
    let f = choose|f: RouteFile| #[trigger] files.contains(f) && cand(f) == Some(ev);
    let i = choose|i: int| 0 <= i < files.len() && files[i] == f;
    assert(route_candidate(files[i]) == Some(ev));
    let c = components(files[i].relative@);
    assert(!is_hidden(c));
    assert forall|j: int| 0 <= j < c.len() implies !(c[j].len() > 0 && (c[j][0] == '.' || c[j][0] == '_')) by {
        if c[j].len() > 0 && (c[j][0] == '.' || c[j][0] == '_') {
            assert(is_hidden(c));
        }
    }
    assert(names_route_file(files[i].relative@));
}

/// Every file whose path names a route file has an entry in a route
/// listing, with its path and the route path of its route segments.
pub proof fn lemma_route_file_listed(v: Seq<RouteEntry>, files: Seq<RouteFile>, i: int)
    requires
        is_route_listing(v, files),
        0 <= i < files.len(),
        names_route_file(files[i].relative@),
    ensures
        exists|t: int| #![trigger v[t]] 0 <= t < v.len() && v[t].file_path@ == files[i].file_path@
            && v[t].route_path@ == route_text(route_segments(components(files[i].relative@))),
{
    let cand = |f: RouteFile| route_candidate(f);
    let cands = route_candidates(files);
    assert(cands == files.filter_map(cand));
    assert(!is_hidden(components(files[i].relative@)));
    assert(cand(files[i]) is Some);
    lemma_filter_map_has(files, cand, i);
    let ev = cand(files[i])->Some_0;
    let k = spec_sort_key(ev.1);
    let pk = |x: (Seq<char>, Seq<char>, bool)| spec_sort_key(x.1) == k;
    let c = choose|c: int| 0 <= c < cands.len() && cands[c] == ev;
    cands.lemma_filter_contains(pk, c);
    assert(with_sort_key(cands, k) == cands.filter(pk));
    let wk = with_key(v, k);
    assert(entry_views(wk).contains(ev));
    let q = choose|q: int| 0 <= q < entry_views(wk).len() && entry_views(wk)[q] == ev;
    assert(entry_view(wk[q]) == ev);
    v.lemma_filter_contains_rev(key_pred::<RouteEntry>(k), wk[q]);
    let t = choose|t: int| 0 <= t < v.len() && v[t] == wk[q];
    assert(v[t].file_path@ == files[i].file_path@);
}

/// Dropping named segments keeps exactly the segments that are not among
/// `names`, in their order, wherever the named ones stand.
pub proof fn lemma_without_names_keeps_others(ws: Seq<Seq<char>>, names: Seq<Seq<char>>)
    ensures
        without_names(ws, names) == ws.filter(|w: Seq<char>| !names.contains(w)),
    decreases ws.len(),
{
    reveal(Seq::filter);
    if ws.len() > 0 {
        lemma_without_names_keeps_others(ws.drop_last(), names);
    }
    assert(without_names(ws, names) =~= ws.filter(|w: Seq<char>| !names.contains(w)));
}

} // verus!
