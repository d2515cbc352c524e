//! `rotiv diff-impact`: the routes whose imports mention a changed file.

use vstd::prelude::*;
use crate::cli::commands::spec_sync::{RouteSource, file_to_route_path, is_tsx_file, spec_sync_route_path};
use crate::paths::{file_name, stem_of};
use crate::sorting::{Keyed, sort_by_key, sorted_by_key, with_key, key_pred};
use crate::text::{
    chars_of, contains_chars, contains_seq, lines, lines_of, replace_char, replace_char_chars,
    starts_with, starts_with_chars, string_from, trim_ws, trim_ws_chars, views,
};

verus! {

broadcast use vstd::seq_lib::group_seq_properties;

/// A route whose file imports the changed file.
#[derive(Debug)]
pub struct AffectedRoute {
    pub path: String,
    pub file: String,
    pub import_line: String,
}

impl Keyed for AffectedRoute {
    open spec fn spec_key(&self) -> Seq<char> {
        self.path@
    }

    fn key(&self) -> (r: String) {
        self.path.clone()
    }
}

/// The stem searched for: the file stem of the target path, or the whole
/// target when it has no file name (`app/models/user.ts` → `user`).
pub open spec fn spec_target_stem(target: Seq<char>) -> Seq<char> {
    match file_name(target) {
        Some(n) => stem_of(n),
        None => target,
    }
}

/// The stem searched for in import lines.
pub fn target_stem(target: &str) -> (r: String)
    ensures
        r@ == spec_target_stem(target@),
{
    let v = chars_of(target);
    match crate::paths::file_name_chars(&v) {
        Some(n) => string_from(&crate::paths::stem_chars(&n)),
        None => string_from(&v),
    }
}

/// The target path with `/` separators.
pub fn normalize_target(target: &str) -> (r: String)
    ensures
        r@ == replace_char(target@, '\\', '/'),
{
    let v = chars_of(target);
    string_from(&replace_char_chars(&v, '\\', '/'))
}

/// The first of the trimmed lines `ls[i..]` that is an import mentioning `stem`.
pub open spec fn import_from(ls: Seq<Seq<char>>, stem: Seq<char>, i: int) -> Option<Seq<char>>
    decreases ls.len() - i,
{
    if i < 0 || i >= ls.len() {
        None
    } else if starts_with(trim_ws(ls[i]), "import"@) && contains_seq(trim_ws(ls[i]), stem) {
        Some(trim_ws(ls[i]))
    } else {
        import_from(ls, stem, i + 1)
    }
}

/// The first import line (trimmed) of `content` that mentions `stem`.
pub fn find_import_line(content: &str, stem: &str) -> (r: Option<String>)
    ensures
        match r {
            Some(s) => Some(s@),
            None => None,
        } == import_from(lines(content@), stem@, 0),
{
    let c = chars_of(content);
    let ls = lines_of(&c);
    let ghost lv = views(ls@);
    let kw = chars_of("import");
    let st = chars_of(stem);
    let mut i: usize = 0;
    while i < ls.len()
        invariant
            lv == views(ls@),
            lv == lines(content@),
            kw@ == "import"@,
            st@ == stem@,
            i <= ls.len(),
            import_from(lv, stem@, 0) == import_from(lv, stem@, i as int),
        decreases ls.len() - i,
    {
        assert(lv[i as int] == ls@[i as int]@);
        let t = trim_ws_chars(&ls[i]);
        if starts_with_chars(&t, &kw) && contains_chars(&t, &st) {
            let r = string_from(&t);
            assert(import_from(lv, stem@, i as int) == Some(trim_ws(lv[i as int])));
            return Some(r);
        }
        i = i + 1;
    }
    None
}

/// The affected route for a route file, if one of its import lines mentions `stem`.
pub open spec fn affected_record(src: RouteSource, stem: Seq<char>) -> Option<(Seq<char>, Seq<char>, Seq<char>)> {
    match import_from(lines(src.content@), stem, 0) {
        Some(l) => Some((spec_sync_route_path(src.rel_to_routes@), replace_char(src.rel_to_project@, '\\', '/'), l)),
        None => None,
    }
}

pub open spec fn affected_view(a: AffectedRoute) -> (Seq<char>, Seq<char>, Seq<char>) {
    (a.path@, a.file@, a.import_line@)
}

pub open spec fn affected_views(s: Seq<AffectedRoute>) -> Seq<(Seq<char>, Seq<char>, Seq<char>)> {
    s.map_values(|a: AffectedRoute| affected_view(a))
}

/// Checks one route file for an import of `stem`.
pub fn check_file_for_import(src: &RouteSource, stem: &str) -> (r: Option<AffectedRoute>)
    ensures
        match r {
            Some(a) => Some(affected_view(a)),
            None => None,
        } == affected_record(*src, stem@),
{
    match find_import_line(src.content.as_str(), stem) {
        Some(line) => {
            let rel = chars_of(src.rel_to_project.as_str());
            Some(AffectedRoute {
                path: file_to_route_path(src.rel_to_routes.as_str()),
                file: string_from(&replace_char_chars(&rel, '\\', '/')),
                import_line: line,
            })
        },
        None => None,
    }
}

/// The affected routes among the `.tsx` files `fs`, in order.
pub open spec fn affected_records(fs: Seq<RouteSource>, stem: Seq<char>) -> Seq<(Seq<char>, Seq<char>, Seq<char>)>
    decreases fs.len(),
{
    if fs.len() == 0 {
        Seq::empty()
    } else {
        affected_records(fs.drop_last(), stem) + if is_tsx_file(fs.last().rel_to_routes@) {
            match affected_record(fs.last(), stem) {
                Some(a) => seq![a],
                None => Seq::empty(),
            }
        } else {
            Seq::empty()
        }
    }
}

/// Whether a record's route path is `k`.
pub open spec fn affected_path_is(k: Seq<char>) -> spec_fn((Seq<char>, Seq<char>, Seq<char>)) -> bool {
    |e: (Seq<char>, Seq<char>, Seq<char>)| e.0 == k
}

proof fn lemma_affected_filter(s: Seq<AffectedRoute>, k: Seq<char>)
    ensures
        affected_views(with_key(s, k)) == affected_views(s).filter(affected_path_is(k)),
    decreases s.len(),
{
    let f = affected_path_is(k);
    reveal(Seq::filter);
    if s.len() > 0 {
        lemma_affected_filter(s.drop_last(), k);
        assert(affected_views(s.drop_last()) =~= affected_views(s).drop_last());
        assert(with_key(s, k) == with_key(s.drop_last(), k) + if s.last().spec_key() == k {
            seq![s.last()]
        } else {
            Seq::empty()
        }) by {
            assert(s =~= s.drop_last().push(s.last()));
            s.drop_last().lemma_filter_push(s.last(), key_pred(k));
        }
        if s.last().spec_key() == k {
            assert(affected_views(with_key(s, k)) =~= affected_views(with_key(s.drop_last(), k)).push(affected_view(s.last())));
        } else {
            assert(affected_views(with_key(s, k)) =~= affected_views(with_key(s.drop_last(), k)));
        }
    } else {
        assert(with_key(s, k) =~= Seq::<AffectedRoute>::empty());
        assert(affected_views(s).filter(f) =~= Seq::<(Seq<char>, Seq<char>, Seq<char>)>::empty());
    }
}

/// The routes affected by a change to the file whose stem is `stem`: the
/// `.tsx` route files with an import line mentioning it, sorted by route path
/// (routes with equal paths keep the order in which their files were found).
pub fn find_affected_routes(files: &Vec<RouteSource>, stem: &str) -> (r: Vec<AffectedRoute>)
    ensures
        sorted_by_key(r@),
        forall|k: Seq<char>| #[trigger] affected_views(with_key(r@, k))
            == affected_records(files@, stem@).filter(affected_path_is(k)),
{
    let tsx = vec!['t', 's', 'x'];
    let mut out: Vec<AffectedRoute> = Vec::new();
    let mut i: usize = 0;
    while i < files.len()
        invariant
            i <= files.len(),
            tsx@ == seq!['t', 's', 'x'],
            affected_views(out@) == affected_records(files@.subrange(0, i as int), stem@),
        decreases files.len() - i,
    {
        assert(files@.subrange(0, i + 1).drop_last() =~= files@.subrange(0, i as int));
        let f = &files[i];
        let pv = chars_of(f.rel_to_routes.as_str());
        let ext = crate::paths::extension_of_path(&pv);
        let is_tsx = match &ext {
            Some(e) => crate::text::eq_chars(e, &tsx),
            None => false,
        };
        let ghost prev = affected_views(out@);
        if is_tsx {
            match check_file_for_import(f, stem) {
                Some(a) => {
                    let ghost av = affected_view(a);
                    out.push(a);
                    assert(affected_views(out@) =~= prev + seq![av]);
                },
                None => {
                    assert(affected_views(out@) =~= prev + Seq::<(Seq<char>, Seq<char>, Seq<char>)>::empty());
                },
            }
        } else {
            assert(affected_views(out@) =~= prev + Seq::<(Seq<char>, Seq<char>, Seq<char>)>::empty());
        }
        i = i + 1;
    }
    assert(files@.subrange(0, files@.len() as int) =~= files@);
    let sorted = sort_by_key(out);
    proof {
        assert forall|k: Seq<char>| #[trigger] affected_views(with_key(sorted@, k))
            == affected_records(files@, stem@).filter(affected_path_is(k)) by {
            lemma_affected_filter(out@, k);
        }
    }
    sorted
}

/// Whether a line, trimmed, is an `import` line that mentions `stem`.
pub open spec fn imports_stem(l: Seq<char>, stem: Seq<char>) -> bool {
    starts_with(trim_ws(l), "import"@) && contains_seq(trim_ws(l), stem)
}

proof fn lemma_import_from_first(ls: Seq<Seq<char>>, stem: Seq<char>, i: int)
    requires
        0 <= i <= ls.len(),
    ensures
        import_from(ls, stem, i) is Some <==> exists|j: int| i <= j < ls.len() && imports_stem(#[trigger] ls[j], stem),
        forall|j: int| #![trigger ls[j]] i <= j < ls.len() && imports_stem(ls[j], stem)
            && (forall|k: int| i <= k < j ==> !imports_stem(#[trigger] ls[k], stem))
            ==> import_from(ls, stem, i) == Some(trim_ws(ls[j])),
    decreases ls.len() - i,
{
    if i < ls.len() {
        lemma_import_from_first(ls, stem, i + 1);
        if exists|j: int| i <= j < ls.len() && imports_stem(#[trigger] ls[j], stem) {
            let j = choose|j: int| i <= j < ls.len() && imports_stem(#[trigger] ls[j], stem);
            if j > i && !imports_stem(ls[i], stem) {
                assert(exists|j2: int| i + 1 <= j2 < ls.len() && imports_stem(#[trigger] ls[j2], stem));
            }
        }
        assert forall|j: int| #![trigger ls[j]] i <= j < ls.len() && imports_stem(ls[j], stem)
            && (forall|k: int| i <= k < j ==> !imports_stem(#[trigger] ls[k], stem))
            implies import_from(ls, stem, i) == Some(trim_ws(ls[j])) by {
            if j > i {
                assert(!imports_stem(ls[i], stem));
            }
        }
    }
}

/// The import line found in a route file is the first of its lines that,
/// trimmed, starts with `import` and mentions `stem`, whatever lines come
/// before it; there is one exactly when some line does.
pub proof fn lemma_import_line_is_first_mention(content: Seq<char>, stem: Seq<char>)
    ensures
        import_from(lines(content), stem, 0) is Some <==> exists|j: int| 0 <= j < lines(content).len()
            && starts_with(trim_ws(#[trigger] lines(content)[j]), "import"@) && contains_seq(trim_ws(lines(content)[j]), stem),
        forall|j: int| #![trigger lines(content)[j]] 0 <= j < lines(content).len()
            && starts_with(trim_ws(lines(content)[j]), "import"@) && contains_seq(trim_ws(lines(content)[j]), stem)
            && (forall|k: int| 0 <= k < j ==> !(starts_with(trim_ws(#[trigger] lines(content)[k]), "import"@)
                && contains_seq(trim_ws(lines(content)[k]), stem)))
            ==> import_from(lines(content), stem, 0) == Some(trim_ws(lines(content)[j])),
{
    lemma_import_from_first(lines(content), stem, 0);
}

} // verus!
