//! `rotiv spec-sync`: the route and model entries recorded in
//! `.rotiv/spec.json`.

use vstd::prelude::*;
use crate::cli::naming::{plural_of, snake_of, to_snake_plural};
use crate::paths::{components, extension, path_components, without_extension, drop_extension};
use crate::router::discovery::{drop_names, index_name, route_text, route_text_of, without_names};
use crate::json::{
    array_text, bool_json, bool_text, json_array, json_field_strings, json_is_null, json_string_at, json_string_literal, json_top_keys,
    json_with_field, opt_str_view, spec_json_field_strings, spec_json_is_null, spec_json_string_at, spec_json_string_literal, spec_json_top_keys,
    spec_json_with_field,
};
use crate::sorting::{Keyed, sort_by_key, sorted_by_key, with_key};
use crate::text::{
    chars_of, contains_at, contains_chars, contains_seq, copy_str, join_with, lines, lines_of, replace_char,
    replace_char_chars, starts_with, starts_with_chars, string_from, trim_ws, trim_ws_chars, views,
    decimal, decimal_string, str_views,
};

verus! {

broadcast use vstd::seq_lib::group_seq_properties;

pub open spec fn layout_name() -> Seq<char> {
    seq!['l', 'a', 'y', 'o', 'u', 't']
}

/// The route path of a file below the routes directory: extension dropped,
/// every `index` and `layout` segment dropped, `[name]` written `:name`.
pub open spec fn spec_sync_route_path(rel: Seq<char>) -> Seq<char> {
    route_text(without_names(without_extension(components(rel)), seq![index_name(), layout_name()]))
}

/// Converts a route file path relative to the routes directory to a URL
/// route path: `users/[id].tsx` → `/users/:id`, `index.tsx` → `/`.
pub fn file_to_route_path(rel: &str) -> (r: String)
    ensures
        r@ == spec_sync_route_path(rel@),
{
    let comps = path_components(rel);
    let w = drop_extension(comps);
    let names: Vec<Vec<char>> = vec![vec!['i', 'n', 'd', 'e', 'x'], vec!['l', 'a', 'y', 'o', 'u', 't']];
    assert(views(names@) =~= seq![index_name(), layout_name()]);
    let segs = drop_names(w, &names);
    route_text_of(&segs)
}

/// Whether a line, trimmed, is a `//` comment.
pub open spec fn is_comment_line(l: Seq<char>) -> bool {
    starts_with(trim_ws(l), "//"@)
}

/// The lines that are not comments.
pub open spec fn code_lines(ls: Seq<Seq<char>>) -> Seq<Seq<char>>
    decreases ls.len(),
{
    if ls.len() == 0 {
        Seq::empty()
    } else {
        code_lines(ls.drop_last()) + if is_comment_line(ls.last()) {
            Seq::empty()
        } else {
            seq![ls.last()]
        }
    }
}

/// The non-comment lines of a file, joined with newlines.
pub open spec fn code_text(content: Seq<char>) -> Seq<char> {
    join_with(code_lines(lines(content)), seq!['\n'])
}

/// Whether the code of a route file mentions `name(` or `name:`.
pub open spec fn declares(content: Seq<char>, call: Seq<char>, field: Seq<char>) -> bool {
    contains_seq(code_text(content), call) || contains_seq(code_text(content), field)
}

/// Which of `loader`, `action` and `component` a route file's code declares.
#[derive(Debug, Clone, Copy, PartialEq, Eq, Structural)]
pub struct RouteFlags {
    pub has_loader: bool,
    pub has_action: bool,
    pub has_component: bool,
}

fn code_of(content: &str) -> (r: Vec<char>)
    ensures
        r@ == code_text(content@),
{
    let c = chars_of(content);
    let ls = lines_of(&c);
    let ghost lv = views(ls@);
    let slashes = chars_of("//");
    let mut kept: Vec<Vec<char>> = Vec::new();
    let mut i: usize = 0;
    while i < ls.len()
        invariant
            lv == views(ls@),
            slashes@ == "//"@,
            i <= ls.len(),
            views(kept@) == code_lines(lv.subrange(0, i as int)),
        decreases ls.len() - i,
    {
        assert(lv.subrange(0, i + 1).drop_last() =~= lv.subrange(0, i as int));
        assert(lv[i as int] == ls@[i as int]@);
        let t = trim_ws_chars(&ls[i]);
        let ghost prev = views(kept@);
        if !starts_with_chars(&t, &slashes) {
            kept.push(crate::paths::copy_chars(&ls[i]));
            assert(views(kept@) =~= prev + seq![lv[i as int]]);
        } else {
            assert(views(kept@) =~= prev + Seq::<Seq<char>>::empty());
        }
        i = i + 1;
    }
    assert(lv.subrange(0, lv.len() as int) =~= lv);
    let nl = vec!['\n'];
    assert(nl@ =~= seq!['\n']);
    crate::text::join_chars(&kept, &nl)
}

fn mentions(v: &Vec<char>, s: &str) -> (r: bool)
    ensures
        r == contains_seq(v@, s@),
{
    let w = chars_of(s);
    contains_chars(v, &w)
}

/// Scans the non-comment lines of a route file for `loader`, `action` and
/// `component` declarations (`name(` or `name:`).
pub fn route_flags(content: &str) -> (r: RouteFlags)
    ensures
        r.has_loader == declares(content@, "loader("@, "loader:"@),
        r.has_action == declares(content@, "action("@, "action:"@),
        r.has_component == declares(content@, "component("@, "component:"@),
{
    let code = code_of(content);
    RouteFlags {
        has_loader: mentions(&code, "loader(") || mentions(&code, "loader:"),
        has_action: mentions(&code, "action(") || mentions(&code, "action:"),
        has_component: mentions(&code, "component(") || mentions(&code, "component:"),
    }
}

/// A route file as read below the routes directory.
#[derive(Debug)]
pub struct RouteSource {
    /// Its path relative to the routes directory.
    pub rel_to_routes: String,
    /// Its path relative to the project directory.
    pub rel_to_project: String,
    pub content: String,
}

/// A route as recorded in the spec file.
#[derive(Debug)]
pub struct SpecRoute {
    pub path: String,
    pub file: String,
    pub flags: RouteFlags,
}

impl Keyed for SpecRoute {
    open spec fn spec_key(&self) -> Seq<char> {
        self.path@
    }

    fn key(&self) -> (r: String) {
        self.path.clone()
    }
}

/// The recorded form of a route file.
pub open spec fn route_record(src: RouteSource) -> (Seq<char>, Seq<char>, RouteFlags) {
    (
        spec_sync_route_path(src.rel_to_routes@),
        replace_char(src.rel_to_project@, '\\', '/'),
        RouteFlags {
            has_loader: declares(src.content@, "loader("@, "loader:"@),
            has_action: declares(src.content@, "action("@, "action:"@),
            has_component: declares(src.content@, "component("@, "component:"@),
        },
    )
}

pub open spec fn spec_route_view(r: SpecRoute) -> (Seq<char>, Seq<char>, RouteFlags) {
    (r.path@, r.file@, r.flags)
}

/// Builds the spec entry of a route file.
pub fn build_route_entry(src: &RouteSource) -> (r: SpecRoute)
    ensures
        spec_route_view(r) == route_record(*src),
{
    let rel = chars_of(src.rel_to_project.as_str());
    let file = replace_char_chars(&rel, '\\', '/');
    SpecRoute {
        path: file_to_route_path(src.rel_to_routes.as_str()),
        file: string_from(&file),
        flags: route_flags(src.content.as_str()),
    }
}

pub open spec fn is_tsx_file(p: Seq<char>) -> bool {
    extension(p) == Some(seq!['t', 's', 'x'])
}

/// The records of the `.tsx` files among `fs`, in order.
pub open spec fn route_records(fs: Seq<RouteSource>) -> Seq<(Seq<char>, Seq<char>, RouteFlags)>
    decreases fs.len(),
{
    if fs.len() == 0 {
        Seq::empty()
    } else {
        route_records(fs.drop_last()) + if is_tsx_file(fs.last().rel_to_routes@) {
            seq![route_record(fs.last())]
        } else {
            Seq::empty()
        }
    }
}

pub open spec fn spec_route_views(s: Seq<SpecRoute>) -> Seq<(Seq<char>, Seq<char>, RouteFlags)> {
    s.map_values(|r: SpecRoute| spec_route_view(r))
}

/// The entries of the `.tsx` files, in the order given.
fn route_entries(files: &Vec<RouteSource>) -> (r: Vec<SpecRoute>)
    ensures
        spec_route_views(r@) == route_records(files@),
{
    let tsx = vec!['t', 's', 'x'];
    let mut out: Vec<SpecRoute> = Vec::new();
    let mut i: usize = 0;
    while i < files.len()
        invariant
            i <= files.len(),
            tsx@ == seq!['t', 's', 'x'],
            spec_route_views(out@) == route_records(files@.subrange(0, i as int)),
        decreases files.len() - i,
    {
        assert(files@.subrange(0, i + 1).drop_last() =~= files@.subrange(0, i as int));
        let f = &files[i];
        let pv = chars_of(f.rel_to_routes.as_str());
        let ext = crate::paths::extension_of_path(&pv);
        let is_tsx = match &ext {
            Some(e) => crate::text::eq_chars(e, &tsx),
            None => false,
        };
        let ghost prev = spec_route_views(out@);
        if is_tsx {
            let e = build_route_entry(f);
            out.push(e);
            assert(spec_route_views(out@) =~= prev + seq![route_record(*f)]);
        } else {
            assert(spec_route_views(out@) =~= prev + Seq::<(Seq<char>, Seq<char>, RouteFlags)>::empty());
        }
        i = i + 1;
    }
    assert(files@.subrange(0, files@.len() as int) =~= files@);
    out
}

/// Whether a record's route path is `k`.
pub open spec fn record_path_is(k: Seq<char>) -> spec_fn((Seq<char>, Seq<char>, RouteFlags)) -> bool {
    |e: (Seq<char>, Seq<char>, RouteFlags)| e.0 == k
}

/// The route entries of the spec file: one per `.tsx` file, sorted by route
/// path; entries with equal paths keep the order in which the files were found.
pub fn discover_spec_routes(files: &Vec<RouteSource>) -> (r: Vec<SpecRoute>)
    ensures
        sorted_by_key(r@),
        forall|k: Seq<char>| #[trigger] spec_route_views(with_key(r@, k))
            == route_records(files@).filter(record_path_is(k)),
{
    let entries = route_entries(files);
    let sorted = sort_by_key(entries);
    proof {
        assert forall|k: Seq<char>| #[trigger] spec_route_views(with_key(sorted@, k))
            == route_records(files@).filter(record_path_is(k)) by {
            lemma_views_filter(entries@, k);
        }
    }
    sorted
}

proof fn lemma_views_filter(s: Seq<SpecRoute>, k: Seq<char>)
    ensures
        spec_route_views(with_key(s, k)) == spec_route_views(s).filter(record_path_is(k)),
    decreases s.len(),
{
    let f = record_path_is(k);
    reveal(Seq::filter);
    if s.len() > 0 {
        lemma_views_filter(s.drop_last(), k);
        assert(spec_route_views(s.drop_last()) =~= spec_route_views(s).drop_last());
        assert(with_key(s, k) == with_key(s.drop_last(), k) + if s.last().spec_key() == k {
            seq![s.last()]
        } else {
            Seq::empty()
        }) by {
            assert(s =~= s.drop_last().push(s.last()));
            s.drop_last().lemma_filter_push(s.last(), crate::sorting::key_pred(k));
        }
        if s.last().spec_key() == k {
            assert(spec_route_views(with_key(s, k)) =~= spec_route_views(with_key(s.drop_last(), k)).push(spec_route_view(s.last())));
        } else {
            assert(spec_route_views(with_key(s, k)) =~= spec_route_views(with_key(s.drop_last(), k)));
        }
    } else {
        assert(with_key(s, k) =~= Seq::<SpecRoute>::empty());
        assert(spec_route_views(s).filter(f) =~= Seq::<(Seq<char>, Seq<char>, RouteFlags)>::empty());
    }
}

/// A model as recorded in the spec file.
#[derive(Debug)]
pub struct SpecModel {
    pub name: String,
    pub file: String,
    pub table: String,
}

/// The spec entry of a model: its file path (relative to the project) with
/// `/` separators, and its table name, the snake_case plural of its name.
pub fn spec_model_entry(name: &str, rel_to_project: &str) -> (r: SpecModel)
    ensures
        r.name@ == name@,
        r.file@ == replace_char(rel_to_project@, '\\', '/'),
        r.table@ == plural_of(snake_of(name@)),
{
    let rel = chars_of(rel_to_project);
    let file = replace_char_chars(&rel, '\\', '/');
    SpecModel { name: copy_str(name), file: string_from(&file), table: to_snake_plural(name) }
}

/// The project name: `project.name` of the spec file, else its
/// `project_name`, else the project directory's name, else `project`.
pub fn choose_project_name(
    spec_project_name: Option<String>,
    spec_flat_name: Option<String>,
    dir_name: Option<String>,
) -> (r: String)
    ensures
        r@ == match spec_project_name {
            Some(n) => n@,
            None => match spec_flat_name {
                Some(n) => n@,
                None => match dir_name {
                    Some(n) => n@,
                    None => "project"@,
                },
            },
        },
{
    match spec_project_name {
        Some(n) => n,
        None => match spec_flat_name {
            Some(n) => n,
            None => match dir_name {
                Some(n) => n,
                None => copy_str("project"),
            },
        },
    }
}

/// The message printed after a sync.
pub fn sync_summary(routes: u64, models: u64) -> (r: String)
    ensures
        r@ == "synced "@ + decimal(routes as nat) + " route(s), "@ + decimal(models as nat)
            + " model(s) → .rotiv/spec.json"@,
{
    let mut s = copy_str("synced ");
    let a = decimal_string(routes);
    s.append(a.as_str());
    s.append(" route(s), ");
    let b = decimal_string(models);
    s.append(b.as_str());
    s.append(" model(s) → .rotiv/spec.json");
    s
}


/// What a sync records: the route entries, the model entries and the message
/// reported.
#[derive(Debug)]
pub struct SyncOutcome {
    pub routes: Vec<SpecRoute>,
    pub models: Vec<SpecModel>,
    pub summary: String,
}

/// Computes a sync of the spec file from the route files found below
/// `app/routes/` and the models (name, path relative to the project) found in
/// `app/models/`: the sorted route entries, the model entries in the given
/// order, and the summary naming their counts.
pub fn run(route_files: &Vec<RouteSource>, models: &Vec<(String, String)>) -> (r: SyncOutcome)
    ensures
        sorted_by_key(r.routes@),
        forall|k: Seq<char>| #[trigger] spec_route_views(with_key(r.routes@, k))
            == route_records(route_files@).filter(record_path_is(k)),
        r.models@.len() == models@.len(),
        forall|i: int| 0 <= i < models@.len() ==> {
            let m = #[trigger] r.models@[i];
            &&& m.name@ == models@[i].0@
            &&& m.file@ == replace_char(models@[i].1@, '\\', '/')
            &&& m.table@ == plural_of(snake_of(models@[i].0@))
        },
        r.summary@ == "synced "@ + decimal(r.routes@.len() as nat) + " route(s), "@ + decimal(models@.len() as nat)
            + " model(s) → .rotiv/spec.json"@,
{
    let routes = discover_spec_routes(route_files);
    let mut entries: Vec<SpecModel> = Vec::new();
    let mut i: usize = 0;
    while i < models.len()
        invariant
            i <= models.len(),
            entries@.len() == i,
            forall|j: int| 0 <= j < i ==> {
                let m = #[trigger] entries@[j];
                &&& m.name@ == models@[j].0@
                &&& m.file@ == replace_char(models@[j].1@, '\\', '/')
                &&& m.table@ == plural_of(snake_of(models@[j].0@))
            },
        decreases models.len() - i,
    {
        entries.push(spec_model_entry(models[i].0.as_str(), models[i].1.as_str()));
        i = i + 1;
    }
    let summary = sync_summary(routes.len() as u64, models.len() as u64);
    SyncOutcome { routes, models: entries, summary }
}

/// The spec file written when there is none, or it is not JSON.
pub open spec fn default_spec_text() -> Seq<char> {
    "{\"version\":\"1\"}"@
}

/// The document a sync or an addition starts from: the spec file's text when
/// it is JSON, an empty object when that JSON is `null` (setting a field of
/// `null` makes it an object), and the default spec when there is no file or
/// it is not JSON.
pub open spec fn base_spec(raw: Option<Seq<char>>) -> Seq<char> {
    match raw {
        Some(t) => if spec_json_top_keys(t) is Err {
            default_spec_text()
        } else if spec_json_is_null(t) == Some(true) {
            "{}"@
        } else {
            t
        },
        None => default_spec_text(),
    }
}

/// The document a sync or an addition starts from (see `base_spec`).
pub fn base_spec_text(raw: Option<&str>) -> (r: String)
    ensures
        r@ == base_spec(match raw {
            Some(t) => Some(t@),
            None => None,
        }),
{
    match raw {
        Some(t) => match json_is_null(t) {
            None => copy_str("{\"version\":\"1\"}"),
            Some(true) => copy_str("{}"),
            Some(false) => copy_str(t),
        },
        None => copy_str("{\"version\":\"1\"}"),
    }
}

/// The JSON object recorded for a route.
pub open spec fn route_json_text(r: SpecRoute) -> Seq<char> {
    "{\"path\":"@ + spec_json_string_literal(r.path@) + ",\"file\":"@ + spec_json_string_literal(r.file@)
        + ",\"has_loader\":"@ + bool_text(r.flags.has_loader) + ",\"has_action\":"@
        + bool_text(r.flags.has_action) + ",\"has_component\":"@ + bool_text(r.flags.has_component) + "}"@
}

/// The JSON object recorded for a model.
pub open spec fn model_json_text(m: SpecModel) -> Seq<char> {
    "{\"name\":"@ + spec_json_string_literal(m.name@) + ",\"file\":"@ + spec_json_string_literal(m.file@)
        + ",\"table\":"@ + spec_json_string_literal(m.table@) + "}"@
}

fn route_json(r: &SpecRoute) -> (t: String)
    ensures
        t@ == route_json_text(*r),
{
    let mut t = copy_str("{\"path\":");
    t.append(json_string_literal(r.path.as_str()).as_str());
    t.append(",\"file\":");
    t.append(json_string_literal(r.file.as_str()).as_str());
    t.append(",\"has_loader\":");
    t.append(bool_json(r.flags.has_loader));
    t.append(",\"has_action\":");
    t.append(bool_json(r.flags.has_action));
    t.append(",\"has_component\":");
    t.append(bool_json(r.flags.has_component));
    t.append("}");
    assert(t@ =~= route_json_text(*r));
    t
}

fn model_json(m: &SpecModel) -> (t: String)
    ensures
        t@ == model_json_text(*m),
{
    let mut t = copy_str("{\"name\":");
    t.append(json_string_literal(m.name.as_str()).as_str());
    t.append(",\"file\":");
    t.append(json_string_literal(m.file.as_str()).as_str());
    t.append(",\"table\":");
    t.append(json_string_literal(m.table.as_str()).as_str());
    t.append("}");
    assert(t@ =~= model_json_text(*m));
    t
}

/// The spec file after a sync: the starting document (see `base_spec`) with
/// its `routes` and then its `models` replaced by the arrays of the given
/// entries, pretty-printed; `None` where `serde_json` gives nothing (the
/// starting document is a JSON number, string, boolean or array, whose fields
/// cannot be set).
pub open spec fn synced_spec_text(raw: Option<Seq<char>>, routes: Seq<SpecRoute>, models: Seq<SpecModel>) -> Option<Seq<char>> {
    match spec_json_with_field(base_spec(raw), "routes"@, array_text(routes.map_values(|r: SpecRoute| route_json_text(r)))) {
        Some(t) => spec_json_with_field(t, "models"@, array_text(models.map_values(|m: SpecModel| model_json_text(m)))),
        None => None,
    }
}

/// The new text of the spec file `raw` (`None` when there is none) after a
/// sync that found `routes` and `models`.
pub fn synced_spec(raw: Option<&str>, routes: &Vec<SpecRoute>, models: &Vec<SpecModel>) -> (r: Option<String>)
    ensures
        opt_str_view(r) == synced_spec_text(
            match raw {
                Some(t) => Some(t@),
                None => None,
            },
            routes@,
            models@,
        ),
{
    let base = base_spec_text(raw);
    let mut route_texts: Vec<String> = Vec::new();
    let mut i: usize = 0;
    while i < routes.len()
        invariant
            i <= routes.len(),
            str_views(route_texts@) =~= routes@.subrange(0, i as int).map_values(|r: SpecRoute| route_json_text(r)),
        decreases routes.len() - i,
    {
        let t = route_json(&routes[i]);
        let ghost prev = route_texts@;
        route_texts.push(t);
        assert(str_views(route_texts@) =~= str_views(prev).push(t@));
        assert(routes@.subrange(0, i + 1) =~= routes@.subrange(0, i as int).push(routes@[i as int]));
        i = i + 1;
    }
    assert(routes@.subrange(0, routes@.len() as int) =~= routes@);
    let mut model_texts: Vec<String> = Vec::new();
    let mut k: usize = 0;
    while k < models.len()
        invariant
            k <= models.len(),
            str_views(model_texts@) =~= models@.subrange(0, k as int).map_values(|m: SpecModel| model_json_text(m)),
        decreases models.len() - k,
    {
        let t = model_json(&models[k]);
        let ghost prev = model_texts@;
        model_texts.push(t);
        assert(str_views(model_texts@) =~= str_views(prev).push(t@));
        assert(models@.subrange(0, k + 1) =~= models@.subrange(0, k as int).push(models@[k as int]));
        k = k + 1;
    }
    assert(models@.subrange(0, models@.len() as int) =~= models@);
    let routes_text = json_array(&route_texts);
    match json_with_field(base.as_str(), "routes", routes_text.as_str()) {
        Some(t) => {
            let models_text = json_array(&model_texts);
            json_with_field(t.as_str(), "models", models_text.as_str())
        },
        None => None,
    }
}

/// The project name of a spec file whose text is `raw` (`None` when there is
/// none) in directory `dir_name`: its `project.name`, else its
/// `project_name`, else the directory's name, else `project`.
pub open spec fn project_name_text(raw: Option<Seq<char>>, dir_name: Option<Seq<char>>) -> Seq<char> {
    let at = |p: Seq<char>| match raw {
        Some(t) => match spec_json_string_at(t, p) {
            Some(v) => v,
            None => None,
        },
        None => None,
    };
    match at("/project/name"@) {
        Some(n) => n,
        None => match at("/project_name"@) {
            Some(n) => n,
            None => match dir_name {
                Some(n) => n,
                None => "project"@,
            },
        },
    }
}

fn string_in(raw: Option<&str>, pointer: &str) -> (r: Option<String>)
    ensures
        opt_str_view(r) == match raw {
            Some(t) => match spec_json_string_at(t@, pointer@) {
                Some(v) => v,
                None => None,
            },
            None => None,
        },
{
    match raw {
        Some(t) => match json_string_at(t, pointer) {
            Some(v) => v,
            None => None,
        },
        None => None,
    }
}

/// The project name from the spec file's text `raw` (`None` when it cannot
/// be read) and the project directory's name.
pub fn project_name_of(raw: Option<&str>, dir_name: Option<String>) -> (r: String)
    ensures
        r@ == project_name_text(
            match raw {
                Some(t) => Some(t@),
                None => None,
            },
            opt_str_view(dir_name),
        ),
{
    let nested = string_in(raw, "/project/name");
    let flat = string_in(raw, "/project_name");
    choose_project_name(nested, flat, dir_name)
}

/// What `rotiv info` shows of a spec file: the project's name and creation
/// time, the spec version, and the numbers of routes and models recorded
/// (each `None` where the file holds no such string or list).
#[derive(Debug)]
pub struct SpecSummary {
    pub name: Option<String>,
    pub created_at: Option<String>,
    pub version: Option<String>,
    pub routes: Option<usize>,
    pub models: Option<usize>,
}

/// The number of entries of the list `key` of a document known to parse.
pub open spec fn list_len(raw: Seq<char>, key: Seq<char>) -> Option<nat> {
    match spec_json_field_strings(raw, key, "name"@) {
        Some(Some(v)) => Some(v.len()),
        _ => None,
    }
}

/// The string at `pointer` of a document known to parse.
pub open spec fn string_of_doc(raw: Seq<char>, pointer: Seq<char>) -> Option<Seq<char>> {
    match spec_json_string_at(raw, pointer) {
        Some(v) => v,
        None => None,
    }
}

fn count_of(raw: &str, key: &str) -> (r: Option<usize>)
    ensures
        match r {
            Some(n) => list_len(raw@, key@) == Some(n as nat),
            None => list_len(raw@, key@) is None,
        },
{
    match json_field_strings(raw, key, "name") {
        Some(Some(v)) => Some(v.len()),
        _ => None,
    }
}

fn string_of(raw: &str, pointer: &str) -> (r: Option<String>)
    ensures
        opt_str_view(r) == string_of_doc(raw@, pointer@),
{
    match json_string_at(raw, pointer) {
        Some(v) => v,
        None => None,
    }
}

/// The summary of a spec file whose text is `raw`: `None` when it is not
/// JSON; else its `project.name`, `project.created_at` and `version` strings
/// and the lengths of its `routes` and `models` lists.
pub fn spec_summary_of(raw: &str) -> (r: Option<SpecSummary>)
    ensures
        r is None <==> spec_json_top_keys(raw@) is Err,
        r matches Some(s) ==> {
            &&& opt_str_view(s.name) == string_of_doc(raw@, "/project/name"@)
            &&& opt_str_view(s.created_at) == string_of_doc(raw@, "/project/created_at"@)
            &&& opt_str_view(s.version) == string_of_doc(raw@, "/version"@)
            &&& (match s.routes {
                Some(n) => list_len(raw@, "routes"@) == Some(n as nat),
                None => list_len(raw@, "routes"@) is None,
            })
            &&& (match s.models {
                Some(n) => list_len(raw@, "models"@) == Some(n as nat),
                None => list_len(raw@, "models"@) is None,
            })
        },
{
    match json_top_keys(raw) {
        Err(_) => None,
        Ok(_) => Some(SpecSummary {
            name: string_of(raw, "/project/name"),
            created_at: string_of(raw, "/project/created_at"),
            version: string_of(raw, "/version"),
            routes: count_of(raw, "routes"),
            models: count_of(raw, "models"),
        }),
    }
}

proof fn lemma_code_lines_insert_comment(ls: Seq<Seq<char>>, k: int, l: Seq<char>)
    requires
        0 <= k <= ls.len(),
        starts_with(trim_ws(l), "//"@),
    ensures
        code_lines(ls.insert(k, l)) == code_lines(ls),
    decreases ls.len(),
{
    let ins = ls.insert(k, l);
    if k == ls.len() {
        assert(ins.drop_last() =~= ls);
        assert(ins.last() == l);
    } else {
        lemma_code_lines_insert_comment(ls.drop_last(), k, l);
        assert(ins.drop_last() =~= ls.drop_last().insert(k, l));
        assert(ins.last() == ls.last());
    }
}

/// A line that, with white space trimmed, starts with `//` never counts
/// towards a route's flags: inserting such a line anywhere in a route file,
/// indented or not, leaves whether it declares `loader`, `action`,
/// `component` (or anything else) unchanged.
pub proof fn lemma_comment_line_leaves_flags(c1: Seq<char>, c2: Seq<char>, k: int, l: Seq<char>)
    requires
        0 <= k <= lines(c1).len(),
        lines(c2) == lines(c1).insert(k, l),
        starts_with(trim_ws(l), "//"@),
    ensures
        forall|call: Seq<char>, field: Seq<char>| #[trigger] declares(c2, call, field) == declares(c1, call, field),
{
    lemma_code_lines_insert_comment(lines(c1), k, l);
    assert(code_text(c2) == code_text(c1));
}

proof fn lemma_contains_across_newline(a: Seq<char>, b: Seq<char>, needle: Seq<char>)
    requires
        !needle.contains('\n'),
    ensures
        contains_seq(a + seq!['\n'] + b, needle) <==> contains_seq(a, needle) || contains_seq(b, needle),
{
    let s = a + seq!['\n'] + b;
    let n = needle.len();
    if contains_seq(s, needle) {
        let i = choose|i: int| contains_at(s, needle, i);
        if i + n <= a.len() {
            assert(a.subrange(i, i + n) =~= s.subrange(i, i + n));
            assert(contains_at(a, needle, i));
        } else if i >= a.len() + 1 {
            let j = i - a.len() - 1;
            assert(b.subrange(j, j + n) =~= s.subrange(i, i + n));
            assert(contains_at(b, needle, j));
        } else {
            let k = a.len() - i;
            assert(s.subrange(i, i + n)[k] == s[a.len() as int]);
            assert(needle[k] == '\n');
            assert(needle.contains('\n'));
        }
    }
    if contains_seq(a, needle) {
        let i = choose|i: int| contains_at(a, needle, i);
        assert(s.subrange(i, i + n) =~= a.subrange(i, i + n));
        assert(contains_at(s, needle, i));
    }
    if contains_seq(b, needle) {
        let j = choose|j: int| contains_at(b, needle, j);
        let i = j + a.len() + 1;
        assert(s.subrange(i, i + n) =~= b.subrange(j, j + n));
        assert(contains_at(s, needle, i));
    }
}

proof fn lemma_contains_in_joined_lines(parts: Seq<Seq<char>>, needle: Seq<char>)
    requires
        needle.len() > 0,
        !needle.contains('\n'),
    ensures
        contains_seq(join_with(parts, seq!['\n']), needle) <==> exists|i: int| 0 <= i < parts.len()
            && contains_seq(#[trigger] parts[i], needle),
    decreases parts.len(),
{
    if parts.len() == 0 {
        if contains_seq(join_with(parts, seq!['\n']), needle) {
            let i = choose|i: int| contains_at(join_with(parts, seq!['\n']), needle, i);
        }
    } else if parts.len() == 1 {
        if contains_seq(parts[0], needle) {
            assert(contains_seq(parts[0], needle));
        }
    } else {
        let d = parts.drop_last();
        lemma_contains_in_joined_lines(d, needle);
        lemma_contains_across_newline(join_with(d, seq!['\n']), parts.last(), needle);
        assert(join_with(parts, seq!['\n']) == join_with(d, seq!['\n']) + seq!['\n'] + parts.last());
        if exists|i: int| 0 <= i < parts.len() && contains_seq(#[trigger] parts[i], needle) {
            let i = choose|i: int| 0 <= i < parts.len() && contains_seq(#[trigger] parts[i], needle);
            if i < d.len() {
                assert(d[i] == parts[i]);
            } else {
                assert(parts[i] == parts.last());
            }
        }
        if exists|i: int| 0 <= i < d.len() && contains_seq(#[trigger] d[i], needle) {
            let i = choose|i: int| 0 <= i < d.len() && contains_seq(#[trigger] d[i], needle);
            assert(parts[i] == d[i]);
        }
        if contains_seq(parts.last(), needle) {
            assert(parts[parts.len() - 1] == parts.last());
        }
    }
}

proof fn lemma_code_lines_members(ls: Seq<Seq<char>>, needle: Seq<char>)
    ensures
        (exists|j: int| 0 <= j < code_lines(ls).len() && contains_seq(#[trigger] code_lines(ls)[j], needle))
            <==> exists|i: int| 0 <= i < ls.len() && !starts_with(trim_ws(#[trigger] ls[i]), "//"@)
            && contains_seq(ls[i], needle),
    decreases ls.len(),
{
    if ls.len() > 0 {
        let d = ls.drop_last();
        lemma_code_lines_members(d, needle);
        let cd = code_lines(d);
        let c = code_lines(ls);
        let x = ls.last();
        assert(ls[ls.len() - 1] == x);
        if exists|j: int| 0 <= j < c.len() && contains_seq(#[trigger] c[j], needle) {
            let j = choose|j: int| 0 <= j < c.len() && contains_seq(#[trigger] c[j], needle);
            if j < cd.len() {
                assert(c[j] == cd[j]);
                let i = choose|i: int| 0 <= i < d.len() && !starts_with(trim_ws(#[trigger] d[i]), "//"@)
                    && contains_seq(d[i], needle);
                assert(ls[i] == d[i]);
            } else {
                assert(c[j] == x);
            }
        }
        if exists|i: int| 0 <= i < ls.len() && !starts_with(trim_ws(#[trigger] ls[i]), "//"@) && contains_seq(ls[i], needle) {
            let i = choose|i: int| 0 <= i < ls.len() && !starts_with(trim_ws(#[trigger] ls[i]), "//"@)
                && contains_seq(ls[i], needle);
            if i < d.len() {
                assert(d[i] == ls[i]);
                let j = choose|j: int| 0 <= j < cd.len() && contains_seq(#[trigger] cd[j], needle);
                assert(c[j] == cd[j]);
            } else {
                assert(c[cd.len() as int] == x);
            }
        }
    }
}

/// A route declares `call` or `field` (each non-empty and on one line)
/// exactly when one of its lines mentions it and that line, with white space
/// trimmed, does not start with `//`.
pub proof fn lemma_flags_come_from_code_lines(content: Seq<char>, call: Seq<char>, field: Seq<char>)
    requires
        call.len() > 0,
        field.len() > 0,
        !call.contains('\n'),
        !field.contains('\n'),
    ensures
        declares(content, call, field) <==> exists|i: int| 0 <= i < lines(content).len()
            && !starts_with(trim_ws(#[trigger] lines(content)[i]), "//"@)
            && (contains_seq(lines(content)[i], call) || contains_seq(lines(content)[i], field)),
{
    let ls = lines(content);
    let cl = code_lines(ls);
    lemma_contains_in_joined_lines(cl, call);
    lemma_contains_in_joined_lines(cl, field);
    lemma_code_lines_members(ls, call);
    lemma_code_lines_members(ls, field);
    if exists|i: int| 0 <= i < ls.len() && !starts_with(trim_ws(#[trigger] ls[i]), "//"@)
        && (contains_seq(ls[i], call) || contains_seq(ls[i], field)) {
        let i = choose|i: int| 0 <= i < ls.len() && !starts_with(trim_ws(#[trigger] ls[i]), "//"@)
            && (contains_seq(ls[i], call) || contains_seq(ls[i], field));
        if contains_seq(ls[i], call) {
            assert(exists|i2: int| 0 <= i2 < ls.len() && !starts_with(trim_ws(#[trigger] ls[i2]), "//"@)
                && contains_seq(ls[i2], call));
        } else {
            assert(exists|i2: int| 0 <= i2 < ls.len() && !starts_with(trim_ws(#[trigger] ls[i2]), "//"@)
                && contains_seq(ls[i2], field));
        }
    }
}

} // verus!
