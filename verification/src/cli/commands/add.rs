//! `rotiv add`: the route paths, names and file contents of scaffolded
//! routes, models and modules.

use vstd::prelude::*;
use crate::chars::{is_alphanumeric, is_uppercase, spec_is_alphanumeric, spec_is_uppercase};
use crate::cli::naming::{
    camel_of, kebab_of, pascal_of, plural_of, snake_of, to_camel, to_kebab_case, to_pascal_case, to_snake,
    to_snake_plural,
};
use crate::error::RotivError;
use crate::paths::{drop_extension, path_components, strip_prefix_components, without_extension};
use crate::router::discovery::{
    bracket_param, drop_names, index_name, relative_components, route_text, route_text_of, without_names,
};
use crate::cli::commands::spec_sync::{layout_name, spec_sync_route_path};
use crate::paths::components;
use crate::cli::commands::spec_sync::{base_spec, base_spec_text};
use crate::json::{
    array_text, json_array, json_field_strings, json_pretty, json_string_at, json_string_literal,
    json_with_field, json_with_pushed, opt_str_view, opt_strs_view, spec_json_field_strings,
    spec_json_pretty, spec_json_string_at, spec_json_string_literal, spec_json_with_field,
    spec_json_with_pushed,
};
use crate::text::{
    chars_of, copy_str, ends_with, ends_with_chars, eq_chars, join_with, push_all, replace_all,
    replace_seq, split_char, split_chars, string_from, trim_end_char, trim_end_chars, trim_end_seq,
    trim_end_seq_chars, trim_start_char, trim_start_chars, views, str_equal, str_views,
};

verus! {

pub open spec fn tsx_suffix() -> Seq<char> {
    seq!['.', 't', 's', 'x']
}

/// A slug segment as a route segment: `[name]` → `:name`, `index` → nothing.
pub open spec fn slug_segment(s: Seq<char>) -> Seq<char> {
    if s.len() > 0 && s[0] == '[' && s[s.len() - 1] == ']' {
        bracket_param(s)
    } else if s == index_name() {
        Seq::empty()
    } else {
        s
    }
}

/// The non-empty route segments of the slug segments.
pub open spec fn slug_segments(ws: Seq<Seq<char>>) -> Seq<Seq<char>>
    decreases ws.len(),
{
    if ws.len() == 0 {
        Seq::empty()
    } else {
        let s = slug_segment(ws.last());
        slug_segments(ws.drop_last()) + if s.len() > 0 {
            seq![s]
        } else {
            Seq::empty()
        }
    }
}

/// The route path and the file path (below `app/routes/`) for a slug such as
/// `users/[id]`: leading slashes dropped, `.tsx` appended unless present, and
/// the route built from the slug without its `.tsx` suffixes.
pub open spec fn spec_derive_route_paths(path: Seq<char>) -> (Seq<char>, Seq<char>) {
    let n = trim_start_char(path, '/');
    let file = if ends_with(n, tsx_suffix()) {
        n
    } else {
        n + tsx_suffix()
    };
    let segs = slug_segments(split_char(trim_end_seq(n, tsx_suffix()), '/'));
    let route0 = seq!['/'] + join_with(segs, seq!['/']);
    let route = if route0 == seq!['/'] || route0.len() == 0 {
        seq!['/']
    } else {
        trim_end_char(route0, '/')
    };
    (route, file)
}

/// The route path of a route file: its path below `routes_dir` (or the whole
/// path when it is not below it) without extension, with every `index`
/// segment dropped.
pub open spec fn spec_route_file_to_path(file: Seq<char>, routes_dir: Seq<char>) -> Seq<char> {
    route_text(without_names(without_extension(relative_components(routes_dir, file)), seq![index_name()]))
}

/// The first-party modules that `rotiv add module` installs from its own sources.
#[derive(Debug, Clone, Copy, PartialEq, Eq)]
pub enum FirstPartyModule {
    Sessions,
    Auth,
    FileUploads,
}

/// Whether a model name is PascalCase: non-empty, starting with an
/// upper-case character, all characters alphanumeric.
pub open spec fn valid_model_name(name: Seq<char>) -> bool {
    &&& name.len() > 0
    &&& spec_is_uppercase(name[0])
    &&& forall|i: int| 0 <= i < name.len() ==> spec_is_alphanumeric(#[trigger] name[i])
}

/// Whether a module name is lowercase-hyphen: non-empty, only `a`-`z`, `0`-`9` and `-`.
pub open spec fn valid_module_name(name: Seq<char>) -> bool {
    &&& name.len() > 0
    &&& forall|i: int| 0 <= i < name.len() ==> {
        let c = #[trigger] name[i];
        ('a' <= c && c <= 'z') || ('0' <= c && c <= '9') || c == '-'
    }
}

/// Derives the route path and the file path from a user-supplied slug.
///
/// Input:  "users/[id]"
/// Output: ("/users/:id", "users/[id].tsx")
pub fn derive_route_paths(path: &str) -> (r: (String, String))
    ensures
        (r.0@, r.1@) == spec_derive_route_paths(path@),
{
    let v = chars_of(path);
    let n = trim_start_chars(&v, '/');
    let suffix = vec!['.', 't', 's', 'x'];
    assert(suffix@ =~= tsx_suffix());
    let file_path = if ends_with_chars(&n, &suffix) {
        string_from(&n)
    } else {
        let mut f = crate::paths::copy_chars(&n);
        push_all(&mut f, &suffix);
        string_from(&f)
    };
    let stripped = trim_end_seq_chars(&n, &suffix);
    let pieces = split_chars(&stripped, '/');
    let ghost ws = views(pieces@);
    let mut segs: Vec<Vec<char>> = Vec::new();
    let index = vec!['i', 'n', 'd', 'e', 'x'];
    assert(index@ =~= index_name());
    let mut i: usize = 0;
    while i < pieces.len()
        invariant
            ws == views(pieces@),
            index@ == index_name(),
            i <= pieces.len(),
            views(segs@) == slug_segments(ws.subrange(0, i as int)),
        decreases pieces.len() - i,
    {
        assert(ws.subrange(0, i + 1).drop_last() =~= ws.subrange(0, i as int));
        assert(ws[i as int] == pieces@[i as int]@);
        let p = &pieces[i];
        let k = p.len();
        let s: Vec<char> = if k > 0 && p[0] == '[' && p[k - 1] == ']' {
            let mut b: Vec<char> = vec![':'];
            let inner = crate::text::sub_chars(p, 1, k - 1);
            push_all(&mut b, &inner);
            assert(b@ =~= bracket_param(p@));
            b
        } else if eq_chars(p, &index) {
            Vec::new()
        } else {
            crate::paths::copy_chars(p)
        };
        assert(s@ =~= slug_segment(p@));
        if s.len() > 0 {
            let ghost pre = views(segs@);
            segs.push(s);
            assert(views(segs@) =~= pre + seq![slug_segment(p@)]);
        } else {
            assert(views(segs@) =~= views(segs@) + Seq::<Seq<char>>::empty());
        }
        i = i + 1;
    }
    assert(ws.subrange(0, ws.len() as int) =~= ws);
    let slash = vec!['/'];
    assert(slash@ =~= seq!['/']);
    let joined = crate::text::join_chars(&segs, &slash);
    let mut route0: Vec<char> = vec!['/'];
    push_all(&mut route0, &joined);
    assert(route0@ =~= seq!['/'] + joined@);
    let route = if route0.len() == 1 || route0.len() == 0 {
        proof {
            if route0.len() == 1 {
                assert(route0@ =~= seq!['/']);
            }
        }
        let one = vec!['/'];
        string_from(&one)
    } else {
        proof {
            if route0@ == seq!['/'] {
                assert(route0@.len() == 1);
            }
        }
        let t = trim_end_chars(&route0, '/');
        string_from(&t)
    };
    (route, file_path)
}

/// Builds the route path of a route file, relative to `routes_dir`; every
/// `index` segment is dropped.
pub fn route_file_to_path(file: &str, routes_dir: &str) -> (r: String)
    ensures
        r@ == spec_route_file_to_path(file@, routes_dir@),
{
    let b = path_components(routes_dir);
    let f = path_components(file);
    let rel = match strip_prefix_components(&b, f) {
        Ok(rest) => rest,
        Err(all) => all,
    };
    let w = drop_extension(rel);
    let names: Vec<Vec<char>> = vec![vec!['i', 'n', 'd', 'e', 'x']];
    assert(views(names@) =~= seq![index_name()]);
    let segs = drop_names(w, &names);
    route_text_of(&segs)
}

/// The first-party module that a name designates, if any.
pub fn first_party_module(name: &str) -> (r: Option<FirstPartyModule>)
    ensures
        r == (if name@ == "sessions"@ {
            Some(FirstPartyModule::Sessions)
        } else if name@ == "auth"@ {
            Some(FirstPartyModule::Auth)
        } else if name@ == "file-uploads"@ {
            Some(FirstPartyModule::FileUploads)
        } else {
            None
        }),
{
    if str_equal(name, "sessions") {
        Some(FirstPartyModule::Sessions)
    } else if str_equal(name, "auth") {
        Some(FirstPartyModule::Auth)
    } else if str_equal(name, "file-uploads") {
        Some(FirstPartyModule::FileUploads)
    } else {
        None
    }
}

/// The message for an invalid model name.
pub open spec fn invalid_model_message(name: Seq<char>) -> Seq<char> {
    "invalid model name '"@ + name + "': must be PascalCase (e.g. Post, UserProfile)"@
}

/// The suggestion that names a corrected spelling.
pub open spec fn did_you_mean(corrected: Seq<char>) -> Seq<char> {
    "Did you mean '"@ + corrected + "'?"@
}

/// The message for an invalid module name.
pub open spec fn invalid_module_message(name: Seq<char>) -> Seq<char> {
    "invalid module name '"@ + name
        + "': must be lowercase alphanumeric with hyphens (e.g. auth, my-module)"@
}

/// Checks that a model name is PascalCase; the error (`E011`) suggests the
/// PascalCase spelling of the name.
pub fn validate_model_name(name: &str) -> (r: Result<(), RotivError>)
    ensures
        r is Ok <==> valid_model_name(name@),
        r matches Err(e) ==> {
            &&& e.code@ == "E011"@
            &&& e.message@ == invalid_model_message(name@)
            &&& e.expected matches Some(x) && x@ == "PascalCase name (e.g. Post)"@
            &&& e.got matches Some(g) && g@ == name@
            &&& e.suggestion matches Some(s) && s@ == did_you_mean(pascal_of(name@))
            &&& e.corrected_code matches Some(c) && c@ == pascal_of(name@)
            &&& e.file is None && e.line is None
        },
{
    let v = chars_of(name);
    let mut ok = v.len() > 0 && is_uppercase(v[0]);
    let mut i: usize = 0;
    while i < v.len()
        invariant
            v@ == name@,
            i <= v.len(),
            ok == (v@.len() > 0 && spec_is_uppercase(v@[0]) && forall|j: int| 0 <= j < i ==> spec_is_alphanumeric(#[trigger] v@[j])),
        decreases v.len() - i,
    {
        if !is_alphanumeric(v[i]) {
            ok = false;
        }
        i = i + 1;
    }
    if ok {
        return Ok(());
    }
    let corrected = to_pascal_case(name);
    let mut msg = copy_str("invalid model name '");
    msg.append(name);
    msg.append("': must be PascalCase (e.g. Post, UserProfile)");
    let mut hint = copy_str("Did you mean '");
    hint.append(corrected.as_str());
    hint.append("'?");
    let e = RotivError::new("E011", msg.as_str())
        .with_expected("PascalCase name (e.g. Post)", name)
        .with_suggestion(hint.as_str())
        .with_corrected_code(corrected.as_str());
    Err(e)
}

/// Checks that a module name is lowercase alphanumeric with hyphens; the
/// error (`E012`) suggests the kebab-case spelling of the name.
pub fn validate_module_name(name: &str) -> (r: Result<(), RotivError>)
    ensures
        r is Ok <==> valid_module_name(name@),
        r matches Err(e) ==> {
            &&& e.code@ == "E012"@
            &&& e.message@ == invalid_module_message(name@)
            &&& e.expected matches Some(x) && x@ == "lowercase-hyphen-name (e.g. auth, file-uploads)"@
            &&& e.got matches Some(g) && g@ == name@
            &&& e.suggestion matches Some(s) && s@ == did_you_mean(kebab_of(name@))
            &&& e.corrected_code matches Some(c) && c@ == kebab_of(name@)
            &&& e.file is None && e.line is None
        },
{
    let v = chars_of(name);
    let mut ok = v.len() > 0;
    let mut i: usize = 0;
    while i < v.len()
        invariant
            v@ == name@,
            i <= v.len(),
            ok == (v@.len() > 0 && forall|j: int| 0 <= j < i ==> {
                let c = #[trigger] v@[j];
                ('a' <= c && c <= 'z') || ('0' <= c && c <= '9') || c == '-'
            }),
        decreases v.len() - i,
    {
        let c = v[i];
        if !(('a' <= c && c <= 'z') || ('0' <= c && c <= '9') || c == '-') {
            ok = false;
        }
        i = i + 1;
    }
    if ok {
        return Ok(());
    }
    let corrected = to_kebab_case(name);
    let mut msg = copy_str("invalid module name '");
    msg.append(name);
    msg.append("': must be lowercase alphanumeric with hyphens (e.g. auth, my-module)");
    let mut hint = copy_str("Did you mean '");
    hint.append(corrected.as_str());
    hint.append("'?");
    let e = RotivError::new("E012", msg.as_str())
        .with_expected("lowercase-hyphen-name (e.g. auth, file-uploads)", name)
        .with_suggestion(hint.as_str())
        .with_corrected_code(corrected.as_str());
    Err(e)
}

/// The route file content: `{{route_path}}` and then `{{route_file_path}}`
/// replaced in the template.
pub fn render_route_template(template: &str, route_path: &str, slug: &str) -> (r: String)
    ensures
        r@ == replace_seq(
            replace_seq(template@, "{{route_path}}"@, route_path@),
            "{{route_file_path}}"@,
            slug@,
        ),
{
    proof {
        reveal_strlit("{{route_path}}");
        reveal_strlit("{{route_file_path}}");
    }
    let a = replace_all(template, "{{route_path}}", route_path);
    replace_all(a.as_str(), "{{route_file_path}}", slug)
}

/// The model file content: `{{model_name}}` and then `{{table_name}}` replaced.
pub fn render_model_template(template: &str, model_name: &str, table_name: &str) -> (r: String)
    ensures
        r@ == replace_seq(
            replace_seq(template@, "{{model_name}}"@, model_name@),
            "{{table_name}}"@,
            table_name@,
        ),
{
    proof {
        reveal_strlit("{{model_name}}");
        reveal_strlit("{{table_name}}");
    }
    let a = replace_all(template, "{{model_name}}", model_name);
    replace_all(a.as_str(), "{{table_name}}", table_name)
}

/// A module file content: `{{module_name}}` replaced.
pub fn render_module_template(template: &str, module_name: &str) -> (r: String)
    ensures
        r@ == replace_seq(template@, "{{module_name}}"@, module_name@),
{
    proof {
        reveal_strlit("{{module_name}}");
    }
    replace_all(template, "{{module_name}}", module_name)
}

/// The table name and the file name (below `app/models/`) of a model:
/// `UserProfile` → (`user_profiles`, `user_profile.ts`).
pub fn model_scaffold_names(name: &str) -> (r: (String, String))
    ensures
        r.0@ == plural_of(snake_of(name@)),
        r.1@ == snake_of(name@) + ".ts"@,
{
    let table = to_snake_plural(name);
    let mut file = to_snake(name);
    file.append(".ts");
    (table, file)
}


/// The error for a scaffold target that already exists (`E010`), naming the
/// file and how to proceed.
pub fn file_exists_error(path: &str, suggestion: &str) -> (r: RotivError)
    ensures
        r.code@ == "E010"@,
        r.message@ == "file already exists: "@ + path@,
        r.suggestion matches Some(s) && s@ == suggestion@,
        r.file is None && r.line is None && r.expected is None && r.got is None && r.corrected_code is None,
{
    let mut msg = copy_str("file already exists: ");
    msg.append(path);
    RotivError::new("E010", msg.as_str()).with_suggestion(suggestion)
}

/// The error for a module directory that already exists (`E010`).
pub fn module_exists_error(name: &str) -> (r: RotivError)
    ensures
        r.code@ == "E010"@,
        r.message@ == "module already exists: app/modules/"@ + name@,
        r.suggestion matches Some(s) && s@ == "Use a different name or delete the existing module directory first."@,
        r.file is None && r.line is None && r.expected is None && r.got is None && r.corrected_code is None,
{
    let mut msg = copy_str("module already exists: app/modules/");
    msg.append(name);
    RotivError::new("E010", msg.as_str()).with_suggestion("Use a different name or delete the existing module directory first.")
}

/// The import line suggested after adding a module.
pub fn module_import_hint(name: &str) -> (r: String)
    ensures
        r@ == "import { "@ + camel_of(name@) + "Middleware } from \"../modules/"@ + name@ + "/index.js\";"@,
{
    let mut s = copy_str("import { ");
    let c = to_camel(name);
    s.append(c.as_str());
    s.append("Middleware } from \"../modules/");
    s.append(name);
    s.append("/index.js\";");
    s
}

/// The version recorded for a module in the spec file: its manifest's
/// `version` when that is a string, else `0.1.0`.
pub fn module_version(manifest_version: Option<String>) -> (r: String)
    ensures
        r@ == match manifest_version {
            Some(v) => v@,
            None => "0.1.0"@,
        },
{
    match manifest_version {
        Some(v) => v,
        None => copy_str("0.1.0"),
    }
}

/// How the spec file's `modules` list changes when a module is added.
#[derive(Debug, Clone, Copy, PartialEq, Eq, Structural)]
pub enum ModulesUpdate {
    /// An entry with this name is present: leave the list as it is.
    Unchanged,
    /// Append an entry for the module.
    Append,
    /// `modules` is not a list: replace it with a list of the one entry.
    Replace,
}

/// Whether some entry is named `name`.
pub open spec fn lists_name(ns: Seq<Option<String>>, name: Seq<char>) -> bool {
    exists|i: int| 0 <= i < ns.len() && is_named(#[trigger] ns[i], name)
}

pub open spec fn is_named(n: Option<String>, name: Seq<char>) -> bool {
    n matches Some(x) && x@ == name
}

/// Decides the change to the spec file's `modules`: `names` holds the `name`
/// of each entry of the list (`None` where it is not a string), or is `None`
/// when `modules` is not a list.
pub fn modules_update(names: &Option<Vec<Option<String>>>, name: &str) -> (r: ModulesUpdate)
    ensures
        r == match names {
            None => ModulesUpdate::Replace,
            Some(ns) => if lists_name(ns@, name@) {
                ModulesUpdate::Unchanged
            } else {
                ModulesUpdate::Append
            },
        },
{
    match names {
        None => ModulesUpdate::Replace,
        Some(ns) => {
            let mut i: usize = 0;
            while i < ns.len()
                invariant
                    i <= ns.len(),
                    names matches Some(v) && v@ == ns@,
                    forall|j: int| 0 <= j < i ==> !is_named(#[trigger] ns@[j], name@),
                decreases ns.len() - i,
            {
                match &ns[i] {
                    Some(n) => {
                        if crate::text::str_equal(n.as_str(), name) {
                            assert(is_named(ns@[i as int], name@));
                            assert(lists_name(ns@, name@));
                            return ModulesUpdate::Unchanged;
                        }
                    },
                    None => {},
                }
                i = i + 1;
            }
            ModulesUpdate::Append
        },
    }
}


/// No two consecutive characters of `s` are both `/`.
pub open spec fn no_empty_segment(s: Seq<char>) -> bool {
    forall|i: int| 0 <= i < s.len() - 1 ==> !(#[trigger] s[i] == '/' && s[i + 1] == '/')
}

/// The route derived for a slug is rooted, has no empty segment and no
/// trailing slash (unless it is `/`), and the file derived for it is a `.tsx`
/// file.
pub proof fn lemma_derived_paths_shape(path: Seq<char>)
    ensures
        spec_derive_route_paths(path).0.len() > 0,
        spec_derive_route_paths(path).0[0] == '/',
        no_empty_segment(spec_derive_route_paths(path).0),
        spec_derive_route_paths(path).0.len() > 1 ==> spec_derive_route_paths(path).0.last() != '/',
        ends_with(spec_derive_route_paths(path).1, tsx_suffix()),
{
    let n = trim_start_char(path, '/');
    let pieces = split_char(trim_end_seq(n, tsx_suffix()), '/');
    lemma_split_pieces_lack(trim_end_seq(n, tsx_suffix()), '/');
    let segs = slug_segments(pieces);
    lemma_slug_segments_clean(pieces);
    let j = join_with(segs, seq!['/']);
    let route0 = seq!['/'] + j;
    if segs.len() == 0 {
        assert(route0 =~= seq!['/']);
    } else {
        lemma_join_last(segs, seq!['/']);
        lemma_join_clean(segs);
        assert(route0.last() == j.last());
        assert forall|i: int| 0 <= i < route0.len() - 1 implies !(#[trigger] route0[i] == '/' && route0[i + 1] == '/') by {
            if i == 0 {
                assert(route0[1] == j[0]);
            } else {
                assert(route0[i] == j[i - 1] && route0[i + 1] == j[i]);
            }
        }
        assert(route0 != seq!['/']) by {
            assert(route0.len() > 1);
        }
        lemma_trim_end_noop(route0, '/');
    }
    if !ends_with(n, tsx_suffix()) {
        let f = n + tsx_suffix();
        assert(f.subrange(f.len() - 4, f.len() as int) =~= tsx_suffix());
    }
}

proof fn lemma_trim_end_noop(s: Seq<char>, c: char)
    requires
        s.len() > 0,
        s.last() != c,
    ensures
        trim_end_char(s, c) == s,
{
}

/// The pieces of a split hold no delimiter.
proof fn lemma_split_pieces_lack(s: Seq<char>, d: char)
    ensures
        forall|i: int| 0 <= i < split_char(s, d).len() ==> !(#[trigger] split_char(s, d)[i]).contains(d),
    decreases s.len(),
{
    crate::text::lemma_split_nonempty(s, d);
    if s.len() > 0 {
        let prev = split_char(s.drop_last(), d);
        lemma_split_pieces_lack(s.drop_last(), d);
        crate::text::lemma_split_nonempty(s.drop_last(), d);
        if s.last() != d {
            let l = prev.last().push(s.last());
            assert forall|i: int| 0 <= i < split_char(s, d).len() implies !(#[trigger] split_char(s, d)[i]).contains(d) by {
                if i == prev.len() - 1 {
                    assert(split_char(s, d)[i] == l);
                    if l.contains(d) {
                        let k = choose|k: int| 0 <= k < l.len() && l[k] == d;
                        if k < l.len() - 1 {
                            assert(prev.last()[k] == d);
                            assert(prev[prev.len() - 1] == prev.last());
                        }
                    }
                } else {
                    assert(split_char(s, d)[i] == prev[i]);
                }
            }
        } else {
            assert forall|i: int| 0 <= i < split_char(s, d).len() implies !(#[trigger] split_char(s, d)[i]).contains(d) by {
                if i < prev.len() {
                    assert(split_char(s, d)[i] == prev[i]);
                } else {
                    assert(split_char(s, d)[i] == Seq::<char>::empty());
                }
            }
        }
    }
}

/// The route segments of slug pieces without `/` are non-empty and without `/`.
proof fn lemma_slug_segments_clean(ws: Seq<Seq<char>>)
    requires
        forall|i: int| 0 <= i < ws.len() ==> !(#[trigger] ws[i]).contains('/'),
    ensures
        forall|i: int| 0 <= i < slug_segments(ws).len() ==> {
            &&& (#[trigger] slug_segments(ws)[i]).len() > 0
            &&& !slug_segments(ws)[i].contains('/')
        },
    decreases ws.len(),
{
    if ws.len() > 0 {
        let d = ws.drop_last();
        assert forall|i: int| 0 <= i < d.len() implies !(#[trigger] d[i]).contains('/') by {
            assert(d[i] == ws[i]);
        }
        lemma_slug_segments_clean(d);
        let w = ws.last();
        assert(!ws[ws.len() - 1].contains('/'));
        let sg = slug_segment(w);
        assert(!sg.contains('/')) by {
            if w.len() > 0 && w[0] == '[' && w[w.len() - 1] == ']' {
                assert(sg == seq![':'] + w.subrange(1, w.len() - 1));
                if sg.contains('/') {
                    let k = choose|k: int| 0 <= k < sg.len() && sg[k] == '/';
                    assert(k > 0);
                    assert(w[k] == '/');
                }
            }
        }
        let prev = slug_segments(d);
        let cur = slug_segments(ws);
        assert forall|i: int| 0 <= i < cur.len() implies {
            &&& (#[trigger] cur[i]).len() > 0
            &&& !cur[i].contains('/')
        } by {
            if i < prev.len() {
                assert(cur[i] == prev[i]);
            } else {
                assert(cur[i] == sg);
            }
        }
    }
}

/// Joining non-empty parts without `/` by `/` gives a text that neither
/// starts nor ends with `/` and has no empty segment.
proof fn lemma_join_clean(parts: Seq<Seq<char>>)
    requires
        forall|i: int| 0 <= i < parts.len() ==> (#[trigger] parts[i]).len() > 0 && !parts[i].contains('/'),
    ensures
        parts.len() > 0 ==> join_with(parts, seq!['/']).len() > 0,
        parts.len() > 0 ==> join_with(parts, seq!['/'])[0] != '/',
        parts.len() > 0 ==> join_with(parts, seq!['/']).last() != '/',
        no_empty_segment(join_with(parts, seq!['/'])),
    decreases parts.len(),
{
    let j = join_with(parts, seq!['/']);
    if parts.len() == 1 {
        let p = parts[0];
        assert(j == p);
        assert forall|k: int| 0 <= k < p.len() implies p[k] != '/' by {
            if p[k] == '/' {
                assert(p.contains('/'));
            }
        }
    } else if parts.len() > 1 {
        let d = parts.drop_last();
        assert forall|i: int| 0 <= i < d.len() implies (#[trigger] d[i]).len() > 0 && !d[i].contains('/') by {
            assert(d[i] == parts[i]);
        }
        lemma_join_clean(d);
        let a = join_with(d, seq!['/']);
        let b = parts.last();
        assert(parts[parts.len() - 1] == b);
        assert(j == a + seq!['/'] + b);
        assert forall|k: int| 0 <= k < b.len() implies b[k] != '/' by {
            if b[k] == '/' {
                assert(b.contains('/'));
            }
        }
        assert(j[0] == a[0]);
        assert(j.last() == b.last());
        assert forall|i: int| 0 <= i < j.len() - 1 implies !(#[trigger] j[i] == '/' && j[i + 1] == '/') by {
            if i < a.len() - 1 {
                assert(j[i] == a[i] && j[i + 1] == a[i + 1]);
            } else if i == a.len() - 1 {
                assert(j[i] == a.last());
            } else if i == a.len() {
                assert(j[i + 1] == b[0]);
            } else {
                assert(j[i] == b[i - a.len() - 1]);
            }
        }
    }
}

/// A slug with a leading `/` derives the same route and file as without it.
pub proof fn lemma_leading_slash_ignored(path: Seq<char>)
    ensures
        spec_derive_route_paths(seq!['/'] + path) == spec_derive_route_paths(path),
{
    assert((seq!['/'] + path).drop_first() =~= path);
    assert(trim_start_char(seq!['/'] + path, '/') == trim_start_char(path, '/'));
}

proof fn lemma_without_index_layout(ws: Seq<Seq<char>>)
    requires
        !ws.contains(layout_name()),
    ensures
        without_names(ws, seq![index_name()]) == without_names(ws, seq![index_name(), layout_name()]),
    decreases ws.len(),
{
    if ws.len() > 0 {
        let d = ws.drop_last();
        if d.contains(layout_name()) {
            let k = choose|k: int| 0 <= k < d.len() && d[k] == layout_name();
            assert(ws[k] == d[k]);
        }
        lemma_without_index_layout(d);
        let x = ws.last();
        assert(ws[ws.len() - 1] == x);
        assert(x != layout_name());
        assert(seq![index_name()].contains(x) == seq![index_name(), layout_name()].contains(x)) by {
            if seq![index_name(), layout_name()].contains(x) {
                let k = choose|k: int| 0 <= k < 2 && seq![index_name(), layout_name()][k] == x;
                assert(k == 0);
                assert(seq![index_name()][0] == x);
            }
            if seq![index_name()].contains(x) {
                assert(seq![index_name(), layout_name()][0] == x);
            }
        }
    }
}

/// The route path `rotiv add` reports for a route file agrees with the one
/// `rotiv spec-sync` records for the file's path `rel` below the routes
/// directory, when no segment of that path (extension dropped) is `layout`.
pub proof fn lemma_added_route_matches_spec_sync(file: Seq<char>, routes_dir: Seq<char>, rel: Seq<char>)
    requires
        relative_components(routes_dir, file) == components(rel),
        !without_extension(components(rel)).contains(layout_name()),
    ensures
        spec_route_file_to_path(file, routes_dir) == spec_sync_route_path(rel),
{
    lemma_without_index_layout(without_extension(components(rel)));
}

/// The last character of a join is that of its last part, when that part is non-empty.
proof fn lemma_join_last(parts: Seq<Seq<char>>, sep: Seq<char>)
    requires
        parts.len() > 0,
        parts.last().len() > 0,
    ensures
        join_with(parts, sep).len() > 0,
        join_with(parts, sep).last() == parts.last().last(),
{
}

/// The version of a module whose `module.json` text is `manifest`: its
/// `version` when that is a string, else `0.1.0`.
pub open spec fn manifest_version_text(manifest: Seq<char>) -> Seq<char> {
    match spec_json_string_at(manifest, "/version"@) {
        Some(Some(v)) => v,
        _ => "0.1.0"@,
    }
}

/// The version recorded for a module whose `module.json` text is `manifest`.
pub fn manifest_version_of(manifest: &str) -> (r: String)
    ensures
        r@ == manifest_version_text(manifest@),
{
    let v = match json_string_at(manifest, "/version") {
        Some(v) => v,
        None => None,
    };
    module_version(v)
}

/// The entry recorded in the spec file for module `name` at `version`.
pub open spec fn module_entry_text(name: Seq<char>, version: Seq<char>) -> Seq<char> {
    "{\"name\":"@ + spec_json_string_literal(name) + ",\"version\":"@ + spec_json_string_literal(version) + "}"@
}

/// Whether one of the names is `name`.
pub open spec fn names_include(ns: Seq<Option<Seq<char>>>, name: Seq<char>) -> bool {
    exists|i: int| 0 <= i < ns.len() && ns[i] == Some(name)
}

/// The spec file whose text is `raw` after adding module `name` at
/// `version`: starting from `base_spec`, its `modules` list is kept when an
/// entry has that name, gets the entry appended when it is a list, and is
/// replaced by a list of the one entry otherwise; then pretty-printed.
/// `None` where `serde_json` gives nothing.
pub open spec fn spec_with_module_text(raw: Seq<char>, name: Seq<char>, version: Seq<char>) -> Option<Seq<char>> {
    let base = base_spec(Some(raw));
    let entry = module_entry_text(name, version);
    match spec_json_field_strings(base, "modules"@, "name"@) {
        None => None,
        Some(None) => spec_json_with_field(base, "modules"@, array_text(seq![entry])),
        Some(Some(ns)) => if names_include(ns, name) {
            spec_json_pretty(base)
        } else {
            spec_json_with_pushed(base, "modules"@, entry)
        },
    }
}

/// The new text of the spec file `raw` after adding module `name` at `version`.
pub fn spec_with_module(raw: &str, name: &str, version: &str) -> (r: Option<String>)
    ensures
        opt_str_view(r) == spec_with_module_text(raw@, name@, version@),
{
    let base = base_spec_text(Some(raw));
    let mut entry = copy_str("{\"name\":");
    entry.append(json_string_literal(name).as_str());
    entry.append(",\"version\":");
    entry.append(json_string_literal(version).as_str());
    entry.append("}");
    assert(entry@ =~= module_entry_text(name@, version@));
    let names = match json_field_strings(base.as_str(), "modules", "name") {
        Some(n) => n,
        None => return None,
    };
    proof {
        if names is Some {
            let ns = names->Some_0@;
            let v = opt_strs_view(ns);
            if lists_name(ns, name@) {
                let i = choose|i: int| 0 <= i < ns.len() && is_named(#[trigger] ns[i], name@);
                assert(v[i] == Some(name@));
            }
            if names_include(v, name@) {
                let i = choose|i: int| 0 <= i < v.len() && v[i] == Some(name@);
                assert(is_named(ns[i], name@));
            }
        }
    }
    match modules_update(&names, name) {
        ModulesUpdate::Unchanged => json_pretty(base.as_str()),
        ModulesUpdate::Append => json_with_pushed(base.as_str(), "modules", entry.as_str()),
        ModulesUpdate::Replace => {
            let items: Vec<String> = vec![entry];
            let list = json_array(&items);
            proof {
                assert(str_views(items@) =~= seq![module_entry_text(name@, version@)]);
            }
            json_with_field(base.as_str(), "modules", list.as_str())
        },
    }
}

} // verus!
