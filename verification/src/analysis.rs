//! Static analysis of a project's route, model and module files against the
//! framework's rules (diagnostics `V001` to `V010`).

use vstd::prelude::*;
use crate::error::RotivError;
use crate::json::{json_top_keys, spec_json_top_keys};
use crate::paths::{extension, file_name};
use crate::text::{
    chars_of, contains_at, contains_chars, contains_seq, copy_str, join_with, lines, lines_of, push_all,
    replace_char, starts_with, starts_with_chars, str_views, string_from, trim_ws, trim_ws_chars,
    views,
};

verus! {

broadcast use vstd::seq_lib::group_seq_properties;

/// How serious a finding is.
#[derive(Debug, Clone, Copy, PartialEq, Eq, Structural)]
pub enum DiagnosticSeverity {
    Error,
    Warning,
}

/// A single static-analysis finding.
#[derive(Debug)]
pub struct Diagnostic {
    /// Diagnostic code, e.g. `V001`.
    pub code: String,
    pub severity: DiagnosticSeverity,
    /// Path of the file, relative to the project, with `/` separators.
    pub file: String,
    /// 1-based line number, if applicable.
    pub line: Option<u32>,
    pub message: String,
    pub suggestion: String,
    /// Replacement content for auto-fixable issues; `None` if not fixable.
    pub auto_fix: Option<String>,
}

/// The plain contents of a diagnostic.
pub struct DiagnosticSpec {
    pub code: Seq<char>,
    pub severity: DiagnosticSeverity,
    pub file: Seq<char>,
    pub line: Option<nat>,
    pub message: Seq<char>,
    pub suggestion: Seq<char>,
    pub auto_fix: Option<Seq<char>>,
}

pub open spec fn opt_view(o: Option<String>) -> Option<Seq<char>> {
    match o {
        Some(s) => Some(s@),
        None => None,
    }
}

impl View for Diagnostic {
    type V = DiagnosticSpec;

    open spec fn view(&self) -> DiagnosticSpec {
        DiagnosticSpec {
            code: self.code@,
            severity: self.severity,
            file: self.file@,
            line: match self.line {
                Some(l) => Some(l as nat),
                None => None,
            },
            message: self.message@,
            suggestion: self.suggestion@,
            auto_fix: opt_view(self.auto_fix),
        }
    }
}

/// The plain contents of a sequence of diagnostics.
pub open spec fn diag_views(s: Seq<Diagnostic>) -> Seq<DiagnosticSpec> {
    s.map_values(|d: Diagnostic| d@)
}

impl Clone for Diagnostic {
    fn clone(&self) -> (r: Self)
        ensures
            r@ == self@,
    {
        Diagnostic {
            code: self.code.clone(),
            severity: self.severity,
            file: self.file.clone(),
            line: self.line,
            message: self.message.clone(),
            suggestion: self.suggestion.clone(),
            auto_fix: crate::error::copy_opt(&self.auto_fix),
        }
    }
}

pub open spec fn diag(
    code: Seq<char>,
    severity: DiagnosticSeverity,
    file: Seq<char>,
    line: Option<nat>,
    message: Seq<char>,
    suggestion: Seq<char>,
    auto_fix: Option<Seq<char>>,
) -> DiagnosticSpec {
    DiagnosticSpec { code, severity, file, line, message, suggestion, auto_fix }
}

/// The 1-based number of the first of `ls[i..]` that contains `needle`.
pub open spec fn line_index_from(ls: Seq<Seq<char>>, needle: Seq<char>, i: int) -> Option<nat>
    decreases ls.len() - i,
{
    if i < 0 || i >= ls.len() {
        None
    } else if contains_seq(ls[i], needle) {
        Some((i + 1) as nat)
    } else {
        line_index_from(ls, needle, i + 1)
    }
}

/// The 1-based number of the first line of `content` containing `needle`.
pub open spec fn spec_find_line(content: Seq<char>, needle: Seq<char>) -> Option<nat> {
    line_index_from(lines(content), needle, 0)
}

/// Whether a line, trimmed, is a `//` comment.
pub open spec fn is_comment(l: Seq<char>) -> bool {
    starts_with(trim_ws(l), "//"@)
}

/// Whether some line that is not a comment mentions `ctx.db`.
pub open spec fn uses_ctx_db(ls: Seq<Seq<char>>) -> bool {
    exists|i: int| 0 <= i < ls.len() && !is_comment(ls[i]) && contains_seq(trim_ws(#[trigger] ls[i]), "ctx.db"@)
}

/// Whether a line, trimmed, is a `path:` entry written with brackets.
pub open spec fn is_bracket_path_line(l: Seq<char>) -> bool {
    starts_with(trim_ws(l), "path:"@) && trim_ws(l).contains('[')
}

pub open spec fn v001(file: Seq<char>, content: Seq<char>) -> DiagnosticSpec {
    diag(
        "V001"@,
        DiagnosticSeverity::Error,
        file,
        None,
        "Route file missing `export default defineRoute(...)`"@,
        "The default export must be `defineRoute({ path, loader?, action?, component? })`"@,
        Some(v001_fix(content)),
    )
}

/// The replacement content the `V001` fix writes: the file's trimmed content
/// wrapped in `export default defineRoute({ ... })`.
pub open spec fn v001_fix(content: Seq<char>) -> Seq<char> {
    "export default defineRoute({\n"@ + trim_ws(content) + "}\n)"@
}

pub open spec fn v005(file: Seq<char>, line: Option<nat>) -> DiagnosticSpec {
    diag(
        "V005"@,
        DiagnosticSeverity::Error,
        file,
        line,
        "Route has `export default { ... }` instead of `defineRoute({ ... })`"@,
        "Wrap the object in `defineRoute()`: `export default defineRoute({ path: \"...\", ... })`"@,
        None,
    )
}

pub open spec fn v002(file: Seq<char>, line: Option<nat>) -> DiagnosticSpec {
    diag(
        "V002"@,
        DiagnosticSeverity::Warning,
        file,
        line,
        "`defineRoute()` call is missing a `component` field"@,
        "Add a `component({ data }) { return <JSX />; }` field to defineRoute()"@,
        None,
    )
}

pub open spec fn v006(file: Seq<char>, line: Option<nat>) -> DiagnosticSpec {
    diag(
        "V006"@,
        DiagnosticSeverity::Warning,
        file,
        line,
        "Route loader uses `ctx.db` but has no model import"@,
        "Import your model: `import { users } from \"../models/user.js\"`"@,
        None,
    )
}

pub open spec fn v007(file: Seq<char>, line: nat) -> DiagnosticSpec {
    diag(
        "V007"@,
        DiagnosticSeverity::Error,
        file,
        Some(line),
        "Route path uses `[param]` bracket notation; should use `:param`"@,
        "Change `path: \"/users/[id]\"` to `path: \"/users/:id\"`"@,
        None,
    )
}

/// One `V007` finding for each bracketed `path:` line of `ls[i..]`.
pub open spec fn v007_from(ls: Seq<Seq<char>>, file: Seq<char>, i: int) -> Seq<DiagnosticSpec>
    decreases ls.len() - i,
{
    if i < 0 || i >= ls.len() {
        Seq::empty()
    } else {
        (if is_bracket_path_line(ls[i]) {
            seq![v007(file, (i + 1) as nat)]
        } else {
            Seq::empty()
        }) + v007_from(ls, file, i + 1)
    }
}

/// The findings for a route file: `rel` is its path relative to the project,
/// `name` its file name.
pub open spec fn route_file_diagnostics(rel: Seq<char>, name: Seq<char>, content: Seq<char>) -> Seq<DiagnosticSpec> {
    let file = replace_char(rel, '\\', '/');
    let ls = lines(content);
    let export = if !contains_seq(content, "export default defineRoute"@) {
        if contains_seq(content, "export default {"@) {
            seq![v005(file, spec_find_line(content, "export default {"@))]
        } else {
            seq![v001(file, content)]
        }
    } else {
        Seq::empty()
    };
    let component = if contains_seq(content, "defineRoute("@) && !contains_seq(content, "component("@)
        && !contains_seq(content, "component:"@) {
        seq![v002(file, spec_find_line(content, "defineRoute("@))]
    } else {
        Seq::empty()
    };
    let db = if uses_ctx_db(ls) && !contains_seq(content, "/models/"@) {
        seq![v006(file, spec_find_line(content, "ctx.db"@))]
    } else {
        Seq::empty()
    };
    let brackets = if name.contains('[') {
        v007_from(ls, file, 0)
    } else {
        Seq::empty()
    };
    export + component + db + brackets
}

/// The findings for a model file.
pub open spec fn model_file_diagnostics(rel: Seq<char>, content: Seq<char>) -> Seq<DiagnosticSpec> {
    let file = replace_char(rel, '\\', '/');
    (if !contains_seq(content, "sqliteTable("@) && !contains_seq(content, "pgTable("@) {
        seq![diag(
            "V003"@,
            DiagnosticSeverity::Error,
            file,
            None,
            "Model file missing a raw table export (`sqliteTable()` or `pgTable()`)"@,
            "Export a raw Drizzle table: `export const users = sqliteTable(\"users\", { ... })`\ndrizzle-kit requires this for migration generation."@,
            None,
        )]
    } else {
        Seq::empty()
    }) + (if !contains_seq(content, "defineModel("@) {
        seq![diag(
            "V004"@,
            DiagnosticSeverity::Error,
            file,
            None,
            "Model file missing `defineModel()` call"@,
            "Add: `export const UserModel = defineModel(\"User\", users)`\nThis registers the model in Rotiv's runtime registry."@,
            None,
        )]
    } else {
        Seq::empty()
    })
}

/// What was found of a module's `module.json`.
#[derive(Debug)]
pub enum ManifestState {
    /// There is no `module.json`.
    Missing,
    /// It exists but could not be read.
    Unreadable,
    /// It is not valid JSON; the parser's message.
    Invalid(String),
    /// It is valid JSON: the top-level keys when it is an object, `None` otherwise.
    Parsed(Option<Vec<String>>),
}

/// A manifest state by its view: as `spec_json_top_keys` gives a parsed
/// text's outcome.
pub open spec fn manifest_view(m: ManifestState) -> Result<Option<Seq<Seq<char>>>, Seq<char>> {
    match m {
        ManifestState::Invalid(e) => Err(e@),
        ManifestState::Parsed(k) => Ok(keys_view(k)),
        _ => Err(Seq::empty()),
    }
}

/// What was found of a `module.json` whose text is `text`: `None` when there
/// is no such file, `Some(None)` when it could not be read; a text read is
/// parsed as JSON.
pub fn manifest_state(text: Option<Option<&str>>) -> (r: ManifestState)
    ensures
        text is None ==> r is Missing,
        text == Some(None::<&str>) ==> r is Unreadable,
        text matches Some(Some(t)) ==> (r is Invalid || r is Parsed) && manifest_view(r) == spec_json_top_keys(t@),
{
    match text {
        None => ManifestState::Missing,
        Some(None) => ManifestState::Unreadable,
        Some(Some(t)) => match json_top_keys(t) {
            Ok(keys) => ManifestState::Parsed(keys),
            Err(e) => ManifestState::Invalid(e),
        },
    }
}

/// A directory below `app/modules/`.
#[derive(Debug)]
pub struct ModuleDir {
    /// The directory's name, if it is valid UTF-8.
    pub name: Option<String>,
    pub manifest: ManifestState,
    /// Whether `index.ts` exists in it.
    pub has_entry: bool,
}

pub open spec fn module_dir_name(name: Option<String>) -> Seq<char> {
    match name {
        Some(n) => n@,
        None => "unknown"@,
    }
}

pub open spec fn required_fields() -> Seq<Seq<char>> {
    seq!["name"@, "version"@, "provides"@]
}

/// The required fields absent from the top-level keys (all of them when the
/// document is not an object), in the order name, version, provides.
pub open spec fn missing_fields(keys: Option<Seq<Seq<char>>>) -> Seq<Seq<char>> {
    required_fields().filter(|f: Seq<char>| match keys {
        Some(k) => !k.contains(f),
        None => true,
    })
}

pub open spec fn keys_view(keys: Option<Vec<String>>) -> Option<Seq<Seq<char>>> {
    match keys {
        Some(k) => Some(str_views(k@)),
        None => None,
    }
}

/// The findings for a module directory.
pub open spec fn module_dir_diagnostics(name: Seq<char>, manifest: ManifestState, has_entry: bool) -> Seq<DiagnosticSpec> {
    let dir = "app/modules/"@ + name;
    let manifest_file = dir + "/module.json"@;
    match manifest {
        ManifestState::Missing => seq![diag(
            "V008"@,
            DiagnosticSeverity::Error,
            manifest_file,
            None,
            "Module '"@ + name + "' is missing module.json manifest"@,
            "Run `rotiv add module <name>` to scaffold a module with the correct structure."@,
            None,
        )],
        ManifestState::Unreadable => Seq::empty(),
        ManifestState::Invalid(e) => seq![diag(
            "V009"@,
            DiagnosticSeverity::Error,
            manifest_file,
            None,
            "module.json in '"@ + name + "' is not valid JSON: "@ + e@,
            "Fix the JSON syntax in module.json."@,
            None,
        )],
        ManifestState::Parsed(keys) => {
            let missing = missing_fields(keys_view(keys));
            (if missing.len() > 0 {
                seq![diag(
                    "V009"@,
                    DiagnosticSeverity::Error,
                    manifest_file,
                    None,
                    "module.json in '"@ + name + "' is missing required fields: "@ + join_with(missing, ", "@),
                    "Add the missing fields to module.json. Required: name, version, provides."@,
                    None,
                )]
            } else {
                Seq::empty()
            }) + (if !has_entry {
                seq![diag(
                    "V010"@,
                    DiagnosticSeverity::Error,
                    dir + "/index.ts"@,
                    None,
                    "Module '"@ + name + "' is missing its entry file index.ts"@,
                    "Run `rotiv add module <name>` to scaffold a proper module structure with index.ts."@,
                    None,
                )]
            } else {
                Seq::empty()
            })
        },
    }
}

/// Builds a diagnostic.
fn make_diag(
    code: &str,
    severity: DiagnosticSeverity,
    file: &Vec<char>,
    line: Option<u32>,
    message: String,
    suggestion: &str,
    auto_fix: Option<String>,
) -> (r: Diagnostic)
    ensures
        r@ == diag(
            code@,
            severity,
            file@,
            match line {
                Some(l) => Some(l as nat),
                None => None,
            },
            message@,
            suggestion@,
            opt_view(auto_fix),
        ),
{
    Diagnostic {
        code: copy_str(code),
        severity,
        file: string_from(file),
        line,
        message,
        suggestion: copy_str(suggestion),
        auto_fix,
    }
}

/// Whether `v` contains the text `s`.
fn mentions(v: &Vec<char>, s: &str) -> (r: bool)
    ensures
        r == contains_seq(v@, s@),
{
    let w = chars_of(s);
    contains_chars(v, &w)
}

fn line_number(l: Option<usize>) -> (r: Option<u32>)
    requires
        l matches Some(k) ==> k <= u32::MAX,
    ensures
        r == match l {
            Some(k) => Some(k as u32),
            None => None::<u32>,
        },
{
    match l {
        Some(k) => Some(k as u32),
        None => None,
    }
}

/// The 1-based number of the first of the lines `ls` that contains `needle`.
fn first_line_with(ls: &Vec<Vec<char>>, needle: &Vec<char>) -> (r: Option<usize>)
    ensures
        r matches Some(k) ==> k <= ls.len(),
        match r {
            Some(k) => Some(k as nat),
            None => None,
        } == line_index_from(views(ls@), needle@, 0),
{
    let ghost lv = views(ls@);
    let mut i: usize = 0;
    while i < ls.len()
        invariant
            lv == views(ls@),
            i <= ls.len(),
            line_index_from(lv, needle@, 0) == line_index_from(lv, needle@, i as int),
        decreases ls.len() - i,
    {
        assert(lv[i as int] == ls@[i as int]@);
        if contains_chars(&ls[i], needle) {
            return Some(i + 1);
        }
        i = i + 1;
    }
    None
}

/// Returns the 1-based line number of the first line of `content` containing
/// `needle`.
pub fn find_line(content: &str, needle: &str) -> (r: Option<u32>)
    requires
        lines(content@).len() < u32::MAX,
    ensures
        match r {
            Some(k) => Some(k as nat),
            None => None,
        } == spec_find_line(content@, needle@),
{
    let v = chars_of(content);
    let ls = lines_of(&v);
    let w = chars_of(needle);
    let k = first_line_with(&ls, &w);
    line_number(k)
}

fn find_line_in(ls: &Vec<Vec<char>>, needle: &str) -> (r: Option<u32>)
    requires
        ls.len() < u32::MAX,
    ensures
        match r {
            Some(k) => Some(k as nat),
            None => None,
        } == line_index_from(views(ls@), needle@, 0),
{
    let w = chars_of(needle);
    let k = first_line_with(ls, &w);
    line_number(k)
}

/// Whether some non-comment line mentions `ctx.db`.
fn any_ctx_db(ls: &Vec<Vec<char>>) -> (r: bool)
    ensures
        r == uses_ctx_db(views(ls@)),
{
    let ghost lv = views(ls@);
    let slashes = chars_of("//");
    let db = chars_of("ctx.db");
    let mut i: usize = 0;
    while i < ls.len()
        invariant
            lv == views(ls@),
            slashes@ == "//"@,
            db@ == "ctx.db"@,
            i <= ls.len(),
            forall|k: int| 0 <= k < i ==> !(!is_comment(lv[k]) && contains_seq(trim_ws(#[trigger] lv[k]), "ctx.db"@)),
        decreases ls.len() - i,
    {
        assert(lv[i as int] == ls@[i as int]@);
        let t = trim_ws_chars(&ls[i]);
        if !starts_with_chars(&t, &slashes) && contains_chars(&t, &db) {
            return true;
        }
        i = i + 1;
    }
    false
}

/// The `V007` findings of the lines `ls[i..]`, appended to `out`.
fn push_bracket_paths(ls: &Vec<Vec<char>>, file: &Vec<char>, out: &mut Vec<Diagnostic>)
    requires
        ls.len() < u32::MAX,
    ensures
        diag_views(final(out)@) == diag_views(old(out)@) + v007_from(views(ls@), file@, 0),
{
    let ghost lv = views(ls@);
    let path_key = chars_of("path:");
    let mut i: usize = 0;
    while i < ls.len()
        invariant
            lv == views(ls@),
            ls.len() < u32::MAX,
            path_key@ == "path:"@,
            i <= ls.len(),
            diag_views(old(out)@) + v007_from(lv, file@, 0) == diag_views(out@) + v007_from(lv, file@, i as int),
        decreases ls.len() - i,
    {
        assert(lv[i as int] == ls@[i as int]@);
        let t = trim_ws_chars(&ls[i]);
        let ghost prev = diag_views(out@);
        if starts_with_chars(&t, &path_key) && crate::text::contains_char(&t, '[') {
            let line: u32 = (i + 1) as u32;
            let d = make_diag(
                "V007",
                DiagnosticSeverity::Error,
                file,
                Some(line),
                copy_str("Route path uses `[param]` bracket notation; should use `:param`"),
                "Change `path: \"/users/[id]\"` to `path: \"/users/:id\"`",
                None,
            );
            out.push(d);
            assert(diag_views(out@) =~= prev.push(v007(file@, (i + 1) as nat)));
            assert(prev + v007_from(lv, file@, i as int) =~= diag_views(out@) + v007_from(lv, file@, i + 1));
        } else {
            assert(v007_from(lv, file@, i as int) =~= v007_from(lv, file@, i + 1));
        }
        i = i + 1;
    }
    assert(v007_from(lv, file@, i as int) =~= Seq::<DiagnosticSpec>::empty());
}

/// Runs the route-file checks (`V001`, `V002`, `V005`, `V006`, `V007`) on a
/// route file, given its path relative to the project and its content.
pub fn check_route_file(rel: &str, content: &str) -> (r: Vec<Diagnostic>)
    requires
        lines(content@).len() < u32::MAX,
    ensures
        diag_views(r@) == route_file_diagnostics(
            rel@,
            match file_name(rel@) {
                Some(n) => n,
                None => Seq::empty(),
            },
            content@,
        ),
{
    let rv = chars_of(rel);
    let file = crate::text::replace_char_chars(&rv, '\\', '/');
    let name: Vec<char> = match crate::paths::file_name_chars(&rv) {
        Some(n) => n,
        None => Vec::new(),
    };
    let c = chars_of(content);
    let ls = lines_of(&c);
    let mut out: Vec<Diagnostic> = Vec::new();
    let ghost name_v = name@;
    let ghost spec_all = route_file_diagnostics(rel@, name_v, content@);

    if !mentions(&c, "export default defineRoute") {
        if mentions(&c, "export default {") {
            let line = find_line_in(&ls, "export default {");
            out.push(make_diag(
                "V005",
                DiagnosticSeverity::Error,
                &file,
                line,
                copy_str("Route has `export default { ... }` instead of `defineRoute({ ... })`"),
                "Wrap the object in `defineRoute()`: `export default defineRoute({ path: \"...\", ... })`",
                None,
            ));
        } else {
            let mut fix = chars_of("export default defineRoute({\n");
            let body = trim_ws_chars(&c);
            push_all(&mut fix, &body);
            let tail = chars_of("}\n)");
            push_all(&mut fix, &tail);
            out.push(make_diag(
                "V001",
                DiagnosticSeverity::Error,
                &file,
                None,
                copy_str("Route file missing `export default defineRoute(...)`"),
                "The default export must be `defineRoute({ path, loader?, action?, component? })`",
                Some(string_from(&fix)),
            ));
        }
    }
    let ghost after_export = diag_views(out@);
    if mentions(&c, "defineRoute(") && !mentions(&c, "component(") && !mentions(&c, "component:") {
        let line = find_line_in(&ls, "defineRoute(");
        out.push(make_diag(
            "V002",
            DiagnosticSeverity::Warning,
            &file,
            line,
            copy_str("`defineRoute()` call is missing a `component` field"),
            "Add a `component({ data }) { return <JSX />; }` field to defineRoute()",
            None,
        ));
    }
    let ghost after_component = diag_views(out@);
    if any_ctx_db(&ls) && !mentions(&c, "/models/") {
        let line = find_line_in(&ls, "ctx.db");
        out.push(make_diag(
            "V006",
            DiagnosticSeverity::Warning,
            &file,
            line,
            copy_str("Route loader uses `ctx.db` but has no model import"),
            "Import your model: `import { users } from \"../models/user.js\"`",
            None,
        ));
    }
    let ghost after_db = diag_views(out@);
    if crate::text::contains_char(&name, '[') {
        push_bracket_paths(&ls, &file, &mut out);
    }
    proof {
        let ls_v = lines(content@);
        assert(views(ls@) == ls_v);
        let f = replace_char(rel@, '\\', '/');
        assert(file@ == f);
        let export = if !contains_seq(content@, "export default defineRoute"@) {
            if contains_seq(content@, "export default {"@) {
                seq![v005(f, spec_find_line(content@, "export default {"@))]
            } else {
                seq![v001(f, content@)]
            }
        } else {
            Seq::<DiagnosticSpec>::empty()
        };
        assert(after_export =~= export);
    }
    out
}


/// Runs the model-file checks (`V003`, `V004`) on a model file, given its
/// path relative to the project and its content.
pub fn check_model_file(rel: &str, content: &str) -> (r: Vec<Diagnostic>)
    ensures
        diag_views(r@) == model_file_diagnostics(rel@, content@),
{
    let rv = chars_of(rel);
    let file = crate::text::replace_char_chars(&rv, '\\', '/');
    let c = chars_of(content);
    let mut out: Vec<Diagnostic> = Vec::new();
    if !mentions(&c, "sqliteTable(") && !mentions(&c, "pgTable(") {
        out.push(make_diag(
            "V003",
            DiagnosticSeverity::Error,
            &file,
            None,
            copy_str("Model file missing a raw table export (`sqliteTable()` or `pgTable()`)"),
            "Export a raw Drizzle table: `export const users = sqliteTable(\"users\", { ... })`\ndrizzle-kit requires this for migration generation.",
            None,
        ));
    }
    let ghost first = diag_views(out@);
    if !mentions(&c, "defineModel(") {
        out.push(make_diag(
            "V004",
            DiagnosticSeverity::Error,
            &file,
            None,
            copy_str("Model file missing `defineModel()` call"),
            "Add: `export const UserModel = defineModel(\"User\", users)`\nThis registers the model in Rotiv's runtime registry.",
            None,
        ));
    }
    assert(diag_views(out@) =~= model_file_diagnostics(rel@, content@));
    out
}

/// Concatenates two strings.
fn concat(a: &str, b: &str) -> (r: String)
    ensures
        r@ == a@ + b@,
{
    let mut s = copy_str(a);
    s.append(b);
    s
}

/// The required fields absent from `keys`, in the order name, version, provides.
fn missing_required(keys: &Option<Vec<String>>) -> (r: Vec<String>)
    ensures
        str_views(r@) == missing_fields(keys_view(*keys)),
{
    let mut out: Vec<String> = Vec::new();
    let fields = ["name", "version", "provides"];
    let ghost req = required_fields();
    let ghost kv = keys_view(*keys);
    let ghost pred = |f: Seq<char>| match kv {
        Some(k) => !k.contains(f),
        None => true,
    };
    let mut i: usize = 0;
    while i < 3
        invariant
            i <= 3,
            fields@.len() == 3,
            fields@[0]@ == "name"@,
            fields@[1]@ == "version"@,
            fields@[2]@ == "provides"@,
            req == required_fields(),
            kv == keys_view(*keys),
            pred == (|f: Seq<char>| match kv {
                Some(k) => !k.contains(f),
                None => true,
            }),
            str_views(out@) == req.subrange(0, i as int).filter(pred),
        decreases 3 - i,
    {
        let f = fields[i];
        assert(f@ == req[i as int]);
        let present = match keys {
            Some(ks) => {
                let mut found = false;
                let mut j: usize = 0;
                while j < ks.len()
                    invariant
                        j <= ks.len(),
                        found == exists|t: int| 0 <= t < j && ks@[t]@ == f@,
                    decreases ks.len() - j,
                {
                    if crate::text::str_equal(ks[j].as_str(), f) {
                        found = true;
                    }
                    j = j + 1;
                }
                proof {
                    let kk = str_views(ks@);
                    if found {
                        let t = choose|t: int| 0 <= t < j && ks@[t]@ == f@;
                        assert(kk[t] == f@);
                    } else {
                        assert forall|t: int| 0 <= t < kk.len() implies kk[t] != f@ by {
                            assert(kk[t] == ks@[t]@);
                        }
                    }
                }
                found
            },
            None => false,
        };
        let ghost prev = str_views(out@);
        assert(req.subrange(0, i + 1) =~= req.subrange(0, i as int).push(req[i as int]));
        proof {
            req.subrange(0, i as int).lemma_filter_push(req[i as int], pred);
        }
        if !present {
            out.push(copy_str(f));
            assert(str_views(out@) =~= prev.push(f@));
        }
        i = i + 1;
    }
    assert(req.subrange(0, 3) =~= req);
    out
}

/// Runs the module checks (`V008`, `V009`, `V010`) on a module directory.
pub fn check_module_dir(module: &ModuleDir) -> (r: Vec<Diagnostic>)
    ensures
        diag_views(r@) == module_dir_diagnostics(module_dir_name(module.name), module.manifest, module.has_entry),
{
    let name = match &module.name {
        Some(n) => n.clone(),
        None => copy_str("unknown"),
    };
    let dir = concat("app/modules/", name.as_str());
    let manifest_file = concat(dir.as_str(), "/module.json");
    let mf = chars_of(manifest_file.as_str());
    let mut out: Vec<Diagnostic> = Vec::new();
    match &module.manifest {
        ManifestState::Missing => {
            let m1 = concat("Module '", name.as_str());
            let msg = concat(m1.as_str(), "' is missing module.json manifest");
            out.push(make_diag(
                "V008",
                DiagnosticSeverity::Error,
                &mf,
                None,
                msg,
                "Run `rotiv add module <name>` to scaffold a module with the correct structure.",
                None,
            ));
            assert(diag_views(out@) =~= module_dir_diagnostics(name@, module.manifest, module.has_entry));
        },
        ManifestState::Unreadable => {
            assert(diag_views(out@) =~= module_dir_diagnostics(name@, module.manifest, module.has_entry));
        },
        ManifestState::Invalid(e) => {
            let m1 = concat("module.json in '", name.as_str());
            let m2 = concat(m1.as_str(), "' is not valid JSON: ");
            let msg = concat(m2.as_str(), e.as_str());
            out.push(make_diag(
                "V009",
                DiagnosticSeverity::Error,
                &mf,
                None,
                msg,
                "Fix the JSON syntax in module.json.",
                None,
            ));
            assert(diag_views(out@) =~= module_dir_diagnostics(name@, module.manifest, module.has_entry));
        },
        ManifestState::Parsed(keys) => {
            let missing = missing_required(keys);
            if missing.len() > 0 {
                let mut parts: Vec<Vec<char>> = Vec::new();
                let mut k: usize = 0;
                while k < missing.len()
                    invariant
                        k <= missing.len(),
                        views(parts@) == str_views(missing@).subrange(0, k as int),
                    decreases missing.len() - k,
                {
                    let ghost prev = views(parts@);
                    parts.push(chars_of(missing[k].as_str()));
                    assert(views(parts@) =~= prev.push(missing@[k as int]@));
                    assert(str_views(missing@).subrange(0, k + 1) =~= str_views(missing@).subrange(0, k as int).push(missing@[k as int]@));
                    k = k + 1;
                }
                assert(str_views(missing@).subrange(0, missing@.len() as int) =~= str_views(missing@));
                let sep = chars_of(", ");
                let joined = crate::text::join_chars(&parts, &sep);
                let m1 = concat("module.json in '", name.as_str());
                let m2 = concat(m1.as_str(), "' is missing required fields: ");
                let js = string_from(&joined);
                let msg = concat(m2.as_str(), js.as_str());
                out.push(make_diag(
                    "V009",
                    DiagnosticSeverity::Error,
                    &mf,
                    None,
                    msg,
                    "Add the missing fields to module.json. Required: name, version, provides.",
                    None,
                ));
            }
            let ghost first = diag_views(out@);
            if !module.has_entry {
                let ef = concat(dir.as_str(), "/index.ts");
                let efc = chars_of(ef.as_str());
                let m1 = concat("Module '", name.as_str());
                let msg = concat(m1.as_str(), "' is missing its entry file index.ts");
                out.push(make_diag(
                    "V010",
                    DiagnosticSeverity::Error,
                    &efc,
                    None,
                    msg,
                    "Run `rotiv add module <name>` to scaffold a proper module structure with index.ts.",
                    None,
                ));
            }
            assert(diag_views(out@) =~= module_dir_diagnostics(name@, module.manifest, module.has_entry));
        },
    }
    out
}


/// A file read below the project directory.
#[derive(Debug)]
pub struct SourceFile {
    /// Its path relative to the project directory.
    pub path: String,
    pub content: String,
}

/// What the checks read of a project: the files found below `app/routes/`
/// (at any depth) and directly in `app/models/`, and the directories directly
/// below `app/modules/`. A directory that does not exist contributes nothing.
#[derive(Debug)]
pub struct ProjectFiles {
    pub routes: Vec<SourceFile>,
    pub models: Vec<SourceFile>,
    pub modules: Vec<ModuleDir>,
}

/// The file name of a path, or nothing.
pub open spec fn name_or_empty(p: Seq<char>) -> Seq<char> {
    match file_name(p) {
        Some(n) => n,
        None => Seq::empty(),
    }
}

/// The findings for the `.tsx` files among `fs`, in order.
pub open spec fn routes_diagnostics(fs: Seq<SourceFile>) -> Seq<DiagnosticSpec>
    decreases fs.len(),
{
    if fs.len() == 0 {
        Seq::empty()
    } else {
        let f = fs.last();
        routes_diagnostics(fs.drop_last()) + if extension(f.path@) == Some(seq!['t', 's', 'x']) {
            route_file_diagnostics(f.path@, name_or_empty(f.path@), f.content@)
        } else {
            Seq::empty()
        }
    }
}

/// The findings for the `.ts` files among `fs`, in order.
pub open spec fn models_diagnostics(fs: Seq<SourceFile>) -> Seq<DiagnosticSpec>
    decreases fs.len(),
{
    if fs.len() == 0 {
        Seq::empty()
    } else {
        let f = fs.last();
        models_diagnostics(fs.drop_last()) + if extension(f.path@) == Some(seq!['t', 's']) {
            model_file_diagnostics(f.path@, f.content@)
        } else {
            Seq::empty()
        }
    }
}

/// The findings for the module directories, in order.
pub open spec fn modules_diagnostics(ms: Seq<ModuleDir>) -> Seq<DiagnosticSpec>
    decreases ms.len(),
{
    if ms.len() == 0 {
        Seq::empty()
    } else {
        let m = ms.last();
        modules_diagnostics(ms.drop_last()) + module_dir_diagnostics(module_dir_name(m.name), m.manifest, m.has_entry)
    }
}

/// All findings for a project: route files, then model files, then modules.
pub open spec fn project_diagnostics(p: ProjectFiles) -> Seq<DiagnosticSpec> {
    routes_diagnostics(p.routes@) + models_diagnostics(p.models@) + modules_diagnostics(p.modules@)
}

/// Whether every file has fewer lines than `u32::MAX`, so that line numbers fit.
pub open spec fn line_counts_fit(fs: Seq<SourceFile>) -> bool {
    forall|i: int| 0 <= i < fs.len() ==> lines((#[trigger] fs[i]).content@).len() < u32::MAX
}

/// The findings for the route files among `files`.
fn check_route_files(files: &Vec<SourceFile>) -> (r: Vec<Diagnostic>)
    requires
        line_counts_fit(files@),
    ensures
        diag_views(r@) == routes_diagnostics(files@),
{
    let mut out: Vec<Diagnostic> = Vec::new();
    let tsx = vec!['t', 's', 'x'];
    let mut i: usize = 0;
    while i < files.len()
        invariant
            i <= files.len(),
            line_counts_fit(files@),
            tsx@ == seq!['t', 's', 'x'],
            diag_views(out@) == routes_diagnostics(files@.subrange(0, i as int)),
        decreases files.len() - i,
    {
        let f = &files[i];
        assert(files@.subrange(0, i + 1).drop_last() =~= files@.subrange(0, i as int));
        let pv = chars_of(f.path.as_str());
        let ext = crate::paths::extension_of_path(&pv);
        let is_tsx = match &ext {
            Some(e) => crate::text::eq_chars(e, &tsx),
            None => false,
        };
        let ghost prev = diag_views(out@);
        if is_tsx {
            let mut ds = check_route_file(f.path.as_str(), f.content.as_str());
            out.append(&mut ds);
            assert(diag_views(out@) =~= prev + route_file_diagnostics(f.path@, name_or_empty(f.path@), f.content@));
        } else {
            assert(diag_views(out@) =~= prev + Seq::<DiagnosticSpec>::empty());
        }
        i = i + 1;
    }
    assert(files@.subrange(0, files@.len() as int) =~= files@);
    out
}

/// The findings for the model files among `files`.
fn check_model_files(files: &Vec<SourceFile>) -> (r: Vec<Diagnostic>)
    ensures
        diag_views(r@) == models_diagnostics(files@),
{
    let mut out: Vec<Diagnostic> = Vec::new();
    let ts = vec!['t', 's'];
    let mut j: usize = 0;
    while j < files.len()
        invariant
            j <= files.len(),
            ts@ == seq!['t', 's'],
            diag_views(out@) == models_diagnostics(files@.subrange(0, j as int)),
        decreases files.len() - j,
    {
        let f = &files[j];
        assert(files@.subrange(0, j + 1).drop_last() =~= files@.subrange(0, j as int));
        let pv = chars_of(f.path.as_str());
        let ext = crate::paths::extension_of_path(&pv);
        let is_ts = match &ext {
            Some(e) => crate::text::eq_chars(e, &ts),
            None => false,
        };
        let ghost prev = diag_views(out@);
        if is_ts {
            let mut ds = check_model_file(f.path.as_str(), f.content.as_str());
            out.append(&mut ds);
            assert(diag_views(out@) =~= prev + model_file_diagnostics(f.path@, f.content@));
        } else {
            assert(diag_views(out@) =~= prev + Seq::<DiagnosticSpec>::empty());
        }
        j = j + 1;
    }
    assert(files@.subrange(0, files@.len() as int) =~= files@);
    out
}

/// The findings for the module directories.
fn check_module_dirs(modules: &Vec<ModuleDir>) -> (r: Vec<Diagnostic>)
    ensures
        diag_views(r@) == modules_diagnostics(modules@),
{
    let mut out: Vec<Diagnostic> = Vec::new();
    let mut k: usize = 0;
    while k < modules.len()
        invariant
            k <= modules.len(),
            diag_views(out@) == modules_diagnostics(modules@.subrange(0, k as int)),
        decreases modules.len() - k,
    {
        let m = &modules[k];
        assert(modules@.subrange(0, k + 1).drop_last() =~= modules@.subrange(0, k as int));
        let ghost prev = diag_views(out@);
        let mut ds = check_module_dir(m);
        out.append(&mut ds);
        assert(diag_views(out@) =~= prev + module_dir_diagnostics(module_dir_name(m.name), m.manifest, m.has_entry));
        k = k + 1;
    }
    assert(modules@.subrange(0, modules@.len() as int) =~= modules@);
    out
}

/// Runs all static-analysis checks on the files of a project.
pub fn run_diagnostics(project: &ProjectFiles) -> (r: Result<Vec<Diagnostic>, RotivError>)
    requires
        line_counts_fit(project.routes@),
    ensures
        r matches Ok(ds) && diag_views(ds@) == project_diagnostics(*project),
{
    let mut out = check_route_files(&project.routes);
    let mut models = check_model_files(&project.models);
    let mut modules = check_module_dirs(&project.modules);
    let ghost a = diag_views(out@);
    let ghost b = diag_views(models@);
    let ghost c = diag_views(modules@);
    out.append(&mut models);
    out.append(&mut modules);
    assert(diag_views(out@) =~= a + b + c);
    Ok(out)
}

/// The files to rewrite for the auto-fixable diagnostics, in order: each
/// diagnostic's file and its replacement content.
pub open spec fn fixes_of(ds: Seq<DiagnosticSpec>) -> Seq<(Seq<char>, Seq<char>)>
    decreases ds.len(),
{
    if ds.len() == 0 {
        Seq::empty()
    } else {
        fixes_of(ds.drop_last()) + match ds.last().auto_fix {
            Some(f) => seq![(ds.last().file, f)],
            None => Seq::empty(),
        }
    }
}

pub open spec fn pair_views(s: Seq<(String, String)>) -> Seq<(Seq<char>, Seq<char>)> {
    s.map_values(|p: (String, String)| (p.0@, p.1@))
}

/// The writes that applying the auto-fixes performs: for each diagnostic with
/// a fix, its file (relative to the project) and the new content.
pub fn planned_fixes(diagnostics: &Vec<Diagnostic>) -> (r: Vec<(String, String)>)
    ensures
        pair_views(r@) == fixes_of(diag_views(diagnostics@)),
{
    let mut out: Vec<(String, String)> = Vec::new();
    let ghost dv = diag_views(diagnostics@);
    let mut i: usize = 0;
    while i < diagnostics.len()
        invariant
            dv == diag_views(diagnostics@),
            i <= diagnostics.len(),
            pair_views(out@) == fixes_of(dv.subrange(0, i as int)),
        decreases diagnostics.len() - i,
    {
        assert(dv.subrange(0, i + 1).drop_last() =~= dv.subrange(0, i as int));
        assert(dv[i as int] == diagnostics@[i as int]@);
        let d = &diagnostics[i];
        let ghost prev = pair_views(out@);
        match &d.auto_fix {
            Some(f) => {
                out.push((d.file.clone(), f.clone()));
                assert(pair_views(out@) =~= prev + seq![(d.file@, f@)]);
            },
            None => {
                assert(pair_views(out@) =~= prev + Seq::<(Seq<char>, Seq<char>)>::empty());
            },
        }
        i = i + 1;
    }
    assert(dv.subrange(0, dv.len() as int) =~= dv);
    out
}

/// The error for a fix that could not be written.
pub fn fix_write_error(file: &str, detail: &str) -> (r: RotivError)
    ensures
        r.code@ == "E_IO"@,
        r.message@ == "failed to write fix to "@ + file@ + ": "@ + detail@,
        r.file is None && r.line is None && r.expected is None && r.got is None,
        r.suggestion is None && r.corrected_code is None,
{
    let m1 = concat("failed to write fix to ", file);
    let m2 = concat(m1.as_str(), ": ");
    let msg = concat(m2.as_str(), detail);
    RotivError::new("E_IO", msg.as_str())
}

/// The number of diagnostics of a severity.
pub open spec fn severity_count(ds: Seq<DiagnosticSpec>, sev: DiagnosticSeverity) -> nat
    decreases ds.len(),
{
    if ds.len() == 0 {
        0
    } else {
        severity_count(ds.drop_last(), sev) + if ds.last().severity == sev { 1nat } else { 0nat }
    }
}

/// Counts the diagnostics of a severity.
pub fn count_severity(diagnostics: &Vec<Diagnostic>, sev: DiagnosticSeverity) -> (r: usize)
    ensures
        r == severity_count(diag_views(diagnostics@), sev),
{
    let ghost dv = diag_views(diagnostics@);
    let mut n: usize = 0;
    let mut i: usize = 0;
    while i < diagnostics.len()
        invariant
            dv == diag_views(diagnostics@),
            i <= diagnostics.len(),
            n == severity_count(dv.subrange(0, i as int), sev),
            n <= i,
        decreases diagnostics.len() - i,
    {
        assert(dv.subrange(0, i + 1).drop_last() =~= dv.subrange(0, i as int));
        assert(dv[i as int] == diagnostics@[i as int]@);
        if diagnostics[i].severity == sev {
            n = n + 1;
        }
        i = i + 1;
    }
    assert(dv.subrange(0, dv.len() as int) =~= dv);
    n
}


/// Applying the `V001` fix resolves it: the rewritten file has a default
/// `defineRoute` export, so it has neither a `V001` nor a `V005` finding.
pub proof fn lemma_v001_fix_resolves(rel: Seq<char>, name: Seq<char>, content: Seq<char>)
    ensures
        forall|i: int| 0 <= i < route_file_diagnostics(rel, name, v001_fix(content)).len() ==> {
            let c = (#[trigger] route_file_diagnostics(rel, name, v001_fix(content))[i]).code;
            c != "V001"@ && c != "V005"@
        },
{
    let fix = v001_fix(content);
    let lit = "export default defineRoute"@;
    reveal_strlit("export default defineRoute({\n");
    reveal_strlit("export default defineRoute");
    reveal_strlit("V001");
    reveal_strlit("V002");
    reveal_strlit("V005");
    reveal_strlit("V006");
    reveal_strlit("V007");
    assert(fix.subrange(0, lit.len() as int) =~= lit);
    assert(contains_at(fix, lit, 0));
    let ls = lines(fix);
    let file = replace_char(rel, '\\', '/');
    let d = route_file_diagnostics(rel, name, fix);
    let component = if contains_seq(fix, "defineRoute("@) && !contains_seq(fix, "component("@)
        && !contains_seq(fix, "component:"@) {
        seq![v002(file, spec_find_line(fix, "defineRoute("@))]
    } else {
        Seq::<DiagnosticSpec>::empty()
    };
    let db = if uses_ctx_db(ls) && !contains_seq(fix, "/models/"@) {
        seq![v006(file, spec_find_line(fix, "ctx.db"@))]
    } else {
        Seq::<DiagnosticSpec>::empty()
    };
    let brackets = if name.contains('[') {
        v007_from(ls, file, 0)
    } else {
        Seq::<DiagnosticSpec>::empty()
    };
    assert(d =~= component + db + brackets);
    lemma_v007_codes(ls, file, 0);
    lemma_codes_differ();
    assert forall|i: int| 0 <= i < d.len() implies {
        let c = (#[trigger] d[i]).code;
        c != "V001"@ && c != "V005"@
    } by {
        if i < component.len() {
            assert(d[i] == component[i]);
        } else if i < component.len() + db.len() {
            assert(d[i] == db[i - component.len()]);
        } else {
            assert(d[i] == brackets[i - component.len() - db.len()]);
        }
    }
}

proof fn lemma_v007_codes(ls: Seq<Seq<char>>, file: Seq<char>, i: int)
    ensures
        forall|k: int| 0 <= k < v007_from(ls, file, i).len() ==> (#[trigger] v007_from(ls, file, i)[k]).code == "V007"@,
    decreases ls.len() - i,
{
    if 0 <= i < ls.len() {
        lemma_v007_codes(ls, file, i + 1);
        let head: Seq<DiagnosticSpec> = if is_bracket_path_line(ls[i]) {
            seq![v007(file, (i + 1) as nat)]
        } else {
            Seq::empty()
        };
        let rest = v007_from(ls, file, i + 1);
        assert(v007_from(ls, file, i) == head + rest);
        assert forall|k: int| 0 <= k < v007_from(ls, file, i).len() implies (#[trigger] v007_from(ls, file, i)[k]).code == "V007"@ by {
            if k < head.len() {
            } else {
                assert(v007_from(ls, file, i)[k] == rest[k - head.len()]);
            }
        }
    }
}


proof fn lemma_codes_differ()
    ensures
        "V002"@ != "V001"@ && "V002"@ != "V005"@,
        "V006"@ != "V001"@ && "V006"@ != "V005"@,
        "V007"@ != "V001"@ && "V007"@ != "V005"@,
{
    reveal_strlit("V001");
    reveal_strlit("V002");
    reveal_strlit("V005");
    reveal_strlit("V006");
    reveal_strlit("V007");
    assert("V002"@[3] != "V001"@[3] && "V002"@[3] != "V005"@[3]);
    assert("V006"@[3] != "V001"@[3] && "V006"@[3] != "V005"@[3]);
    assert("V007"@[3] != "V001"@[3] && "V007"@[3] != "V005"@[3]);
}

proof fn lemma_codes_not_v006()
    ensures
        "V001"@ != "V006"@ && "V002"@ != "V006"@ && "V005"@ != "V006"@ && "V007"@ != "V006"@,
{
    reveal_strlit("V001");
    reveal_strlit("V002");
    reveal_strlit("V005");
    reveal_strlit("V006");
    reveal_strlit("V007");
    assert("V001"@[3] != "V006"@[3] && "V002"@[3] != "V006"@[3]);
    assert("V005"@[3] != "V006"@[3] && "V007"@[3] != "V006"@[3]);
}

/// Whether one of the diagnostics has the code `code`.
pub open spec fn has_code(d: Seq<DiagnosticSpec>, code: Seq<char>) -> bool {
    exists|k: int| 0 <= k < d.len() && (#[trigger] d[k]).code == code
}

/// A route file gets a `V006` finding exactly when it does not mention
/// `/models/` and one of its lines mentions `ctx.db` while that line, with
/// white space trimmed, does not start with `//`: a mention of `ctx.db` in a
/// `//` comment, indented or not, never gives a `V006` finding.
pub proof fn lemma_v006_iff_code_line_uses_db(rel: Seq<char>, name: Seq<char>, content: Seq<char>)
    ensures
        has_code(route_file_diagnostics(rel, name, content), "V006"@) <==> (
            (exists|i: int| 0 <= i < lines(content).len()
                && !starts_with(trim_ws(#[trigger] lines(content)[i]), "//"@)
                && contains_seq(trim_ws(lines(content)[i]), "ctx.db"@))
            && !contains_seq(content, "/models/"@)),
{
    let file = replace_char(rel, '\\', '/');
    let ls = lines(content);
    let d = route_file_diagnostics(rel, name, content);
    let export = if !contains_seq(content, "export default defineRoute"@) {
        if contains_seq(content, "export default {"@) {
            seq![v005(file, spec_find_line(content, "export default {"@))]
        } else {
            seq![v001(file, content)]
        }
    } else {
        Seq::<DiagnosticSpec>::empty()
    };
    let component = if contains_seq(content, "defineRoute("@) && !contains_seq(content, "component("@)
        && !contains_seq(content, "component:"@) {
        seq![v002(file, spec_find_line(content, "defineRoute("@))]
    } else {
        Seq::<DiagnosticSpec>::empty()
    };
    let db = if uses_ctx_db(ls) && !contains_seq(content, "/models/"@) {
        seq![v006(file, spec_find_line(content, "ctx.db"@))]
    } else {
        Seq::<DiagnosticSpec>::empty()
    };
    let brackets = if name.contains('[') {
        v007_from(ls, file, 0)
    } else {
        Seq::<DiagnosticSpec>::empty()
    };
    assert(d =~= export + component + db + brackets);
    lemma_v007_codes(ls, file, 0);
    lemma_codes_not_v006();
    let a: int = export.len() as int;
    let b: int = a + component.len();
    let c: int = b + db.len();
    if has_code(d, "V006"@) {
        let k = choose|k: int| 0 <= k < d.len() && (#[trigger] d[k]).code == "V006"@;
        if k < a {
            assert(d[k] == export[k]);
        } else if k < b {
            assert(d[k] == component[k - a]);
        } else if k < c {
            assert(d[k] == db[k - b]);
        } else {
            assert(d[k] == brackets[k - c]);
        }
        assert(db.len() > 0);
    }
    if uses_ctx_db(ls) && !contains_seq(content, "/models/"@) {
        assert(d[b].code == "V006"@);
    }
    assert(uses_ctx_db(ls) == exists|i: int| 0 <= i < ls.len()
        && !starts_with(trim_ws(#[trigger] ls[i]), "//"@) && contains_seq(trim_ws(ls[i]), "ctx.db"@));
}

proof fn lemma_line_index_from(ls: Seq<Seq<char>>, needle: Seq<char>, i: int)
    requires
        0 <= i <= ls.len(),
    ensures
        line_index_from(ls, needle, i) is None <==> forall|j: int| i <= j < ls.len() ==> !contains_seq(#[trigger] ls[j], needle),
        line_index_from(ls, needle, i) matches Some(n) ==> {
            &&& i + 1 <= n <= ls.len()
            &&& contains_seq(ls[n - 1], needle)
            &&& forall|j: int| i <= j < n - 1 ==> !contains_seq(#[trigger] ls[j], needle)
        },
    decreases ls.len() - i,
{
    if i < ls.len() {
        lemma_line_index_from(ls, needle, i + 1);
    }
}

/// The line found for `needle` is the first line of `content` that contains
/// it, counted from 1; there is none exactly when no line contains it.
pub proof fn lemma_find_line_is_first(content: Seq<char>, needle: Seq<char>)
    ensures
        spec_find_line(content, needle) is None <==> forall|j: int| 0 <= j < lines(content).len()
            ==> !contains_seq(#[trigger] lines(content)[j], needle),
        spec_find_line(content, needle) matches Some(n) ==> {
            &&& 1 <= n <= lines(content).len()
            &&& contains_seq(lines(content)[n - 1], needle)
            &&& forall|j: int| 0 <= j < n - 1 ==> !contains_seq(#[trigger] lines(content)[j], needle)
        },
{
    lemma_line_index_from(lines(content), needle, 0);
}

proof fn lemma_v007_from_lines(ls: Seq<Seq<char>>, file: Seq<char>, i: int, k: int)
    requires
        0 <= i,
        0 <= k,
    ensures
        (exists|t: int| 0 <= t < v007_from(ls, file, i).len() && (#[trigger] v007_from(ls, file, i)[t]).line == Some((k + 1) as nat))
            <==> (i <= k < ls.len() && is_bracket_path_line(ls[k])),
    decreases ls.len() - i,
{
    if i < ls.len() {
        lemma_v007_from_lines(ls, file, i + 1, k);
        let head: Seq<DiagnosticSpec> = if is_bracket_path_line(ls[i]) {
            seq![v007(file, (i + 1) as nat)]
        } else {
            Seq::empty()
        };
        let rest = v007_from(ls, file, i + 1);
        let all = v007_from(ls, file, i);
        assert(all == head + rest);
        if exists|t: int| 0 <= t < all.len() && (#[trigger] all[t]).line == Some((k + 1) as nat) {
            let t = choose|t: int| 0 <= t < all.len() && (#[trigger] all[t]).line == Some((k + 1) as nat);
            if t >= head.len() {
                assert(all[t] == rest[t - head.len()]);
            } else {
                assert(all[t] == head[t]);
                assert(k == i);
            }
        }
        if i <= k < ls.len() && is_bracket_path_line(ls[k]) {
            if k == i {
                assert(all[0].line == Some((k + 1) as nat));
            } else {
                let t = choose|t: int| 0 <= t < rest.len() && (#[trigger] rest[t]).line == Some((k + 1) as nat);
                assert(all[t + head.len()] == rest[t]);
            }
        }
    } else {
        assert(v007_from(ls, file, i).len() == 0);
    }
}

/// A route file whose name holds `[` gets a `V007` finding at line `k + 1`
/// exactly when its `k`-th line, with white space trimmed, starts with
/// `path:` and holds a `[`; a file whose name holds no `[` gets none.
pub proof fn lemma_v007_marks_bracket_path_lines(rel: Seq<char>, name: Seq<char>, content: Seq<char>, k: int)
    requires
        0 <= k,
    ensures
        (exists|t: int| 0 <= t < route_file_diagnostics(rel, name, content).len()
            && (#[trigger] route_file_diagnostics(rel, name, content)[t]).code == "V007"@
            && route_file_diagnostics(rel, name, content)[t].line == Some((k + 1) as nat))
            <==> (name.contains('[') && k < lines(content).len()
                && starts_with(trim_ws(lines(content)[k]), "path:"@) && trim_ws(lines(content)[k]).contains('[')),
{
    let file = replace_char(rel, '\\', '/');
    let ls = lines(content);
    let d = route_file_diagnostics(rel, name, content);
    let export = if !contains_seq(content, "export default defineRoute"@) {
        if contains_seq(content, "export default {"@) {
            seq![v005(file, spec_find_line(content, "export default {"@))]
        } else {
            seq![v001(file, content)]
        }
    } else {
        Seq::<DiagnosticSpec>::empty()
    };
    let component = if contains_seq(content, "defineRoute("@) && !contains_seq(content, "component("@)
        && !contains_seq(content, "component:"@) {
        seq![v002(file, spec_find_line(content, "defineRoute("@))]
    } else {
        Seq::<DiagnosticSpec>::empty()
    };
    let db = if uses_ctx_db(ls) && !contains_seq(content, "/models/"@) {
        seq![v006(file, spec_find_line(content, "ctx.db"@))]
    } else {
        Seq::<DiagnosticSpec>::empty()
    };
    let brackets = if name.contains('[') {
        v007_from(ls, file, 0)
    } else {
        Seq::<DiagnosticSpec>::empty()
    };
    assert(d =~= export + component + db + brackets);
    lemma_v007_codes(ls, file, 0);
    lemma_v007_from_lines(ls, file, 0, k);
    lemma_codes_differ();
    reveal_strlit("V001");
    reveal_strlit("V002");
    reveal_strlit("V005");
    reveal_strlit("V006");
    reveal_strlit("V007");
    assert("V006"@[3] != "V007"@[3]);
    let c: int = (export.len() + component.len() + db.len()) as int;
    if exists|t: int| 0 <= t < d.len() && (#[trigger] d[t]).code == "V007"@ && d[t].line == Some((k + 1) as nat) {
        let t = choose|t: int| 0 <= t < d.len() && (#[trigger] d[t]).code == "V007"@ && d[t].line == Some((k + 1) as nat);
        if t < export.len() {
            assert(d[t] == export[t]);
        } else if t < export.len() + component.len() {
            assert(d[t] == component[t - export.len()]);
        } else if t < c {
            assert(d[t] == db[t - export.len() - component.len()]);
        } else {
            assert(d[t] == brackets[t - c]);
        }
    }
    if name.contains('[') && k < ls.len() && is_bracket_path_line(ls[k]) {
        let t = choose|t: int| 0 <= t < brackets.len() && (#[trigger] brackets[t]).line == Some((k + 1) as nat);
        assert(d[c + t] == brackets[t]);
    }
}

} // verus!
