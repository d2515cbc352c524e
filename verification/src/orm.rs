//! Database migrations and model discovery: the decisions around the
//! migrate script (its arguments, the reading of its report, when to apply
//! pending migrations) and the model files it works on.

use vstd::prelude::*;
use crate::locate::{ScriptChoice, ScriptSearch, choose_script, spec_choose_script};
use crate::models::{ModelEntry, discover_models as discover_model_entries, model_named, models_of, model_views, path_views};
use crate::sorting::{Keyed, sorted_by_key, with_key};
use crate::text::{copy_str, decimal, decimal_string, str_views};

verus! {

/// Errors of migrations and model discovery.
#[derive(Debug)]
pub enum OrmError {
    NotImplemented(String),
    ScriptNotFound(String),
    SpawnFailed(String),
    MigrationFailed(String),
    ParseFailed(String),
    PendingMigrations(u32),
    /// An I/O failure, with the system's message.
    Io(String),
}

/// The text of an error.
pub open spec fn orm_error_text(e: OrmError) -> Seq<char> {
    match e {
        OrmError::NotImplemented(s) => "Not implemented: "@ + s@,
        OrmError::ScriptNotFound(s) => "Script not found: "@ + s@,
        OrmError::SpawnFailed(s) => "Failed to spawn Node.js process: "@ + s@,
        OrmError::MigrationFailed(s) => "Migration failed: "@ + s@,
        OrmError::ParseFailed(s) => "Failed to parse script output: "@ + s@,
        OrmError::PendingMigrations(n) => decimal(n as nat) + " pending migration(s) need to be applied"@,
        OrmError::Io(s) => "I/O error: "@ + s@,
    }
}

fn prefixed(prefix: &str, s: &String) -> (r: String)
    ensures
        r@ == prefix@ + s@,
{
    let mut out = copy_str(prefix);
    out.append(s.as_str());
    out
}

impl OrmError {
    /// The error's message.
    pub fn message(&self) -> (r: String)
        ensures
            r@ == orm_error_text(*self),
    {
        match self {
            OrmError::NotImplemented(s) => prefixed("Not implemented: ", s),
            OrmError::ScriptNotFound(s) => prefixed("Script not found: ", s),
            OrmError::SpawnFailed(s) => prefixed("Failed to spawn Node.js process: ", s),
            OrmError::MigrationFailed(s) => prefixed("Migration failed: ", s),
            OrmError::ParseFailed(s) => prefixed("Failed to parse script output: ", s),
            OrmError::PendingMigrations(n) => {
                let mut out = decimal_string(*n as u64);
                out.append(" pending migration(s) need to be applied");
                out
            },
            OrmError::Io(s) => prefixed("I/O error: ", s),
        }
    }
}

/// A single model file found in the project's `app/models/` directory.
#[derive(Debug)]
pub struct ModelFileEntry {
    /// PascalCase model name derived from the file name (`user.ts` → `User`).
    pub name: String,
    /// Path to the model file.
    pub file: String,
}

impl Keyed for ModelFileEntry {
    open spec fn spec_key(&self) -> Seq<char> {
        self.name@
    }

    fn key(&self) -> (r: String) {
        self.name.clone()
    }
}

pub open spec fn file_entry_views(s: Seq<ModelFileEntry>) -> Seq<(Seq<char>, Seq<char>)> {
    s.map_values(|e: ModelFileEntry| (e.name@, e.file@))
}

/// The model files among the files listed in `app/models/`: one per `.ts`
/// file, its name the PascalCase form of its snake_case stem, sorted by name.
pub fn discover_models(files: &Vec<String>) -> (r: Vec<ModelFileEntry>)
    ensures
        sorted_by_key(r@),
        forall|k: Seq<char>| #[trigger] file_entry_views(with_key(r@, k)) == models_of(path_views(files@)).filter(model_named(k)),
{
    let entries = discover_model_entries(files);
    let mut out: Vec<ModelFileEntry> = Vec::new();
    let mut i: usize = 0;
    while i < entries.len()
        invariant
            i <= entries.len(),
            out@.len() == i,
            forall|j: int| 0 <= j < i ==> (#[trigger] out@[j]).name@ == entries@[j].name@ && out@[j].file@ == entries@[j].file@,
        decreases entries.len() - i,
    {
        out.push(ModelFileEntry { name: entries[i].name.clone(), file: entries[i].file.clone() });
        i = i + 1;
    }
    proof {
        assert(sorted_by_key(out@)) by {
            assert forall|a: int, b: int| 0 <= a < b < out@.len() implies crate::text::seq_le(
                #[trigger] out@[a].spec_key(),
                #[trigger] out@[b].spec_key(),
            ) by {
                assert(entries@[a].spec_key() == out@[a].spec_key());
                assert(entries@[b].spec_key() == out@[b].spec_key());
            }
        }
        assert forall|k: Seq<char>| #[trigger] file_entry_views(with_key(out@, k)) == models_of(path_views(files@)).filter(model_named(k)) by {
            lemma_same_filter(out@, entries@, k);
        }
    }
    out
}

proof fn lemma_same_filter(a: Seq<ModelFileEntry>, b: Seq<ModelEntry>, k: Seq<char>)
    requires
        a.len() == b.len(),
        forall|j: int| 0 <= j < a.len() ==> (#[trigger] a[j]).name@ == b[j].name@ && a[j].file@ == b[j].file@,
    ensures
        file_entry_views(with_key(a, k)) == model_views(with_key(b, k)),
    decreases a.len(),
{
    reveal(Seq::filter);
    if a.len() > 0 {
        let a1 = a.drop_last();
        let b1 = b.drop_last();
        lemma_same_filter(a1, b1, k);
        assert(a =~= a1.push(a.last()));
        assert(b =~= b1.push(b.last()));
        a1.lemma_filter_push(a.last(), crate::sorting::key_pred(k));
        b1.lemma_filter_push(b.last(), crate::sorting::key_pred(k));
        assert(a.last() == a[a.len() - 1]);
        if a.last().spec_key() == k {
            assert(file_entry_views(with_key(a, k)) =~= file_entry_views(with_key(a1, k)).push((a.last().name@, a.last().file@)));
            assert(model_views(with_key(b, k)) =~= model_views(with_key(b1, k)).push((b.last().name@, b.last().file@)));
        }
    } else {
        assert(with_key(a, k) =~= Seq::<ModelFileEntry>::empty());
        assert(with_key(b, k) =~= Seq::<ModelEntry>::empty());
    }
}

/// Options controlling a migration run.
#[derive(Debug)]
pub struct MigrationOptions {
    /// Root directory of the project.
    pub project_dir: String,
    /// Only generate migration files; don't apply them.
    pub generate_only: bool,
    /// Only check for pending migrations; don't apply.
    pub check_only: bool,
    /// Emit JSON instead of human-readable output.
    pub json_output: bool,
}

/// Result of a successful migration run.
#[derive(Debug)]
pub struct MigrationResult {
    /// Number of migration files applied (pending ones, in check mode).
    pub migrations_applied: u32,
    /// Paths of all migration files processed.
    pub migration_files: Vec<String>,
    /// Non-fatal warnings.
    pub warnings: Vec<String>,
    /// Wall-clock duration in milliseconds.
    pub duration_ms: u64,
}

/// The report the migrate script prints on its standard output.
#[derive(Debug)]
pub struct MigrateScriptOutput {
    pub ok: bool,
    pub migrations_applied: Option<u32>,
    pub migration_files: Option<Vec<String>>,
    pub warnings: Option<Vec<String>>,
    pub duration_ms: u64,
    /// The count of pending migrations, in check mode.
    pub pending: Option<u32>,
}

/// The mode flag handed to the migrate script.
pub open spec fn spec_mode_flag(generate_only: bool, check_only: bool) -> Seq<char> {
    if generate_only {
        "--generate"@
    } else if check_only {
        "--check"@
    } else {
        "--migrate"@
    }
}

/// The arguments of `node` that run the migrate script.
pub fn migrate_args(script_path: &str, options: &MigrationOptions) -> (r: Vec<String>)
    ensures
        str_views(r@) == seq![
            "--import"@,
            "tsx"@,
            script_path@,
            "--project"@,
            options.project_dir@,
            spec_mode_flag(options.generate_only, options.check_only),
        ],
{
    let flag = if options.generate_only {
        "--generate"
    } else if options.check_only {
        "--check"
    } else {
        "--migrate"
    };
    let v = vec![
        copy_str("--import"),
        copy_str("tsx"),
        copy_str(script_path),
        copy_str("--project"),
        options.project_dir.clone(),
        copy_str(flag),
    ];
    assert(str_views(v@) =~= seq![
        "--import"@,
        "tsx"@,
        script_path@,
        "--project"@,
        options.project_dir@,
        spec_mode_flag(options.generate_only, options.check_only),
    ]);
    v
}

pub open spec fn opt_list(o: Option<Vec<String>>) -> Seq<Seq<char>> {
    match o {
        Some(v) => str_views(v@),
        None => Seq::empty(),
    }
}

fn list_or_empty(o: Option<Vec<String>>) -> (r: Vec<String>)
    ensures
        str_views(r@) == opt_list(o),
{
    match o {
        Some(v) => v,
        None => Vec::new(),
    }
}

/// The outcome of a migrate-script run: the process failed (its standard
/// error), its report did not parse (the parser's message and the raw
/// output), it reported failure, or the result built from the report, whose
/// duration is the longer of the measured and the reported one.
pub fn finish_migration(
    exit_ok: bool,
    stderr: String,
    report: Result<MigrateScriptOutput, String>,
    raw_stdout: &str,
    elapsed_ms: u64,
) -> (r: Result<MigrationResult, OrmError>)
    ensures
        !exit_ok ==> (r matches Err(OrmError::MigrationFailed(s)) && s@ == stderr@),
        exit_ok ==> match report {
            Err(e) => r matches Err(OrmError::ParseFailed(s)) && s@ == e@ + ": "@ + raw_stdout@,
            Ok(out) => if !out.ok {
                r matches Err(OrmError::MigrationFailed(s)) && s@ == "migrate script reported ok=false"@
            } else {
                r matches Ok(res) && {
                    &&& res.migrations_applied == match out.migrations_applied {
                        Some(n) => n,
                        None => match out.pending {
                            Some(p) => p,
                            None => 0u32,
                        },
                    }
                    &&& str_views(res.migration_files@) == opt_list(out.migration_files)
                    &&& str_views(res.warnings@) == opt_list(out.warnings)
                    &&& res.duration_ms == if elapsed_ms >= out.duration_ms { elapsed_ms } else { out.duration_ms }
                }
            },
        },
{
    if !exit_ok {
        return Err(OrmError::MigrationFailed(stderr));
    }
    match report {
        Err(e) => {
            let mut s = e;
            s.append(": ");
            s.append(raw_stdout);
            Err(OrmError::ParseFailed(s))
        },
        Ok(out) => {
            if !out.ok {
                return Err(OrmError::MigrationFailed(copy_str("migrate script reported ok=false")));
            }
            let applied = match out.migrations_applied {
                Some(n) => n,
                None => match out.pending {
                    Some(p) => p,
                    None => 0,
                },
            };
            let duration = if elapsed_ms >= out.duration_ms { elapsed_ms } else { out.duration_ms };
            Ok(MigrationResult {
                migrations_applied: applied,
                migration_files: list_or_empty(out.migration_files),
                warnings: list_or_empty(out.warnings),
                duration_ms: duration,
            })
        },
    }
}

/// The options of the two runs of an automatic migration: a check, then an
/// apply, both without generation or JSON output.
pub fn auto_migrate_options(project_dir: &str, check_only: bool) -> (r: MigrationOptions)
    ensures
        r.project_dir@ == project_dir@,
        !r.generate_only && r.check_only == check_only && !r.json_output,
{
    MigrationOptions { project_dir: copy_str(project_dir), generate_only: false, check_only, json_output: false }
}

/// What an automatic migration does after its check run.
#[derive(Debug)]
pub enum AutoMigrateStep {
    /// Nothing is pending: the check's result is the outcome.
    UpToDate(MigrationResult),
    /// Migrations are pending: run the migrations.
    ApplyPending,
}

/// Decides, from the check run's result, whether pending migrations must be applied.
pub fn auto_migrate(check_result: MigrationResult) -> (r: AutoMigrateStep)
    ensures
        check_result.migrations_applied == 0 ==> (r matches AutoMigrateStep::UpToDate(res) && res == check_result),
        check_result.migrations_applied != 0 ==> r is ApplyPending,
{
    if check_result.migrations_applied == 0 {
        AutoMigrateStep::UpToDate(check_result)
    } else {
        AutoMigrateStep::ApplyPending
    }
}

/// Resolves the migrate script: the `ROTIV_MIGRATE_SCRIPT_PATH` override,
/// else the first existing candidate (the monorepo layout, then the layout
/// beside the binary).
pub fn resolve_migrate_script(search: &ScriptSearch) -> (r: Result<String, OrmError>)
    ensures
        match spec_choose_script(*search) {
            Ok(p) => r matches Ok(s) && s@ == p,
            Err(Some(p)) => r matches Err(OrmError::ScriptNotFound(s))
                && s@ == "ROTIV_MIGRATE_SCRIPT_PATH="@ + p + " does not exist"@,
            Err(None) => r matches Err(OrmError::ScriptNotFound(s))
                && s@ == "Set ROTIV_MIGRATE_SCRIPT_PATH or run from the Rotiv monorepo"@,
        },
{
    match choose_script(search) {
        ScriptChoice::Found(p) => Ok(p),
        ScriptChoice::OverrideMissing(p) => {
            let mut s = copy_str("ROTIV_MIGRATE_SCRIPT_PATH=");
            s.append(p.as_str());
            s.append(" does not exist");
            Err(OrmError::ScriptNotFound(s))
        },
        ScriptChoice::NotFound => Err(OrmError::ScriptNotFound(copy_str("Set ROTIV_MIGRATE_SCRIPT_PATH or run from the Rotiv monorepo"))),
    }
}

} // verus!
