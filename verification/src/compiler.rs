//! Project compilation: the decisions around the Node.js build script (its
//! arguments, the reading of its report) and the compiler's errors.

use vstd::prelude::*;
use crate::locate::{ScriptChoice, ScriptSearch, choose_script, spec_choose_script};
use crate::text::{copy_str, str_views};

verus! {

/// Errors of a compilation.
#[derive(Debug)]
pub enum CompilerError {
    NotImplemented(String),
    SpawnFailed(String),
    BuildFailed(String),
    ScriptNotFound(String),
    ParseFailed(String),
}

/// The text of an error.
pub open spec fn compiler_error_text(e: CompilerError) -> Seq<char> {
    match e {
        CompilerError::NotImplemented(s) => "Not implemented: "@ + s@,
        CompilerError::SpawnFailed(s) => "Failed to spawn build process: "@ + s@,
        CompilerError::BuildFailed(s) => "Build failed: "@ + s@,
        CompilerError::ScriptNotFound(s) => "Build script not found. Set ROTIV_BUILD_SCRIPT_PATH or run from the monorepo: "@ + s@,
        CompilerError::ParseFailed(s) => "Failed to parse build output: "@ + s@,
    }
}

fn prefixed(prefix: &str, s: &String) -> (r: String)
    ensures
        r@ == prefix@ + s@,
{
    let mut out = copy_str(prefix);
    out.append(s.as_str());
    out
}

impl CompilerError {
    /// The error's message.
    pub fn message(&self) -> (r: String)
        ensures
            r@ == compiler_error_text(*self),
    {
        match self {
            CompilerError::NotImplemented(s) => prefixed("Not implemented: ", s),
            CompilerError::SpawnFailed(s) => prefixed("Failed to spawn build process: ", s),
            CompilerError::BuildFailed(s) => prefixed("Build failed: ", s),
            CompilerError::ScriptNotFound(s) => prefixed(
                "Build script not found. Set ROTIV_BUILD_SCRIPT_PATH or run from the monorepo: ",
                s,
            ),
            CompilerError::ParseFailed(s) => prefixed("Failed to parse build output: ", s),
        }
    }
}

/// Options for compiling a project.
#[derive(Debug)]
pub struct CompileOptions {
    /// Root directory of the project (contains `.rotiv/spec.json`).
    pub project_dir: String,
    /// Output directory.
    pub out_dir: String,
    /// Enable minification (production builds).
    pub minify: bool,
    /// Emit inline source maps (dev builds).
    pub source_maps: bool,
}

/// Result of a successful compilation.
#[derive(Debug)]
pub struct CompileResult {
    /// Paths of all files written to the output directory.
    pub files_written: Vec<String>,
    /// Non-fatal warnings produced during compilation.
    pub warnings: Vec<String>,
    /// Wall-clock duration in milliseconds.
    pub duration_ms: u64,
}

/// The report the build script prints on its standard output.
#[derive(Debug)]
pub struct BuildScriptOutput {
    pub files: Vec<String>,
    pub warnings: Vec<String>,
    pub duration_ms: u64,
}

/// The arguments of `node` that run the build script.
pub fn build_args(script_path: &str, options: &CompileOptions) -> (r: Vec<String>)
    ensures
        str_views(r@) == seq![
            "--import"@,
            "tsx"@,
            script_path@,
            "--project"@,
            options.project_dir@,
            "--out"@,
            options.out_dir@,
        ] + if options.minify {
            seq!["--minify"@]
        } else {
            Seq::empty()
        },
{
    let mut v = vec![
        copy_str("--import"),
        copy_str("tsx"),
        copy_str(script_path),
        copy_str("--project"),
        options.project_dir.clone(),
        copy_str("--out"),
        options.out_dir.clone(),
    ];
    if options.minify {
        v.push(copy_str("--minify"));
    }
    assert(str_views(v@) =~= seq![
        "--import"@,
        "tsx"@,
        script_path@,
        "--project"@,
        options.project_dir@,
        "--out"@,
        options.out_dir@,
    ] + if options.minify {
        seq!["--minify"@]
    } else {
        Seq::empty()
    });
    v
}

/// The outcome of a build-script run: the process failed (its standard
/// error), its report did not parse (the parser's message and the raw
/// output), or the result built from the report, whose duration is the longer
/// of the measured and the reported one.
pub fn finish_build(
    exit_ok: bool,
    stderr: String,
    report: Result<BuildScriptOutput, String>,
    raw_stdout: &str,
    elapsed_ms: u64,
) -> (r: Result<CompileResult, CompilerError>)
    ensures
        !exit_ok ==> (r matches Err(CompilerError::BuildFailed(s)) && s@ == stderr@),
        exit_ok ==> match report {
            Err(e) => r matches Err(CompilerError::ParseFailed(s)) && s@ == e@ + ": "@ + raw_stdout@,
            Ok(out) => r matches Ok(res) && {
                &&& str_views(res.files_written@) == str_views(out.files@)
                &&& str_views(res.warnings@) == str_views(out.warnings@)
                &&& res.duration_ms == if elapsed_ms >= out.duration_ms { elapsed_ms } else { out.duration_ms }
            },
        },
{
    if !exit_ok {
        return Err(CompilerError::BuildFailed(stderr));
    }
    match report {
        Err(e) => {
            let mut s = e;
            s.append(": ");
            s.append(raw_stdout);
            Err(CompilerError::ParseFailed(s))
        },
        Ok(out) => {
            let duration = if elapsed_ms >= out.duration_ms { elapsed_ms } else { out.duration_ms };
            Ok(CompileResult { files_written: out.files, warnings: out.warnings, duration_ms: duration })
        },
    }
}

/// Resolves the build script: the `ROTIV_BUILD_SCRIPT_PATH` override, else
/// the first existing candidate (the monorepo layout, then the layout beside
/// the binary).
pub fn resolve_build_script(search: &ScriptSearch) -> (r: Result<String, CompilerError>)
    ensures
        match spec_choose_script(*search) {
            Ok(p) => r matches Ok(s) && s@ == p,
            Err(Some(p)) => r matches Err(CompilerError::ScriptNotFound(s))
                && s@ == "ROTIV_BUILD_SCRIPT_PATH="@ + p + " does not exist"@,
            Err(None) => r matches Err(CompilerError::ScriptNotFound(s))
                && s@ == "Set ROTIV_BUILD_SCRIPT_PATH or run from the Rotiv monorepo"@,
        },
{
    match choose_script(search) {
        ScriptChoice::Found(p) => Ok(p),
        ScriptChoice::OverrideMissing(p) => {
            let mut s = copy_str("ROTIV_BUILD_SCRIPT_PATH=");
            s.append(p.as_str());
            s.append(" does not exist");
            Err(CompilerError::ScriptNotFound(s))
        },
        ScriptChoice::NotFound => Err(CompilerError::ScriptNotFound(copy_str("Set ROTIV_BUILD_SCRIPT_PATH or run from the Rotiv monorepo"))),
    }
}

} // verus!
