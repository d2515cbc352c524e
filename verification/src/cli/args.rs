//! The command line: global flag, commands and their arguments.

use vstd::prelude::*;

verus! {

/// The framework version.
pub const VERSION: &'static str = "0.1.0";

/// The parsed command line.
#[derive(Debug)]
pub struct Cli {
    /// Output results as JSON.
    pub json: bool,
    pub command: Commands,
}

/// The commands.
#[derive(Debug)]
pub enum Commands {
    /// Create a new project.
    New { name: String },
    /// Print framework version and project spec summary.
    Info,
    /// Start the development server with file watching.
    Dev { port: u16, host: String },
    /// Compile the project to `dist/`.
    Build { out: Option<String>, minify: bool },
    /// Run database migrations (generate, apply, or check).
    Migrate { generate_only: bool, check: bool },
    /// Scaffold a new route, model or module.
    Add(AddArgs),
    /// Sync `.rotiv/spec.json` with the files of the project.
    SpecSync,
    /// Run static analysis against the framework's rules.
    Validate { fix: bool },
    /// Query the built-in knowledge base.
    Explain { topic: String },
    /// Regenerate `.rotiv/context.md` from the project.
    ContextRegen,
    /// Analyze which routes are affected by changes to a file.
    DiffImpact { file: String },
    /// Deploy the project to a remote server via SSH.
    Deploy {
        host: Option<String>,
        user: Option<String>,
        remote_path: Option<String>,
        service: Option<String>,
        init: bool,
        dry_run: bool,
        skip_build: bool,
    },
}

/// The arguments of `add`.
#[derive(Debug)]
pub struct AddArgs {
    pub subcommand: AddSubcommand,
}

/// What `add` scaffolds.
#[derive(Debug)]
pub enum AddSubcommand {
    /// A route file at `app/routes/<path>.tsx`.
    Route { path: String },
    /// A model file at `app/models/<name>.ts`.
    Model { name: String },
    /// A module directory at `app/modules/<name>/`.
    Module { name: String },
}

/// How results are printed.
#[derive(Debug, Clone, Copy, PartialEq, Eq, Structural)]
pub enum OutputMode {
    Human,
    Json,
}

/// The output mode the `--json` flag selects.
pub fn output_mode(json: bool) -> (r: OutputMode)
    ensures
        r == if json { OutputMode::Json } else { OutputMode::Human },
{
    if json { OutputMode::Json } else { OutputMode::Human }
}

} // verus!
