//! The Node.js route worker: where its entry point and the `tsx` loader are
//! found, how it is started and what its failures are reported as.

use vstd::prelude::*;
use crate::error::RotivError;
use crate::locate::{ScriptChoice, ScriptSearch, choose_script, first_existing, first_existing_from, spec_choose_script};
use crate::text::{copy_str, decimal, decimal_string, str_views};

verus! {

/// Resolves the route-worker entry point: the `ROTIV_WORKER_PATH` override
/// (an error when it does not exist), else the first existing candidate (the
/// path the front end wrote the embedded worker to, the monorepo layout, the
/// layout beside the binary).
pub fn resolve_worker_path(search: &ScriptSearch) -> (r: Result<String, RotivError>)
    ensures
        match spec_choose_script(*search) {
            Ok(p) => r matches Ok(s) && s@ == p,
            Err(Some(p)) => r matches Err(e) && e.code@ == "E_WORKER_NOT_FOUND"@
                && e.message@ == "ROTIV_WORKER_PATH is set but file not found: "@ + p
                && (e.suggestion matches Some(s) && s@ == "Check that the path points to @rotiv/route-worker/src/index.ts"@),
            Err(None) => r matches Err(e) && e.code@ == "E_WORKER_NOT_FOUND"@
                && e.message@ == "cannot locate @rotiv/route-worker entry point"@
                && (e.suggestion matches Some(s) && s@ == "Set ROTIV_WORKER_PATH=/path/to/packages/@rotiv/route-worker/src/index.ts"@),
        },
{
    match choose_script(search) {
        ScriptChoice::Found(p) => Ok(p),
        ScriptChoice::OverrideMissing(p) => {
            let mut msg = copy_str("ROTIV_WORKER_PATH is set but file not found: ");
            msg.append(p.as_str());
            Err(RotivError::new("E_WORKER_NOT_FOUND", msg.as_str()).with_suggestion(
                "Check that the path points to @rotiv/route-worker/src/index.ts",
            ))
        },
        ScriptChoice::NotFound => Err(RotivError::new("E_WORKER_NOT_FOUND", "cannot locate @rotiv/route-worker entry point").with_suggestion(
            "Set ROTIV_WORKER_PATH=/path/to/packages/@rotiv/route-worker/src/index.ts",
        )),
    }
}

/// The `tsx` loader for `node --import`: the first existing candidate (the
/// project's `node_modules`, then those beside and above the binary), else
/// the bare specifier `tsx`.
pub fn resolve_tsx_loader(candidates: &Vec<(String, bool)>) -> (r: String)
    ensures
        r@ == match first_existing_from(candidates@, 0) {
            Some(p) => p,
            None => "tsx"@,
        },
{
    match first_existing(candidates) {
        Some(p) => p,
        None => copy_str("tsx"),
    }
}

/// The arguments of `node` that start the worker.
pub fn worker_args(tsx_loader: &str, worker_path: &str) -> (r: Vec<String>)
    ensures
        str_views(r@) == seq!["--import"@, tsx_loader@, worker_path@],
{
    let v = vec![copy_str("--import"), copy_str(tsx_loader), copy_str(worker_path)];
    assert(str_views(v@) =~= seq!["--import"@, tsx_loader@, worker_path@]);
    v
}

/// The environment the worker is started with.
pub fn worker_env(port: u16, project_dir: &str, node_path: &str) -> (r: Vec<(String, String)>)
    ensures
        r@.len() == 3,
        r@[0].0@ == "ROTIV_WORKER_PORT"@ && r@[0].1@ == decimal(port as nat),
        r@[1].0@ == "ROTIV_PROJECT_DIR"@ && r@[1].1@ == project_dir@,
        r@[2].0@ == "NODE_PATH"@ && r@[2].1@ == node_path@,
{
    vec![
        (copy_str("ROTIV_WORKER_PORT"), decimal_string(port as u64)),
        (copy_str("ROTIV_PROJECT_DIR"), copy_str(project_dir)),
        (copy_str("NODE_PATH"), copy_str(node_path)),
    ]
}

/// The health endpoint of the worker listening on `port`.
pub fn health_url(port: u16) -> (r: String)
    ensures
        r@ == "http://127.0.0.1:"@ + decimal(port as nat) + "/_rotiv/health"@,
{
    let mut s = copy_str("http://127.0.0.1:");
    let p = decimal_string(port as u64);
    s.append(p.as_str());
    s.append("/_rotiv/health");
    s
}

/// The error for a worker that could not be started (`E_WORKER_SPAWN`).
pub fn spawn_error(detail: &str) -> (r: RotivError)
    ensures
        r.code@ == "E_WORKER_SPAWN"@,
        r.message@ == "failed to start route worker: "@ + detail@,
        r.suggestion matches Some(s) && s@
            == "Make sure Node.js is installed and available in your PATH. Install tsx with: npm install -g tsx"@,
        r.file is None && r.line is None && r.expected is None && r.got is None && r.corrected_code is None,
{
    let mut msg = copy_str("failed to start route worker: ");
    msg.append(detail);
    RotivError::new("E_WORKER_SPAWN", msg.as_str()).with_suggestion(
        "Make sure Node.js is installed and available in your PATH. Install tsx with: npm install -g tsx",
    )
}

/// The error for a worker that did not answer its health check in time (`E_WORKER_TIMEOUT`).
pub fn timeout_error(secs: u64) -> (r: RotivError)
    ensures
        r.code@ == "E_WORKER_TIMEOUT"@,
        r.message@ == "route worker did not become ready within "@ + decimal(secs as nat) + "s"@,
        r.suggestion matches Some(s) && s@ == "Check that Node.js and tsx are installed: node --version && npx tsx --version"@,
        r.file is None && r.line is None && r.expected is None && r.got is None && r.corrected_code is None,
{
    let mut msg = copy_str("route worker did not become ready within ");
    let n = decimal_string(secs);
    msg.append(n.as_str());
    msg.append("s");
    RotivError::new("E_WORKER_TIMEOUT", msg.as_str()).with_suggestion(
        "Check that Node.js and tsx are installed: node --version && npx tsx --version",
    )
}

/// What waiting for the worker does next.
#[derive(Debug, Clone, Copy, PartialEq, Eq, Structural)]
pub enum ReadyStep {
    /// The health check succeeded.
    Ready,
    /// The deadline passed: fail with the timeout error.
    TimedOut,
    /// Sleep briefly and check again.
    Retry,
}

/// One round of waiting for the worker: past the deadline it gives up;
/// otherwise a successful health check ends the wait, and anything else
/// (no answer, an unsuccessful status) leads to another round.
pub fn ready_step(deadline_passed: bool, health_ok: bool) -> (r: ReadyStep)
    ensures
        r == if deadline_passed {
            ReadyStep::TimedOut
        } else if health_ok {
            ReadyStep::Ready
        } else {
            ReadyStep::Retry
        },
{
    if deadline_passed {
        ReadyStep::TimedOut
    } else if health_ok {
        ReadyStep::Ready
    } else {
        ReadyStep::Retry
    }
}


/// The directory the worker runs in: the project when it has its own
/// `node_modules`, else the package directory two levels above the worker
/// entry point (when it has one), else the project.
pub fn worker_package_dir(project_dir: &str, project_has_node_modules: bool, worker_package: Option<String>) -> (r: String)
    ensures
        r@ == if project_has_node_modules {
            project_dir@
        } else {
            match worker_package {
                Some(p) => p@,
                None => project_dir@,
            }
        },
{
    if project_has_node_modules {
        copy_str(project_dir)
    } else {
        match worker_package {
            Some(p) => p,
            None => copy_str(project_dir),
        }
    }
}

} // verus!
