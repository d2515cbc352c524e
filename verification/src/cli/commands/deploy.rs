//! `rotiv deploy`: the deploy configuration (flags over `.rotiv/deploy.json`),
//! the commands of a deployment and the errors of its steps.

use vstd::prelude::*;
use crate::cli::error::CliError;
use crate::error::RotivError;
use crate::text::copy_str;
use crate::json::{json_string_at, opt_str_view, spec_json_string_at, spec_json_top_keys};

verus! {

/// The template written by `deploy --init`.
pub fn deploy_config_template() -> (r: &'static str)
    ensures
        r@ == "{\n  \"host\": \"YOUR_SERVER_IP\",\n  \"user\": \"root\",\n  \"remote_path\": \"/opt/rotiv-apps/myapp\",\n  \"service_name\": \"myapp\"\n}\n"@,
{
    "{\n  \"host\": \"YOUR_SERVER_IP\",\n  \"user\": \"root\",\n  \"remote_path\": \"/opt/rotiv-apps/myapp\",\n  \"service_name\": \"myapp\"\n}\n"
}

/// Where a deployment goes.
#[derive(Debug)]
pub struct DeployConfig {
    pub host: String,
    pub user: String,
    pub remote_path: String,
    pub service_name: String,
}

/// The string values of the keys of `.rotiv/deploy.json` (`None` for a key
/// that is absent or not a string).
#[derive(Debug)]
pub struct DeployFile {
    pub host: Option<String>,
    pub user: Option<String>,
    pub remote_path: Option<String>,
    pub service_name: Option<String>,
}

/// A flag's value, else the file's, else nothing.
pub open spec fn pick(flag: Option<&str>, file: Option<DeployFile>, field: spec_fn(DeployFile) -> Option<String>) -> Option<Seq<char>> {
    match flag {
        Some(f) => Some(f@),
        None => match file {
            Some(c) => match field(c) {
                Some(v) => Some(v@),
                None => None,
            },
            None => None,
        },
    }
}

pub open spec fn or_text(o: Option<Seq<char>>, default: Seq<char>) -> Seq<char> {
    match o {
        Some(v) => v,
        None => default,
    }
}

fn choose_value(flag: Option<&str>, file_value: Option<String>, default: &str) -> (r: String)
    ensures
        r@ == match flag {
            Some(f) => f@,
            None => match file_value {
                Some(v) => v@,
                None => default@,
            },
        },
{
    match flag {
        Some(f) => copy_str(f),
        None => match file_value {
            Some(v) => v,
            None => copy_str(default),
        },
    }
}

/// The string at `pointer` of a document known to parse.
pub open spec fn string_field(raw: Seq<char>, pointer: Seq<char>) -> Option<Seq<char>> {
    match spec_json_string_at(raw, pointer) {
        Some(v) => v,
        None => None,
    }
}

/// The contents of `.rotiv/deploy.json` whose text is `raw`: `None` when it is
/// not JSON, else the string values of its keys `host`, `user`,
/// `remote_path` and `service_name`.
pub fn deploy_file_of(raw: &str) -> (r: Option<DeployFile>)
    ensures
        r is None <==> spec_json_top_keys(raw@) is Err,
        r matches Some(f) ==> {
            &&& opt_str_view(f.host) == string_field(raw@, "/host"@)
            &&& opt_str_view(f.user) == string_field(raw@, "/user"@)
            &&& opt_str_view(f.remote_path) == string_field(raw@, "/remote_path"@)
            &&& opt_str_view(f.service_name) == string_field(raw@, "/service_name"@)
        },
{
    let host = match json_string_at(raw, "/host") {
        Some(v) => v,
        None => return None,
    };
    let user = match json_string_at(raw, "/user") {
        Some(v) => v,
        None => return None,
    };
    let remote_path = match json_string_at(raw, "/remote_path") {
        Some(v) => v,
        None => return None,
    };
    let service_name = match json_string_at(raw, "/service_name") {
        Some(v) => v,
        None => return None,
    };
    Some(DeployFile { host, user, remote_path, service_name })
}

/// The deploy configuration: each value from its flag, else from the config
/// file; the user defaults to `root`, the others to nothing. A missing host
/// is error `E023`, then a missing remote path `E024`.
pub fn load_config(
    file: Option<DeployFile>,
    host_flag: Option<&str>,
    user_flag: Option<&str>,
    path_flag: Option<&str>,
    service_flag: Option<&str>,
) -> (r: Result<DeployConfig, CliError>)
    ensures
        ({
            let host = or_text(pick(host_flag, file, |c: DeployFile| c.host), Seq::empty());
            let user = or_text(pick(user_flag, file, |c: DeployFile| c.user), "root"@);
            let path = or_text(pick(path_flag, file, |c: DeployFile| c.remote_path), Seq::empty());
            let service = or_text(pick(service_flag, file, |c: DeployFile| c.service_name), Seq::empty());
            if host.len() == 0 {
                r matches Err(CliError::Rotiv(e)) && e.code@ == "E023"@ && e.message@ == "deploy host not configured"@
                    && (e.suggestion matches Some(s)
                        && s@ == "Run `rotiv deploy --init` to create .rotiv/deploy.json, or pass --host <host>"@)
            } else if path.len() == 0 {
                r matches Err(CliError::Rotiv(e)) && e.code@ == "E024"@ && e.message@ == "deploy remote_path not configured"@
                    && (e.suggestion matches Some(s) && s@ == "Set remote_path in .rotiv/deploy.json, or pass --path <path>"@)
            } else {
                r matches Ok(c) && c.host@ == host && c.user@ == user && c.remote_path@ == path && c.service_name@ == service
            }
        }),
{
    let (fh, fu, fp, fs) = match file {
        Some(c) => (c.host, c.user, c.remote_path, c.service_name),
        None => (None, None, None, None),
    };
    let host = choose_value(host_flag, fh, "");
    let user = choose_value(user_flag, fu, "root");
    let remote_path = choose_value(path_flag, fp, "");
    let service_name = choose_value(service_flag, fs, "");
    proof {
        reveal_strlit("");
    }
    if host.as_str().unicode_len() == 0 {
        return Err(CliError::Rotiv(RotivError::new("E023", "deploy host not configured").with_suggestion(
            "Run `rotiv deploy --init` to create .rotiv/deploy.json, or pass --host <host>",
        )));
    }
    if remote_path.as_str().unicode_len() == 0 {
        return Err(CliError::Rotiv(RotivError::new("E024", "deploy remote_path not configured").with_suggestion(
            "Set remote_path in .rotiv/deploy.json, or pass --path <path>",
        )));
    }
    Ok(DeployConfig { host, user, remote_path, service_name })
}

/// `user@host`.
pub fn ssh_target(config: &DeployConfig) -> (r: String)
    ensures
        r@ == config.user@ + "@"@ + config.host@,
{
    let mut s = config.user.clone();
    s.append("@");
    s.append(config.host.as_str());
    s
}

/// Where the server binary is copied: `user@host:remote_path/server`.
pub fn scp_destination(config: &DeployConfig) -> (r: String)
    ensures
        r@ == config.user@ + "@"@ + config.host@ + ":"@ + config.remote_path@ + "/server"@,
{
    let mut s = ssh_target(config);
    s.append(":");
    s.append(config.remote_path.as_str());
    s.append("/server");
    s
}

/// The command run on the server: migrate, then restart the service.
pub fn remote_command(config: &DeployConfig) -> (r: String)
    ensures
        r@ == "cd "@ + config.remote_path@ + " && chmod +x server && ./server migrate 2>/dev/null; sudo systemctl restart "@
            + config.service_name@,
{
    let mut s = copy_str("cd ");
    s.append(config.remote_path.as_str());
    s.append(" && chmod +x server && ./server migrate 2>/dev/null; sudo systemctl restart ");
    s.append(config.service_name.as_str());
    s
}

/// A step of a deployment, as listed to the user.
#[derive(Debug)]
pub struct DeployStep {
    pub step: String,
    pub command: String,
    pub skipped: bool,
}

pub open spec fn step_view(s: DeployStep) -> (Seq<char>, Seq<char>, bool) {
    (s.step@, s.command@, s.skipped)
}

/// The steps of a deployment: the build (skipped on request), the upload of
/// the binary, and the remote migration and restart.
pub fn deploy_steps(config: &DeployConfig, skip_build: bool) -> (r: Vec<DeployStep>)
    ensures
        r@.map_values(|s: DeployStep| step_view(s)) == seq![
            ("build"@, "rotiv build"@, skip_build),
            ("upload binary"@, "scp dist/server "@ + config.user@ + "@"@ + config.host@ + ":"@ + config.remote_path@ + "/server"@, false),
            ("migrate + restart"@, "ssh "@ + config.user@ + "@"@ + config.host@ + " \""@ + "cd "@ + config.remote_path@
                + " && chmod +x server && ./server migrate 2>/dev/null; sudo systemctl restart "@ + config.service_name@ + "\""@, false),
        ],
{
    let mut scp = copy_str("scp dist/server ");
    let dest = scp_destination(config);
    scp.append(dest.as_str());
    let mut ssh = copy_str("ssh ");
    let target = ssh_target(config);
    ssh.append(target.as_str());
    ssh.append(" \"");
    let remote = remote_command(config);
    ssh.append(remote.as_str());
    ssh.append("\"");
    let v = vec![
        DeployStep { step: copy_str("build"), command: copy_str("rotiv build"), skipped: skip_build },
        DeployStep { step: copy_str("upload binary"), command: scp, skipped: false },
        DeployStep { step: copy_str("migrate + restart"), command: ssh, skipped: false },
    ];
    assert(v@.map_values(|s: DeployStep| step_view(s)) =~~= seq![
        ("build"@, "rotiv build"@, skip_build),
        ("upload binary"@, "scp dist/server "@ + config.user@ + "@"@ + config.host@ + ":"@ + config.remote_path@ + "/server"@, false),
        ("migrate + restart"@, "ssh "@ + config.user@ + "@"@ + config.host@ + " \""@ + "cd "@ + config.remote_path@
            + " && chmod +x server && ./server migrate 2>/dev/null; sudo systemctl restart "@ + config.service_name@ + "\""@, false),
    ]);
    v
}

/// The stages of a deployment that run a process.
#[derive(Debug, Clone, Copy, PartialEq, Eq, Structural)]
pub enum DeployStage {
    Build,
    Upload,
    Remote,
}

/// The error that stops a deployment at a failed `stage`.
pub open spec fn is_stage_error(stage: DeployStage, e: RotivError) -> bool {
    match stage {
        DeployStage::Build => e.code@ == "E020"@ && e.message@ == "build failed before deploy — fix build errors first"@
            && e.suggestion is None,
        DeployStage::Upload => e.code@ == "E021"@ && e.message@ == "scp upload failed — check host, user, and SSH key"@
            && (e.suggestion matches Some(s) && s@ == "Run `ssh <user>@<host>` manually to verify connectivity"@),
        DeployStage::Remote => e.code@ == "E022"@
            && e.message@ == "remote command failed — migrations or service restart returned non-zero"@
            && (e.suggestion matches Some(s) && s@ == "SSH in manually and check `journalctl -u <service> -n 50`"@),
    }
}

/// What a stage's process outcome means for the deployment: a stage whose
/// process ran and failed stops it with that stage's error; one whose process
/// could not be started, or that succeeded, lets it go on.
pub fn stage_error(stage: DeployStage, outcome: Option<bool>) -> (r: Option<RotivError>)
    ensures
        outcome != Some(false) ==> r is None,
        outcome == Some(false) ==> (r matches Some(e) && is_stage_error(stage, e)),
{
    match outcome {
        Some(false) => Some(match stage {
            DeployStage::Build => RotivError::new("E020", "build failed before deploy — fix build errors first"),
            DeployStage::Upload => RotivError::new("E021", "scp upload failed — check host, user, and SSH key")
                .with_suggestion("Run `ssh <user>@<host>` manually to verify connectivity"),
            DeployStage::Remote => RotivError::new(
                "E022",
                "remote command failed — migrations or service restart returned non-zero",
            ).with_suggestion("SSH in manually and check `journalctl -u <service> -n 50`"),
        }),
        _ => None,
    }
}

/// The error for `deploy --init` when the config file exists (`E010`).
pub fn config_exists_error() -> (r: RotivError)
    ensures
        r.code@ == "E010"@,
        r.message@ == "deploy.json already exists"@,
        r.suggestion matches Some(s) && s@ == "Edit .rotiv/deploy.json directly to update deploy config"@,
{
    RotivError::new("E010", "deploy.json already exists").with_suggestion("Edit .rotiv/deploy.json directly to update deploy config")
}

/// The message printed after a deployment.
pub fn deployed_message(config: &DeployConfig) -> (r: String)
    ensures
        r@ == "deployed to "@ + config.user@ + "@"@ + config.host@ + " — service '"@ + config.service_name@ + "' restarted"@,
{
    let mut s = copy_str("deployed to ");
    let t = ssh_target(config);
    s.append(t.as_str());
    s.append(" — service '");
    s.append(config.service_name.as_str());
    s.append("' restarted");
    s
}

/// What a deployment does next.
#[derive(Debug)]
pub enum DeployAction {
    /// Run the process of this stage and report how it ended.
    Run(DeployStage),
    /// Stop with this error.
    Fail(RotivError),
    /// All stages are done (or nothing runs, in a dry run).
    Finish,
}

/// The stage that follows `stage`, if any.
pub open spec fn stage_after(stage: DeployStage) -> Option<DeployStage> {
    match stage {
        DeployStage::Build => Some(DeployStage::Upload),
        DeployStage::Upload => Some(DeployStage::Remote),
        DeployStage::Remote => None,
    }
}

/// The next step of a deployment, given how the last stage run ended
/// (`last`: the stage, and `Some(success)` of its process, or `None` when it
/// could not be started; `None` before the first). A dry run runs nothing.
/// The stages run in order (build, unless skipped; upload; remote), and the
/// first whose process fails stops the deployment with its error.
pub fn deploy_next(dry_run: bool, skip_build: bool, last: Option<(DeployStage, Option<bool>)>) -> (r: DeployAction)
    ensures
        dry_run ==> r is Finish,
        !dry_run && last is None ==> r == DeployAction::Run(if skip_build {
            DeployStage::Upload
        } else {
            DeployStage::Build
        }),
        !dry_run ==> (last matches Some((stage, outcome)) ==> (if outcome == Some(false) {
            r matches DeployAction::Fail(e) && is_stage_error(stage, e)
        } else {
            match stage_after(stage) {
                Some(next) => r == DeployAction::Run(next),
                None => r is Finish,
            }
        })),
{
    if dry_run {
        return DeployAction::Finish;
    }
    match last {
        None => if skip_build {
            DeployAction::Run(DeployStage::Upload)
        } else {
            DeployAction::Run(DeployStage::Build)
        },
        Some((stage, outcome)) => match stage_error(stage, outcome) {
            Some(e) => DeployAction::Fail(e),
            None => match stage {
                DeployStage::Build => DeployAction::Run(DeployStage::Upload),
                DeployStage::Upload => DeployAction::Run(DeployStage::Remote),
                DeployStage::Remote => DeployAction::Finish,
            },
        },
    }
}

} // verus!
