//! `rotiv new`: project-name checks, template filling and the creation
//! timestamp.

use vstd::prelude::*;
use crate::calendar::{format_timestamp, timestamp_text};
use crate::chars::{is_alphanumeric, spec_is_alphanumeric};
use crate::error::RotivError;
use crate::text::{chars_of, copy_str, replace_all, replace_seq};

verus! {

/// Whether a project name holds only alphanumeric characters, hyphens and underscores.
pub open spec fn valid_project_name(name: Seq<char>) -> bool {
    forall|i: int| 0 <= i < name.len() ==> {
        let c = #[trigger] name[i];
        spec_is_alphanumeric(c) || c == '-' || c == '_'
    }
}

/// Checks a project name; the error (`E002`) names the accepted characters.
pub fn validate_project_name(name: &str) -> (r: Result<(), RotivError>)
    ensures
        r is Ok <==> valid_project_name(name@),
        r matches Err(e) ==> {
            &&& e.code@ == "E002"@
            &&& e.message@ == "invalid project name '"@ + name@
                + "': only alphanumeric characters, hyphens, and underscores are allowed"@
            &&& e.expected matches Some(x) && x@ == "alphanumeric, hyphens, underscores"@
            &&& e.got matches Some(g) && g@ == name@
            &&& e.suggestion is None && e.corrected_code is None && e.file is None && e.line is None
        },
{
    let v = chars_of(name);
    let mut i: usize = 0;
    while i < v.len()
        invariant
            v@ == name@,
            i <= v.len(),
            forall|j: int| 0 <= j < i ==> {
                let c = #[trigger] v@[j];
                spec_is_alphanumeric(c) || c == '-' || c == '_'
            },
        decreases v.len() - i,
    {
        let c = v[i];
        if !(is_alphanumeric(c) || c == '-' || c == '_') {
            let mut msg = copy_str("invalid project name '");
            msg.append(name);
            msg.append("': only alphanumeric characters, hyphens, and underscores are allowed");
            let e = RotivError::new("E002", msg.as_str()).with_expected("alphanumeric, hyphens, underscores", name);
            return Err(e);
        }
        i = i + 1;
    }
    Ok(())
}

/// The error for a project directory that already exists (`E001`).
pub fn directory_exists_error(name: &str) -> (r: RotivError)
    ensures
        r.code@ == "E001"@,
        r.message@ == "directory '"@ + name@ + "' already exists"@,
        r.suggestion matches Some(s) && s@ == "Choose a different name or remove the existing directory: rm -rf "@ + name@,
        r.file is None && r.line is None && r.expected is None && r.got is None && r.corrected_code is None,
{
    let mut msg = copy_str("directory '");
    msg.append(name);
    msg.append("' already exists");
    let mut hint = copy_str("Choose a different name or remove the existing directory: rm -rf ");
    hint.append(name);
    RotivError::new("E001", msg.as_str()).with_suggestion(hint.as_str())
}

/// A template file's content for a new project: `{{project_name}}` and then
/// `{{created_at}}` replaced.
pub fn render_template(template: &str, project_name: &str, created_at: &str) -> (r: String)
    ensures
        r@ == replace_seq(
            replace_seq(template@, "{{project_name}}"@, project_name@),
            "{{created_at}}"@,
            created_at@,
        ),
{
    proof {
        reveal_strlit("{{project_name}}");
        reveal_strlit("{{created_at}}");
    }
    let a = replace_all(template, "{{project_name}}", project_name);
    replace_all(a.as_str(), "{{created_at}}", created_at)
}

/// A point in time of the system clock (`std::time::SystemTime`).
#[verifier::external_type_specification]
#[verifier::external_body]
pub struct ExSystemTime(std::time::SystemTime);

/// Reads the system clock (`SystemTime::now`). What time it returns is not
/// stated.
#[verifier::external_body]
fn clock_now() -> (r: std::time::SystemTime) {
    std::time::SystemTime::now()
}

/// The time elapsed from the Unix epoch to `t` (`SystemTime::duration_since`
/// with `UNIX_EPOCH`), `None` for a time before the epoch. Not stated.
#[verifier::external_body]
fn since_epoch(t: &std::time::SystemTime) -> (r: Option<std::time::Duration>) {
    t.duration_since(std::time::UNIX_EPOCH).ok()
}

/// The whole seconds of a duration (`Duration::as_secs`). Not stated: the
/// duration is opaque here.
#[verifier::external_body]
fn whole_seconds(d: &std::time::Duration) -> (r: u64) {
    d.as_secs()
}

/// Whole seconds since the Unix epoch by the system clock, 0 for a clock set
/// before it.
fn unix_seconds() -> (r: u64) {
    let now = clock_now();
    match since_epoch(&now) {
        Some(d) => whole_seconds(&d),
        None => 0,
    }
}

/// The current UTC time as `YYYY-MM-DDTHH:MM:SSZ`.
pub fn current_timestamp() -> (r: String)
    ensures
        exists|secs: u64| r@ == timestamp_text(secs as nat),
{
    let secs = unix_seconds();
    format_timestamp(secs)
}

} // verus!
