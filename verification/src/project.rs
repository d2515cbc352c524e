//! Finding a project's root directory.

use vstd::prelude::*;
use crate::error::{RotivError, not_a_project_error};

verus! {

/// Whether the `i`-th of the directories is the nearest one holding a
/// `.rotiv/spec.json`.
pub open spec fn is_nearest_project(dirs: Seq<(String, bool)>, i: int) -> bool {
    &&& 0 <= i < dirs.len()
    &&& dirs[i].1
    &&& forall|j: int| 0 <= j < i ==> !(#[trigger] dirs[j]).1
}

/// The project root among `dirs`: the current directory and then each of its
/// ancestors in turn, each with whether it holds `.rotiv/spec.json`. The root
/// is the first that does; when none does, the error `E_NOT_A_PROJECT`.
pub fn find_project_root(dirs: &Vec<(String, bool)>) -> (r: Result<String, RotivError>)
    ensures
        r is Ok <==> exists|i: int| 0 <= i < dirs@.len() && (#[trigger] dirs@[i]).1,
        r matches Ok(d) ==> exists|i: int| #[trigger] is_nearest_project(dirs@, i) && d@ == dirs@[i].0@,
        r matches Err(e) ==> {
            &&& e.code@ == "E_NOT_A_PROJECT"@
            &&& e.message@ == "not inside a Rotiv project"@
            &&& e.suggestion matches Some(s)
                && s@ == "Run `rotiv new <name>` to create a project, then `cd <name> && rotiv dev`"@
            &&& e.file is None && e.line is None && e.expected is None && e.got is None && e.corrected_code is None
        },
{
    let mut i: usize = 0;
    while i < dirs.len()
        invariant
            i <= dirs.len(),
            forall|j: int| 0 <= j < i ==> !(#[trigger] dirs@[j]).1,
        decreases dirs.len() - i,
    {
        if dirs[i].1 {
            assert(is_nearest_project(dirs@, i as int));
            return Ok(dirs[i].0.clone());
        }
        i = i + 1;
    }
    Err(not_a_project_error())
}

} // verus!
