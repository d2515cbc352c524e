//! Choice among candidate locations of a helper script, in priority order.

use vstd::prelude::*;

verus! {

/// The first candidate that exists, from position `i` on.
pub open spec fn first_existing_from(c: Seq<(String, bool)>, i: int) -> Option<Seq<char>>
    decreases c.len() - i,
{
    if i < 0 || i >= c.len() {
        None
    } else if c[i].1 {
        Some(c[i].0@)
    } else {
        first_existing_from(c, i + 1)
    }
}

/// The first of the candidates (path, whether it exists) that exists.
pub fn first_existing(candidates: &Vec<(String, bool)>) -> (r: Option<String>)
    ensures
        match r {
            Some(p) => Some(p@),
            None => None,
        } == first_existing_from(candidates@, 0),
{
    let mut i: usize = 0;
    while i < candidates.len()
        invariant
            i <= candidates.len(),
            first_existing_from(candidates@, 0) == first_existing_from(candidates@, i as int),
        decreases candidates.len() - i,
    {
        if candidates[i].1 {
            return Some(candidates[i].0.clone());
        }
        i = i + 1;
    }
    None
}

/// Where a script was looked for: the override given in an environment
/// variable (its value and whether that path exists), then the other
/// candidates in priority order.
#[derive(Debug)]
pub struct ScriptSearch {
    pub env_override: Option<(String, bool)>,
    pub candidates: Vec<(String, bool)>,
}

/// The outcome of a search: the override when it is set (an error when it
/// does not exist), else the first existing candidate, else nothing.
pub enum ScriptChoice {
    Found(String),
    OverrideMissing(String),
    NotFound,
}

pub open spec fn spec_choose_script(s: ScriptSearch) -> Result<Seq<char>, Option<Seq<char>>> {
    match s.env_override {
        Some((p, exists)) => if exists {
            Ok(p@)
        } else {
            Err(Some(p@))
        },
        None => match first_existing_from(s.candidates@, 0) {
            Some(p) => Ok(p),
            None => Err(None),
        },
    }
}

pub open spec fn choice_view(c: ScriptChoice) -> Result<Seq<char>, Option<Seq<char>>> {
    match c {
        ScriptChoice::Found(p) => Ok(p@),
        ScriptChoice::OverrideMissing(p) => Err(Some(p@)),
        ScriptChoice::NotFound => Err(None),
    }
}

/// Picks the script to run.
pub fn choose_script(search: &ScriptSearch) -> (r: ScriptChoice)
    ensures
        choice_view(r) == spec_choose_script(*search),
{
    match &search.env_override {
        Some((p, exists)) => if *exists {
            ScriptChoice::Found(p.clone())
        } else {
            ScriptChoice::OverrideMissing(p.clone())
        },
        None => match first_existing(&search.candidates) {
            Some(p) => ScriptChoice::Found(p),
            None => ScriptChoice::NotFound,
        },
    }
}

} // verus!
