//! Installed modules: their manifests and the consistency of the
//! capabilities they provide and require.

use vstd::prelude::*;
use crate::error::{RotivError, copy_opt};
use crate::sorting::{Keyed, sort_by_key, sorted_by_key, with_key};
use crate::text::{copy_str, str_equal, str_views};

verus! {

broadcast use vstd::seq_lib::group_seq_properties;

/// Module capability tier.
#[derive(Debug, Clone, Copy, PartialEq, Eq, Structural)]
pub enum ModuleTier {
    Primitive,
    Slot,
    EscapeHatch,
}

impl Default for ModuleTier {
    fn default() -> (r: Self)
        ensures
            r == ModuleTier::Slot,
    {
        ModuleTier::Slot
    }
}

/// Parsed module manifest (`app/modules/<name>/module.json`).
#[derive(Debug)]
pub struct ModuleManifest {
    pub name: String,
    pub version: String,
    pub description: Option<String>,
    pub provides: Vec<String>,
    pub requires: Vec<String>,
    pub configures: Vec<String>,
    pub tier: ModuleTier,
    pub entry: Option<String>,
    pub test: Option<String>,
}

/// A copy of a list of strings.
pub fn copy_strings(v: &Vec<String>) -> (r: Vec<String>)
    ensures
        r@ == v@,
{
    let mut out: Vec<String> = Vec::new();
    let mut i: usize = 0;
    while i < v.len()
        invariant
            i <= v.len(),
            out@ == v@.subrange(0, i as int),
        decreases v.len() - i,
    {
        out.push(v[i].clone());
        assert(out@ =~= v@.subrange(0, i + 1));
        i = i + 1;
    }
    assert(out@ =~= v@);
    out
}

/// Whether two manifests hold the same values.
pub open spec fn same_manifest(a: ModuleManifest, b: ModuleManifest) -> bool {
    &&& a.name@ == b.name@
    &&& a.version@ == b.version@
    &&& a.description == b.description
    &&& a.provides@ == b.provides@
    &&& a.requires@ == b.requires@
    &&& a.configures@ == b.configures@
    &&& a.tier == b.tier
    &&& a.entry == b.entry
    &&& a.test == b.test
}

impl Clone for ModuleManifest {
    fn clone(&self) -> (r: Self)
        ensures
            same_manifest(r, *self),
    {
        ModuleManifest {
            name: self.name.clone(),
            version: self.version.clone(),
            description: copy_opt(&self.description),
            provides: copy_strings(&self.provides),
            requires: copy_strings(&self.requires),
            configures: copy_strings(&self.configures),
            tier: self.tier,
            entry: copy_opt(&self.entry),
            test: copy_opt(&self.test),
        }
    }
}

impl Keyed for ModuleManifest {
    open spec fn spec_key(&self) -> Seq<char> {
        self.name@
    }

    fn key(&self) -> (r: String) {
        self.name.clone()
    }
}

/// A conflict: two or more modules providing the same capability.
#[derive(Debug)]
pub struct CapabilityConflict {
    pub capability: String,
    pub provided_by: Vec<String>,
}

/// A missing requirement: a module requires a capability no module provides.
#[derive(Debug)]
pub struct MissingRequirement {
    pub module: String,
    pub requires: String,
}

/// The capabilities of `caps`, each once, in order of first appearance.
pub open spec fn dedup_caps(caps: Seq<Seq<char>>) -> Seq<Seq<char>>
    decreases caps.len(),
{
    if caps.len() == 0 {
        Seq::empty()
    } else {
        dedup_caps(caps.drop_last()) + if caps.drop_last().contains(caps.last()) {
            Seq::empty()
        } else {
            seq![caps.last()]
        }
    }
}

/// Each capability of `caps` paired with the module name `name`.
pub open spec fn cap_pairs(caps: Seq<Seq<char>>, name: Seq<char>) -> Seq<(Seq<char>, Seq<char>)> {
    caps.map_values(|c: Seq<char>| (c, name))
}

/// The (capability, module name) pairs of one module, one per capability it
/// provides, however often its `provides` list names it.
pub open spec fn module_pairs(m: ModuleManifest) -> Seq<(Seq<char>, Seq<char>)> {
    cap_pairs(dedup_caps(str_views(m.provides@)), m.name@)
}

/// Whether module `m` lists `cap` among the capabilities it provides.
pub open spec fn provides_cap(m: ModuleManifest, cap: Seq<char>) -> bool {
    str_views(m.provides@).contains(cap)
}

/// The names of the modules that provide `cap`, in module order, one per module.
pub open spec fn provider_names(ms: Seq<ModuleManifest>, cap: Seq<char>) -> Seq<Seq<char>>
    decreases ms.len(),
{
    if ms.len() == 0 {
        Seq::empty()
    } else {
        provider_names(ms.drop_last(), cap) + if provides_cap(ms.last(), cap) {
            seq![ms.last().name@]
        } else {
            Seq::empty()
        }
    }
}

/// The (capability, module name) pairs of all modules, in module order.
pub open spec fn provide_pairs(ms: Seq<ModuleManifest>) -> Seq<(Seq<char>, Seq<char>)>
    decreases ms.len(),
{
    if ms.len() == 0 {
        Seq::empty()
    } else {
        provide_pairs(ms.drop_last()) + module_pairs(ms.last())
    }
}

/// The module names paired with `cap`, in order.
pub open spec fn names_for(pairs: Seq<(Seq<char>, Seq<char>)>, cap: Seq<char>) -> Seq<Seq<char>>
    decreases pairs.len(),
{
    if pairs.len() == 0 {
        Seq::empty()
    } else {
        names_for(pairs.drop_last(), cap) + if pairs.last().0 == cap {
            seq![pairs.last().1]
        } else {
            Seq::empty()
        }
    }
}

/// The distinct capabilities of the pairs, in order of first appearance.
pub open spec fn first_caps(pairs: Seq<(Seq<char>, Seq<char>)>) -> Seq<Seq<char>>
    decreases pairs.len(),
{
    if pairs.len() == 0 {
        Seq::empty()
    } else {
        let prev = first_caps(pairs.drop_last());
        if prev.contains(pairs.last().0) {
            prev
        } else {
            prev.push(pairs.last().0)
        }
    }
}

/// The capabilities among `caps` with more than one provider, each with its providers.
pub open spec fn conflicts_from(
    caps: Seq<Seq<char>>,
    pairs: Seq<(Seq<char>, Seq<char>)>,
) -> Seq<(Seq<char>, Seq<Seq<char>>)>
    decreases caps.len(),
{
    if caps.len() == 0 {
        Seq::empty()
    } else {
        let c = caps.last();
        conflicts_from(caps.drop_last(), pairs) + if names_for(pairs, c).len() > 1 {
            seq![(c, names_for(pairs, c))]
        } else {
            Seq::empty()
        }
    }
}

/// The conflicts among the modules: every capability provided by more than one
/// module, in order of first appearance, with the names of its providers in
/// module order.
pub open spec fn spec_conflicts(ms: Seq<ModuleManifest>) -> Seq<(Seq<char>, Seq<Seq<char>>)> {
    let pairs = provide_pairs(ms);
    conflicts_from(first_caps(pairs), pairs)
}

/// The requirements among `reqs` of module `name` that nothing provides.
pub open spec fn reqs_missing(
    name: Seq<char>,
    reqs: Seq<Seq<char>>,
    pairs: Seq<(Seq<char>, Seq<char>)>,
) -> Seq<(Seq<char>, Seq<char>)>
    decreases reqs.len(),
{
    if reqs.len() == 0 {
        Seq::empty()
    } else {
        reqs_missing(name, reqs.drop_last(), pairs) + if names_for(pairs, reqs.last()).len() == 0 {
            seq![(name, reqs.last())]
        } else {
            Seq::empty()
        }
    }
}

/// The missing requirements of the modules `ms` against the pairs.
pub open spec fn missing_in(
    ms: Seq<ModuleManifest>,
    pairs: Seq<(Seq<char>, Seq<char>)>,
) -> Seq<(Seq<char>, Seq<char>)>
    decreases ms.len(),
{
    if ms.len() == 0 {
        Seq::empty()
    } else {
        missing_in(ms.drop_last(), pairs) + reqs_missing(ms.last().name@, str_views(ms.last().requires@), pairs)
    }
}

/// The missing requirements: for each module in order, each required
/// capability that no module provides, as (module name, capability).
pub open spec fn spec_missing(ms: Seq<ModuleManifest>) -> Seq<(Seq<char>, Seq<char>)> {
    missing_in(ms, provide_pairs(ms))
}

pub open spec fn conflict_views(s: Seq<CapabilityConflict>) -> Seq<(Seq<char>, Seq<Seq<char>>)> {
    s.map_values(|c: CapabilityConflict| (c.capability@, str_views(c.provided_by@)))
}

pub open spec fn missing_views(s: Seq<MissingRequirement>) -> Seq<(Seq<char>, Seq<char>)> {
    s.map_values(|m: MissingRequirement| (m.module@, m.requires@))
}

pub open spec fn pair_views(s: Seq<(String, String)>) -> Seq<(Seq<char>, Seq<char>)> {
    s.map_values(|p: (String, String)| (p.0@, p.1@))
}

/// Whether `s` is among the strings `v`.
fn contains_string(v: &Vec<String>, s: &str) -> (r: bool)
    ensures
        r == str_views(v@).contains(s@),
{
    let mut i: usize = 0;
    while i < v.len()
        invariant
            i <= v.len(),
            forall|k: int| 0 <= k < i ==> v@[k]@ != s@,
        decreases v.len() - i,
    {
        if str_equal(v[i].as_str(), s) {
            assert(str_views(v@)[i as int] == s@);
            return true;
        }
        i = i + 1;
    }
    proof {
        assert forall|k: int| 0 <= k < str_views(v@).len() implies str_views(v@)[k] != s@ by {
            assert(str_views(v@)[k] == v@[k]@);
        }
    }
    false
}

/// Whether the `j`-th string of `v` already occurs before position `j`.
fn occurs_before(v: &Vec<String>, j: usize) -> (r: bool)
    requires
        j < v.len(),
    ensures
        r == str_views(v@).subrange(0, j as int).contains(v@[j as int]@),
{
    let ghost sub = str_views(v@).subrange(0, j as int);
    let mut k: usize = 0;
    while k < j
        invariant
            k <= j < v.len(),
            sub == str_views(v@).subrange(0, j as int),
            forall|t: int| 0 <= t < k ==> sub[t] != v@[j as int]@,
        decreases j - k,
    {
        assert(sub[k as int] == v@[k as int]@);
        if str_equal(v[k].as_str(), v[j].as_str()) {
            assert(sub[k as int] == v@[j as int]@);
            return true;
        }
        k = k + 1;
    }
    false
}

/// The (capability, module name) pairs of all modules.
fn collect_pairs(modules: &Vec<ModuleManifest>) -> (r: Vec<(String, String)>)
    ensures
        pair_views(r@) == provide_pairs(modules@),
{
    let mut out: Vec<(String, String)> = Vec::new();
    let mut i: usize = 0;
    while i < modules.len()
        invariant
            i <= modules.len(),
            pair_views(out@) == provide_pairs(modules@.subrange(0, i as int)),
        decreases modules.len() - i,
    {
        let m = &modules[i];
        assert(modules@.subrange(0, i + 1).drop_last() =~= modules@.subrange(0, i as int));
        let ghost base = pair_views(out@);
        let ghost sv = str_views(m.provides@);
        let mut j: usize = 0;
        while j < m.provides.len()
            invariant
                j <= m.provides.len(),
                sv == str_views(m.provides@),
                pair_views(out@) == base + cap_pairs(dedup_caps(sv.subrange(0, j as int)), m.name@),
            decreases m.provides.len() - j,
        {
            let ghost prev = pair_views(out@);
            let ghost sj = sv.subrange(0, j as int);
            assert(sv.subrange(0, j + 1).drop_last() =~= sj);
            assert(sv.subrange(0, j + 1).last() == sv[j as int]);
            assert(sv[j as int] == m.provides@[j as int]@);
            if !occurs_before(&m.provides, j) {
                out.push((m.provides[j].clone(), m.name.clone()));
                assert(dedup_caps(sv.subrange(0, j + 1)) == dedup_caps(sj) + seq![sv[j as int]]);
                assert(cap_pairs(dedup_caps(sv.subrange(0, j + 1)), m.name@)
                    =~= cap_pairs(dedup_caps(sj), m.name@).push((sv[j as int], m.name@)));
                assert(pair_views(out@) =~= prev.push((sv[j as int], m.name@)));
            } else {
                assert(dedup_caps(sv.subrange(0, j + 1)) =~= dedup_caps(sj));
            }
            j = j + 1;
        }
        assert(sv.subrange(0, sv.len() as int) =~= sv);
        i = i + 1;
    }
    assert(modules@.subrange(0, modules@.len() as int) =~= modules@);
    out
}

/// The modules of the pairs that provide `cap`.
fn providers_of(pairs: &Vec<(String, String)>, cap: &str) -> (r: Vec<String>)
    ensures
        str_views(r@) == names_for(pair_views(pairs@), cap@),
{
    let ghost pv = pair_views(pairs@);
    let mut out: Vec<String> = Vec::new();
    let mut i: usize = 0;
    while i < pairs.len()
        invariant
            pv == pair_views(pairs@),
            i <= pairs.len(),
            str_views(out@) == names_for(pv.subrange(0, i as int), cap@),
        decreases pairs.len() - i,
    {
        assert(pv.subrange(0, i + 1).drop_last() =~= pv.subrange(0, i as int));
        let ghost prev = str_views(out@);
        if str_equal(pairs[i].0.as_str(), cap) {
            out.push(pairs[i].1.clone());
            assert(str_views(out@) =~= prev + seq![pairs@[i as int].1@]);
        } else {
            assert(str_views(out@) =~= prev + Seq::<Seq<char>>::empty());
        }
        i = i + 1;
    }
    assert(pv.subrange(0, pv.len() as int) =~= pv);
    out
}

/// The distinct capabilities of the pairs, in order of first appearance.
fn distinct_caps(pairs: &Vec<(String, String)>) -> (r: Vec<String>)
    ensures
        str_views(r@) == first_caps(pair_views(pairs@)),
{
    let ghost pv = pair_views(pairs@);
    let mut out: Vec<String> = Vec::new();
    let mut i: usize = 0;
    while i < pairs.len()
        invariant
            pv == pair_views(pairs@),
            i <= pairs.len(),
            str_views(out@) == first_caps(pv.subrange(0, i as int)),
        decreases pairs.len() - i,
    {
        assert(pv.subrange(0, i + 1).drop_last() =~= pv.subrange(0, i as int));
        let ghost prev = str_views(out@);
        if !contains_string(&out, pairs[i].0.as_str()) {
            out.push(pairs[i].0.clone());
            assert(str_views(out@) =~= prev.push(pairs@[i as int].0@));
        }
        i = i + 1;
    }
    assert(pv.subrange(0, pv.len() as int) =~= pv);
    out
}

/// Checks capability consistency across installed modules.
///
/// Returns the capabilities provided by more than one module (conflicts), and
/// the capabilities required by a module but provided by none (missing).
pub fn resolve_capabilities(modules: &Vec<ModuleManifest>) -> (r: (Vec<CapabilityConflict>, Vec<MissingRequirement>))
    ensures
        conflict_views(r.0@) == spec_conflicts(modules@),
        missing_views(r.1@) == spec_missing(modules@),
{
    let pairs = collect_pairs(modules);
    let ghost pv = pair_views(pairs@);
    let caps = distinct_caps(&pairs);
    let ghost cv = str_views(caps@);
    let mut conflicts: Vec<CapabilityConflict> = Vec::new();
    let mut i: usize = 0;
    while i < caps.len()
        invariant
            pv == pair_views(pairs@),
            cv == str_views(caps@),
            i <= caps.len(),
            conflict_views(conflicts@) == conflicts_from(cv.subrange(0, i as int), pv),
        decreases caps.len() - i,
    {
        assert(cv.subrange(0, i + 1).drop_last() =~= cv.subrange(0, i as int));
        assert(cv[i as int] == caps@[i as int]@);
        let names = providers_of(&pairs, caps[i].as_str());
        let ghost prev = conflict_views(conflicts@);
        if names.len() > 1 {
            let ghost nv = str_views(names@);
            conflicts.push(CapabilityConflict { capability: caps[i].clone(), provided_by: names });
            assert(conflict_views(conflicts@) =~= prev + seq![(cv[i as int], nv)]);
        } else {
            assert(conflict_views(conflicts@) =~= prev + Seq::<(Seq<char>, Seq<Seq<char>>)>::empty());
        }
        i = i + 1;
    }
    assert(cv.subrange(0, cv.len() as int) =~= cv);

    let mut missing: Vec<MissingRequirement> = Vec::new();
    let mut k: usize = 0;
    while k < modules.len()
        invariant
            pv == pair_views(pairs@),
            pv == provide_pairs(modules@),
            k <= modules.len(),
            missing_views(missing@) == missing_in(modules@.subrange(0, k as int), pv),
        decreases modules.len() - k,
    {
        let m = &modules[k];
        assert(modules@.subrange(0, k + 1).drop_last() =~= modules@.subrange(0, k as int));
        let ghost base = missing_views(missing@);
        let ghost rv = str_views(m.requires@);
        let mut j: usize = 0;
        while j < m.requires.len()
            invariant
                pv == pair_views(pairs@),
                rv == str_views(m.requires@),
                j <= m.requires.len(),
                missing_views(missing@) == base + reqs_missing(m.name@, rv.subrange(0, j as int), pv),
            decreases m.requires.len() - j,
        {
            assert(rv.subrange(0, j + 1).drop_last() =~= rv.subrange(0, j as int));
            assert(rv[j as int] == m.requires@[j as int]@);
            let names = providers_of(&pairs, m.requires[j].as_str());
            let ghost prev = missing_views(missing@);
            if names.len() == 0 {
                missing.push(MissingRequirement { module: m.name.clone(), requires: m.requires[j].clone() });
                assert(missing_views(missing@) =~= prev + seq![(m.name@, rv[j as int])]);
            } else {
                assert(missing_views(missing@) =~= prev + Seq::<(Seq<char>, Seq<char>)>::empty());
            }
            j = j + 1;
        }
        assert(rv.subrange(0, rv.len() as int) =~= rv);
        k = k + 1;
    }
    assert(modules@.subrange(0, modules@.len() as int) =~= modules@);
    (conflicts, missing)
}

/// Sorts manifests by name, keeping the order of equal names.
pub fn sort_manifests(manifests: Vec<ModuleManifest>) -> (r: Vec<ModuleManifest>)
    ensures
        sorted_by_key(r@),
        forall|k: Seq<char>| #[trigger] with_key(r@, k) == with_key(manifests@, k),
{
    sort_by_key(manifests)
}

/// The error for a `module.json` that does not parse: the file's path and the
/// parser's message.
pub fn invalid_manifest_error(path: &str, detail: &str) -> (r: RotivError)
    ensures
        r.code@ == "E031"@,
        r.message@ == "invalid module.json at "@ + path@ + ": "@ + detail@,
        r.suggestion matches Some(s) && s@ == "Check that module.json is valid JSON with required fields: name, version"@,
        r.file is None && r.line is None && r.expected is None && r.got is None && r.corrected_code is None,
{
    let mut msg = copy_str("invalid module.json at ");
    msg.append(path);
    msg.append(": ");
    msg.append(detail);
    RotivError::new("E031", msg.as_str())
        .with_suggestion("Check that module.json is valid JSON with required fields: name, version")
}


/// Whether some module lists `cap` among the capabilities it provides.
pub open spec fn is_provided(ms: Seq<ModuleManifest>, cap: Seq<char>) -> bool {
    exists|i: int| 0 <= i < ms.len() && provides_cap(#[trigger] ms[i], cap)
}

/// Whether some module named `name` lists `cap` among its requirements.
pub open spec fn is_required_by(ms: Seq<ModuleManifest>, name: Seq<char>, cap: Seq<char>) -> bool {
    exists|i: int| 0 <= i < ms.len() && (#[trigger] ms[i]).name@ == name && str_views(ms[i].requires@).contains(cap)
}

proof fn lemma_names_for_nonempty(pairs: Seq<(Seq<char>, Seq<char>)>, c: Seq<char>)
    ensures
        names_for(pairs, c).len() > 0 <==> exists|k: int| 0 <= k < pairs.len() && (#[trigger] pairs[k]).0 == c,
    decreases pairs.len(),
{
    if pairs.len() > 0 {
        let p = pairs.drop_last();
        lemma_names_for_nonempty(p, c);
        if names_for(pairs, c).len() > 0 {
            if pairs.last().0 == c {
                assert(pairs[pairs.len() - 1].0 == c);
            } else {
                let k = choose|k: int| 0 <= k < p.len() && (#[trigger] p[k]).0 == c;
                assert(pairs[k] == p[k]);
            }
        }
        if exists|k: int| 0 <= k < pairs.len() && (#[trigger] pairs[k]).0 == c {
            let k = choose|k: int| 0 <= k < pairs.len() && (#[trigger] pairs[k]).0 == c;
            if k < pairs.len() - 1 {
                assert(p[k] == pairs[k]);
            }
        }
    }
}

proof fn lemma_first_caps(pairs: Seq<(Seq<char>, Seq<char>)>)
    ensures
        first_caps(pairs).no_duplicates(),
        forall|c: Seq<char>| first_caps(pairs).contains(c) <==> exists|k: int| 0 <= k < pairs.len() && (#[trigger] pairs[k]).0 == c,
    decreases pairs.len(),
{
    if pairs.len() > 0 {
        let p = pairs.drop_last();
        lemma_first_caps(p);
        let prev = first_caps(p);
        let x = pairs.last().0;
        assert forall|c: Seq<char>| first_caps(pairs).contains(c) <==> exists|k: int| 0 <= k < pairs.len() && (#[trigger] pairs[k]).0 == c by {
            if first_caps(pairs).contains(c) {
                if prev.contains(c) {
                    let k = choose|k: int| 0 <= k < p.len() && (#[trigger] p[k]).0 == c;
                    assert(pairs[k] == p[k]);
                } else {
                    assert(c == x);
                    assert(pairs[pairs.len() - 1].0 == c);
                }
            }
            if exists|k: int| 0 <= k < pairs.len() && (#[trigger] pairs[k]).0 == c {
                let k = choose|k: int| 0 <= k < pairs.len() && (#[trigger] pairs[k]).0 == c;
                if k < pairs.len() - 1 {
                    assert(p[k] == pairs[k]);
                    assert(prev.contains(c));
                } else {
                    assert(c == x);
                    if !prev.contains(x) {
                        assert(prev.push(x)[prev.len() as int] == x);
                    }
                }
            }
        }
        if !prev.contains(x) {
            let q = prev.push(x);
            assert forall|i: int, j: int| 0 <= i < q.len() && 0 <= j < q.len() && i != j implies q[i] != q[j] by {
                if i < prev.len() && j < prev.len() {
                } else if i < prev.len() {
                    assert(q[j] == x);
                    assert(q[i] == prev[i]);
                } else {
                    assert(q[i] == x);
                    assert(q[j] == prev[j]);
                }
            }
        }
    }
}

proof fn lemma_conflicts_from(caps: Seq<Seq<char>>, pairs: Seq<(Seq<char>, Seq<char>)>)
    ensures
        forall|k: int| #![trigger conflicts_from(caps, pairs)[k]] 0 <= k < conflicts_from(caps, pairs).len() ==> {
            let e = conflicts_from(caps, pairs)[k];
            &&& caps.contains(e.0)
            &&& e.1 == names_for(pairs, e.0)
            &&& e.1.len() > 1
        },
        forall|c: Seq<char>| caps.contains(c) && names_for(pairs, c).len() > 1 ==> exists|k: int|
            0 <= k < conflicts_from(caps, pairs).len() && (#[trigger] conflicts_from(caps, pairs)[k]).0 == c,
        caps.no_duplicates() ==> forall|i: int, j: int|
            0 <= i < j < conflicts_from(caps, pairs).len() ==> (#[trigger] conflicts_from(caps, pairs)[i]).0
                != (#[trigger] conflicts_from(caps, pairs)[j]).0,
    decreases caps.len(),
{
    if caps.len() > 0 {
        let d = caps.drop_last();
        let x = caps.last();
        lemma_conflicts_from(d, pairs);
        let prev = conflicts_from(d, pairs);
        let cur = conflicts_from(caps, pairs);
        assert forall|k: int| #![trigger cur[k]] 0 <= k < cur.len() implies {
            let e = cur[k];
            &&& caps.contains(e.0)
            &&& e.1 == names_for(pairs, e.0)
            &&& e.1.len() > 1
        } by {
            if k < prev.len() {
                assert(cur[k] == prev[k]);
                let e = prev[k];
                let t = choose|t: int| 0 <= t < d.len() && d[t] == e.0;
                assert(caps[t] == d[t]);
            } else {
                assert(caps[caps.len() - 1] == x);
            }
        }
        assert forall|c: Seq<char>| caps.contains(c) && names_for(pairs, c).len() > 1 implies exists|k: int|
            0 <= k < cur.len() && (#[trigger] cur[k]).0 == c by {
            let t = choose|t: int| 0 <= t < caps.len() && caps[t] == c;
            if t < caps.len() - 1 {
                assert(d[t] == caps[t]);
                assert(d.contains(c));
                let k = choose|k: int| 0 <= k < prev.len() && (#[trigger] prev[k]).0 == c;
                assert(cur[k] == prev[k]);
            } else {
                assert(cur[prev.len() as int].0 == c);
            }
        }
        if caps.no_duplicates() {
            assert(d.no_duplicates()) by {
                assert forall|i: int, j: int| 0 <= i < d.len() && 0 <= j < d.len() && i != j implies d[i] != d[j] by {
                    assert(d[i] == caps[i] && d[j] == caps[j]);
                }
            }
            assert forall|i: int, j: int| 0 <= i < j < cur.len() implies (#[trigger] cur[i]).0 != (#[trigger] cur[j]).0 by {
                if j < prev.len() {
                    assert(cur[i] == prev[i] && cur[j] == prev[j]);
                } else {
                    assert(cur[i] == prev[i]);
                    assert(cur[j].0 == x);
                    let e = prev[i];
                    let t = choose|t: int| 0 <= t < d.len() && d[t] == e.0;
                    assert(caps[t] == d[t]);
                    assert(caps[caps.len() - 1] == x);
                }
            }
        }
    }
}

proof fn lemma_names_for_concat(a: Seq<(Seq<char>, Seq<char>)>, b: Seq<(Seq<char>, Seq<char>)>, c: Seq<char>)
    ensures
        names_for(a + b, c) == names_for(a, c) + names_for(b, c),
    decreases b.len(),
{
    if b.len() == 0 {
        assert(a + b =~= a);
        assert(names_for(a, c) + names_for(b, c) =~= names_for(a, c));
    } else {
        lemma_names_for_concat(a, b.drop_last(), c);
        assert((a + b).drop_last() =~= a + b.drop_last());
        assert((a + b).last() == b.last());
        assert(names_for(a + b, c) =~= names_for(a, c) + names_for(b, c));
    }
}

proof fn lemma_module_names(caps: Seq<Seq<char>>, n: Seq<char>, c: Seq<char>)
    ensures
        names_for(cap_pairs(dedup_caps(caps), n), c) == if caps.contains(c) {
            seq![n]
        } else {
            Seq::<Seq<char>>::empty()
        },
    decreases caps.len(),
{
    if caps.len() == 0 {
        assert(cap_pairs(dedup_caps(caps), n) =~= Seq::empty());
    } else {
        let d = caps.drop_last();
        let x = caps.last();
        lemma_module_names(d, n, c);
        let tail: Seq<Seq<char>> = if d.contains(x) { Seq::empty() } else { seq![x] };
        assert(cap_pairs(dedup_caps(caps), n) =~= cap_pairs(dedup_caps(d), n) + cap_pairs(tail, n));
        lemma_names_for_concat(cap_pairs(dedup_caps(d), n), cap_pairs(tail, n), c);
        let t = cap_pairs(tail, n);
        if tail.len() == 1 {
            assert(t.drop_last() =~= Seq::empty());
            assert(t.last() == (x, n));
            assert(names_for(t.drop_last(), c) =~= Seq::empty());
            if x == c {
                assert(names_for(t, c) =~= seq![n]);
            } else {
                assert(names_for(t, c) =~= Seq::empty());
            }
        } else {
            assert(t =~= Seq::empty());
            assert(names_for(t, c) =~= Seq::empty());
        }
        let nd = names_for(cap_pairs(dedup_caps(d), n), c);
        if caps.contains(c) {
            if d.contains(c) {
                assert(nd == seq![n]);
            } else {
                assert(x == c);
            }
            assert(nd + names_for(t, c) =~= seq![n]);
        } else {
            assert(nd + names_for(t, c) =~= Seq::empty());
        }
        assert(caps.contains(c) == (d.contains(c) || x == c)) by {
            if caps.contains(c) {
                let t = choose|t: int| 0 <= t < caps.len() && caps[t] == c;
                if t < caps.len() - 1 {
                    assert(d[t] == caps[t]);
                }
            }
            if d.contains(c) {
                let t = choose|t: int| 0 <= t < d.len() && d[t] == c;
                assert(caps[t] == d[t]);
            }
            if x == c {
                assert(caps[caps.len() - 1] == c);
            }
        }
    }
}

proof fn lemma_names_are_providers(ms: Seq<ModuleManifest>, c: Seq<char>)
    ensures
        names_for(provide_pairs(ms), c) == provider_names(ms, c),
    decreases ms.len(),
{
    if ms.len() > 0 {
        let m = ms.last();
        lemma_names_are_providers(ms.drop_last(), c);
        lemma_names_for_concat(provide_pairs(ms.drop_last()), module_pairs(m), c);
        lemma_module_names(str_views(m.provides@), m.name@, c);
    }
}

proof fn lemma_provider_count(ms: Seq<ModuleManifest>, c: Seq<char>)
    ensures
        provider_names(ms, c).len() > 0 <==> exists|i: int| 0 <= i < ms.len() && provides_cap(#[trigger] ms[i], c),
        provider_names(ms, c).len() > 1 <==> exists|i: int, j: int|
            0 <= i < j < ms.len() && provides_cap(#[trigger] ms[i], c) && provides_cap(#[trigger] ms[j], c),
    decreases ms.len(),
{
    if ms.len() > 0 {
        let d = ms.drop_last();
        let last = ms.len() - 1;
        lemma_provider_count(d, c);
        assert forall|i: int| 0 <= i < d.len() implies d[i] == ms[i] by {}
        assert(ms[last] == ms.last());
        if exists|i: int| 0 <= i < ms.len() && provides_cap(#[trigger] ms[i], c) {
            let i = choose|i: int| 0 <= i < ms.len() && provides_cap(#[trigger] ms[i], c);
            if i < last {
                assert(provides_cap(d[i], c));
            }
        }
        if provider_names(d, c).len() > 0 {
            let i = choose|i: int| 0 <= i < d.len() && provides_cap(#[trigger] d[i], c);
            assert(provides_cap(ms[i], c));
        }
        if provider_names(ms, c).len() > 1 {
            if provider_names(d, c).len() > 1 {
                let (i, j) = choose|i: int, j: int|
                    0 <= i < j < d.len() && provides_cap(#[trigger] d[i], c) && provides_cap(#[trigger] d[j], c);
                assert(provides_cap(ms[i], c) && provides_cap(ms[j], c));
            } else {
                let i = choose|i: int| 0 <= i < d.len() && provides_cap(#[trigger] d[i], c);
                assert(provides_cap(ms[i], c) && provides_cap(ms[last], c));
            }
        }
        if exists|i: int, j: int| 0 <= i < j < ms.len() && provides_cap(#[trigger] ms[i], c) && provides_cap(#[trigger] ms[j], c) {
            let (i, j) = choose|i: int, j: int|
                0 <= i < j < ms.len() && provides_cap(#[trigger] ms[i], c) && provides_cap(#[trigger] ms[j], c);
            if j < last {
                assert(provides_cap(d[i], c) && provides_cap(d[j], c));
            } else {
                assert(provides_cap(d[i], c));
            }
        }
    }
}

proof fn lemma_reqs_missing(name: Seq<char>, reqs: Seq<Seq<char>>, pairs: Seq<(Seq<char>, Seq<char>)>, n: Seq<char>, r: Seq<char>)
    ensures
        reqs_missing(name, reqs, pairs).contains((n, r)) <==> n == name && reqs.contains(r) && names_for(pairs, r).len() == 0,
    decreases reqs.len(),
{
    if reqs.len() > 0 {
        let d = reqs.drop_last();
        lemma_reqs_missing(name, d, pairs, n, r);
        let prev = reqs_missing(name, d, pairs);
        let cur = reqs_missing(name, reqs, pairs);
        if cur.contains((n, r)) {
            let k = choose|k: int| 0 <= k < cur.len() && cur[k] == (n, r);
            if k < prev.len() {
                assert(cur[k] == prev[k]);
                let t = choose|t: int| 0 <= t < d.len() && d[t] == r;
                assert(reqs[t] == d[t]);
            } else {
                assert(reqs[reqs.len() - 1] == r);
            }
        }
        if n == name && reqs.contains(r) && names_for(pairs, r).len() == 0 {
            let t = choose|t: int| 0 <= t < reqs.len() && reqs[t] == r;
            if t < reqs.len() - 1 {
                assert(d[t] == reqs[t]);
                let k = choose|k: int| 0 <= k < prev.len() && prev[k] == (n, r);
                assert(cur[k] == prev[k]);
            } else {
                assert(cur[prev.len() as int] == (n, r));
            }
        }
    }
}

proof fn lemma_missing_in(ms: Seq<ModuleManifest>, pairs: Seq<(Seq<char>, Seq<char>)>, n: Seq<char>, r: Seq<char>)
    ensures
        missing_in(ms, pairs).contains((n, r)) <==> is_required_by(ms, n, r) && names_for(pairs, r).len() == 0,
    decreases ms.len(),
{
    if ms.len() > 0 {
        let d = ms.drop_last();
        let m = ms.last();
        lemma_missing_in(d, pairs, n, r);
        lemma_reqs_missing(m.name@, str_views(m.requires@), pairs, n, r);
        let prev = missing_in(d, pairs);
        let tail = reqs_missing(m.name@, str_views(m.requires@), pairs);
        let cur = missing_in(ms, pairs);
        assert(cur == prev + tail);
        if cur.contains((n, r)) {
            let k = choose|k: int| 0 <= k < cur.len() && cur[k] == (n, r);
            if k < prev.len() {
                assert(cur[k] == prev[k]);
                let i = choose|i: int| 0 <= i < d.len() && (#[trigger] d[i]).name@ == n && str_views(d[i].requires@).contains(r);
                assert(ms[i] == d[i]);
            } else {
                assert(cur[k] == tail[k - prev.len()]);
                assert(tail.contains((n, r)));
                assert(ms[ms.len() - 1] == m);
            }
        }
        if is_required_by(ms, n, r) && names_for(pairs, r).len() == 0 {
            let i = choose|i: int| 0 <= i < ms.len() && (#[trigger] ms[i]).name@ == n && str_views(ms[i].requires@).contains(r);
            if i < ms.len() - 1 {
                assert(d[i] == ms[i]);
                let k = choose|k: int| 0 <= k < prev.len() && prev[k] == (n, r);
                assert(cur[k] == prev[k]);
            } else {
                let k = choose|k: int| 0 <= k < tail.len() && tail[k] == (n, r);
                assert(cur[prev.len() + k] == tail[k]);
            }
        }
    }
}

/// A capability is reported as a conflict exactly when two different modules
/// provide it (a module that lists it twice counts once); each conflict lists
/// the names of its providers, one per module, in module order; and no
/// capability is reported twice.
pub proof fn lemma_conflict_iff_provided_twice(ms: Seq<ModuleManifest>, c: Seq<char>)
    ensures
        (exists|k: int| 0 <= k < spec_conflicts(ms).len() && (#[trigger] spec_conflicts(ms)[k]).0 == c)
            <==> exists|i: int, j: int|
            0 <= i < j < ms.len() && provides_cap(#[trigger] ms[i], c) && provides_cap(#[trigger] ms[j], c),
        forall|k: int| 0 <= k < spec_conflicts(ms).len() ==> (#[trigger] spec_conflicts(ms)[k]).1
            == provider_names(ms, spec_conflicts(ms)[k].0),
        forall|i: int, j: int| 0 <= i < j < spec_conflicts(ms).len() ==> (#[trigger] spec_conflicts(ms)[i]).0
            != (#[trigger] spec_conflicts(ms)[j]).0,
{
    let pairs = provide_pairs(ms);
    let caps = first_caps(pairs);
    lemma_first_caps(pairs);
    lemma_conflicts_from(caps, pairs);
    lemma_names_for_nonempty(pairs, c);
    lemma_names_are_providers(ms, c);
    lemma_provider_count(ms, c);
    let cf = spec_conflicts(ms);
    assert forall|k: int| 0 <= k < cf.len() implies (#[trigger] cf[k]).1 == provider_names(ms, cf[k].0) by {
        lemma_names_are_providers(ms, cf[k].0);
    }
    if exists|k: int| 0 <= k < cf.len() && (#[trigger] cf[k]).0 == c {
        let k = choose|k: int| 0 <= k < cf.len() && (#[trigger] cf[k]).0 == c;
        assert(cf[k].1 == names_for(pairs, c));
    }
    if names_for(pairs, c).len() > 1 {
        assert(caps.contains(c));
    }
}

/// A requirement is reported as missing exactly when some module with that
/// name requires it and no module provides it.
pub proof fn lemma_missing_iff_unprovided(ms: Seq<ModuleManifest>, name: Seq<char>, cap: Seq<char>)
    ensures
        spec_missing(ms).contains((name, cap)) <==> is_required_by(ms, name, cap) && !is_provided(ms, cap),
{
    let pairs = provide_pairs(ms);
    lemma_missing_in(ms, pairs, name, cap);
    lemma_names_for_nonempty(pairs, cap);
    lemma_names_are_providers(ms, cap);
    lemma_provider_count(ms, cap);
}

} // verus!
