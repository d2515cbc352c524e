//! Model files of a project: `app/models/*.ts`, each named after its file.

use vstd::prelude::*;
use crate::cli::naming::{pascal_of_snake, snake_to_pascal};
use crate::paths::{extension, file_name, stem_of};
use crate::sorting::{Keyed, key_pred, sort_by_key, sorted_by_key, with_key};
use crate::text::{chars_of, string_from};

verus! {

broadcast use vstd::seq_lib::group_seq_properties;

/// A model file entry discovered in `app/models/`.
#[derive(Debug)]
pub struct ModelEntry {
    /// PascalCase model name (e.g. `User`).
    pub name: String,
    /// Path to the model file.
    pub file: String,
}

impl Clone for ModelEntry {
    fn clone(&self) -> (r: Self)
        ensures
            r == *self,
    {
        ModelEntry { name: self.name.clone(), file: self.file.clone() }
    }
}

impl Keyed for ModelEntry {
    open spec fn spec_key(&self) -> Seq<char> {
        self.name@
    }

    fn key(&self) -> (r: String) {
        self.name.clone()
    }
}

/// The model of a file: for a `.ts` file with a file name, the PascalCase
/// form of its snake_case stem (`user_profile.ts` → `UserProfile`).
pub open spec fn model_of(path: Seq<char>) -> Option<(Seq<char>, Seq<char>)> {
    if extension(path) == Some(seq!['t', 's']) {
        match file_name(path) {
            Some(n) => Some((pascal_of_snake(stem_of(n)), path)),
            None => None,
        }
    } else {
        None
    }
}

/// The models of the files, in order.
pub open spec fn models_of(paths: Seq<Seq<char>>) -> Seq<(Seq<char>, Seq<char>)>
    decreases paths.len(),
{
    if paths.len() == 0 {
        Seq::empty()
    } else {
        models_of(paths.drop_last()) + match model_of(paths.last()) {
            Some(m) => seq![m],
            None => Seq::empty(),
        }
    }
}

pub open spec fn model_view(e: ModelEntry) -> (Seq<char>, Seq<char>) {
    (e.name@, e.file@)
}

pub open spec fn model_views(s: Seq<ModelEntry>) -> Seq<(Seq<char>, Seq<char>)> {
    s.map_values(|e: ModelEntry| model_view(e))
}

/// Whether a model's name is `k`.
pub open spec fn model_named(k: Seq<char>) -> spec_fn((Seq<char>, Seq<char>)) -> bool {
    |e: (Seq<char>, Seq<char>)| e.0 == k
}

proof fn lemma_model_filter(s: Seq<ModelEntry>, k: Seq<char>)
    ensures
        model_views(with_key(s, k)) == model_views(s).filter(model_named(k)),
    decreases s.len(),
{
    let f = model_named(k);
    reveal(Seq::filter);
    if s.len() > 0 {
        lemma_model_filter(s.drop_last(), k);
        assert(model_views(s.drop_last()) =~= model_views(s).drop_last());
        assert(with_key(s, k) == with_key(s.drop_last(), k) + if s.last().spec_key() == k {
            seq![s.last()]
        } else {
            Seq::empty()
        }) by {
            assert(s =~= s.drop_last().push(s.last()));
            s.drop_last().lemma_filter_push(s.last(), key_pred(k));
        }
        if s.last().spec_key() == k {
            assert(model_views(with_key(s, k)) =~= model_views(with_key(s.drop_last(), k)).push(model_view(s.last())));
        } else {
            assert(model_views(with_key(s, k)) =~= model_views(with_key(s.drop_last(), k)));
        }
    } else {
        assert(with_key(s, k) =~= Seq::<ModelEntry>::empty());
        assert(model_views(s).filter(f) =~= Seq::<(Seq<char>, Seq<char>)>::empty());
    }
}

pub open spec fn path_views(s: Seq<String>) -> Seq<Seq<char>> {
    s.map_values(|p: String| p@)
}

/// The model entries of the files listed in `app/models/`: one per `.ts`
/// file, named after its stem, sorted by name (equal names keep the listing
/// order).
pub fn discover_models(files: &Vec<String>) -> (r: Vec<ModelEntry>)
    ensures
        sorted_by_key(r@),
        forall|k: Seq<char>| #[trigger] model_views(with_key(r@, k)) == models_of(path_views(files@)).filter(model_named(k)),
{
    let ghost pv = path_views(files@);
    let ts = vec!['t', 's'];
    let mut out: Vec<ModelEntry> = Vec::new();
    let mut i: usize = 0;
    while i < files.len()
        invariant
            pv == path_views(files@),
            ts@ == seq!['t', 's'],
            i <= files.len(),
            model_views(out@) == models_of(pv.subrange(0, i as int)),
        decreases files.len() - i,
    {
        assert(pv.subrange(0, i + 1).drop_last() =~= pv.subrange(0, i as int));
        assert(pv[i as int] == files@[i as int]@);
        let p = chars_of(files[i].as_str());
        let ext = crate::paths::extension_of_path(&p);
        let is_ts = match &ext {
            Some(e) => crate::text::eq_chars(e, &ts),
            None => false,
        };
        let ghost prev = model_views(out@);
        if is_ts {
            match crate::paths::file_name_chars(&p) {
                Some(n) => {
                    let stem = string_from(&crate::paths::stem_chars(&n));
                    let e = ModelEntry { name: snake_to_pascal(stem.as_str()), file: files[i].clone() };
                    out.push(e);
                    assert(model_views(out@) =~= prev + seq![(pascal_of_snake(stem_of(n@)), p@)]);
                },
                None => {
                    assert(model_views(out@) =~= prev + Seq::<(Seq<char>, Seq<char>)>::empty());
                },
            }
        } else {
            assert(model_views(out@) =~= prev + Seq::<(Seq<char>, Seq<char>)>::empty());
        }
        i = i + 1;
    }
    assert(pv.subrange(0, pv.len() as int) =~= pv);
    let sorted = sort_by_key(out);
    proof {
        assert forall|k: Seq<char>| #[trigger] model_views(with_key(sorted@, k)) == models_of(pv).filter(model_named(k)) by {
            lemma_model_filter(out@, k);
        }
    }
    sorted
}

} // verus!
