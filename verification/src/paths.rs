//! Unix path syntax as `std::path::Path` reads it: components, file name,
//! extension and stem, and prefix stripping.

use vstd::prelude::*;
use crate::text::{chars_of, eq_chars, push_all, split_char, split_chars, views, lemma_split_nonempty};

verus! {

broadcast use vstd::seq_lib::group_seq_properties;

/// A piece between slashes that names a component (not empty, not `.`).
pub open spec fn is_named_piece(s: Seq<char>) -> bool {
    s.len() > 0 && s != seq!['.']
}

pub open spec fn named_piece() -> spec_fn(Seq<char>) -> bool {
    |s: Seq<char>| is_named_piece(s)
}

/// The components of a path, each as its text: a leading `/` is the root
/// component `/`, a leading `.` piece is the current-directory component `.`,
/// and every other non-empty piece other than `.` follows in order.
pub open spec fn components(p: Seq<char>) -> Seq<Seq<char>> {
    let pieces = split_char(p, '/');
    let head: Seq<Seq<char>> = if p.len() > 0 && p[0] == '/' {
        seq![seq!['/']]
    } else if pieces[0] == seq!['.'] {
        seq![seq!['.']]
    } else {
        Seq::empty()
    };
    head + pieces.filter(named_piece())
}

/// Whether a component is a file or directory name (not root, `.` or `..`).
pub open spec fn is_normal(c: Seq<char>) -> bool {
    c != seq!['/'] && c != seq!['.'] && c != seq!['.', '.']
}

/// `Path::file_name`.
pub open spec fn file_name(p: Seq<char>) -> Option<Seq<char>> {
    let c = components(p);
    if c.len() > 0 && is_normal(c.last()) {
        Some(c.last())
    } else {
        None
    }
}

/// Index of the last occurrence of `c` in `s`, or -1.
pub open spec fn last_index_of(s: Seq<char>, c: char) -> int
    decreases s.len(),
{
    if s.len() == 0 {
        -1
    } else if s.last() == c {
        s.len() - 1
    } else {
        last_index_of(s.drop_last(), c)
    }
}

/// The extension of a file name: what follows its last dot, when that dot is
/// not its first character.
pub open spec fn extension_of(name: Seq<char>) -> Option<Seq<char>> {
    let i = last_index_of(name, '.');
    if name == seq!['.', '.'] || i <= 0 {
        None
    } else {
        Some(name.subrange(i + 1, name.len() as int))
    }
}

/// The stem of a file name: the name without its extension and last dot.
pub open spec fn stem_of(name: Seq<char>) -> Seq<char> {
    let i = last_index_of(name, '.');
    if name == seq!['.', '.'] || i <= 0 {
        name
    } else {
        name.subrange(0, i)
    }
}

/// `Path::extension`.
pub open spec fn extension(p: Seq<char>) -> Option<Seq<char>> {
    match file_name(p) {
        Some(n) => extension_of(n),
        None => None,
    }
}

/// The components of `p.with_extension("")`: the file name replaced by its stem.
pub open spec fn without_extension(c: Seq<Seq<char>>) -> Seq<Seq<char>> {
    if c.len() > 0 && is_normal(c.last()) {
        c.update(c.len() - 1, stem_of(c.last()))
    } else {
        c
    }
}

/// `file.strip_prefix(base)` on components.
pub open spec fn strip_components(base: Seq<Seq<char>>, file: Seq<Seq<char>>) -> Option<Seq<Seq<char>>> {
    if base.len() <= file.len() && file.subrange(0, base.len() as int) == base {
        Some(file.subrange(base.len() as int, file.len() as int))
    } else {
        None
    }
}

proof fn lemma_last_index_bounds(s: Seq<char>, c: char)
    ensures
        -1 <= last_index_of(s, c) < s.len(),
        last_index_of(s, c) >= 0 ==> s[last_index_of(s, c)] == c,
        forall|j: int| last_index_of(s, c) < j < s.len() ==> s[j] != c,
    decreases s.len(),
{
    if s.len() > 0 && s.last() != c {
        lemma_last_index_bounds(s.drop_last(), c);
        assert forall|j: int| last_index_of(s, c) < j < s.len() implies s[j] != c by {
            if j < s.len() - 1 {
                assert(s.drop_last()[j] == s[j]);
            }
        }
    }
}

/// A copy of `v`.
pub fn copy_chars(v: &Vec<char>) -> (r: Vec<char>)
    ensures
        r@ == v@,
{
    let mut r: Vec<char> = Vec::new();
    push_all(&mut r, v);
    assert(r@ =~= v@);
    r
}

/// The components of the path `p`.
pub fn components_of(p: &Vec<char>) -> (r: Vec<Vec<char>>)
    ensures
        views(r@) == components(p@),
{
    let pieces = split_chars(p, '/');
    let ghost gp = views(pieces@);
    proof { lemma_split_nonempty(p@, '/'); }
    let mut out: Vec<Vec<char>> = Vec::new();
    let dot = vec!['.'];
    assert(dot@ =~= seq!['.']);
    assert(gp[0] == pieces@[0]@);
    let ghost head: Seq<Seq<char>> = if p@.len() > 0 && p@[0] == '/' {
        seq![seq!['/']]
    } else if gp[0] == seq!['.'] {
        seq![seq!['.']]
    } else {
        Seq::<Seq<char>>::empty()
    };
    if p.len() > 0 && p[0] == '/' {
        let root = vec!['/'];
        assert(root@ =~= seq!['/']);
        out.push(root);
        assert(views(out@) =~= head);
    } else if eq_chars(&pieces[0], &dot) {
        let cur = vec!['.'];
        assert(cur@ =~= seq!['.']);
        out.push(cur);
        assert(views(out@) =~= head);
    } else {
        assert(views(out@) =~= head);
    }
    let mut i: usize = 0;
    assert(gp.subrange(0, 0).filter(named_piece()) =~= Seq::<Seq<char>>::empty());
    assert(views(out@) =~= head + gp.subrange(0, 0).filter(named_piece()));
    while i < pieces.len()
        invariant
            gp == views(pieces@),
            dot@ == seq!['.'],
            i <= pieces.len(),
            views(out@) == head + gp.subrange(0, i as int).filter(named_piece()),
        decreases pieces.len() - i,
    {
        let piece = &pieces[i];
        assert(gp[i as int] == piece@);
        assert(gp.subrange(0, i + 1) =~= gp.subrange(0, i as int).push(piece@));
        proof { gp.subrange(0, i as int).lemma_filter_push(piece@, named_piece()); }
        let ghost old_out = views(out@);
        if piece.len() > 0 && !eq_chars(piece, &dot) {
            assert(named_piece()(piece@));
            let c = copy_chars(piece);
            out.push(c);
            assert(views(out@) =~= old_out.push(piece@));
            assert(views(out@) =~= head + gp.subrange(0, i + 1).filter(named_piece()));
        } else {
            assert(!named_piece()(piece@));
            assert(views(out@) =~= head + gp.subrange(0, i + 1).filter(named_piece()));
        }
        i = i + 1;
    }
    assert(gp.subrange(0, gp.len() as int) =~= gp);
    out
}

/// The index of the last `c` in `v`, if any.
pub fn find_last(v: &Vec<char>, c: char) -> (r: Option<usize>)
    ensures
        r matches Some(i) ==> last_index_of(v@, c) == i,
        r is None ==> last_index_of(v@, c) == -1,
{
    proof { lemma_last_index_bounds(v@, c); }
    let mut j = v.len();
    while j > 0
        invariant
            j <= v.len(),
            forall|k: int| j <= k < v.len() ==> v@[k] != c,
            last_index_of(v@, c) < j,
        decreases j,
    {
        proof { lemma_last_index_bounds(v@, c); }
        if v[j - 1] == c {
            return Some(j - 1);
        }
        j = j - 1;
    }
    None
}

/// Whether a component is a file or directory name.
pub fn is_normal_component(c: &Vec<char>) -> (r: bool)
    ensures
        r == is_normal(c@),
{
    let slash = vec!['/'];
    let dot = vec!['.'];
    let dotdot = vec!['.', '.'];
    assert(slash@ =~= seq!['/']);
    assert(dot@ =~= seq!['.']);
    assert(dotdot@ =~= seq!['.', '.']);
    !eq_chars(c, &slash) && !eq_chars(c, &dot) && !eq_chars(c, &dotdot)
}

/// The stem of a file name.
pub fn stem_chars(name: &Vec<char>) -> (r: Vec<char>)
    ensures
        r@ == stem_of(name@),
{
    let dotdot = vec!['.', '.'];
    assert(dotdot@ =~= seq!['.', '.']);
    if eq_chars(name, &dotdot) {
        return copy_chars(name);
    }
    match find_last(name, '.') {
        Some(i) if i > 0 => {
            proof { lemma_last_index_bounds(name@, '.'); }
            let mut r: Vec<char> = Vec::new();
            let mut k: usize = 0;
            while k < i
                invariant
                    i <= name.len(),
                    k <= i,
                    r@ == name@.subrange(0, k as int),
                decreases i - k,
            {
                r.push(name[k]);
                assert(name@.subrange(0, k + 1) =~= name@.subrange(0, k as int).push(name@[k as int]));
                k = k + 1;
            }
            r
        },
        _ => copy_chars(name),
    }
}

/// The extension of a file name, if it has one.
pub fn extension_chars(name: &Vec<char>) -> (r: Option<Vec<char>>)
    ensures
        r matches Some(e) ==> extension_of(name@) == Some(e@),
        r is None ==> extension_of(name@) is None,
{
    let dotdot = vec!['.', '.'];
    assert(dotdot@ =~= seq!['.', '.']);
    if eq_chars(name, &dotdot) {
        return None;
    }
    match find_last(name, '.') {
        Some(i) if i > 0 => {
            proof { lemma_last_index_bounds(name@, '.'); }
            assert(i < name.len());
            let mut r: Vec<char> = Vec::new();
            let mut k: usize = i + 1;
            while k < name.len()
                invariant
                    i < name.len(),
                    i + 1 <= k <= name.len(),
                    r@ == name@.subrange(i + 1, k as int),
                decreases name.len() - k,
            {
                r.push(name[k]);
                assert(name@.subrange(i + 1, k + 1) =~= name@.subrange(i + 1, k as int).push(name@[k as int]));
                k = k + 1;
            }
            Some(r)
        },
        _ => None,
    }
}

/// The file name of the path `p`, if it has one.
pub fn file_name_chars(p: &Vec<char>) -> (r: Option<Vec<char>>)
    ensures
        r matches Some(n) ==> file_name(p@) == Some(n@),
        r is None ==> file_name(p@) is None,
{
    let comps = components_of(p);
    let n = comps.len();
    if n > 0 && is_normal_component(&comps[n - 1]) {
        assert(views(comps@).last() == comps@[n - 1]@);
        Some(copy_chars(&comps[n - 1]))
    } else {
        proof {
            if n > 0 {
                assert(views(comps@).last() == comps@[n - 1]@);
            }
        }
        None
    }
}

/// The extension of the path `p`, if it has one.
pub fn extension_of_path(p: &Vec<char>) -> (r: Option<Vec<char>>)
    ensures
        r matches Some(e) ==> extension(p@) == Some(e@),
        r is None ==> extension(p@) is None,
{
    match file_name_chars(p) {
        Some(n) => extension_chars(&n),
        None => None,
    }
}

/// The components of `p.with_extension("")`, given the components of `p`.
pub fn drop_extension(comps: Vec<Vec<char>>) -> (r: Vec<Vec<char>>)
    ensures
        views(r@) == without_extension(views(comps@)),
{
    let mut comps = comps;
    let n = comps.len();
    if n > 0 && is_normal_component(&comps[n - 1]) {
        let s = stem_chars(&comps[n - 1]);
        let ghost pre = views(comps@);
        assert(pre.last() == comps@[n - 1]@);
        comps.set(n - 1, s);
        assert(views(comps@) =~= pre.update(n - 1, stem_of(pre.last())));
        comps
    } else {
        proof {
            if n > 0 {
                assert(views(comps@).last() == comps@[n - 1]@);
            }
        }
        comps
    }
}

/// `file.strip_prefix(base)` on components: the components of `file` after
/// those of `base`, when `base`'s are a prefix of `file`'s.
pub fn strip_prefix_components(base: &Vec<Vec<char>>, file: Vec<Vec<char>>) -> (r: Result<Vec<Vec<char>>, Vec<Vec<char>>>)
    ensures
        r matches Ok(rest) ==> strip_components(views(base@), views(file@)) == Some(views(rest@)),
        r matches Err(f) ==> strip_components(views(base@), views(file@)) is None && f@ == file@,
{
    let ghost b = views(base@);
    let ghost f = views(file@);
    if base.len() > file.len() {
        return Err(file);
    }
    let mut i: usize = 0;
    while i < base.len()
        invariant
            base.len() <= file.len(),
            b == views(base@),
            f == views(file@),
            i <= base.len(),
            f.subrange(0, i as int) == b.subrange(0, i as int),
        decreases base.len() - i,
    {
        assert(b[i as int] == base@[i as int]@);
        assert(f[i as int] == file@[i as int]@);
        if !eq_chars(&base[i], &file[i]) {
            assert(f.subrange(0, b.len() as int)[i as int] != b[i as int]);
            return Err(file);
        }
        assert(f.subrange(0, i + 1) =~= f.subrange(0, i as int).push(f[i as int]));
        assert(b.subrange(0, i + 1) =~= b.subrange(0, i as int).push(b[i as int]));
        i = i + 1;
    }
    assert(b.subrange(0, b.len() as int) =~= b);
    let mut rest: Vec<Vec<char>> = Vec::new();
    let mut file = file;
    let ghost full = file@;
    let mut k: usize = base.len();
    while k < file.len()
        invariant
            file@ == full,
            f == views(full),
            base.len() <= k <= full.len(),
            views(rest@) == f.subrange(base.len() as int, k as int),
        decreases full.len() - k,
    {
        let c = copy_chars(&file[k]);
        assert(f[k as int] == file@[k as int]@);
        let ghost old_rest = views(rest@);
        rest.push(c);
        assert(views(rest@) =~= old_rest.push(f[k as int]));
        assert(views(rest@) =~= f.subrange(base.len() as int, k + 1));
        k = k + 1;
    }
    Ok(rest)
}

/// The components of a path string.
pub fn path_components(p: &str) -> (r: Vec<Vec<char>>)
    ensures
        views(r@) == components(p@),
{
    let v = chars_of(p);
    components_of(&v)
}

} // verus!
