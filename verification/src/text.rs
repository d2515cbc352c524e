//! Character-sequence specifications of the standard string operations the
//! library relies on (`split`, `join`, `trim_matches`, `lines`, `replace`, ...)
//! and verified executable counterparts working on `Vec<char>`.

use vstd::prelude::*;
use crate::chars::{is_whitespace, spec_is_whitespace};

verus! {

/// `s.split(d)`: the pieces between occurrences of `d`, always at least one.
pub open spec fn split_char(s: Seq<char>, d: char) -> Seq<Seq<char>>
    decreases s.len(),
{
    if s.len() == 0 {
        seq![Seq::empty()]
    } else {
        let prev = split_char(s.drop_last(), d);
        if s.last() == d {
            prev.push(Seq::empty())
        } else {
            prev.update(prev.len() - 1, prev.last().push(s.last()))
        }
    }
}

pub proof fn lemma_split_nonempty(s: Seq<char>, d: char)
    ensures
        split_char(s, d).len() >= 1,
    decreases s.len(),
{
    if s.len() > 0 {
        lemma_split_nonempty(s.drop_last(), d);
    }
}

/// `parts.join(sep)`.
pub open spec fn join_with(parts: Seq<Seq<char>>, sep: Seq<char>) -> Seq<char>
    decreases parts.len(),
{
    if parts.len() == 0 {
        Seq::empty()
    } else if parts.len() == 1 {
        parts[0]
    } else {
        join_with(parts.drop_last(), sep) + sep + parts.last()
    }
}

/// `s.trim_start_matches(c)`.
pub open spec fn trim_start_char(s: Seq<char>, c: char) -> Seq<char>
    decreases s.len(),
{
    if s.len() > 0 && s[0] == c {
        trim_start_char(s.drop_first(), c)
    } else {
        s
    }
}

/// `s.trim_end_matches(c)`.
pub open spec fn trim_end_char(s: Seq<char>, c: char) -> Seq<char>
    decreases s.len(),
{
    if s.len() > 0 && s.last() == c {
        trim_end_char(s.drop_last(), c)
    } else {
        s
    }
}

/// `s.trim_matches(c)`.
pub open spec fn trim_char(s: Seq<char>, c: char) -> Seq<char> {
    trim_end_char(trim_start_char(s, c), c)
}

/// `s.starts_with(p)`.
pub open spec fn starts_with(s: Seq<char>, p: Seq<char>) -> bool {
    p.len() <= s.len() && s.subrange(0, p.len() as int) == p
}

/// `s.ends_with(p)`.
pub open spec fn ends_with(s: Seq<char>, p: Seq<char>) -> bool {
    p.len() <= s.len() && s.subrange(s.len() - p.len(), s.len() as int) == p
}

/// `s.contains(needle)` for a string needle.
pub open spec fn contains_at(s: Seq<char>, needle: Seq<char>, i: int) -> bool {
    0 <= i && i + needle.len() <= s.len() && s.subrange(i, i + needle.len()) == needle
}

pub open spec fn contains_seq(s: Seq<char>, needle: Seq<char>) -> bool {
    exists|i: int| contains_at(s, needle, i)
}

/// `s.replace(from, to)` for single characters.
pub open spec fn replace_char(s: Seq<char>, from: char, to: char) -> Seq<char> {
    s.map_values(|x: char| if x == from { to } else { x })
}

/// `s.replace(from, to)` for a non-empty pattern: matches are taken left to
/// right without overlapping.
pub open spec fn replace_seq(s: Seq<char>, from: Seq<char>, to: Seq<char>) -> Seq<char>
    decreases s.len(),
{
    if from.len() == 0 || s.len() == 0 {
        s
    } else if starts_with(s, from) {
        to + replace_seq(s.subrange(from.len() as int, s.len() as int), from, to)
    } else {
        seq![s[0]] + replace_seq(s.drop_first(), from, to)
    }
}

/// `s.split(|c| seps.contains(c))`: the pieces between separator characters.
pub open spec fn split_seps(s: Seq<char>, seps: Seq<char>) -> Seq<Seq<char>>
    decreases s.len(),
{
    if s.len() == 0 {
        seq![Seq::empty()]
    } else {
        let prev = split_seps(s.drop_last(), seps);
        if seps.contains(s.last()) {
            prev.push(Seq::empty())
        } else {
            prev.update(prev.len() - 1, prev.last().push(s.last()))
        }
    }
}

pub proof fn lemma_split_seps_nonempty(s: Seq<char>, seps: Seq<char>)
    ensures
        split_seps(s, seps).len() >= 1,
    decreases s.len(),
{
    if s.len() > 0 {
        lemma_split_seps_nonempty(s.drop_last(), seps);
    }
}

/// `s.trim_end_matches(suffix)` for a non-empty string suffix: the suffix
/// removed as long as it ends the string.
pub open spec fn trim_end_seq(s: Seq<char>, suffix: Seq<char>) -> Seq<char>
    decreases s.len(),
{
    if suffix.len() > 0 && ends_with(s, suffix) {
        trim_end_seq(s.subrange(0, s.len() - suffix.len()), suffix)
    } else {
        s
    }
}

/// Drops one trailing `'\r'`.
pub open spec fn strip_cr(line: Seq<char>) -> Seq<char> {
    if line.len() > 0 && line.last() == '\r' {
        line.drop_last()
    } else {
        line
    }
}

/// `s.lines()`: pieces separated by `'\n'`; a line ended by `'\n'` loses one
/// trailing `'\r'`, and a final empty piece is not a line.
pub open spec fn lines(s: Seq<char>) -> Seq<Seq<char>> {
    let parts = split_char(s, '\n');
    let ended = parts.drop_last().map_values(|l: Seq<char>| strip_cr(l));
    if parts.last().len() == 0 {
        ended
    } else {
        ended.push(parts.last())
    }
}

/// Lexicographic order on code points, which is the order of `str`'s `Ord`
/// (UTF-8 byte order agrees with code point order).
pub open spec fn seq_lt(a: Seq<char>, b: Seq<char>) -> bool
    decreases a.len(),
{
    if a.len() == 0 {
        b.len() > 0
    } else if b.len() == 0 {
        false
    } else if a[0] != b[0] {
        (a[0] as int) < (b[0] as int)
    } else {
        seq_lt(a.drop_first(), b.drop_first())
    }
}

pub open spec fn seq_le(a: Seq<char>, b: Seq<char>) -> bool {
    a == b || seq_lt(a, b)
}

/// The views of a sequence of character vectors.
pub open spec fn views(v: Seq<Vec<char>>) -> Seq<Seq<char>> {
    v.map_values(|x: Vec<char>| x@)
}

/// The views of a sequence of strings.
pub open spec fn str_views(v: Seq<String>) -> Seq<Seq<char>> {
    v.map_values(|x: String| x@)
}

/// `String::push`.
#[verifier::external_body]
pub(crate) fn push_char(s: &mut String, c: char)
    ensures
        final(s)@ == old(s)@.push(c),
{
    s.push(c)
}

/// The characters of `s`.
pub fn chars_of(s: &str) -> (v: Vec<char>)
    ensures
        v@ == s@,
{
    let n = s.unicode_len();
    let mut v: Vec<char> = Vec::new();
    let mut i: usize = 0;
    while i < n
        invariant
            n == s@.len(),
            i <= n,
            v@ == s@.subrange(0, i as int),
        decreases n - i,
    {
        v.push(s.get_char(i));
        i = i + 1;
    }
    assert(v@ =~= s@);
    v
}

/// The string made of `v[lo..hi]`.
pub fn string_of(v: &Vec<char>, lo: usize, hi: usize) -> (s: String)
    requires
        lo <= hi <= v.len(),
    ensures
        s@ == v@.subrange(lo as int, hi as int),
{
    let mut s = String::new();
    let mut i = lo;
    while i < hi
        invariant
            lo <= i <= hi <= v.len(),
            s@ == v@.subrange(lo as int, i as int),
        decreases hi - i,
    {
        push_char(&mut s, v[i]);
        assert(v@.subrange(lo as int, i + 1) =~= v@.subrange(lo as int, i as int).push(v@[i as int]));
        i = i + 1;
    }
    s
}

/// The string made of all of `v`.
pub fn string_from(v: &Vec<char>) -> (s: String)
    ensures
        s@ == v@,
{
    let s = string_of(v, 0, v.len());
    assert(v@.subrange(0, v@.len() as int) =~= v@);
    s
}

/// A copy of `s`.
pub fn copy_str(s: &str) -> (r: String)
    ensures
        r@ == s@,
{
    String::from_str(s)
}

/// Appends all of `v` to `out`.
pub fn push_all(out: &mut Vec<char>, v: &Vec<char>)
    ensures
        final(out)@ == old(out)@ + v@,
{
    let mut i: usize = 0;
    while i < v.len()
        invariant
            i <= v.len(),
            out@ == old(out)@ + v@.subrange(0, i as int),
        decreases v.len() - i,
    {
        out.push(v[i]);
        assert(v@.subrange(0, i + 1) =~= v@.subrange(0, i as int).push(v@[i as int]));
        i = i + 1;
    }
    assert(v@.subrange(0, v@.len() as int) =~= v@);
}

/// `s.split(d)` on characters.
pub fn split_chars(v: &Vec<char>, d: char) -> (r: Vec<Vec<char>>)
    ensures
        views(r@) == split_char(v@, d),
{
    let mut parts: Vec<Vec<char>> = Vec::new();
    let mut cur: Vec<char> = Vec::new();
    let mut i: usize = 0;
    assert(v@.subrange(0, 0) =~= Seq::<char>::empty());
    assert(views(parts@).push(cur@) =~= seq![Seq::<char>::empty()]);
    while i < v.len()
        invariant
            i <= v.len(),
            views(parts@).push(cur@) == split_char(v@.subrange(0, i as int), d),
        decreases v.len() - i,
    {
        let ghost pre = v@.subrange(0, i as int);
        let ghost post = v@.subrange(0, i + 1);
        assert(post.drop_last() =~= pre);
        assert(post.last() == v@[i as int]);
        proof { lemma_split_nonempty(pre, d); }
        if v[i] == d {
            let done = cur;
            parts.push(done);
            cur = Vec::new();
            assert(views(parts@).push(cur@) =~= split_char(pre, d).push(Seq::empty()));
        } else {
            let ghost old_parts = views(parts@);
            cur.push(v[i]);
            assert(views(parts@).push(cur@) =~= split_char(pre, d).update(
                split_char(pre, d).len() - 1,
                split_char(pre, d).last().push(v@[i as int]),
            ));
        }
        i = i + 1;
    }
    assert(v@.subrange(0, v@.len() as int) =~= v@);
    parts.push(cur);
    parts
}

/// `parts.join(sep)` on characters.
pub fn join_chars(parts: &Vec<Vec<char>>, sep: &Vec<char>) -> (r: Vec<char>)
    ensures
        r@ == join_with(views(parts@), sep@),
{
    let mut out: Vec<char> = Vec::new();
    let mut i: usize = 0;
    while i < parts.len()
        invariant
            i <= parts.len(),
            out@ == join_with(views(parts@).subrange(0, i as int), sep@),
        decreases parts.len() - i,
    {
        let ghost pre = views(parts@).subrange(0, i as int);
        let ghost post = views(parts@).subrange(0, i + 1);
        assert(post.drop_last() =~= pre);
        if i > 0 {
            push_all(&mut out, sep);
        }
        push_all(&mut out, &parts[i]);
        i = i + 1;
    }
    assert(views(parts@).subrange(0, parts@.len() as int) =~= views(parts@));
    out
}

/// Whether `v` starts with `p`.
pub fn starts_with_chars(v: &Vec<char>, p: &Vec<char>) -> (r: bool)
    ensures
        r == starts_with(v@, p@),
{
    if p.len() > v.len() {
        return false;
    }
    let mut i: usize = 0;
    while i < p.len()
        invariant
            p.len() <= v.len(),
            i <= p.len(),
            v@.subrange(0, i as int) == p@.subrange(0, i as int),
        decreases p.len() - i,
    {
        if v[i] != p[i] {
            assert(v@.subrange(0, p.len() as int)[i as int] != p@[i as int]);
            return false;
        }
        assert(v@.subrange(0, i + 1) =~= v@.subrange(0, i as int).push(v@[i as int]));
        assert(p@.subrange(0, i + 1) =~= p@.subrange(0, i as int).push(p@[i as int]));
        i = i + 1;
    }
    assert(p@.subrange(0, p.len() as int) =~= p@);
    true
}

/// Whether `v[at..]` starts with `p`.
pub fn matches_at(v: &Vec<char>, at: usize, p: &Vec<char>) -> (r: bool)
    requires
        at <= v.len(),
    ensures
        r == contains_at(v@, p@, at as int),
{
    if p.len() > v.len() - at {
        return false;
    }
    let mut i: usize = 0;
    while i < p.len()
        invariant
            at <= v.len(),
            p.len() <= v.len() - at,
            i <= p.len(),
            v@.subrange(at as int, at + i) == p@.subrange(0, i as int),
        decreases p.len() - i,
    {
        if v[at + i] != p[i] {
            assert(v@.subrange(at as int, at + p.len())[i as int] != p@[i as int]);
            return false;
        }
        assert(v@.subrange(at as int, at + i + 1) =~= v@.subrange(at as int, at + i).push(v@[at + i]));
        assert(p@.subrange(0, i + 1) =~= p@.subrange(0, i as int).push(p@[i as int]));
        i = i + 1;
    }
    assert(p@.subrange(0, p.len() as int) =~= p@);
    true
}

/// Whether `v` ends with `p`.
pub fn ends_with_chars(v: &Vec<char>, p: &Vec<char>) -> (r: bool)
    ensures
        r == ends_with(v@, p@),
{
    if p.len() > v.len() {
        return false;
    }
    matches_at(v, v.len() - p.len(), p)
}

/// Whether `v` contains `needle` as a contiguous piece.
pub fn contains_chars(v: &Vec<char>, needle: &Vec<char>) -> (r: bool)
    ensures
        r == contains_seq(v@, needle@),
{
    if needle.len() > v.len() {
        assert forall|i: int| !contains_at(v@, needle@, i) by {}
        return false;
    }
    let last = v.len() - needle.len();
    let mut i: usize = 0;
    loop
        invariant
            needle.len() <= v.len(),
            last == v.len() - needle.len(),
            i <= last,
            forall|j: int| 0 <= j < i ==> !contains_at(v@, needle@, j),
        ensures
            forall|j: int| 0 <= j <= last ==> !contains_at(v@, needle@, j),
        decreases last - i,
    {
        if matches_at(v, i, needle) {
            return true;
        }
        if i == last {
            break;
        }
        i = i + 1;
    }
    false
}

/// Whether two character vectors are equal.
pub fn eq_chars(a: &Vec<char>, b: &Vec<char>) -> (r: bool)
    ensures
        r == (a@ == b@),
{
    if a.len() != b.len() {
        return false;
    }
    let r = starts_with_chars(a, b);
    proof {
        assert(a@.subrange(0, b@.len() as int) =~= a@);
    }
    r
}

/// `s.split(|c| seps.contains(c))` on characters.
pub fn split_on_any(v: &Vec<char>, seps: &Vec<char>) -> (r: Vec<Vec<char>>)
    ensures
        views(r@) == split_seps(v@, seps@),
{
    let mut parts: Vec<Vec<char>> = Vec::new();
    let mut cur: Vec<char> = Vec::new();
    let mut i: usize = 0;
    assert(v@.subrange(0, 0) =~= Seq::<char>::empty());
    assert(views(parts@).push(cur@) =~= seq![Seq::<char>::empty()]);
    while i < v.len()
        invariant
            i <= v.len(),
            views(parts@).push(cur@) == split_seps(v@.subrange(0, i as int), seps@),
        decreases v.len() - i,
    {
        let ghost pre = v@.subrange(0, i as int);
        let ghost post = v@.subrange(0, i + 1);
        assert(post.drop_last() =~= pre);
        assert(post.last() == v@[i as int]);
        proof { lemma_split_seps_nonempty(pre, seps@); }
        if contains_char(seps, v[i]) {
            let done = cur;
            parts.push(done);
            cur = Vec::new();
            assert(views(parts@).push(cur@) =~= split_seps(pre, seps@).push(Seq::empty()));
        } else {
            cur.push(v[i]);
            assert(views(parts@).push(cur@) =~= split_seps(pre, seps@).update(
                split_seps(pre, seps@).len() - 1,
                split_seps(pre, seps@).last().push(v@[i as int]),
            ));
        }
        i = i + 1;
    }
    assert(v@.subrange(0, v@.len() as int) =~= v@);
    parts.push(cur);
    parts
}

/// Whether `c` occurs in `v`.
pub fn contains_char(v: &Vec<char>, c: char) -> (r: bool)
    ensures
        r == v@.contains(c),
{
    let mut i: usize = 0;
    while i < v.len()
        invariant
            i <= v.len(),
            forall|j: int| 0 <= j < i ==> v@[j] != c,
        decreases v.len() - i,
    {
        if v[i] == c {
            assert(v@[i as int] == c);
            return true;
        }
        i = i + 1;
    }
    false
}

proof fn lemma_replace_step(s: Seq<char>, from: Seq<char>, to: Seq<char>, i: int)
    requires
        from.len() > 0,
        0 <= i < s.len(),
    ensures
        replace_seq(s.subrange(i, s.len() as int), from, to) == if contains_at(s, from, i) {
            to + replace_seq(s.subrange(i + from.len(), s.len() as int), from, to)
        } else {
            seq![s[i]] + replace_seq(s.subrange(i + 1, s.len() as int), from, to)
        },
{
    let t = s.subrange(i, s.len() as int);
    if contains_at(s, from, i) {
        assert(t.subrange(0, from.len() as int) =~= s.subrange(i, i + from.len()));
        assert(t.subrange(from.len() as int, t.len() as int) =~= s.subrange(i + from.len(), s.len() as int));
    } else {
        if starts_with(t, from) {
            assert(t.subrange(0, from.len() as int) =~= s.subrange(i, i + from.len()));
        }
        assert(t.drop_first() =~= s.subrange(i + 1, s.len() as int));
    }
}

/// `s.replace(from, to)` for a non-empty pattern.
pub fn replace_all(s: &str, from: &str, to: &str) -> (r: String)
    requires
        from@.len() > 0,
    ensures
        r@ == replace_seq(s@, from@, to@),
{
    let v = chars_of(s);
    let f = chars_of(from);
    let t = chars_of(to);
    let mut out: Vec<char> = Vec::new();
    let mut i: usize = 0;
    assert(v@.subrange(0, v@.len() as int) =~= v@);
    while i < v.len()
        invariant
            v@ == s@,
            f@ == from@,
            t@ == to@,
            f@.len() > 0,
            i <= v.len(),
            replace_seq(s@, from@, to@) == out@ + replace_seq(v@.subrange(i as int, v@.len() as int), f@, t@),
        decreases v.len() - i,
    {
        proof { lemma_replace_step(v@, f@, t@, i as int); }
        if matches_at(&v, i, &f) {
            let ghost pre = out@;
            push_all(&mut out, &t);
            assert(out@ + replace_seq(v@.subrange(i + f@.len(), v@.len() as int), f@, t@)
                =~= pre + (t@ + replace_seq(v@.subrange(i + f@.len(), v@.len() as int), f@, t@)));
            i = i + f.len();
        } else {
            let ghost pre = out@;
            out.push(v[i]);
            assert(out@ + replace_seq(v@.subrange(i + 1, v@.len() as int), f@, t@)
                =~= pre + (seq![v@[i as int]] + replace_seq(v@.subrange(i + 1, v@.len() as int), f@, t@)));
            i = i + 1;
        }
    }
    assert(v@.subrange(i as int, v@.len() as int) =~= Seq::<char>::empty());
    assert(out@ + Seq::<char>::empty() =~= out@);
    string_from(&out)
}

proof fn lemma_trim_start_at(s: Seq<char>, c: char, lo: int)
    requires
        0 <= lo <= s.len(),
        forall|j: int| 0 <= j < lo ==> s[j] == c,
        lo == s.len() || s[lo] != c,
    ensures
        trim_start_char(s, c) == s.subrange(lo, s.len() as int),
    decreases lo,
{
    if lo > 0 {
        lemma_trim_start_at(s.drop_first(), c, lo - 1);
        assert(s.drop_first().subrange(lo - 1, s.len() - 1) =~= s.subrange(lo, s.len() as int));
    } else {
        assert(s.subrange(0, s.len() as int) =~= s);
    }
}

proof fn lemma_trim_end_at(s: Seq<char>, c: char, hi: int)
    requires
        0 <= hi <= s.len(),
        forall|j: int| hi <= j < s.len() ==> s[j] == c,
        hi == 0 || s[hi - 1] != c,
    ensures
        trim_end_char(s, c) == s.subrange(0, hi),
    decreases s.len() - hi,
{
    if hi < s.len() {
        lemma_trim_end_at(s.drop_last(), c, hi);
        assert(s.drop_last().subrange(0, hi) =~= s.subrange(0, hi));
    } else {
        assert(s.subrange(0, s.len() as int) =~= s);
    }
}

/// The characters `v[lo..hi]`.
pub fn sub_chars(v: &Vec<char>, lo: usize, hi: usize) -> (r: Vec<char>)
    requires
        lo <= hi <= v.len(),
    ensures
        r@ == v@.subrange(lo as int, hi as int),
{
    let mut r: Vec<char> = Vec::new();
    let mut i = lo;
    while i < hi
        invariant
            lo <= i <= hi <= v.len(),
            r@ == v@.subrange(lo as int, i as int),
        decreases hi - i,
    {
        r.push(v[i]);
        assert(v@.subrange(lo as int, i + 1) =~= v@.subrange(lo as int, i as int).push(v@[i as int]));
        i = i + 1;
    }
    r
}

/// `s.trim_start_matches(c)` on characters.
pub fn trim_start_chars(v: &Vec<char>, c: char) -> (r: Vec<char>)
    ensures
        r@ == trim_start_char(v@, c),
{
    let mut lo: usize = 0;
    while lo < v.len() && v[lo] == c
        invariant
            lo <= v.len(),
            forall|j: int| 0 <= j < lo ==> v@[j] == c,
        decreases v.len() - lo,
    {
        lo = lo + 1;
    }
    proof {
        lemma_trim_start_at(v@, c, lo as int);
    }
    sub_chars(v, lo, v.len())
}

/// `s.trim_end_matches(c)` on characters.
pub fn trim_end_chars(v: &Vec<char>, c: char) -> (r: Vec<char>)
    ensures
        r@ == trim_end_char(v@, c),
{
    let mut hi: usize = v.len();
    while hi > 0 && v[hi - 1] == c
        invariant
            hi <= v.len(),
            forall|j: int| hi <= j < v.len() ==> v@[j] == c,
        decreases hi,
    {
        hi = hi - 1;
    }
    proof {
        lemma_trim_end_at(v@, c, hi as int);
    }
    sub_chars(v, 0, hi)
}

/// `s.trim_matches(c)` on characters.
pub fn trim_chars(v: &Vec<char>, c: char) -> (r: Vec<char>)
    ensures
        r@ == trim_char(v@, c),
{
    let t = trim_start_chars(v, c);
    trim_end_chars(&t, c)
}

/// `s.trim_end_matches(suffix)` for a non-empty suffix.
pub fn trim_end_seq_chars(v: &Vec<char>, suffix: &Vec<char>) -> (r: Vec<char>)
    requires
        suffix@.len() > 0,
    ensures
        r@ == trim_end_seq(v@, suffix@),
{
    let mut cur = sub_chars(v, 0, v.len());
    assert(cur@ =~= v@);
    while ends_with_chars(&cur, suffix)
        invariant
            suffix@.len() > 0,
            trim_end_seq(cur@, suffix@) == trim_end_seq(v@, suffix@),
        decreases cur@.len(),
    {
        let n = cur.len() - suffix.len();
        cur = sub_chars(&cur, 0, n);
    }
    cur
}

/// Whether two strings are equal.
pub fn str_equal(a: &str, b: &str) -> (r: bool)
    ensures
        r == (a@ == b@),
{
    let x = chars_of(a);
    let y = chars_of(b);
    eq_chars(&x, &y)
}

/// Whether `v` equals the string `s`.
pub fn eq_str(v: &Vec<char>, s: &str) -> (r: bool)
    ensures
        r == (v@ == s@),
{
    let w = chars_of(s);
    eq_chars(v, &w)
}


/// `str::trim_start`: leading white space removed.
pub open spec fn trim_ws_start(s: Seq<char>) -> Seq<char>
    decreases s.len(),
{
    if s.len() > 0 && spec_is_whitespace(s[0]) {
        trim_ws_start(s.drop_first())
    } else {
        s
    }
}

/// `str::trim_end`: trailing white space removed.
pub open spec fn trim_ws_end(s: Seq<char>) -> Seq<char>
    decreases s.len(),
{
    if s.len() > 0 && spec_is_whitespace(s.last()) {
        trim_ws_end(s.drop_last())
    } else {
        s
    }
}

/// `str::trim`: leading and trailing white space removed.
pub open spec fn trim_ws(s: Seq<char>) -> Seq<char> {
    trim_ws_end(trim_ws_start(s))
}

proof fn lemma_trim_ws_start_at(s: Seq<char>, lo: int)
    requires
        0 <= lo <= s.len(),
        forall|j: int| 0 <= j < lo ==> spec_is_whitespace(s[j]),
        lo == s.len() || !spec_is_whitespace(s[lo]),
    ensures
        trim_ws_start(s) == s.subrange(lo, s.len() as int),
    decreases lo,
{
    if lo > 0 {
        lemma_trim_ws_start_at(s.drop_first(), lo - 1);
        assert(s.drop_first().subrange(lo - 1, s.len() - 1) =~= s.subrange(lo, s.len() as int));
    } else {
        assert(s.subrange(0, s.len() as int) =~= s);
    }
}

proof fn lemma_trim_ws_end_at(s: Seq<char>, hi: int)
    requires
        0 <= hi <= s.len(),
        forall|j: int| hi <= j < s.len() ==> spec_is_whitespace(s[j]),
        hi == 0 || !spec_is_whitespace(s[hi - 1]),
    ensures
        trim_ws_end(s) == s.subrange(0, hi),
    decreases s.len() - hi,
{
    if hi < s.len() {
        lemma_trim_ws_end_at(s.drop_last(), hi);
        assert(s.drop_last().subrange(0, hi) =~= s.subrange(0, hi));
    } else {
        assert(s.subrange(0, s.len() as int) =~= s);
    }
}

/// `str::trim` on characters.
pub fn trim_ws_chars(v: &Vec<char>) -> (r: Vec<char>)
    ensures
        r@ == trim_ws(v@),
{
    let mut lo: usize = 0;
    while lo < v.len() && is_whitespace(v[lo])
        invariant
            lo <= v.len(),
            forall|j: int| 0 <= j < lo ==> spec_is_whitespace(v@[j]),
        decreases v.len() - lo,
    {
        lo = lo + 1;
    }
    proof {
        lemma_trim_ws_start_at(v@, lo as int);
    }
    let t = sub_chars(v, lo, v.len());
    let mut hi: usize = t.len();
    while hi > 0 && is_whitespace(t[hi - 1])
        invariant
            hi <= t.len(),
            forall|j: int| hi <= j < t.len() ==> spec_is_whitespace(t@[j]),
        decreases hi,
    {
        hi = hi - 1;
    }
    proof {
        lemma_trim_ws_end_at(t@, hi as int);
    }
    sub_chars(&t, 0, hi)
}

/// One trailing `'\r'` dropped.
pub fn strip_cr_chars(v: &Vec<char>) -> (r: Vec<char>)
    ensures
        r@ == strip_cr(v@),
{
    let n = v.len();
    if n > 0 && v[n - 1] == '\r' {
        sub_chars(v, 0, n - 1)
    } else {
        sub_chars(v, 0, n)
    }
}

/// `str::lines` on characters.
pub fn lines_of(v: &Vec<char>) -> (r: Vec<Vec<char>>)
    ensures
        views(r@) == lines(v@),
{
    let parts = split_chars(v, '\n');
    let ghost pv = views(parts@);
    proof {
        lemma_split_nonempty(v@, '\n');
    }
    let n = parts.len();
    let mut out: Vec<Vec<char>> = Vec::new();
    let mut i: usize = 0;
    while i + 1 < n
        invariant
            pv == views(parts@),
            n == parts.len(),
            n >= 1,
            pv.len() == n,
            i + 1 <= n,
            views(out@) =~= pv.drop_last().map_values(|l: Seq<char>| strip_cr(l)).subrange(0, i as int),
        decreases n - i,
    {
        assert(pv[i as int] == parts@[i as int]@);
        let l = strip_cr_chars(&parts[i]);
        let ghost prev = views(out@);
        let ghost ended = pv.drop_last().map_values(|l: Seq<char>| strip_cr(l));
        out.push(l);
        assert(views(out@) =~= prev.push(l@));
        assert(ended.subrange(0, i + 1) =~= ended.subrange(0, i as int).push(ended[i as int]));
        i = i + 1;
    }
    let ghost ended = pv.drop_last().map_values(|l: Seq<char>| strip_cr(l));
    assert(ended.subrange(0, ended.len() as int) =~= ended);
    assert(pv.last() == parts@[n - 1]@);
    if parts[n - 1].len() > 0 {
        let last = sub_chars(&parts[n - 1], 0, parts[n - 1].len());
        let ghost prev = views(out@);
        assert(prev =~= ended);
        assert(last@ =~= pv.last());
        out.push(last);
        assert(views(out@) =~= prev.push(last@));
        assert(views(out@) =~= ended.push(pv.last()));
    }
    out
}

/// The character of a decimal digit.
pub open spec fn digit_char(d: nat) -> char {
    if d == 0 { '0' } else if d == 1 { '1' } else if d == 2 { '2' } else if d == 3 { '3' }
    else if d == 4 { '4' } else if d == 5 { '5' } else if d == 6 { '6' } else if d == 7 { '7' }
    else if d == 8 { '8' } else { '9' }
}

/// The decimal numeral of `n`, as `{}` formats an unsigned integer.
pub open spec fn decimal(n: nat) -> Seq<char>
    decreases n,
{
    if n < 10 {
        seq![digit_char(n)]
    } else {
        decimal(n / 10).push(digit_char(n % 10))
    }
}

/// The numeral of `n` padded with zeros to at least `w` characters (`{:0w}`).
pub open spec fn zero_padded(n: nat, w: nat) -> Seq<char> {
    let d = decimal(n);
    if d.len() < w {
        Seq::new((w - d.len()) as nat, |i: int| '0') + d
    } else {
        d
    }
}

fn digit_of(d: u64) -> (c: char)
    requires
        d < 10,
    ensures
        c == digit_char(d as nat),
{
    if d == 0 { '0' } else if d == 1 { '1' } else if d == 2 { '2' } else if d == 3 { '3' }
    else if d == 4 { '4' } else if d == 5 { '5' } else if d == 6 { '6' } else if d == 7 { '7' }
    else if d == 8 { '8' } else { '9' }
}

/// Appends the decimal numeral of `n`.
pub fn push_decimal(out: &mut Vec<char>, n: u64)
    ensures
        final(out)@ == old(out)@ + decimal(n as nat),
    decreases n,
{
    if n >= 10 {
        push_decimal(out, n / 10);
    }
    let c = digit_of(n % 10);
    out.push(c);
    if n >= 10 {
        assert(old(out)@ + decimal(n as nat) =~= old(out)@ + decimal((n / 10) as nat) + seq![c]);
    } else {
        assert(old(out)@ + decimal(n as nat) =~= old(out)@.push(c));
    }
}

/// The decimal numeral of `n`.
pub fn decimal_string(n: u64) -> (r: String)
    ensures
        r@ == decimal(n as nat),
{
    let mut v: Vec<char> = Vec::new();
    push_decimal(&mut v, n);
    assert(v@ =~= decimal(n as nat));
    string_from(&v)
}

/// The numeral of `n` padded with zeros to at least `w` characters.
pub fn push_zero_padded(out: &mut Vec<char>, n: u64, w: usize)
    ensures
        final(out)@ == old(out)@ + zero_padded(n as nat, w as nat),
{
    let mut d: Vec<char> = Vec::new();
    push_decimal(&mut d, n);
    assert(d@ =~= decimal(n as nat));
    let mut k: usize = d.len();
    let ghost start = out@;
    while k < w
        invariant
            d@ == decimal(n as nat),
            d.len() <= k,
            d.len() >= w ==> k == d.len(),
            d.len() < w ==> k <= w,
            out@ == start + Seq::new((k - d.len()) as nat, |i: int| '0'),
        decreases w - k,
    {
        out.push('0');
        assert(Seq::new((k + 1 - d.len()) as nat, |i: int| '0') =~= Seq::new((k - d.len()) as nat, |i: int| '0').push('0'));
        k = k + 1;
    }
    push_all(out, &d);
    if d.len() >= w {
        assert(Seq::new((k - d.len()) as nat, |i: int| '0') =~= Seq::<char>::empty());
        assert(out@ =~= start + zero_padded(n as nat, w as nat));
    } else {
        assert(out@ =~= start + zero_padded(n as nat, w as nat));
    }
}


/// `s.replace(from, to)` for single characters, on characters.
pub fn replace_char_chars(v: &Vec<char>, from: char, to: char) -> (r: Vec<char>)
    ensures
        r@ == replace_char(v@, from, to),
{
    let mut out: Vec<char> = Vec::new();
    let mut i: usize = 0;
    while i < v.len()
        invariant
            i <= v.len(),
            out@ == replace_char(v@.subrange(0, i as int), from, to),
        decreases v.len() - i,
    {
        if v[i] == from {
            out.push(to);
        } else {
            out.push(v[i]);
        }
        assert(replace_char(v@.subrange(0, i + 1), from, to) =~= replace_char(v@.subrange(0, i as int), from, to).push(
            if v@[i as int] == from { to } else { v@[i as int] },
        ));
        i = i + 1;
    }
    assert(v@.subrange(0, v@.len() as int) =~= v@);
    out
}

} // verus!
