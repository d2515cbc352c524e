//! Code-point order on strings and a stable sort of keyed items.

use vstd::prelude::*;
use crate::text::{chars_of, seq_le, seq_lt};

verus! {

broadcast use vstd::seq_lib::group_seq_properties;

pub proof fn lemma_lt_irrefl(a: Seq<char>)
    ensures
        !seq_lt(a, a),
    decreases a.len(),
{
    if a.len() > 0 {
        lemma_lt_irrefl(a.drop_first());
    }
}

pub proof fn lemma_lt_trans(a: Seq<char>, b: Seq<char>, c: Seq<char>)
    requires
        seq_lt(a, b),
        seq_lt(b, c),
    ensures
        seq_lt(a, c),
    decreases a.len(),
{
    if a.len() > 0 && b.len() > 0 && c.len() > 0 && a[0] == b[0] && b[0] == c[0] {
        lemma_lt_trans(a.drop_first(), b.drop_first(), c.drop_first());
    }
}

pub proof fn lemma_lt_total(a: Seq<char>, b: Seq<char>)
    requires
        a != b,
    ensures
        seq_lt(a, b) || seq_lt(b, a),
    decreases a.len(),
{
    if a.len() > 0 && b.len() > 0 && a[0] == b[0] {
        if a.drop_first() == b.drop_first() {
            assert(a =~= seq![a[0]] + a.drop_first());
            assert(b =~= seq![b[0]] + b.drop_first());
        }
        lemma_lt_total(a.drop_first(), b.drop_first());
    } else if a.len() > 0 && b.len() > 0 {
        assert((a[0] as int) != (b[0] as int));
    } else if a.len() == 0 && b.len() == 0 {
        assert(a =~= b);
    }
}

pub proof fn lemma_lt_asym(a: Seq<char>, b: Seq<char>)
    requires
        seq_lt(a, b),
    ensures
        !seq_lt(b, a),
{
    if seq_lt(b, a) {
        lemma_lt_trans(a, b, a);
        lemma_lt_irrefl(a);
    }
}

/// Whether `a` sorts strictly before `b`.
pub fn str_lt(a: &str, b: &str) -> (r: bool)
    ensures
        r == seq_lt(a@, b@),
{
    let x = chars_of(a);
    let y = chars_of(b);
    let mut i: usize = 0;
    while i < x.len() && i < y.len()
        invariant
            i <= x.len(),
            i <= y.len(),
            x@ == a@,
            y@ == b@,
            seq_lt(x@, y@) == seq_lt(x@.skip(i as int), y@.skip(i as int)),
        decreases x.len() - i,
    {
        if x[i] != y[i] {
            assert(x@.skip(i as int)[0] == x@[i as int]);
            assert(y@.skip(i as int)[0] == y@[i as int]);
            let c1 = x[i];
            let c2 = y[i];
            let r = c1 < c2;
            assert(r == ((c1 as int) < (c2 as int)));
            assert(x@.skip(i as int).len() > 0 && y@.skip(i as int).len() > 0);
            assert(seq_lt(x@.skip(i as int), y@.skip(i as int)) == ((c1 as int) < (c2 as int)));
            return r;
        }
        assert(x@.skip(i as int).drop_first() =~= x@.skip(i + 1));
        assert(y@.skip(i as int).drop_first() =~= y@.skip(i + 1));
        i = i + 1;
    }
    x.len() - i == 0 && y.len() - i > 0
}

/// Items that are sorted by a string key.
pub trait Keyed {
    /// The key of the item.
    spec fn spec_key(&self) -> Seq<char>;

    /// Computes the key of the item.
    fn key(&self) -> (r: String)
        ensures
            r@ == self.spec_key(),
    ;
}

/// Items ordered by key.
pub open spec fn sorted_by_key<T: Keyed>(s: Seq<T>) -> bool {
    forall|i: int, j: int| 0 <= i < j < s.len() ==> seq_le(#[trigger] s[i].spec_key(), #[trigger] s[j].spec_key())
}

/// Whether an item has key `k`.
pub open spec fn key_pred<T: Keyed>(k: Seq<char>) -> spec_fn(T) -> bool {
    |p: T| p.spec_key() == k
}

/// The items whose key is `k`, in their order.
pub open spec fn with_key<T: Keyed>(s: Seq<T>, k: Seq<char>) -> Seq<T> {
    s.filter(key_pred(k))
}

proof fn lemma_filter_none<T: Keyed>(s: Seq<T>, k: Seq<char>)
    requires
        forall|i: int| 0 <= i < s.len() ==> s[i].spec_key() != k,
    ensures
        with_key(s, k) == Seq::<T>::empty(),
    decreases s.len(),
{
    reveal(Seq::filter);
    if s.len() > 0 {
        lemma_filter_none(s.drop_last(), k);
    }
    assert(with_key(s, k) =~= Seq::<T>::empty());
}

proof fn lemma_insert_keeps_groups<T: Keyed>(out: Seq<T>, j: int, x: T, k: Seq<char>)
    requires
        0 <= j <= out.len(),
        forall|i: int| j <= i < out.len() ==> seq_lt(x.spec_key(), #[trigger] out[i].spec_key()),
    ensures
        with_key(out.insert(j, x), k) == if x.spec_key() == k {
            with_key(out, k).push(x)
        } else {
            with_key(out, k)
        },
{
    let f = key_pred::<T>(k);
    let a = out.subrange(0, j);
    let b = out.subrange(j, out.len() as int);
    assert(out =~= a + b);
    assert(out.insert(j, x) =~= a + (seq![x] + b));
    Seq::filter_distributes_over_add(a, b, f);
    Seq::filter_distributes_over_add(a, seq![x] + b, f);
    Seq::filter_distributes_over_add(seq![x], b, f);
    reveal(Seq::filter);
    assert(seq![x] =~= Seq::<T>::empty().push(x));
    Seq::<T>::empty().lemma_filter_push(x, f);
    assert(Seq::<T>::empty().filter(f) =~= Seq::<T>::empty());
    if x.spec_key() == k {
        assert forall|i: int| 0 <= i < b.len() implies b[i].spec_key() != k by {
            assert(seq_lt(x.spec_key(), out[j + i].spec_key()));
            lemma_lt_irrefl(x.spec_key());
        }
        lemma_filter_none(b, k);
        assert(with_key(seq![x], k) =~= seq![x]);
        assert(with_key(b, k) =~= Seq::<T>::empty());
    } else {
        assert(with_key(seq![x], k) =~= Seq::<T>::empty());
    }
}

/// Sorts `items` by key, keeping the order of items with equal keys (as the
/// standard library's stable sort does).
pub fn sort_by_key<T: Keyed>(items: Vec<T>) -> (r: Vec<T>)
    ensures
        sorted_by_key(r@),
        forall|k: Seq<char>| #[trigger] with_key(r@, k) == with_key(items@, k),
{
    let ghost orig = items@;
    assert(orig.len() == items.len());
    let mut rest = items;
    let mut out: Vec<T> = Vec::new();
    let mut n: usize = 0;
    proof {
        reveal(Seq::filter);
        assert forall|k: Seq<char>| #[trigger] with_key(out@, k) == with_key(orig.subrange(0, 0), k) by {
            assert(orig.subrange(0, 0) =~= Seq::<T>::empty());
            assert(with_key(out@, k) =~= Seq::<T>::empty());
            assert(with_key(orig.subrange(0, 0), k) =~= Seq::<T>::empty());
        }
    }
    while rest.len() > 0
        invariant
            n <= orig.len(),
            orig.len() <= usize::MAX,
            rest@ == orig.subrange(n as int, orig.len() as int),
            sorted_by_key(out@),
            forall|k: Seq<char>| #[trigger] with_key(out@, k) == with_key(orig.subrange(0, n as int), k),
        decreases rest.len(),
    {
        let x = rest.remove(0);
        assert(x == orig[n as int]);
        let xk = x.key();
        let mut j: usize = 0;
        while j < out.len() && !str_lt(xk.as_str(), out[j].key().as_str())
            invariant
                j <= out.len(),
                xk@ == x.spec_key(),
                forall|i: int| 0 <= i < j ==> !seq_lt(x.spec_key(), #[trigger] out@[i].spec_key()),
            decreases out.len() - j,
        {
            j = j + 1;
        }
        proof {
            assert forall|i: int| j <= i < out@.len() implies seq_lt(x.spec_key(), #[trigger] out@[i].spec_key()) by {
                if i > j {
                    assert(seq_le(out@[j as int].spec_key(), out@[i].spec_key()));
                    if seq_lt(out@[j as int].spec_key(), out@[i].spec_key()) {
                        lemma_lt_trans(x.spec_key(), out@[j as int].spec_key(), out@[i].spec_key());
                    }
                }
            }
            assert forall|i: int| 0 <= i < j implies seq_le(#[trigger] out@[i].spec_key(), x.spec_key()) by {
                if out@[i].spec_key() != x.spec_key() {
                    lemma_lt_total(out@[i].spec_key(), x.spec_key());
                }
            }
        }
        let ghost pre = out@;
        let ghost xv = x;
        out.insert(j, x);
        proof {
            assert(orig.subrange(0, n + 1) =~= orig.subrange(0, n as int).push(xv));
            assert forall|k: Seq<char>| #[trigger] with_key(out@, k) == with_key(orig.subrange(0, n + 1), k) by {
                lemma_insert_keeps_groups(pre, j as int, xv, k);
                orig.subrange(0, n as int).lemma_filter_push(xv, key_pred::<T>(k));
            }
            assert forall|a: int, b: int| 0 <= a < b < out@.len() implies seq_le(#[trigger] out@[a].spec_key(), #[trigger] out@[b].spec_key()) by {
                if a < j && b > j {
                    assert(seq_le(pre[a].spec_key(), xv.spec_key()));
                    assert(seq_lt(xv.spec_key(), pre[b - 1].spec_key()));
                    if seq_lt(pre[a].spec_key(), xv.spec_key()) {
                        lemma_lt_trans(pre[a].spec_key(), xv.spec_key(), pre[b - 1].spec_key());
                    }
                }
            }
        }
        n = n + 1;
    }
    assert(orig.subrange(0, n as int) =~= orig);
    out
}


/// Removing the first item from a sequence removes it from the group of its
/// key and leaves every other group as it was.
proof fn lemma_with_key_first<T: Keyed>(s: Seq<T>, k: Seq<char>)
    requires
        s.len() > 0,
    ensures
        with_key(s, k) == if s[0].spec_key() == k {
            seq![s[0]] + with_key(s.drop_first(), k)
        } else {
            with_key(s.drop_first(), k)
        },
{
    assert(s =~= seq![s[0]] + s.drop_first());
    Seq::filter_distributes_over_add(seq![s[0]], s.drop_first(), key_pred(k));
    reveal(Seq::filter);
    assert(seq![s[0]] =~= Seq::<T>::empty().push(s[0]));
    Seq::<T>::empty().lemma_filter_push(s[0], key_pred(k));
    assert(Seq::<T>::empty().filter(key_pred(k)) =~= Seq::<T>::empty());
    if s[0].spec_key() == k {
        assert(seq![s[0]].filter(key_pred(k)) =~= seq![s[0]]);
    } else {
        assert(seq![s[0]].filter(key_pred(k)) =~= Seq::<T>::empty());
    }
}

proof fn lemma_group_member<T: Keyed>(s: Seq<T>, k: Seq<char>)
    requires
        with_key(s, k).len() > 0,
    ensures
        exists|i: int| 0 <= i < s.len() && (#[trigger] s[i]).spec_key() == k,
    decreases s.len(),
{
    if s.len() == 0 {
        reveal(Seq::filter);
        assert(with_key(s, k) =~= Seq::<T>::empty());
    } else {
        lemma_with_key_first(s, k);
        if s[0].spec_key() != k {
            lemma_group_member(s.drop_first(), k);
            let i = choose|i: int| 0 <= i < s.drop_first().len() && (#[trigger] s.drop_first()[i]).spec_key() == k;
            assert(s[i + 1] == s.drop_first()[i]);
        }
    }
}

proof fn lemma_empty_groups<T: Keyed>(s: Seq<T>)
    requires
        s.len() > 0,
    ensures
        with_key(s, s[0].spec_key()).len() > 0,
{
    lemma_with_key_first(s, s[0].spec_key());
}

/// Two sequences sorted by key whose groups of equal keys hold, key by key,
/// the same values in the same order are the same sequence of values: the
/// order a stable sort produces is determined.
pub proof fn lemma_sorted_groups_determine<T: Keyed, V>(a: Seq<T>, b: Seq<T>, f: spec_fn(T) -> V)
    requires
        sorted_by_key(a),
        sorted_by_key(b),
        forall|k: Seq<char>| #[trigger] with_key(a, k).map_values(f) == with_key(b, k).map_values(f),
    ensures
        a.map_values(f) == b.map_values(f),
    decreases a.len() + b.len(),
{
    if a.len() == 0 && b.len() == 0 {
        assert(a.map_values(f) =~= b.map_values(f));
    } else if a.len() == 0 {
        let k = b[0].spec_key();
        lemma_empty_groups(b);
        reveal(Seq::filter);
        assert(with_key(a, k) =~= Seq::<T>::empty());
        assert(with_key(a, k).map_values(f).len() == 0);
        assert(with_key(b, k).map_values(f).len() > 0);
    } else if b.len() == 0 {
        let k = a[0].spec_key();
        lemma_empty_groups(a);
        reveal(Seq::filter);
        assert(with_key(b, k) =~= Seq::<T>::empty());
        assert(with_key(b, k).map_values(f).len() == 0);
        assert(with_key(a, k).map_values(f).len() > 0);
    } else {
        let ka = a[0].spec_key();
        let kb = b[0].spec_key();
        lemma_empty_groups(a);
        lemma_empty_groups(b);
        assert(with_key(a, kb).map_values(f).len() == with_key(b, kb).map_values(f).len());
        assert(with_key(b, ka).map_values(f).len() == with_key(a, ka).map_values(f).len());
        lemma_group_member(a, kb);
        lemma_group_member(b, ka);
        let i = choose|i: int| 0 <= i < a.len() && (#[trigger] a[i]).spec_key() == kb;
        let j = choose|j: int| 0 <= j < b.len() && (#[trigger] b[j]).spec_key() == ka;
        if i > 0 {
            assert(seq_le(a[0].spec_key(), a[i].spec_key()));
        }
        if j > 0 {
            assert(seq_le(b[0].spec_key(), b[j].spec_key()));
        }
        if ka != kb {
            lemma_lt_asym(ka, kb);
        }
        let k = ka;
        let a1 = a.drop_first();
        let b1 = b.drop_first();
        lemma_with_key_first(a, k);
        lemma_with_key_first(b, k);
        let wa = with_key(a, k).map_values(f);
        let wb = with_key(b, k).map_values(f);
        assert(wa[0] == f(a[0]));
        assert(wb[0] == f(b[0]));
        assert(with_key(a1, k).map_values(f) =~= wa.drop_first());
        assert(with_key(b1, k).map_values(f) =~= wb.drop_first());
        assert forall|q: Seq<char>| #[trigger] with_key(a1, q).map_values(f) == with_key(b1, q).map_values(f) by {
            lemma_with_key_first(a, q);
            lemma_with_key_first(b, q);
            assert(with_key(a, q).map_values(f) == with_key(b, q).map_values(f));
        }
        assert(sorted_by_key(a1)) by {
            assert forall|x: int, y: int| 0 <= x < y < a1.len() implies seq_le(#[trigger] a1[x].spec_key(), #[trigger] a1[y].spec_key()) by {
                assert(a1[x] == a[x + 1] && a1[y] == a[y + 1]);
            }
        }
        assert(sorted_by_key(b1)) by {
            assert forall|x: int, y: int| 0 <= x < y < b1.len() implies seq_le(#[trigger] b1[x].spec_key(), #[trigger] b1[y].spec_key()) by {
                assert(b1[x] == b[x + 1] && b1[y] == b[y + 1]);
            }
        }
        lemma_sorted_groups_determine(a1, b1, f);
        assert(a.map_values(f) =~= seq![f(a[0])] + a1.map_values(f));
        assert(b.map_values(f) =~= seq![f(b[0])] + b1.map_values(f));
    }
}

} // verus!
