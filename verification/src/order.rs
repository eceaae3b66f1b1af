//! Ordering text, and the stable sort that every list the greeter shows goes
//! through.
//!
//! `Ord` on `str` compares the UTF-8 bytes, which orders exactly as comparing
//! the characters by code point does; `lex_le` states that order on the
//! character view. `sort_by_key` is a stable sort by a text key, which is what
//! `slice::sort_by` with a `cmp` on that key gives.
use vstd::prelude::*;

verus! {

/// `a <= b` for `str`: lexicographic by character code, a proper prefix first.
pub open spec fn lex_le(a: Seq<char>, b: Seq<char>) -> bool
    decreases a.len(),
{
    if a.len() == 0 {
        true
    } else if b.len() == 0 {
        false
    } else if a[0] != b[0] {
        (a[0] as int) < (b[0] as int)
    } else {
        lex_le(a.drop_first(), b.drop_first())
    }
}

pub proof fn lemma_lex_le_reflexive(a: Seq<char>)
    ensures
        lex_le(a, a),
    decreases a.len(),
{
    if a.len() > 0 {
        lemma_lex_le_reflexive(a.drop_first());
    }
}

pub proof fn lemma_lex_le_total(a: Seq<char>, b: Seq<char>)
    ensures
        lex_le(a, b) || lex_le(b, a),
    decreases a.len(),
{
    if a.len() > 0 && b.len() > 0 {
        if a[0] == b[0] {
            lemma_lex_le_total(a.drop_first(), b.drop_first());
        } else {
            assert((a[0] as int) != (b[0] as int));
        }
    }
}

pub proof fn lemma_lex_le_antisymmetric(a: Seq<char>, b: Seq<char>)
    requires
        lex_le(a, b),
        lex_le(b, a),
    ensures
        a == b,
    decreases a.len(),
{
    if a.len() > 0 && b.len() > 0 {
        lemma_lex_le_antisymmetric(a.drop_first(), b.drop_first());
        assert(a =~= seq![a[0]] + a.drop_first());
        assert(b =~= seq![b[0]] + b.drop_first());
    } else {
        assert(a =~= b);
    }
}

pub proof fn lemma_lex_le_transitive(a: Seq<char>, b: Seq<char>, c: Seq<char>)
    requires
        lex_le(a, b),
        lex_le(b, c),
    ensures
        lex_le(a, c),
    decreases a.len(),
{
    if a.len() > 0 && b.len() > 0 && c.len() > 0 && a[0] == b[0] && b[0] == c[0] {
        lemma_lex_le_transitive(a.drop_first(), b.drop_first(), c.drop_first());
    }
}

/// `a <= b` on text.
pub fn lex_le_chars(a: &Vec<char>, b: &Vec<char>) -> (r: bool)
    ensures
        r == lex_le(a@, b@),
{
    let mut i: usize = 0;
    assert(a@.skip(0) =~= a@);
    assert(b@.skip(0) =~= b@);
    while i < a.len() && i < b.len() && a[i] == b[i]
        invariant
            i <= a.len(),
            i <= b.len(),
            lex_le(a@, b@) == lex_le(a@.skip(i as int), b@.skip(i as int)),
        decreases a.len() - i,
    {
        assert(a@.skip(i as int).drop_first() =~= a@.skip(i + 1));
        assert(b@.skip(i as int).drop_first() =~= b@.skip(i + 1));
        i += 1;
    }
    if i == a.len() {
        true
    } else if i == b.len() {
        false
    } else {
        a[i] < b[i]
    }
}

/// A value with a text key to be sorted by.
pub trait SortKey: Sized {
    spec fn sort_key(&self) -> Seq<char>;

    fn key_chars(&self) -> (k: Vec<char>)
        ensures
            k@ == self.sort_key(),
    ;
}

/// Ordered by key, ascending.
pub open spec fn sorted_by_key<T: SortKey>(s: Seq<T>) -> bool {
    forall|i: int, j: int|
        0 <= i < j < s.len() ==> lex_le(#[trigger] s[i].sort_key(), #[trigger] s[j].sort_key())
}

/// The predicate "has key `k`".
pub open spec fn has_key<T: SortKey>(k: Seq<char>) -> spec_fn(T) -> bool {
    |x: T| x.sort_key() == k
}

/// `out` is `inp` sorted by key, stably: as long, ascending, and for every
/// key the items with that key are the same ones in the same order. That pins
/// `out` down completely.
pub open spec fn stable_sort_of<T: SortKey>(out: Seq<T>, inp: Seq<T>) -> bool {
    &&& out.len() == inp.len()
    &&& sorted_by_key(out)
    &&& forall|k: Seq<char>| #[trigger] out.filter(has_key::<T>(k)) == inp.filter(has_key::<T>(k))
}

/// A stable sort keeps every item, and adds none.
pub proof fn lemma_stable_sort_keeps_items<T: SortKey>(out: Seq<T>, inp: Seq<T>, x: T)
    requires
        stable_sort_of(out, inp),
    ensures
        out.contains(x) == inp.contains(x),
{
    let k = x.sort_key();
    assert(out.filter(has_key::<T>(k)) == inp.filter(has_key::<T>(k)));
    lemma_contains_by_key(out, x);
    lemma_contains_by_key(inp, x);
}

/// `s` holds `x` exactly when its items with `x`'s key do.
proof fn lemma_contains_by_key<T: SortKey>(s: Seq<T>, x: T)
    ensures
        s.contains(x) == s.filter(has_key::<T>(x.sort_key())).contains(x),
{
    let f = has_key::<T>(x.sort_key());
    if s.contains(x) {
        let i = choose|i: int| 0 <= i < s.len() && s[i] == x;
        s.lemma_filter_contains(f, i);
    }
    if s.filter(f).contains(x) {
        s.lemma_filter_contains_rev(f, x);
    }
}

proof fn lemma_filter_singleton<T>(x: T, f: spec_fn(T) -> bool)
    ensures
        seq![x].filter(f) == (if f(x) {
            seq![x]
        } else {
            Seq::<T>::empty()
        }),
{
    reveal_with_fuel(Seq::filter, 2);
    assert(seq![x].drop_last() =~= Seq::<T>::empty());
}

proof fn lemma_filter_none<T>(s: Seq<T>, f: spec_fn(T) -> bool)
    requires
        forall|i: int| 0 <= i < s.len() ==> !f(#[trigger] s[i]),
    ensures
        s.filter(f) == Seq::<T>::empty(),
{
    broadcast use vstd::seq_lib::group_filter_ensures;

    if s.filter(f).len() > 0 {
        let y = s.filter(f)[0];
        s.lemma_filter_pred(f, 0);
        assert(s.filter(f).contains(y));
        s.lemma_filter_contains_rev(f, y);
    }
    assert(s.filter(f) =~= Seq::<T>::empty());
}

/// Inserting `x` at `p` into a sorted sequence, where everything before `p`
/// has a key `<=` `x`'s and everything from `p` on a key that is not, keeps
/// it sorted and adds `x` as the last item of its key.
proof fn lemma_insert_sorted<T: SortKey>(out: Seq<T>, before: Seq<T>, x: T, p: int)
    requires
        0 <= p <= out.len(),
        sorted_by_key(out),
        forall|k: Seq<char>| #[trigger] out.filter(has_key::<T>(k)) == before.filter(has_key::<T>(k)),
        p > 0 ==> lex_le(out[p - 1].sort_key(), x.sort_key()),
        forall|j: int| p <= j < out.len() ==> !lex_le(#[trigger] out[j].sort_key(), x.sort_key()),
    ensures
        sorted_by_key(out.insert(p, x)),
        forall|k: Seq<char>| #[trigger]
            out.insert(p, x).filter(has_key::<T>(k)) == before.push(x).filter(has_key::<T>(k)),
{
    let new = out.insert(p, x);
    let kx = x.sort_key();
    assert forall|i: int, j: int| 0 <= i < j < new.len() implies lex_le(
        #[trigger] new[i].sort_key(),
        #[trigger] new[j].sort_key(),
    ) by {
        if i < p && j == p {
            if i < p - 1 {
                lemma_lex_le_transitive(out[i].sort_key(), out[p - 1].sort_key(), kx);
            }
        } else if i == p {
            lemma_lex_le_total(out[j - 1].sort_key(), kx);
        } else if i < p && j > p {
            assert(new[i] == out[i]);
            assert(new[j] == out[j - 1]);
        } else if i > p {
            assert(new[i] == out[i - 1]);
            assert(new[j] == out[j - 1]);
        }
    }
    assert forall|k: Seq<char>| #[trigger]
        new.filter(has_key::<T>(k)) == before.push(x).filter(has_key::<T>(k)) by {
        let f = has_key::<T>(k);
        let head = out.take(p);
        let tail = out.skip(p);
        assert(new =~= head + seq![x] + tail);
        assert(out =~= head + tail);
        assert(before.push(x) =~= before + seq![x]);
        Seq::filter_distributes_over_add(head + seq![x], tail, f);
        Seq::filter_distributes_over_add(head, seq![x], f);
        Seq::filter_distributes_over_add(head, tail, f);
        Seq::filter_distributes_over_add(before, seq![x], f);
        lemma_filter_singleton(x, f);
        assert(out.filter(f) == before.filter(f));
        if k == kx {
            assert forall|i: int| 0 <= i < tail.len() implies !f(#[trigger] tail[i]) by {
                assert(tail[i] == out[p + i]);
                if tail[i].sort_key() == kx {
                    lemma_lex_le_reflexive(kx);
                }
            }
            lemma_filter_none(tail, f);
            assert(new.filter(f) =~= before.push(x).filter(f));
        } else {
            assert(!f(x));
            assert(new.filter(f) =~= before.push(x).filter(f));
        }
    }
}

/// `slice::sort_by` on a text key: a stable sort, ascending.
pub fn sort_by_key<T: SortKey>(items: Vec<T>) -> (out: Vec<T>)
    ensures
        stable_sort_of(out@, items@),
{
    let ghost orig = items@;
    let mut rest = items;
    let mut out: Vec<T> = Vec::new();
    let ghost mut n: int = 0;
    assert(orig.skip(0) =~= orig);
    assert forall|k: Seq<char>| #[trigger] out@.filter(has_key::<T>(k)) == orig.take(0).filter(
        has_key::<T>(k),
    ) by {
        reveal_with_fuel(Seq::filter, 1);
        assert(orig.take(0) =~= Seq::<T>::empty());
        assert(out@ =~= Seq::<T>::empty());
    }
    while rest.len() > 0
        invariant
            0 <= n <= orig.len(),
            rest@ == orig.skip(n),
            out@.len() == n,
            sorted_by_key(out@),
            forall|k: Seq<char>| #[trigger]
                out@.filter(has_key::<T>(k)) == orig.take(n).filter(has_key::<T>(k)),
        decreases rest.len(),
    {
        let x = rest.remove(0);
        assert(x == orig[n]);
        let kx = x.key_chars();
        let mut p = out.len();
        while p > 0 && !lex_le_chars(&out[p - 1].key_chars(), &kx)
            invariant
                p <= out.len(),
                kx@ == x.sort_key(),
                forall|j: int| p <= j < out.len() ==> !lex_le(#[trigger] out@[j].sort_key(), kx@),
            decreases p,
        {
            p -= 1;
        }
        proof {
            lemma_insert_sorted(out@, orig.take(n), x, p as int);
            assert(orig.take(n).push(x) =~= orig.take(n + 1));
        }
        out.insert(p, x);
        proof {
            n = n + 1;
            assert(rest@ =~= orig.skip(n));
        }
    }
    assert(orig.take(n) =~= orig);
    out
}

} // verus!
