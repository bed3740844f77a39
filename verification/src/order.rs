//! Lexicographic orders on text and a verified stable insertion sort by key.
use crate::text::{chars_of, str_eq};
use vstd::prelude::*;

verus! {

broadcast use vstd::seq_lib::group_seq_properties;

/// `lt` is a strict total order: irreflexive, transitive and connected.
pub open spec fn strict_total<T>(lt: spec_fn(T, T) -> bool) -> bool {
    &&& forall|x: T| !#[trigger] lt(x, x)
    &&& forall|x: T, y: T, z: T| #[trigger] lt(x, y) && #[trigger] lt(y, z) ==> lt(x, z)
    &&& forall|x: T, y: T| x != y ==> #[trigger] lt(x, y) || #[trigger] lt(y, x)
}

/// Lexicographic extension of `lt` to sequences (a proper prefix comes first).
pub open spec fn lex_lt<T>(a: Seq<T>, b: Seq<T>, lt: spec_fn(T, T) -> bool) -> bool
    decreases a.len(),
{
    if a.len() == 0 {
        b.len() > 0
    } else if b.len() == 0 {
        false
    } else if lt(a[0], b[0]) {
        true
    } else if a[0] == b[0] {
        lex_lt(a.drop_first(), b.drop_first(), lt)
    } else {
        false
    }
}

proof fn lemma_lex_irreflexive<T>(a: Seq<T>, lt: spec_fn(T, T) -> bool)
    requires
        strict_total(lt),
    ensures
        !lex_lt(a, a, lt),
    decreases a.len(),
{
    if a.len() > 0 {
        assert(!lt(a[0], a[0]));
        lemma_lex_irreflexive(a.drop_first(), lt);
    }
}

proof fn lemma_lex_transitive<T>(a: Seq<T>, b: Seq<T>, c: Seq<T>, lt: spec_fn(T, T) -> bool)
    requires
        strict_total(lt),
        lex_lt(a, b, lt),
        lex_lt(b, c, lt),
    ensures
        lex_lt(a, c, lt),
    decreases a.len(),
{
    if a.len() > 0 {
        assert(b.len() > 0);
        assert(c.len() > 0);
        if lt(a[0], b[0]) {
            if lt(b[0], c[0]) {
                assert(lt(a[0], c[0]));
            } else {
                assert(b[0] == c[0]);
            }
        } else {
            assert(a[0] == b[0]);
            if !lt(b[0], c[0]) {
                assert(b[0] == c[0]);
                lemma_lex_transitive(a.drop_first(), b.drop_first(), c.drop_first(), lt);
            }
        }
    }
}

proof fn lemma_lex_connected<T>(a: Seq<T>, b: Seq<T>, lt: spec_fn(T, T) -> bool)
    requires
        strict_total(lt),
        a != b,
    ensures
        lex_lt(a, b, lt) || lex_lt(b, a, lt),
    decreases a.len(),
{
    if a.len() == 0 {
        assert(b.len() > 0) by {
            if b.len() == 0 {
                assert(a =~= b);
            }
        }
    } else if b.len() > 0 {
        if a[0] == b[0] {
            if a.drop_first() == b.drop_first() {
                assert(a.len() == b.len()) by {
                    assert(a.drop_first().len() == b.drop_first().len());
                }
                assert(a =~= b) by {
                    assert forall|i: int| 0 <= i < a.len() implies a[i] == b[i] by {
                        if i > 0 {
                            assert(a[i] == a.drop_first()[i - 1]);
                            assert(b[i] == b.drop_first()[i - 1]);
                        }
                    }
                }
            }
            lemma_lex_connected(a.drop_first(), b.drop_first(), lt);
        }
    }
}

/// The lexicographic extension of a strict total order is a strict total order.
pub proof fn lemma_lex_strict_total<T>(lt: spec_fn(T, T) -> bool)
    requires
        strict_total(lt),
    ensures
        strict_total(|a: Seq<T>, b: Seq<T>| lex_lt(a, b, lt)),
{
    let llt = |a: Seq<T>, b: Seq<T>| lex_lt(a, b, lt);
    assert forall|x: Seq<T>| !#[trigger] llt(x, x) by {
        lemma_lex_irreflexive(x, lt);
    }
    assert forall|x: Seq<T>, y: Seq<T>, z: Seq<T>| #[trigger]
        llt(x, y) && #[trigger] llt(y, z) implies llt(x, z) by {
        lemma_lex_transitive(x, y, z, lt);
    }
    assert forall|x: Seq<T>, y: Seq<T>| x != y implies #[trigger] llt(x, y) || #[trigger] llt(
        y,
        x,
    ) by {
        lemma_lex_connected(x, y, lt);
    }
}

/// Code-point order on characters, which is also UTF-8 byte order.
pub open spec fn char_lt() -> spec_fn(char, char) -> bool {
    |x: char, y: char| (x as u32) < (y as u32)
}

/// Lexicographic order on text, as `str::cmp` orders strings.
pub open spec fn text_lt(a: Seq<char>, b: Seq<char>) -> bool {
    lex_lt(a, b, char_lt())
}

/// Order on sort keys: lexicographic over their text components.
pub open spec fn key_lt(a: Seq<Seq<char>>, b: Seq<Seq<char>>) -> bool {
    lex_lt(a, b, |x: Seq<char>, y: Seq<char>| text_lt(x, y))
}

pub open spec fn key_le(a: Seq<Seq<char>>, b: Seq<Seq<char>>) -> bool {
    a == b || key_lt(a, b)
}

/// The key order is a strict total order.
pub proof fn lemma_key_order()
    ensures
        strict_total(|a: Seq<Seq<char>>, b: Seq<Seq<char>>| key_lt(a, b)),
{
    let clt = char_lt();
    assert(strict_total(clt)) by {
        assert forall|x: char, y: char| x != y implies #[trigger] clt(x, y) || #[trigger] clt(
            y,
            x,
        ) by {
            if (x as u32) == (y as u32) {
                vstd::utf8::char_u32_cast(x, x as u32);
                vstd::utf8::char_u32_cast(y, y as u32);
            }
        }
    }
    lemma_lex_strict_total(clt);
    let tlt = |x: Seq<char>, y: Seq<char>| text_lt(x, y);
    assert(strict_total(tlt)) by {
        assert(tlt == (|a: Seq<char>, b: Seq<char>| lex_lt(a, b, clt)));
    }
    lemma_lex_strict_total(tlt);
    assert((|a: Seq<Seq<char>>, b: Seq<Seq<char>>| key_lt(a, b)) == (|a: Seq<Seq<char>>, b: Seq<Seq<char>>| lex_lt(a, b, tlt)));
}

/// Whether `a` sorts strictly before `b` as text.
pub fn text_less(a: &str, b: &str) -> (r: bool)
    ensures
        r == text_lt(a@, b@),
{
    let x = chars_of(a);
    let y = chars_of(b);
    let mut i: usize = 0;
    while i < x.len() && i < y.len() && x[i] == y[i]
        invariant
            i <= x@.len(),
            i <= y@.len(),
            x@ == a@,
            y@ == b@,
            forall|j: int| 0 <= j < i ==> x@[j] == y@[j],
            text_lt(a@, b@) == text_lt(x@.skip(i as int), y@.skip(i as int)),
        decreases x@.len() - i,
    {
        assert(x@.skip(i as int).drop_first() =~= x@.skip(i + 1));
        assert(y@.skip(i as int).drop_first() =~= y@.skip(i + 1));
        i = i + 1;
    }
    if i == y.len() {
        false
    } else if i == x.len() {
        true
    } else {
        (x[i] as u32) < (y[i] as u32)
    }
}

/// Order on two-part keys: by the first part, then the second.
pub fn key_less2(a0: &str, a1: &str, b0: &str, b1: &str) -> (r: bool)
    ensures
        r == key_lt(seq![a0@, a1@], seq![b0@, b1@]),
{
    proof {
        let a = seq![a0@, a1@];
        let b = seq![b0@, b1@];
        assert(a.drop_first() =~= seq![a1@]);
        assert(b.drop_first() =~= seq![b1@]);
        assert(a.drop_first().drop_first() =~= Seq::<Seq<char>>::empty());
        assert(b.drop_first().drop_first() =~= Seq::<Seq<char>>::empty());
        reveal_with_fuel(lex_lt, 3);
    }
    if text_less(a0, b0) {
        true
    } else if str_eq(a0, b0) {
        text_less(a1, b1)
    } else {
        false
    }
}

/// Order on three-part keys: by the first part, then the second, then the third.
pub fn key_less3(a0: &str, a1: &str, a2: &str, b0: &str, b1: &str, b2: &str) -> (r: bool)
    ensures
        r == key_lt(seq![a0@, a1@, a2@], seq![b0@, b1@, b2@]),
{
    proof {
        let a = seq![a0@, a1@, a2@];
        let b = seq![b0@, b1@, b2@];
        assert(a.drop_first() =~= seq![a1@, a2@]);
        assert(b.drop_first() =~= seq![b1@, b2@]);
        assert(a.drop_first().drop_first() =~= seq![a2@]);
        assert(b.drop_first().drop_first() =~= seq![b2@]);
        assert(a.drop_first().drop_first().drop_first() =~= Seq::<Seq<char>>::empty());
        assert(b.drop_first().drop_first().drop_first() =~= Seq::<Seq<char>>::empty());
        reveal_with_fuel(lex_lt, 4);
    }
    if text_less(a0, b0) {
        true
    } else if str_eq(a0, b0) {
        key_less2(a1, a2, b1, b2)
    } else {
        false
    }
}

/// Order on one-part keys.
pub fn key_less1(a0: &str, b0: &str) -> (r: bool)
    ensures
        r == key_lt(seq![a0@], seq![b0@]),
{
    proof {
        let a = seq![a0@];
        let b = seq![b0@];
        assert(a.drop_first() =~= Seq::<Seq<char>>::empty());
        assert(b.drop_first() =~= Seq::<Seq<char>>::empty());
        reveal_with_fuel(lex_lt, 2);
    }
    text_less(a0, b0)
}

/// The elements of `v` in reverse order, so that popping yields them in their original order.
pub fn reversed<T>(v: Vec<T>) -> (r: Vec<T>)
    ensures
        r@.len() == v@.len(),
        forall|k: int| 0 <= k < v@.len() ==> #[trigger] r@[k] == v@[v@.len() - 1 - k],
{
    let ghost original = v@;
    let mut v = v;
    let mut r: Vec<T> = Vec::new();
    while v.len() > 0
        invariant
            v@ == original.subrange(0, v@.len() as int),
            r@.len() + v@.len() == original.len(),
            forall|k: int| 0 <= k < r@.len() ==> #[trigger] r@[k] == original[original.len() - 1 - k],
        decreases v@.len(),
    {
        match v.pop() {
            Some(x) => {
                r.push(x);
            },
            None => {},
        }
    }
    r
}

/// A value that can be ordered by a key of text components.
pub trait SortKey {
    spec fn sort_key(&self) -> Seq<Seq<char>>;

    fn key_less(&self, other: &Self) -> (r: bool)
        ensures
            r == key_lt(self.sort_key(), other.sort_key()),
    ;
}

/// Every element's key is at most every later element's key.
pub open spec fn sorted_by_key<T: SortKey>(s: Seq<T>) -> bool {
    forall|i: int, j: int|
        0 <= i < j < s.len() ==> key_le(#[trigger] s[i].sort_key(), #[trigger] s[j].sort_key())
}

proof fn lemma_key_le_trans(a: Seq<Seq<char>>, b: Seq<Seq<char>>, c: Seq<Seq<char>>)
    requires
        key_le(a, b),
        key_le(b, c),
    ensures
        key_le(a, c),
{
    lemma_key_order();
    let klt = |a: Seq<Seq<char>>, b: Seq<Seq<char>>| key_lt(a, b);
    if a != b && b != c {
        assert(klt(a, b) && klt(b, c));
    }
}

proof fn lemma_not_less_is_le(a: Seq<Seq<char>>, b: Seq<Seq<char>>)
    requires
        !key_lt(a, b),
    ensures
        key_le(b, a),
{
    lemma_key_order();
    let klt = |a: Seq<Seq<char>>, b: Seq<Seq<char>>| key_lt(a, b);
    if a != b {
        assert(klt(a, b) || klt(b, a));
    }
}

proof fn lemma_less_is_le(a: Seq<Seq<char>>, b: Seq<Seq<char>>)
    requires
        key_lt(a, b),
    ensures
        key_le(a, b),
{
}

proof fn lemma_insert_keeps_sorted<T: SortKey>(removed: Seq<T>, i: int, j: int, x: T)
    requires
        0 <= j <= i <= removed.len(),
        sorted_by_key(removed.take(i)),
        forall|k: int| j <= k < i ==> key_lt(x.sort_key(), #[trigger] removed[k].sort_key()),
        j > 0 ==> key_le(removed[j - 1].sort_key(), x.sort_key()),
    ensures
        sorted_by_key(removed.insert(j, x).take(i + 1)),
{
    let after = removed.insert(j, x);
    let t = after.take(i + 1);
    let p = removed.take(i);
    assert forall|a: int, b: int| 0 <= a < b < i + 1 implies key_le(
        #[trigger] t[a].sort_key(),
        #[trigger] t[b].sort_key(),
    ) by {
        if b < j {
            assert(t[a] == p[a] && t[b] == p[b]);
        } else if b == j {
            assert(t[b] == x);
            assert(t[a] == p[a]);
            if a < j - 1 {
                assert(key_le(p[a].sort_key(), p[j - 1].sort_key()));
                lemma_key_le_trans(p[a].sort_key(), p[j - 1].sort_key(), x.sort_key());
            }
        } else if a == j {
            assert(t[a] == x);
            assert(t[b] == p[b - 1]);
            lemma_less_is_le(x.sort_key(), p[b - 1].sort_key());
        } else if a < j {
            assert(t[a] == p[a]);
            assert(t[b] == p[b - 1]);
            assert(key_le(p[a].sort_key(), p[b - 1].sort_key()));
        } else {
            assert(t[a] == p[a - 1]);
            assert(t[b] == p[b - 1]);
            assert(key_le(p[a - 1].sort_key(), p[b - 1].sort_key()));
        }
    }
}

/// The elements of `s` whose key is `k`, in their order in `s`.
pub open spec fn with_key<T: SortKey>(s: Seq<T>, k: Seq<Seq<char>>) -> Seq<T> {
    s.filter(key_is(k))
}

/// Whether an element's key is `k`.
pub open spec fn key_is<T: SortKey>(k: Seq<Seq<char>>) -> spec_fn(T) -> bool {
    |e: T| e.sort_key() == k
}

/// `a` and `b` hold the elements of every key in the same order.
pub open spec fn same_order_per_key<T: SortKey>(a: Seq<T>, b: Seq<T>) -> bool {
    forall|k: Seq<Seq<char>>| #[trigger] with_key(a, k) == with_key(b, k)
}

proof fn lemma_filter_none<T>(s: Seq<T>, pred: spec_fn(T) -> bool)
    requires
        forall|m: int| 0 <= m < s.len() ==> !pred(#[trigger] s[m]),
    ensures
        s.filter(pred) == Seq::<T>::empty(),
    decreases s.len(),
{
    reveal(Seq::filter);
    if s.len() > 0 {
        let rest = s.drop_last();
        assert forall|m: int| 0 <= m < rest.len() implies !pred(#[trigger] rest[m]) by {
            assert(rest[m] == s[m]);
        }
        lemma_filter_none(rest, pred);
    }
}

proof fn lemma_filter_single<T>(x: T, pred: spec_fn(T) -> bool)
    ensures
        seq![x].filter(pred) == (if pred(x) { seq![x] } else { Seq::<T>::empty() }),
{
    reveal_with_fuel(Seq::filter, 2);
    assert(seq![x].drop_last() =~= Seq::<T>::empty());
}

/// Moving `x` from index `i` down to `j`, past elements with greater keys only, keeps the
/// order of the elements of every key.
proof fn lemma_insert_keeps_key_order<T: SortKey>(removed: Seq<T>, i: int, j: int, x: T, k: Seq<Seq<char>>)
    requires
        0 <= j <= i <= removed.len(),
        forall|m: int| j <= m < i ==> key_lt(x.sort_key(), #[trigger] removed[m].sort_key()),
    ensures
        with_key(removed.insert(j, x), k) == with_key(removed.insert(i, x), k),
{
    let pred = key_is::<T>(k);
    let a = removed.take(j);
    let mid = removed.subrange(j, i);
    let b = removed.skip(i);
    assert(removed.insert(j, x) =~= a + (seq![x] + (mid + b)));
    assert(removed.insert(i, x) =~= a + (mid + (seq![x] + b)));
    Seq::filter_distributes_over_add(a, seq![x] + (mid + b), pred);
    Seq::filter_distributes_over_add(seq![x], mid + b, pred);
    Seq::filter_distributes_over_add(mid, b, pred);
    Seq::filter_distributes_over_add(a, mid + (seq![x] + b), pred);
    Seq::filter_distributes_over_add(mid, seq![x] + b, pred);
    Seq::filter_distributes_over_add(seq![x], b, pred);
    lemma_filter_single(x, pred);
    lemma_key_order();
    if pred(x) {
        assert forall|m: int| 0 <= m < mid.len() implies !pred(#[trigger] mid[m]) by {
            assert(mid[m] == removed[j + m]);
            assert(key_lt(x.sort_key(), mid[m].sort_key()));
            let klt = |a: Seq<Seq<char>>, b: Seq<Seq<char>>| key_lt(a, b);
            assert(!klt(x.sort_key(), x.sort_key()));
        }
        lemma_filter_none(mid, pred);
        assert((seq![x] + (mid + b)).filter(pred) =~= (mid + (seq![x] + b)).filter(pred));
    } else {
        assert((seq![x] + (mid + b)).filter(pred) =~= (mid + (seq![x] + b)).filter(pred));
    }
}

/// Sort `v` by key, keeping the same elements; elements with equal keys keep their order.
pub fn sort_by_key<T: SortKey>(v: &mut Vec<T>)
    ensures
        final(v)@.to_multiset() == old(v)@.to_multiset(),
        final(v)@.len() == old(v)@.len(),
        sorted_by_key(final(v)@),
        same_order_per_key(final(v)@, old(v)@),
{
    let n = v.len();
    if n < 2 {
        return;
    }
    assert(same_order_per_key(v@, old(v)@));
    let mut i: usize = 1;
    while i < n
        invariant
            1 <= i <= n,
            n == v@.len(),
            v@.to_multiset() == old(v)@.to_multiset(),
            sorted_by_key(v@.take(i as int)),
            same_order_per_key(v@, old(v)@),
        decreases n - i,
    {
        let ghost before = v@;
        let x = v.remove(i);
        let ghost removed = v@;
        assert(removed.take(i as int) =~= before.take(i as int));
        let mut j: usize = i;
        while j > 0 && x.key_less(&v[j - 1])
            invariant
                0 <= j <= i,
                i < n,
                v@ == removed,
                removed.len() == n - 1,
                sorted_by_key(removed.take(i as int)),
                forall|k: int| j <= k < i ==> key_lt(x.sort_key(), #[trigger] removed[k].sort_key()),
            decreases j,
        {
            j = j - 1;
        }
        proof {
            if j > 0 {
                lemma_not_less_is_le(x.sort_key(), removed[j - 1].sort_key());
            }
        }
        v.insert(j, x);
        proof {
            vstd::seq_lib::to_multiset_remove(before, i as int);
            vstd::seq_lib::to_multiset_insert(removed, j as int, x);
            assert(v@.to_multiset() =~= before.to_multiset());
            lemma_insert_keeps_sorted(removed, i as int, j as int, x);
            assert(before =~= removed.insert(i as int, x));
            assert forall|k: Seq<Seq<char>>| #[trigger] with_key(v@, k) == with_key(old(v)@, k) by {
                lemma_insert_keeps_key_order(removed, i as int, j as int, x, k);
                assert(with_key(before, k) == with_key(old(v)@, k));
            }
        }
        i = i + 1;
    }
    assert(v@.take(n as int) =~= v@);
}

} // verus!
