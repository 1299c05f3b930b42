//! Listings sorted by a text key (file names, tags, timestamps), in
//! ascending or descending string order.
use vstd::prelude::*;

verus! {

/// String order: lexicographic by character (for UTF-8 strings this is the
/// byte order `str`'s `Ord` uses).
pub open spec fn lex_lt(a: Seq<char>, b: Seq<char>) -> bool
    decreases a.len(),
{
    if a.len() == 0 {
        b.len() > 0
    } else if b.len() == 0 {
        false
    } else if a[0] != b[0] {
        a[0] < b[0]
    } else {
        lex_lt(a.drop_first(), b.drop_first())
    }
}

/// `a` comes strictly before `b` in the listing order.
pub open spec fn before(a: Seq<char>, b: Seq<char>, descending: bool) -> bool {
    if descending {
        lex_lt(b, a)
    } else {
        lex_lt(a, b)
    }
}

pub proof fn lemma_lex_lt_irreflexive(a: Seq<char>)
    ensures
        !lex_lt(a, a),
    decreases a.len(),
{
    if a.len() > 0 {
        lemma_lex_lt_irreflexive(a.drop_first());
    }
}

pub proof fn lemma_lex_lt_transitive(a: Seq<char>, b: Seq<char>, c: Seq<char>)
    requires
        lex_lt(a, b),
        lex_lt(b, c),
    ensures
        lex_lt(a, c),
    decreases a.len(),
{
    if a.len() > 0 && b.len() > 0 && c.len() > 0 && a[0] == b[0] && b[0] == c[0] {
        lemma_lex_lt_transitive(a.drop_first(), b.drop_first(), c.drop_first());
    }
}

pub proof fn lemma_lex_lt_asymmetric(a: Seq<char>, b: Seq<char>)
    requires
        lex_lt(a, b),
    ensures
        !lex_lt(b, a),
    decreases a.len(),
{
    if a.len() > 0 && b.len() > 0 && a[0] == b[0] {
        lemma_lex_lt_asymmetric(a.drop_first(), b.drop_first());
    }
}

proof fn lemma_before_transitive(a: Seq<char>, b: Seq<char>, c: Seq<char>, d: bool)
    requires
        before(a, b, d),
        before(b, c, d),
    ensures
        before(a, c, d),
{
    if d {
        lemma_lex_lt_transitive(c, b, a);
    } else {
        lemma_lex_lt_transitive(a, b, c);
    }
}

/// A record listed under a text key.
pub trait SortKey {
    spec fn key_view(&self) -> Seq<char>;

    fn sort_key(&self) -> (r: &str)
        ensures
            r@ == self.key_view(),
    ;
}

/// Keys of a sequence of records.
pub open spec fn keys_of<T: SortKey>(s: Seq<T>) -> Seq<Seq<char>> {
    s.map_values(|x: T| x.key_view())
}

/// No record comes after one its key orders it before.
pub open spec fn in_order(keys: Seq<Seq<char>>, descending: bool) -> bool {
    forall|i: int, j: int| 0 <= i < j < keys.len() ==> !before(#[trigger] keys[j], #[trigger] keys[i], descending)
}

fn str_before(a: &str, b: &str, descending: bool) -> (r: bool)
    ensures
        r == before(a@, b@, descending),
{
    let x = crate::text::chars_of(a);
    let y = crate::text::chars_of(b);
    if descending {
        lt_chars(y.as_slice(), x.as_slice())
    } else {
        lt_chars(x.as_slice(), y.as_slice())
    }
}

/// Whether `a` comes before `b` in string order.
pub fn str_less(a: &str, b: &str) -> (r: bool)
    ensures
        r == lex_lt(a@, b@),
{
    let x = crate::text::chars_of(a);
    let y = crate::text::chars_of(b);
    lt_chars(x.as_slice(), y.as_slice())
}

fn lt_chars(a: &[char], b: &[char]) -> (r: bool)
    ensures
        r == lex_lt(a@, b@),
{
    let mut i: usize = 0;
    assert(a@.skip(0) =~= a@ && b@.skip(0) =~= b@);
    while i < a.len() && i < b.len() && a[i] == b[i]
        invariant
            i <= a@.len(),
            i <= b@.len(),
            lex_lt(a@, b@) == lex_lt(a@.skip(i as int), b@.skip(i as int)),
        decreases a@.len() - i,
    {
        assert(a@.skip(i as int).drop_first() =~= a@.skip(i + 1));
        assert(b@.skip(i as int).drop_first() =~= b@.skip(i + 1));
        i += 1;
    }
    if i == a.len() {
        i < b.len()
    } else if i == b.len() {
        false
    } else {
        assert(a@.skip(i as int)[0] == a@[i as int]);
        assert(b@.skip(i as int)[0] == b@[i as int]);
        a[i] < b[i]
    }
}

/// The records of `s` whose key is `k`, in their order in `s`.
pub open spec fn with_key<T: SortKey>(s: Seq<T>, k: Seq<char>) -> Seq<T> {
    s.filter(|x: T| x.key_view() == k)
}

/// Inserting `x` in front of the first record it sorts before appends it
/// to the records of its key and leaves the other keys' records alone.
proof fn lemma_insert_keeps_key_groups<T: SortKey>(out: Seq<T>, p: int, x: T, descending: bool)
    requires
        0 <= p <= out.len(),
        in_order(keys_of(out), descending),
        p < out.len() ==> before(x.key_view(), out[p].key_view(), descending),
    ensures
        forall|k: Seq<char>| #[trigger] with_key(out.insert(p, x), k) == with_key(out, k) + with_key(seq![x], k),
{
    broadcast use Seq::filter_distributes_over_add;
    assert forall|k: Seq<char>| #[trigger] with_key(out.insert(p, x), k) == with_key(out, k) + with_key(seq![x], k) by {
        let pred = |y: T| y.key_view() == k;
        let a = out.take(p);
        let b = out.skip(p);
        assert(out =~= a + b);
        assert(out.insert(p, x) =~= a + seq![x] + b);
        assert(with_key(out.insert(p, x), k) == a.filter(pred) + seq![x].filter(pred) + b.filter(pred));
        assert(with_key(out, k) == a.filter(pred) + b.filter(pred));
        if x.key_view() == k {
            if b.filter(pred).len() > 0 {
                let e = b.filter(pred)[0];
                b.filter_lemma(pred);
                assert(b.filter(pred).contains(e));
                b.lemma_filter_contains_rev(pred, e);
                let m = choose|m: int| 0 <= m < b.len() && b[m] == e;
                assert(out[p + m] == e);
                assert(e.key_view() == k);
                if m == 0 {
                    lemma_lex_lt_irreflexive(k);
                } else {
                    assert(keys_of(out)[p + m] == k);
                    assert(keys_of(out)[p] == out[p].key_view());
                    assert(!before(keys_of(out)[p + m], keys_of(out)[p], descending));
                }
            }
            assert(b.filter(pred) =~= Seq::<T>::empty());
            assert(with_key(out.insert(p, x), k) =~= with_key(out, k) + with_key(seq![x], k));
        } else {
            assert(seq![x].filter(pred) =~= Seq::<T>::empty()) by {
                Seq::<T>::empty().lemma_filter_prepend(x, pred);
                assert(seq![x] + Seq::<T>::empty() =~= seq![x]);
                reveal(Seq::filter);
                assert(Seq::<T>::empty().filter(pred) =~= Seq::<T>::empty());
            }
            assert(with_key(out.insert(p, x), k) =~= with_key(out, k) + with_key(seq![x], k));
        }
    }
}

/// Sorts records by key, ascending or descending.
pub fn sort_by_key<T: SortKey>(items: Vec<T>, descending: bool) -> (r: Vec<T>)
    ensures
        r@.to_multiset() == items@.to_multiset(),
        in_order(keys_of(r@), descending),
        forall|k: Seq<char>| #[trigger] with_key(r@, k) == with_key(items@, k),
{
    broadcast use vstd::seq_lib::group_to_multiset_ensures;
    broadcast use vstd::multiset::group_multiset_axioms;
    let ghost orig = items@;
    let mut rest = items;
    let mut out: Vec<T> = Vec::new();
    let ghost all = rest@.to_multiset();
    assert forall|k: Seq<char>| #[trigger] with_key(orig, k) == with_key(out@, k) + with_key(rest@, k) by {
        reveal(Seq::filter);
        assert(with_key(out@, k) =~= Seq::<T>::empty());
        assert(with_key(out@, k) + with_key(rest@, k) =~= with_key(rest@, k));
    }
    while rest.len() > 0
        invariant
            out@.to_multiset().add(rest@.to_multiset()) == all,
            in_order(keys_of(out@), descending),
            forall|k: Seq<char>| #[trigger] with_key(orig, k) == with_key(out@, k) + with_key(rest@, k),
        decreases rest@.len(),
    {
        let ghost rest_before = rest@;
        let item = rest.remove(0);
        assert(rest_before.remove(0) == rest@);
        proof { vstd::seq_lib::to_multiset_remove(rest_before, 0); }
        let k = item.sort_key();
        let mut p: usize = 0;
        while p < out.len() && !str_before(k, out[p].sort_key(), descending)
            invariant
                p <= out@.len(),
                k@ == item.key_view(),
                forall|m: int| 0 <= m < p ==> !before(k@, #[trigger] keys_of(out@)[m], descending),
            decreases out@.len() - p,
        {
            assert(keys_of(out@)[p as int] == out@[p as int].key_view());
            p += 1;
        }
        let ghost ko = keys_of(out@);
        let ghost out_before = out@;
        out.insert(p, item);
        proof { vstd::seq_lib::to_multiset_insert(out_before, p as int, out@[p as int]); }
        assert(out@ == out_before.insert(p as int, out@[p as int]));
        assert(keys_of(out@) =~= ko.insert(p as int, k@));
        assert forall|i: int, j: int| 0 <= i < j < keys_of(out@).len() implies !before(
            #[trigger] keys_of(out@)[j],
            #[trigger] keys_of(out@)[i],
            descending,
        ) by {
            let ks = keys_of(out@);
            if j < p {
                assert(ks[i] == ko[i] && ks[j] == ko[j]);
            } else if j == p {
                assert(ks[j] == k@ && ks[i] == ko[i]);
            } else if i > p {
                assert(ks[i] == ko[i - 1] && ks[j] == ko[j - 1]);
            } else if i == p {
                assert(ks[i] == k@ && ks[j] == ko[j - 1]);
                if p < ko.len() {
                    assert(before(k@, ko[p as int], descending));
                    if before(ko[j - 1], k@, descending) {
                        lemma_before_transitive(ko[j - 1], k@, ko[p as int], descending);
                        assert(j - 1 >= p);
                        if j - 1 > p {
                            assert(!before(ko[j - 1], ko[p as int], descending));
                        } else {
                            lemma_lex_lt_irreflexive(ko[p as int]);
                        }
                    }
                }
            } else {
                assert(ks[i] == ko[i] && ks[j] == ko[j - 1]);
            }
        }
        proof {
            let x = out@[p as int];
            assert(x == rest_before[0]);
            assert(rest_before.contains(x)) by {
                assert(rest_before[0] == x);
            }
            vstd::seq_lib::to_multiset_contains(rest_before, x);
            assert(rest_before.to_multiset().contains(x));
            assert(rest@.to_multiset() == rest_before.to_multiset().remove(x));
            assert(out@.to_multiset() == out_before.to_multiset().insert(x));
        }
        assert(out@.to_multiset().add(rest@.to_multiset()) =~= all);
        proof {
            let x = out@[p as int];
            if p < out_before.len() {
                assert(out_before[p as int].key_view() == ko[p as int]);
            }
            lemma_insert_keeps_key_groups(out_before, p as int, x, descending);
            assert(rest_before =~= seq![x] + rest@);
            assert forall|k: Seq<char>| #[trigger] with_key(orig, k) == with_key(out@, k) + with_key(rest@, k) by {
                broadcast use Seq::filter_distributes_over_add;
                assert(with_key(rest_before, k) == with_key(seq![x], k) + with_key(rest@, k));
                assert(with_key(orig, k) == with_key(out_before, k) + with_key(rest_before, k));
                assert(with_key(out@, k) == with_key(out_before, k) + with_key(seq![x], k));
                assert(with_key(out@, k) + with_key(rest@, k) =~= with_key(out_before, k) + with_key(rest_before, k));
            }
        }
    }
    assert forall|k: Seq<char>| #[trigger] with_key(out@, k) == with_key(orig, k) by {
        reveal(Seq::filter);
        assert(with_key(rest@, k) =~= Seq::<T>::empty());
        assert(with_key(out@, k) + with_key(rest@, k) =~= with_key(out@, k));
    }
    out
}

/// Installed runtimes are listed by tag.
impl SortKey for (String, String) {
    open spec fn key_view(&self) -> Seq<char> {
        self.0@
    }

    fn sort_key(&self) -> (r: &str) {
        self.0.as_str()
    }
}

/// The installed runtimes (tag, java executable) found in the runtimes
/// directory, newest tag first; the archive cache directory `_archives` is
/// not a runtime.
pub fn installed_runtimes(entries: Vec<(String, String)>) -> (r: Vec<(String, String)>)
    ensures
        r@.to_multiset() == entries@.filter(|e: (String, String)| e.0@ != "_archives"@).to_multiset(),
        in_order(keys_of(r@), true),
{
    let ghost ev = entries@;
    let mut kept: Vec<(String, String)> = Vec::new();
    let mut rest = entries;
    let mut i: usize = 0;
    let n = rest.len();
    proof {
        reveal(Seq::filter);
        assert(ev.take(0) =~= Seq::<(String, String)>::empty());
    }
    while rest.len() > 0
        invariant
            rest@.len() + i == n,
            n == ev.len(),
            rest@ == ev.skip(i as int),
            kept@ == ev.take(i as int).filter(|e: (String, String)| e.0@ != "_archives"@),
        decreases rest@.len(),
    {
        proof { reveal(Seq::filter); }
        let e = rest.remove(0);
        assert(ev.take(i + 1).drop_last() =~= ev.take(i as int));
        assert(ev.take(i + 1).last() == e);
        assert(rest@ =~= ev.skip(i + 1));
        if !crate::text::str_eq(e.0.as_str(), "_archives") {
            kept.push(e);
        }
        i += 1;
    }
    assert(ev.take(i as int) =~= ev);
    sort_by_key(kept, true)
}

} // verus!
