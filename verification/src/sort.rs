//! Sorting by string keys: names, or (namespace, name) pairs, compared
//! lexicographically as `String`'s `Ord` compares them.
use vstd::multiset::Multiset;
use vstd::prelude::*;

use crate::text::{lemma_lex_lt_irreflexive, lemma_lex_lt_transitive, lemma_lex_lt_trichotomy, lex_lt, str_lt};

verus! {

broadcast use {vstd::seq_lib::group_to_multiset_ensures, vstd::multiset::group_multiset_axioms};

/// Lexicographic order on sequences of strings, each string compared by
/// `lex_lt`; this is the order of tuples of `String`s.
pub open spec fn keys_lt(a: Seq<Seq<char>>, b: Seq<Seq<char>>) -> bool
    decreases a.len(),
{
    if a.len() == 0 {
        b.len() > 0
    } else if b.len() == 0 {
        false
    } else if lex_lt(a[0], b[0]) {
        true
    } else if a[0] == b[0] {
        keys_lt(a.drop_first(), b.drop_first())
    } else {
        false
    }
}

/// `keys_lt` is total on distinct keys and never holds both ways.
pub proof fn lemma_keys_lt_trichotomy(a: Seq<Seq<char>>, b: Seq<Seq<char>>)
    ensures
        keys_lt(a, b) || a == b || keys_lt(b, a),
        !(keys_lt(a, b) && keys_lt(b, a)),
        !keys_lt(a, a),
    decreases a.len(),
{
    if a.len() > 0 {
        lemma_lex_lt_irreflexive(a[0]);
        lemma_keys_lt_trichotomy(a.drop_first(), a.drop_first());
    }
    if a.len() == 0 {
        if b.len() == 0 {
            assert(a =~= b);
        }
    } else if b.len() > 0 {
        lemma_lex_lt_trichotomy(a[0], b[0]);
        lemma_lex_lt_irreflexive(a[0]);
        lemma_keys_lt_trichotomy(a.drop_first(), b.drop_first());
        lemma_keys_lt_trichotomy(a.drop_first(), a.drop_first());
        if a[0] == b[0] && a.drop_first() == b.drop_first() {
            assert(a =~= b) by {
                assert forall|k: int| 0 <= k < a.len() implies a[k] == b[k] by {
                    if k > 0 {
                        assert(a[k] == a.drop_first()[k - 1]);
                        assert(b[k] == b.drop_first()[k - 1]);
                    }
                }
            }
        }
    }
}

/// `keys_lt` is transitive.
pub proof fn lemma_keys_lt_transitive(a: Seq<Seq<char>>, b: Seq<Seq<char>>, c: Seq<Seq<char>>)
    requires
        keys_lt(a, b),
        keys_lt(b, c),
    ensures
        keys_lt(a, c),
    decreases a.len(),
{
    if a.len() > 0 && b.len() > 0 && c.len() > 0 {
        lemma_lex_lt_trichotomy(a[0], b[0]);
        lemma_lex_lt_trichotomy(b[0], c[0]);
        if lex_lt(a[0], b[0]) && lex_lt(b[0], c[0]) {
            lemma_lex_lt_transitive(a[0], b[0], c[0]);
        }
        if a[0] == b[0] && b[0] == c[0] {
            lemma_keys_lt_transitive(a.drop_first(), b.drop_first(), c.drop_first());
        }
    }
}

/// Values ordered by a key made of strings.
pub trait Keyed {
    /// The key by which values are ordered.
    spec fn sort_key(&self) -> Seq<Seq<char>>;

    /// Whether `self`'s key comes strictly before `other`'s.
    fn key_lt(&self, other: &Self) -> (r: bool)
        ensures
            r == keys_lt(self.sort_key(), other.sort_key()),
    ;
}

/// `s` is in order of its keys (equal keys may stand in any order).
pub open spec fn sorted_by_key<T: Keyed>(s: Seq<T>) -> bool {
    forall|i: int, j: int| 0 <= i < j < s.len() ==> !keys_lt(s[j].sort_key(), s[i].sort_key())
}

/// No two values of `s` have the same key.
pub open spec fn keys_distinct<T: Keyed>(s: Seq<T>) -> bool {
    forall|i: int, j: int|
        0 <= i < s.len() && 0 <= j < s.len() && i != j ==> s[i].sort_key() != s[j].sort_key()
}

/// `s` is in strictly increasing order of its keys.
pub open spec fn strictly_sorted_by_key<T: Keyed>(s: Seq<T>) -> bool {
    forall|i: int, j: int| 0 <= i < j < s.len() ==> keys_lt(s[i].sort_key(), s[j].sort_key())
}

/// A sorted reordering of values whose keys are all distinct is strictly
/// increasing, and its keys are distinct too.
pub proof fn lemma_sorted_distinct<T: Keyed>(r: Seq<T>, v: Seq<T>)
    requires
        sorted_by_key(r),
        r.to_multiset() == v.to_multiset(),
        keys_distinct(v),
    ensures
        strictly_sorted_by_key(r),
        keys_distinct(r),
{
    assert(v.no_duplicates());
    v.lemma_multiset_has_no_duplicates();
    assert forall|x: T| r.to_multiset().contains(x) implies r.to_multiset().count(x) == 1 by {}
    r.lemma_multiset_has_no_duplicates_conv();
    assert forall|i: int, j: int| 0 <= i < j < r.len() implies keys_lt(
        r[i].sort_key(),
        r[j].sort_key(),
    ) by {
        assert(r.contains(r[i]));
        assert(r.contains(r[j]));
        assert(v.to_multiset().count(r[i]) > 0);
        assert(v.to_multiset().count(r[j]) > 0);
        assert(v.contains(r[i]));
        assert(v.contains(r[j]));
        let a = choose|a: int| 0 <= a < v.len() && v[a] == r[i];
        let b = choose|b: int| 0 <= b < v.len() && v[b] == r[j];
        assert(r[i] != r[j]);
        assert(a != b);
        lemma_keys_lt_trichotomy(r[i].sort_key(), r[j].sort_key());
    }
    assert forall|i: int, j: int|
        0 <= i < r.len() && 0 <= j < r.len() && i != j implies r[i].sort_key()
        != r[j].sort_key() by {
        lemma_keys_lt_trichotomy(r[i].sort_key(), r[j].sort_key());
    }
}

/// Sorts `v` by key; values with distinct keys come out in strictly
/// increasing order.
pub fn sort_by_key<T: Keyed>(v: Vec<T>) -> (r: Vec<T>)
    ensures
        sorted_by_key(r@),
        r@.to_multiset() == v@.to_multiset(),
        r@.len() == v@.len(),
        keys_distinct(v@) ==> strictly_sorted_by_key(r@),
{
    let ghost original = v@;
    let mut out: Vec<T> = Vec::new();
    let mut rest = v;
    assert(out@.to_multiset() =~= Multiset::<T>::empty());
    while rest.len() > 0
        invariant
            sorted_by_key(out@),
            out@.to_multiset().add(rest@.to_multiset()) == original.to_multiset(),
        decreases rest@.len(),
    {
        let ghost before_rest = rest@;
        let x = rest.remove(0);
        proof {
            assert(before_rest.remove(0).to_multiset() == before_rest.to_multiset().remove(
                before_rest[0],
            ));
        }
        let mut p: usize = 0;
        while p < out.len() && !x.key_lt(&out[p])
            invariant
                p <= out@.len(),
                forall|k: int| 0 <= k < p ==> !keys_lt(x.sort_key(), #[trigger] out@[k].sort_key()),
            decreases out@.len() - p,
        {
            p = p + 1;
        }
        let ghost before_out = out@;
        out.insert(p, x);
        proof {
            assert forall|i: int, j: int| 0 <= i < j < out@.len() implies !keys_lt(
                out@[j].sort_key(),
                out@[i].sort_key(),
            ) by {
                if i < p && j == p {
                    lemma_keys_lt_trichotomy(before_out[i].sort_key(), x.sort_key());
                } else if i == p && j > p {
                    let y = before_out[j - 1];
                    let z = before_out[p as int];
                    lemma_keys_lt_trichotomy(y.sort_key(), x.sort_key());
                    lemma_keys_lt_trichotomy(z.sort_key(), y.sort_key());
                    if keys_lt(y.sort_key(), x.sort_key()) {
                        if j - 1 > p {
                            if keys_lt(z.sort_key(), y.sort_key()) {
                                lemma_keys_lt_transitive(x.sort_key(), z.sort_key(), y.sort_key());
                            }
                        }
                        lemma_keys_lt_trichotomy(x.sort_key(), y.sort_key());
                    }
                } else if i < p && j > p {
                    assert(out@[i] == before_out[i]);
                    assert(out@[j] == before_out[j - 1]);
                } else if j < p {
                    assert(out@[i] == before_out[i]);
                    assert(out@[j] == before_out[j]);
                } else {
                    assert(out@[i] == before_out[i - 1]);
                    assert(out@[j] == before_out[j - 1]);
                }
            }
            assert(before_out.insert(p as int, x).to_multiset() == before_out.to_multiset().insert(
                x,
            ));
            assert(out@.to_multiset().add(rest@.to_multiset()) =~= original.to_multiset());
        }
    }
    proof {
        assert(rest@.to_multiset() =~= Multiset::<T>::empty());
        assert(out@.to_multiset() =~= original.to_multiset());
        out@.to_multiset_ensures();
        original.to_multiset_ensures();
        if keys_distinct(original) {
            lemma_sorted_distinct(out@, original);
        }
    }
    out
}

impl Keyed for String {
    open spec fn sort_key(&self) -> Seq<Seq<char>> {
        seq![self@]
    }

    fn key_lt(&self, other: &Self) -> (r: bool) {
        let r = str_lt(self.as_str(), other.as_str());
        proof {
            lemma_lex_lt_trichotomy(self@, other@);
            assert(seq![self@].drop_first() =~= Seq::<Seq<char>>::empty());
            assert(seq![other@].drop_first() =~= Seq::<Seq<char>>::empty());
            assert(!keys_lt(Seq::<Seq<char>>::empty(), Seq::<Seq<char>>::empty()));
            assert(seq![self@][0] == self@);
            assert(seq![other@][0] == other@);
        }
        r
    }
}

} // verus!
