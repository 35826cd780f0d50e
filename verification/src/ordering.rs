//! The order of names: lexicographic by code point, which is also the order
//! of their UTF-8 bytes. Listings are sorted in this order.

use vstd::prelude::*;
use vstd::relations::{sorted_by, total_ordering};
use vstd::string::*;

use crate::registry::{views, Keyed};

verus! {

/// `a` comes strictly before `b`: at the first position where they differ
/// `a` has the smaller character, or `a` is a proper prefix of `b`.
pub open spec fn lex_lt(a: Seq<char>, b: Seq<char>) -> bool
    decreases a.len(),
{
    if a.len() == 0 {
        b.len() > 0
    } else if b.len() == 0 {
        false
    } else if a[0] != b[0] {
        (a[0] as int) < (b[0] as int)
    } else {
        lex_lt(a.drop_first(), b.drop_first())
    }
}

/// `a` does not come after `b`.
pub open spec fn lex_le(a: Seq<char>, b: Seq<char>) -> bool {
    !lex_lt(b, a)
}

/// No name comes strictly before itself, and of two distinct names exactly one
/// comes first.
pub proof fn lemma_lex_lt_strict(a: Seq<char>, b: Seq<char>)
    ensures
        !lex_lt(a, a),
        a != b ==> (lex_lt(a, b) || lex_lt(b, a)),
        !(lex_lt(a, b) && lex_lt(b, a)),
    decreases a.len(),
{
    if a.len() > 0 {
        lemma_lex_lt_strict(a.drop_first(), a.drop_first());
        if b.len() > 0 {
            lemma_lex_lt_strict(a.drop_first(), b.drop_first());
            if a[0] == b[0] && a != b {
                assert(a.drop_first() != b.drop_first()) by {
                    if a.drop_first() == b.drop_first() {
                        assert forall|k: int| 0 <= k < a.len() implies a[k] == b[k] by {
                            if k > 0 {
                                assert(a[k] == a.drop_first()[k - 1]);
                                assert(b[k] == b.drop_first()[k - 1]);
                            }
                        }
                        assert(a =~= b);
                    }
                }
            }

        }
    } else if b.len() == 0 {
        assert(a =~= b);
    }
}

/// Coming strictly before is transitive.
pub proof fn lemma_lex_lt_transitive(a: Seq<char>, b: Seq<char>, c: Seq<char>)
    requires
        lex_lt(a, b),
        lex_lt(b, c),
    ensures
        lex_lt(a, c),
    decreases a.len(),
{
    if a.len() > 0 && b.len() > 0 && c.len() > 0 && a[0] == b[0] && b[0] == c[0] {
        lemma_lex_lt_transitive(a.drop_first(), b.drop_first(), c.drop_first());
    }
}

/// Not coming after is a total order.
pub proof fn lemma_lex_le_total_ordering()
    ensures
        total_ordering(|a: Seq<char>, b: Seq<char>| lex_le(a, b)),
{
    let leq = |a: Seq<char>, b: Seq<char>| lex_le(a, b);
    assert forall|a: Seq<char>| #[trigger] leq(a, a) by {
        lemma_lex_lt_strict(a, a);
    }
    assert forall|a: Seq<char>, b: Seq<char>| #[trigger] leq(a, b) && #[trigger] leq(b, a) implies a == b by {
        lemma_lex_lt_strict(a, b);
    }
    assert forall|a: Seq<char>, b: Seq<char>, c: Seq<char>| #[trigger] leq(a, b) && #[trigger] leq(b, c) implies leq(a, c) by {
        lemma_lex_le_transitive(a, b, c);
    }
    assert forall|a: Seq<char>, b: Seq<char>| #[trigger] leq(a, b) || #[trigger] leq(b, a) by {
        lemma_lex_lt_strict(a, b);
    }
}

/// Not coming after is transitive.
pub proof fn lemma_lex_le_transitive(a: Seq<char>, b: Seq<char>, c: Seq<char>)
    requires
        lex_le(a, b),
        lex_le(b, c),
    ensures
        lex_le(a, c),
{
    if lex_lt(c, a) {
        lemma_lex_lt_strict(a, b);
        if a == b {
        } else if lex_lt(a, b) {
            lemma_lex_lt_transitive(c, a, b);
        }
    }
}

/// Comparing past a common prefix.
proof fn lemma_lex_lt_skip(a: Seq<char>, b: Seq<char>, i: int)
    requires
        0 <= i <= a.len(),
        i <= b.len(),
        a.subrange(0, i) == b.subrange(0, i),
    ensures
        lex_lt(a, b) == lex_lt(a.subrange(i, a.len() as int), b.subrange(i, b.len() as int)),
    decreases i,
{
    if i > 0 {
        assert(a[0] == a.subrange(0, i)[0]);
        assert(b[0] == b.subrange(0, i)[0]);
        assert(a.drop_first().subrange(0, i - 1) =~= b.drop_first().subrange(0, i - 1)) by {
            assert forall|k: int| 0 <= k < i - 1 implies #[trigger] a.drop_first().subrange(0, i - 1)[k] == b.drop_first().subrange(0, i - 1)[k] by {
                let sa = a.subrange(0, i);
                let sb = b.subrange(0, i);
                assert(sa[k + 1] == sb[k + 1]);
                assert(sa[k + 1] == a[k + 1]);
                assert(sb[k + 1] == b[k + 1]);
                assert(a.drop_first().subrange(0, i - 1)[k] == a[k + 1]);
                assert(b.drop_first().subrange(0, i - 1)[k] == b[k + 1]);
            }
        }
        lemma_lex_lt_skip(a.drop_first(), b.drop_first(), i - 1);
        assert(a.drop_first().subrange(i - 1, a.len() - 1) =~= a.subrange(i, a.len() as int));
        assert(b.drop_first().subrange(i - 1, b.len() - 1) =~= b.subrange(i, b.len() as int));
    } else {
        assert(a.subrange(0, a.len() as int) =~= a);
        assert(b.subrange(0, b.len() as int) =~= b);
    }
}

/// Whether `a` comes strictly before `b`.
pub fn str_less(a: &str, b: &str) -> (less: bool)
    ensures
        less == lex_lt(a@, b@),
{
    let n = a.unicode_len();
    let m = b.unicode_len();
    let mut i: usize = 0;
    while i < n && i < m
        invariant
            n == a@.len(),
            m == b@.len(),
            i <= n,
            i <= m,
            a@.subrange(0, i as int) == b@.subrange(0, i as int),
        decreases n - i,
    {
        let x = a.get_char(i);
        let y = b.get_char(i);
        if x != y {
            proof {
                lemma_lex_lt_skip(a@, b@, i as int);
                let ra = a@.subrange(i as int, n as int);
                let rb = b@.subrange(i as int, m as int);
                assert(ra[0] == x && rb[0] == y);
            }
            return (x as u32) < (y as u32);
        }
        assert(a@.subrange(0, i as int + 1) =~= b@.subrange(0, i as int + 1)) by {
            assert forall|k: int| 0 <= k < i + 1 implies #[trigger] a@.subrange(0, i as int + 1)[k] == b@.subrange(0, i as int + 1)[k] by {
                if k < i {
                    assert(a@.subrange(0, i as int)[k] == b@.subrange(0, i as int)[k]);
                }
            }
        }
        i = i + 1;
    }
    proof {
        lemma_lex_lt_skip(a@, b@, i as int);
    }
    n == i && i < m
}

/// The names of entries, read through their keys.
pub open spec fn key_seq<T: Keyed>(s: Seq<T::V>) -> Seq<Seq<char>> {
    s.map_values(|v: T::V| T::key_of(v))
}

/// Entries sorted by name, equal names keeping their order, with the same
/// entries as `v`.
pub fn sort_by_key<T: Keyed>(v: &Vec<T>) -> (r: Vec<T>)
    ensures
        views(r@).to_multiset() == views(v@).to_multiset(),
        sorted_by(key_seq::<T>(views(r@)), |a: Seq<char>, b: Seq<char>| lex_le(a, b)),
{
    broadcast use vstd::seq_lib::group_to_multiset_ensures;

    let ghost leq = |a: Seq<char>, b: Seq<char>| lex_le(a, b);
    let mut r: Vec<T> = Vec::new();
    let mut i: usize = 0;
    while i < v.len()
        invariant
            i <= v.len(),
            leq == (|a: Seq<char>, b: Seq<char>| lex_le(a, b)),
            views(r@).to_multiset() == views(v@.subrange(0, i as int)).to_multiset(),
            sorted_by(key_seq::<T>(views(r@)), leq),
        decreases v.len() - i,
    {
        let x = v[i].duplicate();
        let ghost kx = T::key_of(x@);
        let mut p: usize = r.len();
        while p > 0 && str_less(x.key().as_str(), r[p - 1].key().as_str())
            invariant
                p <= r.len(),
                kx == T::key_of(x@),
                forall|k: int| p <= k < r.len() ==> lex_lt(kx, #[trigger] T::key_of(r@[k]@)),
            decreases p,
        {
            p = p - 1;
        }
        let ghost before = views(r@);
        let ghost old_r = r@;
        let ghost xv = x@;
        proof {
            assert(views(v@.subrange(0, i as int + 1)) =~= views(v@.subrange(0, i as int)).push(xv));
            vstd::seq_lib::to_multiset_insert(before, p as int, xv);
        }
        r.insert(p, x);
        proof {
            assert(views(r@) =~= before.insert(p as int, xv)) by {
                assert(r@ == old_r.insert(p as int, x));
                assert forall|k: int| 0 <= k < r@.len() implies #[trigger] views(r@)[k] == before.insert(p as int, xv)[k] by {
                    if k < p {
                        assert(r@[k] == old_r[k]);
                    } else if k > p {
                        assert(r@[k] == old_r[k - 1]);
                    }
                }
            }
            vstd::seq_lib::to_multiset_build(views(v@.subrange(0, i as int)), xv);
            let ks = key_seq::<T>(views(r@));
            let kb = key_seq::<T>(before);
            assert(kb.len() == before.len());
            assert forall|a: int, b: int| 0 <= a < b < ks.len() implies #[trigger] leq(ks[a], ks[b]) by {
                if b < p {
                    assert(ks[a] == kb[a] && ks[b] == kb[b]);
                } else if a > p {
                    assert(ks[a] == kb[a - 1] && ks[b] == kb[b - 1]);
                } else if a == p {
                    assert(ks[a] == kx);
                    assert(ks[b] == kb[b - 1]);
                    assert(lex_lt(kx, T::key_of(before[b - 1])));
                    lemma_lex_lt_strict(kx, ks[b]);
                } else {
                    assert(a < p);
                    assert(ks[a] == kb[a]);
                    if b == p {
                        assert(ks[b] == kx);
                        if p > 0 {
                            assert(!lex_lt(kx, kb[p - 1]));
                            if a < p - 1 {
                                assert(leq(kb[a], kb[p - 1]));
                            } else {
                                lemma_lex_lt_strict(kb[a], kb[a]);
                            }
                            lemma_lex_le_transitive(kb[a], kb[p - 1], kx);
                        }
                    } else {
                        assert(ks[b] == kb[b - 1]);
                        assert(leq(kb[a], kb[b - 1]));
                    }
                }
            }
        }
        i = i + 1;
    }
    assert(v@.subrange(0, v.len() as int) =~= v@);
    r
}

} // verus!
