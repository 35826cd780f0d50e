//! Name-keyed registries: ordered collections of entries where each entry is
//! found again by its name. A registry behaves as a map from names to entries:
//! storing an entry under a name that is already present replaces that entry in
//! place, otherwise the entry is appended.

use vstd::prelude::*;

use crate::names::{lemma_name_set_push, name_set};

verus! {

/// An entry that carries its own name.
pub trait Keyed: View + Sized {
    /// The name under which an entry with abstract value `v` is stored.
    spec fn key_of(v: Self::V) -> Seq<char>;

    /// The entry's name.
    fn key(&self) -> (k: &String)
        ensures
            k@ == Self::key_of(self@),
    ;

    /// A copy of the entry with the same abstract value.
    fn duplicate(&self) -> (c: Self)
        ensures
            c@ == self@,
    ;
}

/// The abstract values of a sequence of entries.
pub open spec fn views<T: View>(s: Seq<T>) -> Seq<T::V> {
    s.map_values(|t: T| t@)
}

/// `i` is the first position of `s` whose entry is named `k`.
pub open spec fn is_first<T: Keyed>(s: Seq<T::V>, k: Seq<char>, i: int) -> bool {
    &&& 0 <= i < s.len()
    &&& T::key_of(s[i]) == k
    &&& forall|j: int| 0 <= j < i ==> T::key_of(#[trigger] s[j]) != k
}

/// Some entry of `s` is named `k`.
pub open spec fn has_key<T: Keyed>(s: Seq<T::V>, k: Seq<char>) -> bool {
    exists|i: int| 0 <= i < s.len() && T::key_of(#[trigger] s[i]) == k
}

/// The first position of an entry named `k` (meaningful when `has_key`).
pub open spec fn first_index<T: Keyed>(s: Seq<T::V>, k: Seq<char>) -> int {
    choose|i: int| is_first::<T>(s, k, i)
}

/// The entry stored under `k`, if any.
pub open spec fn lookup<T: Keyed>(s: Seq<T::V>, k: Seq<char>) -> Option<T::V> {
    if has_key::<T>(s, k) {
        Some(s[first_index::<T>(s, k)])
    } else {
        None
    }
}

/// No two entries share a name.
pub open spec fn unique_keys<T: Keyed>(s: Seq<T::V>) -> bool {
    forall|i: int, j: int|
        0 <= i < s.len() && 0 <= j < s.len() && i != j ==> T::key_of(#[trigger] s[i])
            != T::key_of(#[trigger] s[j])
}

/// The registry after storing `v`: replaced in place when its name is present,
/// appended otherwise.
pub open spec fn stored<T: Keyed>(s: Seq<T::V>, v: T::V) -> Seq<T::V> {
    if has_key::<T>(s, T::key_of(v)) {
        s.update(first_index::<T>(s, T::key_of(v)), v)
    } else {
        s.push(v)
    }
}

/// The registry read as a map from names to entries.
pub open spec fn as_map<T: Keyed>(s: Seq<T::V>) -> Map<Seq<char>, T::V> {
    Map::new(|k: Seq<char>| has_key::<T>(s, k), |k: Seq<char>| lookup::<T>(s, k).unwrap())
}

/// A name that is present has a first position.
pub proof fn lemma_first_exists<T: Keyed>(s: Seq<T::V>, k: Seq<char>)
    requires
        has_key::<T>(s, k),
    ensures
        is_first::<T>(s, k, first_index::<T>(s, k)),
    decreases s.len(),
{
    let i = choose|i: int| 0 <= i < s.len() && T::key_of(#[trigger] s[i]) == k;
    if exists|j: int| 0 <= j < i && T::key_of(#[trigger] s[j]) == k {
        let s2 = s.subrange(0, i);
        assert(has_key::<T>(s2, k)) by {
            let j = choose|j: int| 0 <= j < i && T::key_of(#[trigger] s[j]) == k;
            assert(s2[j] == s[j]);
        }
        lemma_first_exists::<T>(s2, k);
        let f = first_index::<T>(s2, k);
        assert(is_first::<T>(s, k, f)) by {
            assert forall|j: int| 0 <= j < f implies T::key_of(#[trigger] s[j]) != k by {
                assert(s2[j] == s[j]);
            }
            assert(s2[f] == s[f]);
        }
    } else {
        assert(is_first::<T>(s, k, i));
    }
}

/// With unique names, an entry's position is the first position of its name.
pub proof fn lemma_unique_first<T: Keyed>(s: Seq<T::V>, i: int)
    requires
        unique_keys::<T>(s),
        0 <= i < s.len(),
    ensures
        has_key::<T>(s, T::key_of(s[i])),
        first_index::<T>(s, T::key_of(s[i])) == i,
        lookup::<T>(s, T::key_of(s[i])) == Some(s[i]),
{
    let k = T::key_of(s[i]);
    assert(has_key::<T>(s, k));
    lemma_first_exists::<T>(s, k);
}

/// Storing keeps names unique and makes the stored entry the one found by its name.
pub proof fn lemma_stored<T: Keyed>(s: Seq<T::V>, v: T::V)
    requires
        unique_keys::<T>(s),
    ensures
        unique_keys::<T>(stored::<T>(s, v)),
        lookup::<T>(stored::<T>(s, v), T::key_of(v)) == Some(v),
        forall|k: Seq<char>| k != T::key_of(v) ==> lookup::<T>(stored::<T>(s, v), k) == lookup::<T>(s, k),
        as_map::<T>(stored::<T>(s, v)) == as_map::<T>(s).insert(T::key_of(v), v),
{
    let k = T::key_of(v);
    let t = stored::<T>(s, v);
    if has_key::<T>(s, k) {
        lemma_first_exists::<T>(s, k);
    }
    assert(unique_keys::<T>(t)) by {
        if has_key::<T>(s, k) {
            let f = first_index::<T>(s, k);
            assert forall|i: int, j: int|
                0 <= i < t.len() && 0 <= j < t.len() && i != j implies T::key_of(#[trigger] t[i])
                != T::key_of(#[trigger] t[j]) by {
                if i == f {
                    assert(T::key_of(t[j]) == T::key_of(s[j]));
                } else if j == f {
                    assert(T::key_of(t[i]) == T::key_of(s[i]));
                } else {
                    assert(t[i] == s[i] && t[j] == s[j]);
                }
            }
        } else {
            assert forall|i: int, j: int|
                0 <= i < t.len() && 0 <= j < t.len() && i != j implies T::key_of(#[trigger] t[i])
                != T::key_of(#[trigger] t[j]) by {
                if i == s.len() {
                    assert(t[j] == s[j]);
                } else if j == s.len() {
                    assert(t[i] == s[i]);
                } else {
                    assert(t[i] == s[i] && t[j] == s[j]);
                }
            }
        }
    }
    let p = if has_key::<T>(s, k) { first_index::<T>(s, k) } else { s.len() as int };
    assert(t[p] == v);
    lemma_unique_first::<T>(t, p);
    assert forall|k2: Seq<char>| k2 != k implies lookup::<T>(t, k2) == lookup::<T>(s, k2) by {
        if has_key::<T>(s, k2) {
            lemma_first_exists::<T>(s, k2);
            let q = first_index::<T>(s, k2);
            assert(q != p);
            assert(t[q] == s[q]);
            lemma_unique_first::<T>(s, q);
            lemma_unique_first::<T>(t, q);
        }
        if has_key::<T>(t, k2) {
            lemma_first_exists::<T>(t, k2);
            let q = first_index::<T>(t, k2);
            assert(q != p);
            assert(t[q] == s[q]);
            assert(has_key::<T>(s, k2));
        }
    }
    assert(as_map::<T>(t) =~= as_map::<T>(s).insert(k, v)) by {
        assert forall|k2: Seq<char>| #[trigger] as_map::<T>(t).contains_key(k2) <==> as_map::<T>(
            s,
        ).insert(k, v).contains_key(k2) by {
            if k2 != k {
                assert(lookup::<T>(t, k2) == lookup::<T>(s, k2));
            }
        }
    }
}

/// Storing twice under one name is storing the second entry.
pub proof fn lemma_stored_twice<T: Keyed>(s: Seq<T::V>, a: T::V, b: T::V)
    requires
        unique_keys::<T>(s),
        T::key_of(a) == T::key_of(b),
    ensures
        stored::<T>(stored::<T>(s, a), b) == stored::<T>(s, b),
{
    let k = T::key_of(a);
    let s1 = stored::<T>(s, a);
    lemma_stored::<T>(s, a);
    let p = if has_key::<T>(s, k) {
        lemma_first_exists::<T>(s, k);
        first_index::<T>(s, k)
    } else {
        s.len() as int
    };
    assert(s1[p] == a);
    lemma_unique_first::<T>(s1, p);
    if has_key::<T>(s, k) {
        assert(stored::<T>(s1, b) =~= stored::<T>(s, b));
    } else {
        assert(stored::<T>(s1, b) =~= s1.update(p, b));
        assert(stored::<T>(s1, b) =~= stored::<T>(s, b));
    }
}

/// The first position of an entry named `k`, if any.
pub fn find_index<T: Keyed>(v: &Vec<T>, k: &String) -> (r: Option<usize>)
    ensures
        match r {
            Some(i) => is_first::<T>(views(v@), k@, i as int) && first_index::<T>(views(v@), k@)
                == i,
            None => !has_key::<T>(views(v@), k@),
        },
        r is Some <==> has_key::<T>(views(v@), k@),
{
    let ghost s = views(v@);
    let mut i: usize = 0;
    while i < v.len()
        invariant
            i <= v.len(),
            s == views(v@),
            forall|j: int| 0 <= j < i ==> T::key_of(#[trigger] s[j]) != k@,
        decreases v.len() - i,
    {
        let ki = v[i].key();
        assert(s[i as int] == v@[i as int]@);
        let same = *ki == *k;
        if same {
            assert(is_first::<T>(s, k@, i as int));
            proof {
                lemma_first_exists::<T>(s, k@);
            }
            return Some(i);
        }
        i = i + 1;
    }
    None
}

/// A copy of the entry stored under `k`, if any.
pub fn get_entry<T: Keyed>(v: &Vec<T>, k: &String) -> (r: Option<T>)
    ensures
        match r {
            Some(e) => lookup::<T>(views(v@), k@) == Some(e@),
            None => lookup::<T>(views(v@), k@) is None,
        },
{
    match find_index(v, k) {
        Some(i) => Some(v[i].duplicate()),
        None => None,
    }
}

/// Stores `e` under its name; tells whether an entry of that name was replaced.
pub fn store_entry<T: Keyed>(v: &mut Vec<T>, e: T) -> (replaced: bool)
    ensures
        views(final(v)@) == stored::<T>(views(old(v)@), e@),
        replaced == has_key::<T>(views(old(v)@), T::key_of(e@)),
{
    let ghost s = views(v@);
    let ghost ev = e@;
    let found = find_index(v, e.key());
    match found {
        Some(i) => {
            v.set(i, e);
            assert(views(v@) =~= s.update(i as int, ev));
            true
        },
        None => {
            v.push(e);
            assert(views(v@) =~= s.push(ev));
            false
        },
    }
}

/// A copy of all entries, in order.
pub fn copy_entries<T: Keyed>(v: &Vec<T>) -> (c: Vec<T>)
    ensures
        views(c@) == views(v@),
{
    let mut c: Vec<T> = Vec::new();
    let mut i: usize = 0;
    while i < v.len()
        invariant
            i <= v.len(),
            c@.len() == i,
            views(c@) =~= views(v@).subrange(0, i as int),
        decreases v.len() - i,
    {
        let d = v[i].duplicate();
        c.push(d);
        assert(c@[i as int]@ == v@[i as int]@);
        i = i + 1;
    }
    assert(views(v@).subrange(0, v.len() as int) =~= views(v@));
    c
}

/// The names of all entries, in order.
pub fn keys<T: Keyed>(v: &Vec<T>) -> (ks: Vec<String>)
    ensures
        forall|k: Seq<char>| #[trigger] name_set(ks@).contains(k) <==> has_key::<T>(views(v@), k),
{
    let ghost s = views(v@);
    let mut ks: Vec<String> = Vec::new();
    let mut i: usize = 0;
    while i < v.len()
        invariant
            i <= v.len(),
            s == views(v@),
            forall|k: Seq<char>| #[trigger] name_set(ks@).contains(k) <==> exists|j: int| 0 <= j < i && T::key_of(#[trigger] s[j]) == k,
        decreases v.len() - i,
    {
        let k = v[i].key().clone();
        assert(s[i as int] == v@[i as int]@);
        proof {
            lemma_name_set_push(ks@, k);
        }
        ks.push(k);
        i = i + 1;
    }
    ks
}

} // verus!
