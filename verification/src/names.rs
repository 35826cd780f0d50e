//! Helpers over names: strings treated as sets and ordered lexicographically.

use vstd::prelude::*;
use vstd::string::*;

verus! {

/// The abstract names held by a vector of strings.
pub open spec fn name_seq(v: Seq<String>) -> Seq<Seq<char>> {
    v.map_values(|s: String| s@)
}

/// Whether `name` occurs among the strings of `v`.
pub fn contains_name(v: &Vec<String>, name: &String) -> (found: bool)
    ensures
        found == name_seq(v@).contains(name@),
{
    let mut i: usize = 0;
    while i < v.len()
        invariant
            i <= v.len(),
            forall|j: int| 0 <= j < i ==> v@[j]@ != name@,
        decreases v.len() - i,
    {
        if v[i] == *name {
            assert(name_seq(v@)[i as int] == name@);
            return true;
        }
        i = i + 1;
    }
    assert(!name_seq(v@).contains(name@)) by {
        if name_seq(v@).contains(name@) {
            let k = choose|k: int| 0 <= k < name_seq(v@).len() && name_seq(v@)[k] == name@;
            assert(v@[k]@ == name@);
        }
    }
    false
}

/// The set of names held by a vector of strings.
pub open spec fn name_set(v: Seq<String>) -> Set<Seq<char>> {
    name_seq(v).to_set()
}

/// Whether `name` occurs among the strings of `v`, for a borrowed name.
pub fn contains_str(v: &Vec<String>, name: &str) -> (found: bool)
    ensures
        found == name_seq(v@).contains(name@),
{
    let mut i: usize = 0;
    while i < v.len()
        invariant
            i <= v.len(),
            forall|j: int| 0 <= j < i ==> v@[j]@ != name@,
        decreases v.len() - i,
    {
        if str_equal(v[i].as_str(), name) {
            assert(name_seq(v@)[i as int] == name@);
            return true;
        }
        i = i + 1;
    }
    assert(!name_seq(v@).contains(name@)) by {
        if name_seq(v@).contains(name@) {
            let k = choose|k: int| 0 <= k < name_seq(v@).len() && name_seq(v@)[k] == name@;
            assert(v@[k]@ == name@);
        }
    }
    false
}

/// A copy of a vector of strings.
pub fn copy_names(v: &Vec<String>) -> (c: Vec<String>)
    ensures
        name_seq(c@) == name_seq(v@),
{
    let mut c: Vec<String> = Vec::new();
    let mut i: usize = 0;
    while i < v.len()
        invariant
            i <= v.len(),
            c@.len() == i,
            name_seq(c@) =~= name_seq(v@).subrange(0, i as int),
        decreases v.len() - i,
    {
        c.push(v[i].clone());
        i = i + 1;
    }
    assert(name_seq(v@).subrange(0, v.len() as int) =~= name_seq(v@));
    c
}

/// Whether the two vectors share at least one name.
pub fn shares_name(a: &Vec<String>, b: &Vec<String>) -> (shared: bool)
    ensures
        shared == exists|x: Seq<char>| name_set(a@).contains(x) && name_set(b@).contains(x),
{
    let mut i: usize = 0;
    while i < a.len()
        invariant
            i <= a.len(),
            forall|j: int| 0 <= j < i ==> !name_seq(b@).contains(#[trigger] name_seq(a@)[j]),
        decreases a.len() - i,
    {
        if contains_name(b, &a[i]) {
            assert(name_seq(a@)[i as int] == a@[i as int]@);
            assert(name_set(a@).contains(a@[i as int]@));
            return true;
        }
        assert(name_seq(a@)[i as int] == a@[i as int]@);
        i = i + 1;
    }
    assert forall|x: Seq<char>| !(name_set(a@).contains(x) && name_set(b@).contains(x)) by {
        if name_seq(a@).contains(x) {
            let k = choose|k: int| 0 <= k < name_seq(a@).len() && name_seq(a@)[k] == x;
        }
    }
    false
}

/// Adds `name` unless it is already present, so that a vector without
/// duplicates stays without duplicates.
pub fn insert_name(v: &mut Vec<String>, name: String)
    ensures
        name_set(final(v)@) == name_set(old(v)@).insert(name@),
        name_seq(old(v)@).no_duplicates() ==> name_seq(final(v)@).no_duplicates(),
{
    if !contains_name(v, &name) {
        let ghost before = name_seq(v@);
        let ghost n = name@;
        v.push(name);
        assert(name_seq(v@) =~= before.push(n));
        assert forall|x: Seq<char>| #[trigger] before.push(n).contains(x) <==> (before.contains(x) || x == n) by {
            if before.push(n).contains(x) {
                let k = choose|k: int| 0 <= k < before.push(n).len() && before.push(n)[k] == x;
                if k < before.len() {
                    assert(before[k] == x);
                }
            }
            if before.contains(x) {
                let k = choose|k: int| 0 <= k < before.len() && before[k] == x;
                assert(before.push(n)[k] == x);
            }
            if x == n {
                assert(before.push(n)[before.len() as int] == x);
            }
        }
        assert(name_set(v@) =~= name_set(old(v)@).insert(n));
    } else {
        assert(name_set(v@) =~= name_set(v@).insert(name@));
    }
}

/// The names of a vector grown by one string.
pub proof fn lemma_name_set_push(v: Seq<String>, x: String)
    ensures
        forall|b: Seq<char>| #[trigger] name_set(v.push(x)).contains(b) <==> (name_set(v).contains(b) || b == x@),
{
    assert(name_seq(v.push(x)) =~= name_seq(v).push(x@));
    assert forall|b: Seq<char>| #[trigger] name_set(v.push(x)).contains(b) <==> (name_set(v).contains(b) || b == x@) by {
        let s = name_seq(v);
        if s.push(x@).contains(b) {
            let k = choose|k: int| 0 <= k < s.push(x@).len() && s.push(x@)[k] == b;
            if k < s.len() {
                assert(s[k] == b);
            }
        }
        if s.contains(b) {
            let k = choose|k: int| 0 <= k < s.len() && s[k] == b;
            assert(s.push(x@)[k] == b);
        }
        if b == x@ {
            assert(s.push(x@)[s.len() as int] == b);
        }
    }
}

/// Character-wise equality of two string slices.
pub fn str_equal(a: &str, b: &str) -> (equal: bool)
    ensures
        equal == (a@ == b@),
{
    let n = a.unicode_len();
    let m = b.unicode_len();
    if n != m {
        return false;
    }
    let mut i: usize = 0;
    while i < n
        invariant
            n == a@.len(),
            m == b@.len(),
            n == m,
            i <= n,
            forall|j: int| 0 <= j < i ==> a@[j] == b@[j],
        decreases n - i,
    {
        if a.get_char(i) != b.get_char(i) {
            return false;
        }
        i = i + 1;
    }
    assert(a@ =~= b@);
    true
}

/// A vector of names is empty exactly when it holds no name.
pub proof fn lemma_empty_names(v: Seq<String>)
    ensures
        (v.len() == 0) <==> name_set(v) =~= Set::<Seq<char>>::empty(),
{
    if v.len() > 0 {
        assert(name_seq(v)[0] == v[0]@);
        assert(name_set(v).contains(v[0]@));
    }
}

/// The names of `v`, each once, in the order of their first occurrence.
pub fn dedup_names(v: &Vec<String>) -> (d: Vec<String>)
    ensures
        name_set(d@) == name_set(v@),
        name_seq(d@).no_duplicates(),
{
    let mut d: Vec<String> = Vec::new();
    let mut i: usize = 0;
    while i < v.len()
        invariant
            i <= v.len(),
            name_seq(d@).no_duplicates(),
            name_set(d@) == name_set(v@.subrange(0, i as int)),
        decreases v.len() - i,
    {
        proof {
            assert(v@.subrange(0, i as int + 1) =~= v@.subrange(0, i as int).push(v@[i as int]));
            lemma_name_set_push(v@.subrange(0, i as int), v@[i as int]);
        }
        insert_name(&mut d, v[i].clone());
        assert(name_set(d@) =~= name_set(v@.subrange(0, i as int + 1)));
        i = i + 1;
    }
    assert(v@.subrange(0, v.len() as int) =~= v@);
    d
}

} // verus!
