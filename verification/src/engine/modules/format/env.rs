//! `format.env.decode`: the variables of a `.env` text, as a map sorted by
//! name in which a later definition of a name replaces an earlier one.

use vstd::prelude::*;

use crate::ordering::{lemma_lex_lt_strict, lemma_lex_lt_transitive, lex_lt, str_less};
use crate::names::str_equal;

verus! {

#[verifier::external_type_specification]
#[verifier::external_body]
pub struct ExDotenvyError(dotenvy::Error);

/// The `format.env` table.
#[derive(Debug, Clone, Copy)]
pub struct Env;

/// What `dotenvy::from_read_iter` makes of the text `text`, collected: the
/// names it defines, in order, or `None` when a line does not parse. Both
/// follow from the text alone.
pub uninterp spec fn dotenv_names(text: Seq<char>) -> Option<Seq<Seq<char>>>;

/// `dotenvy::from_read_iter` over the text, collected: every definition in
/// order, or the first error. Which names are defined, and whether it fails,
/// depend on the text alone and are named; a value may expand variables of
/// the process environment, so nothing is stated of the values.
#[verifier::external_body]
fn parse_dotenv(input: &str) -> (r: Result<Vec<(String, String)>, dotenvy::Error>)
    ensures
        match r {
            Ok(v) => dotenv_names(input@) == Some(variable_names(definitions(v@))),
            Err(_) => dotenv_names(input@) is None,
        },
{
    dotenvy::from_read_iter(input.as_bytes()).collect()
}

/// The names of a list of definitions, in order.
pub open spec fn variable_names(defs: Seq<(Seq<char>, Seq<char>)>) -> Seq<Seq<char>> {
    defs.map_values(|p: (Seq<char>, Seq<char>)| p.0)
}

/// A name has a value exactly when some definition names it.
proof fn lemma_defined_value_some(defs: Seq<(Seq<char>, Seq<char>)>, name: Seq<char>)
    ensures
        defined_value(defs, name) is Some <==> variable_names(defs).contains(name),
    decreases defs.len(),
{
    if defs.len() > 0 {
        lemma_defined_value_some(defs.drop_last(), name);
        let ns = variable_names(defs);
        assert(variable_names(defs.drop_last()) =~= ns.drop_last());
        if ns.contains(name) {
            let i = choose|i: int| 0 <= i < ns.len() && ns[i] == name;
            if i < ns.len() - 1 {
                assert(ns.drop_last()[i] == name);
            }
        }
        if variable_names(defs.drop_last()).contains(name) {
            let i = choose|i: int| 0 <= i < ns.len() - 1 && ns.drop_last()[i] == name;
            assert(ns[i] == name);
        }
        if defs.last().0 == name {
            assert(ns[ns.len() - 1] == name);
        }
    }
}

/// The abstract value of a list of definitions.
pub open spec fn definitions(pairs: Seq<(String, String)>) -> Seq<(Seq<char>, Seq<char>)> {
    pairs.map_values(|p: (String, String)| (p.0@, p.1@))
}

/// The value the last definition of `name` gives it, if any.
pub open spec fn defined_value(defs: Seq<(Seq<char>, Seq<char>)>, name: Seq<char>) -> Option<Seq<char>>
    decreases defs.len(),
{
    if defs.len() == 0 {
        None
    } else if defs.last().0 == name {
        Some(defs.last().1)
    } else {
        defined_value(defs.drop_last(), name)
    }
}

/// The names are sorted, without repeats.
pub open spec fn sorted_by_name(m: Seq<(Seq<char>, Seq<char>)>) -> bool {
    forall|i: int, j: int| 0 <= i < j < m.len() ==> lex_lt(#[trigger] m[i].0, #[trigger] m[j].0)
}

/// `m` holds, sorted by name without repeats, each name that `defs` defines
/// with the value its last definition gives it.
pub open spec fn is_variable_map(m: Seq<(Seq<char>, Seq<char>)>, defs: Seq<(Seq<char>, Seq<char>)>) -> bool {
    &&& sorted_by_name(m)
    &&& forall|i: int| 0 <= i < m.len() ==> defined_value(defs, (#[trigger] m[i]).0) == Some(m[i].1)
    &&& forall|name: Seq<char>| #[trigger] defined_value(defs, name) is Some ==> exists|i: int|
        0 <= i < m.len() && (#[trigger] m[i]).0 == name
}

/// The variables that `pairs` define, sorted by name, each with the value of
/// its last definition.
pub fn variable_map(pairs: Vec<(String, String)>) -> (m: Vec<(String, String)>)
    ensures
        is_variable_map(definitions(m@), definitions(pairs@)),
{
    let ghost defs = definitions(pairs@);
    let mut m: Vec<(String, String)> = Vec::new();
    let mut i: usize = 0;
    while i < pairs.len()
        invariant
            defs == definitions(pairs@),
            i <= pairs.len(),
            is_variable_map(definitions(m@), defs.subrange(0, i as int)),
        decreases pairs.len() - i,
    {
        let ghost prefix = defs.subrange(0, i as int);
        let ghost next = defs.subrange(0, i as int + 1);
        let ghost old_m = definitions(m@);
        assert(next.drop_last() =~= prefix);
        assert(next.last() == defs[i as int]);
        let name = &pairs[i].0;
        let value = &pairs[i].1;
        let mut p: usize = 0;
        while p < m.len() && str_less(m[p].0.as_str(), name.as_str())
            invariant
                p <= m.len(),
                old_m == definitions(m@),
                forall|j: int| 0 <= j < p ==> lex_lt(#[trigger] old_m[j].0, name@),
            decreases m.len() - p,
        {
            p = p + 1;
        }
        proof {
            assert forall|k: Seq<char>| k != name@ implies #[trigger] defined_value(next, k) == defined_value(prefix, k) by {
            }
            assert(defined_value(next, name@) == Some(value@));
        }
        if p < m.len() && str_equal(m[p].0.as_str(), name.as_str()) {
            let ghost raw = m@;
            let entry = (name.clone(), value.clone());
            assert(entry.0@ == name@ && entry.1@ == value@);
            m.set(p, entry);
            proof {
                let nm = definitions(m@);
                assert(m@ == raw.update(p as int, entry));
                assert forall|a: int| 0 <= a < nm.len() implies #[trigger] nm[a] == old_m.update(p as int, (name@, value@))[a] by {
                    if a != p {
                        assert(m@[a] == raw[a]);
                    }
                }
                assert(nm =~= old_m.update(p as int, (name@, value@)));
                assert forall|a: int| 0 <= a < nm.len() implies defined_value(next, (#[trigger] nm[a]).0) == Some(nm[a].1) by {
                    if a != p {
                        assert(nm[a] == old_m[a]);
                        assert(old_m[p as int].0 == name@);
                        lemma_lex_lt_strict(name@, name@);
                        if a < p {
                            assert(lex_lt(old_m[a].0, old_m[p as int].0));
                        } else {
                            assert(lex_lt(old_m[p as int].0, old_m[a].0));
                        }
                        assert(old_m[a].0 != name@);
                    }
                }
                assert forall|k: Seq<char>| #[trigger] defined_value(next, k) is Some implies exists|a: int|
                    0 <= a < nm.len() && (#[trigger] nm[a]).0 == k by {
                    if k == name@ {
                        assert(nm[p as int].0 == k);
                    } else {
                        let a = choose|a: int| 0 <= a < old_m.len() && (#[trigger] old_m[a]).0 == k;
                        assert(nm[a].0 == k);
                    }
                }
            }
        } else {
            let ghost raw = m@;
            let entry = (name.clone(), value.clone());
            assert(entry.0@ == name@ && entry.1@ == value@);
            m.insert(p, entry);
            proof {
                let nm = definitions(m@);
                assert(m@ == raw.insert(p as int, entry));
                assert forall|a: int| 0 <= a < nm.len() implies #[trigger] nm[a] == old_m.insert(p as int, (name@, value@))[a] by {
                    if a < p {
                        assert(m@[a] == raw[a]);
                    } else if a > p {
                        assert(m@[a] == raw[a - 1]);
                    }
                }
                assert(nm =~= old_m.insert(p as int, (name@, value@)));
                if p < old_m.len() {
                    lemma_lex_lt_strict(old_m[p as int].0, name@);
                    assert(lex_lt(name@, old_m[p as int].0));
                }
                assert forall|a: int, b: int| 0 <= a < b < nm.len() implies lex_lt(#[trigger] nm[a].0, #[trigger] nm[b].0) by {
                    if b < p {
                        assert(nm[a] == old_m[a] && nm[b] == old_m[b]);
                    } else if a > p {
                        assert(nm[a] == old_m[a - 1] && nm[b] == old_m[b - 1]);
                    } else if a == p {
                        assert(nm[b] == old_m[b - 1]);
                        if b - 1 > p {
                            lemma_lex_lt_transitive(name@, old_m[p as int].0, old_m[b - 1].0);
                        }
                    } else {
                        assert(nm[a] == old_m[a]);
                        if b == p {
                        } else {
                            assert(nm[b] == old_m[b - 1]);
                        }
                    }
                }
                assert forall|a: int| 0 <= a < nm.len() implies defined_value(next, (#[trigger] nm[a]).0) == Some(nm[a].1) by {
                    if a < p {
                        assert(nm[a] == old_m[a]);
                        lemma_lex_lt_strict(old_m[a].0, name@);
                    } else if a > p {
                        assert(nm[a] == old_m[a - 1]);
                        lemma_lex_lt_strict(old_m[a - 1].0, name@);
                        lemma_lex_lt_strict(name@, name@);
                    }
                }
                assert forall|k: Seq<char>| #[trigger] defined_value(next, k) is Some implies exists|a: int|
                    0 <= a < nm.len() && (#[trigger] nm[a]).0 == k by {
                    if k == name@ {
                        assert(nm[p as int].0 == k);
                    } else {
                        let a = choose|a: int| 0 <= a < old_m.len() && (#[trigger] old_m[a]).0 == k;
                        if a < p {
                            assert(nm[a].0 == k);
                        } else {
                            assert(nm[a + 1].0 == k);
                        }
                    }
                }
            }
        }
        i = i + 1;
    }
    assert(defs.subrange(0, pairs.len() as int) =~= defs);
    m
}

impl Env {
    /// The variables of the `.env` text `input`, sorted by name, each with the
    /// value of its last definition; or the parser's first error. The names are
    /// exactly those the text defines, each once.
    pub fn decode(input: &str) -> (r: Result<Vec<(String, String)>, dotenvy::Error>)
        ensures
            match r {
                Ok(m) => {
                    &&& sorted_by_name(definitions(m@))
                    &&& dotenv_names(input@) matches Some(ns) && variable_names(definitions(m@)).to_set()
                        == ns.to_set()
                },
                Err(_) => dotenv_names(input@) is None,
            },
    {
        match parse_dotenv(input) {
            Ok(pairs) => {
                let ghost defs = definitions(pairs@);
                let m = variable_map(pairs);
                assert(is_variable_map(definitions(m@), defs));
                proof {
                    let dm = definitions(m@);
                    let ns = variable_names(defs);
                    assert forall|n: Seq<char>| #[trigger] variable_names(dm).to_set().contains(n) <==> ns.to_set().contains(n) by {
                        lemma_defined_value_some(defs, n);
                        if variable_names(dm).contains(n) {
                            let i = choose|i: int| 0 <= i < variable_names(dm).len() && variable_names(dm)[i] == n;
                            assert(dm[i].0 == n);
                        }
                        if ns.contains(n) {
                            let i = choose|i: int| 0 <= i < dm.len() && (#[trigger] dm[i]).0 == n;
                            assert(variable_names(dm)[i] == n);
                        }
                    }
                    assert(variable_names(dm).to_set() =~= ns.to_set());
                }
                Ok(m)
            },
            Err(e) => Err(e),
        }
    }
}

} // verus!
