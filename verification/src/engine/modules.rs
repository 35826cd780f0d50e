//! The tables that the scripts use to define targets and tasks, and the other
//! globals they are given.
//!
//! Reading a script's table happens in the Lua runtime; what each read gave is
//! handed to this module as plain values, and the functions here decide what
//! configuration it makes or which error it is.

pub mod arc;
pub mod format;
pub mod log;
pub mod targets;
pub mod tasks;

use vstd::prelude::*;

verus! {

/// What was found where a script's table was expected: the fields read from
/// the table, or the type name of a value that is not a table.
#[derive(Debug)]
pub enum TableRead<T> {
    Table(T),
    NotATable(String),
}

/// What reading a required field gave.
#[derive(Debug)]
pub enum FieldRead<T> {
    /// The table could not be read at the field's key.
    Unreadable,
    /// The field holds a value of another kind.
    Invalid,
    /// The field's value.
    Value(T),
}

/// `s` between double quotes.
pub open spec fn quoted(s: Seq<char>) -> Seq<char> {
    seq!['"'] + s + seq!['"']
}

/// `s` between double quotes.
pub fn quote(s: &str) -> (q: String)
    ensures
        q@ == quoted(s@),
{
    let mut q = String::from_str("\"");
    q.append(s);
    q.append("\"");
    proof {
        reveal_strlit("\"");
    }
    q
}

/// The message for a value of type `kind_name` where a configuration of the
/// given kind was expected, such as `"number" is not a valid task config`.
pub fn not_a_valid_config(kind_name: &str, suffix: &str) -> (m: String)
    ensures
        m@ == quoted(kind_name@) + suffix@,
{
    let mut m = quote(kind_name);
    m.append(suffix);
    m
}

} // verus!
