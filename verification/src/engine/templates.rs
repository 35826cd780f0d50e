//! Template arguments: a script's table becomes the template's context, its
//! keys becoming argument names.

use vstd::prelude::*;

use crate::list::{decimal, decimal_text};

verus! {

/// A key of the table cannot name an argument; the key's type is given.
#[derive(Debug)]
pub struct InvalidArgumentNameError(pub String);

/// A value of the table cannot be an argument; the value's type is given.
#[derive(Debug)]
pub struct InvalidArgumentTypeError(pub String);

/// A key of a script's table.
#[derive(Debug)]
pub enum ArgumentKey {
    /// A string key, as text.
    Text(String),
    /// An integer key.
    Integer(i64),
    /// A float key, as the runtime prints it.
    Number(String),
    /// A key of another type, named by its type.
    Other(String),
}

/// An integer in decimal, with a leading `-` when negative.
pub open spec fn integer_text(i: int) -> Seq<char> {
    if i < 0 {
        "-"@ + decimal((-i) as nat)
    } else {
        decimal(i as nat)
    }
}

/// The argument name a key gives: the text of a string key, the decimal form
/// of an integer key, the printed form of a float key.
pub fn argument_name(key: ArgumentKey) -> (r: Result<String, InvalidArgumentNameError>)
    ensures
        match key {
            ArgumentKey::Text(s) => r matches Ok(n) && n@ == s@,
            ArgumentKey::Integer(i) => r matches Ok(n) && n@ == integer_text(i as int),
            ArgumentKey::Number(s) => r matches Ok(n) && n@ == s@,
            ArgumentKey::Other(t) => r matches Err(e) && e.0@ == t@,
        },
{
    match key {
        ArgumentKey::Text(s) => Ok(s),
        ArgumentKey::Integer(i) => {
            if i < 0 {
                let magnitude = (0i128 - (i as i128)) as u64;
                let mut n = String::from_str("-");
                n.append(decimal_text(magnitude).as_str());
                Ok(n)
            } else {
                Ok(decimal_text(i as u64))
            }
        },
        ArgumentKey::Number(s) => Ok(s),
        ArgumentKey::Other(t) => Err(InvalidArgumentNameError(t)),
    }
}

} // verus!
