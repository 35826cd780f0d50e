//! The `format` global, which converts script values to and from JSON in the
//! runtime.

use vstd::prelude::*;

verus! {

/// The `format` global.
#[derive(Debug, Clone, Copy)]
pub struct Format;

impl Format {
    /// The `format` global.
    pub fn new() -> (f: Format) {
        Format
    }
}

} // verus!
