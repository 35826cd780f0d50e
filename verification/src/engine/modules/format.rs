//! The `format` global's decoders that work on text alone.

pub mod env;
