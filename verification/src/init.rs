//! `arc init`: the failures of writing a new project's files.

use vstd::prelude::*;

verus! {

/// Initializing a project failed.
#[derive(Debug)]
pub enum InitializationFailure {
    RootDirectory(RootDirectoryCreationError),
    LspTypes(LspTypesCreationError),
    ArcLua(ArcLuaCreationError),
}

/// Creating the project's root directory failed.
#[derive(Debug)]
pub struct RootDirectoryCreationError(pub std::io::Error);

/// Writing the type definitions file failed.
#[derive(Debug)]
pub struct LspTypesCreationError(pub std::io::Error);

/// Writing the initial `arc.lua` failed.
#[derive(Debug)]
pub struct ArcLuaCreationError(pub std::io::Error);

} // verus!
