//! Reading files from the project: only paths inside the project's root
//! directory may be read.

use vstd::prelude::*;

verus! {

/// The project's files, under its root directory.
#[derive(Debug)]
pub struct FileSystem {
    root: String,
}

/// Reading a file failed.
#[derive(Debug)]
pub struct FileReadError {
    pub path: String,
    pub kind: FileReadErrorKind,
}

/// Why reading a file failed.
#[derive(Debug)]
pub enum FileReadErrorKind {
    PathNotInRoot(PathNotInRootError),
    Io(std::io::Error),
}

/// The path is outside the project's root directory.
#[derive(Debug)]
pub struct PathNotInRootError;

/// What `Path::starts_with` gives: `base` is made of the first components of
/// `path`.
pub uninterp spec fn path_starts_with(path: Seq<char>, base: Seq<char>) -> bool;

/// `Path::starts_with`, compared component by component. Its result is named,
/// not stated.
#[verifier::external_body]
fn starts_with(path: &str, base: &str) -> (r: bool)
    ensures
        r == path_starts_with(path@, base@),
{
    std::path::Path::new(path).starts_with(base)
}

impl FileSystem {
    /// The project's files under `root_directory`.
    pub fn new(root_directory: String) -> (fs: FileSystem)
        ensures
            fs.root_view() == root_directory@,
    {
        FileSystem { root: root_directory }
    }

    /// The root directory.
    pub closed spec fn root_view(&self) -> Seq<char> {
        self.root@
    }

    /// Admits the canonical path of a file to be read: it must lie under the
    /// root directory.
    pub fn check_in_root(&self, canonical_path: String) -> (r: Result<String, FileReadError>)
        ensures
            match r {
                Ok(p) => p@ == canonical_path@ && path_starts_with(canonical_path@, self.root_view()),
                Err(e) => !path_starts_with(canonical_path@, self.root_view()) && e.path@
                    == canonical_path@ && e.kind is PathNotInRoot,
            },
    {
        if starts_with(canonical_path.as_str(), self.root.as_str()) {
            Ok(canonical_path)
        } else {
            Err(
                FileReadError {
                    path: canonical_path,
                    kind: FileReadErrorKind::PathNotInRoot(PathNotInRootError),
                },
            )
        }
    }
}

} // verus!
