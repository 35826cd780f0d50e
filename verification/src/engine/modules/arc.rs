//! The `arc` global: where the project and the user's home are.

use vstd::prelude::*;

verus! {

/// The project's root path and the user's home path.
#[derive(Debug)]
pub struct Arc {
    root_path: String,
    home_path: String,
}

impl Arc {
    /// The `arc` global for the given paths.
    pub fn new(root_path: String, home_path: String) -> (a: Arc)
        ensures
            a.project_root_path_view() == root_path@,
            a.home_path_view() == home_path@,
    {
        Arc { root_path, home_path }
    }

    /// The project's root path.
    pub closed spec fn project_root_path_view(&self) -> Seq<char> {
        self.root_path@
    }

    /// The user's home path.
    pub closed spec fn home_path_view(&self) -> Seq<char> {
        self.home_path@
    }

    /// The project's root path, as the scripts read it.
    pub fn project_root_path(&self) -> (p: String)
        ensures
            p@ == self.project_root_path_view(),
    {
        self.root_path.clone()
    }

    /// The user's home path, as the scripts read it.
    pub fn home_path(&self) -> (p: String)
        ensures
            p@ == self.home_path_view(),
    {
        self.home_path.clone()
    }
}

} // verus!
