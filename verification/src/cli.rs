//! The command line: `arc init`, `arc run` and `arc list`.

use vstd::prelude::*;

verus! {

/// The parsed command line.
#[derive(Debug)]
pub struct Cli {
    pub command: Command,
}

/// What arc is asked to do.
#[derive(Debug)]
pub enum Command {
    /// Initialize a project with type definitions.
    Init { project_root: String },
    /// Execute tasks.
    Run {
        /// Select tasks by tag.
        tag: Vec<String>,
        /// Run tasks only on these groups.
        group: Vec<String>,
        /// Run tasks only on these systems.
        system: Vec<String>,
        /// Print the tasks that would run without running them.
        dry_run: bool,
        /// Run only the tasks selected explicitly, not what they require.
        no_reqs: bool,
        /// Run all tasks.
        all_tags: bool,
        /// Run on all systems.
        all_systems: bool,
    },
    /// List registered items.
    List {
        /// What to list.
        item_type: ListItemType,
        /// Print JSON rather than a table.
        json: bool,
    },
}

/// The kinds of item `arc list` lists.
#[derive(Debug, Clone, Copy, PartialEq, Eq, Structural)]
pub enum ListItemType {
    Tasks,
    Groups,
    Systems,
}

impl Default for Command {
    /// A run with nothing selected and every flag off.
    fn default() -> (c: Command)
        ensures
            c matches Command::Run { tag, group, system, dry_run, no_reqs, all_tags, all_systems }
                && tag@.len() == 0 && group@.len() == 0 && system@.len() == 0 && !dry_run && !no_reqs
                && !all_tags && !all_systems,
    {
        Command::Run {
            tag: Vec::new(),
            group: Vec::new(),
            system: Vec::new(),
            dry_run: false,
            no_reqs: false,
            all_tags: false,
            all_systems: false,
        }
    }
}

} // verus!
