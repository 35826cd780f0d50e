//! The `log` global: scripts' log messages go to the running task's display,
//! or to the console when no task runs.

use vstd::prelude::*;

use crate::logger::LogLevel;
use crate::progress::{output_target, OutputTarget, ProgressContext};

verus! {

/// The `log` global.
#[derive(Debug)]
pub struct Log {
    pub progress: ProgressContext,
}

impl Log {
    /// The `log` global over the run's progress context.
    pub fn new(progress: ProgressContext) -> (l: Log)
        ensures
            l.progress == progress,
    {
        Log { progress }
    }

    /// Who receives the message `msg` at `level`.
    pub fn log(&self, level: LogLevel, msg: &str) -> (t: OutputTarget)
        ensures
            t == output_target(self.progress.active_task),
    {
        self.progress.log(level, msg)
    }
}

} // verus!
