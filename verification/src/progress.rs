//! Where progress and log output goes: to the task that is running, if any,
//! otherwise to the console logger.

use vstd::prelude::*;

use crate::logger::{LogLevel, Logger};

verus! {

/// A handle on the progress display of a running task; the runtime keeps the
/// display under this number.
#[derive(Debug, Clone, Copy, PartialEq, Eq, Structural)]
pub struct TaskLogger(pub u64);

/// The progress display of a system's run.
#[derive(Debug)]
pub struct SystemLogger {
    pub name: String,
}

/// Creating a system's progress display failed.
#[derive(Debug)]
pub struct SystemLoggerCreationError;

/// Where a transfer goes, with the paths that are shown for it.
#[derive(Debug)]
#[allow(inconsistent_fields)]
pub enum TransferDirection {
    Download { source_file_path: String, target_file_path: Option<String> },
    Upload { source_file_path: Option<String>, target_file_path: String },
    Copy { source_file_path: String, target_file_path: String },
}

/// Who receives progress or log output.
#[derive(Debug, Clone, Copy, PartialEq, Eq, Structural)]
pub enum OutputTarget {
    /// The display of the task that is running.
    Task(TaskLogger),
    /// No task is running: progress is not shown and logs go to the console.
    Console,
}

/// The run's progress context: the task whose display receives output.
#[derive(Debug)]
pub struct ProgressContext {
    pub active_task: Option<TaskLogger>,
    pub logger: Logger,
}

/// The receiver of output while `active` is the running task, if any.
pub open spec fn output_target(active: Option<TaskLogger>) -> OutputTarget {
    match active {
        Some(t) => OutputTarget::Task(t),
        None => OutputTarget::Console,
    }
}

impl ProgressContext {
    /// A context in which no task runs, printing through `logger`.
    pub fn new(logger: Logger) -> (p: ProgressContext)
        ensures
            p.active_task is None,
            p.logger == logger,
    {
        ProgressContext { active_task: None, logger }
    }

    /// `task_logger`'s task starts running.
    pub fn activate(&mut self, task_logger: TaskLogger)
        ensures
            final(self).active_task == Some(task_logger),
            final(self).logger == old(self).logger,
    {
        self.active_task = Some(task_logger);
    }

    /// The running task has ended.
    pub fn deactivate(&mut self)
        ensures
            final(self).active_task is None,
            final(self).logger == old(self).logger,
    {
        self.active_task = None;
    }

    /// Who shows the progress of running `command`.
    pub fn command(&self, command: &str) -> (t: OutputTarget)
        ensures
            t == output_target(self.active_task),
    {
        self.current_target()
    }

    /// Who shows the progress of a transfer of `total` bytes.
    pub fn transfer(&self, direction: &TransferDirection, total: u64) -> (t: OutputTarget)
        ensures
            t == output_target(self.active_task),
    {
        self.current_target()
    }

    /// Who receives a script's log message.
    pub fn log(&self, level: LogLevel, msg: &str) -> (t: OutputTarget)
        ensures
            t == output_target(self.active_task),
    {
        self.current_target()
    }

    fn current_target(&self) -> (t: OutputTarget)
        ensures
            t == output_target(self.active_task),
    {
        match self.active_task {
            Some(task_logger) => OutputTarget::Task(task_logger),
            None => OutputTarget::Console,
        }
    }
}

} // verus!
