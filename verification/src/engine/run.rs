//! The per-system execution policy: whether a task runs, and what a task's
//! outcome does to the registry and to the rest of the system's tasks.
//!
//! The runtime evaluates guards and calls handlers; these functions decide what
//! to do before a task and record what happened after it.

use vstd::prelude::*;

use crate::engine::TaskAbortedError;
use crate::engine::state::{
    State, TasksErrorStateSetError, TasksResultStateSetError, TasksStateStateSetError,
};
use crate::memory::tasks::{
    with_error, with_result, with_state, OnFailBehavior, ScriptRef, Task, TaskState, TaskView,
};
use crate::registry::{lookup, stored};

verus! {

/// What is known about a system's run between its tasks.
#[derive(Debug, Clone, Copy, PartialEq, Eq, Structural)]
pub struct SystemRun {
    /// A task failed with `on_fail = "skip_system"`: the remaining tasks that
    /// are not important are skipped.
    pub skip_system: bool,
}

/// What to do with the next task.
#[derive(Debug, Clone, Copy, PartialEq, Eq, Structural)]
pub enum TaskStart {
    /// Mark the task skipped and go on.
    Skip,
    /// Evaluate the task's guard first.
    EvaluateGuard,
    /// Call the task's handler.
    Execute,
}

/// How a task's handler ended.
#[derive(Debug)]
pub enum HandlerOutcome {
    /// It returned this value.
    Returned(ScriptRef),
    /// It failed with this message.
    Failed(String),
}

/// Recording a task's outcome failed, or the outcome stops the run.
#[derive(Debug)]
pub enum TaskExecutionError {
    TasksResultSet(TasksResultStateSetError),
    TasksStateSet(TasksStateStateSetError),
    TasksErrorSet(TasksErrorStateSetError),
    TaskAborted(TaskAbortedError),
}

/// A task is skipped once the system is being skipped, unless it is
/// important; otherwise its guard, if it has one, decides.
pub open spec fn start_decision(skip_system: bool, important: bool, has_guard: bool) -> TaskStart {
    if skip_system && !important {
        TaskStart::Skip
    } else if has_guard {
        TaskStart::EvaluateGuard
    } else {
        TaskStart::Execute
    }
}

/// A task that returned is recorded with its result and state `success`.
pub open spec fn succeeded(t: TaskView, value: ScriptRef) -> TaskView {
    with_state(with_result(t, value), TaskState::Success)
}

/// A task that failed is recorded with state `failed` and its message.
pub open spec fn failed(t: TaskView, message: Seq<char>) -> TaskView {
    with_error(with_state(t, TaskState::Failed), message)
}

impl SystemRun {
    /// The start of a system's run: no task has failed yet.
    pub fn new() -> (run: SystemRun)
        ensures
            !run.skip_system,
    {
        SystemRun { skip_system: false }
    }

    /// Decides what to do with `task` before running it.
    pub fn start_task(&self, task: &Task) -> (start: TaskStart)
        ensures
            start == start_decision(self.skip_system, task.important, task.when is Some),
    {
        if self.skip_system && !task.important {
            TaskStart::Skip
        } else if task.when.is_some() {
            TaskStart::EvaluateGuard
        } else {
            TaskStart::Execute
        }
    }

    /// Decides what to do once the guard has answered.
    pub fn after_guard(&self, should_run: bool) -> (start: TaskStart)
        ensures
            start == if should_run {
                TaskStart::Execute
            } else {
                TaskStart::Skip
            },
    {
        if should_run {
            TaskStart::Execute
        } else {
            TaskStart::Skip
        }
    }

    /// Records that the task named `name` was skipped.
    pub fn skip_task(&self, state: &mut State, name: &str) -> (r: Result<(), TaskExecutionError>)
        requires
            old(state).wf(),
        ensures
            final(state).wf(),
            final(state).target_systems == old(state).target_systems,
            final(state).target_groups == old(state).target_groups,
            match lookup::<Task>(old(state).tasks@, name@) {
                Some(t) => r is Ok && final(state).tasks@ == stored::<Task>(
                    old(state).tasks@,
                    with_state(t, TaskState::Skipped),
                ),
                None => r matches Err(TaskExecutionError::TasksStateSet(_)) && final(state).tasks@ == old(state).tasks@,
            },
    {
        match state.set_task_state(name, TaskState::Skipped) {
            Ok(()) => Ok(()),
            Err(e) => Err(TaskExecutionError::TasksStateSet(e)),
        }
    }

    /// Records how the handler of the task named `name` ended and applies the
    /// task's on-fail behaviour: a failure under `skip_system` skips the
    /// system's remaining tasks that are not important, a failure under `abort`
    /// stops the run with the task's message.
    pub fn conclude_task(
        &mut self,
        state: &mut State,
        name: &str,
        on_fail: OnFailBehavior,
        outcome: HandlerOutcome,
    ) -> (r: Result<TaskState, TaskExecutionError>)
        requires
            old(state).wf(),
        ensures
            final(state).wf(),
            final(state).target_systems == old(state).target_systems,
            final(state).target_groups == old(state).target_groups,
            match lookup::<Task>(old(state).tasks@, name@) {
                None => {
                    &&& final(state).tasks@ == old(state).tasks@
                    &&& *final(self) == *old(self)
                    &&& match outcome {
                        HandlerOutcome::Returned(_) => r matches Err(
                            TaskExecutionError::TasksResultSet(TasksResultStateSetError::TaskResultSet(_)),
                        ),
                        HandlerOutcome::Failed(_) => r matches Err(
                            TaskExecutionError::TasksStateSet(TasksStateStateSetError::TaskStateSet(_)),
                        ),
                    }
                },
                Some(t) => match outcome {
                    HandlerOutcome::Returned(v) => {
                        &&& r == Ok::<TaskState, TaskExecutionError>(TaskState::Success)
                        &&& final(state).tasks@ == stored::<Task>(old(state).tasks@, succeeded(t, v))
                        &&& *final(self) == *old(self)
                    },
                    HandlerOutcome::Failed(message) => {
                        &&& final(state).tasks@ == stored::<Task>(old(state).tasks@, failed(t, message@))
                        &&& final(self).skip_system == (old(self).skip_system || on_fail
                            == OnFailBehavior::SkipSystem)
                        &&& match on_fail {
                            OnFailBehavior::Abort => r matches Err(TaskExecutionError::TaskAborted(e))
                                && e.task@ == name@ && e.error@ == message@,
                            _ => r == Ok::<TaskState, TaskExecutionError>(TaskState::Failed),
                        }
                    },
                },
            },
    {
        let ghost s0 = state.tasks@;
        proof {
            state.tasks.lemma_unique();
            if crate::registry::has_key::<Task>(s0, name@) {
                crate::registry::lemma_first_exists::<Task>(s0, name@);
            }
        }
        match outcome {
            HandlerOutcome::Returned(value) => {
                match state.set_task_result(name, value) {
                    Ok(()) => {},
                    Err(e) => {
                        return Err(TaskExecutionError::TasksResultSet(e));
                    },
                }
                proof {
                    let t = lookup::<Task>(s0, name@).unwrap();
                    crate::registry::lemma_stored::<Task>(s0, with_result(t, value));
                }
                match state.set_task_state(name, TaskState::Success) {
                    Ok(()) => {},
                    Err(e) => {
                        return Err(TaskExecutionError::TasksStateSet(e));
                    },
                }
                proof {
                    let t = lookup::<Task>(s0, name@).unwrap();
                    crate::registry::lemma_stored_twice::<Task>(s0, with_result(t, value), succeeded(t, value));
                }
                Ok(TaskState::Success)
            },
            HandlerOutcome::Failed(message) => {
                match state.set_task_state(name, TaskState::Failed) {
                    Ok(()) => {},
                    Err(e) => {
                        return Err(TaskExecutionError::TasksStateSet(e));
                    },
                }
                proof {
                    let t = lookup::<Task>(s0, name@).unwrap();
                    crate::registry::lemma_stored::<Task>(s0, with_state(t, TaskState::Failed));
                }
                let ghost m = message@;
                match state.set_task_error(name, message.clone()) {
                    Ok(()) => {},
                    Err(e) => {
                        return Err(TaskExecutionError::TasksErrorSet(e));
                    },
                }
                proof {
                    let t = lookup::<Task>(s0, name@).unwrap();
                    crate::registry::lemma_stored_twice::<Task>(s0, with_state(t, TaskState::Failed), failed(t, m));
                }
                match on_fail {
                    OnFailBehavior::Continue => Ok(TaskState::Failed),
                    OnFailBehavior::SkipSystem => {
                        self.skip_system = true;
                        Ok(TaskState::Failed)
                    },
                    OnFailBehavior::Abort => Err(
                        TaskExecutionError::TaskAborted(
                            TaskAbortedError { task: String::from_str(name), error: message },
                        ),
                    ),
                }
            },
        }
    }
}

/// Once a system is being skipped, every task that is not important is
/// skipped, and recording further outcomes never stops the skipping.
pub proof fn law_skipping_is_sticky(run: SystemRun, important: bool, has_guard: bool)
    requires
        run.skip_system,
    ensures
        !important ==> start_decision(run.skip_system, important, has_guard) == TaskStart::Skip,
{
}

/// An important task is never skipped for its system's sake: only its guard
/// can keep it from running.
pub proof fn law_important_tasks_run(skip_system: bool, has_guard: bool)
    ensures
        start_decision(skip_system, true, has_guard) == (if has_guard {
            TaskStart::EvaluateGuard
        } else {
            TaskStart::Execute
        }),
{
}

} // verus!
