//! The engine's view of the registries that the scripts fill: the target
//! systems, the target groups and the tasks.

use vstd::prelude::*;

use crate::error::MutexLockError;
use crate::memory::target_groups::{TargetGroupView, TargetGroups, TargetGroupsMemory};
use crate::memory::target_systems::{TargetSystemView, TargetSystems, TargetSystemsMemory};
use crate::memory::tasks::{
    entries_wf, entry_tasks, task_entries, with_error, with_result, with_state, ScriptRef, Task,
    TaskState, TaskView, Tasks, TasksErrorSetError, TasksMemory, TasksResultSetError,
    TasksStateSetError,
};
use crate::registry::{lookup, stored, views};

verus! {

/// The registries shared by the scripts' modules and the engine.
pub struct State {
    pub target_systems: TargetSystemsMemory,
    pub target_groups: TargetGroupsMemory,
    pub tasks: TasksMemory,
}

/// Resetting the tasks' execution state failed.
#[derive(Debug)]
pub enum TasksExecutionStateResetError {
    Lock(MutexLockError),
}

/// Recording a task's result failed.
#[derive(Debug)]
pub enum TasksResultStateSetError {
    Lock(MutexLockError),
    TaskResultSet(TasksResultSetError),
}

/// Recording a task's state failed.
#[derive(Debug)]
pub enum TasksStateStateSetError {
    Lock(MutexLockError),
    TaskStateSet(TasksStateSetError),
}

/// Recording a task's error failed.
#[derive(Debug)]
pub enum TasksErrorStateSetError {
    Lock(MutexLockError),
    TaskErrorSet(TasksErrorSetError),
}

impl State {
    /// The three registries are well formed.
    pub open spec fn wf(&self) -> bool {
        &&& self.target_systems.wf()
        &&& self.target_groups.wf()
        &&& self.tasks.wf()
    }

    /// The engine's state over the given registries.
    pub fn new(
        target_systems: TargetSystemsMemory,
        target_groups: TargetGroupsMemory,
        tasks: TasksMemory,
    ) -> (s: State)
        ensures
            s.target_systems == target_systems,
            s.target_groups == target_groups,
            s.tasks == tasks,
    {
        State { target_systems, target_groups, tasks }
    }

    /// Every registered system.
    pub fn all_systems(&self) -> (r: Result<TargetSystems, MutexLockError>)
        ensures
            r matches Ok(systems) && views(systems@) == self.target_systems@,
    {
        Ok(self.target_systems.all())
    }

    /// Every registered group.
    pub fn all_groups(&self) -> (r: Result<TargetGroups, MutexLockError>)
        ensures
            r matches Ok(groups) && views(groups@) == self.target_groups@,
    {
        Ok(self.target_groups.all())
    }

    /// Every registered task, in definition order.
    pub fn all_tasks(&self) -> (r: Result<Tasks, MutexLockError>)
        requires
            self.tasks.wf(),
        ensures
            r matches Ok(tasks) && entries_wf(task_entries(tasks)) && entry_tasks(
                task_entries(tasks),
            ) == self.tasks@,
    {
        Ok(self.tasks.all())
    }

    /// Clears the result, state and error of every task.
    pub fn reset_execution_state(&mut self) -> (r: Result<(), TasksExecutionStateResetError>)
        requires
            old(self).wf(),
        ensures
            r is Ok,
            final(self).wf(),
            final(self).target_systems == old(self).target_systems,
            final(self).target_groups == old(self).target_groups,
            final(self).tasks@ == old(self).tasks@.map_values(
                |t: TaskView| crate::memory::tasks::cleared(t),
            ),
    {
        self.tasks.reset_execution_state();
        Ok(())
    }

    /// Records `value` as the result of the task named `name`.
    pub fn set_task_result(&mut self, name: &str, value: ScriptRef) -> (r: Result<
        (),
        TasksResultStateSetError,
    >)
        requires
            old(self).wf(),
        ensures
            final(self).wf(),
            final(self).target_systems == old(self).target_systems,
            final(self).target_groups == old(self).target_groups,
            match lookup::<Task>(old(self).tasks@, name@) {
                Some(t) => r is Ok && final(self).tasks@ == stored::<Task>(
                    old(self).tasks@,
                    with_result(t, value),
                ),
                None => final(self).tasks@ == old(self).tasks@ && r matches Err(
                    TasksResultStateSetError::TaskResultSet(_),
                ),
            },
    {
        match self.tasks.set_task_result(name, value) {
            Ok(()) => Ok(()),
            Err(e) => Err(TasksResultStateSetError::TaskResultSet(e)),
        }
    }

    /// Records `state` as the state of the task named `name`.
    pub fn set_task_state(&mut self, name: &str, state: TaskState) -> (r: Result<
        (),
        TasksStateStateSetError,
    >)
        requires
            old(self).wf(),
        ensures
            final(self).wf(),
            final(self).target_systems == old(self).target_systems,
            final(self).target_groups == old(self).target_groups,
            match lookup::<Task>(old(self).tasks@, name@) {
                Some(t) => r is Ok && final(self).tasks@ == stored::<Task>(
                    old(self).tasks@,
                    with_state(t, state),
                ),
                None => final(self).tasks@ == old(self).tasks@ && r matches Err(
                    TasksStateStateSetError::TaskStateSet(_),
                ),
            },
    {
        match self.tasks.set_task_state(name, state) {
            Ok(()) => Ok(()),
            Err(e) => Err(TasksStateStateSetError::TaskStateSet(e)),
        }
    }

    /// Records `error` as the error of the task named `name`.
    pub fn set_task_error(&mut self, name: &str, error: String) -> (r: Result<
        (),
        TasksErrorStateSetError,
    >)
        requires
            old(self).wf(),
        ensures
            final(self).wf(),
            final(self).target_systems == old(self).target_systems,
            final(self).target_groups == old(self).target_groups,
            match lookup::<Task>(old(self).tasks@, name@) {
                Some(t) => r is Ok && final(self).tasks@ == stored::<Task>(
                    old(self).tasks@,
                    with_error(t, error@),
                ),
                None => final(self).tasks@ == old(self).tasks@ && r matches Err(
                    TasksErrorStateSetError::TaskErrorSet(_),
                ),
            },
    {
        match self.tasks.set_task_error(name, error) {
            Ok(()) => Ok(()),
            Err(e) => Err(TasksErrorStateSetError::TaskErrorSet(e)),
        }
    }
}

} // verus!
