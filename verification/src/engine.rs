//! The engine's decisions: what is selected, what is valid, in which order
//! tasks run and how a run proceeds on a system.

pub mod delegator;
pub mod file_system;
pub mod format;
pub mod modules;
pub mod objects;
pub mod recipe;
pub mod run;
pub mod selection;
pub mod state;
pub mod targets;
pub mod tasks;
pub mod templates;
pub mod validation;

use vstd::prelude::*;

use crate::error::MutexLockError;
use crate::memory::target_groups::{TargetGroupView, TargetGroups};
use crate::memory::target_systems::{TargetSystem, TargetSystemView};
use crate::memory::tasks::{entry_tasks, keyed, lemma_keyed, task_entries, tasks_get_index, tasks_len, Task, TaskView, Tasks};
use crate::names::{contains_name, lemma_empty_names, name_set};
use crate::registry::{views, Keyed};
use selection::{
    select_systems, select_tasks, select_tasks_with_dependencies, selected_directly,
    selected_with_requirements, system_is_selected, GroupSelection, SystemSelection, TagSelection,
};
use state::State;
use validation::{
    group_names, listed_groups, listed_systems, listed_tags, system_names, tag_names,
    tasks_with_undefined_requirements, undefined_selection, validate_selected_groups,
    validate_selected_systems, validate_selected_tags, validate_task_dependencies,
    MissingSelectedGroupError, MissingSelectedSystemError, MissingSelectedTagError,
    UndefinedDependenciesError,
};

verus! {

/// Validating the scripts' definitions against the selection failed.
#[derive(Debug)]
pub enum ValidationError {
    MissingSelectedGroup(MissingSelectedGroupError),
    MissingSelectedSystem(MissingSelectedSystemError),
    MissingSelectedTag(MissingSelectedTagError),
    UndefinedRequires(UndefinedDependenciesError),
    Lock(MutexLockError),
}

/// A task failed under `on_fail = "abort"`: the run stops.
#[derive(Debug)]
pub struct TaskAbortedError {
    pub task: String,
    pub error: String,
}

/// A task runs on a system when it names no group, or when one of its groups
/// has the system as a member.
pub open spec fn task_applies_to(t: TaskView, system: Seq<char>, groups: Seq<TargetGroupView>) -> bool {
    ||| t.groups =~= Set::<Seq<char>>::empty()
    ||| exists|k: int|
        0 <= k < groups.len() && t.groups.contains((#[trigger] groups[k]).name)
            && groups[k].members.contains(system)
}

/// Whether `task` runs on the system named `system`.
pub fn task_applies_to_system(task: &Task, system: &String, groups: &TargetGroups) -> (r: bool)
    ensures
        r == task_applies_to(task@, system@, views(groups@)),
{
    proof {
        lemma_empty_names(task.groups@);
    }
    if task.groups.len() == 0 {
        return true;
    }
    let ghost gs = views(groups@);
    let mut k: usize = 0;
    while k < groups.len()
        invariant
            gs == views(groups@),
            k <= groups.len(),
            forall|q: int|
                0 <= q < k ==> !(task@.groups.contains((#[trigger] gs[q]).name) && gs[q].members.contains(
                    system@,
                )),
        decreases groups.len() - k,
    {
        assert(gs[k as int].name == groups@[k as int].name@);
        if contains_name(&task.groups, &groups[k].name) && contains_name(&groups[k].members, system) {
            assert(task@.groups.contains(gs[k as int].name));
            return true;
        }
        k = k + 1;
    }
    false
}

/// The tasks selected by the command line: those selected directly, or, unless
/// requirements are skipped, together with what they require.
pub open spec fn selected_task_entries(
    es: Seq<(Seq<char>, TaskView)>,
    groups: GroupSelection,
    tags: TagSelection,
    no_reqs: bool,
) -> Seq<(Seq<char>, TaskView)> {
    if no_reqs {
        es.filter(|e: (Seq<char>, TaskView)| selected_directly(e.1, groups, tags))
    } else {
        es.filter(|e: (Seq<char>, TaskView)| selected_with_requirements(es, groups, tags, e.0))
    }
}

/// The systems selected by the command line, in registration order.
pub open spec fn selected_systems(
    systems: Seq<TargetSystemView>,
    groups: Seq<TargetGroupView>,
    system_selection: SystemSelection,
    group_selection: GroupSelection,
) -> Seq<TargetSystemView> {
    systems.filter(
        |s: TargetSystemView| system_is_selected(s.name, groups, system_selection, group_selection),
    )
}

/// The selected tasks that run on the system named `system`, in definition
/// order.
pub open spec fn tasks_for_system(
    selected: Seq<(Seq<char>, TaskView)>,
    system: Seq<char>,
    groups: Seq<TargetGroupView>,
) -> Seq<TaskView> {
    entry_tasks(selected.filter(|e: (Seq<char>, TaskView)| task_applies_to(e.1, system, groups)))
}

/// The selected tasks of `tasks` that run on the system named `system`.
fn tasks_for(tasks: &Tasks, system: &String, groups: &TargetGroups) -> (r: Vec<Task>)
    ensures
        views(r@) == tasks_for_system(task_entries(*tasks), system@, views(groups@)),
{
    let ghost es = task_entries(*tasks);
    let ghost pred = |e: (Seq<char>, TaskView)| task_applies_to(e.1, system@, views(groups@));
    let n = tasks_len(tasks);
    let mut r: Vec<Task> = Vec::new();
    let mut i: usize = 0;
    while i < n
        invariant
            n == es.len(),
            es == task_entries(*tasks),
            i <= n,
            pred == (|e: (Seq<char>, TaskView)| task_applies_to(e.1, system@, views(groups@))),
            views(r@) == entry_tasks(es.subrange(0, i as int).filter(pred)),
        decreases n - i,
    {
        let (_, task) = tasks_get_index(tasks, i).unwrap();
        proof {
            selection::lemma_filter_push(es.subrange(0, i as int), es[i as int], pred);
            assert(es.subrange(0, i as int).push(es[i as int]) =~= es.subrange(0, i as int + 1));
        }
        if task_applies_to_system(task, system, groups) {
            let ghost before = views(r@);
            let ghost f = es.subrange(0, i as int).filter(pred);
            r.push(task.duplicate());
            assert(views(r@) =~= before.push(task@));
            assert(entry_tasks(f.push(es[i as int])) =~= entry_tasks(f).push(es[i as int].1));
        } else {
            assert(views(r@) =~= entry_tasks(es.subrange(0, i as int + 1).filter(pred)));
        }
        i = i + 1;
    }
    assert(es.subrange(0, n as int) =~= es);
    r
}

/// Validates the registered targets and tasks against the selection, then
/// pairs each selected system, in registration order, with the selected tasks
/// that run on it, in definition order.
///
/// The checks run in this order and the first that fails is reported: every
/// tag a task requires is carried by some task, every selected group and
/// system is defined, every selected tag is carried by some task.
pub fn validate_and_filter_by_selection(
    state: &State,
    tags_selection: &TagSelection,
    groups_selection: &GroupSelection,
    systems_selection: &SystemSelection,
    no_reqs: bool,
) -> (r: Result<Vec<(TargetSystem, Vec<Task>)>, ValidationError>)
    requires
        state.wf(),
    ensures
        ({
            let groups = state.target_groups@;
            let systems = state.target_systems@;
            let es = keyed(state.tasks@);
            let requires_ok = tasks_with_undefined_requirements(es).len() == 0;
            let groups_ok = undefined_selection(listed_groups(*groups_selection), group_names(groups))
                =~= Set::<Seq<char>>::empty();
            let systems_ok = undefined_selection(
                listed_systems(*systems_selection),
                system_names(systems),
            ) =~= Set::<Seq<char>>::empty();
            let tags_ok = undefined_selection(listed_tags(*tags_selection), tag_names(es))
                =~= Set::<Seq<char>>::empty();
            &&& (r matches Err(ValidationError::UndefinedRequires(_)) <==> !requires_ok)
            &&& (r matches Err(ValidationError::MissingSelectedGroup(_)) <==> requires_ok && !groups_ok)
            &&& (r matches Err(ValidationError::MissingSelectedSystem(_)) <==> requires_ok && groups_ok
                && !systems_ok)
            &&& (r matches Err(ValidationError::MissingSelectedTag(_)) <==> requires_ok && groups_ok
                && systems_ok && !tags_ok)
            &&& (r is Ok <==> requires_ok && groups_ok && systems_ok && tags_ok)
            &&& r matches Ok(pairs) ==> {
                let sys = selected_systems(systems, groups, *systems_selection, *groups_selection);
                let sel = selected_task_entries(es, *groups_selection, *tags_selection, no_reqs);
                &&& pairs@.len() == sys.len()
                &&& forall|i: int|
                    0 <= i < sys.len() ==> {
                        &&& (#[trigger] pairs@[i]).0@ == sys[i]
                        &&& views(pairs@[i].1@) == tasks_for_system(sel, sys[i].name, groups)
                    }
            }
        }),
{
    let all_groups = match state.all_groups() {
        Ok(g) => g,
        Err(e) => {
            return Err(ValidationError::Lock(e));
        },
    };
    let all_systems = match state.all_systems() {
        Ok(s) => s,
        Err(e) => {
            return Err(ValidationError::Lock(e));
        },
    };
    let all_tasks = match state.all_tasks() {
        Ok(t) => t,
        Err(e) => {
            return Err(ValidationError::Lock(e));
        },
    };
    proof {
        lemma_keyed(task_entries(all_tasks));
    }
    match validate_task_dependencies(&all_tasks) {
        Ok(()) => {},
        Err(e) => {
            return Err(ValidationError::UndefinedRequires(e));
        },
    }
    match validate_selected_groups(&all_groups, groups_selection) {
        Ok(()) => {},
        Err(e) => {
            return Err(ValidationError::MissingSelectedGroup(e));
        },
    }
    match validate_selected_systems(&all_systems, systems_selection) {
        Ok(()) => {},
        Err(e) => {
            return Err(ValidationError::MissingSelectedSystem(e));
        },
    }
    match validate_selected_tags(&all_tasks, tags_selection) {
        Ok(()) => {},
        Err(e) => {
            return Err(ValidationError::MissingSelectedTag(e));
        },
    }
    let filtered_systems = select_systems(all_systems, &all_groups, systems_selection, groups_selection);
    let filtered_tasks = if no_reqs {
        select_tasks(all_tasks, groups_selection, tags_selection)
    } else {
        select_tasks_with_dependencies(all_tasks, groups_selection, tags_selection)
    };
    let ghost sys = views(filtered_systems@);
    let ghost sel = task_entries(filtered_tasks);
    let mut result: Vec<(TargetSystem, Vec<Task>)> = Vec::new();
    let mut i: usize = 0;
    while i < filtered_systems.len()
        invariant
            sys == views(filtered_systems@),
            sel == task_entries(filtered_tasks),
            i <= filtered_systems.len(),
            result@.len() == i,
            forall|j: int|
                0 <= j < i ==> {
                    &&& (#[trigger] result@[j]).0@ == sys[j]
                    &&& views(result@[j].1@) == tasks_for_system(sel, sys[j].name, views(all_groups@))
                },
        decreases filtered_systems.len() - i,
    {
        let system = filtered_systems[i].duplicate();
        assert(system@ == sys[i as int]);
        let system_tasks = tasks_for(&filtered_tasks, &system.name, &all_groups);
        result.push((system, system_tasks));
        i = i + 1;
    }
    Ok(result)
}

/// A task that names no group runs on every system.
pub proof fn law_ungrouped_tasks_run_everywhere(t: TaskView, system: Seq<char>, groups: Seq<TargetGroupView>)
    requires
        t.groups =~= Set::<Seq<char>>::empty(),
    ensures
        task_applies_to(t, system, groups),
{
}

/// A task runs on every member of each group it names.
pub proof fn law_task_runs_on_members_of_its_groups(
    t: TaskView,
    system: Seq<char>,
    groups: Seq<TargetGroupView>,
    k: int,
)
    requires
        0 <= k < groups.len(),
        t.groups.contains(groups[k].name),
        groups[k].members.contains(system),
    ensures
        task_applies_to(t, system, groups),
{
    assert(t.groups.contains(groups[k].name) && groups[k].members.contains(system));
}

/// A task that names groups runs only on members of a group it names.
pub proof fn law_task_runs_only_in_its_groups(t: TaskView, system: Seq<char>, groups: Seq<TargetGroupView>)
    requires
        t.groups != Set::<Seq<char>>::empty(),
        task_applies_to(t, system, groups),
    ensures
        exists|k: int|
            0 <= k < groups.len() && t.groups.contains((#[trigger] groups[k]).name) && groups[k].members.contains(system),
{
    if t.groups =~= Set::<Seq<char>>::empty() {
        assert(t.groups == Set::<Seq<char>>::empty());
    }
}

} // verus!
