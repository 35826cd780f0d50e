//! Checks that what the command line selects, and what the tasks require,
//! exists among the registered targets and tasks.

use vstd::prelude::*;

use crate::engine::selection::{
    all_task_tags, defined_tag, lemma_filter_push, GroupSelection, SystemSelection, TagSelection,
};
use crate::memory::target_groups::{TargetGroup, TargetGroups};
use crate::memory::target_systems::{TargetSystem, TargetSystems};
use crate::memory::tasks::{task_entries, tasks_get_index, tasks_len, TaskView, Tasks};
use crate::names::{contains_name, insert_name, lemma_empty_names, lemma_name_set_push, name_seq, name_set};
use crate::registry::{has_key, keys, views};

verus! {

/// Some selected groups are not defined.
#[derive(Debug)]
pub struct MissingSelectedGroupError(pub Vec<String>);

/// Some selected systems are not defined.
#[derive(Debug)]
pub struct MissingSelectedSystemError(pub Vec<String>);

/// Some selected tags are carried by no task.
#[derive(Debug)]
pub struct MissingSelectedTagError(pub Vec<String>);

/// Tasks require tags that no task carries: each task's name with the tags
/// it lacks.
#[derive(Debug)]
pub struct UndefinedDependenciesError(pub Vec<(String, Vec<String>)>);

/// The names among `requested` that are not among `known`, each once, in the
/// order of their first request.
pub fn missing_from(requested: &Vec<String>, known: &Vec<String>) -> (missing: Vec<String>)
    ensures
        name_set(missing@) == name_set(requested@).difference(name_set(known@)),
        name_seq(missing@).no_duplicates(),
{
    let mut missing: Vec<String> = Vec::new();
    let mut i: usize = 0;
    while i < requested.len()
        invariant
            i <= requested.len(),
            name_seq(missing@).no_duplicates(),
            name_set(missing@) == name_set(requested@.subrange(0, i as int)).difference(
                name_set(known@),
            ),
        decreases requested.len() - i,
    {
        let ghost before = requested@.subrange(0, i as int);
        proof {
            assert(requested@.subrange(0, i as int + 1) =~= before.push(requested@[i as int]));
            lemma_name_set_push(before, requested@[i as int]);
        }
        if !contains_name(known, &requested[i]) {
            insert_name(&mut missing, requested[i].clone());
        }
        assert(name_set(missing@) =~= name_set(requested@.subrange(0, i as int + 1)).difference(
            name_set(known@),
        ));
        i = i + 1;
    }
    assert(requested@.subrange(0, requested.len() as int) =~= requested@);
    missing
}

/// The selected names that are not defined: none when everything is selected.
pub open spec fn undefined_selection(selected: Option<Set<Seq<char>>>, defined: Set<Seq<char>>) -> Set<
    Seq<char>,
> {
    match selected {
        Some(s) => s.difference(defined),
        None => Set::empty(),
    }
}

/// The names a group selection lists, if it lists any.
pub open spec fn listed_groups(selection: GroupSelection) -> Option<Set<Seq<char>>> {
    match selection {
        GroupSelection::All => None,
        GroupSelection::Listed(v) => Some(name_set(v@)),
    }
}

/// The names a system selection lists, if it lists any.
pub open spec fn listed_systems(selection: SystemSelection) -> Option<Set<Seq<char>>> {
    match selection {
        SystemSelection::All => None,
        SystemSelection::Listed(v) => Some(name_set(v@)),
    }
}

/// The names a tag selection lists, if it lists any.
pub open spec fn listed_tags(selection: TagSelection) -> Option<Set<Seq<char>>> {
    match selection {
        TagSelection::All => None,
        TagSelection::Listed(v) => Some(name_set(v@)),
    }
}

/// The names of the registered groups.
pub open spec fn group_names(groups: Seq<crate::memory::target_groups::TargetGroupView>) -> Set<
    Seq<char>,
> {
    Set::new(|k: Seq<char>| has_key::<TargetGroup>(groups, k))
}

/// The names of the registered systems.
pub open spec fn system_names(systems: Seq<crate::memory::target_systems::TargetSystemView>) -> Set<
    Seq<char>,
> {
    Set::new(|k: Seq<char>| has_key::<TargetSystem>(systems, k))
}

/// The tags that some task carries.
pub open spec fn tag_names(es: Seq<(Seq<char>, TaskView)>) -> Set<Seq<char>> {
    Set::new(|x: Seq<char>| defined_tag(es, x))
}

/// Every selected group must be defined; the error lists, each once, the
/// selected groups that are not.
pub fn validate_selected_groups(groups: &TargetGroups, selection: &GroupSelection) -> (r: Result<
    (),
    MissingSelectedGroupError,
>)
    ensures
        r is Ok <==> undefined_selection(listed_groups(*selection), group_names(views(groups@)))
            =~= Set::<Seq<char>>::empty(),
        r matches Err(e) ==> name_set(e.0@) == undefined_selection(
            listed_groups(*selection),
            group_names(views(groups@)),
        ) && name_seq(e.0@).no_duplicates(),
{
    match selection {
        GroupSelection::All => Ok(()),
        GroupSelection::Listed(requested) => {
            let known = keys(groups);
            let missing = missing_from(requested, &known);
            assert(name_set(known@) =~= group_names(views(groups@)));
            proof {
                lemma_empty_names(missing@);
            }
            if missing.len() > 0 {
                Err(MissingSelectedGroupError(missing))
            } else {
                Ok(())
            }
        },
    }
}

/// Every selected system must be defined; the error lists, each once, the
/// selected systems that are not.
pub fn validate_selected_systems(systems: &TargetSystems, selection: &SystemSelection) -> (r: Result<
    (),
    MissingSelectedSystemError,
>)
    ensures
        r is Ok <==> undefined_selection(listed_systems(*selection), system_names(views(systems@)))
            =~= Set::<Seq<char>>::empty(),
        r matches Err(e) ==> name_set(e.0@) == undefined_selection(
            listed_systems(*selection),
            system_names(views(systems@)),
        ) && name_seq(e.0@).no_duplicates(),
{
    match selection {
        SystemSelection::All => Ok(()),
        SystemSelection::Listed(requested) => {
            let known = keys(systems);
            let missing = missing_from(requested, &known);
            assert(name_set(known@) =~= system_names(views(systems@)));
            proof {
                lemma_empty_names(missing@);
            }
            if missing.len() > 0 {
                Err(MissingSelectedSystemError(missing))
            } else {
                Ok(())
            }
        },
    }
}

/// Every selected tag must be carried by some task; the error lists, each
/// once, the selected tags that are not.
pub fn validate_selected_tags(tasks: &Tasks, selection: &TagSelection) -> (r: Result<
    (),
    MissingSelectedTagError,
>)
    ensures
        r is Ok <==> undefined_selection(listed_tags(*selection), tag_names(task_entries(*tasks)))
            =~= Set::<Seq<char>>::empty(),
        r matches Err(e) ==> name_set(e.0@) == undefined_selection(
            listed_tags(*selection),
            tag_names(task_entries(*tasks)),
        ) && name_seq(e.0@).no_duplicates(),
{
    match selection {
        TagSelection::All => Ok(()),
        TagSelection::Listed(requested) => {
            let all_tags = all_task_tags(tasks);
            let missing = missing_from(requested, &all_tags);
            assert(name_set(all_tags@) =~= tag_names(task_entries(*tasks)));
            proof {
                lemma_empty_names(missing@);
            }
            if missing.len() > 0 {
                Err(MissingSelectedTagError(missing))
            } else {
                Ok(())
            }
        },
    }
}

/// The task requires a tag that is not among `tags`.
pub open spec fn lacks_requirements(t: TaskView, tags: Set<Seq<char>>) -> bool {
    exists|x: Seq<char>| t.required_tags.contains(x) && !tags.contains(x)
}

/// The entries, in order, whose task requires a tag that no task carries.
pub open spec fn tasks_with_undefined_requirements(es: Seq<(Seq<char>, TaskView)>) -> Seq<
    (Seq<char>, TaskView),
> {
    es.filter(|e: (Seq<char>, TaskView)| lacks_requirements(e.1, tag_names(es)))
}

/// Every tag that a task requires must be carried by some task. The error
/// lists, in definition order, each task that requires tags no task carries,
/// by its key, with those tags, each once.
pub fn validate_task_dependencies(tasks: &Tasks) -> (r: Result<(), UndefinedDependenciesError>)
    ensures
        r is Ok <==> tasks_with_undefined_requirements(task_entries(*tasks)).len() == 0,
        r matches Err(e) ==> {
            let failing = tasks_with_undefined_requirements(task_entries(*tasks));
            &&& e.0@.len() == failing.len()
            &&& forall|k: int|
                0 <= k < failing.len() ==> {
                    &&& (#[trigger] e.0@[k]).0@ == failing[k].0
                    &&& name_set(e.0@[k].1@) == failing[k].1.required_tags.difference(
                        tag_names(task_entries(*tasks)),
                    )
                    &&& name_seq(e.0@[k].1@).no_duplicates()
                }
        },
{
    let ghost es = task_entries(*tasks);
    let ghost tags = tag_names(es);
    let ghost pred = |e: (Seq<char>, TaskView)| lacks_requirements(e.1, tags);
    let all_tags = all_task_tags(tasks);
    assert(name_set(all_tags@) =~= tags);
    let n = tasks_len(tasks);
    let mut undefined: Vec<(String, Vec<String>)> = Vec::new();
    let mut i: usize = 0;
    while i < n
        invariant
            n == es.len(),
            es == task_entries(*tasks),
            tags == tag_names(es),
            name_set(all_tags@) == tags,
            pred == (|e: (Seq<char>, TaskView)| lacks_requirements(e.1, tags)),
            i <= n,
            undefined@.len() == es.subrange(0, i as int).filter(pred).len(),
            forall|k: int|
                0 <= k < undefined@.len() ==> {
                    &&& (#[trigger] undefined@[k]).0@ == es.subrange(0, i as int).filter(pred)[k].0
                    &&& name_set(undefined@[k].1@) == es.subrange(0, i as int).filter(
                        pred,
                    )[k].1.required_tags.difference(tags)
                    &&& name_seq(undefined@[k].1@).no_duplicates()
                },
        decreases n - i,
    {
        let (task_name, task) = tasks_get_index(tasks, i).unwrap();
        let missing = missing_from(&task.required_tags, &all_tags);
        proof {
            lemma_filter_push(es.subrange(0, i as int), es[i as int], pred);
            assert(es.subrange(0, i as int).push(es[i as int]) =~= es.subrange(0, i as int + 1));
            lemma_empty_names(missing@);
            if missing@.len() == 0 {
                assert(!pred(es[i as int])) by {
                    if pred(es[i as int]) {
                        let x = choose|x: Seq<char>| es[i as int].1.required_tags.contains(x) && !tags.contains(x);
                        assert(name_set(missing@).contains(x));
                    }
                }
            } else {
                assert(name_seq(missing@)[0] == missing@[0]@);
                assert(name_set(missing@).contains(missing@[0]@));
                assert(pred(es[i as int]));
            }
        }
        if missing.len() > 0 {
            let ghost before = undefined@;
            undefined.push((task_name.clone(), missing));
            proof {
                let f = es.subrange(0, i as int + 1).filter(pred);
                assert(f == es.subrange(0, i as int).filter(pred).push(es[i as int]));
                assert forall|k: int| 0 <= k < undefined@.len() implies {
                    &&& (#[trigger] undefined@[k]).0@ == f[k].0
                    &&& name_set(undefined@[k].1@) == f[k].1.required_tags.difference(tags)
                    &&& name_seq(undefined@[k].1@).no_duplicates()
                } by {
                    if k < before.len() {
                        assert(undefined@[k] == before[k]);
                    }
                }
            }
        }
        i = i + 1;
    }
    assert(es.subrange(0, n as int) =~= es);
    if undefined.len() == 0 {
        Ok(())
    } else {
        Err(UndefinedDependenciesError(undefined))
    }
}

} // verus!
