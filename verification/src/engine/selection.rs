//! Which groups, systems and tasks a run selects.

use vstd::prelude::*;

use crate::memory::target_groups::{TargetGroupView, TargetGroups};
use crate::memory::target_systems::{TargetSystemView, TargetSystems};
use crate::memory::tasks::{task_entries, tasks_get_index, tasks_index_of, tasks_len, tasks_retain, Task, TaskView, Tasks};
use crate::names::{copy_names, insert_name, lemma_empty_names, lemma_name_set_push};
use crate::names::{contains_name, contains_str, name_seq, name_set, shares_name};
use crate::registry::{copy_entries, views, Keyed};

verus! {

/// The groups selected on the command line.
#[derive(Debug)]
pub enum GroupSelection {
    All,
    Listed(Vec<String>),
}

/// The tags selected on the command line.
#[derive(Debug)]
pub enum TagSelection {
    All,
    Listed(Vec<String>),
}

/// The systems selected on the command line.
#[derive(Debug)]
pub enum SystemSelection {
    All,
    Listed(Vec<String>),
}

impl GroupSelection {
    /// The group named `name` is selected.
    pub open spec fn selects(&self, name: Seq<char>) -> bool {
        match self {
            GroupSelection::All => true,
            GroupSelection::Listed(v) => name_set(v@).contains(name),
        }
    }

    /// Whether the group named `group_name` is selected.
    pub fn contains(&self, group_name: &str) -> (r: bool)
        ensures
            r == self.selects(group_name@),
    {
        match self {
            GroupSelection::All => true,
            GroupSelection::Listed(selected_set) => contains_str(selected_set, group_name),
        }
    }
}

impl SystemSelection {
    /// The system named `name` is selected.
    pub open spec fn selects(&self, name: Seq<char>) -> bool {
        match self {
            SystemSelection::All => true,
            SystemSelection::Listed(v) => name_set(v@).contains(name),
        }
    }

    /// Whether the system named `system_name` is selected.
    pub fn contains(&self, system_name: &str) -> (r: bool)
        ensures
            r == self.selects(system_name@),
    {
        match self {
            SystemSelection::All => true,
            SystemSelection::Listed(selected_set) => contains_str(selected_set, system_name),
        }
    }
}

impl TagSelection {
    /// The tag `name` is selected.
    pub open spec fn selects(&self, name: Seq<char>) -> bool {
        match self {
            TagSelection::All => true,
            TagSelection::Listed(v) => name_set(v@).contains(name),
        }
    }
}

/// Two sets of names meet.
pub open spec fn meets(a: Set<Seq<char>>, b: Set<Seq<char>>) -> bool {
    exists|x: Seq<char>| a.contains(x) && b.contains(x)
}

/// A task is meant for the selected groups: every task is when all groups are
/// selected; otherwise a task that names no group (it runs on all groups) is,
/// and a task that names groups must name a selected one.
pub open spec fn matches_groups(t: TaskView, selection: GroupSelection) -> bool {
    match selection {
        GroupSelection::All => true,
        GroupSelection::Listed(v) => t.groups =~= Set::<Seq<char>>::empty() || meets(t.groups, name_set(v@)),
    }
}

/// A task carries a selected tag: every task does when all tags are selected.
pub open spec fn matches_tags(t: TaskView, selection: TagSelection) -> bool {
    match selection {
        TagSelection::All => true,
        TagSelection::Listed(v) => meets(t.tags, name_set(v@)),
    }
}

/// A task is selected by the command line on its own: it is meant for the
/// selected groups and is important or carries a selected tag.
pub open spec fn selected_directly(
    t: TaskView,
    groups: GroupSelection,
    tags: TagSelection,
) -> bool {
    matches_groups(t, groups) && (t.important || matches_tags(t, tags))
}

/// Whether `task` is meant for the selected groups.
pub fn task_matches_groups(task: &Task, selection: &GroupSelection) -> (r: bool)
    ensures
        r == matches_groups(task@, *selection),
{
    proof {
        lemma_empty_names(task.groups@);
    }
    match selection {
        GroupSelection::All => true,
        GroupSelection::Listed(selected_set) => task.groups.len() == 0 || shares_name(&task.groups, selected_set),
    }
}

/// Whether `task` carries a selected tag.
pub fn task_matches_tags(task: &Task, selection: &TagSelection) -> (r: bool)
    ensures
        r == matches_tags(task@, *selection),
{
    match selection {
        TagSelection::All => true,
        TagSelection::Listed(selected_set) => shares_name(&task.tags, selected_set),
    }
}

/// Which entries of a task map a retention keeps.
pub enum TaskFilter<'a> {
    /// The tasks selected directly by these selections.
    Selected(&'a GroupSelection, &'a TagSelection),
    /// The tasks whose key is one of these names.
    Named(&'a Vec<String>),
}

/// Whether `filter` keeps the entry `e` (a key and its task).
pub open spec fn task_filter_keeps(filter: TaskFilter, e: (Seq<char>, TaskView)) -> bool {
    match filter {
        TaskFilter::Selected(groups, tags) => selected_directly(e.1, *groups, *tags),
        TaskFilter::Named(names) => name_set(names@).contains(e.0),
    }
}

impl<'a> TaskFilter<'a> {
    /// Whether the entry keyed `key` holding `task` is kept.
    pub fn keeps(&self, key: &String, task: &Task) -> (r: bool)
        ensures
            r == task_filter_keeps(*self, (key@, task@)),
    {
        match self {
            TaskFilter::Selected(groups, tags) => {
                task_matches_groups(task, groups) && (task.important || task_matches_tags(
                    task,
                    tags,
                ))
            },
            TaskFilter::Named(names) => contains_name(names, key),
        }
    }
}

} // verus!

verus! {

/// Filtering a sequence extended by one element.
pub proof fn lemma_filter_push<A>(s: Seq<A>, x: A, p: spec_fn(A) -> bool)
    ensures
        s.push(x).filter(p) == (if p(x) {
            s.filter(p).push(x)
        } else {
            s.filter(p)
        }),
{
    reveal(Seq::filter);
    assert(s.push(x).drop_last() =~= s);
}

/// Keeps, in order, the groups whose name is selected.
pub fn select_groups(groups: TargetGroups, selection: &GroupSelection) -> (selected: TargetGroups)
    ensures
        views(selected@) == views(groups@).filter(
            |g: TargetGroupView| selection.selects(g.name),
        ),
{
    let ghost pred = |g: TargetGroupView| selection.selects(g.name);
    let mut selected: TargetGroups = Vec::new();
    let mut rest = groups;
    let ghost all = views(rest@);
    let n = rest.len();
    let mut i: usize = 0;
    while i < n
        invariant
            n == all.len(),
            i <= n,
            rest@.len() == n,
            forall|j: int| i <= j < n ==> (#[trigger] rest@[j])@ == all[j],
            pred == (|g: TargetGroupView| selection.selects(g.name)),
            views(selected@) == all.subrange(0, i as int).filter(pred),
        decreases n - i,
    {
        let g = rest[i].duplicate();
        assert(g@ == all[i as int]);
        proof {
            lemma_filter_push(all.subrange(0, i as int), g@, pred);
            assert(all.subrange(0, i as int).push(g@) =~= all.subrange(0, i as int + 1));
        }
        assert(pred(g@) == selection.selects(g@.name));
        if selection.contains(g.name.as_str()) {
            let ghost before = views(selected@);
            selected.push(g);
            assert(views(selected@) =~= before.push(all[i as int]));
        }
        i = i + 1;
    }
    assert(all.subrange(0, n as int) =~= all);
    selected
}

/// The groups selected among `groups`.
pub open spec fn selected_groups(groups: Seq<TargetGroupView>, selection: GroupSelection) -> Seq<
    TargetGroupView,
> {
    groups.filter(|g: TargetGroupView| selection.selects(g.name))
}

/// A system belongs to one of `groups`.
pub open spec fn in_some_group(name: Seq<char>, groups: Seq<TargetGroupView>) -> bool {
    exists|k: int| 0 <= k < groups.len() && (#[trigger] groups[k]).members.contains(name)
}

/// A system is selected when it is selected by name and, where groups are
/// listed and one of them exists, belongs to one of the listed groups. With
/// all groups selected, no system is left out for its groups.
pub open spec fn system_is_selected(
    name: Seq<char>,
    groups: Seq<TargetGroupView>,
    system_selection: SystemSelection,
    group_selection: GroupSelection,
) -> bool {
    let filtered = selected_groups(groups, group_selection);
    &&& (group_selection is All || filtered.len() == 0 || in_some_group(name, filtered))
    &&& system_selection.selects(name)
}

/// Keeps, in order, the systems selected by name and by group.
pub fn select_systems(
    systems: TargetSystems,
    groups: &TargetGroups,
    system_selection: &SystemSelection,
    group_selection: &GroupSelection,
) -> (selected: TargetSystems)
    ensures
        views(selected@) == views(systems@).filter(
            |s: TargetSystemView|
                system_is_selected(s.name, views(groups@), *system_selection, *group_selection),
        ),
{
    let ghost pred = |s: TargetSystemView|
        system_is_selected(s.name, views(groups@), *system_selection, *group_selection);
    let filtered_groups = select_groups(copy_entries(groups), group_selection);
    let ghost filtered = views(filtered_groups@);
    let mut selected: TargetSystems = Vec::new();
    let ghost all = views(systems@);
    let n = systems.len();
    let mut i: usize = 0;
    while i < n
        invariant
            n == all.len(),
            i <= n,
            systems@.len() == n,
            all == views(systems@),
            filtered == selected_groups(views(groups@), *group_selection),
            filtered == views(filtered_groups@),
            pred == (|s: TargetSystemView|
                system_is_selected(s.name, views(groups@), *system_selection, *group_selection)),
            views(selected@) == all.subrange(0, i as int).filter(pred),
        decreases n - i,
    {
        let s = systems[i].duplicate();
        assert(s@ == all[i as int]);
        proof {
            lemma_filter_push(all.subrange(0, i as int), s@, pred);
            assert(all.subrange(0, i as int).push(s@) =~= all.subrange(0, i as int + 1));
        }
        let all_groups = match group_selection {
            GroupSelection::All => true,
            GroupSelection::Listed(_) => false,
        };
        let mut matches_groups = all_groups || filtered_groups.len() == 0;
        let mut k: usize = 0;
        while k < filtered_groups.len() && !matches_groups
            invariant
                filtered == views(filtered_groups@),
                k <= filtered_groups.len(),
                all_groups == (*group_selection is All),
                matches_groups == (all_groups || filtered.len() == 0 || exists|q: int|
                    0 <= q < k && (#[trigger] filtered[q]).members.contains(s@.name)),
            decreases filtered_groups.len() - k,
        {
            if contains_name(&filtered_groups[k].members, &s.name) {
                assert(filtered[k as int].members == name_seq(filtered_groups@[k as int].members@));
                matches_groups = true;
            }
            k = k + 1;
        }
        assert(matches_groups == (all_groups || filtered.len() == 0 || in_some_group(s@.name, filtered)));
        let matches_systems = system_selection.contains(s.name.as_str());
        assert(pred(s@) == (matches_groups && matches_systems));
        if matches_groups && matches_systems {
            let ghost before = views(selected@);
            selected.push(s);
            assert(views(selected@) =~= before.push(all[i as int]));
        }
        i = i + 1;
    }
    assert(all.subrange(0, n as int) =~= all);
    selected
}

/// Keeps, in order, the tasks selected directly: meant for the selected groups,
/// and important or carrying a selected tag.
pub fn select_tasks(
    tasks: Tasks,
    group_selection: &GroupSelection,
    tag_selection: &TagSelection,
) -> (selected: Tasks)
    ensures
        task_entries(selected) == task_entries(tasks).filter(
            |e: (Seq<char>, TaskView)| selected_directly(e.1, *group_selection, *tag_selection),
        ),
{
    let ghost before = task_entries(tasks);
    let mut kept = tasks;
    let filter = TaskFilter::Selected(group_selection, tag_selection);
    tasks_retain(&mut kept, &filter);
    let ghost p1 = |e: (Seq<char>, TaskView)| task_filter_keeps(filter, e);
    let ghost p2 = |e: (Seq<char>, TaskView)|
        selected_directly(e.1, *group_selection, *tag_selection);
    assert(p1 =~= p2);
    assert(task_entries(kept) == before.filter(p2));
    kept
}

} // verus!

verus! {

/// `i` is the first position of an entry keyed `k`.
pub open spec fn is_first_entry(es: Seq<(Seq<char>, TaskView)>, k: Seq<char>, i: int) -> bool {
    &&& 0 <= i < es.len()
    &&& es[i].0 == k
    &&& forall|j: int| 0 <= j < i ==> (#[trigger] es[j]).0 != k
}

/// The task found under key `k` (the first entry with that key), if any.
pub open spec fn entry_named(es: Seq<(Seq<char>, TaskView)>, k: Seq<char>) -> Option<TaskView> {
    if exists|i: int| is_first_entry(es, k, i) {
        Some(es[choose|i: int| is_first_entry(es, k, i)].1)
    } else {
        None
    }
}

/// Selecting the task named `a` brings in the task named `b`: `b` is meant for
/// the selected groups and carries a tag that `a` requires.
pub open spec fn requirement_step(
    es: Seq<(Seq<char>, TaskView)>,
    groups: GroupSelection,
    a: Seq<char>,
    b: Seq<char>,
) -> bool {
    match entry_named(es, a) {
        Some(t) => exists|j: int|
            0 <= j < es.len() && (#[trigger] es[j]).0 == b && matches_groups(es[j].1, groups)
                && meets(t.required_tags, es[j].1.tags),
        None => false,
    }
}

/// Some task named `b` is selected directly.
pub open spec fn key_selected_directly(
    es: Seq<(Seq<char>, TaskView)>,
    groups: GroupSelection,
    tags: TagSelection,
    b: Seq<char>,
) -> bool {
    exists|j: int| 0 <= j < es.len() && (#[trigger] es[j]).0 == b && selected_directly(es[j].1, groups, tags)
}

/// A chain of requirements that starts at a directly selected task.
pub open spec fn requirement_chain(
    es: Seq<(Seq<char>, TaskView)>,
    groups: GroupSelection,
    tags: TagSelection,
    p: Seq<Seq<char>>,
) -> bool {
    &&& p.len() > 0
    &&& key_selected_directly(es, groups, tags, p[0])
    &&& forall|k: int| 0 <= k < p.len() - 1 ==> requirement_step(es, groups, #[trigger] p[k], p[k + 1])
}

/// The task named `b` is selected directly or required, transitively, by a
/// selected task.
pub open spec fn selected_with_requirements(
    es: Seq<(Seq<char>, TaskView)>,
    groups: GroupSelection,
    tags: TagSelection,
    b: Seq<char>,
) -> bool {
    exists|p: Seq<Seq<char>>| #[trigger] requirement_chain(es, groups, tags, p) && p.last() == b
}

/// The number of entries whose key is outside `s`.
pub open spec fn unselected_count(es: Seq<(Seq<char>, TaskView)>, s: Set<Seq<char>>) -> nat
    decreases es.len(),
{
    if es.len() == 0 {
        0
    } else {
        unselected_count(es.drop_last(), s) + if s.contains(es.last().0) {
            0nat
        } else {
            1nat
        }
    }
}

/// Growing the set of names never raises the count, and taking in the key of
/// some entry lowers it.
pub proof fn lemma_unselected_count(es: Seq<(Seq<char>, TaskView)>, s: Set<Seq<char>>, s2: Set<Seq<char>>)
    requires
        s.subset_of(s2),
    ensures
        unselected_count(es, s2) <= unselected_count(es, s),
        (exists|j: int| 0 <= j < es.len() && s2.contains((#[trigger] es[j]).0) && !s.contains(es[j].0))
            ==> unselected_count(es, s2) < unselected_count(es, s),
    decreases es.len(),
{
    if es.len() > 0 {
        lemma_unselected_count(es.drop_last(), s, s2);
        if exists|j: int| 0 <= j < es.len() && s2.contains((#[trigger] es[j]).0) && !s.contains(es[j].0) {
            let j = choose|j: int| 0 <= j < es.len() && s2.contains((#[trigger] es[j]).0) && !s.contains(es[j].0);
            if j < es.len() - 1 {
                assert(es.drop_last()[j] == es[j]);
            }
        }
    }
}

/// The first entry of a key is unique.
pub proof fn lemma_first_entry_unique(es: Seq<(Seq<char>, TaskView)>, k: Seq<char>, i: int)
    requires
        is_first_entry(es, k, i),
    ensures
        entry_named(es, k) == Some(es[i].1),
{
    let c = choose|c: int| is_first_entry(es, k, c);
    assert(is_first_entry(es, k, c));
    if c < i {
        assert(es[c].0 != k);
    }
    if i < c {
        assert(es[i].0 != k);
    }
}

/// A set that holds every directly selected name and, with each of its names,
/// every name that name brings in, holds every name of a requirement chain.
pub proof fn lemma_closed_set_holds_chain(
    es: Seq<(Seq<char>, TaskView)>,
    groups: GroupSelection,
    tags: TagSelection,
    s: Set<Seq<char>>,
    p: Seq<Seq<char>>,
)
    requires
        forall|b: Seq<char>| key_selected_directly(es, groups, tags, b) ==> #[trigger] s.contains(b),
        forall|a: Seq<char>, b: Seq<char>|
            s.contains(a) && #[trigger] requirement_step(es, groups, a, b) ==> s.contains(b),
        requirement_chain(es, groups, tags, p),
    ensures
        s.contains(p.last()),
    decreases p.len(),
{
    if p.len() > 1 {
        let q = p.drop_last();
        assert forall|k: int| 0 <= k < q.len() - 1 implies requirement_step(es, groups, #[trigger] q[k], q[k + 1]) by {
            assert(q[k] == p[k] && q[k + 1] == p[k + 1]);
        }
        assert(requirement_chain(es, groups, tags, q));
        lemma_closed_set_holds_chain(es, groups, tags, s, q);
        assert(requirement_step(es, groups, p[p.len() - 2], p[p.len() - 1]));
    }
}

/// Brings into `selected` (and into `work`, to be expanded in turn) every task
/// that the task at position `ti` requires and that is not selected yet.
fn add_required_tasks(
    all_tasks: &Tasks,
    group_selection: &GroupSelection,
    tag_selection: &TagSelection,
    all_tags: &Vec<String>,
    task: &Task,
    ti: usize,
    selected: &mut Vec<String>,
    work: &mut Vec<String>,
)
    requires
        ti < task_entries(*all_tasks).len(),
        task@ == task_entries(*all_tasks)[ti as int].1,
        entry_named(task_entries(*all_tasks), task_entries(*all_tasks)[ti as int].0) == Some(task@),
        forall|x: Seq<char>| name_set(all_tags@).contains(x) <==> defined_tag(task_entries(*all_tasks), x),
        name_set(old(selected)@).contains(task_entries(*all_tasks)[ti as int].0),
        forall|b: Seq<char>| #[trigger] name_set(old(selected)@).contains(b) ==> selected_with_requirements(task_entries(*all_tasks), *group_selection, *tag_selection, b),
        forall|b: Seq<char>| #[trigger] name_set(old(work)@).contains(b) ==> name_set(old(selected)@).contains(b),
    ensures
        name_set(old(selected)@).subset_of(name_set(final(selected)@)),
        forall|b: Seq<char>| #[trigger] name_set(final(selected)@).contains(b) ==> selected_with_requirements(task_entries(*all_tasks), *group_selection, *tag_selection, b),
        forall|b: Seq<char>| #[trigger] name_set(final(work)@).contains(b) ==> name_set(final(selected)@).contains(b),
        forall|b: Seq<char>| #[trigger] name_set(old(work)@).contains(b) ==> name_set(final(work)@).contains(b),
        forall|b: Seq<char>| name_set(final(selected)@).contains(b) && !name_set(old(selected)@).contains(b) ==> #[trigger] name_set(final(work)@).contains(b),
        forall|b: Seq<char>| name_set(final(selected)@).contains(b) && !name_set(old(selected)@).contains(b) ==> exists|j: int| 0 <= j < task_entries(*all_tasks).len() && (#[trigger] task_entries(*all_tasks)[j]).0 == b,
        name_set(final(selected)@) == name_set(old(selected)@) ==> final(work)@ == old(work)@,
        forall|b: Seq<char>| #[trigger] requirement_step(task_entries(*all_tasks), *group_selection, task_entries(*all_tasks)[ti as int].0, b) ==> name_set(final(selected)@).contains(b),
{
    let ghost es = task_entries(*all_tasks);
    let ghost g = *group_selection;
    let ghost t = *tag_selection;
    let ghost a = es[ti as int].0;
    let ghost sel0 = name_set(selected@);
    let ghost work0 = work@;
    let n = tasks_len(all_tasks);
    let mut k: usize = 0;
    while k < task.required_tags.len()
        invariant
            n == es.len(),
            es == task_entries(*all_tasks),
            g == *group_selection,
            t == *tag_selection,
            ti < n,
            a == es[ti as int].0,
            task@ == es[ti as int].1,
            entry_named(es, a) == Some(task@),
            name_set(selected@).contains(a),
            k <= task.required_tags.len(),
            sel0.subset_of(name_set(selected@)),
            forall|x: Seq<char>| name_set(all_tags@).contains(x) <==> defined_tag(es, x),
            forall|b: Seq<char>| #[trigger] name_set(selected@).contains(b) ==> selected_with_requirements(es, g, t, b),
            forall|b: Seq<char>| #[trigger] name_set(work@).contains(b) ==> name_set(selected@).contains(b),
            forall|b: Seq<char>| #[trigger] name_set(work0).contains(b) ==> name_set(work@).contains(b),
            forall|b: Seq<char>| name_set(selected@).contains(b) && !sel0.contains(b) ==> #[trigger] name_set(work@).contains(b),
            forall|b: Seq<char>| name_set(selected@).contains(b) && !sel0.contains(b) ==> exists|j: int| 0 <= j < n && (#[trigger] es[j]).0 == b,
            name_set(selected@) == sel0 ==> work@ == work0,
            forall|q: int, j: int|
                0 <= q < k && 0 <= j < n && (#[trigger] es[j]).1.tags.contains(#[trigger] name_seq(task.required_tags@)[q])
                    && matches_groups(es[j].1, g) ==> name_set(selected@).contains(es[j].0),
        decreases task.required_tags.len() - k,
    {
        let dependency_tag = &task.required_tags[k];
        assert(name_seq(task.required_tags@)[k as int] == dependency_tag@);
        if contains_name(all_tags, dependency_tag) {
            let mut j: usize = 0;
            while j < n
                invariant
                    n == es.len(),
                    es == task_entries(*all_tasks),
                    g == *group_selection,
                    t == *tag_selection,
                    ti < n,
                    a == es[ti as int].0,
                    task@ == es[ti as int].1,
                    entry_named(es, a) == Some(task@),
                    name_set(selected@).contains(a),
                    task.required_tags@.len() > k,
                    name_seq(task.required_tags@)[k as int] == dependency_tag@,
                    j <= n,
                    sel0.subset_of(name_set(selected@)),
                    forall|b: Seq<char>| #[trigger] name_set(selected@).contains(b) ==> selected_with_requirements(es, g, t, b),
                    forall|b: Seq<char>| #[trigger] name_set(work@).contains(b) ==> name_set(selected@).contains(b),
                    forall|b: Seq<char>| #[trigger] name_set(work0).contains(b) ==> name_set(work@).contains(b),
                    forall|b: Seq<char>| name_set(selected@).contains(b) && !sel0.contains(b) ==> #[trigger] name_set(work@).contains(b),
                    forall|b: Seq<char>| name_set(selected@).contains(b) && !sel0.contains(b) ==> exists|j3: int| 0 <= j3 < n && (#[trigger] es[j3]).0 == b,
                    name_set(selected@) == sel0 ==> work@ == work0,
                    forall|q: int, j2: int|
                        0 <= q < k && 0 <= j2 < n && (#[trigger] es[j2]).1.tags.contains(#[trigger] name_seq(task.required_tags@)[q])
                            && matches_groups(es[j2].1, g) ==> name_set(selected@).contains(es[j2].0),
                    forall|j2: int|
                        0 <= j2 < j && (#[trigger] es[j2]).1.tags.contains(dependency_tag@)
                            && matches_groups(es[j2].1, g) ==> name_set(selected@).contains(es[j2].0),
                decreases n - j,
            {
                let (name, other) = tasks_get_index(all_tasks, j).unwrap();
                if contains_name(&other.tags, dependency_tag) && task_matches_groups(other, group_selection) {
                    if !contains_name(selected, name) {
                        proof {
                            let b = name@;
                            assert(requirement_step(es, g, a, b)) by {
                                assert(task@.required_tags.contains(dependency_tag@)) by {
                                    assert(name_seq(task.required_tags@).contains(dependency_tag@));
                                }
                                assert(es[j as int].1.tags.contains(dependency_tag@));
                            }
                            let p = choose|p: Seq<Seq<char>>| #[trigger] requirement_chain(es, g, t, p) && p.last() == a;
                            let p2 = p.push(b);
                            assert forall|q: int| 0 <= q < p2.len() - 1 implies requirement_step(es, g, #[trigger] p2[q], p2[q + 1]) by {
                                if q < p.len() - 1 {
                                    assert(p2[q] == p[q] && p2[q + 1] == p[q + 1]);
                                } else {
                                    assert(p2[q] == a && p2[q + 1] == b);
                                }
                            }
                            assert(p2[0] == p[0]);
                            assert(requirement_chain(es, g, t, p2));
                            assert(p2.last() == b);
                        }
                        insert_name(selected, name.clone());
                        insert_name(work, name.clone());
                        proof {
                            assert(name_set(selected@).contains(name@));
                            assert(!sel0.contains(name@));
                        }
                    }
                }
                j = j + 1;
            }
        } else {
            assert(!name_set(all_tags@).contains(dependency_tag@));
            assert forall|j2: int| 0 <= j2 < n implies !(#[trigger] es[j2]).1.tags.contains(dependency_tag@) by {
                if es[j2].1.tags.contains(dependency_tag@) {
                    assert(defined_tag(es, dependency_tag@));
                }
            }
        }
        k = k + 1;
    }
    proof {
        assert forall|b: Seq<char>| #[trigger] requirement_step(es, g, a, b) implies name_set(selected@).contains(b) by {
            let j = choose|j: int|
                0 <= j < es.len() && (#[trigger] es[j]).0 == b && matches_groups(es[j].1, g)
                    && meets(task@.required_tags, es[j].1.tags);
            let x = choose|x: Seq<char>| task@.required_tags.contains(x) && es[j].1.tags.contains(x);
            let q = choose|q: int| 0 <= q < name_seq(task.required_tags@).len() && name_seq(task.required_tags@)[q] == x;
        }
    }
}

/// Some task among the entries carries the tag `x`.
pub open spec fn defined_tag(es: Seq<(Seq<char>, TaskView)>, x: Seq<char>) -> bool {
    exists|j: int| 0 <= j < es.len() && (#[trigger] es[j]).1.tags.contains(x)
}

/// Every tag carried by some task, each once.
pub fn all_task_tags(tasks: &Tasks) -> (all_tags: Vec<String>)
    ensures
        forall|x: Seq<char>| name_set(all_tags@).contains(x) <==> defined_tag(task_entries(*tasks), x),
        name_seq(all_tags@).no_duplicates(),
{
    let ghost es = task_entries(*tasks);
    let n = tasks_len(tasks);
    let mut all_tags: Vec<String> = Vec::new();
    let mut i: usize = 0;
    while i < n
        invariant
            n == es.len(),
            es == task_entries(*tasks),
            i <= n,
            name_seq(all_tags@).no_duplicates(),
            forall|x: Seq<char>| name_set(all_tags@).contains(x) <==> exists|j: int| 0 <= j < i && (#[trigger] es[j]).1.tags.contains(x),
        decreases n - i,
    {
        let (_, task) = tasks_get_index(tasks, i).unwrap();
        let mut k: usize = 0;
        while k < task.tags.len()
            invariant
                n == es.len(),
                es == task_entries(*tasks),
                i < n,
                task@ == es[i as int].1,
                k <= task.tags.len(),
                name_seq(all_tags@).no_duplicates(),
                forall|x: Seq<char>| name_set(all_tags@).contains(x) <==> (exists|j: int| 0 <= j < i && (#[trigger] es[j]).1.tags.contains(x))
                    || exists|q: int| 0 <= q < k && (#[trigger] name_seq(task.tags@)[q]) == x,
            decreases task.tags.len() - k,
        {
            insert_name(&mut all_tags, task.tags[k].clone());
            assert(name_seq(task.tags@)[k as int] == task.tags@[k as int]@);
            k = k + 1;
        }
        assert forall|x: Seq<char>| name_set(all_tags@).contains(x) <==> exists|j: int| 0 <= j < i + 1 && (#[trigger] es[j]).1.tags.contains(x) by {
            if es[i as int].1.tags.contains(x) {
                let q = choose|q: int| 0 <= q < name_seq(task.tags@).len() && name_seq(task.tags@)[q] == x;
            }
            if exists|q: int| 0 <= q < task.tags.len() && (#[trigger] name_seq(task.tags@)[q]) == x {
                let q = choose|q: int| 0 <= q < task.tags.len() && (#[trigger] name_seq(task.tags@)[q]) == x;
                assert(name_seq(task.tags@).contains(x));
            }
        }
        i = i + 1;
    }
    all_tags
}

/// Keeps, in order, the tasks selected directly together with every task they
/// require, transitively: a task requires the tasks, meant for the selected
/// groups, that carry one of its required tags.
pub fn select_tasks_with_dependencies(
    all_tasks: Tasks,
    group_selection: &GroupSelection,
    tag_selection: &TagSelection,
) -> (selected: Tasks)
    ensures
        task_entries(selected) == task_entries(all_tasks).filter(
            |e: (Seq<char>, TaskView)|
                selected_with_requirements(task_entries(all_tasks), *group_selection, *tag_selection, e.0),
        ),
{
    let ghost es = task_entries(all_tasks);
    let ghost g = *group_selection;
    let ghost t = *tag_selection;
    let n = tasks_len(&all_tasks);

    // Every tag carried by some task.
    let all_tags = all_task_tags(&all_tasks);

    // The tasks selected directly.
    let mut selected_task_names: Vec<String> = Vec::new();
    let mut i: usize = 0;
    while i < n
        invariant
            n == es.len(),
            es == task_entries(all_tasks),
            g == *group_selection,
            t == *tag_selection,
            i <= n,
            forall|x: Seq<char>| name_set(selected_task_names@).contains(x) <==> exists|j: int|
                0 <= j < i && (#[trigger] es[j]).0 == x && selected_directly(es[j].1, g, t),
        decreases n - i,
    {
        let (name, task) = tasks_get_index(&all_tasks, i).unwrap();
        if task_matches_groups(task, group_selection) && (task.important || task_matches_tags(
            task,
            tag_selection,
        )) {
            insert_name(&mut selected_task_names, name.clone());
        }
        i = i + 1;
    }
    let mut tasks_to_expand = copy_names(&selected_task_names);

    proof {
        assert forall|b: Seq<char>| name_set(selected_task_names@).contains(b) implies selected_with_requirements(es, g, t, b) by {
            let p = seq![b];
            assert(requirement_chain(es, g, t, p));
        }
    }

    while tasks_to_expand.len() > 0
        invariant
            n == es.len(),
            es == task_entries(all_tasks),
            g == *group_selection,
            t == *tag_selection,
            forall|x: Seq<char>| name_set(all_tags@).contains(x) <==> defined_tag(es, x),
            forall|b: Seq<char>| key_selected_directly(es, g, t, b) ==> #[trigger] name_set(selected_task_names@).contains(b),
            forall|b: Seq<char>| #[trigger] name_set(selected_task_names@).contains(b) ==> selected_with_requirements(es, g, t, b),
            forall|b: Seq<char>| #[trigger] name_set(tasks_to_expand@).contains(b) ==> name_set(selected_task_names@).contains(b),
            forall|a: Seq<char>, b: Seq<char>|
                name_set(selected_task_names@).contains(a) && !name_set(tasks_to_expand@).contains(a)
                    && #[trigger] requirement_step(es, g, a, b) ==> name_set(selected_task_names@).contains(b),
        decreases unselected_count(es, name_set(selected_task_names@)), tasks_to_expand.len(),
    {
        let ghost sel0 = name_set(selected_task_names@);
        let ghost work0 = tasks_to_expand@;
        let task_name = tasks_to_expand.pop().unwrap();
        assert(work0 =~= tasks_to_expand@.push(task_name));
        let ghost work1 = tasks_to_expand@;
        let ghost a = task_name@;
        proof {
            lemma_name_set_push(work1, task_name);
            assert(name_set(work0).contains(a));
            assert(sel0.contains(a));
            assert forall|b: Seq<char>| #[trigger] name_set(work1).contains(b) implies sel0.contains(b) by {
                assert(name_set(work0).contains(b));
            }
        }
        let found = tasks_index_of(&all_tasks, task_name.as_str());
        if let Some(ti) = found {
            let (_, task) = tasks_get_index(&all_tasks, ti).unwrap();
            proof {
                lemma_first_entry_unique(es, a, ti as int);
            }
            add_required_tasks(
                &all_tasks,
                group_selection,
                tag_selection,
                &all_tags,
                task,
                ti,
                &mut selected_task_names,
                &mut tasks_to_expand,
            );
        } else {
            proof {
                assert(entry_named(es, a) is None) by {
                    if exists|i: int| is_first_entry(es, a, i) {
                        let i = choose|i: int| is_first_entry(es, a, i);
                        assert(es[i].0 == a);
                    }
                }
            }
        }
        proof {
            let sel1 = name_set(selected_task_names@);
            assert forall|x: Seq<char>, b: Seq<char>|
                sel1.contains(x) && !name_set(tasks_to_expand@).contains(x)
                    && #[trigger] requirement_step(es, g, x, b) implies sel1.contains(b) by {
                if x != a {
                    if sel0.contains(x) {
                        assert(!name_set(work1).contains(x));
                        assert(!name_set(work0).contains(x));
                        assert(sel0.contains(b));
                    }
                }
            }
            lemma_unselected_count(es, sel0, sel1);
            if !(sel1 =~= sel0) {
                let b = choose|b: Seq<char>| !(sel1.contains(b) <==> sel0.contains(b));
                assert(sel1.contains(b) && !sel0.contains(b));
                let j = choose|j: int| 0 <= j < es.len() && (#[trigger] es[j]).0 == b;
                assert(sel1.contains(es[j].0) && !sel0.contains(es[j].0));
            } else {
                assert(sel1 =~= sel0);
            }
        }
    }
    proof {
        assert forall|b: Seq<char>| selected_with_requirements(es, g, t, b) implies name_set(selected_task_names@).contains(b) by {
            let p = choose|p: Seq<Seq<char>>| #[trigger] requirement_chain(es, g, t, p) && p.last() == b;
            lemma_closed_set_holds_chain(es, g, t, name_set(selected_task_names@), p);
        }
    }
    let mut selected_tasks = all_tasks;
    let filter = TaskFilter::Named(&selected_task_names);
    tasks_retain(&mut selected_tasks, &filter);
    let ghost p1 = |e: (Seq<char>, TaskView)| task_filter_keeps(filter, e);
    let ghost p2 = |e: (Seq<char>, TaskView)| selected_with_requirements(es, g, t, e.0);
    assert(p1 =~= p2);
    selected_tasks
}

/// An important task meant for the selected groups is selected whatever tags
/// are selected.
pub proof fn law_important_tasks_ignore_tag_filters(
    t: TaskView,
    groups: GroupSelection,
    tags: TagSelection,
)
    requires
        t.important,
        matches_groups(t, groups),
    ensures
        selected_directly(t, groups, tags),
{
}

/// Resolving requirements only adds tasks: every task selected directly is
/// selected with its requirements.
pub proof fn law_direct_selection_kept(
    es: Seq<(Seq<char>, TaskView)>,
    groups: GroupSelection,
    tags: TagSelection,
    b: Seq<char>,
)
    requires
        key_selected_directly(es, groups, tags, b),
    ensures
        selected_with_requirements(es, groups, tags, b),
{
    let p = seq![b];
    assert(requirement_chain(es, groups, tags, p));
}

/// Requirements are resolved transitively: what a selected task requires is
/// selected too.
pub proof fn law_requirements_transitive(
    es: Seq<(Seq<char>, TaskView)>,
    groups: GroupSelection,
    tags: TagSelection,
    a: Seq<char>,
    b: Seq<char>,
)
    requires
        selected_with_requirements(es, groups, tags, a),
        requirement_step(es, groups, a, b),
    ensures
        selected_with_requirements(es, groups, tags, b),
{
    let p = choose|p: Seq<Seq<char>>| #[trigger] requirement_chain(es, groups, tags, p) && p.last() == a;
    let p2 = p.push(b);
    assert forall|k: int| 0 <= k < p2.len() - 1 implies requirement_step(es, groups, #[trigger] p2[k], p2[k + 1]) by {
        if k < p.len() - 1 {
            assert(p2[k] == p[k] && p2[k + 1] == p[k + 1]);
        } else {
            assert(p2[k] == a && p2[k + 1] == b);
        }
    }
    assert(p2[0] == p[0]);
    assert(requirement_chain(es, groups, tags, p2));
    assert(p2.last() == b);
}

/// Tag selection is a union: a task meant for the selected groups that carries
/// any one of the listed tags is selected, whatever other tags are listed or
/// carried.
pub proof fn law_any_listed_tag_selects(t: TaskView, groups: GroupSelection, v: Vec<String>, x: Seq<char>)
    requires
        t.tags.contains(x),
        name_set(v@).contains(x),
        match groups {
            GroupSelection::All => true,
            GroupSelection::Listed(w) => t.groups == Set::<Seq<char>>::empty() || exists|y: Seq<char>|
                t.groups.contains(y) && name_set(w@).contains(y),
        },
    ensures
        selected_directly(t, groups, TagSelection::Listed(v)),
{
}

/// A task that is not important and carries none of the listed tags is not
/// selected directly.
pub proof fn law_unlisted_tags_not_selected(t: TaskView, groups: GroupSelection, v: Vec<String>)
    requires
        !t.important,
        forall|x: Seq<char>| t.tags.contains(x) ==> !name_set(v@).contains(x),
    ensures
        !selected_directly(t, groups, TagSelection::Listed(v)),
{
}

/// With groups listed, a task that names a listed group, or names no group at
/// all, is meant for the selection; a task that names groups, none of them
/// listed, is not.
pub proof fn law_listed_groups_decide(t: TaskView, v: Vec<String>)
    ensures
        (exists|y: Seq<char>| t.groups.contains(y) && name_set(v@).contains(y)) ==> matches_groups(
            t,
            GroupSelection::Listed(v),
        ),
        t.groups == Set::<Seq<char>>::empty() ==> matches_groups(t, GroupSelection::Listed(v)),
        (t.groups != Set::<Seq<char>>::empty() && forall|y: Seq<char>|
            t.groups.contains(y) ==> !name_set(v@).contains(y)) ==> !matches_groups(t, GroupSelection::Listed(v)),
{
    if t.groups == Set::<Seq<char>>::empty() {
        assert(t.groups =~= Set::<Seq<char>>::empty());
    }
    if t.groups != Set::<Seq<char>>::empty() {
        if t.groups =~= Set::<Seq<char>>::empty() {
            assert(t.groups == Set::<Seq<char>>::empty());
        }
    }
}

/// Every task kept with its requirements is meant for the selected groups:
/// requirements never bring in a task for a group that is not selected.
pub proof fn law_required_tasks_meant_for_selected_groups(
    es: Seq<(Seq<char>, TaskView)>,
    groups: GroupSelection,
    tags: TagSelection,
    b: Seq<char>,
)
    requires
        selected_with_requirements(es, groups, tags, b),
    ensures
        exists|j: int|
            0 <= j < es.len() && (#[trigger] es[j]).0 == b && match groups {
                GroupSelection::All => true,
                GroupSelection::Listed(w) => es[j].1.groups =~= Set::<Seq<char>>::empty() || exists|y: Seq<char>|
                    es[j].1.groups.contains(y) && name_set(w@).contains(y),
            },
{
    let p = choose|p: Seq<Seq<char>>| #[trigger] requirement_chain(es, groups, tags, p) && p.last() == b;
    if p.len() == 1 {
        assert(key_selected_directly(es, groups, tags, p[0]));
        let j = choose|j: int| 0 <= j < es.len() && (#[trigger] es[j]).0 == p[0] && selected_directly(es[j].1, groups, tags);
        assert(es[j].0 == b);
    } else {
        let k = p.len() - 2;
        assert(requirement_step(es, groups, p[k], p[k + 1]));
        assert(p[k + 1] == b);
        let t = entry_named(es, p[k]).unwrap();
        let j = choose|j: int|
            0 <= j < es.len() && (#[trigger] es[j]).0 == b && matches_groups(es[j].1, groups)
                && meets(t.required_tags, es[j].1.tags);
        assert(es[j].0 == b);
    }
}

/// Requirements are resolved by tag: when a selected task requires a tag, every
/// task meant for the selected groups that carries it is selected too.
pub proof fn law_required_tag_pulls_in(
    es: Seq<(Seq<char>, TaskView)>,
    groups: GroupSelection,
    tags: TagSelection,
    i: int,
    j: int,
    x: Seq<char>,
)
    requires
        is_first_entry(es, es[i].0, i),
        selected_with_requirements(es, groups, tags, es[i].0),
        0 <= j < es.len(),
        es[i].1.required_tags.contains(x),
        es[j].1.tags.contains(x),
        match groups {
            GroupSelection::All => true,
            GroupSelection::Listed(w) => es[j].1.groups =~= Set::<Seq<char>>::empty() || exists|y: Seq<char>|
                es[j].1.groups.contains(y) && name_set(w@).contains(y),
        },
    ensures
        selected_with_requirements(es, groups, tags, es[j].0),
{
    lemma_first_entry_unique(es, es[i].0, i);
    assert(matches_groups(es[j].1, groups));
    assert(meets(es[i].1.required_tags, es[j].1.tags));
    assert(requirement_step(es, groups, es[i].0, es[j].0));
    law_requirements_transitive(es, groups, tags, es[i].0, es[j].0);
}

/// A system is run on when it belongs to any one of the listed groups (and all
/// systems are selected by name), not only to the first of them.
pub proof fn law_member_of_any_listed_group_selected(
    name: Seq<char>,
    groups: Seq<TargetGroupView>,
    v: Vec<String>,
    k: int,
)
    requires
        0 <= k < groups.len(),
        name_set(v@).contains(groups[k].name),
        groups[k].members.contains(name),
    ensures
        system_is_selected(name, groups, SystemSelection::All, GroupSelection::Listed(v)),
{
    let sel = GroupSelection::Listed(v);
    let pred = |g: TargetGroupView| sel.selects(g.name);
    assert(pred(groups[k]));
    groups.lemma_filter_contains(pred, k);
    let filtered = selected_groups(groups, sel);
    assert(filtered == groups.filter(pred));
    assert(filtered.contains(groups[k]));
    let q = choose|q: int| 0 <= q < filtered.len() && filtered[q] == groups[k];
    assert(filtered[q].members.contains(name));
}

/// With groups listed and at least one of them defined, a system is run on
/// only when it belongs to one of the listed groups.
pub proof fn law_selected_system_in_listed_group(
    name: Seq<char>,
    groups: Seq<TargetGroupView>,
    systems: SystemSelection,
    v: Vec<String>,
    k0: int,
)
    requires
        0 <= k0 < groups.len(),
        name_set(v@).contains(groups[k0].name),
        system_is_selected(name, groups, systems, GroupSelection::Listed(v)),
    ensures
        exists|k: int|
            0 <= k < groups.len() && name_set(v@).contains((#[trigger] groups[k]).name) && groups[k].members.contains(name),
{
    let sel = GroupSelection::Listed(v);
    let pred = |g: TargetGroupView| sel.selects(g.name);
    assert(pred(groups[k0]));
    groups.lemma_filter_contains(pred, k0);
    let filtered = selected_groups(groups, sel);
    assert(filtered == groups.filter(pred));
    assert(filtered.len() > 0);
    let q = choose|q: int| 0 <= q < filtered.len() && (#[trigger] filtered[q]).members.contains(name);
    groups.lemma_filter_pred(pred, q);
    groups.lemma_filter_contains_rev(pred, filtered[q]);
    let k = choose|k: int| 0 <= k < groups.len() && groups[k] == filtered[q];
    assert(groups[k].members.contains(name));
}

/// With all groups and all systems selected, every system is run on, whether
/// or not it belongs to a group.
pub proof fn law_all_selected_keeps_every_system(name: Seq<char>, groups: Seq<TargetGroupView>)
    ensures
        system_is_selected(name, groups, SystemSelection::All, GroupSelection::All),
{
}

} // verus!
