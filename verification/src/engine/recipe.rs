//! A recipe: the tasks with dependencies, ordered so that every task comes
//! after the tasks it depends on.

use vstd::prelude::*;

use crate::engine::tasks::{DefinedTaskView, Task};
use crate::names::{contains_name, lemma_name_set_push, name_seq, name_set};
use crate::registry::views;

verus! {

/// Tasks in an order that respects their dependencies.
#[derive(Debug)]
pub struct Recipe {
    pub tasks: Vec<Task>,
}

/// Ordering tasks failed.
#[derive(Debug)]
pub enum RecipeCreationError {
    /// The named task lies on a cycle of dependencies.
    CyclicDependency(String),
}

/// Some task of `ts` is named `n`.
pub open spec fn is_task_name(ts: Seq<DefinedTaskView>, n: Seq<char>) -> bool {
    exists|i: int| 0 <= i < ts.len() && (#[trigger] ts[i]).name == n
}

/// No two tasks of `ts` share a name.
pub open spec fn unique_task_names(ts: Seq<DefinedTaskView>) -> bool {
    forall|i: int, j: int|
        0 <= i < ts.len() && 0 <= j < ts.len() && i != j ==> (#[trigger] ts[i]).name != (#[trigger] ts[j]).name
}

/// `i` is the last position of a task named `n`.
pub open spec fn is_last_named(ts: Seq<DefinedTaskView>, n: Seq<char>, i: int) -> bool {
    &&& 0 <= i < ts.len()
    &&& ts[i].name == n
    &&& forall|j: int| i < j < ts.len() ==> (#[trigger] ts[j]).name != n
}

/// The task that a name stands for: the last task of that name.
pub open spec fn task_named(ts: Seq<DefinedTaskView>, n: Seq<char>) -> DefinedTaskView {
    ts[choose|i: int| is_last_named(ts, n, i)]
}

/// The task named `a` depends on the task named `b`.
pub open spec fn depends_on(ts: Seq<DefinedTaskView>, a: Seq<char>, b: Seq<char>) -> bool {
    &&& is_task_name(ts, a)
    &&& is_task_name(ts, b)
    &&& task_named(ts, a).dependencies.contains(b)
}

/// A path of dependencies: each task depends on the next.
pub open spec fn dependency_path(ts: Seq<DefinedTaskView>, p: Seq<Seq<char>>) -> bool {
    forall|k: int| 0 <= k < p.len() - 1 ==> depends_on(ts, #[trigger] p[k], p[k + 1])
}

/// The task named `n` depends, through one or more steps, on itself.
pub open spec fn on_dependency_cycle(ts: Seq<DefinedTaskView>, n: Seq<char>) -> bool {
    exists|p: Seq<Seq<char>>|
        #![trigger dependency_path(ts, p)]
        p.len() >= 2 && p[0] == n && p.last() == n && dependency_path(ts, p)
}

/// Some task depends, through one or more steps, on itself.
pub open spec fn has_dependency_cycle(ts: Seq<DefinedTaskView>) -> bool {
    exists|n: Seq<char>| #[trigger] on_dependency_cycle(ts, n)
}

/// The names of a sequence of tasks.
pub open spec fn task_names(ts: Seq<DefinedTaskView>) -> Seq<Seq<char>> {
    ts.map_values(|t: DefinedTaskView| t.name)
}

/// Every dependency of a task of `r` that names a task of `ts` names a task
/// placed earlier in `r`.
pub open spec fn dependencies_first(ts: Seq<DefinedTaskView>, r: Seq<DefinedTaskView>) -> bool {
    forall|p: int, d: Seq<char>|
        0 <= p < r.len() && #[trigger] r[p].dependencies.contains(d) && is_task_name(ts, d)
            ==> exists|q: int| 0 <= q < p && (#[trigger] r[q]).name == d
}

/// `r` orders the tasks of `ts`: it holds tasks of `ts`, one per name of `ts`,
/// each after the tasks it depends on.
pub open spec fn orders_tasks(ts: Seq<DefinedTaskView>, r: Seq<DefinedTaskView>) -> bool {
    &&& forall|p: int| 0 <= p < r.len() ==> ts.contains(#[trigger] r[p])
    &&& task_names(r).no_duplicates()
    &&& forall|n: Seq<char>| is_task_name(ts, n) ==> #[trigger] task_names(r).contains(n)
    &&& dependencies_first(ts, r)
}

/// The task named `a` reaches the name `n` through zero or more dependencies.
pub open spec fn reaches(ts: Seq<DefinedTaskView>, a: Seq<char>, n: Seq<char>) -> bool {
    exists|p: Seq<Seq<char>>|
        #![trigger dependency_path(ts, p)]
        p.len() >= 1 && p[0] == a && p.last() == n && dependency_path(ts, p)
}

/// The names that the task named `a` reaches, itself included.
pub open spec fn reached_from(ts: Seq<DefinedTaskView>, a: Seq<char>) -> Set<Seq<char>> {
    Set::new(|n: Seq<char>| reaches(ts, a, n))
}

/// The names that the first `i` tasks reach, themselves included.
pub open spec fn reached_by_first(ts: Seq<DefinedTaskView>, i: int) -> Set<Seq<char>> {
    Set::new(|n: Seq<char>| exists|j: int| 0 <= j < i && #[trigger] reaches(ts, ts[j].name, n))
}

/// What the first `i` tasks of `ts` reach is exactly the names of a prefix
/// of `r`.
pub open spec fn prefix_reached(ts: Seq<DefinedTaskView>, r: Seq<DefinedTaskView>, i: int) -> bool {
    let k = reached_by_first(ts, i).len() as int;
    &&& k <= r.len()
    &&& task_names(r.subrange(0, k)).to_set() == reached_by_first(ts, i)
}

/// Every dependency of a name in `s` that names a task is in `s`.
pub open spec fn closed_under_dependencies(ts: Seq<DefinedTaskView>, s: Set<Seq<char>>) -> bool {
    forall|a: Seq<char>, b: Seq<char>| s.contains(a) && #[trigger] depends_on(ts, a, b) ==> s.contains(b)
}

/// A name reaches itself.
pub proof fn lemma_reaches_itself(ts: Seq<DefinedTaskView>, a: Seq<char>)
    ensures
        reaches(ts, a, a),
{
    let p = seq![a];
    assert(dependency_path(ts, p));
}

/// A task reaches what the tasks it depends on reach.
pub proof fn lemma_reaches_through(ts: Seq<DefinedTaskView>, a: Seq<char>, b: Seq<char>, n: Seq<char>)
    requires
        depends_on(ts, a, b),
        reaches(ts, b, n),
    ensures
        reaches(ts, a, n),
{
    let p = choose|p: Seq<Seq<char>>|
        #![trigger dependency_path(ts, p)]
        p.len() >= 1 && p[0] == b && p.last() == n && dependency_path(ts, p);
    let q = seq![a] + p;
    assert forall|k: int| 0 <= k < q.len() - 1 implies depends_on(ts, #[trigger] q[k], q[k + 1]) by {
        if k == 0 {
            assert(q[1] == p[0]);
        } else {
            assert(q[k] == p[k - 1] && q[k + 1] == p[k]);
            assert(depends_on(ts, p[k - 1], p[k]));
        }
    }
    assert(dependency_path(ts, q));
    assert(q.last() == p.last());
}

/// A set closed under dependencies holds everything its names reach.
pub proof fn lemma_closed_holds_reached(ts: Seq<DefinedTaskView>, s: Set<Seq<char>>, a: Seq<char>, n: Seq<char>)
    requires
        closed_under_dependencies(ts, s),
        s.contains(a),
        reaches(ts, a, n),
    ensures
        s.contains(n),
{
    let p = choose|p: Seq<Seq<char>>|
        #![trigger dependency_path(ts, p)]
        p.len() >= 1 && p[0] == a && p.last() == n && dependency_path(ts, p);
    lemma_closed_holds_path(ts, s, p, p.len() - 1);
}

/// A set closed under dependencies that holds the start of a path holds each
/// of its names.
proof fn lemma_closed_holds_path(ts: Seq<DefinedTaskView>, s: Set<Seq<char>>, p: Seq<Seq<char>>, k: int)
    requires
        closed_under_dependencies(ts, s),
        0 <= k < p.len(),
        s.contains(p[0]),
        dependency_path(ts, p),
    ensures
        s.contains(p[k]),
    decreases k,
{
    if k > 0 {
        lemma_closed_holds_path(ts, s, p, k - 1);
        assert(depends_on(ts, p[k - 1], p[k]));
    }
}

/// With distinct names, the names placed by an ordering state are closed under
/// dependencies.
pub proof fn lemma_placed_closed(ts: Seq<DefinedTaskView>, r: Seq<DefinedTaskView>)
    requires
        unique_task_names(ts),
        forall|p: int| 0 <= p < r.len() ==> ts.contains(#[trigger] r[p]),
        dependencies_first(ts, r),
    ensures
        closed_under_dependencies(ts, task_names(r).to_set()),
{
    assert forall|a: Seq<char>, b: Seq<char>| task_names(r).to_set().contains(a) && #[trigger] depends_on(ts, a, b)
        implies task_names(r).to_set().contains(b) by {
        let p = choose|p: int| 0 <= p < task_names(r).len() && task_names(r)[p] == a;
        assert(ts.contains(r[p]));
        let i = choose|i: int| 0 <= i < ts.len() && ts[i] == r[p];
        lemma_task_named_unique(ts, i);
        assert(r[p].dependencies.contains(b));
        let q = choose|q: int| 0 <= q < p && (#[trigger] r[q]).name == b;
        assert(task_names(r)[q] == b);
    }
}

/// The number of tasks whose name is outside `s`.
pub open spec fn unvisited_count(ts: Seq<DefinedTaskView>, s: Set<Seq<char>>) -> nat
    decreases ts.len(),
{
    if ts.len() == 0 {
        0
    } else {
        unvisited_count(ts.drop_last(), s) + if s.contains(ts.last().name) {
            0nat
        } else {
            1nat
        }
    }
}

/// Taking in the name of a task lowers the count; growing the set never raises it.
pub proof fn lemma_unvisited_count(ts: Seq<DefinedTaskView>, s: Set<Seq<char>>, s2: Set<Seq<char>>)
    requires
        s.subset_of(s2),
    ensures
        unvisited_count(ts, s2) <= unvisited_count(ts, s),
        (exists|j: int| 0 <= j < ts.len() && s2.contains((#[trigger] ts[j]).name) && !s.contains(ts[j].name))
            ==> unvisited_count(ts, s2) < unvisited_count(ts, s),
    decreases ts.len(),
{
    if ts.len() > 0 {
        lemma_unvisited_count(ts.drop_last(), s, s2);
        if exists|j: int| 0 <= j < ts.len() && s2.contains((#[trigger] ts[j]).name) && !s.contains(ts[j].name) {
            let j = choose|j: int| 0 <= j < ts.len() && s2.contains((#[trigger] ts[j]).name) && !s.contains(ts[j].name);
            if j < ts.len() - 1 {
                assert(ts.drop_last()[j] == ts[j]);
            }
        }
    }
}

/// With distinct names, a task is the task its name stands for.
pub proof fn lemma_task_named_unique(ts: Seq<DefinedTaskView>, i: int)
    requires
        unique_task_names(ts),
        0 <= i < ts.len(),
    ensures
        task_named(ts, ts[i].name) == ts[i],
{
    assert(is_last_named(ts, ts[i].name, i));
    let c = choose|c: int| is_last_named(ts, ts[i].name, c);
    if c != i {
        assert(ts[c].name == ts[i].name);
    }
}

/// An order of all tasks with dependencies first leaves no room for a cycle.
pub proof fn lemma_order_excludes_cycle(ts: Seq<DefinedTaskView>, r: Seq<DefinedTaskView>, n: Seq<char>)
    requires
        unique_task_names(ts),
        orders_tasks(ts, r),
    ensures
        !on_dependency_cycle(ts, n),
{
    if on_dependency_cycle(ts, n) {
        let p = choose|p: Seq<Seq<char>>|
            #![trigger dependency_path(ts, p)]
            p.len() >= 2 && p[0] == n && p.last() == n && dependency_path(ts, p);
        // the position in `r` of each name on the path decreases along the path
        assert forall|k: int| 0 <= k < p.len() implies is_task_name(ts, #[trigger] p[k]) by {
            if k < p.len() - 1 {
                assert(depends_on(ts, p[k], p[k + 1]));
            } else {
                assert(depends_on(ts, p[k - 1], p[k]));
            }
        }
        let pos = |name: Seq<char>| choose|q: int| 0 <= q < r.len() && r[q].name == name;
        assert forall|k: int| 0 <= k < p.len() implies 0 <= #[trigger] pos(p[k]) < r.len() && r[pos(p[k])].name == p[k] by {
            assert(task_names(r).contains(p[k]));
            let q = choose|q: int| 0 <= q < task_names(r).len() && task_names(r)[q] == p[k];
            assert(r[q].name == p[k]);
        }
        assert forall|k: int| 0 <= k < p.len() - 1 implies #[trigger] pos(p[k + 1]) < pos(p[k]) by {
            let a = p[k];
            let b = p[k + 1];
            assert(depends_on(ts, a, b));
            let pa = pos(a);
            assert(ts.contains(r[pa]));
            let i = choose|i: int| 0 <= i < ts.len() && ts[i] == r[pa];
            lemma_task_named_unique(ts, i);
            assert(r[pa].dependencies.contains(b));
            let q = choose|q: int| 0 <= q < pa && (#[trigger] r[q]).name == b;
            let pb = pos(b);
            if pb != q {
                assert(task_names(r)[pb] == task_names(r)[q]);
            }
        }
        let m = p.len() - 1;
        assert forall|k: int| 0 <= k <= m implies #[trigger] pos(p[k]) <= pos(p[0]) - k by {
            lemma_path_positions(p, pos, k);
        }
        assert(pos(p[m]) <= pos(p[0]) - m);
        assert(p[m] == p[0]);
    }
}

/// Positions that decrease at each step decrease by at least the number of steps.
pub proof fn lemma_path_positions(p: Seq<Seq<char>>, pos: spec_fn(Seq<char>) -> int, k: int)
    requires
        0 <= k < p.len(),
        forall|j: int| 0 <= j < p.len() - 1 ==> #[trigger] pos(p[j + 1]) < pos(p[j]),
    ensures
        pos(p[k]) <= pos(p[0]) - k,
    decreases k,
{
    if k > 0 {
        lemma_path_positions(p, pos, k - 1);
        let j = k - 1;
        assert(pos(p[j + 1]) < pos(p[j]));
    }
}

/// The state kept while ordering: the names visited, the stack of names being
/// visited and the tasks ordered so far.
pub open spec fn visit_state(
    ts: Seq<DefinedTaskView>,
    visited: Seq<String>,
    temp: Seq<String>,
    result: Seq<DefinedTaskView>,
) -> bool {
    &&& forall|p: int| 0 <= p < result.len() ==> ts.contains(#[trigger] result[p])
    &&& task_names(result).no_duplicates()
    &&& name_set(visited) == task_names(result).to_set()
    &&& dependencies_first(ts, result)
    &&& forall|n: Seq<char>| #[trigger] name_set(temp).contains(n) ==> !name_set(visited).contains(n) && is_task_name(ts, n)
    &&& unique_task_names(ts) ==> dependency_path(ts, name_seq(temp))
}

/// Visits `task` and, first, the tasks it depends on.
fn visit(
    tasks: &Vec<Task>,
    task: &Task,
    visited: &mut Vec<String>,
    temp: &mut Vec<String>,
    result: &mut Vec<Task>,
    Ghost(bound): Ghost<nat>,
) -> (r: Result<(), RecipeCreationError>)
    requires
        views(tasks@).contains(task@),
        visit_state(views(tasks@), old(visited)@, old(temp)@, views(old(result)@)),
        unique_task_names(views(tasks@)) && old(temp)@.len() > 0 ==> depends_on(
            views(tasks@),
            old(temp)@.last()@,
            task@.name,
        ),
        unique_task_names(views(tasks@)) && old(temp)@.len() > 0 ==> task@ == task_named(views(tasks@), task@.name),
        unvisited_count(views(tasks@), name_set(old(visited)@).union(name_set(old(temp)@))) <= bound,
    ensures
        match r {
            Ok(()) => {
                &&& visit_state(views(tasks@), final(visited)@, final(temp)@, views(final(result)@))
                &&& final(temp)@ == old(temp)@
                &&& name_set(old(visited)@).subset_of(name_set(final(visited)@))
                &&& name_set(final(visited)@).contains(task@.name)
                &&& views(old(result)@).len() <= views(final(result)@).len()
                &&& views(final(result)@).subrange(0, views(old(result)@).len() as int) == views(old(result)@)
                &&& unique_task_names(views(tasks@)) ==> name_set(final(visited)@).subset_of(
                    name_set(old(visited)@).union(reached_from(views(tasks@), task@.name)),
                )
            },
            Err(RecipeCreationError::CyclicDependency(n)) => {
                &&& is_task_name(views(tasks@), n@)
                &&& unique_task_names(views(tasks@)) ==> on_dependency_cycle(views(tasks@), n@)
            },
        },
    decreases bound,
{
    let ghost ts = views(tasks@);
    if contains_name(temp, &task.name) {
        proof {
            let tn = name_seq(temp@);
            let k = choose|k: int| 0 <= k < tn.len() && tn[k] == task@.name;
            assert(is_task_name(ts, task@.name)) by {
                assert(name_set(temp@).contains(task@.name));
            }
            if unique_task_names(ts) {
                let p = tn.subrange(k, tn.len() as int).push(task@.name);
                assert(tn.last() == temp@.last()@);
                assert forall|j: int| 0 <= j < p.len() - 1 implies depends_on(ts, #[trigger] p[j], p[j + 1]) by {
                    if j < p.len() - 2 {
                        assert(p[j] == tn[k + j] && p[j + 1] == tn[k + j + 1]);
                        assert(depends_on(ts, tn[k + j], tn[k + j + 1]));
                    } else {
                        assert(p[j] == tn.last() && p[j + 1] == task@.name);
                    }
                }
                assert(dependency_path(ts, p));
                assert(p[0] == task@.name);
                assert(on_dependency_cycle(ts, task@.name));
            }
        }
        return Err(RecipeCreationError::CyclicDependency(task.name.clone()));
    }
    if contains_name(visited, &task.name) {
        return Ok(());
    }
    let ghost visited0 = visited@;
    let ghost temp0 = temp@;
    let ghost result0 = views(result@);
    proof {
        lemma_name_set_push(temp@, task.name);
        let i = choose|i: int| 0 <= i < ts.len() && ts[i] == task@;
        assert(is_task_name(ts, task@.name));
    }
    temp.push(task.name.clone());
    proof {
        assert(name_seq(temp@) =~= name_seq(temp0).push(task@.name));
        if unique_task_names(ts) {
            let tn = name_seq(temp@);
            assert forall|j: int| 0 <= j < tn.len() - 1 implies depends_on(ts, #[trigger] tn[j], tn[j + 1]) by {
                if j < tn.len() - 2 {
                    assert(tn[j] == name_seq(temp0)[j] && tn[j + 1] == name_seq(temp0)[j + 1]);
                } else {
                    assert(tn[j] == temp0.last()@ && tn[j + 1] == task@.name);
                }
            }
        }
        let i = choose|i: int| 0 <= i < ts.len() && ts[i] == task@;
        assert(name_set(visited@).union(name_set(temp@)).contains(ts[i].name));
        lemma_unvisited_count(ts, name_set(visited0).union(name_set(temp0)), name_set(visited@).union(name_set(temp@)));
        if unique_task_names(ts) {
            lemma_task_named_unique(ts, i);
        }
    }
    let mut k: usize = 0;
    while k < task.dependencies.len()
        invariant
            ts == views(tasks@),
            ts.contains(task@),
            k <= task.dependencies.len(),
            visit_state(ts, visited@, temp@, views(result@)),
            temp@ == temp0.push(task.name),
            name_set(visited0).subset_of(name_set(visited@)),
            !name_set(visited@).contains(task@.name),
            unique_task_names(ts) ==> task@ == task_named(ts, task@.name),
            unvisited_count(ts, name_set(visited@).union(name_set(temp@))) < bound,
            forall|q: int| 0 <= q < k && is_task_name(ts, #[trigger] task@.dependencies[q]) ==> name_set(visited@).contains(task@.dependencies[q]),
            result0.len() <= views(result@).len(),
            views(result@).subrange(0, result0.len() as int) == result0,
            unique_task_names(ts) ==> name_set(visited@).subset_of(
                name_set(visited0).union(reached_from(ts, task@.name)),
            ),
        decreases task.dependencies.len() - k,
    {
        let dep = &task.dependencies[k];
        assert(task@.dependencies[k as int] == dep@);
        let mut last: Option<usize> = None;
        let mut j: usize = tasks.len();
        while j > 0
            invariant
                j <= tasks.len(),
                ts == views(tasks@),
                match last {
                    Some(i) => is_last_named(ts, dep@, i as int),
                    None => forall|q: int| j <= q < ts.len() ==> (#[trigger] ts[q]).name != dep@,
                },
            decreases j,
        {
            if last.is_none() {
                j = j - 1;
                assert(ts[j as int].name == tasks@[j as int].name@);
                if tasks[j].name == *dep {
                    last = Some(j);
                }
            } else {
                j = 0;
            }
        }
        if let Some(di) = last {
            let dep_task = &tasks[di];
            let ghost visited1 = visited@;
            let ghost result1 = views(result@);
            proof {
                assert(ts[di as int] == dep_task@);
                assert(ts.contains(dep_task@));
                assert(dep_task@ == task_named(ts, dep@));
                if unique_task_names(ts) {
                    assert(is_task_name(ts, dep@));
                    assert(is_task_name(ts, task@.name));
                    assert(task@.dependencies.contains(dep@));
                    assert(temp@.last()@ == task@.name);
                    lemma_task_named_unique(ts, di as int);
                }
            }
            let res = visit(tasks, dep_task, visited, temp, result, Ghost((bound - 1) as nat));
            match res {
                Ok(()) => {},
                Err(e) => {
                    return Err(e);
                },
            }
            proof {
                lemma_unvisited_count(ts, name_set(visited1).union(name_set(temp@)), name_set(visited@).union(name_set(temp@)));
                lemma_name_set_push(temp0, task.name);
                assert(name_set(temp@).contains(task@.name));
                assert(views(result@).subrange(0, result0.len() as int) =~= result0) by {
                    assert forall|q: int| 0 <= q < result0.len() implies views(result@)[q] == result0[q] by {
                        assert(views(result@).subrange(0, result1.len() as int)[q] == result1[q]);
                        assert(result1.subrange(0, result0.len() as int)[q] == result0[q]);
                    }
                }
                if unique_task_names(ts) {
                    assert(depends_on(ts, task@.name, dep@));
                    assert forall|n: Seq<char>| name_set(visited@).contains(n) implies
                        #[trigger] name_set(visited0).union(reached_from(ts, task@.name)).contains(n) by {
                        if !name_set(visited1).contains(n) {
                            assert(reached_from(ts, dep@).contains(n));
                            lemma_reaches_through(ts, task@.name, dep@, n);
                        }
                    }
                }
            }
        } else {
            proof {
                assert(!is_task_name(ts, dep@)) by {
                    if is_task_name(ts, dep@) {
                        let q = choose|q: int| 0 <= q < ts.len() && (#[trigger] ts[q]).name == dep@;
                    }
                }
            }
        }
        k = k + 1;
    }
    let ghost result2 = views(result@);
    let ghost visited2 = visited@;
    let popped = temp.pop();
    assert(temp@ =~= temp0);
    let own = task.name.clone();
    proof {
        lemma_name_set_push(visited@, own);
    }
    visited.push(own);
    result.push(task.duplicate());
    proof {
        let r = views(result@);
        assert(r =~= result2.push(task@));
        assert(r.subrange(0, result0.len() as int) =~= result0) by {
            assert forall|q: int| 0 <= q < result0.len() implies r[q] == result0[q] by {
                assert(result2.subrange(0, result0.len() as int)[q] == result0[q]);
            }
        }
        if unique_task_names(ts) {
            lemma_reaches_itself(ts, task@.name);
            assert forall|n: Seq<char>| name_set(visited@).contains(n) implies
                #[trigger] name_set(visited0).union(reached_from(ts, task@.name)).contains(n) by {
                if n != task@.name {
                    assert(name_set(visited2).contains(n));
                }
            }
        }
        assert(task_names(r) =~= task_names(result2).push(task@.name));
        assert(!task_names(result2).contains(task@.name)) by {
            if task_names(result2).contains(task@.name) {
                assert(task_names(result2).to_set().contains(task@.name));
            }
        }
        assert(task_names(r).no_duplicates()) by {
            assert forall|a: int, b: int| 0 <= a < b < task_names(r).len() implies task_names(r)[a] != task_names(r)[b] by {
                if b == task_names(r).len() - 1 {
                    assert(task_names(result2)[a] == task_names(r)[a]);
                } else {
                    assert(task_names(result2)[a] == task_names(r)[a]);
                    assert(task_names(result2)[b] == task_names(r)[b]);
                }
            }
        }
        assert(name_set(visited@) =~= task_names(r).to_set()) by {
            assert forall|x: Seq<char>| name_set(visited@).contains(x) <==> #[trigger] task_names(r).to_set().contains(x) by {
                if task_names(r).contains(x) {
                    let q = choose|q: int| 0 <= q < task_names(r).len() && task_names(r)[q] == x;
                    if q < task_names(result2).len() {
                        assert(task_names(result2)[q] == x);
                        assert(task_names(result2).to_set().contains(x));
                    }
                }
                if task_names(result2).contains(x) {
                    let q = choose|q: int| 0 <= q < task_names(result2).len() && task_names(result2)[q] == x;
                    assert(task_names(r)[q] == x);
                }
                if x == task@.name {
                    assert(task_names(r)[task_names(r).len() - 1] == x);
                }
            }
        }
        assert forall|p: int| 0 <= p < r.len() implies ts.contains(#[trigger] r[p]) by {
            if p < result2.len() {
                assert(r[p] == result2[p]);
            }
        }
        assert forall|p: int, d: Seq<char>|
            0 <= p < r.len() && #[trigger] r[p].dependencies.contains(d) && is_task_name(ts, d)
                implies exists|q: int| 0 <= q < p && (#[trigger] r[q]).name == d by {
            if p < result2.len() {
                assert(r[p] == result2[p]);
                let q = choose|q: int| 0 <= q < p && (#[trigger] result2[q]).name == d;
                assert(r[q] == result2[q]);
            } else {
                let qd = choose|qd: int| 0 <= qd < task@.dependencies.len() && task@.dependencies[qd] == d;
                assert(name_set(visited2).contains(d));
                assert(task_names(result2).to_set().contains(d));
                let q = choose|q: int| 0 <= q < task_names(result2).len() && task_names(result2)[q] == d;
                assert(r[q] == result2[q]);
            }
        }
        assert forall|n: Seq<char>| #[trigger] name_set(temp@).contains(n) implies !name_set(visited@).contains(n) && is_task_name(ts, n) by {
            assert(name_set(temp0.push(task.name)).contains(n));
            if n == task@.name {
                assert(name_seq(temp0).contains(n));
                assert(name_set(temp0).contains(n));
            }
        }
        if unique_task_names(ts) {
            assert(dependency_path(ts, name_seq(temp0.push(task.name))));
            assert forall|j: int| 0 <= j < name_seq(temp@).len() - 1 implies depends_on(ts, #[trigger] name_seq(temp@)[j], name_seq(temp@)[j + 1]) by {
                assert(name_seq(temp@)[j] == name_seq(temp0.push(task.name))[j]);
                assert(name_seq(temp@)[j + 1] == name_seq(temp0.push(task.name))[j + 1]);
            }
        }
    }
    Ok(())
}

/// No dependency of a task of `ts` names a task of `ts`.
pub open spec fn independent_tasks(ts: Seq<DefinedTaskView>) -> bool {
    forall|i: int, d: Seq<char>| 0 <= i < ts.len() && #[trigger] ts[i].dependencies.contains(d) ==> !is_task_name(ts, d)
}

/// Among independent tasks a name reaches only itself.
proof fn lemma_independent_reaches(ts: Seq<DefinedTaskView>, a: Seq<char>, n: Seq<char>)
    requires
        independent_tasks(ts),
        reaches(ts, a, n),
    ensures
        n == a,
{
    let p = choose|p: Seq<Seq<char>>|
        #![trigger dependency_path(ts, p)]
        p.len() >= 1 && p[0] == a && p.last() == n && dependency_path(ts, p);
    if p.len() >= 2 {
        assert(depends_on(ts, p[0], p[1]));
        let c = choose|c: int| is_last_named(ts, p[0], c);
        let i = choose|i: int| 0 <= i < ts.len() && (#[trigger] ts[i]).name == p[0];
        if !is_last_named(ts, p[0], c) {
            lemma_last_named_exists(ts, p[0], i);
        }
        assert(ts[c].dependencies.contains(p[1]));
    }
}

/// A name of `ts` has a last position.
proof fn lemma_last_named_exists(ts: Seq<DefinedTaskView>, n: Seq<char>, i: int)
    requires
        0 <= i < ts.len(),
        ts[i].name == n,
    ensures
        exists|c: int| is_last_named(ts, n, c),
    decreases ts.len() - i,
{
    if is_last_named(ts, n, i) {
    } else {
        let j = choose|j: int| i < j < ts.len() && (#[trigger] ts[j]).name == n;
        lemma_last_named_exists(ts, n, j);
    }
}

/// Tasks with distinct names of which none depends on another keep their
/// given order: an order that takes them in their given order (as
/// `Recipe::from_tasks` states) is the tasks themselves.
pub proof fn law_independent_tasks_keep_order(ts: Seq<DefinedTaskView>, r: Seq<DefinedTaskView>)
    requires
        unique_task_names(ts),
        independent_tasks(ts),
        orders_tasks(ts, r),
        forall|i: int| 0 <= i <= ts.len() ==> #[trigger] prefix_reached(ts, r, i),
    ensures
        r == ts,
{
    // what the first `i` tasks reach is their names, `i` of them
    assert forall|i: int| 0 <= i <= ts.len() implies #[trigger] reached_by_first(ts, i) == task_names(ts.subrange(0, i)).to_set()
        && reached_by_first(ts, i).len() == i by {
        assert forall|n: Seq<char>| reached_by_first(ts, i).contains(n) <==> #[trigger] task_names(ts.subrange(0, i)).to_set().contains(n) by {
            if reached_by_first(ts, i).contains(n) {
                let j = choose|j: int| 0 <= j < i && #[trigger] reaches(ts, ts[j].name, n);
                lemma_independent_reaches(ts, ts[j].name, n);
                assert(task_names(ts.subrange(0, i))[j] == n);
            }
            if task_names(ts.subrange(0, i)).to_set().contains(n) {
                let j = choose|j: int| 0 <= j < i && #[trigger] task_names(ts.subrange(0, i))[j] == n;
                assert(ts.subrange(0, i)[j] == ts[j]);
                lemma_reaches_itself(ts, ts[j].name);
                assert(reaches(ts, ts[j].name, n));
            }
        }
        assert(reached_by_first(ts, i) =~= task_names(ts.subrange(0, i)).to_set());
        assert(task_names(ts.subrange(0, i)).no_duplicates()) by {
            assert forall|a: int, b: int| 0 <= a < b < i implies task_names(ts.subrange(0, i))[a] != task_names(ts.subrange(0, i))[b] by {
                assert(task_names(ts.subrange(0, i))[a] == ts[a].name);
                assert(task_names(ts.subrange(0, i))[b] == ts[b].name);
            }
        }
        task_names(ts.subrange(0, i)).unique_seq_to_set();
    }
    let n = ts.len() as int;
    assert(prefix_reached(ts, r, n));
    // each position holds the task of the same position
    assert forall|i: int| 0 <= i < n implies r[i] == ts[i] by {
        assert(prefix_reached(ts, r, i));
        assert(prefix_reached(ts, r, i + 1));
        assert(reached_by_first(ts, i).len() == i);
        assert(reached_by_first(ts, i + 1).len() == i + 1);
        let after = task_names(r.subrange(0, i + 1));
        let before = task_names(r.subrange(0, i));
        assert(after[i] == r[i].name);
        assert(after.to_set().contains(r[i].name));
        assert(task_names(ts.subrange(0, i + 1)).to_set().contains(r[i].name));
        let j = choose|j: int| 0 <= j < i + 1 && #[trigger] task_names(ts.subrange(0, i + 1))[j] == r[i].name;
        assert(task_names(ts.subrange(0, i + 1))[j] == ts[j].name);
        if j < i {
            assert(task_names(ts.subrange(0, i))[j] == ts[j].name);
            assert(task_names(ts.subrange(0, i)).to_set().contains(r[i].name));
            assert(before.to_set().contains(r[i].name));
            let q = choose|q: int| 0 <= q < i && #[trigger] before[q] == r[i].name;
            assert(before[q] == task_names(r)[q]);
            assert(task_names(r)[i] == r[i].name);
        }
        assert(ts.contains(r[i]));
        let c = choose|c: int| 0 <= c < ts.len() && ts[c] == r[i];
    }
    // and there are no more positions
    assert(r.len() <= n) by {
        let names = task_names(r);
        names.unique_seq_to_set();
        assert(names.to_set().subset_of(task_names(ts).to_set())) by {
            assert forall|x: Seq<char>| names.to_set().contains(x) implies #[trigger] task_names(ts).to_set().contains(x) by {
                let q = choose|q: int| 0 <= q < names.len() && #[trigger] names[q] == x;
                assert(ts.contains(r[q]));
                let c = choose|c: int| 0 <= c < ts.len() && ts[c] == r[q];
                assert(task_names(ts)[c] == x);
            }
        }
        assert(task_names(ts) =~= task_names(ts.subrange(0, n)));
        vstd::set_lib::lemma_len_subset(names.to_set(), task_names(ts).to_set());
    }
    assert(r =~= ts);
}

impl Recipe {
    /// Orders `tasks` so that every task comes after the tasks it depends on,
    /// visiting tasks in their given order and each task's dependencies in
    /// theirs. Fails on a cycle of dependencies, naming a task on it.
    ///
    /// With distinct names, the tasks are taken in their given order: for each
    /// count `i`, what the first `i` tasks reach (themselves and, through
    /// dependencies, the tasks they need) is exactly a prefix of the recipe.
    pub fn from_tasks(tasks: &Vec<Task>) -> (r: Result<Recipe, RecipeCreationError>)
        ensures
            match r {
                Ok(recipe) => {
                    &&& orders_tasks(views(tasks@), views(recipe.tasks@))
                    &&& unique_task_names(views(tasks@)) ==> forall|i: int|
                        0 <= i <= tasks.len() ==> #[trigger] prefix_reached(views(tasks@), views(recipe.tasks@), i)
                },
                Err(RecipeCreationError::CyclicDependency(n)) => {
                    &&& is_task_name(views(tasks@), n@)
                    &&& unique_task_names(views(tasks@)) ==> on_dependency_cycle(views(tasks@), n@)
                },
            },
            unique_task_names(views(tasks@)) ==> (r is Ok <==> !has_dependency_cycle(views(tasks@))),
    {
        let ghost ts = views(tasks@);
        let mut ordered_tasks: Vec<Task> = Vec::new();
        let mut visited: Vec<String> = Vec::new();
        let mut temp_visited: Vec<String> = Vec::new();
        proof {
            assert(name_set(visited@) =~= task_names(views(ordered_tasks@)).to_set());
            assert(name_set(temp_visited@) =~= Set::<Seq<char>>::empty());
        }
        let ghost mut marks: Seq<int> = seq![0int];
        proof {
            assert(reached_by_first(ts, 0) =~= Set::<Seq<char>>::empty());
            assert(task_names(views(ordered_tasks@).subrange(0, 0)).to_set() =~= Set::<Seq<char>>::empty());
        }
        let mut i: usize = 0;
        while i < tasks.len()
            invariant
                ts == views(tasks@),
                i <= tasks.len(),
                temp_visited@.len() == 0,
                visit_state(ts, visited@, temp_visited@, views(ordered_tasks@)),
                forall|q: int| 0 <= q < i ==> name_set(visited@).contains(#[trigger] ts[q].name),
                marks.len() == i + 1,
                forall|j: int| 0 <= j <= i ==> 0 <= #[trigger] marks[j] <= ordered_tasks@.len(),
                unique_task_names(ts) ==> name_set(visited@) == reached_by_first(ts, i as int),
                unique_task_names(ts) ==> forall|j: int| 0 <= j <= i ==>
                    task_names(views(ordered_tasks@).subrange(0, #[trigger] marks[j])).to_set() == reached_by_first(ts, j),
            decreases tasks.len() - i,
        {
            let task = &tasks[i];
            assert(ts[i as int] == task@);
            let ghost visited_before = visited@;
            let ghost ordered_before = views(ordered_tasks@);
            if contains_name(&visited, &task.name) {
                proof {
                    if unique_task_names(ts) {
                        lemma_placed_closed(ts, ordered_before);
                        assert forall|n: Seq<char>| #[trigger] reached_by_first(ts, i as int + 1).contains(n)
                            implies name_set(visited@).contains(n) by {
                            let j = choose|j: int| 0 <= j < i + 1 && #[trigger] reaches(ts, ts[j].name, n);
                            if j < i {
                                assert(reached_by_first(ts, i as int).contains(n));
                            } else {
                                lemma_closed_holds_reached(ts, name_set(visited@), task@.name, n);
                            }
                        }
                        assert forall|n: Seq<char>| name_set(visited@).contains(n)
                            implies #[trigger] reached_by_first(ts, i as int + 1).contains(n) by {
                            assert(reached_by_first(ts, i as int).contains(n));
                            let j = choose|j: int| 0 <= j < i && #[trigger] reaches(ts, ts[j].name, n);
                        }
                        assert(name_set(visited@) =~= reached_by_first(ts, i as int + 1));
                    }
                }
            } else {
                proof {
                    assert(ts.contains(task@));
                    assert(name_seq(temp_visited@) =~= Seq::<Seq<char>>::empty());
                    assert(name_set(temp_visited@) =~= Set::<Seq<char>>::empty());
                    assert(name_set(visited@).union(name_set(temp_visited@)) =~= name_set(visited@));
                }
                let ghost bound = unvisited_count(ts, name_set(visited@).union(name_set(temp_visited@)));
                let res = visit(
                    tasks,
                    task,
                    &mut visited,
                    &mut temp_visited,
                    &mut ordered_tasks,
                    Ghost(bound),
                );
                match res {
                    Ok(()) => {},
                    Err(e) => {
                        proof {
                            if unique_task_names(ts) {
                                let RecipeCreationError::CyclicDependency(n) = e;
                                assert(on_dependency_cycle(ts, n@));
                                assert(has_dependency_cycle(ts));
                            }
                        }
                        return Err(e);
                    },
                }
                proof {
                    if unique_task_names(ts) {
                        assert(name_set(temp_visited@) =~= Set::<Seq<char>>::empty());
                        lemma_placed_closed(ts, views(ordered_tasks@));
                        assert forall|n: Seq<char>| #[trigger] reached_by_first(ts, i as int + 1).contains(n)
                            implies name_set(visited@).contains(n) by {
                            let j = choose|j: int| 0 <= j < i + 1 && #[trigger] reaches(ts, ts[j].name, n);
                            if j < i {
                                assert(reached_by_first(ts, i as int).contains(n));
                                assert(name_set(visited_before).contains(n));
                            } else {
                                lemma_closed_holds_reached(ts, name_set(visited@), task@.name, n);
                            }
                        }
                        assert forall|n: Seq<char>| name_set(visited@).contains(n)
                            implies #[trigger] reached_by_first(ts, i as int + 1).contains(n) by {
                            if name_set(visited_before).contains(n) {
                                assert(reached_by_first(ts, i as int).contains(n));
                                let j = choose|j: int| 0 <= j < i && #[trigger] reaches(ts, ts[j].name, n);
                            } else {
                                assert(reached_from(ts, task@.name).contains(n));
                                assert(reaches(ts, ts[i as int].name, n));
                            }
                        }
                        assert(name_set(visited@) =~= reached_by_first(ts, i as int + 1));
                    }
                }
            }
            proof {
                let now = views(ordered_tasks@);
                assert forall|j: int| 0 <= j <= i implies #[trigger] now.subrange(0, marks[j]) =~= ordered_before.subrange(0, marks[j]) by {
                    assert forall|q: int| 0 <= q < marks[j] implies now[q] == ordered_before[q] by {
                        assert(now.subrange(0, ordered_before.len() as int)[q] == ordered_before[q]);
                    }
                }
                marks = marks.push(now.len() as int);
                assert(now.subrange(0, now.len() as int) =~= now);
                if unique_task_names(ts) {
                    assert forall|j: int| 0 <= j <= i + 1 implies
                        task_names(now.subrange(0, #[trigger] marks[j])).to_set() == reached_by_first(ts, j) by {
                        if j <= i {
                            assert(now.subrange(0, marks[j]) == ordered_before.subrange(0, marks[j]));
                        }
                    }
                }
            }
            i = i + 1;
        }
        let recipe = Recipe { tasks: ordered_tasks };
        proof {
            let r = views(recipe.tasks@);
            assert forall|n: Seq<char>| is_task_name(ts, n) implies #[trigger] task_names(r).contains(n) by {
                let q = choose|q: int| 0 <= q < ts.len() && (#[trigger] ts[q]).name == n;
                assert(name_set(visited@).contains(ts[q].name));
                assert(task_names(r).to_set().contains(n));
            }
            if unique_task_names(ts) {
                assert forall|n: Seq<char>| !#[trigger] on_dependency_cycle(ts, n) by {
                    lemma_order_excludes_cycle(ts, r, n);
                }
                assert forall|j: int| 0 <= j <= tasks.len() implies #[trigger] prefix_reached(ts, r, j) by {
                    let k = marks[j];
                    let names = task_names(r.subrange(0, k));
                    assert(names.to_set() == reached_by_first(ts, j));
                    assert(names =~= task_names(r).subrange(0, k));
                    assert(names.no_duplicates()) by {
                        assert forall|a: int, b: int| 0 <= a < b < names.len() implies names[a] != names[b] by {
                            assert(names[a] == task_names(r)[a] && names[b] == task_names(r)[b]);
                        }
                    }
                    names.unique_seq_to_set();
                }
            }
        }
        Ok(recipe)
    }
}

} // verus!
