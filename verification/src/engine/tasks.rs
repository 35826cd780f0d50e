//! Tasks as defined with explicit dependencies on other task names, and the
//! registry that holds them.

use vstd::prelude::*;

use std::cmp::Ordering;

use crate::error::MutexLockError;
use crate::memory::tasks::ScriptRef;
use crate::names::{contains_name, copy_names, name_seq};
use crate::registry::{
    find_index, has_key, lookup, store_entry, stored, unique_keys, views, Keyed,
};

verus! {

/// A task that names the tasks it depends on.
#[derive(Debug)]
pub struct Task {
    pub name: String,
    pub handler: ScriptRef,
    pub dependencies: Vec<String>,
    pub tags: Vec<String>,
    pub result: Option<ScriptRef>,
}

/// Abstract value of a task with dependencies.
pub struct DefinedTaskView {
    pub name: Seq<char>,
    pub handler: ScriptRef,
    pub dependencies: Seq<Seq<char>>,
    pub tags: Seq<Seq<char>>,
    pub result: Option<ScriptRef>,
}

impl View for Task {
    type V = DefinedTaskView;

    open spec fn view(&self) -> DefinedTaskView {
        DefinedTaskView {
            name: self.name@,
            handler: self.handler,
            dependencies: name_seq(self.dependencies@),
            tags: name_seq(self.tags@),
            result: self.result,
        }
    }
}

impl Task {
    /// A copy of the task.
    pub fn duplicate(&self) -> (c: Task)
        ensures
            c@ == self@,
    {
        Task {
            name: self.name.clone(),
            handler: self.handler,
            dependencies: copy_names(&self.dependencies),
            tags: copy_names(&self.tags),
            result: self.result,
        }
    }
}

/// How two tasks are placed relative to each other in execution order.
#[derive(Debug, Clone, Copy, PartialEq, Eq, Structural)]
pub enum RelativeOrder {
    Before,
    Unordered,
    After,
}

/// A task without dependencies runs before one with dependencies. Between two
/// tasks with dependencies, the one the other depends on runs first, unless
/// each depends on the other or neither does.
#[verifier::opaque]
pub open spec fn relative_order(a: DefinedTaskView, b: DefinedTaskView) -> RelativeOrder {
    let a_has = a.dependencies.len() > 0;
    let b_has = b.dependencies.len() > 0;
    if a_has && !b_has {
        RelativeOrder::After
    } else if !a_has && b_has {
        RelativeOrder::Before
    } else if !a_has && !b_has {
        RelativeOrder::Unordered
    } else {
        let b_depends_on_a = b.dependencies.contains(a.name);
        let a_depends_on_b = a.dependencies.contains(b.name);
        if b_depends_on_a == a_depends_on_b {
            RelativeOrder::Unordered
        } else if b_depends_on_a {
            RelativeOrder::Before
        } else {
            RelativeOrder::After
        }
    }
}

/// Swapping the two tasks reverses their relative order.
pub proof fn lemma_relative_order_antisymmetric(a: DefinedTaskView, b: DefinedTaskView)
    ensures
        relative_order(a, b) == RelativeOrder::After <==> relative_order(b, a)
            == RelativeOrder::Before,
{
    reveal(relative_order);
}

/// A task runs before a task that depends on it: when `b` lists `a` among its
/// dependencies and `a` does not list `b`, `a` is ordered before `b`.
pub proof fn law_dependency_ordered_first(a: DefinedTaskView, b: DefinedTaskView)
    requires
        b.dependencies.contains(a.name),
        !a.dependencies.contains(b.name),
    ensures
        relative_order(a, b) == RelativeOrder::Before,
        relative_order(b, a) == RelativeOrder::After,
{
    reveal(relative_order);
}

/// In execution order, no task comes right before a task it depends on (unless
/// each depends on the other).
pub proof fn law_execution_order_puts_dependencies_first(s: Seq<DefinedTaskView>, i: int)
    requires
        in_execution_order(s),
        0 <= i < s.len() - 1,
    ensures
        !(s[i].dependencies.contains(s[i + 1].name) && !s[i + 1].dependencies.contains(s[i].name)),
{
    if s[i].dependencies.contains(s[i + 1].name) && !s[i + 1].dependencies.contains(s[i].name) {
        law_dependency_ordered_first(s[i + 1], s[i]);
        assert(relative_order(s[i], s[i + 1]) != RelativeOrder::After);
    }
}

/// A task without dependencies is ordered before a task with dependencies.
pub proof fn law_independent_task_first(a: DefinedTaskView, b: DefinedTaskView)
    requires
        a.dependencies.len() == 0,
        b.dependencies.len() > 0,
    ensures
        relative_order(a, b) == RelativeOrder::Before,
{
    reveal(relative_order);
}

impl Task {
    /// Whether the task goes before or after the given one, or either way.
    pub fn order_relative_to(&self, other: &Task) -> (o: RelativeOrder)
        ensures
            o == relative_order(self@, other@),
    {
        reveal(relative_order);
        let self_has_dependencies = self.dependencies.len() > 0;
        let other_has_dependencies = other.dependencies.len() > 0;
        if self_has_dependencies && !other_has_dependencies {
            RelativeOrder::After
        } else if !self_has_dependencies && other_has_dependencies {
            RelativeOrder::Before
        } else if !self_has_dependencies && !other_has_dependencies {
            RelativeOrder::Unordered
        } else {
            let other_depends_on_self = contains_name(&other.dependencies, &self.name);
            let self_depends_on_other = contains_name(&self.dependencies, &other.name);
            if other_depends_on_self == self_depends_on_other {
                RelativeOrder::Unordered
            } else if other_depends_on_self {
                RelativeOrder::Before
            } else {
                RelativeOrder::After
            }
        }
    }

    /// The order of the two tasks as a `std::cmp::Ordering`, which is
    /// always defined.
    pub fn partial_cmp(&self, other: &Task) -> (o: Option<Ordering>)
        ensures
            o == Some(match relative_order(self@, other@) {
                RelativeOrder::Before => Ordering::Less,
                RelativeOrder::Unordered => Ordering::Equal,
                RelativeOrder::After => Ordering::Greater,
            }),
    {
        match self.order_relative_to(other) {
            RelativeOrder::Before => Some(Ordering::Less),
            RelativeOrder::Unordered => Some(Ordering::Equal),
            RelativeOrder::After => Some(Ordering::Greater),
        }
    }
}

/// No task of the sequence is placed after the task that follows it.
pub open spec fn in_execution_order(s: Seq<DefinedTaskView>) -> bool {
    forall|i: int| 0 <= i < s.len() - 1 ==> #[trigger] relative_order(s[i], s[i + 1]) != RelativeOrder::After
}

/// Inserting a task right after the last task it may follow, and before the
/// tasks that must follow it, keeps the order valid.
pub proof fn lemma_insert_keeps_execution_order(before: Seq<DefinedTaskView>, j: int, x: DefinedTaskView)
    requires
        0 <= j <= before.len(),
        in_execution_order(before),
        j > 0 ==> relative_order(before[j - 1], x) != RelativeOrder::After,
        j < before.len() ==> relative_order(before[j], x) == RelativeOrder::After,
    ensures
        in_execution_order(before.insert(j, x)),
{
    let s2 = before.insert(j, x);
    assert forall|q: int| 0 <= q < s2.len() - 1 implies #[trigger] relative_order(s2[q], s2[q + 1]) != RelativeOrder::After by {
        if q < j - 1 {
            assert(s2[q] == before[q] && s2[q + 1] == before[q + 1]);
            assert(relative_order(before[q], before[q + 1]) != RelativeOrder::After);
        } else if q == j - 1 {
            assert(s2[q] == before[q] && s2[q + 1] == x);
        } else if q == j {
            assert(s2[q] == x && s2[q + 1] == before[q]);
            lemma_relative_order_antisymmetric(before[q], x);
        } else {
            assert(s2[q] == before[q - 1] && s2[q + 1] == before[q]);
            let k = q - 1;
            assert(relative_order(before[k], before[k + 1]) != RelativeOrder::After);
            assert(before[k + 1] == before[q]);
        }
    }
}

/// Arranges tasks so that no task comes right before one it must follow; the
/// result holds the same tasks.
pub fn sort_for_execution(tasks: Vec<Task>) -> (sorted: Vec<Task>)
    ensures
        views(sorted@).to_multiset() == views(tasks@).to_multiset(),
        in_execution_order(views(sorted@)),
{
    let ghost all = views(tasks@);
    let mut sorted: Vec<Task> = Vec::new();
    assert(views(sorted@) =~= all.subrange(0, 0));
    let mut rest = tasks;
    let n = rest.len();
    let mut i: usize = 0;
    while i < n
        invariant
            n == all.len(),
            rest@.len() == n,
            forall|j: int| 0 <= j < n ==> (#[trigger] rest@[j])@ == all[j],
            i <= n,
            views(sorted@).to_multiset() == all.subrange(0, i as int).to_multiset(),
            in_execution_order(views(sorted@)),
        decreases n - i,
    {
        let x = rest[i].duplicate();
        let mut j: usize = sorted.len();
        while j > 0 && sorted[j - 1].order_relative_to(&x) == RelativeOrder::After
            invariant
                j <= sorted@.len(),
                forall|q: int| j <= q < sorted@.len() ==> relative_order(
                    #[trigger] views(sorted@)[q],
                    x@,
                ) == RelativeOrder::After,
            decreases j,
        {
            j = j - 1;
        }
        let ghost before = views(sorted@);
        let ghost xv = x@;
        sorted.insert(j, x);
        proof {
            assert(views(sorted@) =~= before.insert(j as int, xv));
            assert(all.subrange(0, i as int + 1) =~= all.subrange(0, i as int).push(all[i as int]));
            vstd::seq_lib::to_multiset_insert(before, j as int, xv);
            vstd::seq_lib::to_multiset_build(all.subrange(0, i as int), all[i as int]);
            lemma_insert_keeps_execution_order(before, j as int, xv);
        }
        i = i + 1;
    }
    assert(all.subrange(0, n as int) =~= all);
    sorted
}

/// A task registered under a name.
#[derive(Debug)]
pub struct RegisteredTask {
    pub name: String,
    pub task: Task,
}

/// Abstract value of a registered task.
pub struct RegisteredTaskView {
    pub name: Seq<char>,
    pub task: DefinedTaskView,
}

impl View for RegisteredTask {
    type V = RegisteredTaskView;

    open spec fn view(&self) -> RegisteredTaskView {
        RegisteredTaskView { name: self.name@, task: self.task@ }
    }
}

impl Keyed for RegisteredTask {
    open spec fn key_of(v: RegisteredTaskView) -> Seq<char> {
        v.name
    }

    fn key(&self) -> (k: &String) {
        &self.name
    }

    fn duplicate(&self) -> (c: Self) {
        RegisteredTask { name: self.name.clone(), task: self.task.duplicate() }
    }
}

/// The registry of tasks with dependencies, keyed by the name they were
/// registered under.
#[derive(Debug)]
pub struct Tasks {
    entries: Vec<RegisteredTask>,
}

/// Adding a task failed.
#[derive(Debug)]
pub struct TaskAdditionError {
    pub task: String,
    pub kind: TaskAdditionErrorKind,
}

/// Why adding a task failed.
#[derive(Debug)]
pub enum TaskAdditionErrorKind {
    Lock(MutexLockError),
    UnregisteredDependencies(UnregisteredDependenciesError),
    DuplicateTask(DuplicateTaskError),
}

/// Retrieving a task failed.
#[derive(Debug)]
pub enum TasksAcquisitionError {
    Lock(MutexLockError),
    TaskNotDefined(TaskNotDefinedError),
}

/// No task of this name is registered.
#[derive(Debug)]
pub struct TaskNotDefinedError(pub String);

/// Resetting results failed.
#[derive(Debug)]
pub enum TasksResultResetError {
    Lock(MutexLockError),
}

/// Recording a result failed.
#[derive(Debug)]
pub enum TasksResultSetError {
    Lock(MutexLockError),
    TaskNotDefined(TaskNotDefinedError),
}

/// These dependencies name no registered task.
#[derive(Debug)]
pub struct UnregisteredDependenciesError(pub Vec<String>);

/// A task of this name was already registered.
#[derive(Debug)]
pub struct DuplicateTaskError(pub String);

impl View for Tasks {
    type V = Seq<RegisteredTaskView>;

    closed spec fn view(&self) -> Seq<RegisteredTaskView> {
        views(self.entries@)
    }
}

/// The dependencies of a task that name no task of the registry, in order.
pub open spec fn unregistered(
    registry: Seq<RegisteredTaskView>,
    dependencies: Seq<Seq<char>>,
) -> Seq<Seq<char>> {
    dependencies.filter(|d: Seq<char>| !has_key::<RegisteredTask>(registry, d))
}

/// The registered task with its result cleared.
pub open spec fn without_result(t: RegisteredTaskView) -> RegisteredTaskView {
    RegisteredTaskView { task: DefinedTaskView { result: None, ..t.task }, ..t }
}

impl Tasks {
    /// Registered names are distinct.
    pub open spec fn wf(&self) -> bool {
        unique_keys::<RegisteredTask>(self@)
    }

    /// An empty registry.
    pub fn new() -> (r: Self)
        ensures
            r.wf(),
            r@ == Seq::<RegisteredTaskView>::empty(),
    {
        let r = Tasks { entries: Vec::new() };
        assert(r@ =~= Seq::<RegisteredTaskView>::empty());
        r
    }

    /// Every registered task, arranged for execution.
    pub fn tasks_in_execution_order(&self) -> (r: Result<Vec<Task>, TasksAcquisitionError>)
        ensures
            r matches Ok(v) && views(v@).to_multiset() == self@.map_values(
                |e: RegisteredTaskView| e.task,
            ).to_multiset() && in_execution_order(views(v@)),
    {
        let mut all: Vec<Task> = Vec::new();
        let mut i: usize = 0;
        while i < self.entries.len()
            invariant
                i <= self.entries.len(),
                all@.len() == i,
                views(all@) =~= self@.map_values(|e: RegisteredTaskView| e.task).subrange(0, i as int),
            decreases self.entries.len() - i,
        {
            all.push(self.entries[i].task.duplicate());
            assert(self@[i as int] == self.entries@[i as int]@);
            assert(views(all@)[i as int] == self@.map_values(|e: RegisteredTaskView| e.task)[i as int]);
            i = i + 1;
        }
        assert(self@.map_values(|e: RegisteredTaskView| e.task).subrange(0, self.entries.len() as int)
            =~= self@.map_values(|e: RegisteredTaskView| e.task));
        Ok(sort_for_execution(all))
    }

    /// Registers `config` under `name`. Every dependency must name a task that
    /// is already registered; a task already registered under `name` is
    /// replaced and the addition is reported as a duplicate.
    pub fn add(&mut self, name: String, config: Task) -> (r: Result<(), TaskAdditionError>)
        requires
            old(self).wf(),
        ensures
            final(self).wf(),
            unregistered(old(self)@, config@.dependencies).len() > 0 ==> final(self)@ == old(self)@
                && (r matches Err(e) && e.task@ == name@ && (e.kind matches TaskAdditionErrorKind::UnregisteredDependencies(u)
                && name_seq(u.0@) == unregistered(old(self)@, config@.dependencies))),
            unregistered(old(self)@, config@.dependencies).len() == 0 ==> final(self)@ == stored::<RegisteredTask>(
                old(self)@,
                RegisteredTaskView { name: name@, task: config@ },
            ) && (r is Err <==> has_key::<RegisteredTask>(old(self)@, name@)) && (r matches Err(e) ==> e.task@
                == name@ && (e.kind matches TaskAdditionErrorKind::DuplicateTask(d) && d.0@ == name@)),
    {
        let ghost reg = self@;
        let ghost deps = config@.dependencies;
        let ghost pred = |d: Seq<char>| !has_key::<RegisteredTask>(reg, d);
        let mut unregistered_dependencies: Vec<String> = Vec::new();
        let mut i: usize = 0;
        while i < config.dependencies.len()
            invariant
                reg == self@,
                deps == config@.dependencies,
                pred == (|d: Seq<char>| !has_key::<RegisteredTask>(reg, d)),
                i <= config.dependencies.len(),
                name_seq(unregistered_dependencies@) == deps.subrange(0, i as int).filter(pred),
            decreases config.dependencies.len() - i,
        {
            let dep = &config.dependencies[i];
            proof {
                crate::engine::selection::lemma_filter_push(deps.subrange(0, i as int), dep@, pred);
                assert(deps.subrange(0, i as int).push(dep@) =~= deps.subrange(0, i as int + 1));
                assert(deps[i as int] == dep@);
            }
            if find_index(&self.entries, dep).is_none() {
                let ghost before = name_seq(unregistered_dependencies@);
                unregistered_dependencies.push(dep.clone());
                assert(name_seq(unregistered_dependencies@) =~= before.push(dep@));
            }
            i = i + 1;
        }
        assert(deps.subrange(0, config.dependencies.len() as int) =~= deps);
        if unregistered_dependencies.len() > 0 {
            return Err(
                TaskAdditionError {
                    task: name,
                    kind: TaskAdditionErrorKind::UnregisteredDependencies(
                        UnregisteredDependenciesError(unregistered_dependencies),
                    ),
                },
            );
        }
        let entry = RegisteredTask { name: name.clone(), task: config };
        proof {
            crate::registry::lemma_stored::<RegisteredTask>(self@, entry@);
        }
        if store_entry(&mut self.entries, entry) {
            return Err(
                TaskAdditionError {
                    task: name.clone(),
                    kind: TaskAdditionErrorKind::DuplicateTask(DuplicateTaskError(name)),
                },
            );
        }
        Ok(())
    }

    /// Clears the result of every task.
    pub fn reset_results(&mut self) -> (r: Result<(), TasksResultResetError>)
        requires
            old(self).wf(),
        ensures
            final(self).wf(),
            r is Ok,
            final(self)@ == old(self)@.map_values(|t: RegisteredTaskView| without_result(t)),
    {
        let ghost start = self@;
        let mut i: usize = 0;
        while i < self.entries.len()
            invariant
                start.len() == self@.len(),
                i <= self@.len(),
                self@.len() == self.entries@.len(),
                forall|j: int| 0 <= j < i ==> self@[j] == without_result(#[trigger] start[j]),
                forall|j: int| i <= j < self@.len() ==> self@[j] == #[trigger] start[j],
            decreases self.entries.len() - i,
        {
            let mut e = self.entries[i].duplicate();
            e.task.result = None;
            let ghost before = self@;
            self.entries.set(i, e);
            assert(self@ =~= before.update(i as int, without_result(start[i as int])));
            i = i + 1;
        }
        assert(self@ =~= start.map_values(|t: RegisteredTaskView| without_result(t)));
        proof {
            assert forall|a: int, b: int|
                0 <= a < self@.len() && 0 <= b < self@.len() && a != b implies RegisteredTask::key_of(#[trigger] self@[a])
                != RegisteredTask::key_of(#[trigger] self@[b]) by {
                assert(RegisteredTask::key_of(self@[a]) == RegisteredTask::key_of(start[a]));
                assert(RegisteredTask::key_of(self@[b]) == RegisteredTask::key_of(start[b]));
            }
        }
        Ok(())
    }

    /// Records `value` as the result of the task registered under `name`.
    pub fn set_task_result(&mut self, name: String, value: ScriptRef) -> (r: Result<(), TasksResultSetError>)
        requires
            old(self).wf(),
        ensures
            final(self).wf(),
            match lookup::<RegisteredTask>(old(self)@, name@) {
                Some(t) => r is Ok && final(self)@ == stored::<RegisteredTask>(
                    old(self)@,
                    RegisteredTaskView { task: DefinedTaskView { result: Some(value), ..t.task }, ..t },
                ),
                None => final(self)@ == old(self)@ && (r matches Err(TasksResultSetError::TaskNotDefined(e))
                    && e.0@ == name@),
            },
    {
        match find_index(&self.entries, &name) {
            Some(i) => {
                let mut e = self.entries[i].duplicate();
                e.task.result = Some(value);
                proof {
                    crate::registry::lemma_first_exists::<RegisteredTask>(self@, name@);
                    crate::registry::lemma_stored::<RegisteredTask>(self@, e@);
                }
                let _ = store_entry(&mut self.entries, e);
                Ok(())
            },
            None => Err(TasksResultSetError::TaskNotDefined(TaskNotDefinedError(name))),
        }
    }

    /// A copy of the task registered under `name`.
    pub fn get(&self, name: String) -> (r: Result<Task, TasksAcquisitionError>)
        ensures
            match r {
                Ok(t) => lookup::<RegisteredTask>(self@, name@) matches Some(e) && e.task == t@,
                Err(TasksAcquisitionError::TaskNotDefined(e)) => lookup::<RegisteredTask>(self@, name@) is None
                    && e.0@ == name@,
                Err(TasksAcquisitionError::Lock(_)) => false,
            },
    {
        match find_index(&self.entries, &name) {
            Some(i) => {
                proof {
                    crate::registry::lemma_first_exists::<RegisteredTask>(self@, name@);
                }
                Ok(self.entries[i].task.duplicate())
            },
            None => Err(TasksAcquisitionError::TaskNotDefined(TaskNotDefinedError(name))),
        }
    }
}

/// A value assigned to a task's name was not a task.
#[derive(Debug, Clone, Copy, PartialEq, Eq, Structural)]
pub enum TaskFromLuaValueError {
    /// The value is neither a handler nor a task configuration.
    NotAFunctionOrTaskConfig,
    /// `dependencies` is not a list of names.
    InvalidDependencies,
    /// `handler` is not a function.
    InvalidHandler,
    /// `tags` is not a list of names.
    InvalidTags,
}

/// What a value assigned to a task's name gave: a configuration table, read
/// field by field (`None` where a field cannot be read as its kind,
/// `Some(None)` where an optional field is absent), a bare handler, or
/// anything else.
#[derive(Debug)]
pub enum TaskValueRead {
    Table {
        handler: Option<ScriptRef>,
        dependencies: Option<Option<Vec<String>>>,
        tags: Option<Option<Vec<String>>>,
    },
    Function(ScriptRef),
    Other,
}

/// The names of an optional list field: none when absent.
pub open spec fn names_or_none(field: Option<Vec<String>>) -> Seq<Seq<char>> {
    match field {
        Some(v) => name_seq(v@),
        None => Seq::empty(),
    }
}

/// The task named `name` that the value defines, or why it defines none: a
/// table gives its handler, dependencies and tags (checked in that order),
/// a bare handler gives a task without dependencies or tags.
pub open spec fn task_from_value_result(name: Seq<char>, read: TaskValueRead) -> Result<
    DefinedTaskView,
    TaskFromLuaValueError,
> {
    match read {
        TaskValueRead::Table { handler, dependencies, tags } => match handler {
            None => Err(TaskFromLuaValueError::InvalidHandler),
            Some(h) => match dependencies {
                None => Err(TaskFromLuaValueError::InvalidDependencies),
                Some(deps) => match tags {
                    None => Err(TaskFromLuaValueError::InvalidTags),
                    Some(t) => Ok(
                        DefinedTaskView {
                            name,
                            handler: h,
                            dependencies: names_or_none(deps),
                            tags: names_or_none(t),
                            result: None,
                        },
                    ),
                },
            },
        },
        TaskValueRead::Function(h) => Ok(
            DefinedTaskView { name, handler: h, dependencies: Seq::empty(), tags: Seq::empty(), result: None },
        ),
        TaskValueRead::Other => Err(TaskFromLuaValueError::NotAFunctionOrTaskConfig),
    }
}

/// The names of an optional list field, in order.
fn names_or_empty(field: Option<Vec<String>>) -> (v: Vec<String>)
    ensures
        name_seq(v@) == names_or_none(field),
{
    match field {
        Some(v) => v,
        None => {
            let v: Vec<String> = Vec::new();
            assert(name_seq(v@) =~= Seq::<Seq<char>>::empty());
            v
        },
    }
}

impl Task {
    /// The task named `name` that a value assigned to that name defines.
    pub fn try_from_value(name: String, read: TaskValueRead) -> (r: Result<Task, TaskFromLuaValueError>)
        ensures
            match r {
                Ok(t) => task_from_value_result(name@, read) == Ok::<DefinedTaskView, TaskFromLuaValueError>(t@),
                Err(e) => task_from_value_result(name@, read) == Err::<DefinedTaskView, TaskFromLuaValueError>(e),
            },
    {
        match read {
            TaskValueRead::Table { handler, dependencies, tags } => {
                let handler = match handler {
                    None => {
                        return Err(TaskFromLuaValueError::InvalidHandler);
                    },
                    Some(h) => h,
                };
                let dependencies = match dependencies {
                    None => {
                        return Err(TaskFromLuaValueError::InvalidDependencies);
                    },
                    Some(d) => names_or_empty(d),
                };
                let tags = match tags {
                    None => {
                        return Err(TaskFromLuaValueError::InvalidTags);
                    },
                    Some(t) => names_or_empty(t),
                };
                Ok(Task { name, handler, dependencies, tags, result: None })
            },
            TaskValueRead::Function(handler) => {
                let t = Task { name, handler, dependencies: Vec::new(), tags: Vec::new(), result: None };
                assert(t@.dependencies =~= Seq::<Seq<char>>::empty());
                assert(t@.tags =~= Seq::<Seq<char>>::empty());
                Ok(t)
            },
            TaskValueRead::Other => Err(TaskFromLuaValueError::NotAFunctionOrTaskConfig),
        }
    }
}

} // verus!
