//! Registry of tasks, in definition order, keyed by task name.
//!
//! The registry is an `indexmap::IndexMap` from task name to task. Verus sees
//! the map through a handful of trusted wrappers, each of which states what the
//! corresponding `IndexMap` method does to the sequence of entries.

use vstd::prelude::*;

use indexmap::IndexMap;

use crate::names::{copy_names, insert_name, name_seq, name_set, str_equal};
use crate::registry::{has_key, lookup, stored, unique_keys, Keyed};
use crate::engine::selection::{task_filter_keeps, TaskFilter};

verus! {

/// A reference to a value that lives in the Lua runtime (a handler, a guard or
/// a handler's result); the runtime side keeps the value under this number.
pub type ScriptRef = u64;

/// What happens to the remaining tasks of a system when a task fails.
#[derive(Debug, Clone, Copy, PartialEq, Eq, Structural)]
pub enum OnFailBehavior {
    Continue,
    SkipSystem,
    Abort,
}

/// The outcome of a task on the current system.
#[derive(Debug, Clone, Copy, PartialEq, Eq, Structural)]
pub enum TaskState {
    Success,
    Failed,
    Skipped,
}

/// The snake-case name of an on-fail behaviour.
pub open spec fn on_fail_name(b: OnFailBehavior) -> Seq<char> {
    match b {
        OnFailBehavior::Continue => "continue"@,
        OnFailBehavior::SkipSystem => "skip_system"@,
        OnFailBehavior::Abort => "abort"@,
    }
}

/// The on-fail behaviour named by `text`, if any.
pub open spec fn parsed_on_fail(text: Seq<char>) -> Option<OnFailBehavior> {
    if text == "continue"@ {
        Some(OnFailBehavior::Continue)
    } else if text == "skip_system"@ {
        Some(OnFailBehavior::SkipSystem)
    } else if text == "abort"@ {
        Some(OnFailBehavior::Abort)
    } else {
        None
    }
}

/// The snake-case name of a task state.
pub open spec fn task_state_name(s: TaskState) -> Seq<char> {
    match s {
        TaskState::Success => "success"@,
        TaskState::Failed => "failed"@,
        TaskState::Skipped => "skipped"@,
    }
}

/// The task state named by `text`, if any.
pub open spec fn parsed_task_state(text: Seq<char>) -> Option<TaskState> {
    if text == "success"@ {
        Some(TaskState::Success)
    } else if text == "failed"@ {
        Some(TaskState::Failed)
    } else if text == "skipped"@ {
        Some(TaskState::Skipped)
    } else {
        None
    }
}

impl OnFailBehavior {
    /// Reads a behaviour from its snake-case name.
    pub fn from_name(text: &str) -> (r: Option<OnFailBehavior>)
        ensures
            r == parsed_on_fail(text@),
    {
        if str_equal(text, "continue") {
            Some(OnFailBehavior::Continue)
        } else if str_equal(text, "skip_system") {
            Some(OnFailBehavior::SkipSystem)
        } else if str_equal(text, "abort") {
            Some(OnFailBehavior::Abort)
        } else {
            None
        }
    }

    /// The behaviour's snake-case name.
    pub fn name(&self) -> (text: String)
        ensures
            text@ == on_fail_name(*self),
    {
        match self {
            OnFailBehavior::Continue => String::from_str("continue"),
            OnFailBehavior::SkipSystem => String::from_str("skip_system"),
            OnFailBehavior::Abort => String::from_str("abort"),
        }
    }
}

impl Default for OnFailBehavior {
    fn default() -> (b: Self)
        ensures
            b == OnFailBehavior::Continue,
    {
        OnFailBehavior::Continue
    }
}

impl TaskState {
    /// Reads a state from its snake-case name.
    pub fn from_name(text: &str) -> (r: Option<TaskState>)
        ensures
            r == parsed_task_state(text@),
    {
        if str_equal(text, "success") {
            Some(TaskState::Success)
        } else if str_equal(text, "failed") {
            Some(TaskState::Failed)
        } else if str_equal(text, "skipped") {
            Some(TaskState::Skipped)
        } else {
            None
        }
    }

    /// The state's snake-case name.
    pub fn name(&self) -> (text: String)
        ensures
            text@ == task_state_name(*self),
    {
        match self {
            TaskState::Success => String::from_str("success"),
            TaskState::Failed => String::from_str("failed"),
            TaskState::Skipped => String::from_str("skipped"),
        }
    }
}

/// A registered task, with the outcome of its latest run.
#[derive(Debug)]
pub struct Task {
    pub name: String,
    pub handler: ScriptRef,
    pub when: Option<ScriptRef>,
    pub on_fail: OnFailBehavior,
    pub tags: Vec<String>,
    pub groups: Vec<String>,
    pub required_tags: Vec<String>,
    pub important: bool,
    pub result: Option<ScriptRef>,
    pub state: Option<TaskState>,
    pub error: Option<String>,
}

/// Abstract value of a task; tags, groups and requirements are sets of names.
pub struct TaskView {
    pub name: Seq<char>,
    pub handler: ScriptRef,
    pub when: Option<ScriptRef>,
    pub on_fail: OnFailBehavior,
    pub tags: Set<Seq<char>>,
    pub groups: Set<Seq<char>>,
    pub required_tags: Set<Seq<char>>,
    pub important: bool,
    pub result: Option<ScriptRef>,
    pub state: Option<TaskState>,
    pub error: Option<Seq<char>>,
}

/// The abstract value of an optional string.
pub open spec fn opt_text(s: Option<String>) -> Option<Seq<char>> {
    match s {
        Some(t) => Some(t@),
        None => None,
    }
}

impl View for Task {
    type V = TaskView;

    open spec fn view(&self) -> TaskView {
        TaskView {
            name: self.name@,
            handler: self.handler,
            when: self.when,
            on_fail: self.on_fail,
            tags: name_set(self.tags@),
            groups: name_set(self.groups@),
            required_tags: name_set(self.required_tags@),
            important: self.important,
            result: self.result,
            state: self.state,
            error: opt_text(self.error),
        }
    }
}

/// A copy of an optional string.
pub fn copy_opt_text(s: &Option<String>) -> (c: Option<String>)
    ensures
        opt_text(c) == opt_text(*s),
{
    match s {
        Some(t) => Some(t.clone()),
        None => None,
    }
}

impl Keyed for Task {
    open spec fn key_of(v: TaskView) -> Seq<char> {
        v.name
    }

    fn key(&self) -> (k: &String) {
        &self.name
    }

    fn duplicate(&self) -> (c: Self) {
        let tags = copy_names(&self.tags);
        let groups = copy_names(&self.groups);
        let required_tags = copy_names(&self.required_tags);
        Task {
            name: self.name.clone(),
            handler: self.handler,
            when: self.when,
            on_fail: self.on_fail,
            tags,
            groups,
            required_tags,
            important: self.important,
            result: self.result,
            state: self.state,
            error: copy_opt_text(&self.error),
        }
    }
}

/// The tasks known to the engine, in definition order, keyed by name.
pub type Tasks = IndexMap<String, Task>;

#[verifier::external_type_specification]
#[verifier::external_body]
#[verifier::reject_recursive_types(K)]
#[verifier::reject_recursive_types(V)]
#[verifier::reject_recursive_types(S)]
pub struct ExIndexMap<K, V, S>(IndexMap<K, V, S>);

/// The entries of a task map, in the map's order: each key with its task.
pub uninterp spec fn task_entries(m: Tasks) -> Seq<(Seq<char>, TaskView)>;

/// The tasks of a sequence of entries.
pub open spec fn entry_tasks(es: Seq<(Seq<char>, TaskView)>) -> Seq<TaskView> {
    es.map_values(|e: (Seq<char>, TaskView)| e.1)
}

/// Every entry is keyed by its task's name and no name occurs twice.
pub open spec fn entries_wf(es: Seq<(Seq<char>, TaskView)>) -> bool {
    &&& forall|i: int| 0 <= i < es.len() ==> (#[trigger] es[i]).0 == es[i].1.name
    &&& unique_keys::<Task>(entry_tasks(es))
}

/// The entries of a task map that holds `ts`, each task under its name.
pub open spec fn keyed(ts: Seq<TaskView>) -> Seq<(Seq<char>, TaskView)> {
    ts.map_values(|t: TaskView| (t.name, t))
}

/// Well-formed entries are their tasks, each under its name.
pub proof fn lemma_keyed(es: Seq<(Seq<char>, TaskView)>)
    requires
        entries_wf(es),
    ensures
        es == keyed(entry_tasks(es)),
{
    assert(es =~= keyed(entry_tasks(es)));
}

/// `IndexMap::new`: a map without entries.
#[verifier::external_body]
pub(crate) fn tasks_new() -> (m: Tasks)
    ensures
        task_entries(m) == Seq::<(Seq<char>, TaskView)>::empty(),
{
    IndexMap::new()
}

/// `IndexMap::len`: the number of entries.
#[verifier::external_body]
pub(crate) fn tasks_len(m: &Tasks) -> (n: usize)
    ensures
        n == task_entries(*m).len(),
{
    m.len()
}

/// `IndexMap::get_index`: the entry at position `i`, if there is one.
#[verifier::external_body]
pub(crate) fn tasks_get_index(m: &Tasks, i: usize) -> (r: Option<(&String, &Task)>)
    ensures
        match r {
            Some(e) => i < task_entries(*m).len() && e.0@ == task_entries(*m)[i as int].0 && e.1@
                == task_entries(*m)[i as int].1,
            None => i >= task_entries(*m).len(),
        },
{
    m.get_index(i)
}

/// `IndexMap::get_index_of`: the position of the entry keyed `k`, if any. A map
/// holds at most one entry per key, so that position is also the first one.
#[verifier::external_body]
pub(crate) fn tasks_index_of(m: &Tasks, k: &str) -> (r: Option<usize>)
    ensures
        match r {
            Some(i) => i < task_entries(*m).len() && task_entries(*m)[i as int].0 == k@ && forall|
                j: int,
            |
                0 <= j < i ==> (#[trigger] task_entries(*m)[j]).0 != k@,
            None => forall|j: int|
                0 <= j < task_entries(*m).len() ==> (#[trigger] task_entries(*m)[j]).0 != k@,
        },
{
    m.get_index_of(k)
}

/// `IndexMap::insert`: an entry keyed `k` keeps its position and takes the new
/// task, and the old task is handed back; otherwise the entry is appended.
#[verifier::external_body]
pub(crate) fn tasks_insert(m: &mut Tasks, k: String, t: Task) -> (r: Option<Task>)
    ensures
        forall|i: int|
            0 <= i < task_entries(*old(m)).len() && (#[trigger] task_entries(*old(m))[i]).0 == k@
                ==> task_entries(*final(m)) == task_entries(*old(m)).update(i, (k@, t@)) && (r
                matches Some(o) && o@ == task_entries(*old(m))[i].1),
        (forall|i: int|
            0 <= i < task_entries(*old(m)).len() ==> (#[trigger] task_entries(*old(m))[i]).0
                != k@) ==> task_entries(*final(m)) == task_entries(*old(m)).push((k@, t@))
            && r is None,
{
    m.insert(k, t)
}

/// `IndexMap::retain`: keeps, in order, the entries that `filter` keeps.
#[verifier::external_body]
pub(crate) fn tasks_retain(m: &mut Tasks, filter: &TaskFilter)
    ensures
        task_entries(*final(m)) == task_entries(*old(m)).filter(
            |e: (Seq<char>, TaskView)| task_filter_keeps(*filter, e),
        ),
{
    m.retain(|k, t| filter.keeps(k, t))
}

/// A copy of every entry of a map whose entries are keyed by name, distinct.
pub fn copy_tasks(m: &Tasks) -> (c: Tasks)
    requires
        entries_wf(task_entries(*m)),
    ensures
        task_entries(c) == task_entries(*m),
{
    let ghost es = task_entries(*m);
    let mut c = tasks_new();
    let n = tasks_len(m);
    let mut i: usize = 0;
    while i < n
        invariant
            n == es.len(),
            es == task_entries(*m),
            entries_wf(es),
            i <= n,
            task_entries(c) =~= es.subrange(0, i as int),
        decreases n - i,
    {
        let (k, t) = tasks_get_index(m, i).unwrap();
        proof {
            assert forall|j: int| 0 <= j < i implies (#[trigger] task_entries(c)[j]).0 != k@ by {
                assert(task_entries(c)[j] == es[j]);
                assert(entry_tasks(es)[j] == es[j].1);
                assert(entry_tasks(es)[i as int] == es[i as int].1);
            }
        }
        let _ = tasks_insert(&mut c, k.clone(), t.duplicate());
        i = i + 1;
    }
    assert(es.subrange(0, n as int) =~= es);
    c
}

/// The registry of tasks.
#[derive(Debug)]
pub struct TasksMemory {
    memory: Tasks,
}

/// Adding a task failed: a task of this name was already registered.
#[derive(Debug)]
pub struct TaskAdditionError(pub String);

/// Recording a task's result failed.
#[derive(Debug)]
pub enum TasksResultSetError {
    TaskNotDefined(TaskNotDefinedError),
}

/// Recording a task's state failed.
#[derive(Debug)]
pub enum TasksStateSetError {
    TaskNotDefined(TaskNotDefinedError),
}

/// Recording a task's error failed.
#[derive(Debug)]
pub enum TasksErrorSetError {
    TaskNotDefined(TaskNotDefinedError),
}

/// Retrieving a task failed.
#[derive(Debug)]
pub enum TaskRetrievalError {
    TaskNotDefined(TaskNotDefinedError),
}

/// No task of this name is registered.
#[derive(Debug)]
pub struct TaskNotDefinedError(pub String);

/// The task with its execution outcome cleared.
pub open spec fn cleared(t: TaskView) -> TaskView {
    TaskView { result: None, state: None, error: None, ..t }
}

/// The task with `value` recorded as its result.
pub open spec fn with_result(t: TaskView, value: ScriptRef) -> TaskView {
    TaskView { result: Some(value), ..t }
}

/// The task with `state` recorded as its state.
pub open spec fn with_state(t: TaskView, state: TaskState) -> TaskView {
    TaskView { state: Some(state), ..t }
}

/// The task with `error` recorded as its error.
pub open spec fn with_error(t: TaskView, error: Seq<char>) -> TaskView {
    TaskView { error: Some(error), ..t }
}

/// The task as it is registered: tagged with its own name.
pub open spec fn registered(t: TaskView) -> TaskView {
    TaskView { tags: t.tags.insert(t.name), ..t }
}

impl View for TasksMemory {
    type V = Seq<TaskView>;

    closed spec fn view(&self) -> Seq<TaskView> {
        entry_tasks(task_entries(self.memory))
    }
}

impl TasksMemory {
    /// The map's entries are keyed by task name, with distinct names.
    pub closed spec fn wf(&self) -> bool {
        entries_wf(task_entries(self.memory))
    }

    /// An empty registry.
    pub fn new() -> (m: Self)
        ensures
            m.wf(),
            m@ == Seq::<TaskView>::empty(),
    {
        let m = TasksMemory { memory: tasks_new() };
        assert(m@ =~= Seq::<TaskView>::empty());
        m
    }

    /// Registered tasks have distinct names.
    pub proof fn lemma_unique(&self)
        requires
            self.wf(),
        ensures
            unique_keys::<Task>(self@),
    {
    }

    /// Replaces the task at position `i`, which is named `t.name`.
    fn replace_at(&mut self, i: usize, t: Task)
        requires
            old(self).wf(),
            i < old(self)@.len(),
            old(self)@[i as int].name == t@.name,
        ensures
            final(self).wf(),
            final(self)@ == old(self)@.update(i as int, t@),
    {
        let ghost es = task_entries(self.memory);
        let ghost tv = t@;
        assert(entry_tasks(es)[i as int] == es[i as int].1);
        let k = t.name.clone();
        let _ = tasks_insert(&mut self.memory, k, t);
        proof {
            let es2 = es.update(i as int, (tv.name, tv));
            assert(task_entries(self.memory) == es2);
            assert(entry_tasks(es2) =~= entry_tasks(es).update(i as int, tv));
            assert forall|a: int, b: int|
                0 <= a < entry_tasks(es2).len() && 0 <= b < entry_tasks(es2).len() && a != b
                    implies Task::key_of(#[trigger] entry_tasks(es2)[a]) != Task::key_of(
                #[trigger] entry_tasks(es2)[b],
            ) by {
                assert(Task::key_of(entry_tasks(es2)[a]) == Task::key_of(entry_tasks(es)[a]));
                assert(Task::key_of(entry_tasks(es2)[b]) == Task::key_of(entry_tasks(es)[b]));
            }
        }
    }

    /// Registers `task`, tagged with its own name. A task already registered
    /// under that name is replaced and the addition is reported as a duplicate.
    pub fn add(&mut self, task: Task) -> (r: Result<(), TaskAdditionError>)
        requires
            old(self).wf(),
        ensures
            final(self).wf(),
            final(self)@ == stored::<Task>(old(self)@, registered(task@)),
            r is Err <==> has_key::<Task>(old(self)@, task@.name),
            r matches Err(e) ==> e.0@ == task@.name,
    {
        let mut task = task;
        let ghost before = task@;
        let own_tag = task.name.clone();
        insert_name(&mut task.tags, own_tag);
        assert(task@ == registered(before));
        let ghost es = task_entries(self.memory);
        let ghost s = entry_tasks(es);
        let ghost tv = task@;
        let name = task.name.clone();
        match tasks_index_of(&self.memory, name.as_str()) {
            Some(i) => {
                proof {
                    assert(s[i as int] == es[i as int].1);
                    crate::registry::lemma_unique_first::<Task>(s, i as int);
                    crate::registry::lemma_stored::<Task>(s, tv);
                }
                self.replace_at(i, task);
                Err(TaskAdditionError(name))
            },
            None => {
                proof {
                    assert(!has_key::<Task>(s, tv.name)) by {
                        if has_key::<Task>(s, tv.name) {
                            let j = choose|j: int| 0 <= j < s.len() && Task::key_of(#[trigger] s[j]) == tv.name;
                            assert(s[j] == es[j].1);
                        }
                    }
                    crate::registry::lemma_stored::<Task>(s, tv);
                }
                let k = task.name.clone();
                let _ = tasks_insert(&mut self.memory, k, task);
                proof {
                    let es2 = es.push((tv.name, tv));
                    assert(entry_tasks(es2) =~= s.push(tv));
                }
                Ok(())
            },
        }
    }

    /// A copy of the registry's map.
    pub fn all(&self) -> (tasks: Tasks)
        requires
            self.wf(),
        ensures
            entries_wf(task_entries(tasks)),
            entry_tasks(task_entries(tasks)) == self@,
    {
        copy_tasks(&self.memory)
    }

    /// Clears the result, state and error of every task.
    pub fn reset_execution_state(&mut self)
        requires
            old(self).wf(),
        ensures
            final(self).wf(),
            final(self)@ == old(self)@.map_values(|t: TaskView| cleared(t)),
    {
        let ghost start = self@;
        let n = tasks_len(&self.memory);
        let mut i: usize = 0;
        while i < n
            invariant
                self.wf(),
                n == start.len(),
                self@.len() == n,
                i <= n,
                forall|j: int| 0 <= j < i ==> self@[j] == cleared(#[trigger] start[j]),
                forall|j: int| i <= j < n ==> self@[j] == #[trigger] start[j],
            decreases n - i,
        {
            let mut t = tasks_get_index(&self.memory, i).unwrap().1.duplicate();
            assert(t@ == self@[i as int]);
            t.result = None;
            t.state = None;
            t.error = None;
            self.replace_at(i, t);
            i = i + 1;
        }
        assert(self@ =~= start.map_values(|t: TaskView| cleared(t)));
    }

    /// Finds the registered task named `name`.
    fn locate(&self, name: &str) -> (r: Option<usize>)
        requires
            self.wf(),
        ensures
            match r {
                Some(i) => i < self@.len() && lookup::<Task>(self@, name@) == Some(self@[i as int])
                    && crate::registry::first_index::<Task>(self@, name@) == i,
                None => lookup::<Task>(self@, name@) is None,
            },
    {
        let ghost es = task_entries(self.memory);
        let r = tasks_index_of(&self.memory, name);
        proof {
            match r {
                Some(i) => {
                    assert(self@[i as int] == es[i as int].1);
                    crate::registry::lemma_unique_first::<Task>(self@, i as int);
                },
                None => {
                    if has_key::<Task>(self@, name@) {
                        let j = choose|j: int| 0 <= j < self@.len() && Task::key_of(#[trigger] self@[j]) == name@;
                        assert(self@[j] == es[j].1);
                    }
                },
            }
        }
        r
    }

    /// Records `value` as the result of the task named `name`.
    pub fn set_task_result(&mut self, name: &str, value: ScriptRef) -> (r: Result<(), TasksResultSetError>)
        requires
            old(self).wf(),
        ensures
            final(self).wf(),
            match lookup::<Task>(old(self)@, name@) {
                Some(t) => r is Ok && final(self)@ == stored::<Task>(old(self)@, with_result(t, value)),
                None => final(self)@ == old(self)@ && (r matches Err(
                    TasksResultSetError::TaskNotDefined(e),
                ) && e.0@ == name@),
            },
    {
        match self.locate(name) {
            Some(i) => {
                let mut t = tasks_get_index(&self.memory, i).unwrap().1.duplicate();
                t.result = Some(value);
                proof {
                    crate::registry::lemma_unique_first::<Task>(self@, i as int);
                }
                self.replace_at(i, t);
                Ok(())
            },
            None => Err(
                TasksResultSetError::TaskNotDefined(TaskNotDefinedError(String::from_str(name))),
            ),
        }
    }

    /// Records `state` as the state of the task named `name`.
    pub fn set_task_state(&mut self, name: &str, state: TaskState) -> (r: Result<(), TasksStateSetError>)
        requires
            old(self).wf(),
        ensures
            final(self).wf(),
            match lookup::<Task>(old(self)@, name@) {
                Some(t) => r is Ok && final(self)@ == stored::<Task>(old(self)@, with_state(t, state)),
                None => final(self)@ == old(self)@ && (r matches Err(
                    TasksStateSetError::TaskNotDefined(e),
                ) && e.0@ == name@),
            },
    {
        match self.locate(name) {
            Some(i) => {
                let mut t = tasks_get_index(&self.memory, i).unwrap().1.duplicate();
                t.state = Some(state);
                proof {
                    crate::registry::lemma_unique_first::<Task>(self@, i as int);
                }
                self.replace_at(i, t);
                Ok(())
            },
            None => Err(
                TasksStateSetError::TaskNotDefined(TaskNotDefinedError(String::from_str(name))),
            ),
        }
    }

    /// Records `error` as the error of the task named `name`.
    pub fn set_task_error(&mut self, name: &str, error: String) -> (r: Result<(), TasksErrorSetError>)
        requires
            old(self).wf(),
        ensures
            final(self).wf(),
            match lookup::<Task>(old(self)@, name@) {
                Some(t) => r is Ok && final(self)@ == stored::<Task>(old(self)@, with_error(t, error@)),
                None => final(self)@ == old(self)@ && (r matches Err(
                    TasksErrorSetError::TaskNotDefined(e),
                ) && e.0@ == name@),
            },
    {
        match self.locate(name) {
            Some(i) => {
                let mut t = tasks_get_index(&self.memory, i).unwrap().1.duplicate();
                t.error = Some(error);
                proof {
                    crate::registry::lemma_unique_first::<Task>(self@, i as int);
                }
                self.replace_at(i, t);
                Ok(())
            },
            None => Err(
                TasksErrorSetError::TaskNotDefined(TaskNotDefinedError(String::from_str(name))),
            ),
        }
    }

    /// A copy of the task named `name`.
    pub fn get(&self, name: &str) -> (r: Result<Task, TaskRetrievalError>)
        requires
            self.wf(),
        ensures
            match r {
                Ok(t) => lookup::<Task>(self@, name@) == Some(t@),
                Err(TaskRetrievalError::TaskNotDefined(e)) => lookup::<Task>(self@, name@) is None
                    && e.0@ == name@,
            },
    {
        match self.locate(name) {
            Some(i) => Ok(tasks_get_index(&self.memory, i).unwrap().1.duplicate()),
            None => Err(
                TaskRetrievalError::TaskNotDefined(TaskNotDefinedError(String::from_str(name))),
            ),
        }
    }
}

impl Default for TasksMemory {
    fn default() -> (m: Self)
        ensures
            m.wf(),
            m@ == Seq::<TaskView>::empty(),
    {
        Self::new()
    }
}

/// A task that was added is found by its name, tagged with its own name, and
/// every other name finds what it found before.
pub proof fn law_added_task_found_by_name(s: Seq<TaskView>, t: TaskView)
    requires
        unique_keys::<Task>(s),
    ensures
        lookup::<Task>(stored::<Task>(s, registered(t)), t.name) == Some(registered(t)),
        registered(t).tags.contains(t.name),
        forall|k: Seq<char>| k != t.name ==> lookup::<Task>(stored::<Task>(s, registered(t)), k) == lookup::<Task>(s, k),
{
    crate::registry::lemma_stored::<Task>(s, registered(t));
}

} // verus!
