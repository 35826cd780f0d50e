//! The `tasks` table: scripts define a task by assigning a configuration to
//! its name and read a task back by indexing with its name.

use vstd::prelude::*;

use crate::engine::modules::{not_a_valid_config, quoted, FieldRead, TableRead};
use crate::engine::validation::missing_from;
use crate::error::MutexLockError;
use crate::memory::target_groups::TargetGroupsMemory;
use crate::memory::tasks::{
    opt_text, registered, OnFailBehavior, ScriptRef, Task, TaskAdditionError, TaskRetrievalError,
    TaskView, TasksMemory, parsed_on_fail,
};
use vstd::string::*;

use crate::names::{dedup_names, insert_name, lemma_empty_names, name_seq, name_set};
use crate::registry::{has_key, keys, lookup, stored, views};

verus! {

/// A task as a script configures it; the handler and guard live in the Lua
/// runtime.
#[derive(Debug)]
pub struct TaskConfig {
    pub handler: ScriptRef,
    pub when: Option<ScriptRef>,
    pub on_fail: OnFailBehavior,
    pub tags: Vec<String>,
    pub groups: Vec<String>,
    pub required_tags: Vec<String>,
    pub important: bool,
}

/// Abstract value of a task configuration; tags, groups and requirements are
/// sets of names.
pub struct TaskConfigView {
    pub handler: ScriptRef,
    pub when: Option<ScriptRef>,
    pub on_fail: OnFailBehavior,
    pub tags: Set<Seq<char>>,
    pub groups: Set<Seq<char>>,
    pub required_tags: Set<Seq<char>>,
    pub important: bool,
}

impl View for TaskConfig {
    type V = TaskConfigView;

    open spec fn view(&self) -> TaskConfigView {
        TaskConfigView {
            handler: self.handler,
            when: self.when,
            on_fail: self.on_fail,
            tags: name_set(self.tags@),
            groups: name_set(self.groups@),
            required_tags: name_set(self.required_tags@),
            important: self.important,
        }
    }
}

/// What reading each field of a task's table gave. An optional field is read
/// as `None` when it cannot be read as its kind, and as `Some(None)` when it
/// is absent.
#[derive(Debug)]
pub struct TaskFields {
    pub handler: FieldRead<ScriptRef>,
    pub when: Option<Option<ScriptRef>>,
    pub on_fail: Option<Option<String>>,
    pub tags: Option<Option<Vec<String>>>,
    pub groups: Option<Option<Vec<String>>>,
    pub required_tags: Option<Option<Vec<String>>>,
    pub important: Option<Option<bool>>,
}

/// The message for an `on_fail` value that names no behaviour.
pub open spec fn invalid_on_fail_message(text: Seq<char>) -> Seq<char> {
    "Invalid on_fail value: \""@ + text
        + "\". Expected \"continue\", \"skip_system\", or \"abort\""@
}

/// The behaviour an `on_fail` field selects: `continue` when absent.
pub open spec fn on_fail_choice(field: Option<String>) -> Result<OnFailBehavior, Seq<char>> {
    match field {
        None => Ok(OnFailBehavior::Continue),
        Some(text) => match parsed_on_fail(text@) {
            Some(b) => Ok(b),
            None => Err(invalid_on_fail_message(text@)),
        },
    }
}

/// The names a list field holds: none when absent.
pub open spec fn listed_names(field: Option<Vec<String>>) -> Set<Seq<char>> {
    match field {
        None => Set::empty(),
        Some(v) => name_set(v@),
    }
}

/// The configuration a task's table makes, or the message of the first field,
/// in the order handler, when, on_fail, tags, groups, requires, important,
/// that makes none.
pub open spec fn task_config_result(read: TableRead<TaskFields>) -> Result<TaskConfigView, Seq<char>> {
    match read {
        TableRead::NotATable(kind_name) => Err(quoted(kind_name@) + " is not a valid task config"@),
        TableRead::Table(f) => match f.handler {
            FieldRead::Unreadable => Err("\"handler\" is missing"@),
            FieldRead::Invalid => Err("\"handler\" is invalid"@),
            FieldRead::Value(handler) => match f.when {
                None => Err("\"when\" is invalid"@),
                Some(when) => match f.on_fail {
                    None => Err("\"on_fail\" is invalid"@),
                    Some(on_fail_field) => match on_fail_choice(on_fail_field) {
                        Err(m) => Err(m),
                        Ok(on_fail) => match f.tags {
                            None => Err("\"tags\" is invalid"@),
                            Some(tags) => match f.groups {
                                None => Err("\"groups\" is invalid"@),
                                Some(groups) => match f.required_tags {
                                    None => Err("\"requires\" is invalid"@),
                                    Some(required) => match f.important {
                                        None => Err("\"important\" is invalid"@),
                                        Some(important) => Ok(
                                            TaskConfigView {
                                                handler,
                                                when,
                                                on_fail,
                                                tags: listed_names(tags),
                                                groups: listed_names(groups),
                                                required_tags: listed_names(required),
                                                important: match important {
                                                    Some(b) => b,
                                                    None => false,
                                                },
                                            },
                                        ),
                                    },
                                },
                            },
                        },
                    },
                },
            },
        },
    }
}

/// The names of an optional list field, each once.
fn names_of(field: Option<Vec<String>>) -> (names: Vec<String>)
    ensures
        name_set(names@) == listed_names(field),
        name_seq(names@).no_duplicates(),
{
    match field {
        None => {
            let v: Vec<String> = Vec::new();
            assert(name_set(v@) =~= Set::<Seq<char>>::empty());
            v
        },
        Some(v) => dedup_names(&v),
    }
}

/// Chooses the on-fail behaviour an `on_fail` field selects.
fn choose_on_fail(field: Option<String>) -> (r: Result<OnFailBehavior, String>)
    ensures
        match r {
            Ok(b) => on_fail_choice(field) == Ok::<OnFailBehavior, Seq<char>>(b),
            Err(m) => on_fail_choice(field) == Err::<OnFailBehavior, Seq<char>>(m@),
        },
{
    match field {
        None => Ok(OnFailBehavior::Continue),
        Some(text) => match OnFailBehavior::from_name(text.as_str()) {
            Some(b) => Ok(b),
            None => {
                let mut m = String::from_str("Invalid on_fail value: \"");
                m.append(text.as_str());
                m.append("\". Expected \"continue\", \"skip_system\", or \"abort\"");
                Err(m)
            },
        },
    }
}

impl TaskConfig {
    /// Reads a task's configuration from what its table gave.
    pub fn from_table(read: TableRead<TaskFields>) -> (r: Result<TaskConfig, String>)
        ensures
            match r {
                Ok(c) => task_config_result(read) == Ok::<TaskConfigView, Seq<char>>(c@)
                    && name_seq(c.tags@).no_duplicates(),
                Err(m) => task_config_result(read) == Err::<TaskConfigView, Seq<char>>(m@),
            },
    {
        match read {
            TableRead::NotATable(kind_name) => Err(
                not_a_valid_config(kind_name.as_str(), " is not a valid task config"),
            ),
            TableRead::Table(f) => {
                let handler = match f.handler {
                    FieldRead::Unreadable => {
                        return Err(String::from_str("\"handler\" is missing"));
                    },
                    FieldRead::Invalid => {
                        return Err(String::from_str("\"handler\" is invalid"));
                    },
                    FieldRead::Value(h) => h,
                };
                let when = match f.when {
                    None => {
                        return Err(String::from_str("\"when\" is invalid"));
                    },
                    Some(w) => w,
                };
                let on_fail = match f.on_fail {
                    None => {
                        return Err(String::from_str("\"on_fail\" is invalid"));
                    },
                    Some(field) => choose_on_fail(field)?,
                };
                let tags = match f.tags {
                    None => {
                        return Err(String::from_str("\"tags\" is invalid"));
                    },
                    Some(field) => names_of(field),
                };
                let groups = match f.groups {
                    None => {
                        return Err(String::from_str("\"groups\" is invalid"));
                    },
                    Some(field) => names_of(field),
                };
                let required_tags = match f.required_tags {
                    None => {
                        return Err(String::from_str("\"requires\" is invalid"));
                    },
                    Some(field) => names_of(field),
                };
                let important = match f.important {
                    None => {
                        return Err(String::from_str("\"important\" is invalid"));
                    },
                    Some(Some(b)) => b,
                    Some(None) => false,
                };
                Ok(TaskConfig { handler, when, on_fail, tags, groups, required_tags, important })
            },
        }
    }

    /// Adds `extra` to the configuration's tags.
    pub fn extend_tags(&mut self, extra: Vec<String>)
        requires
            name_seq(old(self).tags@).no_duplicates(),
        ensures
            final(self)@ == (TaskConfigView { tags: old(self)@.tags + name_set(extra@), ..old(self)@ }),
            name_seq(final(self).tags@).no_duplicates(),
    {
        let ghost start = self.tags@;
        let ghost orig = self@;
        let mut i: usize = 0;
        while i < extra.len()
            invariant
                i <= extra.len(),
                self@ == (TaskConfigView { tags: self@.tags, ..orig }),
                name_seq(self.tags@).no_duplicates(),
                name_set(self.tags@) == name_set(start) + name_set(extra@.subrange(0, i as int)),
            decreases extra.len() - i,
        {
            proof {
                assert(extra@.subrange(0, i as int + 1) =~= extra@.subrange(0, i as int).push(
                    extra@[i as int],
                ));
                crate::names::lemma_name_set_push(extra@.subrange(0, i as int), extra@[i as int]);
            }
            insert_name(&mut self.tags, extra[i].clone());
            assert(name_set(self.tags@) =~= name_set(start) + name_set(
                extra@.subrange(0, i as int + 1),
            ));
            i = i + 1;
        }
        assert(extra@.subrange(0, extra.len() as int) =~= extra@);
    }
}

/// Defining a task failed.
#[derive(Debug)]
pub enum TaskConfigAdditionError {
    Lock(MutexLockError),
    TaskAddition(TaskAdditionError),
    GroupFilterNotDefined(GroupFilterNotDefinedError),
}

/// A task (named first) lists groups that are not defined.
#[derive(Debug)]
pub struct GroupFilterNotDefinedError(pub String, pub Vec<String>);

/// Reading a task back failed.
#[derive(Debug)]
pub enum TasksModuleRetrievalError {
    Lock(MutexLockError),
    TaskRetrieval(TaskRetrievalError),
}

/// The task named `name` that a configuration defines, before it is tagged
/// with its own name and before it has run.
pub open spec fn configured_task(name: Seq<char>, c: TaskConfigView) -> TaskView {
    TaskView {
        name,
        handler: c.handler,
        when: c.when,
        on_fail: c.on_fail,
        tags: c.tags,
        groups: c.groups,
        required_tags: c.required_tags,
        important: c.important,
        result: None,
        state: None,
        error: None,
    }
}

/// The groups a configuration lists that are not defined.
pub open spec fn undefined_group_filters(c: TaskConfigView, groups: Seq<crate::memory::target_groups::TargetGroupView>) -> Set<Seq<char>> {
    c.groups.filter(|g: Seq<char>| !has_key::<crate::memory::target_groups::TargetGroup>(groups, g))
}

/// The `tasks` table.
pub struct TasksTable {
    pub tasks_memory: TasksMemory,
}

impl TasksTable {
    /// The table over the given registry.
    pub fn new(tasks_memory: TasksMemory) -> (t: TasksTable)
        ensures
            t.tasks_memory == tasks_memory,
    {
        TasksTable { tasks_memory }
    }

    /// Defines the task `name` from `config`. Every group the configuration
    /// lists must be defined in `groups`; the error lists, each once, those
    /// that are not, and the registry is left as it was. Otherwise the task is
    /// registered as `TasksMemory::add` does, duplicates included.
    pub fn add(&mut self, groups: &TargetGroupsMemory, name: String, config: TaskConfig) -> (r: Result<
        (),
        TaskConfigAdditionError,
    >)
        requires
            old(self).tasks_memory.wf(),
        ensures
            final(self).tasks_memory.wf(),
            ({
                let undefined = undefined_group_filters(config@, groups@);
                if undefined =~= Set::<Seq<char>>::empty() {
                    &&& final(self).tasks_memory@ == stored::<Task>(
                        old(self).tasks_memory@,
                        registered(configured_task(name@, config@)),
                    )
                    &&& (r is Err <==> has_key::<Task>(old(self).tasks_memory@, name@))
                    &&& r is Err ==> (r matches Err(TaskConfigAdditionError::TaskAddition(e)) && e.0@ == name@)
                } else {
                    &&& final(self).tasks_memory@ == old(self).tasks_memory@
                    &&& r matches Err(TaskConfigAdditionError::GroupFilterNotDefined(e))
                    &&& e.0@ == name@
                    &&& name_set(e.1@) == undefined
                    &&& name_seq(e.1@).no_duplicates()
                }
            }),
    {
        let all_groups = groups.all();
        let known = keys(&all_groups);
        let undefined_groups = missing_from(&config.groups, &known);
        assert(name_set(undefined_groups@) =~= undefined_group_filters(config@, groups@));
        proof {
            lemma_empty_names(undefined_groups@);
        }
        if undefined_groups.len() > 0 {
            return Err(
                TaskConfigAdditionError::GroupFilterNotDefined(
                    GroupFilterNotDefinedError(name, undefined_groups),
                ),
            );
        }
        let task = Task {
            name,
            handler: config.handler,
            when: config.when,
            on_fail: config.on_fail,
            tags: config.tags,
            groups: config.groups,
            required_tags: config.required_tags,
            important: config.important,
            result: None,
            state: None,
            error: None,
        };
        match self.tasks_memory.add(task) {
            Ok(()) => Ok(()),
            Err(e) => Err(TaskConfigAdditionError::TaskAddition(e)),
        }
    }

    /// The task registered under `name`.
    pub fn get(&self, name: String) -> (r: Result<Task, TasksModuleRetrievalError>)
        requires
            self.tasks_memory.wf(),
        ensures
            match r {
                Ok(t) => lookup::<Task>(self.tasks_memory@, name@) == Some(t@),
                Err(TasksModuleRetrievalError::TaskRetrieval(_)) => lookup::<Task>(
                    self.tasks_memory@,
                    name@,
                ) is None,
                Err(TasksModuleRetrievalError::Lock(_)) => false,
            },
    {
        match self.tasks_memory.get(name.as_str()) {
            Ok(t) => Ok(t),
            Err(e) => Err(TasksModuleRetrievalError::TaskRetrieval(e)),
        }
    }
}

/// A component of a path, as `std::path::Component` tells them apart.
#[derive(Debug)]
pub enum PathPart {
    Prefix,
    RootDir,
    CurDir,
    ParentDir,
    Normal(String),
}

/// Abstract value of a path component.
pub enum PathPartView {
    Prefix,
    RootDir,
    CurDir,
    ParentDir,
    Normal(Seq<char>),
}

impl View for PathPart {
    type V = PathPartView;

    open spec fn view(&self) -> PathPartView {
        match self {
            PathPart::Prefix => PathPartView::Prefix,
            PathPart::RootDir => PathPartView::RootDir,
            PathPart::CurDir => PathPartView::CurDir,
            PathPart::ParentDir => PathPartView::ParentDir,
            PathPart::Normal(s) => PathPartView::Normal(s@),
        }
    }
}

/// What `Path::file_stem` gives for the path `p`.
pub uninterp spec fn path_file_stem(p: Seq<char>) -> Option<Seq<char>>;

/// What `Path::parent` gives for the path `p`.
pub uninterp spec fn path_parent(p: Seq<char>) -> Option<Seq<char>>;

/// What `Path::components` gives for the path `p`.
pub uninterp spec fn path_components(p: Seq<char>) -> Seq<PathPartView>;

/// `Path::file_stem`: the file name without its extension, if the path has a
/// file name. Its result is named, not stated.
#[verifier::external_body]
fn file_stem(path: &str) -> (r: Option<String>)
    ensures
        opt_text(r) == path_file_stem(path@),
{
    match std::path::Path::new(path).file_stem() {
        Some(stem) => Some(stem.to_string_lossy().to_string()),
        None => None,
    }
}

/// `Path::parent`: the path without its last component, if it has one. Its
/// result is named, not stated.
#[verifier::external_body]
pub(crate) fn parent(path: &str) -> (r: Option<String>)
    ensures
        opt_text(r) == path_parent(path@),
{
    match std::path::Path::new(path).parent() {
        Some(p) => Some(p.to_string_lossy().to_string()),
        None => None,
    }
}

/// `Path::components`: the path's components, in order, each told apart by its
/// kind. Its result is named, not stated.
#[verifier::external_body]
fn components(path: &str) -> (r: Vec<PathPart>)
    ensures
        r@.map_values(|c: PathPart| c@) == path_components(path@),
{
    let mut parts = Vec::new();
    for component in std::path::Path::new(path).components() {
        parts.push(match component {
            std::path::Component::Prefix(_) => PathPart::Prefix,
            std::path::Component::RootDir => PathPart::RootDir,
            std::path::Component::CurDir => PathPart::CurDir,
            std::path::Component::ParentDir => PathPart::ParentDir,
            std::path::Component::Normal(s) => PathPart::Normal(s.to_string_lossy().to_string()),
        });
    }
    parts
}

/// `s` without its leading `@` characters.
pub open spec fn without_leading_ats(s: Seq<char>) -> Seq<char>
    decreases s.len(),
{
    if s.len() > 0 && s[0] == '@' {
        without_leading_ats(s.drop_first())
    } else {
        s
    }
}

/// The names of the normal components, in order.
pub open spec fn normal_names(parts: Seq<PathPartView>) -> Seq<Seq<char>> {
    parts.filter(|c: PathPartView| c is Normal).map_values(|c: PathPartView| c->Normal_0)
}

/// The tags a task defined in the script `source` gets from where it is
/// defined: for a script read from a file (named with a leading `@`), the
/// file's stem followed by the names of the directories on its path, outermost
/// first; none for other scripts or for a path without a file name.
pub open spec fn source_tags_spec(source: Seq<char>) -> Option<Seq<Seq<char>>> {
    if !(source.len() > 0 && source[0] == '@') {
        None
    } else {
        let path = without_leading_ats(source);
        match path_file_stem(path) {
            None => None,
            Some(stem) => Some(
                seq![stem] + match path_parent(path) {
                    None => Seq::empty(),
                    Some(p) => normal_names(path_components(p)),
                },
            ),
        }
    }
}

/// The position of the first character of `s` that is not `@`.
proof fn lemma_leading_ats(s: Seq<char>, i: int)
    requires
        0 <= i <= s.len(),
        forall|j: int| 0 <= j < i ==> s[j] == '@',
        i == s.len() || s[i] != '@',
    ensures
        without_leading_ats(s) == s.subrange(i, s.len() as int),
    decreases i,
{
    if i > 0 {
        assert forall|j: int| 0 <= j < i - 1 implies s.drop_first()[j] == '@' by {
            assert(s.drop_first()[j] == s[j + 1]);
        }
        if i < s.len() {
            assert(s.drop_first()[i - 1] == s[i]);
        }
        lemma_leading_ats(s.drop_first(), i - 1);
        assert(s.drop_first().subrange(i - 1, s.len() - 1) =~= s.subrange(i, s.len() as int));
    } else {
        assert(s.subrange(0, s.len() as int) =~= s);
    }
}

/// The tags a task defined in the script `source` gets from where it is
/// defined.
pub fn source_tags(source: &str) -> (r: Option<Vec<String>>)
    ensures
        match r {
            Some(v) => source_tags_spec(source@) == Some(name_seq(v@)),
            None => source_tags_spec(source@) is None,
        },
{
    let n = source.unicode_len();
    if n == 0 || source.get_char(0) != '@' {
        return None;
    }
    let mut i: usize = 0;
    while i < n && source.get_char(i) == '@'
        invariant
            n == source@.len(),
            i <= n,
            forall|j: int| 0 <= j < i ==> source@[j] == '@',
        decreases n - i,
    {
        i = i + 1;
    }
    let path = source.substring_char(i, n);
    proof {
        lemma_leading_ats(source@, i as int);
    }
    let stem = match file_stem(path) {
        Some(s) => s,
        None => {
            return None;
        },
    };
    let ghost stem_view = stem@;
    let mut tags: Vec<String> = Vec::new();
    tags.push(stem);
    match parent(path) {
        Some(parent_path) => {
            let parts = components(parent_path.as_str());
            let ghost ps = parts@.map_values(|c: PathPart| c@);
            let ghost pred = |c: PathPartView| c is Normal;
            let mut k: usize = 0;
            while k < parts.len()
                invariant
                    ps == parts@.map_values(|c: PathPart| c@),
                    pred == (|c: PathPartView| c is Normal),
                    k <= parts.len(),
                    name_seq(tags@) == seq![stem_view] + ps.subrange(0, k as int).filter(pred).map_values(
                        |c: PathPartView| c->Normal_0,
                    ),
                decreases parts.len() - k,
            {
                proof {
                    crate::engine::selection::lemma_filter_push(ps.subrange(0, k as int), ps[k as int], pred);
                    assert(ps.subrange(0, k as int).push(ps[k as int]) =~= ps.subrange(0, k as int + 1));
                }
                let ghost f = ps.subrange(0, k as int).filter(pred);
                let ghost before = name_seq(tags@);
                match &parts[k] {
                    PathPart::Normal(name) => {
                        tags.push(name.clone());
                        assert(name_seq(tags@) =~= before.push(name@));
                        assert(f.push(ps[k as int]).map_values(|c: PathPartView| c->Normal_0) =~= f.map_values(
                            |c: PathPartView| c->Normal_0,
                        ).push(name@));
                    },
                    _ => {},
                }
                k = k + 1;
            }
            assert(ps.subrange(0, parts.len() as int) =~= ps);
        },
        None => {
            assert(name_seq(tags@) =~= seq![stem_view] + Seq::<Seq<char>>::empty());
        },
    }
    Some(tags)
}

} // verus!
