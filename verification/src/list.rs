//! The rows that `arc list` prints: tasks, groups and systems, sorted by name,
//! with their lists of names sorted too.

use vstd::prelude::*;
use vstd::relations::sorted_by;

use crate::memory::target_groups::{TargetGroupView, TargetGroups};
use crate::memory::target_systems::{TargetSystemKind, TargetSystemKindView, TargetSystemView, TargetSystems};
use crate::memory::tasks::{entry_tasks, on_fail_name, task_entries, tasks_get_index, tasks_len, Task, TaskView, Tasks};
use crate::names::{contains_name, copy_names, dedup_names, name_seq, name_set};
use crate::ordering::{
    key_seq, lemma_lex_le_total_ordering, lex_le, sort_by_key,
};
use crate::registry::{views, Keyed};

verus! {

/// `items` joined by commas.
pub open spec fn joined(items: Seq<Seq<char>>) -> Seq<char>
    decreases items.len(),
{
    if items.len() == 0 {
        Seq::empty()
    } else if items.len() == 1 {
        items[0]
    } else {
        joined(items.drop_last()) + ","@ + items.last()
    }
}

/// The items joined by commas; empty when there are none.
pub fn format_list(items: &[String]) -> (text: String)
    ensures
        text@ == joined(items@.map_values(|s: String| s@)),
{
    let ghost ns = items@.map_values(|s: String| s@);
    if items.len() == 0 {
        return String::new();
    }
    let mut text = items[0].clone();
    assert(ns.subrange(0, 1).drop_last() =~= Seq::<Seq<char>>::empty());
    let mut i: usize = 1;
    while i < items.len()
        invariant
            ns == items@.map_values(|s: String| s@),
            1 <= i <= items.len(),
            text@ == joined(ns.subrange(0, i as int)),
        decreases items.len() - i,
    {
        text.append(",");
        text.append(items[i].as_str());
        assert(ns.subrange(0, i as int + 1).drop_last() =~= ns.subrange(0, i as int));
        i = i + 1;
    }
    assert(ns.subrange(0, items.len() as int) =~= ns);
    text
}

impl Keyed for String {
    open spec fn key_of(v: Seq<char>) -> Seq<char> {
        v
    }

    fn key(&self) -> (k: &String) {
        self
    }

    fn duplicate(&self) -> (c: Self) {
        self.clone()
    }
}

/// The order in which names are listed.
pub open spec fn name_order() -> spec_fn(Seq<char>, Seq<char>) -> bool {
    |a: Seq<char>, b: Seq<char>| lex_le(a, b)
}

/// `names` in listing order.
pub open spec fn sorted_names_spec(names: Seq<Seq<char>>) -> Seq<Seq<char>> {
    choose|t: Seq<Seq<char>>| sorted_by(t, name_order()) && t.to_multiset() == names.to_multiset()
}

/// The names of `v` in listing order.
pub fn sorted_names(v: &Vec<String>) -> (r: Vec<String>)
    ensures
        name_seq(r@) == sorted_names_spec(name_seq(v@)),
{
    let r = sort_by_key(v);
    proof {
        assert(views(r@) =~= name_seq(r@));
        assert(views(v@) =~= name_seq(v@));
        assert(key_seq::<String>(views(r@)) =~= name_seq(r@));
        let t = sorted_names_spec(name_seq(v@));
        assert(sorted_by(name_seq(r@), name_order()));
        assert(sorted_by(t, name_order()) && t.to_multiset() == name_seq(v@).to_multiset());
        lemma_lex_le_total_ordering();
        vstd::seq_lib::lemma_sorted_unique(t, name_seq(r@), name_order());
    }
    r
}

/// A task as `arc list` shows it.
#[derive(Debug)]
pub struct TaskRow {
    pub name: String,
    pub tags: Vec<String>,
    pub targets: Vec<String>,
    pub required: Vec<String>,
    pub important: bool,
    pub on_fail: String,
}

/// Abstract value of a task row.
pub struct TaskRowView {
    pub name: Seq<char>,
    pub tags: Seq<Seq<char>>,
    pub targets: Seq<Seq<char>>,
    pub required: Seq<Seq<char>>,
    pub important: bool,
    pub on_fail: Seq<char>,
}

impl View for TaskRow {
    type V = TaskRowView;

    open spec fn view(&self) -> TaskRowView {
        TaskRowView {
            name: self.name@,
            tags: name_seq(self.tags@),
            targets: name_seq(self.targets@),
            required: name_seq(self.required@),
            important: self.important,
            on_fail: self.on_fail@,
        }
    }
}

impl Keyed for TaskRow {
    open spec fn key_of(v: TaskRowView) -> Seq<char> {
        v.name
    }

    fn key(&self) -> (k: &String) {
        &self.name
    }

    fn duplicate(&self) -> (c: Self) {
        TaskRow {
            name: self.name.clone(),
            tags: copy_names(&self.tags),
            targets: copy_names(&self.targets),
            required: copy_names(&self.required),
            important: self.important,
            on_fail: self.on_fail.clone(),
        }
    }
}

/// A group as `arc list` shows it.
#[derive(Debug)]
pub struct GroupRow {
    pub name: String,
    pub members: Vec<String>,
}

/// Abstract value of a group row.
pub struct GroupRowView {
    pub name: Seq<char>,
    pub members: Seq<Seq<char>>,
}

impl View for GroupRow {
    type V = GroupRowView;

    open spec fn view(&self) -> GroupRowView {
        GroupRowView { name: self.name@, members: name_seq(self.members@) }
    }
}

impl Keyed for GroupRow {
    open spec fn key_of(v: GroupRowView) -> Seq<char> {
        v.name
    }

    fn key(&self) -> (k: &String) {
        &self.name
    }

    fn duplicate(&self) -> (c: Self) {
        GroupRow { name: self.name.clone(), members: copy_names(&self.members) }
    }
}

/// A system as `arc list` shows it.
#[derive(Debug)]
pub struct SystemRow {
    pub name: String,
    pub kind: String,
    pub address: String,
    pub port: String,
    pub user: String,
    pub groups: Vec<String>,
}

/// Abstract value of a system row.
pub struct SystemRowView {
    pub name: Seq<char>,
    pub kind: Seq<char>,
    pub address: Seq<char>,
    pub port: Seq<char>,
    pub user: Seq<char>,
    pub groups: Seq<Seq<char>>,
}

impl View for SystemRow {
    type V = SystemRowView;

    open spec fn view(&self) -> SystemRowView {
        SystemRowView {
            name: self.name@,
            kind: self.kind@,
            address: self.address@,
            port: self.port@,
            user: self.user@,
            groups: name_seq(self.groups@),
        }
    }
}

impl Keyed for SystemRow {
    open spec fn key_of(v: SystemRowView) -> Seq<char> {
        v.name
    }

    fn key(&self) -> (k: &String) {
        &self.name
    }

    fn duplicate(&self) -> (c: Self) {
        SystemRow {
            name: self.name.clone(),
            kind: self.kind.clone(),
            address: self.address.clone(),
            port: self.port.clone(),
            user: self.user.clone(),
            groups: copy_names(&self.groups),
        }
    }
}

/// The rows sorted by name, with the same rows.
pub open spec fn sorted_rows_of<T: Keyed>(rows: Seq<T::V>, unsorted: Seq<T::V>) -> bool {
    &&& rows.to_multiset() == unsorted.to_multiset()
    &&& sorted_by(key_seq::<T>(rows), name_order())
}

/// The row of a group: its name and its members in listing order.
pub open spec fn group_row(g: TargetGroupView) -> GroupRowView {
    GroupRowView { name: g.name, members: sorted_names_spec(g.members) }
}

/// The groups' rows, sorted by name.
pub fn convert_groups(groups: &TargetGroups) -> (rows: Vec<GroupRow>)
    ensures
        sorted_rows_of::<GroupRow>(views(rows@), views(groups@).map_values(|g: TargetGroupView| group_row(g))),
{
    let ghost gs = views(groups@);
    let mut unsorted: Vec<GroupRow> = Vec::new();
    let mut i: usize = 0;
    while i < groups.len()
        invariant
            gs == views(groups@),
            i <= groups.len(),
            views(unsorted@) =~= gs.subrange(0, i as int).map_values(|g: TargetGroupView| group_row(g)),
        decreases groups.len() - i,
    {
        let members = sorted_names(&groups[i].members);
        let row = GroupRow { name: groups[i].name.clone(), members };
        assert(gs[i as int].members == name_seq(groups@[i as int].members@));
        assert(row@ == group_row(gs[i as int]));
        let ghost before = views(unsorted@);
        unsorted.push(row);
        assert(views(unsorted@) =~= before.push(group_row(gs[i as int])));
        assert(gs.subrange(0, i as int + 1).map_values(|g: TargetGroupView| group_row(g)) =~= gs.subrange(0, i as int).map_values(|g: TargetGroupView| group_row(g)).push(group_row(gs[i as int])));
        i = i + 1;
    }
    assert(gs.subrange(0, groups.len() as int) =~= gs);
    sort_by_key(&unsorted)
}

/// The decimal digit `d`.
pub open spec fn digit_text(d: int) -> Seq<char> {
    if d == 0 {
        "0"@
    } else if d == 1 {
        "1"@
    } else if d == 2 {
        "2"@
    } else if d == 3 {
        "3"@
    } else if d == 4 {
        "4"@
    } else if d == 5 {
        "5"@
    } else if d == 6 {
        "6"@
    } else if d == 7 {
        "7"@
    } else if d == 8 {
        "8"@
    } else {
        "9"@
    }
}

/// `n` in decimal, without leading zeros.
pub open spec fn decimal(n: nat) -> Seq<char>
    decreases n,
{
    if n < 10 {
        digit_text(n as int)
    } else {
        decimal(n / 10) + digit_text((n % 10) as int)
    }
}

fn digit(d: u64) -> (t: &'static str)
    requires
        d < 10,
    ensures
        t@ == digit_text(d as int),
{
    if d == 0 {
        "0"
    } else if d == 1 {
        "1"
    } else if d == 2 {
        "2"
    } else if d == 3 {
        "3"
    } else if d == 4 {
        "4"
    } else if d == 5 {
        "5"
    } else if d == 6 {
        "6"
    } else if d == 7 {
        "7"
    } else if d == 8 {
        "8"
    } else {
        "9"
    }
}

/// `n` in decimal.
pub fn decimal_text(n: u64) -> (t: String)
    ensures
        t@ == decimal(n as nat),
    decreases n,
{
    if n < 10 {
        String::from_str(digit(n))
    } else {
        let mut t = decimal_text(n / 10);
        t.append(digit(n % 10));
        t
    }
}

/// A port number in decimal.
pub fn port_text(n: u16) -> (t: String)
    ensures
        t@ == decimal(n as nat),
{
    decimal_text(n as u64)
}

/// The names of the groups that have `system` as a member, in order.
pub open spec fn groups_of(system: Seq<char>, groups: Seq<TargetGroupView>) -> Seq<Seq<char>> {
    groups.filter(|g: TargetGroupView| g.members.contains(system)).map_values(
        |g: TargetGroupView| g.name,
    )
}

/// The row of a system: its kind, its connection details (empty for a local
/// system) and the groups it belongs to, in listing order.
pub open spec fn system_row(s: TargetSystemView, groups: Seq<TargetGroupView>) -> SystemRowView {
    let member_of = sorted_names_spec(groups_of(s.name, groups));
    match s.kind {
        TargetSystemKindView::Remote { address, port, user } => SystemRowView {
            name: s.name,
            kind: "remote"@,
            address,
            port: decimal(port as nat),
            user,
            groups: member_of,
        },
        TargetSystemKindView::Local => SystemRowView {
            name: s.name,
            kind: "local"@,
            address: Seq::empty(),
            port: Seq::empty(),
            user: Seq::empty(),
            groups: member_of,
        },
    }
}

/// The names of the groups that have the system named `name` as a member, in
/// order.
fn member_of(name: &String, groups: &TargetGroups) -> (r: Vec<String>)
    ensures
        name_seq(r@) == groups_of(name@, views(groups@)),
{
    let ghost gs = views(groups@);
    let ghost pred = |g: TargetGroupView| g.members.contains(name@);
    let mut r: Vec<String> = Vec::new();
    let mut i: usize = 0;
    while i < groups.len()
        invariant
            gs == views(groups@),
            pred == (|g: TargetGroupView| g.members.contains(name@)),
            i <= groups.len(),
            name_seq(r@) == gs.subrange(0, i as int).filter(pred).map_values(|g: TargetGroupView| g.name),
        decreases groups.len() - i,
    {
        proof {
            crate::engine::selection::lemma_filter_push(gs.subrange(0, i as int), gs[i as int], pred);
            assert(gs.subrange(0, i as int).push(gs[i as int]) =~= gs.subrange(0, i as int + 1));
        }
        assert(gs[i as int].members == name_seq(groups@[i as int].members@));
        if contains_name(&groups[i].members, name) {
            let ghost before = gs.subrange(0, i as int).filter(pred);
            let ghost old_names = name_seq(r@);
            r.push(groups[i].name.clone());
            assert(name_seq(r@) =~= old_names.push(gs[i as int].name));
            assert(before.push(gs[i as int]).map_values(|g: TargetGroupView| g.name) =~= before.map_values(|g: TargetGroupView| g.name).push(gs[i as int].name));
        }
        i = i + 1;
    }
    assert(gs.subrange(0, groups.len() as int) =~= gs);
    r
}

/// The systems' rows, sorted by name.
pub fn convert_systems(systems: &TargetSystems, groups: &TargetGroups) -> (rows: Vec<SystemRow>)
    ensures
        sorted_rows_of::<SystemRow>(
            views(rows@),
            views(systems@).map_values(|s: TargetSystemView| system_row(s, views(groups@))),
        ),
{
    let ghost ss = views(systems@);
    let ghost gs = views(groups@);
    let mut unsorted: Vec<SystemRow> = Vec::new();
    let mut i: usize = 0;
    while i < systems.len()
        invariant
            ss == views(systems@),
            gs == views(groups@),
            i <= systems.len(),
            views(unsorted@) =~= ss.subrange(0, i as int).map_values(|s: TargetSystemView| system_row(s, gs)),
        decreases systems.len() - i,
    {
        let system = &systems[i];
        let system_groups = sorted_names(&member_of(&system.name, groups));
        let row = match &system.kind {
            TargetSystemKind::Remote(remote) => SystemRow {
                name: system.name.clone(),
                kind: String::from_str("remote"),
                address: remote.address.clone(),
                port: port_text(remote.port),
                user: remote.user.clone(),
                groups: system_groups,
            },
            TargetSystemKind::Local => SystemRow {
                name: system.name.clone(),
                kind: String::from_str("local"),
                address: String::new(),
                port: String::new(),
                user: String::new(),
                groups: system_groups,
            },
        };
        assert(ss[i as int] == systems@[i as int]@);
        assert(row@ == system_row(ss[i as int], gs));
        let ghost before = views(unsorted@);
        unsorted.push(row);
        assert(views(unsorted@) =~= before.push(system_row(ss[i as int], gs)));
        assert(ss.subrange(0, i as int + 1).map_values(|s: TargetSystemView| system_row(s, gs)) =~= ss.subrange(0, i as int).map_values(|s: TargetSystemView| system_row(s, gs)).push(system_row(ss[i as int], gs)));
        i = i + 1;
    }
    assert(ss.subrange(0, systems.len() as int) =~= ss);
    sort_by_key(&unsorted)
}

/// The row of a task: its tags, groups and required tags in listing order.
pub open spec fn task_row(t: TaskView) -> TaskRowView {
    TaskRowView {
        name: t.name,
        tags: sorted_names_spec(set_names(t.tags)),
        targets: sorted_names_spec(set_names(t.groups)),
        required: sorted_names_spec(set_names(t.required_tags)),
        important: t.important,
        on_fail: on_fail_name(t.on_fail),
    }
}

/// The names of a finite set, in some order, each once.
pub open spec fn set_names(s: Set<Seq<char>>) -> Seq<Seq<char>> {
    choose|q: Seq<Seq<char>>| q.no_duplicates() && q.to_set() == s
}

/// A set's names, each once, sorted.
proof fn lemma_sorted_set_names(v: Seq<String>)
    requires
        name_seq(v).no_duplicates(),
    ensures
        sorted_names_spec(name_seq(v)) == sorted_names_spec(set_names(name_seq(v).to_set())),
{
    let s = name_seq(v).to_set();
    let q = set_names(s);
    assert(name_seq(v).no_duplicates() && name_seq(v).to_set() == s);
    name_seq(v).lemma_multiset_has_no_duplicates();
    q.lemma_multiset_has_no_duplicates();
    assert(q.to_multiset() =~= name_seq(v).to_multiset()) by {
        assert forall|x: Seq<char>| #[trigger] q.to_multiset().count(x) == name_seq(v).to_multiset().count(x) by {
            q.to_multiset_ensures();
            name_seq(v).to_multiset_ensures();
            if q.contains(x) {
                assert(s.contains(x));
            }
            if name_seq(v).contains(x) {
                assert(q.to_set().contains(x));
            }
        }
    }
}

/// The names of `v`, each once, in listing order.
fn listed(v: &Vec<String>) -> (r: Vec<String>)
    ensures
        name_seq(r@) == sorted_names_spec(set_names(name_set(v@))),
{
    let d = dedup_names(v);
    proof {
        lemma_sorted_set_names(d@);
    }
    sorted_names(&d)
}

/// The row of `task`.
fn task_row_of(task: &Task) -> (row: TaskRow)
    ensures
        row@ == task_row(task@),
{
    TaskRow {
        name: task.name.clone(),
        tags: listed(&task.tags),
        targets: listed(&task.groups),
        required: listed(&task.required_tags),
        important: task.important,
        on_fail: task.on_fail.name(),
    }
}

/// The tasks' rows, sorted by name.
pub fn convert_tasks(tasks: &Tasks) -> (rows: Vec<TaskRow>)
    ensures
        sorted_rows_of::<TaskRow>(
            views(rows@),
            entry_tasks(task_entries(*tasks)).map_values(|t: TaskView| task_row(t)),
        ),
{
    let ghost ts = entry_tasks(task_entries(*tasks));
    let n = tasks_len(tasks);
    let mut unsorted: Vec<TaskRow> = Vec::new();
    let mut i: usize = 0;
    while i < n
        invariant
            ts == entry_tasks(task_entries(*tasks)),
            n == ts.len(),
            i <= n,
            views(unsorted@) =~= ts.subrange(0, i as int).map_values(|t: TaskView| task_row(t)),
        decreases n - i,
    {
        let (_, task) = tasks_get_index(tasks, i).unwrap();
        assert(task@ == ts[i as int]);
        let ghost before = views(unsorted@);
        unsorted.push(task_row_of(task));
        assert(views(unsorted@) =~= before.push(task_row(ts[i as int])));
        assert(ts.subrange(0, i as int + 1).map_values(|t: TaskView| task_row(t)) =~= ts.subrange(0, i as int).map_values(|t: TaskView| task_row(t)).push(task_row(ts[i as int])));
        i = i + 1;
    }
    assert(ts.subrange(0, n as int) =~= ts);
    sort_by_key(&unsorted)
}

/// The rows of a system's tasks, in the given order.
pub fn list_system_tasks(tasks: &[Task]) -> (rows: Vec<TaskRow>)
    ensures
        views(rows@) == tasks@.map_values(|t: Task| task_row(t@)),
{
    let mut rows: Vec<TaskRow> = Vec::new();
    let mut i: usize = 0;
    while i < tasks.len()
        invariant
            i <= tasks.len(),
            views(rows@) =~= tasks@.subrange(0, i as int).map_values(|t: Task| task_row(t@)),
        decreases tasks.len() - i,
    {
        let ghost before = views(rows@);
        rows.push(task_row_of(&tasks[i]));
        assert(views(rows@) =~= before.push(task_row(tasks@[i as int]@)));
        assert(tasks@.subrange(0, i as int + 1).map_values(|t: Task| task_row(t@)) =~= tasks@.subrange(0, i as int).map_values(|t: Task| task_row(t@)).push(task_row(tasks@[i as int]@)));
        i = i + 1;
    }
    assert(tasks@.subrange(0, tasks.len() as int) =~= tasks@);
    rows
}

} // verus!
