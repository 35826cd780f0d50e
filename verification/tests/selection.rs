use arc_automation::engine::run::{HandlerOutcome, SystemRun, TaskExecutionError, TaskStart};
use arc_automation::engine::selection::{
    select_groups, select_systems, select_tasks, select_tasks_with_dependencies, task_matches_groups, GroupSelection,
    SystemSelection, TagSelection,
};
use arc_automation::engine::state::State;
use arc_automation::engine::validation::{
    validate_selected_groups, validate_selected_systems, validate_selected_tags, validate_task_dependencies,
};
use arc_automation::engine::{task_applies_to_system, validate_and_filter_by_selection, ValidationError};
use arc_automation::memory::target_groups::{TargetGroup, TargetGroupsMemory};
use arc_automation::memory::target_systems::{TargetSystem, TargetSystemKind, TargetSystemsMemory};
use arc_automation::memory::tasks::{OnFailBehavior, Task, TaskState, TasksMemory};

fn names(v: &[&str]) -> Vec<String> {
    v.iter().map(|s| s.to_string()).collect()
}

fn task(name: &str, tags: &[&str], groups: &[&str], required: &[&str], important: bool) -> Task {
    Task {
        name: name.to_string(),
        handler: 0,
        when: None,
        on_fail: OnFailBehavior::Continue,
        tags: names(tags),
        groups: names(groups),
        required_tags: names(required),
        important,
        result: None,
        state: None,
        error: None,
    }
}

fn local(name: &str) -> TargetSystem {
    TargetSystem { name: name.to_string(), kind: TargetSystemKind::Local }
}

fn state_with(systems: &[&str], groups: &[(&str, &[&str])], tasks: Vec<Task>) -> State {
    let mut s = TargetSystemsMemory::new();
    for name in systems {
        s.add(local(name)).unwrap();
    }
    let mut g = TargetGroupsMemory::new();
    for (name, members) in groups {
        g.add(TargetGroup { name: name.to_string(), members: names(members) }).unwrap();
    }
    let mut t = TasksMemory::new();
    for task in tasks {
        t.add(task).unwrap();
    }
    State::new(s, g, t)
}

fn task_names(tasks: &[Task]) -> Vec<String> {
    tasks.iter().map(|t| t.name.clone()).collect()
}

#[test]
fn selections_contain_what_they_list() {
    let groups = GroupSelection::Listed(names(&["web"]));
    assert!(groups.contains("web"));
    assert!(!groups.contains("db"));
    assert!(GroupSelection::All.contains("db"));
    assert!(SystemSelection::Listed(names(&["s1"])).contains("s1"));
    assert!(!SystemSelection::Listed(names(&[])).contains("s1"));
}

#[test]
fn select_groups_keeps_selected_in_order() {
    let groups = vec![
        TargetGroup { name: "a".to_string(), members: vec![] },
        TargetGroup { name: "b".to_string(), members: vec![] },
        TargetGroup { name: "c".to_string(), members: vec![] },
    ];
    let selected = select_groups(groups, &GroupSelection::Listed(names(&["c", "a"])));
    let n: Vec<String> = selected.iter().map(|g| g.name.clone()).collect();
    assert_eq!(n, names(&["a", "c"]));
}

#[test]
fn select_systems_by_group_and_name() {
    let systems = vec![local("s1"), local("s2"), local("s3")];
    let groups = vec![
        TargetGroup { name: "web".to_string(), members: names(&["s1", "s2"]) },
        TargetGroup { name: "db".to_string(), members: names(&["s3"]) },
    ];
    let by_group = select_systems(
        systems.iter().map(|s| local(&s.name)).collect(),
        &groups,
        &SystemSelection::All,
        &GroupSelection::Listed(names(&["web"])),
    );
    let n: Vec<String> = by_group.iter().map(|s| s.name.clone()).collect();
    assert_eq!(n, names(&["s1", "s2"]));
    let by_name = select_systems(
        systems,
        &groups,
        &SystemSelection::Listed(names(&["s2", "s3"])),
        &GroupSelection::Listed(names(&["web"])),
    );
    let n: Vec<String> = by_name.iter().map(|s| s.name.clone()).collect();
    assert_eq!(n, names(&["s2"]));
}

#[test]
fn all_systems_and_all_groups_keep_ungrouped_systems() {
    let groups = vec![TargetGroup { name: "g".to_string(), members: names(&["a"]) }];
    let selected = select_systems(vec![local("a"), local("b")], &groups, &SystemSelection::All, &GroupSelection::All);
    let n: Vec<String> = selected.iter().map(|s| s.name.clone()).collect();
    assert_eq!(n, names(&["a", "b"]));
}

#[test]
fn tasks_without_groups_match_listed_groups() {
    let ungrouped = task("u", &[], &[], &[], false);
    let grouped = task("g", &[], &["db"], &[], false);
    let web = GroupSelection::Listed(names(&["web"]));
    assert!(task_matches_groups(&ungrouped, &web));
    assert!(!task_matches_groups(&grouped, &web));
    assert!(task_matches_groups(&grouped, &GroupSelection::Listed(names(&["db"]))));
}

#[test]
fn important_tasks_are_selected_whatever_the_tags() {
    let state = state_with(
        &[],
        &[],
        vec![task("a", &["x"], &[], &[], false), task("b", &["y"], &[], &[], true)],
    );
    let selected = select_tasks(state.all_tasks().unwrap(), &GroupSelection::All, &TagSelection::Listed(names(&["x"])));
    assert_eq!(selected.keys().cloned().collect::<Vec<_>>(), names(&["a", "b"]));
    let none = select_tasks(state.all_tasks().unwrap(), &GroupSelection::All, &TagSelection::Listed(names(&["z"])));
    assert_eq!(none.keys().cloned().collect::<Vec<_>>(), names(&["b"]));
}

#[test]
fn requirements_are_resolved_transitively_in_definition_order() {
    let state = state_with(
        &[],
        &[],
        vec![
            task("base", &["base"], &[], &[], false),
            task("middle", &["mid"], &[], &["base"], false),
            task("top", &["top"], &[], &["mid"], false),
            task("other", &["other"], &[], &[], false),
        ],
    );
    let all = state.all_tasks().unwrap();
    let selected = select_tasks_with_dependencies(all, &GroupSelection::All, &TagSelection::Listed(names(&["top"])));
    assert_eq!(selected.keys().cloned().collect::<Vec<_>>(), names(&["base", "middle", "top"]));
    let direct = select_tasks(state.all_tasks().unwrap(), &GroupSelection::All, &TagSelection::Listed(names(&["top"])));
    assert_eq!(direct.keys().cloned().collect::<Vec<_>>(), names(&["top"]));
}

#[test]
fn validations_report_missing_selections() {
    let state = state_with(&["s1"], &[("web", &["s1"])], vec![task("a", &["x"], &[], &["nope"], false)]);
    let groups = state.all_groups().unwrap();
    let systems = state.all_systems().unwrap();
    let tasks = state.all_tasks().unwrap();
    assert!(validate_selected_groups(&groups, &GroupSelection::All).is_ok());
    let e = validate_selected_groups(&groups, &GroupSelection::Listed(names(&["web", "db", "db"]))).unwrap_err();
    assert_eq!(e.0, names(&["db"]));
    let e = validate_selected_systems(&systems, &SystemSelection::Listed(names(&["s2"]))).unwrap_err();
    assert_eq!(e.0, names(&["s2"]));
    assert!(validate_selected_tags(&tasks, &TagSelection::Listed(names(&["a", "x"]))).is_ok());
    let e = validate_selected_tags(&tasks, &TagSelection::Listed(names(&["y"]))).unwrap_err();
    assert_eq!(e.0, names(&["y"]));
    let e = validate_task_dependencies(&tasks).unwrap_err();
    assert_eq!(e.0, vec![("a".to_string(), names(&["nope"]))]);
}

#[test]
fn ungrouped_tasks_apply_to_every_system() {
    let groups = vec![TargetGroup { name: "web".to_string(), members: names(&["s1"]) }];
    let ungrouped = task("a", &[], &[], &[], false);
    let grouped = task("b", &[], &["web"], &[], false);
    assert!(task_applies_to_system(&ungrouped, &"s9".to_string(), &groups));
    assert!(task_applies_to_system(&grouped, &"s1".to_string(), &groups));
    assert!(!task_applies_to_system(&grouped, &"s2".to_string(), &groups));
}

#[test]
fn validate_and_filter_pairs_systems_with_their_tasks() {
    let state = state_with(
        &["s1", "s2"],
        &[("web", &["s1"]), ("db", &["s2"])],
        vec![
            task("common", &["t"], &[], &[], false),
            task("webonly", &["t"], &["web"], &[], false),
            task("dbonly", &["t"], &["db"], &[], false),
        ],
    );
    let pairs = validate_and_filter_by_selection(
        &state,
        &TagSelection::Listed(names(&["t"])),
        &GroupSelection::All,
        &SystemSelection::All,
        false,
    )
    .unwrap();
    assert_eq!(pairs.len(), 2);
    assert_eq!(pairs[0].0.name, "s1");
    assert_eq!(task_names(&pairs[0].1), names(&["common", "webonly"]));
    assert_eq!(pairs[1].0.name, "s2");
    assert_eq!(task_names(&pairs[1].1), names(&["common", "dbonly"]));
}

#[test]
fn validate_and_filter_reports_the_first_failing_check() {
    let state = state_with(&["s1"], &[], vec![task("a", &["t"], &[], &["missing"], false)]);
    let r = validate_and_filter_by_selection(
        &state,
        &TagSelection::Listed(names(&["nope"])),
        &GroupSelection::Listed(names(&["nogroup"])),
        &SystemSelection::All,
        true,
    );
    assert!(matches!(r, Err(ValidationError::UndefinedRequires(_))));
    let state = state_with(&["s1"], &[], vec![task("a", &["t"], &[], &[], false)]);
    let r = validate_and_filter_by_selection(
        &state,
        &TagSelection::Listed(names(&["nope"])),
        &GroupSelection::Listed(names(&["nogroup"])),
        &SystemSelection::Listed(names(&["nosystem"])),
        true,
    );
    assert!(matches!(r, Err(ValidationError::MissingSelectedGroup(_))));
    let r = validate_and_filter_by_selection(
        &state,
        &TagSelection::Listed(names(&["nope"])),
        &GroupSelection::All,
        &SystemSelection::Listed(names(&["nosystem"])),
        true,
    );
    assert!(matches!(r, Err(ValidationError::MissingSelectedSystem(_))));
    let r = validate_and_filter_by_selection(
        &state,
        &TagSelection::Listed(names(&["nope"])),
        &GroupSelection::All,
        &SystemSelection::All,
        true,
    );
    assert!(matches!(r, Err(ValidationError::MissingSelectedTag(_))));
}

#[test]
fn a_run_skips_after_skip_system_failure_except_important_tasks() {
    let mut state = state_with(
        &["s1"],
        &[],
        vec![
            task("first", &[], &[], &[], false),
            task("second", &[], &[], &[], false),
            task("third", &[], &[], &[], true),
        ],
    );
    let mut run = SystemRun::new();
    let first = state.tasks.get("first").unwrap();
    assert_eq!(run.start_task(&first), TaskStart::Execute);
    let outcome = run
        .conclude_task(&mut state, "first", OnFailBehavior::SkipSystem, HandlerOutcome::Failed("bad".to_string()))
        .unwrap();
    assert_eq!(outcome, TaskState::Failed);
    assert!(run.skip_system);
    let first = state.tasks.get("first").unwrap();
    assert_eq!(first.state, Some(TaskState::Failed));
    assert_eq!(first.error, Some("bad".to_string()));
    let second = state.tasks.get("second").unwrap();
    assert_eq!(run.start_task(&second), TaskStart::Skip);
    run.skip_task(&mut state, "second").unwrap();
    assert_eq!(state.tasks.get("second").unwrap().state, Some(TaskState::Skipped));
    let third = state.tasks.get("third").unwrap();
    assert_eq!(run.start_task(&third), TaskStart::Execute);
    let outcome = run
        .conclude_task(&mut state, "third", OnFailBehavior::Continue, HandlerOutcome::Returned(42))
        .unwrap();
    assert_eq!(outcome, TaskState::Success);
    let third = state.tasks.get("third").unwrap();
    assert_eq!(third.result, Some(42));
    assert_eq!(third.state, Some(TaskState::Success));
}

#[test]
fn abort_stops_the_run_with_the_message() {
    let mut state = state_with(&[], &[], vec![task("t", &[], &[], &[], false)]);
    let mut run = SystemRun::new();
    match run.conclude_task(&mut state, "t", OnFailBehavior::Abort, HandlerOutcome::Failed("oops".to_string())) {
        Err(TaskExecutionError::TaskAborted(e)) => {
            assert_eq!(e.task, "t");
            assert_eq!(e.error, "oops");
        }
        other => panic!("unexpected {:?}", other),
    }
    assert!(!run.skip_system);
    assert!(matches!(
        run.conclude_task(&mut state, "missing", OnFailBehavior::Continue, HandlerOutcome::Returned(1)),
        Err(TaskExecutionError::TasksResultSet(_))
    ));
    assert!(matches!(
        run.conclude_task(&mut state, "missing", OnFailBehavior::Abort, HandlerOutcome::Failed("x".to_string())),
        Err(TaskExecutionError::TasksStateSet(_))
    ));
}

#[test]
fn guards_decide_whether_a_task_runs() {
    let run = SystemRun::new();
    let mut guarded = task("g", &[], &[], &[], false);
    guarded.when = Some(5);
    assert_eq!(run.start_task(&guarded), TaskStart::EvaluateGuard);
    assert_eq!(run.after_guard(false), TaskStart::Skip);
    assert_eq!(run.after_guard(true), TaskStart::Execute);
}
