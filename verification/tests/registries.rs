use arc_automation::engine::targets::groups::{GroupAcquisitionError, GroupAdditionError, GroupConfig, Groups};
use arc_automation::engine::targets::systems::{SystemAcquisitionError, SystemAdditionError, SystemConfig, Systems};
use arc_automation::engine::targets::{Targets, TargetsValidationError};
use arc_automation::inventory::{
    default_port, GroupAdditionError as InventoryGroupAdditionError, GroupConfig as InventoryGroupConfig,
    InventoryRegistrationModule, SystemConfig as InventorySystemConfig,
};
use arc_automation::memory::target_groups::{
    TargetGroup, TargetGroupAdditionError, TargetGroupRetrievalError, TargetGroupsMemory,
};
use arc_automation::memory::target_systems::{
    RemoteTargetSystem, TargetSystem, TargetSystemAdditionError, TargetSystemKind, TargetSystemRetrievalError,
    TargetSystemsMemory,
};
use arc_automation::memory::tasks::{
    OnFailBehavior, Task, TaskRetrievalError, TaskState, TasksErrorSetError, TasksMemory, TasksResultSetError,
    TasksStateSetError,
};

fn names(v: &[&str]) -> Vec<String> {
    v.iter().map(|s| s.to_string()).collect()
}

fn group(name: &str, members: &[&str]) -> TargetGroup {
    TargetGroup { name: name.to_string(), members: names(members) }
}

fn task(name: &str) -> Task {
    Task {
        name: name.to_string(),
        handler: 1,
        when: None,
        on_fail: OnFailBehavior::Continue,
        tags: Vec::new(),
        groups: Vec::new(),
        required_tags: Vec::new(),
        important: false,
        result: None,
        state: None,
        error: None,
    }
}

#[test]
fn group_is_read_back_after_add() {
    let mut memory = TargetGroupsMemory::new();
    assert!(memory.add(group("web", &["a", "b"])).is_ok());
    let g = memory.get("web").unwrap();
    assert_eq!(g.name, "web");
    assert_eq!(g.members, names(&["a", "b"]));
}

#[test]
fn duplicate_group_replaces_and_reports() {
    let mut memory = TargetGroupsMemory::new();
    memory.add(group("web", &["a"])).unwrap();
    match memory.add(group("web", &["b"])) {
        Err(TargetGroupAdditionError::DuplicateGroup(e)) => assert_eq!(e.0, "web"),
        other => panic!("unexpected {:?}", other),
    }
    assert_eq!(memory.get("web").unwrap().members, names(&["b"]));
    assert_eq!(memory.all().len(), 1);
}

#[test]
fn missing_group_is_not_defined() {
    let memory = TargetGroupsMemory::new();
    match memory.get("nope") {
        Err(TargetGroupRetrievalError::GroupNotDefinedError(e)) => assert_eq!(e.0, "nope"),
        other => panic!("unexpected {:?}", other),
    }
}

#[test]
fn systems_memory_keeps_registration_order() {
    let mut memory = TargetSystemsMemory::new();
    memory.add(TargetSystem { name: "b".to_string(), kind: TargetSystemKind::Local }).unwrap();
    memory
        .add(TargetSystem {
            name: "a".to_string(),
            kind: TargetSystemKind::Remote(RemoteTargetSystem {
                address: "10.0.0.1".to_string(),
                port: 22,
                user: "root".to_string(),
            }),
        })
        .unwrap();
    let all = memory.all();
    assert_eq!(all.len(), 2);
    assert_eq!(all[0].name, "b");
    assert_eq!(all[1].name, "a");
    match memory.add(TargetSystem { name: "a".to_string(), kind: TargetSystemKind::Local }) {
        Err(TargetSystemAdditionError::DuplicateSystem(e)) => assert_eq!(e.0, "a"),
        other => panic!("unexpected {:?}", other),
    }
    assert!(matches!(memory.get("a").unwrap().kind, TargetSystemKind::Local));
    assert!(matches!(memory.get("zzz"), Err(TargetSystemRetrievalError::SystemNotDefinedError(_))));
}

#[test]
fn added_task_is_tagged_with_its_name() {
    let mut memory = TasksMemory::new();
    let mut t = task("install");
    t.tags = names(&["setup"]);
    memory.add(t).unwrap();
    let back = memory.get("install").unwrap();
    assert_eq!(back.tags, names(&["setup", "install"]));
}

#[test]
fn duplicate_task_is_reported_and_replaced() {
    let mut memory = TasksMemory::new();
    memory.add(task("a")).unwrap();
    let mut second = task("a");
    second.important = true;
    let e = memory.add(second).unwrap_err();
    assert_eq!(e.0, "a");
    assert!(memory.get("a").unwrap().important);
}

#[test]
fn task_outcome_is_recorded_and_reset() {
    let mut memory = TasksMemory::new();
    memory.add(task("a")).unwrap();
    memory.add(task("b")).unwrap();
    memory.set_task_result("a", 7).unwrap();
    memory.set_task_state("a", TaskState::Success).unwrap();
    memory.set_task_error("b", "boom".to_string()).unwrap();
    let a = memory.get("a").unwrap();
    assert_eq!(a.result, Some(7));
    assert_eq!(a.state, Some(TaskState::Success));
    assert_eq!(memory.get("b").unwrap().error, Some("boom".to_string()));
    memory.reset_execution_state();
    let a = memory.get("a").unwrap();
    assert_eq!(a.result, None);
    assert_eq!(a.state, None);
    assert_eq!(memory.get("b").unwrap().error, None);
}

#[test]
fn recording_on_unknown_task_fails() {
    let mut memory = TasksMemory::new();
    assert!(matches!(memory.set_task_result("x", 1), Err(TasksResultSetError::TaskNotDefined(_))));
    assert!(matches!(memory.set_task_state("x", TaskState::Failed), Err(TasksStateSetError::TaskNotDefined(_))));
    assert!(matches!(
        memory.set_task_error("x", "e".to_string()),
        Err(TasksErrorSetError::TaskNotDefined(_))
    ));
    assert!(matches!(memory.get("x"), Err(TaskRetrievalError::TaskNotDefined(_))));
}

#[test]
fn task_states_and_behaviours_have_snake_case_names() {
    assert_eq!(TaskState::Success.name(), "success");
    assert_eq!(TaskState::from_name("skipped"), Some(TaskState::Skipped));
    assert_eq!(TaskState::from_name("Skipped"), None);
    assert_eq!(OnFailBehavior::SkipSystem.name(), "skip_system");
    assert_eq!(OnFailBehavior::from_name("abort"), Some(OnFailBehavior::Abort));
    assert_eq!(OnFailBehavior::default(), OnFailBehavior::Continue);
}

#[test]
fn targets_groups_and_systems_registries() {
    let mut groups = Groups::new();
    groups.add("web".to_string(), GroupConfig { members: names(&["s1"]) }).unwrap();
    assert!(matches!(
        groups.add("web".to_string(), GroupConfig { members: names(&["s2"]) }),
        Err(GroupAdditionError::DuplicateGroup(_))
    ));
    assert_eq!(groups.get("web".to_string()).unwrap().members, names(&["s2"]));
    assert!(matches!(groups.get("db".to_string()), Err(GroupAcquisitionError::GroupNotDefined(_))));

    let mut systems = Systems::new();
    let config = SystemConfig {
        name: "s1".to_string(),
        address: "10.0.0.2".to_string(),
        port: 2222,
        user: "deploy".to_string(),
    };
    systems.add("s1".to_string(), config).unwrap();
    assert_eq!(systems.get("s1".to_string()).unwrap().port, 2222);
    assert!(matches!(
        systems.add("s1".to_string(), systems.get("s1".to_string()).unwrap()),
        Err(SystemAdditionError::DuplicateSystem(_))
    ));
    assert!(matches!(
        systems.get("s9".to_string()),
        Err(SystemAcquisitionError::SystemNotDefinedError(_))
    ));
}

#[test]
fn targets_validation_reports_first_group_with_unknown_members() {
    let mut targets = Targets::new();
    targets
        .systems
        .add(
            "s1".to_string(),
            SystemConfig { name: "s1".to_string(), address: "1.2.3.4".to_string(), port: 22, user: "u".to_string() },
        )
        .unwrap();
    targets.groups.add("ok".to_string(), GroupConfig { members: names(&["s1"]) }).unwrap();
    assert!(targets.validate().is_ok());
    targets.groups.add("bad".to_string(), GroupConfig { members: names(&["s1", "s2", "s3", "s2"]) }).unwrap();
    match targets.validate() {
        Err(TargetsValidationError::GroupMembersNotDefined(e)) => {
            assert_eq!(e.0, "bad");
            assert_eq!(e.1, names(&["s2", "s3", "s2"]));
        }
        other => panic!("unexpected {:?}", other),
    }
    let (systems, groups) = targets.targets().unwrap();
    assert_eq!(systems.len(), 1);
    assert_eq!(groups.len(), 2);
}

#[test]
fn inventory_groups_need_registered_members() {
    assert_eq!(default_port(), 22);
    let mut inventory = InventoryRegistrationModule::new();
    inventory
        .add_system(
            "s1".to_string(),
            InventorySystemConfig { address: "1.1.1.1".to_string(), port: default_port(), user: "u".to_string() },
        )
        .unwrap();
    assert!(inventory.add_group("g".to_string(), InventoryGroupConfig { members: names(&["s1"]) }).is_ok());
    match inventory.add_group("h".to_string(), InventoryGroupConfig { members: names(&["s1", "x"]) }) {
        Err(InventoryGroupAdditionError::UnregisteredGroupMembers(e)) => assert_eq!(e.0, names(&["x"])),
        other => panic!("unexpected {:?}", other),
    }
    let inv = inventory.inventory().unwrap();
    assert_eq!(inv.systems.len(), 1);
    assert_eq!(inv.groups.len(), 1);
    assert_eq!(inv.groups[0].name, "g");
}
