use arc_automation::engine::modules::targets::groups::{GroupAdditionError, GroupConfig, GroupFields, GroupsTable};
use arc_automation::engine::modules::targets::systems::{
    SystemAdditionError, SystemConfig, SystemFields, SystemRetrievalError, SystemType, SystemsTable, TypeField,
};
use arc_automation::engine::modules::tasks::{
    source_tags, TaskConfig, TaskConfigAdditionError, TaskFields, TasksModuleRetrievalError, TasksTable,
};
use arc_automation::engine::modules::{FieldRead, TableRead};
use arc_automation::memory::target_groups::{TargetGroup, TargetGroupsMemory};
use arc_automation::memory::target_systems::{TargetSystemKind, TargetSystemsMemory};
use arc_automation::memory::tasks::{OnFailBehavior, TasksMemory};

fn names(v: &[&str]) -> Vec<String> {
    v.iter().map(|s| s.to_string()).collect()
}

fn fields() -> TaskFields {
    TaskFields {
        handler: FieldRead::Value(3),
        when: Some(None),
        on_fail: Some(None),
        tags: Some(None),
        groups: Some(None),
        required_tags: Some(None),
        important: Some(None),
    }
}

fn error_of(read: TableRead<TaskFields>) -> String {
    TaskConfig::from_table(read).unwrap_err()
}

#[test]
fn task_config_defaults() {
    let c = TaskConfig::from_table(TableRead::Table(fields())).unwrap();
    assert_eq!(c.handler, 3);
    assert_eq!(c.when, None);
    assert_eq!(c.on_fail, OnFailBehavior::Continue);
    assert!(c.tags.is_empty() && c.groups.is_empty() && c.required_tags.is_empty());
    assert!(!c.important);
}

#[test]
fn task_config_fields_are_read() {
    let mut f = fields();
    f.when = Some(Some(9));
    f.on_fail = Some(Some("skip_system".to_string()));
    f.tags = Some(Some(names(&["a", "b", "a"])));
    f.groups = Some(Some(names(&["web"])));
    f.required_tags = Some(Some(names(&["base"])));
    f.important = Some(Some(true));
    let c = TaskConfig::from_table(TableRead::Table(f)).unwrap();
    assert_eq!(c.when, Some(9));
    assert_eq!(c.on_fail, OnFailBehavior::SkipSystem);
    assert_eq!(c.tags, names(&["a", "b"]));
    assert_eq!(c.groups, names(&["web"]));
    assert_eq!(c.required_tags, names(&["base"]));
    assert!(c.important);
}

#[test]
fn task_config_errors_in_field_order() {
    assert_eq!(error_of(TableRead::NotATable("number".to_string())), "\"number\" is not a valid task config");
    let mut f = fields();
    f.handler = FieldRead::Unreadable;
    f.when = None;
    assert_eq!(error_of(TableRead::Table(f)), "\"handler\" is missing");
    let mut f = fields();
    f.handler = FieldRead::Invalid;
    assert_eq!(error_of(TableRead::Table(f)), "\"handler\" is invalid");
    let mut f = fields();
    f.when = None;
    f.tags = None;
    assert_eq!(error_of(TableRead::Table(f)), "\"when\" is invalid");
    let mut f = fields();
    f.on_fail = None;
    assert_eq!(error_of(TableRead::Table(f)), "\"on_fail\" is invalid");
    let mut f = fields();
    f.on_fail = Some(Some("explode".to_string()));
    assert_eq!(
        error_of(TableRead::Table(f)),
        "Invalid on_fail value: \"explode\". Expected \"continue\", \"skip_system\", or \"abort\""
    );
    let mut f = fields();
    f.tags = None;
    assert_eq!(error_of(TableRead::Table(f)), "\"tags\" is invalid");
    let mut f = fields();
    f.groups = None;
    assert_eq!(error_of(TableRead::Table(f)), "\"groups\" is invalid");
    let mut f = fields();
    f.required_tags = None;
    assert_eq!(error_of(TableRead::Table(f)), "\"requires\" is invalid");
    let mut f = fields();
    f.important = None;
    assert_eq!(error_of(TableRead::Table(f)), "\"important\" is invalid");
}

fn system_fields() -> SystemFields {
    SystemFields {
        type_field: TypeField::Nil,
        address: FieldRead::Value("192.168.1.100".to_string()),
        user: FieldRead::Value("root".to_string()),
        port: Some(None),
    }
}

#[test]
fn system_config_defaults_to_remote_on_port_22() {
    match SystemConfig::from_table(TableRead::Table(system_fields())).unwrap() {
        SystemConfig::Remote { address, port, user } => {
            assert_eq!(address, "192.168.1.100");
            assert_eq!(port, 22);
            assert_eq!(user, "root");
        }
        SystemConfig::Local => panic!("expected a remote system"),
    }
    let mut f = system_fields();
    f.port = Some(Some(2222));
    f.type_field = TypeField::Text("remote".to_string());
    assert!(matches!(
        SystemConfig::from_table(TableRead::Table(f)).unwrap(),
        SystemConfig::Remote { port: 2222, .. }
    ));
}

#[test]
fn local_system_reads_no_address() {
    let f = SystemFields {
        type_field: TypeField::Text("local".to_string()),
        address: FieldRead::Unreadable,
        user: FieldRead::Invalid,
        port: None,
    };
    assert!(matches!(SystemConfig::from_table(TableRead::Table(f)).unwrap(), SystemConfig::Local));
}

#[test]
fn system_config_errors() {
    let message = "\"type\" is invalid - must be either \"remote\" or \"local\"";
    let mut f = system_fields();
    f.type_field = TypeField::Text("cloud".to_string());
    assert_eq!(SystemConfig::from_table(TableRead::Table(f)).unwrap_err(), message);
    let mut f = system_fields();
    f.type_field = TypeField::NotText;
    assert_eq!(SystemConfig::from_table(TableRead::Table(f)).unwrap_err(), message);
    let mut f = system_fields();
    f.address = FieldRead::Invalid;
    assert_eq!(SystemConfig::from_table(TableRead::Table(f)).unwrap_err(), "\"address\" is invalid");
    let mut f = system_fields();
    f.address = FieldRead::Unreadable;
    assert_eq!(SystemConfig::from_table(TableRead::Table(f)).unwrap_err(), "\"address\" is missing");
    let mut f = system_fields();
    f.user = FieldRead::Invalid;
    assert_eq!(SystemConfig::from_table(TableRead::Table(f)).unwrap_err(), "\"user\" is invalid");
    let mut f = system_fields();
    f.port = None;
    assert_eq!(SystemConfig::from_table(TableRead::Table(f)).unwrap_err(), "\"port\" is invalid");
    assert_eq!(
        SystemConfig::from_table(TableRead::NotATable("string".to_string())).unwrap_err(),
        "\"string\" is not a valid system config"
    );
    let mut f = system_fields();
    f.type_field = TypeField::Unreadable;
    assert!(SystemConfig::from_table(TableRead::Table(f)).is_ok());
}

#[test]
fn system_type_names() {
    assert_eq!(SystemType::try_from_string("local".to_string()), Ok(SystemType::Local));
    assert_eq!(SystemType::try_from_string("remote".to_string()), Ok(SystemType::Remote));
    assert_eq!(SystemType::try_from_string("Local".to_string()), Err(()));
    assert_eq!(SystemType::default(), SystemType::Remote);
}

#[test]
fn group_config_from_table() {
    let c = GroupConfig::from_table(TableRead::Table(GroupFields { members: FieldRead::Value(names(&["a"])) }));
    assert_eq!(c.unwrap().members, names(&["a"]));
    let e = GroupConfig::from_table(TableRead::Table(GroupFields { members: FieldRead::Unreadable }));
    assert_eq!(e.unwrap_err(), "\"members\" is missing");
    let e = GroupConfig::from_table(TableRead::Table(GroupFields { members: FieldRead::Invalid }));
    assert_eq!(e.unwrap_err(), "\"members\" is invalid");
    let e = GroupConfig::from_table(TableRead::NotATable("boolean".to_string()));
    assert_eq!(e.unwrap_err(), "\"boolean\" is not a valid group config");
}

#[test]
fn groups_table_defines_and_reads_groups() {
    let mut table = GroupsTable { groups_memory: TargetGroupsMemory::new() };
    table.add("web".to_string(), GroupConfig { members: names(&["s1"]) }).unwrap();
    assert!(matches!(
        table.add("web".to_string(), GroupConfig { members: names(&["s2"]) }),
        Err(GroupAdditionError::TargetGroupAddition(_))
    ));
    assert_eq!(table.get("web".to_string()).unwrap().members, names(&["s2"]));
    assert!(table.get("db".to_string()).is_err());
}

#[test]
fn systems_table_rejects_unparsed_addresses() {
    let mut table = SystemsTable { systems_memory: TargetSystemsMemory::new() };
    let remote = || SystemConfig::Remote { address: "not-an-ip".to_string(), port: 22, user: "u".to_string() };
    assert!(matches!(table.add("s".to_string(), remote(), None), Err(SystemAdditionError::AddrParse(_))));
    assert!(matches!(table.get("s".to_string()), Err(SystemRetrievalError::TargetSystemRetrieval(_))));
    table.add("s".to_string(), remote(), Some("10.0.0.1".to_string())).unwrap();
    match table.get("s".to_string()).unwrap().kind {
        TargetSystemKind::Remote(r) => assert_eq!(r.address, "10.0.0.1"),
        TargetSystemKind::Local => panic!("expected a remote system"),
    }
    table.add("l".to_string(), SystemConfig::Local, None).unwrap();
    assert!(matches!(table.get("l".to_string()).unwrap().kind, TargetSystemKind::Local));
}

#[test]
fn tasks_table_requires_defined_group_filters() {
    let mut groups = TargetGroupsMemory::new();
    groups.add(TargetGroup { name: "web".to_string(), members: vec![] }).unwrap();
    let mut table = TasksTable::new(TasksMemory::new());
    let mut f = fields();
    f.groups = Some(Some(names(&["web", "db", "cache"])));
    let config = TaskConfig::from_table(TableRead::Table(f)).unwrap();
    match table.add(&groups, "deploy".to_string(), config) {
        Err(TaskConfigAdditionError::GroupFilterNotDefined(e)) => {
            assert_eq!(e.0, "deploy");
            assert_eq!(e.1, names(&["db", "cache"]));
        }
        other => panic!("unexpected {:?}", other),
    }
    assert!(matches!(table.get("deploy".to_string()), Err(TasksModuleRetrievalError::TaskRetrieval(_))));
    let mut f = fields();
    f.groups = Some(Some(names(&["web"])));
    let config = TaskConfig::from_table(TableRead::Table(f)).unwrap();
    table.add(&groups, "deploy".to_string(), config).unwrap();
    let t = table.get("deploy".to_string()).unwrap();
    assert_eq!(t.tags, names(&["deploy"]));
    let config = TaskConfig::from_table(TableRead::Table(fields())).unwrap();
    assert!(matches!(
        table.add(&groups, "deploy".to_string(), config),
        Err(TaskConfigAdditionError::TaskAddition(_))
    ));
}

#[test]
fn tasks_are_tagged_by_their_source_path() {
    assert_eq!(source_tags("@modules/web/nginx.lua"), Some(names(&["nginx", "modules", "web"])));
    assert_eq!(source_tags("@@arc.lua"), Some(names(&["arc"])));
    assert_eq!(source_tags("@/etc/arc/./x.lua"), Some(names(&["x", "etc", "arc"])));
    assert_eq!(source_tags("=[C]"), None);
    assert_eq!(source_tags(""), None);
}

#[test]
fn extend_tags_adds_each_tag_once() {
    let mut c = TaskConfig::from_table(TableRead::Table(fields())).unwrap();
    c.extend_tags(names(&["a", "b"]));
    c.extend_tags(names(&["b", "c"]));
    assert_eq!(c.tags, names(&["a", "b", "c"]));
}
