use arc_automation::engine::delegator::operator::{file_name, parent_directory, with_file_name};
use arc_automation::engine::delegator::error::{ExecutionError, OperationError};
use arc_automation::engine::delegator::host::{self, IoErrorKind};
use arc_automation::engine::delegator::operator::{
    directory_entries, locality, transfer_plan, FileSystemEntry, FileWriteResult, Locality, MetadataResult,
    MetadataType, OperatorKind, ProgressOwner,
};
use arc_automation::engine::delegator::ssh::{self, SshErrorCode};
use arc_automation::engine::delegator::{creation_step, file_check, validity_step, AncestorStat, FileCheck, WalkStep};
use arc_automation::engine::delegator::executor::CommandResult;
use arc_automation::engine::file_system::{FileReadErrorKind, FileSystem};
use arc_automation::engine::modules::arc::Arc;
use arc_automation::engine::modules::format::env::{variable_map, Env};
use arc_automation::engine::modules::log::Log;
use arc_automation::engine::recipe::{Recipe, RecipeCreationError};
use arc_automation::engine::tasks::{
    sort_for_execution, RelativeOrder, Task as DefinedTask, TaskFromLuaValueError, TaskValueRead,
};
use arc_automation::engine::templates::{argument_name, ArgumentKey};
use arc_automation::error::ErrorReport;
use arc_automation::list::{convert_groups, convert_systems, convert_tasks, format_list, list_system_tasks, port_text};
use arc_automation::logger::{LogLevel, Logger};
use arc_automation::memory::target_groups::TargetGroup;
use arc_automation::memory::target_systems::{RemoteTargetSystem, TargetSystem, TargetSystemKind};
use arc_automation::memory::tasks::{OnFailBehavior, Task, TasksMemory};
use arc_automation::ordering::str_less;
use arc_automation::progress::{OutputTarget, ProgressContext, TaskLogger, TransferDirection};
use arc_automation::cli::Command;

fn names(v: &[&str]) -> Vec<String> {
    v.iter().map(|s| s.to_string()).collect()
}

#[test]
fn format_list_joins_with_commas() {
    assert_eq!(format_list(&[]), "");
    assert_eq!(format_list(&names(&["a"])), "a");
    assert_eq!(format_list(&names(&["a", "b", "c"])), "a,b,c");
}

#[test]
fn names_order_by_code_point() {
    assert!(str_less("a", "b"));
    assert!(str_less("ab", "abc"));
    assert!(!str_less("abc", "ab"));
    assert!(str_less("Z", "a"));
    assert!(!str_less("a", "a"));
}

#[test]
fn listings_are_sorted_by_name() {
    let groups = vec![
        TargetGroup { name: "web".to_string(), members: names(&["s2", "s1"]) },
        TargetGroup { name: "db".to_string(), members: names(&["s3"]) },
    ];
    let rows = convert_groups(&groups);
    assert_eq!(rows[0].name, "db");
    assert_eq!(rows[1].name, "web");
    assert_eq!(rows[1].members, names(&["s1", "s2"]));

    let systems = vec![
        TargetSystem { name: "s3".to_string(), kind: TargetSystemKind::Local },
        TargetSystem {
            name: "s1".to_string(),
            kind: TargetSystemKind::Remote(RemoteTargetSystem {
                address: "10.0.0.1".to_string(),
                port: 2222,
                user: "deploy".to_string(),
            }),
        },
    ];
    let rows = convert_systems(&systems, &groups);
    assert_eq!(rows[0].name, "s1");
    assert_eq!(rows[0].kind, "remote");
    assert_eq!(rows[0].port, "2222");
    assert_eq!(rows[0].groups, names(&["web"]));
    assert_eq!(rows[1].name, "s3");
    assert_eq!(rows[1].kind, "local");
    assert_eq!(rows[1].address, "");
    assert_eq!(rows[1].groups, names(&["db"]));
}

#[test]
fn task_listing_rows() {
    let mut memory = TasksMemory::new();
    for (name, tags) in [("zeta", vec!["b", "a"]), ("alpha", vec![])] {
        memory
            .add(Task {
                name: name.to_string(),
                handler: 0,
                when: None,
                on_fail: OnFailBehavior::Abort,
                tags: names(&tags),
                groups: names(&["g2", "g1"]),
                required_tags: vec![],
                important: true,
                result: None,
                state: None,
                error: None,
            })
            .unwrap();
    }
    let rows = convert_tasks(&memory.all());
    assert_eq!(rows[0].name, "alpha");
    assert_eq!(rows[0].tags, names(&["alpha"]));
    assert_eq!(rows[1].tags, names(&["a", "b", "zeta"]));
    assert_eq!(rows[1].targets, names(&["g1", "g2"]));
    assert_eq!(rows[1].on_fail, "abort");
    let tasks: Vec<Task> = memory.all().into_values().collect();
    let rows = list_system_tasks(&tasks);
    assert_eq!(rows[0].name, "zeta");
    assert_eq!(rows[1].name, "alpha");
}

#[test]
fn ports_print_in_decimal() {
    assert_eq!(port_text(0), "0");
    assert_eq!(port_text(22), "22");
    assert_eq!(port_text(65535), "65535");
}

#[test]
fn error_report_lists_causes() {
    assert_eq!(ErrorReport::boxed_from(names(&["top"])).build_report(), "top");
    assert_eq!(
        ErrorReport::boxed_from(names(&["Failed to add group", "Duplicate group: \"web\""])).build_report(),
        "Failed to add group\nCaused by:\n    Duplicate group: \"web\""
    );
    assert_eq!(ErrorReport::boxed_from(vec![]).build_report(), "");
}

#[test]
fn log_levels_and_output_targets() {
    assert_eq!(LogLevel::Debug.label(), "DEBG");
    assert_eq!(LogLevel::Error.label(), "ERRO");
    let logger = Logger::new();
    assert_eq!(logger.system("s1").unwrap().name, "s1");
    let mut progress = ProgressContext::new(logger);
    assert_eq!(progress.log(LogLevel::Info, "hi"), OutputTarget::Console);
    progress.activate(TaskLogger(4));
    assert_eq!(progress.command("ls"), OutputTarget::Task(TaskLogger(4)));
    let direction = TransferDirection::Copy { source_file_path: "a".to_string(), target_file_path: "b".to_string() };
    assert_eq!(progress.transfer(&direction, 10), OutputTarget::Task(TaskLogger(4)));
    progress.deactivate();
    assert_eq!(progress.command("ls"), OutputTarget::Console);
    let log = Log::new(ProgressContext::new(Logger::new()));
    assert_eq!(log.log(LogLevel::Warn, "x"), OutputTarget::Console);
}

#[test]
fn io_errors_are_classified_by_kind() {
    let e = || std::io::Error::new(std::io::ErrorKind::Other, "x");
    assert!(matches!(
        host::classify_io_error(IoErrorKind::NotFound, e(), "/p"),
        ExecutionError::User(host::UserError::NotFound(_))
    ));
    match host::classify_io_error(IoErrorKind::NotADirectory, e(), "/p/q") {
        ExecutionError::User(host::UserError::NotADirectory(p)) => assert_eq!(p, "/p/q"),
        other => panic!("unexpected {:?}", other),
    }
    let infra = host::classify_io_error(IoErrorKind::Other, e(), "/p");
    assert!(!infra.is_user_error());
    assert!(!OperationError::Local(infra).is_user_error());
    assert!(host::classify_io_error(IoErrorKind::TooManyLinks, e(), "/p").is_user_error());
    assert_eq!(host::exit_code(Some(3)), 3);
    assert_eq!(host::exit_code(None), -1);
    assert_eq!(host::permission_bits(0o100755), 0o755);
}

#[test]
fn ssh_errors_are_classified_by_code() {
    let e = || ssh2::Error::new(ssh2::ErrorCode::Session(-1), "x");
    assert!(matches!(
        ssh::classify_ssh_error(SshErrorCode::Sftp(2), e(), "/p"),
        ExecutionError::User(ssh::UserError::NotFound(_))
    ));
    assert!(matches!(
        ssh::classify_ssh_error(SshErrorCode::Sftp(3), e(), "/p"),
        ExecutionError::User(ssh::UserError::PermissionDenied(_))
    ));
    assert!(matches!(
        ssh::classify_ssh_error(SshErrorCode::Sftp(7), e(), "/p"),
        ExecutionError::Infrastructure(ssh::InfrastructureError::OtherSsh(_))
    ));
    assert!(matches!(
        ssh::classify_ssh_error(SshErrorCode::Sftp(4), e(), "/p"),
        ExecutionError::User(ssh::UserError::Failure(_))
    ));
    assert!(matches!(
        ssh::classify_ssh_error(SshErrorCode::Session(-31), e(), "/p"),
        ExecutionError::User(ssh::UserError::Failure(_))
    ));
    assert!(matches!(
        ssh::classify_ssh_error(SshErrorCode::Session(-7), e(), "/p"),
        ExecutionError::Infrastructure(ssh::InfrastructureError::NeedsReconnect(_))
    ));
    assert!(ssh::is_missing(SshErrorCode::Sftp(2)));
    assert!(!ssh::is_missing(SshErrorCode::Session(2)));
    assert!(ssh::is_end_of_listing(SshErrorCode::Session(-16)));
}

#[test]
fn ancestor_walks() {
    assert_eq!(creation_step(AncestorStat::Missing), WalkStep::Create);
    assert_eq!(validity_step(AncestorStat::Missing), WalkStep::Stop);
    assert_eq!(validity_step(AncestorStat::NotDirectory), WalkStep::NotADirectory);
    assert_eq!(creation_step(AncestorStat::Directory), WalkStep::Continue);
    assert_eq!(file_check(AncestorStat::Directory), FileCheck::IsADirectory);
    assert_eq!(file_check(AncestorStat::Missing), FileCheck::Valid);
}

#[test]
fn transfers_and_listings() {
    assert_eq!(locality(OperatorKind::Ssh), Locality::Remote);
    assert_eq!(locality(OperatorKind::Host), Locality::Local);
    assert_eq!(Locality::Remote.name(), "remote");
    let (direction, owner) = transfer_plan(OperatorKind::Local, OperatorKind::Ssh, "a".to_string(), "b".to_string());
    assert_eq!(owner, ProgressOwner::Target);
    assert!(matches!(direction, TransferDirection::Upload { source_file_path: Some(_), .. }));
    let (direction, owner) = transfer_plan(OperatorKind::Ssh, OperatorKind::Host, "a".to_string(), "b".to_string());
    assert_eq!(owner, ProgressOwner::Source);
    assert!(matches!(direction, TransferDirection::Download { target_file_path: Some(_), .. }));
    let (direction, _) = transfer_plan(OperatorKind::Ssh, OperatorKind::Ssh, "a".to_string(), "b".to_string());
    assert!(matches!(direction, TransferDirection::Copy { .. }));

    let entry = |path: &str, entry_type| MetadataResult {
        path: path.to_string(),
        size: None,
        permissions: None,
        entry_type,
        uid: None,
        gid: None,
        accessed: None,
        modified: None,
    };
    let entries = directory_entries(vec![
        entry("/d/a", MetadataType::File),
        entry("/d/sock", MetadataType::Unknown),
        entry("/d/sub", MetadataType::Directory),
    ]);
    assert_eq!(entries.len(), 2);
    assert!(matches!(&entries[0], FileSystemEntry::File(p) if p == "/d/a"));
    assert!(matches!(&entries[1], FileSystemEntry::Directory(p) if p == "/d/sub"));
    assert_eq!(MetadataType::of(false, true), MetadataType::Directory);
    assert_eq!(MetadataType::default().name(), "unknown");
    assert_eq!(FileWriteResult::default().bytes_written, 0);
    assert_eq!(CommandResult::default().exit_code, 0);
}

#[test]
fn env_text_decodes_to_a_sorted_map() {
    let m = Env::decode("B=2\nA=1\nB=3\n").unwrap();
    assert_eq!(m, vec![("A".to_string(), "1".to_string()), ("B".to_string(), "3".to_string())]);
    assert!(Env::decode("not a valid line\n").is_err());
    let m = variable_map(vec![("x".to_string(), "1".to_string()), ("w".to_string(), "2".to_string())]);
    assert_eq!(m[0].0, "w");
}

#[test]
fn template_argument_names() {
    assert_eq!(argument_name(ArgumentKey::Text("k".to_string())).unwrap(), "k");
    assert_eq!(argument_name(ArgumentKey::Integer(-42)).unwrap(), "-42");
    assert_eq!(argument_name(ArgumentKey::Integer(i64::MIN)).unwrap(), i64::MIN.to_string());
    assert_eq!(argument_name(ArgumentKey::Integer(7)).unwrap(), "7");
    assert_eq!(argument_name(ArgumentKey::Other("function".to_string())).unwrap_err().0, "function");
}

fn defined(name: &str, deps: &[&str]) -> DefinedTask {
    DefinedTask { name: name.to_string(), handler: 0, dependencies: names(deps), tags: vec![], result: None }
}

#[test]
fn recipe_puts_dependencies_first() {
    let tasks = vec![defined("app", &["db", "cfg"]), defined("db", &["cfg"]), defined("cfg", &[])];
    let recipe = Recipe::from_tasks(&tasks).unwrap();
    let order: Vec<String> = recipe.tasks.iter().map(|t| t.name.clone()).collect();
    assert_eq!(order, names(&["cfg", "db", "app"]));
    let cyclic = vec![defined("a", &["b"]), defined("b", &["a"])];
    assert!(matches!(Recipe::from_tasks(&cyclic), Err(RecipeCreationError::CyclicDependency(_))));
}

#[test]
fn recipe_keeps_independent_tasks_in_given_order() {
    let tasks = vec![defined("c", &["missing"]), defined("a", &[]), defined("b", &[])];
    let recipe = Recipe::from_tasks(&tasks).unwrap();
    let order: Vec<String> = recipe.tasks.iter().map(|t| t.name.clone()).collect();
    assert_eq!(order, names(&["c", "a", "b"]));
    let pulled = vec![defined("x", &["z"]), defined("y", &[]), defined("z", &[])];
    let recipe = Recipe::from_tasks(&pulled).unwrap();
    let order: Vec<String> = recipe.tasks.iter().map(|t| t.name.clone()).collect();
    assert_eq!(order, names(&["z", "x", "y"]));
}

#[test]
fn relative_order_of_tasks() {
    let plain = defined("p", &[]);
    let dependent = defined("d", &["p"]);
    assert_eq!(plain.order_relative_to(&dependent), RelativeOrder::Before);
    assert_eq!(dependent.order_relative_to(&plain), RelativeOrder::After);
    assert_eq!(plain.partial_cmp(&defined("q", &[])), Some(std::cmp::Ordering::Equal));
    let sorted = sort_for_execution(vec![defined("d", &["p"]), defined("p", &[])]);
    assert_eq!(sorted[0].name, "p");
}

#[test]
fn task_values() {
    let t = DefinedTask::try_from_value("t".to_string(), TaskValueRead::Function(5)).unwrap();
    assert_eq!(t.handler, 5);
    assert!(t.dependencies.is_empty());
    let r = DefinedTask::try_from_value(
        "t".to_string(),
        TaskValueRead::Table { handler: Some(1), dependencies: None, tags: Some(None) },
    );
    assert_eq!(r.unwrap_err(), TaskFromLuaValueError::InvalidDependencies);
    let r = DefinedTask::try_from_value("t".to_string(), TaskValueRead::Other);
    assert_eq!(r.unwrap_err(), TaskFromLuaValueError::NotAFunctionOrTaskConfig);
}

#[test]
fn files_must_lie_under_the_root() {
    let fs = FileSystem::new("/project".to_string());
    assert_eq!(fs.check_in_root("/project/a/b.txt".to_string()).unwrap(), "/project/a/b.txt");
    let e = fs.check_in_root("/projects/x".to_string()).unwrap_err();
    assert!(matches!(e.kind, FileReadErrorKind::PathNotInRoot(_)));
    assert_eq!(e.path, "/projects/x");
}

#[test]
fn system_object_fields() {
    let remote = TargetSystemKind::Remote(RemoteTargetSystem {
        address: "10.1.1.1".to_string(),
        port: 22,
        user: "root".to_string(),
    });
    assert_eq!(remote.kind_name(), "remote");
    assert_eq!(remote.address(), Some("10.1.1.1".to_string()));
    assert_eq!(remote.port(), Some(22));
    let local = TargetSystemKind::Local;
    assert_eq!(local.kind_name(), "local");
    assert_eq!(local.address(), None);
    assert_eq!(local.port(), None);
    assert_eq!(local.user(), None);
}

#[test]
fn arc_global_paths_and_default_command() {
    let arc = Arc::new("/root".to_string(), "/home/u".to_string());
    assert_eq!(arc.project_root_path(), "/root");
    assert_eq!(arc.home_path(), "/home/u");
    assert!(matches!(Command::default(), Command::Run { dry_run: false, all_tags: false, .. }));
}

#[test]
fn file_name_is_the_last_component() {
    assert_eq!(file_name("/etc/nginx/nginx.conf"), Some("nginx.conf".to_string()));
    assert_eq!(file_name("/etc/.."), None);
    assert_eq!(file_name("/"), None);
}

#[test]
fn env_names_come_from_the_text() {
    let m = Env::decode("# comment\nexport Z=1\nY=\"two words\"\n\nZ=3\n").unwrap();
    let names: Vec<String> = m.iter().map(|p| p.0.clone()).collect();
    assert_eq!(names, vec!["Y".to_string(), "Z".to_string()]);
    assert_eq!(m[0].1, "two words");
    assert!(Env::decode("A='unclosed\n").is_err());
    assert!(Env::decode("").unwrap().is_empty());
}

#[test]
fn renamed_path_and_parent_directory() {
    assert_eq!(with_file_name("/etc/nginx/nginx.conf", "site.conf"), "/etc/nginx/site.conf");
    assert_eq!(with_file_name("/tmp", "x"), "/x");
    assert_eq!(parent_directory("/etc/nginx/nginx.conf"), Some("/etc/nginx".to_string()));
    assert_eq!(parent_directory("/"), None);
}
