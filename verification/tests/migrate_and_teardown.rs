use wo::error::Error;
use wo::migrate::{Answer, Migrator, Phase, Request, Settings};
use wo::project::{DatabaseObject, DatabaseProject};
use wo::teardown::{declared_ids, roles_among, Step, Teardown};

fn object(id: &str) -> DatabaseObject {
    DatabaseObject {
        id: id.to_string(),
        path: String::new(),
        script: String::new(),
        md5: String::new(),
        depends_on: Vec::new(),
        required_by: Vec::new(),
    }
}

fn project(migrations: &[&str]) -> DatabaseProject {
    DatabaseProject {
        project_dirpath: "proj".to_string(),
        create_scripts: vec![
            ("00".to_string(), "create role {role_name} password '{password}';".to_string()),
            ("01".to_string(), "create database {database_name} owner {role_name};".to_string()),
        ],
        drop_scripts: vec![
            ("00".to_string(), "drop database {database_name};".to_string()),
            ("01".to_string(), "drop role {role_name};".to_string()),
        ],
        migration_scripts: migrations
            .iter()
            .map(|id| (id.to_string(), format!("-- migration {}", id)))
            .collect(),
        objects: vec![object("table.public.t"), object("role.reader"), object("role.writer")],
    }
}

fn settings() -> Settings {
    Settings {
        database_name: "shop".to_string(),
        role_name: "shop_owner".to_string(),
        password: Some("pw".to_string()),
    }
}

/// What the machine asked for, in words.
fn word(request: &Request) -> String {
    match request {
        Request::Connect => "connect".to_string(),
        Request::ConnectAdmin => "connect admin".to_string(),
        Request::CheckDatabase => "check database".to_string(),
        Request::RunAdmin { sql } => format!("admin: {}", sql),
        Request::CreateCatalog => "create catalog".to_string(),
        Request::ReadWatermark => "read watermark".to_string(),
        Request::Execute { sql } => format!("execute: {}", sql),
        Request::RecordMigration { id } => format!("record {:?}", id),
        Request::Reconcile => "reconcile".to_string(),
        Request::ReadCatalog => "read catalog".to_string(),
        Request::CheckExists { id } => format!("exists {}", id),
        Request::Disconnect => "disconnect".to_string(),
        Request::CheckExistsAdmin { id } => format!("admin exists {}", id),
        Request::Warn { id } => format!("warn {}", id),
        Request::Finish => "finish".to_string(),
        Request::Fail { error } => format!("fail {:?}", error),
    }
}

/// Runs a migration against a database that applies what it is asked.
fn migrate(p: &DatabaseProject, reachable: bool, exists: bool, applied: Vec<&str>) -> (Vec<String>, Vec<String>) {
    let s = settings();
    let mut applied: Vec<String> = applied.iter().map(|x| x.to_string()).collect();
    let mut created = !reachable && exists;
    let mut log = Vec::new();
    let mut m = Migrator::new();
    let mut answer = Answer::Begin;
    for _ in 0..1000 {
        let request = m.step(p, &s, answer);
        log.push(word(&request));
        answer = match request {
            Request::Connect => {
                if reachable || (created && !exists) {
                    Answer::Done
                } else {
                    Answer::Failed { message: "no such database".to_string() }
                }
            }
            Request::CheckDatabase => Answer::Exists(exists),
            Request::RunAdmin { .. } => {
                created = true;
                Answer::Done
            }
            Request::ReadWatermark => Answer::Watermark(applied.iter().max().cloned()),
            Request::RecordMigration { id } => {
                if !applied.contains(&id) {
                    applied.push(id);
                }
                Answer::Done
            }
            Request::Finish | Request::Fail { .. } => return (log, applied),
            _ => Answer::Done,
        };
    }
    panic!("the machine does not come to an end");
}

#[test]
fn fresh_database_is_marked_with_the_last_migration_and_runs_none() {
    let (log, applied) = migrate(&project(&["001", "002"]), false, false, vec![]);
    assert_eq!(
        log,
        vec![
            "connect",
            "connect admin",
            "check database",
            "admin: create role shop_owner password 'pw';",
            "admin: create database shop owner shop_owner;",
            "connect",
            "create catalog",
            "reconcile",
            "record \"002\"",
            "finish",
        ]
    );
    assert_eq!(applied, vec!["002"]);
    assert!(!log.iter().any(|l| l.starts_with("execute")));
}

#[test]
fn database_at_the_first_migration_runs_the_second_only() {
    let (log, applied) = migrate(&project(&["001", "002"]), true, true, vec!["001"]);
    assert_eq!(
        log,
        vec![
            "connect",
            "create catalog",
            "read watermark",
            "execute: -- migration 002",
            "record \"002\"",
            "read watermark",
            "reconcile",
            "finish",
        ]
    );
    assert_eq!(applied, vec!["001", "002"]);
}

#[test]
fn every_migration_above_the_watermark_runs_in_order() {
    let (log, applied) = migrate(&project(&["001", "002", "003"]), true, true, vec!["000"]);
    let executed: Vec<&String> = log.iter().filter(|l| l.starts_with("execute")).collect();
    assert_eq!(
        executed,
        vec!["execute: -- migration 001", "execute: -- migration 002", "execute: -- migration 003"]
    );
    assert_eq!(applied, vec!["000", "001", "002", "003"]);
    assert_eq!(log.last().unwrap(), "finish");
}

#[test]
fn database_at_the_last_migration_is_only_reconciled() {
    let (log, applied) = migrate(&project(&["001", "002"]), true, true, vec!["002"]);
    assert_eq!(log, vec!["connect", "create catalog", "read watermark", "reconcile", "finish"]);
    assert_eq!(applied, vec!["002"]);
}

#[test]
fn database_without_watermark_is_taken_to_be_up_to_date() {
    let (log, applied) = migrate(&project(&["001", "002"]), true, true, vec![]);
    assert_eq!(
        log,
        vec!["connect", "create catalog", "read watermark", "reconcile", "record \"002\"", "finish"]
    );
    assert_eq!(applied, vec!["002"]);
}

#[test]
fn project_without_migrations_records_the_empty_id() {
    let (log, applied) = migrate(&project(&[]), true, true, vec![]);
    assert!(log.contains(&"record \"\"".to_string()));
    assert_eq!(applied, vec![""]);
}

#[test]
fn database_that_exists_and_cannot_be_reached_is_an_error() {
    let (log, _) = migrate(&project(&["001"]), false, true, vec![]);
    assert_eq!(
        log,
        vec!["connect", "connect admin", "check database", "fail DatabaseUnreachable"]
    );
}

#[test]
fn a_refused_migration_is_not_marked() {
    let p = project(&["001", "002"]);
    let s = settings();
    let mut m = Migrator::new();
    assert!(matches!(m.step(&p, &s, Answer::Begin), Request::Connect));
    assert!(matches!(m.step(&p, &s, Answer::Done), Request::CreateCatalog));
    assert!(matches!(m.step(&p, &s, Answer::Done), Request::ReadWatermark));
    match m.step(&p, &s, Answer::Watermark(Some("001".to_string()))) {
        Request::Execute { sql } => assert_eq!(sql, "-- migration 002"),
        other => panic!("{}", word(&other)),
    }
    assert_eq!(m.phase, Phase::Migrating);
    assert_eq!(m.current, "002");
    match m.step(&p, &s, Answer::Failed { message: "boom".to_string() }) {
        Request::Fail { error: Error::Database { message } } => assert_eq!(message, "boom"),
        other => panic!("{}", word(&other)),
    }
    assert!(matches!(m.step(&p, &s, Answer::Done), Request::Fail { error: Error::Stopped }));
}

#[test]
fn a_migration_that_cannot_be_marked_names_itself() {
    let p = project(&["001"]);
    let s = settings();
    let mut m = Migrator::new();
    m.step(&p, &s, Answer::Begin);
    m.step(&p, &s, Answer::Done);
    m.step(&p, &s, Answer::Done);
    assert!(matches!(m.step(&p, &s, Answer::Watermark(Some("".to_string()))), Request::Execute { .. }));
    match m.step(&p, &s, Answer::Done) {
        Request::RecordMigration { id } => assert_eq!(id, "001"),
        other => panic!("{}", word(&other)),
    }
    match m.step(&p, &s, Answer::Failed { message: "read only".to_string() }) {
        Request::Fail { error: Error::MarkFailed { id, message } } => {
            assert_eq!(id, "001");
            assert_eq!(message, "read only");
        }
        other => panic!("{}", word(&other)),
    }
}

#[test]
fn a_watermark_that_vanishes_is_an_error() {
    let p = project(&["001"]);
    let s = settings();
    let mut m = Migrator::new();
    m.step(&p, &s, Answer::Begin);
    m.step(&p, &s, Answer::Done);
    m.step(&p, &s, Answer::Done);
    m.step(&p, &s, Answer::Watermark(Some("000".to_string())));
    m.step(&p, &s, Answer::Done);
    assert!(matches!(m.step(&p, &s, Answer::Done), Request::ReadWatermark));
    match m.step(&p, &s, Answer::Watermark(None)) {
        Request::Fail { error: Error::WatermarkLost { id } } => assert_eq!(id, "001"),
        other => panic!("{}", word(&other)),
    }
}

#[test]
fn create_script_that_wants_a_password_without_one() {
    let p = project(&[]);
    let s = Settings { password: None, ..settings() };
    let mut m = Migrator::new();
    m.step(&p, &s, Answer::Begin);
    m.step(&p, &s, Answer::Failed { message: "down".to_string() });
    m.step(&p, &s, Answer::Done);
    assert!(matches!(
        m.step(&p, &s, Answer::Exists(false)),
        Request::Fail { error: Error::MissingPassword }
    ));
}

#[test]
fn no_connection_at_all_is_an_error() {
    let p = project(&[]);
    let s = settings();
    let mut m = Migrator::new();
    m.step(&p, &s, Answer::Begin);
    assert!(matches!(m.step(&p, &s, Answer::Failed { message: "a".to_string() }), Request::ConnectAdmin));
    match m.step(&p, &s, Answer::Failed { message: "b".to_string() }) {
        Request::Fail { error: Error::Connection { message } } => assert_eq!(message, "b"),
        other => panic!("{}", word(&other)),
    }
    assert_eq!(m.phase, Phase::Failed);
}

/// Runs a teardown against a database in which the given roles exist.
fn teardown(p: &DatabaseProject, reachable: bool, catalog: Vec<&str>, mut live: Vec<&str>, stubborn: Vec<&str>) -> Vec<String> {
    let s = settings();
    let mut log = Vec::new();
    let mut m = Teardown::new();
    let mut answer = Answer::Begin;
    let mut probed = String::new();
    for _ in 0..1000 {
        let request = m.step(p, &s, answer);
        log.push(word(&request));
        answer = match request {
            Request::Connect => {
                if reachable {
                    Answer::Done
                } else {
                    Answer::Failed { message: "no such database".to_string() }
                }
            }
            Request::CheckDatabase => Answer::Exists(false),
            Request::ReadCatalog => {
                Answer::Catalog { ids: catalog.iter().map(|x| x.to_string()).collect() }
            }
            Request::CheckExists { id } | Request::CheckExistsAdmin { id } => {
                probed = id.clone();
                Answer::Exists(live.contains(&id.as_str()))
            }
            Request::Execute { .. } => {
                if !stubborn.contains(&probed.as_str()) {
                    live.retain(|x| *x != probed);
                }
                Answer::Done
            }
            Request::Finish | Request::Fail { .. } => return log,
            _ => Answer::Done,
        };
    }
    panic!("the machine does not come to an end");
}

#[test]
fn roles_go_before_the_database() {
    let log = teardown(
        &project(&[]),
        true,
        vec!["role.old", "view.public.v", "role.reader"],
        vec!["role.old", "role.reader"],
        vec![],
    );
    assert_eq!(
        log,
        vec![
            "connect admin",
            "connect",
            "read catalog",
            "exists role.old",
            "execute: grant old to shop_owner; reassign owned by old to shop_owner; drop owned by old cascade; drop role old;",
            "exists role.reader",
            "execute: grant reader to shop_owner; reassign owned by reader to shop_owner; drop owned by reader cascade; drop role reader;",
            "exists role.reader",
            "exists role.writer",
            "disconnect",
            "admin: drop database shop;",
            "admin: drop role shop_owner;",
            "admin exists role.reader",
            "admin exists role.writer",
            "finish",
        ]
    );
}

#[test]
fn a_role_that_is_still_there_is_reported() {
    let log = teardown(&project(&[]), true, vec![], vec!["role.writer"], vec!["role.writer"]);
    assert!(log.contains(&"warn role.writer".to_string()));
    assert!(!log.contains(&"warn role.reader".to_string()));
    assert_eq!(log.last().unwrap(), "finish");
}

#[test]
fn a_database_that_is_gone_is_torn_down_by_the_scripts_alone() {
    let log = teardown(&project(&[]), false, vec![], vec![], vec![]);
    assert_eq!(
        log,
        vec![
            "connect admin",
            "connect",
            "check database",
            "admin: drop database shop;",
            "admin: drop role shop_owner;",
            "admin exists role.reader",
            "admin exists role.writer",
            "finish",
        ]
    );
}

#[test]
fn teardown_stops_where_the_database_cannot_be_reached() {
    let p = project(&[]);
    let s = settings();
    let mut m = Teardown::new();
    assert!(matches!(m.step(&p, &s, Answer::Begin), Request::ConnectAdmin));
    assert!(matches!(m.step(&p, &s, Answer::Done), Request::Connect));
    assert!(matches!(
        m.step(&p, &s, Answer::Failed { message: "x".to_string() }),
        Request::CheckDatabase
    ));
    assert!(matches!(
        m.step(&p, &s, Answer::Exists(true)),
        Request::Fail { error: Error::DatabaseUnreachable }
    ));
    assert_eq!(m.step, Step::Failed);
    let mut m = Teardown::new();
    m.step(&p, &s, Answer::Begin);
    assert!(matches!(
        m.step(&p, &s, Answer::Failed { message: "x".to_string() }),
        Request::Fail { error: Error::Connection { .. } }
    ));
}

#[test]
fn a_malformed_id_in_the_catalog_stops_the_teardown() {
    let p = project(&[]);
    let s = settings();
    let mut m = Teardown::new();
    m.step(&p, &s, Answer::Begin);
    m.step(&p, &s, Answer::Done);
    m.step(&p, &s, Answer::Done);
    assert!(matches!(
        m.step(&p, &s, Answer::Catalog { ids: vec!["role.a.b".to_string()] }),
        Request::Fail { error: Error::MalformedId }
    ));
}

#[test]
fn settings_take_plain_names_only() {
    let s = Settings::new("shop".to_string(), "shop_owner".to_string(), Some("pw_1".to_string())).unwrap();
    assert_eq!(s.database_name, "shop");
    assert_eq!(s.role_name, "shop_owner");
    assert_eq!(s.password, Some("pw_1".to_string()));
    assert!(Settings::new("shop".to_string(), "r".to_string(), None).is_ok());
    match Settings::new("shop;drop".to_string(), "r r".to_string(), None) {
        Err(Error::UnsafeName { name }) => assert_eq!(name, "shop;drop"),
        _ => panic!("the database name is refused"),
    }
    match Settings::new("shop".to_string(), "".to_string(), None) {
        Err(Error::UnsafeName { name }) => assert_eq!(name, ""),
        _ => panic!("the empty role name is refused"),
    }
    match Settings::new("shop".to_string(), "r".to_string(), Some("p'w".to_string())) {
        Err(Error::UnsafeName { name }) => assert_eq!(name, "p'w"),
        _ => panic!("the password is refused"),
    }
    assert!(Settings::new("sh\u{f6}p".to_string(), "r".to_string(), None).is_err());
}

#[test]
fn roles_among_ids() {
    let ids: Vec<String> =
        ["role.b", "view.public.v", "role.a"].iter().map(|s| s.to_string()).collect();
    assert_eq!(roles_among(&ids).unwrap(), vec!["role.b", "role.a"]);
    assert!(matches!(roles_among(&vec!["x.y".to_string()]), Err(Error::UnknownObjectType)));
    assert_eq!(declared_ids(&project(&[])), vec!["table.public.t", "role.reader", "role.writer"]);
}
