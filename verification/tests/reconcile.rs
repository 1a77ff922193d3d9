use wo::classify::{
    classify, drops_unrecorded, judge, resolve_dirty_table, DirtyTableAction, Verdict,
};
use wo::error::Error;
use wo::graph::{link_objects, ObjectInfo};
use wo::object_type::DatabaseObjectType::{
    Constraint, Extension, Function, Policy, Role, Schema, Table, Trigger, Type, View,
};
use wo::project::DatabaseObject;
use wo::reconcile::{Action, Event, Reconciler, Stage};
use wo::sql::drop_object;

const OWNER: &str = "owner";

fn info(id: &str, script: &str) -> ObjectInfo {
    ObjectInfo {
        id: id.to_string(),
        object_type: wo::object_id::get_object_type(id).unwrap(),
        path: format!("{}.sql", id),
        script: script.to_string(),
    }
}

fn declare(infos: &[(&str, &str)]) -> Vec<DatabaseObject> {
    let infos: Vec<ObjectInfo> = infos.iter().map(|(id, script)| info(id, script)).collect();
    link_objects(&infos, &vec!["public".to_string()]).unwrap()
}

fn record(id: &str, md5: &str, required_by: &[&str]) -> DatabaseObject {
    DatabaseObject {
        id: id.to_string(),
        path: String::new(),
        script: String::new(),
        md5: md5.to_string(),
        depends_on: Vec::new(),
        required_by: required_by.iter().map(|s| s.to_string()).collect(),
    }
}

/// A database held in memory.
struct Db {
    declared: Vec<DatabaseObject>,
    live: Vec<String>,
    catalog: Vec<DatabaseObject>,
    /// `(a, b)`: `a` cannot be dropped while `b` exists.
    holds: Vec<(String, String)>,
    log: Vec<String>,
}

impl Db {
    fn new(declared: &[DatabaseObject]) -> Db {
        Db { declared: declared.to_vec(), live: vec![], catalog: vec![], holds: vec![], log: vec![] }
    }

    fn is_live(&mut self, id: &str) -> bool {
        self.live.iter().any(|x| x == id)
    }

    fn execute(&mut self, sql: &str) -> Result<(), String> {
        if let Some(o) = self.declared.iter().find(|o| o.script == sql) {
            self.log.push(format!("create {}", o.id));
            self.live.push(o.id.clone());
            return Ok(());
        }
        let target = self
            .live
            .iter()
            .find(|id| drop_object(id, OWNER).map(|s| s == sql).unwrap_or(false))
            .cloned();
        match target {
            Some(id) => {
                if self.holds.iter().any(|(a, b)| *a == id && self.live.contains(b)) {
                    self.log.push(format!("refuse {}", id));
                    return Err(format!("cannot drop {}", id));
                }
                self.log.push(format!("drop {}", id));
                self.live.retain(|x| *x != id);
                Ok(())
            }
            None => Err(format!("unknown statement {}", sql)),
        }
    }

    fn write(&mut self, id: &str) {
        let o = self.declared.iter().find(|o| o.id == id).unwrap().clone();
        self.catalog.retain(|x| x.id != id);
        self.catalog.push(o);
        self.log.push(format!("write {}", id));
    }

    fn delete(&mut self, id: &str) {
        self.catalog.retain(|x| x.id != id);
        self.log.push(format!("delete {}", id));
    }

    fn recorded(&self, id: &str) -> bool {
        self.catalog.iter().any(|x| x.id == id)
    }

    fn count(&self, prefix: &str) -> usize {
        self.log.iter().filter(|l| l.starts_with(prefix)).count()
    }

    fn run(&mut self) -> Result<(), Error> {
        let mut machine =
            Reconciler::new(self.declared.clone(), self.catalog.clone(), OWNER.to_string())?;
        let mut event = Event::Resume;
        for _ in 0..100_000 {
            event = match machine.step(event) {
                Action::Proceed => Event::Resume,
                Action::CheckExists { id } => Event::Exists(self.is_live(&id)),
                Action::Execute { sql } => match self.execute(&sql) {
                    Ok(()) => Event::Done,
                    Err(message) => Event::Failed { message },
                },
                Action::WriteRecord { id } => {
                    self.write(&id);
                    Event::Done
                }
                Action::DeleteRecord { id } => {
                    self.delete(&id);
                    Event::Done
                }
                Action::Finish => return Ok(()),
                Action::Fail { error } => return Err(error),
            };
        }
        panic!("the machine does not come to an end");
    }
}

fn shop() -> Vec<DatabaseObject> {
    declare(&[
        ("schema.public", "create schema public;"),
        ("table.public.users", "create table users (id int);"),
        ("view.public.active_users", "create view active_users as select * from users;"),
        ("function.public.count_active", "create function count_active() as 'select count(*) from active_users';"),
    ])
}

#[test]
fn fresh_database_gets_every_object_in_order() {
    let mut db = Db::new(&shop());
    db.run().unwrap();
    let created: Vec<&String> = db.log.iter().filter(|l| l.starts_with("create ")).collect();
    assert_eq!(
        created,
        vec![
            "create schema.public",
            "create table.public.users",
            "create view.public.active_users",
            "create function.public.count_active",
        ]
    );
    assert_eq!(db.catalog.len(), 4);
    assert_eq!(db.live.len(), 4);
    assert_eq!(db.count("drop "), 0);
    assert_eq!(db.count("delete "), 0);
}

#[test]
fn second_run_creates_and_drops_nothing() {
    let mut db = Db::new(&shop());
    db.run().unwrap();
    db.log.clear();
    db.run().unwrap();
    assert_eq!(db.count("create "), 0);
    assert_eq!(db.count("drop "), 0);
    assert_eq!(db.count("refuse "), 0);
    assert_eq!(db.count("delete "), 0);
    assert_eq!(db.count("write "), 4);
    assert_eq!(db.catalog.len(), 4);
}

#[test]
fn roles_are_dropped_and_created_again_on_every_run() {
    let declared = declare(&[("role.reader", "create role reader;")]);
    let mut db = Db::new(&declared);
    db.run().unwrap();
    assert!(db.is_live("role.reader"));
    db.log.clear();
    db.run().unwrap();
    assert_eq!(db.log, vec!["drop role.reader", "delete role.reader", "create role.reader", "write role.reader"]);
}

#[test]
fn removed_objects_are_dropped_dependents_first() {
    let declared = declare(&[("table.public.x", "create table x (id int);")]);
    let mut db = Db::new(&declared);
    db.live = vec!["table.public.x".into(), "view.public.y".into(), "function.public.z".into()];
    db.catalog = vec![
        DatabaseObject { required_by: vec!["view.public.y".into()], ..declared[0].clone() },
        record("view.public.y", "y", &["function.public.z"]),
        record("function.public.z", "z", &[]),
    ];
    db.holds = vec![
        ("table.public.x".into(), "view.public.y".into()),
        ("view.public.y".into(), "function.public.z".into()),
    ];
    db.run().unwrap();
    let drops: Vec<&String> = db.log.iter().filter(|l| l.starts_with("drop ")).collect();
    assert_eq!(drops, vec!["drop function.public.z", "drop view.public.y"]);
    assert_eq!(db.count("create "), 0);
    assert_eq!(db.live, vec!["table.public.x"]);
    assert!(db.recorded("table.public.x"));
    assert!(!db.recorded("view.public.y"));
    assert!(!db.recorded("function.public.z"));
}

#[test]
fn a_failed_drop_goes_through_the_dependents_and_is_tried_again() {
    let mut db = Db::new(&[]);
    db.live = vec!["view.public.a".into(), "view.public.b".into(), "view.public.c".into()];
    db.catalog = vec![
        record("view.public.a", "a", &["view.public.b"]),
        record("view.public.b", "b", &["view.public.c"]),
        record("view.public.c", "c", &[]),
    ];
    db.holds = vec![
        ("view.public.a".into(), "view.public.b".into()),
        ("view.public.b".into(), "view.public.c".into()),
    ];
    db.run().unwrap();
    assert_eq!(
        db.log,
        vec![
            "refuse view.public.a",
            "refuse view.public.b",
            "drop view.public.c",
            "delete view.public.c",
            "drop view.public.b",
            "delete view.public.b",
            "drop view.public.a",
            "delete view.public.a",
        ]
    );
    assert!(db.live.is_empty());
    assert!(db.catalog.is_empty());
}

#[test]
fn a_dependent_known_to_nobody_is_dropped_blindly() {
    let mut db = Db::new(&[]);
    db.live = vec!["view.public.a".into(), "view.public.ghost".into()];
    db.catalog = vec![record("view.public.a", "a", &["view.public.ghost"])];
    db.holds = vec![("view.public.a".into(), "view.public.ghost".into())];
    db.run().unwrap();
    assert_eq!(
        db.log,
        vec![
            "refuse view.public.a",
            "drop view.public.ghost",
            "delete view.public.ghost",
            "drop view.public.a",
            "delete view.public.a",
        ]
    );
}

#[test]
fn an_object_that_is_gone_only_loses_its_record() {
    let mut db = Db::new(&[]);
    db.catalog = vec![record("view.public.a", "a", &[])];
    db.run().unwrap();
    assert_eq!(db.log, vec!["delete view.public.a"]);
}

#[test]
fn a_pass_without_progress_is_an_error() {
    let mut db = Db::new(&[]);
    db.live = vec!["view.public.a".into(), "view.public.b".into(), "table.public.unmanaged".into()];
    db.catalog = vec![record("view.public.a", "a", &[]), record("view.public.b", "b", &[])];
    db.holds = vec![("view.public.a".into(), "table.public.unmanaged".into())];
    match db.run() {
        Err(Error::UnresolvableDrop { pending, cause }) => {
            assert_eq!(pending, vec!["view.public.a"]);
            match cause.map(|b| *b) {
                Some(Error::Database { message }) => {
                    assert_eq!(message, "cannot drop view.public.a")
                }
                other => panic!("{:?}", other),
            }
        }
        other => panic!("{:?}", other),
    }
    assert!(!db.is_live("view.public.b"));
    assert!(db.is_live("view.public.a"));
    assert!(db.recorded("view.public.a"));
}

#[test]
fn a_cycle_among_dependents_is_the_cause_of_the_failure() {
    let mut db = Db::new(&[]);
    db.live = vec!["view.public.a".into(), "view.public.b".into()];
    db.catalog = vec![
        record("view.public.a", "a", &["view.public.b"]),
        record("view.public.b", "b", &["view.public.a"]),
    ];
    db.holds = vec![
        ("view.public.a".into(), "view.public.b".into()),
        ("view.public.b".into(), "view.public.a".into()),
    ];
    match db.run() {
        Err(Error::UnresolvableDrop { pending, cause }) => {
            assert_eq!(pending, vec!["view.public.a", "view.public.b"]);
            assert!(matches!(cause.map(|b| *b), Some(Error::CycleDetected { .. })));
        }
        other => panic!("{:?}", other),
    }
}

#[test]
fn a_recorded_table_that_hangs_on_a_dropped_object_stops_the_drops() {
    let mut db = Db::new(&[]);
    db.live = vec!["type.public.mood".into(), "table.public.t".into()];
    let t = declare(&[("table.public.t", "create table t (m mood);")]);
    db.declared = t.clone();
    db.catalog = vec![record("type.public.mood", "m", &["table.public.t"]), t[0].clone()];
    db.holds = vec![("type.public.mood".into(), "table.public.t".into())];
    match db.run() {
        Err(Error::UnresolvableDrop { pending, cause }) => {
            assert_eq!(pending, vec!["type.public.mood"]);
            assert!(matches!(cause.map(|b| *b), Some(Error::TableDrop)));
        }
        other => panic!("{:?}", other),
    }
    assert!(db.is_live("table.public.t"));
}

#[test]
fn a_removed_table_that_exists_needs_a_person() {
    let mut db = Db::new(&[]);
    db.live = vec!["table.public.t".into()];
    db.catalog = vec![record("table.public.t", "t", &[])];
    match db.run() {
        Err(Error::ManualInterventionRequired { id }) => assert_eq!(id, "table.public.t"),
        other => panic!("{:?}", other),
    }
    assert!(db.log.is_empty());
    assert!(db.is_live("table.public.t"));
}

#[test]
fn a_removed_table_that_is_gone_loses_its_record() {
    let mut db = Db::new(&[]);
    db.catalog = vec![record("table.public.t", "t", &[])];
    db.run().unwrap();
    assert_eq!(db.log, vec!["delete table.public.t"]);
    assert!(db.catalog.is_empty());
}

#[test]
fn a_changed_table_only_gets_its_record_overwritten() {
    let declared = declare(&[("table.public.t", "create table t (id int, name text);")]);
    let mut db = Db::new(&declared);
    db.live = vec!["table.public.t".into()];
    db.catalog = vec![record("table.public.t", "old digest", &[])];
    db.run().unwrap();
    assert_eq!(db.count("create "), 0);
    assert_eq!(db.count("drop "), 0);
    assert_eq!(db.count("delete "), 0);
    assert_eq!(db.log, vec!["write table.public.t", "write table.public.t"]);
    assert_eq!(db.catalog[0].md5, declared[0].md5);
}

#[test]
fn a_changed_table_that_is_gone_is_created() {
    let declared = declare(&[("table.public.t", "create table t (id int);")]);
    let mut db = Db::new(&declared);
    db.catalog = vec![record("table.public.t", "old digest", &[])];
    db.run().unwrap();
    assert_eq!(db.log, vec!["create table.public.t", "write table.public.t"]);
}

#[test]
fn dirty_tables_are_settled_in_ascending_order() {
    let mut db = Db::new(&[]);
    db.catalog = vec![record("table.public.b", "b", &[]), record("table.public.a", "a", &[])];
    db.run().unwrap();
    assert_eq!(db.log, vec!["delete table.public.a", "delete table.public.b"]);
}

#[test]
fn a_changed_view_is_dropped_and_created_from_the_new_script() {
    let declared = declare(&[("view.public.v", "create view v as select 2;")]);
    let mut db = Db::new(&declared);
    db.live = vec!["view.public.v".into()];
    db.catalog = vec![record("view.public.v", "digest of select 1", &[])];
    db.run().unwrap();
    assert_eq!(
        db.log,
        vec!["drop view.public.v", "delete view.public.v", "create view.public.v", "write view.public.v"]
    );
    assert_eq!(db.catalog[0].md5, declared[0].md5);
}

#[test]
fn a_changed_schema_only_loses_its_record_and_gets_it_back() {
    let declared = declare(&[("schema.sales", "create schema sales authorization me;")]);
    let mut db = Db::new(&declared);
    db.live = vec!["schema.sales".into()];
    db.catalog = vec![record("schema.sales", "old", &[])];
    db.run().unwrap();
    assert_eq!(db.log, vec!["delete schema.sales", "write schema.sales"]);
    assert!(db.is_live("schema.sales"));
}

#[test]
fn an_unrecorded_view_that_exists_is_replaced() {
    let declared = declare(&[("view.public.v", "create view v as select 1;")]);
    let mut db = Db::new(&declared);
    db.live = vec!["view.public.v".into()];
    db.run().unwrap();
    assert_eq!(
        db.log,
        vec!["drop view.public.v", "delete view.public.v", "create view.public.v", "write view.public.v"]
    );
}

#[test]
fn an_unrecorded_table_that_exists_is_left_alone() {
    let declared = declare(&[
        ("table.public.t", "create table t (id int);"),
        ("schema.public", "create schema public;"),
        ("extension.pgcrypto", "create extension pgcrypto;"),
        ("type.public.mood", "create type mood as enum ('ok');"),
    ]);
    let mut db = Db::new(&declared);
    db.live = declared.iter().map(|o| o.id.clone()).collect();
    db.run().unwrap();
    assert_eq!(db.count("drop "), 0);
    assert_eq!(db.count("create "), 0);
    assert_eq!(db.count("write "), 4);
}

#[test]
fn a_refused_script_stops_the_run() {
    let declared = declare(&[("view.public.a", "create view a;"), ("view.public.b", "create view b;")]);
    let mut machine = Reconciler::new(declared, vec![], OWNER.to_string()).unwrap();
    let mut event = Event::Resume;
    let mut asked = Vec::new();
    let failure = loop {
        event = match machine.step(event) {
            Action::Proceed => Event::Resume,
            Action::CheckExists { id } => {
                asked.push(id);
                Event::Exists(false)
            }
            Action::Execute { .. } => Event::Failed { message: "syntax error".to_string() },
            Action::Fail { error } => break error,
            other => panic!("{:?}", matches!(other, Action::Finish)),
        };
    };
    match failure {
        Error::Database { message } => assert_eq!(message, "syntax error"),
        other => panic!("{:?}", other),
    }
    assert_eq!(asked, vec!["view.public.a", "view.public.b", "view.public.a"]);
    assert!(matches!(machine.step(Event::Resume), Action::Fail { error: Error::Stopped }));
    assert_eq!(machine.stage, Stage::Failed);
}

#[test]
fn an_answer_that_was_not_asked_for_stops_the_run() {
    let declared = declare(&[("view.public.a", "create view a;")]);
    let mut machine = Reconciler::new(declared, vec![], OWNER.to_string()).unwrap();
    assert!(matches!(machine.step(Event::Resume), Action::Proceed));
    assert!(matches!(machine.step(Event::Resume), Action::CheckExists { .. }));
    assert!(matches!(machine.step(Event::Done), Action::Fail { error: Error::UnexpectedEvent }));
}

#[test]
fn a_cycle_among_the_declared_objects_stops_the_run_before_anything_is_created() {
    let declared = declare(&[
        ("view.public.a", "create view a as select * from b;"),
        ("view.public.b", "create view b as select * from a;"),
    ]);
    let mut db = Db::new(&declared);
    assert!(matches!(db.run(), Err(Error::CycleDetected { .. })));
    assert_eq!(db.count("create "), 0);
}

#[test]
fn a_malformed_record_is_an_error() {
    let r = Reconciler::new(vec![], vec![record("view.v", "", &[])], OWNER.to_string());
    assert!(matches!(r, Err(Error::MalformedId)));
    let r = Reconciler::new(vec![], vec![record("thing.v", "", &[])], OWNER.to_string());
    assert!(matches!(r, Err(Error::UnknownObjectType)));
}

#[test]
fn verdicts() {
    assert_eq!(judge(Role, true, true), Verdict::Drop);
    assert_eq!(judge(Role, false, false), Verdict::Drop);
    assert_eq!(judge(Table, false, false), Verdict::DirtyTable);
    assert_eq!(judge(View, false, false), Verdict::Drop);
    assert_eq!(judge(Schema, false, false), Verdict::Drop);
    assert_eq!(judge(Table, true, true), Verdict::Keep);
    assert_eq!(judge(View, true, true), Verdict::Keep);
    assert_eq!(judge(Table, true, false), Verdict::DirtyTable);
    assert_eq!(judge(Schema, true, false), Verdict::Stale);
    assert_eq!(judge(Extension, true, false), Verdict::Stale);
    assert_eq!(judge(Type, true, false), Verdict::Stale);
    assert_eq!(judge(Function, true, false), Verdict::Drop);
    assert_eq!(judge(View, true, false), Verdict::Drop);
}

#[test]
fn dirty_table_rule() {
    assert_eq!(resolve_dirty_table(true, false), DirtyTableAction::Refuse);
    assert_eq!(resolve_dirty_table(false, false), DirtyTableAction::Forget);
    assert_eq!(resolve_dirty_table(true, true), DirtyTableAction::Overwrite);
    assert_eq!(resolve_dirty_table(false, true), DirtyTableAction::Leave);
}

#[test]
fn unrecorded_objects_that_are_replaced() {
    for t in [View, Function, Constraint, Role, Trigger, Policy] {
        assert!(drops_unrecorded(t));
    }
    for t in [Schema, Table, Extension, Type] {
        assert!(!drops_unrecorded(t));
    }
}

#[test]
fn catalog_is_compared_with_the_project() {
    let declared = declare(&[
        ("view.public.kept", "create view kept;"),
        ("view.public.changed", "create view changed;"),
        ("table.public.changed", "create table changed;"),
        ("schema.changed", "create schema changed;"),
        ("view.public.fresh", "create view fresh;"),
        ("role.r", "create role r;"),
    ]);
    let recorded = vec![
        declared[0].clone(),
        record("view.public.changed", "old", &[]),
        record("table.public.zz_gone", "old", &[]),
        record("table.public.changed", "old", &[]),
        record("schema.changed", "old", &[]),
        record("function.public.gone", "old", &[]),
        declared[5].clone(),
    ];
    let c = classify(&recorded, &declared).unwrap();
    assert_eq!(c.drop_set, vec!["view.public.changed", "function.public.gone", "role.r"]);
    assert_eq!(c.dirty_tables, vec!["table.public.changed", "table.public.zz_gone"]);
    assert_eq!(c.stale, vec!["schema.changed"]);
    assert_eq!(c.unrecorded, vec!["view.public.fresh"]);
}

fn machine_at(stage: Stage, pending: &[&str], roots: &[&str]) -> Reconciler {
    Reconciler {
        declared: vec![],
        recorded: vec![],
        owner: OWNER.to_string(),
        stage,
        cursor: 0,
        stale: vec![],
        unrecorded: vec![],
        dirty: vec![],
        pending: pending.iter().map(|s| s.to_string()).collect(),
        roots: roots.iter().map(|s| s.to_string()).collect(),
        root: 0,
        dropped: vec![],
        dropped_before: 0,
        visited: vec![],
        stack: vec![],
        target: String::new(),
        last_error: None,
        order: vec![],
    }
}

#[test]
fn an_object_to_drop_that_nobody_knows_is_the_cause_of_the_failure() {
    let mut machine = machine_at(Stage::PassBegin, &["view.public.ghost"], &[]);
    let mut event = Event::Resume;
    let failure = loop {
        event = match machine.step(event) {
            Action::Proceed => Event::Resume,
            Action::Fail { error } => break error,
            _ => panic!("nothing is asked of the database"),
        };
    };
    match failure {
        Error::UnresolvableDrop { pending, cause } => {
            assert_eq!(pending, vec!["view.public.ghost"]);
            match cause.map(|b| *b) {
                Some(Error::MissingRecord { id }) => assert_eq!(id, "view.public.ghost"),
                other => panic!("{:?}", other),
            }
        }
        other => panic!("{:?}", other),
    }
}

#[test]
fn a_pass_takes_the_objects_in_ascending_order() {
    let mut machine = machine_at(Stage::PassBegin, &["view.public.b", "function.public.f", "view.public.a"], &[]);
    assert!(matches!(machine.step(Event::Resume), Action::Proceed));
    assert_eq!(machine.stage, Stage::Root);
    assert_eq!(machine.roots, vec!["function.public.f", "view.public.a", "view.public.b"]);
    assert_eq!(machine.root, 0);
}

#[test]
fn nothing_to_drop_leads_to_the_creation() {
    let mut machine = machine_at(Stage::PassBegin, &[], &[]);
    assert!(matches!(machine.step(Event::Resume), Action::Proceed));
    assert_eq!(machine.stage, Stage::Order);
    assert!(matches!(machine.step(Event::Resume), Action::Proceed));
    assert_eq!(machine.stage, Stage::Create);
    assert!(matches!(machine.step(Event::Resume), Action::Finish));
    assert_eq!(machine.stage, Stage::Finished);
    assert!(matches!(machine.step(Event::Resume), Action::Finish));
}
