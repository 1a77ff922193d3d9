use wo::error::Error;
use wo::graph::{
    build_database_objects, calc_depends_on, calc_depends_on_for_object, calc_required_by,
    calc_required_by_for_object, check_infos, get_search_term, link_objects, ObjectInfo,
};
use wo::object_type::DatabaseObjectType;
use wo::order::dependency_order;
use wo::project::{
    clone_strings, contains_str, dedup, find_object, has_unique_ids, without, DatabaseObject,
    DatabaseProject,
};
use wo::resolver::calc_create_order;

fn info(id: &str, script: &str) -> ObjectInfo {
    let object_type = wo::object_id::get_object_type(id).unwrap();
    ObjectInfo {
        id: id.to_string(),
        object_type,
        path: format!("{}.sql", id),
        script: script.to_string(),
    }
}

fn strings(v: &[&str]) -> Vec<String> {
    v.iter().map(|s| s.to_string()).collect()
}

fn public() -> Vec<String> {
    strings(&["public"])
}

fn object(id: &str, depends_on: &[&str]) -> DatabaseObject {
    DatabaseObject {
        id: id.to_string(),
        path: String::new(),
        script: String::new(),
        md5: String::new(),
        depends_on: strings(depends_on),
        required_by: Vec::new(),
    }
}

fn shop() -> Vec<ObjectInfo> {
    vec![
        info("schema.public", "create schema public;"),
        info("schema.sales", "create schema sales;"),
        info("table.public.users", "create table users (id int);"),
        info("table.sales.orders", "create table sales.orders (user_id int references users);"),
        info("view.sales.big_orders", "create view sales.big_orders as select * from SALES.ORDERS;"),
        info("function.public.total", "create function total() returns int as 'select count(*) from sales.big_orders';"),
        info("constraint.sales.orders.orders_pk", "alter table sales.orders add primary key (id);"),
        info("role.reader", "create role reader;"),
        info("role.admin", "create role admin; grant reader to admin;"),
        info("extension.pgcrypto", "create extension pgcrypto schema public;"),
    ]
}

fn position(order: &[String], id: &str) -> usize {
    order.iter().position(|x| x == id).unwrap()
}

#[test]
fn search_terms_by_type() {
    let schemas = public();
    assert_eq!(
        get_search_term("table.public.users", &DatabaseObjectType::Table, &schemas).unwrap(),
        Some("users".to_string())
    );
    assert_eq!(
        get_search_term("view.sales.big_orders", &DatabaseObjectType::View, &schemas).unwrap(),
        Some("sales.big_orders".to_string())
    );
    assert_eq!(
        get_search_term("role.reader", &DatabaseObjectType::Role, &schemas).unwrap(),
        Some("reader".to_string())
    );
    assert_eq!(
        get_search_term("extension.pgcrypto", &DatabaseObjectType::Extension, &schemas).unwrap(),
        Some("pgcrypto".to_string())
    );
    assert_eq!(
        get_search_term("trigger.public.users.audit", &DatabaseObjectType::Trigger, &schemas)
            .unwrap(),
        None
    );
    assert_eq!(
        get_search_term("policy.public.users.p", &DatabaseObjectType::Policy, &schemas).unwrap(),
        None
    );
    assert!(matches!(
        get_search_term("schema.sales", &DatabaseObjectType::Schema, &schemas),
        Err(Error::SchemaSearchTerm)
    ));
    assert!(matches!(
        get_search_term("table.users", &DatabaseObjectType::Table, &schemas),
        Err(Error::MalformedId)
    ));
}

#[test]
fn required_by_follows_the_scripts() {
    let infos = shop();
    let schemas = public();
    let users = calc_required_by_for_object(2, &infos, &schemas).unwrap();
    assert_eq!(users, strings(&["table.sales.orders"]));
    let orders = calc_required_by_for_object(3, &infos, &schemas).unwrap();
    assert_eq!(orders, strings(&["view.sales.big_orders", "constraint.sales.orders.orders_pk"]));
    let big = calc_required_by_for_object(4, &infos, &schemas).unwrap();
    assert_eq!(big, strings(&["function.public.total"]));
    let constraint = calc_required_by_for_object(6, &infos, &schemas).unwrap();
    assert!(constraint.is_empty());
}

#[test]
fn schema_is_required_by_what_lives_in_it() {
    let infos = shop();
    let schemas = public();
    let sales = calc_required_by_for_object(1, &infos, &schemas).unwrap();
    assert_eq!(
        sales,
        strings(&[
            "table.sales.orders",
            "view.sales.big_orders",
            "constraint.sales.orders.orders_pk"
        ])
    );
    let public_schema = calc_required_by_for_object(0, &infos, &schemas).unwrap();
    assert_eq!(
        public_schema,
        strings(&["table.public.users", "function.public.total", "extension.pgcrypto"])
    );
}

#[test]
fn role_is_required_by_roles_only() {
    let mut infos = shop();
    infos.push(info("view.public.readers", "create view readers as select 'reader';"));
    let reader = calc_required_by_for_object(7, &infos, &public()).unwrap();
    assert_eq!(reader, strings(&["role.admin"]));
}

#[test]
fn no_object_requires_itself() {
    let built = link_objects(&shop(), &public()).unwrap();
    for o in built.iter() {
        assert!(!o.required_by.contains(&o.id));
        assert!(!o.depends_on.contains(&o.id));
    }
}

#[test]
fn edges_are_exact_inverses() {
    let built = link_objects(&shop(), &public()).unwrap();
    for a in built.iter() {
        for b in built.iter() {
            assert_eq!(a.required_by.contains(&b.id), b.depends_on.contains(&a.id));
        }
    }
    let orders = &built[3];
    assert_eq!(orders.depends_on, strings(&["schema.sales", "table.public.users"]));
}

#[test]
fn built_objects_carry_digest_and_script() {
    let infos = vec![info("schema.public", "create schema public;")];
    let built = link_objects(&infos, &public()).unwrap();
    assert_eq!(built.len(), 1);
    assert_eq!(built[0].id, "schema.public");
    assert_eq!(built[0].script, "create schema public;");
    assert_eq!(built[0].path, "schema.public.sql");
    assert_eq!(built[0].md5, "5091d634cdee46998269cc956810613e");
}

#[test]
fn depends_on_inverts_required_by() {
    let ids = strings(&["a", "b", "c"]);
    let required_by = vec![strings(&["b", "c"]), strings(&["c"]), strings(&["c"])];
    assert_eq!(calc_depends_on_for_object("c", &ids, &required_by), strings(&["a", "b"]));
    assert_eq!(calc_depends_on_for_object("a", &ids, &required_by), Vec::<String>::new());
    let all = calc_depends_on(&ids, &required_by);
    assert_eq!(all, vec![strings(&[]), strings(&["a"]), strings(&["a", "b"])]);
}

#[test]
fn objects_are_put_together_in_order() {
    let infos = vec![info("view.public.a", "x"), info("view.public.b", "y")];
    let built = build_database_objects(
        &infos,
        &vec![strings(&["view.public.b"]), strings(&[])],
        &vec![strings(&[]), strings(&["view.public.a"])],
    );
    assert_eq!(built[0].required_by, strings(&["view.public.b"]));
    assert_eq!(built[1].depends_on, strings(&["view.public.a"]));
    assert_eq!(built[1].md5, wo::hashing::content_hash("y"));
}

#[test]
fn unfit_lists_are_rejected() {
    let duplicate = vec![info("view.public.a", ""), info("view.public.a", "")];
    assert!(matches!(check_infos(&duplicate), Err(Error::DuplicateId { .. })));
    assert!(matches!(link_objects(&duplicate, &public()), Err(Error::DuplicateId { .. })));
    let mut wrong = vec![info("view.public.a", "")];
    wrong[0].object_type = DatabaseObjectType::Table;
    assert!(matches!(calc_required_by(&wrong, &public()), Err(Error::TypeMismatch)));
    let mut malformed = vec![info("view.public.a", "")];
    malformed[0].id = "view.a".to_string();
    assert!(matches!(check_infos(&malformed), Err(Error::MalformedId)));
    assert!(check_infos(&shop()).is_ok());
}

#[test]
fn the_first_unfit_object_decides_the_error() {
    let mut infos = vec![info("view.public.a", ""), info("view.public.a", ""), info("view.public.b", "")];
    infos[2].id = "view.b".to_string();
    match check_infos(&infos) {
        Err(Error::DuplicateId { id }) => assert_eq!(id, "view.public.a"),
        other => panic!("{:?}", other),
    }
    infos[0].id = "what.a".to_string();
    assert!(matches!(check_infos(&infos), Err(Error::UnknownObjectType)));
}

#[test]
fn project_is_put_together() {
    let project = DatabaseProject::from_parts(
        "proj".to_string(),
        vec![("create/00.sql".to_string(), "c".to_string())],
        vec![("drop/00.sql".to_string(), "d".to_string())],
        vec![("001".to_string(), "m".to_string())],
        &shop(),
    )
    .unwrap();
    assert_eq!(project.project_dirpath, "proj");
    assert_eq!(project.create_scripts.len(), 1);
    assert_eq!(project.drop_scripts[0].1, "d");
    assert_eq!(project.migration_scripts[0].0, "001");
    assert_eq!(project.objects.len(), 10);
    assert!(has_unique_ids(&project.objects));
    assert_eq!(project.objects[2].required_by, strings(&["table.sales.orders"]));
}

#[test]
fn every_id_once_and_dependencies_first() {
    let built = link_objects(&shop(), &public()).unwrap();
    let order = calc_create_order(&built).unwrap();
    assert_eq!(order.len(), built.len());
    for o in built.iter() {
        assert_eq!(order.iter().filter(|x| **x == o.id).count(), 1);
        for dep in o.depends_on.iter() {
            assert!(position(&order, dep) < position(&order, &o.id));
        }
    }
}

#[test]
fn order_is_ascending_with_roles_last() {
    let objects = vec![
        object("view.public.b", &[]),
        object("role.zed", &[]),
        object("role.app", &["role.zed"]),
        object("view.public.a", &[]),
        object("table.public.t", &[]),
    ];
    let order = calc_create_order(&objects).unwrap();
    assert_eq!(
        order,
        strings(&["table.public.t", "view.public.a", "view.public.b", "role.zed", "role.app"])
    );
}

#[test]
fn dependencies_are_entered_in_ascending_order() {
    let objects = vec![
        object("view.public.z", &["view.public.y", "view.public.x"]),
        object("view.public.y", &[]),
        object("view.public.x", &[]),
        object("function.public.f", &["view.public.z"]),
    ];
    let order = calc_create_order(&objects).unwrap();
    assert_eq!(
        order,
        strings(&["view.public.x", "view.public.y", "view.public.z", "function.public.f"])
    );
}

#[test]
fn a_role_needed_by_another_object_comes_before_it() {
    let objects = vec![object("role.r", &[]), object("view.public.v", &["role.r"])];
    let order = calc_create_order(&objects).unwrap();
    assert_eq!(order, strings(&["role.r", "view.public.v"]));
}

#[test]
fn a_cycle_is_an_error() {
    let objects = vec![object("view.public.a", &["view.public.b"]), object("view.public.b", &["view.public.a"])];
    match calc_create_order(&objects) {
        Err(Error::CycleDetected { id }) => assert_eq!(id, "view.public.a"),
        other => panic!("{:?}", other),
    }
    let own = vec![object("view.public.a", &["view.public.a"])];
    assert!(matches!(calc_create_order(&own), Err(Error::CycleDetected { .. })));
    let longer = vec![
        object("table.public.t", &[]),
        object("view.public.a", &["view.public.c", "table.public.t"]),
        object("view.public.b", &["view.public.a"]),
        object("view.public.c", &["view.public.b"]),
    ];
    assert!(matches!(calc_create_order(&longer), Err(Error::CycleDetected { .. })));
}

#[test]
fn an_unknown_type_is_an_error() {
    let objects = vec![object("view.public.a", &[]), object("index.public.i", &[])];
    assert!(matches!(calc_create_order(&objects), Err(Error::UnknownObjectType)));
}

#[test]
fn an_undeclared_dependency_is_passed_over() {
    let objects = vec![object("view.public.a", &["view.public.gone"])];
    assert_eq!(calc_create_order(&objects).unwrap(), strings(&["view.public.a"]));
}

#[test]
fn project_gives_its_create_order() {
    let project = DatabaseProject::from_parts(String::new(), vec![], vec![], vec![], &shop()).unwrap();
    let order = project.get_create_order().unwrap();
    assert_eq!(order.first().unwrap(), "schema.sales");
    assert_eq!(order[order.len() - 2], "role.reader");
    assert_eq!(order.last().unwrap(), "role.admin");
    assert!(calc_create_order(&Vec::new()).unwrap().is_empty());
}

#[test]
fn order_on_a_graph_of_numbers() {
    let adj = vec![vec![1, 2], vec![2], vec![], vec![0]];
    let order = dependency_order(&adj, &vec![3, 0, 1, 2]).unwrap();
    assert_eq!(order, vec![2, 1, 0, 3]);
    let cyclic = vec![vec![1], vec![2], vec![0]];
    assert_eq!(dependency_order(&cyclic, &vec![0, 1, 2]), Err(0));
    assert_eq!(dependency_order(&cyclic, &vec![]), Ok(vec![]));
}

#[test]
fn next_migration_is_the_first_above() {
    let project = DatabaseProject {
        project_dirpath: String::new(),
        create_scripts: vec![],
        drop_scripts: vec![],
        migration_scripts: vec![
            ("001".to_string(), "one".to_string()),
            ("002".to_string(), "two".to_string()),
            ("010".to_string(), "ten".to_string()),
        ],
        objects: vec![],
    };
    assert_eq!(project.get_next_migration(""), Some(("001".to_string(), "one".to_string())));
    assert_eq!(project.get_next_migration("001"), Some(("002".to_string(), "two".to_string())));
    assert_eq!(project.get_next_migration("0015"), Some(("002".to_string(), "two".to_string())));
    assert_eq!(project.get_next_migration("002"), Some(("010".to_string(), "ten".to_string())));
    assert_eq!(project.get_next_migration("010"), None);
    assert_eq!(project.get_next_migration("9"), None);
}

#[test]
fn list_helpers() {
    let v = strings(&["a", "b", "a", "c", "b"]);
    assert_eq!(dedup(v.clone()), strings(&["a", "b", "c"]));
    assert_eq!(clone_strings(&v), v);
    assert!(contains_str(&v, "c"));
    assert!(!contains_str(&v, "d"));
    assert_eq!(without(&v, &strings(&["a", "x"])), strings(&["b", "c", "b"]));
    let objects = vec![object("view.public.a", &[]), object("view.public.b", &[])];
    assert_eq!(find_object(&objects, "view.public.b"), Some(1));
    assert_eq!(find_object(&objects, "view.public.c"), None);
    assert!(has_unique_ids(&objects));
    assert!(!has_unique_ids(&vec![object("view.public.a", &[]), object("view.public.a", &[])]));
}
