use wo::error::Error;
use wo::object_id::{
    get_id_part, get_name, get_object_type, get_schema, get_table, validate_object_id,
};
use wo::object_type::DatabaseObjectType;
use wo::project::DatabaseObject;

fn object(id: &str) -> DatabaseObject {
    DatabaseObject {
        id: id.to_string(),
        path: String::new(),
        script: String::new(),
        md5: String::new(),
        depends_on: Vec::new(),
        required_by: Vec::new(),
    }
}

#[test]
fn type_is_read_from_first_part() {
    assert_eq!(get_object_type("table.public.users").unwrap(), DatabaseObjectType::Table);
    assert_eq!(get_object_type("role.admin").unwrap(), DatabaseObjectType::Role);
    assert_eq!(get_object_type("view").unwrap(), DatabaseObjectType::View);
    assert!(matches!(get_object_type("tables.public.users"), Err(Error::UnknownObjectType)));
    assert!(matches!(get_object_type("Table.public.users"), Err(Error::UnknownObjectType)));
    assert!(matches!(get_object_type(""), Err(Error::UnknownObjectType)));
}

#[test]
fn every_type_word_round_trips() {
    let all = [
        DatabaseObjectType::Table,
        DatabaseObjectType::View,
        DatabaseObjectType::Function,
        DatabaseObjectType::Constraint,
        DatabaseObjectType::Role,
        DatabaseObjectType::Trigger,
        DatabaseObjectType::Schema,
        DatabaseObjectType::Policy,
        DatabaseObjectType::Extension,
        DatabaseObjectType::Type,
    ];
    let words = [
        "table", "view", "function", "constraint", "role", "trigger", "schema", "policy",
        "extension", "type",
    ];
    for (t, w) in all.iter().zip(words.iter()) {
        assert_eq!(t.as_str(), *w);
        assert_eq!(DatabaseObjectType::from_str(w).unwrap(), *t);
    }
    assert!(matches!(DatabaseObjectType::from_str("index"), Err(Error::UnknownObjectType)));
}

#[test]
fn type_words_through_the_conversions_of_std() {
    assert_eq!(String::from(&DatabaseObjectType::Policy), "policy");
    assert_eq!(String::from(&DatabaseObjectType::Table), "table");
    let parsed: Result<DatabaseObjectType, Error> = "extension".parse();
    assert_eq!(parsed.unwrap(), DatabaseObjectType::Extension);
    let parsed: Result<DatabaseObjectType, Error> = "Extension".parse();
    assert!(matches!(parsed, Err(Error::UnknownObjectType)));
}

#[test]
fn number_of_parts_by_type() {
    assert_eq!(DatabaseObjectType::Role.id_parts(), 2);
    assert_eq!(DatabaseObjectType::Schema.id_parts(), 2);
    assert_eq!(DatabaseObjectType::Extension.id_parts(), 2);
    assert_eq!(DatabaseObjectType::Table.id_parts(), 3);
    assert_eq!(DatabaseObjectType::View.id_parts(), 3);
    assert_eq!(DatabaseObjectType::Function.id_parts(), 3);
    assert_eq!(DatabaseObjectType::Type.id_parts(), 3);
    assert_eq!(DatabaseObjectType::Constraint.id_parts(), 4);
    assert_eq!(DatabaseObjectType::Trigger.id_parts(), 4);
    assert_eq!(DatabaseObjectType::Policy.id_parts(), 4);
}

#[test]
fn parts_of_a_constraint_id() {
    let id = "constraint.public.users.users_pk";
    assert_eq!(get_schema(id).unwrap(), "public");
    assert_eq!(get_table(id).unwrap(), "users");
    assert_eq!(get_name(id).unwrap(), "users_pk");
    assert_eq!(get_id_part(id, 0).unwrap(), "constraint");
    assert_eq!(get_id_part(id, 3).unwrap(), "users_pk");
}

#[test]
fn parts_of_a_table_id() {
    let id = "table.sales.orders";
    assert_eq!(get_schema(id).unwrap(), "sales");
    assert_eq!(get_name(id).unwrap(), "orders");
    assert!(matches!(get_table(id), Err(Error::NoTable)));
}

#[test]
fn parts_of_a_role_id() {
    let id = "role.app_reader";
    assert_eq!(get_name(id).unwrap(), "app_reader");
    assert!(matches!(get_schema(id), Err(Error::NoSchema)));
    assert!(matches!(get_table(id), Err(Error::NoTable)));
    assert!(matches!(get_schema("schema.public"), Err(Error::NoSchema)));
    assert!(matches!(get_schema("extension.pgcrypto"), Err(Error::NoSchema)));
}

#[test]
fn empty_parts_count_as_parts() {
    assert!(validate_object_id("table..").is_ok());
    assert_eq!(get_schema("table..").unwrap(), "");
    assert_eq!(get_name("table.a.").unwrap(), "");
    assert!(matches!(validate_object_id("table.a.b."), Err(Error::MalformedId)));
}

#[test]
fn arity_mismatch_is_rejected() {
    assert!(validate_object_id("table.public.users").is_ok());
    assert!(matches!(validate_object_id("table.users"), Err(Error::MalformedId)));
    assert!(matches!(validate_object_id("role.a.b"), Err(Error::MalformedId)));
    assert!(matches!(validate_object_id("trigger.s.t"), Err(Error::MalformedId)));
    assert!(matches!(validate_object_id("nothing.s.t"), Err(Error::UnknownObjectType)));
    assert!(validate_object_id("schema.public").is_ok());
    assert!(validate_object_id("policy.s.t.p").is_ok());
    assert!(matches!(get_name("view.v"), Err(Error::MalformedId)));
    assert!(matches!(get_schema("view.v"), Err(Error::MalformedId)));
    assert!(matches!(get_schema("role.a.b"), Err(Error::NoSchema)));
}

#[test]
fn non_ascii_ids_are_split_by_characters() {
    assert_eq!(get_schema("view.schöma.näme").unwrap(), "schöma");
    assert_eq!(get_name("view.schöma.näme").unwrap(), "näme");
}

#[test]
fn object_methods_read_the_id() {
    let o = object("trigger.public.users.audit");
    assert_eq!(o.object_type().unwrap(), DatabaseObjectType::Trigger);
    assert_eq!(o.schema().unwrap(), "public");
    assert_eq!(o.table().unwrap(), "users");
    assert_eq!(o.name().unwrap(), "audit");
    let bad = object("trigger.public.users");
    assert!(matches!(bad.object_type(), Err(Error::MalformedId)));
    assert!(bad.name().is_err());
}

#[test]
fn catalog_row_becomes_an_object() {
    let o = DatabaseObject::from_db_row(
        "view.public.v".to_string(),
        "abc".to_string(),
        "create view v".to_string(),
        "views/public.v.sql".to_string(),
        vec!["table.public.t".to_string(), "table.public.t".to_string()],
        vec![],
    )
    .unwrap();
    assert_eq!(o.id, "view.public.v");
    assert_eq!(o.md5, "abc");
    assert_eq!(o.script, "create view v");
    assert_eq!(o.path, "views/public.v.sql");
    assert_eq!(o.depends_on, vec!["table.public.t".to_string()]);
    assert!(o.required_by.is_empty());
    let bad = DatabaseObject::from_db_row(
        "view.v".to_string(),
        String::new(),
        String::new(),
        String::new(),
        vec![],
        vec![],
    );
    assert!(matches!(bad, Err(Error::MalformedId)));
}
