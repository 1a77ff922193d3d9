use wo::error::Error;
use wo::hashing::content_hash;
use wo::loading::{directory_of, load_object_info, object_id_from_path, object_id_of};
use wo::object_type::DatabaseObjectType;
use wo::certificate::{cert_format, CertFormat};
use wo::scaffold::{
    get_create_script_00, get_create_script_01, get_default_schema_script, get_drop_script_00,
    get_drop_script_01,
};
use wo::sorted::sort_strings;
use wo::sql::{
    drop_object, exists_object, force_drop_role_if_exists, prepare_admin_script, prepare_script,
    EXISTS_ROLE, EXISTS_TABLE,
};
use wo::text::chars_of;
use wo::words::{contains_whole_word_ci, is_plain_name};

#[test]
fn whole_words_are_found_whatever_the_case() {
    assert!(contains_whole_word_ci("select * from Users;", "users"));
    assert!(contains_whole_word_ci("select * from users", "USERS"));
    assert!(contains_whole_word_ci("users", "users"));
    assert!(contains_whole_word_ci("from public.users u", "public.users"));
    assert!(contains_whole_word_ci("(users)", "users"));
}

#[test]
fn parts_of_words_are_not_found() {
    assert!(!contains_whole_word_ci("select * from users_archive", "users"));
    assert!(!contains_whole_word_ci("select * from all_users", "users"));
    assert!(!contains_whole_word_ci("select * from users2", "users"));
    assert!(!contains_whole_word_ci("select * from xusers", "users"));
    assert!(!contains_whole_word_ci("", "users"));
    assert!(!contains_whole_word_ci("users", ""));
    assert!(!contains_whole_word_ci("use", "users"));
}

#[test]
fn a_later_whole_word_is_found_after_a_partial_one() {
    assert!(contains_whole_word_ci("users_archive join users on true", "users"));
}

#[test]
fn plain_names() {
    assert!(is_plain_name("shop_2"));
    assert!(is_plain_name("_"));
    assert!(!is_plain_name(""));
    assert!(!is_plain_name("shop-2"));
    assert!(!is_plain_name("shop 2"));
    assert!(!is_plain_name("sh\u{f6}p"));
}

#[test]
fn characters_of_a_string() {
    assert_eq!(chars_of("aé.b"), vec!['a', 'é', '.', 'b']);
    assert!(chars_of("").is_empty());
}

#[test]
fn digest_is_md5_in_lower_case_hex() {
    assert_eq!(content_hash(""), "d41d8cd98f00b204e9800998ecf8427e");
    assert_eq!(content_hash("create schema public;"), "5091d634cdee46998269cc956810613e");
    assert_eq!(content_hash("héllo"), "be50e8478cf24ff3595bc7307fb91b50");
    assert_ne!(content_hash("a"), content_hash("b"));
}

#[test]
fn strings_are_sorted_by_code_point() {
    let v = vec!["b".to_string(), "a".to_string(), "ab".to_string(), "B".to_string(), "".to_string()];
    let sorted = sort_strings(&v);
    assert_eq!(sorted, vec!["", "B", "a", "ab", "b"]);
    let non_ascii = vec!["é".to_string(), "z".to_string(), "\u{10000}".to_string(), "\u{ff5e}".to_string()];
    let mut expected = non_ascii.clone();
    expected.sort();
    assert_eq!(sort_strings(&non_ascii), expected);
}

#[test]
fn sorting_keeps_repeated_strings() {
    let v: Vec<String> = ["b", "a", "b", "a", "c"].iter().map(|s| s.to_string()).collect();
    assert_eq!(sort_strings(&v), vec!["a", "a", "b", "b", "c"]);
    assert!(sort_strings(&Vec::new()).is_empty());
}

#[test]
fn replacement_takes_matches_from_the_left_without_overlap() {
    assert_eq!(prepare_script("{wo_role_prefix}{wo_role_prefix}", "x"), "xx");
    assert_eq!(prepare_script("{{wo_role_prefix}}", "{wo_role_prefix}"), "{{wo_role_prefix}}");
    assert_eq!(prepare_script("{wo_role_prefix", "x"), "{wo_role_prefix");
}

#[test]
fn role_prefix_is_filled_in() {
    assert_eq!(
        prepare_script("grant {wo_role_prefix}reader to {wo_role_prefix}app;", "dev_"),
        "grant dev_reader to dev_app;"
    );
    assert_eq!(prepare_script("select 1;", "dev_"), "select 1;");
}

#[test]
fn admin_script_parameters_are_filled_in() {
    let filled = prepare_admin_script(
        "create role \"{role_name}\" password '{password}'; create database {database_name};",
        "shop",
        "shop_owner",
        Some("s3cret"),
    )
    .unwrap();
    assert_eq!(filled, "create role \"shop_owner\" password 's3cret'; create database shop;");
}

#[test]
fn admin_script_without_password() {
    let ok = prepare_admin_script("drop database {database_name};", "shop", "r", None).unwrap();
    assert_eq!(ok, "drop database shop;");
    let missing = prepare_admin_script("alter role r password '{password}';", "shop", "r", None);
    assert!(matches!(missing, Err(Error::MissingPassword)));
}

#[test]
fn admin_script_parameter_brought_in_by_a_name() {
    let r = prepare_admin_script("create database {database_name};", "{password}", "r", None);
    assert!(matches!(r, Err(Error::MissingPassword)));
}

#[test]
fn exists_query_by_type() {
    assert_eq!(exists_object("table.public.t").unwrap(), EXISTS_TABLE);
    assert_eq!(exists_object("role.r").unwrap(), EXISTS_ROLE);
    assert!(exists_object("function.public.f").unwrap().contains("pg_proc"));
    assert!(matches!(exists_object("thing.x"), Err(Error::UnknownObjectType)));
}

#[test]
fn drop_statements_by_type() {
    assert_eq!(drop_object("view.public.v", "owner").unwrap(), "drop view public.v;");
    assert_eq!(
        drop_object("constraint.public.users.users_pk", "owner").unwrap(),
        "alter table public.users drop constraint users_pk;"
    );
    assert_eq!(
        drop_object("trigger.public.users.audit", "owner").unwrap(),
        "drop trigger audit on public.users;"
    );
    assert_eq!(
        drop_object("policy.public.users.own_rows", "owner").unwrap(),
        "drop policy own_rows on public.users;"
    );
    assert_eq!(drop_object("schema.sales", "owner").unwrap(), "drop schema sales;");
    assert_eq!(drop_object("extension.pgcrypto", "owner").unwrap(), "drop extension pgcrypto;");
    assert_eq!(drop_object("type.public.mood", "owner").unwrap(), "drop type mood;");
    assert_eq!(
        drop_object("role.reader", "owner").unwrap(),
        "grant reader to owner; reassign owned by reader to owner; drop owned by reader; drop role reader;"
    );
}

#[test]
fn drop_statement_of_a_function_names_its_id_twice() {
    let sql = drop_object("function.public.f", "owner").unwrap();
    assert_eq!(sql.matches("lower('function.public.f')").count(), 2);
    assert!(sql.starts_with("do language plpgsql"));
    assert!(sql.ends_with("end $$;"));
}

#[test]
fn tables_are_never_dropped() {
    assert!(matches!(drop_object("table.public.t", "owner"), Err(Error::TableDrop)));
    assert!(matches!(drop_object("table.t", "owner"), Err(Error::TableDrop)));
    assert!(matches!(drop_object("view.v", "owner"), Err(Error::MalformedId)));
    assert!(matches!(drop_object("what.v", "owner"), Err(Error::UnknownObjectType)));
}

#[test]
fn forced_role_drop_cascades() {
    assert_eq!(
        force_drop_role_if_exists("role.reader", "owner").unwrap(),
        "grant reader to owner; reassign owned by reader to owner; drop owned by reader cascade; drop role reader;"
    );
    assert!(matches!(force_drop_role_if_exists("role.a.b", "owner"), Err(Error::MalformedId)));
}

#[test]
fn object_id_from_file_name() {
    assert_eq!(
        object_id_from_path("Public.Users", &DatabaseObjectType::Table, "dev_").unwrap(),
        "table.public.users"
    );
    assert_eq!(
        object_id_from_path("Reader", &DatabaseObjectType::Role, "Dev_").unwrap(),
        "role.dev_reader"
    );
    assert!(matches!(
        object_id_from_path("a.reader", &DatabaseObjectType::Role, "dev_"),
        Err(Error::DottedRoleName)
    ));
    assert!(matches!(
        object_id_from_path("users", &DatabaseObjectType::Table, ""),
        Err(Error::MalformedId)
    ));
    assert_eq!(object_id_of("public", &DatabaseObjectType::Schema).unwrap(), "schema.public");
    assert!(matches!(object_id_of("a.b", &DatabaseObjectType::Schema), Err(Error::MalformedId)));
}

#[test]
fn object_info_from_a_file() {
    let info = load_object_info(
        "Reader",
        &DatabaseObjectType::Role,
        "dev_",
        "roles/Reader.sql".to_string(),
        "create role {wo_role_prefix}reader;",
    )
    .unwrap();
    assert_eq!(info.id, "role.dev_reader");
    assert_eq!(info.object_type, DatabaseObjectType::Role);
    assert_eq!(info.path, "roles/Reader.sql");
    assert_eq!(info.script, "create role dev_reader;");
}

#[test]
fn directories_by_type() {
    assert_eq!(directory_of(DatabaseObjectType::Table), "tables");
    assert_eq!(directory_of(DatabaseObjectType::Policy), "policies");
    assert_eq!(directory_of(DatabaseObjectType::Schema), "schemas");
    assert_eq!(directory_of(DatabaseObjectType::Type), "types");
}

#[test]
fn templates_of_a_new_project() {
    let (name, text) = get_create_script_00();
    assert_eq!(name, "00-create-role.sql");
    assert!(text.contains("CREATE ROLE \"{role_name}\""));
    assert!(text.contains("LOGIN PASSWORD '{password}'"));
    let (name, text) = get_create_script_01();
    assert_eq!(name, "01-create-database.sql");
    assert!(text.contains("CREATE DATABASE \"{database_name}\""));
    assert!(text.contains("CONNECTION LIMIT = 10;"));
    let (name, text) = get_drop_script_00();
    assert_eq!(name, "00-drop-database.sql");
    assert!(text.contains("DROP DATABASE IF EXISTS \"{database_name}\" WITH (FORCE);"));
    let (name, text) = get_drop_script_01();
    assert_eq!(name, "01-drop-role.sql");
    assert!(text.contains("DROP ROLE IF EXISTS \"{role_name}\";"));
    let (name, text) = get_default_schema_script();
    assert_eq!(name, "public.sql");
    assert_eq!(text, "create schema public;");
}

#[test]
fn certificate_format_by_extension() {
    assert_eq!(cert_format(Some("pem")), CertFormat::Pem);
    assert_eq!(cert_format(Some("der")), CertFormat::Der);
    assert_eq!(cert_format(Some("crt")), CertFormat::Either);
    assert_eq!(cert_format(Some("PEM")), CertFormat::Either);
    assert_eq!(cert_format(None), CertFormat::Either);
}
