use vstd::prelude::*;
use vstd::string::StringExecFns;
use crate::error::Error;
use crate::object_id::{
    get_name, get_object_type, get_schema, get_table, id_parts, id_type, valid_id,
};
use crate::object_type::DatabaseObjectType;
use crate::text::{occurs, replaced, str_contains, str_replace};

verus! {

/// Whether a table exists.
pub const EXISTS_TABLE: &'static str =
    "select exists (select 1 from pg_tables where lower('table' || '.' || schemaname || '.' || tablename) = lower($1));";

/// Whether a view exists.
pub const EXISTS_VIEW: &'static str =
    "select exists (select 1 from pg_views where lower('view' || '.' || schemaname || '.' || viewname) = lower($1));";

/// Whether a function exists.
pub const EXISTS_FUNCTION: &'static str =
    "select exists (select 1 from pg_proc p join pg_namespace n on n.oid = p.pronamespace where lower('function' || '.' || n.nspname || '.' || p.proname) = lower($1));";

/// Whether a constraint exists.
pub const EXISTS_CONSTRAINT: &'static str =
    "select exists (select 1 from pg_constraint c join pg_class t on t.oid = c.conrelid join pg_namespace n on n.oid = t.relnamespace where lower('constraint' || '.' || n.nspname || '.' || t.relname || '.' || c.conname) = lower($1));";

/// Whether a role exists.
pub const EXISTS_ROLE: &'static str =
    "select exists (select 1 from pg_roles where lower('role' || '.' || rolname) = lower($1));";

/// Whether a trigger exists.
pub const EXISTS_TRIGGER: &'static str =
    "select exists (select 1 from pg_trigger t join pg_class c on c.oid = t.tgrelid join pg_namespace n on n.oid = c.relnamespace where lower('trigger' || '.' || n.nspname || '.' || c.relname || '.' || t.tgname) = lower($1));";

/// Whether a policy exists.
pub const EXISTS_POLICY: &'static str =
    "select exists (select 1 from pg_policies where lower('policy' || '.' || schemaname || '.' || tablename || '.' || policyname) = lower($1));";

/// Whether a schema exists.
pub const EXISTS_SCHEMA: &'static str =
    "select exists (select 1 from pg_namespace where lower('schema' || '.' || nspname) = lower($1));";

/// Whether an extension is installed.
pub const EXISTS_EXTENSION: &'static str =
    "select exists (select 1 from pg_available_extensions where installed_version is not null and lower('extension' || '.' || name) = lower($1));";

/// Whether a type exists.
pub const EXISTS_TYPE: &'static str =
    "select exists (select 1 from pg_type t join pg_namespace n on n.oid = t.typnamespace where lower('type' || '.' || n.nspname || '.' || t.typname) = lower($1));";

/// The statement that drops every function of one name, up to the first
/// place where the id stands.
pub const DROP_FUNCTION_HEAD: &'static str =
    "do language plpgsql $$ begin if exists (select 1 from pg_proc p join pg_namespace n on n.oid = p.pronamespace where lower('function' || '.' || n.nspname || '.' || p.proname) = lower('";

/// The statement that drops every function of one name, between the two
/// places where the id stands.
pub const DROP_FUNCTION_BODY: &'static str =
    "')) then execute(select string_agg(format('drop function %s;', p.oid::regprocedure), E'\\n') from pg_proc p join pg_namespace n on n.oid = p.pronamespace where lower('function' || '.' || n.nspname || '.' || p.proname) = lower('";

/// The statement that drops every function of one name, behind the second
/// place where the id stands.
pub const DROP_FUNCTION_TAIL: &'static str = "')); end if; end $$;";

/// The query that tells whether an object of the given type exists in the
/// live database. Its one parameter is the object's id.
pub open spec fn exists_query_text(t: DatabaseObjectType) -> Seq<char> {
    match t {
        DatabaseObjectType::Table => EXISTS_TABLE@,
        DatabaseObjectType::View => EXISTS_VIEW@,
        DatabaseObjectType::Function => EXISTS_FUNCTION@,
        DatabaseObjectType::Constraint => EXISTS_CONSTRAINT@,
        DatabaseObjectType::Role => EXISTS_ROLE@,
        DatabaseObjectType::Trigger => EXISTS_TRIGGER@,
        DatabaseObjectType::Schema => EXISTS_SCHEMA@,
        DatabaseObjectType::Policy => EXISTS_POLICY@,
        DatabaseObjectType::Extension => EXISTS_EXTENSION@,
        DatabaseObjectType::Type => EXISTS_TYPE@,
    }
}

/// The existence query for the type that an id names.
pub fn exists_object(object_id: &str) -> (r: Result<&'static str, Error>)
    ensures
        match r {
            Ok(sql) => id_type(object_id@) matches Some(t) && sql@ == exists_query_text(t),
            Err(e) => id_type(object_id@) is None && e is UnknownObjectType,
        },
{
    let object_type = get_object_type(object_id)?;
    Ok(
        match object_type {
            DatabaseObjectType::Table => EXISTS_TABLE,
            DatabaseObjectType::View => EXISTS_VIEW,
            DatabaseObjectType::Function => EXISTS_FUNCTION,
            DatabaseObjectType::Constraint => EXISTS_CONSTRAINT,
            DatabaseObjectType::Role => EXISTS_ROLE,
            DatabaseObjectType::Trigger => EXISTS_TRIGGER,
            DatabaseObjectType::Schema => EXISTS_SCHEMA,
            DatabaseObjectType::Policy => EXISTS_POLICY,
            DatabaseObjectType::Extension => EXISTS_EXTENSION,
            DatabaseObjectType::Type => EXISTS_TYPE,
        },
    )
}

/// The statements that hand a role's belongings to `owner` and then drop the
/// role. With `cascade`, what the role owns is dropped together with whatever
/// hangs on it.
pub open spec fn drop_role_text(role: Seq<char>, owner: Seq<char>, cascade: bool) -> Seq<char> {
    "grant "@ + role + " to "@ + owner + "; reassign owned by "@ + role + " to "@ + owner
        + "; drop owned by "@ + role + (if cascade {
        " cascade; drop role "@
    } else {
        "; drop role "@
    }) + role + ";"@
}

/// The statement that drops the object with the given type and id parts.
/// Tables have none: the library never drops a table.
pub open spec fn drop_text(
    id: Seq<char>,
    t: DatabaseObjectType,
    owner: Seq<char>,
) -> Seq<char> {
    let p = id_parts(id);
    match t {
        DatabaseObjectType::Table => Seq::<char>::empty(),
        DatabaseObjectType::View => "drop view "@ + p[1] + "."@ + p[2] + ";"@,
        DatabaseObjectType::Function => DROP_FUNCTION_HEAD@ + id + DROP_FUNCTION_BODY@ + id
            + DROP_FUNCTION_TAIL@,
        DatabaseObjectType::Constraint => "alter table "@ + p[1] + "."@ + p[2]
            + " drop constraint "@ + p[3] + ";"@,
        DatabaseObjectType::Role => drop_role_text(p[1], owner, false),
        DatabaseObjectType::Trigger => "drop trigger "@ + p[3] + " on "@ + p[1] + "."@ + p[2]
            + ";"@,
        DatabaseObjectType::Policy => "drop policy "@ + p[3] + " on "@ + p[1] + "."@ + p[2]
            + ";"@,
        DatabaseObjectType::Schema => "drop schema "@ + p[1] + ";"@,
        DatabaseObjectType::Extension => "drop extension "@ + p[1] + ";"@,
        DatabaseObjectType::Type => "drop type "@ + p[2] + ";"@,
    }
}

/// Whether a drop statement can be written for this id: it names a type
/// other than table, and, unless it names a function, it is well formed.
pub open spec fn droppable(id: Seq<char>) -> bool {
    id_type(id) matches Some(t) && t != DatabaseObjectType::Table && (t
        == DatabaseObjectType::Function || valid_id(id))
}

fn role_statement(role: &str, owner: &str, cascade: bool) -> (sql: String)
    ensures
        sql@ == drop_role_text(role@, owner@, cascade),
{
    let mut sql = String::from_str("grant ");
    sql.append(role);
    sql.append(" to ");
    sql.append(owner);
    sql.append("; reassign owned by ");
    sql.append(role);
    sql.append(" to ");
    sql.append(owner);
    sql.append("; drop owned by ");
    sql.append(role);
    if cascade {
        sql.append(" cascade; drop role ");
    } else {
        sql.append("; drop role ");
    }
    sql.append(role);
    sql.append(";");
    sql
}

fn on_table_statement(verb: &str, name: &str, schema: &str, table: &str) -> (sql: String)
    ensures
        sql@ == verb@ + name@ + " on "@ + schema@ + "."@ + table@ + ";"@,
{
    let mut sql = String::from_str(verb);
    sql.append(name);
    sql.append(" on ");
    sql.append(schema);
    sql.append(".");
    sql.append(table);
    sql.append(";");
    sql
}

fn named_statement(verb: &str, name: &str) -> (sql: String)
    ensures
        sql@ == verb@ + name@ + ";"@,
{
    let mut sql = String::from_str(verb);
    sql.append(name);
    sql.append(";");
    sql
}

/// The statement that drops an object that exists in the live database.
/// `owner` is the role that the tool connects as: a dropped role's belongings
/// go to it. A table is refused: tables are dropped by hand or by a migration.
pub fn drop_object(object_id: &str, owner: &str) -> (r: Result<String, Error>)
    ensures
        r is Ok <==> droppable(object_id@),
        r matches Ok(sql) ==> sql@ == drop_text(
            object_id@,
            id_type(object_id@).unwrap(),
            owner@,
        ),
        r matches Err(e) ==> match id_type(object_id@) {
            None => e is UnknownObjectType,
            Some(t) => if t == DatabaseObjectType::Table {
                e is TableDrop
            } else {
                e is MalformedId
            },
        },
{
    let object_type = get_object_type(object_id)?;
    match object_type {
        DatabaseObjectType::Table => Err(Error::TableDrop),
        DatabaseObjectType::View => {
            let schema = get_schema(object_id)?;
            let name = get_name(object_id)?;
            let mut sql = String::from_str("drop view ");
            sql.append(schema);
            sql.append(".");
            sql.append(name);
            sql.append(";");
            Ok(sql)
        },
        DatabaseObjectType::Function => {
            let mut sql = String::from_str(DROP_FUNCTION_HEAD);
            sql.append(object_id);
            sql.append(DROP_FUNCTION_BODY);
            sql.append(object_id);
            sql.append(DROP_FUNCTION_TAIL);
            Ok(sql)
        },
        DatabaseObjectType::Constraint => {
            let schema = get_schema(object_id)?;
            let table = get_table(object_id)?;
            let name = get_name(object_id)?;
            let mut sql = String::from_str("alter table ");
            sql.append(schema);
            sql.append(".");
            sql.append(table);
            sql.append(" drop constraint ");
            sql.append(name);
            sql.append(";");
            Ok(sql)
        },
        DatabaseObjectType::Role => {
            let name = get_name(object_id)?;
            Ok(role_statement(name, owner, false))
        },
        DatabaseObjectType::Trigger => {
            let schema = get_schema(object_id)?;
            let table = get_table(object_id)?;
            let name = get_name(object_id)?;
            Ok(on_table_statement("drop trigger ", name, schema, table))
        },
        DatabaseObjectType::Policy => {
            let schema = get_schema(object_id)?;
            let table = get_table(object_id)?;
            let name = get_name(object_id)?;
            Ok(on_table_statement("drop policy ", name, schema, table))
        },
        DatabaseObjectType::Schema => {
            let name = get_name(object_id)?;
            Ok(named_statement("drop schema ", name))
        },
        DatabaseObjectType::Extension => {
            let name = get_name(object_id)?;
            Ok(named_statement("drop extension ", name))
        },
        DatabaseObjectType::Type => {
            let name = get_name(object_id)?;
            Ok(named_statement("drop type ", name))
        },
    }
}

/// The statement that removes a role by force: what it owns goes to `owner`
/// or is dropped with everything that hangs on it, then the role is dropped.
pub fn force_drop_role_if_exists(object_id: &str, owner: &str) -> (r: Result<String, Error>)
    requires
        id_type(object_id@) == Some(DatabaseObjectType::Role),
    ensures
        r is Ok <==> valid_id(object_id@),
        r matches Ok(sql) ==> sql@ == drop_role_text(id_parts(object_id@)[1], owner@, true),
        r matches Err(e) ==> e is MalformedId,
{
    let name = get_name(object_id)?;
    Ok(role_statement(name, owner, true))
}

/// What an admin script becomes once its three parameters are filled in.
pub open spec fn admin_script_text(
    template: Seq<char>,
    database_name: Seq<char>,
    role_name: Seq<char>,
    password: Option<Seq<char>>,
) -> Seq<char> {
    let named = replaced(
        replaced(template, "{database_name}"@, database_name),
        "{role_name}"@,
        role_name,
    );
    match password {
        Some(p) => replaced(named, "{password}"@, p),
        None => named,
    }
}

/// Fills the parameters `{database_name}`, `{role_name}` and `{password}` of
/// an admin script, in this order. Without a password the script must not ask
/// for one.
pub fn prepare_admin_script(
    template_str: &str,
    database_name: &str,
    role_name: &str,
    password: Option<&str>,
) -> (r: Result<String, Error>)
    ensures
        r is Err <==> password is None && occurs(
            admin_script_text(template_str@, database_name@, role_name@, None),
            "{password}"@,
        ),
        r matches Ok(script) ==> script@ == admin_script_text(
            template_str@,
            database_name@,
            role_name@,
            match password {
                Some(p) => Some(p@),
                None => None,
            },
        ),
        r matches Err(e) ==> e is MissingPassword,
{
    proof {
        reveal_strlit("{database_name}");
        reveal_strlit("{role_name}");
        reveal_strlit("{password}");
    }
    let named = str_replace(template_str, "{database_name}", database_name);
    let named = str_replace(named.as_str(), "{role_name}", role_name);
    match password {
        Some(p) => Ok(str_replace(named.as_str(), "{password}", p)),
        None => {
            if str_contains(named.as_str(), "{password}") {
                Err(Error::MissingPassword)
            } else {
                Ok(named)
            }
        },
    }
}

/// Fills the parameter `{wo_role_prefix}` of an object script.
pub fn prepare_script(script: &str, role_prefix: &str) -> (r: String)
    ensures
        r@ == replaced(script@, "{wo_role_prefix}"@, role_prefix@),
{
    proof {
        reveal_strlit("{wo_role_prefix}");
    }
    str_replace(script, "{wo_role_prefix}", role_prefix)
}

} // verus!
