use vstd::prelude::*;
use vstd::string::StringExecFns;

verus! {

/// The name of the script that creates the role.
pub const CREATE_ROLE_FILE: &'static str = "00-create-role.sql";

/// The script that creates the role.
pub const CREATE_ROLE_SCRIPT: &'static str = "
-- available parameters for substitution {param}:
-- -- database_name
-- -- role_name
-- -- password
-- parameters are taken from WO_CONNECTION_STRING env variable
-- parameters are validated to contain only alphanum cahracters and underscores
CREATE ROLE \"{role_name}\"
WITH
LOGIN PASSWORD '{password}'
SUPERUSER;
";

/// The name of the script that creates the database.
pub const CREATE_DATABASE_FILE: &'static str = "01-create-database.sql";

/// The script that creates the database.
pub const CREATE_DATABASE_SCRIPT: &'static str = "
-- available parameters for substitution {param}:
-- -- database_name
-- -- role_name
-- -- password
-- parameters are taken from WO_CONNECTION_STRING env variable
-- parameters are validated to contain only alphanum cahracters and underscores
CREATE DATABASE \"{database_name}\"
WITH
OWNER = \"{role_name}\"
TEMPLATE = template0
ENCODING = 'UTF8'
LC_COLLATE = 'en_US.UTF-8'
LC_CTYPE = 'en_US.UTF-8'
TABLESPACE = pg_default
CONNECTION LIMIT = 10;
";

/// The name of the script that drops the database.
pub const DROP_DATABASE_FILE: &'static str = "00-drop-database.sql";

/// The script that drops the database.
pub const DROP_DATABASE_SCRIPT: &'static str = "
-- available parameters for substitution {param}:
-- -- database_name
-- -- role_name
-- -- password
-- parameters are taken from WO_CONNECTION_STRING env variable
-- parameters are validated to contain only alphanum cahracters and underscores
DROP DATABASE IF EXISTS \"{database_name}\" WITH (FORCE);
";

/// The name of the script that drops the role.
pub const DROP_ROLE_FILE: &'static str = "01-drop-role.sql";

/// The script that drops the role.
pub const DROP_ROLE_SCRIPT: &'static str = "
-- available parameters for substitution {param}:
-- -- database_name
-- -- role_name
-- -- password
-- parameters are taken from WO_CONNECTION_STRING env variable
-- parameters are validated to contain only alphanum cahracters and underscores
DROP ROLE IF EXISTS \"{role_name}\";
";

/// The name of the script of the schema `public`.
pub const DEFAULT_SCHEMA_FILE: &'static str = "public.sql";

/// The script of the schema `public`.
pub const DEFAULT_SCHEMA_SCRIPT: &'static str = "create schema public;";

/// The first script of a new project's `create` directory: its file name and
/// its text. It creates the role.
pub fn get_create_script_00() -> (file: (String, String))
    ensures
        file.0@ == CREATE_ROLE_FILE@,
        file.1@ == CREATE_ROLE_SCRIPT@,
{
    (String::from_str(CREATE_ROLE_FILE), String::from_str(CREATE_ROLE_SCRIPT))
}

/// The second script of a new project's `create` directory. It creates the
/// database.
pub fn get_create_script_01() -> (file: (String, String))
    ensures
        file.0@ == CREATE_DATABASE_FILE@,
        file.1@ == CREATE_DATABASE_SCRIPT@,
{
    (String::from_str(CREATE_DATABASE_FILE), String::from_str(CREATE_DATABASE_SCRIPT))
}

/// The first script of a new project's `drop` directory. It drops the
/// database.
pub fn get_drop_script_00() -> (file: (String, String))
    ensures
        file.0@ == DROP_DATABASE_FILE@,
        file.1@ == DROP_DATABASE_SCRIPT@,
{
    (String::from_str(DROP_DATABASE_FILE), String::from_str(DROP_DATABASE_SCRIPT))
}

/// The second script of a new project's `drop` directory. It drops the role.
pub fn get_drop_script_01() -> (file: (String, String))
    ensures
        file.0@ == DROP_ROLE_FILE@,
        file.1@ == DROP_ROLE_SCRIPT@,
{
    (String::from_str(DROP_ROLE_FILE), String::from_str(DROP_ROLE_SCRIPT))
}

/// The one object of a new project: the schema `public`.
pub fn get_default_schema_script() -> (file: (String, String))
    ensures
        file.0@ == DEFAULT_SCHEMA_FILE@,
        file.1@ == DEFAULT_SCHEMA_SCRIPT@,
{
    (String::from_str(DEFAULT_SCHEMA_FILE), String::from_str(DEFAULT_SCHEMA_SCRIPT))
}

} // verus!
