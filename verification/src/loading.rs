use vstd::prelude::*;
use vstd::string::StringExecFns;
use crate::error::Error;
use crate::graph::ObjectInfo;
use crate::object_id::{id_type, valid_id, validate_object_id};
use crate::object_type::{type_word, DatabaseObjectType};
use crate::sql::prepare_script;
use crate::text::{occurs, replaced, str_contains};

verus! {

/// A text in lower case, as `str::to_lowercase` gives it.
pub uninterp spec fn lowercase(text: Seq<char>) -> Seq<char>;

/// `str::to_lowercase`: the text with every character in lower case, by the
/// rules of Unicode. It depends on the text alone.
#[verifier::external_body]
fn to_lowercase(text: &str) -> (lowered: String)
    ensures
        lowered@ == lowercase(text@),
{
    text.to_lowercase()
}

/// The directory of a project that holds the scripts of a type.
pub open spec fn directory_word(t: DatabaseObjectType) -> Seq<char> {
    match t {
        DatabaseObjectType::Table => "tables"@,
        DatabaseObjectType::View => "views"@,
        DatabaseObjectType::Function => "functions"@,
        DatabaseObjectType::Constraint => "constraints"@,
        DatabaseObjectType::Role => "roles"@,
        DatabaseObjectType::Trigger => "triggers"@,
        DatabaseObjectType::Schema => "schemas"@,
        DatabaseObjectType::Policy => "policies"@,
        DatabaseObjectType::Extension => "extensions"@,
        DatabaseObjectType::Type => "types"@,
    }
}

/// The directory of a project that holds the scripts of a type.
pub fn directory_of(t: DatabaseObjectType) -> (name: &'static str)
    ensures
        name@ == directory_word(t),
{
    match t {
        DatabaseObjectType::Table => "tables",
        DatabaseObjectType::View => "views",
        DatabaseObjectType::Function => "functions",
        DatabaseObjectType::Constraint => "constraints",
        DatabaseObjectType::Role => "roles",
        DatabaseObjectType::Trigger => "triggers",
        DatabaseObjectType::Schema => "schemas",
        DatabaseObjectType::Policy => "policies",
        DatabaseObjectType::Extension => "extensions",
        DatabaseObjectType::Type => "types",
    }
}

/// The id made of a type and of the rest of the id: the type's word, a dot,
/// and the rest.
pub open spec fn id_text(t: DatabaseObjectType, rest: Seq<char>) -> Seq<char> {
    type_word(t) + "."@ + rest
}

/// The id of an object of type `object_type` whose id goes on with `rest`.
/// The id must be well formed.
pub fn object_id_of(rest: &str, object_type: &DatabaseObjectType) -> (r: Result<String, Error>)
    ensures
        r is Ok <==> valid_id(id_text(*object_type, rest@)),
        r matches Ok(id) ==> id@ == id_text(*object_type, rest@),
        r matches Err(e) ==> if id_type(id_text(*object_type, rest@)) is None {
            e is UnknownObjectType
        } else {
            e is MalformedId
        },
{
    let mut id = String::from_str(object_type.as_str());
    id.append(".");
    id.append(rest);
    validate_object_id(id.as_str())?;
    Ok(id)
}

/// What stands behind the type in the id of the object that a file holds:
/// the file's name without its extension, behind the role prefix for a role.
pub open spec fn id_body(stem: Seq<char>, t: DatabaseObjectType, role_prefix: Seq<char>) -> Seq<
    char,
> {
    if t == DatabaseObjectType::Role {
        role_prefix + stem
    } else {
        stem
    }
}

/// The id of the object that a file holds, from the file's name without its
/// extension. The id is in lower case. The name of a role's file holds no
/// dot.
pub fn object_id_from_path(stem: &str, object_type: &DatabaseObjectType, role_prefix: &str) -> (r:
    Result<String, Error>)
    ensures
        r is Ok <==> !(*object_type == DatabaseObjectType::Role && occurs(stem@, "."@))
            && valid_id(
            id_text(*object_type, lowercase(id_body(stem@, *object_type, role_prefix@))),
        ),
        r matches Ok(id) ==> id@ == id_text(
            *object_type,
            lowercase(id_body(stem@, *object_type, role_prefix@)),
        ),
        r matches Err(e) ==> if *object_type == DatabaseObjectType::Role && occurs(stem@, "."@) {
            e is DottedRoleName
        } else {
            e is UnknownObjectType || e is MalformedId
        },
{
    let lowered = if *object_type == DatabaseObjectType::Role {
        if str_contains(stem, ".") {
            return Err(Error::DottedRoleName);
        }
        let mut body = String::from_str(role_prefix);
        body.append(stem);
        to_lowercase(body.as_str())
    } else {
        to_lowercase(stem)
    };
    object_id_of(lowered.as_str(), object_type)
}

/// What is known of the object that a file holds: its id, and its script
/// with the role prefix filled in.
pub fn load_object_info(
    stem: &str,
    object_type: &DatabaseObjectType,
    role_prefix: &str,
    path: String,
    script: &str,
) -> (r: Result<ObjectInfo, Error>)
    ensures
        r is Ok <==> !(*object_type == DatabaseObjectType::Role && occurs(stem@, "."@))
            && valid_id(
            id_text(*object_type, lowercase(id_body(stem@, *object_type, role_prefix@))),
        ),
        r matches Ok(info) ==> {
            &&& info.id@ == id_text(
                *object_type,
                lowercase(id_body(stem@, *object_type, role_prefix@)),
            )
            &&& info.object_type == *object_type
            &&& info.path == path
            &&& info.script@ == replaced(script@, "{wo_role_prefix}"@, role_prefix@)
        },
        r matches Err(e) ==> e is DottedRoleName || e is UnknownObjectType || e is MalformedId,
{
    let id = object_id_from_path(stem, object_type, role_prefix)?;
    let script = prepare_script(script, role_prefix);
    Ok(ObjectInfo { id, object_type: *object_type, path, script })
}

} // verus!
