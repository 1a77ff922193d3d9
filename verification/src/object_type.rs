use vstd::prelude::*;
use crate::error::Error;
use crate::text::str_eq;

verus! {

/// The closed set of object kinds the library manages.
#[derive(PartialEq, Eq, Debug, Copy, Clone, Structural)]
pub enum DatabaseObjectType {
    Table,
    View,
    Function,
    Constraint,
    Role,
    Trigger,
    Schema,
    Policy,
    Extension,
    Type,
}

/// The word that stands for an object type at the head of an object id.
pub open spec fn type_word(t: DatabaseObjectType) -> Seq<char> {
    match t {
        DatabaseObjectType::Table => "table"@,
        DatabaseObjectType::View => "view"@,
        DatabaseObjectType::Function => "function"@,
        DatabaseObjectType::Constraint => "constraint"@,
        DatabaseObjectType::Role => "role"@,
        DatabaseObjectType::Trigger => "trigger"@,
        DatabaseObjectType::Schema => "schema"@,
        DatabaseObjectType::Policy => "policy"@,
        DatabaseObjectType::Extension => "extension"@,
        DatabaseObjectType::Type => "type"@,
    }
}

/// The object type a word stands for, if any.
pub open spec fn type_of_word(s: Seq<char>) -> Option<DatabaseObjectType> {
    if s == "table"@ {
        Some(DatabaseObjectType::Table)
    } else if s == "view"@ {
        Some(DatabaseObjectType::View)
    } else if s == "function"@ {
        Some(DatabaseObjectType::Function)
    } else if s == "constraint"@ {
        Some(DatabaseObjectType::Constraint)
    } else if s == "role"@ {
        Some(DatabaseObjectType::Role)
    } else if s == "trigger"@ {
        Some(DatabaseObjectType::Trigger)
    } else if s == "schema"@ {
        Some(DatabaseObjectType::Schema)
    } else if s == "policy"@ {
        Some(DatabaseObjectType::Policy)
    } else if s == "extension"@ {
        Some(DatabaseObjectType::Extension)
    } else if s == "type"@ {
        Some(DatabaseObjectType::Type)
    } else {
        None
    }
}

/// How many dot-separated parts an id of this type has, the type word included.
pub open spec fn arity(t: DatabaseObjectType) -> nat {
    match t {
        DatabaseObjectType::Role | DatabaseObjectType::Schema | DatabaseObjectType::Extension => 2,
        DatabaseObjectType::Table
        | DatabaseObjectType::View
        | DatabaseObjectType::Function
        | DatabaseObjectType::Type => 3,
        DatabaseObjectType::Constraint
        | DatabaseObjectType::Trigger
        | DatabaseObjectType::Policy => 4,
    }
}

impl DatabaseObjectType {
    /// The word that stands for this type in object ids and directory names.
    pub fn as_str(&self) -> (r: &'static str)
        ensures
            r@ == type_word(*self),
    {
        match self {
            DatabaseObjectType::Table => "table",
            DatabaseObjectType::View => "view",
            DatabaseObjectType::Function => "function",
            DatabaseObjectType::Constraint => "constraint",
            DatabaseObjectType::Role => "role",
            DatabaseObjectType::Trigger => "trigger",
            DatabaseObjectType::Schema => "schema",
            DatabaseObjectType::Policy => "policy",
            DatabaseObjectType::Extension => "extension",
            DatabaseObjectType::Type => "type",
        }
    }

    /// Reads a type word. Exactly the ten lower-case words are accepted.
    pub fn from_str(s: &str) -> (r: Result<DatabaseObjectType, Error>)
        ensures
            match r {
                Ok(t) => type_of_word(s@) == Some(t),
                Err(e) => type_of_word(s@) is None && e is UnknownObjectType,
            },
    {
        if str_eq(s, "table") {
            Ok(DatabaseObjectType::Table)
        } else if str_eq(s, "view") {
            Ok(DatabaseObjectType::View)
        } else if str_eq(s, "function") {
            Ok(DatabaseObjectType::Function)
        } else if str_eq(s, "constraint") {
            Ok(DatabaseObjectType::Constraint)
        } else if str_eq(s, "role") {
            Ok(DatabaseObjectType::Role)
        } else if str_eq(s, "trigger") {
            Ok(DatabaseObjectType::Trigger)
        } else if str_eq(s, "schema") {
            Ok(DatabaseObjectType::Schema)
        } else if str_eq(s, "policy") {
            Ok(DatabaseObjectType::Policy)
        } else if str_eq(s, "extension") {
            Ok(DatabaseObjectType::Extension)
        } else if str_eq(s, "type") {
            Ok(DatabaseObjectType::Type)
        } else {
            Err(Error::UnknownObjectType)
        }
    }

    /// How many dot-separated parts an id of this type has.
    pub fn id_parts(&self) -> (n: usize)
        ensures
            n == arity(*self),
    {
        match self {
            DatabaseObjectType::Role
            | DatabaseObjectType::Schema
            | DatabaseObjectType::Extension => 2,
            DatabaseObjectType::Table
            | DatabaseObjectType::View
            | DatabaseObjectType::Function
            | DatabaseObjectType::Type => 3,
            DatabaseObjectType::Constraint
            | DatabaseObjectType::Trigger
            | DatabaseObjectType::Policy => 4,
        }
    }
}

impl core::str::FromStr for DatabaseObjectType {
    type Err = Error;

    /// Reads a type word, as the function of the same name on the type does.
    fn from_str(s: &str) -> (r: Result<DatabaseObjectType, Error>)
        ensures
            match r {
                Ok(t) => type_of_word(s@) == Some(t),
                Err(e) => type_of_word(s@) is None && e is UnknownObjectType,
            },
    {
        DatabaseObjectType::from_str(s)
    }
}

impl From<&DatabaseObjectType> for String {
    /// The word that stands for the type.
    fn from(t: &DatabaseObjectType) -> (word: String)
        ensures
            word@ == type_word(*t),
    {
        String::from_str(t.as_str())
    }
}

impl vstd::std_specs::convert::FromSpecImpl<&DatabaseObjectType> for String {
    /// Nothing is claimed of the conversion beyond its type: what it gives
    /// is stated on `as_str`.
    open spec fn obeys_from_spec() -> bool {
        false
    }

    open spec fn from_spec(t: &DatabaseObjectType) -> String {
        arbitrary()
    }
}

} // verus!
