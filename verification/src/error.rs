use vstd::prelude::*;

verus! {

/// Everything that can go wrong inside the library.
#[derive(Debug)]
pub enum Error {
    /// The first part of an object id names no known object type.
    UnknownObjectType,
    /// The number of dot-separated parts does not fit the object type.
    MalformedId,
    /// The object type carries no schema part.
    NoSchema,
    /// The object type carries no table part.
    NoTable,
    /// Schemas have no search term: their dependents are found by name.
    SchemaSearchTerm,
    /// A role file name holds a dot.
    DottedRoleName,
    /// The type stored beside an id is not the type that the id names.
    TypeMismatch,
    /// Two declared objects have the same id.
    DuplicateId { id: String },
    /// The dependency graph holds a cycle through this id.
    CycleDetected { id: String },
    /// An admin script asks for a password and none is configured.
    MissingPassword,
    /// A name or a password that goes into admin scripts is empty, or holds
    /// something else than letters, digits and underscores.
    UnsafeName { name: String },
    /// A table was about to be dropped: tables are dropped by hand or by a
    /// migration.
    TableDrop,
    /// A table left the project and still exists in the database: it has to
    /// be dropped by hand or by a migration.
    ManualInterventionRequired { id: String },
    /// A whole pass over the objects to drop dropped nothing. `pending` holds
    /// the ids that are left, `cause` the last failure met.
    UnresolvableDrop { pending: Vec<String>, cause: Option<Box<Error>> },
    /// The database refused a query or a script.
    Database { message: String },
    /// No connection could be opened.
    Connection { message: String },
    /// The database exists and its connection could not be opened.
    DatabaseUnreachable,
    /// A migration ran and could not be marked as applied: its id has to be
    /// put into the catalog by hand before the next run.
    MarkFailed { id: String, message: String },
    /// No applied migration was found right after one was marked.
    WatermarkLost { id: String },
    /// An object to drop is known neither to the catalog nor to the project.
    MissingRecord { id: String },
    /// An answer arrived that the last action did not ask for.
    UnexpectedEvent,
    /// The machine had already failed.
    Stopped,
}

} // verus!
