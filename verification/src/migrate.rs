use vstd::prelude::*;
use crate::error::Error;
use crate::project::{next_migration_index, DatabaseProject};
use crate::sql::{admin_script_text, prepare_admin_script};
use crate::text::occurs;
use crate::words::{is_plain_name, plain_name};

verus! {

/// The names that admin scripts are filled with.
pub struct Settings {
    pub database_name: String,
    pub role_name: String,
    pub password: Option<String>,
}

impl Settings {
    /// Whether the names and the password can go into scripts as they are.
    pub open spec fn wf(&self) -> bool {
        &&& plain_name(self.database_name@)
        &&& plain_name(self.role_name@)
        &&& self.password matches Some(p) ==> plain_name(p@)
    }

    /// The settings, if the names and the password hold letters, digits and
    /// underscores only and none of them is empty. The first that does not
    /// is named in the error: the database name, then the role name, then
    /// the password.
    pub fn new(database_name: String, role_name: String, password: Option<String>) -> (r: Result<
        Settings,
        Error,
    >)
        ensures
            r is Ok <==> plain_name(database_name@) && plain_name(role_name@) && (
            password matches Some(p) ==> plain_name(p@)),
            r matches Ok(s) ==> s.wf() && s.database_name == database_name && s.role_name
                == role_name && s.password == password,
            r matches Err(e) ==> e == (Error::UnsafeName {
                name: if !plain_name(database_name@) {
                    database_name
                } else if !plain_name(role_name@) {
                    role_name
                } else {
                    password.unwrap()
                },
            }),
    {
        if !is_plain_name(database_name.as_str()) {
            return Err(Error::UnsafeName { name: database_name });
        }
        if !is_plain_name(role_name.as_str()) {
            return Err(Error::UnsafeName { name: role_name });
        }
        match password {
            Some(p) => {
                if is_plain_name(p.as_str()) {
                    Ok(Settings { database_name, role_name, password: Some(p) })
                } else {
                    Err(Error::UnsafeName { name: p })
                }
            },
            None => Ok(Settings { database_name, role_name, password: None }),
        }
    }
}

/// Where a migration run stands.
#[derive(PartialEq, Eq, Debug, Copy, Clone, Structural)]
pub enum Phase {
    /// Nothing was asked yet.
    Start,
    /// Waiting for the connection to the database.
    Connecting,
    /// The database could not be reached: waiting for the admin connection.
    ConnectingAdmin,
    /// Waiting to hear whether the database exists.
    CheckingDatabase,
    /// Waiting for a script that creates the database to run.
    RunningCreate,
    /// Waiting for the connection to the database just created.
    Reconnecting,
    /// Waiting for the catalog tables of a database just created.
    PreparingFresh,
    /// Waiting for the catalog tables of a database that was there.
    PreparingExisting,
    /// Waiting for the id of the last applied migration.
    ReadingWatermark,
    /// Waiting for a migration script to run.
    Migrating,
    /// Waiting for a migration to be marked as applied.
    Marking,
    /// Waiting for the id of the last applied migration, after one was
    /// marked.
    Rereading,
    /// Waiting for the reconciliation; the project's last migration is
    /// marked as applied after it.
    ReconcilingUnmarked,
    /// Waiting for the project's last migration to be marked as applied.
    Recording,
    /// Waiting for the reconciliation that ends the run.
    ReconcilingMigrated,
    /// The run is over.
    Finished,
    /// The run failed.
    Failed,
}

/// What the caller is to do next.
pub enum Request {
    /// Open the connection to the database.
    Connect,
    /// Open the admin connection.
    ConnectAdmin,
    /// Ask, over the admin connection, whether the database exists.
    CheckDatabase,
    /// Run these statements over the admin connection.
    RunAdmin { sql: String },
    /// Create the catalog tables unless they exist.
    CreateCatalog,
    /// Read the highest id among the applied migrations.
    ReadWatermark,
    /// Run these statements.
    Execute { sql: String },
    /// Mark this migration as applied.
    RecordMigration { id: String },
    /// Bring the objects of the database to the project's state.
    Reconcile,
    /// Read the ids that the catalog records.
    ReadCatalog,
    /// Ask whether the object exists in the database.
    CheckExists { id: String },
    /// Close the connection to the database.
    Disconnect,
    /// Ask, over the admin connection, whether the object exists.
    CheckExistsAdmin { id: String },
    /// Tell the operator that this role is still there and has to be
    /// removed by hand.
    Warn { id: String },
    /// Nothing is left to do.
    Finish,
    /// Stop with this error.
    Fail { error: Error },
}

/// What came of the last request.
pub enum Answer {
    /// Nothing was asked.
    Begin,
    /// It was done.
    Done,
    /// It failed.
    Failed { message: String },
    /// Whether the database exists.
    Exists(bool),
    /// The highest id among the applied migrations, if any was applied.
    Watermark(Option<String>),
    /// The ids that the catalog records.
    Catalog { ids: Vec<String> },
}

/// The id that stands for the project's state: that of its last migration,
/// or the empty id where it has none.
pub open spec fn project_version(project: DatabaseProject) -> Seq<char> {
    if project.migration_scripts.len() == 0 {
        Seq::empty()
    } else {
        project.migration_scripts@.last().0@
    }
}

/// The password as characters.
pub open spec fn password_of(settings: Settings) -> Option<Seq<char>> {
    match settings.password {
        Some(p) => Some(p@),
        None => None,
    }
}

/// The machine that applies migrations and then reconciles. It asks for one
/// thing at a time and is told what came of it.
pub struct Migrator {
    pub phase: Phase,
    /// The position of the create script that runs.
    pub cursor: usize,
    /// The id of the migration that is applied.
    pub current: String,
}

impl Migrator {
    /// Whether the cursor lies within the create scripts where one runs.
    pub open spec fn wf(&self, project: &DatabaseProject) -> bool {
        self.phase == Phase::RunningCreate ==> self.cursor < project.create_scripts.len()
    }

    /// The run stops with an error.
    pub open spec fn halts(self, error: Error, post: Migrator, request: Request) -> bool {
        post == (Migrator { phase: Phase::Failed, ..self }) && request == (Request::Fail { error })
    }

    /// Only the phase changes.
    pub open spec fn asks(self, phase: Phase, wanted: Request, post: Migrator, request: Request) -> bool {
        post == (Migrator { phase, ..self }) && request == wanted
    }

    /// What an answer that was not expected amounts to.
    pub open spec fn refuses(self, answer: Answer, post: Migrator, request: Request) -> bool {
        match answer {
            Answer::Failed { message } => self.halts(Error::Database { message }, post, request),
            _ => self.halts(Error::UnexpectedEvent, post, request),
        }
    }

    /// The create script at position `k` is filled in and run; after the
    /// last one the connection to the new database is opened.
    pub open spec fn creates_from(
        self,
        k: int,
        project: &DatabaseProject,
        settings: &Settings,
        post: Migrator,
        request: Request,
    ) -> bool {
        if k < project.create_scripts.len() {
            let template = project.create_scripts[k].1@;
            let named = admin_script_text(
                template,
                settings.database_name@,
                settings.role_name@,
                None,
            );
            if settings.password is None && occurs(named, "{password}"@) {
                self.halts(Error::MissingPassword, post, request)
            } else {
                &&& post == (Migrator { phase: Phase::RunningCreate, cursor: k as usize, ..self })
                &&& request matches Request::RunAdmin { sql }
                &&& sql@ == admin_script_text(
                    template,
                    settings.database_name@,
                    settings.role_name@,
                    password_of(*settings),
                )
            }
        } else {
            self.asks(Phase::Reconnecting, Request::Connect, post, request)
        }
    }

    /// The first migration above the watermark runs; where there is none,
    /// the run goes on to the reconciliation.
    pub open spec fn applies_after(
        self,
        watermark: Seq<char>,
        project: &DatabaseProject,
        post: Migrator,
        request: Request,
    ) -> bool {
        let k = next_migration_index(project.migration_scripts@, watermark);
        if k < project.migration_scripts.len() {
            &&& post == (Migrator { phase: Phase::Migrating, current: post.current, ..self })
            &&& post.current@ == project.migration_scripts[k].0@
            &&& request matches Request::Execute { sql }
            &&& sql@ == project.migration_scripts[k].1@
        } else {
            self.asks(Phase::ReconcilingMigrated, Request::Reconcile, post, request)
        }
    }

    /// What one step does, phase by phase.
    pub open spec fn steps(
        self,
        project: &DatabaseProject,
        settings: &Settings,
        answer: Answer,
        post: Migrator,
        request: Request,
    ) -> bool {
        match self.phase {
            Phase::Start => self.asks(Phase::Connecting, Request::Connect, post, request),
            Phase::Connecting => match answer {
                Answer::Done => self.asks(
                    Phase::PreparingExisting,
                    Request::CreateCatalog,
                    post,
                    request,
                ),
                Answer::Failed { message } => self.asks(
                    Phase::ConnectingAdmin,
                    Request::ConnectAdmin,
                    post,
                    request,
                ),
                _ => self.halts(Error::UnexpectedEvent, post, request),
            },
            Phase::ConnectingAdmin => match answer {
                Answer::Done => self.asks(
                    Phase::CheckingDatabase,
                    Request::CheckDatabase,
                    post,
                    request,
                ),
                Answer::Failed { message } => self.halts(
                    Error::Connection { message },
                    post,
                    request,
                ),
                _ => self.halts(Error::UnexpectedEvent, post, request),
            },
            Phase::CheckingDatabase => match answer {
                Answer::Exists(true) => self.halts(Error::DatabaseUnreachable, post, request),
                Answer::Exists(false) => self.creates_from(0, project, settings, post, request),
                _ => self.refuses(answer, post, request),
            },
            Phase::RunningCreate => match answer {
                Answer::Done => self.creates_from(
                    self.cursor + 1,
                    project,
                    settings,
                    post,
                    request,
                ),
                _ => self.refuses(answer, post, request),
            },
            Phase::Reconnecting => match answer {
                Answer::Done => self.asks(
                    Phase::PreparingFresh,
                    Request::CreateCatalog,
                    post,
                    request,
                ),
                Answer::Failed { message } => self.halts(
                    Error::Connection { message },
                    post,
                    request,
                ),
                _ => self.halts(Error::UnexpectedEvent, post, request),
            },
            Phase::PreparingFresh => match answer {
                Answer::Done => self.asks(
                    Phase::ReconcilingUnmarked,
                    Request::Reconcile,
                    post,
                    request,
                ),
                _ => self.refuses(answer, post, request),
            },
            Phase::PreparingExisting => match answer {
                Answer::Done => self.asks(
                    Phase::ReadingWatermark,
                    Request::ReadWatermark,
                    post,
                    request,
                ),
                _ => self.refuses(answer, post, request),
            },
            Phase::ReadingWatermark => match answer {
                Answer::Watermark(Some(w)) => self.applies_after(w@, project, post, request),
                Answer::Watermark(None) => self.asks(
                    Phase::ReconcilingUnmarked,
                    Request::Reconcile,
                    post,
                    request,
                ),
                _ => self.refuses(answer, post, request),
            },
            Phase::Migrating => match answer {
                Answer::Done => self.asks(
                    Phase::Marking,
                    Request::RecordMigration { id: self.current },
                    post,
                    request,
                ),
                _ => self.refuses(answer, post, request),
            },
            Phase::Marking => match answer {
                Answer::Done => self.asks(
                    Phase::Rereading,
                    Request::ReadWatermark,
                    post,
                    request,
                ),
                Answer::Failed { message } => self.halts(
                    Error::MarkFailed { id: self.current, message },
                    post,
                    request,
                ),
                _ => self.halts(Error::UnexpectedEvent, post, request),
            },
            Phase::Rereading => match answer {
                Answer::Watermark(Some(w)) => self.applies_after(w@, project, post, request),
                Answer::Watermark(None) => self.halts(
                    Error::WatermarkLost { id: self.current },
                    post,
                    request,
                ),
                _ => self.refuses(answer, post, request),
            },
            Phase::ReconcilingUnmarked => match answer {
                Answer::Done => {
                    &&& post == (Migrator { phase: Phase::Recording, ..self })
                    &&& request matches Request::RecordMigration { id }
                    &&& id@ == project_version(*project)
                },
                _ => self.refuses(answer, post, request),
            },
            Phase::Recording | Phase::ReconcilingMigrated => match answer {
                Answer::Done => self.asks(Phase::Finished, Request::Finish, post, request),
                _ => self.refuses(answer, post, request),
            },
            Phase::Finished => post == self && request == Request::Finish,
            Phase::Failed => post == self && request == (Request::Fail { error: Error::Stopped }),
        }
    }

    /// A machine that has asked for nothing yet.
    pub fn new() -> (m: Migrator)
        ensures
            m.phase == Phase::Start,
            m.cursor == 0,
            m.current@.len() == 0,
    {
        Migrator { phase: Phase::Start, cursor: 0, current: String::new() }
    }

    fn halt(&mut self, error: Error) -> (request: Request)
        ensures
            old(self).halts(error, *final(self), request),
    {
        self.phase = Phase::Failed;
        Request::Fail { error }
    }

    fn refuse(&mut self, answer: Answer) -> (request: Request)
        ensures
            old(self).refuses(answer, *final(self), request),
    {
        match answer {
            Answer::Failed { message } => self.halt(Error::Database { message }),
            _ => self.halt(Error::UnexpectedEvent),
        }
    }

    fn create_from(&mut self, k: usize, project: &DatabaseProject, settings: &Settings) -> (request:
        Request)
        ensures
            final(self).wf(project),
            old(self).creates_from(k as int, project, settings, *final(self), request),
    {
        if k < project.create_scripts.len() {
            let password = match &settings.password {
                Some(p) => Some(p.as_str()),
                None => None,
            };
            match prepare_admin_script(
                project.create_scripts[k].1.as_str(),
                settings.database_name.as_str(),
                settings.role_name.as_str(),
                password,
            ) {
                Ok(sql) => {
                    self.phase = Phase::RunningCreate;
                    self.cursor = k;
                    Request::RunAdmin { sql }
                },
                Err(_) => self.halt(Error::MissingPassword),
            }
        } else {
            self.phase = Phase::Reconnecting;
            Request::Connect
        }
    }

    fn apply_after(&mut self, watermark: &str, project: &DatabaseProject) -> (request: Request)
        ensures
            final(self).wf(project),
            old(self).applies_after(watermark@, project, *final(self), request),
    {
        match project.get_next_migration(watermark) {
            Some(pair) => {
                self.phase = Phase::Migrating;
                self.current = pair.0;
                Request::Execute { sql: pair.1 }
            },
            None => {
                self.phase = Phase::ReconcilingMigrated;
                Request::Reconcile
            },
        }
    }

    /// Takes what came of the last request and says what to do next. The
    /// first call takes `Begin`.
    pub fn step(&mut self, project: &DatabaseProject, settings: &Settings, answer: Answer) -> (request:
        Request)
        requires
            old(self).wf(project),
        ensures
            final(self).wf(project),
            old(self).steps(project, settings, answer, *final(self), request),
    {
        match self.phase {
            Phase::Start => {
                self.phase = Phase::Connecting;
                Request::Connect
            },
            Phase::Connecting => match answer {
                Answer::Done => {
                    self.phase = Phase::PreparingExisting;
                    Request::CreateCatalog
                },
                Answer::Failed { message } => {
                    self.phase = Phase::ConnectingAdmin;
                    Request::ConnectAdmin
                },
                _ => self.halt(Error::UnexpectedEvent),
            },
            Phase::ConnectingAdmin => match answer {
                Answer::Done => {
                    self.phase = Phase::CheckingDatabase;
                    Request::CheckDatabase
                },
                Answer::Failed { message } => self.halt(Error::Connection { message }),
                _ => self.halt(Error::UnexpectedEvent),
            },
            Phase::CheckingDatabase => match answer {
                Answer::Exists(true) => self.halt(Error::DatabaseUnreachable),
                Answer::Exists(false) => self.create_from(0, project, settings),
                _ => self.refuse(answer),
            },
            Phase::RunningCreate => match answer {
                Answer::Done => self.create_from(self.cursor + 1, project, settings),
                _ => self.refuse(answer),
            },
            Phase::Reconnecting => match answer {
                Answer::Done => {
                    self.phase = Phase::PreparingFresh;
                    Request::CreateCatalog
                },
                Answer::Failed { message } => self.halt(Error::Connection { message }),
                _ => self.halt(Error::UnexpectedEvent),
            },
            Phase::PreparingFresh => match answer {
                Answer::Done => {
                    self.phase = Phase::ReconcilingUnmarked;
                    Request::Reconcile
                },
                _ => self.refuse(answer),
            },
            Phase::PreparingExisting => match answer {
                Answer::Done => {
                    self.phase = Phase::ReadingWatermark;
                    Request::ReadWatermark
                },
                _ => self.refuse(answer),
            },
            Phase::ReadingWatermark => match answer {
                Answer::Watermark(Some(w)) => self.apply_after(w.as_str(), project),
                Answer::Watermark(None) => {
                    self.phase = Phase::ReconcilingUnmarked;
                    Request::Reconcile
                },
                _ => self.refuse(answer),
            },
            Phase::Migrating => match answer {
                Answer::Done => {
                    self.phase = Phase::Marking;
                    Request::RecordMigration { id: self.current.clone() }
                },
                _ => self.refuse(answer),
            },
            Phase::Marking => match answer {
                Answer::Done => {
                    self.phase = Phase::Rereading;
                    Request::ReadWatermark
                },
                Answer::Failed { message } => self.halt(
                    Error::MarkFailed { id: self.current.clone(), message },
                ),
                _ => self.halt(Error::UnexpectedEvent),
            },
            Phase::Rereading => match answer {
                Answer::Watermark(Some(w)) => self.apply_after(w.as_str(), project),
                Answer::Watermark(None) => self.halt(
                    Error::WatermarkLost { id: self.current.clone() },
                ),
                _ => self.refuse(answer),
            },
            Phase::ReconcilingUnmarked => match answer {
                Answer::Done => {
                    let n = project.migration_scripts.len();
                    let id = if n == 0 {
                        String::new()
                    } else {
                        project.migration_scripts[n - 1].0.clone()
                    };
                    self.phase = Phase::Recording;
                    Request::RecordMigration { id }
                },
                _ => self.refuse(answer),
            },
            Phase::Recording | Phase::ReconcilingMigrated => match answer {
                Answer::Done => {
                    self.phase = Phase::Finished;
                    Request::Finish
                },
                _ => self.refuse(answer),
            },
            Phase::Finished => Request::Finish,
            Phase::Failed => Request::Fail { error: Error::Stopped },
        }
    }
}

} // verus!
