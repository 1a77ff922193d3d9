use vstd::prelude::*;
use crate::error::Error;
use crate::migrate::{password_of, Answer, Request, Settings};
use crate::object_id::{
    first_invalid, get_object_type, id_parts, id_type, valid_id, validate_object_id,
};
use crate::object_type::DatabaseObjectType;
use crate::project::{strs, DatabaseObject, DatabaseProject};
use crate::sql::{admin_script_text, drop_role_text, force_drop_role_if_exists, prepare_admin_script};
use crate::text::occurs;

verus! {

/// Where a teardown stands.
#[derive(PartialEq, Eq, Debug, Copy, Clone, Structural)]
pub enum Step {
    /// Nothing was asked yet.
    Start,
    /// Waiting for the admin connection.
    ConnectingAdmin,
    /// Waiting for the connection to the database.
    Connecting,
    /// The database could not be reached: waiting to hear whether it exists.
    CheckingDatabase,
    /// Waiting for the ids that the catalog records.
    ReadingCatalog,
    /// Waiting to hear whether a role exists.
    Probing,
    /// Waiting for a role to be removed.
    Dropping,
    /// Waiting for the connection to the database to close.
    Closing,
    /// Waiting for a drop script to run.
    RunningDrop,
    /// Waiting to hear whether a declared role is still there.
    Checking,
    /// Waiting for the operator to be warned.
    Warning,
    /// The teardown is over.
    Finished,
    /// The teardown failed.
    Failed,
}

/// The ids of a list, in order.
pub open spec fn object_ids(objects: Seq<DatabaseObject>) -> Seq<String> {
    Seq::new(objects.len(), |i: int| objects[i].id)
}

/// The ids that name a role, in order.
pub open spec fn role_ids(ids: Seq<String>) -> Seq<String>
    decreases ids.len(),
{
    if ids.len() == 0 {
        Seq::empty()
    } else if id_type(ids.last()@) == Some(DatabaseObjectType::Role) {
        role_ids(ids.drop_last()).push(ids.last())
    } else {
        role_ids(ids.drop_last())
    }
}

/// Whether every id of the list is well formed.
pub open spec fn valid_ids(ids: Seq<String>) -> bool {
    forall|i: int| 0 <= i < ids.len() ==> valid_id((#[trigger] ids[i])@)
}

/// Every id among the role ids is a well-formed id of a role.
pub proof fn lemma_role_ids(ids: Seq<String>, k: int)
    requires
        valid_ids(ids),
        0 <= k < role_ids(ids).len(),
    ensures
        valid_id(role_ids(ids)[k]@),
        id_type(role_ids(ids)[k]@) == Some(DatabaseObjectType::Role),
    decreases ids.len(),
{
    if ids.len() > 0 {
        let head = ids.drop_last();
        assert forall|i: int| 0 <= i < head.len() implies valid_id((#[trigger] head[i])@) by {
            assert(head[i] == ids[i]);
        }
        if k < role_ids(head).len() {
            lemma_role_ids(head, k);
        } else {
            assert(valid_id(ids[ids.len() - 1]@));
        }
    }
}

/// The ids that name a role. A malformed id is an error.
pub fn roles_among(ids: &Vec<String>) -> (r: Result<Vec<String>, Error>)
    ensures
        r is Ok <==> valid_ids(ids@),
        r matches Ok(roles) ==> roles@ == role_ids(ids@),
        r matches Err(e) ==> first_invalid(strs(ids@), e),
{
    let mut roles: Vec<String> = Vec::new();
    let mut i: usize = 0;
    while i < ids.len()
        invariant
            i <= ids.len(),
            forall|j: int| 0 <= j < i ==> valid_id((#[trigger] ids[j])@),
            roles@ == role_ids(ids@.take(i as int)),
        decreases ids.len() - i,
    {
        proof {
            assert(ids@.take(i + 1).drop_last() =~= ids@.take(i as int));
            assert(ids@.take(i + 1).last() == ids@[i as int]);
        }
        match validate_object_id(ids[i].as_str()) {
            Ok(()) => {},
            Err(e) => {
                proof {
                    let all = strs(ids@);
                    assert(!valid_id(all[i as int]));
                    assert forall|j: int| 0 <= j < i implies valid_id(#[trigger] all[j]) by {
                        assert(valid_id(ids[j]@));
                    }
                }
                return Err(e);
            },
        }
        match get_object_type(ids[i].as_str()) {
            Ok(t) => {
                if t == DatabaseObjectType::Role {
                    roles.push(ids[i].clone());
                }
            },
            Err(e) => {
                return Err(e);
            },
        }
        i = i + 1;
    }
    proof {
        assert(ids@.take(ids.len() as int) =~= ids@);
    }
    Ok(roles)
}

/// The ids of the declared objects.
pub fn declared_ids(project: &DatabaseProject) -> (ids: Vec<String>)
    ensures
        ids@ == object_ids(project.objects@),
{
    let mut ids: Vec<String> = Vec::new();
    let mut i: usize = 0;
    while i < project.objects.len()
        invariant
            i <= project.objects.len(),
            ids@ == object_ids(project.objects@).take(i as int),
        decreases project.objects.len() - i,
    {
        ids.push(project.objects[i].id.clone());
        proof {
            assert(ids@ =~= object_ids(project.objects@).take(i + 1));
        }
        i = i + 1;
    }
    proof {
        assert(object_ids(project.objects@).take(project.objects.len() as int) =~= object_ids(
            project.objects@,
        ));
    }
    ids
}

/// The machine that removes the roles and drops the database. Roles go
/// first, because what a role owns keeps the database from being dropped.
pub struct Teardown {
    pub step: Step,
    /// The position in the list that the step walks through.
    pub cursor: usize,
    /// The roles to remove: those that the catalog records, then those that
    /// the project declares.
    pub roles: Vec<String>,
    /// The roles that the project declares.
    pub declared_roles: Vec<String>,
}

impl Teardown {
    /// Whether the cursor lies within the list that the step walks through,
    /// and the roles are well-formed ids of roles.
    pub open spec fn wf(&self, project: &DatabaseProject) -> bool {
        &&& (self.step == Step::Probing || self.step == Step::Dropping) ==> self.cursor
            < self.roles.len()
        &&& self.step == Step::RunningDrop ==> self.cursor < project.drop_scripts.len()
        &&& (self.step == Step::Checking || self.step == Step::Warning) ==> self.cursor
            < self.declared_roles.len()
        &&& forall|k: int|
            0 <= k < self.roles.len() ==> valid_id((#[trigger] self.roles[k])@) && id_type(
                self.roles[k]@,
            ) == Some(DatabaseObjectType::Role)
    }

    /// The teardown stops with an error.
    pub open spec fn halts(self, error: Error, post: Teardown, request: Request) -> bool {
        post == (Teardown { step: Step::Failed, ..self }) && request == (Request::Fail { error })
    }

    /// The teardown stops at the first id of the list that is not well
    /// formed.
    pub open spec fn rejects(self, ids: Seq<String>, post: Teardown, request: Request) -> bool {
        &&& post == (Teardown { step: Step::Failed, ..self })
        &&& request matches Request::Fail { error }
        &&& first_invalid(strs(ids), error)
    }

    /// Only the step changes.
    pub open spec fn asks(self, step: Step, wanted: Request, post: Teardown, request: Request) -> bool {
        post == (Teardown { step, ..self }) && request == wanted
    }

    /// What an answer that was not expected amounts to.
    pub open spec fn refuses(self, answer: Answer, post: Teardown, request: Request) -> bool {
        match answer {
            Answer::Failed { message } => self.halts(Error::Database { message }, post, request),
            _ => self.halts(Error::UnexpectedEvent, post, request),
        }
    }

    /// The role at position `k` is looked for; after the last one the
    /// connection is closed.
    pub open spec fn removes_from(self, k: int, post: Teardown, request: Request) -> bool {
        if k < self.roles.len() {
            post == (Teardown { step: Step::Probing, cursor: k as usize, ..self }) && request == (
            Request::CheckExists { id: self.roles[k] })
        } else {
            self.asks(Step::Closing, Request::Disconnect, post, request)
        }
    }

    /// The declared role at position `k` is looked for; after the last one
    /// the teardown is over.
    pub open spec fn checks_from(self, k: int, post: Teardown, request: Request) -> bool {
        if k < self.declared_roles.len() {
            post == (Teardown { step: Step::Checking, cursor: k as usize, ..self }) && request == (
            Request::CheckExistsAdmin { id: self.declared_roles[k] })
        } else {
            self.asks(Step::Finished, Request::Finish, post, request)
        }
    }

    /// The drop script at position `k` is filled in and run; after the last
    /// one the declared roles are looked for.
    pub open spec fn scripts_from(
        self,
        k: int,
        project: &DatabaseProject,
        settings: &Settings,
        post: Teardown,
        request: Request,
    ) -> bool {
        if k < project.drop_scripts.len() {
            let template = project.drop_scripts[k].1@;
            let named = admin_script_text(
                template,
                settings.database_name@,
                settings.role_name@,
                None,
            );
            if settings.password is None && occurs(named, "{password}"@) {
                self.halts(Error::MissingPassword, post, request)
            } else {
                &&& post == (Teardown { step: Step::RunningDrop, cursor: k as usize, ..self })
                &&& request matches Request::RunAdmin { sql }
                &&& sql@ == admin_script_text(
                    template,
                    settings.database_name@,
                    settings.role_name@,
                    password_of(*settings),
                )
            }
        } else {
            self.checks_from(0, post, request)
        }
    }

    /// What one step does.
    pub open spec fn steps(
        self,
        project: &DatabaseProject,
        settings: &Settings,
        answer: Answer,
        post: Teardown,
        request: Request,
    ) -> bool {
        match self.step {
            Step::Start => self.asks(Step::ConnectingAdmin, Request::ConnectAdmin, post, request),
            Step::ConnectingAdmin => match answer {
                Answer::Done => self.asks(Step::Connecting, Request::Connect, post, request),
                Answer::Failed { message } => self.halts(
                    Error::Connection { message },
                    post,
                    request,
                ),
                _ => self.halts(Error::UnexpectedEvent, post, request),
            },
            Step::Connecting => match answer {
                Answer::Done => self.asks(Step::ReadingCatalog, Request::ReadCatalog, post, request),
                Answer::Failed { message } => self.asks(
                    Step::CheckingDatabase,
                    Request::CheckDatabase,
                    post,
                    request,
                ),
                _ => self.halts(Error::UnexpectedEvent, post, request),
            },
            Step::CheckingDatabase => match answer {
                Answer::Exists(true) => self.halts(Error::DatabaseUnreachable, post, request),
                Answer::Exists(false) => if !valid_ids(object_ids(project.objects@)) {
                    self.rejects(object_ids(project.objects@), post, request)
                } else {
                    &&& post.declared_roles@ == role_ids(object_ids(project.objects@))
                    &&& (Teardown { declared_roles: post.declared_roles, ..self }).scripts_from(
                        0,
                        project,
                        settings,
                        post,
                        request,
                    )
                },
                _ => self.refuses(answer, post, request),
            },
            Step::ReadingCatalog => match answer {
                Answer::Catalog { ids } => if !valid_ids(ids@) {
                    self.rejects(ids@, post, request)
                } else if !valid_ids(object_ids(project.objects@)) {
                    self.rejects(object_ids(project.objects@), post, request)
                } else {
                    &&& post.declared_roles@ == role_ids(object_ids(project.objects@))
                    &&& post.roles@ == role_ids(ids@) + role_ids(object_ids(project.objects@))
                    &&& (Teardown {
                        roles: post.roles,
                        declared_roles: post.declared_roles,
                        ..self
                    }).removes_from(0, post, request)
                },
                _ => self.refuses(answer, post, request),
            },
            Step::Probing => match answer {
                Answer::Exists(true) => {
                    &&& post == (Teardown { step: Step::Dropping, ..self })
                    &&& request matches Request::Execute { sql }
                    &&& sql@ == drop_role_text(
                        id_parts(self.roles[self.cursor as int]@)[1],
                        settings.role_name@,
                        true,
                    )
                },
                Answer::Exists(false) => self.removes_from(self.cursor + 1, post, request),
                _ => self.refuses(answer, post, request),
            },
            Step::Dropping => match answer {
                Answer::Done => self.removes_from(self.cursor + 1, post, request),
                _ => self.refuses(answer, post, request),
            },
            Step::Closing => match answer {
                Answer::Done => self.scripts_from(0, project, settings, post, request),
                _ => self.refuses(answer, post, request),
            },
            Step::RunningDrop => match answer {
                Answer::Done => self.scripts_from(
                    self.cursor + 1,
                    project,
                    settings,
                    post,
                    request,
                ),
                _ => self.refuses(answer, post, request),
            },
            Step::Checking => match answer {
                Answer::Exists(true) => self.asks(
                    Step::Warning,
                    Request::Warn { id: self.declared_roles[self.cursor as int] },
                    post,
                    request,
                ),
                Answer::Exists(false) => self.checks_from(self.cursor + 1, post, request),
                _ => self.refuses(answer, post, request),
            },
            Step::Warning => match answer {
                Answer::Done => self.checks_from(self.cursor + 1, post, request),
                _ => self.refuses(answer, post, request),
            },
            Step::Finished => post == self && request == Request::Finish,
            Step::Failed => post == self && request == (Request::Fail { error: Error::Stopped }),
        }
    }

    /// A machine that has asked for nothing yet.
    pub fn new() -> (m: Teardown)
        ensures
            m.step == Step::Start,
            m.cursor == 0,
            m.roles@.len() == 0,
            m.declared_roles@.len() == 0,
    {
        Teardown { step: Step::Start, cursor: 0, roles: Vec::new(), declared_roles: Vec::new() }
    }
}

impl Teardown {
    fn halt(&mut self, error: Error) -> (request: Request)
        requires
            forall|k: int|
                0 <= k < old(self).roles.len() ==> valid_id((#[trigger] old(self).roles[k])@)
                    && id_type(old(self).roles[k]@) == Some(DatabaseObjectType::Role),
        ensures
            forall|project: &DatabaseProject| #[trigger] final(self).wf(project),
            old(self).halts(error, *final(self), request),
    {
        self.step = Step::Failed;
        Request::Fail { error }
    }

    fn refuse(&mut self, answer: Answer) -> (request: Request)
        requires
            forall|k: int|
                0 <= k < old(self).roles.len() ==> valid_id((#[trigger] old(self).roles[k])@)
                    && id_type(old(self).roles[k]@) == Some(DatabaseObjectType::Role),
        ensures
            forall|project: &DatabaseProject| #[trigger] final(self).wf(project),
            old(self).refuses(answer, *final(self), request),
    {
        match answer {
            Answer::Failed { message } => self.halt(Error::Database { message }),
            _ => self.halt(Error::UnexpectedEvent),
        }
    }

    fn remove_from(&mut self, k: usize, Ghost(project): Ghost<&DatabaseProject>) -> (request:
        Request)
        requires
            forall|j: int|
                0 <= j < old(self).roles.len() ==> valid_id((#[trigger] old(self).roles[j])@)
                    && id_type(old(self).roles[j]@) == Some(DatabaseObjectType::Role),
        ensures
            final(self).wf(project),
            old(self).removes_from(k as int, *final(self), request),
    {
        if k < self.roles.len() {
            self.step = Step::Probing;
            self.cursor = k;
            Request::CheckExists { id: self.roles[k].clone() }
        } else {
            self.step = Step::Closing;
            Request::Disconnect
        }
    }

    fn check_from(&mut self, k: usize, Ghost(project): Ghost<&DatabaseProject>) -> (request:
        Request)
        requires
            forall|j: int|
                0 <= j < old(self).roles.len() ==> valid_id((#[trigger] old(self).roles[j])@)
                    && id_type(old(self).roles[j]@) == Some(DatabaseObjectType::Role),
        ensures
            final(self).wf(project),
            old(self).checks_from(k as int, *final(self), request),
    {
        if k < self.declared_roles.len() {
            self.step = Step::Checking;
            self.cursor = k;
            Request::CheckExistsAdmin { id: self.declared_roles[k].clone() }
        } else {
            self.step = Step::Finished;
            Request::Finish
        }
    }

    fn script_from(&mut self, k: usize, project: &DatabaseProject, settings: &Settings) -> (request:
        Request)
        requires
            forall|j: int|
                0 <= j < old(self).roles.len() ==> valid_id((#[trigger] old(self).roles[j])@)
                    && id_type(old(self).roles[j]@) == Some(DatabaseObjectType::Role),
        ensures
            final(self).wf(project),
            old(self).scripts_from(k as int, project, settings, *final(self), request),
    {
        if k < project.drop_scripts.len() {
            let password = match &settings.password {
                Some(p) => Some(p.as_str()),
                None => None,
            };
            match prepare_admin_script(
                project.drop_scripts[k].1.as_str(),
                settings.database_name.as_str(),
                settings.role_name.as_str(),
                password,
            ) {
                Ok(sql) => {
                    self.step = Step::RunningDrop;
                    self.cursor = k;
                    Request::RunAdmin { sql }
                },
                Err(_) => self.halt(Error::MissingPassword),
            }
        } else {
            self.check_from(0, Ghost(project))
        }
    }

    /// Takes what came of the last request and says what to do next. The
    /// first call takes `Begin`.
    pub fn step(&mut self, project: &DatabaseProject, settings: &Settings, answer: Answer) -> (request:
        Request)
        requires
            old(self).wf(project),
        ensures
            final(self).wf(project),
            old(self).steps(project, settings, answer, *final(self), request),
    {
        match self.step {
            Step::Start => {
                self.step = Step::ConnectingAdmin;
                Request::ConnectAdmin
            },
            Step::ConnectingAdmin => match answer {
                Answer::Done => {
                    self.step = Step::Connecting;
                    Request::Connect
                },
                Answer::Failed { message } => self.halt(Error::Connection { message }),
                _ => self.halt(Error::UnexpectedEvent),
            },
            Step::Connecting => match answer {
                Answer::Done => {
                    self.step = Step::ReadingCatalog;
                    Request::ReadCatalog
                },
                Answer::Failed { message } => {
                    self.step = Step::CheckingDatabase;
                    Request::CheckDatabase
                },
                _ => self.halt(Error::UnexpectedEvent),
            },
            Step::CheckingDatabase => match answer {
                Answer::Exists(true) => self.halt(Error::DatabaseUnreachable),
                Answer::Exists(false) => {
                    let ids = declared_ids(project);
                    match roles_among(&ids) {
                        Err(e) => self.halt(e),
                        Ok(declared) => {
                            self.declared_roles = declared;
                            self.script_from(0, project, settings)
                        },
                    }
                },
                _ => self.refuse(answer),
            },
            Step::ReadingCatalog => match answer {
                Answer::Catalog { ids } => {
                    let recorded = match roles_among(&ids) {
                        Ok(roles) => roles,
                        Err(e) => {
                            return self.halt(e);
                        },
                    };
                    let own = declared_ids(project);
                    let declared = match roles_among(&own) {
                        Ok(roles) => roles,
                        Err(e) => {
                            return self.halt(e);
                        },
                    };
                    let mut roles = recorded;
                    let mut k: usize = 0;
                    while k < declared.len()
                        invariant
                            k <= declared.len(),
                            valid_ids(ids@),
                            valid_ids(own@),
                            declared@ == role_ids(own@),
                            roles@ == role_ids(ids@) + declared@.take(k as int),
                        decreases declared.len() - k,
                    {
                        roles.push(declared[k].clone());
                        proof {
                            assert(declared@.take(k + 1) =~= declared@.take(k as int).push(
                                declared[k as int],
                            ));
                            assert(roles@ =~= role_ids(ids@) + declared@.take(k + 1));
                        }
                        k = k + 1;
                    }
                    proof {
                        assert(declared@.take(declared.len() as int) =~= declared@);
                        assert forall|j: int| 0 <= j < roles.len() implies valid_id(
                            (#[trigger] roles[j])@,
                        ) && id_type(roles[j]@) == Some(DatabaseObjectType::Role) by {
                            if j < role_ids(ids@).len() {
                                lemma_role_ids(ids@, j);
                            } else {
                                lemma_role_ids(own@, j - role_ids(ids@).len());
                            }
                        }
                    }
                    self.roles = roles;
                    self.declared_roles = declared;
                    self.remove_from(0, Ghost(project))
                },
                _ => self.refuse(answer),
            },
            Step::Probing => match answer {
                Answer::Exists(true) => {
                    match force_drop_role_if_exists(
                        self.roles[self.cursor].as_str(),
                        settings.role_name.as_str(),
                    ) {
                        Ok(sql) => {
                            self.step = Step::Dropping;
                            Request::Execute { sql }
                        },
                        Err(e) => self.halt(e),
                    }
                },
                Answer::Exists(false) => self.remove_from(self.cursor + 1, Ghost(project)),
                _ => self.refuse(answer),
            },
            Step::Dropping => match answer {
                Answer::Done => self.remove_from(self.cursor + 1, Ghost(project)),
                _ => self.refuse(answer),
            },
            Step::Closing => match answer {
                Answer::Done => self.script_from(0, project, settings),
                _ => self.refuse(answer),
            },
            Step::RunningDrop => match answer {
                Answer::Done => self.script_from(self.cursor + 1, project, settings),
                _ => self.refuse(answer),
            },
            Step::Checking => match answer {
                Answer::Exists(true) => {
                    self.step = Step::Warning;
                    Request::Warn { id: self.declared_roles[self.cursor].clone() }
                },
                Answer::Exists(false) => self.check_from(self.cursor + 1, Ghost(project)),
                _ => self.refuse(answer),
            },
            Step::Warning => match answer {
                Answer::Done => self.check_from(self.cursor + 1, Ghost(project)),
                _ => self.refuse(answer),
            },
            Step::Finished => Request::Finish,
            Step::Failed => Request::Fail { error: Error::Stopped },
        }
    }
}

} // verus!
