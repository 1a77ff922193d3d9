use vstd::prelude::*;
use crate::classify::{
    all_valid, classify, dirty_table_action, replaces_unrecorded, resolve_dirty_table,
    drops_unrecorded, Classification, DirtyTableAction,
};
use crate::error::Error;
use crate::object_id::{first_invalid, get_object_type, id_type, valid_id, validate_object_id};
use crate::project::{
    clone_strings, contains_str, declares, distinct, find_object, holds, minus, object_of, strs,
    unique_ids, without, DatabaseObject,
};
use crate::resolver::{
    acyclic, by_id, calc_create_order, creation_order, follows_plan, id_cycle, typed,
};
use crate::sorted::{ascending, sort_strings};
use crate::sql::{drop_object, drop_text, droppable};

verus! {

/// Why an object is being dropped.
#[derive(PartialEq, Eq, Debug, Copy, Clone, Structural)]
pub enum Attempt {
    /// The first try, before anything that hangs on the object was dropped.
    First,
    /// An id that neither the catalog nor the project knows, dropped because
    /// an object names it as a dependent.
    Blind,
    /// The second try, after the dependents were dropped.
    Retry,
}

/// Where the reconciliation stands.
#[derive(PartialEq, Eq, Debug, Copy, Clone, Structural)]
pub enum Stage {
    /// About to forget the next stale record.
    Forget,
    /// Waiting for a stale record to be deleted.
    Forgetting,
    /// About to look for the next declared, unrecorded object.
    Probe,
    /// Waiting to hear whether a declared, unrecorded object exists.
    Probing,
    /// About to look at the next dirty table.
    Dirty,
    /// Waiting to hear whether a dirty table exists.
    DirtyProbing,
    /// Waiting for the record of a dirty table to be deleted or overwritten.
    DirtyWriting,
    /// About to start a pass over the objects that are left to drop.
    PassBegin,
    /// About to take the next object of the pass.
    Root,
    /// About to drop the target together with what hangs on it.
    Enter,
    /// About to take the next dependent of the object on top of the stack.
    Deps,
    /// An object and what hangs on it are gone: back to where it was named.
    Ascend,
    /// About to drop the target itself.
    OpBegin(Attempt),
    /// Waiting to hear whether the target exists.
    OpProbing(Attempt),
    /// Waiting for the drop statement to run.
    OpExecuting(Attempt),
    /// Waiting for the target's record to be deleted.
    OpForgetting(Attempt),
    /// A pass is over.
    PassEnd,
    /// About to compute the order of creation.
    Order,
    /// About to look at the next object to create.
    Create,
    /// Waiting to hear whether an object to create exists.
    CreateProbing,
    /// Waiting for the script of an object to run.
    CreateRunning,
    /// Waiting for the record of an object to be written.
    CreateWriting,
    /// Everything is done.
    Finished,
    /// The reconciliation failed.
    Failed,
}

/// An object that could not be dropped at once, and how far the walk through
/// its dependents has come.
pub struct Frame {
    pub id: String,
    pub dependents: Vec<String>,
    pub next: usize,
}

/// What the database answered to the last action.
pub enum Event {
    /// Nothing: the last action asked for nothing.
    Resume,
    /// Whether the object exists.
    Exists(bool),
    /// The statement ran, or the record was written or deleted.
    Done,
    /// The database refused.
    Failed { message: String },
}

/// What the caller is to do next.
pub enum Action {
    /// Nothing: step again.
    Proceed,
    /// Ask whether the object exists in the database.
    CheckExists { id: String },
    /// Run these statements.
    Execute { sql: String },
    /// Write the catalog record of the declared object with this id.
    WriteRecord { id: String },
    /// Delete the catalog record with this id.
    DeleteRecord { id: String },
    /// The database matches the project.
    Finish,
    /// Stop with this error.
    Fail { error: Error },
}

/// The error that an answer amounts to where it ends the run.
pub open spec fn failure_of(event: Event) -> Error {
    match event {
        Event::Failed { message } => Error::Database { message },
        _ => Error::UnexpectedEvent,
    }
}

/// `v` with `s` at its end, unless it holds `s` already.
pub open spec fn added(v: Seq<String>, s: String) -> Seq<String> {
    if holds(v, s@) {
        v
    } else {
        v.push(s)
    }
}

/// Whether `out` is `v` in ascending order.
pub open spec fn sorted_of(out: Seq<String>, v: Seq<String>) -> bool {
    &&& ascending(out)
    &&& strs(out).to_multiset() == strs(v).to_multiset()
    &&& out.len() == v.len()
    &&& forall|s: Seq<char>| holds(out, s) <==> holds(v, s)
    &&& distinct(v) ==> distinct(out)
}

/// The machine that brings the database to the project's state. It asks for
/// one action at a time and is told the answer.
pub struct Reconciler {
    /// The objects that the project declares.
    pub declared: Vec<DatabaseObject>,
    /// The objects that the catalog records.
    pub recorded: Vec<DatabaseObject>,
    /// The role that the tool connects as.
    pub owner: String,
    pub stage: Stage,
    /// The position in the list that the stage walks through.
    pub cursor: usize,
    pub stale: Vec<String>,
    pub unrecorded: Vec<String>,
    pub dirty: Vec<String>,
    /// The objects that are left to drop.
    pub pending: Vec<String>,
    /// The objects of the current pass, in ascending order.
    pub roots: Vec<String>,
    pub root: usize,
    /// The objects dropped so far.
    pub dropped: Vec<String>,
    /// How many were dropped when the pass began.
    pub dropped_before: usize,
    /// The objects entered since the pass took its current object.
    pub visited: Vec<String>,
    pub stack: Vec<Frame>,
    /// The object that is being entered or dropped.
    pub target: String,
    /// The last failure of the drops.
    pub last_error: Option<Error>,
    /// The order of creation.
    pub order: Vec<String>,
}

impl Reconciler {
    /// Whether the positions that the stage relies on lie within their lists.
    pub open spec fn wf(&self) -> bool {
        &&& unique_ids(self.declared@)
        &&& forall|k: int|
            0 <= k < self.stack.len() ==> (#[trigger] self.stack[k]).next
                <= self.stack[k].dependents.len()
        &&& match self.stage {
            Stage::Forgetting => self.cursor < self.stale.len(),
            Stage::Probing => self.cursor < self.unrecorded.len(),
            Stage::DirtyProbing | Stage::DirtyWriting => self.cursor < self.dirty.len(),
            Stage::CreateProbing | Stage::CreateRunning | Stage::CreateWriting => self.cursor
                < self.order.len(),
            Stage::Root => self.root <= self.roots.len(),
            Stage::Enter | Stage::Ascend => self.root < self.roots.len(),
            Stage::Deps
            | Stage::OpBegin(_)
            | Stage::OpProbing(_)
            | Stage::OpExecuting(_)
            | Stage::OpForgetting(_) => self.root < self.roots.len() && self.stack.len() > 0,
            _ => true,
        }
    }

    /// The object that stands for an id while dropping: the one that the
    /// catalog records, else the one that the project declares.
    pub open spec fn definition(&self, id: Seq<char>) -> Option<DatabaseObject> {
        match object_of(self.recorded@, id) {
            Some(o) => Some(o),
            None => object_of(self.declared@, id),
        }
    }

    /// The run stops: the stage is `Failed`, the action carries the error.
    pub open spec fn halts(self, error: Error, post: Reconciler, action: Action) -> bool {
        post == (Reconciler { stage: Stage::Failed, ..self }) && action == (Action::Fail { error })
    }

    /// Only the stage changes, and nothing is asked of the caller.
    pub open spec fn moves(self, stage: Stage, post: Reconciler, action: Action) -> bool {
        post == (Reconciler { stage, ..self }) && action == Action::Proceed
    }

    /// The stage changes and the caller is asked for `wanted`.
    pub open spec fn asks(self, stage: Stage, wanted: Action, post: Reconciler, action: Action) -> bool {
        post == (Reconciler { stage, ..self }) && action == wanted
    }

    /// The cursor goes one further, and nothing is asked of the caller.
    pub open spec fn advances(self, stage: Stage, post: Reconciler, action: Action) -> bool {
        post == (Reconciler { stage, cursor: (self.cursor + 1) as usize, ..self }) && action
            == Action::Proceed
    }

    /// The walk from the current object of the pass is given up: the failure
    /// is kept, the stack is emptied, and the pass goes on with its next
    /// object.
    pub open spec fn gives_up(self, error: Error, post: Reconciler, action: Action) -> bool {
        &&& post == (Reconciler {
            stack: post.stack,
            last_error: Some(error),
            root: (self.root + 1) as usize,
            stage: Stage::Root,
            ..self
        })
        &&& post.stack@.len() == 0
        &&& action == Action::Proceed
    }

    /// A drop of the target failed.
    pub open spec fn drop_fails(
        self,
        attempt: Attempt,
        error: Error,
        post: Reconciler,
        action: Action,
    ) -> bool {
        if attempt == Attempt::First {
            self.moves(Stage::Deps, post, action)
        } else {
            self.gives_up(error, post, action)
        }
    }

    /// A drop of the target succeeded.
    pub open spec fn drop_succeeds(self, attempt: Attempt, post: Reconciler, action: Action) -> bool {
        if attempt == Attempt::Blind {
            self.moves(Stage::Deps, post, action)
        } else {
            &&& post == (Reconciler {
                dropped: post.dropped,
                stack: post.stack,
                stage: Stage::Ascend,
                ..self
            })
            &&& post.dropped@ == added(self.dropped@, self.target)
            &&& post.stack@ == self.stack@.drop_last()
            &&& action == Action::Proceed
        }
    }

    /// What a step does before the drops: stale records are forgotten,
    /// declared objects that exist unrecorded are marked for dropping, and
    /// dirty tables are settled.
    pub open spec fn prepares(self, event: Event, post: Reconciler, action: Action) -> bool {
        match self.stage {
            Stage::Forget => if self.cursor < self.stale.len() {
                self.asks(
                    Stage::Forgetting,
                    Action::DeleteRecord { id: self.stale[self.cursor as int] },
                    post,
                    action,
                )
            } else {
                post == (Reconciler { stage: Stage::Probe, cursor: 0, ..self }) && action
                    == Action::Proceed
            },
            Stage::Forgetting => match event {
                Event::Done => self.advances(Stage::Forget, post, action),
                _ => self.halts(failure_of(event), post, action),
            },
            Stage::Probe => if self.cursor < self.unrecorded.len() {
                self.asks(
                    Stage::Probing,
                    Action::CheckExists { id: self.unrecorded[self.cursor as int] },
                    post,
                    action,
                )
            } else {
                post == (Reconciler { stage: Stage::Dirty, cursor: 0, ..self }) && action
                    == Action::Proceed
            },
            Stage::Probing => {
                let id = self.unrecorded[self.cursor as int];
                match event {
                    Event::Exists(true) => if !valid_id(id@) {
                        self.halts(
                            if id_type(id@) is None {
                                Error::UnknownObjectType
                            } else {
                                Error::MalformedId
                            },
                            post,
                            action,
                        )
                    } else if replaces_unrecorded(id_type(id@).unwrap()) {
                        &&& post == (Reconciler {
                            pending: post.pending,
                            stage: Stage::Probe,
                            cursor: (self.cursor + 1) as usize,
                            ..self
                        })
                        &&& post.pending@ == added(self.pending@, id)
                        &&& action == Action::Proceed
                    } else {
                        self.advances(Stage::Probe, post, action)
                    },
                    Event::Exists(false) => self.advances(Stage::Probe, post, action),
                    _ => self.halts(failure_of(event), post, action),
                }
            },
            Stage::Dirty => if self.cursor < self.dirty.len() {
                self.asks(
                    Stage::DirtyProbing,
                    Action::CheckExists { id: self.dirty[self.cursor as int] },
                    post,
                    action,
                )
            } else {
                self.moves(Stage::PassBegin, post, action)
            },
            Stage::DirtyProbing => {
                let id = self.dirty[self.cursor as int];
                match event {
                    Event::Exists(exists) => match dirty_table_action(
                        exists,
                        declares(self.declared@, id@),
                    ) {
                        DirtyTableAction::Refuse => self.halts(
                            Error::ManualInterventionRequired { id },
                            post,
                            action,
                        ),
                        DirtyTableAction::Forget => self.asks(
                            Stage::DirtyWriting,
                            Action::DeleteRecord { id },
                            post,
                            action,
                        ),
                        DirtyTableAction::Overwrite => self.asks(
                            Stage::DirtyWriting,
                            Action::WriteRecord { id },
                            post,
                            action,
                        ),
                        DirtyTableAction::Leave => self.advances(Stage::Dirty, post, action),
                    },
                    _ => self.halts(failure_of(event), post, action),
                }
            },
            Stage::DirtyWriting => match event {
                Event::Done => self.advances(Stage::Dirty, post, action),
                _ => self.halts(failure_of(event), post, action),
            },
            _ => false,
        }
    }

    /// What a step does while it walks through the objects to drop.
    pub open spec fn walks(self, event: Event, post: Reconciler, action: Action) -> bool {
        match self.stage {
            Stage::PassBegin => if self.pending.len() == 0 {
                self.moves(Stage::Order, post, action)
            } else {
                &&& post == (Reconciler {
                    roots: post.roots,
                    root: 0,
                    dropped_before: self.dropped.len(),
                    stage: Stage::Root,
                    ..self
                })
                &&& sorted_of(post.roots@, self.pending@)
                &&& action == Action::Proceed
            },
            Stage::Root => if self.root < self.roots.len() {
                let id = self.roots[self.root as int];
                if self.definition(id@) is Some {
                    &&& post == (Reconciler {
                        visited: post.visited,
                        target: id,
                        stage: Stage::Enter,
                        ..self
                    })
                    &&& post.visited@.len() == 0
                    &&& action == Action::Proceed
                } else {
                    &&& post == (Reconciler {
                        last_error: Some(Error::MissingRecord { id }),
                        root: (self.root + 1) as usize,
                        ..self
                    })
                    &&& action == Action::Proceed
                }
            } else {
                self.moves(Stage::PassEnd, post, action)
            },
            Stage::Enter => if holds(self.dropped@, self.target@) {
                self.moves(Stage::Ascend, post, action)
            } else if holds(self.visited@, self.target@) {
                self.gives_up(Error::CycleDetected { id: self.target }, post, action)
            } else {
                match self.definition(self.target@) {
                    None => self.gives_up(Error::MissingRecord { id: self.target }, post, action),
                    Some(o) => {
                        &&& post == (Reconciler {
                            visited: post.visited,
                            stack: post.stack,
                            stage: Stage::OpBegin(Attempt::First),
                            ..self
                        })
                        &&& post.visited@ == self.visited@.push(self.target)
                        &&& post.stack@.len() == self.stack@.len() + 1
                        &&& post.stack@.drop_last() == self.stack@
                        &&& post.stack@.last().id == self.target
                        &&& post.stack@.last().dependents@ == o.required_by@
                        &&& post.stack@.last().next == 0
                        &&& action == Action::Proceed
                    },
                }
            },
            Stage::Deps => {
                let top = self.stack@.last();
                if top.next < top.dependents.len() {
                    let dep = top.dependents[top.next as int];
                    &&& post == (Reconciler {
                        stack: post.stack,
                        target: dep,
                        stage: if self.definition(dep@) is Some {
                            Stage::Enter
                        } else {
                            Stage::OpBegin(Attempt::Blind)
                        },
                        ..self
                    })
                    &&& post.stack@ == self.stack@.drop_last().push(
                        Frame { next: (top.next + 1) as usize, ..top },
                    )
                    &&& action == Action::Proceed
                } else {
                    post == (Reconciler {
                        target: top.id,
                        stage: Stage::OpBegin(Attempt::Retry),
                        ..self
                    }) && action == Action::Proceed
                }
            },
            Stage::Ascend => if self.stack.len() == 0 {
                post == (Reconciler {
                    root: (self.root + 1) as usize,
                    stage: Stage::Root,
                    ..self
                }) && action == Action::Proceed
            } else {
                self.moves(Stage::Deps, post, action)
            },
            Stage::PassEnd => if self.dropped.len() == self.dropped_before {
                &&& post == (Reconciler {
                    pending: post.pending,
                    last_error: None,
                    stage: Stage::Failed,
                    ..self
                })
                &&& post.pending@ == minus(self.pending@, self.dropped@)
                &&& action matches Action::Fail { error: Error::UnresolvableDrop { pending, cause } }
                &&& pending@ == minus(self.pending@, self.dropped@)
                &&& cause == match self.last_error {
                    Some(e) => Some(Box::new(e)),
                    None => None,
                }
            } else {
                &&& post == (Reconciler { pending: post.pending, stage: Stage::PassBegin, ..self })
                &&& post.pending@ == minus(self.pending@, self.dropped@)
                &&& action == Action::Proceed
            },
            _ => false,
        }
    }

    /// What a step does while the target itself is dropped: ask whether it
    /// exists, run its drop statement if it does, then delete its record.
    pub open spec fn drops(self, event: Event, post: Reconciler, action: Action) -> bool {
        match self.stage {
            Stage::OpBegin(attempt) => if id_type(self.target@) is None {
                self.drop_fails(attempt, Error::UnknownObjectType, post, action)
            } else {
                self.asks(
                    Stage::OpProbing(attempt),
                    Action::CheckExists { id: self.target },
                    post,
                    action,
                )
            },
            Stage::OpProbing(attempt) => match event {
                Event::Exists(true) => match id_type(self.target@) {
                    None => self.drop_fails(attempt, Error::UnknownObjectType, post, action),
                    Some(t) => if droppable(self.target@) {
                        &&& post == (Reconciler { stage: Stage::OpExecuting(attempt), ..self })
                        &&& action matches Action::Execute { sql }
                        &&& sql@ == drop_text(self.target@, t, self.owner@)
                    } else {
                        self.drop_fails(
                            attempt,
                            if t == crate::object_type::DatabaseObjectType::Table {
                                Error::TableDrop
                            } else {
                                Error::MalformedId
                            },
                            post,
                            action,
                        )
                    },
                },
                Event::Exists(false) => self.asks(
                    Stage::OpForgetting(attempt),
                    Action::DeleteRecord { id: self.target },
                    post,
                    action,
                ),
                Event::Failed { message } => self.drop_fails(
                    attempt,
                    Error::Database { message },
                    post,
                    action,
                ),
                _ => self.halts(Error::UnexpectedEvent, post, action),
            },
            Stage::OpExecuting(attempt) => match event {
                Event::Done => self.asks(
                    Stage::OpForgetting(attempt),
                    Action::DeleteRecord { id: self.target },
                    post,
                    action,
                ),
                Event::Failed { message } => self.drop_fails(
                    attempt,
                    Error::Database { message },
                    post,
                    action,
                ),
                _ => self.halts(Error::UnexpectedEvent, post, action),
            },
            Stage::OpForgetting(attempt) => match event {
                Event::Done => self.drop_succeeds(attempt, post, action),
                Event::Failed { message } => self.drop_fails(
                    attempt,
                    Error::Database { message },
                    post,
                    action,
                ),
                _ => self.halts(Error::UnexpectedEvent, post, action),
            },
            _ => false,
        }
    }

    /// What a step does once the drops are over: the order of creation is
    /// computed, and each object in it is created unless it exists; its
    /// record is written either way.
    pub open spec fn creates(self, event: Event, post: Reconciler, action: Action) -> bool {
        match self.stage {
            Stage::Order => if !typed(self.declared@) {
                self.halts(Error::UnknownObjectType, post, action)
            } else if acyclic(self.declared@) {
                &&& post == (Reconciler {
                    order: post.order,
                    cursor: 0,
                    stage: Stage::Create,
                    ..self
                })
                &&& creation_order(self.declared@, post.order@)
                &&& exists|idx: Seq<usize>|
                    by_id(self.declared@, idx) && #[trigger] follows_plan(
                        self.declared@,
                        idx,
                        Ok(post.order),
                    )
                &&& action == Action::Proceed
            } else {
                &&& post == (Reconciler { stage: Stage::Failed, ..self })
                &&& action matches Action::Fail { error: Error::CycleDetected { id } }
                &&& exists|path: Seq<Seq<char>>|
                    #[trigger] id_cycle(self.declared@, path) && path[0] == id@
                &&& exists|idx: Seq<usize>|
                    by_id(self.declared@, idx) && #[trigger] follows_plan(
                        self.declared@,
                        idx,
                        Err(Error::CycleDetected { id }),
                    )
            },
            Stage::Create => if self.cursor < self.order.len() {
                self.asks(
                    Stage::CreateProbing,
                    Action::CheckExists { id: self.order[self.cursor as int] },
                    post,
                    action,
                )
            } else {
                self.asks(Stage::Finished, Action::Finish, post, action)
            },
            Stage::CreateProbing => {
                let id = self.order[self.cursor as int];
                match event {
                    Event::Exists(true) => self.asks(
                        Stage::CreateWriting,
                        Action::WriteRecord { id },
                        post,
                        action,
                    ),
                    Event::Exists(false) => match object_of(self.declared@, id@) {
                        Some(o) => self.asks(
                            Stage::CreateRunning,
                            Action::Execute { sql: o.script },
                            post,
                            action,
                        ),
                        None => self.halts(Error::MissingRecord { id }, post, action),
                    },
                    _ => self.halts(failure_of(event), post, action),
                }
            },
            Stage::CreateRunning => match event {
                Event::Done => self.asks(
                    Stage::CreateWriting,
                    Action::WriteRecord { id: self.order[self.cursor as int] },
                    post,
                    action,
                ),
                _ => self.halts(failure_of(event), post, action),
            },
            Stage::CreateWriting => match event {
                Event::Done => self.advances(Stage::Create, post, action),
                _ => self.halts(failure_of(event), post, action),
            },
            Stage::Finished => post == self && action == Action::Finish,
            Stage::Failed => post == self && action == (Action::Fail { error: Error::Stopped }),
            _ => false,
        }
    }

    /// What one step does, stage by stage.
    pub open spec fn steps(self, event: Event, post: Reconciler, action: Action) -> bool {
        match self.stage {
            Stage::Forget
            | Stage::Forgetting
            | Stage::Probe
            | Stage::Probing
            | Stage::Dirty
            | Stage::DirtyProbing
            | Stage::DirtyWriting => self.prepares(event, post, action),
            Stage::PassBegin
            | Stage::Root
            | Stage::Enter
            | Stage::Deps
            | Stage::Ascend
            | Stage::PassEnd => self.walks(event, post, action),
            Stage::OpBegin(_)
            | Stage::OpProbing(_)
            | Stage::OpExecuting(_)
            | Stage::OpForgetting(_) => self.drops(event, post, action),
            _ => self.creates(event, post, action),
        }
    }

    /// Compares the catalog with the project and sets the machine to its
    /// first stage. A malformed id in the catalog is an error.
    pub fn new(declared: Vec<DatabaseObject>, recorded: Vec<DatabaseObject>, owner: String) -> (r:
        Result<Reconciler, Error>)
        requires
            unique_ids(declared@),
        ensures
            r is Ok <==> all_valid(recorded@),
            r matches Ok(m) ==> {
                &&& m.wf()
                &&& m.declared == declared
                &&& m.recorded == recorded
                &&& m.owner == owner
                &&& m.stage == Stage::Forget
                &&& m.cursor == 0
                &&& (Classification {
                    drop_set: m.pending,
                    dirty_tables: m.dirty,
                    stale: m.stale,
                    unrecorded: m.unrecorded,
                }).of(recorded@, declared@)
                &&& m.dropped@.len() == 0
                &&& m.stack@.len() == 0
                &&& m.last_error is None
            },
            r matches Err(e) ==> first_invalid(crate::project::ids_of(recorded@), e),
    {
        let c = classify(&recorded, &declared)?;
        Ok(
            Reconciler {
                declared,
                recorded,
                owner,
                stage: Stage::Forget,
                cursor: 0,
                stale: c.stale,
                unrecorded: c.unrecorded,
                dirty: c.dirty_tables,
                pending: c.drop_set,
                roots: Vec::new(),
                root: 0,
                dropped: Vec::new(),
                dropped_before: 0,
                visited: Vec::new(),
                stack: Vec::new(),
                target: String::new(),
                last_error: None,
                order: Vec::new(),
            },
        )
    }
}

/// The error that an answer amounts to where it ends the run.
fn failure(event: Event) -> (error: Error)
    ensures
        error == failure_of(event),
{
    match event {
        Event::Failed { message } => Error::Database { message },
        _ => Error::UnexpectedEvent,
    }
}

/// Puts `s` at the end of `v` unless `v` holds it.
fn add_string(v: &mut Vec<String>, s: &String)
    ensures
        final(v)@ == added(old(v)@, *s),
{
    if !contains_str(v, s.as_str()) {
        v.push(s.clone());
    }
}

impl Reconciler {
    fn halt(&mut self, error: Error) -> (action: Action)
        requires
            unique_ids(old(self).declared@),
            forall|k: int|
                0 <= k < old(self).stack.len() ==> (#[trigger] old(self).stack[k]).next <= old(
                    self,
                ).stack[k].dependents.len(),
        ensures
            final(self).wf(),
            old(self).halts(error, *final(self), action),
    {
        self.stage = Stage::Failed;
        Action::Fail { error }
    }

    fn give_up(&mut self, error: Error) -> (action: Action)
        requires
            unique_ids(old(self).declared@),
            old(self).root < old(self).roots.len(),
        ensures
            final(self).wf(),
            old(self).gives_up(error, *final(self), action),
    {
        self.stack = Vec::new();
        self.last_error = Some(error);
        self.root = self.root + 1;
        self.stage = Stage::Root;
        Action::Proceed
    }

    fn drop_failed(&mut self, attempt: Attempt, error: Error) -> (action: Action)
        requires
            old(self).wf(),
            old(self).root < old(self).roots.len(),
            old(self).stack.len() > 0,
        ensures
            final(self).wf(),
            old(self).drop_fails(attempt, error, *final(self), action),
    {
        match attempt {
            Attempt::First => {
                self.stage = Stage::Deps;
                Action::Proceed
            },
            _ => self.give_up(error),
        }
    }

    fn drop_succeeded(&mut self, attempt: Attempt) -> (action: Action)
        requires
            old(self).wf(),
            old(self).root < old(self).roots.len(),
            old(self).stack.len() > 0,
        ensures
            final(self).wf(),
            old(self).drop_succeeds(attempt, *final(self), action),
    {
        match attempt {
            Attempt::Blind => {
                self.stage = Stage::Deps;
                Action::Proceed
            },
            _ => {
                let target = self.target.clone();
                add_string(&mut self.dropped, &target);
                self.stack.pop();
                self.stage = Stage::Ascend;
                Action::Proceed
            },
        }
    }

    /// Whether the catalog or the project knows the id.
    fn defined(&self, id: &str) -> (r: bool)
        ensures
            r == (self.definition(id@) is Some),
    {
        find_object(&self.recorded, id).is_some() || find_object(&self.declared, id).is_some()
    }

    /// The ids that hang on the object that stands for `id`.
    fn dependents(&self, id: &str) -> (r: Option<Vec<String>>)
        ensures
            match r {
                Some(d) => self.definition(id@) matches Some(o) && d@ == o.required_by@,
                None => self.definition(id@) is None,
            },
    {
        match find_object(&self.recorded, id) {
            Some(i) => Some(clone_strings(&self.recorded[i].required_by)),
            None => match find_object(&self.declared, id) {
                Some(i) => Some(clone_strings(&self.declared[i].required_by)),
                None => None,
            },
        }
    }

    fn step_prepare(&mut self, event: Event) -> (action: Action)
        requires
            old(self).wf(),
            old(self).stage is Forget || old(self).stage is Forgetting || old(self).stage is Probe
                || old(self).stage is Probing || old(self).stage is Dirty || old(
                self,
            ).stage is DirtyProbing || old(self).stage is DirtyWriting,
        ensures
            final(self).wf(),
            old(self).prepares(event, *final(self), action),
    {
        match self.stage {
            Stage::Forget => {
                if self.cursor < self.stale.len() {
                    self.stage = Stage::Forgetting;
                    Action::DeleteRecord { id: self.stale[self.cursor].clone() }
                } else {
                    self.stage = Stage::Probe;
                    self.cursor = 0;
                    Action::Proceed
                }
            },
            Stage::Forgetting => match event {
                Event::Done => {
                    self.cursor = self.cursor + 1;
                    self.stage = Stage::Forget;
                    Action::Proceed
                },
                _ => self.halt(failure(event)),
            },
            Stage::Probe => {
                if self.cursor < self.unrecorded.len() {
                    self.stage = Stage::Probing;
                    Action::CheckExists { id: self.unrecorded[self.cursor].clone() }
                } else {
                    self.stage = Stage::Dirty;
                    self.cursor = 0;
                    Action::Proceed
                }
            },
            Stage::Probing => match event {
                Event::Exists(true) => {
                    let id = self.unrecorded[self.cursor].clone();
                    match validate_object_id(id.as_str()) {
                        Err(e) => self.halt(e),
                        Ok(()) => match get_object_type(id.as_str()) {
                            Err(e) => self.halt(e),
                            Ok(t) => {
                                if drops_unrecorded(t) {
                                    add_string(&mut self.pending, &id);
                                }
                                self.cursor = self.cursor + 1;
                                self.stage = Stage::Probe;
                                Action::Proceed
                            },
                        },
                    }
                },
                Event::Exists(false) => {
                    self.cursor = self.cursor + 1;
                    self.stage = Stage::Probe;
                    Action::Proceed
                },
                _ => self.halt(failure(event)),
            },
            Stage::Dirty => {
                if self.cursor < self.dirty.len() {
                    self.stage = Stage::DirtyProbing;
                    Action::CheckExists { id: self.dirty[self.cursor].clone() }
                } else {
                    self.stage = Stage::PassBegin;
                    Action::Proceed
                }
            },
            Stage::DirtyProbing => match event {
                Event::Exists(exists) => {
                    let id = self.dirty[self.cursor].clone();
                    let declared = find_object(&self.declared, id.as_str()).is_some();
                    match resolve_dirty_table(exists, declared) {
                        DirtyTableAction::Refuse => self.halt(
                            Error::ManualInterventionRequired { id },
                        ),
                        DirtyTableAction::Forget => {
                            self.stage = Stage::DirtyWriting;
                            Action::DeleteRecord { id }
                        },
                        DirtyTableAction::Overwrite => {
                            self.stage = Stage::DirtyWriting;
                            Action::WriteRecord { id }
                        },
                        DirtyTableAction::Leave => {
                            self.cursor = self.cursor + 1;
                            self.stage = Stage::Dirty;
                            Action::Proceed
                        },
                    }
                },
                _ => self.halt(failure(event)),
            },
            _ => match event {
                Event::Done => {
                    self.cursor = self.cursor + 1;
                    self.stage = Stage::Dirty;
                    Action::Proceed
                },
                _ => self.halt(failure(event)),
            },
        }
    }

    fn step_walk(&mut self) -> (action: Action)
        requires
            old(self).wf(),
            old(self).stage is PassBegin || old(self).stage is Root || old(self).stage is Enter
                || old(self).stage is Deps || old(self).stage is Ascend || old(
                self,
            ).stage is PassEnd,
        ensures
            final(self).wf(),
            forall|event: Event| old(self).walks(event, *final(self), action),
    {
        match self.stage {
            Stage::PassBegin => {
                if self.pending.len() == 0 {
                    self.stage = Stage::Order;
                } else {
                    self.roots = sort_strings(&self.pending);
                    self.root = 0;
                    self.dropped_before = self.dropped.len();
                    self.stage = Stage::Root;
                }
                Action::Proceed
            },
            Stage::Root => {
                if self.root < self.roots.len() {
                    let id = self.roots[self.root].clone();
                    if self.defined(id.as_str()) {
                        self.visited = Vec::new();
                        self.target = id;
                        self.stage = Stage::Enter;
                    } else {
                        self.last_error = Some(Error::MissingRecord { id });
                        self.root = self.root + 1;
                    }
                } else {
                    self.stage = Stage::PassEnd;
                }
                Action::Proceed
            },
            Stage::Enter => {
                let target = self.target.clone();
                if contains_str(&self.dropped, target.as_str()) {
                    self.stage = Stage::Ascend;
                    Action::Proceed
                } else if contains_str(&self.visited, target.as_str()) {
                    self.give_up(Error::CycleDetected { id: target })
                } else {
                    match self.dependents(target.as_str()) {
                        None => self.give_up(Error::MissingRecord { id: target }),
                        Some(dependents) => {
                            let ghost stack = self.stack@;
                            self.visited.push(target.clone());
                            self.stack.push(Frame { id: target, dependents, next: 0 });
                            self.stage = Stage::OpBegin(Attempt::First);
                            proof {
                                assert(self.stack@.drop_last() =~= stack);
                            }
                            Action::Proceed
                        },
                    }
                }
            },
            Stage::Deps => {
                let n = self.stack.len();
                if self.stack[n - 1].next < self.stack[n - 1].dependents.len() {
                    let dep = self.stack[n - 1].dependents[self.stack[n - 1].next].clone();
                    let ghost stack = self.stack@;
                    let mut top = self.stack.pop().unwrap();
                    top.next = top.next + 1;
                    self.stack.push(top);
                    self.stage = if self.defined(dep.as_str()) {
                        Stage::Enter
                    } else {
                        Stage::OpBegin(Attempt::Blind)
                    };
                    self.target = dep;
                    proof {
                        assert forall|k: int| 0 <= k < self.stack.len() implies (
                        #[trigger] self.stack[k]).next <= self.stack[k].dependents.len() by {
                            if k < n - 1 {
                                assert(self.stack[k] == stack[k]);
                            }
                        }
                    }
                } else {
                    self.target = self.stack[n - 1].id.clone();
                    self.stage = Stage::OpBegin(Attempt::Retry);
                }
                Action::Proceed
            },
            Stage::Ascend => {
                if self.stack.len() == 0 {
                    self.root = self.root + 1;
                    self.stage = Stage::Root;
                } else {
                    self.stage = Stage::Deps;
                }
                Action::Proceed
            },
            _ => {
                let left = without(&self.pending, &self.dropped);
                if self.dropped.len() == self.dropped_before {
                    let cause = match self.last_error.take() {
                        Some(e) => Some(Box::new(e)),
                        None => None,
                    };
                    self.pending = clone_strings(&left);
                    self.stage = Stage::Failed;
                    Action::Fail { error: Error::UnresolvableDrop { pending: left, cause } }
                } else {
                    self.pending = left;
                    self.stage = Stage::PassBegin;
                    Action::Proceed
                }
            },
        }
    }

    fn step_drop(&mut self, event: Event) -> (action: Action)
        requires
            old(self).wf(),
            old(self).stage is OpBegin || old(self).stage is OpProbing || old(
                self,
            ).stage is OpExecuting || old(self).stage is OpForgetting,
        ensures
            final(self).wf(),
            old(self).drops(event, *final(self), action),
    {
        match self.stage {
            Stage::OpBegin(attempt) => match get_object_type(self.target.as_str()) {
                Err(e) => self.drop_failed(attempt, e),
                Ok(_) => {
                    self.stage = Stage::OpProbing(attempt);
                    Action::CheckExists { id: self.target.clone() }
                },
            },
            Stage::OpProbing(attempt) => match event {
                Event::Exists(true) => match drop_object(
                    self.target.as_str(),
                    self.owner.as_str(),
                ) {
                    Err(e) => self.drop_failed(attempt, e),
                    Ok(sql) => {
                        self.stage = Stage::OpExecuting(attempt);
                        Action::Execute { sql }
                    },
                },
                Event::Exists(false) => {
                    self.stage = Stage::OpForgetting(attempt);
                    Action::DeleteRecord { id: self.target.clone() }
                },
                Event::Failed { message } => self.drop_failed(
                    attempt,
                    Error::Database { message },
                ),
                _ => self.halt(Error::UnexpectedEvent),
            },
            Stage::OpExecuting(attempt) => match event {
                Event::Done => {
                    self.stage = Stage::OpForgetting(attempt);
                    Action::DeleteRecord { id: self.target.clone() }
                },
                Event::Failed { message } => self.drop_failed(
                    attempt,
                    Error::Database { message },
                ),
                _ => self.halt(Error::UnexpectedEvent),
            },
            Stage::OpForgetting(attempt) => match event {
                Event::Done => self.drop_succeeded(attempt),
                Event::Failed { message } => self.drop_failed(
                    attempt,
                    Error::Database { message },
                ),
                _ => self.halt(Error::UnexpectedEvent),
            },
            _ => self.halt(Error::UnexpectedEvent),
        }
    }

    fn step_create(&mut self, event: Event) -> (action: Action)
        requires
            old(self).wf(),
            old(self).stage is Order || old(self).stage is Create || old(
                self,
            ).stage is CreateProbing || old(self).stage is CreateRunning || old(
                self,
            ).stage is CreateWriting || old(self).stage is Finished || old(self).stage is Failed,
        ensures
            final(self).wf(),
            old(self).creates(event, *final(self), action),
    {
        match self.stage {
            Stage::Order => match calc_create_order(&self.declared) {
                Ok(order) => {
                    self.order = order;
                    self.cursor = 0;
                    self.stage = Stage::Create;
                    Action::Proceed
                },
                Err(e) => self.halt(e),
            },
            Stage::Create => {
                if self.cursor < self.order.len() {
                    self.stage = Stage::CreateProbing;
                    Action::CheckExists { id: self.order[self.cursor].clone() }
                } else {
                    self.stage = Stage::Finished;
                    Action::Finish
                }
            },
            Stage::CreateProbing => match event {
                Event::Exists(true) => {
                    self.stage = Stage::CreateWriting;
                    Action::WriteRecord { id: self.order[self.cursor].clone() }
                },
                Event::Exists(false) => {
                    let id = self.order[self.cursor].clone();
                    match find_object(&self.declared, id.as_str()) {
                        Some(i) => {
                            self.stage = Stage::CreateRunning;
                            Action::Execute { sql: self.declared[i].script.clone() }
                        },
                        None => self.halt(Error::MissingRecord { id }),
                    }
                },
                _ => self.halt(failure(event)),
            },
            Stage::CreateRunning => match event {
                Event::Done => {
                    self.stage = Stage::CreateWriting;
                    Action::WriteRecord { id: self.order[self.cursor].clone() }
                },
                _ => self.halt(failure(event)),
            },
            Stage::CreateWriting => match event {
                Event::Done => {
                    self.cursor = self.cursor + 1;
                    self.stage = Stage::Create;
                    Action::Proceed
                },
                _ => self.halt(failure(event)),
            },
            Stage::Finished => Action::Finish,
            _ => Action::Fail { error: Error::Stopped },
        }
    }

    /// Takes the answer to the last action and says what to do next. The
    /// first call, and every call after `Proceed`, takes `Resume`.
    pub fn step(&mut self, event: Event) -> (action: Action)
        requires
            old(self).wf(),
        ensures
            final(self).wf(),
            old(self).steps(event, *final(self), action),
    {
        match self.stage {
            Stage::Forget
            | Stage::Forgetting
            | Stage::Probe
            | Stage::Probing
            | Stage::Dirty
            | Stage::DirtyProbing
            | Stage::DirtyWriting => self.step_prepare(event),
            Stage::PassBegin
            | Stage::Root
            | Stage::Enter
            | Stage::Deps
            | Stage::Ascend
            | Stage::PassEnd => self.step_walk(),
            Stage::OpBegin(_)
            | Stage::OpProbing(_)
            | Stage::OpExecuting(_)
            | Stage::OpForgetting(_) => self.step_drop(event),
            _ => self.step_create(event),
        }
    }
}

impl Reconciler {
    /// Whether nothing is left to forget, to look for, to settle or to drop,
    /// and the machine stands where no drop and no script is under way.
    pub open spec fn quiet(self) -> bool {
        &&& self.stale.len() == 0
        &&& self.unrecorded.len() == 0
        &&& self.dirty.len() == 0
        &&& self.pending.len() == 0
        &&& (self.stage is Forget || self.stage is Probe || self.stage is Dirty
            || self.stage is PassBegin || self.stage is Order || self.stage is Create
            || self.stage is CreateProbing || self.stage is CreateWriting
            || self.stage is Finished || self.stage is Failed)
    }
}

/// A machine that starts from a catalog and a project that agree is quiet.
pub proof fn lemma_converged_starts_quiet(
    m: Reconciler,
    recorded: Seq<DatabaseObject>,
    declared: Seq<DatabaseObject>,
)
    requires
        crate::classify::converged(recorded, declared),
        m.stage == Stage::Forget,
        (Classification {
            drop_set: m.pending,
            dirty_tables: m.dirty,
            stale: m.stale,
            unrecorded: m.unrecorded,
        }).of(recorded, declared),
    ensures
        m.quiet(),
{
    crate::classify::lemma_converged_classification(
        Classification {
            drop_set: m.pending,
            dirty_tables: m.dirty,
            stale: m.stale,
            unrecorded: m.unrecorded,
        },
        recorded,
        declared,
    );
}

/// A second run changes nothing: as long as the database reports every
/// object as present and refuses nothing, a quiet machine stays quiet, and it
/// never asks to run a statement or to delete a record.
pub proof fn lemma_quiet_step(pre: Reconciler, event: Event, post: Reconciler, action: Action)
    requires
        pre.quiet(),
        pre.steps(event, post, action),
        !(event is Failed),
        event != Event::Exists(false),
    ensures
        post.quiet(),
        !(action is Execute),
        !(action is DeleteRecord),
{
}

/// Whether the states, answers and actions are those of successive steps:
/// step `i` leads from `states[i]` to `states[i + 1]`.
pub open spec fn run(states: Seq<Reconciler>, events: Seq<Event>, actions: Seq<Action>) -> bool {
    &&& states.len() == events.len() + 1
    &&& actions.len() == events.len()
    &&& forall|i: int|
        0 <= i < events.len() ==> (#[trigger] states[i]).steps(
            events[i],
            states[i + 1],
            actions[i],
        )
}

/// Idempotence: a run that starts quiet, against a database that reports
/// every object as present and refuses nothing, never asks to run a
/// statement or to delete a record.
pub proof fn lemma_quiet_run(
    states: Seq<Reconciler>,
    events: Seq<Event>,
    actions: Seq<Action>,
    i: int,
)
    requires
        run(states, events, actions),
        states[0].quiet(),
        forall|k: int|
            0 <= k < events.len() ==> !((#[trigger] events[k]) is Failed) && events[k]
                != Event::Exists(false),
        0 <= i < events.len(),
    ensures
        states[i].quiet(),
        states[i + 1].quiet(),
        !(actions[i] is Execute),
        !(actions[i] is DeleteRecord),
    decreases i,
{
    if i > 0 {
        lemma_quiet_run(states, events, actions, i - 1);
    }
    assert(states[i].steps(events[i], states[i + 1], actions[i]));
    lemma_quiet_step(states[i], events[i], states[i + 1], actions[i]);
}

/// The rule for dirty tables: a table that exists and left the project
/// stops the run; one that is gone and left the project only loses its
/// record; one that exists and is declared only gets its record overwritten;
/// and in no case is a statement run.
pub proof fn lemma_dirty_table_policy(
    pre: Reconciler,
    exists: bool,
    post: Reconciler,
    action: Action,
)
    requires
        pre.stage == Stage::DirtyProbing,
        pre.steps(Event::Exists(exists), post, action),
    ensures
        ({
            let id = pre.dirty[pre.cursor as int];
            let declared = declares(pre.declared@, id@);
            &&& exists && !declared ==> action == (Action::Fail {
                error: Error::ManualInterventionRequired { id },
            }) && post.stage == Stage::Failed
            &&& !exists && !declared ==> action == (Action::DeleteRecord { id })
            &&& exists && declared ==> action == (Action::WriteRecord { id })
            &&& !exists && declared ==> action == Action::Proceed
            &&& !(action is Execute)
        }),
{
}

} // verus!
