//! Task mutation directives: a line of `key:value` words is read, checked and
//! staged against a task as one batch of changes.
//!
//! The engine is in `endpoints::tasks`: the words of a line are classified,
//! each kind of directive has its handler, all errors are gathered, and a
//! batch is handed out only for a line without error. The caller commits the
//! batch to the store and then tells the hook scripts. `backend` holds the
//! calls into the store with the contracts that the proofs rest on, and the
//! model of a task over which the engine is stated.

pub mod backend;
pub mod common;
pub mod elapsed;
pub mod endpoints;
pub mod text;

use crate::text::{text_of, value_or_empty};
use vstd::prelude::*;

verus! {

/// What a page may ask of the task list.
pub enum Requests {
    Filtering { project: Option<String>, tags: Option<Vec<String>> },
}

/// The kind of a message that is flashed to the user.
#[derive(Debug, Clone)]
pub enum FlashMsgRoles {
    Success,
    Error,
    Warning,
    Info,
}

/// A message that is flashed to the user for some seconds.
#[derive(Debug, Clone)]
pub struct FlashMsg {
    msg: String,
    timeout: Option<u64>,
    role: FlashMsgRoles,
}

/// What a `FlashMsg` holds.
pub struct FlashMsgView {
    pub msg: Seq<char>,
    pub timeout: Option<u64>,
    pub role: FlashMsgRoles,
}

impl View for FlashMsg {
    type V = FlashMsgView;

    closed spec fn view(&self) -> FlashMsgView {
        FlashMsgView { msg: self.msg@, timeout: self.timeout, role: self.role }
    }
}

/// The seconds for which a message without a timeout of its own is shown.
pub const DEFAULT_TIMEOUT: u64 = 15;

impl FlashMsg {
    pub fn msg(&self) -> (r: &str)
        ensures
            r@ == self@.msg,
    {
        self.msg.as_str()
    }

    pub fn role(&self) -> (r: &FlashMsgRoles)
        ensures
            *r == self@.role,
    {
        &self.role
    }

    /// The seconds for which the message is shown.
    pub fn timeout(&self) -> (r: u64)
        ensures
            r == match self@.timeout {
                Some(seconds) => seconds,
                None => DEFAULT_TIMEOUT,
            },
    {
        match self.timeout {
            Some(seconds) => seconds,
            None => DEFAULT_TIMEOUT,
        }
    }

    pub fn new(msg: &str, timeout: Option<u64>, role: FlashMsgRoles) -> (r: FlashMsg)
        ensures
            r@ == (FlashMsgView { msg: msg@, timeout, role }),
    {
        FlashMsg { msg: msg.to_owned(), timeout, role }
    }
}

/// What a form of the task list may ask to be done.
#[derive(Debug, Clone)]
pub enum TaskActions {
    StatusUpdate,
    ToggleTimer,
    ModifyTask,
    AnnotateTask,
    DenotateTask,
}

/// The parameters that every request of the task list carries.
#[derive(Debug)]
pub struct TWGlobalState {
    pub filter: Option<String>,
    pub query: Option<String>,
    pub report: Option<String>,
    pub status: Option<String>,
    pub uuid: Option<taskchampion::Uuid>,
    pub filter_value: Option<String>,
    pub task_entry: Option<String>,
    pub action: Option<TaskActions>,
    pub custom_query: Option<String>,
}

impl TWGlobalState {
    pub fn filter(&self) -> (r: &Option<String>)
        ensures
            *r == self.filter,
    {
        &self.filter
    }

    pub fn query(&self) -> (r: &Option<String>)
        ensures
            *r == self.query,
    {
        &self.query
    }

    pub fn report(&self) -> (r: &Option<String>)
        ensures
            *r == self.report,
    {
        &self.report
    }

    pub fn status(&self) -> (r: &Option<String>)
        ensures
            *r == self.status,
    {
        &self.status
    }

    pub fn uuid(&self) -> (r: &Option<taskchampion::Uuid>)
        ensures
            *r == self.uuid,
    {
        &self.uuid
    }

    pub fn filter_value(&self) -> (r: &Option<String>)
        ensures
            *r == self.filter_value,
    {
        &self.filter_value
    }

    pub fn task_entry(&self) -> (r: &Option<String>)
        ensures
            *r == self.task_entry,
    {
        &self.task_entry
    }

    pub fn action(&self) -> (r: &Option<TaskActions>)
        ensures
            *r == self.action,
    {
        &self.action
    }
}

impl Default for TWGlobalState {
    /// The parameters of a request that asks for nothing: the `next` report.
    fn default() -> (r: TWGlobalState)
        ensures
            r.filter is None,
            r.query is None,
            text_of(r.report) == Some("next"@),
            r.status is None,
            r.uuid is None,
            r.filter_value is None,
            r.task_entry is None,
            r.action is None,
            r.custom_query is None,
    {
        TWGlobalState {
            filter: None,
            query: None,
            report: Some("next".to_owned()),
            status: None,
            uuid: None,
            filter_value: None,
            task_entry: None,
            action: None,
            custom_query: None,
        }
    }
}

/// A task and the status that it is to get.
pub struct TaskUpdateStatus {
    pub status: String,
    pub uuid: taskchampion::Uuid,
}

/// The status update that a request asks for: it needs both a task and a
/// status.
pub fn from_task_to_task_update(params: &TWGlobalState) -> (r: Option<TaskUpdateStatus>)
    ensures
        match r {
            Some(update) => params.uuid == Some(update.uuid) && text_of(params.status) == Some(
                update.status@,
            ),
            None => params.uuid is None || params.status is None,
        },
{
    match (&params.uuid, &params.status) {
        (Some(uuid), Some(status)) => Some(
            TaskUpdateStatus { status: status.clone(), uuid: *uuid },
        ),
        _ => None,
    }
}

/// What the form for a new task holds.
#[derive(Debug)]
pub struct NewTask {
    description: String,
    tags: Option<String>,
    project: Option<String>,
    filter_value: Option<String>,
    additional: Option<String>,
}

/// What a `NewTask` holds.
pub struct NewTaskView {
    pub description: Seq<char>,
    pub tags: Option<Seq<char>>,
    pub project: Option<Seq<char>>,
    pub filter_value: Option<Seq<char>>,
    pub additional: Option<Seq<char>>,
}

impl View for NewTask {
    type V = NewTaskView;

    closed spec fn view(&self) -> NewTaskView {
        NewTaskView {
            description: self.description@,
            tags: text_of(self.tags),
            project: text_of(self.project),
            filter_value: text_of(self.filter_value),
            additional: text_of(self.additional),
        }
    }
}

impl Default for NewTask {
    fn default() -> (r: NewTask)
        ensures
            r@ == (NewTaskView {
                description: Seq::empty(),
                tags: None,
                project: None,
                filter_value: None,
                additional: None,
            }),
    {
        NewTask {
            description: String::new(),
            tags: None,
            project: None,
            filter_value: None,
            additional: None,
        }
    }
}

impl NewTask {
    /// A form with the given entries. A missing description is empty.
    pub fn new(
        description: Option<String>,
        tags: Option<String>,
        project: Option<String>,
        filter_value: Option<String>,
        additional: Option<String>,
    ) -> (r: NewTask)
        ensures
            r@ == (NewTaskView {
                description: value_or_empty(text_of(description)),
                tags: text_of(tags),
                project: text_of(project),
                filter_value: text_of(filter_value),
                additional: text_of(additional),
            }),
    {
        let description = match description {
            Some(d) => d,
            None => String::new(),
        };
        NewTask { description, tags, project, filter_value, additional }
    }

    pub fn description(&self) -> (r: &str)
        ensures
            r@ == self@.description,
    {
        self.description.as_str()
    }

    pub fn tags(&self) -> (r: &Option<String>)
        ensures
            text_of(*r) == self@.tags,
    {
        &self.tags
    }

    pub fn project(&self) -> (r: &Option<String>)
        ensures
            text_of(*r) == self@.project,
    {
        &self.project
    }

    pub fn filter_value(&self) -> (r: &Option<String>)
        ensures
            text_of(*r) == self@.filter_value,
    {
        &self.filter_value
    }

    pub fn additional(&self) -> (r: &Option<String>)
        ensures
            text_of(*r) == self@.additional,
    {
        &self.additional
    }
}

} // verus!
