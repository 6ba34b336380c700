//! The names that the task data model reserves, the events that hooks are
//! told of, and the reading of a status.

use crate::backend::champion::{anyhow_text, error_of, status_text};
use crate::backend::model::{lemma_status_names, status_is_plain};
use crate::text::{concat3, lowercased, same_text, starts_with, to_lowercase};
use vstd::string::StringExecFns;
use vstd::prelude::*;

verus! {

/// The properties of a task that a directive reaches by name only through
/// the store's own setters.
#[derive(Clone, Debug)]
pub enum TaskProperties {
    DESCRIPTION,
    DUE,
    MODIFIED,
    START,
    STATUS,
    PRIORITY,
    WAIT,
    END,
    ENTRY,
    PROJECT,
}

/// The events on which hook scripts run.
#[derive(Clone, Debug)]
pub enum TaskEvent {
    OnAdd,
    OnModify,
}

/// The reserved property of the given name, if the name is one.
pub open spec fn reserved_property(name: Seq<char>) -> Option<TaskProperties> {
    if name == "description"@ {
        Some(TaskProperties::DESCRIPTION)
    } else if name == "due"@ {
        Some(TaskProperties::DUE)
    } else if name == "modified"@ {
        Some(TaskProperties::MODIFIED)
    } else if name == "start"@ {
        Some(TaskProperties::START)
    } else if name == "status"@ {
        Some(TaskProperties::STATUS)
    } else if name == "priority"@ {
        Some(TaskProperties::PRIORITY)
    } else if name == "wait"@ {
        Some(TaskProperties::WAIT)
    } else if name == "end"@ {
        Some(TaskProperties::END)
    } else if name == "entry"@ {
        Some(TaskProperties::ENTRY)
    } else if name == "project"@ {
        Some(TaskProperties::PROJECT)
    } else {
        None
    }
}

impl TaskProperties {
    /// The name of the property.
    pub open spec fn name(self) -> Seq<char> {
        match self {
            TaskProperties::DESCRIPTION => "description"@,
            TaskProperties::DUE => "due"@,
            TaskProperties::MODIFIED => "modified"@,
            TaskProperties::START => "start"@,
            TaskProperties::STATUS => "status"@,
            TaskProperties::PRIORITY => "priority"@,
            TaskProperties::WAIT => "wait"@,
            TaskProperties::END => "end"@,
            TaskProperties::ENTRY => "entry"@,
            TaskProperties::PROJECT => "project"@,
        }
    }

    /// The name of the property, as a string slice.
    pub fn as_str(&self) -> (r: &'static str)
        ensures
            r@ == self.name(),
    {
        match self {
            TaskProperties::DESCRIPTION => "description",
            TaskProperties::DUE => "due",
            TaskProperties::MODIFIED => "modified",
            TaskProperties::START => "start",
            TaskProperties::STATUS => "status",
            TaskProperties::PRIORITY => "priority",
            TaskProperties::WAIT => "wait",
            TaskProperties::END => "end",
            TaskProperties::ENTRY => "entry",
            TaskProperties::PROJECT => "project",
        }
    }

    /// The name of the property.
    pub fn to_string(&self) -> (r: String)
        ensures
            r@ == self.name(),
    {
        self.as_str().to_owned()
    }

    /// The reserved property that a name stands for, whatever its case; for
    /// any other name, the complaint.
    pub fn try_from(value: &str) -> (r: Result<TaskProperties, anyhow::Error>)
        ensures
            match r {
                Ok(p) => reserved_property(lowercased(value@)) == Some(p),
                Err(e) => reserved_property(lowercased(value@)) is None && anyhow_text(e)
                    == "Property "@ + value@ + " is not a reserved property."@,
            },
    {
        let chk_value = to_lowercase(value);
        let name = chk_value.as_str();
        if same_text(name, "description") {
            Ok(TaskProperties::DESCRIPTION)
        } else if same_text(name, "due") {
            Ok(TaskProperties::DUE)
        } else if same_text(name, "modified") {
            Ok(TaskProperties::MODIFIED)
        } else if same_text(name, "start") {
            Ok(TaskProperties::START)
        } else if same_text(name, "status") {
            Ok(TaskProperties::STATUS)
        } else if same_text(name, "priority") {
            Ok(TaskProperties::PRIORITY)
        } else if same_text(name, "wait") {
            Ok(TaskProperties::WAIT)
        } else if same_text(name, "end") {
            Ok(TaskProperties::END)
        } else if same_text(name, "entry") {
            Ok(TaskProperties::ENTRY)
        } else if same_text(name, "project") {
            Ok(TaskProperties::PROJECT)
        } else {
            Err(error_of(concat3("Property ", value, " is not a reserved property.")))
        }
    }
}

impl TaskEvent {
    /// The name of the event.
    pub open spec fn name(self) -> Seq<char> {
        match self {
            TaskEvent::OnAdd => "on-add"@,
            TaskEvent::OnModify => "on-modify"@,
        }
    }

    /// The name of the event: the prefix of the hook scripts that it runs.
    pub fn to_string(&self) -> (r: String)
        ensures
            r@ == self.name(),
    {
        match self {
            TaskEvent::OnAdd => "on-add".to_owned(),
            TaskEvent::OnModify => "on-modify".to_owned(),
        }
    }
}

/// What a hook script reads: for a changed task the task as it was, then in
/// any case the task as it is, each on a line of its own.
pub open spec fn hook_lines(
    event: TaskEvent,
    old_task: Seq<char>,
    new_task: Seq<char>,
    line_ending: Seq<char>,
) -> Seq<char> {
    match event {
        TaskEvent::OnAdd => new_task + line_ending,
        TaskEvent::OnModify => old_task + line_ending + new_task + line_ending,
    }
}

/// The input of the hook scripts of an event.
pub fn hook_input(event: &TaskEvent, old_task: &str, new_task: &str, line_ending: &str) -> (r:
    String)
    ensures
        r@ == hook_lines(*event, old_task@, new_task@, line_ending@),
{
    let mut args = String::new();
    match event {
        TaskEvent::OnAdd => {},
        TaskEvent::OnModify => {
            args.append(old_task);
            args.append(line_ending);
        },
    }
    args.append(new_task);
    args.append(line_ending);
    assert(args@ =~= hook_lines(*event, old_task@, new_task@, line_ending@));
    args
}

/// Whether a directory entry is a hook script of an event: a file that may
/// be executed and whose name begins with the name of the event.
pub fn is_hook_script(file_name: &str, event: &TaskEvent, is_file: bool, mode: u32) -> (r: bool)
    ensures
        r == (is_file && event.name().is_prefix_of(file_name@) && mode & 0o111 != 0),
{
    let is_executable = mode & 0o111 != 0;
    is_file && starts_with(file_name, event.to_string().as_str()) && is_executable
}

/// The status that a text names. A text that names none of the four known
/// statuses is kept as an unknown status and never refused.
pub fn convert_task_status(task_status: &str) -> (r: taskchampion::Status)
    ensures
        status_text(r) == task_status@,
        status_is_plain(r),
        r is Pending <==> task_status@ == "pending"@,
        r is Completed <==> task_status@ == "completed"@,
        r is Deleted <==> task_status@ == "deleted"@,
        r is Recurring <==> task_status@ == "recurring"@,
{
    proof {
        lemma_status_names();
    }
    if same_text(task_status, "pending") {
        taskchampion::Status::Pending
    } else if same_text(task_status, "completed") {
        taskchampion::Status::Completed
    } else if same_text(task_status, "deleted") {
        taskchampion::Status::Deleted
    } else if same_text(task_status, "recurring") {
        taskchampion::Status::Recurring
    } else {
        taskchampion::Status::Unknown(task_status.to_owned())
    }
}

} // verus!
