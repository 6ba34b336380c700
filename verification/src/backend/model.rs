//! The task as the directive engine sees it.
//!
//! Three properties of a stored task are written by the clock: `modified`,
//! `end` and `start`. The model keeps every other property with its value,
//! and of `end` and `start` only whether they are there.

use crate::backend::champion::{
    property_set, same_at, status_changes, status_set, status_text, task_props, Change,
};
use vstd::prelude::*;

verus! {

/// A task without the values that the clock wrote.
pub struct TaskView {
    /// Every property but `modified`, `end` and `start`.
    pub attrs: Map<Seq<char>, Seq<char>>,
    /// Whether the task has an `end`: it was completed or deleted.
    pub ended: bool,
    /// Whether the task has a `start`: it is running.
    pub active: bool,
}

/// The model of a stored task.
pub open spec fn task_view(t: taskchampion::Task) -> TaskView {
    TaskView {
        attrs: task_props(t).remove("modified"@).remove("end"@).remove("start"@),
        ended: task_props(t).contains_key("end"@),
        active: task_props(t).contains_key("start"@),
    }
}

impl TaskView {
    /// The task after a property was set, or taken away for `None`.
    pub open spec fn set(self, key: Seq<char>, value: Option<Seq<char>>) -> TaskView {
        if key == "modified"@ {
            self
        } else if key == "end"@ {
            TaskView { ended: value is Some, ..self }
        } else if key == "start"@ {
            TaskView { active: value is Some, ..self }
        } else {
            TaskView {
                attrs: match value {
                    Some(v) => self.attrs.insert(key, v),
                    None => self.attrs.remove(key),
                },
                ..self
            }
        }
    }

    /// The task after its status was set: an open task has no end, a closed
    /// one has.
    pub open spec fn with_status(self, status: taskchampion::Status) -> TaskView {
        TaskView {
            attrs: self.attrs.insert("status"@, status_text(status)),
            ended: match status {
                taskchampion::Status::Pending | taskchampion::Status::Recurring => false,
                taskchampion::Status::Completed | taskchampion::Status::Deleted => true,
                taskchampion::Status::Unknown(_) => self.ended,
            },
            active: self.active,
        }
    }

    /// The task after its status was set to the one that a text names.
    pub open spec fn with_status_text(self, text: Seq<char>) -> TaskView {
        TaskView {
            attrs: self.attrs.insert("status"@, text),
            ended: if text == "pending"@ || text == "recurring"@ {
                false
            } else if text == "completed"@ || text == "deleted"@ {
                true
            } else {
                self.ended
            },
            active: self.active,
        }
    }

    /// The task once it runs.
    pub open spec fn started(self) -> TaskView {
        TaskView { active: true, ..self }
    }

    /// The task once it rests.
    pub open spec fn stopped(self) -> TaskView {
        TaskView { active: false, ..self }
    }
}

/// Whether a status is written the way the store reads it back: the four
/// known statuses by their names, any other text as an unknown status.
pub open spec fn status_is_plain(status: taskchampion::Status) -> bool {
    status matches taskchampion::Status::Unknown(v) ==> {
        &&& v@ != "pending"@
        &&& v@ != "completed"@
        &&& v@ != "deleted"@
        &&& v@ != "recurring"@
    }
}

/// The names of the four known statuses differ.
pub proof fn lemma_status_names()
    ensures
        "pending"@ != "completed"@,
        "pending"@ != "deleted"@,
        "pending"@ != "recurring"@,
        "completed"@ != "deleted"@,
        "completed"@ != "recurring"@,
        "deleted"@ != "recurring"@,
{
    reveal_strlit("pending");
    reveal_strlit("completed");
    reveal_strlit("deleted");
    reveal_strlit("recurring");
    assert("pending"@.len() == 7);
    assert("completed"@.len() == 9);
    assert("deleted"@.len() == 7);
    assert("recurring"@.len() == 9);
    assert("pending"@[0] == 'p');
    assert("deleted"@[0] == 'd');
    assert("completed"@[0] == 'c');
    assert("recurring"@[0] == 'r');
}

/// The changes of setting the status that a text names.
pub open spec fn status_changes_text(ended: bool, text: Seq<char>) -> Seq<Change> {
    (if text == "pending"@ || text == "recurring"@ {
        if ended {
            seq![("end"@, None::<Seq<char>>)]
        } else {
            Seq::<Change>::empty()
        }
    } else if text == "completed"@ || text == "deleted"@ {
        if !ended {
            seq![("end"@, Some(Seq::<char>::empty()))]
        } else {
            Seq::<Change>::empty()
        }
    } else {
        Seq::<Change>::empty()
    }) + seq![("status"@, Some(text))]
}

/// Setting a plain status is setting the status that its text names, in
/// the task and in the batch.
pub proof fn lemma_status_text(v: TaskView, status: taskchampion::Status)
    requires
        status_is_plain(status),
    ensures
        v.with_status(status) == v.with_status_text(status_text(status)),
        status_changes(v.ended, status) == status_changes_text(v.ended, status_text(status)),
{
    lemma_status_names();
}

/// The names of the clock's properties and of `status` differ.
pub proof fn lemma_clock_names()
    ensures
        "modified"@ != "end"@,
        "modified"@ != "start"@,
        "modified"@ != "status"@,
        "end"@ != "start"@,
        "end"@ != "status"@,
        "start"@ != "status"@,
{
    reveal_strlit("modified");
    reveal_strlit("end");
    reveal_strlit("start");
    reveal_strlit("status");
    assert("modified"@.len() == 8);
    assert("end"@.len() == 3);
    assert("start"@.len() == 5);
    assert("status"@.len() == 6);
}

/// A property set in the store is a property set in the model.
pub proof fn lemma_property_set(
    before: taskchampion::Task,
    after: taskchampion::Task,
    key: Seq<char>,
    value: Option<Seq<char>>,
)
    requires
        property_set(before, after, key, value),
    ensures
        task_view(after) == task_view(before).set(key, value),
{
    lemma_clock_names();
    let b = task_props(before);
    let a = task_props(after);
    if key != "end"@ {
        assert(same_at(b, a, "end"@));
    }
    if key != "start"@ {
        assert(same_at(b, a, "start"@));
    }
    let goal = task_view(before).set(key, value);
    assert forall|k: Seq<char>| #[trigger]
        task_view(after).attrs.dom().contains(k) == goal.attrs.dom().contains(k) && (
        goal.attrs.dom().contains(k) ==> task_view(after).attrs[k] == goal.attrs[k]) by {
        if k != key && k != "modified"@ {
            assert(same_at(b, a, k));
        }
    }
    assert(task_view(after).attrs =~= goal.attrs);
}

/// A status set in the store is a status set in the model.
pub proof fn lemma_status_set(
    before: taskchampion::Task,
    after: taskchampion::Task,
    status: taskchampion::Status,
)
    requires
        status_set(before, after, status),
    ensures
        task_view(after) == task_view(before).with_status(status),
{
    lemma_clock_names();
    let b = task_props(before);
    let a = task_props(after);
    assert(same_at(b, a, "start"@));
    let goal = task_view(before).with_status(status);
    assert forall|k: Seq<char>| #[trigger]
        task_view(after).attrs.dom().contains(k) == goal.attrs.dom().contains(k) && (
        goal.attrs.dom().contains(k) ==> task_view(after).attrs[k] == goal.attrs[k]) by {
        if k != "status"@ && k != "end"@ && k != "modified"@ {
            assert(same_at(b, a, k));
        }
    }
    assert(task_view(after).attrs =~= goal.attrs);
}

/// A task started in the store is a task started in the model.
pub proof fn lemma_started(before: taskchampion::Task, after: taskchampion::Task)
    requires
        task_props(after).contains_key("start"@),
        forall|k: Seq<char>|
            k != "start"@ && k != "modified"@ ==> same_at(task_props(before), task_props(after), k),
    ensures
        task_view(after) == task_view(before).started(),
{
    lemma_clock_names();
    let b = task_props(before);
    let a = task_props(after);
    assert(same_at(b, a, "end"@));
    let goal = task_view(before).started();
    assert forall|k: Seq<char>| #[trigger]
        task_view(after).attrs.dom().contains(k) == goal.attrs.dom().contains(k) && (
        goal.attrs.dom().contains(k) ==> task_view(after).attrs[k] == goal.attrs[k]) by {
        if k != "start"@ && k != "modified"@ {
            assert(same_at(b, a, k));
        }
    }
    assert(task_view(after).attrs =~= goal.attrs);
}

} // verus!
