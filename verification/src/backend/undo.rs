//! The operations that an undo would revert, as the undo report shows them.

use crate::text::{starts_with, without_first};
use vstd::prelude::*;

verus! {

/// One operation of the store. `T` is the time of an update, `M` the
/// properties of a deleted task; both are only handed on.
pub enum Change<T, M> {
    Create { uuid: u128 },
    Delete { uuid: u128, old_task: M },
    Update {
        uuid: u128,
        property: String,
        old_value: Option<String>,
        value: Option<String>,
        timestamp: T,
    },
    UndoPoint,
}

/// One line of the undo report.
pub struct TaskOperation<T, M> {
    pub operation: String,
    pub uuid: u128,
    pub property: Option<String>,
    pub old_value: Option<String>,
    pub value: Option<String>,
    pub timestamp: Option<T>,
    pub old_task: Option<M>,
    pub is_tag_change: bool,
}

/// Whether a property holds a tag.
pub open spec fn is_tag_property(property: Seq<char>) -> bool {
    "tag_"@.is_prefix_of(property)
}

/// The name under which a property is shown: a tag by its name, any other
/// property as it is.
pub open spec fn shown_property(property: Seq<char>) -> Seq<char> {
    if is_tag_property(property) {
        property.subrange(4, property.len() as int)
    } else {
        property
    }
}

/// Whether a line of the report shows the given operation.
pub open spec fn shows<T, M>(line: TaskOperation<T, M>, change: Change<T, M>) -> bool {
    match change {
        Change::Create { uuid } => {
            &&& line.operation@ == "Create"@
            &&& line.uuid == uuid
            &&& line.property is None
            &&& line.old_value is None
            &&& line.value is None
            &&& line.timestamp is None
            &&& line.old_task is None
            &&& !line.is_tag_change
        },
        Change::Delete { uuid, old_task } => {
            &&& line.operation@ == "Delete"@
            &&& line.uuid == uuid
            &&& line.property is None
            &&& line.old_value is None
            &&& line.value is None
            &&& line.timestamp is None
            &&& line.old_task == Some(old_task)
            &&& !line.is_tag_change
        },
        Change::Update { uuid, property, old_value, value, timestamp } => {
            &&& line.operation@ == "Modified"@
            &&& line.uuid == uuid
            &&& line.property matches Some(shown) && shown@ == shown_property(property@)
            &&& line.old_value == old_value
            &&& line.value == value
            &&& line.timestamp == Some(timestamp)
            &&& line.old_task is None
            &&& line.is_tag_change == is_tag_property(property@)
        },
        Change::UndoPoint => false,
    }
}

/// The line of the undo report for an operation. An undo marker has none.
pub fn task_operation<T, M>(change: Change<T, M>) -> (r: Option<TaskOperation<T, M>>)
    ensures
        match r {
            Some(line) => shows(line, change),
            None => change is UndoPoint,
        },
{
    match change {
        Change::Create { uuid } => Some(
            TaskOperation {
                operation: "Create".to_owned(),
                uuid,
                property: None,
                old_value: None,
                value: None,
                timestamp: None,
                old_task: None,
                is_tag_change: false,
            },
        ),
        Change::Delete { uuid, old_task } => Some(
            TaskOperation {
                operation: "Delete".to_owned(),
                uuid,
                property: None,
                old_value: None,
                value: None,
                timestamp: None,
                old_task: Some(old_task),
                is_tag_change: false,
            },
        ),
        Change::Update { uuid, property, old_value, value, timestamp } => {
            let is_tag_change = starts_with(property.as_str(), "tag_");
            let shown = if is_tag_change {
                proof {
                    reveal_strlit("tag_");
                }
                let name = without_first(
                    without_first(without_first(without_first(property.as_str()))),
                );
                assert(name@ =~= property@.subrange(4, property@.len() as int));
                name.to_owned()
            } else {
                property
            };
            Some(
                TaskOperation {
                    operation: "Modified".to_owned(),
                    uuid,
                    property: Some(shown),
                    old_value,
                    value,
                    timestamp: Some(timestamp),
                    old_task: None,
                    is_tag_change,
                },
            )
        },
        Change::UndoPoint => None,
    }
}

/// The lines of one task.
pub struct TaskLines<T, M> {
    pub uuid: u128,
    pub lines: Vec<TaskOperation<T, M>>,
}

/// The lines of the given task among a run of lines, in their order.
pub open spec fn lines_of<T, M>(lines: Seq<TaskOperation<T, M>>, uuid: u128) -> Seq<
    TaskOperation<T, M>,
>
    decreases lines.len(),
{
    if lines.len() == 0 {
        Seq::empty()
    } else if lines.last().uuid == uuid {
        lines_of(lines.drop_last(), uuid).push(lines.last())
    } else {
        lines_of(lines.drop_last(), uuid)
    }
}

/// Whether the groups hold the lines by task: every group has the lines of
/// its task, no task has two groups, and no group is empty.
pub open spec fn grouped<T, M>(
    groups: Seq<TaskLines<T, M>>,
    lines: Seq<TaskOperation<T, M>>,
) -> bool {
    &&& forall|g: int|
        0 <= g < groups.len() ==> (#[trigger] groups[g]).lines@ == lines_of(lines, groups[g].uuid)
            && groups[g].lines@.len() > 0
    &&& forall|g: int, h: int|
        0 <= g < h < groups.len() ==> (#[trigger] groups[g]).uuid != (#[trigger] groups[h]).uuid
    &&& forall|i: int|
        0 <= i < lines.len() ==> exists|g: int|
            0 <= g < groups.len() && (#[trigger] groups[g]).uuid == (#[trigger] lines[i]).uuid
}

/// Groups the lines of the undo report by task. The tasks come in the order
/// in which their first line came.
pub fn group_by_task<T, M>(lines: Vec<TaskOperation<T, M>>) -> (r: Vec<TaskLines<T, M>>)
    ensures
        grouped(r@, lines@),
{
    let ghost all = lines@;
    let mut lines = lines;
    let mut groups: Vec<TaskLines<T, M>> = Vec::new();
    let mut rest: Vec<TaskOperation<T, M>> = Vec::new();
    // The lines are taken from the end, so they are turned round first.
    while lines.len() > 0
        invariant
            lines@.len() + rest@.len() == all.len(),
            lines@ == all.take(lines@.len() as int),
            forall|j: int| 0 <= j < rest@.len() ==> rest@[j] == all[all.len() - 1 - j],
        decreases lines@.len(),
    {
        let line = lines.pop().unwrap();
        rest.push(line);
        assert(lines@ =~= all.take(lines@.len() as int));
    }
    assert(all.take(0) =~= Seq::<TaskOperation<T, M>>::empty());
    let ghost mut taken: int = 0;
    while rest.len() > 0
        invariant
            0 <= taken <= all.len(),
            rest@.len() == all.len() - taken,
            forall|j: int| 0 <= j < rest@.len() ==> rest@[j] == all[all.len() - 1 - j],
            grouped(groups@, all.take(taken)),
        decreases rest@.len(),
    {
        let ghost seen = all.take(taken);
        let ghost old_groups = groups@;
        let line = rest.pop().unwrap();
        assert(line == all[taken]);
        proof {
            let next = all.take(taken + 1);
            assert(next.drop_last() =~= seen);
            assert(next.last() == line);
        }
        let mut found: Option<usize> = None;
        let mut g: usize = 0;
        while g < groups.len()
            invariant
                g <= groups@.len(),
                groups@ == old_groups,
                match found {
                    Some(at) => at < groups@.len() && groups@[at as int].uuid == line.uuid,
                    None => forall|h: int| 0 <= h < g ==> (#[trigger] groups@[h]).uuid != line.uuid,
                },
            decreases groups@.len() - g,
        {
            if found.is_none() && groups[g].uuid == line.uuid {
                found = Some(g);
            }
            g = g + 1;
        }
        match found {
            Some(at) => {
                groups[at].lines.push(line);
                proof {
                    let next = all.take(taken + 1);
                    assert forall|h: int| 0 <= h < groups@.len() implies (
                    #[trigger] groups@[h]).lines@ == lines_of(next, groups@[h].uuid)
                        && groups@[h].lines@.len() > 0 by {
                        if h != at {
                            assert(groups@[h] == old_groups[h]);
                            assert(old_groups[h].uuid != old_groups[at as int].uuid);
                        } else {
                            assert(old_groups[h].lines@ == lines_of(seen, old_groups[h].uuid));
                        }
                    }
                    assert forall|a: int, b: int| 0 <= a < b < groups@.len() implies (
                    #[trigger] groups@[a]).uuid != (#[trigger] groups@[b]).uuid by {
                        assert(groups@[a].uuid == old_groups[a].uuid);
                        assert(groups@[b].uuid == old_groups[b].uuid);
                    }
                    assert forall|i: int| 0 <= i < next.len() implies exists|h: int|
                        0 <= h < groups@.len() && (#[trigger] groups@[h]).uuid == (
                        #[trigger] next[i]).uuid by {
                        if i < taken {
                            assert(next[i] == seen[i]);
                            let h = choose|h: int|
                                0 <= h < old_groups.len() && (#[trigger] old_groups[h]).uuid
                                    == seen[i].uuid;
                            assert(groups@[h].uuid == old_groups[h].uuid);
                        } else {
                            assert(groups@[at as int].uuid == line.uuid);
                        }
                    }
                }
            },
            None => {
                let uuid = line.uuid;
                let mut own: Vec<TaskOperation<T, M>> = Vec::new();
                own.push(line);
                groups.push(TaskLines { uuid, lines: own });
                proof {
                    let next = all.take(taken + 1);
                    let n = old_groups.len() as int;
                    assert(forall|h: int| 0 <= h < n ==> groups@[h] == old_groups[h]);
                    assert forall|i: int| 0 <= i < seen.len() implies (#[trigger] seen[i]).uuid
                        != uuid by {
                        let h = choose|h: int|
                            0 <= h < old_groups.len() && (#[trigger] old_groups[h]).uuid
                                == seen[i].uuid;
                    }
                    lemma_no_lines(seen, uuid);
                    assert(groups@[n].lines@ =~= lines_of(next, uuid));
                    assert forall|h: int| 0 <= h < groups@.len() implies (
                    #[trigger] groups@[h]).lines@ == lines_of(next, groups@[h].uuid)
                        && groups@[h].lines@.len() > 0 by {
                        if h < n {
                            assert(groups@[h] == old_groups[h]);
                        }
                    }
                    assert forall|i: int| 0 <= i < next.len() implies exists|h: int|
                        0 <= h < groups@.len() && (#[trigger] groups@[h]).uuid == (
                        #[trigger] next[i]).uuid by {
                        if i < taken {
                            assert(next[i] == seen[i]);
                            let h = choose|h: int|
                                0 <= h < old_groups.len() && (#[trigger] old_groups[h]).uuid
                                    == seen[i].uuid;
                            assert(groups@[h] == old_groups[h]);
                        } else {
                            assert(groups@[n].uuid == next[i].uuid);
                        }
                    }
                }
            },
        }
        proof {
            taken = taken + 1;
        }
    }
    assert(all.take(taken) =~= all);
    groups
}

/// A task that no line is of has no lines.
proof fn lemma_no_lines<T, M>(lines: Seq<TaskOperation<T, M>>, uuid: u128)
    requires
        forall|i: int| 0 <= i < lines.len() ==> (#[trigger] lines[i]).uuid != uuid,
    ensures
        lines_of(lines, uuid) == Seq::<TaskOperation<T, M>>::empty(),
    decreases lines.len(),
{
    if lines.len() > 0 {
        assert(lines.last().uuid != uuid);
        let head = lines.drop_last();
        assert forall|i: int| 0 <= i < head.len() implies (#[trigger] head[i]).uuid != uuid by {
            assert(head[i] == lines[i]);
        }
        lemma_no_lines(head, uuid);
    }
}

} // verus!
