//! The `taskchampion` items that the directive engine calls, each with the
//! contract that the engine's proofs rest on.
//!
//! A task of the store is a map from property names to texts. Every setter
//! records its change twice: in the task at hand, and as an update appended
//! to the batch that is later committed as a whole. Before its first change
//! a value of a task also stamps its `modified` property with the current
//! time, by an update of its own.

use vstd::prelude::*;

verus! {

#[verifier::external_type_specification]
#[verifier::external_body]
pub struct ExTask(taskchampion::Task);

#[verifier::external_type_specification]
#[verifier::external_body]
pub struct ExOperation(taskchampion::Operation);

#[verifier::external_type_specification]
#[verifier::external_body]
pub struct ExTag(taskchampion::Tag);

#[verifier::external_type_specification]
#[verifier::external_body]
pub struct ExUuid(taskchampion::Uuid);

#[verifier::external_type_specification]
#[verifier::external_body]
pub struct ExWorkingSet(taskchampion::WorkingSet);

#[verifier::external_type_specification]
#[verifier::external_body]
pub struct ExStoreError(taskchampion::Error);

#[verifier::external_type_specification]
#[verifier::external_body]
pub struct ExAnyhowError(anyhow::Error);

#[verifier::external_type_specification]
#[verifier::external_body]
pub struct ExQuoteError(shell_words::ParseError);

#[verifier::external_type_specification]
#[verifier::external_body]
pub struct ExDateError(chrono::ParseError);

#[verifier::external_type_specification]
pub struct ExStatus(taskchampion::Status);

/// A moment in time, in UTC.
#[verifier::external_body]
pub struct Timestamp {
    moment: chrono::DateTime<chrono::Utc>,
}

/// The properties of a task with their values.
pub uninterp spec fn task_props(t: taskchampion::Task) -> Map<Seq<char>, Seq<char>>;

/// The identity of a task, as the 128 bits of its UUID.
pub uninterp spec fn task_id(t: taskchampion::Task) -> u128;

/// The name of a tag.
pub uninterp spec fn tag_text(tag: taskchampion::Tag) -> Seq<char>;

/// Whether a tag is one of those that the store computes by itself.
pub uninterp spec fn tag_is_synthetic(tag: taskchampion::Tag) -> bool;

/// The characters that no tag holds.
pub open spec fn is_tag_stop(c: char) -> bool {
    ||| c == '+'
    ||| c == '-'
    ||| c == '*'
    ||| c == '/'
    ||| c == '('
    ||| c == '<'
    ||| c == '>'
    ||| c == '^'
    ||| c == '!'
    ||| c == ' '
    ||| c == '%'
    ||| c == '='
    ||| c == '~'
}

/// Whether a text holds upper-case ASCII letters only.
pub open spec fn all_upper(s: Seq<char>) -> bool {
    forall|i: int| 0 <= i < s.len() ==> 'A' <= #[trigger] s[i] && s[i] <= 'Z'
}

/// The names of the tags that the store computes by itself.
pub open spec fn is_synthetic_name(s: Seq<char>) -> bool {
    ||| s == "WAITING"@
    ||| s == "ACTIVE"@
    ||| s == "PENDING"@
    ||| s == "COMPLETED"@
    ||| s == "DELETED"@
    ||| s == "BLOCKED"@
    ||| s == "UNBLOCKED"@
    ||| s == "BLOCKING"@
}

/// The names that a user may give a tag: not in upper case throughout,
/// starting with neither whitespace, a digit nor a stop character, and
/// holding neither whitespace, a colon nor a stop character after that.
pub open spec fn is_user_tag(s: Seq<char>) -> bool {
    &&& !all_upper(s)
    &&& s.len() > 0
    &&& !(crate::text::is_whitespace(s[0]) || crate::text::is_digit(s[0]) || is_tag_stop(s[0]))
    &&& forall|i: int|
        1 <= i < s.len() ==> !(crate::text::is_whitespace(#[trigger] s[i]) || s[i] == ':'
            || is_tag_stop(s[i]))
}

/// What `Tag::from_str` says when it refuses a name.
pub uninterp spec fn tag_refusal(name: Seq<char>) -> Seq<char>;

/// The text of a store error.
pub uninterp spec fn store_error_text(e: taskchampion::Error) -> Seq<char>;

/// The text of an error that `anyhow` carries.
pub uninterp spec fn anyhow_text(e: anyhow::Error) -> Seq<char>;

/// The text of a date error.
pub uninterp spec fn date_error_text(e: chrono::ParseError) -> Seq<char>;

/// The task identities of a working set by their index; index 0 is unused.
pub uninterp spec fn working_set_entries(ws: taskchampion::WorkingSet) -> Seq<Option<u128>>;

/// Whether an operation is the marker up to which an undo reverts.
pub uninterp spec fn is_undo_point(op: taskchampion::Operation) -> bool;

/// What an operation changes: the task, the property, and the value that the
/// property gets or `None` where it is taken away. An operation that is no
/// update changes nothing.
pub uninterp spec fn op_change(op: taskchampion::Operation) -> Option<
    (u128, Seq<char>, Option<Seq<char>>),
>;

/// Whether this value of a task has stamped its `modified` property: it does
/// so before its first change and not again.
pub uninterp spec fn task_stamped(t: taskchampion::Task) -> bool;

/// The identity that `Uuid::try_parse` reads from a text of 32 to 45
/// characters, if it reads one.
pub uninterp spec fn uuid_read(s: Seq<char>) -> Option<u128>;

/// The identity that a text writes, if it writes one: no text of fewer than
/// 32 or more than 45 characters does.
pub open spec fn uuid_parsed(s: Seq<char>) -> Option<u128> {
    if 32 <= s.len() <= 45 {
        uuid_read(s)
    } else {
        None
    }
}

/// The hyphenated lower-case text of an identity.
pub uninterp spec fn uuid_text(id: u128) -> Seq<char>;

/// The seconds since the epoch of a moment.
pub uninterp spec fn timestamp_secs(at: Timestamp) -> int;

/// The text under which the store keeps a moment: the decimal text of its
/// seconds since the epoch.
pub open spec fn secs_text(secs: int) -> Seq<char> {
    crate::text::decimal_text(secs)
}

/// The seconds since the epoch that a date and time with offset writes.
pub uninterp spec fn datetime_parsed(s: Seq<char>) -> Option<int>;

/// The seconds since the epoch of midnight UTC on the day that a calendar
/// date writes.
pub uninterp spec fn date_parsed(s: Seq<char>) -> Option<int>;

/// What `NaiveDate::from_str` says when it refuses a text.
pub uninterp spec fn date_refusal(s: Seq<char>) -> Seq<char>;

/// The words that `shell_words::split` reads from a line, if its quotes are
/// closed.
pub uninterp spec fn line_words(line: Seq<char>) -> Option<Seq<Seq<char>>>;

/// The property that holds a tag.
pub open spec fn tag_key(name: Seq<char>) -> Seq<char> {
    "tag_"@ + name
}

/// The property that holds a dependency.
pub open spec fn dep_key(id: u128) -> Seq<char> {
    "dep_"@ + uuid_text(id)
}

/// The text under which the store keeps a status.
pub open spec fn status_text(status: taskchampion::Status) -> Seq<char> {
    match status {
        taskchampion::Status::Pending => "pending"@,
        taskchampion::Status::Completed => "completed"@,
        taskchampion::Status::Deleted => "deleted"@,
        taskchampion::Status::Recurring => "recurring"@,
        taskchampion::Status::Unknown(v) => v@,
    }
}

/// The names that the store's data model keeps for itself.
pub open spec fn is_known_key(key: Seq<char>) -> bool {
    ||| key == "description"@
    ||| key == "due"@
    ||| key == "modified"@
    ||| key == "start"@
    ||| key == "status"@
    ||| key == "priority"@
    ||| key == "wait"@
    ||| key == "end"@
    ||| key == "entry"@
    ||| "tag_"@.is_prefix_of(key)
    ||| "annotation_"@.is_prefix_of(key)
    ||| "dep_"@.is_prefix_of(key)
}

/// What the store says when a reserved name is used for a user-defined
/// attribute.
pub open spec fn reserved_name_text(key: Seq<char>) -> Seq<char> {
    "Usage Error: Property name "@ + key
        + " as special meaning in a task and cannot be used as a UDA"@
}

/// Two property maps hold the same at the given name.
pub open spec fn same_at(
    before: Map<Seq<char>, Seq<char>>,
    after: Map<Seq<char>, Seq<char>>,
    k: Seq<char>,
) -> bool {
    after.contains_key(k) == before.contains_key(k) && (before.contains_key(k) ==> after[k]
        == before[k])
}

/// The given property was set to the given value, or taken away for `None`.
/// Nothing else changed but, possibly, the `modified` stamp.
pub open spec fn property_set(
    before: taskchampion::Task,
    after: taskchampion::Task,
    key: Seq<char>,
    value: Option<Seq<char>>,
) -> bool {
    &&& task_id(after) == task_id(before)
    &&& forall|k: Seq<char>|
        k != key && k != "modified"@ ==> same_at(task_props(before), task_props(after), k)
    &&& match value {
        Some(v) => task_props(after).contains_key(key) && task_props(after)[key] == v,
        None => !task_props(after).contains_key(key),
    }
}

/// The status was set. With it the `end` stamp goes for a task that is open
/// again, and comes, where it was missing, for one that is closed.
pub open spec fn status_set(
    before: taskchampion::Task,
    after: taskchampion::Task,
    status: taskchampion::Status,
) -> bool {
    &&& task_id(after) == task_id(before)
    &&& forall|k: Seq<char>|
        k != "status"@ && k != "end"@ && k != "modified"@ ==> same_at(
            task_props(before),
            task_props(after),
            k,
        )
    &&& task_props(after).contains_key("status"@)
    &&& task_props(after)["status"@] == status_text(status)
    &&& match status {
        taskchampion::Status::Pending | taskchampion::Status::Recurring => !task_props(
            after,
        ).contains_key("end"@),
        taskchampion::Status::Completed | taskchampion::Status::Deleted => task_props(
            after,
        ).contains_key("end"@) && (task_props(before).contains_key("end"@) ==> task_props(
            after,
        )["end"@] == task_props(before)["end"@]),
        taskchampion::Status::Unknown(_) => same_at(
            task_props(before),
            task_props(after),
            "end"@,
        ),
    }
}

/// A change of a task: the property, and its value or `None` where it goes.
pub type Change = (Seq<char>, Option<Seq<char>>);

/// What is seen of an operation: its change, or nothing for an operation
/// that is no update.
pub type Shown = Option<(u128, Seq<char>, Option<Seq<char>>)>;

/// The properties whose values the clock writes.
pub open spec fn is_clock_name(property: Seq<char>) -> bool {
    property == "modified"@ || property == "end"@ || property == "start"@
}

/// A value as a batch shows it: of a value that the clock may have written
/// only that it is there.
pub open spec fn blank(property: Seq<char>, value: Option<Seq<char>>) -> Option<Seq<char>> {
    if is_clock_name(property) && value is Some {
        Some(Seq::<char>::empty())
    } else {
        value
    }
}

/// What is seen of an operation.
pub open spec fn shown(op: taskchampion::Operation) -> Shown {
    match op_change(op) {
        Some((id, property, value)) => Some((id, property, blank(property, value))),
        None => None,
    }
}

/// What is seen of the operations of a batch, in their order.
pub open spec fn shown_all(ops: Seq<taskchampion::Operation>) -> Seq<Shown> {
    Seq::new(ops.len(), |i: int| shown(ops[i]))
}

/// The operations of one change: the update itself, and before it the
/// `modified` stamp where this value of the task has stamped none yet.
pub open spec fn change_trace(stamped: bool, id: u128, change: Change) -> Seq<Shown> {
    (if !stamped && change.0 != "modified"@ {
        seq![Some((id, "modified"@, Some(Seq::<char>::empty())))]
    } else {
        Seq::<Shown>::empty()
    }) + seq![Some((id, change.0, blank(change.0, change.1)))]
}

/// The operations of a run of changes to one task.
pub open spec fn stamped_trace(stamped: bool, id: u128, changes: Seq<Change>) -> Seq<Shown>
    decreases changes.len(),
{
    if changes.len() == 0 {
        Seq::<Shown>::empty()
    } else {
        stamped_trace(stamped, id, changes.drop_last()) + change_trace(
            stamped || changes.len() > 1,
            id,
            changes.last(),
        )
    }
}

/// A run of changes has at least one operation for each change.
pub proof fn lemma_trace_len(stamped: bool, id: u128, changes: Seq<Change>)
    ensures
        stamped_trace(stamped, id, changes).len() >= changes.len(),
    decreases changes.len(),
{
    if changes.len() > 0 {
        lemma_trace_len(stamped, id, changes.drop_last());
    }
}

/// The batch grew by exactly the operations of the given changes to the
/// task, and without a change task and batch are as they were.
pub open spec fn recorded(
    before: taskchampion::Task,
    after: taskchampion::Task,
    ops_before: Seq<taskchampion::Operation>,
    ops_after: Seq<taskchampion::Operation>,
    changes: Seq<Change>,
) -> bool {
    &&& shown_all(ops_after) == shown_all(ops_before) + stamped_trace(
        task_stamped(before),
        task_id(before),
        changes,
    )
    &&& task_stamped(after) == (task_stamped(before) || changes.len() > 0)
    &&& changes.len() == 0 ==> after == before && ops_after == ops_before
}

/// The changes of setting a status: the `end` stamp goes for a task that is
/// open again and comes, where it was missing, for one that is closed; then
/// the status is set.
pub open spec fn status_changes(ended: bool, status: taskchampion::Status) -> Seq<Change> {
    (match status {
        taskchampion::Status::Pending | taskchampion::Status::Recurring => if ended {
            seq![("end"@, None::<Seq<char>>)]
        } else {
            Seq::<Change>::empty()
        },
        taskchampion::Status::Completed | taskchampion::Status::Deleted => if !ended {
            seq![("end"@, Some(Seq::<char>::empty()))]
        } else {
            Seq::<Change>::empty()
        },
        taskchampion::Status::Unknown(_) => Seq::<Change>::empty(),
    }) + seq![("status"@, Some(status_text(status)))]
}

/// The changes of starting a task: none for one that runs.
pub open spec fn start_changes(active: bool) -> Seq<Change> {
    if active {
        Seq::<Change>::empty()
    } else {
        seq![("start"@, Some(Seq::<char>::empty()))]
    }
}

/// The batch kept what it held and grew by changes, none of them an undo
/// marker.
pub open spec fn appended(
    before: Seq<taskchampion::Operation>,
    after: Seq<taskchampion::Operation>,
) -> bool {
    &&& before.len() <= after.len()
    &&& after.subrange(0, before.len() as int) == before
    &&& forall|i: int| before.len() <= i < after.len() ==> !is_undo_point(#[trigger] after[i])
}

/// A batch is appended to itself, and appending twice is appending.
pub proof fn lemma_appended(
    a: Seq<taskchampion::Operation>,
    b: Seq<taskchampion::Operation>,
    c: Seq<taskchampion::Operation>,
)
    ensures
        appended(a, a),
        appended(a, b) && appended(b, c) ==> appended(a, c),
{
    assert(a.subrange(0, a.len() as int) =~= a);
    if appended(a, b) && appended(b, c) {
        assert(c.subrange(0, a.len() as int) =~= c.subrange(0, b.len() as int).subrange(
            0,
            a.len() as int,
        ));
        assert forall|i: int| a.len() <= i < c.len() implies !is_undo_point(#[trigger] c[i]) by {
            if i < b.len() {
                assert(c.subrange(0, b.len() as int)[i] == b[i]);
            }
        }
    }
}

/// Nothing done records nothing.
pub proof fn lemma_nothing_recorded(t: taskchampion::Task, ops: Seq<taskchampion::Operation>)
    ensures
        recorded(t, t, ops, ops, Seq::empty()),
{
    assert(shown_all(ops) + Seq::<Shown>::empty() =~= shown_all(ops));
}

/// The operations of two runs of changes, one after the other, are those of
/// the runs joined.
pub proof fn lemma_trace_joined(stamped: bool, id: u128, a: Seq<Change>, b: Seq<Change>)
    ensures
        stamped_trace(stamped, id, a + b) == stamped_trace(stamped, id, a) + stamped_trace(
            stamped || a.len() > 0,
            id,
            b,
        ),
    decreases b.len(),
{
    if b.len() == 0 {
        assert(a + b =~= a);
        assert(stamped_trace(stamped, id, a) + Seq::<Shown>::empty() =~= stamped_trace(
            stamped,
            id,
            a,
        ));
    } else {
        lemma_trace_joined(stamped, id, a, b.drop_last());
        assert((a + b).drop_last() =~= a + b.drop_last());
        assert((a + b).last() == b.last());
        let st = stamped || a.len() > 0;
        assert(stamped_trace(stamped, id, a + b) =~= stamped_trace(stamped, id, a) + (
        stamped_trace(st, id, b.drop_last()) + change_trace(st || b.len() > 1, id, b.last())));
    }
}

/// What two steps record, one after the other, is what the changes of both
/// record.
pub proof fn lemma_recorded_joined(
    t0: taskchampion::Task,
    t1: taskchampion::Task,
    t2: taskchampion::Task,
    ops0: Seq<taskchampion::Operation>,
    ops1: Seq<taskchampion::Operation>,
    ops2: Seq<taskchampion::Operation>,
    a: Seq<Change>,
    b: Seq<Change>,
)
    requires
        recorded(t0, t1, ops0, ops1, a),
        recorded(t1, t2, ops1, ops2, b),
        task_id(t1) == task_id(t0),
    ensures
        recorded(t0, t2, ops0, ops2, a + b),
{
    lemma_trace_joined(task_stamped(t0), task_id(t0), a, b);
    assert(shown_all(ops2) =~= shown_all(ops0) + stamped_trace(
        task_stamped(t0),
        task_id(t0),
        a + b,
    ));
}

/// `Operation::UndoPoint`, the marker that opens a batch.
#[verifier::external_body]
pub(crate) fn undo_point() -> (op: taskchampion::Operation)
    ensures
        is_undo_point(op),
        op_change(op) is None,
{
    taskchampion::Operation::UndoPoint
}

/// `Task::clone`: a second value of the same task.
#[verifier::external_body]
pub(crate) fn task_clone(t: &taskchampion::Task) -> (r: taskchampion::Task)
    ensures
        task_props(r) == task_props(*t),
        task_id(r) == task_id(*t),
        task_stamped(r) == task_stamped(*t),
{
    t.clone()
}

/// `Task::is_active`: whether the task has a `start` property.
#[verifier::external_body]
pub(crate) fn task_is_active(t: &taskchampion::Task) -> (r: bool)
    ensures
        r == task_props(*t).contains_key("start"@),
{
    t.is_active()
}

/// `Task::set_value`: sets or removes a property by name. It appends the
/// update of that property to the batch and, before the first change through
/// this value of the task, the update that stamps `modified`. It never
/// fails.
#[verifier::external_body]
pub(crate) fn task_set_value(
    t: &mut taskchampion::Task,
    property: &str,
    value: Option<String>,
    ops: &mut Vec<taskchampion::Operation>,
) -> (r: Result<(), taskchampion::Error>)
    ensures
        r is Ok,
        property_set(
            *old(t),
            *final(t),
            property@,
            match value {
                Some(v) => Some(v@),
                None => None,
            },
        ),
        appended(old(ops)@, final(ops)@),
        recorded(
            *old(t),
            *final(t),
            old(ops)@,
            final(ops)@,
            seq![(property@, crate::text::text_of(value))],
        ),
        old(ops)@.len() < final(ops)@.len(),
{
    t.set_value(property, value, ops)
}

/// `Task::set_description`: `set_value` on `description`.
#[verifier::external_body]
pub(crate) fn task_set_description(
    t: &mut taskchampion::Task,
    description: String,
    ops: &mut Vec<taskchampion::Operation>,
) -> (r: Result<(), taskchampion::Error>)
    ensures
        r is Ok,
        property_set(*old(t), *final(t), "description"@, Some(description@)),
        appended(old(ops)@, final(ops)@),
        recorded(
            *old(t),
            *final(t),
            old(ops)@,
            final(ops)@,
            seq![("description"@, Some(description@))],
        ),
        old(ops)@.len() < final(ops)@.len(),
{
    t.set_description(description, ops)
}

/// `Task::set_priority`: `set_value` on `priority`.
#[verifier::external_body]
pub(crate) fn task_set_priority(
    t: &mut taskchampion::Task,
    priority: String,
    ops: &mut Vec<taskchampion::Operation>,
) -> (r: Result<(), taskchampion::Error>)
    ensures
        r is Ok,
        property_set(*old(t), *final(t), "priority"@, Some(priority@)),
        appended(old(ops)@, final(ops)@),
        recorded(
            *old(t),
            *final(t),
            old(ops)@,
            final(ops)@,
            seq![("priority"@, Some(priority@))],
        ),
        old(ops)@.len() < final(ops)@.len(),
{
    t.set_priority(priority, ops)
}

/// `Task::set_status`: sets `status` and keeps `end` in step with it. The
/// update of `end`, where there is one, comes before that of `status`.
#[verifier::external_body]
pub(crate) fn task_set_status(
    t: &mut taskchampion::Task,
    status: taskchampion::Status,
    ops: &mut Vec<taskchampion::Operation>,
) -> (r: Result<(), taskchampion::Error>)
    ensures
        r is Ok,
        status_set(*old(t), *final(t), status),
        appended(old(ops)@, final(ops)@),
        recorded(
            *old(t),
            *final(t),
            old(ops)@,
            final(ops)@,
            status_changes(task_props(*old(t)).contains_key("end"@), status),
        ),
        old(ops)@.len() < final(ops)@.len(),
{
    t.set_status(status, ops)
}

/// `Task::set_entry`: `set_value` on `entry`, with the moment's seconds.
#[verifier::external_body]
pub(crate) fn task_set_entry(
    t: &mut taskchampion::Task,
    entry: Option<Timestamp>,
    ops: &mut Vec<taskchampion::Operation>,
) -> (r: Result<(), taskchampion::Error>)
    ensures
        r is Ok,
        property_set(
            *old(t),
            *final(t),
            "entry"@,
            match entry {
                Some(at) => Some(secs_text(timestamp_secs(at))),
                None => None,
            },
        ),
        appended(old(ops)@, final(ops)@),
        recorded(
            *old(t),
            *final(t),
            old(ops)@,
            final(ops)@,
            seq![
                (
                    "entry"@,
                    match entry {
                        Some(at) => Some(secs_text(timestamp_secs(at))),
                        None => None,
                    },
                ),
            ],
        ),
        old(ops)@.len() < final(ops)@.len(),
{
    t.set_entry(entry.map(|at| at.moment), ops)
}

/// `Task::set_wait`: `set_value` on `wait`, with the moment's seconds.
#[verifier::external_body]
pub(crate) fn task_set_wait(
    t: &mut taskchampion::Task,
    wait: Option<Timestamp>,
    ops: &mut Vec<taskchampion::Operation>,
) -> (r: Result<(), taskchampion::Error>)
    ensures
        r is Ok,
        property_set(
            *old(t),
            *final(t),
            "wait"@,
            match wait {
                Some(at) => Some(secs_text(timestamp_secs(at))),
                None => None,
            },
        ),
        appended(old(ops)@, final(ops)@),
        recorded(
            *old(t),
            *final(t),
            old(ops)@,
            final(ops)@,
            seq![
                (
                    "wait"@,
                    match wait {
                        Some(at) => Some(secs_text(timestamp_secs(at))),
                        None => None,
                    },
                ),
            ],
        ),
        old(ops)@.len() < final(ops)@.len(),
{
    t.set_wait(wait.map(|at| at.moment), ops)
}

/// `Task::set_due`: `set_value` on `due`, with the moment's seconds.
#[verifier::external_body]
pub(crate) fn task_set_due(
    t: &mut taskchampion::Task,
    due: Option<Timestamp>,
    ops: &mut Vec<taskchampion::Operation>,
) -> (r: Result<(), taskchampion::Error>)
    ensures
        r is Ok,
        property_set(
            *old(t),
            *final(t),
            "due"@,
            match due {
                Some(at) => Some(secs_text(timestamp_secs(at))),
                None => None,
            },
        ),
        appended(old(ops)@, final(ops)@),
        recorded(
            *old(t),
            *final(t),
            old(ops)@,
            final(ops)@,
            seq![
                (
                    "due"@,
                    match due {
                        Some(at) => Some(secs_text(timestamp_secs(at))),
                        None => None,
                    },
                ),
            ],
        ),
        old(ops)@.len() < final(ops)@.len(),
{
    t.set_due(due.map(|at| at.moment), ops)
}

/// `Task::add_tag`: refuses a synthetic tag and leaves the task alone; for
/// any other tag it sets the tag's property to the empty text.
#[verifier::external_body]
pub(crate) fn task_add_tag(
    t: &mut taskchampion::Task,
    tag: &taskchampion::Tag,
    ops: &mut Vec<taskchampion::Operation>,
) -> (r: Result<(), taskchampion::Error>)
    ensures
        match r {
            Ok(_) => {
                &&& !tag_is_synthetic(*tag)
                &&& property_set(*old(t), *final(t), tag_key(tag_text(*tag)), Some(""@))
                &&& appended(old(ops)@, final(ops)@)
                &&& recorded(
                    *old(t),
                    *final(t),
                    old(ops)@,
                    final(ops)@,
                    seq![(tag_key(tag_text(*tag)), Some(""@))],
                )
                &&& old(ops)@.len() < final(ops)@.len()
            },
            Err(e) => {
                &&& tag_is_synthetic(*tag)
                &&& *final(t) == *old(t)
                &&& final(ops)@ == old(ops)@
                &&& store_error_text(e) == "Usage Error: Synthetic tags cannot be modified"@
            },
        },
{
    t.add_tag(tag, ops)
}

/// `Task::remove_tag`: refuses a synthetic tag and leaves the task alone;
/// for any other tag it removes the tag's property.
#[verifier::external_body]
pub(crate) fn task_remove_tag(
    t: &mut taskchampion::Task,
    tag: &taskchampion::Tag,
    ops: &mut Vec<taskchampion::Operation>,
) -> (r: Result<(), taskchampion::Error>)
    ensures
        match r {
            Ok(_) => {
                &&& !tag_is_synthetic(*tag)
                &&& property_set(*old(t), *final(t), tag_key(tag_text(*tag)), None)
                &&& appended(old(ops)@, final(ops)@)
                &&& recorded(
                    *old(t),
                    *final(t),
                    old(ops)@,
                    final(ops)@,
                    seq![(tag_key(tag_text(*tag)), None::<Seq<char>>)],
                )
                &&& old(ops)@.len() < final(ops)@.len()
            },
            Err(e) => {
                &&& tag_is_synthetic(*tag)
                &&& *final(t) == *old(t)
                &&& final(ops)@ == old(ops)@
                &&& store_error_text(e) == "Usage Error: Synthetic tags cannot be modified"@
            },
        },
{
    t.remove_tag(tag, ops)
}

/// `Task::add_dependency`: sets the dependency's property to the empty text.
#[verifier::external_body]
pub(crate) fn task_add_dependency(
    t: &mut taskchampion::Task,
    dep: u128,
    ops: &mut Vec<taskchampion::Operation>,
) -> (r: Result<(), taskchampion::Error>)
    ensures
        r is Ok,
        property_set(*old(t), *final(t), dep_key(dep), Some(""@)),
        appended(old(ops)@, final(ops)@),
        recorded(*old(t), *final(t), old(ops)@, final(ops)@, seq![(dep_key(dep), Some(""@))]),
        old(ops)@.len() < final(ops)@.len(),
{
    t.add_dependency(taskchampion::Uuid::from_u128(dep), ops)
}

/// `Task::remove_dependency`: removes the dependency's property.
#[verifier::external_body]
pub(crate) fn task_remove_dependency(
    t: &mut taskchampion::Task,
    dep: u128,
    ops: &mut Vec<taskchampion::Operation>,
) -> (r: Result<(), taskchampion::Error>)
    ensures
        r is Ok,
        property_set(*old(t), *final(t), dep_key(dep), None),
        appended(old(ops)@, final(ops)@),
        recorded(
            *old(t),
            *final(t),
            old(ops)@,
            final(ops)@,
            seq![(dep_key(dep), None::<Seq<char>>)],
        ),
        old(ops)@.len() < final(ops)@.len(),
{
    t.remove_dependency(taskchampion::Uuid::from_u128(dep), ops)
}

/// `Task::set_user_defined_attribute`: refuses a name of the data model and
/// leaves the task alone; any other name is set as `set_value` sets it.
#[verifier::external_body]
pub(crate) fn task_set_user_defined_attribute(
    t: &mut taskchampion::Task,
    key: &str,
    value: String,
    ops: &mut Vec<taskchampion::Operation>,
) -> (r: Result<(), taskchampion::Error>)
    ensures
        match r {
            Ok(_) => {
                &&& !is_known_key(key@)
                &&& property_set(*old(t), *final(t), key@, Some(value@))
                &&& appended(old(ops)@, final(ops)@)
                &&& recorded(
                    *old(t),
                    *final(t),
                    old(ops)@,
                    final(ops)@,
                    seq![(key@, Some(value@))],
                )
                &&& old(ops)@.len() < final(ops)@.len()
            },
            Err(e) => {
                &&& is_known_key(key@)
                &&& *final(t) == *old(t)
                &&& final(ops)@ == old(ops)@
                &&& store_error_text(e) == reserved_name_text(key@)
            },
        },
{
    t.set_user_defined_attribute(key, value, ops)
}

/// `Task::start`: does nothing to a task that is active; any other gets a
/// `start` property with the current time.
#[verifier::external_body]
pub(crate) fn task_start(t: &mut taskchampion::Task, ops: &mut Vec<taskchampion::Operation>) -> (r:
    Result<(), taskchampion::Error>)
    ensures
        r is Ok,
        task_id(*final(t)) == task_id(*old(t)),
        task_props(*final(t)).contains_key("start"@),
        forall|k: Seq<char>|
            k != "start"@ && k != "modified"@ ==> same_at(
                task_props(*old(t)),
                task_props(*final(t)),
                k,
            ),
        task_props(*old(t)).contains_key("start"@) ==> *final(t) == *old(t) && final(ops)@ == old(
            ops,
        )@,
        appended(old(ops)@, final(ops)@),
        recorded(
            *old(t),
            *final(t),
            old(ops)@,
            final(ops)@,
            start_changes(task_props(*old(t)).contains_key("start"@)),
        ),
{
    t.start(ops)
}

/// `Task::stop`: removes the `start` property, as `set_value` removes it.
#[verifier::external_body]
pub(crate) fn task_stop(t: &mut taskchampion::Task, ops: &mut Vec<taskchampion::Operation>) -> (r:
    Result<(), taskchampion::Error>)
    ensures
        r is Ok,
        property_set(*old(t), *final(t), "start"@, None),
        appended(old(ops)@, final(ops)@),
        recorded(
            *old(t),
            *final(t),
            old(ops)@,
            final(ops)@,
            seq![("start"@, None::<Seq<char>>)],
        ),
        old(ops)@.len() < final(ops)@.len(),
{
    t.stop(ops)
}

/// `Tag::from_str`: reads a tag from its name. A name in upper case
/// throughout is read if it names a synthetic tag, any other name if a user
/// may give it. The tag has that name; a refusal carries a message that
/// depends on the name alone.
#[verifier::external_body]
pub(crate) fn parse_tag(name: &str) -> (r: Result<taskchampion::Tag, anyhow::Error>)
    ensures
        match r {
            Ok(tag) => {
                &&& tag_text(tag) == name@
                &&& tag_is_synthetic(tag) == all_upper(name@)
                &&& if all_upper(name@) {
                    is_synthetic_name(name@)
                } else {
                    is_user_tag(name@)
                }
            },
            Err(e) => {
                &&& anyhow_text(e) == tag_refusal(name@)
                &&& if all_upper(name@) {
                    !is_synthetic_name(name@)
                } else {
                    !is_user_tag(name@)
                }
            },
        },
{
    name.parse::<taskchampion::Tag>()
}

/// `taskchampion::Error::to_string`.
#[verifier::external_body]
pub(crate) fn store_error_message(e: &taskchampion::Error) -> (r: String)
    ensures
        r@ == store_error_text(*e),
{
    e.to_string()
}

/// `anyhow::Error::msg`: an error that carries the given text.
#[verifier::external_body]
pub(crate) fn error_of(message: String) -> (e: anyhow::Error)
    ensures
        anyhow_text(e) == message@,
{
    anyhow::Error::msg(message)
}

/// `anyhow::Error::to_string`.
#[verifier::external_body]
pub(crate) fn anyhow_message(e: &anyhow::Error) -> (r: String)
    ensures
        r@ == anyhow_text(*e),
{
    e.to_string()
}

/// `chrono::ParseError::to_string`.
#[verifier::external_body]
pub(crate) fn date_error_message(e: &chrono::ParseError) -> (r: String)
    ensures
        r@ == date_error_text(*e),
{
    e.to_string()
}

/// `WorkingSet::by_index`: the task at the given index, if the index is in
/// use.
#[verifier::external_body]
pub(crate) fn working_set_by_index(ws: &taskchampion::WorkingSet, index: usize) -> (r: Option<u128>)
    ensures
        r == if index < working_set_entries(*ws).len() {
            working_set_entries(*ws)[index as int]
        } else {
            None
        },
{
    ws.by_index(index).map(|id| id.as_u128())
}

/// `Uuid::try_parse`: the result is a function of the text alone. It reads
/// texts of 32, 36, 38 and 45 bytes, all of them hexadecimal digits,
/// hyphens, braces and the letters of a prefix, so that a text of fewer
/// than 32 or more than 45 characters is refused.
#[verifier::external_body]
pub(crate) fn parse_uuid(s: &str) -> (r: Option<u128>)
    ensures
        32 <= s@.len() <= 45 ==> r == uuid_read(s@),
        !(32 <= s@.len() <= 45) ==> r is None,
{
    taskchampion::Uuid::try_parse(s).ok().map(|id| id.as_u128())
}

/// `Uuid::to_string`: the hyphenated text of an identity.
#[verifier::external_body]
pub(crate) fn uuid_to_string(id: u128) -> (r: String)
    ensures
        r@ == uuid_text(id),
{
    taskchampion::Uuid::from_u128(id).to_string()
}

/// `DateTime::<Utc>::from_str`: reads a date and time with its offset.
#[verifier::external_body]
pub(crate) fn parse_datetime(s: &str) -> (r: Result<Timestamp, chrono::ParseError>)
    ensures
        match r {
            Ok(at) => datetime_parsed(s@) == Some(timestamp_secs(at)),
            Err(_) => datetime_parsed(s@) is None,
        },
{
    s.parse::<chrono::DateTime<chrono::Utc>>().map(|moment| Timestamp { moment })
}

/// `NaiveDate::from_str`, taken at midnight UTC: reads a calendar date. A
/// refusal carries a message that depends on the text alone.
#[verifier::external_body]
pub(crate) fn parse_date(s: &str) -> (r: Result<Timestamp, chrono::ParseError>)
    ensures
        match r {
            Ok(at) => date_parsed(s@) == Some(timestamp_secs(at)) && timestamp_secs(at) % 86400
                == 0,
            Err(e) => date_parsed(s@) is None && date_error_text(e) == date_refusal(s@),
        },
{
    s.parse::<chrono::NaiveDate>().map(
        |day| Timestamp { moment: day.and_time(chrono::NaiveTime::MIN).and_utc() },
    )
}

/// `Utc::now`: the current time. Nothing is known of it.
#[verifier::external_body]
pub(crate) fn now() -> Timestamp {
    Timestamp { moment: chrono::Utc::now() }
}

/// `shell_words::split`: the result is a function of the line alone.
#[verifier::external_body]
pub(crate) fn split_words(line: &str) -> (r: Result<Vec<String>, shell_words::ParseError>)
    ensures
        match r {
            Ok(words) => line_words(line@) == Some(crate::text::text_views(words@)),
            Err(_) => line_words(line@) is None,
        },
{
    shell_words::split(line)
}

/// `shell_words::ParseError::to_string`: the one message of the one error
/// that `shell_words::split` gives.
#[verifier::external_body]
pub(crate) fn quote_error_message(e: &shell_words::ParseError) -> (r: String)
    ensures
        r@ == "missing closing quote"@,
{
    e.to_string()
}

/// `Task::get_uuid`: the identity of a task.
#[verifier::external_body]
pub(crate) fn task_uuid(t: &taskchampion::Task) -> (r: u128)
    ensures
        r == task_id(*t),
{
    t.get_uuid().as_u128()
}

} // verus!
