//! The directives and their handlers.
//!
//! A directive is a key with an optional value. Each handler applies one
//! kind of directive to a task: it either stages the change, in the task and
//! in the batch of operations, or records a field error and leaves both
//! alone. What a handler does is stated over the model of the task.

use crate::backend::champion::{
    all_upper, anyhow_message, appended, lemma_nothing_recorded, lemma_recorded_joined, recorded,
    Change, date_error_message, date_parsed, date_refusal,
    datetime_parsed, dep_key, is_synthetic_name, is_user_tag, lemma_appended, parse_date,
    parse_datetime, parse_tag, parse_uuid, secs_text, store_error_message, tag_key, tag_refusal,
    task_add_dependency, task_add_tag, task_id, task_remove_dependency, task_remove_tag,
    task_set_description, task_set_due, task_set_entry, task_set_priority, task_set_status,
    task_set_value, task_set_wait, timestamp_secs, uuid_parsed, uuid_to_string,
    working_set_by_index, working_set_entries, Timestamp,
};
use crate::backend::model::{
    lemma_property_set, lemma_status_set, lemma_status_text, status_changes_text, task_view,
    TaskView,
};
use crate::backend::task::convert_task_status;
use crate::common::errors::{
    field_error, lemma_pushed_all_joined, lemma_pushed_one, FieldError, FieldErrorView,
    FormValidation, FormValidationView,
};
use crate::text::{
    concat3, lowercased, parse_index, parsed_index, same_text, split, split_text, text_of,
    text_views, to_lowercase, trim, trimmed, value_or_empty, without_first,
};
use vstd::prelude::*;
use vstd::string::StringExecFns;

verus! {

/// The field that every directive error is recorded under.
pub open spec fn additional(message: Seq<char>) -> FieldErrorView {
    field_error("additional"@, message)
}

/// What held before a handler ran, what holds after it, and that the latter
/// is the staged outcome: the task shows the given model, the errors were
/// recorded, and the batch only grew.
pub open spec fn staged(
    t0: taskchampion::Task,
    t1: taskchampion::Task,
    ops0: Seq<taskchampion::Operation>,
    ops1: Seq<taskchampion::Operation>,
    v0: FormValidationView,
    v1: FormValidationView,
    task: TaskView,
    errors: Seq<FieldErrorView>,
) -> bool {
    &&& task_view(t1) == task
    &&& task_id(t1) == task_id(t0)
    &&& v1 == v0.pushed_all(errors)
    &&& appended(ops0, ops1)
}

/// A refused change left the task and the batch as they were; an accepted
/// one added to the batch.
pub open spec fn all_or_nothing(
    t0: taskchampion::Task,
    t1: taskchampion::Task,
    ops0: Seq<taskchampion::Operation>,
    ops1: Seq<taskchampion::Operation>,
    errors: Seq<FieldErrorView>,
) -> bool {
    if errors.len() > 0 {
        t1 == t0 && ops1 == ops0
    } else {
        ops0.len() < ops1.len()
    }
}

/// What is said of a synthetic tag that a directive names.
pub open spec fn synthetic_tag_text() -> Seq<char> {
    "Usage Error: Synthetic tags cannot be modified"@
}

/// The errors of adding or removing the tag of the given name, recorded
/// under the given field. A name that a user may give is taken; a synthetic
/// tag is refused by the task, any other name by the reading of tags.
pub open spec fn tag_errors_in(field: Seq<char>, name: Seq<char>) -> Seq<FieldErrorView> {
    if is_user_tag(name) {
        Seq::<FieldErrorView>::empty()
    } else if all_upper(name) && is_synthetic_name(name) {
        seq![field_error(field, synthetic_tag_text())]
    } else {
        seq![field_error(field, tag_refusal(name))]
    }
}

/// The errors of a `+name` or `-name` directive.
pub open spec fn tag_errors(name: Seq<char>) -> Seq<FieldErrorView> {
    tag_errors_in("additional"@, name)
}

/// The task after the tag of the given name was added, or removed. A name
/// that is refused changes nothing.
pub open spec fn tag_task(v: TaskView, name: Seq<char>, add: bool) -> TaskView {
    if !is_user_tag(name) {
        v
    } else if add {
        v.set(tag_key(name), Some(Seq::<char>::empty()))
    } else {
        v.set(tag_key(name), None)
    }
}

/// The change of adding or removing the tag of the given name. A name that
/// is refused changes nothing.
pub open spec fn tag_changes(name: Seq<char>, add: bool) -> Seq<Change> {
    if !is_user_tag(name) {
        Seq::<Change>::empty()
    } else if add {
        seq![(tag_key(name), Some(Seq::<char>::empty()))]
    } else {
        seq![(tag_key(name), None::<Seq<char>>)]
    }
}

/// Adds the tag of the given name, or removes it. A refusal is recorded
/// under the given field.
pub fn task_change_tag(
    t: &mut taskchampion::Task,
    ops: &mut Vec<taskchampion::Operation>,
    validation_result: &mut FormValidation,
    field: &str,
    tag_name: &str,
    add: bool,
)
    ensures
        staged(
            *old(t),
            *final(t),
            old(ops)@,
            final(ops)@,
            old(validation_result)@,
            final(validation_result)@,
            tag_task(task_view(*old(t)), tag_name@, add),
            tag_errors_in(field@, tag_name@),
        ),
        recorded(*old(t), *final(t), old(ops)@, final(ops)@, tag_changes(tag_name@, add)),
        all_or_nothing(
            *old(t),
            *final(t),
            old(ops)@,
            final(ops)@,
            tag_errors_in(field@, tag_name@),
        ),
{
    let ghost v0 = validation_result@;
    proof {
        lemma_pushed_one(v0, field_error(field@, tag_refusal(tag_name@)));
        lemma_pushed_one(v0, field_error(field@, synthetic_tag_text()));
        lemma_appended(ops@, ops@, ops@);
        lemma_nothing_recorded(*t, ops@);
        reveal_strlit("");
        assert(""@ =~= Seq::<char>::empty());
    }
    match parse_tag(tag_name) {
        Ok(tag) => {
            let changed = if add {
                let r = task_add_tag(t, &tag, ops);
                proof {
                    if r is Ok {
                        lemma_property_set(*old(t), *t, tag_key(tag_name@), Some(""@));
                    }
                }
                r
            } else {
                let r = task_remove_tag(t, &tag, ops);
                proof {
                    if r is Ok {
                        lemma_property_set(*old(t), *t, tag_key(tag_name@), None);
                    }
                }
                r
            };
            match changed {
                Ok(_) => (),
                Err(e) => {
                    validation_result.push(FieldError::new(field, store_error_message(&e)));
                },
            }
        },
        Err(e) => {
            validation_result.push(FieldError::new(field, anyhow_message(&e)));
        },
    }
}

/// Adds the tag that a `+name` directive names.
pub fn task_apply_tag_add(
    t: &mut taskchampion::Task,
    ops: &mut Vec<taskchampion::Operation>,
    validation_result: &mut FormValidation,
    b1: (String, Option<String>),
)
    requires
        b1.0@.len() > 0,
        b1.0@[0] == '+',
    ensures
        staged(
            *old(t),
            *final(t),
            old(ops)@,
            final(ops)@,
            old(validation_result)@,
            final(validation_result)@,
            tag_task(task_view(*old(t)), b1.0@.drop_first(), true),
            tag_errors(b1.0@.drop_first()),
        ),
        recorded(
            *old(t),
            *final(t),
            old(ops)@,
            final(ops)@,
            tag_changes(b1.0@.drop_first(), true),
        ),
        all_or_nothing(*old(t), *final(t), old(ops)@, final(ops)@, tag_errors(b1.0@.drop_first())),
{
    let tag_name = without_first(b1.0.as_str());
    task_change_tag(t, ops, validation_result, "additional", tag_name, true);
}

/// Removes the tag that a `-name` directive names.
pub fn task_apply_tag_remove(
    t: &mut taskchampion::Task,
    ops: &mut Vec<taskchampion::Operation>,
    validation_result: &mut FormValidation,
    b1: (String, Option<String>),
)
    requires
        b1.0@.len() > 0,
        b1.0@[0] == '-',
    ensures
        staged(
            *old(t),
            *final(t),
            old(ops)@,
            final(ops)@,
            old(validation_result)@,
            final(validation_result)@,
            tag_task(task_view(*old(t)), b1.0@.drop_first(), false),
            tag_errors(b1.0@.drop_first()),
        ),
        recorded(
            *old(t),
            *final(t),
            old(ops)@,
            final(ops)@,
            tag_changes(b1.0@.drop_first(), false),
        ),
        all_or_nothing(*old(t), *final(t), old(ops)@, final(ops)@, tag_errors(b1.0@.drop_first())),
{
    let tag_name = without_first(b1.0.as_str());
    task_change_tag(t, ops, validation_result, "additional", tag_name, false);
}

/// The task after a recurrence was set: it recurs by the given rule, its
/// status is `recurring`, and it is marked as periodic.
pub open spec fn recur_task(v: TaskView, value: Option<Seq<char>>) -> TaskView {
    v.set("recur"@, value).with_status_text("recurring"@).set("rtype"@, Some("periodic"@))
}

/// The changes of a recurrence: the rule, the status with what it does to
/// the end of the task, and the marker.
pub open spec fn recur_changes(v: TaskView, value: Option<Seq<char>>) -> Seq<Change> {
    seq![("recur"@, value)] + status_changes_text(v.set("recur"@, value).ended, "recurring"@)
        + seq![("rtype"@, Some("periodic"@))]
}

/// Applies a `recur` directive: the rule, the status and the marker, each
/// only after the one before it was set.
pub fn task_apply_recur(
    t: &mut taskchampion::Task,
    ops: &mut Vec<taskchampion::Operation>,
    validation_result: &mut FormValidation,
    b1: (String, Option<String>),
)
    ensures
        staged(
            *old(t),
            *final(t),
            old(ops)@,
            final(ops)@,
            old(validation_result)@,
            final(validation_result)@,
            recur_task(task_view(*old(t)), text_of(b1.1)),
            Seq::empty(),
        ),
        recorded(
            *old(t),
            *final(t),
            old(ops)@,
            final(ops)@,
            recur_changes(task_view(*old(t)), text_of(b1.1)),
        ),
        old(ops)@.len() < final(ops)@.len(),
{
    let ghost v0 = validation_result@;
    let ghost value = text_of(b1.1);
    proof {
        lemma_pushed_one(v0, additional(Seq::empty()));
    }
    match task_set_value(t, "recur", b1.1, ops) {
        Ok(_) => {
            let ghost t1 = *t;
            let ghost ops1 = ops@;
            match task_set_status(t, taskchampion::Status::Recurring, ops) {
                Ok(_) => {
                    let ghost t2 = *t;
                    let ghost ops2 = ops@;
                    match task_set_value(t, "rtype", Some("periodic".to_owned()), ops) {
                        Ok(_) => {
                            proof {
                                lemma_property_set(*old(t), t1, "recur"@, value);
                                lemma_status_set(t1, t2, taskchampion::Status::Recurring);
                                lemma_status_text(
                                    task_view(t1),
                                    taskchampion::Status::Recurring,
                                );
                                lemma_property_set(t2, *t, "rtype"@, Some("periodic"@));
                                lemma_appended(old(ops)@, ops1, ops2);
                                lemma_appended(old(ops)@, ops2, ops@);
                                let first = seq![("recur"@, value)];
                                let second = status_changes_text(
                                    task_view(t1).ended,
                                    "recurring"@,
                                );
                                let third = seq![("rtype"@, Some("periodic"@))];
                                lemma_recorded_joined(
                                    *old(t),
                                    t1,
                                    t2,
                                    old(ops)@,
                                    ops1,
                                    ops2,
                                    first,
                                    second,
                                );
                                lemma_recorded_joined(
                                    *old(t),
                                    t2,
                                    *t,
                                    old(ops)@,
                                    ops2,
                                    ops@,
                                    first + second,
                                    third,
                                );
                            }
                        },
                        Err(e) => {
                            let message = concat3(
                                "Failed change task status to recurring: ",
                                store_error_message(&e).as_str(),
                                "",
                            );
                            validation_result.push(FieldError::new("additional", message));
                        },
                    }
                },
                Err(e) => {
                    let message = concat3(
                        "Failed change task status to recurring: ",
                        store_error_message(&e).as_str(),
                        "",
                    );
                    validation_result.push(FieldError::new("additional", message));
                },
            }
        },
        Err(e) => {
            let message = concat3(
                "Failed change recurrence: ",
                store_error_message(&e).as_str(),
                "",
            );
            validation_result.push(FieldError::new("additional", message));
        },
    }
}

/// Whether an item of a dependency list asks to remove the dependency.
pub open spec fn dep_is_removal(item: Seq<char>) -> bool {
    item.len() > 1 && item[0] == '-'
}

/// The reference of an item of a dependency list: the item without its
/// sign, or the whole item where it has none or is nothing but a sign.
pub open spec fn dep_reference(item: Seq<char>) -> Seq<char> {
    if item.len() > 1 && (item[0] == '+' || item[0] == '-') {
        item.drop_first()
    } else {
        item
    }
}

/// The task that a reference names: by its identity, or else by its index in
/// the working set.
pub open spec fn resolve_dependency(reference: Seq<char>, ws: Seq<Option<u128>>) -> Option<u128> {
    match uuid_parsed(reference) {
        Some(id) => Some(id),
        None => match parsed_index(reference) {
            Some(index) => if index < ws.len() {
                ws[index as int]
            } else {
                None
            },
            None => None,
        },
    }
}

/// What is said of a reference that names no task.
pub open spec fn dep_not_found(reference: Seq<char>) -> Seq<char> {
    "Dependency task "@ + reference + " not found or invalid ID given."@
}

/// The errors of one item of a dependency list.
pub open spec fn dep_item_errors(item: Seq<char>, ws: Seq<Option<u128>>) -> Seq<FieldErrorView> {
    match resolve_dependency(dep_reference(item), ws) {
        Some(_) => Seq::empty(),
        None => seq![additional(dep_not_found(dep_reference(item)))],
    }
}

/// The task after one item of a dependency list was applied.
pub open spec fn dep_item_task(v: TaskView, item: Seq<char>, ws: Seq<Option<u128>>) -> TaskView {
    match resolve_dependency(dep_reference(item), ws) {
        Some(id) => if dep_is_removal(item) {
            v.set(dep_key(id), None)
        } else {
            v.set(dep_key(id), Some(Seq::<char>::empty()))
        },
        None => v,
    }
}

/// The change of one item of a dependency list.
pub open spec fn dep_item_changes(item: Seq<char>, ws: Seq<Option<u128>>) -> Seq<Change> {
    match resolve_dependency(dep_reference(item), ws) {
        Some(id) => if dep_is_removal(item) {
            seq![(dep_key(id), None::<Seq<char>>)]
        } else {
            seq![(dep_key(id), Some(Seq::<char>::empty()))]
        },
        None => Seq::<Change>::empty(),
    }
}

/// The changes of the pieces of a dependency list, in their order.
pub open spec fn depends_changes(pieces: Seq<Seq<char>>, ws: Seq<Option<u128>>) -> Seq<Change>
    decreases pieces.len(),
{
    if pieces.len() == 0 {
        Seq::<Change>::empty()
    } else {
        let item = trimmed(pieces.last());
        let before = depends_changes(pieces.drop_last(), ws);
        if item.len() > 0 {
            before + dep_item_changes(item, ws)
        } else {
            before
        }
    }
}

/// The errors of the pieces of a dependency list, in their order. A piece
/// that is blank is passed over.
pub open spec fn depends_errors(pieces: Seq<Seq<char>>, ws: Seq<Option<u128>>) -> Seq<
    FieldErrorView,
>
    decreases pieces.len(),
{
    if pieces.len() == 0 {
        Seq::empty()
    } else {
        let item = trimmed(pieces.last());
        let before = depends_errors(pieces.drop_last(), ws);
        if item.len() > 0 {
            before + dep_item_errors(item, ws)
        } else {
            before
        }
    }
}

/// The task after the pieces of a dependency list were applied in their
/// order.
pub open spec fn depends_task(
    v: TaskView,
    pieces: Seq<Seq<char>>,
    ws: Seq<Option<u128>>,
) -> TaskView
    decreases pieces.len(),
{
    if pieces.len() == 0 {
        v
    } else {
        let item = trimmed(pieces.last());
        let before = depends_task(v, pieces.drop_last(), ws);
        if item.len() > 0 {
            dep_item_task(before, item, ws)
        } else {
            before
        }
    }
}

/// The pieces of the value of a `depends` directive.
pub open spec fn depends_pieces(value: Option<Seq<char>>) -> Seq<Seq<char>> {
    split_text(value_or_empty(value), seq![','])
}

/// Resolves a reference to a task: a text that reads as an identity is one,
/// a text that reads as an index is looked up in the working set.
pub fn resolve_dependency_reference(reference: &str, working_set: &taskchampion::WorkingSet) -> (r:
    Option<u128>)
    ensures
        r == resolve_dependency(reference@, working_set_entries(*working_set)),
{
    match parse_uuid(reference) {
        Some(id) => Some(id),
        None => match parse_index(reference) {
            Some(index) => working_set_by_index(working_set, index),
            None => None,
        },
    }
}

/// Applies one item of a dependency list: adds the dependency, or removes it
/// for an item that begins with `-`. A reference that names no task is an
/// error.
pub fn task_apply_dependency(
    t: &mut taskchampion::Task,
    working_set: &taskchampion::WorkingSet,
    ops: &mut Vec<taskchampion::Operation>,
    validation_result: &mut FormValidation,
    dep: &str,
)
    requires
        dep@.len() > 0,
    ensures
        staged(
            *old(t),
            *final(t),
            old(ops)@,
            final(ops)@,
            old(validation_result)@,
            final(validation_result)@,
            dep_item_task(task_view(*old(t)), dep@, working_set_entries(*working_set)),
            dep_item_errors(dep@, working_set_entries(*working_set)),
        ),
        recorded(
            *old(t),
            *final(t),
            old(ops)@,
            final(ops)@,
            dep_item_changes(dep@, working_set_entries(*working_set)),
        ),
        all_or_nothing(
            *old(t),
            *final(t),
            old(ops)@,
            final(ops)@,
            dep_item_errors(dep@, working_set_entries(*working_set)),
        ),
{
    let ghost v0 = validation_result@;
    let first = dep.get_char(0);
    let signed = (first == '+' || first == '-') && dep.unicode_len() > 1;
    let removal = signed && first == '-';
    let reference = if signed {
        without_first(dep)
    } else {
        dep
    };
    proof {
        lemma_pushed_one(v0, additional(dep_not_found(reference@)));
        lemma_appended(ops@, ops@, ops@);
        lemma_nothing_recorded(*t, ops@);
        reveal_strlit("");
        assert(""@ =~= Seq::<char>::empty());
    }
    match resolve_dependency_reference(reference, working_set) {
        Some(task_uuid) => {
            let dep_result = if removal {
                let r = task_remove_dependency(t, task_uuid, ops);
                proof {
                    lemma_property_set(*old(t), *t, dep_key(task_uuid), None);
                }
                r
            } else {
                let r = task_add_dependency(t, task_uuid, ops);
                proof {
                    lemma_property_set(*old(t), *t, dep_key(task_uuid), Some(""@));
                }
                r
            };
            match dep_result {
                Ok(_) => (),
                Err(e) => {
                    let mut message = concat3(
                        "depends-error for uuid ",
                        uuid_to_string(task_uuid).as_str(),
                        ": ",
                    );
                    message.append(store_error_message(&e).as_str());
                    validation_result.push(FieldError::new("additional", message));
                },
            }
        },
        None => {
            let message = concat3(
                "Dependency task ",
                reference,
                " not found or invalid ID given.",
            );
            validation_result.push(FieldError::new("additional", message));
        },
    }
}

/// Applies a `depends` directive: a list of references between commas, each
/// of them handled for itself, so that one bad reference stops no other.
pub fn task_apply_depends(
    t: &mut taskchampion::Task,
    working_set: &taskchampion::WorkingSet,
    ops: &mut Vec<taskchampion::Operation>,
    validation_result: &mut FormValidation,
    b1: (String, Option<String>),
)
    ensures
        staged(
            *old(t),
            *final(t),
            old(ops)@,
            final(ops)@,
            old(validation_result)@,
            final(validation_result)@,
            depends_task(
                task_view(*old(t)),
                depends_pieces(text_of(b1.1)),
                working_set_entries(*working_set),
            ),
            depends_errors(depends_pieces(text_of(b1.1)), working_set_entries(*working_set)),
        ),
        recorded(
            *old(t),
            *final(t),
            old(ops)@,
            final(ops)@,
            depends_changes(depends_pieces(text_of(b1.1)), working_set_entries(*working_set)),
        ),
{
    let ghost t0 = *t;
    let ghost ops0 = ops@;
    let ghost v0 = validation_result@;
    let ghost ws = working_set_entries(*working_set);
    let dep_list: String = match b1.1 {
        Some(v) => v,
        None => String::new(),
    };
    let mut delimiters: Vec<char> = Vec::new();
    delimiters.push(',');
    assert(delimiters@ =~= seq![',']);
    let pieces = split(dep_list.as_str(), &delimiters);
    let ghost all = text_views(pieces@);
    assert(all == depends_pieces(text_of(b1.1)));
    assert(all.len() == pieces@.len());
    proof {
        lemma_pushed_one(v0, additional(Seq::empty()));
        lemma_appended(ops0, ops0, ops0);
        lemma_nothing_recorded(t0, ops0);
        assert(all.take(0) =~= Seq::<Seq<char>>::empty());
    }
    let mut i: usize = 0;
    while i < pieces.len()
        invariant
            i <= pieces@.len(),
            all == text_views(pieces@),
            ws == working_set_entries(*working_set),
            staged(
                t0,
                *t,
                ops0,
                ops@,
                v0,
                validation_result@,
                depends_task(task_view(t0), all.take(i as int), ws),
                depends_errors(all.take(i as int), ws),
            ),
            recorded(t0, *t, ops0, ops@, depends_changes(all.take(i as int), ws)),
        decreases pieces@.len() - i,
    {
        let ghost t1 = *t;
        let ghost ops1 = ops@;
        let ghost v1 = validation_result@;
        let dep = trim(pieces[i].as_str());
        proof {
            let next = all.take(i as int + 1);
            assert(next.drop_last() =~= all.take(i as int));
            assert(next.last() == all[i as int]);
            assert(all[i as int] == pieces@[i as int]@);
            lemma_pushed_all_joined(
                v0,
                depends_errors(all.take(i as int), ws),
                dep_item_errors(dep@, ws),
            );
        }
        if !dep.is_empty() {
            task_apply_dependency(t, working_set, ops, validation_result, dep);
            proof {
                lemma_appended(ops0, ops1, ops@);
                lemma_recorded_joined(
                    t0,
                    t1,
                    *t,
                    ops0,
                    ops1,
                    ops@,
                    depends_changes(all.take(i as int), ws),
                    dep_item_changes(dep@, ws),
                );
            }
        }
        i = i + 1;
    }
    assert(all.take(i as int) =~= all);
}

/// The task after its description was set.
pub open spec fn description_task(v: TaskView, value: Option<Seq<char>>) -> TaskView {
    v.set("description"@, Some(value_or_empty(value)))
}

/// Applies a `description` directive. A missing value is the empty text.
pub fn task_apply_description(
    t: &mut taskchampion::Task,
    ops: &mut Vec<taskchampion::Operation>,
    validation_result: &mut FormValidation,
    b1: (String, Option<String>),
)
    ensures
        staged(
            *old(t),
            *final(t),
            old(ops)@,
            final(ops)@,
            old(validation_result)@,
            final(validation_result)@,
            description_task(task_view(*old(t)), text_of(b1.1)),
            Seq::empty(),
        ),
        recorded(
            *old(t),
            *final(t),
            old(ops)@,
            final(ops)@,
            seq![("description"@, Some(value_or_empty(text_of(b1.1))))],
        ),
        old(ops)@.len() < final(ops)@.len(),
{
    let ghost v0 = validation_result@;
    proof {
        lemma_pushed_one(v0, additional(Seq::empty()));
    }
    let description: String = match b1.1 {
        Some(v) => v,
        None => String::new(),
    };
    let ghost text = description@;
    match task_set_description(t, description, ops) {
        Ok(_) => {
            proof {
                lemma_property_set(*old(t), *t, "description"@, Some(text));
            }
        },
        Err(e) => {
            let message = concat3(
                "Invalid description given: ",
                store_error_message(&e).as_str(),
                "",
            );
            validation_result.push(FieldError::new("additional", message));
        },
    }
}

/// The task after its priority was set.
pub open spec fn priority_task(v: TaskView, value: Option<Seq<char>>) -> TaskView {
    v.set("priority"@, Some(value_or_empty(value)))
}

/// Applies a `priority` directive. A missing value is the empty text.
pub fn task_apply_priority(
    t: &mut taskchampion::Task,
    ops: &mut Vec<taskchampion::Operation>,
    validation_result: &mut FormValidation,
    b1: (String, Option<String>),
)
    ensures
        staged(
            *old(t),
            *final(t),
            old(ops)@,
            final(ops)@,
            old(validation_result)@,
            final(validation_result)@,
            priority_task(task_view(*old(t)), text_of(b1.1)),
            Seq::empty(),
        ),
        recorded(
            *old(t),
            *final(t),
            old(ops)@,
            final(ops)@,
            seq![("priority"@, Some(value_or_empty(text_of(b1.1))))],
        ),
        old(ops)@.len() < final(ops)@.len(),
{
    let ghost v0 = validation_result@;
    proof {
        lemma_pushed_one(v0, additional(Seq::empty()));
    }
    let priority: String = match b1.1 {
        Some(v) => v,
        None => String::new(),
    };
    let ghost text = priority@;
    match task_set_priority(t, priority, ops) {
        Ok(_) => {
            proof {
                lemma_property_set(*old(t), *t, "priority"@, Some(text));
            }
        },
        Err(e) => {
            let message = concat3(
                "Invalid priority given: ",
                store_error_message(&e).as_str(),
                "",
            );
            validation_result.push(FieldError::new("additional", message));
        },
    }
}

/// What the value of a timestamp directive asks for.
pub enum Stamp {
    /// No value, or a blank one: the timestamp is taken away.
    Clear,
    /// A moment, by its seconds since the epoch.
    At(int),
    /// A text that is neither a date and time with offset nor a calendar
    /// date.
    Refused,
}

/// The reading of the value of a timestamp directive: a date and time with
/// its offset, or else a calendar date, taken at midnight UTC.
pub open spec fn stamp_of(value: Option<Seq<char>>) -> Stamp {
    match value {
        Some(val) => if trimmed(val).len() == 0 {
            Stamp::Clear
        } else {
            match datetime_parsed(trimmed(val)) {
                Some(secs) => Stamp::At(secs),
                None => match date_parsed(val) {
                    Some(secs) => Stamp::At(secs),
                    None => Stamp::Refused,
                },
            }
        },
        None => Stamp::Clear,
    }
}

/// The property that a timestamp directive sets, if its key names one.
pub open spec fn timestamp_name(key: Seq<char>) -> Option<Seq<char>> {
    let name = trimmed(lowercased(key));
    if name == "entry"@ || name == "wait"@ || name == "due"@ {
        Some(name)
    } else {
        None
    }
}

/// What is said of a timestamp that cannot be read.
pub open spec fn timestamp_refusal(key: Seq<char>, value: Seq<char>) -> Seq<char> {
    "Failed parsing timestamp for "@ + key + " ("@ + date_refusal(value) + ")."@
}

/// The errors of a timestamp directive.
pub open spec fn timestamp_errors(key: Seq<char>, value: Option<Seq<char>>) -> Seq<FieldErrorView> {
    match stamp_of(value) {
        Stamp::Refused => seq![additional(timestamp_refusal(key, value_or_empty(value)))],
        _ => Seq::empty(),
    }
}

/// The task after a timestamp directive was applied.
pub open spec fn timestamp_task(v: TaskView, key: Seq<char>, value: Option<Seq<char>>) -> TaskView {
    match timestamp_name(key) {
        Some(name) => match stamp_of(value) {
            Stamp::Clear => v.set(name, None),
            Stamp::At(secs) => v.set(name, Some(secs_text(secs))),
            Stamp::Refused => v,
        },
        None => v,
    }
}

/// The change of a timestamp directive.
pub open spec fn timestamp_changes(key: Seq<char>, value: Option<Seq<char>>) -> Seq<Change> {
    match timestamp_name(key) {
        Some(name) => match stamp_of(value) {
            Stamp::Clear => seq![(name, None::<Seq<char>>)],
            Stamp::At(secs) => seq![(name, Some(secs_text(secs)))],
            Stamp::Refused => Seq::<Change>::empty(),
        },
        None => Seq::<Change>::empty(),
    }
}

/// The text under which the store keeps a moment, if there is one.
pub open spec fn stored_text(at: Option<Timestamp>) -> Option<Seq<char>> {
    match at {
        Some(at) => Some(secs_text(timestamp_secs(at))),
        None => None,
    }
}

/// Reads the value of a timestamp directive.
pub fn parse_timestamp(key: &str, value: &Option<String>) -> (r: Result<
    Option<Timestamp>,
    FieldError,
>)
    ensures
        match r {
            Ok(Some(at)) => stamp_of(text_of(*value)) == Stamp::At(timestamp_secs(at)),
            Ok(None) => stamp_of(text_of(*value)) == Stamp::Clear,
            Err(e) => stamp_of(text_of(*value)) == Stamp::Refused && e@ == additional(
                timestamp_refusal(key@, value_or_empty(text_of(*value))),
            ),
        },
{
    match value {
        Some(val) => {
            let text = trim(val.as_str());
            if text.is_empty() {
                Ok(None)
            } else {
                match parse_datetime(text) {
                    Ok(at) => Ok(Some(at)),
                    Err(_) => match parse_date(val.as_str()) {
                        Ok(at) => Ok(Some(at)),
                        Err(p) => {
                            let mut message = concat3("Failed parsing timestamp for ", key, " (");
                            message.append(date_error_message(&p).as_str());
                            message.append(").");
                            Err(FieldError::new("additional", message))
                        },
                    },
                }
            }
        },
        None => Ok(None),
    }
}

/// Applies an `entry`, `wait` or `due` directive: the timestamp is set to
/// the moment that the value writes, or taken away where there is no value.
pub fn task_apply_timestamps(
    t: &mut taskchampion::Task,
    ops: &mut Vec<taskchampion::Operation>,
    validation_result: &mut FormValidation,
    b1: (String, Option<String>),
)
    ensures
        staged(
            *old(t),
            *final(t),
            old(ops)@,
            final(ops)@,
            old(validation_result)@,
            final(validation_result)@,
            timestamp_task(task_view(*old(t)), b1.0@, text_of(b1.1)),
            timestamp_errors(b1.0@, text_of(b1.1)),
        ),
        recorded(
            *old(t),
            *final(t),
            old(ops)@,
            final(ops)@,
            timestamp_changes(b1.0@, text_of(b1.1)),
        ),
        timestamp_errors(b1.0@, text_of(b1.1)).len() > 0 ==> *final(t) == *old(t) && final(ops)@
            == old(ops)@,
        timestamp_errors(b1.0@, text_of(b1.1)).len() == 0 && timestamp_name(b1.0@) is Some
            ==> old(ops)@.len() < final(ops)@.len(),
{
    let ghost v0 = validation_result@;
    let ghost value = text_of(b1.1);
    proof {
        lemma_pushed_one(v0, additional(timestamp_refusal(b1.0@, value_or_empty(value))));
        lemma_appended(ops@, ops@, ops@);
        lemma_nothing_recorded(*t, ops@);
    }
    match parse_timestamp(b1.0.as_str(), &b1.1) {
        Ok(e) => {
            let ghost stored = stored_text(e);
            let lowered = to_lowercase(b1.0.as_str());
            let name = trim(lowered.as_str());
            let result = if same_text(name, "entry") {
                let r = task_set_entry(t, e, ops);
                proof {
                    lemma_property_set(*old(t), *t, "entry"@, stored);
                }
                r
            } else if same_text(name, "wait") {
                let r = task_set_wait(t, e, ops);
                proof {
                    lemma_property_set(*old(t), *t, "wait"@, stored);
                }
                r
            } else if same_text(name, "due") {
                let r = task_set_due(t, e, ops);
                proof {
                    lemma_property_set(*old(t), *t, "due"@, stored);
                }
                r
            } else {
                Ok(())
            };
            if let Err(p) = result {
                let mut message = concat3("Failed setting timestamp for ", b1.0.as_str(), " (");
                message.append(store_error_message(&p).as_str());
                message.append(").");
                validation_result.push(FieldError::new("additional", message));
            }
        },
        Err(e) => {
            validation_result.push(e);
        },
    }
}

/// The task after a status directive was applied. Without a value nothing
/// changes.
pub open spec fn status_task(v: TaskView, value: Option<Seq<char>>) -> TaskView {
    match value {
        Some(val) => v.with_status_text(val),
        None => v,
    }
}

/// The changes of a status directive.
pub open spec fn status_directive_changes(v: TaskView, value: Option<Seq<char>>) -> Seq<Change> {
    match value {
        Some(val) => status_changes_text(v.ended, val),
        None => Seq::<Change>::empty(),
    }
}

/// Applies a `status` directive. Every value is taken: one that names no
/// known status is kept as it is written.
pub fn task_apply_status(
    t: &mut taskchampion::Task,
    ops: &mut Vec<taskchampion::Operation>,
    validation_result: &mut FormValidation,
    b1: (String, Option<String>),
)
    ensures
        staged(
            *old(t),
            *final(t),
            old(ops)@,
            final(ops)@,
            old(validation_result)@,
            final(validation_result)@,
            status_task(task_view(*old(t)), text_of(b1.1)),
            Seq::empty(),
        ),
        recorded(
            *old(t),
            *final(t),
            old(ops)@,
            final(ops)@,
            status_directive_changes(task_view(*old(t)), text_of(b1.1)),
        ),
        b1.1 is Some ==> old(ops)@.len() < final(ops)@.len(),
        b1.1 is None ==> *final(t) == *old(t) && final(ops)@ == old(ops)@,
{
    let ghost v0 = validation_result@;
    proof {
        lemma_pushed_one(v0, additional(Seq::empty()));
        lemma_appended(ops@, ops@, ops@);
        lemma_nothing_recorded(*t, ops@);
    }
    if let Some(val) = b1.1 {
        let task_status = convert_task_status(val.as_str());
        proof {
            lemma_status_text(task_view(*old(t)), task_status);
        }
        match task_set_status(t, task_status, ops) {
            Ok(_) => {
                proof {
                    lemma_status_set(*old(t), *t, task_status);
                }
            },
            Err(p) => {
                let mut message = concat3("Invalid status ", val.as_str(), " (");
                message.append(store_error_message(&p).as_str());
                message.append(").");
                validation_result.push(FieldError::new("additional", message));
            },
        }
    }
}

} // verus!
