//! Changing tasks by directives.
//!
//! A line of directives is cut into words, each word is read as one
//! directive and applied to the task. Every directive is tried; the errors
//! of all of them are gathered, and the caller commits the staged batch only
//! if there is none.

pub mod laws;
pub mod task_modify;
pub mod task_query_builder;

use crate::backend::champion::{
    appended, is_known_key, is_undo_point, lemma_appended, lemma_nothing_recorded,
    lemma_recorded_joined, lemma_trace_len, line_words, now, quote_error_message, recorded, shown_all,
    stamped_trace, start_changes, task_stamped, Change, Shown,
    reserved_name_text, secs_text, split_words, store_error_message, task_clone, task_id,
    task_is_active, task_props, task_set_description, task_set_entry, task_set_status,
    task_set_user_defined_attribute, task_set_value, task_start, task_stop, task_uuid,
    timestamp_secs, undo_point, working_set_entries, Timestamp,
};
use crate::backend::model::{
    lemma_property_set, lemma_started, lemma_status_names, lemma_status_set, lemma_status_text,
    status_changes_text, task_view, TaskView,
};
use crate::backend::task::{convert_task_status, reserved_property, TaskEvent, TaskProperties};
use crate::common::errors::{
    field_error, lemma_pushed_all_joined, lemma_pushed_one, FieldError, FieldErrorView,
    FormValidation, FormValidationView,
};
use crate::endpoints::tasks::task_modify::{
    additional, depends_changes, depends_errors, depends_pieces, depends_task, description_task,
    priority_task, recur_changes, recur_task, staged, status_directive_changes, status_task,
    tag_changes, tag_errors, tag_errors_in, tag_task, task_apply_depends, timestamp_changes,
    task_apply_description, task_apply_priority, task_apply_recur, task_apply_status,
    task_apply_tag_add, task_apply_tag_remove, task_apply_timestamps, task_change_tag,
    timestamp_errors, timestamp_task,
};
use crate::text::{
    after_first, before_first, concat3, lemma_first_split, lowercased, same_text, split,
    split_once, split_text, starts_with_char, text_of, text_views, to_lowercase, trim, trimmed,
    value_or_empty,
};
use crate::{NewTask, NewTaskView};
use vstd::prelude::*;

verus! {

/// A directive: a key and, where the word has a colon, a value.
pub struct Directive {
    pub key: Seq<char>,
    pub value: Option<Seq<char>>,
}

/// The directive that a word writes: the word is cut at its first colon, and
/// both parts are trimmed.
pub open spec fn directive_of(word: Seq<char>) -> Directive {
    if word.contains(':') {
        Directive {
            key: trimmed(before_first(word, ':')),
            value: Some(trimmed(after_first(word, ':'))),
        }
    } else {
        Directive { key: trimmed(word), value: None }
    }
}

/// The kinds of directives, in the order in which a key is tried for them.
#[derive(Clone, Copy, Debug, PartialEq, Eq)]
pub enum DirectiveKind {
    TagAdd,
    TagRemove,
    Depends,
    Description,
    Priority,
    Timestamp,
    Status,
    Recur,
    Forbidden,
    Reserved,
    UserDefined,
}

/// The names that no directive may set: the store keeps them by itself.
pub open spec fn is_forbidden_name(name: Seq<char>) -> bool {
    ||| name == "start"@
    ||| name == "stop"@
    ||| name == "done"@
    ||| name == "end"@
    ||| name == "modified"@
}

/// The kind of a directive. Keys are compared without regard to case.
pub open spec fn directive_kind(d: Directive) -> DirectiveKind {
    let lowered = lowercased(d.key);
    let name = trimmed(lowered);
    if d.key.len() > 0 && d.key[0] == '+' && d.value is None {
        DirectiveKind::TagAdd
    } else if d.key.len() > 0 && d.key[0] == '-' && d.value is None {
        DirectiveKind::TagRemove
    } else if lowered == "depends"@ {
        DirectiveKind::Depends
    } else if name == "description"@ {
        DirectiveKind::Description
    } else if name == "priority"@ {
        DirectiveKind::Priority
    } else if name == "entry"@ || name == "wait"@ || name == "due"@ {
        DirectiveKind::Timestamp
    } else if name == "status"@ {
        DirectiveKind::Status
    } else if name == "recur"@ {
        DirectiveKind::Recur
    } else if is_forbidden_name(name) {
        DirectiveKind::Forbidden
    } else if reserved_property(lowered) is Some {
        DirectiveKind::Reserved
    } else {
        DirectiveKind::UserDefined
    }
}

/// What is said of a directive on a forbidden name.
pub open spec fn forbidden_text(key: Seq<char>) -> Seq<char> {
    "Manual modification of the field "@ + key + " is not allowed."@
}

/// The errors of one directive. They depend on the directive and on the
/// working set, never on the task.
pub open spec fn directive_errors(d: Directive, ws: Seq<Option<u128>>) -> Seq<FieldErrorView> {
    match directive_kind(d) {
        DirectiveKind::TagAdd | DirectiveKind::TagRemove => tag_errors(d.key.drop_first()),
        DirectiveKind::Depends => depends_errors(depends_pieces(d.value), ws),
        DirectiveKind::Timestamp => timestamp_errors(d.key, d.value),
        DirectiveKind::Forbidden => seq![additional(forbidden_text(d.key))],
        DirectiveKind::UserDefined => if is_known_key(d.key) {
            seq![additional(reserved_name_text(d.key))]
        } else {
            Seq::empty()
        },
        _ => Seq::empty(),
    }
}

/// The task after one directive.
pub open spec fn directive_task(v: TaskView, d: Directive, ws: Seq<Option<u128>>) -> TaskView {
    match directive_kind(d) {
        DirectiveKind::TagAdd => tag_task(v, d.key.drop_first(), true),
        DirectiveKind::TagRemove => tag_task(v, d.key.drop_first(), false),
        DirectiveKind::Depends => depends_task(v, depends_pieces(d.value), ws),
        DirectiveKind::Description => description_task(v, d.value),
        DirectiveKind::Priority => priority_task(v, d.value),
        DirectiveKind::Timestamp => timestamp_task(v, d.key, d.value),
        DirectiveKind::Status => status_task(v, d.value),
        DirectiveKind::Recur => recur_task(v, d.value),
        DirectiveKind::Forbidden => v,
        DirectiveKind::Reserved => v.set(d.key, d.value),
        DirectiveKind::UserDefined => if is_known_key(d.key) {
            v
        } else {
            v.set(d.key, Some(value_or_empty(d.value)))
        },
    }
}

/// The changes that one directive stages, in their order. A directive that
/// is refused stages none.
pub open spec fn directive_changes(v: TaskView, d: Directive, ws: Seq<Option<u128>>) -> Seq<Change> {
    match directive_kind(d) {
        DirectiveKind::TagAdd => tag_changes(d.key.drop_first(), true),
        DirectiveKind::TagRemove => tag_changes(d.key.drop_first(), false),
        DirectiveKind::Depends => depends_changes(depends_pieces(d.value), ws),
        DirectiveKind::Description => seq![("description"@, Some(value_or_empty(d.value)))],
        DirectiveKind::Priority => seq![("priority"@, Some(value_or_empty(d.value)))],
        DirectiveKind::Timestamp => timestamp_changes(d.key, d.value),
        DirectiveKind::Status => status_directive_changes(v, d.value),
        DirectiveKind::Recur => recur_changes(v, d.value),
        DirectiveKind::Forbidden => Seq::<Change>::empty(),
        DirectiveKind::Reserved => seq![(d.key, d.value)],
        DirectiveKind::UserDefined => if is_known_key(d.key) {
            Seq::<Change>::empty()
        } else {
            seq![(d.key, Some(value_or_empty(d.value)))]
        },
    }
}

/// The changes that a run of words stages, each read as a directive and
/// applied to the task as the words before it left it.
pub open spec fn directives_changes(
    v: TaskView,
    words: Seq<Seq<char>>,
    ws: Seq<Option<u128>>,
) -> Seq<Change>
    decreases words.len(),
{
    if words.len() == 0 {
        Seq::<Change>::empty()
    } else {
        directives_changes(v, words.drop_last(), ws) + directive_changes(
            directives_task(v, words.drop_last(), ws),
            directive_of(words.last()),
            ws,
        )
    }
}

/// The errors of a run of words, each read as a directive, in their order.
pub open spec fn directives_errors(words: Seq<Seq<char>>, ws: Seq<Option<u128>>) -> Seq<
    FieldErrorView,
>
    decreases words.len(),
{
    if words.len() == 0 {
        Seq::empty()
    } else {
        directives_errors(words.drop_last(), ws) + directive_errors(directive_of(words.last()), ws)
    }
}

/// The task after a run of words, each read as a directive and applied in
/// its turn, whether or not the ones before it were refused.
pub open spec fn directives_task(
    v: TaskView,
    words: Seq<Seq<char>>,
    ws: Seq<Option<u128>>,
) -> TaskView
    decreases words.len(),
{
    if words.len() == 0 {
        v
    } else {
        directive_task(directives_task(v, words.drop_last(), ws), directive_of(words.last()), ws)
    }
}

/// The kind of the directive of the given key; `has_value` says whether the
/// word had a colon.
pub fn classify(key: &str, has_value: bool) -> (r: DirectiveKind)
    ensures
        r == directive_kind(
            Directive {
                key: key@,
                value: if has_value {
                    Some(Seq::<char>::empty())
                } else {
                    None
                },
            },
        ),
        forall|value: Seq<char>|
            has_value ==> r == directive_kind(Directive { key: key@, value: Some(value) }),
{
    let lowered = to_lowercase(key);
    let name = trim(lowered.as_str());
    if starts_with_char(key, '+') && !has_value {
        DirectiveKind::TagAdd
    } else if starts_with_char(key, '-') && !has_value {
        DirectiveKind::TagRemove
    } else if same_text(lowered.as_str(), "depends") {
        DirectiveKind::Depends
    } else if same_text(name, "description") {
        DirectiveKind::Description
    } else if same_text(name, "priority") {
        DirectiveKind::Priority
    } else if same_text(name, "entry") || same_text(name, "wait") || same_text(name, "due") {
        DirectiveKind::Timestamp
    } else if same_text(name, "status") {
        DirectiveKind::Status
    } else if same_text(name, "recur") {
        DirectiveKind::Recur
    } else if same_text(name, "start") || same_text(name, "stop") || same_text(name, "done")
        || same_text(name, "end") || same_text(name, "modified") {
        DirectiveKind::Forbidden
    } else if TaskProperties::try_from(key).is_ok() {
        DirectiveKind::Reserved
    } else {
        DirectiveKind::UserDefined
    }
}

/// Cuts a word into the key and the value of its directive.
pub fn read_directive(word: &str) -> (b1: (String, Option<String>))
    ensures
        b1.0@ == directive_of(word@).key,
        text_of(b1.1) == directive_of(word@).value,
{
    match split_once(word, ':') {
        Some((key, value)) => {
            proof {
                lemma_first_split(word@, key@, value@, ':');
            }
            (trim(key).to_owned(), Some(trim(value).to_owned()))
        },
        None => (trim(word).to_owned(), None),
    }
}

/// Refuses a directive on a forbidden name.
pub fn task_apply_forbidden(validation_result: &mut FormValidation, b1: (String, Option<String>))
    ensures
        final(validation_result)@ == old(validation_result)@.pushed_all(
            seq![additional(forbidden_text(b1.0@))],
        ),
{
    proof {
        lemma_pushed_one(validation_result@, additional(forbidden_text(b1.0@)));
    }
    let message = concat3("Manual modification of the field ", b1.0.as_str(), " is not allowed.");
    validation_result.push(FieldError::new("additional", message));
}

/// Sets a reserved property by its name, as the directive writes it.
pub fn task_apply_reserved(
    t: &mut taskchampion::Task,
    ops: &mut Vec<taskchampion::Operation>,
    validation_result: &mut FormValidation,
    b1: (String, Option<String>),
)
    ensures
        staged(
            *old(t),
            *final(t),
            old(ops)@,
            final(ops)@,
            old(validation_result)@,
            final(validation_result)@,
            task_view(*old(t)).set(b1.0@, text_of(b1.1)),
            Seq::empty(),
        ),
        recorded(*old(t), *final(t), old(ops)@, final(ops)@, seq![(b1.0@, text_of(b1.1))]),
        old(ops)@.len() < final(ops)@.len(),
{
    let ghost value = text_of(b1.1);
    proof {
        lemma_pushed_one(validation_result@, additional(Seq::empty()));
    }
    match task_set_value(t, b1.0.as_str(), b1.1, ops) {
        Ok(_) => {
            proof {
                lemma_property_set(*old(t), *t, b1.0@, value);
            }
        },
        Err(e) => {
            validation_result.push(FieldError::new("additional", store_error_message(&e)));
        },
    }
}

/// Sets a user-defined attribute. A name that the data model keeps for
/// itself is refused.
pub fn task_apply_user_defined(
    t: &mut taskchampion::Task,
    ops: &mut Vec<taskchampion::Operation>,
    validation_result: &mut FormValidation,
    b1: (String, Option<String>),
)
    ensures
        staged(
            *old(t),
            *final(t),
            old(ops)@,
            final(ops)@,
            old(validation_result)@,
            final(validation_result)@,
            if is_known_key(b1.0@) {
                task_view(*old(t))
            } else {
                task_view(*old(t)).set(b1.0@, Some(value_or_empty(text_of(b1.1))))
            },
            if is_known_key(b1.0@) {
                seq![additional(reserved_name_text(b1.0@))]
            } else {
                Seq::empty()
            },
        ),
        recorded(
            *old(t),
            *final(t),
            old(ops)@,
            final(ops)@,
            if is_known_key(b1.0@) {
                Seq::<Change>::empty()
            } else {
                seq![(b1.0@, Some(value_or_empty(text_of(b1.1))))]
            },
        ),
        is_known_key(b1.0@) ==> *final(t) == *old(t) && final(ops)@ == old(ops)@,
        !is_known_key(b1.0@) ==> old(ops)@.len() < final(ops)@.len(),
{
    proof {
        lemma_pushed_one(validation_result@, additional(reserved_name_text(b1.0@)));
        lemma_appended(ops@, ops@, ops@);
        lemma_nothing_recorded(*t, ops@);
    }
    let value: String = match b1.1 {
        Some(v) => v,
        None => String::new(),
    };
    let ghost text = value@;
    match task_set_user_defined_attribute(t, b1.0.as_str(), value, ops) {
        Ok(_) => {
            proof {
                lemma_property_set(*old(t), *t, b1.0@, Some(text));
            }
        },
        Err(e) => {
            validation_result.push(FieldError::new("additional", store_error_message(&e)));
        },
    }
}

/// Reads one word as a directive and applies it.
pub fn apply_directive(
    t: &mut taskchampion::Task,
    working_set: &taskchampion::WorkingSet,
    ops: &mut Vec<taskchampion::Operation>,
    validation_result: &mut FormValidation,
    word: &str,
)
    ensures
        staged(
            *old(t),
            *final(t),
            old(ops)@,
            final(ops)@,
            old(validation_result)@,
            final(validation_result)@,
            directive_task(
                task_view(*old(t)),
                directive_of(word@),
                working_set_entries(*working_set),
            ),
            directive_errors(directive_of(word@), working_set_entries(*working_set)),
        ),
        recorded(
            *old(t),
            *final(t),
            old(ops)@,
            final(ops)@,
            directive_changes(
                task_view(*old(t)),
                directive_of(word@),
                working_set_entries(*working_set),
            ),
        ),
{
    let b1 = read_directive(word);
    let kind = classify(b1.0.as_str(), b1.1.is_some());
    proof {
        lemma_appended(ops@, ops@, ops@);
        lemma_nothing_recorded(*t, ops@);
        let d = directive_of(word@);
        assert(d == Directive { key: b1.0@, value: text_of(b1.1) });
        assert(kind == directive_kind(d));
    }
    match kind {
        DirectiveKind::TagAdd => task_apply_tag_add(t, ops, validation_result, b1),
        DirectiveKind::TagRemove => task_apply_tag_remove(t, ops, validation_result, b1),
        DirectiveKind::Depends => task_apply_depends(t, working_set, ops, validation_result, b1),
        DirectiveKind::Description => task_apply_description(t, ops, validation_result, b1),
        DirectiveKind::Priority => task_apply_priority(t, ops, validation_result, b1),
        DirectiveKind::Timestamp => task_apply_timestamps(t, ops, validation_result, b1),
        DirectiveKind::Status => task_apply_status(t, ops, validation_result, b1),
        DirectiveKind::Recur => task_apply_recur(t, ops, validation_result, b1),
        DirectiveKind::Forbidden => task_apply_forbidden(validation_result, b1),
        DirectiveKind::Reserved => task_apply_reserved(t, ops, validation_result, b1),
        DirectiveKind::UserDefined => task_apply_user_defined(t, ops, validation_result, b1),
    }
}

/// Applies a run of words, each as one directive. A refused directive stops
/// none of those that follow it.
pub fn apply_directives(
    t: &mut taskchampion::Task,
    working_set: &taskchampion::WorkingSet,
    ops: &mut Vec<taskchampion::Operation>,
    validation_result: &mut FormValidation,
    words: &Vec<String>,
)
    ensures
        staged(
            *old(t),
            *final(t),
            old(ops)@,
            final(ops)@,
            old(validation_result)@,
            final(validation_result)@,
            directives_task(
                task_view(*old(t)),
                text_views(words@),
                working_set_entries(*working_set),
            ),
            directives_errors(text_views(words@), working_set_entries(*working_set)),
        ),
        recorded(
            *old(t),
            *final(t),
            old(ops)@,
            final(ops)@,
            directives_changes(
                task_view(*old(t)),
                text_views(words@),
                working_set_entries(*working_set),
            ),
        ),
{
    let ghost t0 = *t;
    let ghost ops0 = ops@;
    let ghost v0 = validation_result@;
    let ghost ws = working_set_entries(*working_set);
    let ghost all = text_views(words@);
    proof {
        lemma_pushed_one(v0, additional(Seq::empty()));
        lemma_appended(ops0, ops0, ops0);
        lemma_nothing_recorded(t0, ops0);
        assert(all.take(0) =~= Seq::<Seq<char>>::empty());
    }
    let mut i: usize = 0;
    while i < words.len()
        invariant
            i <= words@.len(),
            all == text_views(words@),
            ws == working_set_entries(*working_set),
            staged(
                t0,
                *t,
                ops0,
                ops@,
                v0,
                validation_result@,
                directives_task(task_view(t0), all.take(i as int), ws),
                directives_errors(all.take(i as int), ws),
            ),
            recorded(t0, *t, ops0, ops@, directives_changes(task_view(t0), all.take(i as int), ws)),
        decreases words@.len() - i,
    {
        let ghost ops1 = ops@;
        let ghost t1 = *t;
        proof {
            let next = all.take(i as int + 1);
            assert(next.drop_last() =~= all.take(i as int));
            assert(next.last() == words@[i as int]@);
            lemma_pushed_all_joined(
                v0,
                directives_errors(all.take(i as int), ws),
                directive_errors(directive_of(words@[i as int]@), ws),
            );
        }
        apply_directive(t, working_set, ops, validation_result, words[i].as_str());
        proof {
            lemma_appended(ops0, ops1, ops@);
            lemma_recorded_joined(
                t0,
                t1,
                *t,
                ops0,
                ops1,
                ops@,
                directives_changes(task_view(t0), all.take(i as int), ws),
                directive_changes(task_view(t1), directive_of(words@[i as int]@), ws),
            );
        }
        i = i + 1;
    }
    assert(all.take(i as int) =~= all);
}

/// What is said of a line whose quotes are not closed.
pub open spec fn unclosed_quote() -> FieldErrorView {
    additional("missing closing quote"@)
}

/// Reads a line of directives and applies them to the task. A line whose
/// quotes are not closed is one error, and nothing of it is applied.
pub fn parse_apply_additions(
    t: &mut taskchampion::Task,
    working_set: &taskchampion::WorkingSet,
    ops: &mut Vec<taskchampion::Operation>,
    additional: &String,
    validation_result: &mut FormValidation,
)
    ensures
        match line_words(additional@) {
            Some(words) => staged(
                *old(t),
                *final(t),
                old(ops)@,
                final(ops)@,
                old(validation_result)@,
                final(validation_result)@,
                directives_task(task_view(*old(t)), words, working_set_entries(*working_set)),
                directives_errors(words, working_set_entries(*working_set)),
            ) && recorded(
                *old(t),
                *final(t),
                old(ops)@,
                final(ops)@,
                directives_changes(task_view(*old(t)), words, working_set_entries(*working_set)),
            ),
            None => {
                &&& *final(t) == *old(t)
                &&& final(ops)@ == old(ops)@
                &&& final(validation_result)@ == old(validation_result)@.pushed(unclosed_quote())
            },
        },
{
    match split_words(additional.as_str()) {
        Ok(words) => {
            apply_directives(t, working_set, ops, validation_result, &words);
        },
        Err(e) => {
            validation_result.push(FieldError::new("additional", quote_error_message(&e)));
        },
    }
}

/// The words that name a report or a status instead of a tag.
pub open spec fn is_keyword(tag: Seq<char>) -> bool {
    tag == "next"@ || tag == "pending"@ || tag == "completed"@ || tag == "new"@
}

/// Whether a filter word is one of the keywords.
pub fn is_tag_keyword(tag: &str) -> (r: bool)
    ensures
        r == is_keyword(tag@),
{
    same_text(tag, "next") || same_text(tag, "pending") || same_text(tag, "completed")
        || same_text(tag, "new")
}

/// Whether a filter word is a keyword or written as a tag, with `+`.
pub fn is_a_tag(tag: &str) -> (r: bool)
    ensures
        r == (is_keyword(tag@) || (tag@.len() > 0 && tag@[0] == '+')),
{
    is_tag_keyword(tag) || starts_with_char(tag, '+')
}

/// Whether two values stand for the same task in the same state.
pub open spec fn same_task(a: taskchampion::Task, b: taskchampion::Task) -> bool {
    task_props(a) == task_props(b) && task_id(a) == task_id(b)
}

/// What the hook scripts are told once a batch is committed: the event, the
/// task as it was, if it was, and the task as it is.
pub struct HookCall {
    pub event: TaskEvent,
    pub old: Option<taskchampion::Task>,
    pub new: taskchampion::Task,
}

/// A call that tells of a new task.
pub open spec fn add_call(call: HookCall, new: taskchampion::Task) -> bool {
    &&& call.event is OnAdd
    &&& call.old is None
    &&& same_task(call.new, new)
}

/// A call that tells of a changed task, with the task before and after.
pub open spec fn modify_call(
    call: HookCall,
    old: taskchampion::Task,
    new: taskchampion::Task,
) -> bool {
    &&& call.event is OnModify
    &&& call.old matches Some(o) && same_task(o, old)
    &&& same_task(call.new, new)
}

/// The staged changes of one action of the user, ready to be committed as a
/// whole, and the calls that are due once they are.
pub struct Batch {
    pub ops: Vec<taskchampion::Operation>,
    pub hooks: Vec<HookCall>,
}

/// A batch has one undo marker, at its head.
pub open spec fn is_batch(ops: Seq<taskchampion::Operation>) -> bool {
    &&& ops.len() >= 1
    &&& is_undo_point(ops[0])
    &&& forall|i: int| 1 <= i < ops.len() ==> !is_undo_point(#[trigger] ops[i])
}

/// A batch that grows by changes stays a batch.
pub proof fn lemma_batch_grows(
    before: Seq<taskchampion::Operation>,
    after: Seq<taskchampion::Operation>,
)
    requires
        is_batch(before),
        appended(before, after),
    ensures
        is_batch(after),
{
    assert(after.subrange(0, before.len() as int)[0] == before[0]);
    assert forall|i: int| 1 <= i < after.len() implies !is_undo_point(#[trigger] after[i]) by {
        if i < before.len() {
            assert(after.subrange(0, before.len() as int)[i] == before[i]);
        }
    }
}

/// The batch holds the undo marker and after it exactly the given
/// operations, in their order.
pub open spec fn batch_of(ops: Seq<taskchampion::Operation>, trace: Seq<Shown>) -> bool {
    shown_all(ops) == seq![None::<(u128, Seq<char>, Option<Seq<char>>)>] + trace
}

/// Opens a batch: nothing but the undo marker.
pub fn begin_batch() -> (ops: Vec<taskchampion::Operation>)
    ensures
        ops@.len() == 1,
        is_batch(ops@),
        batch_of(ops@, Seq::empty()),
{
    let mut ops: Vec<taskchampion::Operation> = Vec::new();
    ops.push(undo_point());
    assert(shown_all(ops@) =~= seq![None::<(u128, Seq<char>, Option<Seq<char>>)>]
        + Seq::<Shown>::empty());
    ops
}

/// A batch that records changes holds what it held and their operations.
pub proof fn lemma_batch_records(
    t0: taskchampion::Task,
    t1: taskchampion::Task,
    ops0: Seq<taskchampion::Operation>,
    ops1: Seq<taskchampion::Operation>,
    trace: Seq<Shown>,
    changes: Seq<Change>,
)
    requires
        batch_of(ops0, trace),
        recorded(t0, t1, ops0, ops1, changes),
    ensures
        batch_of(ops1, trace + stamped_trace(task_stamped(t0), task_id(t0), changes)),
{
    assert(shown_all(ops1) =~= seq![None::<(u128, Seq<char>, Option<Seq<char>>)>] + (trace
        + stamped_trace(task_stamped(t0), task_id(t0), changes)));
}

/// The verdict on a batch by the errors of its directives.
pub open spec fn verdict(errors: Seq<FieldErrorView>) -> FormValidationView {
    FormValidationView::fresh().pushed_all(errors)
}

/// The pieces of the tag list of the form for a new task. A blank list has
/// none.
pub open spec fn tag_list_pieces(tags: Option<Seq<char>>) -> Seq<Seq<char>> {
    match tags {
        Some(list) => if trimmed(list).len() > 0 {
            split_text(list, seq![' ', '+', '-'])
        } else {
            Seq::empty()
        },
        None => Seq::empty(),
    }
}

/// The errors of the pieces of a tag list, under the field `tags`. A blank
/// piece is passed over.
pub open spec fn tag_list_errors(pieces: Seq<Seq<char>>) -> Seq<FieldErrorView>
    decreases pieces.len(),
{
    if pieces.len() == 0 {
        Seq::empty()
    } else {
        let before = tag_list_errors(pieces.drop_last());
        if trimmed(pieces.last()).len() > 0 {
            before + tag_errors_in("tags"@, pieces.last())
        } else {
            before
        }
    }
}

/// The task after the pieces of a tag list were added as tags.
pub open spec fn tag_list_task(v: TaskView, pieces: Seq<Seq<char>>) -> TaskView
    decreases pieces.len(),
{
    if pieces.len() == 0 {
        v
    } else {
        let before = tag_list_task(v, pieces.drop_last());
        if trimmed(pieces.last()).len() > 0 {
            tag_task(before, pieces.last(), true)
        } else {
            before
        }
    }
}

/// The changes of the pieces of a tag list, in their order.
pub open spec fn tag_list_changes(pieces: Seq<Seq<char>>) -> Seq<Change>
    decreases pieces.len(),
{
    if pieces.len() == 0 {
        Seq::<Change>::empty()
    } else {
        let before = tag_list_changes(pieces.drop_last());
        if trimmed(pieces.last()).len() > 0 {
            before + tag_changes(pieces.last(), true)
        } else {
            before
        }
    }
}

/// What is said of a new task without a description.
pub open spec fn description_missing() -> FieldErrorView {
    field_error("description"@, "Description field is mandatory"@)
}

/// The errors of a line of directives.
pub open spec fn line_errors(line: Option<Seq<char>>, ws: Seq<Option<u128>>) -> Seq<
    FieldErrorView,
> {
    match line {
        Some(text) => match line_words(text) {
            Some(words) => directives_errors(words, ws),
            None => seq![unclosed_quote()],
        },
        None => Seq::empty(),
    }
}

/// The task after a line of directives.
pub open spec fn line_task(
    v: TaskView,
    line: Option<Seq<char>>,
    ws: Seq<Option<u128>>,
) -> TaskView {
    match line {
        Some(text) => match line_words(text) {
            Some(words) => directives_task(v, words, ws),
            None => v,
        },
        None => v,
    }
}

/// The changes that a line of directives stages.
pub open spec fn line_changes(
    v: TaskView,
    line: Option<Seq<char>>,
    ws: Seq<Option<u128>>,
) -> Seq<Change> {
    match line {
        Some(text) => match line_words(text) {
            Some(words) => directives_changes(v, words, ws),
            None => Seq::<Change>::empty(),
        },
        None => Seq::<Change>::empty(),
    }
}

/// The errors of the form for a new task: a blank description, the tags
/// that are refused, and the errors of the line of directives.
pub open spec fn new_task_errors(form: NewTaskView, ws: Seq<Option<u128>>) -> Seq<FieldErrorView> {
    (if trimmed(form.description).len() == 0 {
        seq![description_missing()]
    } else {
        Seq::empty()
    }) + tag_list_errors(tag_list_pieces(form.tags)) + line_errors(form.additional, ws)
}

/// The new task: described, pending, entered at the given moment, with the
/// tags and the project of the form, and changed by its line of directives.
pub open spec fn new_task_task(
    v: TaskView,
    form: NewTaskView,
    entry: Seq<char>,
    ws: Seq<Option<u128>>,
) -> TaskView {
    let begun = v.set("description"@, Some(form.description)).with_status_text("pending"@).set(
        "entry"@,
        Some(entry),
    );
    let tagged = tag_list_task(begun, tag_list_pieces(form.tags));
    let placed = match form.project {
        Some(project) => tagged.set("project"@, Some(project)),
        None => tagged,
    };
    line_task(placed, form.additional, ws)
}

/// The changes that a new task stages, in their order: the description, the
/// status `pending`, the entry time, the tags, the project, and what the
/// line of directives stages.
pub open spec fn new_task_changes(
    v: TaskView,
    form: NewTaskView,
    entry: Seq<char>,
    ws: Seq<Option<u128>>,
) -> Seq<Change> {
    let described = v.set("description"@, Some(form.description));
    let begun = described.with_status_text("pending"@).set("entry"@, Some(entry));
    let tagged = tag_list_task(begun, tag_list_pieces(form.tags));
    let placed = match form.project {
        Some(project) => tagged.set("project"@, Some(project)),
        None => tagged,
    };
    seq![("description"@, Some(form.description))] + status_changes_text(
        described.ended,
        "pending"@,
    ) + seq![("entry"@, Some(entry))] + tag_list_changes(tag_list_pieces(form.tags)) + (match form.project {
        Some(project) => seq![("project"@, Some(project))],
        None => Seq::<Change>::empty(),
    }) + line_changes(placed, form.additional, ws)
}

/// What staging a new task comes to, for the given text of its entry time:
/// the task shows the form, and there is a batch to commit exactly when the
/// form has no error. The batch is the one that was handed in, grown by
/// exactly the operations of the changes of the form.
pub open spec fn task_added(
    t0: taskchampion::Task,
    t1: taskchampion::Task,
    ops0: Seq<taskchampion::Operation>,
    r: Result<Batch, FormValidation>,
    form: NewTaskView,
    entry: Seq<char>,
    ws: Seq<Option<u128>>,
) -> bool {
    &&& task_view(t1) == new_task_task(task_view(t0), form, entry, ws)
    &&& task_id(t1) == task_id(t0)
    &&& match r {
        Ok(batch) => {
            &&& new_task_errors(form, ws).len() == 0
            &&& appended(ops0, batch.ops@)
            &&& recorded(
                t0,
                t1,
                ops0,
                batch.ops@,
                new_task_changes(task_view(t0), form, entry, ws),
            )
            &&& ops0.len() < batch.ops@.len()
            &&& is_batch(ops0) ==> is_batch(batch.ops@)
            &&& batch.hooks@.len() == 1
            &&& add_call(batch.hooks@[0], t1)
        },
        Err(v) => new_task_errors(form, ws).len() > 0 && v@ == verdict(new_task_errors(form, ws)),
    }
}

/// Adds the tags of the tag list of the form for a new task.
pub fn task_apply_tag_list(
    t: &mut taskchampion::Task,
    ops: &mut Vec<taskchampion::Operation>,
    validation_result: &mut FormValidation,
    tags: &Option<String>,
)
    ensures
        staged(
            *old(t),
            *final(t),
            old(ops)@,
            final(ops)@,
            old(validation_result)@,
            final(validation_result)@,
            tag_list_task(task_view(*old(t)), tag_list_pieces(text_of(*tags))),
            tag_list_errors(tag_list_pieces(text_of(*tags))),
        ),
        recorded(
            *old(t),
            *final(t),
            old(ops)@,
            final(ops)@,
            tag_list_changes(tag_list_pieces(text_of(*tags))),
        ),
{
    let ghost t0 = *t;
    let ghost ops0 = ops@;
    let ghost v0 = validation_result@;
    proof {
        lemma_pushed_one(v0, additional(Seq::empty()));
        lemma_appended(ops0, ops0, ops0);
        lemma_nothing_recorded(t0, ops0);
    }
    if let Some(list) = tags {
        if !trim(list.as_str()).is_empty() {
            let mut delimiters: Vec<char> = Vec::new();
            delimiters.push(' ');
            delimiters.push('+');
            delimiters.push('-');
            assert(delimiters@ =~= seq![' ', '+', '-']);
            let pieces = split(list.as_str(), &delimiters);
            let ghost all = text_views(pieces@);
            assert(all == tag_list_pieces(text_of(*tags)));
            assert(all.take(0) =~= Seq::<Seq<char>>::empty());
            let mut i: usize = 0;
            while i < pieces.len()
                invariant
                    i <= pieces@.len(),
                    all == text_views(pieces@),
                    staged(
                        t0,
                        *t,
                        ops0,
                        ops@,
                        v0,
                        validation_result@,
                        tag_list_task(task_view(t0), all.take(i as int)),
                        tag_list_errors(all.take(i as int)),
                    ),
                    recorded(t0, *t, ops0, ops@, tag_list_changes(all.take(i as int))),
                decreases pieces@.len() - i,
            {
                let ghost ops1 = ops@;
                let ghost t1 = *t;
                let tag = pieces[i].as_str();
                proof {
                    let next = all.take(i as int + 1);
                    assert(next.drop_last() =~= all.take(i as int));
                    assert(next.last() == pieces@[i as int]@);
                    lemma_pushed_all_joined(
                        v0,
                        tag_list_errors(all.take(i as int)),
                        tag_errors_in("tags"@, tag@),
                    );
                }
                if !trim(tag).is_empty() {
                    task_change_tag(t, ops, validation_result, "tags", tag, true);
                    proof {
                        lemma_appended(ops0, ops1, ops@);
                        lemma_recorded_joined(
                            t0,
                            t1,
                            *t,
                            ops0,
                            ops1,
                            ops@,
                            tag_list_changes(all.take(i as int)),
                            tag_changes(tag@, true),
                        );
                    }
                }
                i = i + 1;
            }
            assert(all.take(i as int) =~= all);
        }
    }
}

/// Stages a new task that was entered at the given moment: its description,
/// the status `pending`, the entry time, the tags and the project of the
/// form, and last its line of directives. Every part is tried, so that all
/// errors of the form come up together.
pub fn task_add_at(
    task: &NewTask,
    t: &mut taskchampion::Task,
    working_set: &taskchampion::WorkingSet,
    ops: Vec<taskchampion::Operation>,
    entry: Timestamp,
) -> (r: Result<Batch, FormValidation>)
    ensures
        task_added(
            *old(t),
            *final(t),
            ops@,
            r,
            task@,
            secs_text(timestamp_secs(entry)),
            working_set_entries(*working_set),
        ),
{
    let ghost ws = working_set_entries(*working_set);
    let ghost form = task@;
    let ghost ops0 = ops@;
    let ghost stamp = secs_text(timestamp_secs(entry));
    let mut ops = ops;
    let mut validation_result = FormValidation::default();
    let ghost fresh = validation_result@;
    proof {
        lemma_pushed_one(fresh, description_missing());
        lemma_status_names();
    }
    match task_set_description(t, task.description().to_owned(), &mut ops) {
        Ok(_) => {
            if trim(task.description()).is_empty() {
                validation_result.push(
                    FieldError::new(
                        TaskProperties::DESCRIPTION.as_str(),
                        "Description field is mandatory".to_owned(),
                    ),
                );
            }
        },
        Err(e) => {
            validation_result.push(
                FieldError::new(TaskProperties::DESCRIPTION.as_str(), store_error_message(&e)),
            );
        },
    }
    let ghost t1 = *t;
    let ghost ops1 = ops@;
    let ghost errors1 = if trimmed(form.description).len() == 0 {
        seq![description_missing()]
    } else {
        Seq::empty()
    };
    assert(validation_result@ == fresh.pushed_all(errors1));
    match task_set_status(t, taskchampion::Status::Pending, &mut ops) {
        Ok(_) => (),
        Err(e) => {
            validation_result.push(
                FieldError::new(TaskProperties::STATUS.as_str(), store_error_message(&e)),
            );
        },
    }
    let ghost t2 = *t;
    let ghost ops2 = ops@;
    match task_set_entry(t, Some(entry), &mut ops) {
        Ok(_) => (),
        Err(e) => {
            validation_result.push(
                FieldError::new(TaskProperties::ENTRY.as_str(), store_error_message(&e)),
            );
        },
    }
    let ghost t3 = *t;
    let ghost ops3 = ops@;
    proof {
        lemma_property_set(*old(t), t1, "description"@, Some(form.description));
        lemma_status_set(t1, t2, taskchampion::Status::Pending);
        lemma_status_text(task_view(t1), taskchampion::Status::Pending);
        lemma_property_set(t2, t3, "entry"@, Some(stamp));
        lemma_appended(ops0, ops1, ops2);
        lemma_appended(ops0, ops2, ops3);
    }
    let ghost c1 = seq![("description"@, Some(form.description))];
    let ghost c2 = status_changes_text(task_view(t1).ended, "pending"@);
    let ghost c3 = seq![("entry"@, Some(stamp))];
    let ghost c4 = tag_list_changes(tag_list_pieces(form.tags));
    proof {
        lemma_recorded_joined(*old(t), t1, t2, ops0, ops1, ops2, c1, c2);
        lemma_recorded_joined(*old(t), t2, t3, ops0, ops2, ops3, c1 + c2, c3);
    }
    task_apply_tag_list(t, &mut ops, &mut validation_result, task.tags());
    let ghost t4 = *t;
    let ghost ops4 = ops@;
    let ghost errors2 = tag_list_errors(tag_list_pieces(form.tags));
    proof {
        lemma_pushed_all_joined(fresh, errors1, errors2);
        lemma_appended(ops0, ops3, ops4);
        lemma_recorded_joined(*old(t), t3, t4, ops0, ops3, ops4, c1 + c2 + c3, c4);
        lemma_nothing_recorded(t4, ops4);
    }
    let ghost c5 = match form.project {
        Some(project) => seq![("project"@, Some(project))],
        None => Seq::<Change>::empty(),
    };
    if let Some(project) = task.project() {
        match task_set_value(
            t,
            TaskProperties::PROJECT.as_str(),
            Some(project.clone()),
            &mut ops,
        ) {
            Ok(_) => {
                proof {
                    lemma_property_set(t4, *t, "project"@, Some(project@));
                }
            },
            Err(e) => {
                validation_result.push(
                    FieldError::new(TaskProperties::PROJECT.as_str(), store_error_message(&e)),
                );
            },
        }
    }
    let ghost t5 = *t;
    let ghost ops5 = ops@;
    let ghost c6 = line_changes(task_view(t5), form.additional, ws);
    proof {
        lemma_recorded_joined(*old(t), t4, t5, ops0, ops4, ops5, c1 + c2 + c3 + c4, c5);
        lemma_nothing_recorded(t5, ops5);
        lemma_appended(ops4, ops4, ops4);
        lemma_appended(ops0, ops4, ops5);
        lemma_pushed_one(validation_result@, unclosed_quote());
        lemma_pushed_all_joined(fresh, errors1 + errors2, line_errors(form.additional, ws));
        assert(errors1 + errors2 + Seq::<FieldErrorView>::empty() =~= errors1 + errors2);
    }
    if let Some(additional) = task.additional() {
        parse_apply_additions(t, working_set, &mut ops, additional, &mut validation_result);
    }
    proof {
        lemma_appended(ops5, ops5, ops5);
        lemma_appended(ops0, ops5, ops@);
        lemma_recorded_joined(
            *old(t),
            t5,
            *t,
            ops0,
            ops5,
            ops@,
            c1 + c2 + c3 + c4 + c5,
            c6,
        );
        if is_batch(ops0) {
            lemma_batch_grows(ops0, ops@);
        }
    }
    if validation_result.is_success() {
        let mut hooks: Vec<HookCall> = Vec::new();
        hooks.push(HookCall { event: TaskEvent::OnAdd, old: None, new: task_clone(t) });
        Ok(Batch { ops, hooks })
    } else {
        Err(validation_result)
    }
}

/// Stages a new task, entered now. The entry time is the clock's; everything
/// else is as `task_add_at` states it.
pub fn task_add(
    task: &NewTask,
    t: &mut taskchampion::Task,
    working_set: &taskchampion::WorkingSet,
    ops: Vec<taskchampion::Operation>,
) -> (r: Result<Batch, FormValidation>)
    ensures
        exists|entry: Seq<char>|
            task_added(
                *old(t),
                *final(t),
                ops@,
                r,
                task@,
                entry,
                working_set_entries(*working_set),
            ),
{
    let entry = now();
    let ghost stamp = secs_text(timestamp_secs(entry));
    let ghost ops0 = ops@;
    let r = task_add_at(task, t, working_set, ops, entry);
    assert(task_added(*old(t), *t, ops0, r, task@, stamp, working_set_entries(*working_set)));
    r
}

/// What staging the change of a task comes to: the task shows the line of
/// directives, and there is a batch to commit exactly when the line has no
/// error. The batch holds the undo marker and then exactly the operations
/// of the changes of the line.
pub open spec fn task_modified(
    t0: taskchampion::Task,
    t1: taskchampion::Task,
    r: Result<Batch, FormValidation>,
    line: Seq<char>,
    ws: Seq<Option<u128>>,
) -> bool {
    &&& task_view(t1) == line_task(task_view(t0), Some(line), ws)
    &&& task_id(t1) == task_id(t0)
    &&& line_words(line) is None ==> t1 == t0
    &&& match r {
        Ok(batch) => {
            &&& line_errors(Some(line), ws).len() == 0
            &&& is_batch(batch.ops@)
            &&& batch_of(
                batch.ops@,
                stamped_trace(
                    task_stamped(t0),
                    task_id(t0),
                    line_changes(task_view(t0), Some(line), ws),
                ),
            )
            &&& task_view(t1) != task_view(t0) ==> batch.ops@.len() > 1
            &&& batch.hooks@.len() == 1
            &&& modify_call(batch.hooks@[0], t0, t1)
        },
        Err(v) => line_errors(Some(line), ws).len() > 0 && v@ == verdict(
            line_errors(Some(line), ws),
        ),
    }
}

/// Stages the change of a task by a line of directives. The batch opens
/// with the undo marker; it is handed out only if no directive was refused,
/// so that a line is committed as a whole or not at all.
pub fn run_modify_command(
    t: &mut taskchampion::Task,
    working_set: &taskchampion::WorkingSet,
    cmd_text: &str,
) -> (r: Result<Batch, FormValidation>)
    ensures
        task_modified(*old(t), *final(t), r, cmd_text@, working_set_entries(*working_set)),
{
    let mut validation_result = FormValidation::default();
    let mut ops = begin_batch();
    let ghost ops0 = ops@;
    let old_task = task_clone(t);
    proof {
        lemma_pushed_one(validation_result@, unclosed_quote());
    }
    parse_apply_additions(
        t,
        working_set,
        &mut ops,
        &cmd_text.to_owned(),
        &mut validation_result,
    );
    proof {
        lemma_appended(ops0, ops0, ops0);
        lemma_batch_grows(ops0, ops@);
        let changes = line_changes(
            task_view(*old(t)),
            Some(cmd_text@),
            working_set_entries(*working_set),
        );
        lemma_nothing_recorded(*old(t), ops0);
        lemma_batch_records(*old(t), *t, ops0, ops@, Seq::empty(), changes);
        lemma_trace_len(task_stamped(*old(t)), task_id(*old(t)), changes);
        assert(shown_all(ops@).len() == ops@.len());
    }
    if validation_result.is_success() {
        let mut hooks: Vec<HookCall> = Vec::new();
        hooks.push(
            HookCall { event: TaskEvent::OnModify, old: Some(old_task), new: task_clone(t) },
        );
        Ok(Batch { ops, hooks })
    } else {
        Err(validation_result)
    }
}

/// The task after its status was changed: it rests, and has the status that
/// the text names.
pub open spec fn status_changed(v: TaskView, status: Seq<char>) -> TaskView {
    v.stopped().with_status_text(status)
}

/// The changes of a change of status: the timer of a task that runs is
/// stopped, then the status is set.
pub open spec fn status_change_changes(v: TaskView, status: Seq<char>) -> Seq<Change> {
    (if v.active {
        seq![("start"@, None::<Seq<char>>)]
    } else {
        Seq::<Change>::empty()
    }) + status_changes_text(v.stopped().ended, status)
}

/// Stages a change of status. A task that runs is stopped first. The batch
/// holds the undo marker and then exactly the operations of these changes.
pub fn change_task_status(t: &mut taskchampion::Task, status: &str) -> (r: Result<
    Batch,
    taskchampion::Error,
>)
    ensures
        r matches Ok(batch) && {
            &&& task_view(*final(t)) == status_changed(task_view(*old(t)), status@)
            &&& task_id(*final(t)) == task_id(*old(t))
            &&& is_batch(batch.ops@)
            &&& batch_of(
                batch.ops@,
                stamped_trace(
                    task_stamped(*old(t)),
                    task_id(*old(t)),
                    status_change_changes(task_view(*old(t)), status@),
                ),
            )
            &&& batch.ops@.len() > 1
            &&& batch.hooks@.len() == 1
            &&& modify_call(batch.hooks@[0], *old(t), *final(t))
        },
{
    let mut ops = begin_batch();
    let ghost ops0 = ops@;
    let old_task = task_clone(t);
    let task_status = convert_task_status(status);
    proof {
        lemma_appended(ops0, ops0, ops0);
        lemma_nothing_recorded(*old(t), ops0);
    }
    if task_is_active(t) {
        match task_stop(t, &mut ops) {
            Ok(_) => {
                proof {
                    lemma_property_set(*old(t), *t, "start"@, None);
                }
            },
            Err(e) => {
                return Err(e);
            },
        }
    }
    let ghost t1 = *t;
    let ghost ops1 = ops@;
    assert(task_view(t1) == task_view(*old(t)).stopped());
    match task_set_status(t, task_status, &mut ops) {
        Ok(_) => {
            proof {
                lemma_status_set(t1, *t, task_status);
                lemma_status_text(task_view(t1), task_status);
                lemma_appended(ops0, ops1, ops@);
                lemma_batch_grows(ops0, ops@);
                let stop = if task_view(*old(t)).active {
                    seq![("start"@, None::<Seq<char>>)]
                } else {
                    Seq::<Change>::empty()
                };
                let set = status_changes_text(task_view(t1).ended, status@);
                lemma_recorded_joined(*old(t), t1, *t, ops0, ops1, ops@, stop, set);
                lemma_batch_records(*old(t), *t, ops0, ops@, Seq::empty(), stop + set);
            }
        },
        Err(e) => {
            return Err(e);
        },
    }
    let mut hooks: Vec<HookCall> = Vec::new();
    hooks.push(HookCall { event: TaskEvent::OnModify, old: Some(old_task), new: task_clone(t) });
    Ok(Batch { ops, hooks })
}

/// The tasks that run, the target left out, in the order of the list.
pub open spec fn others_running(tasks: Seq<taskchampion::Task>, target: u128) -> Seq<
    taskchampion::Task,
>
    decreases tasks.len(),
{
    if tasks.len() == 0 {
        Seq::empty()
    } else {
        let before = others_running(tasks.drop_last(), target);
        if task_view(tasks.last()).active && task_id(tasks.last()) != target {
            before.push(tasks.last())
        } else {
            before
        }
    }
}

/// A call that tells of a task that was stopped.
pub open spec fn stop_call(call: HookCall, task: taskchampion::Task) -> bool {
    &&& call.event is OnModify
    &&& call.old matches Some(o) && same_task(o, task)
    &&& task_view(call.new) == task_view(task).stopped()
    &&& task_id(call.new) == task_id(task)
}

/// The calls that tell of the stopped tasks, one for each and in their
/// order.
pub open spec fn stop_calls(calls: Seq<HookCall>, stopped: Seq<taskchampion::Task>) -> bool {
    &&& calls.len() == stopped.len()
    &&& forall|i: int| 0 <= i < calls.len() ==> stop_call(#[trigger] calls[i], stopped[i])
}

/// The target after the timer was toggled: `stop` lets it rest, `start`
/// lets it run, any other request leaves it as it is.
pub open spec fn toggled(v: TaskView, request: Seq<char>) -> TaskView {
    if request == "stop"@ {
        v.stopped()
    } else if request == "start"@ {
        v.started()
    } else {
        v
    }
}

/// The operations that stop the tasks that run, the target left out, in the
/// order of the list.
pub open spec fn sweep_trace(tasks: Seq<taskchampion::Task>, target: u128) -> Seq<Shown>
    decreases tasks.len(),
{
    if tasks.len() == 0 {
        Seq::<Shown>::empty()
    } else {
        let before = sweep_trace(tasks.drop_last(), target);
        if task_view(tasks.last()).active && task_id(tasks.last()) != target {
            before + stamped_trace(
                task_stamped(tasks.last()),
                task_id(tasks.last()),
                seq![("start"@, None::<Seq<char>>)],
            )
        } else {
            before
        }
    }
}

/// The change of the target before the other tasks are stopped.
pub open spec fn toggle_stop_changes(v: TaskView, request: Seq<char>) -> Seq<Change> {
    if request == "stop"@ && v.active {
        seq![("start"@, None::<Seq<char>>)]
    } else {
        Seq::<Change>::empty()
    }
}

/// The change of the target after the other tasks were stopped.
pub open spec fn toggle_start_changes(v: TaskView, request: Seq<char>) -> Seq<Change> {
    if request == "start"@ {
        start_changes(v.active)
    } else {
        Seq::<Change>::empty()
    }
}

/// The operations of a toggled timer, in their order: the stop of the
/// target, the stop of every other task that runs, the start of the target.
pub open spec fn toggle_trace(
    t: taskchampion::Task,
    tasks: Seq<taskchampion::Task>,
    request: Seq<char>,
) -> Seq<Shown> {
    let stop = toggle_stop_changes(task_view(t), request);
    stamped_trace(task_stamped(t), task_id(t), stop) + sweep_trace(tasks, task_id(t))
        + stamped_trace(
        task_stamped(t) || stop.len() > 0,
        task_id(t),
        toggle_start_changes(task_view(t), request),
    )
}

/// Stopping the others takes at least one operation for each of them.
pub proof fn lemma_sweep_len(tasks: Seq<taskchampion::Task>, target: u128)
    ensures
        sweep_trace(tasks, target).len() >= others_running(tasks, target).len(),
    decreases tasks.len(),
{
    if tasks.len() > 0 {
        lemma_sweep_len(tasks.drop_last(), target);
        lemma_trace_len(
            task_stamped(tasks.last()),
            task_id(tasks.last()),
            seq![("start"@, None::<Seq<char>>)],
        );
    }
}

/// The batch of a toggled timer and whether the target runs afterwards.
pub struct Toggled {
    pub batch: Batch,
    pub active: bool,
}

/// Toggles the timer of the target. A target that runs is stopped on
/// request. Whatever is asked, every other task that runs is stopped, so
/// that at most one task runs; the target is started after that. The calls
/// tell of each stopped task and, last, of the target; the batch holds the
/// undo marker and then exactly the operations of these changes, none on
/// any other task.
pub fn toggle_task_active(
    t: &mut taskchampion::Task,
    all_tasks: &Vec<taskchampion::Task>,
    task_status: &str,
) -> (r: Result<Toggled, taskchampion::Error>)
    ensures
        r matches Ok(out) && {
            &&& task_view(*final(t)) == toggled(task_view(*old(t)), task_status@)
            &&& task_id(*final(t)) == task_id(*old(t))
            &&& out.active == toggled(task_view(*old(t)), task_status@).active
            &&& is_batch(out.batch.ops@)
            &&& batch_of(out.batch.ops@, toggle_trace(*old(t), all_tasks@, task_status@))
            &&& out.batch.ops@.len() >= 1 + others_running(all_tasks@, task_id(*old(t))).len() + (
            if task_view(*final(t)) != task_view(*old(t)) {
                1int
            } else {
                0int
            })
            &&& out.batch.ops@.len() >= out.batch.hooks@.len()
            &&& out.batch.hooks@.len() > 0
            &&& stop_calls(
                out.batch.hooks@.drop_last(),
                others_running(all_tasks@, task_id(*old(t))),
            )
            &&& modify_call(out.batch.hooks@.last(), *old(t), *final(t))
        },
{
    let mut ops = begin_batch();
    let ghost ops0 = ops@;
    let old_task = task_clone(t);
    let target = task_uuid(t);
    let mut changed_tasks: Vec<HookCall> = Vec::new();
    proof {
        lemma_appended(ops0, ops0, ops0);
        reveal_strlit("stop");
        reveal_strlit("start");
        assert("stop"@.len() == 4);
        assert("start"@.len() == 5);
        lemma_nothing_recorded(*old(t), ops0);
    }
    let ghost id = task_id(*old(t));
    let ghost stop = toggle_stop_changes(task_view(*old(t)), task_status@);
    let ghost start = toggle_start_changes(task_view(*old(t)), task_status@);
    let ghost stopped = stamped_trace(task_stamped(*old(t)), id, stop);
    if same_text(task_status, "stop") && task_is_active(t) {
        match task_stop(t, &mut ops) {
            Ok(_) => {
                proof {
                    lemma_property_set(*old(t), *t, "start"@, None);
                }
            },
            Err(e) => {
                return Err(e);
            },
        }
    }
    let ghost t1 = *t;
    let ghost ops1 = ops@;
    assert(all_tasks@.take(0) =~= Seq::<taskchampion::Task>::empty());
    proof {
        lemma_batch_records(*old(t), t1, ops0, ops1, Seq::empty(), stop);
        assert(Seq::<Shown>::empty() + stopped =~= stopped);
        assert(stopped + sweep_trace(all_tasks@.take(0), target) =~= stopped);
    }
    let mut i: usize = 0;
    while i < all_tasks.len()
        invariant
            i <= all_tasks@.len(),
            *t == t1,
            target == id,
            appended(ops0, ops@),
            batch_of(ops@, stopped + sweep_trace(all_tasks@.take(i as int), target)),
            ops@.len() >= 1 + changed_tasks@.len(),
            stop_calls(changed_tasks@, others_running(all_tasks@.take(i as int), target)),
        decreases all_tasks@.len() - i,
    {
        let ghost ops2 = ops@;
        let ghost calls = changed_tasks@;
        proof {
            let next = all_tasks@.take(i as int + 1);
            assert(next.drop_last() =~= all_tasks@.take(i as int));
            assert(next.last() == all_tasks@[i as int]);
        }
        let single_task = &all_tasks[i];
        if task_is_active(single_task) && task_uuid(single_task) != target {
            let old = task_clone(single_task);
            let mut new = task_clone(single_task);
            let ghost cloned = new;
            match task_stop(&mut new, &mut ops) {
                Ok(_) => {
                    proof {
                        lemma_property_set(cloned, new, "start"@, None);
                        assert(task_view(cloned) == task_view(*single_task));
                        lemma_appended(ops0, ops2, ops@);
                        lemma_batch_records(
                            cloned,
                            new,
                            ops2,
                            ops@,
                            stopped + sweep_trace(all_tasks@.take(i as int), target),
                            seq![("start"@, None::<Seq<char>>)],
                        );
                        assert(stopped + sweep_trace(all_tasks@.take(i as int), target)
                            + stamped_trace(
                            task_stamped(cloned),
                            task_id(cloned),
                            seq![("start"@, None::<Seq<char>>)],
                        ) =~= stopped + sweep_trace(all_tasks@.take(i as int + 1), target));
                    }
                },
                Err(e) => {
                    return Err(e);
                },
            }
            changed_tasks.push(HookCall { event: TaskEvent::OnModify, old: Some(old), new });
            proof {
                let stopped = others_running(all_tasks@.take(i as int + 1), target);
                assert forall|j: int| 0 <= j < changed_tasks@.len() implies stop_call(
                    #[trigger] changed_tasks@[j],
                    stopped[j],
                ) by {
                    if j < calls.len() {
                        assert(changed_tasks@[j] == calls[j]);
                    }
                }
            }
        }
        i = i + 1;
    }
    assert(all_tasks@.take(i as int) =~= all_tasks@);
    let ghost ops3 = ops@;
    proof {
        lemma_nothing_recorded(t1, ops3);
    }
    if same_text(task_status, "start") {
        match task_start(t, &mut ops) {
            Ok(_) => {
                proof {
                    lemma_started(t1, *t);
                    lemma_appended(ops0, ops3, ops@);
                }
            },
            Err(e) => {
                return Err(e);
            },
        }
    }
    proof {
        lemma_batch_grows(ops0, ops@);
        lemma_batch_records(
            t1,
            *t,
            ops3,
            ops@,
            stopped + sweep_trace(all_tasks@, target),
            start,
        );
        lemma_trace_len(task_stamped(*old(t)), id, stop);
        lemma_trace_len(task_stamped(t1), id, start);
        lemma_sweep_len(all_tasks@, target);
        assert(shown_all(ops@).len() == ops@.len());
    }
    let ghost swept = changed_tasks@;
    changed_tasks.push(
        HookCall { event: TaskEvent::OnModify, old: Some(old_task), new: task_clone(t) },
    );
    assert(changed_tasks@.drop_last() =~= swept);
    let active = task_is_active(t);
    Ok(Toggled { batch: Batch { ops, hooks: changed_tasks }, active })
}

/// The identity of a task as the task list writes it.
#[derive(Debug, Hash, PartialEq, Eq)]
pub struct TaskUUID(String);

impl TaskUUID {
    pub fn new(uuid: String) -> (r: TaskUUID)
        ensures
            r@ == uuid@,
    {
        TaskUUID(uuid)
    }

    pub fn as_str(&self) -> (r: &str)
        ensures
            r@ == self@,
    {
        self.0.as_str()
    }
}

impl View for TaskUUID {
    type V = Seq<char>;

    closed spec fn view(&self) -> Seq<char> {
        self.0@
    }
}

} // verus!
