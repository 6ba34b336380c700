//! What holds of every line of directives.

use crate::backend::champion::{
    dep_key, is_user_tag, line_words, stamped_trace, tag_key, task_id, task_stamped, uuid_parsed,
    Shown,
};
use crate::backend::model::{task_view, TaskView};
use crate::common::errors::FieldErrorView;
use crate::endpoints::tasks::task_modify::{
    additional, dep_is_removal, dep_item_errors, dep_item_task, dep_not_found, dep_reference,
    depends_errors, depends_pieces, depends_task, resolve_dependency, tag_errors, tag_task,
};
use crate::endpoints::tasks::{
    directive_errors, directive_kind, directive_of, directive_task, directives_errors,
    directives_task, forbidden_text, is_forbidden_name, line_errors, line_task, sweep_trace,
    verdict, Directive, DirectiveKind,
};
use crate::text::{
    all_ascii, is_whitespace, lemma_first_split, lemma_split_whole, lowercased, parsed_index,
    trim_end, trim_start, trimmed,
};
use vstd::prelude::*;

verus! {

/// The errors of a run of words are those of the run without one word and
/// those of that word.
proof fn lemma_count_without(words: Seq<Seq<char>>, j: int, ws: Seq<Option<u128>>)
    requires
        0 <= j < words.len(),
    ensures
        directives_errors(words, ws).len() == directives_errors(words.remove(j), ws).len()
            + directive_errors(directive_of(words[j]), ws).len(),
    decreases words.len(),
{
    if j == words.len() - 1 {
        assert(words.remove(j) =~= words.drop_last());
    } else {
        let head = words.drop_last();
        lemma_count_without(head, j, ws);
        assert(words.remove(j).drop_last() =~= head.remove(j));
        assert(words.remove(j).last() == words.last());
    }
}

/// The number of errors of a line does not depend on the order of its
/// words: two runs of the same words give as many errors.
pub proof fn lemma_error_count_order_free(
    a: Seq<Seq<char>>,
    b: Seq<Seq<char>>,
    ws: Seq<Option<u128>>,
)
    requires
        a.to_multiset() == b.to_multiset(),
    ensures
        directives_errors(a, ws).len() == directives_errors(b, ws).len(),
    decreases a.len(),
{
    a.to_multiset_ensures();
    b.to_multiset_ensures();
    if a.len() == 0 {
        assert(b.len() == 0);
    } else {
        let x = a.last();
        let head = a.drop_last();
        head.to_multiset_ensures();
        assert(head.push(x) =~= a);
        assert(a.to_multiset() =~= head.to_multiset().insert(x));
        assert(b.to_multiset().count(x) > 0);
        assert(b.contains(x));
        let j = choose|j: int| 0 <= j < b.len() && b[j] == x;
        let rest = b.remove(j);
        assert(rest.to_multiset() =~= b.to_multiset().remove(x));
        assert(head.to_multiset() =~= a.to_multiset().remove(x));
        lemma_error_count_order_free(head, rest, ws);
        lemma_count_without(b, j, ws);
    }
}

/// A directive on a forbidden name is refused whatever stands beside it in
/// the line: its error is among the errors, and the line is not accepted.
pub proof fn lemma_forbidden_refused(words: Seq<Seq<char>>, i: int, ws: Seq<Option<u128>>)
    requires
        0 <= i < words.len(),
        directive_kind(directive_of(words[i])) == DirectiveKind::Forbidden,
    ensures
        directives_errors(words, ws).contains(
            additional(forbidden_text(directive_of(words[i]).key)),
        ),
        !verdict(directives_errors(words, ws)).success,
    decreases words.len(),
{
    let error = additional(forbidden_text(directive_of(words[i]).key));
    let before = directives_errors(words.drop_last(), ws);
    let last = directive_errors(directive_of(words.last()), ws);
    if i == words.len() - 1 {
        assert(last[0] == error);
        assert((before + last)[before.len() as int] == error);
    } else {
        lemma_forbidden_refused(words.drop_last(), i, ws);
        let k = choose|k: int| 0 <= k < before.len() && before[k] == error;
        assert((before + last)[k] == error);
    }
}

/// A line is applied word by word: what two runs of words come to, one
/// after the other, is what the joined run comes to. No word is skipped for
/// an error before it.
pub proof fn lemma_directives_joined(
    v: TaskView,
    a: Seq<Seq<char>>,
    b: Seq<Seq<char>>,
    ws: Seq<Option<u128>>,
)
    ensures
        directives_task(v, a + b, ws) == directives_task(directives_task(v, a, ws), b, ws),
        directives_errors(a + b, ws) == directives_errors(a, ws) + directives_errors(b, ws),
    decreases b.len(),
{
    if b.len() == 0 {
        assert(a + b =~= a);
        assert(directives_errors(a, ws) + directives_errors(b, ws) =~= directives_errors(a, ws));
    } else {
        lemma_directives_joined(v, a, b.drop_last(), ws);
        assert((a + b).drop_last() =~= a + b.drop_last());
        assert((a + b).last() == b.last());
        assert(directives_errors(a + b, ws) =~= directives_errors(a, ws) + directives_errors(
            b,
            ws,
        ));
    }
}

/// A tag that is added and then removed leaves a task that did not have it
/// as it was, and neither step is an error.
pub proof fn lemma_tag_added_then_removed(v: TaskView, name: Seq<char>)
    requires
        is_user_tag(name),
        !v.attrs.contains_key(tag_key(name)),
    ensures
        tag_task(tag_task(v, name, true), name, false) == v,
        tag_errors(name).len() == 0,
{
    reveal_strlit("tag_");
    reveal_strlit("modified");
    reveal_strlit("end");
    reveal_strlit("start");
    let key = tag_key(name);
    assert(key.len() == 4 + name.len());
    assert(key[0] == 't');
    assert("modified"@[0] == 'm');
    assert("end"@.len() == 3);
    assert("start"@[0] == 's');
    let added = v.set(key, Some(Seq::<char>::empty()));
    assert(added.set(key, None).attrs =~= v.attrs);
}

/// A status directive is never refused: whatever its value, the value is
/// the status of the task afterwards.
pub proof fn lemma_status_taken(v: TaskView, d: Directive, ws: Seq<Option<u128>>)
    requires
        directive_kind(d) == DirectiveKind::Status,
    ensures
        directive_errors(d, ws).len() == 0,
        d.value matches Some(value) ==> directive_task(v, d, ws).attrs.contains_key("status"@)
            && directive_task(v, d, ws).attrs["status"@] == value,
        d.value is None ==> directive_task(v, d, ws) == v,
{
}

/// Whether every error of a run stands under the field `additional`.
pub open spec fn all_additional(errors: Seq<FieldErrorView>) -> bool {
    forall|i: int| 0 <= i < errors.len() ==> (#[trigger] errors[i]).field == "additional"@
}

/// Two runs of errors under `additional` are one when joined.
proof fn lemma_additional_joined(a: Seq<FieldErrorView>, b: Seq<FieldErrorView>)
    requires
        all_additional(a),
        all_additional(b),
    ensures
        all_additional(a + b),
{
    assert forall|i: int| 0 <= i < (a + b).len() implies (#[trigger] (a + b)[i]).field
        == "additional"@ by {
        if i < a.len() {
            assert((a + b)[i] == a[i]);
        } else {
            assert((a + b)[i] == b[i - a.len()]);
        }
    }
}

/// The errors of the pieces of a dependency list stand under the field
/// `additional`.
proof fn lemma_depends_errors_field(pieces: Seq<Seq<char>>, ws: Seq<Option<u128>>)
    ensures
        all_additional(depends_errors(pieces, ws)),
    decreases pieces.len(),
{
    if pieces.len() > 0 {
        lemma_depends_errors_field(pieces.drop_last(), ws);
        let item = trimmed(pieces.last());
        if item.len() > 0 {
            lemma_additional_joined(
                depends_errors(pieces.drop_last(), ws),
                dep_item_errors(item, ws),
            );
        }
    }
}

/// Every error of a directive stands under the field `additional`, and a
/// directive other than a dependency list has one error at most.
pub proof fn lemma_directive_errors_field(d: Directive, ws: Seq<Option<u128>>)
    ensures
        all_additional(directive_errors(d, ws)),
        directive_kind(d) != DirectiveKind::Depends ==> directive_errors(d, ws).len() <= 1,
{
    lemma_depends_errors_field(depends_pieces(d.value), ws);
}

/// Every error of a line of directives stands under the field `additional`.
pub proof fn lemma_directives_errors_field(words: Seq<Seq<char>>, ws: Seq<Option<u128>>)
    ensures
        all_additional(directives_errors(words, ws)),
    decreases words.len(),
{
    if words.len() > 0 {
        lemma_directives_errors_field(words.drop_last(), ws);
        lemma_directive_errors_field(directive_of(words.last()), ws);
        lemma_additional_joined(
            directives_errors(words.drop_last(), ws),
            directive_errors(directive_of(words.last()), ws),
        );
    }
}

/// A text of small letters is its own lower case, and nothing of it is
/// trimmed.
proof fn lemma_small_letters(name: Seq<char>)
    requires
        forall|i: int| 0 <= i < name.len() ==> 'a' <= #[trigger] name[i] && name[i] <= 'z',
    ensures
        lowercased(name) == name,
        trimmed(name) == name,
{
    assert(all_ascii(name));
    assert(lowercased(name) =~= name);
    if name.len() > 0 {
        assert(!is_whitespace(name[0]));
        assert(!is_whitespace(name.last()));
    }
    assert(trim_start(name) == name);
    assert(trim_end(name) == name);
}

/// A directive on one of the names that the store keeps by itself is
/// forbidden, whatever its value.
pub proof fn lemma_forbidden_names(d: Directive)
    requires
        is_forbidden_name(d.key),
    ensures
        directive_kind(d) == DirectiveKind::Forbidden,
{
    reveal_strlit("start");
    reveal_strlit("stop");
    reveal_strlit("done");
    reveal_strlit("end");
    reveal_strlit("modified");
    reveal_strlit("depends");
    reveal_strlit("description");
    reveal_strlit("priority");
    reveal_strlit("entry");
    reveal_strlit("wait");
    reveal_strlit("due");
    reveal_strlit("status");
    reveal_strlit("recur");
    let name = d.key;
    assert(name.len() > 0);
    assert(name[0] == 's' || name[0] == 'd' || name[0] == 'e' || name[0] == 'm');
    lemma_small_letters(name);
    assert("depends"@.len() == 7);
    assert("description"@.len() == 11);
    assert("status"@.len() == 6);
    assert("priority"@[0] == 'p');
    assert("entry"@[1] == 'n' && "end"@[1] == 'n' && "entry"@.len() == 5);
    assert("wait"@[0] == 'w');
    assert("due"@[1] == 'u');
    assert("recur"@[0] == 'r');
    assert("start"@[1] == 't' && "stop"@[1] == 't' && "done"@[1] == 'o');
}

/// A word of a key, a colon and a value is read as that key and that value,
/// where the key holds no colon and neither has whitespace at its ends.
pub proof fn lemma_word_read(key: Seq<char>, value: Seq<char>)
    requires
        !key.contains(':'),
        trimmed(key) == key,
        trimmed(value) == value,
    ensures
        directive_of(key.push(':') + value) == (Directive { key, value: Some(value) }),
{
    lemma_first_split(key.push(':') + value, key, value, ':');
}

/// The kind of a directive whose key is one of the names in small letters
/// that have a handler of their own, whatever its value.
pub proof fn lemma_named_kinds(d: Directive)
    ensures
        d.key == "depends"@ ==> directive_kind(d) == DirectiveKind::Depends,
        d.key == "description"@ ==> directive_kind(d) == DirectiveKind::Description,
        d.key == "priority"@ ==> directive_kind(d) == DirectiveKind::Priority,
        d.key == "entry"@ || d.key == "wait"@ || d.key == "due"@ ==> directive_kind(d)
            == DirectiveKind::Timestamp,
        d.key == "status"@ ==> directive_kind(d) == DirectiveKind::Status,
        d.key == "recur"@ ==> directive_kind(d) == DirectiveKind::Recur,
{
    reveal_strlit("depends");
    reveal_strlit("description");
    reveal_strlit("priority");
    reveal_strlit("entry");
    reveal_strlit("wait");
    reveal_strlit("due");
    reveal_strlit("status");
    reveal_strlit("recur");
    let name = d.key;
    if name == "depends"@ || name == "description"@ || name == "priority"@ || name == "entry"@
        || name == "wait"@ || name == "due"@ || name == "status"@ || name == "recur"@ {
        assert(name.len() > 0);
        assert(name[0] == 'd' || name[0] == 'p' || name[0] == 'e' || name[0] == 'w' || name[0]
            == 's' || name[0] == 'r');
        lemma_small_letters(name);
        assert("depends"@.len() == 7);
        assert("description"@.len() == 11);
        assert("priority"@.len() == 8);
        assert("status"@.len() == 6);
        assert("entry"@[0] == 'e' && "recur"@[0] == 'r' && "entry"@.len() == 5);
        assert("wait"@.len() == 4);
        assert("due"@.len() == 3);
    }
}

/// A directive on `status` with a value is taken, whatever the value: it
/// is no error, and the task has that status afterwards.
pub proof fn lemma_status_word(v: TaskView, value: Seq<char>, ws: Seq<Option<u128>>)
    requires
        trimmed(value) == value,
    ensures
        directive_of("status:"@ + value) == (Directive { key: "status"@, value: Some(value) }),
        directive_errors(directive_of("status:"@ + value), ws).len() == 0,
        directive_task(v, directive_of("status:"@ + value), ws).attrs.contains_key("status"@),
        directive_task(v, directive_of("status:"@ + value), ws).attrs["status"@] == value,
{
    reveal_strlit("status:");
    reveal_strlit("status");
    assert forall|i: int| 0 <= i < "status"@.len() implies "status"@[i] != ':' by {}
    assert(!"status"@.contains(':'));
    assert("status:"@ =~= "status"@.push(':'));
    assert("status:"@ + value =~= "status"@.push(':') + value);
    lemma_small_letters("status"@);
    lemma_word_read("status"@, value);
    let d = Directive { key: "status"@, value: Some(value) };
    lemma_named_kinds(d);
    lemma_status_taken(v, d, ws);
}

/// A directive on `depends` with one reference without a sign adds the
/// dependency on the task that the reference names, and is exactly one
/// error, which quotes the reference, if it names none.
pub proof fn lemma_depends_word(v: TaskView, reference: Seq<char>, ws: Seq<Option<u128>>)
    requires
        reference.len() > 0,
        !reference.contains(','),
        trimmed(reference) == reference,
        reference[0] != '+' && reference[0] != '-',
    ensures
        directive_of("depends:"@ + reference) == (Directive {
            key: "depends"@,
            value: Some(reference),
        }),
        directive_task(v, directive_of("depends:"@ + reference), ws) == match resolve_dependency(
            reference,
            ws,
        ) {
            Some(id) => v.set(dep_key(id), Some(Seq::<char>::empty())),
            None => v,
        },
        directive_errors(directive_of("depends:"@ + reference), ws) == match resolve_dependency(
            reference,
            ws,
        ) {
            Some(_) => Seq::<FieldErrorView>::empty(),
            None => seq![additional(dep_not_found(reference))],
        },
{
    reveal_strlit("depends:");
    reveal_strlit("depends");
    assert forall|i: int| 0 <= i < "depends"@.len() implies "depends"@[i] != ':' by {}
    assert(!"depends"@.contains(':'));
    assert("depends:"@ + reference =~= "depends"@.push(':') + reference);
    lemma_small_letters("depends"@);
    lemma_word_read("depends"@, reference);
    let d = Directive { key: "depends"@, value: Some(reference) };
    lemma_named_kinds(d);
    lemma_single_reference(v, reference, ws);
}

/// The word `start:now` is a directive on the name `start`.
pub proof fn lemma_start_now_read()
    ensures
        directive_of("start:now"@) == (Directive { key: "start"@, value: Some("now"@) }),
        is_forbidden_name(directive_of("start:now"@).key),
{
    reveal_strlit("start:now");
    reveal_strlit("start");
    reveal_strlit("now");
    let word = "start:now"@;
    assert forall|i: int| 0 <= i < "start"@.len() implies "start"@[i] != ':' by {}
    assert(!"start"@.contains(':'));
    assert(word =~= "start"@.push(':') + "now"@);
    lemma_first_split(word, "start"@, "now"@, ':');
    lemma_small_letters("start"@);
    lemma_small_letters("now"@);
}

/// A line with a directive on a forbidden name is refused, whatever else
/// the line holds and wherever the directive stands in it.
pub proof fn lemma_forbidden_line_refused(
    line: Seq<char>,
    words: Seq<Seq<char>>,
    i: int,
    ws: Seq<Option<u128>>,
)
    requires
        line_words(line) == Some(words),
        0 <= i < words.len(),
        is_forbidden_name(directive_of(words[i]).key),
    ensures
        line_errors(Some(line), ws).contains(
            additional(forbidden_text(directive_of(words[i]).key)),
        ),
        !verdict(line_errors(Some(line), ws)).success,
{
    lemma_forbidden_names(directive_of(words[i]));
    lemma_forbidden_refused(words, i, ws);
}

/// The words `+name` and `-name`, for a name that a user may give a tag and
/// that holds no colon, are read as the directives that add and remove the
/// tag.
pub proof fn lemma_tag_words_read(name: Seq<char>)
    requires
        is_user_tag(name),
        name[0] != ':',
    ensures
        directive_of(seq!['+'] + name) == (Directive { key: seq!['+'] + name, value: None }),
        directive_of(seq!['-'] + name) == (Directive { key: seq!['-'] + name, value: None }),
        directive_kind(directive_of(seq!['+'] + name)) == DirectiveKind::TagAdd,
        directive_kind(directive_of(seq!['-'] + name)) == DirectiveKind::TagRemove,
        (seq!['+'] + name).drop_first() == name,
        (seq!['-'] + name).drop_first() == name,
{
    let add = seq!['+'] + name;
    let remove = seq!['-'] + name;
    assert(add.drop_first() =~= name);
    assert(remove.drop_first() =~= name);
    assert(!is_whitespace(name.last()));
    assert(add.last() == name.last() && remove.last() == name.last());
    assert(!is_whitespace('+') && !is_whitespace('-'));
    assert(trim_start(add) == add && trim_end(add) == add);
    assert(trim_start(remove) == remove && trim_end(remove) == remove);
    assert(!add.contains(':')) by {
        if add.contains(':') {
            let i = choose|i: int| 0 <= i < add.len() && add[i] == ':';
            assert(i >= 1 && add[i] == name[i - 1]);
        }
    }
    assert(!remove.contains(':')) by {
        if remove.contains(':') {
            let i = choose|i: int| 0 <= i < remove.len() && remove[i] == ':';
            assert(i >= 1 && remove[i] == name[i - 1]);
        }
    }
}

/// A line that adds a tag and then removes it leaves a task that had not
/// the tag as it was, and has no error.
pub proof fn lemma_tag_line_cancels(
    v: TaskView,
    line: Seq<char>,
    name: Seq<char>,
    ws: Seq<Option<u128>>,
)
    requires
        is_user_tag(name),
        name[0] != ':',
        !v.attrs.contains_key(tag_key(name)),
        line_words(line) == Some(seq![seq!['+'] + name, seq!['-'] + name]),
    ensures
        line_task(v, Some(line), ws) == v,
        line_errors(Some(line), ws).len() == 0,
{
    let add = seq!['+'] + name;
    let remove = seq!['-'] + name;
    let words = seq![add, remove];
    lemma_tag_words_read(name);
    lemma_tag_added_then_removed(v, name);
    let first = words.drop_last();
    assert(first =~= seq![add]);
    assert(first.drop_last() =~= Seq::<Seq<char>>::empty());
    assert(first.last() == add && words.last() == remove);
    assert(directives_task(v, first.drop_last(), ws) == v);
    assert(directives_errors(first.drop_last(), ws).len() == 0);
    assert(directives_task(v, first, ws) == tag_task(v, name, true));
    assert(directives_errors(first, ws).len() == 0);
}

/// A list of one reference without a sign is that reference: it adds the
/// dependency on the task that it names, and is an error if it names none.
pub proof fn lemma_single_reference(v: TaskView, reference: Seq<char>, ws: Seq<Option<u128>>)
    requires
        reference.len() > 0,
        !reference.contains(','),
        trimmed(reference) == reference,
        reference[0] != '+' && reference[0] != '-',
    ensures
        depends_task(v, depends_pieces(Some(reference)), ws) == match resolve_dependency(
            reference,
            ws,
        ) {
            Some(id) => v.set(dep_key(id), Some(Seq::<char>::empty())),
            None => v,
        },
        depends_errors(depends_pieces(Some(reference)), ws) == match resolve_dependency(
            reference,
            ws,
        ) {
            Some(_) => Seq::<FieldErrorView>::empty(),
            None => seq![additional(dep_not_found(reference))],
        },
{
    let delimiters = seq![','];
    assert forall|j: int| 0 <= j < reference.len() implies !delimiters.contains(
        reference[j],
    ) by {
        if delimiters.contains(reference[j]) {
            let k = choose|k: int| 0 <= k < delimiters.len() && delimiters[k] == reference[j];
            assert(reference[j] == ',');
            assert(reference.contains(','));
        }
    }
    lemma_split_whole(reference, delimiters);
    let pieces = depends_pieces(Some(reference));
    assert(pieces == seq![reference]);
    assert(pieces.drop_last() =~= Seq::<Seq<char>>::empty());
    assert(pieces.last() == reference);
    assert(dep_reference(reference) == reference);
    assert(!dep_is_removal(reference));
    assert(depends_task(v, pieces.drop_last(), ws) == v);
    assert(depends_errors(pieces.drop_last(), ws) =~= Seq::<FieldErrorView>::empty());
    assert(depends_errors(pieces, ws) =~= dep_item_errors(reference, ws));
    assert(depends_task(v, pieces, ws) == dep_item_task(v, reference, ws));
}

/// How a reference is resolved. One that writes an identity names that
/// task. A shorter one that writes an index names the task that the
/// working set has there. Any other short one names no task.
pub proof fn lemma_reference_resolved(reference: Seq<char>, ws: Seq<Option<u128>>)
    ensures
        uuid_parsed(reference) is Some ==> resolve_dependency(reference, ws) == uuid_parsed(
            reference,
        ),
        reference.len() < 32 ==> resolve_dependency(reference, ws) == match parsed_index(
            reference,
        ) {
            Some(index) => if index < ws.len() {
                ws[index as int]
            } else {
                None
            },
            None => None,
        },
{
}

/// The batch of a toggled timer stops every task that runs, the target
/// left out.
pub proof fn lemma_sweep_stops(tasks: Seq<taskchampion::Task>, target: u128, i: int)
    requires
        0 <= i < tasks.len(),
        task_view(tasks[i]).active,
        task_id(tasks[i]) != target,
    ensures
        sweep_trace(tasks, target).contains(
            Some((task_id(tasks[i]), "start"@, None::<Seq<char>>)),
        ),
    decreases tasks.len(),
{
    let stop = stamped_trace(
        task_stamped(tasks.last()),
        task_id(tasks.last()),
        seq![("start"@, None::<Seq<char>>)],
    );
    let before = sweep_trace(tasks.drop_last(), target);
    let op: Shown = Some((task_id(tasks[i]), "start"@, None::<Seq<char>>));
    if i == tasks.len() - 1 {
        let changes = seq![("start"@, None::<Seq<char>>)];
        assert(changes.drop_last() =~= Seq::<(Seq<char>, Option<Seq<char>>)>::empty());
        assert(stop.last() == op);
        assert((before + stop)[before.len() + stop.len() - 1] == op);
    } else {
        lemma_sweep_stops(tasks.drop_last(), target, i);
        let k = choose|k: int| 0 <= k < before.len() && before[k] == op;
        if task_view(tasks.last()).active && task_id(tasks.last()) != target {
            assert((before + stop)[k] == op);
        }
    }
}

/// The batch of a toggled timer touches no task but those that run, and
/// never the target, while it stops the others.
pub proof fn lemma_sweep_spares(tasks: Seq<taskchampion::Task>, target: u128, k: int)
    requires
        0 <= k < sweep_trace(tasks, target).len(),
    ensures
        sweep_trace(tasks, target)[k] matches Some(change) && change.0 != target && exists|i: int|
            0 <= i < tasks.len() && task_id(#[trigger] tasks[i]) == change.0 && task_view(
                tasks[i],
            ).active,
    decreases tasks.len(),
{
    if tasks.len() > 0 {
        let before = sweep_trace(tasks.drop_last(), target);
        let head = tasks.drop_last();
        let id = task_id(tasks.last());
        let changes = seq![("start"@, None::<Seq<char>>)];
        let stop = stamped_trace(task_stamped(tasks.last()), id, changes);
        if k < before.len() {
            lemma_sweep_spares(head, target, k);
            let change = before[k]->0;
            let i = choose|i: int|
                0 <= i < head.len() && task_id(#[trigger] head[i]) == change.0 && task_view(
                    head[i],
                ).active;
            assert(tasks[i] == head[i]);
            assert((before + stop)[k] == before[k]);
        } else {
            assert(changes.drop_last() =~= Seq::<(Seq<char>, Option<Seq<char>>)>::empty());
            assert(changes.last() == ("start"@, None::<Seq<char>>));
            assert(stamped_trace(task_stamped(tasks.last()), id, changes.drop_last()).len() == 0);
            let at = k - before.len();
            assert((before + stop)[k] == stop[at]);
            assert(stop[at] matches Some(change) && change.0 == id);
            assert(tasks[tasks.len() - 1] == tasks.last());
        }
    }
}

} // verus!
