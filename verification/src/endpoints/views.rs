//! What the pages of the task list show of a query.

use crate::text::{
    after_first, concat3, lemma_first_split, push_text, remove_all, split, split_once, split_text,
    starts_with, text_views, without_all,
};
use vstd::prelude::*;
use vstd::string::StringExecFns;

verus! {

/// The parts of a text joined by a separator.
pub open spec fn joined(parts: Seq<Seq<char>>, separator: char) -> Seq<char>
    decreases parts.len(),
{
    if parts.len() == 0 {
        Seq::empty()
    } else if parts.len() == 1 {
        parts[0]
    } else {
        joined(parts.drop_last(), separator).push(separator) + parts.last()
    }
}

/// The filter words of a project and of every project above it, from the
/// top down: for the parts `a`, `b` the words `project:a`, `project:a.b`.
pub open spec fn project_steps(parts: Seq<Seq<char>>) -> Seq<Seq<char>>
    decreases parts.len(),
{
    if parts.len() == 0 {
        Seq::empty()
    } else {
        project_steps(parts.drop_last()).push("project:"@ + joined(parts, '.'))
    }
}

/// The name of the project of a filter word: what stands between its first
/// and its second colon.
pub open spec fn project_name(word: Seq<char>) -> Seq<char> {
    split_text(after_first(word, ':'), seq![':'])[0]
}

/// The filter words that one filter word is shown as: a project with the
/// projects above it, any other word as it is.
pub open spec fn filter_steps(word: Seq<char>) -> Seq<Seq<char>> {
    if "project:"@.is_prefix_of(word) {
        project_steps(split_text(project_name(word), seq!['.']))
    } else {
        seq![word]
    }
}

/// The filter words that a run of filter words is shown as.
pub open spec fn filters_shown(words: Seq<Seq<char>>) -> Seq<Seq<char>>
    decreases words.len(),
{
    if words.len() == 0 {
        Seq::empty()
    } else {
        filters_shown(words.drop_last()) + filter_steps(words.last())
    }
}

/// Adds the filter words of a project and of the projects above it.
fn push_project_steps(out: &mut Vec<String>, name: &str)
    ensures
        text_views(final(out)@) == text_views(old(out)@) + project_steps(
            split_text(name@, seq!['.']),
        ),
{
    let ghost start = text_views(out@);
    let mut dots: Vec<char> = Vec::new();
    dots.push('.');
    assert(dots@ =~= seq!['.']);
    let parts = split(name, &dots);
    let ghost all = text_views(parts@);
    let mut path = String::new();
    assert(all.take(0) =~= Seq::<Seq<char>>::empty());
    assert(start + Seq::<Seq<char>>::empty() =~= start);
    let mut i: usize = 0;
    while i < parts.len()
        invariant
            i <= parts@.len(),
            all == text_views(parts@),
            path@ == joined(all.take(i as int), '.'),
            text_views(out@) == start + project_steps(all.take(i as int)),
        decreases parts@.len() - i,
    {
        proof {
            let next = all.take(i as int + 1);
            assert(next.drop_last() =~= all.take(i as int));
            assert(next.last() == parts@[i as int]@);
            assert(next.len() == 1 ==> next[0] == parts@[i as int]@);
        }
        if i > 0 {
            path.append(".");
            proof {
                reveal_strlit(".");
                assert("."@ =~= seq!['.']);
            }
        }
        path.append(parts[i].as_str());
        assert(path@ =~= joined(all.take(i as int + 1), '.'));
        let word = concat3("project:", path.as_str(), "");
        proof {
            reveal_strlit("");
            assert(word@ =~= "project:"@ + path@);
        }
        push_text(out, word);
        assert(text_views(out@) =~= start + project_steps(all.take(i as int + 1)));
        i = i + 1;
    }
    assert(all.take(i as int) =~= all);
}

/// The filter words of a query as the task list shows them: each project
/// is shown with the projects above it.
pub fn shown_filters(current_filter: &Vec<String>) -> (r: Vec<String>)
    ensures
        text_views(r@) == filters_shown(text_views(current_filter@)),
{
    let ghost all = text_views(current_filter@);
    let mut filter_ar: Vec<String> = Vec::new();
    assert(text_views(filter_ar@) =~= Seq::<Seq<char>>::empty());
    assert(all.take(0) =~= Seq::<Seq<char>>::empty());
    let mut colons: Vec<char> = Vec::new();
    colons.push(':');
    assert(colons@ =~= seq![':']);
    let mut i: usize = 0;
    while i < current_filter.len()
        invariant
            i <= current_filter@.len(),
            all == text_views(current_filter@),
            colons@ == seq![':'],
            text_views(filter_ar@) == filters_shown(all.take(i as int)),
        decreases current_filter@.len() - i,
    {
        let filter = current_filter[i].as_str();
        let ghost shown = text_views(filter_ar@);
        proof {
            let next = all.take(i as int + 1);
            assert(next.drop_last() =~= all.take(i as int));
            assert(next.last() == filter@);
        }
        let tail = match split_once(filter, ':') {
            Some((head, tail)) => {
                proof {
                    lemma_first_split(filter@, head@, tail@, ':');
                }
                Some(tail)
            },
            None => None,
        };
        match tail {
            Some(tail) if starts_with(filter, "project:") => {
                let pieces = split(tail, &colons);
                assert(text_views(pieces@).len() > 0);
                assert(text_views(pieces@)[0] == pieces@[0]@);
                push_project_steps(&mut filter_ar, pieces[0].as_str());
            },
            _ => {
                proof {
                    reveal_strlit("project:");
                    if "project:"@.is_prefix_of(filter@) {
                        assert("project:"@.len() == 8);
                        assert("project:"@[7] == ':');
                        assert(filter@.subrange(0, 8)[7] == filter@[7]);
                        assert(filter@[7] == ':');
                        assert(filter@.contains(':'));
                    }
                }
                push_text(&mut filter_ar, current_filter[i].clone());
                assert(shown.push(filter@) =~= shown + seq![filter@]);
            },
        }
        i = i + 1;
    }
    assert(all.take(i as int) =~= all);
    filter_ar
}

/// Where one of two tasks stands with regard to the other.
#[derive(Debug, Clone, Copy, PartialEq, Eq, Structural)]
pub enum Place {
    Before,
    Beside,
    After,
}

/// The number that stands for the index of a task outside the working set.
pub const NO_INDEX: i64 = 9999999;

/// The index by which a task is placed.
pub open spec fn index_or_last(id: Option<i64>) -> i64 {
    match id {
        Some(index) => index,
        None => NO_INDEX,
    }
}

/// The place of a task among the tasks that another task depends on: tasks
/// that are completed come last and stand beside each other, the others
/// are placed by their index in the working set.
pub open spec fn dependency_place(
    a_completed: bool,
    a_id: Option<i64>,
    b_completed: bool,
    b_id: Option<i64>,
) -> Place {
    if a_completed && b_completed {
        Place::Beside
    } else if a_completed {
        Place::After
    } else if b_completed {
        Place::Before
    } else if index_or_last(a_id) < index_or_last(b_id) {
        Place::Before
    } else if index_or_last(a_id) > index_or_last(b_id) {
        Place::After
    } else {
        Place::Beside
    }
}

/// The place of a task among the tasks that another task depends on.
pub fn dependency_order(
    a_completed: bool,
    a_id: Option<i64>,
    b_completed: bool,
    b_id: Option<i64>,
) -> (r: Place)
    ensures
        r == dependency_place(a_completed, a_id, b_completed, b_id),
{
    let a: i64 = match a_id {
        Some(index) => index,
        None => NO_INDEX,
    };
    let b: i64 = match b_id {
        Some(index) => index,
        None => NO_INDEX,
    };
    if a_completed && b_completed {
        Place::Beside
    } else if a_completed {
        Place::After
    } else if b_completed {
        Place::Before
    } else if a < b {
        Place::Before
    } else if a > b {
        Place::After
    } else {
        Place::Beside
    }
}

/// The order of dependencies is the same from both sides: where one task
/// stands before another, the other stands after it.
pub proof fn lemma_dependency_order_turns(
    a_completed: bool,
    a_id: Option<i64>,
    b_completed: bool,
    b_id: Option<i64>,
)
    ensures
        dependency_place(a_completed, a_id, b_completed, b_id) == Place::Before
            <==> dependency_place(b_completed, b_id, a_completed, a_id) == Place::After,
        dependency_place(a_completed, a_id, b_completed, b_id) == Place::Beside
            <==> dependency_place(b_completed, b_id, a_completed, a_id) == Place::Beside,
{
}

/// The project of the given depth above, or at, a project: the first parts
/// of its name, as many as the depth says and the name has.
pub open spec fn project_above(full_name: Seq<char>, depth: nat) -> Seq<char> {
    let parts = split_text(full_name, seq!['.']);
    if depth < parts.len() {
        joined(parts.take(depth as int), '.')
    } else {
        joined(parts, '.')
    }
}

/// The name of the project of the given depth above, or at, a project.
pub fn project_name_link(full_name: &str, index: usize) -> (r: String)
    ensures
        r@ == project_above(full_name@, index as nat),
{
    let mut dots: Vec<char> = Vec::new();
    dots.push('.');
    assert(dots@ =~= seq!['.']);
    let parts = split(full_name, &dots);
    let ghost all = text_views(parts@);
    let mut path = String::new();
    assert(all.take(0) =~= Seq::<Seq<char>>::empty());
    let mut i: usize = 0;
    while i < parts.len() && i < index
        invariant
            i <= parts@.len(),
            i <= index,
            all == text_views(parts@),
            path@ == joined(all.take(i as int), '.'),
        decreases parts@.len() - i,
    {
        proof {
            let next = all.take(i as int + 1);
            assert(next.drop_last() =~= all.take(i as int));
            assert(next.last() == parts@[i as int]@);
            assert(next.len() == 1 ==> next[0] == parts@[i as int]@);
        }
        if i > 0 {
            path.append(".");
            proof {
                reveal_strlit(".");
                assert("."@ =~= seq!['.']);
            }
        }
        path.append(parts[i].as_str());
        assert(path@ =~= joined(all.take(i as int + 1), '.'));
        i = i + 1;
    }
    assert(i == parts@.len() ==> all.take(i as int) =~= all);
    path
}

/// The last part of the name of a project, as a filter word or a name
/// writes it.
pub open spec fn project_leaf_of(word: Seq<char>) -> Seq<char> {
    split_text(without_all(word, "project:"@), seq!['.']).last()
}

/// The last part of the name of a project.
pub fn project_leaf(word: &str) -> (r: String)
    ensures
        r@ == project_leaf_of(word@),
{
    let name = remove_all(word, "project:");
    let mut dots: Vec<char> = Vec::new();
    dots.push('.');
    assert(dots@ =~= seq!['.']);
    let parts = split(name.as_str(), &dots);
    assert(text_views(parts@).len() > 0);
    let last = parts.len() - 1;
    assert(text_views(parts@).last() == parts@[last as int]@);
    parts[last].clone()
}

} // verus!
