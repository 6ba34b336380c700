//! The lists of projects and tags that the store holds: each name once, in
//! ascending order.

use crate::text::{chars_of, same_text, starts_with, text_of, text_views, without_first};
use vstd::prelude::*;

verus! {

/// Whether one text comes before another: at the first place where they
/// differ it has the smaller character, or it ends there.
pub open spec fn text_before(a: Seq<char>, b: Seq<char>) -> bool
    decreases a.len(),
{
    if b.len() == 0 {
        false
    } else if a.len() == 0 {
        true
    } else if a[0] != b[0] {
        a[0] < b[0]
    } else {
        text_before(a.drop_first(), b.drop_first())
    }
}

/// Whether one text comes before another.
pub fn text_less(a: &str, b: &str) -> (r: bool)
    ensures
        r == text_before(a@, b@),
{
    let left = chars_of(a);
    let right = chars_of(b);
    let mut i: usize = 0;
    assert(left@.skip(0) =~= left@);
    assert(right@.skip(0) =~= right@);
    while i < left.len() && i < right.len() && left[i] == right[i]
        invariant
            i <= left@.len(),
            i <= right@.len(),
            text_before(left@, right@) == text_before(left@.skip(i as int), right@.skip(i as int)),
        decreases left@.len() - i,
    {
        proof {
            let x = left@.skip(i as int);
            let y = right@.skip(i as int);
            assert(x[0] == left@[i as int]);
            assert(y[0] == right@[i as int]);
            assert(x.drop_first() =~= left@.skip(i as int + 1));
            assert(y.drop_first() =~= right@.skip(i as int + 1));
        }
        i = i + 1;
    }
    proof {
        let x = left@.skip(i as int);
        let y = right@.skip(i as int);
        if i < left@.len() {
            assert(x[0] == left@[i as int]);
        }
        if i < right@.len() {
            assert(y[0] == right@[i as int]);
        }
    }
    if i >= right.len() {
        false
    } else if i >= left.len() {
        true
    } else {
        left[i] < right[i]
    }
}

/// Of two texts that differ, one comes before the other.
pub proof fn lemma_one_before(a: Seq<char>, b: Seq<char>)
    requires
        a != b,
    ensures
        text_before(a, b) || text_before(b, a),
    decreases a.len(),
{
    if a.len() == 0 && b.len() == 0 {
        assert(a =~= b);
    } else if a.len() > 0 && b.len() > 0 && a[0] == b[0] {
        if a.drop_first() == b.drop_first() {
            assert(a =~= seq![a[0]] + a.drop_first());
            assert(b =~= seq![b[0]] + b.drop_first());
            assert(a =~= b);
        } else {
            lemma_one_before(a.drop_first(), b.drop_first());
        }
    } else if a.len() > 0 && b.len() > 0 {
        assert(a[0] < b[0] || b[0] < a[0]);
    } else if a.len() == 0 {
        assert(text_before(a, b));
    } else {
        assert(text_before(b, a));
    }
}

/// A list with one more text holds what it held and that text.
pub proof fn lemma_pushed_holds(texts: Seq<Seq<char>>, added: Seq<char>, t: Seq<char>)
    ensures
        texts.push(added).contains(t) <==> (texts.contains(t) || t == added),
{
    let grown = texts.push(added);
    if texts.contains(t) {
        let j = choose|j: int| 0 <= j < texts.len() && texts[j] == t;
        assert(grown[j] == t);
    }
    if t == added {
        assert(grown[texts.len() as int] == t);
    }
    if grown.contains(t) {
        let j = choose|j: int| 0 <= j < grown.len() && grown[j] == t;
        if j < texts.len() {
            assert(texts[j] == t);
        }
    }
}

/// What comes before a text comes before everything after that text.
pub proof fn lemma_before_chain(a: Seq<char>, b: Seq<char>, c: Seq<char>)
    requires
        text_before(a, b),
        text_before(b, c),
    ensures
        text_before(a, c),
    decreases a.len(),
{
    if a.len() > 0 && a[0] == b[0] && b[0] == c[0] {
        lemma_before_chain(a.drop_first(), b.drop_first(), c.drop_first());
    }
}

/// No text comes before itself.
pub proof fn lemma_not_before_itself(a: Seq<char>)
    ensures
        !text_before(a, a),
    decreases a.len(),
{
    if a.len() > 0 {
        lemma_not_before_itself(a.drop_first());
    }
}

/// Whether the texts ascend: each comes before all that follow it.
pub open spec fn ascending(texts: Seq<Seq<char>>) -> bool {
    forall|i: int, j: int| 0 <= i < j < texts.len() ==> text_before(texts[i], texts[j])
}

/// A list that ascends holds no text twice.
pub proof fn lemma_ascending_once(texts: Seq<Seq<char>>)
    requires
        ascending(texts),
    ensures
        forall|i: int, j: int| 0 <= i < j < texts.len() ==> texts[i] != texts[j],
{
    assert forall|i: int, j: int| 0 <= i < j < texts.len() implies texts[i] != texts[j] by {
        lemma_not_before_itself(texts[i]);
        assert(text_before(texts[i], texts[j]));
    }
}

/// Puts a text into an ascending list unless the list has it.
fn insert_ascending(out: &mut Vec<String>, value: &str)
    requires
        ascending(text_views(old(out)@)),
    ensures
        ascending(text_views(final(out)@)),
        forall|t: Seq<char>|
            text_views(final(out)@).contains(t) <==> (text_views(old(out)@).contains(t) || t
                == value@),
{
    let ghost before = text_views(out@);
    let mut i: usize = 0;
    while i < out.len() && text_less(out[i].as_str(), value)
        invariant
            i <= out@.len(),
            out@ == old(out)@,
            before == text_views(out@),
            forall|j: int| 0 <= j < i ==> text_before(before[j], value@),
        decreases out@.len() - i,
    {
        assert(before[i as int] == out@[i as int]@);
        i = i + 1;
    }
    assert(i < out@.len() ==> before[i as int] == out@[i as int]@);
    if i < out.len() && same_text(out[i].as_str(), value) {
        assert(before[i as int] == value@);
        return ;
    }
    out.insert(i, value.to_owned());
    proof {
        let after = text_views(out@);
        assert(after.len() == before.len() + 1);
        assert(after[i as int] == value@);
        assert(forall|j: int| 0 <= j < i ==> after[j] == before[j]);
        assert(forall|j: int| i < j < after.len() ==> after[j] == before[j - 1]);
        if i < before.len() {
            lemma_one_before(before[i as int], value@);
        }
        assert forall|a: int, b: int| 0 <= a < b < after.len() implies text_before(
            after[a],
            after[b],
        ) by {
            if b == i {
            } else if a == i {
                if b > i + 1 {
                    lemma_before_chain(value@, before[i as int], before[b - 1]);
                }
            } else if a < i && b > i {
                assert(text_before(before[a], before[b - 1]));
            } else if a < i {
                assert(text_before(before[a], before[b]));
            } else {
                assert(text_before(before[a - 1], before[b - 1]));
            }
        }
        assert forall|t: Seq<char>| after.contains(t) <==> (before.contains(t) || t
            == value@) by {
            if before.contains(t) {
                let j = choose|j: int| 0 <= j < before.len() && before[j] == t;
                if j < i {
                    assert(after[j] == t);
                } else {
                    assert(after[j + 1] == t);
                }
            }
            if after.contains(t) {
                let j = choose|j: int| 0 <= j < after.len() && after[j] == t;
                if j < i {
                    assert(before[j] == t);
                } else if j > i {
                    assert(before[j - 1] == t);
                }
            }
        }
    }
}

/// The given texts, each once, in ascending order.
pub fn sorted_unique(values: &Vec<String>) -> (r: Vec<String>)
    ensures
        ascending(text_views(r@)),
        forall|t: Seq<char>| text_views(r@).contains(t) <==> text_views(values@).contains(t),
{
    let ghost all = text_views(values@);
    let mut out: Vec<String> = Vec::new();
    let mut i: usize = 0;
    while i < values.len()
        invariant
            i <= values@.len(),
            all == text_views(values@),
            ascending(text_views(out@)),
            forall|t: Seq<char>| text_views(out@).contains(t) <==> all.take(i as int).contains(t),
        decreases values@.len() - i,
    {
        let ghost shown = text_views(out@);
        insert_ascending(&mut out, values[i].as_str());
        proof {
            let next = all.take(i as int + 1);
            assert forall|t: Seq<char>| text_views(out@).contains(t) <==> next.contains(t) by {
                if next.contains(t) {
                    let j = choose|j: int| 0 <= j < next.len() && next[j] == t;
                    if j < i {
                        assert(all.take(i as int)[j] == t);
                    }
                }
                if all.take(i as int).contains(t) {
                    let j = choose|j: int| 0 <= j < i && all.take(i as int)[j] == t;
                    assert(next[j] == t);
                }
                if t == values@[i as int]@ {
                    assert(next[i as int] == t);
                }
            }
        }
        i = i + 1;
    }
    assert(all.take(i as int) =~= all);
    out
}

/// Whether a project is named among the values of the `project` property.
pub open spec fn names_project(projects: Seq<Option<String>>, name: Seq<char>) -> bool {
    name.len() > 0 && exists|i: int|
        0 <= i < projects.len() && text_of(#[trigger] projects[i]) == Some(name)
}

/// What one more value of the `project` property adds to the projects that
/// are named.
proof fn lemma_names_project_step(projects: Seq<Option<String>>, i: int, t: Seq<char>)
    requires
        0 <= i < projects.len(),
    ensures
        names_project(projects.take(i + 1), t) <==> (names_project(projects.take(i), t) || (t.len()
            > 0 && text_of(projects[i]) == Some(t))),
{
    let seen = projects.take(i);
    let next = projects.take(i + 1);
    if names_project(seen, t) {
        let j = choose|j: int| 0 <= j < seen.len() && text_of(#[trigger] seen[j]) == Some(t);
        assert(next[j] == seen[j]);
    }
    if t.len() > 0 && text_of(projects[i]) == Some(t) {
        assert(next[i] == projects[i]);
    }
    if names_project(next, t) {
        let j = choose|j: int| 0 <= j < next.len() && text_of(#[trigger] next[j]) == Some(t);
        if j < i {
            assert(seen[j] == next[j]);
        } else {
            assert(next[j] == projects[i]);
        }
    }
}

/// The projects of the store: the values of the `project` property that are
/// not empty, each once, in ascending order.
pub fn project_list(projects: &Vec<Option<String>>) -> (r: Vec<String>)
    ensures
        ascending(text_views(r@)),
        forall|t: Seq<char>| text_views(r@).contains(t) <==> names_project(projects@, t),
{
    let mut named: Vec<String> = Vec::new();
    let mut i: usize = 0;
    assert forall|t: Seq<char>| !text_views(named@).contains(t) && !names_project(
        projects@.take(0),
        t,
    ) by {}
    while i < projects.len()
        invariant
            i <= projects@.len(),
            forall|t: Seq<char>|
                text_views(named@).contains(t) <==> names_project(projects@.take(i as int), t),
        decreases projects@.len() - i,
    {
        let ghost before = text_views(named@);
        let mut added = false;
        if let Some(p) = &projects[i] {
            if !p.as_str().is_empty() {
                named.push(p.clone());
                added = true;
                assert(text_views(named@) =~= before.push(p@));
            }
        }
        proof {
            let after = text_views(named@);
            assert forall|t: Seq<char>| after.contains(t) <==> names_project(
                projects@.take(i as int + 1),
                t,
            ) by {
                lemma_names_project_step(projects@, i as int, t);
                assert(before.contains(t) <==> names_project(projects@.take(i as int), t));
                if added {
                    lemma_pushed_holds(before, projects@[i as int]->0@, t);
                }
            }
        }
        i = i + 1;
    }
    assert(projects@.take(i as int) =~= projects@);
    sorted_unique(&named)
}

/// Whether a tag is named among the names of properties: by a property
/// that begins with `tag_`.
pub open spec fn names_tag(properties: Seq<Seq<char>>, tag: Seq<char>) -> bool {
    exists|i: int| 0 <= i < properties.len() && #[trigger] properties[i] == "tag_"@ + tag
}

/// What one more name of a property adds to the tags that are named.
proof fn lemma_names_tag_step(properties: Seq<Seq<char>>, i: int, t: Seq<char>)
    requires
        0 <= i < properties.len(),
    ensures
        names_tag(properties.take(i + 1), t) <==> (names_tag(properties.take(i), t)
            || properties[i] == "tag_"@ + t),
{
    let seen = properties.take(i);
    let next = properties.take(i + 1);
    if names_tag(seen, t) {
        let j = choose|j: int| 0 <= j < seen.len() && #[trigger] seen[j] == "tag_"@ + t;
        assert(next[j] == seen[j]);
    }
    if properties[i] == "tag_"@ + t {
        assert(next[i] == properties[i]);
    }
    if names_tag(next, t) {
        let j = choose|j: int| 0 <= j < next.len() && #[trigger] next[j] == "tag_"@ + t;
        if j < i {
            assert(seen[j] == next[j]);
        } else {
            assert(next[j] == properties[i]);
        }
    }
}

/// The tags of the store: the names after `tag_` of the properties that
/// hold a tag, each once, in ascending order.
pub fn tag_list(properties: &Vec<String>) -> (r: Vec<String>)
    ensures
        ascending(text_views(r@)),
        forall|t: Seq<char>| text_views(r@).contains(t) <==> names_tag(text_views(properties@), t),
{
    let ghost all = text_views(properties@);
    let mut tags: Vec<String> = Vec::new();
    proof {
        reveal_strlit("tag_");
    }
    assert forall|t: Seq<char>| !text_views(tags@).contains(t) && !names_tag(all.take(0), t) by {}
    let mut i: usize = 0;
    while i < properties.len()
        invariant
            i <= properties@.len(),
            all == text_views(properties@),
            "tag_"@.len() == 4,
            forall|t: Seq<char>|
                text_views(tags@).contains(t) <==> names_tag(all.take(i as int), t),
        decreases properties@.len() - i,
    {
        let ghost before = text_views(tags@);
        let f = properties[i].as_str();
        assert(all[i as int] == f@);
        let is_tag = starts_with(f, "tag_");
        let ghost name = f@.subrange(4, f@.len() as int);
        if is_tag {
            let tag_name = without_first(without_first(without_first(without_first(f))));
            assert(tag_name@ =~= name);
            assert(f@ =~= "tag_"@ + name);
            tags.push(tag_name.to_owned());
            assert(text_views(tags@) =~= before.push(name));
        }
        proof {
            let after = text_views(tags@);
            assert forall|t: Seq<char>| after.contains(t) <==> names_tag(
                all.take(i as int + 1),
                t,
            ) by {
                lemma_names_tag_step(all, i as int, t);
                assert(before.contains(t) <==> names_tag(all.take(i as int), t));
                if is_tag {
                    lemma_pushed_holds(before, name, t);
                }
                if f@ == "tag_"@ + t {
                    assert(("tag_"@ + t).subrange(0, 4) =~= "tag_"@);
                    assert(("tag_"@ + t).subrange(4, f@.len() as int) =~= t);
                }
            }
        }
        i = i + 1;
    }
    assert(all.take(i as int) =~= all);
    sorted_unique(&tags)
}

} // verus!
