//! The settings of the application and their validation.

use crate::common::cache::{
    inserted, lemma_holder_has, removed, MnemonicsCache, MnemonicsTable, MnemonicsType,
};
use crate::common::errors::{error_views, field_error, FieldError, FieldErrorView};
use crate::common::textmap::TextMap;
use crate::text::{concat3, debug_of, debug_text, holds_text, same_text, text_of, text_views};
use vstd::prelude::*;
use vstd::string::StringExecFns;
use vstd::utf8::encode_utf8;

verus! {

/// Settings that can be held against what they must be.
pub trait ValidateSetting {
    /// What is held against the settings.
    spec fn complaints(&self) -> Seq<FieldErrorView>;

    fn validate(&self) -> (r: Vec<FieldError>)
        ensures
            error_views(r@) == self.complaints(),
    ;
}

/// A query that the user has given a name.
#[derive(Clone, Debug)]
pub struct CustomQuery {
    pub query: String,
    pub description: String,
    pub fixed_key: Option<String>,
}

/// The settings of the application.
#[derive(Clone, Debug)]
pub struct AppSettings {
    pub custom_queries: TextMap<CustomQuery>,
}

impl Default for AppSettings {
    fn default() -> (r: AppSettings)
        ensures
            r.custom_queries.pairs() == Seq::<(Seq<char>, CustomQuery)>::empty(),
    {
        AppSettings { custom_queries: TextMap::new() }
    }
}

/// Whether the shortcut that a query has must go before it gets its fixed
/// key: it has one, and another one.
pub fn shortcut_differs(current: &Option<String>, fixed_key: &str) -> (r: bool)
    ensures
        r == match text_of(*current) {
            Some(shortcut) => shortcut != fixed_key@,
            None => false,
        },
{
    match current {
        Some(f) => !same_text(f.as_str(), fixed_key),
        None => false,
    }
}

/// The fixed key of the query at the given place, if it has one.
pub open spec fn fixed_key_at(queries: Seq<(Seq<char>, CustomQuery)>, i: int) -> Option<Seq<char>> {
    text_of(queries[i].1.fixed_key)
}

/// Whether a query of the given name has a fixed key.
pub open spec fn named(queries: Seq<(Seq<char>, CustomQuery)>, name: Seq<char>) -> bool {
    exists|i: int|
        0 <= i < queries.len() && (#[trigger] fixed_key_at(queries, i)) is Some && queries[i].0
            == name
}

/// Whether the shortcut is the fixed key of a query.
pub open spec fn claimed(queries: Seq<(Seq<char>, CustomQuery)>, shortcut: Seq<char>) -> bool {
    exists|i: int|
        0 <= i < queries.len() && (#[trigger] fixed_key_at(queries, i)) == Some(shortcut)
}

/// Whether no later query takes from the query at the given place what it
/// was given: a later query has its fixed key exactly if it has its name.
pub open spec fn settled(queries: Seq<(Seq<char>, CustomQuery)>, i: int) -> bool {
    forall|j: int|
        i < j < queries.len() && (#[trigger] fixed_key_at(queries, j)) is Some ==> ((queries[j].0
            == queries[i].0) == (fixed_key_at(queries, j) == fixed_key_at(queries, i)))
}

/// What registering the fixed keys of the queries makes of the shortcuts.
/// The shortcuts of tags and projects are as they were. A query with a
/// fixed key has that key as its shortcut, unless a later query took it
/// or gave the name another. Any other name keeps its shortcut, or loses
/// it where the shortcut is the fixed key of a query.
pub open spec fn registered(
    before: MnemonicsTable,
    after: MnemonicsTable,
    queries: Seq<(Seq<char>, CustomQuery)>,
) -> bool {
    &&& forall|other: MnemonicsType|
        other != MnemonicsType::CustomQuery ==> after.table(other) == before.table(other)
    &&& forall|i: int|
        0 <= i < queries.len() && (#[trigger] fixed_key_at(queries, i)) is Some && settled(
            queries,
            i,
        ) ==> after.shortcut(MnemonicsType::CustomQuery, queries[i].0) == fixed_key_at(queries, i)
    &&& forall|name: Seq<char>|
        !named(queries, name) ==> {
            ||| #[trigger] after.shortcut(MnemonicsType::CustomQuery, name) == before.shortcut(
                MnemonicsType::CustomQuery,
                name,
            )
            ||| {
                &&& after.shortcut(MnemonicsType::CustomQuery, name) is None
                &&& before.shortcut(MnemonicsType::CustomQuery, name) matches Some(shortcut)
                    && claimed(queries, shortcut)
            }
        }
}

/// A query without a fixed key changes nothing.
pub proof fn lemma_registered_skip(
    before: MnemonicsTable,
    after: MnemonicsTable,
    queries: Seq<(Seq<char>, CustomQuery)>,
    i: int,
)
    requires
        0 <= i < queries.len(),
        fixed_key_at(queries, i) is None,
        registered(before, after, queries.take(i)),
    ensures
        registered(before, after, queries.take(i + 1)),
{
    let less = queries.take(i);
    let more = queries.take(i + 1);
    assert forall|k: int| 0 <= k < i implies fixed_key_at(more, k) == fixed_key_at(less, k)
        && more[k].0 == less[k].0 by {}
    assert(fixed_key_at(more, i) is None);
    assert forall|k: int|
        0 <= k < more.len() && (#[trigger] fixed_key_at(more, k)) is Some && settled(
            more,
            k,
        ) implies after.shortcut(MnemonicsType::CustomQuery, more[k].0) == fixed_key_at(
        more,
        k,
    ) by {
        assert(k < i);
        assert forall|j: int|
            k < j < less.len() && (#[trigger] fixed_key_at(less, j)) is Some implies ((less[j].0
            == less[k].0) == (fixed_key_at(less, j) == fixed_key_at(less, k))) by {
            assert(fixed_key_at(more, j) is Some);
        }
        assert(fixed_key_at(less, k) is Some);
    }
    assert forall|name: Seq<char>| !named(more, name) implies !named(less, name) by {
        if named(less, name) {
            let k = choose|k: int|
                0 <= k < less.len() && (#[trigger] fixed_key_at(less, k)) is Some && less[k].0
                    == name;
            assert(fixed_key_at(more, k) is Some);
        }
    }
    assert forall|shortcut: Seq<char>| claimed(less, shortcut) implies claimed(
        more,
        shortcut,
    ) by {
        let k = choose|k: int|
            0 <= k < less.len() && (#[trigger] fixed_key_at(less, k)) == Some(shortcut);
        assert(fixed_key_at(more, k) == Some(shortcut));
    }
}

/// A query with a fixed key gets it: the shortcut that it had, if it was
/// another, went first.
pub proof fn lemma_registered_step(
    before: MnemonicsTable,
    a: MnemonicsTable,
    b: MnemonicsTable,
    c: MnemonicsTable,
    queries: Seq<(Seq<char>, CustomQuery)>,
    i: int,
)
    requires
        0 <= i < queries.len(),
        fixed_key_at(queries, i) is Some,
        registered(before, a, queries.take(i)),
        match a.shortcut(MnemonicsType::CustomQuery, queries[i].0) {
            Some(shortcut) => if shortcut != fixed_key_at(queries, i)->0 {
                removed(a, b, MnemonicsType::CustomQuery, queries[i].0)
            } else {
                b == a
            },
            None => b == a,
        },
        inserted(
            b,
            c,
            MnemonicsType::CustomQuery,
            queries[i].0,
            fixed_key_at(queries, i)->0,
            true,
        ),
    ensures
        registered(before, c, queries.take(i + 1)),
{
    let kind = MnemonicsType::CustomQuery;
    let less = queries.take(i);
    let more = queries.take(i + 1);
    let key = queries[i].0;
    let fixed = fixed_key_at(queries, i)->0;
    let taken = b.taken(kind, key, fixed);
    lemma_holder_has(b.table(kind), 0, key, fixed);
    assert(!b.refuses(kind, key, fixed, true));
    assert(c.shortcut(kind, key) == Some(fixed));
    assert forall|name: Seq<char>| name != key implies b.shortcut(kind, name) == a.shortcut(
        kind,
        name,
    ) by {}
    assert forall|k: int| 0 <= k < i implies fixed_key_at(more, k) == fixed_key_at(less, k)
        && more[k].0 == less[k].0 by {}
    assert(fixed_key_at(more, i) == Some(fixed) && more[i].0 == key);
    assert forall|other: MnemonicsType| other != kind implies c.table(other) == before.table(
        other,
    ) by {}
    assert forall|k: int|
        0 <= k < more.len() && (#[trigger] fixed_key_at(more, k)) is Some && settled(
            more,
            k,
        ) implies c.shortcut(kind, more[k].0) == fixed_key_at(more, k) by {
        if k < i {
            assert forall|j: int|
                k < j < less.len() && (#[trigger] fixed_key_at(less, j)) is Some implies ((
            less[j].0 == less[k].0) == (fixed_key_at(less, j) == fixed_key_at(less, k))) by {
                assert(fixed_key_at(more, j) is Some);
            }
            assert(fixed_key_at(less, k) is Some);
            assert(a.shortcut(kind, less[k].0) == fixed_key_at(less, k));
            assert(fixed_key_at(more, i) is Some);
            assert((more[i].0 == more[k].0) == (fixed_key_at(more, i) == fixed_key_at(more, k)));
        }
    }
    assert forall|name: Seq<char>| !named(more, name) implies {
        ||| #[trigger] c.shortcut(kind, name) == before.shortcut(kind, name)
        ||| {
            &&& c.shortcut(kind, name) is None
            &&& before.shortcut(kind, name) matches Some(shortcut) && claimed(more, shortcut)
        }
    } by {
        assert(name != key);
        if named(less, name) {
            let k = choose|k: int|
                0 <= k < less.len() && (#[trigger] fixed_key_at(less, k)) is Some && less[k].0
                    == name;
            assert(fixed_key_at(more, k) is Some);
        }
        assert(!named(less, name));
        assert(a.shortcut(kind, name) == before.shortcut(kind, name) || a.shortcut(kind, name)
            is None);
        if before.shortcut(kind, name) is Some {
            let shortcut = before.shortcut(kind, name)->0;
            if claimed(less, shortcut) {
                let k = choose|k: int|
                    0 <= k < less.len() && (#[trigger] fixed_key_at(less, k)) == Some(shortcut);
                assert(fixed_key_at(more, k) == Some(shortcut));
            }
            if Some(name) == taken {
                assert(b.shortcut(kind, name) == Some(fixed));
                assert(fixed_key_at(more, i) == Some(shortcut));
            }
        }
    }
}

impl AppSettings {
    /// Gives every custom query with a fixed key that key as its shortcut.
    /// A shortcut that the query has from before, and that differs, goes
    /// first; a name that has the key loses it.
    pub fn register_shortcuts<C: MnemonicsCache>(&self, cache: &mut C)
        ensures
            registered(old(cache).shortcuts(), final(cache).shortcuts(), self.custom_queries.pairs()),
    {
        let n = self.custom_queries.len();
        let ghost before = cache.shortcuts();
        let ghost queries = self.custom_queries.pairs();
        let mut i: usize = 0;
        while i < n
            invariant
                i <= n,
                n == queries.len(),
                queries == self.custom_queries.pairs(),
                registered(before, cache.shortcuts(), queries.take(i as int)),
            decreases n - i,
        {
            let name = self.custom_queries.key_at(i);
            let ghost a = cache.shortcuts();
            if let Some(fixed_key) = &self.custom_queries.value_at(i).fixed_key {
                let current = cache.get(MnemonicsType::CustomQuery, name.as_str());
                if shortcut_differs(&current, fixed_key.as_str()) {
                    let _ = cache.remove(MnemonicsType::CustomQuery, name.as_str());
                }
                let ghost b = cache.shortcuts();
                let _ = cache.insert(
                    MnemonicsType::CustomQuery,
                    name.as_str(),
                    fixed_key.as_str(),
                    true,
                );
                proof {
                    lemma_registered_step(before, a, b, cache.shortcuts(), queries, i as int);
                }
            } else {
                proof {
                    lemma_registered_skip(before, a, queries, i as int);
                }
            }
            i = i + 1;
        }
        assert(queries.take(i as int) =~= queries);
    }
}

/// What is said of a fixed key that is not two bytes long.
pub open spec fn bad_key_text(fixed_key: Option<Seq<char>>, description: Seq<char>) -> Seq<char> {
    "Fixed key must be 2 unique characters. Currently assigned "@ + debug_text(fixed_key)
        + " for "@ + description + "!"@
}

/// What is said of a fixed key that an earlier query has.
pub open spec fn duplicate_key_text(fixed_key: Seq<char>, name: Seq<char>) -> Seq<char> {
    "Duplicate shortcut "@ + fixed_key + " asssigned to query "@ + name
}

impl ValidateSetting for CustomQuery {
    /// A fixed key is two bytes long.
    open spec fn complaints(&self) -> Seq<FieldErrorView> {
        match self.fixed_key {
            Some(f) => if encode_utf8(f@).len() as usize != 2 {
                seq![field_error("fixed_key"@, bad_key_text(Some(f@), self.description@))]
            } else {
                Seq::empty()
            },
            None => Seq::empty(),
        }
    }

    fn validate(&self) -> (r: Vec<FieldError>) {
        let mut errors: Vec<FieldError> = Vec::new();
        assert(error_views(errors@) =~= Seq::<FieldErrorView>::empty());
        let bad = match &self.fixed_key {
            Some(f) => f.as_str().len() != 2,
            None => false,
        };
        if bad {
            let mut message = concat3(
                "Fixed key must be 2 unique characters. Currently assigned ",
                debug_of(&self.fixed_key).as_str(),
                " for ",
            );
            message.append(self.description.as_str());
            message.append("!");
            errors.push(FieldError::new("fixed_key", message));
            assert(error_views(errors@) =~= self.complaints());
        }
        errors
    }
}

/// The fixed keys of a run of queries, each once, in the order in which
/// they first came.
pub open spec fn keys_seen(pairs: Seq<(Seq<char>, CustomQuery)>) -> Seq<Seq<char>>
    decreases pairs.len(),
{
    if pairs.len() == 0 {
        Seq::empty()
    } else {
        let before = keys_seen(pairs.drop_last());
        match pairs.last().1.fixed_key {
            Some(f) => if before.contains(f@) {
                before
            } else {
                before.push(f@)
            },
            None => before,
        }
    }
}

/// What is held against one query of a run: its own complaints, and that an
/// earlier query has its fixed key.
pub open spec fn query_complaints(
    seen: Seq<Seq<char>>,
    name: Seq<char>,
    query: CustomQuery,
) -> Seq<FieldErrorView> {
    query.complaints() + (match query.fixed_key {
        Some(f) => if seen.contains(f@) {
            seq![field_error("fixed_key"@, duplicate_key_text(f@, name))]
        } else {
            Seq::empty()
        },
        None => Seq::empty(),
    })
}

/// What is held against a run of queries, in their order.
pub open spec fn queries_complaints(pairs: Seq<(Seq<char>, CustomQuery)>) -> Seq<FieldErrorView>
    decreases pairs.len(),
{
    if pairs.len() == 0 {
        Seq::empty()
    } else {
        queries_complaints(pairs.drop_last()) + query_complaints(
            keys_seen(pairs.drop_last()),
            pairs.last().0,
            pairs.last().1,
        )
    }
}

/// Adds copies of the errors of one list to another.
fn extend_errors(out: &mut Vec<FieldError>, more: Vec<FieldError>)
    ensures
        error_views(final(out)@) == error_views(old(out)@) + error_views(more@),
{
    let ghost start = error_views(out@);
    let ghost all = error_views(more@);
    let mut more = more;
    let ghost whole = more@;
    assert(start + all.take(0) =~= start);
    let mut i: usize = 0;
    while i < more.len()
        invariant
            i <= more@.len(),
            more@ == whole,
            all == error_views(whole),
            error_views(out@) == start + all.take(i as int),
        decreases more@.len() - i,
    {
        let copy = FieldError {
            field: more[i].field.clone(),
            message: more[i].message.clone(),
        };
        let ghost shown = error_views(out@);
        out.push(copy);
        assert(copy@ == whole[i as int]@);
        assert(error_views(out@) =~= shown.push(copy@));
        assert(all.take(i as int + 1) =~= all.take(i as int).push(all[i as int]));
        assert(error_views(out@) =~= start + all.take(i as int + 1));
        i = i + 1;
    }
    assert(all.take(i as int) =~= all);
}

impl ValidateSetting for TextMap<CustomQuery> {
    open spec fn complaints(&self) -> Seq<FieldErrorView> {
        queries_complaints(self.pairs())
    }

    fn validate(&self) -> (r: Vec<FieldError>) {
        let ghost pairs = self.pairs();
        let mut shortcuts: Vec<String> = Vec::new();
        let mut errors: Vec<FieldError> = Vec::new();
        assert(pairs.take(0) =~= Seq::<(Seq<char>, CustomQuery)>::empty());
        assert(error_views(errors@) =~= Seq::<FieldErrorView>::empty());
        assert(text_views(shortcuts@) =~= Seq::<Seq<char>>::empty());
        let n = self.len();
        let mut i: usize = 0;
        while i < n
            invariant
                i <= n,
                n == pairs.len(),
                pairs == self.pairs(),
                text_views(shortcuts@) == keys_seen(pairs.take(i as int)),
                error_views(errors@) == queries_complaints(pairs.take(i as int)),
            decreases n - i,
        {
            let name = self.key_at(i);
            let query = self.value_at(i);
            let ghost seen = text_views(shortcuts@);
            let ghost before = error_views(errors@);
            proof {
                let next = pairs.take(i as int + 1);
                assert(next.drop_last() =~= pairs.take(i as int));
                assert(next.last() == pairs[i as int]);
            }
            extend_errors(&mut errors, query.validate());
            if let Some(fixed_key) = &query.fixed_key {
                if holds_text(&shortcuts, fixed_key.as_str()) {
                    let mut message = concat3(
                        "Duplicate shortcut ",
                        fixed_key.as_str(),
                        " asssigned to query ",
                    );
                    message.append(name.as_str());
                    let ghost own = error_views(errors@);
                    errors.push(FieldError::new("fixed_key", message));
                    assert(error_views(errors@) =~= own.push(
                        field_error("fixed_key"@, duplicate_key_text(fixed_key@, name@)),
                    ));
                } else {
                    shortcuts.push(fixed_key.clone());
                    assert(text_views(shortcuts@) =~= seen.push(fixed_key@));
                }
            }
            assert(error_views(errors@) =~= before + query_complaints(seen, name@, *query));
            i = i + 1;
        }
        assert(pairs.take(i as int) =~= pairs);
        errors
    }
}

impl ValidateSetting for AppSettings {
    open spec fn complaints(&self) -> Seq<FieldErrorView> {
        self.custom_queries.complaints()
    }

    fn validate(&self) -> (r: Vec<FieldError>) {
        self.custom_queries.validate()
    }
}

} // verus!
