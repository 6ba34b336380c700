//! The shortcuts of tags, projects and custom queries.

use crate::backend::champion::{anyhow_text, error_of};
use crate::common::textmap::TextMap;
use crate::text::{same_text, text_of};
use vstd::prelude::*;

verus! {

/// What a shortcut stands for.
#[derive(Debug, Clone, Copy, PartialEq, Eq, Structural)]
pub enum MnemonicsType {
    PROJECT,
    TAG,
    CustomQuery,
}

/// A store of shortcuts that keeps them beyond the running program. What
/// it holds is a table of shortcuts; whether it could be saved is the
/// store's own matter, so that a change may stand where the result is an
/// error.
pub trait MnemonicsCache {
    /// The shortcuts that the store holds.
    spec fn shortcuts(&self) -> MnemonicsTable;

    /// Gives a name its shortcut unless the shortcut is taken.
    fn insert(&mut self, mn_type: MnemonicsType, key: &str, value: &str, ovrrde: bool) -> (r:
        Result<(), anyhow::Error>)
        ensures
            old(self).shortcuts().refuses(mn_type, key@, value@, ovrrde) ==> r is Err,
            inserted(old(self).shortcuts(), final(self).shortcuts(), mn_type, key@, value@, ovrrde),
    ;

    /// Takes the shortcut of a name away.
    fn remove(&mut self, mn_type: MnemonicsType, key: &str) -> (r: Result<(), anyhow::Error>)
        ensures
            removed(old(self).shortcuts(), final(self).shortcuts(), mn_type, key@),
    ;

    /// The shortcut of a name, if it has one.
    fn get(&self, mn_type: MnemonicsType, key: &str) -> (r: Option<String>)
        ensures
            text_of(r) == self.shortcuts().shortcut(mn_type, key@),
    ;

    /// Writes the shortcuts to where the store keeps them.
    fn save(&self) -> Result<(), anyhow::Error>;
}

/// A shortcut is taken by another name.
#[derive(Debug, Clone, Copy, PartialEq, Eq, Structural)]
pub struct DuplicateKey;

impl DuplicateKey {
    pub fn to_string(&self) -> (r: String)
        ensures
            r@ == "Duplicate key generated!"@,
    {
        "Duplicate key generated!".to_owned()
    }
}

/// The shortcuts by what they stand for: each table maps a name to its
/// shortcut.
#[derive(Debug, Clone)]
pub struct MnemonicsTable {
    tags: TextMap<String>,
    projects: TextMap<String>,
    custom_queries: TextMap<String>,
}

/// The shortcut that a table gives a name.
pub open spec fn shortcut_in(table: TextMap<String>, name: Seq<char>) -> Option<Seq<char>> {
    if table@.contains_key(name) {
        Some(table@[name]@)
    } else {
        None
    }
}

/// The first name from the given place on, other than the given one, that
/// has the given shortcut.
pub open spec fn holder_from(
    table: TextMap<String>,
    i: int,
    key: Seq<char>,
    value: Seq<char>,
) -> Option<Seq<char>>
    decreases table.pairs().len() - i,
{
    if i < 0 || i >= table.pairs().len() {
        None
    } else if table.pairs()[i].0 != key && shortcut_in(table, table.pairs()[i].0) == Some(value) {
        Some(table.pairs()[i].0)
    } else {
        holder_from(table, i + 1, key, value)
    }
}

/// The first name, other than the given one, that has the given shortcut.
pub open spec fn holder(table: TextMap<String>, key: Seq<char>, value: Seq<char>) -> Option<
    Seq<char>,
> {
    holder_from(table, 0, key, value)
}

/// The name that holds a shortcut is another name than the given one, and
/// the shortcut is its own.
pub proof fn lemma_holder_has(table: TextMap<String>, i: int, key: Seq<char>, value: Seq<char>)
    ensures
        holder_from(table, i, key, value) matches Some(name) ==> name != key && shortcut_in(
            table,
            name,
        ) == Some(value),
    decreases table.pairs().len() - i,
{
    if 0 <= i < table.pairs().len() && !(table.pairs()[i].0 != key && shortcut_in(
        table,
        table.pairs()[i].0,
    ) == Some(value)) {
        lemma_holder_has(table, i + 1, key, value);
    }
}

/// Whether any name has the given shortcut.
pub open spec fn holds_value(pairs: Seq<(Seq<char>, String)>, value: Seq<char>) -> bool {
    exists|i: int| 0 <= i < pairs.len() && (#[trigger] pairs[i]).1@ == value
}

/// The first name of a table, other than the given one, that has the given
/// shortcut.
fn find_holder<'a>(table: &'a TextMap<String>, key: &str, value: &str) -> (r: Option<&'a String>)
    ensures
        match r {
            Some(name) => holder(*table, key@, value@) == Some(name@),
            None => holder(*table, key@, value@) is None,
        },
{
    let n = table.len();
    let mut i: usize = 0;
    while i < n
        invariant
            i <= n,
            n == table.pairs().len(),
            holder(*table, key@, value@) == holder_from(*table, i as int, key@, value@),
        decreases n - i,
    {
        let name = table.key_at(i);
        if !same_text(name.as_str(), key) {
            if let Some(shortcut) = table.get(name.as_str()) {
                if same_text(shortcut.as_str(), value) {
                    return Some(name);
                }
            }
        }
        i = i + 1;
    }
    None
}

/// Whether any name of a table has the given shortcut.
fn has_value(table: &TextMap<String>, value: &str) -> (r: bool)
    ensures
        r == holds_value(table.pairs(), value@),
{
    let n = table.len();
    let mut i: usize = 0;
    while i < n
        invariant
            i <= n,
            n == table.pairs().len(),
            forall|j: int| 0 <= j < i ==> (#[trigger] table.pairs()[j]).1@ != value@,
        decreases n - i,
    {
        if same_text(table.value_at(i).as_str(), value) {
            return true;
        }
        i = i + 1;
    }
    false
}

/// How an insertion changes the shortcuts. Where another name has the
/// shortcut and may keep it, nothing changes. Where it may not, that name
/// loses it. The given name gets the shortcut unless it is refused, and
/// every other name keeps what it had.
pub open spec fn inserted(
    before: MnemonicsTable,
    after: MnemonicsTable,
    mn_type: MnemonicsType,
    key: Seq<char>,
    value: Seq<char>,
    ovrrde: bool,
) -> bool {
    let taken = before.taken(mn_type, key, value);
    &&& forall|other: MnemonicsType| other != mn_type ==> after.table(other) == before.table(other)
    &&& taken is Some && !ovrrde ==> after == before
    &&& forall|name: Seq<char>|
        name != key && Some(name) != taken ==> after.shortcut(mn_type, name) == before.shortcut(
            mn_type,
            name,
        )
    &&& ovrrde ==> (taken matches Some(name) ==> after.shortcut(mn_type, name) is None)
    &&& after.shortcut(mn_type, key) == if before.refuses(mn_type, key, value, ovrrde) {
        before.shortcut(mn_type, key)
    } else {
        Some(value)
    }
}

/// How a removal changes the shortcuts: the name has none, and every other
/// name keeps what it had.
pub open spec fn removed(
    before: MnemonicsTable,
    after: MnemonicsTable,
    mn_type: MnemonicsType,
    key: Seq<char>,
) -> bool {
    &&& forall|other: MnemonicsType| other != mn_type ==> after.table(other) == before.table(other)
    &&& after.table(mn_type)@ == before.table(mn_type)@.remove(key)
}

impl Default for MnemonicsTable {
    fn default() -> (r: MnemonicsTable)
        ensures
            forall|mn_type: MnemonicsType|
                r.table(mn_type)@ == Map::<Seq<char>, String>::empty(),
    {
        MnemonicsTable {
            tags: TextMap::new(),
            projects: TextMap::new(),
            custom_queries: TextMap::new(),
        }
    }
}

impl MnemonicsTable {
    /// The table of the shortcuts of one kind.
    pub closed spec fn table(&self, mn_type: MnemonicsType) -> TextMap<String> {
        match mn_type {
            MnemonicsType::PROJECT => self.projects,
            MnemonicsType::TAG => self.tags,
            MnemonicsType::CustomQuery => self.custom_queries,
        }
    }

    /// The shortcut of a name, if it has one.
    pub open spec fn shortcut(&self, mn_type: MnemonicsType, key: Seq<char>) -> Option<Seq<char>> {
        if self.table(mn_type)@.contains_key(key) {
            Some(self.table(mn_type)@[key]@)
        } else {
            None
        }
    }

    /// The table of the shortcuts of one kind.
    pub fn get(&self, mn_type: MnemonicsType) -> (r: &TextMap<String>)
        ensures
            *r == self.table(mn_type),
    {
        match mn_type {
            MnemonicsType::PROJECT => &self.projects,
            MnemonicsType::TAG => &self.tags,
            MnemonicsType::CustomQuery => &self.custom_queries,
        }
    }

    /// Gives a name its shortcut, whatever shortcut it had.
    pub fn insert(&mut self, mn_type: MnemonicsType, key: &str, value: &str)
        ensures
            forall|other: MnemonicsType|
                other != mn_type ==> final(self).table(other) == old(self).table(other),
            forall|name: Seq<char>|
                final(self).shortcut(mn_type, name) == if name == key@ {
                    Some(value@)
                } else {
                    old(self).shortcut(mn_type, name)
                },
    {
        match mn_type {
            MnemonicsType::PROJECT => self.projects.insert(key.to_owned(), value.to_owned()),
            MnemonicsType::TAG => self.tags.insert(key.to_owned(), value.to_owned()),
            MnemonicsType::CustomQuery => self.custom_queries.insert(
                key.to_owned(),
                value.to_owned(),
            ),
        }
    }

    /// Takes the shortcut of a name away.
    pub fn remove(&mut self, mn_type: MnemonicsType, key: &str)
        ensures
            forall|other: MnemonicsType|
                other != mn_type ==> final(self).table(other) == old(self).table(other),
            final(self).table(mn_type)@ == old(self).table(mn_type)@.remove(key@),
    {
        match mn_type {
            MnemonicsType::PROJECT => self.projects.remove(key),
            MnemonicsType::TAG => self.tags.remove(key),
            MnemonicsType::CustomQuery => self.custom_queries.remove(key),
        }
    }

    /// Whether a shortcut for a project is one of a tag, or a shortcut for a
    /// tag one of a project.
    pub open spec fn clashes(&self, mn_type: MnemonicsType, value: Seq<char>) -> bool {
        match mn_type {
            MnemonicsType::PROJECT => holds_value(self.table(MnemonicsType::TAG).pairs(), value),
            MnemonicsType::TAG => holds_value(self.table(MnemonicsType::PROJECT).pairs(), value),
            MnemonicsType::CustomQuery => false,
        }
    }

    /// The name that has the given shortcut in the place of the given name.
    pub open spec fn taken(&self, mn_type: MnemonicsType, key: Seq<char>, value: Seq<char>) -> Option<
        Seq<char>,
    > {
        holder(self.table(mn_type), key, value)
    }

    /// Whether the shortcut is refused: another name of the same kind has it
    /// and may keep it, or a tag and a project would share it.
    pub open spec fn refuses(
        &self,
        mn_type: MnemonicsType,
        key: Seq<char>,
        value: Seq<char>,
        ovrrde: bool,
    ) -> bool {
        (self.taken(mn_type, key, value) is Some && !ovrrde) || self.clashes(mn_type, value)
    }

    /// Gives a name its shortcut unless the shortcut is taken. Another name
    /// of the same kind that has it loses it where `ovrrde` is set and is a
    /// refusal where not; a tag and a project never share a shortcut.
    pub fn insert_unique(
        &mut self,
        mn_type: MnemonicsType,
        key: &str,
        value: &str,
        ovrrde: bool,
    ) -> (r: Result<(), DuplicateKey>)
        ensures
            r is Err <==> old(self).refuses(mn_type, key@, value@, ovrrde),
            inserted(*old(self), *final(self), mn_type, key@, value@, ovrrde),
    {
        proof {
            lemma_holder_has(self.table(mn_type), 0, key@, value@);
        }
        let taken: Option<String> = match find_holder(self.get(mn_type), key, value) {
            Some(name) => Some(name.clone()),
            None => None,
        };
        if let Some(key_dlt) = taken {
            if ovrrde {
                self.remove(mn_type, key_dlt.as_str());
            } else {
                return Err(DuplicateKey);
            }
        }
        let clash = match mn_type {
            MnemonicsType::PROJECT => has_value(self.get(MnemonicsType::TAG), value),
            MnemonicsType::TAG => has_value(self.get(MnemonicsType::PROJECT), value),
            MnemonicsType::CustomQuery => false,
        };
        if clash {
            return Err(DuplicateKey);
        }
        self.insert(mn_type, key, value);
        Ok(())
    }
}

/// A store of shortcuts that lives in memory, for as long as the value
/// does: there is nothing to save.
#[derive(Debug, Clone)]
pub struct MemoryCache {
    pub map: MnemonicsTable,
}

impl MemoryCache {
    pub fn new(map: MnemonicsTable) -> (r: MemoryCache)
        ensures
            r.map == map,
    {
        MemoryCache { map }
    }
}

impl MnemonicsCache for MemoryCache {
    open spec fn shortcuts(&self) -> MnemonicsTable {
        self.map
    }

    fn insert(&mut self, mn_type: MnemonicsType, key: &str, value: &str, ovrrde: bool) -> (r:
        Result<(), anyhow::Error>)
        ensures
            r is Err <==> old(self).map.refuses(mn_type, key@, value@, ovrrde),
            r matches Err(e) ==> anyhow_text(e) == "Duplicate key generated!"@,
    {
        match self.map.insert_unique(mn_type, key, value, ovrrde) {
            Ok(_) => Ok(()),
            Err(e) => Err(error_of(e.to_string())),
        }
    }

    fn remove(&mut self, mn_type: MnemonicsType, key: &str) -> (r: Result<(), anyhow::Error>)
        ensures
            r is Ok,
    {
        self.map.remove(mn_type, key);
        Ok(())
    }

    fn get(&self, mn_type: MnemonicsType, key: &str) -> (r: Option<String>) {
        match self.map.get(mn_type).get(key) {
            Some(shortcut) => Some(shortcut.clone()),
            None => None,
        }
    }

    fn save(&self) -> (r: Result<(), anyhow::Error>)
        ensures
            r is Ok,
    {
        Ok(())
    }
}

} // verus!
