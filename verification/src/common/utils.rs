//! The search for a shortcut that is still free.

use vstd::prelude::*;

verus! {

/// The length of the shortcuts that are tried first.
pub const FIRST_LENGTH: usize = 2;

/// The length beyond which no shortcut is tried.
pub const LAST_LENGTH: usize = 3;

/// The misses after which longer shortcuts are tried.
pub const TRIES_PER_LENGTH: u32 = 1000;

/// Where the search for a free shortcut stands: the length of the shortcuts
/// that are drawn, and how many of this length were taken already.
#[derive(Debug, Clone, Copy, PartialEq, Eq, Structural)]
pub struct ShortcutSearch {
    pub len: usize,
    pub tries: u32,
}

impl ShortcutSearch {
    /// The search before the first draw.
    pub fn begin() -> (r: ShortcutSearch)
        ensures
            r == (ShortcutSearch { len: FIRST_LENGTH, tries: 0 }),
    {
        ShortcutSearch { len: FIRST_LENGTH, tries: 0 }
    }

    /// The search after a draw that was taken already, or `None` where the
    /// search is given up: after more than a thousand misses the shortcuts
    /// grow by a character, and none is longer than three.
    pub open spec fn missed(self) -> Option<ShortcutSearch> {
        if self.tries < TRIES_PER_LENGTH {
            Some(ShortcutSearch { len: self.len, tries: (self.tries + 1) as u32 })
        } else if self.len < LAST_LENGTH {
            Some(ShortcutSearch { len: (self.len + 1) as usize, tries: 0 })
        } else {
            None
        }
    }

    /// The search after a draw that was taken already.
    pub fn after_miss(self) -> (r: Option<ShortcutSearch>)
        ensures
            r == self.missed(),
    {
        if self.tries < TRIES_PER_LENGTH {
            Some(ShortcutSearch { len: self.len, tries: self.tries + 1 })
        } else if self.len < LAST_LENGTH {
            Some(ShortcutSearch { len: self.len + 1, tries: 0 })
        } else {
            None
        }
    }
}

/// A search of a thousand and one misses at each length ends: the misses
/// left, counted over both lengths, go down with every miss.
pub proof fn lemma_search_ends(search: ShortcutSearch)
    requires
        search.len <= LAST_LENGTH,
        search.tries <= TRIES_PER_LENGTH,
    ensures
        search.missed() matches Some(next) ==> next.len <= LAST_LENGTH && next.tries
            <= TRIES_PER_LENGTH && misses_left(next) < misses_left(search),
{
}

/// The misses that a search can still take.
pub open spec fn misses_left(search: ShortcutSearch) -> int {
    (LAST_LENGTH - search.len) * (TRIES_PER_LENGTH + 1) + (TRIES_PER_LENGTH - search.tries)
}

} // verus!
