//! A collection of items under their ids, with two indexes into it.

use vstd::prelude::*;
use crate::cwchess::CwChessGame;
use crate::merge::ascending_by;
use crate::paging::{
    is_after, items_of, key_of, lemma_kept_ascending, lemma_kept_contains, scan_after,
};
use crate::state::{Challenge, Indexed, Keyed, State};

verus! {

/// One of the two indexes of a collection.
#[derive(Clone, Copy, Debug, PartialEq, Eq, Structural)]
pub enum Index {
    First,
    Second,
}

/// The key of an item in one of the indexes.
pub open spec fn index_key<T: Indexed>(item: T, index: Index) -> Seq<char> {
    match index {
        Index::First => item.first_key(),
        Index::Second => item.second_key(),
    }
}

/// Whether an item stands in an index under `key` and behind `after`.
pub open spec fn is_indexed<T: Indexed>(index: Index, key: Seq<char>, after: Option<u64>) -> spec_fn(
    T,
) -> bool {
    |item: T| index_key(item, index) == key && is_after::<T>(after)(item)
}

/// In a sequence with ascending ids, an id has only one place.
pub proof fn lemma_one_place<T: Keyed>(s: Seq<T>, i: int, j: int)
    requires
        ascending_by(s, key_of::<T>()),
        0 <= i < s.len(),
        0 <= j < s.len(),
        s[i].key() == s[j].key(),
    ensures
        i == j,
{
}

/// Items under their ids, one for each id, held in the order of the ids.
/// Every item stands in two indexes, under the keys that it gives itself,
/// and the scan of an index goes through the items with one key in the
/// order of their ids.
#[derive(Clone, Debug, PartialEq, Eq)]
pub struct IndexedMap<T> {
    items: Vec<T>,
}

/// Everything that is stored: the owner, the last ids given out, the open
/// challenges and the games.
#[derive(Clone, Debug, PartialEq, Eq)]
pub struct Store {
    pub state: State,
    /// The id of the last challenge created, if any was.
    pub challenge_id: Option<u64>,
    /// The id of the last game begun, if any was.
    pub game_id: Option<u64>,
    /// The open challenges, indexed by creator and by opponent.
    pub challenges: IndexedMap<Challenge>,
    /// The games, indexed by the player with White and the player with Black.
    pub games: IndexedMap<CwChessGame>,
}

/// What is stored, as a mathematical value.
pub struct StoreView {
    pub owner: Seq<char>,
    pub challenge_id: Option<u64>,
    pub game_id: Option<u64>,
    pub challenges: Map<u64, Challenge>,
    pub games: Map<u64, CwChessGame>,
}

impl View for Store {
    type V = StoreView;

    open spec fn view(&self) -> StoreView {
        StoreView {
            owner: self.state.owner@,
            challenge_id: self.challenge_id,
            game_id: self.game_id,
            challenges: self.challenges@,
            games: self.games@,
        }
    }
}

/// The id is one that was given out: not higher than the last one.
pub open spec fn was_given_out(id: u64, last: Option<u64>) -> bool {
    last is Some && id <= last.unwrap()
}

impl Store {
    /// The collections are in order; every challenge and every game stands
    /// under the id that it holds, and that id was given out; nobody
    /// challenges or plays themself; the heights of the moves of a game
    /// never go down.
    pub open spec fn wf(self) -> bool {
        &&& self.challenges.wf()
        &&& self.games.wf()
        &&& forall|id: u64| #[trigger]
            self.challenges@.dom().contains(id) ==> {
                &&& self.challenges@[id].challenge_id == id
                &&& self.challenges@[id]@.wf()
                &&& was_given_out(id, self.challenge_id)
            }
        &&& forall|id: u64| #[trigger]
            self.games@.dom().contains(id) ==> {
                &&& self.games@[id].game_id == id
                &&& self.games@[id]@.wf()
                &&& self.games@[id]@.player1 != self.games@[id]@.player2
                &&& was_given_out(id, self.game_id)
            }
    }

    /// The height is not lower than that of the last move of the game under
    /// the id, if there is such a game.
    pub open spec fn reaches(self, game_id: u64, height: u64) -> bool {
        self.games@.dom().contains(game_id) ==> self.games@[game_id]@.reaches(height)
    }
}

impl<T: Indexed> IndexedMap<T> {
    /// The items, in the order in which they are held.
    pub closed spec fn entries(self) -> Seq<T> {
        self.items@
    }

    /// The ids of the items go up, so no id occurs twice.
    pub open spec fn wf(self) -> bool {
        ascending_by(self.entries(), key_of::<T>())
    }

    /// There is an item under the id.
    pub open spec fn has(self, id: u64) -> bool {
        exists|i: int| 0 <= i < self.entries().len() && #[trigger] self.entries()[i].key() == id
    }

    /// The place of the item under the id, if there is one.
    pub open spec fn place_of(self, id: u64) -> int {
        choose|i: int| 0 <= i < self.entries().len() && #[trigger] self.entries()[i].key() == id
    }

    /// The item under the id, if there is one.
    pub open spec fn at(self, id: u64) -> T {
        self.entries()[self.place_of(id)]
    }

    /// The collection as a map from the ids to the items.
    pub open spec fn view(self) -> Map<u64, T> {
        Map::new(|id: u64| self.has(id), |id: u64| self.at(id))
    }

    /// Each entry is the item that the map holds under the entry's id.
    pub proof fn lemma_entry(self, i: int)
        requires
            self.wf(),
            0 <= i < self.entries().len(),
        ensures
            self@.dom().contains(self.entries()[i].key()),
            self@[self.entries()[i].key()] == self.entries()[i],
    {
    }

    /// Each item of the map is an entry.
    pub proof fn lemma_item(self, id: u64)
        requires
            self@.dom().contains(id),
        ensures
            self.entries().contains(self@[id]),
            self@[id].key() == id,
    {
    }

    /// A scan of an index finds exactly what is stored with the key: an
    /// item is in the scan if and only if it is the item under its id, it
    /// stands in the index under the key, and its id is higher than `after`.
    /// The ids of the scan go up.
    pub proof fn lemma_scan_finds_what_is_stored(
        self,
        index: Index,
        key: Seq<char>,
        after: Option<u64>,
        item: T,
    )
        requires
            self.wf(),
        ensures
            ascending_by(self.entries().filter(is_indexed::<T>(index, key, after)), key_of::<T>()),
            self.entries().filter(is_indexed::<T>(index, key, after)).contains(item) <==> {
                &&& self@.dom().contains(item.key())
                &&& self@[item.key()] == item
                &&& index_key(item, index) == key
                &&& is_after::<T>(after)(item)
            },
    {
        let wanted = is_indexed::<T>(index, key, after);
        lemma_kept_ascending(self.entries(), wanted);
        lemma_kept_contains(self.entries(), wanted, item);
    }

    /// An empty collection.
    pub fn new() -> (r: Self)
        ensures
            r.wf(),
            r.entries() == Seq::<T>::empty(),
            r@ == Map::<u64, T>::empty(),
    {
        IndexedMap { items: Vec::new() }
    }

    /// The number of items.
    pub fn len(&self) -> (n: usize)
        ensures
            n == self.entries().len(),
    {
        self.items.len()
    }

    /// The place of the first entry whose id is not lower than `id`.
    fn place(&self, id: u64) -> (i: usize)
        requires
            self.wf(),
        ensures
            i <= self.entries().len(),
            forall|j: int| 0 <= j < i ==> (#[trigger] self.entries()[j]).key() < id,
            forall|j: int| i <= j < self.entries().len() ==> (#[trigger] self.entries()[j]).key() >= id,
    {
        let ghost key = key_of::<T>();
        let mut low: usize = 0;
        let mut high: usize = self.items.len();
        while low < high
            invariant
                self.wf(),
                key == key_of::<T>(),
                low <= high <= self.items.len(),
                forall|j: int| 0 <= j < low ==> (#[trigger] self.entries()[j]).key() < id,
                forall|j: int|
                    high <= j < self.entries().len() ==> (#[trigger] self.entries()[j]).key() >= id,
            decreases high - low,
        {
            let middle = low + (high - low) / 2;
            if self.items[middle].primary_key() < id {
                assert forall|j: int| 0 <= j < middle + 1 implies (#[trigger] self.entries()[j]).key()
                    < id by {}
                low = middle + 1;
            } else {
                high = middle;
            }
        }
        low
    }

    /// The item under the id, if there is one.
    pub fn load(&self, id: u64) -> (r: Option<&T>)
        requires
            self.wf(),
        ensures
            r is Some <==> self@.dom().contains(id),
            r is Some ==> *r.unwrap() == self@[id] && r.unwrap().key() == id,
    {
        let i = self.place(id);
        if i < self.items.len() && self.items[i].primary_key() == id {
            Some(&self.items[i])
        } else {
            None
        }
    }

    /// Puts an item under its id, in place of the item that was there, if
    /// one was. Every scan of an index finds the item from now on under its
    /// keys, and no longer finds the one that it replaced.
    pub fn save(&mut self, item: T)
        requires
            old(self).wf(),
        ensures
            final(self).wf(),
            final(self)@ == old(self)@.insert(item.key(), item),
    {
        let id = item.primary_key();
        let i = self.place(id);
        let ghost before = self.entries();
        let ghost key = key_of::<T>();
        if i < self.items.len() && self.items[i].primary_key() == id {
            self.items.remove(i);
        }
        let ghost between = self.entries();
        self.items.insert(i, item);
        let ghost after = self.entries();
        proof {
            let replaced = between.len() < before.len();
            assert forall|other: u64| #[trigger] self.has(other) <==> (other == id || old(self).has(
                other,
            )) by {
                if self.has(other) && other != id {
                    let j = choose|j: int| 0 <= j < after.len() && #[trigger] after[j].key() == other;
                }
                if old(self).has(other) && other != id {
                    let j = choose|j: int|
                        0 <= j < before.len() && #[trigger] before[j].key() == other;
                    let j_after = if j < i || replaced { j } else { j + 1 };
                    assert(after[j_after].key() == other);
                }
                if other == id {
                    assert(after[i as int].key() == id);
                }
            }
            assert forall|other: u64| self.has(other) implies #[trigger] self.at(other) == if other
                == id {
                item
            } else {
                old(self).at(other)
            } by {}
        }
    }

    /// Takes the item under the id out, if there is one. No scan of an
    /// index finds it any longer.
    pub fn remove(&mut self, id: u64) -> (r: Option<T>)
        requires
            old(self).wf(),
        ensures
            final(self).wf(),
            final(self)@ == old(self)@.remove(id),
            r is Some <==> old(self)@.dom().contains(id),
            r is Some ==> r.unwrap() == old(self)@[id] && r.unwrap().key() == id,
    {
        let i = self.place(id);
        let ghost before = self.entries();
        let ghost key = key_of::<T>();
        if i < self.items.len() && self.items[i].primary_key() == id {
            let item = self.items.remove(i);
            let ghost after = self.entries();
            proof {
                assert forall|other: u64| #[trigger] self.has(other) <==> (other != id && old(
                    self,
                ).has(other)) by {
                    if self.has(other) {
                        let j = choose|j: int|
                            0 <= j < after.len() && #[trigger] after[j].key() == other;
                        let j_before = if j < i { j } else { j + 1 };
                        if other == id {
                            lemma_one_place(before, j_before, i as int);
                        }
                    }
                    if old(self).has(other) && other != id {
                        let j = choose|j: int|
                            0 <= j < before.len() && #[trigger] before[j].key() == other;
                        let j_after = if j < i { j } else { j - 1 };
                        assert(after[j_after].key() == other);
                    }
                }
            }
            Some(item)
        } else {
            None
        }
    }

    /// The items whose id is higher than `after`, in the order of their ids.
    pub fn range(&self, after: Option<u64>) -> (page: Vec<&T>)
        ensures
            items_of(page@) == scan_after(self.entries(), after),
    {
        let ghost wanted = is_after::<T>(after);
        let mut page: Vec<&T> = Vec::new();
        let mut i: usize = 0;
        while i < self.items.len()
            invariant
                0 <= i <= self.items.len(),
                wanted == is_after::<T>(after),
                items_of(page@) == self.entries().take(i as int).filter(wanted),
            decreases self.items.len() - i,
        {
            let item = &self.items[i];
            let keep = match after {
                Some(id) => item.primary_key() > id,
                None => true,
            };
            proof {
                let longer = self.entries().take(i + 1);
                assert(longer.drop_last() =~= self.entries().take(i as int));
                reveal(Seq::filter);
            }
            if keep {
                page.push(item);
            }
            i += 1;
        }
        assert(self.entries().take(i as int) =~= self.entries());
        page
    }

    /// The scan of an index: the items that stand in the index under `key`
    /// and whose id is higher than `after`, in the order of their ids.
    pub fn prefix(&self, index: Index, key: &String, after: Option<u64>) -> (page: Vec<&T>)
        ensures
            items_of(page@) == self.entries().filter(is_indexed::<T>(index, key@, after)),
    {
        let ghost wanted = is_indexed::<T>(index, key@, after);
        let mut page: Vec<&T> = Vec::new();
        let mut i: usize = 0;
        while i < self.items.len()
            invariant
                0 <= i <= self.items.len(),
                wanted == is_indexed::<T>(index, key@, after),
                items_of(page@) == self.entries().take(i as int).filter(wanted),
            decreases self.items.len() - i,
        {
            let item = &self.items[i];
            let behind = match after {
                Some(id) => item.primary_key() > id,
                None => true,
            };
            let keep = behind && match index {
                Index::First => item.in_first_index(key),
                Index::Second => item.in_second_index(key),
            };
            proof {
                let longer = self.entries().take(i + 1);
                assert(longer.drop_last() =~= self.entries().take(i as int));
                reveal(Seq::filter);
            }
            if keep {
                page.push(item);
            }
            i += 1;
        }
        assert(self.entries().take(i as int) =~= self.entries());
        page
    }
}

} // verus!
