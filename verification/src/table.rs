//! A table of items that are known both by a name and by a UUID.
use vstd::prelude::*;

use crate::assoc::{
    distinct_keys, has_key, lemma_map_in_pairs, lemma_map_push, lemma_map_remove, lemma_map_update,
    lemma_pair_in_map, pairs_map,
};
use crate::text::same_text;
use crate::types::{Name, PoolUuid};

verus! {

/// Some item of `items` has the name `name`.
pub open spec fn has_name<T>(items: Map<PoolUuid, (Seq<char>, T)>, name: Seq<char>) -> bool {
    exists|uuid: PoolUuid| items.contains_key(uuid) && (#[trigger] items[uuid]).0 == name
}

/// No two items of `items` have the same name.
pub open spec fn distinct_names<T>(items: Map<PoolUuid, (Seq<char>, T)>) -> bool {
    forall|a: PoolUuid, b: PoolUuid|
        #![trigger items[a], items[b]]
        items.contains_key(a) && items.contains_key(b) && items[a].0 == items[b].0 ==> a == b
}

/// No name occurs twice in `listing`.
pub open spec fn distinct_entries<T>(listing: Seq<(PoolUuid, (Seq<char>, T))>) -> bool {
    forall|i: int, j: int|
        #![trigger listing[i], listing[j]]
        0 <= i < j < listing.len() ==> listing[i].1.0 != listing[j].1.0
}

/// `items` with `item` under `name` and `uuid`, and without what stood under
/// either of them before.
pub open spec fn with_item<T>(
    items: Map<PoolUuid, (Seq<char>, T)>,
    name: Seq<char>,
    uuid: PoolUuid,
    item: T,
) -> Map<PoolUuid, (Seq<char>, T)> {
    Map::new(
        |u: PoolUuid| u == uuid || (items.contains_key(u) && items[u].0 != name),
        |u: PoolUuid|
            if u == uuid {
                (name, item)
            } else {
                items[u]
            },
    )
}

/// Items, each under a name and a UUID of its own.
#[derive(Debug)]
pub struct Table<T> {
    keys: Vec<(Name, PoolUuid)>,
    items: Vec<T>,
}

impl<T> View for Table<T> {
    type V = Map<PoolUuid, (Seq<char>, T)>;

    open spec fn view(&self) -> Map<PoolUuid, (Seq<char>, T)> {
        pairs_map(self.listing())
    }
}

impl<T> Table<T> {
    /// The items in their order.
    pub closed spec fn listing(&self) -> Seq<(PoolUuid, (Seq<char>, T))> {
        Seq::new(
            self.keys@.len(),
            |i: int| (self.keys@[i].1, (self.keys@[i].0@, self.items@[i])),
        )
    }

    /// No name and no UUID occurs twice.
    pub closed spec fn wf(&self) -> bool {
        &&& self.keys@.len() == self.items@.len()
        &&& distinct_keys(self.listing())
        &&& distinct_entries(self.listing())
    }

    /// What a well-formed table keeps: its names are distinct, and it lists
    /// each item once.
    pub proof fn lemma_wf(&self)
        requires
            self.wf(),
        ensures
            distinct_names(self@),
            distinct_keys(self.listing()),
            distinct_entries(self.listing()),
    {
        assert forall|a: PoolUuid, b: PoolUuid|
            #![trigger self@[a], self@[b]]
            self@.contains_key(a) && self@.contains_key(b) && self@[a].0
                == self@[b].0 implies a == b by {
            let i = lemma_map_in_pairs(self.listing(), a);
            let j = lemma_map_in_pairs(self.listing(), b);
        }
    }

    /// A table without items.
    pub fn new() -> (table: Self)
        ensures
            table.wf(),
            table@ == Map::<PoolUuid, (Seq<char>, T)>::empty(),
            table.listing() == Seq::<(PoolUuid, (Seq<char>, T))>::empty(),
    {
        let table = Table { keys: Vec::new(), items: Vec::new() };
        assert(table@ =~= Map::<PoolUuid, (Seq<char>, T)>::empty());
        table
    }

    /// The number of items.
    pub fn len(&self) -> (n: usize)
        ensures
            n == self.listing().len(),
    {
        self.keys.len()
    }

    /// The item at place `i`, with its name and UUID.
    pub fn entry(&self, i: usize) -> (entry: (&Name, PoolUuid, &T))
        requires
            self.wf(),
            i < self.listing().len(),
        ensures
            (entry.1, (entry.0@, *entry.2)) == self.listing()[i as int],
    {
        (&self.keys[i].0, self.keys[i].1, &self.items[i])
    }

    fn find_uuid(&self, uuid: PoolUuid) -> (place: Option<usize>)
        requires
            self.wf(),
        ensures
            match place {
                Some(i) => i < self.listing().len() && self.listing()[i as int].0 == uuid
                    && self@.contains_key(uuid) && self@[uuid] == self.listing()[i as int].1,
                None => !self@.contains_key(uuid),
            },
    {
        for i in 0..self.keys.len()
            invariant
                self.wf(),
                forall|j: int| 0 <= j < i ==> (#[trigger] self.listing()[j]).0 != uuid,
        {
            if self.keys[i].1 == uuid {
                proof {
                    lemma_pair_in_map(self.listing(), i as int);
                }
                return Some(i);
            }
            assert(self.listing()[i as int].0 != uuid);
        }
        None
    }

    fn find_name(&self, name: &str) -> (place: Option<usize>)
        requires
            self.wf(),
        ensures
            match place {
                Some(i) => i < self.listing().len() && self.listing()[i as int].1.0 == name@
                    && has_name(self@, name@),
                None => !has_name(self@, name@),
            },
    {
        for i in 0..self.keys.len()
            invariant
                self.wf(),
                forall|j: int| 0 <= j < i ==> (#[trigger] self.listing()[j]).1.0 != name@,
        {
            if same_text(self.keys[i].0.as_str(), name) {
                proof {
                    lemma_pair_in_map(self.listing(), i as int);
                    assert(self@[self.listing()[i as int].0].0 == name@);
                }
                return Some(i);
            }
            assert(self.listing()[i as int].1.0 != name@);
        }
        proof {
            assert forall|uuid: PoolUuid| self@.contains_key(uuid) implies (
            #[trigger] self@[uuid]).0 != name@ by {
                let i = lemma_map_in_pairs(self.listing(), uuid);
            }
        }
        None
    }

    /// Whether an item has the name `name`.
    pub fn contains_name(&self, name: &str) -> (found: bool)
        requires
            self.wf(),
        ensures
            found == has_name(self@, name@),
    {
        self.find_name(name).is_some()
    }

    /// Whether an item has the UUID `uuid`.
    pub fn contains_uuid(&self, uuid: PoolUuid) -> (found: bool)
        requires
            self.wf(),
        ensures
            found == self@.contains_key(uuid),
    {
        self.find_uuid(uuid).is_some()
    }

    /// The item with the UUID `uuid`, and its name.
    pub fn get_by_uuid(&self, uuid: PoolUuid) -> (found: Option<(Name, &T)>)
        requires
            self.wf(),
        ensures
            match found {
                Some((name, item)) => self@.contains_key(uuid) && self@[uuid] == (name@, *item),
                None => !self@.contains_key(uuid),
            },
    {
        match self.find_uuid(uuid) {
            Some(i) => Some((self.keys[i].0.clone(), &self.items[i])),
            None => None,
        }
    }

    /// The item with the UUID `uuid`, to be changed, and its name.
    pub fn get_mut_by_uuid(&mut self, uuid: PoolUuid) -> (found: Option<(Name, &mut T)>)
        requires
            old(self).wf(),
        ensures
            final(self).wf(),
            match found {
                Some((name, item)) => {
                    &&& old(self)@.contains_key(uuid)
                    &&& old(self)@[uuid] == (name@, *item)
                    &&& final(self)@ == old(self)@.insert(uuid, (name@, *final(item)))
                },
                None => !old(self)@.contains_key(uuid) && *final(self) == *old(self),
            },
    {
        match self.find_uuid(uuid) {
            Some(i) => {
                let name = self.keys[i].0.clone();
                let ghost before = self.listing();
                let item = &mut self.items[i];
                proof {
                    let value = (name@, *final(item));
                    let after = before.update(i as int, (before[i as int].0, value));
                    lemma_map_update(before, i as int, value);
                    assert(Seq::new(
                        self.keys@.len(),
                        |j: int| (self.keys@[j].1, (self.keys@[j].0@, after_borrow(self).items@[j])),
                    ) =~= after);
                }
                Some((name, item))
            },
            None => None,
        }
    }

    /// Takes the item at place `i` out.
    fn remove_place(&mut self, i: usize) -> (entry: (Name, T))
        requires
            old(self).wf(),
            i < old(self).listing().len(),
        ensures
            final(self).wf(),
            final(self).listing() == old(self).listing().remove(i as int),
            final(self)@ == old(self)@.remove(old(self).listing()[i as int].0),
            (entry.0@, entry.1) == old(self).listing()[i as int].1,
    {
        let ghost before = self.listing();
        let (name, _) = self.keys.remove(i);
        let item = self.items.remove(i);
        proof {
            lemma_map_remove(before, i as int);
            assert(self.listing() =~= before.remove(i as int));
            assert forall|a: int, b: int|
                #![trigger self.listing()[a], self.listing()[b]]
                0 <= a < b < self.listing().len() implies self.listing()[a].1.0
                != self.listing()[b].1.0 by {
                let x = if a < i { a } else { a + 1 };
                let y = if b < i { b } else { b + 1 };
                assert(before[x].1.0 != before[y].1.0);
            }
        }
        (name, item)
    }

    /// Takes the item with the UUID `uuid` out.
    pub fn remove_by_uuid(&mut self, uuid: PoolUuid) -> (removed: Option<(Name, T)>)
        requires
            old(self).wf(),
        ensures
            final(self).wf(),
            final(self)@ == old(self)@.remove(uuid),
            match removed {
                Some((name, item)) => old(self)@.contains_key(uuid) && old(self)@[uuid] == (
                    name@,
                    item,
                ),
                None => !old(self)@.contains_key(uuid),
            },
    {
        match self.find_uuid(uuid) {
            Some(i) => Some(self.remove_place(i)),
            None => {
                assert(self@ =~= self@.remove(uuid));
                None
            },
        }
    }

    /// Puts `item` under `name` and `uuid`. What stood under either of them
    /// before leaves the table.
    pub fn insert(&mut self, name: Name, uuid: PoolUuid, item: T)
        requires
            old(self).wf(),
        ensures
            final(self).wf(),
            final(self)@ == with_item(old(self)@, name@, uuid, item),
    {
        let ghost before = self@;
        proof {
            self.lemma_wf();
        }
        let _ = self.remove_by_uuid(uuid);
        let ghost between = self@;
        match self.find_name(name.as_str()) {
            Some(i) => {
                proof {
                    lemma_pair_in_map(self.listing(), i as int);
                }
                let ghost owner = self.listing()[i as int].0;
                let _ = self.remove_place(i);
                assert(before[owner].0 == name@);
            },
            None => {},
        }
        let ghost kept = self@;
        let ghost kept_listing = self.listing();
        assert forall|u: PoolUuid| kept.contains_key(u) == (u != uuid && before.contains_key(u)
            && before[u].0 != name@) by {
            if between.contains_key(u) {
                assert(between[u] == before[u]);
            }
        }
        proof {
            assert(!has_key(kept_listing, uuid)) by {
                assert(!kept.contains_key(uuid));
            }
            lemma_map_push(kept_listing, uuid, (name@, item));
            assert forall|i: int| 0 <= i < kept_listing.len() implies (
            #[trigger] kept_listing[i]).1.0 != name@ by {
                lemma_pair_in_map(kept_listing, i);
                assert(kept.contains_key(kept_listing[i].0));
            }
        }
        let ghost name_text = name@;
        self.keys.push((name, uuid));
        self.items.push(item);
        proof {
            assert(self.listing() =~= kept_listing.push((uuid, (name_text, item))));
            assert(self@ =~= with_item(before, name_text, uuid, item));
            assert forall|a: int, b: int|
                #![trigger self.listing()[a], self.listing()[b]]
                0 <= a < b < self.listing().len() implies self.listing()[a].1.0
                != self.listing()[b].1.0 by {
                assert(self.listing()[a] == kept_listing[a]);
                if b < kept_listing.len() {
                    assert(self.listing()[b] == kept_listing[b]);
                }
            }
        }
    }

    /// Each item once, with its name and UUID, in their order.
    pub fn entries(&self) -> (entries: Vec<(Name, PoolUuid, &T)>)
        requires
            self.wf(),
        ensures
            entries@.len() == self.listing().len(),
            forall|i: int|
                0 <= i < entries@.len() ==> {
                    let (name, uuid, item) = #[trigger] entries@[i];
                    self.listing()[i] == (uuid, (name@, *item))
                },
    {
        let mut entries: Vec<(Name, PoolUuid, &T)> = Vec::new();
        for i in 0..self.keys.len()
            invariant
                self.wf(),
                entries@.len() == i,
                forall|j: int|
                    0 <= j < i ==> {
                        let (name, uuid, item) = #[trigger] entries@[j];
                        self.listing()[j] == (uuid, (name@, *item))
                    },
        {
            entries.push((self.keys[i].0.clone(), self.keys[i].1, &self.items[i]));
        }
        entries
    }

    /// Each item once, to be changed, with its name and UUID, in their order.
    pub fn entries_mut(&mut self) -> (entries: Vec<(Name, PoolUuid, &mut T)>)
        requires
            old(self).wf(),
        ensures
            final(self).wf(),
            entries@.len() == old(self).listing().len(),
            final(self).listing().len() == old(self).listing().len(),
            forall|i: int|
                0 <= i < entries@.len() ==> {
                    let (name, uuid, item) = #[trigger] entries@[i];
                    &&& old(self).listing()[i] == (uuid, (name@, *item))
                    &&& final(self).listing()[i] == (uuid, (name@, *final(item)))
                },
    {
        let ghost before = self.listing();
        let mut entries: Vec<(Name, PoolUuid, &mut T)> = Vec::new();
        let n = self.items.len();
        let keys = &self.keys;
        let mut rest: &mut [T] = self.items.as_mut_slice();
        let ghost whole = (*final(rest))@;
        let mut i: usize = 0;
        while i < n
            invariant
                i <= n,
                n == before.len(),
                keys@.len() == n,
                entries@.len() == i,
                rest@.len() == n - i,
                whole == Seq::new(i as nat, |k: int| *final(entries@[k].2)) + (*final(rest))@,
                forall|k: int|
                    0 <= k < n ==> (#[trigger] before[k]).0 == keys@[k].1 && before[k].1.0
                        == keys@[k].0@,
                forall|k: int| 0 <= k < n - i ==> #[trigger] rest@[k] == before[i + k].1.1,
                forall|k: int|
                    0 <= k < i ==> {
                        let (name, uuid, item) = #[trigger] entries@[k];
                        before[k] == (uuid, (name@, *item))
                    },
            decreases n - i,
        {
            let (head, tail) = rest.split_at_mut(1);
            assert(head@[0] == before[i as int].1.1);
            entries.push((keys[i].0.clone(), keys[i].1, &mut head[0]));
            rest = tail;
            i = i + 1;
        }
        proof {
            let after = after_borrow(self).listing();
            assert forall|k: int| 0 <= k < n implies (#[trigger] after[k]).0 == before[k].0
                && after[k].1.0 == before[k].1.0 by {}
            assert forall|a: int, b: int|
                #![trigger after[a], after[b]]
                0 <= a < b < n implies after[a].0 != after[b].0 && after[a].1.0
                != after[b].1.0 by {
                assert(before[a].0 != before[b].0 && before[a].1.0 != before[b].1.0);
            }
        }
        entries
    }

    /// The items themselves, each with its name and UUID, in their order.
    pub fn into_entries(self) -> (entries: Vec<(Name, PoolUuid, T)>)
        requires
            self.wf(),
        ensures
            entries@.len() == self.listing().len(),
            forall|i: int|
                0 <= i < entries@.len() ==> {
                    let (name, uuid, item) = #[trigger] entries@[i];
                    self.listing()[i] == (uuid, (name@, item))
                },
    {
        let ghost whole = self.listing();
        let mut keys = self.keys;
        let mut items = self.items;
        let mut entries: Vec<(Name, PoolUuid, T)> = Vec::new();
        while keys.len() > 0
            invariant
                keys@.len() == items@.len(),
                entries@.len() + keys@.len() == whole.len(),
                forall|j: int|
                    0 <= j < keys@.len() ==> #[trigger] whole[entries@.len() + j] == (
                        keys@[j].1,
                        (keys@[j].0@, items@[j]),
                    ),
                forall|j: int|
                    0 <= j < entries@.len() ==> {
                        let (name, uuid, item) = #[trigger] entries@[j];
                        whole[j] == (uuid, (name@, item))
                    },
            decreases keys.len(),
        {
            assert(whole[entries@.len() + 0int] == (keys@[0].1, (keys@[0].0@, items@[0])));
            let ghost done = entries@.len();
            let (name, uuid) = keys.remove(0);
            let item = items.remove(0);
            entries.push((name, uuid, item));
            assert forall|j: int| 0 <= j < keys@.len() implies #[trigger] whole[entries@.len() + j]
                == (keys@[j].1, (keys@[j].0@, items@[j])) by {
                assert(whole[done + (j + 1)] == whole[entries@.len() + j]);
            }
        }
        entries
    }
}

} // verus!
