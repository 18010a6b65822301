//! What the map and the table keep.
use vstd::prelude::*;

use crate::assoc::{distinct_keys, lemma_map_in_pairs, lemma_pair_in_map, AssocMap, MapKey};
use crate::table::{has_name, Table};
use crate::types::{Name, PoolUuid};

verus! {

/// A map has a value for a key exactly where one of its pairs has the key, and
/// the value is that pair's.
pub proof fn law_map_is_its_pairs<K: MapKey, V: DeepView>(map: AssocMap<K, V>, key: K::V, i: int)
    requires
        distinct_keys(map.listing()),
    ensures
        0 <= i < map.pairs().len() ==> map@.contains_key(map.pairs()[i].0@)
            && map@[map.pairs()[i].0@] == map.pairs()[i].1.deep_view(),
        map@.contains_key(key) ==> exists|j: int|
            0 <= j < map.pairs().len() && (#[trigger] map.pairs()[j]).0@ == key,
{
    if 0 <= i < map.pairs().len() {
        lemma_pair_in_map(map.listing(), i);
    }
    if map@.contains_key(key) {
        let j = lemma_map_in_pairs(map.listing(), key);
        assert(map.pairs()[j].0@ == key);
    }
}

/// A new map is empty, and reading a map gives what is in it.
pub proof fn law_map_reading<K: MapKey, V: DeepView>(
    empty: AssocMap<K, V>,
    map: &AssocMap<K, V>,
    key: &K,
    value: Option<&V>,
    n: usize,
    i: usize,
    pair: (&K, &V),
    pairs: Vec<(K, V)>,
)
    requires
        call_ensures(AssocMap::<K, V>::new, (), empty),
        call_ensures(AssocMap::<K, V>::get, (map, key), value),
        call_ensures(AssocMap::<K, V>::len, (map,), n),
        call_ensures(AssocMap::<K, V>::pair, (map, i), pair),
        call_ensures(AssocMap::<K, V>::into_pairs, (*map,), pairs),
        i < n,
    ensures
        empty.pairs().len() == 0,
        forall|k: K::V| !empty@.contains_key(k),
        value is Some == map@.contains_key(key@),
        value matches Some(found) ==> found.deep_view() == map@[key@],
        n == map.pairs().len(),
        pair.0@ == map.pairs()[i as int].0@,
        pair.1.deep_view() == map.pairs()[i as int].1.deep_view(),
        pairs@ == map.pairs(),
{
    assert(empty.listing().len() == empty.pairs().len());
    assert(map.listing().len() == map.pairs().len());
}

/// A key that is given a value has it from then on; the other keys have theirs.
/// A new key comes last, and no key changes its place.
pub proof fn law_map_insertion<K: MapKey, V: DeepView>(map: &mut AssocMap<K, V>, key: K, value: V)
    requires
        call_ensures(AssocMap::<K, V>::insert, (map, key, value), ()),
    ensures
        final(map)@.contains_key(key@),
        final(map)@[key@] == value.deep_view(),
        forall|k: K::V|
            k != key@ ==> #[trigger] final(map)@.contains_key(k) == old(map)@.contains_key(k),
        forall|k: K::V|
            k != key@ && old(map)@.contains_key(k) ==> #[trigger] final(map)@[k] == old(map)@[k],
        final(map).listing().len() == old(map).listing().len() + if old(map)@.contains_key(key@) {
            0int
        } else {
            1int
        },
        forall|i: int|
            0 <= i < old(map).listing().len() ==> (#[trigger] final(map).listing()[i]).0 == old(
                map,
            ).listing()[i].0,
{
}

/// A key that is taken out is gone, with the value that it had; the other keys
/// have theirs.
pub proof fn law_map_removal<K: MapKey, V: DeepView>(
    map: &mut AssocMap<K, V>,
    key: &K,
    value: Option<V>,
)
    requires
        call_ensures(AssocMap::<K, V>::remove, (map, key), value),
    ensures
        value is Some == old(map)@.contains_key(key@),
        value matches Some(taken) ==> taken.deep_view() == old(map)@[key@],
        !final(map)@.contains_key(key@),
        forall|k: K::V|
            k != key@ ==> #[trigger] final(map)@.contains_key(k) == old(map)@.contains_key(k),
        forall|k: K::V|
            k != key@ && old(map)@.contains_key(k) ==> #[trigger] final(map)@[k] == old(map)@[k],
{
}

/// A new table is empty, and reading a table gives what is in it: an item is
/// found by its UUID, and a name is there where an item has it.
pub proof fn law_table_reading<T>(
    empty: Table<T>,
    table: &Table<T>,
    uuid: PoolUuid,
    name: &str,
    has_uuid: bool,
    has_the_name: bool,
    found: Option<(Name, &T)>,
    n: usize,
)
    requires
        call_ensures(Table::<T>::new, (), empty),
        call_ensures(Table::<T>::contains_uuid, (table, uuid), has_uuid),
        call_ensures(Table::<T>::contains_name, (table, name), has_the_name),
        call_ensures(Table::<T>::get_by_uuid, (table, uuid), found),
        call_ensures(Table::<T>::len, (table,), n),
    ensures
        empty.wf(),
        empty.listing().len() == 0,
        forall|u: PoolUuid| !empty@.contains_key(u),
        n == table.listing().len(),
        has_uuid == table@.contains_key(uuid),
        found is Some == table@.contains_key(uuid),
        found matches Some((its_name, item)) ==> its_name@ == table@[uuid].0 && *item
            == table@[uuid].1,
        forall|u: PoolUuid|
            table@.contains_key(u) && (#[trigger] table@[u]).0 == name@ ==> has_the_name,
        has_the_name ==> exists|u: PoolUuid|
            table@.contains_key(u) && (#[trigger] table@[u]).0 == name@,
{
    assert forall|u: PoolUuid|
        table@.contains_key(u) && (#[trigger] table@[u]).0 == name@ implies has_the_name by {
        assert(has_name(table@, name@));
    }
}

/// An item that is put into a table is there under its name and UUID; an item
/// with the same name or UUID is not any more, and all others are as they were.
pub proof fn law_table_insertion<T>(table: &mut Table<T>, name: Name, uuid: PoolUuid, item: T)
    requires
        call_ensures(Table::<T>::insert, (table, name, uuid, item), ()),
    ensures
        final(table).wf(),
        final(table)@.contains_key(uuid),
        final(table)@[uuid].0 == name@,
        final(table)@[uuid].1 == item,
        forall|u: PoolUuid|
            u != uuid ==> #[trigger] final(table)@.contains_key(u) == (old(table)@.contains_key(u)
                && old(table)@[u].0 != name@),
        forall|u: PoolUuid|
            u != uuid && final(table)@.contains_key(u) ==> #[trigger] final(table)@[u] == old(
                table,
            )@[u],
{
}

/// An item that is taken out of a table is gone, and comes back with its name;
/// all others are as they were.
pub proof fn law_table_removal<T>(
    table: &mut Table<T>,
    uuid: PoolUuid,
    removed: Option<(Name, T)>,
)
    requires
        call_ensures(Table::<T>::remove_by_uuid, (table, uuid), removed),
    ensures
        final(table).wf(),
        removed is Some == old(table)@.contains_key(uuid),
        removed matches Some((name, item)) ==> name@ == old(table)@[uuid].0 && item == old(
            table,
        )@[uuid].1,
        !final(table)@.contains_key(uuid),
        forall|u: PoolUuid|
            u != uuid ==> #[trigger] final(table)@.contains_key(u) == old(table)@.contains_key(u),
        forall|u: PoolUuid|
            u != uuid && old(table)@.contains_key(u) ==> #[trigger] final(table)@[u] == old(
                table,
            )@[u],
{
}

} // verus!
