//! Which device events are due to which pool.
use vstd::prelude::*;

use crate::assoc::AssocMap;
use crate::text::texts;
use crate::types::{Name, PoolUuid, StratPool};

verus! {

/// The event numbers of devices, each under the device's name.
pub type EventNumbers = AssocMap<String, u32>;

/// An event of a device that a pool is to deal with.
#[derive(Debug, PartialEq, Eq)]
pub struct DueEvent {
    pub pool_uuid: PoolUuid,
    pub pool_name: Name,
    pub dm_name: String,
}

/// What a [`DueEvent`] says.
pub struct DueEventView {
    pub pool_uuid: PoolUuid,
    pub pool_name: Seq<char>,
    pub dm_name: Seq<char>,
}

impl View for DueEvent {
    type V = DueEventView;

    open spec fn view(&self) -> DueEventView {
        DueEventView {
            pool_uuid: self.pool_uuid,
            pool_name: self.pool_name@,
            dm_name: self.dm_name@,
        }
    }
}

/// What the events of `events` say.
pub open spec fn event_views(events: Seq<DueEvent>) -> Seq<DueEventView> {
    events.map_values(|event: DueEvent| event@)
}

/// A device's event number `seen` is news after the number `handled`: a number
/// that is there is news where none was.
pub open spec fn is_news(seen: Option<u32>, handled: Option<u32>) -> bool {
    match (seen, handled) {
        (Some(seen), Some(handled)) => seen > handled,
        (Some(_), None) => true,
        (None, _) => false,
    }
}

/// The number of `name` in `numbers`, if it has one.
pub open spec fn number_of(numbers: Map<Seq<char>, u32>, name: Seq<char>) -> Option<u32> {
    if numbers.contains_key(name) {
        Some(numbers[name])
    } else {
        None
    }
}

/// The events due to the pool `pool_name` for its devices `names`, in their
/// order: one for each device whose number in `seen` is news after `handled`.
pub open spec fn pool_events(
    pool_uuid: PoolUuid,
    pool_name: Seq<char>,
    names: Seq<Seq<char>>,
    seen: Map<Seq<char>, u32>,
    handled: Map<Seq<char>, u32>,
) -> Seq<DueEventView>
    decreases names.len(),
{
    if names.len() == 0 {
        Seq::empty()
    } else {
        let before = pool_events(pool_uuid, pool_name, names.drop_last(), seen, handled);
        let dm_name = names.last();
        if is_news(number_of(seen, dm_name), number_of(handled, dm_name)) {
            before.push(DueEventView { pool_uuid, pool_name, dm_name })
        } else {
            before
        }
    }
}

/// The events due to the pools of `listing`, one pool after the other.
pub open spec fn due_events(
    listing: Seq<(PoolUuid, (Seq<char>, StratPool))>,
    seen: Map<Seq<char>, u32>,
    handled: Map<Seq<char>, u32>,
) -> Seq<DueEventView>
    decreases listing.len(),
{
    if listing.len() == 0 {
        Seq::empty()
    } else {
        let (pool_uuid, (pool_name, pool)) = listing.last();
        due_events(listing.drop_last(), seen, handled) + pool_events(
            pool_uuid,
            pool_name,
            texts(pool.eventing_dev_names@),
            seen,
            handled,
        )
    }
}

/// The number of each device in `devices`; of a device that is listed more
/// than once, the last one.
pub open spec fn device_numbers(devices: Seq<(String, Option<u32>)>) -> Map<Seq<char>, u32>
    decreases devices.len(),
{
    if devices.len() == 0 {
        Map::empty()
    } else {
        device_numbers(devices.drop_last()).insert(devices.last().0@, devices.last().1->0)
    }
}

/// Whether `seen` is news after `handled`.
pub(crate) fn check_news(seen: Option<&u32>, handled: Option<&u32>) -> (news: bool)
    ensures
        news == is_news(seen.deep_view(), handled.deep_view()),
{
    match (seen, handled) {
        (Some(seen), Some(handled)) => *seen > *handled,
        (Some(_), None) => true,
        (None, _) => false,
    }
}

/// The number of each device in `devices`.
pub(crate) fn collect_numbers(devices: &Vec<(String, Option<u32>)>) -> (numbers: EventNumbers)
    requires
        forall|i: int| 0 <= i < devices@.len() ==> (#[trigger] devices@[i]).1 is Some,
    ensures
        numbers@ == device_numbers(devices@),
{
    let mut numbers: EventNumbers = AssocMap::new();
    for i in 0..devices.len()
        invariant
            forall|j: int| 0 <= j < devices@.len() ==> (#[trigger] devices@[j]).1 is Some,
            numbers@ == device_numbers(devices@.take(i as int)),
    {
        assert(devices@[i as int].1 is Some);
        let number: u32 = devices[i].1.unwrap();
        numbers.insert(devices[i].0.clone(), number);
        assert(devices@.take(i + 1).drop_last() =~= devices@.take(i as int));
    }
    assert(devices@.take(devices@.len() as int) =~= devices@);
    numbers
}

/// Adds to `due` the events due to one pool.
pub(crate) fn add_pool_events(
    due: &mut Vec<DueEvent>,
    pool_uuid: PoolUuid,
    pool_name: &Name,
    pool: &StratPool,
    seen: &EventNumbers,
    handled: &EventNumbers,
)
    ensures
        event_views(final(due)@) == event_views(old(due)@) + pool_events(
            pool_uuid,
            pool_name@,
            texts(pool.eventing_dev_names@),
            seen@,
            handled@,
        ),
{
    let names = pool.get_eventing_dev_names();
    let ghost all = texts(names@);
    let ghost start = event_views(due@);
    assert(pool_events(pool_uuid, pool_name@, all.take(0), seen@, handled@) =~= Seq::empty());
    for i in 0..names.len()
        invariant
            all == texts(names@),
            event_views(due@) == start + pool_events(
                pool_uuid,
                pool_name@,
                all.take(i as int),
                seen@,
                handled@,
            ),
    {
        let ghost before = event_views(due@);
        assert(all.take(i + 1).drop_last() =~= all.take(i as int));
        assert(all.take(i + 1).last() == names@[i as int]@);
        if check_news(seen.get(&names[i]), handled.get(&names[i])) {
            let event = DueEvent {
                pool_uuid,
                pool_name: pool_name.clone(),
                dm_name: names[i].clone(),
            };
            let ghost said = event@;
            due.push(event);
            assert(event_views(due@) =~= before.push(said));
        }
    }
    assert(all.take(names@.len() as int) =~= all);
}

} // verus!
