//! Handling device events.
use vstd::prelude::*;

use crate::assoc::{lemma_map_in_pairs, lemma_pair_in_map};
use crate::engine::{
    round_continued, round_started, EngineView, EventRound, EventStep, StratEngine,
};
use crate::errors::{StratisError, StratisResult};
use crate::events::{
    device_numbers, due_events, event_views, is_news, number_of, pool_events, DueEventView,
};
use crate::text::texts;
use crate::types::{PoolUuid, StratPool};

verus! {

/// No event is due to a pool whose devices show the numbers that were handled.
proof fn lemma_pool_quiet(
    pool_uuid: PoolUuid,
    pool_name: Seq<char>,
    names: Seq<Seq<char>>,
    numbers: Map<Seq<char>, u32>,
)
    ensures
        pool_events(pool_uuid, pool_name, names, numbers, numbers) == Seq::<
            DueEventView,
        >::empty(),
    decreases names.len(),
{
    if names.len() > 0 {
        lemma_pool_quiet(pool_uuid, pool_name, names.drop_last(), numbers);
        assert(!is_news(number_of(numbers, names.last()), number_of(numbers, names.last())));
    }
}

/// Once the events at some numbers have been handled, nothing is due until a
/// number grows: at the same numbers no event is due to any pool.
pub proof fn law_handled_events_are_not_due(
    listing: Seq<(PoolUuid, (Seq<char>, StratPool))>,
    numbers: Map<Seq<char>, u32>,
)
    ensures
        due_events(listing, numbers, numbers).len() == 0,
    decreases listing.len(),
{
    if listing.len() > 0 {
        law_handled_events_are_not_due(listing.drop_last(), numbers);
        let (pool_uuid, (pool_name, pool)) = listing.last();
        lemma_pool_quiet(pool_uuid, pool_name, texts(pool.eventing_dev_names@), numbers);
    }
}

/// The device `dm_name` is one of `names`, and its number is news.
pub open spec fn has_news(
    names: Seq<Seq<char>>,
    dm_name: Seq<char>,
    seen: Map<Seq<char>, u32>,
    handled: Map<Seq<char>, u32>,
) -> bool {
    names.contains(dm_name) && is_news(number_of(seen, dm_name), number_of(handled, dm_name))
}

proof fn lemma_pool_events_are_news(
    pool_uuid: PoolUuid,
    pool_name: Seq<char>,
    names: Seq<Seq<char>>,
    seen: Map<Seq<char>, u32>,
    handled: Map<Seq<char>, u32>,
    event: DueEventView,
)
    ensures
        pool_events(pool_uuid, pool_name, names, seen, handled).contains(event) == (
        event.pool_uuid == pool_uuid && event.pool_name == pool_name && has_news(
            names,
            event.dm_name,
            seen,
            handled,
        )),
    decreases names.len(),
{
    if names.len() > 0 {
        let shorter = names.drop_last();
        lemma_pool_events_are_news(pool_uuid, pool_name, shorter, seen, handled, event);
        let before = pool_events(pool_uuid, pool_name, shorter, seen, handled);
        let after = pool_events(pool_uuid, pool_name, names, seen, handled);
        assert(names == shorter.push(names.last()));
        assert(names.contains(event.dm_name) == (shorter.contains(event.dm_name) || event.dm_name
            == names.last())) by {
            if shorter.contains(event.dm_name) {
                assert(names[shorter.index_of(event.dm_name)] == event.dm_name);
            }
            if names.contains(event.dm_name) && event.dm_name != names.last() {
                assert(shorter[names.index_of(event.dm_name)] == event.dm_name);
            }
            assert(names[names.len() - 1] == names.last());
        }
        if after != before {
            let added = after.last();
            assert(after == before.push(added));
            if before.contains(event) {
                assert(after[before.index_of(event)] == event);
            }
            if after.contains(event) && event != added {
                assert(before[after.index_of(event)] == event);
            }
            assert(after[after.len() - 1] == added);
        }
    }
}

/// An event is due exactly to each pool that has the event's device among its
/// eventing devices, where the number of the device is news: no such event is
/// missed, and no other is handled.
pub proof fn law_due_events_are_the_news(
    listing: Seq<(PoolUuid, (Seq<char>, StratPool))>,
    seen: Map<Seq<char>, u32>,
    handled: Map<Seq<char>, u32>,
    event: DueEventView,
)
    ensures
        due_events(listing, seen, handled).contains(event) == exists|i: int|
            {
                &&& 0 <= i < listing.len()
                &&& (#[trigger] listing[i]).0 == event.pool_uuid
                &&& listing[i].1.0 == event.pool_name
                &&& has_news(
                    texts(listing[i].1.1.eventing_dev_names@),
                    event.dm_name,
                    seen,
                    handled,
                )
            },
    decreases listing.len(),
{
    let concerns = |entry: (PoolUuid, (Seq<char>, StratPool))|
        {
            &&& entry.0 == event.pool_uuid
            &&& entry.1.0 == event.pool_name
            &&& has_news(texts(entry.1.1.eventing_dev_names@), event.dm_name, seen, handled)
        };
    if listing.len() > 0 {
        let shorter = listing.drop_last();
        law_due_events_are_the_news(shorter, seen, handled, event);
        let (pool_uuid, (pool_name, pool)) = listing.last();
        let names = texts(pool.eventing_dev_names@);
        lemma_pool_events_are_news(pool_uuid, pool_name, names, seen, handled, event);
        let before = due_events(shorter, seen, handled);
        let added = pool_events(pool_uuid, pool_name, names, seen, handled);
        let after = due_events(listing, seen, handled);
        assert(after == before + added);
        if before.contains(event) {
            assert(after[before.index_of(event)] == event);
            let i = choose|i: int| 0 <= i < shorter.len() && concerns(#[trigger] shorter[i]);
            assert(listing[i] == shorter[i]);
        }
        if added.contains(event) {
            assert(after[before.len() + added.index_of(event)] == event);
            assert(listing[listing.len() - 1] == listing.last());
        }
        if after.contains(event) {
            let k = after.index_of(event);
            if k < before.len() {
                assert(before[k] == event);
            } else {
                assert(added[k - before.len()] == event);
            }
        }
        if exists|i: int| 0 <= i < listing.len() && concerns(#[trigger] listing[i]) {
            let i = choose|i: int| 0 <= i < listing.len() && concerns(#[trigger] listing[i]);
            if i < shorter.len() {
                assert(concerns(shorter[i]));
            }
        }
    }
}

/// Step `i` of a round of events follows from the step before it and the result
/// of dealing with its first due event.
pub open spec fn round_goes(
    steps: Seq<EventStep>,
    results: Seq<StratisResult<()>>,
    before: Seq<EngineView>,
    after: Seq<EngineView>,
    i: int,
) -> bool {
    &&& steps[i] matches EventStep::Handle(round)
    &&& round_continued(before[i], round, results[i], steps[i + 1], after[i])
}

/// `steps` are the steps of a round of events that left the engine `begun` when
/// it was started, by the results between them, with the engine before and
/// after each result is taken. Between the steps pools deal with their events,
/// which leaves the numbers that were handled as they are.
pub open spec fn event_run(
    begun: EngineView,
    steps: Seq<EventStep>,
    results: Seq<StratisResult<()>>,
    before: Seq<EngineView>,
    after: Seq<EngineView>,
) -> bool {
    &&& steps.len() == results.len() + 1
    &&& before.len() == results.len()
    &&& after.len() == results.len()
    &&& forall|i: int|
        0 <= i < results.len() ==> #[trigger] round_goes(steps, results, before, after, i)
    &&& forall|i: int|
        0 <= i < results.len() ==> (#[trigger] before[i]).watched == left_by_step(
            begun,
            after,
            i,
        ).watched
}

/// The engine that step `i` of a round leaves.
pub open spec fn left_by_step(begun: EngineView, after: Seq<EngineView>, i: int) -> EngineView {
    if i == 0 {
        begun
    } else {
        after[i - 1]
    }
}

/// Step `i` of a round stands at event `i` of `due`.
pub open spec fn stands_at(
    steps: Seq<EventStep>,
    numbers: Map<Seq<char>, u32>,
    due: Seq<DueEventView>,
    i: int,
) -> bool {
    &&& steps[i] matches EventStep::Handle(round)
    &&& round.numbers@ == numbers
    &&& i < due.len()
    &&& event_views(round.due@) == due.skip(i)
    &&& round.due@[0]@ == due[i]
}

proof fn lemma_round_stands_at(
    start: EngineView,
    pools: Seq<(PoolUuid, (Seq<char>, StratPool))>,
    list: Vec<(String, Option<u32>)>,
    begun: EngineView,
    steps: Seq<EventStep>,
    results: Seq<StratisResult<()>>,
    before: Seq<EngineView>,
    after: Seq<EngineView>,
    n: int,
)
    requires
        round_started(start, pools, Ok(list), steps[0], begun),
        event_run(begun, steps, results, before, after),
        0 <= n < results.len(),
    ensures
        stands_at(
            steps,
            device_numbers(list@),
            due_events(pools, device_numbers(list@), start.watched),
            n,
        ),
        before[n].watched == start.watched,
        forall|j: int| 0 <= j < n ==> (#[trigger] results[j]) is Ok,
    decreases n,
{
    let numbers = device_numbers(list@);
    let due = due_events(pools, numbers, start.watched);
    assert(round_goes(steps, results, before, after, n));
    assert(before[n].watched == left_by_step(begun, after, n).watched);
    if let EventStep::Handle(round) = steps[n] {
        if n == 0 {
            assert(due.skip(0) =~= due);
        } else {
            lemma_round_stands_at(
                start,
                pools,
                list,
                begun,
                steps,
                results,
                before,
                after,
                n - 1,
            );
            assert(round_goes(steps, results, before, after, n - 1));
            if let EventStep::Handle(previous) = steps[n - 1] {
                assert(event_views(previous.due@).len() == previous.due@.len());
                assert(event_views(previous.due@.skip(1)) =~= event_views(previous.due@).skip(1));
                assert(due.skip(n - 1).skip(1) =~= due.skip(n));
                assert(round.due@ == previous.due@.skip(1));
            }
        }
        assert(event_views(round.due@).len() == round.due@.len());
        assert(event_views(round.due@)[0] == round.due@[0]@);
    }
}

/// A round of events deals with the due events one by one, each once and in
/// their order, until one fails or all are dealt with. If all go well, the
/// round ends, and the numbers that were seen when it was started are those
/// that were handled last. If one fails, the round ends with its error, and the
/// numbers that were handled last are as they were before the round.
pub proof fn law_event_round(
    start: EngineView,
    pools: Seq<(PoolUuid, (Seq<char>, StratPool))>,
    list: Vec<(String, Option<u32>)>,
    begun: EngineView,
    steps: Seq<EventStep>,
    results: Seq<StratisResult<()>>,
    before: Seq<EngineView>,
    after: Seq<EngineView>,
)
    requires
        round_started(start, pools, Ok(list), steps[0], begun),
        event_run(begun, steps, results, before, after),
    ensures
        ({
            let numbers = device_numbers(list@);
            let due = due_events(pools, numbers, start.watched);
            let end = left_by_step(begun, after, results.len() as int);
            &&& results.len() <= due.len()
            &&& forall|i: int|
                0 <= i < results.len() ==> #[trigger] stands_at(steps, numbers, due, i)
            &&& forall|i: int| 0 <= i < results.len() - 1 ==> (#[trigger] results[i]) is Ok
            &&& match steps.last() {
                EventStep::Handle(_) => {
                    &&& results.len() < due.len()
                    &&& stands_at(steps, numbers, due, results.len() as int)
                    &&& results.len() > 0 ==> results.last() is Ok
                    &&& end.watched == start.watched
                },
                EventStep::Done(Ok(_)) => {
                    &&& results.len() == due.len()
                    &&& results.len() > 0 ==> results.last() is Ok
                    &&& end.watched == numbers
                },
                EventStep::Done(Err(e)) => {
                    &&& results.len() > 0
                    &&& results.last() == Err::<(), StratisError>(e)
                    &&& end.watched == start.watched
                },
            }
        }),
{
    let numbers = device_numbers(list@);
    let due = due_events(pools, numbers, start.watched);
    let n = results.len() as int;
    assert forall|i: int| 0 <= i < n implies #[trigger] stands_at(steps, numbers, due, i) by {
        lemma_round_stands_at(start, pools, list, begun, steps, results, before, after, i);
    }
    if n > 0 {
        lemma_round_stands_at(start, pools, list, begun, steps, results, before, after, n - 1);
        assert(round_goes(steps, results, before, after, n - 1));
        if let EventStep::Handle(previous) = steps[n - 1] {
            assert(event_views(previous.due@).len() == previous.due@.len());
            if let EventStep::Handle(round) = steps[n] {
                assert(event_views(previous.due@.skip(1)) =~= event_views(previous.due@).skip(1));
                assert(due.skip(n - 1).skip(1) =~= due.skip(n));
                assert(event_views(round.due@)[0] == round.due@[0]@);
            }
        }
    } else if let EventStep::Handle(round) = steps[0] {
        assert(due.skip(0) =~= due);
        assert(event_views(round.due@).len() == round.due@.len());
        assert(event_views(round.due@)[0] == round.due@[0]@);
    }
}

/// An event is due for each device of a pool whose number has grown, by however
/// much, and for each whose number was not handled before; for no other. The
/// number that is seen is compared with the number that was handled last.
pub proof fn law_grown_numbers_are_due(
    listing: Seq<(PoolUuid, (Seq<char>, StratPool))>,
    seen: Map<Seq<char>, u32>,
    handled: Map<Seq<char>, u32>,
    i: int,
    k: int,
    event: DueEventView,
)
    requires
        0 <= i < listing.len(),
        0 <= k < listing[i].1.1.eventing_dev_names@.len(),
        event.pool_uuid == listing[i].0,
        event.pool_name == listing[i].1.0,
        event.dm_name == listing[i].1.1.eventing_dev_names@[k]@,
        forall|j: int|
            0 <= j < listing.len() && (#[trigger] listing[j]).0 == listing[i].0 ==> j == i,
    ensures
        due_events(listing, seen, handled).contains(event) == (seen.contains_key(event.dm_name)
            && (handled.contains_key(event.dm_name) ==> seen[event.dm_name]
            > handled[event.dm_name])),
{
    law_due_events_are_the_news(listing, seen, handled, event);
    let names = texts(listing[i].1.1.eventing_dev_names@);
    assert(names[k] == event.dm_name);
    if due_events(listing, seen, handled).contains(event) {
        let j = choose|j: int|
            {
                &&& 0 <= j < listing.len()
                &&& (#[trigger] listing[j]).0 == event.pool_uuid
                &&& listing[j].1.0 == event.pool_name
                &&& has_news(
                    texts(listing[j].1.1.eventing_dev_names@),
                    event.dm_name,
                    seen,
                    handled,
                )
            };
        assert(j == i);
    } else {
        assert(listing[i].0 == event.pool_uuid);
        assert(!has_news(names, event.dm_name, seen, handled));
    }
}

/// The events of some pools and then of others are those of the former and then
/// those of the latter, and the same holds of the devices of one pool. A pool
/// with one device has one event or none.
pub proof fn law_events_come_in_order(
    first: Seq<(PoolUuid, (Seq<char>, StratPool))>,
    second: Seq<(PoolUuid, (Seq<char>, StratPool))>,
    entry: (PoolUuid, (Seq<char>, StratPool)),
    names: Seq<Seq<char>>,
    more: Seq<Seq<char>>,
    name: Seq<char>,
    seen: Map<Seq<char>, u32>,
    handled: Map<Seq<char>, u32>,
)
    ensures
        due_events(first + second, seen, handled) == due_events(first, seen, handled)
            + due_events(second, seen, handled),
        due_events(seq![entry], seen, handled) == pool_events(
            entry.0,
            entry.1.0,
            entry.1.1.eventing_dev_names@.map_values(|dm_name: String| dm_name@),
            seen,
            handled,
        ),
        pool_events(entry.0, entry.1.0, names + more, seen, handled) == pool_events(
            entry.0,
            entry.1.0,
            names,
            seen,
            handled,
        ) + pool_events(entry.0, entry.1.0, more, seen, handled),
        pool_events(entry.0, entry.1.0, seq![name], seen, handled) == if seen.contains_key(name)
            && (handled.contains_key(name) ==> seen[name] > handled[name]) {
            seq![DueEventView { pool_uuid: entry.0, pool_name: entry.1.0, dm_name: name }]
        } else {
            Seq::empty()
        },
    decreases second.len() + more.len(),
{
    let names_of = entry.1.1.eventing_dev_names@.map_values(|dm_name: String| dm_name@);
    assert(names_of =~= texts(entry.1.1.eventing_dev_names@));
    let one = seq![entry];
    assert(one.drop_last() =~= Seq::empty());
    assert(due_events(one.drop_last(), seen, handled) =~= Seq::empty());
    let single = seq![name];
    assert(single.drop_last() =~= Seq::empty());
    assert(pool_events(entry.0, entry.1.0, single.drop_last(), seen, handled) =~= Seq::empty());
    if second.len() > 0 {
        assert((first + second).drop_last() =~= first + second.drop_last());
        law_events_come_in_order(
            first,
            second.drop_last(),
            entry,
            names,
            more,
            name,
            seen,
            handled,
        );
    } else {
        assert(first + second =~= first);
    }
    if more.len() > 0 {
        assert((names + more).drop_last() =~= names + more.drop_last());
        law_events_come_in_order(
            first,
            second,
            entry,
            names,
            more.drop_last(),
            name,
            seen,
            handled,
        );
    } else {
        assert(names + more =~= names);
    }
}

/// A device has the number that is listed last for it, and none if it is not
/// listed.
pub proof fn law_last_number_counts(list: Seq<(String, Option<u32>)>, name: Seq<char>, i: int)
    ensures
        (forall|j: int| 0 <= j < list.len() ==> (#[trigger] list[j]).0@ != name)
            ==> !device_numbers(list).contains_key(name),
        0 <= i < list.len() && list[i].0@ == name && (forall|j: int|
            i < j < list.len() ==> (#[trigger] list[j]).0@ != name) ==> device_numbers(
            list,
        ).contains_key(name) && (list[i].1 matches Some(number) ==> device_numbers(list)[name]
            == number),
    decreases list.len(),
{
    if list.len() > 0 {
        let shorter = list.drop_last();
        law_last_number_counts(shorter, name, i);
        assert(list[list.len() - 1] == list.last());
        assert forall|j: int| 0 <= j < shorter.len() implies #[trigger] shorter[j] == list[j] by {}
    }
}

/// What is due when devices are listed. `listed` is the place of a device's last
/// number in the listing, and the device is one of a pool that is set up. If its
/// number has grown, or none was handled before, the pool is to deal with the
/// device; what is to be dealt with is always such a device of such a pool.
/// Nothing is handled before that, and if nothing is due, all numbers that are
/// listed are handled.
pub proof fn law_listing(
    engine: &mut StratEngine,
    list: Vec<(String, Option<u32>)>,
    step: EventStep,
    uuid: PoolUuid,
    k: int,
    listed: int,
    number: u32,
)
    requires
        old(engine).wf(),
        call_ensures(StratEngine::evented, (engine, Ok(list)), step),
        old(engine)@.pools.contains_key(uuid),
        0 <= k < old(engine)@.pools[uuid].1.eventing_dev_names@.len(),
        0 <= listed < list@.len(),
        list@[listed].0@ == old(engine)@.pools[uuid].1.eventing_dev_names@[k]@,
        list@[listed].1 == Some(number),
        forall|j: int|
            listed < j < list@.len() ==> (#[trigger] list@[j]).0@ != list@[listed].0@,
    ensures
        ({
            let name = list@[listed].0@;
            let watched = old(engine)@.watched;
            let grown = watched.contains_key(name) ==> watched[name] < number;
            &&& grown == (step matches EventStep::Handle(round) && exists|j: int|
                {
                    &&& 0 <= j < round.due@.len()
                    &&& (#[trigger] round.due@[j]).pool_uuid == uuid
                    &&& round.due@[j].pool_name@ == old(engine)@.pools[uuid].0
                    &&& round.due@[j].dm_name@ == name
                })
            &&& step is Handle ==> *final(engine) == *old(engine)
            &&& step matches EventStep::Handle(round) ==> round.due@.len() > 0
                && round.numbers@.contains_key(name) && round.numbers@[name] == number
            &&& step is Done ==> {
                &&& step == EventStep::Done(Ok(()))
                &&& final(engine)@.pools == old(engine)@.pools
                &&& final(engine)@.incomplete_pools == old(engine)@.incomplete_pools
                &&& final(engine)@.watched.contains_key(name)
                &&& final(engine)@.watched[name] == number
            }
        }),
{
    let name = list@[listed].0@;
    let numbers = device_numbers(list@);
    let pools = old(engine).pool_listing();
    let watched = old(engine)@.watched;
    let due = due_events(pools, numbers, watched);
    law_last_number_counts(list@, name, listed);
    old(engine).lemma_wf();
    let i = lemma_map_in_pairs(pools, uuid);
    assert forall|j: int| 0 <= j < pools.len() && (#[trigger] pools[j]).0 == pools[i].0 implies j
        == i by {
        if j < i {
            assert(pools[j].0 != pools[i].0);
        } else if i < j {
            assert(pools[i].0 != pools[j].0);
        }
    }
    let event = DueEventView {
        pool_uuid: uuid,
        pool_name: old(engine)@.pools[uuid].0,
        dm_name: name,
    };
    law_grown_numbers_are_due(pools, numbers, watched, i, k, event);
    if let EventStep::Handle(round) = step {
        let views = event_views(round.due@);
        assert(views.len() == round.due@.len());
        assert forall|j: int| 0 <= j < views.len() implies #[trigger] views[j]
            == round.due@[j]@ by {}
        if due.contains(event) {
            let j = due.index_of(event);
            assert(views[j] == round.due@[j]@);
        }
        if exists|j: int|
            {
                &&& 0 <= j < round.due@.len()
                &&& (#[trigger] round.due@[j]).pool_uuid == uuid
                &&& round.due@[j].pool_name@ == event.pool_name
                &&& round.due@[j].dm_name@ == name
            } {
            let j = choose|j: int|
                {
                    &&& 0 <= j < round.due@.len()
                    &&& (#[trigger] round.due@[j]).pool_uuid == uuid
                    &&& round.due@[j].pool_name@ == event.pool_name
                    &&& round.due@[j].dm_name@ == name
                };
            assert(views[j] == event);
        }
    }
}

/// Whatever is to be dealt with is a device of a pool that is set up, under the
/// pool's name, and its number, the last one listed, is new or has grown.
pub proof fn law_due_event(
    engine: &mut StratEngine,
    list: Vec<(String, Option<u32>)>,
    round: EventRound,
    j: int,
)
    requires
        old(engine).wf(),
        call_ensures(StratEngine::evented, (engine, Ok(list)), EventStep::Handle(round)),
        0 <= j < round.due@.len(),
    ensures
        ({
            let event = round.due@[j];
            let name = event.dm_name@;
            let watched = old(engine)@.watched;
            &&& old(engine)@.pools.contains_key(event.pool_uuid)
            &&& event.pool_name@ == old(engine)@.pools[event.pool_uuid].0
            &&& exists|k: int|
                0 <= k < old(engine)@.pools[event.pool_uuid].1.eventing_dev_names@.len() && (
                #[trigger] old(engine)@.pools[event.pool_uuid].1.eventing_dev_names@[k])@ == name
            &&& round.numbers@.contains_key(name)
            &&& watched.contains_key(name) ==> watched[name] < round.numbers@[name]
        }),
{
    let event = round.due@[j]@;
    let numbers = device_numbers(list@);
    let pools = old(engine).pool_listing();
    let watched = old(engine)@.watched;
    assert(event_views(round.due@)[j] == event);
    assert(due_events(pools, numbers, watched).contains(event));
    law_due_events_are_the_news(pools, numbers, watched, event);
    let i = choose|i: int|
        {
            &&& 0 <= i < pools.len()
            &&& (#[trigger] pools[i]).0 == event.pool_uuid
            &&& pools[i].1.0 == event.pool_name
            &&& has_news(texts(pools[i].1.1.eventing_dev_names@), event.dm_name, numbers, watched)
        };
    old(engine).lemma_wf();
    lemma_pair_in_map(pools, i);
    let names = texts(pools[i].1.1.eventing_dev_names@);
    let k = names.index_of(event.dm_name);
    assert(pools[i].1.1.eventing_dev_names@[k]@ == names[k]);
}

/// Devices that cannot be listed are an error, and nothing happens.
pub proof fn law_failed_listing(engine: &mut StratEngine, e: StratisError, step: EventStep)
    requires
        call_ensures(StratEngine::evented, (engine, Err(e)), step),
    ensures
        step == EventStep::Done(Err(e)),
        *final(engine) == *old(engine),
{
}

/// An event that went well makes way for the next, and after the last one the
/// numbers of the round are those that count as handled. An event that fails
/// ends the round with its error, and nothing counts as handled.
pub proof fn law_event_answer(
    engine: &mut StratEngine,
    round: EventRound,
    handled: StratisResult<()>,
    step: EventStep,
)
    requires
        call_ensures(StratEngine::event_handled, (engine, round, handled), step),
    ensures
        handled matches Err(e) ==> {
            &&& step == EventStep::Done(Err(e))
            &&& *final(engine) == *old(engine)
        },
        handled is Ok && round.due@.len() > 1 ==> {
            &&& step matches EventStep::Handle(rest)
            &&& rest.due@.len() == round.due@.len() - 1
            &&& forall|j: int| 0 <= j < rest.due@.len() ==> #[trigger] rest.due@[j] == round.due@[j
                + 1]
            &&& rest.numbers@ == round.numbers@
            &&& *final(engine) == *old(engine)
        },
        handled is Ok && round.due@.len() <= 1 ==> {
            &&& step == EventStep::Done(Ok(()))
            &&& final(engine)@.watched == round.numbers@
            &&& final(engine)@.pools == old(engine)@.pools
            &&& final(engine)@.incomplete_pools == old(engine)@.incomplete_pools
        },
{
}

/// A listing in which nothing is due, and a round that it starts, take exactly
/// the devices that are listed for known.
pub proof fn law_listed_devices_are_known(
    engine: &mut StratEngine,
    list: Vec<(String, Option<u32>)>,
    step: EventStep,
    name: Seq<char>,
)
    requires
        call_ensures(StratEngine::evented, (engine, Ok(list)), step),
        forall|j: int| 0 <= j < list@.len() ==> (#[trigger] list@[j]).0@ != name,
    ensures
        step matches EventStep::Handle(round) ==> !round.numbers@.contains_key(name),
        step is Done ==> !final(engine)@.watched.contains_key(name),
{
    law_last_number_counts(list@, name, 0);
}

/// The events that are to be dealt with when devices are listed are those that
/// are due, each as often as it is due, in the order in which the pools are
/// visited. If none is due, the listing is handled with that.
pub proof fn law_due_order(
    engine: &mut StratEngine,
    list: Vec<(String, Option<u32>)>,
    step: EventStep,
)
    requires
        call_ensures(StratEngine::evented, (engine, Ok(list)), step),
    ensures
        ({
            let numbers = device_numbers(list@);
            let due = due_events(old(engine).pool_listing(), numbers, old(engine)@.watched);
            &&& (due.len() > 0) == step is Handle
            &&& step matches EventStep::Handle(round) ==> {
                &&& round.numbers@ == numbers
                &&& round.due@.len() == due.len()
                &&& forall|j: int|
                    0 <= j < due.len() ==> (#[trigger] round.due@[j]).pool_uuid == due[j].pool_uuid
                        && round.due@[j].pool_name@ == due[j].pool_name && round.due@[j].dm_name@
                        == due[j].dm_name
            }
            &&& step is Done ==> step == EventStep::Done(Ok(())) && final(engine)@.watched
                == numbers
        }),
{
    if let EventStep::Handle(round) = step {
        let views = event_views(round.due@);
        assert(views.len() == round.due@.len());
        assert forall|j: int| 0 <= j < views.len() implies views[j] == (
        #[trigger] round.due@[j])@ by {}
    }
}

/// Events can be handled at any time, for any devices that are listed with their
/// numbers, and the engine is left in order.
pub proof fn law_events_are_admitted(
    engine: &mut StratEngine,
    devices: StratisResult<Vec<(String, Option<u32>)>>,
    round: EventRound,
    handled: StratisResult<()>,
    step: EventStep,
)
    requires
        devices matches Ok(list) ==> forall|i: int|
            0 <= i < list@.len() ==> (#[trigger] list@[i]).1 is Some,
    ensures
        old(engine).wf() ==> call_requires(StratEngine::evented, (engine, devices))
            && call_requires(StratEngine::event_handled, (engine, round, handled)),
        call_ensures(StratEngine::evented, (engine, devices), step) ==> final(engine).wf(),
        call_ensures(StratEngine::event_handled, (engine, round, handled), step)
            ==> final(engine).wf(),
{
}

} // verus!
