//! Pools that join, leave and get new names.
use vstd::prelude::*;

use crate::assoc::{lemma_map_in_pairs, lemma_pair_in_map};
use crate::engine::{
    creation_ended, creation_refusal, destruction_ended, destruction_started, renaming_ended,
    renaming_started, DestroyStep, DetachedPool, Effect, EngineEvent, EngineView, Outcome,
    PoolCreation, PoolRenaming, RenameStep, StratEngine,
};
use crate::errors::{ErrorEnum, StratisError, StratisResult};
use crate::table::{distinct_names, has_name, with_item};
use crate::types::{
    Device, IncompletePools, Name, PoolUuid, Redundancy, RenameAction, StratPool,
};

verus! {

/// Pools that are set up, each with its name.
pub type Pools = Map<PoolUuid, (Seq<char>, StratPool)>;

/// Pools, each with the devices that were found of it.
pub type Found = Map<PoolUuid, Map<Device, Seq<char>>>;

/// No step of an operation ever leaves two pools under one name.
pub proof fn law_names_stay_distinct(
    engine: EngineView,
    name: Seq<char>,
    uuid: PoolUuid,
    pool: StratPool,
)
    requires
        distinct_names(engine.pools),
    ensures
        distinct_names(engine.with_pool(name, uuid, pool).pools),
        distinct_names(engine.without_pool(uuid).pools),
{
    let pools = engine.pools;
    let after = engine.with_pool(name, uuid, pool).pools;
    assert forall|a: PoolUuid, b: PoolUuid|
        #![trigger after[a], after[b]]
        after.contains_key(a) && after.contains_key(b) && after[a].0 == after[b].0 implies a
        == b by {
        if a != uuid && b != uuid {
            assert(after[a] == pools[a] && after[b] == pools[b]);
        }
    }
    let fewer = engine.without_pool(uuid).pools;
    assert forall|a: PoolUuid, b: PoolUuid|
        #![trigger fewer[a], fewer[b]]
        fewer.contains_key(a) && fewer.contains_key(b) && fewer[a].0 == fewer[b].0 implies a
        == b by {
        assert(fewer[a] == pools[a] && fewer[b] == pools[b]);
    }
}

/// A pool that joins the others under a name that none of them has is found
/// under its UUID with that name, and takes the place of no pool with another
/// UUID.
pub proof fn law_free_name_displaces_nothing(
    engine: EngineView,
    name: Seq<char>,
    uuid: PoolUuid,
    pool: StratPool,
)
    requires
        !has_name(engine.pools, name),
    ensures
        engine.with_pool(name, uuid, pool).pools == engine.pools.insert(uuid, (name, pool)),
{
    let pools = engine.pools;
    assert forall|u: PoolUuid| pools.contains_key(u) implies (#[trigger] pools[u]).0 != name by {}
    assert(with_item(pools, name, uuid, pool) =~= pools.insert(uuid, (name, pool)));
}

/// A pool that leaves the others and joins them again under its name is there
/// as it comes back, whatever was done to it in between, and the rest of the
/// engine is as it was. If nothing was done to it, there is no trace.
pub proof fn law_failed_work_restores(engine: EngineView, uuid: PoolUuid, pool: StratPool)
    requires
        distinct_names(engine.pools),
        engine.pools.contains_key(uuid),
    ensures
        engine.without_pool(uuid).with_pool(engine.pools[uuid].0, uuid, pool)
            == engine.with_changed(engine.pools[uuid].0, uuid, pool),
        engine.with_changed(engine.pools[uuid].0, uuid, engine.pools[uuid].1) == engine,
{
    let pools = engine.pools;
    let name = pools[uuid].0;
    let after = engine.without_pool(uuid).with_pool(name, uuid, pool).pools;
    assert forall|u: PoolUuid| after.contains_key(u) == pools.contains_key(u) by {
        if u != uuid && pools.contains_key(u) {
            assert(pools[u].0 != pools[uuid].0);
            assert(pools.remove(uuid)[u] == pools[u]);
        }
    }
    assert(after =~= pools.insert(uuid, (name, pool)));
    assert(pools.insert(uuid, pools[uuid]) =~= pools);
}

/// A pool that leaves the others and joins them again under a free name is
/// found under its UUID with that name, as it comes back, no pool has its old
/// name any more, and the rest of the engine is as it was.
pub proof fn law_renamed(
    engine: EngineView,
    uuid: PoolUuid,
    new_name: Seq<char>,
    pool: StratPool,
)
    requires
        distinct_names(engine.pools),
        engine.pools.contains_key(uuid),
        !has_name(engine.pools, new_name),
    ensures
        engine.without_pool(uuid).with_pool(new_name, uuid, pool) == engine.with_changed(
            new_name,
            uuid,
            pool,
        ),
        !has_name(engine.with_changed(new_name, uuid, pool).pools, engine.pools[uuid].0),
{
    let pools = engine.pools;
    let after = engine.without_pool(uuid).with_pool(new_name, uuid, pool).pools;
    assert(pools[uuid].0 != new_name);
    assert forall|u: PoolUuid| u != uuid && pools.contains_key(u) implies (#[trigger] pools[u]).0
        != new_name && pools[u].0 != pools[uuid].0 by {}
    assert forall|u: PoolUuid| after.contains_key(u) == pools.contains_key(u) by {
        if u != uuid && pools.contains_key(u) {
            assert(pools[u].0 != new_name);
            assert(pools.remove(uuid)[u] == pools[u]);
        }
    }
    let changed = pools.insert(uuid, (new_name, pool));
    assert(after =~= changed);
    assert forall|u: PoolUuid| changed.contains_key(u) implies (#[trigger] changed[u]).0
        != pools[uuid].0 by {
        if u != uuid {
            assert(changed[u] == pools[u]);
        }
    }
}

/// A renaming that is carried out, whatever that does to the pool itself, gives
/// the pool its new name if it goes well and leaves it its old one if not. No
/// other pool, no UUID, and nothing else that the engine keeps is changed.
pub proof fn law_renaming(
    before: EngineView,
    uuid: PoolUuid,
    new_name: Seq<char>,
    asked: PoolRenaming,
    between: EngineView,
    done: PoolRenaming,
    written: StratisResult<()>,
    outcome: Outcome<RenameAction>,
    after: EngineView,
)
    requires
        distinct_names(before.pools),
        renaming_started(
            before,
            uuid,
            new_name,
            Ok(()),
            RenameStep::WriteMetadata(asked),
            between,
        ),
        done == (PoolRenaming { pool: done.pool, ..asked }),
        renaming_ended(between, done, written, outcome, after),
    ensures
        written is Ok ==> after == before.with_changed(new_name, uuid, done.pool),
        written is Err ==> after == before.with_changed(before.pools[uuid].0, uuid, done.pool),
{
    law_renamed(before, uuid, new_name, done.pool);
    law_failed_work_restores(before, uuid, done.pool);
}

/// A destruction that fails, whatever it did to the pool itself, leaves the pool
/// under its name and UUID, and everything else as it was.
pub proof fn law_failed_destruction(
    before: EngineView,
    uuid: PoolUuid,
    asked: DetachedPool,
    between: EngineView,
    done: DetachedPool,
    destroyed: StratisResult<()>,
    outcome: Outcome<bool>,
    after: EngineView,
)
    requires
        distinct_names(before.pools),
        destruction_started(before, uuid, DestroyStep::Destroy(asked), between),
        done == (DetachedPool { pool: done.pool, ..asked }),
        destroyed is Err,
        destruction_ended(between, done, destroyed, outcome, after),
    ensures
        after == before.with_changed(before.pools[uuid].0, uuid, done.pool),
{
    law_failed_work_restores(before, uuid, done.pool);
}

/// Taking a pool away undoes its joining the others, where its name and its
/// UUID were free.
pub proof fn law_removal_undoes_addition(
    engine: EngineView,
    name: Seq<char>,
    uuid: PoolUuid,
    pool: StratPool,
)
    requires
        !has_name(engine.pools, name),
        !engine.pools.contains_key(uuid),
    ensures
        engine.with_pool(name, uuid, pool).without_pool(uuid) == engine,
{
    law_free_name_displaces_nothing(engine, name, uuid, pool);
    assert(engine.pools.insert(uuid, (name, pool)).remove(uuid) =~= engine.pools);
}

/// Destroying a pool undoes its creation, and is done once. A pool is created
/// under a name that was not refused and a UUID that no pool had; whatever it
/// becomes in the meantime, it has no filesystems when it is to be destroyed,
/// and its destruction goes well. Then the engine is as it was before, and a
/// second request to destroy the pool changes nothing.
pub proof fn law_destruction_undoes_creation(
    before: EngineView,
    creation: PoolCreation,
    uuid: PoolUuid,
    pool: StratPool,
    created: Outcome<PoolUuid>,
    with_pool: EngineView,
    changed: StratPool,
    first: DestroyStep,
    between: EngineView,
    detached: DetachedPool,
    destroyed: Outcome<bool>,
    after: EngineView,
    second: DestroyStep,
    last: EngineView,
)
    requires
        creation_refusal(before.pools, creation.name@, Ok(creation.redundancy), Ok(())) is None,
        !before.pools.contains_key(uuid),
        creation_ended(before, creation, Ok((uuid, pool)), created, with_pool),
        changed.filesystems@.len() == 0,
        destruction_started(
            with_pool.with_changed(creation.name@, uuid, changed),
            uuid,
            first,
            between,
        ),
        destruction_ended(between, detached, Ok(()), destroyed, after),
        destruction_started(after, uuid, second, last),
    ensures
        created.result == Ok::<PoolUuid, StratisError>(uuid),
        first matches DestroyStep::Destroy(given) && given.name@ == creation.name@ && given.uuid
            == uuid && given.pool == changed,
        destroyed.result == Ok::<bool, StratisError>(true),
        after == before,
        second == DestroyStep::Done(Ok(false)),
        last == before,
{
    law_free_name_displaces_nothing(before, creation.name@, uuid, pool);
    law_free_name_displaces_nothing(before, creation.name@, uuid, changed);
    assert(with_pool.with_changed(creation.name@, uuid, changed) =~= before.with_pool(
        creation.name@,
        uuid,
        changed,
    ));
    law_removal_undoes_addition(before, creation.name@, uuid, changed);
}

/// No pool is both set up and incomplete.
pub open spec fn kept_apart(engine: EngineView) -> bool {
    forall|uuid: PoolUuid|
        #![trigger engine.pools.contains_key(uuid)]
        #![trigger engine.incomplete_pools.contains_key(uuid)]
        !(engine.pools.contains_key(uuid) && engine.incomplete_pools.contains_key(uuid))
}

/// The pools that are set up stay apart from those that are not: when a pool is
/// created under a UUID for which no devices are kept, and when a pool is
/// destroyed or renamed, whether that goes well or not.
pub proof fn law_pools_stay_apart(
    engine: EngineView,
    name: Seq<char>,
    uuid: PoolUuid,
    pool: StratPool,
)
    requires
        kept_apart(engine),
    ensures
        !engine.incomplete_pools.contains_key(uuid) ==> kept_apart(
            engine.with_pool(name, uuid, pool),
        ),
        kept_apart(engine.without_pool(uuid)),
        engine.pools.contains_key(uuid) ==> kept_apart(
            engine.without_pool(uuid).with_pool(name, uuid, pool),
        ),
{
    assert forall|u: PoolUuid| !(engine.pools.contains_key(u)
        && #[trigger] engine.incomplete_pools.contains_key(u)) by {}
}

/// A request to create a pool is refused for what is wrong with the redundancy
/// or with the name, or because a pool has the name already. Any other request
/// is granted, and handed on as it was made.
pub proof fn law_creation_request(
    engine: &StratEngine,
    name: &str,
    blockdev_paths: Vec<String>,
    redundancy: StratisResult<Redundancy>,
    validated: StratisResult<()>,
    result: StratisResult<PoolCreation>,
)
    requires
        call_ensures(
            StratEngine::create_pool,
            (engine, name, blockdev_paths, redundancy, validated),
            result,
        ),
    ensures
        redundancy matches Err(e) ==> result == Err::<PoolCreation, StratisError>(e),
        redundancy is Ok ==> (validated matches Err(e) ==> result == Err::<
            PoolCreation,
            StratisError,
        >(e)),
        redundancy is Ok && validated is Ok ==> forall|u: PoolUuid|
            engine@.pools.contains_key(u) && (#[trigger] engine@.pools[u]).0 == name@ ==> {
                &&& result matches Err(StratisError::Engine(ErrorEnum::AlreadyExists, message))
                &&& message@ == name@
            },
        redundancy is Ok && validated is Ok && (forall|u: PoolUuid|
            engine@.pools.contains_key(u) ==> (#[trigger] engine@.pools[u]).0 != name@) ==> {
            &&& result matches Ok(creation)
            &&& creation.name@ == name@
            &&& creation.blockdev_paths@ == blockdev_paths@
            &&& redundancy == Ok::<Redundancy, StratisError>(creation.redundancy)
        },
{
    assert forall|u: PoolUuid|
        redundancy is Ok && validated is Ok && engine@.pools.contains_key(u) && (
        #[trigger] engine@.pools[u]).0 == name@ implies {
        &&& result matches Err(StratisError::Engine(ErrorEnum::AlreadyExists, message))
        &&& message@ == name@
    } by {
        assert(has_name(engine@.pools, name@));
    }
}

/// A pool that was created is there under its UUID, with the name that was asked
/// for and just as it was made, and its UUID is the result. It is linked. A pool
/// with another name and another UUID stays as it is, and so does all else that
/// the engine keeps. If there is no new pool, nothing happens.
pub proof fn law_creation_end(
    engine: &mut StratEngine,
    creation: PoolCreation,
    initialized: StratisResult<(PoolUuid, StratPool)>,
    outcome: Outcome<PoolUuid>,
)
    requires
        call_ensures(StratEngine::pool_created, (engine, creation, initialized), outcome),
    ensures
        initialized matches Err(e) ==> {
            &&& outcome.result == Err::<PoolUuid, StratisError>(e)
            &&& outcome.effects@.len() == 0
            &&& *final(engine) == *old(engine)
        },
        initialized matches Ok((uuid, pool)) ==> {
            &&& outcome.result == Ok::<PoolUuid, StratisError>(uuid)
            &&& outcome.effects@.len() == 1
            &&& outcome.effects@[0] matches Effect::LinkPool(name)
            &&& name@ == creation.name@
            &&& joins(old(engine)@, creation.name@, uuid, pool, final(engine)@)
        },
{
    assert(outcome.effects_view().len() == outcome.effects@.len());
    if initialized is Ok {
        assert(outcome.effects_view()[0] == outcome.effects@[0]@);
    }
}

/// `after` is `before` with `pool` under `uuid` and `name`: any other pool of
/// `before` is kept as it is, unless it has the same name.
pub open spec fn joins_pools(
    before: Pools,
    name: Seq<char>,
    uuid: PoolUuid,
    pool: StratPool,
    after: Pools,
) -> bool {
    &&& after.contains_key(uuid)
    &&& after[uuid].0 == name
    &&& after[uuid].1 == pool
    &&& forall|u: PoolUuid| #[trigger]
        after.contains_key(u) && u != uuid ==> before.contains_key(u) && before[u].0 != name
            && after[u] == before[u]
    &&& forall|u: PoolUuid| #[trigger]
        before.contains_key(u) && u != uuid && before[u].0 != name ==> after.contains_key(u)
}

/// `pool` joins the pools of the engine, and nothing else is changed.
pub open spec fn joins(
    before: EngineView,
    name: Seq<char>,
    uuid: PoolUuid,
    pool: StratPool,
    after: EngineView,
) -> bool {
    &&& joins_pools(before.pools, name, uuid, pool, after.pools)
    &&& after.incomplete_pools == before.incomplete_pools
    &&& after.watched == before.watched
}

/// `after` is `before` without the pool `uuid`, and otherwise the same.
pub open spec fn leaves(before: EngineView, uuid: PoolUuid, after: EngineView) -> bool {
    &&& !after.pools.contains_key(uuid)
    &&& forall|u: PoolUuid| #[trigger]
        after.pools.contains_key(u) ==> before.pools.contains_key(u) && after.pools[u]
            == before.pools[u]
    &&& forall|u: PoolUuid| #[trigger]
        before.pools.contains_key(u) && u != uuid ==> after.pools.contains_key(u)
    &&& after.incomplete_pools == before.incomplete_pools
    &&& after.watched == before.watched
}

/// No pool with a filesystem on it is ever handed out to be destroyed: it is
/// busy, and stays. A pool without filesystems is always handed out, as it is,
/// and leaves the others. Where there is no such pool, nothing happens.
pub proof fn law_destruction_request(engine: &mut StratEngine, uuid: PoolUuid, step: DestroyStep)
    requires
        call_ensures(StratEngine::destroy_pool, (engine, uuid), step),
    ensures
        !old(engine)@.pools.contains_key(uuid) ==> {
            &&& step == DestroyStep::Done(Ok(false))
            &&& final(engine)@ == old(engine)@
        },
        old(engine)@.pools.contains_key(uuid) && old(engine)@.pools[uuid].1.filesystems@.len() > 0
            ==> {
            &&& step matches DestroyStep::Done(Err(StratisError::Engine(ErrorEnum::Busy, message)))
            &&& message@ == "filesystems remaining on pool"@
            &&& final(engine)@ == old(engine)@
        },
        old(engine)@.pools.contains_key(uuid) && old(engine)@.pools[uuid].1.filesystems@.len() == 0
            ==> step is Destroy,
        step matches DestroyStep::Destroy(detached) ==> {
            &&& detached.pool.filesystems@.len() == 0
            &&& detached.uuid == uuid
            &&& old(engine)@.pools.contains_key(uuid)
            &&& detached.name@ == old(engine)@.pools[uuid].0
            &&& detached.pool == old(engine)@.pools[uuid].1
            &&& leaves(old(engine)@, uuid, final(engine)@)
        },
{
}

/// A pool that was destroyed is unlinked, and the engine stays without it. A
/// pool that was not is there again as it is handed back.
pub proof fn law_destruction_end(
    engine: &mut StratEngine,
    detached: DetachedPool,
    destroyed: StratisResult<()>,
    outcome: Outcome<bool>,
)
    requires
        call_ensures(StratEngine::pool_destroyed, (engine, detached, destroyed), outcome),
    ensures
        destroyed is Ok ==> {
            &&& outcome.result == Ok::<bool, StratisError>(true)
            &&& outcome.effects@.len() == 1
            &&& outcome.effects@[0] matches Effect::UnlinkPool(name)
            &&& name@ == detached.name@
            &&& *final(engine) == *old(engine)
        },
        destroyed matches Err(e) ==> {
            &&& outcome.result == Err::<bool, StratisError>(e)
            &&& outcome.effects@.len() == 0
            &&& joins(
                old(engine)@,
                detached.name@,
                detached.uuid,
                detached.pool,
                final(engine)@,
            )
        },
{
    assert(outcome.effects_view().len() == outcome.effects@.len());
    if destroyed is Ok {
        assert(outcome.effects_view()[0] == outcome.effects@[0]@);
    }
}

/// A pool that is there can be renamed to any valid name that no pool has,
/// whatever the pool holds: it leaves the others, to have its metadata written.
/// A request that is not valid, or for no pool, or for a name that the pool or
/// another one has, changes nothing.
pub proof fn law_renaming_request(
    engine: &mut StratEngine,
    uuid: PoolUuid,
    new_name: &str,
    validated: StratisResult<()>,
    step: RenameStep,
)
    requires
        call_ensures(StratEngine::rename_pool, (engine, uuid, new_name, validated), step),
    ensures
        step is Done ==> final(engine)@ == old(engine)@,
        validated matches Err(e) ==> step == RenameStep::Done(Err(e)),
        validated is Ok && !old(engine)@.pools.contains_key(uuid) ==> step == RenameStep::Done(
            Ok(RenameAction::NoSource),
        ),
        validated is Ok && old(engine)@.pools.contains_key(uuid) && old(engine)@.pools[uuid].0
            == new_name@ ==> step == RenameStep::Done(Ok(RenameAction::Identity)),
        validated is Ok && old(engine)@.pools.contains_key(uuid) && old(engine)@.pools[uuid].0
            != new_name@ ==> forall|u: PoolUuid|
            old(engine)@.pools.contains_key(u) && (#[trigger] old(engine)@.pools[u]).0 == new_name@
                ==> {
                &&& step matches RenameStep::Done(
                    Err(StratisError::Engine(ErrorEnum::AlreadyExists, message)),
                )
                &&& message@ == new_name@
            },
        validated is Ok && old(engine)@.pools.contains_key(uuid) && (forall|u: PoolUuid|
            old(engine)@.pools.contains_key(u) ==> (#[trigger] old(engine)@.pools[u]).0
                != new_name@) ==> step is WriteMetadata,
        step matches RenameStep::WriteMetadata(renaming) ==> {
            &&& renaming.uuid == uuid
            &&& renaming.new_name@ == new_name@
            &&& old(engine)@.pools.contains_key(uuid)
            &&& renaming.old_name@ == old(engine)@.pools[uuid].0
            &&& renaming.pool == old(engine)@.pools[uuid].1
            &&& leaves(old(engine)@, uuid, final(engine)@)
        },
{
    let pools = old(engine)@.pools;
    assert forall|u: PoolUuid|
        validated is Ok && pools.contains_key(uuid) && pools[uuid].0 != new_name@
            && pools.contains_key(u) && (#[trigger] pools[u]).0 == new_name@ implies {
        &&& step matches RenameStep::Done(
            Err(StratisError::Engine(ErrorEnum::AlreadyExists, message)),
        )
        &&& message@ == new_name@
    } by {
        assert(has_name(pools, new_name@));
    }
    if pools.contains_key(uuid) && (forall|u: PoolUuid|
        pools.contains_key(u) ==> (#[trigger] pools[u]).0 != new_name@) {
        assert(pools[uuid].0 != new_name@);
        assert(!has_name(pools, new_name@));
    }
}

/// A pool that was renamed is there under its new name as it is handed back; the
/// listeners hear of it by the path the pool is known under, and then its links
/// are moved. One that was not is there under its old name.
pub proof fn law_renaming_end(
    engine: &mut StratEngine,
    renaming: PoolRenaming,
    written: StratisResult<()>,
    outcome: Outcome<RenameAction>,
)
    requires
        call_ensures(StratEngine::pool_renamed, (engine, renaming, written), outcome),
    ensures
        written is Ok ==> {
            &&& outcome.result == Ok::<RenameAction, StratisError>(RenameAction::Renamed)
            &&& outcome.effects@.len() == 2
            &&& outcome.effects@[0] matches Effect::Notify(
                EngineEvent::PoolRenamed { dbus_path, from, to },
            )
            &&& dbus_path is Some == renaming.pool.dbus_path is Some
            &&& dbus_path is Some ==> dbus_path->0@ == renaming.pool.dbus_path->0@
            &&& from@ == renaming.old_name@
            &&& to@ == renaming.new_name@
            &&& outcome.effects@[1] matches Effect::RelinkPool { from: old_name, to: new_name }
            &&& old_name@ == renaming.old_name@
            &&& new_name@ == renaming.new_name@
            &&& joins(
                old(engine)@,
                renaming.new_name@,
                renaming.uuid,
                renaming.pool,
                final(engine)@,
            )
        },
        written matches Err(e) ==> {
            &&& outcome.result == Err::<RenameAction, StratisError>(e)
            &&& outcome.effects@.len() == 0
            &&& joins(
                old(engine)@,
                renaming.old_name@,
                renaming.uuid,
                renaming.pool,
                final(engine)@,
            )
        },
{
    assert(outcome.effects_view().len() == outcome.effects@.len());
    if written is Ok {
        assert(outcome.effects_view()[0] == outcome.effects@[0]@);
        assert(outcome.effects_view()[1] == outcome.effects@[1]@);
    }
}

/// A pool is found by its UUID, with its name, exactly where the engine has one.
pub proof fn law_pool_lookup(
    engine: &StratEngine,
    uuid: PoolUuid,
    found: Option<(Name, &StratPool)>,
)
    requires
        call_ensures(StratEngine::get_pool, (engine, uuid), found),
    ensures
        found is Some == engine@.pools.contains_key(uuid),
        found matches Some((name, pool)) ==> name@ == engine@.pools[uuid].0 && *pool
            == engine@.pools[uuid].1,
{
}

/// What is done to a pool that was found is done to the engine's own, and to
/// nothing else.
pub proof fn law_pool_change(
    engine: &mut StratEngine,
    uuid: PoolUuid,
    found: Option<(Name, &mut StratPool)>,
)
    requires
        call_ensures(StratEngine::get_mut_pool, (engine, uuid), found),
    ensures
        found is Some == old(engine)@.pools.contains_key(uuid),
        found is None ==> final(engine)@ == old(engine)@,
        found matches Some((name, pool)) ==> {
            &&& name@ == old(engine)@.pools[uuid].0
            &&& *pool == old(engine)@.pools[uuid].1
            &&& final(engine)@.pools == old(engine)@.pools.insert(uuid, (name@, *final(pool)))
            &&& final(engine)@.incomplete_pools == old(engine)@.incomplete_pools
            &&& final(engine)@.watched == old(engine)@.watched
        },
{
}

/// The simulator's request changes nothing.
pub proof fn law_simulator_request(
    engine: &mut StratEngine,
    denominator: u32,
    result: StratisResult<()>,
)
    requires
        call_ensures(StratEngine::configure_simulator, (engine, denominator), result),
    ensures
        result is Ok,
        *final(engine) == *old(engine),
{
}

/// Listing the pools gives each of them once, with its name and UUID.
pub proof fn law_pool_list(engine: &StratEngine, pools: Vec<(Name, PoolUuid, &StratPool)>)
    requires
        engine.wf(),
        call_ensures(StratEngine::pools, (engine,), pools),
    ensures
        forall|i: int|
            0 <= i < pools@.len() ==> engine@.pools.contains_key((#[trigger] pools@[i]).1)
                && engine@.pools[pools@[i].1] == (pools@[i].0@, *pools@[i].2),
        forall|u: PoolUuid| #[trigger]
            engine@.pools.contains_key(u) ==> exists|i: int|
                0 <= i < pools@.len() && (#[trigger] pools@[i]).1 == u,
        forall|i: int, j: int|
            #![trigger pools@[i], pools@[j]]
            0 <= i < j < pools@.len() ==> pools@[i].1 != pools@[j].1,
{
    engine.lemma_wf();
    let listing = engine.pool_listing();
    assert forall|i: int| 0 <= i < pools@.len() implies engine@.pools.contains_key(
        (#[trigger] pools@[i]).1,
    ) && engine@.pools[pools@[i].1] == (pools@[i].0@, *pools@[i].2) by {
        lemma_pair_in_map(listing, i);
    }
    assert forall|u: PoolUuid| #[trigger] engine@.pools.contains_key(u) implies exists|i: int|
        0 <= i < pools@.len() && (#[trigger] pools@[i]).1 == u by {
        let i = lemma_map_in_pairs(listing, u);
        assert(pools@[i].1 == u);
    }
    assert forall|i: int, j: int|
        #![trigger pools@[i], pools@[j]]
        0 <= i < j < pools@.len() implies pools@[i].1 != pools@[j].1 by {
        assert(listing[i].0 != listing[j].0);
    }
}

/// Tearing the engine down gives up each of its pools once, with its name and
/// UUID.
pub proof fn law_teardown(engine: StratEngine, pools: Vec<(Name, PoolUuid, StratPool)>)
    requires
        engine.wf(),
        call_ensures(StratEngine::teardown, (engine,), pools),
    ensures
        forall|i: int|
            0 <= i < pools@.len() ==> engine@.pools.contains_key((#[trigger] pools@[i]).1)
                && engine@.pools[pools@[i].1] == (pools@[i].0@, pools@[i].2),
        forall|u: PoolUuid| #[trigger]
            engine@.pools.contains_key(u) ==> exists|i: int|
                0 <= i < pools@.len() && (#[trigger] pools@[i]).1 == u,
        forall|i: int, j: int|
            #![trigger pools@[i], pools@[j]]
            0 <= i < j < pools@.len() ==> pools@[i].1 != pools@[j].1,
{
    engine.lemma_wf();
    let listing = engine.pool_listing();
    assert forall|i: int| 0 <= i < pools@.len() implies engine@.pools.contains_key(
        (#[trigger] pools@[i]).1,
    ) && engine@.pools[pools@[i].1] == (pools@[i].0@, pools@[i].2) by {
        lemma_pair_in_map(listing, i);
    }
    assert forall|u: PoolUuid| #[trigger] engine@.pools.contains_key(u) implies exists|i: int|
        0 <= i < pools@.len() && (#[trigger] pools@[i]).1 == u by {
        let i = lemma_map_in_pairs(listing, u);
        assert(pools@[i].1 == u);
    }
    assert forall|i: int, j: int|
        #![trigger pools@[i], pools@[j]]
        0 <= i < j < pools@.len() implies pools@[i].1 != pools@[j].1 by {
        assert(listing[i].0 != listing[j].0);
    }
}

/// What is done to the pools that are listed to be changed is done to the
/// engine's own: each is listed once, and keeps its name and UUID, and nothing
/// else is changed.
pub proof fn law_pool_list_change(
    engine: &mut StratEngine,
    pools: Vec<(Name, PoolUuid, &mut StratPool)>,
)
    requires
        old(engine).wf(),
        call_ensures(StratEngine::pools_mut, (engine,), pools),
    ensures
        forall|i: int|
            0 <= i < pools@.len() ==> {
                let (name, uuid, pool) = #[trigger] pools@[i];
                &&& old(engine)@.pools.contains_key(uuid)
                &&& old(engine)@.pools[uuid] == (name@, *pool)
                &&& final(engine)@.pools.contains_key(uuid)
                &&& final(engine)@.pools[uuid] == (name@, *final(pool))
            },
        forall|u: PoolUuid| #[trigger]
            old(engine)@.pools.contains_key(u) ==> exists|i: int|
                0 <= i < pools@.len() && (#[trigger] pools@[i]).1 == u,
        forall|u: PoolUuid| #[trigger]
            final(engine)@.pools.contains_key(u) == old(engine)@.pools.contains_key(u),
        forall|i: int, j: int|
            #![trigger pools@[i], pools@[j]]
            0 <= i < j < pools@.len() ==> pools@[i].1 != pools@[j].1,
        final(engine)@.incomplete_pools == old(engine)@.incomplete_pools,
        final(engine)@.watched == old(engine)@.watched,
{
    old(engine).lemma_wf();
    final(engine).lemma_wf();
    let before = old(engine).pool_listing();
    let after = final(engine).pool_listing();
    assert forall|i: int| 0 <= i < pools@.len() implies {
        let (name, uuid, pool) = #[trigger] pools@[i];
        &&& old(engine)@.pools.contains_key(uuid)
        &&& old(engine)@.pools[uuid] == (name@, *pool)
        &&& final(engine)@.pools.contains_key(uuid)
        &&& final(engine)@.pools[uuid] == (name@, *final(pool))
    } by {
        lemma_pair_in_map(before, i);
        lemma_pair_in_map(after, i);
    }
    assert forall|u: PoolUuid| #[trigger] old(engine)@.pools.contains_key(u) implies exists|i: int|
        0 <= i < pools@.len() && (#[trigger] pools@[i]).1 == u by {
        let i = lemma_map_in_pairs(before, u);
        assert(pools@[i].1 == u);
    }
    assert forall|u: PoolUuid| #[trigger]
        final(engine)@.pools.contains_key(u) == old(engine)@.pools.contains_key(u) by {
        if final(engine)@.pools.contains_key(u) {
            let i = lemma_map_in_pairs(after, u);
            assert(pools@[i].1 == u);
        }
    }
    assert forall|i: int, j: int|
        #![trigger pools@[i], pools@[j]]
        0 <= i < j < pools@.len() implies pools@[i].1 != pools@[j].1 by {
        assert(before[i].0 != before[j].0);
    }
}

/// The devices that are kept are those of the pools that are not set up.
pub proof fn law_incomplete_list(engine: &StratEngine, pools: &IncompletePools)
    requires
        call_ensures(StratEngine::incomplete_pools, (engine,), pools),
    ensures
        forall|u: PoolUuid| #[trigger]
            pools@.contains_key(u) == engine@.incomplete_pools.contains_key(u),
        forall|u: PoolUuid|
            pools@.contains_key(u) ==> (#[trigger] pools@[u])@ == engine@.incomplete_pools[u],
{
    assert forall|u: PoolUuid| pools@.contains_key(u) implies (#[trigger] pools@[u])@
        == engine@.incomplete_pools[u] by {
        assert(crate::types::device_maps(pools@)[u] == pools@[u]@);
    }
    assert(crate::types::device_maps(pools@).dom() =~= pools@.dom());
}

/// Every operation on pools can be asked for at any time, whatever is asked.
pub proof fn law_requests_are_admitted(
    engine: &mut StratEngine,
    uuid: PoolUuid,
    name: &str,
    paths: Vec<String>,
    redundancy: StratisResult<Redundancy>,
    creation: PoolCreation,
    initialized: StratisResult<(PoolUuid, StratPool)>,
    detached: DetachedPool,
    renaming: PoolRenaming,
    done: StratisResult<()>,
)
    requires
        old(engine).wf(),
    ensures
        call_requires(StratEngine::create_pool, (&*old(engine), name, paths, redundancy, done)),
        call_requires(StratEngine::pool_created, (engine, creation, initialized)),
        call_requires(StratEngine::destroy_pool, (engine, uuid)),
        call_requires(StratEngine::pool_destroyed, (engine, detached, done)),
        call_requires(StratEngine::rename_pool, (engine, uuid, name, done)),
        call_requires(StratEngine::pool_renamed, (engine, renaming, done)),
        call_requires(StratEngine::get_pool, (&*old(engine), uuid)),
        call_requires(StratEngine::get_mut_pool, (engine, uuid)),
        call_requires(StratEngine::pools, (&*old(engine),)),
        call_requires(StratEngine::pools_mut, (engine,)),
        call_requires(StratEngine::teardown, (*old(engine),)),
{
}

/// No operation on pools leaves the engine in disorder: its pools are known by
/// distinct names and UUIDs.
pub proof fn law_order_is_kept(
    engine: &mut StratEngine,
    uuid: PoolUuid,
    name: &str,
    creation: PoolCreation,
    initialized: StratisResult<(PoolUuid, StratPool)>,
    created: Outcome<PoolUuid>,
    detached: DetachedPool,
    destroying: DestroyStep,
    destroyed: Outcome<bool>,
    renaming: PoolRenaming,
    renamed: RenameStep,
    outcome: Outcome<RenameAction>,
    done: StratisResult<()>,
    found: Option<(Name, &mut StratPool)>,
    pools: Vec<(Name, PoolUuid, &mut StratPool)>,
)
    requires
        ({
            ||| call_ensures(StratEngine::pool_created, (engine, creation, initialized), created)
            ||| call_ensures(StratEngine::destroy_pool, (engine, uuid), destroying)
            ||| call_ensures(StratEngine::pool_destroyed, (engine, detached, done), destroyed)
            ||| call_ensures(StratEngine::rename_pool, (engine, uuid, name, done), renamed)
            ||| call_ensures(StratEngine::pool_renamed, (engine, renaming, done), outcome)
            ||| call_ensures(StratEngine::get_mut_pool, (engine, uuid), found)
            ||| call_ensures(StratEngine::pools_mut, (engine,), pools)
        }),
    ensures
        final(engine).wf(),
        forall|a: PoolUuid, b: PoolUuid|
            #![trigger final(engine)@.pools[a], final(engine)@.pools[b]]
            final(engine)@.pools.contains_key(a) && final(engine)@.pools.contains_key(b) && a != b
                ==> final(engine)@.pools[a].0 != final(engine)@.pools[b].0,
{
    final(engine).lemma_wf();
}

/// A pool that joins others under a name that none of them has is one pool more,
/// or one in the place of another with its UUID. A pool that leaves is one pool
/// less.
pub proof fn law_joining_and_leaving(
    before: EngineView,
    name: Seq<char>,
    uuid: PoolUuid,
    pool: StratPool,
    after: EngineView,
)
    ensures
        joins(before, name, uuid, pool, after) && (forall|u: PoolUuid|
            before.pools.contains_key(u) ==> u == uuid || (#[trigger] before.pools[u]).0 != name)
            ==> after.pools == before.pools.insert(uuid, (name, pool)),
        joins(before, name, uuid, pool, after) ==> after.pools.contains_key(uuid)
            && after.pools[uuid] == (name, pool) && after.incomplete_pools
            == before.incomplete_pools && after.watched == before.watched,
        leaves(before, uuid, after) ==> after.pools == before.pools.remove(uuid)
            && after.incomplete_pools == before.incomplete_pools && after.watched
            == before.watched,
{
    if joins(before, name, uuid, pool, after) && (forall|u: PoolUuid|
        before.pools.contains_key(u) ==> u == uuid || (#[trigger] before.pools[u]).0 != name) {
        assert forall|u: PoolUuid| after.pools.contains_key(u) == (u == uuid
            || before.pools.contains_key(u)) by {
            if u != uuid && before.pools.contains_key(u) {
                assert(before.pools[u].0 != name);
            }
        }
        assert(after.pools =~= before.pools.insert(uuid, (name, pool)));
    }
    if leaves(before, uuid, after) {
        assert forall|u: PoolUuid| after.pools.contains_key(u) == (u != uuid
            && before.pools.contains_key(u)) by {}
        assert(after.pools =~= before.pools.remove(uuid));
    }
}

} // verus!
