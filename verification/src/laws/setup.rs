//! Setting up a single pool.
use vstd::prelude::*;

use crate::errors::{ErrorEnum, ErrorView, StratisError, StratisResult};
use crate::laws::pools::Pools;
use crate::setup::{
    inconsistent, name_in_use, next_setup_step, no_metadata, not_set_up, pool_info, setup_pool,
    SetupReply, SetupStage, SetupStep, SetupStepView,
};
use crate::table::{has_name, Table};
use crate::text::joined;
use crate::types::{
    blockdev_with_uuid, node_paths, BlockDevTier, DevUuid, Device, DeviceMap, Name, PoolMetadata,
    PoolUuid, StratBlockDev, StratPool,
};
use crate::uuids::hyphenated;

verus! {

/// What setting up a pool comes to, by what its steps report: the first thing
/// that prevents it decides.
pub open spec fn setup_outcome(
    pool_uuid: PoolUuid,
    devices: Seq<(Device, Seq<char>)>,
    pools: Pools,
    metadata: StratisResult<Option<PoolMetadata>>,
    checked: Result<(), String>,
    pool: Result<(Name, StratPool), String>,
) -> Result<(Name, StratPool), ErrorView> {
    let info = pool_info(pool_uuid, devices);
    match metadata {
        Err(e) => Err(e@),
        Ok(None) => Err(no_metadata(info)),
        Ok(Some(metadata)) => if has_name(pools, metadata.name@) {
            Err(name_in_use(metadata.name@, info))
        } else {
            match (checked, pool) {
                (Err(reason), _) => Err(inconsistent(info, reason@)),
                (_, Err(reason)) => Err(not_set_up(info, reason@)),
                (_, Ok(pool)) => Ok(pool),
            }
        },
    }
}

/// Where setting up a pool stands after `step`, by what its steps report.
pub open spec fn after_replies(
    pool_uuid: PoolUuid,
    devices: Seq<(Device, Seq<char>)>,
    pools: Pools,
    step: SetupStepView,
    replies: Seq<SetupReply>,
) -> SetupStepView
    decreases replies.len(),
{
    match step {
        SetupStepView::Next(stage) if replies.len() > 0 => after_replies(
            pool_uuid,
            devices,
            pools,
            next_setup_step(pool_uuid, devices, pools, stage, replies[0]),
            replies.skip(1),
        ),
        _ => step,
    }
}

/// Whatever the reading, the checking and the setting up report, a pool's
/// setup ends, and with the outcome that the reports decide.
pub proof fn law_setup_ends(
    pool_uuid: PoolUuid,
    devices: Seq<(Device, Seq<char>)>,
    pools: Pools,
    metadata: StratisResult<Option<PoolMetadata>>,
    checked: Result<(), String>,
    pool: Result<(Name, StratPool), String>,
)
    ensures
        after_replies(
            pool_uuid,
            devices,
            pools,
            SetupStepView::Next(SetupStage::ReadMetadata),
            seq![
                SetupReply::Metadata(metadata),
                SetupReply::Checked(checked),
                SetupReply::Pool(pool),
                SetupReply::Linked,
            ],
        ) == SetupStepView::Done(
            setup_outcome(pool_uuid, devices, pools, metadata, checked, pool),
        ),
{
    reveal_with_fuel(after_replies, 5);
    let replies = seq![
        SetupReply::Metadata(metadata),
        SetupReply::Checked(checked),
        SetupReply::Pool(pool),
        SetupReply::Linked,
    ];
    assert(replies.skip(1)[0] == replies[1]);
    assert(replies.skip(1).skip(1)[0] == replies[2]);
    assert(replies.skip(1).skip(1).skip(1)[0] == replies[3]);
}

/// The name that the pool at `stage` will have, once it is known, is free.
pub open spec fn name_is_free(pools: Pools, stage: SetupStage) -> bool {
    match stage {
        SetupStage::ReadMetadata => true,
        SetupStage::CheckMetadata(metadata) => !has_name(pools, metadata.name@),
        SetupStage::SetUp(metadata) => !has_name(pools, metadata.name@),
        SetupStage::Link(name, _) => !has_name(pools, name@),
    }
}

/// `reply` sets no pool up under a name that one of `pools` has.
pub open spec fn takes_free_name(pools: Pools, stage: SetupStage, reply: SetupReply) -> bool {
    match (stage, reply) {
        (SetupStage::SetUp(_), SetupReply::Pool(Ok((name, _)))) => !has_name(pools, name@),
        _ => true,
    }
}

/// A pool that `reply` sets up has the name that its metadata gives.
pub open spec fn name_is_kept(stage: SetupStage, reply: SetupReply) -> bool {
    match (stage, reply) {
        (SetupStage::SetUp(metadata), SetupReply::Pool(Ok((name, _)))) => name@ == metadata.name@,
        _ => true,
    }
}

/// A pool that is set up under the name that its metadata gives takes a free
/// name.
pub proof fn law_kept_name_is_free(pools: Pools, stage: SetupStage, reply: SetupReply)
    requires
        name_is_free(pools, stage),
        name_is_kept(stage, reply),
    ensures
        takes_free_name(pools, stage, reply),
{
}

/// A pool is set up only under a name that no pool has: the name in its metadata
/// is free from when it is read, and the name it is set up under is free in the
/// end.
pub proof fn law_set_up_under_free_name(
    pool_uuid: PoolUuid,
    devices: Seq<(Device, Seq<char>)>,
    pools: Pools,
    stage: SetupStage,
    reply: SetupReply,
)
    requires
        name_is_free(pools, stage),
        takes_free_name(pools, stage, reply),
    ensures
        match next_setup_step(pool_uuid, devices, pools, stage, reply) {
            SetupStepView::Next(next) => name_is_free(pools, next),
            SetupStepView::Done(Ok((name, _))) => !has_name(pools, name@),
            SetupStepView::Done(Err(_)) => true,
        },
{
}

/// `reply` answers what `stage` asks for.
pub open spec fn answers_setup(stage: SetupStage, reply: SetupReply) -> bool {
    match stage {
        SetupStage::ReadMetadata => reply is Metadata,
        SetupStage::CheckMetadata(_) => reply is Checked,
        SetupStage::SetUp(_) => reply is Pool,
        SetupStage::Link(_, _) => reply is Linked,
    }
}

/// How many answers setting up a pool takes at most from `stage` on.
pub open spec fn answers_left(stage: SetupStage) -> nat {
    match stage {
        SetupStage::ReadMetadata => 4,
        SetupStage::CheckMetadata(_) => 3,
        SetupStage::SetUp(_) => 2,
        SetupStage::Link(_, _) => 1,
    }
}

/// Two errors say the same.
pub open spec fn same_error(a: StratisError, b: StratisError) -> bool {
    match (a, b) {
        (StratisError::Error(said), StratisError::Error(other)) => said@ == other@,
        (
            StratisError::Engine(kind, said),
            StratisError::Engine(other_kind, other),
        ) => kind == other_kind && said@ == other@,
        _ => false,
    }
}

/// `paths` are the paths of the device nodes of `devices`, in their order.
pub open spec fn are_nodes_of(paths: Seq<Seq<char>>, devices: DeviceMap) -> bool {
    &&& paths.len() == devices.pairs().len()
    &&& forall|i: int| 0 <= i < paths.len() ==> #[trigger] paths[i] == devices.pairs()[i].1@
}

/// `error` is why `reply` to `stage` prevents the pool `pool_uuid` on the device
/// nodes `paths` from being set up beside `pools`: the metadata cannot be read,
/// or there is none, or it gives a name that a pool has, or it is inconsistent,
/// or setting the pool up fails.
pub open spec fn prevents(
    pool_uuid: PoolUuid,
    paths: Seq<Seq<char>>,
    pools: Pools,
    stage: SetupStage,
    reply: SetupReply,
    error: StratisError,
) -> bool {
    let info = "(pool UUID: "@ + hyphenated(pool_uuid) + ", devnodes: "@ + joined(paths, " ,"@)
        + ")"@;
    match (stage, reply) {
        (SetupStage::ReadMetadata, SetupReply::Metadata(Err(e))) => same_error(error, e),
        (SetupStage::ReadMetadata, SetupReply::Metadata(Ok(None))) => {
            &&& error matches StratisError::Engine(ErrorEnum::NotFound, message)
            &&& message@ == "no metadata found for "@ + info
        },
        (SetupStage::ReadMetadata, SetupReply::Metadata(Ok(Some(metadata)))) => {
            &&& exists|u: PoolUuid|
                pools.contains_key(u) && (#[trigger] pools[u]).0 == metadata.name@
            &&& error matches StratisError::Engine(ErrorEnum::AlreadyExists, message)
            &&& message@ == "pool with name \""@ + metadata.name@
                + "\" set up; metadata specifies same name for "@ + info
        },
        (SetupStage::CheckMetadata(_), SetupReply::Checked(Err(reason))) => {
            &&& error matches StratisError::Engine(ErrorEnum::Error, message)
            &&& message@ == "inconsistent metadata for "@ + info + ": reason: "@ + reason@
        },
        (SetupStage::SetUp(_), SetupReply::Pool(Err(reason))) => {
            &&& error matches StratisError::Engine(ErrorEnum::Error, message)
            &&& message@ == "failed to set up pool for "@ + info + ": reason: "@ + reason@
        },
        _ => false,
    }
}

/// `reply` to `stage` leads on to `next`, with what was read, or what was set
/// up, as it is. A reply to something else leads nowhere.
pub open spec fn leads_to(
    pools: Pools,
    stage: SetupStage,
    reply: SetupReply,
    next: SetupStage,
) -> bool {
    match (stage, reply) {
        (SetupStage::ReadMetadata, SetupReply::Metadata(read)) => {
            &&& read matches Ok(Some(metadata))
            &&& next == SetupStage::CheckMetadata(metadata)
            &&& forall|u: PoolUuid|
                pools.contains_key(u) ==> (#[trigger] pools[u]).0 != metadata.name@
        },
        (SetupStage::CheckMetadata(metadata), SetupReply::Checked(checked)) => {
            &&& checked is Ok
            &&& next == SetupStage::SetUp(metadata)
        },
        (SetupStage::SetUp(_), SetupReply::Pool(set_up)) => {
            &&& set_up matches Ok((name, pool))
            &&& next == SetupStage::Link(name, pool)
        },
        (SetupStage::Link(_, _), SetupReply::Linked) => false,
        _ => next == stage,
    }
}

pub(crate) proof fn lemma_next_setup_step(
    pool_uuid: PoolUuid,
    devices: DeviceMap,
    paths: Seq<Seq<char>>,
    pools: Pools,
    stage: SetupStage,
    reply: SetupReply,
)
    requires
        are_nodes_of(paths, devices),
    ensures
        match next_setup_step(pool_uuid, devices.listing(), pools, stage, reply) {
            SetupStepView::Next(next) => leads_to(pools, stage, reply, next),
            SetupStepView::Done(Ok((name, pool))) => stage == SetupStage::Link(name, pool)
                && reply == SetupReply::Linked,
            SetupStepView::Done(Err(view)) => forall|error: StratisError| #[trigger]
                error@ == view ==> prevents(pool_uuid, paths, pools, stage, reply, error),
        },
{
    assert(node_paths(devices.listing()) =~= paths);
}

/// A pool is set up exactly as it is reported to be, once it is linked, and it
/// is not set up exactly for what prevents it. Until then each reply leads on
/// with what was read and set up.
pub proof fn law_setup_answer(
    pool_uuid: PoolUuid,
    devices: &DeviceMap,
    pools: &Table<StratPool>,
    stage: SetupStage,
    reply: SetupReply,
    step: SetupStep,
    paths: Seq<Seq<char>>,
)
    requires
        call_ensures(setup_pool, (pool_uuid, devices, pools, stage, reply), step),
        are_nodes_of(paths, *devices),
    ensures
        match step {
            SetupStep::Next(next) => leads_to(pools@, stage, reply, next),
            SetupStep::Done(Ok((name, pool))) => stage == SetupStage::Link(name, pool) && reply
                == SetupReply::Linked,
            SetupStep::Done(Err(error)) => prevents(
                pool_uuid,
                paths,
                pools@,
                stage,
                reply,
                error,
            ),
        },
{
    lemma_next_setup_step(pool_uuid, *devices, paths, pools@, stage, reply);
}

/// A block device is the first that its pool has under its UUID. There is none
/// only where no block device has the UUID.
pub proof fn law_first_blockdev(blockdevs: Seq<StratBlockDev>, uuid: DevUuid, i: int)
    ensures
        (forall|j: int| 0 <= j < blockdevs.len() ==> (#[trigger] blockdevs[j]).uuid != uuid)
            ==> blockdev_with_uuid(blockdevs, uuid) is None,
        0 <= i < blockdevs.len() && blockdevs[i].uuid == uuid && (forall|j: int|
            0 <= j < i ==> (#[trigger] blockdevs[j]).uuid != uuid) ==> blockdev_with_uuid(
            blockdevs,
            uuid,
        ) == Some(blockdevs[i]),
    decreases blockdevs.len(),
{
    if blockdevs.len() > 0 && blockdevs[0].uuid != uuid {
        let rest = blockdevs.skip(1);
        law_first_blockdev(rest, uuid, i - 1);
        assert forall|j: int| 0 <= j < rest.len() implies #[trigger] rest[j] == blockdevs[j
            + 1] by {}
        if 0 < i < blockdevs.len() {
            assert(rest[i - 1] == blockdevs[i]);
        }
    }
}

/// What the engine reads of a pool is what the pool holds.
pub proof fn law_pool_getters(
    pool: &StratPool,
    uuid: DevUuid,
    found: Option<(BlockDevTier, StratBlockDev)>,
    i: int,
    some: bool,
    path: Option<String>,
    names: &Vec<String>,
)
    requires
        call_ensures(StratPool::get_strat_blockdev, (pool, uuid), found),
        call_ensures(StratPool::has_filesystems, (pool,), some),
        call_ensures(StratPool::get_dbus_path, (pool,), path),
        call_ensures(StratPool::get_eventing_dev_names, (pool,), names),
    ensures
        (forall|j: int| 0 <= j < pool.blockdevs@.len() ==> (#[trigger] pool.blockdevs@[j]).uuid
            != uuid) ==> found is None,
        0 <= i < pool.blockdevs@.len() && pool.blockdevs@[i].uuid == uuid && (forall|j: int|
            0 <= j < i ==> (#[trigger] pool.blockdevs@[j]).uuid != uuid) ==> found == Some(
            (pool.blockdevs@[i].tier, pool.blockdevs@[i]),
        ),
        some == (pool.filesystems@.len() != 0),
        path is Some == pool.dbus_path is Some,
        path is Some ==> path->0@ == pool.dbus_path->0@,
        names@ == pool.eventing_dev_names@,
{
    law_first_blockdev(pool.blockdevs@, uuid, i);
}

/// Each thing that goes well leads to the next: metadata with a name that no pool
/// has is checked, metadata that is consistent is set up, what was set up is
/// linked under the name it was set up under, and is then the result.
pub proof fn law_setup_goes_on(
    pool_uuid: PoolUuid,
    devices: &DeviceMap,
    pools: &Table<StratPool>,
    metadata: PoolMetadata,
    name: Name,
    pool: StratPool,
    read: SetupStep,
    checked: SetupStep,
    set_up: SetupStep,
    linked: SetupStep,
)
    requires
        call_ensures(
            setup_pool,
            (
                pool_uuid,
                devices,
                pools,
                SetupStage::ReadMetadata,
                SetupReply::Metadata(Ok(Some(metadata))),
            ),
            read,
        ),
        call_ensures(
            setup_pool,
            (
                pool_uuid,
                devices,
                pools,
                SetupStage::CheckMetadata(metadata),
                SetupReply::Checked(Ok(())),
            ),
            checked,
        ),
        call_ensures(
            setup_pool,
            (
                pool_uuid,
                devices,
                pools,
                SetupStage::SetUp(metadata),
                SetupReply::Pool(Ok((name, pool))),
            ),
            set_up,
        ),
        call_ensures(
            setup_pool,
            (pool_uuid, devices, pools, SetupStage::Link(name, pool), SetupReply::Linked),
            linked,
        ),
    ensures
        (forall|u: PoolUuid|
            pools@.contains_key(u) ==> (#[trigger] pools@[u]).0 != metadata.name@) ==> read
            == SetupStep::Next(SetupStage::CheckMetadata(metadata)),
        forall|u: PoolUuid|
            pools@.contains_key(u) && (#[trigger] pools@[u]).0 == metadata.name@ ==> {
                &&& read matches SetupStep::Done(
                    Err(StratisError::Engine(ErrorEnum::AlreadyExists, _)),
                )
            },
        checked == SetupStep::Next(SetupStage::SetUp(metadata)),
        set_up == SetupStep::Next(SetupStage::Link(name, pool)),
        linked == SetupStep::Done(Ok((name, pool))),
{
    assert forall|u: PoolUuid|
        pools@.contains_key(u) && (#[trigger] pools@[u]).0 == metadata.name@ implies {
        &&& read matches SetupStep::Done(Err(StratisError::Engine(ErrorEnum::AlreadyExists, _)))
    } by {
        assert(has_name(pools@, metadata.name@));
    }
}

/// Each thing that goes wrong ends the setup, with an error of its own kind.
pub proof fn law_setup_refusals(
    pool_uuid: PoolUuid,
    devices: &DeviceMap,
    pools: &Table<StratPool>,
    metadata: PoolMetadata,
    e: StratisError,
    reason: String,
    unread: SetupStep,
    absent: SetupStep,
    faulty: SetupStep,
    failed: SetupStep,
)
    requires
        call_ensures(
            setup_pool,
            (
                pool_uuid,
                devices,
                pools,
                SetupStage::ReadMetadata,
                SetupReply::Metadata(Err(e)),
            ),
            unread,
        ),
        call_ensures(
            setup_pool,
            (
                pool_uuid,
                devices,
                pools,
                SetupStage::ReadMetadata,
                SetupReply::Metadata(Ok(None)),
            ),
            absent,
        ),
        call_ensures(
            setup_pool,
            (
                pool_uuid,
                devices,
                pools,
                SetupStage::CheckMetadata(metadata),
                SetupReply::Checked(Err(reason)),
            ),
            faulty,
        ),
        call_ensures(
            setup_pool,
            (
                pool_uuid,
                devices,
                pools,
                SetupStage::SetUp(metadata),
                SetupReply::Pool(Err(reason)),
            ),
            failed,
        ),
    ensures
        unread == SetupStep::Done(Err(e)),
        absent matches SetupStep::Done(Err(StratisError::Engine(ErrorEnum::NotFound, _))),
        faulty matches SetupStep::Done(Err(StratisError::Engine(ErrorEnum::Error, message)))
            && ends_with(message@, ": reason: "@ + reason@),
        failed matches SetupStep::Done(Err(StratisError::Engine(ErrorEnum::Error, message)))
            && ends_with(message@, ": reason: "@ + reason@),
{
    if let SetupStep::Done(Err(StratisError::Engine(_, message))) = faulty {
        assert(message@.skip(message@.len() - (": reason: "@ + reason@).len()) =~= ": reason: "@
            + reason@);
    }
    if let SetupStep::Done(Err(StratisError::Engine(_, message))) = failed {
        assert(message@.skip(message@.len() - (": reason: "@ + reason@).len()) =~= ": reason: "@
            + reason@);
    }
}

/// `text` ends with `end`.
pub open spec fn ends_with(text: Seq<char>, end: Seq<char>) -> bool {
    text.len() >= end.len() && text.skip(text.len() - end.len()) == end
}

} // verus!
