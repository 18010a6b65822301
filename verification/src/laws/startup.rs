//! Bringing the engine up.
use vstd::prelude::*;

use crate::assoc::{distinct_keys, lemma_map_in_pairs, lemma_pair_in_map};
use crate::cmd::Binaries;
use crate::engine::{EngineView, StratEngine};
use crate::errors::{ErrorEnum, ErrorView, StratisError};
use crate::laws::pools::{
    joins_pools, kept_apart, law_free_name_displaces_nothing, Found, Pools,
};
use crate::laws::programs::{
    has_six_programs, lemma_six_programs, lemma_tells_of_missing, tells_of_missing,
};
use crate::laws::setup::{
    answers_left, answers_setup, are_nodes_of, law_set_up_under_free_name, leads_to,
    lemma_next_setup_step, name_is_free, prevents, same_error, takes_free_name,
};
use crate::setup::{next_setup_step, SetupReply, SetupStage, SetupStepView};
use crate::startup::{
    failure_views, goes_on, init_transition, InitReply, InitStage, InitStep, PoolsSetup, Startup,
    REQUIRED_DM_MINOR_VERSION,
};
use crate::table::{distinct_names, has_name, with_item};
use crate::text::decimal;
use crate::types::{device_maps, DeviceMap, Name, PoolDevices, PoolUuid, StratPool};

verus! {

/// The UUIDs of the pools that are still to be set up.
pub open spec fn waiting(setup: PoolsSetup) -> Seq<PoolUuid> {
    seq![setup.pool_uuid] + uuids_of(setup.rest@)
}

/// The UUIDs of `pools`.
pub open spec fn uuids_of(pools: Seq<(PoolUuid, DeviceMap)>) -> Seq<PoolUuid> {
    pools.map_values(|pool: (PoolUuid, DeviceMap)| pool.0)
}

/// `failures` gives a reason for the pool `uuid`.
pub open spec fn has_reason(failures: Seq<(PoolUuid, ErrorView)>, uuid: PoolUuid) -> bool {
    exists|i: int| 0 <= i < failures.len() && (#[trigger] failures[i]).0 == uuid
}

/// The devices of `pools` are those that were found of them.
pub open spec fn as_found(pools: Seq<(PoolUuid, DeviceMap)>, found: Found) -> bool {
    forall|i: int|
        0 <= i < pools.len() ==> (#[trigger] pools[i]).1@ == found[pools[i].0]
}

/// Each pool of `found` is either set up, or incomplete with all its devices
/// and a reason, or still to be set up, and no other pool is.
pub open spec fn shared_out(
    found: Found,
    pools: Pools,
    incomplete_pools: Found,
    failures: Seq<(PoolUuid, ErrorView)>,
    waiting: Seq<PoolUuid>,
) -> bool {
    &&& waiting.no_duplicates()
    &&& forall|u: PoolUuid| #[trigger]
        found.contains_key(u) == (pools.contains_key(u) || incomplete_pools.contains_key(u)
            || waiting.contains(u))
    &&& forall|u: PoolUuid|
        #![trigger pools.contains_key(u)]
        #![trigger incomplete_pools.contains_key(u)]
        !(pools.contains_key(u) && incomplete_pools.contains_key(u))
    &&& forall|u: PoolUuid| #[trigger]
        waiting.contains(u) ==> !pools.contains_key(u) && !incomplete_pools.contains_key(u)
    &&& forall|u: PoolUuid| #[trigger]
        incomplete_pools.contains_key(u) == has_reason(failures, u)
    &&& forall|u: PoolUuid| #[trigger]
        incomplete_pools.contains_key(u) ==> incomplete_pools[u] == found[u]
}

/// At `stage` no pool of `found` is lost or counted twice, and no device of a
/// pool that is not set up.
pub open spec fn accounts_for(stage: InitStage, found: Found) -> bool {
    match stage {
        InitStage::SetUpPools(setup) => {
            &&& shared_out(
                found,
                setup.pools@,
                device_maps(setup.incomplete_pools@),
                failure_views(setup.failures@),
                waiting(setup),
            )
            &&& setup.devices@ == found[setup.pool_uuid]
            &&& as_found(setup.rest@, found)
            &&& name_is_free(setup.pools@, setup.stage)
        },
        InitStage::CleanLinks(startup) => shared_out(
            found,
            startup.engine@.pools,
            startup.engine@.incomplete_pools,
            failure_views(startup.failures@),
            Seq::empty(),
        ),
        _ => true,
    }
}

/// `reply` is one that `stage` can get when the pools and devices that are found
/// are those of `found`, each pool with its own UUID, and no pool is set up under
/// a name that a pool has by then.
pub open spec fn fitting_reply(stage: InitStage, reply: InitReply, found: Found) -> bool {
    match (stage, reply) {
        (InitStage::FindPools, InitReply::Pools(Ok(pools))) => {
            &&& distinct_keys(pools.listing())
            &&& pools@ == found
        },
        (InitStage::SetUpPools(setup), InitReply::Setup(reply)) => takes_free_name(
            setup.pools@,
            setup.stage,
            reply,
        ),
        _ => true,
    }
}

proof fn lemma_goes_on(
    step: InitStep,
    found: Found,
    pools: Pools,
    incomplete_pools: Found,
    failures: Seq<(PoolUuid, ErrorView)>,
    rest: Seq<(PoolUuid, DeviceMap)>,
)
    requires
        goes_on(step, pools, incomplete_pools, failures, rest),
        shared_out(found, pools, incomplete_pools, failures, uuids_of(rest)),
        as_found(rest, found),
    ensures
        step matches InitStep::Next(next) && accounts_for(next, found),
{
    if rest.len() == 0 {
        assert(uuids_of(rest) =~= Seq::empty());
    } else if let InitStep::Next(InitStage::SetUpPools(setup)) = step {
        assert(waiting(setup) =~= uuids_of(rest));
        assert(setup.devices == rest[0].1);
        assert forall|i: int| 0 <= i < setup.rest@.len() implies (#[trigger] setup.rest@[i]).1@
            == found[setup.rest@[i].0] by {
            assert(setup.rest@[i] == rest[i + 1]);
        }
    }
}

proof fn lemma_one_less(
    found: Found,
    setup: PoolsSetup,
    pools: Pools,
    incomplete_pools: Found,
    failures: Seq<(PoolUuid, ErrorView)>,
)
    requires
        accounts_for(InitStage::SetUpPools(setup), found),
        forall|u: PoolUuid|
            #![trigger pools.contains_key(u)]
            #![trigger incomplete_pools.contains_key(u)]
            if u == setup.pool_uuid {
                pools.contains_key(u) != incomplete_pools.contains_key(u)
            } else {
                &&& pools.contains_key(u) == setup.pools@.contains_key(u)
                &&& incomplete_pools.contains_key(u) == device_maps(
                    setup.incomplete_pools@,
                ).contains_key(u)
            },
        forall|u: PoolUuid| #[trigger]
            incomplete_pools.contains_key(u) == has_reason(failures, u),
        forall|u: PoolUuid| #[trigger]
            incomplete_pools.contains_key(u) ==> incomplete_pools[u] == found[u],
    ensures
        shared_out(found, pools, incomplete_pools, failures, uuids_of(setup.rest@)),
{
    let all = waiting(setup);
    let rest = uuids_of(setup.rest@);
    assert forall|i: int| 0 <= i < rest.len() implies #[trigger] rest[i] == all[i + 1] by {}
    assert(all[0] == setup.pool_uuid);
    assert(rest.no_duplicates()) by {
        assert forall|i: int, j: int|
            0 <= i < rest.len() && 0 <= j < rest.len() && i != j implies rest[i] != rest[j] by {
            assert(all[i + 1] != all[j + 1]);
        }
    }
    assert forall|u: PoolUuid| #[trigger]
        rest.contains(u) == (u != setup.pool_uuid && all.contains(u)) by {
        if rest.contains(u) {
            let i = rest.index_of(u);
            assert(all[i + 1] == u);
            assert(all[i + 1] != all[0]);
        }
        if u != setup.pool_uuid && all.contains(u) {
            let i = all.index_of(u);
            assert(rest[i - 1] == u);
        }
    }
    assert(all.contains(setup.pool_uuid));
    assert forall|u: PoolUuid| #[trigger]
        found.contains_key(u) == (pools.contains_key(u) || incomplete_pools.contains_key(u)
            || rest.contains(u)) by {
        assert(all.contains(u) == (u == setup.pool_uuid || rest.contains(u)));
    }
    assert forall|u: PoolUuid| #[trigger] rest.contains(u) implies !pools.contains_key(u)
        && !incomplete_pools.contains_key(u) by {
        assert(all.contains(u));
    }
}

/// While the engine is brought up, no pool that was found is lost or counted
/// twice: each is set up, or incomplete with all its devices and a reason, or
/// still to be set up.
pub proof fn law_startup_step_accounts(
    stage: InitStage,
    binaries: Binaries,
    reply: InitReply,
    step: InitStep,
    found: Found,
)
    requires
        accounts_for(stage, found),
        fitting_reply(stage, reply, found),
        init_transition(stage, binaries, reply, step),
    ensures
        step matches InitStep::Next(next) ==> accounts_for(next, found),
        step matches InitStep::Ready(startup) ==> accounts_for(
            InitStage::CleanLinks(startup),
            found,
        ),
{
    match (stage, reply) {
        (InitStage::FindPools, InitReply::Pools(Ok(pools))) => {
            let rest = pools.pairs();
            let uuids = uuids_of(rest);
            assert forall|i: int| 0 <= i < uuids.len() implies #[trigger] uuids[i]
                == pools.listing()[i].0 by {}
            assert(uuids.no_duplicates()) by {
                assert forall|i: int, j: int|
                    0 <= i < uuids.len() && 0 <= j < uuids.len() && i != j implies uuids[i]
                    != uuids[j] by {
                    if i < j {
                        assert(pools.listing()[i].0 != pools.listing()[j].0);
                    } else {
                        assert(pools.listing()[j].0 != pools.listing()[i].0);
                    }
                }
            }
            assert forall|u: PoolUuid| #[trigger] found.contains_key(u) == uuids.contains(u) by {
                if found.contains_key(u) {
                    let i = lemma_map_in_pairs(pools.listing(), u);
                    assert(uuids[i] == u);
                }
                if uuids.contains(u) {
                    let i = uuids.index_of(u);
                    lemma_pair_in_map(pools.listing(), i);
                }
            }
            assert forall|i: int| 0 <= i < rest.len() implies (#[trigger] rest[i]).1@
                == found[rest[i].0] by {
                assert(pools.listing()[i] == (rest[i].0, rest[i].1@));
                lemma_pair_in_map(pools.listing(), i);
            }
            lemma_goes_on(step, found, Map::empty(), Map::empty(), Seq::empty(), rest);
        },
        (InitStage::SetUpPools(setup), InitReply::Setup(answer)) => {
            law_set_up_under_free_name(
                setup.pool_uuid,
                setup.devices.listing(),
                setup.pools@,
                setup.stage,
                answer,
            );
            let uuid = setup.pool_uuid;
            let failures = failure_views(setup.failures@);
            assert(waiting(setup)[0] == uuid);
            assert(waiting(setup).contains(uuid));
            match next_setup_step(
                uuid,
                setup.devices.listing(),
                setup.pools@,
                setup.stage,
                answer,
            ) {
                SetupStepView::Next(next) => {
                    if let InitStep::Next(InitStage::SetUpPools(after)) = step {
                        assert(waiting(after) =~= waiting(setup));
                    }
                },
                SetupStepView::Done(Ok((name, pool))) => {
                    let engine = EngineView {
                        pools: setup.pools@,
                        incomplete_pools: device_maps(setup.incomplete_pools@),
                        watched: Map::empty(),
                    };
                    law_free_name_displaces_nothing(engine, name@, uuid, pool);
                    let pools = with_item(setup.pools@, name@, uuid, pool);
                    lemma_one_less(
                        found,
                        setup,
                        pools,
                        device_maps(setup.incomplete_pools@),
                        failures,
                    );
                    lemma_goes_on(
                        step,
                        found,
                        pools,
                        device_maps(setup.incomplete_pools@),
                        failures,
                        setup.rest@,
                    );
                },
                SetupStepView::Done(Err(error)) => {
                    let kept = device_maps(setup.incomplete_pools@);
                    let incomplete = kept.insert(uuid, setup.devices@);
                    let reasons = failures.push((uuid, error));
                    assert forall|u: PoolUuid| #[trigger]
                        incomplete.contains_key(u) == has_reason(reasons, u) by {
                        if has_reason(failures, u) {
                            let i = choose|i: int|
                                0 <= i < failures.len() && (#[trigger] failures[i]).0 == u;
                            assert(reasons[i].0 == u);
                        }
                        if u == uuid {
                            assert(reasons[failures.len() as int].0 == u);
                        }
                        if has_reason(reasons, u) && u != uuid {
                            let i = choose|i: int|
                                0 <= i < reasons.len() && (#[trigger] reasons[i]).0 == u;
                            assert(failures[i].0 == u);
                        }
                        assert(kept.contains_key(u) == has_reason(failures, u));
                    }
                    lemma_one_less(found, setup, setup.pools@, incomplete, reasons);
                    lemma_goes_on(step, found, setup.pools@, incomplete, reasons, setup.rest@);
                },
            }
        },
        _ => {},
    }
}

/// `stages` are the stages of bringing the engine up, each but the first after
/// the reply to the one before it.
pub open spec fn startup_run(
    stages: Seq<InitStage>,
    binaries: Binaries,
    replies: Seq<InitReply>,
) -> bool {
    &&& stages.len() == replies.len() + 1
    &&& stages[0] == InitStage::OpenDm
    &&& forall|i: int|
        0 <= i < replies.len() ==> #[trigger] init_transition(
            stages[i],
            binaries,
            replies[i],
            InitStep::Next(stages[i + 1]),
        )
}

/// However bringing the engine up goes, at each of its stages no pool that was
/// found is lost or counted twice. In particular, once all have had their turn,
/// each is either set up, or its devices are kept, all of them as they were
/// found, and there is a reason.
pub proof fn law_startup_accounts(
    stages: Seq<InitStage>,
    binaries: Binaries,
    replies: Seq<InitReply>,
    found: Found,
    n: int,
)
    requires
        startup_run(stages, binaries, replies),
        forall|i: int|
            0 <= i < replies.len() ==> #[trigger] fitting_reply(stages[i], replies[i], found),
        0 <= n < stages.len(),
    ensures
        accounts_for(stages[n], found),
        stages[n] matches InitStage::CleanLinks(startup) ==> {
            let engine = startup.engine@;
            &&& kept_apart(engine)
            &&& forall|u: PoolUuid| #[trigger]
                found.contains_key(u) == (engine.pools.contains_key(u)
                    || engine.incomplete_pools.contains_key(u))
            &&& forall|u: PoolUuid| #[trigger]
                engine.incomplete_pools.contains_key(u) ==> engine.incomplete_pools[u] == found[u]
                    && has_reason(failure_views(startup.failures@), u)
        },
    decreases n,
{
    if n > 0 {
        law_startup_accounts(stages, binaries, replies, found, n - 1);
        assert(init_transition(
            stages[n - 1],
            binaries,
            replies[n - 1],
            InitStep::Next(stages[n - 1 + 1]),
        ));
        assert(fitting_reply(stages[n - 1], replies[n - 1], found));
        law_startup_step_accounts(
            stages[n - 1],
            binaries,
            replies[n - 1],
            InitStep::Next(stages[n]),
            found,
        );
    }
}

/// Where every pool that was found could be set up, all of them are, and no
/// pool is incomplete.
pub proof fn law_complete_startup(startup: Startup, found: Found)
    requires
        accounts_for(InitStage::CleanLinks(startup), found),
        startup.failures@.len() == 0,
    ensures
        startup.engine@.incomplete_pools == Found::empty(),
        startup.engine@.pools.dom() == found.dom(),
{
    let engine = startup.engine@;
    let failures = failure_views(startup.failures@);
    assert forall|u: PoolUuid| !engine.incomplete_pools.contains_key(u) by {
        assert(engine.incomplete_pools.contains_key(u) == has_reason(failures, u));
    }
    assert(engine.incomplete_pools =~= Map::empty());
    assert forall|u: PoolUuid| engine.pools.contains_key(u) == found.contains_key(u) by {
        assert(!Seq::<PoolUuid>::empty().contains(u));
    }
    assert(engine.pools.dom() =~= found.dom());
}

/// The name that the pool at `stage` will have, once it is known, is `name`.
pub open spec fn name_is(stage: SetupStage, name: Seq<char>) -> bool {
    match stage {
        SetupStage::ReadMetadata => true,
        SetupStage::CheckMetadata(metadata) => metadata.name@ == name,
        SetupStage::SetUp(metadata) => metadata.name@ == name,
        SetupStage::Link(pool_name, _) => pool_name@ == name,
    }
}

/// `reply` is one that `stage` can get when the pools and devices that are found
/// are those of `found`, each pool of `before` with its name in its metadata,
/// and nothing fails.
pub open spec fn faithful_reply(
    stage: InitStage,
    reply: InitReply,
    found: Found,
    before: Pools,
) -> bool {
    match (stage, reply) {
        (InitStage::FindPools, InitReply::Pools(Ok(pools))) => {
            &&& distinct_keys(pools.listing())
            &&& pools@ == found
        },
        (InitStage::SetUpPools(setup), InitReply::Setup(reply)) => {
            let recorded = before[setup.pool_uuid].0;
            match (setup.stage, reply) {
                (SetupStage::ReadMetadata, SetupReply::Metadata(read)) => read matches Ok(
                    Some(metadata),
                ) && metadata.name@ == recorded,
                (SetupStage::CheckMetadata(_), SetupReply::Checked(checked)) => checked is Ok,
                (SetupStage::SetUp(_), SetupReply::Pool(pool)) => pool matches Ok((name, _))
                    && name@ == recorded,
                _ => true,
            }
        },
        _ => true,
    }
}

/// Each pool of `pools` is a pool of `before`, with the same name.
pub open spec fn names_from(pools: Pools, before: Pools) -> bool {
    forall|u: PoolUuid|
        #![trigger pools[u]]
        pools.contains_key(u) ==> before.contains_key(u) && pools[u].0 == before[u].0
}

/// At `stage` every pool of `before` that has had its turn is set up, under the
/// name that it had.
pub open spec fn coming_back(stage: InitStage, found: Found, before: Pools) -> bool {
    &&& accounts_for(stage, found)
    &&& match stage {
        InitStage::SetUpPools(setup) => {
            &&& setup.failures@.len() == 0
            &&& names_from(setup.pools@, before)
            &&& name_is(setup.stage, before[setup.pool_uuid].0)
        },
        InitStage::CleanLinks(startup) => {
            &&& startup.failures@.len() == 0
            &&& names_from(startup.engine@.pools, before)
        },
        _ => true,
    }
}

proof fn lemma_comes_back(
    stage: InitStage,
    binaries: Binaries,
    reply: InitReply,
    next: InitStage,
    found: Found,
    before: Pools,
)
    requires
        distinct_names(before),
        found.dom() == before.dom(),
        coming_back(stage, found, before),
        faithful_reply(stage, reply, found, before),
        init_transition(stage, binaries, reply, InitStep::Next(next)),
    ensures
        coming_back(next, found, before),
{
    if let (InitStage::SetUpPools(setup), InitReply::Setup(_)) = (stage, reply) {
        let uuid = setup.pool_uuid;
        assert(waiting(setup)[0] == uuid);
        assert(waiting(setup).contains(uuid));
        assert(found.contains_key(uuid));
        assert(before.dom().contains(uuid));
        assert(!has_name(setup.pools@, before[uuid].0)) by {
            assert forall|u: PoolUuid| setup.pools@.contains_key(u) implies (
            #[trigger] setup.pools@[u]).0 != before[uuid].0 by {
                assert(before[u].0 == setup.pools@[u].0);
                assert(u != uuid);
            }
        }
    }
    law_startup_step_accounts(stage, binaries, reply, InitStep::Next(next), found);
    match next {
        InitStage::SetUpPools(setup) => {
            assert(failure_views(setup.failures@).len() == setup.failures@.len());
        },
        InitStage::CleanLinks(startup) => {
            assert(failure_views(startup.failures@).len() == startup.failures@.len());
        },
        _ => {},
    }
    if let (InitStage::SetUpPools(setup), InitReply::Setup(answer)) = (stage, reply) {
        let uuid = setup.pool_uuid;
        if let SetupStepView::Done(Ok((name, pool))) = next_setup_step(
            uuid,
            setup.devices.listing(),
            setup.pools@,
            setup.stage,
            answer,
        ) {
            let pools = with_item(setup.pools@, name@, uuid, pool);
            assert forall|u: PoolUuid|
                #![trigger pools[u]]
                pools.contains_key(u) implies before.contains_key(u) && pools[u].0
                == before[u].0 by {
                if u != uuid {
                    assert(pools[u] == setup.pools@[u]);
                }
            }
        }
    }
}

/// The pools of an engine that was shut down come back: where each of them is
/// found again with its name in its metadata, and nothing fails, every one is
/// set up under the name that it had, and no pool is incomplete.
pub proof fn law_pools_come_back(
    stages: Seq<InitStage>,
    binaries: Binaries,
    replies: Seq<InitReply>,
    found: Found,
    before: Pools,
    n: int,
)
    requires
        startup_run(stages, binaries, replies),
        distinct_names(before),
        found.dom() == before.dom(),
        forall|i: int|
            0 <= i < replies.len() ==> #[trigger] faithful_reply(
                stages[i],
                replies[i],
                found,
                before,
            ),
        0 <= n < stages.len(),
    ensures
        coming_back(stages[n], found, before),
        stages[n] matches InitStage::CleanLinks(startup) ==> {
            &&& startup.engine@.pools.dom() == before.dom()
            &&& startup.engine@.incomplete_pools == Found::empty()
            &&& forall|u: PoolUuid|
                before.contains_key(u) ==> (#[trigger] startup.engine@.pools[u]).0 == before[u].0
        },
    decreases n,
{
    if n > 0 {
        law_pools_come_back(stages, binaries, replies, found, before, n - 1);
        assert(init_transition(
            stages[n - 1],
            binaries,
            replies[n - 1],
            InitStep::Next(stages[n - 1 + 1]),
        ));
        assert(faithful_reply(stages[n - 1], replies[n - 1], found, before));
        lemma_comes_back(stages[n - 1], binaries, replies[n - 1], stages[n], found, before);
    }
    if let InitStage::CleanLinks(startup) = stages[n] {
        law_complete_startup(startup, found);
        assert forall|u: PoolUuid| before.contains_key(u) implies (
        #[trigger] startup.engine@.pools[u]).0 == before[u].0 by {
            assert(startup.engine@.pools.dom().contains(u));
        }
    }
}

/// `reply` answers what `stage` asks for.
pub open spec fn answers(stage: InitStage, reply: InitReply) -> bool {
    match stage {
        InitStage::OpenDm => reply is Dm,
        InitStage::ReadDmVersion => reply is DmVersion,
        InitStage::SetupDevPath => reply is DevPath,
        InitStage::FindPools => reply is Pools,
        InitStage::SetUpPools(setup) => reply matches InitReply::Setup(reply) && answers_setup(
            setup.stage,
            reply,
        ),
        InitStage::CleanLinks(_) => reply is Cleaned,
    }
}

/// How many answers it takes at most from `stage` on until the pools that were
/// found have all had their turn, while they are being set up.
pub open spec fn work_left(stage: InitStage) -> nat {
    match stage {
        InitStage::SetUpPools(setup) => 4 * setup.rest@.len() + answers_left(setup.stage),
        _ => 0,
    }
}

/// How many kinds of stages there are from `stage` on.
pub open spec fn stages_left(stage: InitStage) -> nat {
    match stage {
        InitStage::OpenDm => 6,
        InitStage::ReadDmVersion => 5,
        InitStage::SetupDevPath => 4,
        InitStage::FindPools => 3,
        InitStage::SetUpPools(_) => 2,
        InitStage::CleanLinks(_) => 1,
    }
}

/// Bringing the engine up always ends: each answer ends it, or goes on to a
/// later stage, or leaves less work at the same stage.
pub proof fn law_startup_ends(
    stage: InitStage,
    binaries: Binaries,
    reply: InitReply,
    step: InitStep,
)
    requires
        answers(stage, reply),
        init_transition(stage, binaries, reply, step),
    ensures
        step matches InitStep::Next(next) ==> decreases_to!(
            stages_left(stage), work_left(stage) => stages_left(next), work_left(next)
        ),
{
}

/// The device mapper's version is known to do at `stage`.
pub open spec fn past_version_check(stage: InitStage) -> bool {
    !(stage is OpenDm) && !(stage is ReadDmVersion)
}

/// `reply` gives a version of the device mapper that will do.
pub open spec fn sufficient_version(reply: InitReply) -> bool {
    reply matches InitReply::DmVersion(Ok((_, minor, _))) && minor >= REQUIRED_DM_MINOR_VERSION
}

/// The engine looks at no device unless all programs that it relies on were
/// found and the kernel supports the required features of the device mapper.
pub proof fn law_startup_requirements(
    stages: Seq<InitStage>,
    binaries: Binaries,
    replies: Seq<InitReply>,
    n: int,
)
    requires
        startup_run(stages, binaries, replies),
        0 <= n < stages.len(),
    ensures
        !(stages[n] is OpenDm) ==> binaries.all_found(),
        past_version_check(stages[n]) ==> exists|i: int|
            0 <= i < n && sufficient_version(#[trigger] replies[i]),
    decreases n,
{
    if n > 0 {
        law_startup_requirements(stages, binaries, replies, n - 1);
        assert(init_transition(
            stages[n - 1],
            binaries,
            replies[n - 1],
            InitStep::Next(stages[n - 1 + 1]),
        ));
        if past_version_check(stages[n]) && !past_version_check(stages[n - 1]) {
            assert(sufficient_version(replies[n - 1]));
        }
    }
}

/// `step` turns to the first of the pools in `rest`, whose metadata is to be
/// read, with `rest` but for that one still to come. If there is none, the
/// engine is there, and its links are to be cleaned.
pub open spec fn turns_to(step: InitStep, rest: Seq<(PoolUuid, DeviceMap)>) -> bool {
    match step {
        InitStep::Next(InitStage::SetUpPools(setup)) => {
            &&& rest.len() > 0
            &&& setup.pool_uuid == rest[0].0
            &&& setup.devices == rest[0].1
            &&& setup.stage == SetupStage::ReadMetadata
            &&& setup.rest@.len() == rest.len() - 1
            &&& forall|i: int| 0 <= i < setup.rest@.len() ==> #[trigger] setup.rest@[i] == rest[i
                + 1]
        },
        InitStep::Next(InitStage::CleanLinks(startup)) => {
            &&& rest.len() == 0
            &&& startup.engine@.watched == Map::<Seq<char>, u32>::empty()
        },
        _ => false,
    }
}

/// The pools that are set up at `step`.
pub open spec fn pools_at(step: InitStep) -> Pools {
    match step {
        InitStep::Next(InitStage::SetUpPools(setup)) => setup.pools@,
        InitStep::Next(InitStage::CleanLinks(startup)) => startup.engine@.pools,
        _ => Map::empty(),
    }
}

/// The devices that are kept at `step`.
pub open spec fn kept_at(step: InitStep) -> Found {
    match step {
        InitStep::Next(InitStage::SetUpPools(setup)) => setup.incomplete_pools@.map_values(
            |devices: DeviceMap| devices@,
        ),
        InitStep::Next(InitStage::CleanLinks(startup)) => startup.engine@.incomplete_pools,
        _ => Map::empty(),
    }
}

/// The failures at `step`.
pub open spec fn failures_at(step: InitStep) -> Seq<(PoolUuid, StratisError)> {
    match step {
        InitStep::Next(InitStage::SetUpPools(setup)) => setup.failures@,
        InitStep::Next(InitStage::CleanLinks(startup)) => startup.failures@,
        _ => Seq::empty(),
    }
}

/// The failures of `after` are those of `before`, saying the same.
pub open spec fn same_failures(
    before: Seq<(PoolUuid, StratisError)>,
    after: Seq<(PoolUuid, StratisError)>,
) -> bool {
    &&& after.len() == before.len()
    &&& forall|i: int|
        0 <= i < after.len() ==> (#[trigger] after[i]).0 == before[i].0 && same_error(
            after[i].1,
            before[i].1,
        )
}

proof fn lemma_same_failures(
    before: Seq<(PoolUuid, StratisError)>,
    after: Seq<(PoolUuid, StratisError)>,
)
    requires
        failure_views(before) == failure_views(after),
    ensures
        same_failures(before, after),
{
    assert(failure_views(after).len() == after.len());
    assert(failure_views(before).len() == before.len());
    assert forall|i: int| 0 <= i < after.len() implies (#[trigger] after[i]).0 == before[i].0
        && same_error(after[i].1, before[i].1) by {
        assert(failure_views(after)[i] == (after[i].0, after[i].1@));
        assert(failure_views(before)[i] == (before[i].0, before[i].1@));
    }
}

/// Bringing the engine up is never refused for the version of the device mapper
/// where its minor version is at least 37, and always where it is less. What the
/// major and the patch version are does not matter.
pub proof fn law_version(
    binaries: &Binaries,
    major: u32,
    minor: u32,
    patch: u32,
    step: InitStep,
)
    requires
        call_ensures(
            StratEngine::initialize,
            (InitStage::ReadDmVersion, binaries, InitReply::DmVersion(Ok((major, minor, patch)))),
            step,
        ),
    ensures
        minor >= 37 ==> step == InitStep::Next(InitStage::SetupDevPath),
        minor < 37 ==> {
            &&& step matches InitStep::Failed(StratisError::Engine(ErrorEnum::Error, message))
            &&& message@ == "Requires DM minor version 37 but kernel only supports "@ + decimal(
                minor as nat,
            )
        },
{
    reveal_strlit("Requires DM minor version 37 but kernel only supports ");
    reveal_strlit("Requires DM minor version ");
    reveal_strlit(" but kernel only supports ");
    reveal_with_fuel(decimal, 2);
    assert(decimal(37) =~= seq!['3', '7']);
    assert("Requires DM minor version "@ + decimal(37) + " but kernel only supports "@
        =~= "Requires DM minor version 37 but kernel only supports "@);
}

/// Once the device mapper is open, bringing the engine up goes on exactly where
/// each of the six programs was found. If one was not, the error names one that
/// was not, and the directories in which it was looked for.
pub proof fn law_programs_are_needed(binaries: &Binaries, step: InitStep)
    requires
        call_ensures(
            StratEngine::initialize,
            (InitStage::OpenDm, binaries, InitReply::Dm(Ok(()))),
            step,
        ),
    ensures
        has_six_programs(*binaries) ==> step == InitStep::Next(InitStage::ReadDmVersion),
        !has_six_programs(*binaries) ==> {
            &&& step matches InitStep::Failed(error)
            &&& tells_of_missing(*binaries, error)
        },
{
    lemma_six_programs(*binaries);
    if let InitStep::Failed(error) = step {
        if !binaries.all_found() {
            lemma_tells_of_missing(*binaries, error);
        }
    }
}

/// What fails before pools are looked for, or while they are, is why the engine
/// cannot be brought up. What goes well leads to the next stage.
pub proof fn law_failed_startup(
    stage: InitStage,
    binaries: &Binaries,
    reply: InitReply,
    step: InitStep,
    e: StratisError,
)
    requires
        call_ensures(StratEngine::initialize, (stage, binaries, reply), step),
    ensures
        stage is OpenDm && reply == InitReply::Dm(Err(e)) ==> step == InitStep::Failed(e),
        stage is ReadDmVersion && reply == InitReply::DmVersion(Err(e)) ==> step
            == InitStep::Failed(e),
        stage is SetupDevPath && reply == InitReply::DevPath(Err(e)) ==> step == InitStep::Failed(
            e,
        ),
        stage is FindPools && reply == InitReply::Pools(Err(e)) ==> step == InitStep::Failed(e),
        stage is SetupDevPath && (reply matches InitReply::DevPath(made) && made is Ok) ==> step
            == InitStep::Next(InitStage::FindPools),
        stage is SetUpPools || stage is CleanLinks ==> !(step is Failed),
        !answers(stage, reply) ==> step == InitStep::Next(stage),
{
}

/// The pools that were found have their turns one after the other, from nothing
/// set up and nothing kept.
pub proof fn law_found_pools_have_their_turns(
    binaries: &Binaries,
    found: PoolDevices,
    step: InitStep,
)
    requires
        call_ensures(
            StratEngine::initialize,
            (InitStage::FindPools, binaries, InitReply::Pools(Ok(found))),
            step,
        ),
    ensures
        turns_to(step, found.pairs()),
        pools_at(step) == Pools::empty(),
        kept_at(step) == Found::empty(),
        failures_at(step).len() == 0,
{
    assert(failure_views(failures_at(step)).len() == failures_at(step).len());
}

/// What a reply comes to while the pools are being set up. A pool joins those
/// that are set up just as it was set up, under the name it was set up under,
/// once it is linked. If something prevents that, all its devices are kept, and
/// why is told. In both cases the next pool has its turn. Until then only the
/// stage is changed.
pub proof fn law_pool_turn(
    setup: PoolsSetup,
    binaries: &Binaries,
    reply: SetupReply,
    step: InitStep,
    paths: Seq<Seq<char>>,
)
    requires
        call_ensures(
            StratEngine::initialize,
            (InitStage::SetUpPools(setup), binaries, InitReply::Setup(reply)),
            step,
        ),
        are_nodes_of(paths, setup.devices),
    ensures
        ({
            let uuid = setup.pool_uuid;
            let kept = setup.incomplete_pools@.map_values(|devices: DeviceMap| devices@);
            if setup.stage is Link && reply is Linked {
                &&& turns_to(step, setup.rest@)
                &&& joins_pools(
                    setup.pools@,
                    setup.stage->Link_0@,
                    uuid,
                    setup.stage->Link_1,
                    pools_at(step),
                )
                &&& kept_at(step) == kept
                &&& same_failures(setup.failures@, failures_at(step))
            } else if exists|next: SetupStage| leads_to(setup.pools@, setup.stage, reply, next) {
                &&& step matches InitStep::Next(InitStage::SetUpPools(after))
                &&& leads_to(setup.pools@, setup.stage, reply, after.stage)
                &&& after == (PoolsSetup { stage: after.stage, ..setup })
            } else {
                &&& turns_to(step, setup.rest@)
                &&& pools_at(step) == setup.pools@
                &&& kept_at(step) == kept.insert(uuid, setup.devices@)
                &&& failures_at(step).len() == setup.failures@.len() + 1
                &&& same_failures(setup.failures@, failures_at(step).drop_last())
                &&& failures_at(step).last().0 == uuid
                &&& prevents(
                    uuid,
                    paths,
                    setup.pools@,
                    setup.stage,
                    reply,
                    failures_at(step).last().1,
                )
            }
        }),
{
    let uuid = setup.pool_uuid;
    let kept = setup.incomplete_pools@.map_values(|devices: DeviceMap| devices@);
    assert(kept =~= device_maps(setup.incomplete_pools@));
    lemma_next_setup_step(uuid, setup.devices, paths, setup.pools@, setup.stage, reply);
    let next = next_setup_step(
        uuid,
        setup.devices.listing(),
        setup.pools@,
        setup.stage,
        reply,
    );
    match next {
        SetupStepView::Next(stage) => {
            assert(leads_to(setup.pools@, setup.stage, reply, stage));
        },
        SetupStepView::Done(Ok((name, pool))) => {
            assert(kept_at(step) =~= kept);
            lemma_same_failures(setup.failures@, failures_at(step));
        },
        SetupStepView::Done(Err(view)) => {
            let before = failure_views(setup.failures@);
            let after = failures_at(step);
            assert(failure_views(after) == before.push((uuid, view)));
            assert(failure_views(after).len() == after.len());
            assert(before.len() == setup.failures@.len());
            assert(failure_views(after)[after.len() - 1] == (after.last().0, after.last().1@));
            assert(failure_views(after.drop_last()) =~= failure_views(after).drop_last());
            assert(before.push((uuid, view)).drop_last() =~= before);
            lemma_same_failures(setup.failures@, after.drop_last());
            assert(kept_at(step) =~= kept.insert(uuid, setup.devices@));
            assert(prevents(uuid, paths, setup.pools@, setup.stage, reply, after.last().1));
            assert forall|stage: SetupStage| !leads_to(
                setup.pools@,
                setup.stage,
                reply,
                stage,
            ) by {}
        },
    }
}

/// Cleaning the links leaves the engine as it was made of the pools.
pub proof fn law_links_cleaned(startup: Startup, binaries: &Binaries, step: InitStep)
    requires
        call_ensures(
            StratEngine::initialize,
            (InitStage::CleanLinks(startup), binaries, InitReply::Cleaned),
            step,
        ),
    ensures
        step == InitStep::Ready(startup),
{
}

/// The pool `uuid` was reported as `pool` under `name` by one of the first `n`
/// replies, to the stage at which it was set up.
pub open spec fn was_set_up(
    stages: Seq<InitStage>,
    replies: Seq<InitReply>,
    n: int,
    uuid: PoolUuid,
    name: Seq<char>,
    pool: StratPool,
) -> bool {
    exists|i: int|
        {
            &&& 0 <= i < n
            &&& #[trigger] stages[i] matches InitStage::SetUpPools(setup)
            &&& setup.pool_uuid == uuid
            &&& setup.stage is SetUp
            &&& replies[i] matches InitReply::Setup(SetupReply::Pool(Ok((reported, set_up))))
            &&& reported@ == name
            &&& set_up == pool
        }
}

/// Every pool of `pools` was reported by one of the first `n` replies.
pub open spec fn were_set_up(
    stages: Seq<InitStage>,
    replies: Seq<InitReply>,
    n: int,
    pools: Pools,
) -> bool {
    forall|u: PoolUuid|
        #![trigger pools[u]]
        pools.contains_key(u) ==> was_set_up(stages, replies, n, u, pools[u].0, pools[u].1)
}

/// Every pool that is set up when the engine is brought up is the very pool that
/// was set up for it: it has the name and all that the reply gave when it was its
/// turn. Nothing that it holds is lost.
pub proof fn law_started_pools_are_what_was_set_up(
    stages: Seq<InitStage>,
    binaries: Binaries,
    replies: Seq<InitReply>,
    n: int,
)
    requires
        startup_run(stages, binaries, replies),
        0 <= n < stages.len(),
    ensures
        stages[n] matches InitStage::SetUpPools(setup) ==> {
            &&& were_set_up(stages, replies, n, setup.pools@)
            &&& setup.stage matches SetupStage::Link(name, pool) ==> was_set_up(
                stages,
                replies,
                n,
                setup.pool_uuid,
                name@,
                pool,
            )
        },
        stages[n] matches InitStage::CleanLinks(startup) ==> were_set_up(
            stages,
            replies,
            n,
            startup.engine@.pools,
        ),
    decreases n,
{
    if n > 0 {
        law_started_pools_are_what_was_set_up(stages, binaries, replies, n - 1);
        let m = n - 1;
        assert(init_transition(stages[m], binaries, replies[m], InitStep::Next(stages[m + 1])));
        assert forall|u: PoolUuid, name: Seq<char>, pool: StratPool| #[trigger]
            was_set_up(stages, replies, m, u, name, pool) implies was_set_up(
            stages,
            replies,
            n,
            u,
            name,
            pool,
        ) by {
            let i = choose|i: int|
                {
                    &&& 0 <= i < m
                    &&& #[trigger] stages[i] matches InitStage::SetUpPools(setup)
                    &&& setup.pool_uuid == u
                    &&& setup.stage is SetUp
                    &&& replies[i] matches InitReply::Setup(
                        SetupReply::Pool(Ok((reported, set_up))),
                    )
                    &&& reported@ == name
                    &&& set_up == pool
                };
            assert(stages[i] is SetUpPools);
        }
        if let (InitStage::SetUpPools(setup), InitReply::Setup(answer)) = (stages[m], replies[m]) {
            let uuid = setup.pool_uuid;
            match next_setup_step(
                uuid,
                setup.devices.listing(),
                setup.pools@,
                setup.stage,
                answer,
            ) {
                SetupStepView::Next(SetupStage::Link(name, pool)) => {
                    if setup.stage is SetUp {
                        assert(stages[m] is SetUpPools);
                        assert(was_set_up(stages, replies, n, uuid, name@, pool));
                    }
                },
                SetupStepView::Done(Ok((name, pool))) => {
                    let pools = with_item(setup.pools@, name@, uuid, pool);
                    assert forall|u: PoolUuid|
                        #![trigger pools[u]]
                        pools.contains_key(u) implies was_set_up(
                        stages,
                        replies,
                        n,
                        u,
                        pools[u].0,
                        pools[u].1,
                    ) by {
                        if u != uuid {
                            assert(pools[u] == setup.pools@[u]);
                        }
                    }
                },
                _ => {},
            }
        }
    }
}

/// The engine can be brought up from the first stage on, whatever the replies
/// are: each stage that is reached can be answered, and the engine that comes of
/// it is in order.
pub proof fn law_startup_is_admitted(
    stage: InitStage,
    binaries: &Binaries,
    reply: InitReply,
    other: InitReply,
    step: InitStep,
)
    requires
        call_ensures(StratEngine::initialize, (stage, binaries, reply), step),
    ensures
        call_requires(StratEngine::initialize, (InitStage::OpenDm, binaries, reply)),
        step matches InitStep::Next(next) ==> call_requires(
            StratEngine::initialize,
            (next, binaries, other),
        ),
        step matches InitStep::Ready(startup) ==> startup.engine.wf(),
{
}

/// The last of the pools that were found has its turn: once it is linked, the
/// engine has it just as it was set up; if it cannot be set up, the engine keeps
/// all its devices. In both cases it has what there was of the others.
pub proof fn law_last_turn(
    setup: PoolsSetup,
    binaries: &Binaries,
    name: Name,
    pool: StratPool,
    reason: String,
    linked: InitStep,
    failed: InitStep,
)
    requires
        setup.rest@.len() == 0,
        call_ensures(
            StratEngine::initialize,
            (
                InitStage::SetUpPools(PoolsSetup { stage: SetupStage::Link(name, pool), ..setup }),
                binaries,
                InitReply::Setup(SetupReply::Linked),
            ),
            linked,
        ),
        setup.stage is SetUp,
        call_ensures(
            StratEngine::initialize,
            (
                InitStage::SetUpPools(setup),
                binaries,
                InitReply::Setup(SetupReply::Pool(Err(reason))),
            ),
            failed,
        ),
    ensures
        linked matches InitStep::Next(InitStage::CleanLinks(startup)) && {
            &&& startup.engine@.pools.contains_key(setup.pool_uuid)
            &&& startup.engine@.pools[setup.pool_uuid].0 == name@
            &&& startup.engine@.pools[setup.pool_uuid].1 == pool
            &&& startup.failures@.len() == setup.failures@.len()
            &&& forall|u: PoolUuid| #[trigger]
                startup.engine@.incomplete_pools.contains_key(u)
                    == setup.incomplete_pools@.contains_key(u)
        },
        failed matches InitStep::Next(InitStage::CleanLinks(startup)) && {
            &&& startup.engine@.pools == setup.pools@
            &&& startup.engine@.incomplete_pools.contains_key(setup.pool_uuid)
            &&& startup.engine@.incomplete_pools[setup.pool_uuid] == setup.devices@
            &&& startup.failures@.len() == setup.failures@.len() + 1
            &&& startup.failures@.last().0 == setup.pool_uuid
            &&& startup.failures@.last().1 is Engine
        },
{
    if let InitStep::Next(InitStage::CleanLinks(startup)) = linked {
        assert(failure_views(startup.failures@).len() == startup.failures@.len());
        assert(failure_views(setup.failures@).len() == setup.failures@.len());
    }
    if let InitStep::Next(InitStage::CleanLinks(startup)) = failed {
        let failures = startup.failures@;
        assert(failure_views(failures).len() == failures.len());
        assert(failure_views(setup.failures@).len() == setup.failures@.len());
        assert(failure_views(failures)[failures.len() - 1] == (
            failures.last().0,
            failures.last().1@,
        ));
    }
}

/// Finding no pool brings up an engine without any, and the first pool that is
/// found is the first to have its turn, with its own devices.
pub proof fn law_first_turn(binaries: &Binaries, found: PoolDevices, step: InitStep)
    requires
        call_ensures(
            StratEngine::initialize,
            (InitStage::FindPools, binaries, InitReply::Pools(Ok(found))),
            step,
        ),
    ensures
        found.pairs().len() == 0 ==> (step matches InitStep::Next(InitStage::CleanLinks(startup))
            && startup.engine@.pools.dom() == Set::<PoolUuid>::empty()
            && startup.engine@.incomplete_pools.dom() == Set::<PoolUuid>::empty()
            && startup.engine@.watched.dom() == Set::<Seq<char>>::empty()
            && startup.failures@.len() == 0),
        found.pairs().len() > 0 ==> (step matches InitStep::Next(InitStage::SetUpPools(setup))
            && setup.pool_uuid == found.pairs()[0].0 && setup.devices == found.pairs()[0].1
            && setup.rest@ == found.pairs().skip(1) && setup.stage is ReadMetadata
            && setup.pools@.dom() == Set::<PoolUuid>::empty()),
{
    if let InitStep::Next(InitStage::CleanLinks(startup)) = step {
        assert(failure_views(startup.failures@).len() == startup.failures@.len());
        assert(startup.engine@.pools.dom() =~= Set::empty());
        assert(startup.engine@.incomplete_pools.dom() =~= Set::empty());
        assert(startup.engine@.watched.dom() =~= Set::empty());
    }
    if let InitStep::Next(InitStage::SetUpPools(setup)) = step {
        assert(setup.pools@.dom() =~= Set::empty());
    }
}

} // verus!
