//! Bringing the engine up.
use std::collections::HashMap;

use vstd::prelude::*;
use vstd::string::*;

use crate::cmd::{names_first_missing, verify_binaries, Binaries};
use crate::engine::{EngineView, StratEngine};
use crate::errors::{ErrorEnum, ErrorView, StratisError, StratisResult};
use crate::setup::{next_setup_step, setup_pool, SetupReply, SetupStage, SetupStep, SetupStepView};
use crate::table::{with_item, Table};
use crate::text::{decimal, to_decimal};
use crate::types::{
    device_maps, Device, DeviceMap, IncompletePools, PoolDevices, PoolUuid, StratPool,
};

verus! {

broadcast use vstd::std_specs::hash::group_hash_axioms;

/// The least minor version of the device mapper that will do.
pub const REQUIRED_DM_MINOR_VERSION: u32 = 37;

/// The pools that were found, while they are being set up one by one.
#[derive(Debug)]
pub struct PoolsSetup {
    /// The pools that are set up.
    pub pools: Table<StratPool>,
    /// The devices of those that could not be set up.
    pub incomplete_pools: IncompletePools,
    /// Why each of those could not be set up.
    pub failures: Vec<(PoolUuid, StratisError)>,
    /// The pool that is being set up.
    pub pool_uuid: PoolUuid,
    /// Its devices.
    pub devices: DeviceMap,
    /// What is to be done next for it.
    pub stage: SetupStage,
    /// The pools that come after it.
    pub rest: Vec<(PoolUuid, DeviceMap)>,
}

/// An engine that is up, and why pools are not set up in it.
#[derive(Debug)]
pub struct Startup {
    pub engine: StratEngine,
    pub failures: Vec<(PoolUuid, StratisError)>,
}

/// What is to be done next to bring the engine up.
#[derive(Debug)]
pub enum InitStage {
    /// Open the device mapper.
    OpenDm,
    /// Ask the device mapper for its version.
    ReadDmVersion,
    /// Make the directory for the engine's links.
    SetupDevPath,
    /// Find all pools, with their devices.
    FindPools,
    /// Do what the stage of the pool that is being set up asks for.
    SetUpPools(PoolsSetup),
    /// Take away the links of what is not a pool of the engine.
    CleanLinks(Startup),
}

/// How it went.
#[derive(Debug)]
pub enum InitReply {
    /// The device mapper was opened.
    Dm(StratisResult<()>),
    /// The major, minor and patch version of the device mapper.
    DmVersion(StratisResult<(u32, u32, u32)>),
    /// The directory for the links was made.
    DevPath(StratisResult<()>),
    /// The pools that were found.
    Pools(StratisResult<PoolDevices>),
    /// The reply to the stage of the pool that is being set up.
    Setup(SetupReply),
    /// The links were cleaned.
    Cleaned,
}

/// Where the bringing up of the engine stands.
#[derive(Debug)]
pub enum InitStep {
    /// This is to be done next.
    Next(InitStage),
    /// The engine cannot be brought up.
    Failed(StratisError),
    /// The engine is up.
    Ready(Startup),
}

/// What the reasons in `failures` say.
pub open spec fn failure_views(failures: Seq<(PoolUuid, StratisError)>) -> Seq<
    (PoolUuid, ErrorView),
> {
    failures.map_values(|failure: (PoolUuid, StratisError)| (failure.0, failure.1@))
}

/// The device mapper of this minor version will not do.
pub open spec fn version_too_low(minor: u32) -> ErrorView {
    ErrorView::Engine(
        ErrorEnum::Error,
        "Requires DM minor version "@ + decimal(REQUIRED_DM_MINOR_VERSION as nat)
            + " but kernel only supports "@ + decimal(minor as nat),
    )
}

impl InitStage {
    /// The pools are known by distinct names and UUIDs.
    pub open spec fn wf(&self) -> bool {
        match self {
            InitStage::SetUpPools(setup) => setup.pools.wf(),
            InitStage::CleanLinks(startup) => startup.engine.wf(),
            _ => true,
        }
    }
}

/// `step` goes on to the first of the pools in `rest`, with `pools` set up and
/// `incomplete_pools` not. If none is left, the engine is made of them.
pub open spec fn goes_on(
    step: InitStep,
    pools: Map<PoolUuid, (Seq<char>, StratPool)>,
    incomplete_pools: Map<PoolUuid, Map<Device, Seq<char>>>,
    failures: Seq<(PoolUuid, ErrorView)>,
    rest: Seq<(PoolUuid, DeviceMap)>,
) -> bool {
    if rest.len() == 0 {
        &&& step matches InitStep::Next(InitStage::CleanLinks(startup))
        &&& startup.engine.wf()
        &&& startup.engine@ == (EngineView { pools, incomplete_pools, watched: Map::empty() })
        &&& failure_views(startup.failures@) == failures
    } else {
        &&& step matches InitStep::Next(InitStage::SetUpPools(setup))
        &&& setup.pools.wf()
        &&& setup.pools@ == pools
        &&& device_maps(setup.incomplete_pools@) == incomplete_pools
        &&& failure_views(setup.failures@) == failures
        &&& (setup.pool_uuid, setup.devices) == rest[0]
        &&& setup.rest@ == rest.skip(1)
        &&& setup.stage == SetupStage::ReadMetadata
    }
}

/// `step` is where `setup` stands after `reply` to its stage.
pub open spec fn setup_transition(setup: PoolsSetup, reply: SetupReply, step: InitStep) -> bool {
    let failures = failure_views(setup.failures@);
    match next_setup_step(
        setup.pool_uuid,
        setup.devices.listing(),
        setup.pools@,
        setup.stage,
        reply,
    ) {
        SetupStepView::Next(stage) => step == InitStep::Next(
            InitStage::SetUpPools(PoolsSetup { stage, ..setup }),
        ),
        SetupStepView::Done(Ok((name, pool))) => goes_on(
            step,
            with_item(setup.pools@, name@, setup.pool_uuid, pool),
            device_maps(setup.incomplete_pools@),
            failures,
            setup.rest@,
        ),
        SetupStepView::Done(Err(error)) => goes_on(
            step,
            setup.pools@,
            device_maps(setup.incomplete_pools@).insert(setup.pool_uuid, setup.devices@),
            failures.push((setup.pool_uuid, error)),
            setup.rest@,
        ),
    }
}

/// `step` is where the bringing up of the engine stands after `reply` to
/// `stage`. A reply to something else than `stage` asks for leaves it where it
/// was.
pub open spec fn init_transition(
    stage: InitStage,
    binaries: Binaries,
    reply: InitReply,
    step: InitStep,
) -> bool {
    match (stage, reply) {
        (InitStage::OpenDm, InitReply::Dm(Err(e))) => step == InitStep::Failed(e),
        (InitStage::OpenDm, InitReply::Dm(Ok(_))) => if binaries.all_found() {
            step == InitStep::Next(InitStage::ReadDmVersion)
        } else {
            step matches InitStep::Failed(e) && names_first_missing(binaries@, e@)
        },
        (InitStage::ReadDmVersion, InitReply::DmVersion(Err(e))) => step == InitStep::Failed(e),
        (InitStage::ReadDmVersion, InitReply::DmVersion(Ok((_, minor, _)))) => if minor
            < REQUIRED_DM_MINOR_VERSION {
            step matches InitStep::Failed(e) && e@ == version_too_low(minor)
        } else {
            step == InitStep::Next(InitStage::SetupDevPath)
        },
        (InitStage::SetupDevPath, InitReply::DevPath(Err(e))) => step == InitStep::Failed(e),
        (InitStage::SetupDevPath, InitReply::DevPath(Ok(_))) => step == InitStep::Next(
            InitStage::FindPools,
        ),
        (InitStage::FindPools, InitReply::Pools(Err(e))) => step == InitStep::Failed(e),
        (InitStage::FindPools, InitReply::Pools(Ok(found))) => goes_on(
            step,
            Map::empty(),
            Map::empty(),
            Seq::empty(),
            found.pairs(),
        ),
        (InitStage::SetUpPools(setup), InitReply::Setup(reply)) => setup_transition(
            setup,
            reply,
            step,
        ),
        (InitStage::CleanLinks(startup), InitReply::Cleaned) => step == InitStep::Ready(startup),
        _ => step == InitStep::Next(stage),
    }
}

/// Goes on to the first of the pools in `rest`.
fn go_on(
    pools: Table<StratPool>,
    incomplete_pools: IncompletePools,
    failures: Vec<(PoolUuid, StratisError)>,
    rest: Vec<(PoolUuid, DeviceMap)>,
) -> (step: InitStep)
    requires
        pools.wf(),
    ensures
        goes_on(step, pools@, device_maps(incomplete_pools@), failure_views(failures@), rest@),
{
    let mut rest = rest;
    if rest.len() == 0 {
        let engine = StratEngine::from_parts(pools, incomplete_pools);
        InitStep::Next(InitStage::CleanLinks(Startup { engine, failures }))
    } else {
        let ghost all = rest@;
        let (pool_uuid, devices) = rest.remove(0);
        assert(rest@ =~= all.skip(1));
        InitStep::Next(
            InitStage::SetUpPools(
                PoolsSetup {
                    pools,
                    incomplete_pools,
                    failures,
                    pool_uuid,
                    devices,
                    stage: SetupStage::ReadMetadata,
                    rest,
                },
            ),
        )
    }
}

/// Takes the setting up of the pools one step on.
fn set_up_pools(setup: PoolsSetup, reply: SetupReply) -> (step: InitStep)
    requires
        setup.pools.wf(),
    ensures
        setup_transition(setup, reply, step),
        step matches InitStep::Next(stage) ==> stage.wf(),
{
    let PoolsSetup { pools, incomplete_pools, failures, pool_uuid, devices, stage, rest } = setup;
    match setup_pool(pool_uuid, &devices, &pools, stage, reply) {
        SetupStep::Next(stage) => InitStep::Next(
            InitStage::SetUpPools(
                PoolsSetup { pools, incomplete_pools, failures, pool_uuid, devices, stage, rest },
            ),
        ),
        SetupStep::Done(Ok((name, pool))) => {
            let mut pools = pools;
            pools.insert(name, pool_uuid, pool);
            go_on(pools, incomplete_pools, failures, rest)
        },
        SetupStep::Done(Err(error)) => {
            let mut incomplete_pools = incomplete_pools;
            incomplete_pools.insert(pool_uuid, devices);
            assert(device_maps(incomplete_pools@) =~= device_maps(setup.incomplete_pools@).insert(
                pool_uuid,
                setup.devices@,
            ));
            let mut failures = failures;
            let ghost before = failure_views(failures@);
            let ghost said = error@;
            failures.push((pool_uuid, error));
            assert(failure_views(failures@) =~= before.push((pool_uuid, said)));
            go_on(pools, incomplete_pools, failures, rest)
        },
    }
}

impl StratEngine {
    /// Brings the engine up: goes one step on, from the reply to `stage`; the
    /// first stage is to open the device mapper. Then the programs that the
    /// engine relies on must all have been found, and the kernel must support
    /// the required features of the device mapper. In the end all pools that
    /// were found are set up; the devices of those that cannot be are kept.
    pub fn initialize(stage: InitStage, binaries: &Binaries, reply: InitReply) -> (step: InitStep)
        requires
            stage.wf(),
        ensures
            init_transition(stage, *binaries, reply, step),
            step matches InitStep::Next(next) ==> next.wf(),
            step matches InitStep::Ready(startup) ==> startup.engine.wf(),
    {
        match (stage, reply) {
            (InitStage::OpenDm, InitReply::Dm(Err(e))) => InitStep::Failed(e),
            (InitStage::OpenDm, InitReply::Dm(Ok(_))) => {
                match verify_binaries(binaries) {
                    Ok(_) => InitStep::Next(InitStage::ReadDmVersion),
                    Err(e) => InitStep::Failed(e),
                }
            },
            (InitStage::ReadDmVersion, InitReply::DmVersion(Err(e))) => InitStep::Failed(e),
            (InitStage::ReadDmVersion, InitReply::DmVersion(Ok((_, minor, _)))) => {
                if minor < REQUIRED_DM_MINOR_VERSION {
                    let mut message = "Requires DM minor version ".to_owned();
                    message.append(to_decimal(REQUIRED_DM_MINOR_VERSION as u64).as_str());
                    message.append(" but kernel only supports ");
                    message.append(to_decimal(minor as u64).as_str());
                    InitStep::Failed(StratisError::Engine(ErrorEnum::Error, message))
                } else {
                    InitStep::Next(InitStage::SetupDevPath)
                }
            },
            (InitStage::SetupDevPath, InitReply::DevPath(Err(e))) => InitStep::Failed(e),
            (InitStage::SetupDevPath, InitReply::DevPath(Ok(_))) => InitStep::Next(
                InitStage::FindPools,
            ),
            (InitStage::FindPools, InitReply::Pools(Err(e))) => InitStep::Failed(e),
            (InitStage::FindPools, InitReply::Pools(Ok(found))) => {
                let rest = found.into_pairs();
                let failures: Vec<(PoolUuid, StratisError)> = Vec::new();
                assert(failure_views(failures@) =~= Seq::empty());
                let incomplete_pools: IncompletePools = HashMap::new();
                assert(device_maps(incomplete_pools@) =~= Map::empty());
                go_on(Table::new(), incomplete_pools, failures, rest)
            },
            (InitStage::SetUpPools(setup), InitReply::Setup(reply)) => set_up_pools(setup, reply),
            (InitStage::CleanLinks(startup), InitReply::Cleaned) => InitStep::Ready(startup),
            (stage, _) => InitStep::Next(stage),
        }
    }
}

} // verus!
