//! The engine: its pools, and the operations on them.
//!
//! An operation that needs work on devices stops where that work is wanted and
//! says what it is; a second function takes the result of the work and brings
//! the operation to its end. What is to be done outside after that, such as
//! making links, comes with the result as a list of effects.
use vstd::prelude::*;
use vstd::string::*;

use crate::assoc::AssocMap;
use crate::errors::{fails_with, ErrorEnum, ErrorView, StratisError, StratisResult};
use crate::events::{
    add_pool_events, collect_numbers, device_numbers, due_events, event_views, DueEvent,
    EventNumbers,
};
use crate::setup::{next_setup_step, setup_pool, SetupReply, SetupStage, SetupStep, SetupStepView};
use crate::table::{distinct_names, has_name, with_item, Table};
use crate::text::same_text;
use crate::types::{
    blockdev_with_uuid, device_maps, DevUuid, Device, DeviceMap, IncompletePools, Name, PoolUuid,
    Redundancy, RenameAction, StratPool,
};

verus! {

broadcast use vstd::std_specs::hash::group_hash_axioms;

/// What the engine tells those who listen.
#[derive(Debug, PartialEq, Eq)]
pub enum EngineEvent {
    /// A pool has a new name.
    PoolRenamed { dbus_path: Option<String>, from: Name, to: Name },
}

/// What is to be done outside once an operation is over.
#[derive(Debug, PartialEq, Eq)]
pub enum Effect {
    /// Make the links of the new pool of this name.
    LinkPool(Name),
    /// Take away the links of the pool of this name.
    UnlinkPool(Name),
    /// Move the links of a pool from its old name to its new one.
    RelinkPool { from: Name, to: Name },
    /// Tell the listeners.
    Notify(EngineEvent),
}

/// What an [`Effect`] says.
pub enum EffectView {
    LinkPool(Seq<char>),
    UnlinkPool(Seq<char>),
    RelinkPool { from: Seq<char>, to: Seq<char> },
    NotifyPoolRenamed { dbus_path: Option<Seq<char>>, from: Seq<char>, to: Seq<char> },
}

impl View for Effect {
    type V = EffectView;

    open spec fn view(&self) -> EffectView {
        match self {
            Effect::LinkPool(name) => EffectView::LinkPool(name@),
            Effect::UnlinkPool(name) => EffectView::UnlinkPool(name@),
            Effect::RelinkPool { from, to } => EffectView::RelinkPool { from: from@, to: to@ },
            Effect::Notify(EngineEvent::PoolRenamed { dbus_path, from, to }) => {
                EffectView::NotifyPoolRenamed {
                    dbus_path: dbus_path.deep_view(),
                    from: from@,
                    to: to@,
                }
            },
        }
    }
}

/// The result of an operation, and what is to be done outside for it, in this
/// order.
#[derive(Debug, PartialEq, Eq)]
pub struct Outcome<T> {
    pub result: StratisResult<T>,
    pub effects: Vec<Effect>,
}

impl<T> Outcome<T> {
    /// What the effects say.
    pub open spec fn effects_view(&self) -> Seq<EffectView> {
        self.effects@.map_values(|effect: Effect| effect@)
    }
}

/// The work that creates a pool: initialize its devices.
#[derive(Debug, PartialEq, Eq)]
pub struct PoolCreation {
    pub name: Name,
    pub blockdev_paths: Vec<String>,
    pub redundancy: Redundancy,
}

/// A pool that has left the table to be destroyed.
#[derive(Debug, PartialEq, Eq)]
pub struct DetachedPool {
    pub name: Name,
    pub uuid: PoolUuid,
    pub pool: StratPool,
}

/// Where the destruction of a pool stands.
#[derive(Debug, PartialEq, Eq)]
pub enum DestroyStep {
    /// The pool's devices are to be freed.
    Destroy(DetachedPool),
    /// It is over; the result says whether there is a pool less.
    Done(StratisResult<bool>),
}

/// A pool that has left the table to get a new name.
#[derive(Debug, PartialEq, Eq)]
pub struct PoolRenaming {
    pub uuid: PoolUuid,
    pub old_name: Name,
    pub new_name: Name,
    pub pool: StratPool,
}

/// Where the renaming of a pool stands.
#[derive(Debug, PartialEq, Eq)]
pub enum RenameStep {
    /// The pool's metadata is to be written with its new name.
    WriteMetadata(PoolRenaming),
    /// It is over.
    Done(StratisResult<RenameAction>),
}

/// What is to be reported of a device that was evaluated.
#[derive(Debug, PartialEq, Eq)]
pub enum Finding {
    /// All is well.
    Nothing,
    /// The device says that it belongs to a pool that does not know it.
    UnknownBlockDev,
    /// The pool has another device under the same UUID.
    DeviceMismatch { in_pool: Device },
    /// The device belongs to a pool that could not be set up, for this reason.
    NoPoolSetUp(StratisError),
}

/// What came of evaluating a device: the pool that was set up, if one was.
#[derive(Debug, PartialEq, Eq)]
pub struct Evaluation {
    pub result: StratisResult<Option<PoolUuid>>,
    pub finding: Finding,
}

/// A pool that is being set up because a device of it was found.
#[derive(Debug)]
pub struct PoolEvaluation {
    pub pool_uuid: PoolUuid,
    pub devices: DeviceMap,
    pub stage: SetupStage,
}

/// Where the evaluation of a device stands.
#[derive(Debug)]
pub enum EvaluateStep {
    /// The device's pool is to be set up.
    SetUp(PoolEvaluation),
    /// It is over.
    Done(Evaluation),
}

/// What is to be reported of the device `device` that says it is the block
/// device `device_uuid` of the pool `pool`, which is set up.
pub open spec fn active_pool_finding(
    pool: StratPool,
    device_uuid: DevUuid,
    device: Device,
) -> Finding {
    match blockdev_with_uuid(pool.blockdevs@, device_uuid) {
        None => Finding::UnknownBlockDev,
        Some(blockdev) => if blockdev.device != device {
            Finding::DeviceMismatch { in_pool: blockdev.device }
        } else {
            Finding::Nothing
        },
    }
}

/// The device events that are still to be dealt with, the next one first, and
/// the event numbers that were seen when they became due.
#[derive(Debug)]
pub struct EventRound {
    pub numbers: EventNumbers,
    pub due: Vec<DueEvent>,
}

/// Where the handling of device events stands.
#[derive(Debug)]
pub enum EventStep {
    /// The first of the due events is to be dealt with by its pool.
    Handle(EventRound),
    /// It is over.
    Done(StratisResult<()>),
}

/// What the engine keeps.
#[verifier::ext_equal]
pub struct EngineView {
    /// The pools that are set up, each with its name.
    pub pools: Map<PoolUuid, (Seq<char>, StratPool)>,
    /// The devices of pools that are not set up.
    pub incomplete_pools: Map<PoolUuid, Map<Device, Seq<char>>>,
    /// The last event number that was handled of each watched device.
    pub watched: Map<Seq<char>, u32>,
}

impl EngineView {
    /// The engine with `pool` set up under `name` and `uuid`, and without what
    /// stood under either of them before.
    pub open spec fn with_pool(
        self,
        name: Seq<char>,
        uuid: PoolUuid,
        pool: StratPool,
    ) -> EngineView {
        EngineView { pools: with_item(self.pools, name, uuid, pool), ..self }
    }

    /// The engine with the pool `uuid` replaced by `pool` under `name`, and all
    /// other pools as they are.
    pub open spec fn with_changed(
        self,
        name: Seq<char>,
        uuid: PoolUuid,
        pool: StratPool,
    ) -> EngineView {
        EngineView { pools: self.pools.insert(uuid, (name, pool)), ..self }
    }

    /// The engine without the pool `uuid`.
    pub open spec fn without_pool(self, uuid: PoolUuid) -> EngineView {
        EngineView { pools: self.pools.remove(uuid), ..self }
    }

    /// The engine with `devices` kept for the pool `uuid`.
    pub open spec fn with_incomplete(
        self,
        uuid: PoolUuid,
        devices: Map<Device, Seq<char>>,
    ) -> EngineView {
        EngineView { incomplete_pools: self.incomplete_pools.insert(uuid, devices), ..self }
    }

    /// The engine without the devices kept for the pool `uuid`.
    pub open spec fn without_incomplete(self, uuid: PoolUuid) -> EngineView {
        EngineView { incomplete_pools: self.incomplete_pools.remove(uuid), ..self }
    }

    /// The devices kept for the pool `uuid`.
    pub open spec fn known_devices(self, uuid: PoolUuid) -> Map<Device, Seq<char>> {
        if self.incomplete_pools.contains_key(uuid) {
            self.incomplete_pools[uuid]
        } else {
            Map::empty()
        }
    }

    /// The engine with the events at `numbers` handled.
    pub open spec fn with_handled(self, numbers: Map<Seq<char>, u32>) -> EngineView {
        EngineView { watched: numbers, ..self }
    }
}

/// The engine's state.
#[derive(Debug)]
pub struct StratEngine {
    pools: Table<StratPool>,
    incomplete_pools: IncompletePools,
    watched_dev_last_event_nrs: EventNumbers,
}

impl View for StratEngine {
    type V = EngineView;

    closed spec fn view(&self) -> EngineView {
        EngineView {
            pools: self.pools@,
            incomplete_pools: device_maps(self.incomplete_pools@),
            watched: self.watched_dev_last_event_nrs@,
        }
    }
}

/// Whether a pool may be created under `name`: the first of the checks that
/// fails gives the error.
pub open spec fn creation_refusal(
    pools: Map<PoolUuid, (Seq<char>, StratPool)>,
    name: Seq<char>,
    redundancy: StratisResult<Redundancy>,
    validated: StratisResult<()>,
) -> Option<ErrorView> {
    match (redundancy, validated) {
        (Err(e), _) => Some(e@),
        (_, Err(e)) => Some(e@),
        _ => if has_name(pools, name) {
            Some(ErrorView::Engine(ErrorEnum::AlreadyExists, name))
        } else {
            None
        },
    }
}

/// `after` and `outcome` are what the end of `creation` makes of the engine
/// `before`, where `initialized` is the new pool or why there is none.
pub open spec fn creation_ended(
    before: EngineView,
    creation: PoolCreation,
    initialized: StratisResult<(PoolUuid, StratPool)>,
    outcome: Outcome<PoolUuid>,
    after: EngineView,
) -> bool {
    match initialized {
        Ok((uuid, pool)) => {
            &&& outcome.result == Ok::<PoolUuid, StratisError>(uuid)
            &&& outcome.effects_view() == seq![EffectView::LinkPool(creation.name@)]
            &&& after == before.with_pool(creation.name@, uuid, pool)
        },
        Err(e) => {
            &&& outcome.result == Err::<PoolUuid, StratisError>(e)
            &&& outcome.effects@.len() == 0
            &&& after == before
        },
    }
}

/// `after` and `step` are what a request to destroy the pool `uuid` makes of
/// the engine `before`.
pub open spec fn destruction_started(
    before: EngineView,
    uuid: PoolUuid,
    step: DestroyStep,
    after: EngineView,
) -> bool {
    if !before.pools.contains_key(uuid) {
        &&& step == DestroyStep::Done(Ok(false))
        &&& after == before
    } else if before.pools[uuid].1.filesystems@.len() > 0 {
        &&& step matches DestroyStep::Done(result)
        &&& fails_with(
            result,
            ErrorView::Engine(ErrorEnum::Busy, "filesystems remaining on pool"@),
        )
        &&& after == before
    } else {
        &&& step matches DestroyStep::Destroy(detached)
        &&& detached.uuid == uuid
        &&& (detached.name@, detached.pool) == before.pools[uuid]
        &&& after == before.without_pool(uuid)
    }
}

/// `after` and `outcome` are what the end of the destruction of `detached`
/// makes of the engine `before`.
pub open spec fn destruction_ended(
    before: EngineView,
    detached: DetachedPool,
    destroyed: StratisResult<()>,
    outcome: Outcome<bool>,
    after: EngineView,
) -> bool {
    match destroyed {
        Ok(_) => {
            &&& outcome.result == Ok::<bool, StratisError>(true)
            &&& outcome.effects_view() == seq![EffectView::UnlinkPool(detached.name@)]
            &&& after == before
        },
        Err(e) => {
            &&& outcome.result == Err::<bool, StratisError>(e)
            &&& outcome.effects@.len() == 0
            &&& after == before.with_pool(detached.name@, detached.uuid, detached.pool)
        },
    }
}

/// `after` and `step` are what a request to rename the pool `uuid` makes of the
/// engine `before`, where `validated` says whether a pool can have the new name.
pub open spec fn renaming_started(
    before: EngineView,
    uuid: PoolUuid,
    new_name: Seq<char>,
    validated: StratisResult<()>,
    step: RenameStep,
    after: EngineView,
) -> bool {
    match validated {
        Err(e) => {
            &&& step == RenameStep::Done(Err(e))
            &&& after == before
        },
        Ok(_) => if !before.pools.contains_key(uuid) {
            &&& step == RenameStep::Done(Ok(RenameAction::NoSource))
            &&& after == before
        } else if before.pools[uuid].0 == new_name {
            &&& step == RenameStep::Done(Ok(RenameAction::Identity))
            &&& after == before
        } else if has_name(before.pools, new_name) {
            &&& step matches RenameStep::Done(result)
            &&& fails_with(result, ErrorView::Engine(ErrorEnum::AlreadyExists, new_name))
            &&& after == before
        } else {
            &&& step matches RenameStep::WriteMetadata(renaming)
            &&& renaming.uuid == uuid
            &&& renaming.new_name@ == new_name
            &&& (renaming.old_name@, renaming.pool) == before.pools[uuid]
            &&& after == before.without_pool(uuid)
        },
    }
}

/// `after` and `outcome` are what the end of `renaming` makes of the engine
/// `before`, where `written` says whether the metadata has the new name.
pub open spec fn renaming_ended(
    before: EngineView,
    renaming: PoolRenaming,
    written: StratisResult<()>,
    outcome: Outcome<RenameAction>,
    after: EngineView,
) -> bool {
    match written {
        Ok(_) => {
            &&& outcome.result == Ok::<RenameAction, StratisError>(RenameAction::Renamed)
            &&& outcome.effects_view() == seq![
                EffectView::NotifyPoolRenamed {
                    dbus_path: renaming.pool.dbus_path.deep_view(),
                    from: renaming.old_name@,
                    to: renaming.new_name@,
                },
                EffectView::RelinkPool { from: renaming.old_name@, to: renaming.new_name@ },
            ]
            &&& after == before.with_pool(renaming.new_name@, renaming.uuid, renaming.pool)
        },
        Err(e) => {
            &&& outcome.result == Err::<RenameAction, StratisError>(e)
            &&& outcome.effects@.len() == 0
            &&& after == before.with_pool(renaming.old_name@, renaming.uuid, renaming.pool)
        },
    }
}

/// `after` and `step` are what the evaluation of `device` makes of the engine
/// `before` at first, where `identity` is what the device says of itself.
pub open spec fn evaluation_started(
    before: EngineView,
    device: Device,
    dev_node: Seq<char>,
    identity: StratisResult<Option<(PoolUuid, DevUuid)>>,
    step: EvaluateStep,
    after: EngineView,
) -> bool {
    match identity {
        Err(e) => {
            &&& step == EvaluateStep::Done(
                Evaluation { result: Err(e), finding: Finding::Nothing },
            )
            &&& after == before
        },
        Ok(None) => {
            &&& step == EvaluateStep::Done(
                Evaluation { result: Ok(None), finding: Finding::Nothing },
            )
            &&& after == before
        },
        Ok(Some((pool_uuid, device_uuid))) => if before.pools.contains_key(pool_uuid) {
            &&& step == EvaluateStep::Done(
                Evaluation {
                    result: Ok(None),
                    finding: active_pool_finding(before.pools[pool_uuid].1, device_uuid, device),
                },
            )
            &&& after == before
        } else {
            &&& step matches EvaluateStep::SetUp(evaluation)
            &&& evaluation.pool_uuid == pool_uuid
            &&& evaluation.devices@ == before.known_devices(pool_uuid).insert(device, dev_node)
            &&& evaluation.stage == SetupStage::ReadMetadata
            &&& after == before.without_incomplete(pool_uuid)
        },
    }
}

/// `after` and `step` are what `reply` to the stage of `evaluation` makes of
/// the engine `before`.
pub open spec fn evaluation_continued(
    before: EngineView,
    evaluation: PoolEvaluation,
    reply: SetupReply,
    step: EvaluateStep,
    after: EngineView,
) -> bool {
    match next_setup_step(
        evaluation.pool_uuid,
        evaluation.devices.listing(),
        before.pools,
        evaluation.stage,
        reply,
    ) {
        SetupStepView::Next(stage) => {
            &&& step == EvaluateStep::SetUp(PoolEvaluation { stage, ..evaluation })
            &&& after == before
        },
        SetupStepView::Done(Ok((name, pool))) => {
            &&& step == EvaluateStep::Done(
                Evaluation { result: Ok(Some(evaluation.pool_uuid)), finding: Finding::Nothing },
            )
            &&& after == before.with_pool(name@, evaluation.pool_uuid, pool)
        },
        SetupStepView::Done(Err(error)) => {
            &&& step matches EvaluateStep::Done(done)
            &&& done.result == Ok::<Option<PoolUuid>, StratisError>(None)
            &&& done.finding matches Finding::NoPoolSetUp(reason)
            &&& reason@ == error
            &&& after == before.with_incomplete(evaluation.pool_uuid, evaluation.devices@)
        },
    }
}

/// `after` and `step` are what the listing `devices` makes of the engine
/// `before`, whose pools are visited in the order of `pools`.
pub open spec fn round_started(
    before: EngineView,
    pools: Seq<(PoolUuid, (Seq<char>, StratPool))>,
    devices: StratisResult<Vec<(String, Option<u32>)>>,
    step: EventStep,
    after: EngineView,
) -> bool {
    match devices {
        Err(e) => {
            &&& step == EventStep::Done(Err(e))
            &&& after == before
        },
        Ok(list) => {
            let numbers = device_numbers(list@);
            let due = due_events(pools, numbers, before.watched);
            if due.len() > 0 {
                &&& step matches EventStep::Handle(round)
                &&& round.numbers@ == numbers
                &&& event_views(round.due@) == due
                &&& after == before
            } else {
                &&& step == EventStep::Done(Ok(()))
                &&& after == before.with_handled(numbers)
            }
        },
    }
}

/// `after` and `step` are what the result of dealing with the first due event
/// of `round` makes of the engine `before`.
pub open spec fn round_continued(
    before: EngineView,
    round: EventRound,
    handled: StratisResult<()>,
    step: EventStep,
    after: EngineView,
) -> bool {
    match handled {
        Err(e) => {
            &&& step == EventStep::Done(Err(e))
            &&& after == before
        },
        Ok(_) => if round.due@.len() > 1 {
            &&& step matches EventStep::Handle(rest)
            &&& rest.numbers == round.numbers
            &&& rest.due@ == round.due@.skip(1)
            &&& after == before
        } else {
            &&& step == EventStep::Done(Ok(()))
            &&& after == before.with_handled(round.numbers@)
        },
    }
}

impl StratEngine {
    /// The pools are known by distinct names and UUIDs.
    pub closed spec fn wf(&self) -> bool {
        self.pools.wf()
    }

    /// The pools in the order in which they are visited.
    pub closed spec fn pool_listing(&self) -> Seq<(PoolUuid, (Seq<char>, StratPool))> {
        self.pools.listing()
    }

    /// What a well-formed engine keeps: no two of its pools have the same name,
    /// and each of its pools is visited once.
    pub proof fn lemma_wf(&self)
        requires
            self.wf(),
        ensures
            distinct_names(self@.pools),
            self@.pools == crate::assoc::pairs_map(self.pool_listing()),
            crate::assoc::distinct_keys(self.pool_listing()),
    {
        self.pools.lemma_wf();
    }

    /// An engine of the pools in `pools`, with the devices of those that are
    /// not set up, that has handled no event.
    pub(crate) fn from_parts(pools: Table<StratPool>, incomplete_pools: IncompletePools) -> (engine:
        StratEngine)
        requires
            pools.wf(),
        ensures
            engine.wf(),
            engine@ == (EngineView {
                pools: pools@,
                incomplete_pools: device_maps(incomplete_pools@),
                watched: Map::empty(),
            }),
            engine.pool_listing() == pools.listing(),
    {
        StratEngine { pools, incomplete_pools, watched_dev_last_event_nrs: AssocMap::new() }
    }

    /// Gives the pools up, preparatory to a shutdown: each of them is to be
    /// torn down.
    pub fn teardown(self) -> (pools: Vec<(Name, PoolUuid, StratPool)>)
        requires
            self.wf(),
        ensures
            pools@.len() == self.pool_listing().len(),
            forall|i: int|
                0 <= i < pools@.len() ==> {
                    let (name, uuid, pool) = #[trigger] pools@[i];
                    self.pool_listing()[i] == (uuid, (name@, pool))
                },
    {
        self.pools.into_entries()
    }

    /// Starts to create a pool on the devices at `blockdev_paths`. `redundancy`
    /// is what the requested redundancy comes to, and `validated` whether the
    /// name is one that a pool can have. The creation that comes back is to be
    /// carried out, and its result handed to [`StratEngine::pool_created`].
    pub fn create_pool(
        &self,
        name: &str,
        blockdev_paths: Vec<String>,
        redundancy: StratisResult<Redundancy>,
        validated: StratisResult<()>,
    ) -> (result: StratisResult<PoolCreation>)
        requires
            self.wf(),
        ensures
            match creation_refusal(self@.pools, name@, redundancy, validated) {
                Some(error) => fails_with(result, error),
                None => result matches Ok(creation) && creation.name@ == name@
                    && creation.blockdev_paths == blockdev_paths && redundancy == Ok::<
                    Redundancy,
                    StratisError,
                >(creation.redundancy),
            },
            redundancy matches Err(e) ==> result == Err::<PoolCreation, StratisError>(e),
            redundancy is Ok ==> (validated matches Err(e) ==> result == Err::<
                PoolCreation,
                StratisError,
            >(e)),
    {
        let redundancy = match redundancy {
            Ok(redundancy) => redundancy,
            Err(e) => {
                return Err(e);
            },
        };
        match validated {
            Ok(_) => {},
            Err(e) => {
                return Err(e);
            },
        }
        if self.pools.contains_name(name) {
            return Err(StratisError::Engine(ErrorEnum::AlreadyExists, name.to_owned()));
        }
        Ok(PoolCreation { name: name.to_owned(), blockdev_paths, redundancy })
    }

    /// Ends a creation: `initialized` is the new pool with its UUID, or why
    /// there is none. The new pool joins the others, and is to be linked.
    pub fn pool_created(
        &mut self,
        creation: PoolCreation,
        initialized: StratisResult<(PoolUuid, StratPool)>,
    ) -> (outcome: Outcome<PoolUuid>)
        requires
            old(self).wf(),
        ensures
            final(self).wf(),
            creation_ended(old(self)@, creation, initialized, outcome, final(self)@),
            initialized is Err ==> *final(self) == *old(self),
    {
        match initialized {
            Ok((uuid, pool)) => {
                let mut effects: Vec<Effect> = Vec::new();
                effects.push(Effect::LinkPool(creation.name.clone()));
                self.pools.insert(creation.name, uuid, pool);
                let outcome = Outcome { result: Ok(uuid), effects };
                assert(outcome.effects_view() =~= seq![EffectView::LinkPool(creation.name@)]);
                outcome
            },
            Err(e) => Outcome { result: Err(e), effects: Vec::new() },
        }
    }

    /// Starts to destroy the pool with the UUID `uuid`. A pool with filesystems
    /// on it is not destroyed, and if there is no such pool nothing happens. The
    /// pool that comes back is to be destroyed, and the result handed to
    /// [`StratEngine::pool_destroyed`].
    pub fn destroy_pool(&mut self, uuid: PoolUuid) -> (step: DestroyStep)
        requires
            old(self).wf(),
        ensures
            final(self).wf(),
            destruction_started(old(self)@, uuid, step, final(self)@),
    {
        match self.pools.get_by_uuid(uuid) {
            Some((_, pool)) => {
                if pool.has_filesystems() {
                    return DestroyStep::Done(
                        Err(
                            StratisError::Engine(
                                ErrorEnum::Busy,
                                "filesystems remaining on pool".to_owned(),
                            ),
                        ),
                    );
                }
            },
            None => {
                return DestroyStep::Done(Ok(false));
            },
        }
        match self.pools.remove_by_uuid(uuid) {
            Some((name, pool)) => DestroyStep::Destroy(DetachedPool { name, uuid, pool }),
            None => {
                assert(false);
                DestroyStep::Done(Ok(false))
            },
        }
    }

    /// Ends a destruction: `destroyed` says whether the pool is gone. If it is
    /// not, it joins the others again as it is left. If it is, its links are to
    /// be taken away.
    pub fn pool_destroyed(&mut self, detached: DetachedPool, destroyed: StratisResult<()>) -> (
    outcome: Outcome<bool>)
        requires
            old(self).wf(),
        ensures
            final(self).wf(),
            destruction_ended(old(self)@, detached, destroyed, outcome, final(self)@),
            destroyed is Ok ==> *final(self) == *old(self),
    {
        match destroyed {
            Ok(_) => {
                let mut effects: Vec<Effect> = Vec::new();
                effects.push(Effect::UnlinkPool(detached.name));
                let outcome = Outcome { result: Ok(true), effects };
                assert(outcome.effects_view() =~= seq![EffectView::UnlinkPool(detached.name@)]);
                outcome
            },
            Err(e) => {
                self.pools.insert(detached.name, detached.uuid, detached.pool);
                Outcome { result: Err(e), effects: Vec::new() }
            },
        }
    }

    /// Starts to rename the pool with the UUID `uuid`. `validated` says whether
    /// the new name is one that a pool can have. The pool that comes back is to
    /// have its metadata written with the new name, and the result handed to
    /// [`StratEngine::pool_renamed`].
    pub fn rename_pool(
        &mut self,
        uuid: PoolUuid,
        new_name: &str,
        validated: StratisResult<()>,
    ) -> (step: RenameStep)
        requires
            old(self).wf(),
        ensures
            final(self).wf(),
            renaming_started(old(self)@, uuid, new_name@, validated, step, final(self)@),
    {
        match validated {
            Ok(_) => {},
            Err(e) => {
                return RenameStep::Done(Err(e));
            },
        }
        let old_name = match self.pools.get_by_uuid(uuid) {
            Some((name, _)) => name,
            None => {
                return RenameStep::Done(Ok(RenameAction::NoSource));
            },
        };
        if same_text(old_name.as_str(), new_name) {
            return RenameStep::Done(Ok(RenameAction::Identity));
        }
        if self.pools.contains_name(new_name) {
            return RenameStep::Done(
                Err(StratisError::Engine(ErrorEnum::AlreadyExists, new_name.to_owned())),
            );
        }
        match self.pools.remove_by_uuid(uuid) {
            Some((_, pool)) => RenameStep::WriteMetadata(
                PoolRenaming { uuid, old_name, new_name: new_name.to_owned(), pool },
            ),
            None => {
                assert(false);
                RenameStep::Done(Ok(RenameAction::NoSource))
            },
        }
    }

    /// Ends a renaming: `written` says whether the metadata has the new name. If
    /// it has, the pool joins the others under that name, the listeners are to
    /// be told, and the links are to be moved. If it has not, the pool joins the
    /// others under its old name.
    pub fn pool_renamed(&mut self, renaming: PoolRenaming, written: StratisResult<()>) -> (outcome:
        Outcome<RenameAction>)
        requires
            old(self).wf(),
        ensures
            final(self).wf(),
            renaming_ended(old(self)@, renaming, written, outcome, final(self)@),
    {
        match written {
            Ok(_) => {
                let mut effects: Vec<Effect> = Vec::new();
                effects.push(
                    Effect::Notify(
                        EngineEvent::PoolRenamed {
                            dbus_path: renaming.pool.get_dbus_path(),
                            from: renaming.old_name.clone(),
                            to: renaming.new_name.clone(),
                        },
                    ),
                );
                effects.push(
                    Effect::RelinkPool {
                        from: renaming.old_name,
                        to: renaming.new_name.clone(),
                    },
                );
                self.pools.insert(renaming.new_name, renaming.uuid, renaming.pool);
                let outcome = Outcome { result: Ok(RenameAction::Renamed), effects };
                assert(outcome.effects_view() =~= seq![
                    EffectView::NotifyPoolRenamed {
                        dbus_path: renaming.pool.dbus_path.deep_view(),
                        from: renaming.old_name@,
                        to: renaming.new_name@,
                    },
                    EffectView::RelinkPool { from: renaming.old_name@, to: renaming.new_name@ },
                ]);
                outcome
            },
            Err(e) => {
                self.pools.insert(renaming.old_name, renaming.uuid, renaming.pool);
                Outcome { result: Err(e), effects: Vec::new() }
            },
        }
    }

    /// The pool with the UUID `uuid`, and its name.
    pub fn get_pool(&self, uuid: PoolUuid) -> (found: Option<(Name, &StratPool)>)
        requires
            self.wf(),
        ensures
            match found {
                Some((name, pool)) => self@.pools.contains_key(uuid) && self@.pools[uuid] == (
                    name@,
                    *pool,
                ),
                None => !self@.pools.contains_key(uuid),
            },
    {
        self.pools.get_by_uuid(uuid)
    }

    /// The pool with the UUID `uuid`, to be changed, and its name.
    pub fn get_mut_pool(&mut self, uuid: PoolUuid) -> (found: Option<(Name, &mut StratPool)>)
        requires
            old(self).wf(),
        ensures
            final(self).wf(),
            match found {
                Some((name, pool)) => {
                    &&& old(self)@.pools.contains_key(uuid)
                    &&& old(self)@.pools[uuid] == (name@, *pool)
                    &&& final(self)@ == old(self)@.with_changed(name@, uuid, *final(pool))
                },
                None => !old(self)@.pools.contains_key(uuid) && final(self)@ == old(self)@,
            },
    {
        self.pools.get_mut_by_uuid(uuid)
    }

    /// There is nothing to configure: any request is accepted, and changes
    /// nothing.
    pub fn configure_simulator(&mut self, _denominator: u32) -> (result: StratisResult<()>)
        ensures
            result == Ok::<(), StratisError>(()),
            *final(self) == *old(self),
    {
        Ok(())
    }

    /// All pools, each once, with their names and UUIDs.
    pub fn pools(&self) -> (pools: Vec<(Name, PoolUuid, &StratPool)>)
        requires
            self.wf(),
        ensures
            pools@.len() == self.pool_listing().len(),
            forall|i: int|
                0 <= i < pools@.len() ==> {
                    let (name, uuid, pool) = #[trigger] pools@[i];
                    self.pool_listing()[i] == (uuid, (name@, *pool))
                },
    {
        self.pools.entries()
    }

    /// All pools, each once, to be changed, with their names and UUIDs.
    pub fn pools_mut(&mut self) -> (pools: Vec<(Name, PoolUuid, &mut StratPool)>)
        requires
            old(self).wf(),
        ensures
            final(self).wf(),
            pools@.len() == old(self).pool_listing().len(),
            final(self).pool_listing().len() == old(self).pool_listing().len(),
            forall|i: int|
                0 <= i < pools@.len() ==> {
                    let (name, uuid, pool) = #[trigger] pools@[i];
                    &&& old(self).pool_listing()[i] == (uuid, (name@, *pool))
                    &&& final(self).pool_listing()[i] == (uuid, (name@, *final(pool)))
                },
            final(self)@.incomplete_pools == old(self)@.incomplete_pools,
            final(self)@.watched == old(self)@.watched,
    {
        self.pools.entries_mut()
    }

    /// The devices of the pools that are not set up.
    pub fn incomplete_pools(&self) -> (pools: &IncompletePools)
        ensures
            device_maps(pools@) == self@.incomplete_pools,
    {
        &self.incomplete_pools
    }

    /// Starts to evaluate the device `device` with the node `dev_node`.
    /// `identity` is what the device says of itself: the pool that it belongs
    /// to and its own UUID, or nothing, or why that could not be found out. If
    /// its pool is not set up, the device joins the others that are known of
    /// the pool, and the pool is to be set up by the steps of
    /// [`StratEngine::block_evaluated`].
    pub fn block_evaluate(
        &mut self,
        device: Device,
        dev_node: String,
        identity: StratisResult<Option<(PoolUuid, DevUuid)>>,
    ) -> (step: EvaluateStep)
        requires
            old(self).wf(),
        ensures
            final(self).wf(),
            evaluation_started(old(self)@, device, dev_node@, identity, step, final(self)@),
            step is Done ==> *final(self) == *old(self),
    {
        let (pool_uuid, device_uuid) = match identity {
            Err(e) => {
                return EvaluateStep::Done(
                    Evaluation { result: Err(e), finding: Finding::Nothing },
                );
            },
            Ok(None) => {
                return EvaluateStep::Done(
                    Evaluation { result: Ok(None), finding: Finding::Nothing },
                );
            },
            Ok(Some(identity)) => identity,
        };
        match self.pools.get_by_uuid(pool_uuid) {
            Some((_, pool)) => {
                let finding = match pool.get_strat_blockdev(device_uuid) {
                    None => Finding::UnknownBlockDev,
                    Some((_, blockdev)) => {
                        if device != blockdev.device {
                            Finding::DeviceMismatch { in_pool: blockdev.device }
                        } else {
                            Finding::Nothing
                        }
                    },
                };
                EvaluateStep::Done(Evaluation { result: Ok(None), finding })
            },
            None => {
                let mut devices = match self.incomplete_pools.remove(&pool_uuid) {
                    Some(devices) => devices,
                    None => AssocMap::new(),
                };
                assert(device_maps(self.incomplete_pools@) =~= device_maps(
                    old(self).incomplete_pools@,
                ).remove(pool_uuid));
                devices.insert(device, dev_node);
                EvaluateStep::SetUp(
                    PoolEvaluation { pool_uuid, devices, stage: SetupStage::ReadMetadata },
                )
            },
        }
    }

    /// Takes the evaluation of a device one step on, by the reply to the stage
    /// that its pool is at. If the pool is set up, it joins the others; if it
    /// cannot be, its devices are kept until another device of it is found.
    pub fn block_evaluated(&mut self, evaluation: PoolEvaluation, reply: SetupReply) -> (step:
        EvaluateStep)
        requires
            old(self).wf(),
        ensures
            final(self).wf(),
            evaluation_continued(old(self)@, evaluation, reply, step, final(self)@),
            step is SetUp ==> *final(self) == *old(self),
    {
        let PoolEvaluation { pool_uuid, devices, stage } = evaluation;
        match setup_pool(pool_uuid, &devices, &self.pools, stage, reply) {
            SetupStep::Next(stage) => EvaluateStep::SetUp(
                PoolEvaluation { pool_uuid, devices, stage },
            ),
            SetupStep::Done(Ok((name, pool))) => {
                self.pools.insert(name, pool_uuid, pool);
                EvaluateStep::Done(
                    Evaluation { result: Ok(Some(pool_uuid)), finding: Finding::Nothing },
                )
            },
            SetupStep::Done(Err(reason)) => {
                self.incomplete_pools.insert(pool_uuid, devices);
                assert(device_maps(self.incomplete_pools@) =~= device_maps(
                    old(self).incomplete_pools@,
                ).insert(pool_uuid, evaluation.devices@));
                EvaluateStep::Done(
                    Evaluation { result: Ok(None), finding: Finding::NoPoolSetUp(reason) },
                )
            },
        }
    }

    /// Goes on with the due events of `round`. If there are none left, the
    /// numbers of the round are the last that were handled.
    fn continue_round(&mut self, round: EventRound) -> (step: EventStep)
        requires
            old(self).wf(),
        ensures
            final(self).wf(),
            if round.due@.len() > 0 {
                &&& step == EventStep::Handle(round)
                &&& *final(self) == *old(self)
            } else {
                &&& step == EventStep::Done(Ok(()))
                &&& final(self)@ == old(self)@.with_handled(round.numbers@)
                &&& final(self).pool_listing() == old(self).pool_listing()
            },
    {
        if round.due.len() > 0 {
            EventStep::Handle(round)
        } else {
            self.watched_dev_last_event_nrs = round.numbers;
            EventStep::Done(Ok(()))
        }
    }

    /// Starts to handle device events. `devices` is every device with its event
    /// number, or why they could not be listed. An event is due for each device
    /// of a pool whose number is news. The due events are to be dealt with one
    /// by one, each result handed to [`StratEngine::event_handled`].
    pub fn evented(&mut self, devices: StratisResult<Vec<(String, Option<u32>)>>) -> (step:
        EventStep)
        requires
            old(self).wf(),
            devices matches Ok(list) ==> forall|i: int|
                0 <= i < list@.len() ==> (#[trigger] list@[i]).1 is Some,
        ensures
            final(self).wf(),
            round_started(old(self)@, old(self).pool_listing(), devices, step, final(self)@),
            final(self).pool_listing() == old(self).pool_listing(),
            devices is Err || step is Handle ==> *final(self) == *old(self),
    {
        let list = match devices {
            Ok(list) => list,
            Err(e) => {
                return EventStep::Done(Err(e));
            },
        };
        let numbers = collect_numbers(&list);
        let mut due: Vec<DueEvent> = Vec::new();
        let ghost listing = self.pool_listing();
        let count = self.pools.len();
        assert(event_views(due@) =~= Seq::empty());
        for i in 0..count
            invariant
                self.pools.wf(),
                count == self.pools.listing().len(),
                listing == self.pools.listing(),
                event_views(due@) == due_events(
                    listing.take(i as int),
                    numbers@,
                    self.watched_dev_last_event_nrs@,
                ),
        {
            let (name, uuid, pool) = self.pools.entry(i);
            assert(listing.take(i + 1).drop_last() =~= listing.take(i as int));
            add_pool_events(
                &mut due,
                uuid,
                name,
                pool,
                &numbers,
                &self.watched_dev_last_event_nrs,
            );
        }
        assert(listing.take(count as int) =~= listing);
        assert(event_views(due@).len() == due@.len());
        self.continue_round(EventRound { numbers, due })
    }

    /// Takes the result of dealing with the first due event of `round`. An
    /// error ends the round, and its numbers do not count as handled.
    pub fn event_handled(&mut self, round: EventRound, handled: StratisResult<()>) -> (step:
        EventStep)
        requires
            old(self).wf(),
        ensures
            final(self).wf(),
            round_continued(old(self)@, round, handled, step, final(self)@),
            final(self).pool_listing() == old(self).pool_listing(),
            handled is Err || step is Handle ==> *final(self) == *old(self),
    {
        match handled {
            Ok(_) => {
                let EventRound { numbers, due } = round;
                let mut due = due;
                if due.len() > 0 {
                    let _ = due.remove(0);
                    assert(due@ =~= round.due@.skip(1));
                }
                self.continue_round(EventRound { numbers, due })
            },
            Err(e) => EventStep::Done(Err(e)),
        }
    }
}

} // verus!
