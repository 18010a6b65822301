use std::collections::HashMap;

use strat_engine::assoc::AssocMap;
use strat_engine::cmd::{binary_names, candidate_paths, Binaries};
use strat_engine::engine::{
    DestroyStep, Effect, EngineEvent, EvaluateStep, Finding, Outcome, RenameStep, StratEngine,
};
use strat_engine::errors::{ErrorEnum, StratisError, StratisResult};
use strat_engine::setup::{SetupReply, SetupStage};
use strat_engine::startup::{InitReply, InitStage, InitStep};
use strat_engine::types::{
    BlockDevTier, Device, DeviceMap, PoolDevices, PoolMetadata, PoolUuid, Redundancy, RenameAction,
    StratBlockDev, StratPool,
};

/// What stands on one device: its pool, its own UUID, and the pool's name.
struct Label {
    pool: PoolUuid,
    device: u128,
    name: String,
}

/// Devices that remember what is written to them, and the links that were made.
struct World {
    labels: HashMap<String, Label>,
    links: Vec<String>,
    next_uuid: u128,
}

impl World {
    fn new() -> World {
        World {
            labels: HashMap::new(),
            links: Vec::new(),
            next_uuid: 1,
        }
    }

    fn fresh(&mut self) -> u128 {
        self.next_uuid += 1;
        self.next_uuid
    }

    fn device(path: &str) -> Device {
        let minor = path.trim_start_matches("/dev/loop").parse().unwrap();
        Device { major: 7, minor }
    }

    fn pool_on(&self, uuid: PoolUuid) -> StratPool {
        let mut blockdevs = Vec::new();
        for (path, label) in &self.labels {
            if label.pool == uuid {
                blockdevs.push(StratBlockDev {
                    uuid: label.device,
                    tier: BlockDevTier::Data,
                    device: World::device(path),
                });
            }
        }
        StratPool {
            blockdevs,
            filesystems: Vec::new(),
            dbus_path: None,
            eventing_dev_names: Vec::new(),
        }
    }

    fn find_all(&self) -> PoolDevices {
        let mut found: HashMap<PoolUuid, DeviceMap> = HashMap::new();
        for (path, label) in &self.labels {
            found
                .entry(label.pool)
                .or_insert_with(AssocMap::new)
                .insert(World::device(path), path.clone());
        }
        let mut pools = AssocMap::new();
        for (uuid, devices) in found {
            pools.insert(uuid, devices);
        }
        pools
    }

    fn metadata(&self, uuid: PoolUuid) -> Option<PoolMetadata> {
        let label = self.labels.values().find(|label| label.pool == uuid)?;
        Some(PoolMetadata {
            timestamp: 0,
            name: label.name.clone(),
            content: Vec::new(),
        })
    }

    fn reply(&mut self, uuid: PoolUuid, stage: &SetupStage) -> SetupReply {
        match stage {
            SetupStage::ReadMetadata => SetupReply::Metadata(Ok(self.metadata(uuid))),
            SetupStage::CheckMetadata(_) => SetupReply::Checked(Ok(())),
            SetupStage::SetUp(metadata) => {
                SetupReply::Pool(Ok((metadata.name.clone(), self.pool_on(uuid))))
            }
            SetupStage::Link(name, _) => {
                self.links.push(name.clone());
                SetupReply::Linked
            }
        }
    }

    fn perform(&mut self, effects: Vec<Effect>) {
        for effect in effects {
            match effect {
                Effect::LinkPool(name) => self.links.push(name),
                Effect::UnlinkPool(name) => self.links.retain(|link| *link != name),
                Effect::RelinkPool { from, to } => {
                    self.links.retain(|link| *link != from);
                    self.links.push(to);
                }
                Effect::Notify(_) => {}
            }
        }
    }

    fn initialize(&mut self) -> StratEngine {
        let binaries = all_binaries();
        let mut stage = InitStage::OpenDm;
        loop {
            let reply = match &stage {
                InitStage::OpenDm => InitReply::Dm(Ok(())),
                InitStage::ReadDmVersion => InitReply::DmVersion(Ok((4, 37, 0))),
                InitStage::SetupDevPath => InitReply::DevPath(Ok(())),
                InitStage::FindPools => InitReply::Pools(Ok(self.find_all())),
                InitStage::SetUpPools(setup) => {
                    InitReply::Setup(self.reply(setup.pool_uuid, &setup.stage))
                }
                InitStage::CleanLinks(_) => InitReply::Cleaned,
            };
            match StratEngine::initialize(stage, &binaries, reply) {
                InitStep::Next(next) => stage = next,
                InitStep::Failed(e) => panic!("{:?}", e),
                InitStep::Ready(startup) => {
                    assert!(startup.failures.is_empty());
                    return startup.engine;
                }
            }
        }
    }

    fn create_pool(
        &mut self,
        engine: &mut StratEngine,
        name: &str,
        paths: &[String],
    ) -> StratisResult<PoolUuid> {
        let creation =
            engine.create_pool(name, paths.to_vec(), Ok(Redundancy { code: 0 }), Ok(()))?;
        let uuid = self.fresh();
        for path in &creation.blockdev_paths {
            let device = self.fresh();
            let label = Label {
                pool: uuid,
                device,
                name: creation.name.clone(),
            };
            self.labels.insert(path.clone(), label);
        }
        let pool = self.pool_on(uuid);
        let outcome = engine.pool_created(creation, Ok((uuid, pool)));
        self.perform(outcome.effects);
        outcome.result
    }

    fn rename_pool(
        &mut self,
        engine: &mut StratEngine,
        uuid: PoolUuid,
        name: &str,
    ) -> StratisResult<RenameAction> {
        match engine.rename_pool(uuid, name, Ok(())) {
            RenameStep::Done(result) => result,
            RenameStep::WriteMetadata(renaming) => {
                for label in self.labels.values_mut() {
                    if label.pool == renaming.uuid {
                        label.name = renaming.new_name.clone();
                    }
                }
                let outcome = engine.pool_renamed(renaming, Ok(()));
                self.perform(outcome.effects);
                outcome.result
            }
        }
    }
}

fn all_binaries() -> Binaries {
    let mut existing = Vec::new();
    for name in binary_names() {
        existing.push(candidate_paths(&name).remove(0));
    }
    Binaries::locate(&existing)
}

fn paths(count: usize) -> Vec<String> {
    (0..count).map(|i| format!("/dev/loop{}", i)).collect()
}

/// Verify that a pool rename causes the pool metadata to get the new name.
fn check_pool_rename(paths: &[String]) {
    let mut world = World::new();
    let mut engine = world.initialize();

    let name1 = "name1";
    let uuid1 = world.create_pool(&mut engine, name1, paths).unwrap();

    let name2 = "name2";
    let action = world.rename_pool(&mut engine, uuid1, name2).unwrap();

    assert_eq!(action, RenameAction::Renamed);
    engine.teardown();

    let engine = world.initialize();
    let pool_name: String = engine.get_pool(uuid1).unwrap().0.to_owned();
    assert_eq!(pool_name, name2);
}

/// Create two pools, and verify that both are found again whenever the engine
/// is brought up anew, even without their links.
fn check_setup(paths: &[String]) {
    assert!(paths.len() > 1);

    let (paths1, paths2) = paths.split_at(paths.len() / 2);

    let mut world = World::new();
    let mut engine = world.initialize();

    let name1 = "name1";
    let uuid1 = world.create_pool(&mut engine, name1, paths1).unwrap();

    let name2 = "name2";
    let uuid2 = world.create_pool(&mut engine, name2, paths2).unwrap();

    assert!(engine.get_pool(uuid1).is_some());
    assert!(engine.get_pool(uuid2).is_some());

    engine.teardown();

    let engine = world.initialize();

    assert!(engine.get_pool(uuid1).is_some());
    assert!(engine.get_pool(uuid2).is_some());

    engine.teardown();
    world.links.clear();

    let engine = world.initialize();
    assert!(engine.incomplete_pools().is_empty());

    assert!(engine.get_pool(uuid1).is_some());
    assert!(engine.get_pool(uuid2).is_some());
    assert_eq!(world.links.len(), 2);

    engine.teardown();
}

#[test]
fn loop_test_pool_rename() {
    for count in 1..=3 {
        check_pool_rename(&paths(count));
    }
}

#[test]
fn real_test_pool_rename() {
    for count in [1, 4, 8] {
        check_pool_rename(&paths(count));
    }
}

#[test]
fn loop_test_setup() {
    for count in 2..=3 {
        check_setup(&paths(count));
    }
}

#[test]
fn real_test_setup() {
    for count in [2, 5, 8] {
        check_setup(&paths(count));
    }
}

fn small_pool() -> StratPool {
    StratPool {
        blockdevs: vec![StratBlockDev {
            uuid: 70,
            tier: BlockDevTier::Data,
            device: Device { major: 8, minor: 1 },
        }],
        filesystems: Vec::new(),
        dbus_path: Some("/org/pool/1".to_string()),
        eventing_dev_names: Vec::new(),
    }
}

fn engine_with(name: &str, uuid: PoolUuid, pool: StratPool) -> StratEngine {
    let mut engine = World::new().initialize();
    let creation = engine
        .create_pool(name, Vec::new(), Ok(Redundancy { code: 0 }), Ok(()))
        .unwrap();
    engine
        .pool_created(creation, Ok((uuid, pool)))
        .result
        .unwrap();
    engine
}

fn names(engine: &StratEngine) -> Vec<(String, PoolUuid)> {
    let mut names: Vec<(String, PoolUuid)> = engine
        .pools()
        .into_iter()
        .map(|(name, uuid, _)| (name, uuid))
        .collect();
    names.sort();
    names
}

#[test]
fn create_hands_the_request_on() {
    let engine = World::new().initialize();
    let creation = engine
        .create_pool("a", paths(2), Ok(Redundancy { code: 3 }), Ok(()))
        .unwrap();
    assert_eq!(creation.name, "a");
    assert_eq!(creation.blockdev_paths, paths(2));
    assert_eq!(creation.redundancy, Redundancy { code: 3 });
}

#[test]
fn create_refuses_in_order() {
    let engine = engine_with("a", 1, small_pool());
    let bad = |text: &str| StratisError::Error(text.to_string());
    assert_eq!(
        engine.create_pool("a", Vec::new(), Err(bad("redundancy")), Err(bad("name"))),
        Err(bad("redundancy"))
    );
    assert_eq!(
        engine.create_pool("a", Vec::new(), Ok(Redundancy { code: 0 }), Err(bad("name"))),
        Err(bad("name"))
    );
    assert_eq!(
        engine.create_pool("a", Vec::new(), Ok(Redundancy { code: 0 }), Ok(())),
        Err(StratisError::Engine(
            ErrorEnum::AlreadyExists,
            "a".to_string()
        ))
    );
}

#[test]
fn failed_creation_adds_nothing() {
    let mut engine = engine_with("a", 1, small_pool());
    let creation = engine
        .create_pool("b", Vec::new(), Ok(Redundancy { code: 0 }), Ok(()))
        .unwrap();
    let e = || StratisError::Error("no space".to_string());
    let outcome = engine.pool_created(creation, Err(e()));
    assert_eq!(
        outcome,
        Outcome {
            result: Err(e()),
            effects: Vec::new()
        }
    );
    assert_eq!(names(&engine), vec![("a".to_string(), 1)]);
}

#[test]
fn created_pool_is_found_and_linked() {
    let mut engine = engine_with("a", 1, small_pool());
    let creation = engine
        .create_pool("b", Vec::new(), Ok(Redundancy { code: 0 }), Ok(()))
        .unwrap();
    let outcome = engine.pool_created(creation, Ok((2, small_pool())));
    assert_eq!(outcome.result, Ok(2));
    assert_eq!(outcome.effects, vec![Effect::LinkPool("b".to_string())]);
    assert_eq!(engine.get_pool(2).unwrap().0, "b");
    assert_eq!(
        names(&engine),
        vec![("a".to_string(), 1), ("b".to_string(), 2)]
    );
}

#[test]
fn destroy_absent_pool() {
    let mut engine = engine_with("a", 1, small_pool());
    assert_eq!(engine.destroy_pool(9), DestroyStep::Done(Ok(false)));
    assert_eq!(names(&engine), vec![("a".to_string(), 1)]);
}

#[test]
fn destroy_refuses_pool_with_filesystems() {
    let mut pool = small_pool();
    pool.filesystems.push(5);
    let mut engine = engine_with("a", 1, pool);
    assert_eq!(
        engine.destroy_pool(1),
        DestroyStep::Done(Err(StratisError::Engine(
            ErrorEnum::Busy,
            "filesystems remaining on pool".to_string()
        )))
    );
    assert!(engine.get_pool(1).is_some());
}

#[test]
fn destroyed_pool_is_gone() {
    let mut engine = engine_with("a", 1, small_pool());
    let detached = match engine.destroy_pool(1) {
        DestroyStep::Destroy(detached) => detached,
        step => panic!("{:?}", step),
    };
    assert_eq!(detached.name, "a");
    assert_eq!(detached.uuid, 1);
    assert_eq!(detached.pool, small_pool());
    let outcome = engine.pool_destroyed(detached, Ok(()));
    assert_eq!(outcome.result, Ok(true));
    assert_eq!(outcome.effects, vec![Effect::UnlinkPool("a".to_string())]);
    assert!(engine.get_pool(1).is_none());
}

#[test]
fn failed_destruction_restores() {
    let mut engine = engine_with("a", 1, small_pool());
    let detached = match engine.destroy_pool(1) {
        DestroyStep::Destroy(detached) => detached,
        step => panic!("{:?}", step),
    };
    let e = || StratisError::Error("device busy".to_string());
    let outcome = engine.pool_destroyed(detached, Err(e()));
    assert_eq!(outcome.result, Err(e()));
    assert!(outcome.effects.is_empty());
    assert_eq!(
        engine.get_pool(1),
        Some(("a".to_string(), &small_pool()))
    );
}

#[test]
fn rename_refusals() {
    let mut engine = engine_with("a", 1, small_pool());
    let creation = engine
        .create_pool("b", Vec::new(), Ok(Redundancy { code: 0 }), Ok(()))
        .unwrap();
    engine
        .pool_created(creation, Ok((2, small_pool())))
        .result
        .unwrap();
    let bad = || StratisError::Error("bad name".to_string());
    assert_eq!(
        engine.rename_pool(1, "c", Err(bad())),
        RenameStep::Done(Err(bad()))
    );
    assert_eq!(
        engine.rename_pool(9, "c", Ok(())),
        RenameStep::Done(Ok(RenameAction::NoSource))
    );
    assert_eq!(
        engine.rename_pool(1, "a", Ok(())),
        RenameStep::Done(Ok(RenameAction::Identity))
    );
    assert_eq!(
        engine.rename_pool(1, "b", Ok(())),
        RenameStep::Done(Err(StratisError::Engine(
            ErrorEnum::AlreadyExists,
            "b".to_string()
        )))
    );
    assert_eq!(
        names(&engine),
        vec![("a".to_string(), 1), ("b".to_string(), 2)]
    );
}

#[test]
fn renamed_pool_is_announced_and_relinked() {
    let mut engine = engine_with("a", 1, small_pool());
    let renaming = match engine.rename_pool(1, "c", Ok(())) {
        RenameStep::WriteMetadata(renaming) => renaming,
        step => panic!("{:?}", step),
    };
    assert_eq!(renaming.new_name, "c");
    let outcome = engine.pool_renamed(renaming, Ok(()));
    assert_eq!(outcome.result, Ok(RenameAction::Renamed));
    assert_eq!(
        outcome.effects,
        vec![
            Effect::Notify(EngineEvent::PoolRenamed {
                dbus_path: Some("/org/pool/1".to_string()),
                from: "a".to_string(),
                to: "c".to_string(),
            }),
            Effect::RelinkPool {
                from: "a".to_string(),
                to: "c".to_string(),
            },
        ]
    );
    assert_eq!(
        engine.get_pool(1),
        Some(("c".to_string(), &small_pool()))
    );
}

#[test]
fn failed_renaming_restores() {
    let mut engine = engine_with("a", 1, small_pool());
    let renaming = match engine.rename_pool(1, "c", Ok(())) {
        RenameStep::WriteMetadata(renaming) => renaming,
        step => panic!("{:?}", step),
    };
    let e = || StratisError::Error("read only".to_string());
    let outcome = engine.pool_renamed(renaming, Err(e()));
    assert_eq!(outcome.result, Err(e()));
    assert!(outcome.effects.is_empty());
    assert_eq!(
        engine.get_pool(1),
        Some(("a".to_string(), &small_pool()))
    );
}

#[test]
fn pools_can_be_changed_in_place() {
    let mut engine = engine_with("a", 1, small_pool());
    assert!(engine.get_mut_pool(2).is_none());
    engine.get_mut_pool(1).unwrap().1.filesystems.push(4);
    for (_, _, pool) in engine.pools_mut() {
        pool.filesystems.push(5);
    }
    assert_eq!(engine.get_pool(1).unwrap().1.filesystems, vec![4, 5]);
    assert_eq!(engine.configure_simulator(3), Ok(()));
    assert_eq!(engine.teardown().len(), 1);
}

fn evaluated(step: EvaluateStep) -> (StratisResult<Option<PoolUuid>>, Finding) {
    match step {
        EvaluateStep::Done(done) => (done.result, done.finding),
        EvaluateStep::SetUp(_) => panic!("not over"),
    }
}

#[test]
fn evaluate_without_pool() {
    let mut engine = engine_with("a", 1, small_pool());
    let device = Device { major: 8, minor: 1 };
    let e = || StratisError::Error("cannot read".to_string());
    assert_eq!(
        evaluated(engine.block_evaluate(device, "/dev/sda".to_string(), Err(e()))),
        (Err(e()), Finding::Nothing)
    );
    assert_eq!(
        evaluated(engine.block_evaluate(device, "/dev/sda".to_string(), Ok(None))),
        (Ok(None), Finding::Nothing)
    );
    assert!(engine.incomplete_pools().is_empty());
}

#[test]
fn evaluate_device_of_active_pool() {
    let mut engine = engine_with("a", 1, small_pool());
    let device = Device { major: 8, minor: 1 };
    let other = Device { major: 8, minor: 2 };
    let node = || "/dev/sda".to_string();
    assert_eq!(
        evaluated(engine.block_evaluate(device, node(), Ok(Some((1, 70))))),
        (Ok(None), Finding::Nothing)
    );
    assert_eq!(
        evaluated(engine.block_evaluate(device, node(), Ok(Some((1, 71))))),
        (Ok(None), Finding::UnknownBlockDev)
    );
    assert_eq!(
        evaluated(engine.block_evaluate(other, node(), Ok(Some((1, 70))))),
        (Ok(None), Finding::DeviceMismatch { in_pool: device })
    );
    assert!(engine.incomplete_pools().is_empty());
}

#[test]
fn evaluate_until_pool_is_complete() {
    let mut engine = engine_with("a", 1, small_pool());
    let first = Device { major: 8, minor: 3 };
    let second = Device { major: 8, minor: 4 };

    let step = engine.block_evaluate(first, "/dev/sdb".to_string(), Ok(Some((2, 80))));
    let evaluation = match step {
        EvaluateStep::SetUp(evaluation) => evaluation,
        EvaluateStep::Done(done) => panic!("{:?}", done),
    };
    assert_eq!(evaluation.stage, SetupStage::ReadMetadata);
    let step = engine.block_evaluated(evaluation, SetupReply::Metadata(Ok(None)));
    assert_eq!(
        evaluated(step),
        (
            Ok(None),
            Finding::NoPoolSetUp(StratisError::Engine(
                ErrorEnum::NotFound,
                "no metadata found for (pool UUID: 00000000-0000-0000-0000-000000000002, \
                 devnodes: /dev/sdb)"
                    .to_string()
            ))
        )
    );
    assert_eq!(engine.incomplete_pools().get(&2).unwrap().len(), 1);

    let mut step = engine.block_evaluate(second, "/dev/sdc".to_string(), Ok(Some((2, 81))));
    assert!(engine.incomplete_pools().is_empty());
    let mut stages = 0;
    loop {
        let evaluation = match step {
            EvaluateStep::SetUp(evaluation) => evaluation,
            EvaluateStep::Done(done) => {
                assert_eq!(done.result, Ok(Some(2)));
                assert_eq!(done.finding, Finding::Nothing);
                break;
            }
        };
        stages += 1;
        assert_eq!(
            evaluation.devices.get(&first),
            Some(&"/dev/sdb".to_string())
        );
        assert_eq!(
            evaluation.devices.get(&second),
            Some(&"/dev/sdc".to_string())
        );
        let reply = match &evaluation.stage {
            SetupStage::ReadMetadata => SetupReply::Metadata(Ok(Some(PoolMetadata {
                timestamp: 9,
                name: "b".to_string(),
                content: vec![1],
            }))),
            SetupStage::CheckMetadata(_) => SetupReply::Checked(Ok(())),
            SetupStage::SetUp(metadata) => {
                SetupReply::Pool(Ok((metadata.name.clone(), small_pool())))
            }
            SetupStage::Link(_, _) => SetupReply::Linked,
        };
        step = engine.block_evaluated(evaluation, reply);
    }
    assert_eq!(stages, 4);
    assert!(engine.incomplete_pools().is_empty());
    assert_eq!(
        names(&engine),
        vec![("a".to_string(), 1), ("b".to_string(), 2)]
    );
}

#[test]
fn destruction_undoes_creation() {
    let mut engine = engine_with("a", 1, small_pool());
    let creation = engine
        .create_pool("b", Vec::new(), Ok(Redundancy { code: 0 }), Ok(()))
        .unwrap();
    engine
        .pool_created(creation, Ok((2, small_pool())))
        .result
        .unwrap();
    engine.get_mut_pool(2).unwrap().1.dbus_path = None;
    let detached = match engine.destroy_pool(2) {
        DestroyStep::Destroy(detached) => detached,
        step => panic!("{:?}", step),
    };
    assert_eq!(engine.pool_destroyed(detached, Ok(())).result, Ok(true));
    assert_eq!(names(&engine), vec![("a".to_string(), 1)]);
    assert!(engine.incomplete_pools().is_empty());
    assert_eq!(engine.destroy_pool(2), DestroyStep::Done(Ok(false)));
    assert_eq!(names(&engine), vec![("a".to_string(), 1)]);
}

#[test]
fn failed_work_keeps_what_it_did_to_the_pool() {
    let e = || StratisError::Error("half done".to_string());
    let mut changed = small_pool();
    changed.blockdevs.clear();

    let mut engine = engine_with("a", 1, small_pool());
    match engine.destroy_pool(1) {
        DestroyStep::Destroy(mut detached) => {
            detached.pool.blockdevs.clear();
            assert_eq!(engine.pool_destroyed(detached, Err(e())).result, Err(e()));
        }
        step => panic!("{:?}", step),
    }
    assert_eq!(engine.get_pool(1), Some(("a".to_string(), &changed)));

    let mut engine = engine_with("a", 1, small_pool());
    match engine.rename_pool(1, "c", Ok(())) {
        RenameStep::WriteMetadata(mut renaming) => {
            renaming.pool.blockdevs.clear();
            assert_eq!(engine.pool_renamed(renaming, Err(e())).result, Err(e()));
        }
        step => panic!("{:?}", step),
    }
    assert_eq!(engine.get_pool(1), Some(("a".to_string(), &changed)));
}

#[test]
fn evaluation_displaces_no_pool() {
    let mut engine = engine_with("a", 1, small_pool());
    let device = Device { major: 8, minor: 3 };
    let step = engine.block_evaluate(device, "/dev/sdb".to_string(), Ok(Some((2, 80))));
    let evaluation = match step {
        EvaluateStep::SetUp(evaluation) => evaluation,
        EvaluateStep::Done(done) => panic!("{:?}", done),
    };
    let metadata = PoolMetadata {
        timestamp: 9,
        name: "a".to_string(),
        content: Vec::new(),
    };
    let step = engine.block_evaluated(evaluation, SetupReply::Metadata(Ok(Some(metadata))));
    let (result, finding) = evaluated(step);
    assert_eq!(result, Ok(None));
    assert!(matches!(
        finding,
        Finding::NoPoolSetUp(StratisError::Engine(ErrorEnum::AlreadyExists, _))
    ));
    assert_eq!(names(&engine), vec![("a".to_string(), 1)]);
    assert_eq!(
        engine.incomplete_pools().get(&2).unwrap().get(&device),
        Some(&"/dev/sdb".to_string())
    );
}

#[test]
fn evaluated_pool_may_take_any_free_name() {
    let mut engine = engine_with("a", 1, small_pool());
    let device = Device { major: 8, minor: 3 };
    let mut step = engine.block_evaluate(device, "/dev/sdb".to_string(), Ok(Some((2, 80))));
    let metadata = PoolMetadata {
        timestamp: 9,
        name: "b".to_string(),
        content: Vec::new(),
    };
    let replies = vec![
        SetupReply::Metadata(Ok(Some(metadata))),
        SetupReply::Checked(Ok(())),
        SetupReply::Pool(Ok(("c".to_string(), small_pool()))),
        SetupReply::Linked,
    ];
    for reply in replies {
        step = match step {
            EvaluateStep::SetUp(evaluation) => engine.block_evaluated(evaluation, reply),
            EvaluateStep::Done(done) => panic!("{:?}", done),
        };
    }
    assert_eq!(evaluated(step), (Ok(Some(2)), Finding::Nothing));
    assert_eq!(
        names(&engine),
        vec![("a".to_string(), 1), ("c".to_string(), 2)]
    );
}
