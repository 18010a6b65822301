use strat_engine::assoc::AssocMap;
use strat_engine::cmd::{binary_names, Binaries};
use strat_engine::engine::StratEngine;
use strat_engine::errors::{ErrorEnum, StratisError};
use strat_engine::setup::{setup_pool, SetupReply, SetupStage, SetupStep};
use strat_engine::startup::{InitReply, InitStage, InitStep, Startup};
use strat_engine::table::Table;
use strat_engine::types::{Device, DeviceMap, PoolDevices, PoolMetadata, PoolUuid, StratPool};

fn binaries() -> Binaries {
    let existing = binary_names()
        .into_iter()
        .map(|name| format!("/bin/{}", name))
        .collect();
    Binaries::locate(&existing)
}

fn error(text: &str) -> StratisError {
    StratisError::Error(text.to_string())
}

fn failed(step: InitStep) -> StratisError {
    match step {
        InitStep::Failed(e) => e,
        step => panic!("{:?}", step),
    }
}

fn next(step: InitStep) -> InitStage {
    match step {
        InitStep::Next(stage) => stage,
        step => panic!("{:?}", step),
    }
}

fn pool() -> StratPool {
    StratPool {
        blockdevs: Vec::new(),
        filesystems: Vec::new(),
        dbus_path: None,
        eventing_dev_names: Vec::new(),
    }
}

fn metadata(name: &str) -> PoolMetadata {
    PoolMetadata {
        timestamp: 1,
        name: name.to_string(),
        content: vec![1, 2],
    }
}

fn devices(nodes: &[&str]) -> DeviceMap {
    let mut devices = AssocMap::new();
    for (i, node) in nodes.iter().enumerate() {
        let device = Device {
            major: 8,
            minor: i as u32,
        };
        devices.insert(device, node.to_string());
    }
    devices
}

#[test]
fn startup_needs_the_device_mapper() {
    let step = StratEngine::initialize(
        InitStage::OpenDm,
        &binaries(),
        InitReply::Dm(Err(error("no dm"))),
    );
    assert_eq!(failed(step), error("no dm"));
}

#[test]
fn startup_needs_all_binaries() {
    let step = StratEngine::initialize(
        InitStage::OpenDm,
        &Binaries::locate(&Vec::new()),
        InitReply::Dm(Ok(())),
    );
    assert_eq!(
        failed(step),
        error(
            "Unable to find executable \"mkfs.xfs\" in any of \"/usr/sbin\", \"/sbin\", \
             \"/usr/bin\", \"/bin\""
        )
    );
    let step = StratEngine::initialize(InitStage::OpenDm, &binaries(), InitReply::Dm(Ok(())));
    assert!(matches!(next(step), InitStage::ReadDmVersion));
}

#[test]
fn startup_needs_the_minor_version() {
    let ask = |version| {
        StratEngine::initialize(
            InitStage::ReadDmVersion,
            &binaries(),
            InitReply::DmVersion(version),
        )
    };
    assert_eq!(failed(ask(Err(error("ioctl")))), error("ioctl"));
    assert_eq!(
        failed(ask(Ok((4, 36, 9)))),
        StratisError::Engine(
            ErrorEnum::Error,
            "Requires DM minor version 37 but kernel only supports 36".to_string()
        )
    );
    assert!(matches!(
        next(ask(Ok((4, 37, 0)))),
        InitStage::SetupDevPath
    ));
}

#[test]
fn startup_needs_directory_and_pools() {
    let step = StratEngine::initialize(
        InitStage::SetupDevPath,
        &binaries(),
        InitReply::DevPath(Err(error("read only"))),
    );
    assert_eq!(failed(step), error("read only"));
    let step = StratEngine::initialize(
        InitStage::SetupDevPath,
        &binaries(),
        InitReply::DevPath(Ok(())),
    );
    assert!(matches!(next(step), InitStage::FindPools));
    let step = StratEngine::initialize(
        InitStage::FindPools,
        &binaries(),
        InitReply::Pools(Err(error("scan"))),
    );
    assert_eq!(failed(step), error("scan"));
}

#[test]
fn reply_out_of_turn_changes_nothing() {
    let step = StratEngine::initialize(InitStage::FindPools, &binaries(), InitReply::Dm(Ok(())));
    assert!(matches!(next(step), InitStage::FindPools));
    let pools: Table<StratPool> = Table::new();
    let step = setup_pool(
        1,
        &devices(&[]),
        &pools,
        SetupStage::ReadMetadata,
        SetupReply::Linked,
    );
    assert_eq!(step, SetupStep::Next(SetupStage::ReadMetadata));
}

/// Brings up an engine whose pools report what `names` says of them: a name, or
/// that there is no metadata.
fn start(found: Vec<(PoolUuid, DeviceMap)>, names: &[(PoolUuid, Option<&str>)]) -> Startup {
    let mut pools: PoolDevices = AssocMap::new();
    for (uuid, devices) in found {
        pools.insert(uuid, devices);
    }
    let mut step =
        StratEngine::initialize(InitStage::FindPools, &binaries(), InitReply::Pools(Ok(pools)));
    loop {
        let stage = match step {
            InitStep::Next(stage) => stage,
            InitStep::Ready(startup) => return startup,
            InitStep::Failed(e) => panic!("{:?}", e),
        };
        let reply = match &stage {
            InitStage::SetUpPools(setup) => InitReply::Setup(match &setup.stage {
                SetupStage::ReadMetadata => {
                    let (_, name) = names
                        .iter()
                        .find(|(uuid, _)| *uuid == setup.pool_uuid)
                        .unwrap();
                    SetupReply::Metadata(Ok(name.map(metadata)))
                }
                SetupStage::CheckMetadata(_) => SetupReply::Checked(Ok(())),
                SetupStage::SetUp(metadata) => {
                    SetupReply::Pool(Ok((metadata.name.clone(), pool())))
                }
                SetupStage::Link(_, _) => SetupReply::Linked,
            }),
            InitStage::CleanLinks(_) => InitReply::Cleaned,
            stage => panic!("{:?}", stage),
        };
        step = StratEngine::initialize(stage, &binaries(), reply);
    }
}

#[test]
fn startup_without_pools() {
    let startup = start(Vec::new(), &[]);
    assert!(startup.failures.is_empty());
    assert!(startup.engine.pools().is_empty());
}

#[test]
fn startup_shares_the_pools_out() {
    let found = vec![
        (1, devices(&["/dev/a"])),
        (2, devices(&["/dev/b", "/dev/c"])),
        (3, devices(&["/dev/d"])),
    ];
    let startup = start(found, &[(1, Some("x")), (2, Some("x")), (3, None)]);
    assert_eq!(startup.engine.pools().len(), 1);
    assert_eq!(startup.engine.get_pool(1).unwrap().0, "x");
    let incomplete = startup.engine.incomplete_pools();
    assert_eq!(incomplete.len(), 2);
    assert_eq!(incomplete.get(&2).unwrap().len(), 2);
    for (i, node) in ["/dev/b", "/dev/c"].iter().enumerate() {
        let device = Device {
            major: 8,
            minor: i as u32,
        };
        assert_eq!(
            incomplete.get(&2).unwrap().get(&device),
            Some(&node.to_string())
        );
    }
    assert!(incomplete.get(&3).is_some());
    assert_eq!(
        startup.failures,
        vec![
            (
                2,
                StratisError::Engine(
                    ErrorEnum::AlreadyExists,
                    "pool with name \"x\" set up; metadata specifies same name for (pool UUID: \
                     00000000-0000-0000-0000-000000000002, devnodes: /dev/b ,/dev/c)"
                        .to_string()
                )
            ),
            (
                3,
                StratisError::Engine(
                    ErrorEnum::NotFound,
                    "no metadata found for (pool UUID: 00000000-0000-0000-0000-000000000003, \
                     devnodes: /dev/d)"
                        .to_string()
                )
            ),
        ]
    );
}

#[test]
fn complete_startup_leaves_nothing_incomplete() {
    let found = vec![(1, devices(&["/dev/a"])), (2, devices(&["/dev/b"]))];
    let startup = start(found, &[(1, Some("x")), (2, Some("y"))]);
    assert!(startup.failures.is_empty());
    assert!(startup.engine.incomplete_pools().is_empty());
    assert_eq!(startup.engine.pools().len(), 2);
}

const INFO: &str = "(pool UUID: 00000000-0000-0000-0000-0000000000ff, devnodes: /dev/a ,/dev/b)";

fn setup(pools: &Table<StratPool>, stage: SetupStage, reply: SetupReply) -> SetupStep {
    setup_pool(0xff, &devices(&["/dev/a", "/dev/b"]), pools, stage, reply)
}

#[test]
fn setup_reads_metadata() {
    let mut pools = Table::new();
    pools.insert("taken".to_string(), 5, pool());
    let read = |result| setup(&pools, SetupStage::ReadMetadata, SetupReply::Metadata(result));
    assert_eq!(
        read(Err(error("io"))),
        SetupStep::Done(Err(error("io")))
    );
    assert_eq!(
        read(Ok(None)),
        SetupStep::Done(Err(StratisError::Engine(
            ErrorEnum::NotFound,
            format!("no metadata found for {}", INFO)
        )))
    );
    assert_eq!(
        read(Ok(Some(metadata("taken")))),
        SetupStep::Done(Err(StratisError::Engine(
            ErrorEnum::AlreadyExists,
            format!(
                "pool with name \"taken\" set up; metadata specifies same name for {}",
                INFO
            )
        )))
    );
    assert_eq!(
        read(Ok(Some(metadata("free")))),
        SetupStep::Next(SetupStage::CheckMetadata(metadata("free")))
    );
}

#[test]
fn setup_checks_metadata() {
    let pools = Table::new();
    let checked = |result| {
        setup(
            &pools,
            SetupStage::CheckMetadata(metadata("m")),
            SetupReply::Checked(result),
        )
    };
    assert_eq!(
        checked(Err("Bad".to_string())),
        SetupStep::Done(Err(StratisError::Engine(
            ErrorEnum::Error,
            format!("inconsistent metadata for {}: reason: Bad", INFO)
        )))
    );
    assert_eq!(
        checked(Ok(())),
        SetupStep::Next(SetupStage::SetUp(metadata("m")))
    );
}

#[test]
fn setup_sets_up_and_links() {
    let pools = Table::new();
    let set_up = |result| {
        setup(
            &pools,
            SetupStage::SetUp(metadata("m")),
            SetupReply::Pool(result),
        )
    };
    assert_eq!(
        set_up(Err("Bad".to_string())),
        SetupStep::Done(Err(StratisError::Engine(
            ErrorEnum::Error,
            format!("failed to set up pool for {}: reason: Bad", INFO)
        )))
    );
    assert_eq!(
        set_up(Ok(("m".to_string(), pool()))),
        SetupStep::Next(SetupStage::Link("m".to_string(), pool()))
    );
    assert_eq!(
        setup(
            &pools,
            SetupStage::Link("m".to_string(), pool()),
            SetupReply::Linked
        ),
        SetupStep::Done(Ok(("m".to_string(), pool())))
    );
}
