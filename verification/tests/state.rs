use strat_engine::assoc::AssocMap;
use strat_engine::cmd::Binaries;
use strat_engine::engine::{EventRound, EventStep, StratEngine};
use strat_engine::errors::StratisError;
use strat_engine::startup::{InitReply, InitStage, InitStep};
use strat_engine::table::Table;
use strat_engine::types::{PoolUuid, Redundancy, StratPool};

fn pool(dm_names: &[&str]) -> StratPool {
    StratPool {
        blockdevs: Vec::new(),
        filesystems: Vec::new(),
        dbus_path: None,
        eventing_dev_names: dm_names.iter().map(|name| name.to_string()).collect(),
    }
}

fn engine(pools: Vec<(&str, PoolUuid, StratPool)>) -> StratEngine {
    let binaries = Binaries::locate(&Vec::new());
    let mut step = StratEngine::initialize(
        InitStage::FindPools,
        &binaries,
        InitReply::Pools(Ok(AssocMap::new())),
    );
    let mut engine = loop {
        match step {
            InitStep::Next(stage) => {
                step = StratEngine::initialize(stage, &binaries, InitReply::Cleaned)
            }
            InitStep::Ready(startup) => break startup.engine,
            InitStep::Failed(e) => panic!("{:?}", e),
        }
    };
    for (name, uuid, pool) in pools {
        let creation = engine
            .create_pool(name, Vec::new(), Ok(Redundancy { code: 0 }), Ok(()))
            .unwrap();
        assert_eq!(engine.pool_created(creation, Ok((uuid, pool))).result, Ok(uuid));
    }
    engine
}

fn numbers(list: &[(&str, u32)]) -> Vec<(String, Option<u32>)> {
    list.iter()
        .map(|(name, number)| (name.to_string(), Some(*number)))
        .collect()
}

fn round(step: EventStep) -> EventRound {
    match step {
        EventStep::Handle(round) => round,
        EventStep::Done(result) => panic!("{:?}", result),
    }
}

fn due(round: &EventRound) -> Vec<(PoolUuid, String, String)> {
    round
        .due
        .iter()
        .map(|event| (event.pool_uuid, event.pool_name.clone(), event.dm_name.clone()))
        .collect()
}

fn done(step: EventStep) -> Result<(), StratisError> {
    match step {
        EventStep::Done(result) => result,
        EventStep::Handle(round) => panic!("{:?}", round),
    }
}

fn event(uuid: PoolUuid, pool: &str, dm: &str) -> (PoolUuid, String, String) {
    (uuid, pool.to_string(), dm.to_string())
}

#[test]
fn unlisted_devices_give_an_error() {
    let mut engine = engine(vec![("p", 1, pool(&["a"]))]);
    let e = || StratisError::Error("ioctl".to_string());
    assert_eq!(done(engine.evented(Err(e()))), Err(e()));
}

#[test]
fn news_is_due_once() {
    let mut engine = engine(vec![("p", 1, pool(&["a", "b", "x"])), ("q", 2, pool(&["c"]))]);
    let seen = || numbers(&[("c", 0), ("a", 3), ("unrelated", 9), ("b", 1)]);

    let first = round(engine.evented(Ok(seen())));
    assert_eq!(
        due(&first),
        vec![event(1, "p", "a"), event(1, "p", "b"), event(2, "q", "c")]
    );
    let second = round(engine.event_handled(first, Ok(())));
    assert_eq!(due(&second), vec![event(1, "p", "b"), event(2, "q", "c")]);
    let third = round(engine.event_handled(second, Ok(())));
    assert_eq!(done(engine.event_handled(third, Ok(()))), Ok(()));

    assert_eq!(done(engine.evented(Ok(seen()))), Ok(()));
    let grown = numbers(&[("a", 3), ("b", 2), ("c", 0)]);
    let fourth = round(engine.evented(Ok(grown)));
    assert_eq!(due(&fourth), vec![event(1, "p", "b")]);
}

#[test]
fn failed_round_is_due_again() {
    let mut engine = engine(vec![("p", 1, pool(&["a", "b"]))]);
    let seen = || numbers(&[("a", 1), ("b", 1)]);
    let e = || StratisError::Error("cannot extend".to_string());

    let first = round(engine.evented(Ok(seen())));
    let second = round(engine.event_handled(first, Ok(())));
    assert_eq!(done(engine.event_handled(second, Err(e()))), Err(e()));

    let again = round(engine.evented(Ok(seen())));
    assert_eq!(due(&again), vec![event(1, "p", "a"), event(1, "p", "b")]);
}

#[test]
fn last_number_of_a_device_counts() {
    let mut engine = engine(vec![("p", 1, pool(&["a"]))]);
    let first = round(engine.evented(Ok(numbers(&[("a", 8), ("a", 2)]))));
    assert_eq!(first.numbers.get(&"a".to_string()), Some(&2));
}

#[test]
fn table_entries_have_own_names_and_uuids() {
    let mut table: Table<u8> = Table::new();
    assert_eq!(table.len(), 0);
    table.insert("a".to_string(), 1, 10);
    table.insert("b".to_string(), 2, 20);
    assert!(table.contains_name("a"));
    assert!(table.contains_uuid(2));
    assert!(!table.contains_name("c"));
    assert!(!table.contains_uuid(3));
    assert_eq!(table.get_by_uuid(2), Some(("b".to_string(), &20)));

    table.insert("b".to_string(), 1, 30);
    assert_eq!(table.len(), 1);
    assert!(!table.contains_name("a"));
    assert_eq!(table.get_by_uuid(2), None);
    assert_eq!(table.entry(0), (&"b".to_string(), 1, &30));

    *table.get_mut_by_uuid(1).unwrap().1 = 31;
    assert_eq!(table.remove_by_uuid(2), None);
    assert_eq!(table.remove_by_uuid(1), Some(("b".to_string(), 31)));
    assert_eq!(table.len(), 0);
}

#[test]
fn map_keeps_the_order_of_its_keys() {
    let mut map: AssocMap<String, u32> = AssocMap::new();
    assert_eq!(map.len(), 0);
    for (i, key) in ["x", "y", "z"].iter().enumerate() {
        map.insert(key.to_string(), i as u32);
    }
    map.insert("x".to_string(), 9);
    assert_eq!(map.pair(0), (&"x".to_string(), &9));
    assert_eq!(map.remove(&"y".to_string()), Some(1));
    assert_eq!(map.remove(&"y".to_string()), None);
    assert!(map.get(&"y".to_string()).is_none());
    assert_eq!(
        map.into_pairs(),
        vec![("x".to_string(), 9), ("z".to_string(), 2)]
    );
}
