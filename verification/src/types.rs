//! The plain values that the engine works on.
use std::collections::HashMap;

use vstd::prelude::*;

use crate::assoc::{AssocMap, MapKey};

verus! {

/// The UUID of a pool.
pub type PoolUuid = u128;

/// The UUID of a block device.
pub type DevUuid = u128;

/// The UUID of a filesystem.
pub type FilesystemUuid = u128;

/// The name of a pool.
pub type Name = String;

/// A device, by its major and minor number.
#[derive(Debug, Clone, Copy, PartialEq, Eq, Structural)]
pub struct Device {
    pub major: u32,
    pub minor: u32,
}

impl View for Device {
    type V = Device;

    open spec fn view(&self) -> Device {
        *self
    }
}

impl MapKey for Device {
    fn same_key(&self, other: &Self) -> (same: bool) {
        *self == *other
    }
}

/// Devices, each with the path of its device node.
pub type DeviceMap = AssocMap<Device, String>;

/// Pools, each with the devices that were found of it.
pub type PoolDevices = AssocMap<PoolUuid, DeviceMap>;

/// The devices of pools that are not set up.
pub type IncompletePools = HashMap<PoolUuid, DeviceMap>;

/// What the devices of each of `pools` are.
pub open spec fn device_maps(pools: Map<PoolUuid, DeviceMap>) -> Map<
    PoolUuid,
    Map<Device, Seq<char>>,
> {
    pools.map_values(|devices: DeviceMap| devices@)
}

/// The paths of the device nodes in `devices`, in their order.
pub open spec fn node_paths(devices: Seq<(Device, Seq<char>)>) -> Seq<Seq<char>> {
    devices.map_values(|pair: (Device, Seq<char>)| pair.1)
}

/// The redundancy of a pool, by its code.
#[derive(Debug, Clone, Copy, PartialEq, Eq, Structural)]
pub struct Redundancy {
    pub code: u16,
}

/// What became of a request to rename.
#[derive(Debug, Clone, Copy, PartialEq, Eq, Structural)]
pub enum RenameAction {
    /// The new name is the old one.
    Identity,
    /// There is nothing to rename.
    NoSource,
    /// The name has changed.
    Renamed,
}

/// The part that a block device plays in its pool.
#[derive(Debug, Clone, Copy, PartialEq, Eq, Structural)]
pub enum BlockDevTier {
    Data,
    Cache,
}

/// A block device of a pool.
#[derive(Debug, Clone, Copy, PartialEq, Eq, Structural)]
pub struct StratBlockDev {
    pub uuid: DevUuid,
    pub tier: BlockDevTier,
    pub device: Device,
}

/// A pool that is set up: what the engine reads of it.
#[derive(Debug, PartialEq, Eq)]
pub struct StratPool {
    /// Its block devices.
    pub blockdevs: Vec<StratBlockDev>,
    /// The filesystems on it.
    pub filesystems: Vec<FilesystemUuid>,
    /// The path under which it is known on the message bus, if it is.
    pub dbus_path: Option<String>,
    /// The names of its devices whose events matter to it.
    pub eventing_dev_names: Vec<String>,
}

/// The first block device of `blockdevs` with the UUID `uuid`.
pub open spec fn blockdev_with_uuid(blockdevs: Seq<StratBlockDev>, uuid: DevUuid) -> Option<
    StratBlockDev,
>
    decreases blockdevs.len(),
{
    if blockdevs.len() == 0 {
        None
    } else if blockdevs[0].uuid == uuid {
        Some(blockdevs[0])
    } else {
        blockdev_with_uuid(blockdevs.skip(1), uuid)
    }
}

impl StratPool {
    /// The block device with the UUID `uuid`, and its tier.
    pub fn get_strat_blockdev(&self, uuid: DevUuid) -> (found: Option<
        (BlockDevTier, StratBlockDev),
    >)
        ensures
            match found {
                Some((tier, blockdev)) => blockdev_with_uuid(self.blockdevs@, uuid) == Some(
                    blockdev,
                ) && tier == blockdev.tier,
                None => blockdev_with_uuid(self.blockdevs@, uuid) is None,
            },
    {
        assert(self.blockdevs@.skip(0) =~= self.blockdevs@);
        for i in 0..self.blockdevs.len()
            invariant
                blockdev_with_uuid(self.blockdevs@, uuid) == blockdev_with_uuid(
                    self.blockdevs@.skip(i as int),
                    uuid,
                ),
        {
            let ghost rest = self.blockdevs@.skip(i as int);
            assert(rest[0] == self.blockdevs@[i as int]);
            if self.blockdevs[i].uuid == uuid {
                return Some((self.blockdevs[i].tier, self.blockdevs[i]));
            }
            assert(rest.skip(1) =~= self.blockdevs@.skip(i + 1));
        }
        None
    }

    /// Whether there are filesystems on the pool.
    pub fn has_filesystems(&self) -> (some: bool)
        ensures
            some == (self.filesystems@.len() > 0),
    {
        self.filesystems.len() > 0
    }

    /// The path under which the pool is known on the message bus.
    pub fn get_dbus_path(&self) -> (path: Option<String>)
        ensures
            path.deep_view() == self.dbus_path.deep_view(),
    {
        match &self.dbus_path {
            Some(path) => Some(path.clone()),
            None => None,
        }
    }

    /// The names of the pool's devices whose events matter to it.
    pub fn get_eventing_dev_names(&self) -> (names: &Vec<String>)
        ensures
            *names == self.eventing_dev_names,
    {
        &self.eventing_dev_names
    }
}

/// What is recorded of a pool on its devices.
#[derive(Debug, PartialEq, Eq)]
pub struct PoolMetadata {
    /// When it was written.
    pub timestamp: u64,
    /// The name of the pool.
    pub name: Name,
    /// The rest of the record.
    pub content: Vec<u8>,
}

} // verus!
