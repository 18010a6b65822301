//! Setting up a pool from its devices.
//!
//! The work on the devices is done outside: a [`SetupStage`] says what is to
//! be done next, a [`SetupReply`] how it went, and [`setup_pool`] goes from the
//! one to the next.
use vstd::prelude::*;
use vstd::string::*;

use crate::errors::{ErrorEnum, ErrorView, StratisError, StratisResult};
use crate::table::{has_name, Table};
use crate::text::{join, joined, texts};
use crate::types::{node_paths, Device, DeviceMap, Name, PoolMetadata, PoolUuid, StratPool};
use crate::uuids::{hyphenated, uuid_to_string};

verus! {

/// What is to be done next for a pool that is being set up.
#[derive(Debug, PartialEq, Eq)]
pub enum SetupStage {
    /// Read the pool's metadata from its devices.
    ReadMetadata,
    /// Check that this metadata is consistent.
    CheckMetadata(PoolMetadata),
    /// Set the pool up by this metadata.
    SetUp(PoolMetadata),
    /// Make the links of this pool.
    Link(Name, StratPool),
}

/// How it went. Where a text stands for an error, it is the error's own
/// account of itself.
#[derive(Debug, PartialEq, Eq)]
pub enum SetupReply {
    /// The metadata was read, or there is none, or it could not be read.
    Metadata(StratisResult<Option<PoolMetadata>>),
    /// The metadata was checked.
    Checked(Result<(), String>),
    /// The pool was set up, under this name.
    Pool(Result<(Name, StratPool), String>),
    /// The links were made.
    Linked,
}

/// Where the setting up of a pool stands.
#[derive(Debug, PartialEq, Eq)]
pub enum SetupStep {
    /// This is to be done next.
    Next(SetupStage),
    /// It is over: the pool is set up, or it is not.
    Done(StratisResult<(Name, StratPool)>),
}

/// What a [`SetupStep`] says.
pub enum SetupStepView {
    Next(SetupStage),
    Done(Result<(Name, StratPool), ErrorView>),
}

impl View for SetupStep {
    type V = SetupStepView;

    open spec fn view(&self) -> SetupStepView {
        match self {
            SetupStep::Next(stage) => SetupStepView::Next(*stage),
            SetupStep::Done(Ok(pool)) => SetupStepView::Done(Ok(*pool)),
            SetupStep::Done(Err(e)) => SetupStepView::Done(Err(e@)),
        }
    }
}

/// The pool and its device nodes, as they are named in messages.
pub open spec fn pool_info(pool_uuid: PoolUuid, devices: Seq<(Device, Seq<char>)>) -> Seq<char> {
    "(pool UUID: "@ + hyphenated(pool_uuid) + ", devnodes: "@ + joined(node_paths(devices), " ,"@)
        + ")"@
}

/// No metadata was found.
pub open spec fn no_metadata(info: Seq<char>) -> ErrorView {
    ErrorView::Engine(ErrorEnum::NotFound, "no metadata found for "@ + info)
}

/// The metadata gives a name that a pool has already.
pub open spec fn name_in_use(name: Seq<char>, info: Seq<char>) -> ErrorView {
    ErrorView::Engine(
        ErrorEnum::AlreadyExists,
        "pool with name \""@ + name + "\" set up; metadata specifies same name for "@ + info,
    )
}

/// The metadata is not consistent.
pub open spec fn inconsistent(info: Seq<char>, reason: Seq<char>) -> ErrorView {
    ErrorView::Engine(
        ErrorEnum::Error,
        "inconsistent metadata for "@ + info + ": reason: "@ + reason,
    )
}

/// The pool could not be set up.
pub open spec fn not_set_up(info: Seq<char>, reason: Seq<char>) -> ErrorView {
    ErrorView::Engine(
        ErrorEnum::Error,
        "failed to set up pool for "@ + info + ": reason: "@ + reason,
    )
}

/// Where the setting up of a pool stands after `reply` to `stage`, in the
/// context of the pools `pools`. A reply to something else than `stage` asks
/// for leaves it where it was.
pub open spec fn next_setup_step(
    pool_uuid: PoolUuid,
    devices: Seq<(Device, Seq<char>)>,
    pools: Map<PoolUuid, (Seq<char>, StratPool)>,
    stage: SetupStage,
    reply: SetupReply,
) -> SetupStepView {
    let info = pool_info(pool_uuid, devices);
    match (stage, reply) {
        (SetupStage::ReadMetadata, SetupReply::Metadata(Err(e))) => SetupStepView::Done(Err(e@)),
        (SetupStage::ReadMetadata, SetupReply::Metadata(Ok(None))) => SetupStepView::Done(
            Err(no_metadata(info)),
        ),
        (SetupStage::ReadMetadata, SetupReply::Metadata(Ok(Some(metadata)))) => if has_name(
            pools,
            metadata.name@,
        ) {
            SetupStepView::Done(Err(name_in_use(metadata.name@, info)))
        } else {
            SetupStepView::Next(SetupStage::CheckMetadata(metadata))
        },
        (SetupStage::CheckMetadata(_), SetupReply::Checked(Err(reason))) => SetupStepView::Done(
            Err(inconsistent(info, reason@)),
        ),
        (SetupStage::CheckMetadata(metadata), SetupReply::Checked(Ok(_))) => SetupStepView::Next(
            SetupStage::SetUp(metadata),
        ),
        (SetupStage::SetUp(_), SetupReply::Pool(Err(reason))) => SetupStepView::Done(
            Err(not_set_up(info, reason@)),
        ),
        (SetupStage::SetUp(_), SetupReply::Pool(Ok((name, pool)))) => SetupStepView::Next(
            SetupStage::Link(name, pool),
        ),
        (SetupStage::Link(name, pool), SetupReply::Linked) => SetupStepView::Done(Ok((name, pool))),
        _ => SetupStepView::Next(stage),
    }
}

/// The pool and its device nodes, as they are named in messages.
fn info_string(pool_uuid: PoolUuid, devices: &DeviceMap) -> (info: String)
    ensures
        info@ == pool_info(pool_uuid, devices.listing()),
{
    let mut paths: Vec<String> = Vec::new();
    let count = devices.len();
    for i in 0..count
        invariant
            count == devices.listing().len(),
            texts(paths@) == node_paths(devices.listing()).take(i as int),
    {
        let ghost before = texts(paths@);
        let (_, path) = devices.pair(i);
        paths.push(path.clone());
        assert(texts(paths@) =~= before.push(path@));
        assert(node_paths(devices.listing()).take(i + 1) =~= node_paths(devices.listing()).take(
            i as int,
        ).push(path@));
    }
    assert(node_paths(devices.listing()).take(count as int) =~= node_paths(devices.listing()));
    let mut info = "(pool UUID: ".to_owned();
    info.append(uuid_to_string(pool_uuid).as_str());
    info.append(", devnodes: ");
    info.append(join(&paths, " ,").as_str());
    info.append(")");
    info
}

/// Sets up a pool from its devices, in the context of the pools that are set
/// up already: goes one step on, from the reply to `stage`. The result is an
/// error on anything that prevents the pool from being set up.
pub fn setup_pool(
    pool_uuid: PoolUuid,
    devices: &DeviceMap,
    pools: &Table<StratPool>,
    stage: SetupStage,
    reply: SetupReply,
) -> (step: SetupStep)
    requires
        pools.wf(),
    ensures
        step@ == next_setup_step(pool_uuid, devices.listing(), pools@, stage, reply),
        stage is ReadMetadata ==> (reply matches SetupReply::Metadata(Err(e)) ==> step
            == SetupStep::Done(Err(e))),
{
    match (stage, reply) {
        (SetupStage::ReadMetadata, SetupReply::Metadata(Err(e))) => SetupStep::Done(Err(e)),
        (SetupStage::ReadMetadata, SetupReply::Metadata(Ok(None))) => {
            let mut message = "no metadata found for ".to_owned();
            message.append(info_string(pool_uuid, devices).as_str());
            SetupStep::Done(Err(StratisError::Engine(ErrorEnum::NotFound, message)))
        },
        (SetupStage::ReadMetadata, SetupReply::Metadata(Ok(Some(metadata)))) => {
            if pools.contains_name(metadata.name.as_str()) {
                let mut message = "pool with name \"".to_owned();
                message.append(metadata.name.as_str());
                message.append("\" set up; metadata specifies same name for ");
                message.append(info_string(pool_uuid, devices).as_str());
                SetupStep::Done(Err(StratisError::Engine(ErrorEnum::AlreadyExists, message)))
            } else {
                SetupStep::Next(SetupStage::CheckMetadata(metadata))
            }
        },
        (SetupStage::CheckMetadata(_), SetupReply::Checked(Err(reason))) => {
            let mut message = "inconsistent metadata for ".to_owned();
            message.append(info_string(pool_uuid, devices).as_str());
            message.append(": reason: ");
            message.append(reason.as_str());
            SetupStep::Done(Err(StratisError::Engine(ErrorEnum::Error, message)))
        },
        (SetupStage::CheckMetadata(metadata), SetupReply::Checked(Ok(_))) => SetupStep::Next(
            SetupStage::SetUp(metadata),
        ),
        (SetupStage::SetUp(_), SetupReply::Pool(Err(reason))) => {
            let mut message = "failed to set up pool for ".to_owned();
            message.append(info_string(pool_uuid, devices).as_str());
            message.append(": reason: ");
            message.append(reason.as_str());
            SetupStep::Done(Err(StratisError::Engine(ErrorEnum::Error, message)))
        },
        (SetupStage::SetUp(_), SetupReply::Pool(Ok((name, pool)))) => SetupStep::Next(
            SetupStage::Link(name, pool),
        ),
        (SetupStage::Link(name, pool), SetupReply::Linked) => SetupStep::Done(Ok((name, pool))),
        (stage, _) => SetupStep::Next(stage),
    }
}

} // verus!
