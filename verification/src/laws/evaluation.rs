//! Evaluating a device that has appeared.
use vstd::prelude::*;

use crate::engine::{
    evaluation_continued, evaluation_started, EngineView, EvaluateStep, Evaluation, Finding,
    PoolEvaluation, StratEngine,
};
use crate::errors::{StratisError, StratisResult};
use crate::laws::pools::{joins, kept_apart, law_free_name_displaces_nothing};
use crate::laws::setup::{
    answers_left, answers_setup, are_nodes_of, law_first_blockdev, law_set_up_under_free_name,
    leads_to, lemma_next_setup_step, name_is_free, prevents, takes_free_name,
};
use crate::setup::{next_setup_step, SetupReply, SetupStage, SetupStepView};
use crate::table::has_name;
use crate::types::{DevUuid, Device, Name, PoolMetadata, PoolUuid, StratPool};

verus! {

/// Evaluating a device of a pool that is not set up keeps the pools that are
/// set up apart from those that are not. If the pool is set up in the end, it
/// is one of the former and no longer one of the latter.
pub proof fn law_evaluated_pool_changes_sides(
    engine: EngineView,
    uuid: PoolUuid,
    name: Seq<char>,
    pool: StratPool,
    devices: Map<Device, Seq<char>>,
)
    requires
        kept_apart(engine),
        !engine.pools.contains_key(uuid),
    ensures
        ({
            let set_up = engine.without_incomplete(uuid).with_pool(name, uuid, pool);
            &&& kept_apart(set_up)
            &&& set_up.pools.contains_key(uuid)
            &&& set_up.pools[uuid] == (name, pool)
            &&& !set_up.incomplete_pools.contains_key(uuid)
        }),
        kept_apart(engine.without_incomplete(uuid).with_incomplete(uuid, devices)),
{
    assert forall|u: PoolUuid| !(engine.pools.contains_key(u)
        && #[trigger] engine.incomplete_pools.contains_key(u)) by {}
}

/// A device that was found is not forgotten: if its pool cannot be set up, it
/// is among the devices kept for the pool, with those that were kept before,
/// and the other pools are as they were.
pub proof fn law_found_device_is_kept(
    engine: EngineView,
    uuid: PoolUuid,
    device: Device,
    dev_node: Seq<char>,
)
    ensures
        ({
            let before = engine.known_devices(uuid);
            let after = engine.without_incomplete(uuid).with_incomplete(
                uuid,
                before.insert(device, dev_node),
            );
            &&& after.known_devices(uuid) == before.insert(device, dev_node)
            &&& after.without_incomplete(uuid) == engine.without_incomplete(uuid)
            &&& after.pools == engine.pools
        }),
{
    let after = engine.without_incomplete(uuid).with_incomplete(
        uuid,
        engine.known_devices(uuid).insert(device, dev_node),
    );
    assert(after.incomplete_pools.remove(uuid) =~= engine.incomplete_pools.remove(uuid));
}

/// Step `i` of an evaluation follows from the step before it and its reply.
pub open spec fn evaluation_goes(
    steps: Seq<EvaluateStep>,
    replies: Seq<SetupReply>,
    engines: Seq<EngineView>,
    i: int,
) -> bool {
    &&& steps[i] matches EvaluateStep::SetUp(evaluation)
    &&& evaluation_continued(engines[i], evaluation, replies[i], steps[i + 1], engines[i + 1])
}

/// `steps` are the steps of evaluating `device`, with the engine after each of
/// them, by the replies between them. The engine is `start` before the first.
pub open spec fn evaluation_run(
    start: EngineView,
    device: Device,
    dev_node: Seq<char>,
    identity: StratisResult<Option<(PoolUuid, DevUuid)>>,
    steps: Seq<EvaluateStep>,
    replies: Seq<SetupReply>,
    engines: Seq<EngineView>,
) -> bool {
    &&& steps.len() == replies.len() + 1
    &&& engines.len() == steps.len()
    &&& evaluation_started(start, device, dev_node, identity, steps[0], engines[0])
    &&& forall|i: int|
        0 <= i < replies.len() ==> #[trigger] evaluation_goes(steps, replies, engines, i)
}

/// Reply `i` sets no pool up under a name that a pool has by then.
pub open spec fn evaluation_takes_free_name(
    steps: Seq<EvaluateStep>,
    replies: Seq<SetupReply>,
    engines: Seq<EngineView>,
    i: int,
) -> bool {
    steps[i] matches EvaluateStep::SetUp(evaluation) ==> takes_free_name(
        engines[i].pools,
        evaluation.stage,
        replies[i],
    )
}

/// Where an evaluation of `device` that began with the engine `start` stands
/// after `step`, which left the engine `engine`.
pub open spec fn evaluated_so_far(
    start: EngineView,
    device: Device,
    dev_node: Seq<char>,
    identity: StratisResult<Option<(PoolUuid, DevUuid)>>,
    step: EvaluateStep,
    engine: EngineView,
) -> bool {
    match step {
        EvaluateStep::SetUp(evaluation) => {
            let uuid = evaluation.pool_uuid;
            &&& identity matches Ok(Some((said, _)))
            &&& said == uuid
            &&& !start.pools.contains_key(uuid)
            &&& evaluation.devices@ == start.known_devices(uuid).insert(device, dev_node)
            &&& name_is_free(start.pools, evaluation.stage)
            &&& engine == start.without_incomplete(uuid)
        },
        EvaluateStep::Done(done) => match (done.result, done.finding) {
            (Ok(Some(uuid)), _) => {
                &&& !start.pools.contains_key(uuid)
                &&& engine.pools.contains_key(uuid)
                &&& !has_name(start.pools, engine.pools[uuid].0)
                &&& engine == start.without_incomplete(uuid).with_changed(
                    engine.pools[uuid].0,
                    uuid,
                    engine.pools[uuid].1,
                )
            },
            (Ok(None), Finding::NoPoolSetUp(_)) => {
                &&& identity matches Ok(Some((uuid, _)))
                &&& !start.pools.contains_key(uuid)
                &&& engine == start.with_incomplete(
                    uuid,
                    start.known_devices(uuid).insert(device, dev_node),
                )
            },
            _ => engine == start,
        },
    }
}

proof fn lemma_evaluated_so_far(
    start: EngineView,
    device: Device,
    dev_node: Seq<char>,
    identity: StratisResult<Option<(PoolUuid, DevUuid)>>,
    steps: Seq<EvaluateStep>,
    replies: Seq<SetupReply>,
    engines: Seq<EngineView>,
    n: int,
)
    requires
        evaluation_run(start, device, dev_node, identity, steps, replies, engines),
        forall|i: int|
            0 <= i < replies.len() ==> #[trigger] evaluation_takes_free_name(
                steps,
                replies,
                engines,
                i,
            ),
        0 <= n < steps.len(),
    ensures
        evaluated_so_far(start, device, dev_node, identity, steps[n], engines[n]),
    decreases n,
{
    if n > 0 {
        lemma_evaluated_so_far(
            start,
            device,
            dev_node,
            identity,
            steps,
            replies,
            engines,
            n - 1,
        );
        assert(evaluation_goes(steps, replies, engines, n - 1));
        assert(evaluation_takes_free_name(steps, replies, engines, n - 1));
        if let EvaluateStep::SetUp(evaluation) = steps[n - 1] {
            let uuid = evaluation.pool_uuid;
            let listing = evaluation.devices.listing();
            let reply = replies[n - 1];
            law_set_up_under_free_name(uuid, listing, start.pools, evaluation.stage, reply);
            match next_setup_step(uuid, listing, start.pools, evaluation.stage, reply) {
                SetupStepView::Next(_) => {},
                SetupStepView::Done(Ok((name, pool))) => {
                    law_free_name_displaces_nothing(
                        start.without_incomplete(uuid),
                        name@,
                        uuid,
                        pool,
                    );
                },
                SetupStepView::Done(Err(_)) => {
                    let devices = evaluation.devices@;
                    assert(start.without_incomplete(uuid).with_incomplete(uuid, devices)
                        =~= start.with_incomplete(uuid, devices));
                },
            }
        }
    }
}

/// However the evaluation of a device goes, unless the device's pool is set up
/// under a name that another pool has, each pool that was set up still is,
/// as it was and under its name, and the pools that are set up stay apart from
/// those that are not. A UUID is reported exactly when its pool is newly set
/// up, and a pool that is reported had a free name. If the device's pool cannot
/// be set up, the device is kept with those that were known of the pool.
/// Otherwise, where no pool is newly set up, nothing has changed.
pub proof fn law_evaluation(
    start: EngineView,
    device: Device,
    dev_node: Seq<char>,
    identity: StratisResult<Option<(PoolUuid, DevUuid)>>,
    steps: Seq<EvaluateStep>,
    replies: Seq<SetupReply>,
    engines: Seq<EngineView>,
    done: Evaluation,
)
    requires
        kept_apart(start),
        evaluation_run(start, device, dev_node, identity, steps, replies, engines),
        forall|i: int|
            0 <= i < replies.len() ==> #[trigger] evaluation_takes_free_name(
                steps,
                replies,
                engines,
                i,
            ),
        steps.last() == EvaluateStep::Done(done),
    ensures
        kept_apart(engines.last()),
        forall|u: PoolUuid| #[trigger]
            start.pools.contains_key(u) ==> engines.last().pools.contains_key(u)
                && engines.last().pools[u] == start.pools[u],
        forall|u: PoolUuid|
            (done.result == Ok::<Option<PoolUuid>, StratisError>(Some(u))) <==> (
            #[trigger] engines.last().pools.contains_key(u) && !start.pools.contains_key(u)),
        engines.last().watched == start.watched,
        evaluated_so_far(start, device, dev_node, identity, steps.last(), engines.last()),
{
    let end = engines.last();
    lemma_evaluated_so_far(
        start,
        device,
        dev_node,
        identity,
        steps,
        replies,
        engines,
        steps.len() - 1,
    );
    assert forall|u: PoolUuid| !(start.pools.contains_key(u)
        && #[trigger] start.incomplete_pools.contains_key(u)) by {}
    if let Ok(Some(uuid)) = done.result {
        assert(end.pools.contains_key(uuid) && !start.pools.contains_key(uuid));
    }
}

/// The evaluation of a device always ends: each answer ends it, or leaves fewer
/// to be given.
pub proof fn law_evaluation_ends(
    before: EngineView,
    evaluation: PoolEvaluation,
    reply: SetupReply,
    step: EvaluateStep,
    after: EngineView,
)
    requires
        answers_setup(evaluation.stage, reply),
        evaluation_continued(before, evaluation, reply, step, after),
    ensures
        step matches EvaluateStep::SetUp(next) ==> answers_left(next.stage) < answers_left(
            evaluation.stage,
        ),
{
}

/// What becomes of a device that is evaluated depends on what it says of itself.
/// If that cannot be found out, it is an error; if it says nothing, there is
/// nothing to do. If its pool is set up, the device is one that the pool does
/// not know, or another than the pool has under the same UUID, or all is well,
/// and nothing is changed. If its pool is not set up, the device joins those that
/// are known of the pool, the pool is to be set up with all of them, and nothing
/// else is changed.
pub proof fn law_evaluation_request(
    engine: &mut StratEngine,
    device: Device,
    dev_node: String,
    identity: StratisResult<Option<(PoolUuid, DevUuid)>>,
    step: EvaluateStep,
    i: int,
)
    requires
        call_ensures(StratEngine::block_evaluate, (engine, device, dev_node, identity), step),
    ensures
        step is Done ==> *final(engine) == *old(engine),
        identity matches Err(e) ==> step == EvaluateStep::Done(
            Evaluation { result: Err(e), finding: Finding::Nothing },
        ),
        identity matches Ok(None) ==> step == EvaluateStep::Done(
            Evaluation { result: Ok(None), finding: Finding::Nothing },
        ),
        identity matches Ok(Some((uuid, device_uuid))) ==> if old(engine)@.pools.contains_key(
            uuid,
        ) {
            let blockdevs = old(engine)@.pools[uuid].1.blockdevs@;
            &&& step matches EvaluateStep::Done(done)
            &&& done.result == Ok::<Option<PoolUuid>, StratisError>(None)
            &&& (forall|j: int|
                0 <= j < blockdevs.len() ==> (#[trigger] blockdevs[j]).uuid != device_uuid)
                ==> done.finding == Finding::UnknownBlockDev
            &&& 0 <= i < blockdevs.len() && blockdevs[i].uuid == device_uuid && (forall|j: int|
                0 <= j < i ==> (#[trigger] blockdevs[j]).uuid != device_uuid) ==> {
                &&& blockdevs[i].device == device ==> done.finding == Finding::Nothing
                &&& blockdevs[i].device != device ==> done.finding == (Finding::DeviceMismatch {
                    in_pool: blockdevs[i].device,
                })
            }
        } else {
            &&& step matches EvaluateStep::SetUp(evaluation)
            &&& evaluation.pool_uuid == uuid
            &&& evaluation.stage == SetupStage::ReadMetadata
            &&& evaluation.devices@.contains_key(device)
            &&& evaluation.devices@[device] == dev_node@
            &&& forall|d: Device|
                d != device ==> #[trigger] evaluation.devices@.contains_key(d) == (old(
                    engine,
                )@.incomplete_pools.contains_key(uuid) && old(
                    engine,
                )@.incomplete_pools[uuid].contains_key(d))
            &&& forall|d: Device|
                d != device && #[trigger] evaluation.devices@.contains_key(d)
                    ==> evaluation.devices@[d] == old(engine)@.incomplete_pools[uuid][d]
            &&& final(engine)@.pools == old(engine)@.pools
            &&& final(engine)@.watched == old(engine)@.watched
            &&& !final(engine)@.incomplete_pools.contains_key(uuid)
            &&& forall|u: PoolUuid|
                u != uuid ==> #[trigger] final(engine)@.incomplete_pools.contains_key(u) == old(
                    engine,
                )@.incomplete_pools.contains_key(u)
            &&& forall|u: PoolUuid| #[trigger]
                final(engine)@.incomplete_pools.contains_key(u)
                    ==> final(engine)@.incomplete_pools[u] == old(engine)@.incomplete_pools[u]
        },
{
    if let Ok(Some((uuid, device_uuid))) = identity {
        if old(engine)@.pools.contains_key(uuid) {
            law_first_blockdev(old(engine)@.pools[uuid].1.blockdevs@, device_uuid, i);
        }
    }
}

/// What a reply comes to in an evaluation. The pool joins the others just as it
/// was set up, under the name it was set up under, once it is linked; its UUID is
/// then reported. If something prevents that, all the devices of the pool are
/// kept, and what prevented it is reported. Until then nothing is changed.
pub proof fn law_evaluation_answer(
    engine: &mut StratEngine,
    evaluation: PoolEvaluation,
    reply: SetupReply,
    step: EvaluateStep,
    paths: Seq<Seq<char>>,
)
    requires
        call_ensures(StratEngine::block_evaluated, (engine, evaluation, reply), step),
        are_nodes_of(paths, evaluation.devices),
    ensures
        match step {
            EvaluateStep::SetUp(next) => {
                &&& leads_to(old(engine)@.pools, evaluation.stage, reply, next.stage)
                &&& next.pool_uuid == evaluation.pool_uuid
                &&& next.devices == evaluation.devices
                &&& *final(engine) == *old(engine)
            },
            EvaluateStep::Done(done) => match done.result {
                Ok(Some(uuid)) => {
                    &&& uuid == evaluation.pool_uuid
                    &&& evaluation.stage matches SetupStage::Link(name, pool)
                    &&& reply == SetupReply::Linked
                    &&& done.finding == Finding::Nothing
                    &&& joins(old(engine)@, name@, uuid, pool, final(engine)@)
                },
                Ok(None) => {
                    &&& done.finding matches Finding::NoPoolSetUp(reason)
                    &&& prevents(
                        evaluation.pool_uuid,
                        paths,
                        old(engine)@.pools,
                        evaluation.stage,
                        reply,
                        reason,
                    )
                    &&& final(engine)@.pools == old(engine)@.pools
                    &&& final(engine)@.watched == old(engine)@.watched
                    &&& final(engine)@.incomplete_pools == old(engine)@.incomplete_pools.insert(
                        evaluation.pool_uuid,
                        evaluation.devices@,
                    )
                },
                Err(_) => false,
            },
        },
{
    lemma_next_setup_step(
        evaluation.pool_uuid,
        evaluation.devices,
        paths,
        old(engine)@.pools,
        evaluation.stage,
        reply,
    );
}

/// What `stage` holds was reported by `replies`.
pub open spec fn reported(stage: SetupStage, replies: Seq<SetupReply>) -> bool {
    match stage {
        SetupStage::ReadMetadata => true,
        SetupStage::CheckMetadata(metadata) => replies.contains(
            SetupReply::Metadata(Ok(Some(metadata))),
        ),
        SetupStage::SetUp(metadata) => {
            &&& replies.contains(SetupReply::Metadata(Ok(Some(metadata))))
            &&& replies.contains(SetupReply::Checked(Ok(())))
        },
        SetupStage::Link(name, pool) => {
            &&& exists|metadata: PoolMetadata| #[trigger]
                replies.contains(SetupReply::Metadata(Ok(Some(metadata))))
            &&& replies.contains(SetupReply::Checked(Ok(())))
            &&& replies.contains(SetupReply::Pool(Ok((name, pool))))
        },
    }
}

proof fn lemma_still_reported(stage: SetupStage, replies: Seq<SetupReply>, n: int)
    requires
        0 <= n < replies.len(),
        reported(stage, replies.take(n)),
    ensures
        reported(stage, replies.take(n + 1)),
{
    let fewer = replies.take(n);
    let more = replies.take(n + 1);
    assert forall|reply: SetupReply| #[trigger] fewer.contains(reply) implies more.contains(
        reply,
    ) by {
        assert(more[fewer.index_of(reply)] == reply);
    }
    if let SetupStage::Link(_, _) = stage {
        let metadata = choose|metadata: PoolMetadata| #[trigger]
            fewer.contains(SetupReply::Metadata(Ok(Some(metadata))));
        assert(more.contains(SetupReply::Metadata(Ok(Some(metadata)))));
    }
}

proof fn lemma_run_reports(
    start: EngineView,
    device: Device,
    dev_node: Seq<char>,
    identity: StratisResult<Option<(PoolUuid, DevUuid)>>,
    steps: Seq<EvaluateStep>,
    replies: Seq<SetupReply>,
    engines: Seq<EngineView>,
    n: int,
)
    requires
        evaluation_run(start, device, dev_node, identity, steps, replies, engines),
        0 <= n < steps.len(),
    ensures
        steps[n] matches EvaluateStep::SetUp(evaluation) ==> reported(
            evaluation.stage,
            replies.take(n),
        ),
    decreases n,
{
    if n > 0 {
        lemma_run_reports(start, device, dev_node, identity, steps, replies, engines, n - 1);
        assert(evaluation_goes(steps, replies, engines, n - 1));
        assert(replies.take(n)[n - 1] == replies[n - 1]);
        assert(replies.take(n).contains(replies[n - 1]));
        if let EvaluateStep::SetUp(before) = steps[n - 1] {
            lemma_still_reported(before.stage, replies, n - 1);
            match (before.stage, replies[n - 1]) {
                (SetupStage::CheckMetadata(_), SetupReply::Checked(Ok(unit))) => {
                    assert(unit == ());
                },
                (SetupStage::SetUp(metadata), SetupReply::Pool(Ok((name, pool)))) => {
                    assert(replies.take(n).contains(SetupReply::Metadata(Ok(Some(metadata)))));
                    assert(replies.take(n).contains(SetupReply::Pool(Ok((name, pool)))));
                },
                _ => {},
            }
        }
    }
}

/// A pool that an evaluation reports is the very pool that was set up in it: it
/// is there under the name and with all that one of its replies gave, its
/// metadata was read, and found consistent. Nothing that it holds is lost.
pub proof fn law_evaluated_pool_is_what_was_set_up(
    start: EngineView,
    device: Device,
    dev_node: Seq<char>,
    identity: StratisResult<Option<(PoolUuid, DevUuid)>>,
    steps: Seq<EvaluateStep>,
    replies: Seq<SetupReply>,
    engines: Seq<EngineView>,
    done: Evaluation,
    uuid: PoolUuid,
)
    requires
        evaluation_run(start, device, dev_node, identity, steps, replies, engines),
        steps.last() == EvaluateStep::Done(done),
        done.result == Ok::<Option<PoolUuid>, StratisError>(Some(uuid)),
    ensures
        identity matches Ok(Some((said, _))) && said == uuid,
        engines.last().pools.contains_key(uuid),
        exists|name: Name, pool: StratPool|
            {
                &&& #[trigger] replies.contains(SetupReply::Pool(Ok((name, pool))))
                &&& engines.last().pools[uuid].0 == name@
                &&& engines.last().pools[uuid].1 == pool
            },
        exists|metadata: PoolMetadata| #[trigger]
            replies.contains(SetupReply::Metadata(Ok(Some(metadata)))),
        replies.contains(SetupReply::Checked(Ok(()))),
{
    let n = steps.len() - 1;
    if n > 0 {
        lemma_run_reports(start, device, dev_node, identity, steps, replies, engines, n - 1);
        lemma_run_identity(start, device, dev_node, identity, steps, replies, engines, n - 1);
        assert(evaluation_goes(steps, replies, engines, n - 1));
        let shown = replies.take(n - 1);
        assert forall|reply: SetupReply| #[trigger] shown.contains(reply) implies replies.contains(
            reply,
        ) by {
            assert(replies[shown.index_of(reply)] == reply);
        }
        if let EvaluateStep::SetUp(evaluation) = steps[n - 1] {
            if let SetupStage::Link(name, pool) = evaluation.stage {
                assert(replies.contains(SetupReply::Pool(Ok((name, pool)))));
                let metadata = choose|metadata: PoolMetadata| #[trigger]
                    shown.contains(SetupReply::Metadata(Ok(Some(metadata))));
                assert(replies.contains(SetupReply::Metadata(Ok(Some(metadata)))));
            }
        }
    }
}

proof fn lemma_run_identity(
    start: EngineView,
    device: Device,
    dev_node: Seq<char>,
    identity: StratisResult<Option<(PoolUuid, DevUuid)>>,
    steps: Seq<EvaluateStep>,
    replies: Seq<SetupReply>,
    engines: Seq<EngineView>,
    n: int,
)
    requires
        evaluation_run(start, device, dev_node, identity, steps, replies, engines),
        0 <= n < steps.len(),
    ensures
        steps[n] matches EvaluateStep::SetUp(evaluation) ==> (identity matches Ok(Some((said, _)))
            && said == evaluation.pool_uuid),
    decreases n,
{
    if n > 0 {
        lemma_run_identity(start, device, dev_node, identity, steps, replies, engines, n - 1);
        assert(evaluation_goes(steps, replies, engines, n - 1));
    }
}

/// A device can be evaluated at any time, whatever it says of itself and whatever
/// the replies are, and the engine is left in order.
pub proof fn law_evaluation_is_admitted(
    engine: &mut StratEngine,
    device: Device,
    dev_node: String,
    identity: StratisResult<Option<(PoolUuid, DevUuid)>>,
    evaluation: PoolEvaluation,
    reply: SetupReply,
    step: EvaluateStep,
)
    ensures
        old(engine).wf() ==> call_requires(
            StratEngine::block_evaluate,
            (engine, device, dev_node, identity),
        ) && call_requires(StratEngine::block_evaluated, (engine, evaluation, reply)),
        call_ensures(StratEngine::block_evaluate, (engine, device, dev_node, identity), step)
            ==> final(engine).wf(),
        call_ensures(StratEngine::block_evaluated, (engine, evaluation, reply), step)
            ==> final(engine).wf(),
{
}

/// A pool that is linked in an evaluation is there just as it was set up, and its
/// UUID is the result. What is set up is linked as it is.
pub proof fn law_linked_pool_joins(
    engine: &mut StratEngine,
    evaluation: PoolEvaluation,
    name: Name,
    pool: StratPool,
    step: EvaluateStep,
    other: &mut StratEngine,
    earlier: PoolEvaluation,
    before: EvaluateStep,
)
    requires
        evaluation.stage == SetupStage::Link(name, pool),
        call_ensures(StratEngine::block_evaluated, (engine, evaluation, SetupReply::Linked), step),
        earlier.stage is SetUp,
        call_ensures(
            StratEngine::block_evaluated,
            (other, earlier, SetupReply::Pool(Ok((name, pool)))),
            before,
        ),
    ensures
        step matches EvaluateStep::Done(done) && done.result == Ok::<
            Option<PoolUuid>,
            StratisError,
        >(Some(evaluation.pool_uuid)),
        final(engine)@.pools.contains_key(evaluation.pool_uuid),
        final(engine)@.pools[evaluation.pool_uuid].0 == name@,
        final(engine)@.pools[evaluation.pool_uuid].1 == pool,
        final(engine)@.incomplete_pools == old(engine)@.incomplete_pools,
        before matches EvaluateStep::SetUp(next) && next.stage == SetupStage::Link(name, pool)
            && next.pool_uuid == earlier.pool_uuid && next.devices == earlier.devices,
        *final(other) == *old(other),
{
}

/// A pool that cannot be set up in an evaluation has all its devices kept: where
/// its metadata cannot be read, is not there, or is not consistent, and where
/// setting it up fails.
pub proof fn law_unset_pool_is_kept(
    engine: &mut StratEngine,
    evaluation: PoolEvaluation,
    reply: SetupReply,
    step: EvaluateStep,
)
    requires
        call_ensures(StratEngine::block_evaluated, (engine, evaluation, reply), step),
        match evaluation.stage {
            SetupStage::ReadMetadata => reply matches SetupReply::Metadata(read) && (read is Err
                || read->Ok_0 is None),
            SetupStage::CheckMetadata(_) => reply matches SetupReply::Checked(checked)
                && checked is Err,
            SetupStage::SetUp(_) => reply matches SetupReply::Pool(set_up) && set_up is Err,
            SetupStage::Link(_, _) => false,
        },
    ensures
        step matches EvaluateStep::Done(done) && done.result == Ok::<
            Option<PoolUuid>,
            StratisError,
        >(None) && done.finding is NoPoolSetUp,
        final(engine)@.incomplete_pools.contains_key(evaluation.pool_uuid),
        final(engine)@.incomplete_pools[evaluation.pool_uuid] == evaluation.devices@,
        final(engine)@.pools == old(engine)@.pools,
{
}

} // verus!
