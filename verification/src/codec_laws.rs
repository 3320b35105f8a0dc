//! What the fields of messages stand for.
use crate::codec::{
    BoundaryProtoView, ChildIdxWithTaskContextProto, ChildWeightProto, DistributedExecNodeView,
    StageProtoView,
};
use crate::error::{DistributedErrorView, ErrorKind};
use crate::plan::{
    ChildWeight, DistributedTaskContext, OperatorView, Partitioning, PlanView, Properties,
    SortExpr, StageView,
};
use crate::preparation_laws::tasks_in;
use crate::reconstruction_laws::{number_of_stage, query_of, stage_below};
use std::sync::Arc;
use vstd::prelude::*;

verus! {

/// Whether the message tells the query and the number of the stage, and of each of its tasks the
/// worker that it was sent to, if it was.
pub open spec fn tells_stage(message: StageProtoView, stage: StageView) -> bool {
    &&& message.query_id == query_of(stage).bytes@
    &&& message.num == number_of_stage(stage)
    &&& message.tasks.len() == tasks_in(stage)
    &&& forall|i: int|
        0 <= i < message.tasks.len() ==> match #[trigger] message.tasks[i] {
            Some(url) => stage is Remote && url == stage->workers[i],
            None => stage is Local,
        }
}

/// Whether the message tells what all boundaries have.
pub open spec fn tells_boundary(
    message: BoundaryProtoView,
    stage: StageView,
    partitioning: Partitioning,
    properties: Option<Arc<Properties>>,
) -> bool {
    &&& message.partitioning == Some(partitioning)
    &&& message.input_stage matches Some(told) && tells_stage(told, stage)
    &&& match properties {
        Some(known) => message.schema == Some(known.schema) && message.equivalence_classes
            == known.equivalences,
        None => message.schema is None && message.equivalence_classes is None,
    }
}

/// Whether the message tells which task of how many executes which child.
pub open spec fn tells_route(
    message: ChildIdxWithTaskContextProto,
    route: (usize, DistributedTaskContext),
) -> bool {
    &&& message.child_idx == route.0
    &&& message.task_idx == route.1.task_index
    &&& message.task_count == route.1.task_count
}

/// Whether the message tells how many tasks a child should have at most, and by which weight.
pub open spec fn tells_weight(message: ChildWeightProto, weight: ChildWeight) -> bool {
    &&& message.weight_bits == weight.weight_bits
    &&& match weight.max {
        Some(max) => message.max is Some && message.max->Some_0 == max,
        None => message.max is None,
    }
}

/// Whether the message tells the routes of all tasks of an isolated union.
pub open spec fn tells_routes(
    message: Seq<Seq<ChildIdxWithTaskContextProto>>,
    map: Seq<Seq<(usize, DistributedTaskContext)>>,
) -> bool {
    &&& message.len() == map.len()
    &&& forall|task: int|
        0 <= task < map.len() ==> (#[trigger] message[task]).len() == map[task].len()
    &&& forall|task: int, i: int|
        0 <= task < map.len() && 0 <= i < map[task].len() ==> tells_route(
            #[trigger] message[task][i],
            map[task][i],
        )
}

/// Whether the message tells the weights of all children.
pub open spec fn tells_weights(message: Seq<ChildWeightProto>, weights: Seq<ChildWeight>) -> bool {
    &&& message.len() == weights.len()
    &&& forall|i: int| 0 <= i < weights.len() ==> tells_weight(#[trigger] message[i], weights[i])
}

/// Whether the message tells all that a node is, but for what is below it.
pub open spec fn tells_node(message: DistributedExecNodeView, op: OperatorView) -> bool {
    match op {
        OperatorView::NetworkShuffle { stage, partitioning, properties, .. } => {
            &&& message is NetworkHashShuffle
            &&& tells_boundary(
                message->NetworkHashShuffle_boundary,
                stage,
                partitioning,
                properties,
            )
            &&& message->NetworkHashShuffle_ordering == match properties {
                Some(known) => known.ordering,
                None => None,
            }
        },
        OperatorView::NetworkCoalesce { stage, output, consumer_tasks, properties } => {
            &&& message is NetworkCoalesceTasks
            &&& tells_boundary(message->NetworkCoalesceTasks_boundary, stage, output, properties)
            &&& message->NetworkCoalesceTasks_consumer_tasks == consumer_tasks
        },
        OperatorView::NetworkBroadcast { stage, output, properties } => {
            &&& message is NetworkBroadcast
            &&& tells_boundary(message->NetworkBroadcast_boundary, stage, output, properties)
        },
        OperatorView::Broadcast { consumer_tasks } => {
            &&& message is Broadcast
            &&& message->Broadcast_0.consumer_task_count == consumer_tasks
        },
        OperatorView::ChildrenIsolatorUnion { partitions, weights, task_idx_map } => {
            &&& message is ChildrenIsolatorUnion
            &&& message->ChildrenIsolatorUnion_partition_count == partitions
            &&& tells_weights(message->ChildrenIsolatorUnion_child_weights, weights)
            &&& tells_routes(message->ChildrenIsolatorUnion_task_idx_map, task_idx_map)
        },
        OperatorView::Sampler => message is Sampler,
        _ => false,
    }
}

/// The message for a node tells all that the node is. Only the nodes that distribution adds have
/// one.
pub proof fn messages_tell_nodes(op: OperatorView)
    ensures
        match crate::codec::encoded(op) {
            Ok(message) => tells_node(message, op),
            Err(error) => {
                &&& error == ErrorKind::UnexpectedPlan.about(op.name())
                &&& !(op is NetworkShuffle || op is NetworkCoalesce || op is NetworkBroadcast || op
                    is Broadcast || op is ChildrenIsolatorUnion || op is Sampler)
            },
        },
{
    if let OperatorView::ChildrenIsolatorUnion { partitions, weights, task_idx_map } = op {
        let message = crate::codec::encoded(op)->Ok_0;
        let routes = message->ChildrenIsolatorUnion_task_idx_map;
        assert forall|task: int, i: int|
            0 <= task < task_idx_map.len() && 0 <= i < task_idx_map[task].len() implies tells_route(
            #[trigger] routes[task][i],
            task_idx_map[task][i],
        ) by {
            assert(routes[task][i] == crate::codec::child_ctx_message(task_idx_map[task][i]));
        }
    }
}

/// The worker that the text of a task leads to, if it does.
pub open spec fn worker_named(text: Option<Seq<char>>) -> Option<Seq<char>> {
    if text is Some {
        crate::ids::parsed_url(text->Some_0)
    } else {
        None
    }
}

/// Whether this is the first task without a worker, and the error tells why it has none.
pub open spec fn lacks_a_worker(
    tasks: Seq<Option<Seq<char>>>,
    i: int,
    error: DistributedErrorView,
) -> bool {
    &&& 0 <= i < tasks.len()
    &&& worker_named(tasks[i]) is None
    &&& forall|j: int| 0 <= j < i ==> worker_named(#[trigger] tasks[j]) is Some
    &&& error == (if tasks[i] is None {
        ErrorKind::MissingUrl.plain()
    } else {
        ErrorKind::InvalidUrl.plain()
    })
}

proof fn workers_are_read(tasks: Seq<Option<Seq<char>>>)
    ensures
        match crate::codec::workers_of(
            tasks.map_values(|task: Option<Seq<char>>| crate::codec::task_url(task)),
        ) {
            Ok(workers) => workers.len() == tasks.len() && forall|i: int|
                0 <= i < tasks.len() ==> worker_named(#[trigger] tasks[i]) == Some(workers[i]),
            Err(error) => exists|i: int| #[trigger] lacks_a_worker(tasks, i, error),
        },
    decreases tasks.len(),
{
    let urls = tasks.map_values(|task: Option<Seq<char>>| crate::codec::task_url(task));
    if tasks.len() > 0 {
        let shorter = tasks.drop_last();
        let last = tasks.len() - 1;
        workers_are_read(shorter);
        assert(urls.drop_last() =~= shorter.map_values(
            |task: Option<Seq<char>>| crate::codec::task_url(task),
        ));
        assert(forall|i: int| 0 <= i < last ==> shorter[i] == #[trigger] tasks[i]);
        assert(tasks[last] == tasks.last());
        match crate::codec::workers_of(urls.drop_last()) {
            Ok(workers) => {
                if let Err(error) = crate::codec::workers_of(urls) {
                    assert(forall|j: int|
                        0 <= j < last ==> worker_named(#[trigger] tasks[j]) == worker_named(
                            shorter[j],
                        ));
                    assert(lacks_a_worker(tasks, last, error));
                } else {
                    assert(forall|j: int|
                        0 <= j < last ==> worker_named(#[trigger] tasks[j]) == worker_named(
                            shorter[j],
                        ));
                }
            },
            Err(error) => {
                let i = choose|i: int| #[trigger] lacks_a_worker(shorter, i, error);
                assert forall|j: int| 0 <= j < i implies worker_named(#[trigger] tasks[j])
                    is Some by {
                    assert(worker_named(shorter[j]) is Some);
                }
                assert(lacks_a_worker(tasks, i, error));
            },
        }
    }
}

/// A stage that comes with its plan is a local one with as many tasks as the message names. Without
/// its plan it runs on the workers that the tasks of the message lead to. It takes a stage, the
/// bytes of a query id and, without a plan, a worker for each task.
pub proof fn stages_are_read(message: Option<StageProtoView>, has_input: bool)
    ensures
        match crate::codec::stage_of(message, has_input) {
            Ok(stage) => message matches Some(told) && {
                &&& told.query_id.len() == 16
                &&& query_of(stage) == crate::ids::uuid_of(told.query_id)
                &&& number_of_stage(stage) == told.num as usize
                &&& if has_input {
                    stage is Local && stage->Local_tasks == told.tasks.len() as usize
                } else {
                    stage is Remote && stage->workers.len() == told.tasks.len() && forall|i: int|
                        0 <= i < told.tasks.len() ==> worker_named(#[trigger] told.tasks[i]) == Some(
                            stage->workers[i],
                        )
                }
            },
            Err(error) => match message {
                None => error == ErrorKind::EmptyStage.plain(),
                Some(told) => {
                    ||| told.query_id.len() != 16 && error == (ErrorKind::InvalidUuid {
                        len: told.query_id.len() as usize,
                    }).plain()
                    ||| !has_input && exists|i: int| #[trigger]
                        lacks_a_worker(told.tasks, i, error)
                },
            },
        },
{
    if let Some(told) = message {
        workers_are_read(told.tasks);
    }
}

/// Whether a boundary that was read says what its message says.
pub open spec fn is_read_from(
    boundary: PlanView,
    told: BoundaryProtoView,
    ordering: Option<Arc<Vec<SortExpr>>>,
    inputs: Seq<PlanView>,
    properties: Option<Arc<Properties>>,
) -> bool {
    &&& boundary.facts is None
    &&& boundary.variants.len() == 0
    &&& stage_below(boundary) is Some
    &&& crate::codec::stage_of(told.input_stage, inputs.len() > 0) == Ok::<_, DistributedErrorView>(
        stage_below(boundary)->Some_0,
    )
    &&& if inputs.len() > 0 {
        boundary.children =~= seq![inputs[0]]
    } else {
        boundary.children.len() == 0
    }
    &&& properties matches Some(known) && {
        &&& told.schema == Some(known.schema)
        &&& known.equivalences == told.equivalence_classes
        &&& known.ordering == (if ordering is Some && ordering->Some_0@.len() > 0 {
            ordering
        } else {
            None
        })
    }
}

/// The first thing that keeps the message of a boundary from being read: it has no schema, no
/// partitioning, or its stage cannot be read.
pub open spec fn keeps_from_reading(
    told: BoundaryProtoView,
    name: Seq<char>,
    has_input: bool,
    error: DistributedErrorView,
) -> bool {
    if told.schema is None {
        error == ErrorKind::MissingSchema.about(name)
    } else if told.partitioning is None {
        error == ErrorKind::MissingPartitioning.about(name)
    } else {
        crate::codec::stage_of(told.input_stage, has_input) == Err::<StageView, _>(error)
    }
}

/// A node that was read says what its message says, with the plans that came along below it. A
/// boundary takes the first of them as the plan of its stage.
pub proof fn nodes_are_read(message: DistributedExecNodeView, inputs: Seq<PlanView>)
    ensures
        match crate::codec::decoded(Some(message), inputs) {
            Ok(node) => match message {
                DistributedExecNodeView::NetworkHashShuffle { boundary, ordering } => {
                    &&& node.op is NetworkShuffle
                    &&& boundary.partitioning == Some(node.op->NetworkShuffle_partitioning)
                    &&& node.op->NetworkShuffle_output == (
                    if node.op->NetworkShuffle_partitioning is Range {
                        Partitioning::UnknownPartitioning(1)
                    } else {
                        node.op->NetworkShuffle_partitioning
                    })
                    &&& is_read_from(
                        node,
                        boundary,
                        ordering,
                        inputs,
                        node.op->NetworkShuffle_properties,
                    )
                },
                DistributedExecNodeView::NetworkCoalesceTasks { boundary, consumer_tasks } => {
                    &&& node.op is NetworkCoalesce
                    &&& boundary.partitioning == Some(node.op->NetworkCoalesce_output)
                    &&& consumer_tasks > 0 ==> node.op->NetworkCoalesce_consumer_tasks
                        == consumer_tasks as usize
                    &&& consumer_tasks == 0 ==> node.op->NetworkCoalesce_consumer_tasks == 1
                    &&& is_read_from(
                        node,
                        boundary,
                        None,
                        inputs,
                        node.op->NetworkCoalesce_properties,
                    )
                },
                DistributedExecNodeView::NetworkBroadcast { boundary } => {
                    &&& node.op is NetworkBroadcast
                    &&& boundary.partitioning == Some(node.op->NetworkBroadcast_output)
                    &&& is_read_from(
                        node,
                        boundary,
                        None,
                        inputs,
                        node.op->NetworkBroadcast_properties,
                    )
                },
                DistributedExecNodeView::Broadcast(told) => {
                    &&& inputs.len() == 1
                    &&& node.children == inputs
                    &&& node.op == (OperatorView::Broadcast {
                        consumer_tasks: told.consumer_task_count as usize,
                    })
                },
                DistributedExecNodeView::ChildrenIsolatorUnion {
                    partition_count,
                    task_idx_map,
                    child_weights,
                } => {
                    &&& inputs.len() > 0
                    &&& node.children == inputs
                    &&& node.op is ChildrenIsolatorUnion
                    &&& node.op->ChildrenIsolatorUnion_partitions == partition_count as usize
                    &&& node.op->task_idx_map.len() == task_idx_map.len()
                    &&& forall|task: int, i: int|
                        0 <= task < task_idx_map.len() && 0 <= i < task_idx_map[task].len() ==> {
                            let route = #[trigger] node.op->task_idx_map[task][i];
                            let told = task_idx_map[task][i];
                            &&& route.0 == told.child_idx as usize
                            &&& route.1.task_index == told.task_idx as usize
                            &&& route.1.task_count == told.task_count as usize
                        }
                    &&& forall|task: int|
                        0 <= task < task_idx_map.len() ==> (
                        #[trigger] node.op->task_idx_map[task]).len() == task_idx_map[task].len()
                    &&& node.op->weights.len() == child_weights.len()
                    &&& forall|i: int|
                        0 <= i < child_weights.len() ==> {
                            let weight = #[trigger] node.op->weights[i];
                            &&& weight.weight_bits == child_weights[i].weight_bits
                            &&& weight.max is Some <==> child_weights[i].max is Some
                            &&& weight.max matches Some(max) ==> max
                                == child_weights[i].max->Some_0 as usize
                        }
                },
                DistributedExecNodeView::Sampler(_) => {
                    &&& inputs.len() == 1
                    &&& node.children == inputs
                    &&& node.op is Sampler
                },
            },
            Err(error) => match message {
                DistributedExecNodeView::NetworkHashShuffle { boundary, .. } => keeps_from_reading(
                    boundary,
                    "NetworkShuffleExec"@,
                    inputs.len() > 0,
                    error,
                ),
                DistributedExecNodeView::NetworkCoalesceTasks { boundary, .. } => keeps_from_reading(
                    boundary,
                    "NetworkCoalesceExec"@,
                    inputs.len() > 0,
                    error,
                ),
                DistributedExecNodeView::NetworkBroadcast { boundary } => keeps_from_reading(
                    boundary,
                    "NetworkBroadcastExec"@,
                    inputs.len() > 0,
                    error,
                ),
                DistributedExecNodeView::Broadcast(_) => inputs.len() != 1 && error == (
                ErrorKind::BroadcastExpectsOneChild { got: inputs.len() as usize }).plain(),
                DistributedExecNodeView::ChildrenIsolatorUnion { .. } => inputs.len() == 0 && error
                    == ErrorKind::UnionWithoutInputs.plain(),
                DistributedExecNodeView::Sampler(_) => inputs.len() != 1 && error == (
                ErrorKind::ExpectedOneChild { got: inputs.len() as usize }).plain(),
            },
        },
        crate::codec::decoded(None, inputs) == Err::<PlanView, _>(ErrorKind::MissingNode.plain()),
{
    if let DistributedExecNodeView::ChildrenIsolatorUnion { task_idx_map, .. } = message {
        if let Ok(node) = crate::codec::decoded(Some(message), inputs) {
            assert forall|task: int, i: int|
                0 <= task < task_idx_map.len() && 0 <= i < task_idx_map[task].len() implies {
                let route = #[trigger] node.op->task_idx_map[task][i];
                let told = task_idx_map[task][i];
                &&& route.0 == told.child_idx as usize
                &&& route.1.task_index == told.task_idx as usize
                &&& route.1.task_count == told.task_count as usize
            } by {
                assert(node.op->task_idx_map[task][i] == crate::codec::child_ctx_of(
                    task_idx_map[task][i],
                ));
            }
        }
    }
}

} // verus!
