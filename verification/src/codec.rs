use crate::error::{DistributedError, DistributedErrorView, ErrorKind};
use crate::ids::{deserialize_uuid, parse_url, serialize_uuid, Uuid};
use crate::plan::{
    require_one_child, share_all, ChildWeight, DistributedTaskContext, Expr, Operator,
    OperatorView, Partitioning, Plan, PlanView, Properties, Schema, SortExpr, Stage, StageView,
};
use std::sync::Arc;
use vstd::prelude::*;

verus! {

/// Turns the nodes that distribution adds to a plan into messages and back.
#[derive(Debug)]
pub struct DistributedCodec;

/// A task of a stage in a message.
#[derive(Debug)]
pub struct ExecutionTaskProto {
    /// The URL of the worker that executes the task. None where it is not assigned yet.
    pub url_str: Option<String>,
}

/// A stage in a message.
#[derive(Debug)]
pub struct StageProto {
    pub query_id: Vec<u8>,
    pub num: u64,
    pub tasks: Vec<ExecutionTaskProto>,
}

#[derive(Debug)]
pub struct NetworkShuffleExecProto {
    pub schema: Option<Arc<Schema>>,
    pub partitioning: Option<Partitioning>,
    pub input_stage: Option<StageProto>,
    pub equivalence_classes: Option<Arc<Vec<Vec<Expr>>>>,
    pub ordering: Option<Arc<Vec<SortExpr>>>,
}

#[derive(Debug)]
pub struct NetworkCoalesceExecProto {
    pub schema: Option<Arc<Schema>>,
    pub partitioning: Option<Partitioning>,
    pub input_stage: Option<StageProto>,
    pub equivalence_classes: Option<Arc<Vec<Vec<Expr>>>>,
    pub consumer_tasks: u64,
}

#[derive(Debug)]
pub struct NetworkBroadcastExecProto {
    pub schema: Option<Arc<Schema>>,
    pub partitioning: Option<Partitioning>,
    pub input_stage: Option<StageProto>,
    pub equivalence_classes: Option<Arc<Vec<Vec<Expr>>>>,
}

#[derive(Clone, Copy, PartialEq, Eq, Debug, Structural)]
pub struct ChildIdxWithTaskContextProto {
    pub child_idx: u64,
    pub task_idx: u64,
    pub task_count: u64,
}

#[derive(Debug)]
pub struct TaskIdxMapEntryProto {
    pub child_ctx: Vec<ChildIdxWithTaskContextProto>,
}

#[derive(Clone, Copy, PartialEq, Eq, Debug, Structural)]
pub struct ChildWeightProto {
    pub weight_bits: u64,
    pub max: Option<u64>,
}

#[derive(Debug)]
pub struct ChildrenIsolatorUnionExecProto {
    pub partition_count: u64,
    pub task_idx_map: Vec<TaskIdxMapEntryProto>,
    pub child_weights: Vec<ChildWeightProto>,
}

#[derive(Clone, Copy, PartialEq, Eq, Debug, Structural)]
pub struct BroadcastExecProto {
    pub consumer_task_count: u64,
}

#[derive(Clone, Copy, PartialEq, Eq, Debug, Structural)]
pub struct SamplerExecProto {}

#[derive(Debug)]
pub enum DistributedExecNode {
    NetworkHashShuffle(NetworkShuffleExecProto),
    NetworkCoalesceTasks(NetworkCoalesceExecProto),
    ChildrenIsolatorUnion(ChildrenIsolatorUnionExecProto),
    NetworkBroadcast(NetworkBroadcastExecProto),
    Broadcast(BroadcastExecProto),
    Sampler(SamplerExecProto),
}

/// The message for one node of a plan. The children of the node travel beside it.
#[derive(Debug)]
pub struct DistributedExecProto {
    pub node: Option<DistributedExecNode>,
}

/// The mathematical view of a [`StageProto`].
#[verifier::ext_equal]
pub struct StageProtoView {
    pub query_id: Seq<u8>,
    pub num: u64,
    pub tasks: Seq<Option<Seq<char>>>,
}

/// The mathematical view of the message for a network boundary. The fields that only some
/// boundaries have are absent in the messages for the others.
#[verifier::ext_equal]
pub struct BoundaryProtoView {
    pub schema: Option<Arc<Schema>>,
    pub partitioning: Option<Partitioning>,
    pub input_stage: Option<StageProtoView>,
    pub equivalence_classes: Option<Arc<Vec<Vec<Expr>>>>,
}

/// The mathematical view of a [`DistributedExecNode`].
#[verifier::ext_equal]
pub enum DistributedExecNodeView {
    NetworkHashShuffle { boundary: BoundaryProtoView, ordering: Option<Arc<Vec<SortExpr>>> },
    NetworkCoalesceTasks { boundary: BoundaryProtoView, consumer_tasks: u64 },
    ChildrenIsolatorUnion {
        partition_count: u64,
        task_idx_map: Seq<Seq<ChildIdxWithTaskContextProto>>,
        child_weights: Seq<ChildWeightProto>,
    },
    NetworkBroadcast { boundary: BoundaryProtoView },
    Broadcast(BroadcastExecProto),
    Sampler(SamplerExecProto),
}

impl View for ExecutionTaskProto {
    type V = Option<Seq<char>>;

    open spec fn view(&self) -> Option<Seq<char>> {
        match self.url_str {
            Some(url) => Some(url@),
            None => None,
        }
    }
}

impl View for StageProto {
    type V = StageProtoView;

    open spec fn view(&self) -> StageProtoView {
        StageProtoView {
            query_id: self.query_id@,
            num: self.num,
            tasks: self.tasks@.map_values(|task: ExecutionTaskProto| task@),
        }
    }
}

pub open spec fn stage_proto_view(stage: Option<StageProto>) -> Option<StageProtoView> {
    match stage {
        Some(stage) => Some(stage@),
        None => None,
    }
}

impl View for DistributedExecNode {
    type V = DistributedExecNodeView;

    open spec fn view(&self) -> DistributedExecNodeView {
        match self {
            DistributedExecNode::NetworkHashShuffle(proto) => {
                DistributedExecNodeView::NetworkHashShuffle {
                    boundary: BoundaryProtoView {
                        schema: proto.schema,
                        partitioning: proto.partitioning,
                        input_stage: crate::codec::stage_proto_view(proto.input_stage),
                        equivalence_classes: proto.equivalence_classes,
                    },
                    ordering: proto.ordering,
                }
            },
            DistributedExecNode::NetworkCoalesceTasks(proto) => {
                DistributedExecNodeView::NetworkCoalesceTasks {
                    boundary: BoundaryProtoView {
                        schema: proto.schema,
                        partitioning: proto.partitioning,
                        input_stage: crate::codec::stage_proto_view(proto.input_stage),
                        equivalence_classes: proto.equivalence_classes,
                    },
                    consumer_tasks: proto.consumer_tasks,
                }
            },
            DistributedExecNode::ChildrenIsolatorUnion(proto) => {
                DistributedExecNodeView::ChildrenIsolatorUnion {
                    partition_count: proto.partition_count,
                    task_idx_map: proto.task_idx_map@.map_values(
                        |entry: TaskIdxMapEntryProto| entry.child_ctx@,
                    ),
                    child_weights: proto.child_weights@,
                }
            },
            DistributedExecNode::NetworkBroadcast(proto) => {
                DistributedExecNodeView::NetworkBroadcast {
                    boundary: BoundaryProtoView {
                        schema: proto.schema,
                        partitioning: proto.partitioning,
                        input_stage: crate::codec::stage_proto_view(proto.input_stage),
                        equivalence_classes: proto.equivalence_classes,
                    },
                }
            },
            DistributedExecNode::Broadcast(proto) => DistributedExecNodeView::Broadcast(*proto),
            DistributedExecNode::Sampler(proto) => DistributedExecNodeView::Sampler(*proto),
        }
    }
}

impl View for DistributedExecProto {
    type V = Option<DistributedExecNodeView>;

    open spec fn view(&self) -> Option<DistributedExecNodeView> {
        match self.node {
            Some(node) => Some(node@),
            None => None,
        }
    }
}

/// What a message says of the worker of a task.
#[derive(Debug)]
pub enum TaskUrl {
    Missing,
    Invalid,
    Parsed(String),
}

/// The mathematical view of a [`TaskUrl`].
#[verifier::ext_equal]
pub enum TaskUrlView {
    Missing,
    Invalid,
    Parsed(Seq<char>),
}

impl View for TaskUrl {
    type V = TaskUrlView;

    open spec fn view(&self) -> TaskUrlView {
        match self {
            TaskUrl::Missing => TaskUrlView::Missing,
            TaskUrl::Invalid => TaskUrlView::Invalid,
            TaskUrl::Parsed(url) => TaskUrlView::Parsed(url@),
        }
    }
}

/// What the text of a task's URL, if there is one, stands for.
pub open spec fn task_url(text: Option<Seq<char>>) -> TaskUrlView {
    match text {
        None => TaskUrlView::Missing,
        Some(text) => match crate::ids::parsed_url(text) {
            None => TaskUrlView::Invalid,
            Some(url) => TaskUrlView::Parsed(url),
        },
    }
}

/// The workers of a remote stage. The first task without a usable URL decides the error.
pub open spec fn workers_of(urls: Seq<TaskUrlView>) -> Result<Seq<Seq<char>>, DistributedErrorView>
    decreases urls.len(),
{
    if urls.len() == 0 {
        Ok(Seq::empty())
    } else {
        match workers_of(urls.drop_last()) {
            Err(error) => Err(error),
            Ok(workers) => match urls.last() {
                TaskUrlView::Missing => Err(ErrorKind::MissingUrl.plain()),
                TaskUrlView::Invalid => Err(ErrorKind::InvalidUrl.plain()),
                TaskUrlView::Parsed(url) => Ok(workers.push(url)),
            },
        }
    }
}

/// The remote stage with these workers. Bad workers are reported before a bad query id.
pub open spec fn remote_stage_of(query_id: Seq<u8>, num: u64, urls: Seq<TaskUrlView>) -> Result<
    StageView,
    DistributedErrorView,
> {
    match workers_of(urls) {
        Err(error) => Err(error),
        Ok(workers) => if query_id.len() == 16 {
            Ok(
                StageView::Remote {
                    query_id: crate::ids::uuid_of(query_id),
                    num: num as usize,
                    workers,
                },
            )
        } else {
            Err((ErrorKind::InvalidUuid { len: query_id.len() as usize }).plain())
        },
    }
}

/// The stage that a message describes: a local one where the plan of the stage came along,
/// otherwise a remote one.
pub open spec fn stage_of(proto: Option<StageProtoView>, has_input: bool) -> Result<
    StageView,
    DistributedErrorView,
> {
    match proto {
        None => Err(ErrorKind::EmptyStage.plain()),
        Some(proto) => if has_input {
            if proto.query_id.len() == 16 {
                Ok(
                    StageView::Local {
                        query_id: crate::ids::uuid_of(proto.query_id),
                        num: proto.num as usize,
                        tasks: proto.tasks.len() as usize,
                    },
                )
            } else {
                Err((ErrorKind::InvalidUuid { len: proto.query_id.len() as usize }).plain())
            }
        } else {
            remote_stage_of(
                proto.query_id,
                proto.num,
                proto.tasks.map_values(|task: Option<Seq<char>>| task_url(task)),
            )
        },
    }
}

/// The partitioning under which a shuffle hands its rows on. Consumers of a range shuffle read one
/// range each.
pub open spec fn shuffle_output(partitioning: Partitioning) -> Partitioning {
    match partitioning {
        Partitioning::Range(..) => Partitioning::UnknownPartitioning(1),
        _ => partitioning,
    }
}

/// An ordering without terms orders nothing.
pub open spec fn meaningful(ordering: Option<Arc<Vec<SortExpr>>>) -> Option<Arc<Vec<SortExpr>>> {
    match ordering {
        Some(terms) if terms@.len() > 0 => ordering,
        _ => None,
    }
}

/// What a message about a network boundary says, once its schema, its partitioning and its stage
/// have been found in it, looked for in this order.
pub open spec fn boundary_of(
    boundary: BoundaryProtoView,
    ordering: Option<Arc<Vec<SortExpr>>>,
    name: Seq<char>,
    has_input: bool,
) -> Result<(Partitioning, StageView, Properties), DistributedErrorView> {
    match boundary.schema {
        None => Err(ErrorKind::MissingSchema.about(name)),
        Some(schema) => match boundary.partitioning {
            None => Err(ErrorKind::MissingPartitioning.about(name)),
            Some(partitioning) => match stage_of(boundary.input_stage, has_input) {
                Err(error) => Err(error),
                Ok(stage) => Ok(
                    (
                        partitioning,
                        stage,
                        Properties {
                            schema,
                            equivalences: boundary.equivalence_classes,
                            ordering: meaningful(ordering),
                        },
                    ),
                ),
            },
        },
    }
}

/// The child of a network boundary: the plan of its stage where the stage is local.
pub open spec fn stage_children(stage: StageView, inputs: Seq<PlanView>) -> Seq<PlanView> {
    match stage {
        StageView::Local { .. } => seq![inputs[0]],
        StageView::Remote { .. } => Seq::empty(),
    }
}

pub open spec fn task_idx_map_of(map: Seq<Seq<ChildIdxWithTaskContextProto>>) -> Seq<
    Seq<(usize, DistributedTaskContext)>,
> {
    map.map_values(
        |entry: Seq<ChildIdxWithTaskContextProto>|
            entry.map_values(|proto: ChildIdxWithTaskContextProto| child_ctx_of(proto)),
    )
}

pub open spec fn child_ctx_of(proto: ChildIdxWithTaskContextProto) -> (
    usize,
    DistributedTaskContext,
) {
    (
        proto.child_idx as usize,
        DistributedTaskContext {
            task_index: proto.task_idx as usize,
            task_count: proto.task_count as usize,
        },
    )
}

pub open spec fn child_weight_of(proto: ChildWeightProto) -> ChildWeight {
    ChildWeight {
        weight_bits: proto.weight_bits,
        max: match proto.max {
            Some(max) => Some(max as usize),
            None => None,
        },
    }
}

/// The plan that a message and the plans that travelled beside it stand for.
pub open spec fn decoded(proto: Option<DistributedExecNodeView>, inputs: Seq<PlanView>) -> Result<
    PlanView,
    DistributedErrorView,
> {
    let has_input = inputs.len() > 0;
    match proto {
        None => Err(ErrorKind::MissingNode.plain()),
        Some(DistributedExecNodeView::NetworkHashShuffle { boundary, ordering }) => {
            match boundary_of(boundary, ordering, "NetworkShuffleExec"@, has_input) {
                Err(error) => Err(error),
                Ok((partitioning, stage, properties)) => Ok(
                    crate::plan::new_node(
                        OperatorView::NetworkShuffle {
                            stage,
                            partitioning,
                            output: shuffle_output(partitioning),
                            properties: Some(Arc::new(properties)),
                        },
                        stage_children(stage, inputs),
                    ),
                ),
            }
        },
        Some(DistributedExecNodeView::NetworkCoalesceTasks { boundary, consumer_tasks }) => {
            match boundary_of(boundary, None, "NetworkCoalesceExec"@, has_input) {
                Err(error) => Err(error),
                Ok((partitioning, stage, properties)) => Ok(
                    crate::plan::new_node(
                        OperatorView::NetworkCoalesce {
                            stage,
                            output: partitioning,
                            consumer_tasks: if consumer_tasks == 0 {
                                1
                            } else {
                                consumer_tasks as usize
                            },
                            properties: Some(Arc::new(properties)),
                        },
                        stage_children(stage, inputs),
                    ),
                ),
            }
        },
        Some(DistributedExecNodeView::NetworkBroadcast { boundary }) => {
            match boundary_of(boundary, None, "NetworkBroadcastExec"@, has_input) {
                Err(error) => Err(error),
                Ok((partitioning, stage, properties)) => Ok(
                    crate::plan::new_node(
                        OperatorView::NetworkBroadcast {
                            stage,
                            output: partitioning,
                            properties: Some(Arc::new(properties)),
                        },
                        stage_children(stage, inputs),
                    ),
                ),
            }
        },
        Some(DistributedExecNodeView::Broadcast(proto)) => if inputs.len() == 1 {
            Ok(
                crate::plan::new_node(
                    OperatorView::Broadcast { consumer_tasks: proto.consumer_task_count as usize },
                    inputs,
                ),
            )
        } else {
            Err((ErrorKind::BroadcastExpectsOneChild { got: inputs.len() as usize }).plain())
        },
        Some(
            DistributedExecNodeView::ChildrenIsolatorUnion {
                partition_count,
                task_idx_map,
                child_weights,
            },
        ) => if inputs.len() > 0 {
            Ok(
                crate::plan::new_node(
                    OperatorView::ChildrenIsolatorUnion {
                        partitions: partition_count as usize,
                        weights: child_weights.map_values(
                            |weight: ChildWeightProto| child_weight_of(weight),
                        ),
                        task_idx_map: task_idx_map_of(task_idx_map),
                    },
                    inputs,
                ),
            )
        } else {
            Err(ErrorKind::UnionWithoutInputs.plain())
        },
        Some(DistributedExecNodeView::Sampler(_)) => if inputs.len() == 1 {
            Ok(crate::plan::new_node(OperatorView::Sampler, inputs))
        } else {
            Err((ErrorKind::ExpectedOneChild { got: inputs.len() as usize }).plain())
        },
    }
}

/// Reads the URLs of the tasks of a stage.
fn task_urls(tasks: &Vec<ExecutionTaskProto>) -> (result: Vec<TaskUrl>)
    ensures
        result@.map_values(|url: TaskUrl| url@) =~= tasks@.map_values(
            |task: ExecutionTaskProto| task@,
        ).map_values(|task: Option<Seq<char>>| task_url(task)),
{
    let mut result: Vec<TaskUrl> = Vec::new();
    let mut i: usize = 0;
    while i < tasks.len()
        invariant
            0 <= i <= tasks@.len(),
            result@.len() == i,
            forall|j: int| 0 <= j < i ==> (#[trigger] result@[j])@ == task_url(tasks@[j]@),
        decreases tasks@.len() - i,
    {
        let url = match &tasks[i].url_str {
            None => TaskUrl::Missing,
            Some(text) => match parse_url(text.as_str()) {
                None => TaskUrl::Invalid,
                Some(url) => TaskUrl::Parsed(url),
            },
        };
        result.push(url);
        i += 1;
    }
    result
}

/// The remote stage of a message, given what its task URLs stand for.
pub fn remote_stage(query_id: &Vec<u8>, num: u64, urls: Vec<TaskUrl>) -> (result: Result<
    Stage,
    DistributedError,
>)
    ensures
        crate::error::viewed(result) == remote_stage_of(
            query_id@,
            num,
            urls@.map_values(|url: TaskUrl| url@),
        ),
{
    let ghost all = urls@.map_values(|url: TaskUrl| url@);
    let mut workers: Vec<String> = Vec::new();
    let mut i: usize = 0;
    proof {
        assert(all.take(0) =~= Seq::<TaskUrlView>::empty());
        assert(workers@.map_values(|worker: String| worker@) =~= Seq::<Seq<char>>::empty());
    }
    while i < urls.len()
        invariant
            0 <= i <= urls@.len(),
            all == urls@.map_values(|url: TaskUrl| url@),
            workers_of(all.take(i as int)) == Ok::<_, DistributedErrorView>(
                workers@.map_values(|worker: String| worker@),
            ),
        decreases urls@.len() - i,
    {
        proof {
            assert(all.take(i + 1).drop_last() =~= all.take(i as int));
            assert(all[i as int] == urls@[i as int]@);
        }
        match &urls[i] {
            TaskUrl::Missing => {
                proof {
                    workers_error_is_final(all, i + 1);
                }
                return Err(DistributedError::new(ErrorKind::MissingUrl));
            },
            TaskUrl::Invalid => {
                proof {
                    workers_error_is_final(all, i + 1);
                }
                return Err(DistributedError::new(ErrorKind::InvalidUrl));
            },
            TaskUrl::Parsed(url) => {
                let ghost before = workers@;
                workers.push(url.clone());
                proof {
                    assert(workers@.map_values(|worker: String| worker@) =~= before.map_values(
                        |worker: String| worker@,
                    ).push(url@));
                }
            },
        }
        i += 1;
    }
    proof {
        assert(all.take(i as int) =~= all);
    }
    let query_id = deserialize_uuid(query_id.as_slice())?;
    Ok(Stage::Remote { query_id, num: num as usize, workers })
}

/// A task without a usable URL spoils every stage that begins with the same tasks.
proof fn workers_error_is_final(urls: Seq<TaskUrlView>, upto: int)
    requires
        0 <= upto <= urls.len(),
        workers_of(urls.take(upto)) is Err,
    ensures
        workers_of(urls) == workers_of(urls.take(upto)),
    decreases urls.len() - upto,
{
    if upto == urls.len() {
        assert(urls.take(upto) =~= urls);
    } else {
        assert(urls.take(upto + 1).drop_last() =~= urls.take(upto));
        workers_error_is_final(urls, upto + 1);
    }
}

/// Reads the stage that feeds a network boundary.
fn parse_stage_proto(proto: &Option<StageProto>, inputs: &Vec<Arc<Plan>>) -> (result: Result<
    Stage,
    DistributedError,
>)
    ensures
        crate::error::viewed(result) == stage_of(stage_proto_view(*proto), inputs@.len() > 0),
{
    let proto = match proto {
        None => {
            return Err(DistributedError::new(ErrorKind::EmptyStage));
        },
        Some(proto) => proto,
    };
    if inputs.len() > 0 {
        let query_id = deserialize_uuid(proto.query_id.as_slice())?;
        Ok(Stage::Local { query_id, num: proto.num as usize, tasks: proto.tasks.len() })
    } else {
        remote_stage(&proto.query_id, proto.num, task_urls(&proto.tasks))
    }
}

/// The parts of a message about a network boundary.
struct DecodedBoundary {
    partitioning: Partitioning,
    stage: Stage,
    properties: Arc<Properties>,
}

fn share_option<T>(value: &Option<Arc<T>>) -> (result: Option<Arc<T>>)
    ensures
        result == *value,
{
    match value {
        Some(value) => Some(Arc::clone(value)),
        None => None,
    }
}

/// Reads what all network boundaries have in common.
fn decode_boundary(
    schema: &Option<Arc<Schema>>,
    partitioning: &Option<Partitioning>,
    input_stage: &Option<StageProto>,
    equivalence_classes: &Option<Arc<Vec<Vec<Expr>>>>,
    ordering: Option<Arc<Vec<SortExpr>>>,
    name: &str,
    inputs: &Vec<Arc<Plan>>,
) -> (result: Result<DecodedBoundary, DistributedError>)
    ensures
        ({
            let expected = boundary_of(
                BoundaryProtoView {
                    schema: *schema,
                    partitioning: *partitioning,
                    input_stage: stage_proto_view(*input_stage),
                    equivalence_classes: *equivalence_classes,
                },
                ordering,
                name@,
                inputs@.len() > 0,
            );
            match result {
                Ok(boundary) => expected == Ok::<_, DistributedErrorView>(
                    (boundary.partitioning, boundary.stage@, *boundary.properties),
                ),
                Err(error) => expected == Err::<(Partitioning, StageView, Properties), _>(error@),
            }
        }),
{
    let schema = match schema {
        None => {
            return Err(DistributedError::about(ErrorKind::MissingSchema, name.to_owned()));
        },
        Some(schema) => Arc::clone(schema),
    };
    let partitioning = match partitioning {
        None => {
            return Err(DistributedError::about(ErrorKind::MissingPartitioning, name.to_owned()));
        },
        Some(partitioning) => partitioning.share(),
    };
    let stage = parse_stage_proto(input_stage, inputs)?;
    let ordering = match ordering {
        Some(terms) => if terms.len() > 0 {
            Some(terms)
        } else {
            None
        },
        None => None,
    };
    let properties = Arc::new(
        Properties { schema, equivalences: share_option(equivalence_classes), ordering },
    );
    Ok(DecodedBoundary { partitioning, stage, properties })
}

/// The children of a network boundary fed by this stage.
fn boundary_children(stage: &Stage, inputs: &Vec<Arc<Plan>>) -> (result: Vec<Arc<Plan>>)
    requires
        stage@ is Local ==> inputs@.len() > 0,
    ensures
        crate::plan::views(result@) =~= stage_children(stage@, crate::plan::views(inputs@)),
{
    let mut result: Vec<Arc<Plan>> = Vec::new();
    match stage {
        Stage::Local { .. } => {
            result.push(Arc::clone(&inputs[0]));
        },
        Stage::Remote { .. } => {},
    }
    result
}

fn decode_task_idx_map(map: &Vec<TaskIdxMapEntryProto>) -> (result: Vec<
    Vec<(usize, DistributedTaskContext)>,
>)
    ensures
        result@.map_values(|entry: Vec<(usize, DistributedTaskContext)>| entry@) =~= task_idx_map_of(
            map@.map_values(|entry: TaskIdxMapEntryProto| entry.child_ctx@),
        ),
{
    let mut result: Vec<Vec<(usize, DistributedTaskContext)>> = Vec::new();
    let mut i: usize = 0;
    while i < map.len()
        invariant
            0 <= i <= map@.len(),
            result@.len() == i,
            forall|j: int|
                0 <= j < i ==> (#[trigger] result@[j])@ =~= map@[j].child_ctx@.map_values(
                    |proto: ChildIdxWithTaskContextProto| child_ctx_of(proto),
                ),
        decreases map@.len() - i,
    {
        let protos = &map[i].child_ctx;
        let mut entry: Vec<(usize, DistributedTaskContext)> = Vec::new();
        let mut k: usize = 0;
        while k < protos.len()
            invariant
                0 <= k <= protos@.len(),
                entry@.len() == k,
                forall|j: int| 0 <= j < k ==> #[trigger] entry@[j] == child_ctx_of(protos@[j]),
            decreases protos@.len() - k,
        {
            let proto = protos[k];
            entry.push(
                (
                    proto.child_idx as usize,
                    DistributedTaskContext {
                        task_index: proto.task_idx as usize,
                        task_count: proto.task_count as usize,
                    },
                ),
            );
            k += 1;
        }
        result.push(entry);
        i += 1;
    }
    result
}

fn decode_child_weights(weights: &Vec<ChildWeightProto>) -> (result: Vec<ChildWeight>)
    ensures
        result@ =~= weights@.map_values(|weight: ChildWeightProto| child_weight_of(weight)),
{
    let mut result: Vec<ChildWeight> = Vec::new();
    let mut i: usize = 0;
    while i < weights.len()
        invariant
            0 <= i <= weights@.len(),
            result@.len() == i,
            forall|j: int| 0 <= j < i ==> #[trigger] result@[j] == child_weight_of(weights@[j]),
        decreases weights@.len() - i,
    {
        let proto = weights[i];
        let max = match proto.max {
            Some(max) => Some(max as usize),
            None => None,
        };
        result.push(ChildWeight { weight_bits: proto.weight_bits, max });
        i += 1;
    }
    result
}

/// A network shuffle that repartitions like `partitioning`.
fn new_network_hash_shuffle_exec(
    partitioning: Partitioning,
    properties: Arc<Properties>,
    stage: Stage,
    children: Vec<Arc<Plan>>,
) -> (result: Arc<Plan>)
    ensures
        result@ == crate::plan::new_node(
            OperatorView::NetworkShuffle {
                stage: stage@,
                partitioning,
                output: shuffle_output(partitioning),
                properties: Some(properties),
            },
            crate::plan::views(children@),
        ),
{
    let output = match &partitioning {
        Partitioning::Range(..) => Partitioning::UnknownPartitioning(1),
        _ => partitioning.share(),
    };
    Plan::node(
        Operator::NetworkShuffle { stage, partitioning, output, properties: Some(properties) },
        children,
    )
}

/// A network coalesce with this output partitioning, for this many consumer tasks.
fn new_network_coalesce_tasks_exec(
    partitioning: Partitioning,
    properties: Arc<Properties>,
    stage: Stage,
    consumer_tasks: usize,
    children: Vec<Arc<Plan>>,
) -> (result: Arc<Plan>)
    ensures
        result@ == crate::plan::new_node(
            OperatorView::NetworkCoalesce {
                stage: stage@,
                output: partitioning,
                consumer_tasks,
                properties: Some(properties),
            },
            crate::plan::views(children@),
        ),
{
    Plan::node(
        Operator::NetworkCoalesce {
            stage,
            output: partitioning,
            consumer_tasks,
            properties: Some(properties),
        },
        children,
    )
}

/// A network broadcast with this output partitioning.
fn new_network_broadcast_exec(
    partitioning: Partitioning,
    properties: Arc<Properties>,
    stage: Stage,
    children: Vec<Arc<Plan>>,
) -> (result: Arc<Plan>)
    ensures
        result@ == crate::plan::new_node(
            OperatorView::NetworkBroadcast {
                stage: stage@,
                output: partitioning,
                properties: Some(properties),
            },
            crate::plan::views(children@),
        ),
{
    Plan::node(
        Operator::NetworkBroadcast { stage, output: partitioning, properties: Some(properties) },
        children,
    )
}

impl DistributedCodec {
    /// The plan that a message and the plans that travelled beside it stand for.
    pub fn try_decode(&self, proto: &DistributedExecProto, inputs: &Vec<Arc<Plan>>) -> (result:
        Result<Arc<Plan>, DistributedError>)
        ensures
            crate::error::viewed(result) == decoded(proto@, crate::plan::views(inputs@)),
    {
        let node = match &proto.node {
            None => {
                return Err(DistributedError::new(ErrorKind::MissingNode));
            },
            Some(node) => node,
        };
        match node {
            DistributedExecNode::NetworkHashShuffle(proto) => {
                let boundary = decode_boundary(
                    &proto.schema,
                    &proto.partitioning,
                    &proto.input_stage,
                    &proto.equivalence_classes,
                    share_option(&proto.ordering),
                    "NetworkShuffleExec",
                    inputs,
                )?;
                let children = boundary_children(&boundary.stage, inputs);
                Ok(
                    new_network_hash_shuffle_exec(
                        boundary.partitioning,
                        boundary.properties,
                        boundary.stage,
                        children,
                    ),
                )
            },
            DistributedExecNode::NetworkCoalesceTasks(proto) => {
                let boundary = decode_boundary(
                    &proto.schema,
                    &proto.partitioning,
                    &proto.input_stage,
                    &proto.equivalence_classes,
                    None,
                    "NetworkCoalesceExec",
                    inputs,
                )?;
                let consumer_tasks: usize = if proto.consumer_tasks == 0 {
                    1
                } else {
                    proto.consumer_tasks as usize
                };
                let children = boundary_children(&boundary.stage, inputs);
                Ok(
                    new_network_coalesce_tasks_exec(
                        boundary.partitioning,
                        boundary.properties,
                        boundary.stage,
                        consumer_tasks,
                        children,
                    ),
                )
            },
            DistributedExecNode::NetworkBroadcast(proto) => {
                let boundary = decode_boundary(
                    &proto.schema,
                    &proto.partitioning,
                    &proto.input_stage,
                    &proto.equivalence_classes,
                    None,
                    "NetworkBroadcastExec",
                    inputs,
                )?;
                let children = boundary_children(&boundary.stage, inputs);
                Ok(
                    new_network_broadcast_exec(
                        boundary.partitioning,
                        boundary.properties,
                        boundary.stage,
                        children,
                    ),
                )
            },
            DistributedExecNode::Broadcast(proto) => {
                if inputs.len() != 1 {
                    return Err(
                        DistributedError::new(
                            ErrorKind::BroadcastExpectsOneChild { got: inputs.len() },
                        ),
                    );
                }
                Ok(
                    Plan::node(
                        Operator::Broadcast { consumer_tasks: proto.consumer_task_count as usize },
                        share_all(inputs),
                    ),
                )
            },
            DistributedExecNode::ChildrenIsolatorUnion(proto) => {
                if inputs.len() == 0 {
                    return Err(DistributedError::new(ErrorKind::UnionWithoutInputs));
                }
                Ok(
                    Plan::node(
                        Operator::ChildrenIsolatorUnion {
                            partitions: proto.partition_count as usize,
                            weights: decode_child_weights(&proto.child_weights),
                            task_idx_map: decode_task_idx_map(&proto.task_idx_map),
                        },
                        share_all(inputs),
                    ),
                )
            },
            DistributedExecNode::Sampler(_) => {
                let child = require_one_child(inputs)?;
                let mut children: Vec<Arc<Plan>> = Vec::new();
                children.push(child);
                proof {
                    assert(children@ =~= inputs@);
                }
                Ok(Plan::node(Operator::Sampler, children))
            },
        }
    }
}

/// The message for a stage. The tasks of a local stage have no worker yet.
pub open spec fn stage_message(stage: StageView) -> StageProtoView {
    match stage {
        StageView::Local { query_id, num, tasks } => StageProtoView {
            query_id: query_id.bytes@,
            num: num as u64,
            tasks: Seq::new(tasks as nat, |i: int| None::<Seq<char>>),
        },
        StageView::Remote { query_id, num, workers } => StageProtoView {
            query_id: query_id.bytes@,
            num: num as u64,
            tasks: workers.map_values(|worker: Seq<char>| Some(worker)),
        },
    }
}

/// What the messages for all network boundaries have in common.
pub open spec fn boundary_message(
    stage: StageView,
    partitioning: Partitioning,
    properties: Option<Arc<Properties>>,
) -> BoundaryProtoView {
    BoundaryProtoView {
        schema: match properties {
            Some(properties) => Some(properties.schema),
            None => None,
        },
        partitioning: Some(partitioning),
        input_stage: Some(stage_message(stage)),
        equivalence_classes: match properties {
            Some(properties) => properties.equivalences,
            None => None,
        },
    }
}

pub open spec fn ordering_message(properties: Option<Arc<Properties>>) -> Option<
    Arc<Vec<SortExpr>>,
> {
    match properties {
        Some(properties) => properties.ordering,
        None => None,
    }
}

pub open spec fn child_ctx_message(ctx: (usize, DistributedTaskContext)) -> ChildIdxWithTaskContextProto {
    ChildIdxWithTaskContextProto {
        child_idx: ctx.0 as u64,
        task_idx: ctx.1.task_index as u64,
        task_count: ctx.1.task_count as u64,
    }
}

pub open spec fn task_idx_map_message(map: Seq<Seq<(usize, DistributedTaskContext)>>) -> Seq<
    Seq<ChildIdxWithTaskContextProto>,
> {
    map.map_values(
        |entry: Seq<(usize, DistributedTaskContext)>|
            entry.map_values(|ctx: (usize, DistributedTaskContext)| child_ctx_message(ctx)),
    )
}

pub open spec fn child_weight_message(weight: ChildWeight) -> ChildWeightProto {
    ChildWeightProto {
        weight_bits: weight.weight_bits,
        max: match weight.max {
            Some(max) => Some(max as u64),
            None => None,
        },
    }
}

/// The message for a node with this operator. Only the nodes that distribution adds have one.
pub open spec fn encoded(op: OperatorView) -> Result<DistributedExecNodeView, DistributedErrorView> {
    match op {
        OperatorView::NetworkShuffle { stage, partitioning, output, properties } => Ok(
            DistributedExecNodeView::NetworkHashShuffle {
                boundary: boundary_message(stage, partitioning, properties),
                ordering: ordering_message(properties),
            },
        ),
        OperatorView::NetworkCoalesce { stage, output, consumer_tasks, properties } => Ok(
            DistributedExecNodeView::NetworkCoalesceTasks {
                boundary: boundary_message(stage, output, properties),
                consumer_tasks: consumer_tasks as u64,
            },
        ),
        OperatorView::NetworkBroadcast { stage, output, properties } => Ok(
            DistributedExecNodeView::NetworkBroadcast {
                boundary: boundary_message(stage, output, properties),
            },
        ),
        OperatorView::Broadcast { consumer_tasks } => Ok(
            DistributedExecNodeView::Broadcast(
                BroadcastExecProto { consumer_task_count: consumer_tasks as u64 },
            ),
        ),
        OperatorView::ChildrenIsolatorUnion { partitions, weights, task_idx_map } => Ok(
            DistributedExecNodeView::ChildrenIsolatorUnion {
                partition_count: partitions as u64,
                task_idx_map: task_idx_map_message(task_idx_map),
                child_weights: weights.map_values(|weight: ChildWeight| child_weight_message(weight)),
            },
        ),
        OperatorView::Sampler => Ok(DistributedExecNodeView::Sampler(SamplerExecProto {  })),
        _ => Err(ErrorKind::UnexpectedPlan.about(op.name())),
    }
}

fn encode_stage_proto(stage: &Stage) -> (result: StageProto)
    ensures
        result@ == stage_message(stage@),
{
    let mut tasks: Vec<ExecutionTaskProto> = Vec::new();
    match stage {
        Stage::Local { query_id, num, tasks: count } => {
            let mut i: usize = 0;
            while i < *count
                invariant
                    0 <= i <= *count,
                    tasks@.len() == i,
                    forall|j: int| 0 <= j < i ==> (#[trigger] tasks@[j])@ == None::<Seq<char>>,
                decreases *count - i,
            {
                tasks.push(ExecutionTaskProto { url_str: None });
                i += 1;
            }
            let result = StageProto { query_id: serialize_uuid(query_id), num: *num as u64, tasks };
            assert(result@.tasks =~= stage_message(stage@).tasks);
            result
        },
        Stage::Remote { query_id, num, workers } => {
            let mut i: usize = 0;
            while i < workers.len()
                invariant
                    0 <= i <= workers@.len(),
                    tasks@.len() == i,
                    forall|j: int| 0 <= j < i ==> (#[trigger] tasks@[j])@ == Some(workers@[j]@),
                decreases workers@.len() - i,
            {
                tasks.push(ExecutionTaskProto { url_str: Some(workers[i].clone()) });
                i += 1;
            }
            let result = StageProto { query_id: serialize_uuid(query_id), num: *num as u64, tasks };
            assert(result@.tasks =~= stage_message(stage@).tasks);
            result
        },
    }
}

fn encode_schema(properties: &Option<Arc<Properties>>) -> (result: Option<Arc<Schema>>)
    ensures
        result == (match *properties {
            Some(properties) => Some(properties.schema),
            None => None,
        }),
{
    match properties {
        Some(properties) => Some(Arc::clone(&properties.schema)),
        None => None,
    }
}

fn encode_equivalences(properties: &Option<Arc<Properties>>) -> (result: Option<
    Arc<Vec<Vec<Expr>>>,
>)
    ensures
        result == (match *properties {
            Some(properties) => properties.equivalences,
            None => None,
        }),
{
    match properties {
        Some(properties) => share_option(&properties.equivalences),
        None => None,
    }
}

fn encode_ordering(properties: &Option<Arc<Properties>>) -> (result: Option<Arc<Vec<SortExpr>>>)
    ensures
        result == ordering_message(*properties),
{
    match properties {
        Some(properties) => share_option(&properties.ordering),
        None => None,
    }
}

fn encode_task_idx_map(map: &Vec<Vec<(usize, DistributedTaskContext)>>) -> (result: Vec<
    TaskIdxMapEntryProto,
>)
    ensures
        result@.map_values(|entry: TaskIdxMapEntryProto| entry.child_ctx@) =~= task_idx_map_message(
            map@.map_values(|entry: Vec<(usize, DistributedTaskContext)>| entry@),
        ),
{
    let mut result: Vec<TaskIdxMapEntryProto> = Vec::new();
    let mut i: usize = 0;
    while i < map.len()
        invariant
            0 <= i <= map@.len(),
            result@.len() == i,
            forall|j: int|
                0 <= j < i ==> (#[trigger] result@[j]).child_ctx@ =~= map@[j]@.map_values(
                    |ctx: (usize, DistributedTaskContext)| child_ctx_message(ctx),
                ),
        decreases map@.len() - i,
    {
        let entry = &map[i];
        let mut child_ctx: Vec<ChildIdxWithTaskContextProto> = Vec::new();
        let mut k: usize = 0;
        while k < entry.len()
            invariant
                0 <= k <= entry@.len(),
                child_ctx@.len() == k,
                forall|j: int|
                    0 <= j < k ==> #[trigger] child_ctx@[j] == child_ctx_message(entry@[j]),
            decreases entry@.len() - k,
        {
            let (child_idx, ctx) = entry[k];
            child_ctx.push(
                ChildIdxWithTaskContextProto {
                    child_idx: child_idx as u64,
                    task_idx: ctx.task_index as u64,
                    task_count: ctx.task_count as u64,
                },
            );
            k += 1;
        }
        result.push(TaskIdxMapEntryProto { child_ctx });
        i += 1;
    }
    result
}

fn encode_child_weights(weights: &Vec<ChildWeight>) -> (result: Vec<ChildWeightProto>)
    ensures
        result@ =~= weights@.map_values(|weight: ChildWeight| child_weight_message(weight)),
{
    let mut result: Vec<ChildWeightProto> = Vec::new();
    let mut i: usize = 0;
    while i < weights.len()
        invariant
            0 <= i <= weights@.len(),
            result@.len() == i,
            forall|j: int|
                0 <= j < i ==> #[trigger] result@[j] == child_weight_message(weights@[j]),
        decreases weights@.len() - i,
    {
        let weight = weights[i];
        let max = match weight.max {
            Some(max) => Some(max as u64),
            None => None,
        };
        result.push(ChildWeightProto { weight_bits: weight.weight_bits, max });
        i += 1;
    }
    result
}

impl DistributedCodec {
    /// The message for a node. Its children travel beside the message. Only the nodes that
    /// distribution adds to a plan have one.
    pub fn try_encode(&self, node: &Plan) -> (result: Result<
        DistributedExecProto,
        DistributedError,
    >)
        ensures
            match result {
                Ok(proto) => proto.node is Some && encoded(node@.op) == Ok::<
                    _,
                    DistributedErrorView,
                >(proto@->Some_0),
                Err(error) => encoded(node@.op) == Err::<DistributedExecNodeView, _>(error@),
            },
    {
        let inner = match &*node.op {
            Operator::NetworkShuffle { stage, partitioning, output: _, properties } => {
                DistributedExecNode::NetworkHashShuffle(
                    NetworkShuffleExecProto {
                        schema: encode_schema(properties),
                        partitioning: Some(partitioning.share()),
                        input_stage: Some(encode_stage_proto(stage)),
                        equivalence_classes: encode_equivalences(properties),
                        ordering: encode_ordering(properties),
                    },
                )
            },
            Operator::NetworkCoalesce { stage, output, consumer_tasks, properties } => {
                DistributedExecNode::NetworkCoalesceTasks(
                    NetworkCoalesceExecProto {
                        schema: encode_schema(properties),
                        partitioning: Some(output.share()),
                        input_stage: Some(encode_stage_proto(stage)),
                        equivalence_classes: encode_equivalences(properties),
                        consumer_tasks: *consumer_tasks as u64,
                    },
                )
            },
            Operator::NetworkBroadcast { stage, output, properties } => {
                DistributedExecNode::NetworkBroadcast(
                    NetworkBroadcastExecProto {
                        schema: encode_schema(properties),
                        partitioning: Some(output.share()),
                        input_stage: Some(encode_stage_proto(stage)),
                        equivalence_classes: encode_equivalences(properties),
                    },
                )
            },
            Operator::Broadcast { consumer_tasks } => {
                DistributedExecNode::Broadcast(
                    BroadcastExecProto { consumer_task_count: *consumer_tasks as u64 },
                )
            },
            Operator::ChildrenIsolatorUnion { partitions, weights, task_idx_map } => {
                DistributedExecNode::ChildrenIsolatorUnion(
                    ChildrenIsolatorUnionExecProto {
                        partition_count: *partitions as u64,
                        task_idx_map: encode_task_idx_map(task_idx_map),
                        child_weights: encode_child_weights(weights),
                    },
                )
            },
            Operator::Sampler => DistributedExecNode::Sampler(SamplerExecProto {  }),
            _ => {
                return Err(DistributedError::about(ErrorKind::UnexpectedPlan, node.op.name()));
            },
        };
        Ok(DistributedExecProto { node: Some(inner) })
    }
}

/// Whether the stage of a network boundary can be rebuilt from its message and the children of the
/// boundary: a local stage has its plan as only child, a remote one has no child and the URLs of
/// its workers are in normal form.
pub open spec fn stage_travels(stage: StageView, children: Seq<PlanView>) -> bool {
    match stage {
        StageView::Local { .. } => children.len() == 1,
        StageView::Remote { workers, .. } => children.len() == 0 && forall|i: int|
            0 <= i < workers.len() ==> crate::ids::parsed_url(#[trigger] workers[i]) == Some(
                workers[i],
            ),
    }
}

/// Whether the properties of a network boundary can be rebuilt from its message. Only the message
/// for a shuffle carries an ordering.
pub open spec fn properties_travel(properties: Option<Arc<Properties>>, is_shuffle: bool) -> bool {
    properties matches Some(properties) && match properties.ordering {
        Some(terms) => is_shuffle && terms@.len() > 0,
        None => true,
    }
}

/// Whether a node is of the kind that crosses the wire unchanged.
pub open spec fn travels(plan: PlanView) -> bool {
    match plan.op {
        OperatorView::NetworkShuffle { stage, partitioning, output, properties } => {
            &&& stage_travels(stage, plan.children)
            &&& output == shuffle_output(partitioning)
            &&& properties_travel(properties, true)
        },
        OperatorView::NetworkCoalesce { stage, output, consumer_tasks, properties } => {
            &&& stage_travels(stage, plan.children)
            &&& consumer_tasks >= 1
            &&& properties_travel(properties, false)
        },
        OperatorView::NetworkBroadcast { stage, output, properties } => {
            &&& stage_travels(stage, plan.children)
            &&& properties_travel(properties, false)
        },
        OperatorView::Broadcast { .. } => plan.children.len() == 1,
        OperatorView::ChildrenIsolatorUnion { .. } => plan.children.len() >= 1,
        OperatorView::Sampler => plan.children.len() == 1,
        _ => false,
    }
}

proof fn workers_round_trip(workers: Seq<Seq<char>>)
    requires
        forall|i: int|
            0 <= i < workers.len() ==> crate::ids::parsed_url(#[trigger] workers[i]) == Some(
                workers[i],
            ),
    ensures
        workers_of(
            workers.map_values(|worker: Seq<char>| Some(worker)).map_values(
                |task: Option<Seq<char>>| task_url(task),
            ),
        ) == Ok::<_, DistributedErrorView>(workers),
    decreases workers.len(),
{
    let urls = workers.map_values(|worker: Seq<char>| Some(worker)).map_values(
        |task: Option<Seq<char>>| task_url(task),
    );
    if workers.len() > 0 {
        let shorter = workers.drop_last();
        workers_round_trip(shorter);
        assert(urls.drop_last() =~= shorter.map_values(
            |worker: Seq<char>| Some(worker),
        ).map_values(|task: Option<Seq<char>>| task_url(task)));
        assert(workers[workers.len() - 1] == workers.last());
        assert(urls.last() == TaskUrlView::Parsed(workers.last()));
        assert(shorter.push(workers.last()) =~= workers);
    } else {
        assert(workers =~= Seq::empty());
    }
}

proof fn stage_round_trip(stage: StageView, children: Seq<PlanView>)
    requires
        stage_travels(stage, children),
    ensures
        stage_of(Some(stage_message(stage)), children.len() > 0) == Ok::<_, DistributedErrorView>(
            stage,
        ),
        stage_children(stage, children) == children,
{
    crate::ids::uuid_of_its_bytes(stage.query_id());
    match stage {
        StageView::Local { query_id, num, tasks } => {
            assert(seq![children[0]] =~= children);
        },
        StageView::Remote { query_id, num, workers } => {
            workers_round_trip(workers);
            assert(Seq::<PlanView>::empty() =~= children);
        },
    }
}

/// A node that was encoded and is decoded next to its own children is the node that was encoded.
pub proof fn codec_round_trip(plan: PlanView)
    requires
        travels(plan),
    ensures
        encoded(plan.op) is Ok,
        decoded(Some(encoded(plan.op)->Ok_0), plan.children) == Ok::<_, DistributedErrorView>(
            crate::plan::new_node(plan.op, plan.children),
        ),
{
    match plan.op {
        OperatorView::NetworkShuffle { stage, .. } => {
            stage_round_trip(stage, plan.children);
        },
        OperatorView::NetworkCoalesce { stage, .. } => {
            stage_round_trip(stage, plan.children);
        },
        OperatorView::NetworkBroadcast { stage, .. } => {
            stage_round_trip(stage, plan.children);
        },
        OperatorView::ChildrenIsolatorUnion { partitions, weights, task_idx_map } => {
            assert(weights.map_values(|weight: ChildWeight| child_weight_message(weight)).map_values(
                |weight: ChildWeightProto| child_weight_of(weight),
            ) =~= weights);
            let back = task_idx_map_of(task_idx_map_message(task_idx_map));
            assert forall|t: int| 0 <= t < task_idx_map.len() implies back[t] =~= task_idx_map[t] by {
                assert forall|j: int| 0 <= j < task_idx_map[t].len() implies back[t][j]
                    == task_idx_map[t][j] by {
                    let ctx = task_idx_map[t][j];
                    assert(child_ctx_of(child_ctx_message(ctx)) == ctx);
                }
            }
            assert(back =~= task_idx_map);
        },
        _ => {},
    }
}

} // verus!
