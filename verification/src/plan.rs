use crate::error::{DistributedError, DistributedErrorView, ErrorKind};
use crate::ids::Uuid;
use crate::task_count::TaskCountAnnotation;
use std::sync::Arc;
use vstd::prelude::*;

verus! {

/// Which task of how many executes a plan.
#[derive(Clone, Copy, PartialEq, Eq, Debug, Structural)]
pub struct DistributedTaskContext {
    pub task_index: usize,
    pub task_count: usize,
}

/// How rows of the two sides of a join make it into the output.
#[derive(Clone, Copy, PartialEq, Eq, Debug, Structural)]
pub enum JoinType {
    Inner,
    Left,
    Right,
    Full,
    LeftSemi,
    RightSemi,
    LeftAnti,
    RightAnti,
    LeftMark,
    RightMark,
}

/// How a hash join reads its build side.
#[derive(Clone, Copy, PartialEq, Eq, Debug, Structural)]
pub enum PartitionMode {
    /// Every probe partition reads one copy of the whole build side.
    CollectLeft,
    /// Probe partition `i` reads build partition `i`.
    Partitioned,
    /// Not decided yet.
    Auto,
}

/// The part that an aggregation plays in a pipeline of aggregations.
#[derive(Clone, Copy, PartialEq, Eq, Debug, Structural)]
pub enum AggregateMode {
    Partial,
    PartialReduce,
    Final,
    FinalPartitioned,
    Single,
    SinglePartitioned,
}

/// An expression over the columns of a plan. The planner looks into column references only,
/// every other expression is carried in its encoded form.
#[derive(Debug)]
pub enum Expr {
    Column { name: String, index: usize },
    Encoded(Arc<Vec<u8>>),
}

/// One term of an ordering.
#[derive(Debug)]
pub struct SortExpr {
    pub expr: Expr,
    pub descending: bool,
    pub nulls_first: bool,
}

/// A column of a schema, with its data type in its textual form.
#[derive(Debug)]
pub struct Field {
    pub name: String,
    pub data_type: String,
    pub nullable: bool,
    /// What else is noted of the column, by key.
    pub metadata: Vec<(String, String)>,
}

/// The columns that a plan produces.
#[derive(Debug)]
pub struct Schema {
    pub fields: Vec<Field>,
    /// What else is noted of the columns as a whole, by key.
    pub metadata: Vec<(String, String)>,
}

/// The ranges that rows are cut into: the order of the rows, and the rows at which one range ends
/// and the next one begins, value by value in their encoded form.
#[derive(Debug)]
pub struct RangeBounds {
    pub ordering: Vec<SortExpr>,
    pub split_points: Vec<Vec<Vec<u8>>>,
}

/// How rows are spread over partitions.
#[derive(Debug)]
pub enum Partitioning {
    RoundRobinBatch(usize),
    /// Rows with equal values of these expressions share a partition.
    Hash(Arc<Vec<Expr>>, usize),
    /// Rows are cut into this many ranges, at as many of the split points as that takes.
    Range(Arc<RangeBounds>, usize),
    UnknownPartitioning(usize),
}

/// What is known of the rows that a network boundary hands to its consumers.
#[derive(Debug)]
pub struct Properties {
    pub schema: Arc<Schema>,
    /// Classes of expressions that are known to produce equal values, if any.
    pub equivalences: Option<Arc<Vec<Vec<Expr>>>>,
    /// The order in which rows come out of each partition, if any.
    pub ordering: Option<Arc<Vec<SortExpr>>>,
}

/// The stage that feeds a network boundary. The plan of a local stage is the child of the
/// boundary; that of a remote one has left for the workers.
#[derive(Debug)]
pub enum Stage {
    Local { query_id: Uuid, num: usize, tasks: usize },
    Remote { query_id: Uuid, num: usize, workers: Vec<String> },
}

/// The share of a stage's tasks that a child of a [`Operator::ChildrenIsolatorUnion`] asked for:
/// its relative weight, as the bit pattern of a double, and the number of tasks it cannot exceed.
#[derive(Clone, Copy, PartialEq, Eq, Debug, Structural)]
pub struct ChildWeight {
    pub weight_bits: u64,
    pub max: Option<usize>,
}

/// The grouping of an aggregation.
#[derive(Debug)]
pub struct GroupBy {
    pub exprs: Vec<(Expr, String)>,
    pub null_exprs: Vec<(Expr, String)>,
    pub groups: Arc<Vec<Vec<bool>>>,
    pub has_grouping_set: bool,
}

/// How many partitions an operator that the planner does not know produces.
#[derive(Clone, Copy, PartialEq, Eq, Debug, Structural)]
pub enum PartitionRule {
    /// As many as this.
    Fixed(usize),
    /// As many as the input with this index.
    Input(usize),
    /// As many as all its inputs together.
    AllInputs,
}

/// What a node of a plan does.
#[derive(Debug)]
#[allow(inconsistent_fields)]
pub enum Operator {
    /// A scan of a data source, with the partitioning that it reads the source in.
    Scan { name: String, partitioning: Partitioning },
    /// An operator that the planner carries along without looking into it.
    Other { name: String, partitions: PartitionRule },
    CoalescePartitions { fetch: Option<usize> },
    SortPreservingMerge,
    Sort { fetch: Option<usize>, preserve_partitioning: bool },
    Union,
    Repartition { partitioning: Partitioning },
    HashJoin {
        mode: PartitionMode,
        join_type: JoinType,
        null_aware: bool,
        left_keys: Arc<Vec<Expr>>,
        right_keys: Arc<Vec<Expr>>,
    },
    /// A join by an arbitrary condition. `has_projection` tells whether it picks the columns that it
    /// hands out itself.
    NestedLoopJoin { join_type: JoinType, has_projection: bool },
    CrossJoin,
    SortMergeJoin,
    SymmetricHashJoin,
    /// The projection that puts the columns of a join whose inputs were swapped back in the order
    /// that they had before the swap.
    RestoreColumnOrder,
    Aggregate {
        mode: AggregateMode,
        group_by: GroupBy,
        aggregates: Arc<Vec<Expr>>,
        filters: Arc<Vec<Option<Expr>>>,
        input_schema: Arc<Schema>,
    },
    WindowAgg,
    BoundedWindowAgg,
    /// Passes on this many rows of each partition at most.
    LocalLimit { fetch: usize },
    /// Replays its input for this many consumer tasks.
    Broadcast { consumer_tasks: usize },
    /// Measures the rows that flow through it.
    Sampler,
    /// A leaf with one variant per task, and with the partitioning that it had before.
    DistributedLeaf { partitioning: Partitioning },
    /// A union whose children run in tasks of their own. Entry `t` of the map lists the children
    /// that task `t` executes, each with the context in which the child sees itself.
    ChildrenIsolatorUnion {
        partitions: usize,
        weights: Vec<ChildWeight>,
        task_idx_map: Vec<Vec<(usize, DistributedTaskContext)>>,
    },
    NetworkShuffle {
        stage: Stage,
        partitioning: Partitioning,
        output: Partitioning,
        properties: Option<Arc<Properties>>,
    },
    NetworkCoalesce {
        stage: Stage,
        output: Partitioning,
        consumer_tasks: usize,
        properties: Option<Arc<Properties>>,
    },
    NetworkBroadcast {
        stage: Stage,
        output: Partitioning,
        properties: Option<Arc<Properties>>,
    },
    /// The root of a distributed plan, which gathers the metrics of its workers or does not.
    DistributedExec { collect_metrics: bool },
}

/// The mathematical view of a [`Stage`].
#[verifier::ext_equal]
pub enum StageView {
    Local { query_id: Uuid, num: usize, tasks: usize },
    Remote { query_id: Uuid, num: usize, workers: Seq<Seq<char>> },
}

/// The mathematical view of an [`Expr`].
#[verifier::ext_equal]
pub enum ExprView {
    Column { name: Seq<char>, index: usize },
    Encoded(Seq<u8>),
}

/// The mathematical view of a [`GroupBy`].
#[verifier::ext_equal]
pub struct GroupByView {
    pub exprs: Seq<(ExprView, Seq<char>)>,
    pub null_exprs: Seq<(ExprView, Seq<char>)>,
    pub groups: Arc<Vec<Vec<bool>>>,
    pub has_grouping_set: bool,
}

/// The mathematical view of an [`Operator`].
#[verifier::ext_equal]
#[allow(inconsistent_fields)]
pub enum OperatorView {
    Scan { name: Seq<char>, partitioning: Partitioning },
    Other { name: Seq<char>, partitions: PartitionRule },
    CoalescePartitions { fetch: Option<usize> },
    SortPreservingMerge,
    Sort { fetch: Option<usize>, preserve_partitioning: bool },
    Union,
    Repartition { partitioning: Partitioning },
    HashJoin {
        mode: PartitionMode,
        join_type: JoinType,
        null_aware: bool,
        left_keys: Arc<Vec<Expr>>,
        right_keys: Arc<Vec<Expr>>,
    },
    /// A join by an arbitrary condition. `has_projection` tells whether it picks the columns that it
    /// hands out itself.
    NestedLoopJoin { join_type: JoinType, has_projection: bool },
    CrossJoin,
    SortMergeJoin,
    SymmetricHashJoin,
    RestoreColumnOrder,
    Aggregate {
        mode: AggregateMode,
        group_by: GroupByView,
        aggregates: Arc<Vec<Expr>>,
        filters: Arc<Vec<Option<Expr>>>,
        input_schema: Arc<Schema>,
    },
    WindowAgg,
    BoundedWindowAgg,
    LocalLimit { fetch: usize },
    Broadcast { consumer_tasks: usize },
    Sampler,
    DistributedLeaf { partitioning: Partitioning },
    ChildrenIsolatorUnion {
        partitions: usize,
        weights: Seq<ChildWeight>,
        task_idx_map: Seq<Seq<(usize, DistributedTaskContext)>>,
    },
    NetworkShuffle {
        stage: StageView,
        partitioning: Partitioning,
        output: Partitioning,
        properties: Option<Arc<Properties>>,
    },
    NetworkCoalesce {
        stage: StageView,
        output: Partitioning,
        consumer_tasks: usize,
        properties: Option<Arc<Properties>>,
    },
    NetworkBroadcast {
        stage: StageView,
        output: Partitioning,
        properties: Option<Arc<Properties>>,
    },
    DistributedExec { collect_metrics: bool },
}

/// What the engine reports of a node beyond its operator.
#[derive(Debug)]
pub struct Facts {
    /// How many tasks the registered estimators want for the node.
    pub estimate: Option<TaskCountAnnotation>,
    /// The identifier of the work unit feed that the node reads from.
    pub feed: Option<Uuid>,
    /// What is known of the rows that the node produces.
    pub properties: Option<Arc<Properties>>,
    /// What the node demands of the distribution of each of its inputs.
    pub requirements: Vec<InputRequirement>,
    /// The first input whose partition layout does not match that of its siblings, where the
    /// node demands matching layouts.
    pub unsatisfied_co_partitioned: Option<usize>,
    /// The dynamic expressions that the node produces, in the order the node names them.
    pub produced: Vec<ProducedExpression>,
    /// The dynamic filters in the expressions of the node, in visiting order.
    pub filters: Vec<DynamicFilter>,
}

/// What a node demands of the distribution of an input.
#[derive(PartialEq, Eq, Debug)]
pub enum InputRequirement {
    Unspecified,
    SinglePartition,
    /// Rows with equal keys must share a partition. `satisfied` tells whether the partitioning
    /// that the input claims meets the demand, and `claimed` is how the engine writes it.
    KeyPartitioned { satisfied: bool, claimed: String },
}

/// A dynamic expression that a node produces.
#[derive(Debug)]
pub struct ProducedExpression {
    /// The identity of the expression, where it has one.
    pub id: Option<u64>,
    /// Whether the expression is a dynamic filter.
    pub is_dynamic_filter: bool,
    pub expression: Arc<Expr>,
}

/// A dynamic filter that occurs in the expressions of a node.
#[derive(Debug)]
pub struct DynamicFilter {
    pub id: Option<u64>,
    pub expression: Arc<Expr>,
}

/// A node of a physical plan, with the plans that feed it.
#[derive(Debug)]
pub struct Plan {
    pub op: Arc<Operator>,
    /// What the engine reported of the node. A node that the planner added has none.
    pub facts: Option<Arc<Facts>>,
    /// The number of tasks that the planner decided on for the node.
    pub task_count: Option<TaskCountAnnotation>,
    pub children: Vec<Arc<Plan>>,
    /// What each task executes in the place of a leaf that has one variant per task.
    pub variants: Vec<Arc<Plan>>,
}

/// The mathematical view of a [`Plan`]: a tree.
#[verifier::ext_equal]
pub struct PlanView {
    pub op: OperatorView,
    pub facts: Option<Arc<Facts>>,
    pub task_count: Option<TaskCountAnnotation>,
    pub children: Seq<PlanView>,
    pub variants: Seq<PlanView>,
}

impl View for Stage {
    type V = StageView;

    open spec fn view(&self) -> StageView {
        match self {
            Stage::Local { query_id, num, tasks } => StageView::Local {
                query_id: *query_id,
                num: *num,
                tasks: *tasks,
            },
            Stage::Remote { query_id, num, workers } => StageView::Remote {
                query_id: *query_id,
                num: *num,
                workers: workers@.map_values(|worker: String| worker@),
            },
        }
    }
}

impl View for Expr {
    type V = ExprView;

    open spec fn view(&self) -> ExprView {
        match self {
            Expr::Column { name, index } => ExprView::Column { name: name@, index: *index },
            Expr::Encoded(bytes) => ExprView::Encoded(bytes@),
        }
    }
}

impl View for GroupBy {
    type V = GroupByView;

    open spec fn view(&self) -> GroupByView {
        GroupByView {
            exprs: self.exprs@.map_values(|named: (Expr, String)| (named.0@, named.1@)),
            null_exprs: self.null_exprs@.map_values(|named: (Expr, String)| (named.0@, named.1@)),
            groups: self.groups,
            has_grouping_set: self.has_grouping_set,
        }
    }
}

impl View for Operator {
    type V = OperatorView;

    open spec fn view(&self) -> OperatorView {
        match self {
            Operator::Scan { name, partitioning } => OperatorView::Scan {
                name: name@,
                partitioning: *partitioning,
            },
            Operator::Other { name, partitions } => OperatorView::Other {
                name: name@,
                partitions: *partitions,
            },
            Operator::CoalescePartitions { fetch } => OperatorView::CoalescePartitions {
                fetch: *fetch,
            },
            Operator::SortPreservingMerge => OperatorView::SortPreservingMerge,
            Operator::Sort { fetch, preserve_partitioning } => OperatorView::Sort {
                fetch: *fetch,
                preserve_partitioning: *preserve_partitioning,
            },
            Operator::Union => OperatorView::Union,
            Operator::Repartition { partitioning } => OperatorView::Repartition {
                partitioning: *partitioning,
            },
            Operator::HashJoin { mode, join_type, null_aware, left_keys, right_keys } => {
                OperatorView::HashJoin {
                    mode: *mode,
                    join_type: *join_type,
                    null_aware: *null_aware,
                    left_keys: *left_keys,
                    right_keys: *right_keys,
                }
            },
            Operator::NestedLoopJoin { join_type, has_projection } => {
                OperatorView::NestedLoopJoin {
                    join_type: *join_type,
                    has_projection: *has_projection,
                }
            },
            Operator::CrossJoin => OperatorView::CrossJoin,
            Operator::SortMergeJoin => OperatorView::SortMergeJoin,
            Operator::SymmetricHashJoin => OperatorView::SymmetricHashJoin,
            Operator::RestoreColumnOrder => OperatorView::RestoreColumnOrder,
            Operator::Aggregate { mode, group_by, aggregates, filters, input_schema } => {
                OperatorView::Aggregate {
                    mode: *mode,
                    group_by: group_by@,
                    aggregates: *aggregates,
                    filters: *filters,
                    input_schema: *input_schema,
                }
            },
            Operator::WindowAgg => OperatorView::WindowAgg,
            Operator::BoundedWindowAgg => OperatorView::BoundedWindowAgg,
            Operator::LocalLimit { fetch } => OperatorView::LocalLimit { fetch: *fetch },
            Operator::Broadcast { consumer_tasks } => OperatorView::Broadcast {
                consumer_tasks: *consumer_tasks,
            },
            Operator::Sampler => OperatorView::Sampler,
            Operator::DistributedLeaf { partitioning } => OperatorView::DistributedLeaf {
                partitioning: *partitioning,
            },
            Operator::ChildrenIsolatorUnion { partitions, weights, task_idx_map } => {
                OperatorView::ChildrenIsolatorUnion {
                    partitions: *partitions,
                    weights: weights@,
                    task_idx_map: task_idx_map@.map_values(
                        |entry: Vec<(usize, DistributedTaskContext)>| entry@,
                    ),
                }
            },
            Operator::NetworkShuffle { stage, partitioning, output, properties } => {
                OperatorView::NetworkShuffle {
                    stage: stage@,
                    partitioning: *partitioning,
                    output: *output,
                    properties: *properties,
                }
            },
            Operator::NetworkCoalesce { stage, output, consumer_tasks, properties } => {
                OperatorView::NetworkCoalesce {
                    stage: stage@,
                    output: *output,
                    consumer_tasks: *consumer_tasks,
                    properties: *properties,
                }
            },
            Operator::NetworkBroadcast { stage, output, properties } => {
                OperatorView::NetworkBroadcast {
                    stage: stage@,
                    output: *output,
                    properties: *properties,
                }
            },
            Operator::DistributedExec { collect_metrics } => OperatorView::DistributedExec {
                collect_metrics: *collect_metrics,
            },
        }
    }
}

impl Plan {
    /// The tree that a plan stands for.
    pub open spec fn model(&self) -> PlanView
        decreases self,
    {
        PlanView {
            op: self.op@,
            facts: self.facts,
            task_count: self.task_count,
            children: Seq::new(
                self.children@.len(),
                |i: int|
                    if 0 <= i < self.children@.len() {
                        (*self.children@[i]).model()
                    } else {
                        arbitrary()
                    },
            ),
            variants: Seq::new(
                self.variants@.len(),
                |i: int|
                    if 0 <= i < self.variants@.len() {
                        (*self.variants@[i]).model()
                    } else {
                        arbitrary()
                    },
            ),
        }
    }
}

impl View for Plan {
    type V = PlanView;

    open spec fn view(&self) -> PlanView {
        self.model()
    }
}

/// The trees that a list of plans stands for.
pub open spec fn views(plans: Seq<Arc<Plan>>) -> Seq<PlanView> {
    plans.map_values(|plan: Arc<Plan>| plan@)
}

impl Partitioning {
    /// The number of partitions.
    pub open spec fn count(self) -> usize {
        match self {
            Partitioning::RoundRobinBatch(n) => n,
            Partitioning::Hash(_, n) => n,
            Partitioning::Range(_, n) => n,
            Partitioning::UnknownPartitioning(n) => n,
        }
    }

    pub fn partition_count(&self) -> (result: usize)
        ensures
            result == self.count(),
    {
        match self {
            Partitioning::RoundRobinBatch(n) => *n,
            Partitioning::Hash(_, n) => *n,
            Partitioning::Range(_, n) => *n,
            Partitioning::UnknownPartitioning(n) => *n,
        }
    }

    /// A second handle on the same partitioning.
    pub fn share(&self) -> (result: Partitioning)
        ensures
            result == *self,
    {
        match self {
            Partitioning::RoundRobinBatch(n) => Partitioning::RoundRobinBatch(*n),
            Partitioning::Hash(keys, n) => Partitioning::Hash(Arc::clone(keys), *n),
            Partitioning::Range(bounds, n) => Partitioning::Range(Arc::clone(bounds), *n),
            Partitioning::UnknownPartitioning(n) => Partitioning::UnknownPartitioning(*n),
        }
    }
}

impl OperatorView {
    /// The name under which plans show the operator.
    pub open spec fn name(self) -> Seq<char> {
        match self {
            OperatorView::Scan { name, .. } => name,
            OperatorView::Other { name, .. } => name,
            OperatorView::CoalescePartitions { .. } => "CoalescePartitionsExec"@,
            OperatorView::SortPreservingMerge => "SortPreservingMergeExec"@,
            OperatorView::Sort { .. } => "SortExec"@,
            OperatorView::Union => "UnionExec"@,
            OperatorView::Repartition { .. } => "RepartitionExec"@,
            OperatorView::HashJoin { .. } => "HashJoinExec"@,
            OperatorView::NestedLoopJoin { .. } => "NestedLoopJoinExec"@,
            OperatorView::CrossJoin => "CrossJoinExec"@,
            OperatorView::SortMergeJoin => "SortMergeJoinExec"@,
            OperatorView::SymmetricHashJoin => "SymmetricHashJoinExec"@,
            OperatorView::RestoreColumnOrder => "ProjectionExec"@,
            OperatorView::Aggregate { .. } => "AggregateExec"@,
            OperatorView::WindowAgg => "WindowAggExec"@,
            OperatorView::BoundedWindowAgg => "BoundedWindowAggExec"@,
            OperatorView::LocalLimit { .. } => "LocalLimitExec"@,
            OperatorView::Broadcast { .. } => "BroadcastExec"@,
            OperatorView::Sampler => "SamplerExec"@,
            OperatorView::DistributedLeaf { .. } => "DistributedLeafExec"@,
            OperatorView::ChildrenIsolatorUnion { .. } => "ChildrenIsolatorUnionExec"@,
            OperatorView::NetworkShuffle { .. } => "NetworkShuffleExec"@,
            OperatorView::NetworkCoalesce { .. } => "NetworkCoalesceExec"@,
            OperatorView::NetworkBroadcast { .. } => "NetworkBroadcastExec"@,
            OperatorView::DistributedExec { .. } => "DistributedExec"@,
        }
    }

    /// Whether the operator reads its rows from the tasks of another stage.
    pub open spec fn is_network_boundary(self) -> bool {
        self is NetworkShuffle || self is NetworkCoalesce || self is NetworkBroadcast
    }

    /// The stage that feeds a network boundary.
    pub open spec fn input_stage(self) -> StageView {
        match self {
            OperatorView::NetworkShuffle { stage, .. } => stage,
            OperatorView::NetworkCoalesce { stage, .. } => stage,
            OperatorView::NetworkBroadcast { stage, .. } => stage,
            _ => arbitrary(),
        }
    }
}

impl StageView {
    pub open spec fn query_id(self) -> Uuid {
        match self {
            StageView::Local { query_id, .. } => query_id,
            StageView::Remote { query_id, .. } => query_id,
        }
    }

    pub open spec fn num(self) -> usize {
        match self {
            StageView::Local { num, .. } => num,
            StageView::Remote { num, .. } => num,
        }
    }

    /// The number of tasks that the stage runs in.
    pub open spec fn task_count(self) -> nat {
        match self {
            StageView::Local { tasks, .. } => tasks as nat,
            StageView::Remote { workers, .. } => workers.len(),
        }
    }
}

impl Stage {
    pub fn query_id(&self) -> (result: Uuid)
        ensures
            result == self@.query_id(),
    {
        match self {
            Stage::Local { query_id, .. } => *query_id,
            Stage::Remote { query_id, .. } => *query_id,
        }
    }

    pub fn num(&self) -> (result: usize)
        ensures
            result == self@.num(),
    {
        match self {
            Stage::Local { num, .. } => *num,
            Stage::Remote { num, .. } => *num,
        }
    }

    pub fn task_count(&self) -> (result: usize)
        ensures
            result == self@.task_count(),
    {
        match self {
            Stage::Local { tasks, .. } => *tasks,
            Stage::Remote { workers, .. } => workers.len(),
        }
    }
}

impl Operator {
    pub fn name(&self) -> (result: String)
        ensures
            result@ == self@.name(),
    {
        match self {
            Operator::Scan { name, .. } => name.clone(),
            Operator::Other { name, .. } => name.clone(),
            Operator::CoalescePartitions { .. } => "CoalescePartitionsExec".to_owned(),
            Operator::SortPreservingMerge => "SortPreservingMergeExec".to_owned(),
            Operator::Sort { .. } => "SortExec".to_owned(),
            Operator::Union => "UnionExec".to_owned(),
            Operator::Repartition { .. } => "RepartitionExec".to_owned(),
            Operator::HashJoin { .. } => "HashJoinExec".to_owned(),
            Operator::NestedLoopJoin { .. } => "NestedLoopJoinExec".to_owned(),
            Operator::CrossJoin => "CrossJoinExec".to_owned(),
            Operator::SortMergeJoin => "SortMergeJoinExec".to_owned(),
            Operator::SymmetricHashJoin => "SymmetricHashJoinExec".to_owned(),
            Operator::RestoreColumnOrder => "ProjectionExec".to_owned(),
            Operator::Aggregate { .. } => "AggregateExec".to_owned(),
            Operator::WindowAgg => "WindowAggExec".to_owned(),
            Operator::BoundedWindowAgg => "BoundedWindowAggExec".to_owned(),
            Operator::LocalLimit { .. } => "LocalLimitExec".to_owned(),
            Operator::Broadcast { .. } => "BroadcastExec".to_owned(),
            Operator::Sampler => "SamplerExec".to_owned(),
            Operator::DistributedLeaf { .. } => "DistributedLeafExec".to_owned(),
            Operator::ChildrenIsolatorUnion { .. } => "ChildrenIsolatorUnionExec".to_owned(),
            Operator::NetworkShuffle { .. } => "NetworkShuffleExec".to_owned(),
            Operator::NetworkCoalesce { .. } => "NetworkCoalesceExec".to_owned(),
            Operator::NetworkBroadcast { .. } => "NetworkBroadcastExec".to_owned(),
            Operator::DistributedExec { .. } => "DistributedExec".to_owned(),
        }
    }

    /// The stage that feeds the operator, if it is a network boundary.
    pub fn as_network_boundary(&self) -> (result: Option<&Stage>)
        ensures
            result is Some <==> self@.is_network_boundary(),
            result matches Some(stage) ==> stage@ == self@.input_stage(),
    {
        match self {
            Operator::NetworkShuffle { stage, .. } => Some(stage),
            Operator::NetworkCoalesce { stage, .. } => Some(stage),
            Operator::NetworkBroadcast { stage, .. } => Some(stage),
            _ => None,
        }
    }

    pub fn is_network_boundary(&self) -> (result: bool)
        ensures
            result == self@.is_network_boundary(),
    {
        self.as_network_boundary().is_some()
    }
}

impl PlanView {
    /// The partition count of the child with this index, and zero without such a child.
    pub open spec fn input_partitions(self, index: int) -> nat
        decreases self, 0nat,
    {
        if 0 <= index < self.children.len() {
            self.children[index].partition_count()
        } else {
            0
        }
    }

    /// The number of partitions that the root of the plan produces.
    pub open spec fn partition_count(self) -> nat
        decreases self, 1nat,
    {
        match self.op {
            OperatorView::Scan { partitioning, .. } => partitioning.count() as nat,
            OperatorView::Other { partitions, .. } => match partitions {
                PartitionRule::Fixed(n) => n as nat,
                PartitionRule::Input(index) => self.input_partitions(index as int),
                PartitionRule::AllInputs => crate::plan::total_partitions(self.children),
            },
            OperatorView::CoalescePartitions { .. } => 1,
            OperatorView::SortPreservingMerge => 1,
            OperatorView::Sort { preserve_partitioning, .. } => if preserve_partitioning {
                self.input_partitions(0)
            } else {
                1
            },
            OperatorView::Union => crate::plan::total_partitions(self.children),
            OperatorView::Repartition { partitioning } => partitioning.count() as nat,
            OperatorView::HashJoin { .. } => self.input_partitions(1),
            OperatorView::NestedLoopJoin { .. } => self.input_partitions(1),
            OperatorView::CrossJoin => self.input_partitions(1),
            OperatorView::SortMergeJoin => self.input_partitions(1),
            OperatorView::SymmetricHashJoin => self.input_partitions(1),
            OperatorView::RestoreColumnOrder => self.input_partitions(0),
            OperatorView::Aggregate { .. } => self.input_partitions(0),
            OperatorView::WindowAgg => self.input_partitions(0),
            OperatorView::BoundedWindowAgg => self.input_partitions(0),
            OperatorView::LocalLimit { .. } => self.input_partitions(0),
            OperatorView::Broadcast { consumer_tasks } => self.input_partitions(0)
                * consumer_tasks as nat,
            OperatorView::Sampler => self.input_partitions(0),
            OperatorView::DistributedLeaf { partitioning } => partitioning.count() as nat,
            OperatorView::ChildrenIsolatorUnion { partitions, .. } => partitions as nat,
            OperatorView::NetworkShuffle { output, .. } => output.count() as nat,
            OperatorView::NetworkCoalesce { output, .. } => output.count() as nat,
            OperatorView::NetworkBroadcast { output, .. } => output.count() as nat,
            OperatorView::DistributedExec { .. } => self.input_partitions(0),
        }
    }
}

/// The partitions of all the plans in a list together.
pub open spec fn total_partitions(plans: Seq<PlanView>) -> nat
    decreases plans, 0nat,
{
    if plans.len() == 0 {
        0
    } else {
        total_partitions(plans.drop_last()) + plans.last().partition_count()
    }
}

proof fn total_partitions_grows(plans: Seq<PlanView>, upto: int)
    requires
        0 <= upto <= plans.len(),
    ensures
        total_partitions(plans.take(upto)) <= total_partitions(plans),
    decreases plans.len() - upto,
{
    if upto == plans.len() {
        assert(plans.take(upto) =~= plans);
    } else {
        total_partitions_grows(plans, upto + 1);
        assert(plans.take(upto + 1).drop_last() =~= plans.take(upto));
    }
}

impl Plan {
    /// A node with the given operator over the given children, without facts or task count.
    pub fn node(op: Operator, children: Vec<Arc<Plan>>) -> (result: Arc<Plan>)
        ensures
            result@ == (PlanView {
                op: op@,
                facts: None,
                task_count: None,
                children: crate::plan::views(children@),
                variants: Seq::empty(),
            }),
    {
        let variants: Vec<Arc<Plan>> = Vec::new();
        let result = Arc::new(
            Plan { op: Arc::new(op), facts: None, task_count: None, children, variants },
        );
        assert(result@.children =~= views(children@));
        assert(result@.variants =~= Seq::empty());
        result
    }

    /// A leaf that is read in one variant per task. It has as many partitions as before.
    pub fn distributed_leaf(partitioning: Partitioning, variants: Vec<Arc<Plan>>) -> (result: Arc<
        Plan,
    >)
        ensures
            result@ == (PlanView {
                op: OperatorView::DistributedLeaf { partitioning },
                facts: None,
                task_count: None,
                children: Seq::empty(),
                variants: crate::plan::views(variants@),
            }),
    {
        let op = Arc::new(Operator::DistributedLeaf { partitioning });
        let children: Vec<Arc<Plan>> = Vec::new();
        let result = Arc::new(Plan { op, facts: None, task_count: None, children, variants });
        assert(result@.children =~= Seq::empty());
        assert(result@.variants =~= views(variants@));
        result
    }

    /// The same node over other children. It has no task count of its own yet.
    pub fn with_new_children(&self, children: Vec<Arc<Plan>>) -> (result: Arc<Plan>)
        ensures
            result@ == self@.over(crate::plan::views(children@)),
    {
        let facts = match &self.facts {
            Some(facts) => Some(Arc::clone(facts)),
            None => None,
        };
        let variants = share_all(&self.variants);
        let result = Arc::new(
            Plan { op: Arc::clone(&self.op), facts, task_count: None, children, variants },
        );
        assert(result@.children =~= views(children@));
        assert(result@.variants =~= self@.variants);
        result
    }

    /// Another node over other children in the place of this one. What is known of the rows stays.
    pub fn turn_into(&self, op: Arc<Operator>, children: Vec<Arc<Plan>>) -> (result: Arc<Plan>)
        ensures
            result@ == self@.turned_into(op@, crate::plan::views(children@)),
    {
        let facts = match &self.facts {
            Some(facts) => Some(Arc::clone(facts)),
            None => None,
        };
        let variants: Vec<Arc<Plan>> = Vec::new();
        let result = Arc::new(Plan { op, facts, task_count: None, children, variants });
        assert(result@.children =~= views(children@));
        assert(result@.variants =~= Seq::empty());
        result
    }

    /// The same node with a task count.
    pub fn with_task_count(&self, task_count: TaskCountAnnotation) -> (result: Arc<Plan>)
        ensures
            result@ == self@.counted(task_count),
    {
        let facts = match &self.facts {
            Some(facts) => Some(Arc::clone(facts)),
            None => None,
        };
        let children = share_all(&self.children);
        let variants = share_all(&self.variants);
        let result = Arc::new(
            Plan {
                op: Arc::clone(&self.op),
                facts,
                task_count: Some(task_count),
                children,
                variants,
            },
        );
        assert(result@.children =~= self@.children);
        assert(result@.variants =~= self@.variants);
        result
    }

    fn input_partitions(&self, index: usize) -> (result: Result<usize, DistributedError>)
        ensures
            self@.input_partitions(index as int) <= usize::MAX ==> result == Ok::<
                usize,
                DistributedError,
            >(self@.input_partitions(index as int) as usize),
            self@.input_partitions(index as int) > usize::MAX ==> (result matches Err(error)
                && error@ == ErrorKind::PartitionCountOverflow.plain()),
        decreases self, 0nat,
    {
        if index < self.children.len() {
            proof {
                assert(self@.children[index as int] == self.children@[index as int]@);
            }
            self.children[index].partition_count()
        } else {
            Ok(0)
        }
    }

    fn total_partitions(&self) -> (result: Result<usize, DistributedError>)
        ensures
            crate::plan::total_partitions(self@.children) <= usize::MAX ==> result == Ok::<
                usize,
                DistributedError,
            >(crate::plan::total_partitions(self@.children) as usize),
            crate::plan::total_partitions(self@.children) > usize::MAX ==> (result matches Err(
                error,
            ) && error@ == ErrorKind::PartitionCountOverflow.plain()),
        decreases self, 0nat,
    {
        let ghost plans = self@.children;
        let mut total: usize = 0;
        let mut i: usize = 0;
        while i < self.children.len()
            invariant
                0 <= i <= self.children@.len(),
                plans == self@.children,
                plans.len() == self.children@.len(),
                total == crate::plan::total_partitions(plans.take(i as int)),
            decreases self.children@.len() - i,
        {
            proof {
                assert(plans[i as int] == self.children@[i as int]@);
                assert(plans.take(i + 1).drop_last() =~= plans.take(i as int));
                total_partitions_grows(plans, i + 1);
            }
            let count: usize = match self.children[i].partition_count() {
                Ok(count) => count,
                Err(error) => {
                    return Err(error);
                },
            };
            match total.checked_add(count) {
                Some(sum) => {
                    total = sum;
                },
                None => {
                    return Err(DistributedError::new(ErrorKind::PartitionCountOverflow));
                },
            }
            i += 1;
        }
        proof {
            assert(plans.take(i as int) =~= plans);
        }
        Ok(total)
    }

    /// The number of partitions that the plan produces. The count of a union or a broadcast that
    /// does not fit the machine is an error.
    pub fn partition_count(&self) -> (result: Result<usize, DistributedError>)
        ensures
            self@.partition_count() <= usize::MAX ==> result == Ok::<usize, DistributedError>(
                self@.partition_count() as usize,
            ),
            self@.partition_count() > usize::MAX ==> (result matches Err(error) && error@
                == ErrorKind::PartitionCountOverflow.plain()),
        decreases self, 1nat,
    {
        match &*self.op {
            Operator::Scan { partitioning, .. } => Ok(partitioning.partition_count()),
            Operator::Other { partitions, .. } => match partitions {
                PartitionRule::Fixed(n) => Ok(*n),
                PartitionRule::Input(index) => self.input_partitions(*index),
                PartitionRule::AllInputs => self.total_partitions(),
            },
            Operator::CoalescePartitions { .. } => Ok(1),
            Operator::SortPreservingMerge => Ok(1),
            Operator::Sort { preserve_partitioning, .. } => if *preserve_partitioning {
                self.input_partitions(0)
            } else {
                Ok(1)
            },
            Operator::Union => self.total_partitions(),
            Operator::Repartition { partitioning } => Ok(partitioning.partition_count()),
            Operator::HashJoin { .. } => self.input_partitions(1),
            Operator::NestedLoopJoin { .. } => self.input_partitions(1),
            Operator::CrossJoin => self.input_partitions(1),
            Operator::SortMergeJoin => self.input_partitions(1),
            Operator::SymmetricHashJoin => self.input_partitions(1),
            Operator::RestoreColumnOrder => self.input_partitions(0),
            Operator::Aggregate { .. } => self.input_partitions(0),
            Operator::WindowAgg => self.input_partitions(0),
            Operator::BoundedWindowAgg => self.input_partitions(0),
            Operator::LocalLimit { .. } => self.input_partitions(0),
            Operator::Broadcast { consumer_tasks } => {
                let tasks: usize = *consumer_tasks;
                if tasks == 0 {
                    proof {
                        let inputs = self@.input_partitions(0);
                        assert(inputs * 0nat == 0) by (nonlinear_arith);
                    }
                    return Ok(0);
                }
                let count: usize = match self.input_partitions(0) {
                    Ok(count) => count,
                    Err(error) => {
                        proof {
                            let inputs = self@.input_partitions(0);
                            assert(inputs * tasks as nat >= inputs) by (nonlinear_arith)
                                requires
                                    tasks >= 1,
                            ;
                        }
                        return Err(error);
                    },
                };
                match count.checked_mul(tasks) {
                    Some(product) => Ok(product),
                    None => Err(DistributedError::new(ErrorKind::PartitionCountOverflow)),
                }
            },
            Operator::Sampler => self.input_partitions(0),
            Operator::DistributedLeaf { partitioning } => Ok(partitioning.partition_count()),
            Operator::ChildrenIsolatorUnion { partitions, .. } => Ok(*partitions),
            Operator::NetworkShuffle { output, .. } => Ok(output.partition_count()),
            Operator::NetworkCoalesce { output, .. } => Ok(output.partition_count()),
            Operator::NetworkBroadcast { output, .. } => Ok(output.partition_count()),
            Operator::DistributedExec { .. } => self.input_partitions(0),
        }
    }
}

impl Plan {
    /// The work unit feed that the node reads from, if it reads from one.
    pub fn work_unit_feed(&self) -> (result: Option<Uuid>)
        ensures
            result == self@.feed(),
    {
        match &self.facts {
            Some(facts) => facts.feed,
            None => None,
        }
    }
}

impl PlanView {
    /// The work unit feed that the node reads from, if it reads from one.
    pub open spec fn feed(self) -> Option<Uuid> {
        match self.facts {
            Some(facts) => facts.feed,
            None => None,
        }
    }

    /// The node over other children, without a task count.
    pub open spec fn over(self, children: Seq<PlanView>) -> PlanView {
        PlanView { task_count: None, children, ..self }
    }

    /// Another node over other children in the place of this one. What is known of the rows stays.
    pub open spec fn turned_into(self, op: OperatorView, children: Seq<PlanView>) -> PlanView {
        PlanView { op, facts: self.facts, task_count: None, children, variants: Seq::empty() }
    }

    /// The node with a task count.
    pub open spec fn counted(self, task_count: TaskCountAnnotation) -> PlanView {
        PlanView { task_count: Some(task_count), ..self }
    }
}

/// A node that the planner adds over `children`.
pub open spec fn new_node(op: OperatorView, children: Seq<PlanView>) -> PlanView {
    PlanView { op, facts: None, task_count: None, children, variants: Seq::empty() }
}

/// A second handle on what is known of some rows.
pub fn share_properties(properties: &Option<Arc<Properties>>) -> (result: Option<
    Arc<Properties>,
>)
    ensures
        result == *properties,
{
    match properties {
        Some(properties) => Some(Arc::clone(properties)),
        None => None,
    }
}

/// A list of one plan.
pub fn only(plan: Arc<Plan>) -> (result: Vec<Arc<Plan>>)
    ensures
        result@ =~= seq![plan],
        views(result@) =~= seq![plan@],
{
    let mut result: Vec<Arc<Plan>> = Vec::new();
    result.push(plan);
    result
}

/// Second handles on the plans of a list.
pub fn share_all(plans: &Vec<Arc<Plan>>) -> (result: Vec<Arc<Plan>>)
    ensures
        result@ =~= plans@,
{
    let mut result: Vec<Arc<Plan>> = Vec::new();
    let mut i: usize = 0;
    while i < plans.len()
        invariant
            0 <= i <= plans@.len(),
            result@ =~= plans@.take(i as int),
        decreases plans@.len() - i,
    {
        result.push(Arc::clone(&plans[i]));
        i += 1;
    }
    result
}

/// The only plan of a list. A list with none or with several is an error.
pub fn require_one_child(children: &Vec<Arc<Plan>>) -> (result: Result<
    Arc<Plan>,
    DistributedError,
>)
    ensures
        children@.len() == 1 ==> result == Ok::<Arc<Plan>, DistributedError>(children@[0]),
        children@.len() != 1 ==> (result matches Err(error) && error@
            == (ErrorKind::ExpectedOneChild { got: children@.len() as usize }).plain()),
{
    if children.len() != 1 {
        return Err(
            DistributedError::new(ErrorKind::ExpectedOneChild { got: children.len() }),
        );
    }
    Ok(Arc::clone(&children[0]))
}

} // verus!
