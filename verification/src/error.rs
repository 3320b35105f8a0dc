use crate::boundary_factory::BoundaryKind;
use vstd::prelude::*;

verus! {

/// What went wrong, with the numbers that describe it.
#[derive(Clone, Copy, PartialEq, Eq, Debug, Structural)]
pub enum ErrorKind {
    /// Identifiers hold sixteen bytes, these were `len`.
    InvalidUuid { len: usize },
    /// A message holds no node.
    MissingNode,
    /// A network boundary comes without the stage that feeds it.
    EmptyStage,
    /// A task of a remote stage comes without the address of its worker.
    MissingUrl,
    /// The address of a worker is no URL.
    InvalidUrl,
    /// A network boundary comes without a schema.
    MissingSchema,
    /// A network boundary comes without a partitioning.
    MissingPartitioning,
    /// A broadcast takes one child, these were `got`.
    BroadcastExpectsOneChild { got: usize },
    /// A union has no child.
    UnionWithoutInputs,
    /// The node is none of those that the codec knows.
    UnexpectedPlan,
    /// A node that takes one child was given another number of them.
    ExpectedOneChild { got: usize },
    /// A stage of `tasks` tasks holds a boundary that gathers everything into one task.
    CoalesceInMultiTaskStage { tasks: usize },
    /// A child of an isolated union is replicated though it has several tasks.
    ReplicatedUnionInput { input: usize, tasks: usize },
    /// An input that must be a single partition only holds the slice of its task.
    SlicedSinglePartition { input: usize, tasks: usize },
    /// The partitioning that an input claims does not satisfy the keys that are required of it.
    UnsatisfiedKeys { input: usize },
    /// The keys of an input were partitioned within each task only.
    TaskLocalKeys { input: usize, tasks: usize },
    /// The partition layout of an input does not match that of its siblings.
    NotCoPartitioned { input: usize },
    /// Rows of a replicated input would come out once per task.
    DuplicatedRows { input: usize, tasks: usize },
    /// Every task of a stage would produce the same output.
    FullyReplicatedStage { tasks: usize },
    /// The consumers of a boundary that gathers whole tasks do not read slices.
    UnslicedBoundary { partition: usize },
    /// A boundary reports no partitions for its consumer tasks.
    NoPartitionsPerTask { partition: usize },
    /// A plan without partitions cannot be broadcast.
    BroadcastOfNothing,
    /// A partitioning could not be read.
    UnreadablePartitioning,
    /// A node has no task count though the planner needs one.
    MissingTaskCount,
    /// An answer does not fit the question that the planner asked.
    UnexpectedReply,
    /// A plan without partitions has no work to spread.
    NoPartitions,
    /// There is no number left for another stage.
    TooManyStages,
    /// A join that collects its build side reads a single probe partition, which repartitioning
    /// would only make wrong.
    SinglePartitionProbe,
    /// The session carries no settings for distribution.
    MissingDistributedConfig,
    /// The name of a header begins with the prefix that is kept for settings.
    ReservedHeader,
    /// A partition count does not fit the machine.
    PartitionCountOverflow,
    /// No handler knows the workers for the tasks of a stage.
    NoRoute,
    /// The handler that picks workers failed.
    RoutingFailed,
    /// A stage has `tasks` tasks, and `urls` workers were picked for them.
    RouteMismatch { tasks: usize, urls: usize },
    /// The stage below a network boundary has already left for its workers.
    StageNotLocal,
    /// The workers of a stage have not been picked yet.
    RouteNeeded,
    /// A question of the planner has not been answered yet.
    ReplyNeeded,
    /// Two vectors that are added up differ in length.
    LengthMismatch,
    /// A number of rows or bytes does not fit the machine.
    StatisticsOverflow,
    /// Statistics speak of a column that the schema does not have.
    MissingField { index: usize },
    /// The plan of a stage is not there to be shown.
    MissingStagePlan { num: usize },
    /// A plan whose load is gathered has no node that measures it.
    MissingSampler,
    /// Statistics for `expected` columns come with `got` numbers of distinct values.
    DistinctCounts { expected: usize, got: usize },
    /// Statistics for `expected` columns come with `got` numbers of nulls.
    NullCounts { expected: usize, got: usize },
    /// A plan was asked for that there is none of before execution.
    NotPrepared,
    /// A stage was asked for that there is none of before execution.
    NoHeadStage,
    /// A distributed query has one partition, and another one was asked for.
    UnknownPartition { partition: usize },
    /// Plans whose task counts are decided during execution cannot be driven by an embedder.
    DynamicInProcess,
    /// A node produces an expression without an identity.
    UnidentifiedExpression,
    /// A dynamic filter has no identity.
    UnidentifiedFilter,
    /// Resources that were put aside for network boundaries were not used.
    PoolNotDrained { left: usize },
    /// No resource is left for another network boundary.
    PoolExhausted { stage_id: usize, kind: BoundaryKind },
    /// The embedder of the library failed with a message of its own.
    Embedder,
    /// The token of a receiver is the one that stands for no receiver, in the step that is named.
    NoReceiverToken,
    /// A plan has `partitions` partitions, and `sinks` places to send them.
    SinkMismatch { partitions: usize, sinks: usize },
    /// Rows that are spread over tasks have no tasks above the plan to go to.
    TopLevelExchange,
    /// A leaf has a variant for each of its tasks but lacks the one of task `task`.
    MissingVariant { task: usize, variants: usize },
}

/// An error of the library: its kind, the name of the node it is about, the name of the input of
/// that node, and how the engine writes what is wrong with it, where there are any.
#[derive(Debug)]
pub struct DistributedError {
    pub kind: ErrorKind,
    pub node: String,
    pub input: String,
    pub detail: String,
}

/// The mathematical view of a [`DistributedError`].
#[verifier::ext_equal]
pub struct DistributedErrorView {
    pub kind: ErrorKind,
    pub node: Seq<char>,
    pub input: Seq<char>,
    pub detail: Seq<char>,
}

impl View for DistributedError {
    type V = DistributedErrorView;

    open spec fn view(&self) -> DistributedErrorView {
        DistributedErrorView {
            kind: self.kind,
            node: self.node@,
            input: self.input@,
            detail: self.detail@,
        }
    }
}

impl ErrorKind {
    /// The error of this kind that names no node.
    pub open spec fn plain(self) -> DistributedErrorView {
        self.about_input(Seq::empty(), Seq::empty())
    }

    /// The error of this kind about the node called `node`.
    pub open spec fn about(self, node: Seq<char>) -> DistributedErrorView {
        self.about_input(node, Seq::empty())
    }

    /// The error of this kind about the input called `input` of the node called `node`.
    pub open spec fn about_input(self, node: Seq<char>, input: Seq<char>) -> DistributedErrorView {
        DistributedErrorView { kind: self, node, input, detail: Seq::empty() }
    }
}

impl DistributedError {
    pub fn new(kind: ErrorKind) -> (result: DistributedError)
        ensures
            result@ == kind.plain(),
    {
        DistributedError::about_input(kind, String::new(), String::new())
    }

    pub fn about(kind: ErrorKind, node: String) -> (result: DistributedError)
        ensures
            result@ == kind.about(node@),
    {
        DistributedError::about_input(kind, node, String::new())
    }

    pub fn about_input(kind: ErrorKind, node: String, input: String) -> (result: DistributedError)
        ensures
            result@ == kind.about_input(node@, input@),
    {
        DistributedError { kind, node, input, detail: String::new() }
    }

    /// The same error with how the engine writes what is wrong.
    pub fn with_detail(self, detail: String) -> (result: DistributedError)
        ensures
            result@ == self@.detailed(detail@),
    {
        DistributedError { kind: self.kind, node: self.node, input: self.input, detail }
    }
}

impl DistributedErrorView {
    /// The same error with how the engine writes what is wrong.
    pub open spec fn detailed(self, detail: Seq<char>) -> DistributedErrorView {
        DistributedErrorView { detail, ..self }
    }
}

/// A result whose values are taken by their views.
pub open spec fn viewed<T: View>(result: Result<T, DistributedError>) -> Result<
    T::V,
    DistributedErrorView,
> {
    match result {
        Ok(value) => Ok(value@),
        Err(error) => Err(error@),
    }
}

} // verus!
