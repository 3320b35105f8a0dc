//! The texts of errors.
use crate::error::{DistributedError, DistributedErrorView, ErrorKind};
use vstd::prelude::*;

verus! {

/// The digit with this value.
pub open spec fn digit(value: usize) -> Seq<char> {
    match value {
        0 => "0"@,
        1 => "1"@,
        2 => "2"@,
        3 => "3"@,
        4 => "4"@,
        5 => "5"@,
        6 => "6"@,
        7 => "7"@,
        8 => "8"@,
        _ => "9"@,
    }
}

/// A number in decimal digits.
pub open spec fn digits(number: nat) -> Seq<char>
    decreases number,
{
    if number < 10 {
        digit(number as usize)
    } else {
        digits(number / 10) + digit((number % 10) as usize)
    }
}

fn digit_text(value: usize) -> (result: &'static str)
    requires
        value < 10,
    ensures
        result@ == digit(value),
{
    match value {
        0 => "0",
        1 => "1",
        2 => "2",
        3 => "3",
        4 => "4",
        5 => "5",
        6 => "6",
        7 => "7",
        8 => "8",
        _ => "9",
    }
}

/// A number in decimal digits.
pub fn decimal(number: usize) -> (result: String)
    ensures
        result@ == digits(number as nat),
    decreases number,
{
    if number < 10 {
        digit_text(number).to_owned()
    } else {
        let mut result = decimal(number / 10);
        result.append(digit_text(number % 10));
        result
    }
}

impl DistributedErrorView {
    /// The text of the error.
    pub open spec fn message(self) -> Seq<char> {
        match self.kind {
            ErrorKind::InvalidUuid { len } => "Invalid Uuid bytes: invalid length: expected 16 bytes, found "@
                + crate::error_message::digits(len as nat),
            ErrorKind::MissingNode => "Expected DistributedExecNode in DistributedExecProto"@,
            ErrorKind::EmptyStage => "Empty StageProto"@,
            ErrorKind::MissingUrl => "Missing URL in task"@,
            ErrorKind::InvalidUrl => "Invalid URL in task"@,
            ErrorKind::MissingSchema => self.node
                + " is missing schema"@,
            ErrorKind::MissingPartitioning => self.node
                + " is missing partitioning"@,
            ErrorKind::BroadcastExpectsOneChild { got } => "BroadcastExec expects exactly one child, got "@
                + crate::error_message::digits(got as nat),
            ErrorKind::UnionWithoutInputs => "UnionExec requires at least one input"@,
            ErrorKind::UnexpectedPlan => "Unexpected plan "@
                + self.node,
            ErrorKind::ExpectedOneChild { got } => "Expected exactly 1 children, got "@
                + crate::error_message::digits(got as nat),
            ErrorKind::CoalesceInMultiTaskStage { tasks } => "stage runs "@
                + crate::error_message::digits(tasks as nat)
                + " tasks but contains "@
                + self.node
                + ", which requires a single-task consumer stage"@,
            ErrorKind::ReplicatedUnionInput { input, tasks } => "input "@
                + crate::error_message::digits(input as nat)
                + " of "@
                + self.node
                + " is replicated but allotted "@
                + crate::error_message::digits(tasks as nat)
                + " tasks; each task would emit an identical copy of its data"@,
            ErrorKind::SlicedSinglePartition { input, tasks } => self.node
                + " requires a single partition from its input "@
                + crate::error_message::digits(input as nat)
                + " ("@
                + self.input
                + "), but in a "@
                + crate::error_message::digits(tasks as nat)
                + "-task stage that input only delivers the task's own slice of the data; each task would silently compute on partial data. The input must be replicated (broadcast) or the stage must run in a single task"@,
            ErrorKind::UnsatisfiedKeys { input } => self.node
                + " requires its input "@
                + crate::error_message::digits(input as nat)
                + " ("@
                + self.input
                + ") to be key-partitioned, but that input's claimed partitioning ("@
                + self.detail
                + ") does not satisfy the requirement"@,
            ErrorKind::TaskLocalKeys { input, tasks } => self.node
                + " requires its input "@
                + crate::error_message::digits(input as nat)
                + " ("@
                + self.input
                + ") to be key-partitioned, but in a "@
                + crate::error_message::digits(tasks as nat)
                + "-task stage that partitioning was established task-locally: equal keys living in different tasks would never meet. The input must come through a NetworkShuffleExec"@,
            ErrorKind::NotCoPartitioned { input } => self.node
                + " requires co-partitioned inputs, but input "@
                + crate::error_message::digits(input as nat)
                + "'s partition layout is incompatible with its siblings: matching partition indexes would not hold matching keys across tasks"@,
            ErrorKind::DuplicatedRows { input, tasks } => self.node
                + " emits rows driven by its replicated input "@
                + crate::error_message::digits(input as nat)
                + "; each of the stage's "@
                + crate::error_message::digits(tasks as nat)
                + " task instances would emit those rows, duplicating them in the stage output"@,
            ErrorKind::FullyReplicatedStage { tasks } => "stage runs "@
                + crate::error_message::digits(tasks as nat)
                + " tasks but its plan is fully replicated: every task would produce the identical output and the stage would emit "@
                + crate::error_message::digits(tasks as nat)
                + " copies of it"@,
            ErrorKind::UnslicedBoundary { partition } => "cannot route output partition "@
                + crate::error_message::digits(partition as nat)
                + ": the consumers of "@
                + self.node
                + " read whole tasks"@,
            ErrorKind::NoPartitionsPerTask { partition } => "cannot route output partition "@
                + crate::error_message::digits(partition as nat)
                + ": the boundary reports 0 partitions per consumer task"@,
            ErrorKind::BroadcastOfNothing => "cannot broadcast "@
                + self.node
                + ": it has 0 partitions"@,
            ErrorKind::UnreadablePartitioning => "Could not parse partitioning"@,
            ErrorKind::MissingTaskCount => "Missing task count for node "@
                + self.node
                + ". This is a bug in Distributed DataFusion's planner, please report it."@,
            ErrorKind::UnexpectedReply => "the answer does not fit the question of the planner"@,
            ErrorKind::NoPartitions => self.node
                + " has no partitions to spread over tasks"@,
            ErrorKind::TooManyStages => "the plan has more stages than can be numbered"@,
            ErrorKind::SinglePartitionProbe => "Single-partition joins are safe and can actually be made incorrect by repartitioning them"@,
            ErrorKind::MissingDistributedConfig => "DistributedConfig is not in ConfigOptions.extensions"@,
            ErrorKind::ReservedHeader => "header "@
                + self.node
                + " starts with the reserved prefix x-datafusion-distributed-config-"@,
            ErrorKind::PartitionCountOverflow => "the partition count does not fit the machine"@,
            ErrorKind::NoRoute => "No task routing handler was able to resolve URLs for stage"@,
            ErrorKind::RoutingFailed => "error routing tasks to workers: "@
                + self.node,
            ErrorKind::RouteMismatch { tasks, urls } => "number of tasks ("@
                + crate::error_message::digits(tasks as nat)
                + ") was not equal to number of urls ("@
                + crate::error_message::digits(urls as nat)
                + ") at execution time"@,
            ErrorKind::StageNotLocal => "Input stage from network boundary was not in Local state"@,
            ErrorKind::RouteNeeded => "the workers of a stage have not been picked yet"@,
            ErrorKind::ReplyNeeded => "a question of the planner has not been answered yet"@,
            ErrorKind::LengthMismatch => "Cannot do an element wise sum of two vectors of different lengths"@,
            ErrorKind::StatisticsOverflow => "a number of rows or bytes does not fit the machine"@,
            ErrorKind::MissingField { index } => "Field with index "@
                + crate::error_message::digits(index as nat)
                + " not present in schema: "@
                + self.detail,
            ErrorKind::MissingStagePlan { num } => "Failed to retrieve plan for stage "@
                + crate::error_message::digits(num as nat)
                + " for visualization purposes"@,
            ErrorKind::MissingSampler => "Mising SamplerExec while gathering load report"@,
            ErrorKind::DistinctCounts { expected, got } => "Expected "@
                + crate::error_message::digits(expected as nat)
                + " ndv values, but got "@
                + crate::error_message::digits(got as nat),
            ErrorKind::NullCounts { expected, got } => "Expected "@
                + crate::error_message::digits(expected as nat)
                + " null values, but got "@
                + crate::error_message::digits(got as nat),
            ErrorKind::NotPrepared => "No prepared plan found. Was execute() called?"@,
            ErrorKind::NoHeadStage => "No head stage found. Was execute() called?"@,
            ErrorKind::UnknownPartition { partition } => "DistributedExec must only have 1 partition, but it was called with partition index "@
                + crate::error_message::digits(partition as nat),
            ErrorKind::DynamicInProcess => "prepare_in_process_plan only supports static task planning; dynamic task counts require the async coordinator path"@,
            ErrorKind::UnidentifiedExpression => self.node
                + "::dynamic_expressions_produced returned an expression without an expression ID"@,
            ErrorKind::UnidentifiedFilter => "DynamicFilterPhysicalExpr did not have an expression ID"@,
            ErrorKind::PoolNotDrained { left } => "PooledBoundaryFactory: "@
                + crate::error_message::digits(left as nat)
                + " resource(s) left unconsumed; pre-allocated count exceeded the actual boundary count"@,
            ErrorKind::PoolExhausted { stage_id, kind } => "PooledBoundaryFactory: pool exhausted at stage_id="@
                + crate::error_message::digits(stage_id as nat)
                + " ("@
                + kind.label()
                + "); pre-allocated count was below the actual boundary count"@,
            ErrorKind::Embedder => self.node,
            ErrorKind::NoReceiverToken => "mpp: "@
                + self.node
                + ": receiver_token is the NO_RECEIVER_TOKEN sentinel; wakeups for this proc would be silently disabled"@,
            ErrorKind::SinkMismatch { partitions, sinks } => "run_worker_fragment: plan has "@
                + crate::error_message::digits(partitions as nat)
                + " output partitions but "@
                + crate::error_message::digits(sinks as nat)
                + " sinks"@,
            ErrorKind::TopLevelExchange => "top-level "@
                + self.node
                + " is unsupported"@,
            ErrorKind::MissingVariant { task, variants } => "task "@
                + crate::error_message::digits(task as nat)
                + " has no variant among the "@
                + crate::error_message::digits(variants as nat)
                + " of its leaf"@,
        }
    }
}

impl DistributedError {
    /// The text of the error.
    pub fn message(&self) -> (result: String)
        ensures
            result@ == self@.message(),
    {
        match self.kind {
            ErrorKind::InvalidUuid { len } => {
                let mut text = "Invalid Uuid bytes: invalid length: expected 16 bytes, found ".to_owned();
                text.append(decimal(len).as_str());
                text
            },
            ErrorKind::MissingNode => "Expected DistributedExecNode in DistributedExecProto".to_owned(),
            ErrorKind::EmptyStage => "Empty StageProto".to_owned(),
            ErrorKind::MissingUrl => "Missing URL in task".to_owned(),
            ErrorKind::InvalidUrl => "Invalid URL in task".to_owned(),
            ErrorKind::MissingSchema => {
                let mut text = self.node.clone();
                text.append(" is missing schema");
                text
            },
            ErrorKind::MissingPartitioning => {
                let mut text = self.node.clone();
                text.append(" is missing partitioning");
                text
            },
            ErrorKind::UnionWithoutInputs => "UnionExec requires at least one input".to_owned(),
            ErrorKind::BroadcastExpectsOneChild { got } => {
                let mut text = "BroadcastExec expects exactly one child, got ".to_owned();
                text.append(decimal(got).as_str());
                text
            },
            ErrorKind::UnexpectedPlan => {
                let mut text = "Unexpected plan ".to_owned();
                text.append(self.node.as_str());
                text
            },
            ErrorKind::ExpectedOneChild { got } => {
                let mut text = "Expected exactly 1 children, got ".to_owned();
                text.append(decimal(got).as_str());
                text
            },
            ErrorKind::CoalesceInMultiTaskStage { tasks } => {
                let mut text = "stage runs ".to_owned();
                text.append(decimal(tasks).as_str());
                text.append(" tasks but contains ");
                text.append(self.node.as_str());
                text.append(", which requires a single-task consumer stage");
                text
            },
            ErrorKind::ReplicatedUnionInput { input, tasks } => {
                let mut text = "input ".to_owned();
                text.append(decimal(input).as_str());
                text.append(" of ");
                text.append(self.node.as_str());
                text.append(" is replicated but allotted ");
                text.append(decimal(tasks).as_str());
                text.append(" tasks; each task would emit an identical copy of its data");
                text
            },
            ErrorKind::SlicedSinglePartition { input, tasks } => {
                let mut text = self.node.clone();
                text.append(" requires a single partition from its input ");
                text.append(decimal(input).as_str());
                text.append(" (");
                text.append(self.input.as_str());
                text.append("), but in a ");
                text.append(decimal(tasks).as_str());
                text.append("-task stage that input only delivers the task's own slice of the data; each task would silently compute on partial data. The input must be replicated (broadcast) or the stage must run in a single task");
                text
            },
            ErrorKind::UnsatisfiedKeys { input } => {
                let mut text = self.node.clone();
                text.append(" requires its input ");
                text.append(decimal(input).as_str());
                text.append(" (");
                text.append(self.input.as_str());
                text.append(") to be key-partitioned, but that input's claimed partitioning (");
                text.append(self.detail.as_str());
                text.append(") does not satisfy the requirement");
                text
            },
            ErrorKind::TaskLocalKeys { input, tasks } => {
                let mut text = self.node.clone();
                text.append(" requires its input ");
                text.append(decimal(input).as_str());
                text.append(" (");
                text.append(self.input.as_str());
                text.append(") to be key-partitioned, but in a ");
                text.append(decimal(tasks).as_str());
                text.append("-task stage that partitioning was established task-locally: equal keys living in different tasks would never meet. The input must come through a NetworkShuffleExec");
                text
            },
            ErrorKind::NotCoPartitioned { input } => {
                let mut text = self.node.clone();
                text.append(" requires co-partitioned inputs, but input ");
                text.append(decimal(input).as_str());
                text.append("'s partition layout is incompatible with its siblings: matching partition indexes would not hold matching keys across tasks");
                text
            },
            ErrorKind::DuplicatedRows { input, tasks } => {
                let mut text = self.node.clone();
                text.append(" emits rows driven by its replicated input ");
                text.append(decimal(input).as_str());
                text.append("; each of the stage's ");
                text.append(decimal(tasks).as_str());
                text.append(" task instances would emit those rows, duplicating them in the stage output");
                text
            },
            ErrorKind::FullyReplicatedStage { tasks } => {
                let mut text = "stage runs ".to_owned();
                text.append(decimal(tasks).as_str());
                text.append(" tasks but its plan is fully replicated: every task would produce the identical output and the stage would emit ");
                text.append(decimal(tasks).as_str());
                text.append(" copies of it");
                text
            },
            ErrorKind::UnslicedBoundary { partition } => {
                let mut text = "cannot route output partition ".to_owned();
                text.append(decimal(partition).as_str());
                text.append(": the consumers of ");
                text.append(self.node.as_str());
                text.append(" read whole tasks");
                text
            },
            ErrorKind::NoPartitionsPerTask { partition } => {
                let mut text = "cannot route output partition ".to_owned();
                text.append(decimal(partition).as_str());
                text.append(": the boundary reports 0 partitions per consumer task");
                text
            },
            ErrorKind::BroadcastOfNothing => {
                let mut text = "cannot broadcast ".to_owned();
                text.append(self.node.as_str());
                text.append(": it has 0 partitions");
                text
            },
            ErrorKind::UnreadablePartitioning => "Could not parse partitioning".to_owned(),
            ErrorKind::MissingTaskCount => {
                let mut text = "Missing task count for node ".to_owned();
                text.append(self.node.as_str());
                text.append(". This is a bug in Distributed DataFusion's planner, please report it.");
                text
            },
            ErrorKind::UnexpectedReply => "the answer does not fit the question of the planner".to_owned(),
            ErrorKind::NoPartitions => {
                let mut text = self.node.clone();
                text.append(" has no partitions to spread over tasks");
                text
            },
            ErrorKind::TooManyStages => "the plan has more stages than can be numbered".to_owned(),
            ErrorKind::SinglePartitionProbe => "Single-partition joins are safe and can actually be made incorrect by repartitioning them".to_owned(),
            ErrorKind::MissingDistributedConfig => "DistributedConfig is not in ConfigOptions.extensions".to_owned(),
            ErrorKind::ReservedHeader => {
                let mut text = "header ".to_owned();
                text.append(self.node.as_str());
                text.append(" starts with the reserved prefix x-datafusion-distributed-config-");
                text
            },
            ErrorKind::PartitionCountOverflow => "the partition count does not fit the machine".to_owned(),
            ErrorKind::NoRoute => "No task routing handler was able to resolve URLs for stage".to_owned(),
            ErrorKind::RoutingFailed => {
                let mut text = "error routing tasks to workers: ".to_owned();
                text.append(self.node.as_str());
                text
            },
            ErrorKind::RouteMismatch { tasks, urls } => {
                let mut text = "number of tasks (".to_owned();
                text.append(decimal(tasks).as_str());
                text.append(") was not equal to number of urls (");
                text.append(decimal(urls).as_str());
                text.append(") at execution time");
                text
            },
            ErrorKind::StageNotLocal => "Input stage from network boundary was not in Local state".to_owned(),
            ErrorKind::RouteNeeded => "the workers of a stage have not been picked yet".to_owned(),
            ErrorKind::ReplyNeeded => "a question of the planner has not been answered yet".to_owned(),
            ErrorKind::LengthMismatch => "Cannot do an element wise sum of two vectors of different lengths".to_owned(),
            ErrorKind::StatisticsOverflow => "a number of rows or bytes does not fit the machine".to_owned(),
            ErrorKind::MissingField { index } => {
                let mut text = "Field with index ".to_owned();
                text.append(decimal(index).as_str());
                text.append(" not present in schema: ");
                text.append(self.detail.as_str());
                text
            },
            ErrorKind::MissingStagePlan { num } => {
                let mut text = "Failed to retrieve plan for stage ".to_owned();
                text.append(decimal(num).as_str());
                text.append(" for visualization purposes");
                text
            },
            ErrorKind::MissingSampler => "Mising SamplerExec while gathering load report".to_owned(),
            ErrorKind::DistinctCounts { expected, got } => {
                let mut text = "Expected ".to_owned();
                text.append(decimal(expected).as_str());
                text.append(" ndv values, but got ");
                text.append(decimal(got).as_str());
                text
            },
            ErrorKind::NullCounts { expected, got } => {
                let mut text = "Expected ".to_owned();
                text.append(decimal(expected).as_str());
                text.append(" null values, but got ");
                text.append(decimal(got).as_str());
                text
            },
            ErrorKind::NotPrepared => "No prepared plan found. Was execute() called?".to_owned(),
            ErrorKind::NoHeadStage => "No head stage found. Was execute() called?".to_owned(),
            ErrorKind::UnknownPartition { partition } => {
                let mut text = "DistributedExec must only have 1 partition, but it was called with partition index ".to_owned();
                text.append(decimal(partition).as_str());
                text
            },
            ErrorKind::DynamicInProcess => "prepare_in_process_plan only supports static task planning; dynamic task counts require the async coordinator path".to_owned(),
            ErrorKind::UnidentifiedExpression => {
                let mut text = self.node.clone();
                text.append("::dynamic_expressions_produced returned an expression without an expression ID");
                text
            },
            ErrorKind::UnidentifiedFilter => "DynamicFilterPhysicalExpr did not have an expression ID".to_owned(),
            ErrorKind::PoolNotDrained { left } => {
                let mut text = "PooledBoundaryFactory: ".to_owned();
                text.append(decimal(left).as_str());
                text.append(" resource(s) left unconsumed; pre-allocated count exceeded the actual boundary count");
                text
            },
            ErrorKind::PoolExhausted { stage_id, kind } => {
                let mut text = "PooledBoundaryFactory: pool exhausted at stage_id=".to_owned();
                text.append(decimal(stage_id).as_str());
                text.append(" (");
                text.append(kind.name().as_str());
                text.append("); pre-allocated count was below the actual boundary count");
                text
            },
            ErrorKind::Embedder => self.node.clone(),
            ErrorKind::NoReceiverToken => {
                let mut text = "mpp: ".to_owned();
                text.append(self.node.as_str());
                text.append(": receiver_token is the NO_RECEIVER_TOKEN sentinel; wakeups for this proc would be silently disabled");
                text
            },
            ErrorKind::SinkMismatch { partitions, sinks } => {
                let mut text = "run_worker_fragment: plan has ".to_owned();
                text.append(decimal(partitions).as_str());
                text.append(" output partitions but ");
                text.append(decimal(sinks).as_str());
                text.append(" sinks");
                text
            },
            ErrorKind::TopLevelExchange => {
                let mut text = "top-level ".to_owned();
                text.append(self.node.as_str());
                text.append(" is unsupported");
                text
            },
            ErrorKind::MissingVariant { task, variants } => {
                let mut text = "task ".to_owned();
                text.append(decimal(task).as_str());
                text.append(" has no variant among the ");
                text.append(decimal(variants).as_str());
                text.append(" of its leaf");
                text
            },
        }
    }
}

/// The value of a text of decimal digits.
pub open spec fn value_of(text: Seq<char>) -> int
    decreases text.len(),
{
    if text.len() == 0 {
        0
    } else {
        value_of(text.drop_last()) * 10 + (text.last() as int - '0' as int)
    }
}

proof fn digits_have_values(value: usize)
    requires
        value < 10,
    ensures
        digit(value).len() == 1,
        digit(value)[0] as int - '0' as int == value,
        value > 0 ==> digit(value)[0] != '0',
{
    reveal_strlit("0");
    reveal_strlit("1");
    reveal_strlit("2");
    reveal_strlit("3");
    reveal_strlit("4");
    reveal_strlit("5");
    reveal_strlit("6");
    reveal_strlit("7");
    reveal_strlit("8");
    reveal_strlit("9");
}

/// A number that is written can be read back. It is written in digits, without a zero in front
/// unless it is zero.
pub proof fn numbers_can_be_read_back(number: nat)
    ensures
        value_of(digits(number)) == number,
        digits(number).len() > 0,
        forall|i: int| 0 <= i < digits(number).len() ==> '0' <= #[trigger] digits(number)[i] <= '9',
        number > 0 ==> digits(number)[0] != '0',
        number == 0 ==> digits(number).len() == 1,
    decreases number,
{
    let text = digits(number);
    if number < 10 {
        digits_have_values(number as usize);
        reveal_with_fuel(value_of, 2);
        assert(text.drop_last() =~= Seq::empty());
    } else {
        let before = digits(number / 10);
        let last = digit((number % 10) as usize);
        numbers_can_be_read_back(number / 10);
        digits_have_values((number % 10) as usize);
        assert(text.drop_last() =~= before);
        assert(text.last() == last[0]);
        assert forall|i: int| 0 <= i < text.len() implies '0' <= #[trigger] text[i] <= '9' by {
            if i < before.len() {
                assert(text[i] == before[i]);
            } else {
                assert(text[i] == last[0]);
            }
        }
        assert(text[0] == before[0]);
    }
}

} // verus!
