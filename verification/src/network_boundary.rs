use crate::error::{DistributedError, DistributedErrorView, ErrorKind};
use crate::plan::{
    only, share_properties, Operator, OperatorView, Partitioning, Plan, PlanView, Stage, StageView,
};
use std::sync::Arc;
use vstd::prelude::*;

verus! {

/// Where an output partition of a producer goes: to which consumer task, and to which partition
/// of that task's slice.
#[derive(Clone, Copy, PartialEq, Eq, Debug, Structural)]
pub struct PartitionRoute {
    pub consumer_task: usize,
    pub consumer_partition: usize,
}

impl OperatorView {
    /// The partitioning under which a network boundary hands rows to each of its consumer tasks.
    pub open spec fn boundary_output(self) -> Partitioning {
        match self {
            OperatorView::NetworkShuffle { output, .. } => output,
            OperatorView::NetworkCoalesce { output, .. } => output,
            OperatorView::NetworkBroadcast { output, .. } => output,
            _ => arbitrary(),
        }
    }

    /// Where an output partition of the stage below the boundary goes. The consumers of a shuffle
    /// or a broadcast read consecutive slices, those of a coalesce read whole producer tasks.
    pub open spec fn route(self, output_partition: usize) -> Result<
        PartitionRoute,
        DistributedErrorView,
    > {
        let per_task = self.boundary_output().count();
        if self is NetworkCoalesce {
            Err((ErrorKind::UnslicedBoundary { partition: output_partition }).about(self.name()))
        } else if per_task == 0 {
            Err((ErrorKind::NoPartitionsPerTask { partition: output_partition }).about(self.name()))
        } else {
            Ok(
                PartitionRoute {
                    consumer_task: output_partition / per_task,
                    consumer_partition: output_partition % per_task,
                },
            )
        }
    }
}

impl Operator {
    /// The number of partitions that a network boundary hands to each of its consumer tasks.
    pub fn partitions_per_consumer_task(&self) -> (result: usize)
        requires
            self@.is_network_boundary(),
        ensures
            result == self@.boundary_output().count(),
    {
        match self {
            Operator::NetworkShuffle { output, .. } => output.partition_count(),
            Operator::NetworkCoalesce { output, .. } => output.partition_count(),
            Operator::NetworkBroadcast { output, .. } => output.partition_count(),
            _ => 0,
        }
    }

    /// Maps an output partition of the stage below a network boundary to the consumer task, and to
    /// the partition within that task, that reads it.
    pub fn route_partition(&self, output_partition: usize) -> (result: Result<
        PartitionRoute,
        DistributedError,
    >)
        requires
            self@.is_network_boundary(),
        ensures
            match result {
                Ok(route) => self@.route(output_partition) == Ok::<_, DistributedErrorView>(route),
                Err(error) => self@.route(output_partition) == Err::<PartitionRoute, _>(error@),
            },
    {
        match self {
            Operator::NetworkCoalesce { .. } => {
                return Err(
                    DistributedError::about(
                        ErrorKind::UnslicedBoundary { partition: output_partition },
                        self.name(),
                    ),
                );
            },
            _ => {},
        }
        let per_task: usize = self.partitions_per_consumer_task();
        if per_task == 0 {
            return Err(
                DistributedError::about(
                    ErrorKind::NoPartitionsPerTask { partition: output_partition },
                    self.name(),
                ),
            );
        }
        Ok(
            PartitionRoute {
                consumer_task: output_partition / per_task,
                consumer_partition: output_partition % per_task,
            },
        )
    }
}

/// Routing puts partition `local` of the slice of task `task` where that task looks for it.
pub proof fn routing_matches_slicing(op: OperatorView, task: usize, local: usize, global: usize)
    requires
        op is NetworkShuffle || op is NetworkBroadcast,
        local < op.boundary_output().count(),
        global == op.boundary_output().count() * task + local,
    ensures
        op.route(global) == Ok::<_, DistributedErrorView>(
            PartitionRoute { consumer_task: task, consumer_partition: local },
        ),
{
    let per_task = op.boundary_output().count() as int;
    assert(global as int == task as int * per_task + local) by (nonlinear_arith)
        requires
            global == per_task * task + local,
    ;
    vstd::arithmetic::div_mod::lemma_fundamental_div_mod_converse(
        global as int,
        per_task,
        task as int,
        local as int,
    );
}

/// No two partitions of a producer are routed to the same place.
pub proof fn routing_is_injective(op: OperatorView, one: usize, other: usize)
    requires
        op.route(one) is Ok,
        op.route(one) == op.route(other),
    ensures
        one == other,
{
    let per_task = op.boundary_output().count() as int;
    vstd::arithmetic::div_mod::lemma_fundamental_div_mod(one as int, per_task);
    vstd::arithmetic::div_mod::lemma_fundamental_div_mod(other as int, per_task);
}

/// The node that must top the stage below a network boundary.
#[derive(Debug)]
pub enum ProducerHead {
    /// Any node will do.
    Unspecified,
    /// A broadcast with this many output partitions.
    BroadcastExec { output_partitions: usize },
    /// A repartition into this partitioning.
    RepartitionExec { partitioning: Partitioning },
}

/// A [`ProducerHead`] in a message.
#[derive(Debug)]
pub enum ProducerHeadSpec {
    Unspecified,
    BroadcastExec { output_partitions: usize },
    RepartitionExec { partitioning: Option<Partitioning> },
}

/// A partitioning for `tasks` consumer tasks, each of which reads as many partitions as the given
/// one has. Consumers of a range partitioning read one range each.
pub open spec fn scaled(partitioning: Partitioning, tasks: usize) -> Partitioning {
    match partitioning {
        Partitioning::RoundRobinBatch(n) => Partitioning::RoundRobinBatch((n * tasks) as usize),
        Partitioning::Hash(keys, n) => Partitioning::Hash(keys, (n * tasks) as usize),
        Partitioning::Range(bounds, _) => Partitioning::Range(bounds, tasks),
        Partitioning::UnknownPartitioning(n) => Partitioning::UnknownPartitioning(
            (n * tasks) as usize,
        ),
    }
}

/// Whether the partitions for all consumer tasks together can be counted.
pub open spec fn scales(partitioning: Partitioning, tasks: usize) -> bool {
    partitioning is Range || partitioning.count() * tasks <= usize::MAX
}

impl OperatorView {
    /// The node that must top the stage that feeds this boundary for `consumer_tasks` consumers.
    pub open spec fn head(self, consumer_tasks: usize) -> Result<
        ProducerHead,
        DistributedErrorView,
    > {
        match self {
            OperatorView::NetworkShuffle { partitioning, .. } => if scales(
                partitioning,
                consumer_tasks,
            ) {
                Ok(
                    ProducerHead::RepartitionExec {
                        partitioning: scaled(partitioning, consumer_tasks),
                    },
                )
            } else {
                Err(ErrorKind::PartitionCountOverflow.plain())
            },
            OperatorView::NetworkBroadcast { output, .. } => if output.count() * consumer_tasks
                <= usize::MAX {
                Ok(
                    ProducerHead::BroadcastExec {
                        output_partitions: (output.count() * consumer_tasks) as usize,
                    },
                )
            } else {
                Err(ErrorKind::PartitionCountOverflow.plain())
            },
            _ => Ok(ProducerHead::Unspecified),
        }
    }
}

fn scale_partitioning(partitioning: &Partitioning, tasks: usize) -> (result: Result<
    Partitioning,
    DistributedError,
>)
    ensures
        match result {
            Ok(partitioning_scaled) => scales(*partitioning, tasks) && partitioning_scaled
                == scaled(*partitioning, tasks),
            Err(error) => !scales(*partitioning, tasks) && error@
                == ErrorKind::PartitionCountOverflow.plain(),
        },
{
    match partitioning {
        Partitioning::Range(bounds, _) => {
            return Ok(Partitioning::Range(Arc::clone(bounds), tasks));
        },
        _ => {},
    }
    match partitioning.partition_count().checked_mul(tasks) {
        None => Err(DistributedError::new(ErrorKind::PartitionCountOverflow)),
        Some(count) => Ok(
            match partitioning {
                Partitioning::RoundRobinBatch(_) => Partitioning::RoundRobinBatch(count),
                Partitioning::Hash(keys, _) => Partitioning::Hash(Arc::clone(keys), count),
                Partitioning::Range(bounds, _) => {
                    Partitioning::Range(Arc::clone(bounds), tasks)
                },
                Partitioning::UnknownPartitioning(_) => Partitioning::UnknownPartitioning(count),
            },
        ),
    }
}

impl Operator {
    /// The node that must top the stage that feeds this boundary for `consumer_tasks` consumers.
    pub fn producer_head(&self, consumer_tasks: usize) -> (result: Result<
        ProducerHead,
        DistributedError,
    >)
        ensures
            match result {
                Ok(head) => self@.head(consumer_tasks) == Ok::<_, DistributedErrorView>(head),
                Err(error) => self@.head(consumer_tasks) == Err::<ProducerHead, _>(error@),
            },
    {
        match self {
            Operator::NetworkShuffle { partitioning, .. } => {
                let partitioning = scale_partitioning(partitioning, consumer_tasks)?;
                Ok(ProducerHead::RepartitionExec { partitioning })
            },
            Operator::NetworkBroadcast { output, .. } => {
                match output.partition_count().checked_mul(consumer_tasks) {
                    Some(output_partitions) => Ok(ProducerHead::BroadcastExec { output_partitions }),
                    None => Err(DistributedError::new(ErrorKind::PartitionCountOverflow)),
                }
            },
            _ => Ok(ProducerHead::Unspecified),
        }
    }
}

impl PlanView {
    /// The plan below the repartition or broadcast that tops it, if one does.
    pub open spec fn headless(self) -> PlanView {
        if (self.op is Repartition || self.op is Broadcast) && self.children.len() > 0 {
            self.children[0]
        } else {
            self
        }
    }

    /// The plan with this head in place of the repartition or broadcast that tops it.
    pub open spec fn headed(self, head: ProducerHead) -> Result<PlanView, DistributedErrorView> {
        let input = self.headless();
        match head {
            ProducerHead::Unspecified => Ok(input),
            ProducerHead::BroadcastExec { output_partitions } => if input.partition_count()
                > usize::MAX {
                Err(ErrorKind::PartitionCountOverflow.plain())
            } else if input.partition_count() == 0 {
                Err(ErrorKind::BroadcastOfNothing.about(input.op.name()))
            } else {
                Ok(
                    crate::plan::new_node(
                        OperatorView::Broadcast {
                            consumer_tasks: output_partitions / (input.partition_count() as usize),
                        },
                        seq![input],
                    ),
                )
            },
            ProducerHead::RepartitionExec { partitioning } => Ok(
                crate::plan::new_node(OperatorView::Repartition { partitioning }, seq![input]),
            ),
        }
    }

    /// The plan with a sampler right below the repartition or broadcast that tops it.
    pub open spec fn sampled(self) -> PlanView {
        if (self.op is Repartition || self.op is Broadcast) && self.children.len() > 0 {
            self.over(
                seq![crate::plan::new_node(OperatorView::Sampler, seq![self.children[0]])],
            )
        } else {
            self
        }
    }
}

fn without_head(input: &Arc<Plan>) -> (result: Arc<Plan>)
    ensures
        result@ == input@.headless(),
{
    let has_head = match &*input.op {
        Operator::Repartition { .. } => true,
        Operator::Broadcast { .. } => true,
        _ => false,
    };
    if has_head && input.children.len() > 0 {
        proof {
            assert(input@.children[0] == input.children@[0]@);
        }
        Arc::clone(&input.children[0])
    } else {
        Arc::clone(input)
    }
}

impl ProducerHead {
    /// Makes sure that this head tops the plan, in place of the head that it had.
    pub fn insert(self, input: &Arc<Plan>) -> (result: Result<Arc<Plan>, DistributedError>)
        ensures
            crate::error::viewed(result) == input@.headed(self),
    {
        let input = without_head(input);
        match self {
            ProducerHead::Unspecified => Ok(input),
            ProducerHead::BroadcastExec { output_partitions } => {
                let partitions: usize = input.partition_count()?;
                if partitions == 0 {
                    return Err(
                        DistributedError::about(ErrorKind::BroadcastOfNothing, input.op.name()),
                    );
                }
                let consumer_tasks: usize = output_partitions / partitions;
                Ok(Plan::node(Operator::Broadcast { consumer_tasks }, only(input)))
            },
            ProducerHead::RepartitionExec { partitioning } => Ok(
                Plan::node(Operator::Repartition { partitioning }, only(input)),
            ),
        }
    }

    /// Puts a sampler right below the repartition or broadcast that tops the plan, if one does.
    pub fn insert_sampler(input: &Arc<Plan>) -> (result: Arc<Plan>)
        ensures
            result@ == input@.sampled(),
    {
        let has_head = match &*input.op {
            Operator::Repartition { .. } => true,
            Operator::Broadcast { .. } => true,
            _ => false,
        };
        if has_head && input.children.len() > 0 {
            let child = Arc::clone(&input.children[0]);
            proof {
                assert(input@.children[0] == child@);
            }
            input.with_new_children(only(Plan::node(Operator::Sampler, only(child))))
        } else {
            Arc::clone(input)
        }
    }

    /// The message for this head.
    pub fn to_spec(&self) -> (result: ProducerHeadSpec)
        ensures
            result == head_message(*self),
    {
        match self {
            ProducerHead::Unspecified => ProducerHeadSpec::Unspecified,
            ProducerHead::BroadcastExec { output_partitions } => ProducerHeadSpec::BroadcastExec {
                output_partitions: *output_partitions,
            },
            ProducerHead::RepartitionExec { partitioning } => ProducerHeadSpec::RepartitionExec {
                partitioning: Some(partitioning.share()),
            },
        }
    }

    /// The head that a message stands for. A repartition needs a partitioning.
    pub fn from_spec(spec: &ProducerHeadSpec) -> (result: Result<ProducerHead, DistributedError>)
        ensures
            match result {
                Ok(head) => *spec == head_message(head),
                Err(error) => *spec == (ProducerHeadSpec::RepartitionExec { partitioning: None })
                    && error@ == ErrorKind::UnreadablePartitioning.plain(),
            },
    {
        match spec {
            ProducerHeadSpec::Unspecified => Ok(ProducerHead::Unspecified),
            ProducerHeadSpec::BroadcastExec { output_partitions } => Ok(
                ProducerHead::BroadcastExec { output_partitions: *output_partitions },
            ),
            ProducerHeadSpec::RepartitionExec { partitioning } => match partitioning {
                Some(partitioning) => Ok(
                    ProducerHead::RepartitionExec { partitioning: partitioning.share() },
                ),
                None => Err(DistributedError::new(ErrorKind::UnreadablePartitioning)),
            },
        }
    }
}

pub open spec fn head_message(head: ProducerHead) -> ProducerHeadSpec {
    match head {
        ProducerHead::Unspecified => ProducerHeadSpec::Unspecified,
        ProducerHead::BroadcastExec { output_partitions } => ProducerHeadSpec::BroadcastExec {
            output_partitions,
        },
        ProducerHead::RepartitionExec { partitioning } => ProducerHeadSpec::RepartitionExec {
            partitioning: Some(partitioning),
        },
    }
}

/// Two heads with the same message are the same head, so reading a written head gives it back.
pub proof fn head_round_trip(one: ProducerHead, other: ProducerHead)
    requires
        head_message(one) == head_message(other),
    ensures
        one == other,
{
}

/// A head replaces the one before it, so a second head leaves nothing of the first.
pub proof fn heads_replace_each_other(plan: PlanView, first: ProducerHead, second: ProducerHead)
    requires
        !(first is Unspecified),
        plan.headed(first) is Ok,
    ensures
        plan.headed(first)->Ok_0.headed(second) == plan.headed(second),
{
}

/// The stage below a shuffle that was given its head produces exactly the partitions that the
/// consumer tasks read between them.
pub proof fn shuffle_heads_feed_every_consumer(op: OperatorView, input: PlanView, tasks: usize)
    requires
        op matches OperatorView::NetworkShuffle { partitioning, .. } && !(partitioning is Range),
        op.head(tasks) is Ok,
    ensures
        input.headed(op.head(tasks)->Ok_0) is Ok,
        input.headed(op.head(tasks)->Ok_0)->Ok_0.partition_count()
            == op->NetworkShuffle_partitioning.count() * tasks,
{
}

impl OperatorView {
    /// The network boundary with another stage that feeds it.
    pub open spec fn fed_by(self, stage: StageView) -> OperatorView {
        match self {
            OperatorView::NetworkShuffle { partitioning, output, properties, .. } => {
                OperatorView::NetworkShuffle { stage, partitioning, output, properties }
            },
            OperatorView::NetworkCoalesce { output, consumer_tasks, properties, .. } => {
                OperatorView::NetworkCoalesce { stage, output, consumer_tasks, properties }
            },
            OperatorView::NetworkBroadcast { output, properties, .. } => {
                OperatorView::NetworkBroadcast { stage, output, properties }
            },
            _ => self,
        }
    }
}

impl Plan {
    /// The network boundary with another stage that feeds it. The plan of a local stage is its
    /// input, a remote one has none here.
    pub fn with_input_stage(&self, stage: Stage, input: Vec<Arc<Plan>>) -> (result: Arc<Plan>)
        ensures
            result@ == self@.turned_into(self@.op.fed_by(stage@), crate::plan::views(input@)),
    {
        let op = match &*self.op {
            Operator::NetworkShuffle { stage: _, partitioning, output, properties } => Arc::new(
                Operator::NetworkShuffle {
                    stage,
                    partitioning: partitioning.share(),
                    output: output.share(),
                    properties: share_properties(properties),
                },
            ),
            Operator::NetworkCoalesce { stage: _, output, consumer_tasks, properties } => Arc::new(
                Operator::NetworkCoalesce {
                    stage,
                    output: output.share(),
                    consumer_tasks: *consumer_tasks,
                    properties: share_properties(properties),
                },
            ),
            Operator::NetworkBroadcast { stage: _, output, properties } => Arc::new(
                Operator::NetworkBroadcast {
                    stage,
                    output: output.share(),
                    properties: share_properties(properties),
                },
            ),
            _ => Arc::clone(&self.op),
        };
        self.turn_into(op, input)
    }
}

} // verus!
