//! Makes the network boundaries that cut a plan into stages.
use crate::error::{DistributedError, DistributedErrorView, ErrorKind};
use crate::ids::Uuid;
use crate::inject_network_boundaries::divide_up;
use crate::plan::{
    only, share_properties, Operator, OperatorView, Partitioning, Plan, PlanView, Stage, StageView,
};
use std::sync::Arc;
use vstd::prelude::*;

verus! {

/// The ways in which rows cross from one stage to the next.
#[derive(Debug, Clone, Copy, PartialEq, Eq, Structural)]
pub enum BoundaryKind {
    Shuffle,
    Coalesce,
    Broadcast,
}

impl BoundaryKind {
    /// The name of the kind.
    pub open spec fn label(self) -> Seq<char> {
        match self {
            BoundaryKind::Shuffle => "Shuffle"@,
            BoundaryKind::Coalesce => "Coalesce"@,
            BoundaryKind::Broadcast => "Broadcast"@,
        }
    }

    /// The name of the kind.
    pub fn name(&self) -> (result: String)
        ensures
            result@ == self.label(),
    {
        match self {
            BoundaryKind::Shuffle => "Shuffle".to_owned(),
            BoundaryKind::Coalesce => "Coalesce".to_owned(),
            BoundaryKind::Broadcast => "Broadcast".to_owned(),
        }
    }
}

/// The partitions that a task reads that gathers its share of `tasks` tasks with this many
/// partitions each, where `consumer_tasks` tasks deal them out among themselves.
pub open spec fn gathered(partitions: nat, tasks: usize, consumer_tasks: usize) -> nat {
    let share = if consumer_tasks <= 1 {
        tasks
    } else {
        crate::inject_network_boundaries::div_ceil(tasks, consumer_tasks)
    };
    partitions * share as nat
}

/// The network boundary of a kind over a stage of `tasks` tasks that execute `plan`. A shuffle
/// keeps the partitioning of the repartition that feeds it.
pub open spec fn boundary_op(
    kind: BoundaryKind,
    stage: StageView,
    tasks: usize,
    consumer_tasks: usize,
    plan: PlanView,
) -> Result<OperatorView, DistributedErrorView> {
    let partitions = plan.partition_count();
    let output = if kind is Coalesce {
        gathered(partitions, tasks, consumer_tasks)
    } else {
        partitions
    };
    if output > usize::MAX || partitions > usize::MAX {
        Err(ErrorKind::PartitionCountOverflow.plain())
    } else {
        let unknown = Partitioning::UnknownPartitioning(output as usize);
        let partitioning = match plan.op {
            OperatorView::Repartition { partitioning } => partitioning,
            _ => unknown,
        };
        Ok(
            match kind {
                BoundaryKind::Shuffle => OperatorView::NetworkShuffle {
                    stage,
                    partitioning,
                    output: partitioning,
                    properties: plan.properties(),
                },
                BoundaryKind::Broadcast => OperatorView::NetworkBroadcast {
                    stage,
                    output: unknown,
                    properties: plan.properties(),
                },
                BoundaryKind::Coalesce => OperatorView::NetworkCoalesce {
                    stage,
                    output: unknown,
                    consumer_tasks,
                    properties: plan.properties(),
                },
            },
        )
    }
}

/// The network boundary of a kind over a stage of `tasks` tasks that execute `plan`.
pub fn build_boundary(
    kind: BoundaryKind,
    stage: Stage,
    tasks: usize,
    consumer_tasks: usize,
    plan: &Plan,
) -> (result: Result<Operator, DistributedError>)
    ensures
        crate::error::viewed(result) == boundary_op(kind, stage@, tasks, consumer_tasks, plan@),
{
    let partitions: usize = plan.partition_count()?;
    let properties = match &plan.facts {
        Some(facts) => share_properties(&facts.properties),
        None => None,
    };
    match kind {
        BoundaryKind::Shuffle => {
            let partitioning = match &*plan.op {
                Operator::Repartition { partitioning } => partitioning.share(),
                _ => Partitioning::UnknownPartitioning(partitions),
            };
            let output = partitioning.share();
            Ok(Operator::NetworkShuffle { stage, partitioning, output, properties })
        },
        BoundaryKind::Broadcast => {
            let output = Partitioning::UnknownPartitioning(partitions);
            Ok(Operator::NetworkBroadcast { stage, output, properties })
        },
        BoundaryKind::Coalesce => {
            let share: usize = if consumer_tasks <= 1 {
                tasks
            } else {
                divide_up(tasks, consumer_tasks)
            };
            match partitions.checked_mul(share) {
                Some(gathered) => {
                    let output = Partitioning::UnknownPartitioning(gathered);
                    Ok(Operator::NetworkCoalesce { stage, output, consumer_tasks, properties })
                },
                None => Err(DistributedError::new(ErrorKind::PartitionCountOverflow)),
            }
        },
    }
}

/// What makes the network boundaries of a plan. An embedder with a transport of its own makes its
/// own.
pub trait BoundaryFactory {
    /// Whether the factory is in a state to make boundaries.
    spec fn is_ready(&self) -> bool;

    /// Makes the boundary over a stage whose rows are spread by their keys.
    fn shuffle(
        &mut self,
        child: Arc<Plan>,
        query_id: Uuid,
        stage_id: usize,
        task_count: usize,
        input_task_count: usize,
    ) -> (result: Result<Arc<Plan>, DistributedError>)
        requires
            old(self).is_ready(),
        ensures
            final(self).is_ready(),
    ;

    /// Makes the boundary over a stage whose tasks are gathered into fewer.
    fn coalesce(
        &mut self,
        child: Arc<Plan>,
        query_id: Uuid,
        stage_id: usize,
        task_count: usize,
        input_task_count: usize,
    ) -> (result: Result<Arc<Plan>, DistributedError>)
        requires
            old(self).is_ready(),
        ensures
            final(self).is_ready(),
    ;

    /// Makes the boundary over a stage whose rows all tasks above it read.
    fn broadcast(
        &mut self,
        child: Arc<Plan>,
        query_id: Uuid,
        stage_id: usize,
        task_count: usize,
        input_task_count: usize,
    ) -> (result: Result<Arc<Plan>, DistributedError>)
        requires
            old(self).is_ready(),
        ensures
            final(self).is_ready(),
    ;
}

/// The network boundary of a kind over a stage whose plan is at hand.
pub open spec fn boundary_over(
    kind: BoundaryKind,
    child: PlanView,
    query_id: Uuid,
    stage_id: usize,
    task_count: usize,
    input_task_count: usize,
) -> Result<PlanView, DistributedErrorView> {
    match boundary_op(
        kind,
        StageView::Local { query_id, num: stage_id, tasks: input_task_count },
        input_task_count,
        task_count,
        child,
    ) {
        Ok(op) => Ok(crate::plan::new_node(op, seq![child])),
        Err(error) => Err(error),
    }
}

/// Makes the network boundaries of this library.
#[derive(Debug)]
pub struct DefaultBoundaryFactory;

impl DefaultBoundaryFactory {
    fn make(
        &self,
        kind: BoundaryKind,
        child: Arc<Plan>,
        query_id: Uuid,
        stage_id: usize,
        task_count: usize,
        input_task_count: usize,
    ) -> (result: Result<Arc<Plan>, DistributedError>)
        ensures
            crate::distributed::plan_outcome(result) == boundary_over(
                kind,
                child@,
                query_id,
                stage_id,
                task_count,
                input_task_count,
            ),
    {
        let stage = Stage::Local { query_id, num: stage_id, tasks: input_task_count };
        let op = build_boundary(kind, stage, input_task_count, task_count, &child)?;
        Ok(Plan::node(op, only(child)))
    }
}

impl BoundaryFactory for DefaultBoundaryFactory {
    open spec fn is_ready(&self) -> bool {
        true
    }

    fn shuffle(
        &mut self,
        child: Arc<Plan>,
        query_id: Uuid,
        stage_id: usize,
        task_count: usize,
        input_task_count: usize,
    ) -> (result: Result<Arc<Plan>, DistributedError>)
        ensures
            crate::distributed::plan_outcome(result) == boundary_over(
                BoundaryKind::Shuffle,
                child@,
                query_id,
                stage_id,
                task_count,
                input_task_count,
            ),
    {
        self.make(
            BoundaryKind::Shuffle,
            child,
            query_id,
            stage_id,
            task_count,
            input_task_count,
        )
    }

    fn coalesce(
        &mut self,
        child: Arc<Plan>,
        query_id: Uuid,
        stage_id: usize,
        task_count: usize,
        input_task_count: usize,
    ) -> (result: Result<Arc<Plan>, DistributedError>)
        ensures
            crate::distributed::plan_outcome(result) == boundary_over(
                BoundaryKind::Coalesce,
                child@,
                query_id,
                stage_id,
                task_count,
                input_task_count,
            ),
    {
        self.make(
            BoundaryKind::Coalesce,
            child,
            query_id,
            stage_id,
            task_count,
            input_task_count,
        )
    }

    fn broadcast(
        &mut self,
        child: Arc<Plan>,
        query_id: Uuid,
        stage_id: usize,
        task_count: usize,
        input_task_count: usize,
    ) -> (result: Result<Arc<Plan>, DistributedError>)
        ensures
            crate::distributed::plan_outcome(result) == boundary_over(
                BoundaryKind::Broadcast,
                child@,
                query_id,
                stage_id,
                task_count,
                input_task_count,
            ),
    {
        self.make(
            BoundaryKind::Broadcast,
            child,
            query_id,
            stage_id,
            task_count,
            input_task_count,
        )
    }
}

/// Makes network boundaries out of resources that were put aside before planning, one for each
/// boundary, in the order in which boundaries are asked for.
pub struct PooledBoundaryFactory<R, F> where
    F: Fn(BoundaryKind, R, Arc<Plan>, Uuid, usize, usize, usize) -> Result<
        Arc<Plan>,
        DistributedError,
    >,
 {
    pub pool: Vec<R>,
    pub emit: F,
}

impl<R, F> PooledBoundaryFactory<R, F> where
    F: Fn(BoundaryKind, R, Arc<Plan>, Uuid, usize, usize, usize) -> Result<
        Arc<Plan>,
        DistributedError,
    >,
 {
    /// Whether the callback takes whatever it may be handed.
    pub open spec fn emits(self) -> bool {
        forall|
            kind: BoundaryKind,
            resource: R,
            child: Arc<Plan>,
            query_id: Uuid,
            stage_id: usize,
            task_count: usize,
            input_task_count: usize,
        |
            #[trigger]
            self.emit.requires(
                (kind, resource, child, query_id, stage_id, task_count, input_task_count),
            )
    }

    /// Whether a call came to `result` with `after` left in the pool.
    pub open spec fn dispatched(
        self,
        kind: BoundaryKind,
        child: Arc<Plan>,
        query_id: Uuid,
        stage_id: usize,
        task_count: usize,
        input_task_count: usize,
        after: PooledBoundaryFactory<R, F>,
        result: Result<Arc<Plan>, DistributedError>,
    ) -> bool {
        &&& after.emit == self.emit
        &&& if self.pool@.len() == 0 {
            &&& after.pool@ == self.pool@
            &&& result matches Err(error) && error@ == (ErrorKind::PoolExhausted {
                stage_id,
                kind,
            }).plain()
        } else {
            &&& after.pool@ == self.pool@.drop_first()
            &&& self.emit.ensures(
                (
                    kind,
                    self.pool@[0],
                    child,
                    query_id,
                    stage_id,
                    task_count,
                    input_task_count,
                ),
                result,
            )
        }
    }

    pub fn new(pool: Vec<R>, emit: F) -> (result: Self)
        ensures
            result.pool@ == pool@,
            result.emit == emit,
            result.emits() ==> result.is_ready(),
    {
        PooledBoundaryFactory { pool, emit }
    }

    /// How many resources have not been used.
    pub fn remaining(&self) -> (result: usize)
        ensures
            result == self.pool@.len(),
    {
        self.pool.len()
    }

    /// Checks that all resources have been used, which they have if as many were put aside as
    /// there are boundaries.
    pub fn assert_drained(&self) -> (result: Result<(), DistributedError>)
        ensures
            match result {
                Ok(_) => self.pool@.len() == 0,
                Err(error) => self.pool@.len() > 0 && error@ == (ErrorKind::PoolNotDrained {
                    left: self.pool@.len() as usize,
                }).plain(),
            },
    {
        let left: usize = self.remaining();
        if left > 0 {
            return Err(DistributedError::new(ErrorKind::PoolNotDrained { left }));
        }
        Ok(())
    }

    fn dispatch(
        &mut self,
        kind: BoundaryKind,
        child: Arc<Plan>,
        query_id: Uuid,
        stage_id: usize,
        task_count: usize,
        input_task_count: usize,
    ) -> (result: Result<Arc<Plan>, DistributedError>)
        requires
            old(self).emits(),
        ensures
            final(self).emits(),
            old(self).dispatched(
                kind,
                child,
                query_id,
                stage_id,
                task_count,
                input_task_count,
                *final(self),
                result,
            ),
    {
        if self.pool.len() == 0 {
            return Err(DistributedError::new(ErrorKind::PoolExhausted { stage_id, kind }));
        }
        let resource = self.pool.remove(0);
        proof {
            assert(self.pool@ =~= old(self).pool@.drop_first());
        }
        (self.emit)(kind, resource, child, query_id, stage_id, task_count, input_task_count)
    }
}

impl<R, F> BoundaryFactory for PooledBoundaryFactory<R, F> where
    F: Fn(BoundaryKind, R, Arc<Plan>, Uuid, usize, usize, usize) -> Result<
        Arc<Plan>,
        DistributedError,
    >,
 {
    open spec fn is_ready(&self) -> bool {
        self.emits()
    }

    fn shuffle(
        &mut self,
        child: Arc<Plan>,
        query_id: Uuid,
        stage_id: usize,
        task_count: usize,
        input_task_count: usize,
    ) -> (result: Result<Arc<Plan>, DistributedError>)
        ensures
            old(self).dispatched(
                BoundaryKind::Shuffle,
                child,
                query_id,
                stage_id,
                task_count,
                input_task_count,
                *final(self),
                result,
            ),
    {
        self.dispatch(
            BoundaryKind::Shuffle,
            child,
            query_id,
            stage_id,
            task_count,
            input_task_count,
        )
    }

    fn coalesce(
        &mut self,
        child: Arc<Plan>,
        query_id: Uuid,
        stage_id: usize,
        task_count: usize,
        input_task_count: usize,
    ) -> (result: Result<Arc<Plan>, DistributedError>)
        ensures
            old(self).dispatched(
                BoundaryKind::Coalesce,
                child,
                query_id,
                stage_id,
                task_count,
                input_task_count,
                *final(self),
                result,
            ),
    {
        self.dispatch(
            BoundaryKind::Coalesce,
            child,
            query_id,
            stage_id,
            task_count,
            input_task_count,
        )
    }

    fn broadcast(
        &mut self,
        child: Arc<Plan>,
        query_id: Uuid,
        stage_id: usize,
        task_count: usize,
        input_task_count: usize,
    ) -> (result: Result<Arc<Plan>, DistributedError>)
        ensures
            old(self).dispatched(
                BoundaryKind::Broadcast,
                child,
                query_id,
                stage_id,
                task_count,
                input_task_count,
                *final(self),
                result,
            ),
    {
        self.dispatch(
            BoundaryKind::Broadcast,
            child,
            query_id,
            stage_id,
            task_count,
            input_task_count,
        )
    }
}

} // verus!
