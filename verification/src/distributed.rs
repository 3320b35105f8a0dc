//! The root of a distributed query.
use crate::distributed_config::{DistributedConfig, SessionConfig};
use crate::error::{DistributedError, DistributedErrorView, ErrorKind};
use crate::metrics_store::{MetricsStore, TaskKey};
use crate::plan::{require_one_child, Plan, PlanView, StageView};
use crate::prepare_static_plan::{
    prepare_static_plan, PreparedPlan, RouteReply, StaticOutcome, StaticStep,
};
use std::sync::Arc;
use vstd::prelude::*;

verus! {

/// Executes a plan in distributed mode.
#[derive(Debug)]
pub struct DistributedExec {
    /// The plan before execution. Where task counts are decided before execution, it has all of
    /// its network boundaries; otherwise it has none.
    pub base_plan: Arc<Plan>,
    /// The plan that was executed, for display.
    pub plan_for_viz: Option<Arc<Plan>>,
    /// The stage that the coordinator executed itself.
    pub head_stage: Option<Arc<Plan>>,
    /// Where the tasks of the query report their metrics, if anyone wants them.
    pub metrics_store: Option<MetricsStore>,
}

impl StageView {
    /// The names of the tasks of the stage.
    pub open spec fn task_keys(self) -> Seq<TaskKey> {
        Seq::new(
            self.task_count(),
            |i: int|
                TaskKey {
                    query_id: self.query_id(),
                    stage_id: self.num(),
                    task_number: i as usize,
                },
        )
    }
}

impl PlanView {
    /// The names of the tasks of all stages below the plan, those of higher stages first.
    pub open spec fn task_keys(self) -> Seq<TaskKey>
        decreases self, 0nat,
    {
        if self.op.is_network_boundary() {
            self.op.input_stage().task_keys() + crate::distributed::all_task_keys(self.children)
        } else {
            crate::distributed::all_task_keys(self.children)
        }
    }
}

/// The names of the tasks of all stages below the plans.
pub open spec fn all_task_keys(plans: Seq<PlanView>) -> Seq<TaskKey>
    decreases plans, 1nat,
{
    if plans.len() == 0 {
        Seq::empty()
    } else {
        all_task_keys(plans.drop_last()) + plans.last().task_keys()
    }
}

fn collect_task_keys(plan: &Plan, keys: &mut Vec<TaskKey>)
    ensures
        final(keys)@ == old(keys)@ + plan@.task_keys(),
    decreases plan,
{
    let ghost start = keys@;
    let ghost own = if plan@.op.is_network_boundary() {
        plan@.op.input_stage().task_keys()
    } else {
        Seq::empty()
    };
    if let Some(stage) = plan.op.as_network_boundary() {
        let tasks: usize = stage.task_count();
        let mut task_number: usize = 0;
        while task_number < tasks
            invariant
                0 <= task_number <= tasks,
                tasks == stage@.task_count(),
                keys@ =~= start + stage@.task_keys().take(task_number as int),
            decreases tasks - task_number,
        {
            keys.push(
                TaskKey { query_id: stage.query_id(), stage_id: stage.num(), task_number },
            );
            task_number += 1;
        }
        proof {
            assert(stage@.task_keys().take(tasks as int) =~= stage@.task_keys());
        }
    }
    let ghost all = plan@.children;
    proof {
        assert(all.take(0) =~= Seq::empty());
        assert(keys@ =~= start + own + all_task_keys(all.take(0)));
    }
    let mut i: usize = 0;
    while i < plan.children.len()
        invariant
            0 <= i <= plan.children@.len(),
            all == plan@.children,
            all.len() == plan.children@.len(),
            keys@ =~= start + own + all_task_keys(all.take(i as int)),
        decreases plan.children@.len() - i,
    {
        proof {
            assert(all.take(i + 1).drop_last() =~= all.take(i as int));
            assert(all[i as int] == plan.children@[i as int]@);
        }
        collect_task_keys(&plan.children[i], keys);
        i += 1;
    }
    proof {
        assert(all.take(i as int) =~= all);
        assert(own + all_task_keys(all) =~= plan@.task_keys());
        assert(start + own + all_task_keys(all) =~= start + (own + all_task_keys(all)));
    }
}

/// What becomes of a plan that should be there.
pub open spec fn plan_outcome(result: Result<Arc<Plan>, DistributedError>) -> Result<
    PlanView,
    DistributedErrorView,
> {
    match result {
        Ok(plan) => Ok(plan@),
        Err(error) => Err(error@),
    }
}

impl DistributedExec {
    pub fn new(base_plan: Arc<Plan>) -> (result: DistributedExec)
        ensures
            result == (DistributedExec {
                base_plan,
                plan_for_viz: None,
                head_stage: None,
                metrics_store: None,
            }),
    {
        DistributedExec { base_plan, plan_for_viz: None, head_stage: None, metrics_store: None }
    }

    /// Turns the gathering of the metrics of tasks on or off.
    pub fn with_metrics_collection(self, enabled: bool) -> (result: DistributedExec)
        ensures
            result.base_plan == self.base_plan,
            result.plan_for_viz == self.plan_for_viz,
            result.head_stage == self.head_stage,
            match result.metrics_store {
                Some(store) => enabled && store@ == Map::<
                    TaskKey,
                    Arc<crate::metrics_store::TaskMetrics>,
                >::empty(),
                None => !enabled,
            },
    {
        let metrics_store = if enabled {
            Some(MetricsStore::new())
        } else {
            None
        };
        DistributedExec {
            base_plan: self.base_plan,
            plan_for_viz: self.plan_for_viz,
            head_stage: self.head_stage,
            metrics_store,
        }
    }

    /// The tasks that have to report before the metrics of the query are complete: none where no
    /// metrics are gathered or the query has not been executed.
    pub fn awaited_tasks(&self) -> (result: Vec<TaskKey>)
        ensures
            result@ == match (self.metrics_store, self.plan_for_viz) {
                (Some(_), Some(plan)) => plan@.task_keys(),
                _ => Seq::empty(),
            },
    {
        let mut keys: Vec<TaskKey> = Vec::new();
        if self.metrics_store.is_some() {
            if let Some(plan) = &self.plan_for_viz {
                collect_task_keys(plan, &mut keys);
                proof {
                    assert(Seq::<TaskKey>::empty() + plan@.task_keys() =~= plan@.task_keys());
                }
            }
        }
        keys
    }

    /// Whether all tasks have reported whose metrics are waited for.
    pub fn metrics_are_complete(&self) -> (result: bool)
        ensures
            result == match (self.metrics_store, self.plan_for_viz) {
                (Some(store), Some(plan)) => forall|i: int|
                    0 <= i < plan@.task_keys().len() ==> store@.contains_key(
                        #[trigger] plan@.task_keys()[i],
                    ),
                _ => true,
            },
    {
        let keys = self.awaited_tasks();
        match &self.metrics_store {
            Some(store) => store.has_all(&keys),
            None => true,
        }
    }

    /// Notes what an execution made of the plan.
    pub fn prepared(&mut self, plan: PreparedPlan)
        ensures
            final(self).base_plan == old(self).base_plan,
            final(self).metrics_store == old(self).metrics_store,
            final(self).plan_for_viz == Some(plan.plan_for_viz),
            final(self).head_stage == Some(plan.head_stage),
    {
        self.plan_for_viz = Some(plan.plan_for_viz);
        self.head_stage = Some(plan.head_stage);
    }

    /// The plan that was executed. Before any execution there is none.
    pub fn plan_for_viz(&self) -> (result: Result<Arc<Plan>, DistributedError>)
        ensures
            plan_outcome(result) == match self.plan_for_viz {
                Some(plan) => Ok(plan@),
                None => Err(ErrorKind::NotPrepared.plain()),
            },
    {
        match &self.plan_for_viz {
            Some(plan) => Ok(Arc::clone(plan)),
            None => Err(DistributedError::new(ErrorKind::NotPrepared)),
        }
    }

    /// The stage that the coordinator executed itself. Before any execution there is none.
    pub fn head_stage(&self) -> (result: Result<Arc<Plan>, DistributedError>)
        ensures
            plan_outcome(result) == match self.head_stage {
                Some(stage) => Ok(stage@),
                None => Err(ErrorKind::NoHeadStage.plain()),
            },
    {
        match &self.head_stage {
            Some(stage) => Ok(Arc::clone(stage)),
            None => Err(DistributedError::new(ErrorKind::NoHeadStage)),
        }
    }

    /// The same root over another plan, which has not been executed yet.
    pub fn with_new_children(self, children: &Vec<Arc<Plan>>) -> (result: Result<
        DistributedExec,
        DistributedError,
    >)
        ensures
            match result {
                Ok(root) => children@.len() == 1 && root == (DistributedExec {
                    base_plan: children@[0],
                    plan_for_viz: None,
                    head_stage: None,
                    metrics_store: self.metrics_store,
                }),
                Err(error) => children@.len() != 1 && error@ == (ErrorKind::ExpectedOneChild {
                    got: children@.len() as usize,
                }).plain(),
            },
    {
        let base_plan = require_one_child(children)?;
        Ok(
            DistributedExec {
                base_plan,
                plan_for_viz: None,
                head_stage: None,
                metrics_store: self.metrics_store,
            },
        )
    }

    /// Checks that a partition can be executed. Workers are picked anew by every execution, so the
    /// root has a single partition.
    pub fn check_partition(&self, partition: usize) -> (result: Result<(), DistributedError>)
        ensures
            match result {
                Ok(_) => partition == 0,
                Err(error) => partition > 0 && error@ == (ErrorKind::UnknownPartition {
                    partition,
                }).plain(),
            },
    {
        if partition > 0 {
            return Err(DistributedError::new(ErrorKind::UnknownPartition { partition }));
        }
        Ok(())
    }

    /// Checks that an embedder can drive the plan itself, which takes task counts that were decided
    /// before execution.
    fn check_in_process(&self, session: &SessionConfig) -> (result: Result<
        (),
        DistributedError,
    >)
        ensures
            match (session.distributed, result) {
                (None, Err(error)) => error@ == ErrorKind::MissingDistributedConfig.plain(),
                (Some(config), Err(error)) => config.dynamic_task_count && error@
                    == ErrorKind::DynamicInProcess.plain(),
                (Some(config), Ok(_)) => !config.dynamic_task_count,
                (None, Ok(_)) => false,
            },
    {
        let config = DistributedConfig::from_session_config(session)?;
        if config.dynamic_task_count {
            return Err(DistributedError::new(ErrorKind::DynamicInProcess));
        }
        Ok(())
    }

    /// Where the tasks of the query report their metrics, if anyone wants them.
    pub fn metrics_store(&self) -> (result: Option<&MetricsStore>)
        ensures
            match (result, self.metrics_store) {
                (Some(store), Some(own)) => *store == own,
                (None, None) => true,
                _ => false,
            },
    {
        self.metrics_store.as_ref()
    }

    /// Sends the stages of the plan to workers, as far as these were picked, and hands out the
    /// stage that stays for an embedder to drive. Nothing drives it otherwise.
    pub fn prepare_in_process_plan(&mut self, session: &SessionConfig, replies: &Vec<RouteReply>)
        -> (result: Result<StaticStep, DistributedError>)
        ensures
            match (session.distributed, result) {
                (None, Err(error)) => *final(self) == *old(self) && error@
                    == ErrorKind::MissingDistributedConfig.plain(),
                (Some(config), Err(error)) => *final(self) == *old(self)
                    && config.dynamic_task_count && error@ == ErrorKind::DynamicInProcess.plain(),
                (Some(config), Ok(step)) => {
                    &&& !config.dynamic_task_count
                    &&& (
                        crate::prepare_static_plan::request_views(step.requests@),
                        step.outcome@,
                    ) == crate::prepare_static_plan::static_step(
                        old(self).base_plan@,
                        crate::prepare_static_plan::reply_views(replies@),
                    )
                    &&& final(self).base_plan == old(self).base_plan
                    &&& final(self).metrics_store == old(self).metrics_store
                    &&& match step.outcome {
                        StaticOutcome::Done(plan) => final(self).plan_for_viz == Some(
                            plan.plan_for_viz,
                        ) && final(self).head_stage == Some(plan.head_stage),
                        _ => *final(self) == *old(self),
                    }
                },
                (None, Ok(_)) => false,
            },
    {
        self.check_in_process(session)?;
        let step = prepare_static_plan(&self.base_plan, replies);
        if let StaticOutcome::Done(plan) = &step.outcome {
            self.prepared(
                PreparedPlan {
                    head_stage: Arc::clone(&plan.head_stage),
                    plan_for_viz: Arc::clone(&plan.plan_for_viz),
                },
            );
        }
        Ok(step)
    }
}

} // verus!
