//! What preparing the stages of a plan leaves of it, told by the fields of its nodes.
use crate::error::ErrorKind;
use crate::ids::Uuid;
use crate::plan::{OperatorView, Partitioning, PlanView, StageView};
use vstd::prelude::*;

verus! {

/// The number of tasks of a stage.
pub open spec fn tasks_in(stage: StageView) -> int {
    match stage {
        StageView::Local { tasks, .. } => tasks as int,
        StageView::Remote { workers, .. } => workers.len() as int,
    }
}

/// The number of tasks that execute a child of the operator, which `tasks` tasks execute.
pub open spec fn tasks_below(op: OperatorView, child: int, tasks: usize) -> int {
    match op {
        OperatorView::ChildrenIsolatorUnion { task_idx_map, .. } => {
            crate::validation_laws::tasks_naming(task_idx_map, child).len() as int
        },
        OperatorView::NetworkShuffle { stage, .. } => tasks_in(stage),
        OperatorView::NetworkCoalesce { stage, .. } => tasks_in(stage),
        OperatorView::NetworkBroadcast { stage, .. } => tasks_in(stage),
        _ => tasks as int,
    }
}

/// Whether the tasks of all stages and shares of the operator can be counted.
pub open spec fn has_countable_tasks(op: OperatorView) -> bool {
    forall|child: int| 0 <= #[trigger] tasks_below(op, child, 0) <= usize::MAX
}

/// A walk that counts tasks gives each child as many as execute it: those of its stage below a
/// network boundary, those that were dealt to it below an isolated union, and otherwise all.
pub proof fn tasks_are_handed_down(op: OperatorView, child: int, tasks: usize)
    requires
        tasks_below(op, child, tasks) <= usize::MAX,
    ensures
        op.child_tasks(child, tasks) == tasks_below(op, child, tasks),
{
    if let OperatorView::ChildrenIsolatorUnion { task_idx_map, .. } = op {
        crate::validation_laws::dealt_tasks_are_counted(task_idx_map, child);
    }
}

/// The plan without the repartition or broadcast at its top.
pub open spec fn below_its_head(plan: PlanView) -> PlanView {
    if plan.children.len() > 0 && (plan.op is Repartition || plan.op is Broadcast) {
        plan.children[0]
    } else {
        plan
    }
}

/// How many partitions a partitioning has.
pub open spec fn partitions_of(partitioning: Partitioning) -> int {
    match partitioning {
        Partitioning::RoundRobinBatch(n) => n as int,
        Partitioning::Hash(_, n) => n as int,
        Partitioning::Range(_, n) => n as int,
        Partitioning::UnknownPartitioning(n) => n as int,
    }
}

/// Whether rows are spread in the same way, over as many partitions for each of `tasks` tasks as
/// one had before. The tasks above ranges read one range each.
pub open spec fn spreads_for(partitioning: Partitioning, before: Partitioning, tasks: usize) -> bool {
    match before {
        Partitioning::RoundRobinBatch(n) => partitioning is RoundRobinBatch && partitions_of(
            partitioning,
        ) == n * tasks,
        Partitioning::Hash(keys, n) => partitioning is Hash && partitioning->Hash_0 == keys
            && partitions_of(partitioning) == n * tasks,
        Partitioning::Range(bounds, _) => partitioning is Range && partitioning->Range_0 == bounds
            && partitions_of(partitioning) == tasks,
        Partitioning::UnknownPartitioning(n) => partitioning is UnknownPartitioning
            && partitions_of(partitioning) == n * tasks,
    }
}

/// Whether a stage that does what `input` does feeds `tasks` tasks above the boundary. Above a
/// shuffle every task reads its share of the partitions, above a broadcast a copy of all, and what
/// gathers rows takes them as they come.
pub open spec fn feeds_tasks(
    top: PlanView,
    input: PlanView,
    boundary: OperatorView,
    tasks: usize,
) -> bool {
    let base = below_its_head(input);
    match boundary {
        OperatorView::NetworkShuffle { partitioning, .. } => {
            &&& top.op matches OperatorView::Repartition { partitioning: spread } && spreads_for(
                spread,
                partitioning,
                tasks,
            )
            &&& top.children =~= seq![base]
        },
        OperatorView::NetworkBroadcast { output, .. } => {
            &&& base.partition_count() > 0
            &&& top.op matches OperatorView::Broadcast { consumer_tasks } && consumer_tasks as int
                == (partitions_of(output) * tasks) / base.partition_count() as int
            &&& top.children =~= seq![base]
        },
        _ => top == base,
    }
}

/// Whether an operator is the boundary before, above a stage of the same tasks that belongs to the
/// query. The tasks above ranges hand out one range each.
pub open spec fn is_prepared_boundary(op: OperatorView, before: OperatorView, query_id: Uuid) -> bool {
    match before {
        OperatorView::NetworkShuffle { stage, partitioning, output, properties } => {
            &&& op is NetworkShuffle
            &&& op->NetworkShuffle_partitioning == partitioning
            &&& op->NetworkShuffle_properties == properties
            &&& op->NetworkShuffle_output == (if output is Range {
                Partitioning::UnknownPartitioning(1)
            } else {
                output
            })
            &&& op->NetworkShuffle_stage is Local
            &&& op->NetworkShuffle_stage->Local_query_id == query_id
            &&& op->NetworkShuffle_stage->Local_tasks == stage->Local_tasks
        },
        OperatorView::NetworkCoalesce { stage, output, consumer_tasks, properties } => {
            &&& op is NetworkCoalesce
            &&& op->NetworkCoalesce_output == output
            &&& op->NetworkCoalesce_consumer_tasks == consumer_tasks
            &&& op->NetworkCoalesce_properties == properties
            &&& op->NetworkCoalesce_stage is Local
            &&& op->NetworkCoalesce_stage->Local_query_id == query_id
            &&& op->NetworkCoalesce_stage->Local_tasks == stage->Local_tasks
        },
        OperatorView::NetworkBroadcast { stage, output, properties } => {
            &&& op is NetworkBroadcast
            &&& op->NetworkBroadcast_output == output
            &&& op->NetworkBroadcast_properties == properties
            &&& op->NetworkBroadcast_stage is Local
            &&& op->NetworkBroadcast_stage->Local_query_id == query_id
            &&& op->NetworkBroadcast_stage->Local_tasks == stage->Local_tasks
        },
        _ => false,
    }
}

impl PlanView {
    /// The stage that feeds the node, if its plan is at hand.
    pub open spec fn local_stage(self) -> Option<StageView> {
        let stage = match self.op {
            OperatorView::NetworkShuffle { stage, .. } => Some(stage),
            OperatorView::NetworkCoalesce { stage, .. } => Some(stage),
            OperatorView::NetworkBroadcast { stage, .. } => Some(stage),
            _ => None,
        };
        if self.children.len() == 1 && stage is Some && stage->Some_0 is Local {
            stage
        } else {
            None
        }
    }

    /// Whether the plan is the other one, prepared to be executed in this many tasks: boundaries
    /// between a single task and a single task are gone, and every other stage whose plan is at
    /// hand belongs to the query and feeds all tasks above it. Everything else is in its place.
    pub open spec fn is_preparation_of(self, plan: PlanView, tasks: usize, query_id: Uuid) -> bool
        decreases plan,
    {
        match plan.local_stage() {
            Some(stage) => if tasks == 1 && tasks_in(stage) == 1 {
                self.is_preparation_of(plan.children[0], 1, query_id)
            } else {
                &&& is_prepared_boundary(self.op, plan.op, query_id)
                &&& self.facts == plan.facts
                &&& self.children.len() == 1
                &&& exists|input: PlanView|
                    input.is_preparation_of(
                        plan.children[0],
                        tasks_in(stage) as usize,
                        query_id,
                    ) && #[trigger] feeds_tasks(self.children[0], input, plan.op, tasks)
            },
            None => {
                &&& self.op == plan.op
                &&& self.facts == plan.facts
                &&& self.children.len() == plan.children.len()
                &&& forall|i: int|
                    0 <= i < plan.children.len() ==> (#[trigger] self.children[i]).is_preparation_of(
                        plan.children[i],
                        tasks_below(plan.op, i, tasks) as usize,
                        query_id,
                    )
            },
        }
    }

    /// Whether the tasks of all stages and shares of the plan can be counted.
    pub open spec fn is_countable(self) -> bool
        decreases self,
    {
        &&& has_countable_tasks(self.op)
        &&& forall|i: int|
            0 <= i < self.children.len() ==> (#[trigger] self.children[i]).is_countable()
    }
}

proof fn children_are_prepared(
    parent: OperatorView,
    plans: Seq<PlanView>,
    tasks: usize,
    query_id: Uuid,
    num: usize,
)
    requires
        has_countable_tasks(parent),
        forall|i: int| 0 <= i < plans.len() ==> (#[trigger] plans[i]).is_countable(),
    ensures
        crate::prepare_network_boundaries::prepared_all(
            parent,
            plans,
            tasks,
            query_id,
            num,
        ) matches Ok((results, _)) ==> results.len() == plans.len() && forall|i: int|
            0 <= i < plans.len() ==> (#[trigger] results[i]).is_preparation_of(
                plans[i],
                tasks_below(parent, i, tasks) as usize,
                query_id,
            ),
    decreases plans, 1nat,
{
    if plans.len() > 0 {
        let shorter = plans.drop_last();
        assert forall|i: int| 0 <= i < shorter.len() implies (
        #[trigger] shorter[i]).is_countable() by {
            assert(shorter[i] == plans[i]);
        }
        children_are_prepared(parent, shorter, tasks, query_id, num);
        assert(plans[plans.len() - 1].is_countable());
        let last = plans.len() - 1;
        assert(0 <= tasks_below(parent, last, 0) <= usize::MAX);
        tasks_are_handed_down(parent, last, tasks);
        if let Ok((before, next)) = crate::prepare_network_boundaries::prepared_all(
            parent,
            shorter,
            tasks,
            query_id,
            num,
        ) {
            plans_are_prepared(plans.last(), parent.child_tasks(last, tasks), query_id, next);
            if let Ok((results, _)) = crate::prepare_network_boundaries::prepared_all(
                parent,
                plans,
                tasks,
                query_id,
                num,
            ) {
                assert forall|i: int| 0 <= i < plans.len() implies (
                #[trigger] results[i]).is_preparation_of(
                    plans[i],
                    tasks_below(parent, i, tasks) as usize,
                    query_id,
                ) by {
                    if i < before.len() {
                        assert(results[i] == before[i]);
                        assert(shorter[i] == plans[i]);
                    }
                }
            }
        }
    }
}

/// A plan that was prepared is the plan that it was, but that no boundary between two single tasks
/// is left, and that every other stage feeds all the tasks above it.
pub proof fn plans_are_prepared(plan: PlanView, tasks: usize, query_id: Uuid, num: usize)
    requires
        plan.is_countable(),
    ensures
        crate::prepare_network_boundaries::prepared(plan, tasks, query_id, num) matches Ok(ready)
            ==> ready.plan.is_preparation_of(plan, tasks, query_id),
    decreases plan, 0nat,
{
    children_are_prepared(plan.op, plan.children, tasks, query_id, num);
    if let Ok(ready) = crate::prepare_network_boundaries::prepared(plan, tasks, query_id, num) {
        let (children, next) = crate::prepare_network_boundaries::prepared_all(
            plan.op,
            plan.children,
            tasks,
            query_id,
            num,
        )->Ok_0;
        if let Some(stage) = plan.local_stage() {
            let input = children[0];
            assert(tasks_below(plan.op, 0, tasks) == tasks_in(stage));
            assert(input.is_preparation_of(
                plan.children[0],
                tasks_in(stage) as usize,
                query_id,
            ));
            if tasks == 1 && tasks_in(stage) == 1 {
                assert(ready.plan == input);
                assert(tasks_in(stage) as usize == 1);
                assert(ready.plan.is_preparation_of(plan, tasks, query_id));
            } else {
                assert(is_prepared_boundary(ready.plan.op, plan.op, query_id));
                assert(feeds_tasks(ready.plan.children[0], input, plan.op, tasks));
                assert(ready.plan.facts == plan.facts);
                assert(ready.plan.children.len() == 1);
                assert(ready.plan.is_preparation_of(plan, tasks, query_id));
            }
        } else {
            assert(ready.plan.children =~= children);
            assert forall|i: int| 0 <= i < plan.children.len() implies (
            #[trigger] ready.plan.children[i]).is_preparation_of(
                plan.children[i],
                tasks_below(plan.op, i, tasks) as usize,
                query_id,
            ) by {
                assert(ready.plan.children[i] == children[i]);
            }
            assert(ready.plan.is_preparation_of(plan, tasks, query_id));
        }
    }
}

impl PlanView {
    /// Whether the plan is the other one, but for a limit on every stage below a node that gathers
    /// its rows and stops after some: none of its partitions sends more rows than that.
    pub open spec fn limits_stages_of(self, plan: PlanView) -> bool
        decreases plan,
    {
        let boundary = plan.children[0];
        &&& self.op == plan.op
        &&& self.facts == plan.facts
        &&& self.children.len() == plan.children.len()
        &&& if (plan.op matches OperatorView::CoalescePartitions { fetch } && fetch is Some)
            && plan.children.len() == 1 && boundary.children.len() == 1 && (
        boundary.op matches OperatorView::NetworkCoalesce { stage, .. } && stage is Local) {
            let limited = self.children[0];
            &&& limited.op == boundary.op
            &&& limited.facts == boundary.facts
            &&& limited.children.len() == 1
            &&& limited.children[0].op == (OperatorView::LocalLimit {
                fetch: plan.op->CoalescePartitions_fetch->Some_0,
            })
            &&& limited.children[0].children.len() == 1
            &&& limited.children[0].children[0].limits_stages_of(boundary.children[0])
        } else {
            forall|i: int|
                0 <= i < plan.children.len() ==> (#[trigger] self.children[i]).limits_stages_of(
                    plan.children[i],
                )
        }
    }
}

/// Pushing fetches down limits exactly the stages whose rows are gathered by a node that stops
/// after some, and leaves everything else in its place.
pub proof fn stages_are_limited(plan: PlanView)
    ensures
        plan.fetches_pushed().limits_stages_of(plan),
    decreases plan,
{
    let result = plan.fetches_pushed();
    assert forall|i: int| 0 <= i < plan.children.len() implies (
    #[trigger] plan.children[i]).fetches_pushed().limits_stages_of(plan.children[i]) by {
        stages_are_limited(plan.children[i]);
    }
    if plan.fetch_below() is Some {
        let boundary = plan.children[0];
        let pushed = boundary.fetches_pushed();
        assert(boundary.fetches_pushed().limits_stages_of(boundary));
        assert(pushed.children[0].limits_stages_of(boundary.children[0]));
        assert(result.children[0].children[0].children =~= pushed.children);
    } else {
        assert forall|i: int| 0 <= i < plan.children.len() implies (
        #[trigger] result.children[i]).limits_stages_of(plan.children[i]) by {
            assert(result.children[i] == plan.children[i].fetches_pushed());
        }
    }
}

/// A boundary cannot be prepared where the partitions for all tasks above it cannot be counted,
/// where nothing would be broadcast, or where stages have run out of numbers. Otherwise it takes
/// the next number, if it stays and its stage has not left.
pub proof fn preparing_fails_for_a_reason(
    node: PlanView,
    child: PlanView,
    tasks: usize,
    query_id: Uuid,
    num: usize,
)
    requires
        crate::reconstruction_laws::stage_below(node) is Some,
    ensures
        ({
            let stage = crate::reconstruction_laws::stage_below(node)->Some_0;
            let takes_number = stage is Local && !(tasks == 1 && tasks_in(stage) == 1);
            let base = below_its_head(child);
            match crate::prepare_network_boundaries::prepared_boundary(
                node,
                child,
                tasks,
                query_id,
                num,
            ) {
                Ok(ready) => if takes_number {
                    ready.next == num + 1 && match ready.plan.op {
                        OperatorView::NetworkShuffle { stage, .. } => stage->Local_num == num,
                        OperatorView::NetworkCoalesce { stage, .. } => stage->Local_num == num,
                        OperatorView::NetworkBroadcast { stage, .. } => stage->Local_num == num,
                        _ => false,
                    }
                } else {
                    ready.next == num
                },
                Err(error) => takes_number && {
                    ||| {
                        &&& error == ErrorKind::PartitionCountOverflow.plain()
                        &&& match node.op {
                            OperatorView::NetworkShuffle { partitioning, .. } => !(partitioning
                                is Range) && partitions_of(partitioning) * tasks > usize::MAX,
                            OperatorView::NetworkBroadcast { output, .. } => partitions_of(output)
                                * tasks > usize::MAX || base.partition_count() > usize::MAX,
                            _ => false,
                        }
                    }
                    ||| {
                        &&& error == ErrorKind::BroadcastOfNothing.about(base.op.name())
                        &&& node.op is NetworkBroadcast
                        &&& base.partition_count() == 0
                    }
                    ||| error == ErrorKind::TooManyStages.plain() && num == usize::MAX
                },
            }
        }),
{
}

} // verus!
