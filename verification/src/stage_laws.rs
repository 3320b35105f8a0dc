//! What holds of the stages that a plan is cut into before it runs.
use crate::boundary_factory::BoundaryKind;
use crate::inject_network_boundaries::{
    Cursor, InjectNetworkBoundaryContext, OutcomeView, OutcomesView, ReplyView, RequestView,
    Strategy,
};
use crate::plan::{
    DistributedTaskContext, JoinType, OperatorView, PartitionMode, PlanView, StageView,
};
use crate::task_count::TaskCountAnnotation;
use vstd::prelude::*;

verus! {

/// Whether the operator is a join that holds all rows of one side in memory and cannot do so in
/// several tasks: a null-aware hash join, which asks whether there is a null anywhere in that side,
/// a full nested loop join, which hands out rows of both sides on their own, or any of them where
/// the side is not broadcast.
pub open spec fn must_run_alone(op: OperatorView, broadcast_joins: bool) -> bool {
    match op {
        OperatorView::HashJoin { mode, null_aware, .. } => (null_aware || !broadcast_joins) && mode
            == PartitionMode::CollectLeft,
        OperatorView::NestedLoopJoin { join_type, .. } => join_type == JoinType::Full
            || !broadcast_joins,
        OperatorView::CrossJoin => !broadcast_joins,
        _ => false,
    }
}

impl PlanView {
    /// Whether the plan holds none of the nodes that cut it into stages or its tasks into shares.
    pub open spec fn is_plain(self) -> bool
        decreases self,
    {
        &&& !self.op.is_network_boundary()
        &&& !(self.op is ChildrenIsolatorUnion)
        &&& forall|i: int|
            0 <= i < self.children.len() ==> (#[trigger] self.children[i]).is_plain()
    }

    /// Whether no union above the next network boundaries has been isolated yet.
    pub open spec fn is_open(self) -> bool
        decreases self,
    {
        self.op.is_network_boundary() || {
            &&& !(self.op is ChildrenIsolatorUnion)
            &&& forall|i: int|
                0 <= i < self.children.len() ==> (#[trigger] self.children[i]).is_open()
        }
    }

    /// Whether all nodes of a stage, down to the next network boundaries, were given that many
    /// tasks. The children of an isolated union are given the tasks that were dealt to them.
    pub open spec fn runs_in(self, task_count: TaskCountAnnotation) -> bool
        decreases self,
    {
        &&& self.task_count == Some(task_count)
        &&& if self.op.is_network_boundary() {
            true
        } else if self.op is ChildrenIsolatorUnion {
            forall|i: int|
                0 <= i < self.children.len() ==> (#[trigger] self.children[i]).runs_in(
                    TaskCountAnnotation::Maximum(
                        crate::validate_stages::tasks_of_child(
                            self.op->task_idx_map,
                            i,
                        ) as usize,
                    ),
                )
        } else {
            forall|i: int|
                0 <= i < self.children.len() ==> (#[trigger] self.children[i]).runs_in(task_count)
        }
    }

    /// Whether every stage below has as many tasks as were given to its nodes.
    pub open spec fn stages_agree(self) -> bool
        decreases self,
    {
        &&& self.op.is_network_boundary() ==> (self.op.input_stage() matches StageView::Local {
            tasks,
            ..
        } ==> self.children.len() == 1 && self.children[0].runs_in(
            TaskCountAnnotation::Desired(tasks),
        ))
        &&& forall|i: int|
            0 <= i < self.children.len() ==> (#[trigger] self.children[i]).stages_agree()
    }

    /// Whether a node that must run in a single task occurs above the next network boundaries: one
    /// that gathers the rows of several tasks, or a join whose build side would be cut into slices.
    /// An isolated union may deal a single task to a child that holds one.
    pub open spec fn is_bound(self, ctx: InjectNetworkBoundaryContext) -> bool
        decreases self,
    {
        if self.op.is_network_boundary() {
            self.op is NetworkCoalesce
        } else if ctx.children_isolator_unions && (self.op is Union || self.op
            is ChildrenIsolatorUnion) {
            false
        } else {
            ||| self.children.len() > 0 && crate::stage_laws::must_run_alone(
                self.op,
                ctx.broadcast_joins,
            )
            ||| exists|i: int|
                0 <= i < self.children.len() && (#[trigger] self.children[i]).is_bound(ctx)
        }
    }

    /// Whether every stage below that holds a node that must run in a single task has no more than
    /// one, and every child of an isolated union that holds one was dealt no more than one.
    pub open spec fn bounds_are_kept(self, ctx: InjectNetworkBoundaryContext) -> bool
        decreases self,
    {
        &&& self.op.is_network_boundary() ==> (self.op.input_stage() matches StageView::Local {
            tasks,
            ..
        } ==> self.children.len() == 1 && (self.children[0].is_bound(ctx) ==> tasks <= 1))
        &&& self.op is ChildrenIsolatorUnion ==> forall|i: int|
            0 <= i < self.children.len() && (#[trigger] self.children[i]).is_bound(ctx)
                ==> crate::validate_stages::tasks_of_child(self.op->task_idx_map, i) <= 1
        &&& forall|i: int|
            0 <= i < self.children.len() ==> (#[trigger] self.children[i]).bounds_are_kept(ctx)
    }

    /// Whether the children of the unions above the next network boundaries ask for one task at
    /// most where they hold a node that must run in a single one.
    pub open spec fn knows_bounds(self, ctx: InjectNetworkBoundaryContext) -> bool
        decreases self,
    {
        self.op.is_network_boundary() || {
            &&& self.op is Union ==> forall|i: int|
                0 <= i < self.children.len() && (#[trigger] self.children[i]).is_bound(ctx) ==> (
                self.children[i].task_count matches Some(TaskCountAnnotation::Maximum(n)) && n <= 1)
            &&& forall|i: int|
                0 <= i < self.children.len() ==> (#[trigger] self.children[i]).knows_bounds(ctx)
        }
    }

    /// Whether the stages below the node are in order, and the one that it is in is so far.
    pub open spec fn is_in_order(self, ctx: InjectNetworkBoundaryContext) -> bool {
        &&& self.task_count is Some
        &&& self.stages_agree()
        &&& self.bounds_are_kept(ctx)
        &&& self.is_bound(ctx) ==> self.task_count->Some_0 is Maximum
            && self.task_count->Some_0.count() <= 1
    }
}

/// Whether the answers bring no stages, shares or single-task nodes of their own into the plan.
pub open spec fn replies_are_leaves(
    ctx: InjectNetworkBoundaryContext,
    replies: Seq<ReplyView>,
) -> bool {
    forall|i: int|
        0 <= i < replies.len() ==> (#[trigger] replies[i] matches ReplyView::ScaledLeaf(
            Some(plan),
        ) ==> plan.is_plain() && !plan.is_bound(ctx))
}

proof fn plain_plans_are_in_order(
    ctx: InjectNetworkBoundaryContext,
    plan: PlanView,
    task_count: TaskCountAnnotation,
)
    requires
        plan.is_plain(),
    ensures
        plan.counted_all(task_count).runs_in(task_count),
        plan.counted_all(task_count).stages_agree(),
        plan.counted_all(task_count).bounds_are_kept(ctx),
        plan.counted_all(task_count).is_bound(ctx) ==> plan.is_bound(ctx),
    decreases plan,
{
    let result = plan.counted_all(task_count);
    assert forall|i: int| 0 <= i < result.children.len() implies {
        &&& (#[trigger] result.children[i]).runs_in(task_count)
        &&& result.children[i].stages_agree()
        &&& result.children[i].bounds_are_kept(ctx)
        &&& result.children[i].is_bound(ctx) ==> plan.children[i].is_bound(ctx)
    } by {
        assert(plan.children[i].is_plain());
        plain_plans_are_in_order(ctx, plan.children[i], task_count);
    }
}

/// What handing a task count down leaves of a plan.
spec fn outcome_is_in_order(
    ctx: InjectNetworkBoundaryContext,
    plan: PlanView,
    task_count: TaskCountAnnotation,
    outcome: OutcomeView,
) -> bool {
    outcome matches OutcomeView::Done { plan: result, .. } ==> {
        &&& result.runs_in(task_count)
        &&& result.stages_agree()
        &&& result.bounds_are_kept(ctx)
        &&& result.is_bound(ctx) ==> plan.is_bound(ctx)
    }
}

proof fn propagation_keeps_order_all(
    ctx: InjectNetworkBoundaryContext,
    plans: Seq<PlanView>,
    task_count: TaskCountAnnotation,
    replies: Seq<ReplyView>,
    at: Cursor,
)
    requires
        forall|i: int|
            0 <= i < plans.len() ==> (#[trigger] plans[i]).is_open() && plans[i].stages_agree()
                && plans[i].bounds_are_kept(ctx) && plans[i].knows_bounds(ctx),
        replies_are_leaves(ctx, replies),
    ensures
        ctx.propagated_all(plans, task_count, replies, at) matches OutcomesView::Done {
            plans: results,
            ..
        } ==> results.len() == plans.len() && forall|i: int|
            0 <= i < results.len() ==> {
                &&& (#[trigger] results[i]).runs_in(task_count)
                &&& results[i].stages_agree()
                &&& results[i].bounds_are_kept(ctx)
                &&& results[i].is_bound(ctx) ==> plans[i].is_bound(ctx)
            },
    decreases plans, 1nat,
{
    if plans.len() > 0 {
        let shorter = plans.drop_last();
        assert forall|i: int| 0 <= i < shorter.len() implies (#[trigger] shorter[i]).is_open()
            && shorter[i].stages_agree() && shorter[i].bounds_are_kept(ctx)
            && shorter[i].knows_bounds(ctx) by {
            assert(shorter[i] == plans[i]);
        }
        propagation_keeps_order_all(ctx, shorter, task_count, replies, at);
        assert(plans[plans.len() - 1].is_open());
        if let OutcomesView::Done { plans: before, next } = ctx.propagated_all(
            shorter,
            task_count,
            replies,
            at,
        ) {
            propagation_keeps_order(ctx, plans.last(), task_count, replies, next);
            if let OutcomeView::Done { plan, .. } = ctx.propagated(
                plans.last(),
                task_count,
                replies,
                next,
            ) {
                let results = before.push(plan);
                assert forall|i: int| 0 <= i < results.len() implies {
                    &&& (#[trigger] results[i]).runs_in(task_count)
                    &&& results[i].stages_agree()
                    &&& results[i].bounds_are_kept(ctx)
                    &&& results[i].is_bound(ctx) ==> plans[i].is_bound(ctx)
                } by {
                    if i < before.len() {
                        assert(results[i] == before[i]);
                        assert(shorter[i] == plans[i]);
                    }
                }
            }
        }
    }
}

proof fn isolation_keeps_order_all(
    ctx: InjectNetworkBoundaryContext,
    plans: Seq<PlanView>,
    map: Seq<Seq<(usize, DistributedTaskContext)>>,
    replies: Seq<ReplyView>,
    at: Cursor,
)
    requires
        forall|i: int|
            0 <= i < plans.len() ==> (#[trigger] plans[i]).is_open() && plans[i].stages_agree()
                && plans[i].bounds_are_kept(ctx) && plans[i].knows_bounds(ctx),
        replies_are_leaves(ctx, replies),
    ensures
        ctx.propagated_isolated(plans, map, replies, at) matches OutcomesView::Done {
            plans: results,
            ..
        } ==> results.len() == plans.len() && forall|i: int|
            0 <= i < results.len() ==> {
                &&& (#[trigger] results[i]).runs_in(
                    TaskCountAnnotation::Maximum(
                        crate::validate_stages::tasks_of_child(map, i) as usize,
                    ),
                )
                &&& results[i].stages_agree()
                &&& results[i].bounds_are_kept(ctx)
                &&& results[i].is_bound(ctx) ==> plans[i].is_bound(ctx)
            },
    decreases plans, 1nat,
{
    if plans.len() > 0 {
        let shorter = plans.drop_last();
        assert forall|i: int| 0 <= i < shorter.len() implies (#[trigger] shorter[i]).is_open()
            && shorter[i].stages_agree() && shorter[i].bounds_are_kept(ctx)
            && shorter[i].knows_bounds(ctx) by {
            assert(shorter[i] == plans[i]);
        }
        isolation_keeps_order_all(ctx, shorter, map, replies, at);
        assert(plans[plans.len() - 1].is_open());
        if let OutcomesView::Done { plans: before, next } = ctx.propagated_isolated(
            shorter,
            map,
            replies,
            at,
        ) {
            let tasks = crate::validate_stages::tasks_of_child(map, plans.len() - 1) as usize;
            let task_count = TaskCountAnnotation::Maximum(tasks);
            propagation_keeps_order(ctx, plans.last(), task_count, replies, next);
            if let OutcomeView::Done { plan, .. } = ctx.propagated(
                plans.last(),
                task_count,
                replies,
                next,
            ) {
                let results = before.push(plan);
                assert forall|i: int| 0 <= i < results.len() implies {
                    &&& (#[trigger] results[i]).runs_in(
                        TaskCountAnnotation::Maximum(
                            crate::validate_stages::tasks_of_child(map, i) as usize,
                        ),
                    )
                    &&& results[i].stages_agree()
                    &&& results[i].bounds_are_kept(ctx)
                    &&& results[i].is_bound(ctx) ==> plans[i].is_bound(ctx)
                } by {
                    if i < before.len() {
                        assert(results[i] == before[i]);
                        assert(shorter[i] == plans[i]);
                    }
                }
            }
        }
    }
}

proof fn propagation_keeps_order(
    ctx: InjectNetworkBoundaryContext,
    plan: PlanView,
    task_count: TaskCountAnnotation,
    replies: Seq<ReplyView>,
    at: Cursor,
)
    requires
        plan.is_open(),
        plan.stages_agree(),
        plan.bounds_are_kept(ctx),
        plan.knows_bounds(ctx),
        replies_are_leaves(ctx, replies),
    ensures
        outcome_is_in_order(
            ctx,
            plan,
            task_count,
            ctx.propagated(plan, task_count, replies, at),
        ),
    decreases plan, 0nat,
{
    if plan.children.len() == 0 {
        if let Some(ReplyView::ScaledLeaf(Some(scaled))) = at.reply_in(replies) {
            assert(scaled.is_plain() && !scaled.is_bound(ctx));
            plain_plans_are_in_order(ctx, scaled, task_count);
        }
    } else if plan.op.is_network_boundary() {
        let result = plan.counted(task_count);
        assert(result.stages_agree());
        assert(result.bounds_are_kept(ctx));
    } else if ctx.children_isolator_unions && plan.op is Union {
        if let Some(ReplyView::IsolatedUnion(op)) = at.reply_in(replies) {
            if let OperatorView::ChildrenIsolatorUnion { task_idx_map, .. } = op {
                isolation_keeps_order_all(
                    ctx,
                    plan.children,
                    task_idx_map,
                    replies,
                    at.answered(),
                );
                let shares = crate::inject_network_boundaries::shares_of(plan.children);
                if let OutcomeView::Done { plan: result, .. } = ctx.propagated(
                    plan,
                    task_count,
                    replies,
                    at,
                ) {
                    assert forall|i: int|
                        0 <= i < result.children.len() && (#[trigger] result.children[i]).is_bound(
                            ctx,
                        ) implies crate::validate_stages::tasks_of_child(task_idx_map, i) <= 1 by {
                        assert(plan.children[i].is_bound(ctx));
                        assert(shares[i] == crate::inject_network_boundaries::share_of(
                            plan.children[i].task_count->Some_0,
                        ));
                    }
                }
            }
        }
    } else {
        propagation_keeps_order_all(ctx, plan.children, task_count, replies, at);
        if let OutcomesView::Done { plans, .. } = ctx.propagated_all(
            plan.children,
            task_count,
            replies,
            at,
        ) {
            let result = plan.over(plans).counted(task_count);
            if result.is_bound(ctx) && !ctx.needs_single_task(plan.op) {
                let i = choose|i: int|
                    0 <= i < plans.len() && (#[trigger] result.children[i]).is_bound(ctx);
                assert(plans[i].is_bound(ctx));
                assert(plan.children[i].is_bound(ctx));
            }
        }
    }
}

/// A limit of one task beats whatever it is merged with.
proof fn one_task_is_enough(start: TaskCountAnnotation, plans: Seq<PlanView>, index: int)
    requires
        0 <= index < plans.len(),
        plans[index].task_count matches Some(task_count) && task_count is Maximum
            && task_count.count() <= 1,
    ensures
        crate::inject_network_boundaries::merged_tasks(start, plans) is Maximum,
        crate::inject_network_boundaries::merged_tasks(start, plans).count() <= 1,
    decreases plans.len(),
{
    if index < plans.len() - 1 {
        assert(plans.drop_last()[index] == plans[index]);
        one_task_is_enough(start, plans.drop_last(), index);
    }
}

proof fn inner_nodes_are_in_order(
    ctx: InjectNetworkBoundaryContext,
    plan: PlanView,
    plans: Seq<PlanView>,
    task_count: TaskCountAnnotation,
)
    requires
        !plan.op.is_network_boundary(),
        !(plan.op is ChildrenIsolatorUnion),
        plans.len() > 0,
        forall|i: int|
            0 <= i < plans.len() ==> (#[trigger] plans[i]).is_open() && plans[i].is_in_order(ctx)
                && plans[i].knows_bounds(ctx),
        ctx.inner_count(plan, plans) == Ok::<_, crate::error::DistributedErrorView>(task_count),
    ensures
        plan.over(plans).counted(task_count).is_open(),
        plan.over(plans).counted(task_count).is_in_order(ctx),
        plan.over(plans).counted(task_count).knows_bounds(ctx),
{
    let node = plan.over(plans).counted(task_count);
    assert forall|i: int| 0 <= i < node.children.len() implies (
    #[trigger] node.children[i]).is_open() && node.children[i].stages_agree()
        && node.children[i].bounds_are_kept(ctx) && node.children[i].knows_bounds(ctx)
        && node.children[i].is_in_order(ctx) by {
        assert(node.children[i] == plans[i]);
        assert(plans[i].is_in_order(ctx));
    }
    if node.is_bound(ctx) && !ctx.needs_single_task(plan.op) {
        let i = choose|i: int|
            0 <= i < node.children.len() && (#[trigger] node.children[i]).is_bound(ctx);
        assert(plans[i].is_in_order(ctx));
        let start = match plan.estimate() {
            Some(estimate) => estimate,
            None => TaskCountAnnotation::Desired(1),
        };
        one_task_is_enough(start, plans, i);
    }
}

/// Whether a stage that is to be sent, and that holds a node that must run in a single task, has no
/// more than one.
pub open spec fn request_is_in_order(
    ctx: InjectNetworkBoundaryContext,
    request: RequestView,
) -> bool {
    request matches RequestView::Dispatch { stage, .. } ==> (stage.plan.is_bound(ctx) ==> stage.tasks
        <= 1)
}

spec fn question_is_in_order(ctx: InjectNetworkBoundaryContext, outcome: OutcomeView) -> bool {
    outcome matches OutcomeView::Ask(request) ==> request_is_in_order(ctx, request)
}

proof fn propagation_sends_nothing_all(
    ctx: InjectNetworkBoundaryContext,
    plans: Seq<PlanView>,
    task_count: TaskCountAnnotation,
    replies: Seq<ReplyView>,
    at: Cursor,
)
    ensures
        ctx.propagated_all(plans, task_count, replies, at) matches OutcomesView::Ask(request)
            ==> request is ScaleLeaf || request is IsolateUnion,
    decreases plans, 1nat,
{
    if plans.len() > 0 {
        propagation_sends_nothing_all(ctx, plans.drop_last(), task_count, replies, at);
        if let OutcomesView::Done { next, .. } = ctx.propagated_all(
            plans.drop_last(),
            task_count,
            replies,
            at,
        ) {
            propagation_sends_nothing(ctx, plans.last(), task_count, replies, next);
        }
    }
}

proof fn isolation_sends_nothing_all(
    ctx: InjectNetworkBoundaryContext,
    plans: Seq<PlanView>,
    map: Seq<Seq<(usize, DistributedTaskContext)>>,
    replies: Seq<ReplyView>,
    at: Cursor,
)
    ensures
        ctx.propagated_isolated(plans, map, replies, at) matches OutcomesView::Ask(request)
            ==> request is ScaleLeaf || request is IsolateUnion,
    decreases plans, 1nat,
{
    if plans.len() > 0 {
        isolation_sends_nothing_all(ctx, plans.drop_last(), map, replies, at);
        if let OutcomesView::Done { next, .. } = ctx.propagated_isolated(
            plans.drop_last(),
            map,
            replies,
            at,
        ) {
            let tasks = crate::validate_stages::tasks_of_child(map, plans.len() - 1) as usize;
            propagation_sends_nothing(
                ctx,
                plans.last(),
                TaskCountAnnotation::Maximum(tasks),
                replies,
                next,
            );
        }
    }
}

/// Handing a task count down asks for leaves and unions only.
pub proof fn propagation_sends_nothing(
    ctx: InjectNetworkBoundaryContext,
    plan: PlanView,
    task_count: TaskCountAnnotation,
    replies: Seq<ReplyView>,
    at: Cursor,
)
    ensures
        ctx.propagated(plan, task_count, replies, at) matches OutcomeView::Ask(request) ==> request
            is ScaleLeaf || request is IsolateUnion,
    decreases plan, 0nat,
{
    if plan.children.len() > 0 && !plan.op.is_network_boundary() {
        if ctx.children_isolator_unions && plan.op is Union {
            if let Some(ReplyView::IsolatedUnion(op)) = at.reply_in(replies) {
                isolation_sends_nothing_all(
                    ctx,
                    plan.children,
                    op->task_idx_map,
                    replies,
                    at.answered(),
                );
            }
        } else {
            propagation_sends_nothing_all(ctx, plan.children, task_count, replies, at);
        }
    }
}

proof fn samplers_bind_nothing(ctx: InjectNetworkBoundaryContext, plan: PlanView)
    ensures
        plan.sampled().is_bound(ctx) ==> plan.is_bound(ctx),
{
    let result = plan.sampled();
    if (plan.op is Repartition || plan.op is Broadcast) && plan.children.len() > 0
        && result.is_bound(ctx) {
        let sampler = result.children[0];
        let i = choose|i: int|
            0 <= i < result.children.len() && (#[trigger] result.children[i]).is_bound(ctx);
        assert(sampler.is_bound(ctx));
        let j = choose|j: int|
            0 <= j < sampler.children.len() && (#[trigger] sampler.children[j]).is_bound(ctx);
        assert(sampler.children[0] == plan.children[0]);
        assert(plan.children[0].is_bound(ctx));
    }
}

proof fn building_keeps_order_statically(
    ctx: InjectNetworkBoundaryContext,
    kind: BoundaryKind,
    node: PlanView,
    task_count: TaskCountAnnotation,
    replies: Seq<ReplyView>,
    at: Cursor,
)
    requires
        ctx.strategy is Static,
        node.counted(task_count).is_open(),
        node.counted(task_count).is_in_order(ctx),
        node.counted(task_count).knows_bounds(ctx),
        replies_are_leaves(ctx, replies),
    ensures
        question_is_in_order(ctx, ctx.built(kind, node, task_count, replies, at)),
        ctx.built(kind, node, task_count, replies, at) matches OutcomeView::Done { plan, .. }
            ==> plan.op.is_network_boundary() && plan.is_open() && plan.is_in_order(ctx),
{
    if at.stage != usize::MAX {
        let plan = node.counted(task_count);
        let tasks = task_count.count();
        let desired = TaskCountAnnotation::Desired(tasks);
        propagation_keeps_order(ctx, plan, desired, replies, at.staged());
        propagation_sends_nothing(ctx, plan, desired, replies, at.staged());
        if let OutcomeView::Done { plan: propagated, .. } = ctx.propagated(
            plan,
            desired,
            replies,
            at.staged(),
        ) {
            assert(propagated.is_bound(ctx) ==> tasks <= 1);
            if let OutcomeView::Done { plan: result, .. } = ctx.built(
                kind,
                node,
                task_count,
                replies,
                at,
            ) {
                assert(result.children =~= seq![propagated]);
                assert(result.op.input_stage() == (StageView::Local {
                    query_id: ctx.query_id,
                    num: at.stage,
                    tasks,
                }));
                assert(result.children[0] == propagated);
            }
        }
    }
}

proof fn building_keeps_order(
    ctx: InjectNetworkBoundaryContext,
    kind: BoundaryKind,
    node: PlanView,
    task_count: TaskCountAnnotation,
    replies: Seq<ReplyView>,
    at: Cursor,
)
    requires
        node.counted(task_count).is_open(),
        node.counted(task_count).is_in_order(ctx),
        node.counted(task_count).knows_bounds(ctx),
        replies_are_leaves(ctx, replies),
    ensures
        question_is_in_order(ctx, ctx.built(kind, node, task_count, replies, at)),
        ctx.built(kind, node, task_count, replies, at) matches OutcomeView::Done { plan, .. }
            ==> plan.op.is_network_boundary() && plan.is_open() && plan.is_in_order(ctx),
{
    match ctx.strategy {
        Strategy::Static => {
            building_keeps_order_statically(ctx, kind, node, task_count, replies, at);
        },
        Strategy::Dynamic { bytes_per_partition_per_second } => {
            let plan = node.counted(task_count);
            let start = at.staged();
            if let Some(ReplyView::StageCost(cost)) = start.reply_in(replies) {
                let decided = task_count.merged(
                    TaskCountAnnotation::Desired(
                        ctx.tasks_for_cost(
                            cost,
                            bytes_per_partition_per_second,
                            plan.partition_count() as usize,
                        ),
                    ),
                );
                propagation_keeps_order(ctx, plan, decided, replies, start.answered());
                propagation_sends_nothing(ctx, plan, decided, replies, start.answered());
                if let OutcomeView::Done { plan: propagated, .. } = ctx.propagated(
                    plan,
                    decided,
                    replies,
                    start.answered(),
                ) {
                    samplers_bind_nothing(ctx, propagated);
                }
            }
        },
    }
}

proof fn stages_are_in_order_all(
    ctx: InjectNetworkBoundaryContext,
    plans: Seq<PlanView>,
    parent: OperatorView,
    replies: Seq<ReplyView>,
    at: Cursor,
)
    requires
        forall|i: int| 0 <= i < plans.len() ==> (#[trigger] plans[i]).is_plain(),
        replies_are_leaves(ctx, replies),
    ensures
        ctx.injected_all(plans, parent, replies, at) matches OutcomesView::Ask(request)
            ==> request_is_in_order(ctx, request),
        ctx.injected_all(plans, parent, replies, at) matches OutcomesView::Done {
            plans: results,
            ..
        } ==> results.len() == plans.len() && forall|i: int|
            0 <= i < results.len() ==> (#[trigger] results[i]).is_open()
                && results[i].is_in_order(ctx) && results[i].knows_bounds(ctx),
    decreases plans, 1nat,
{
    if plans.len() > 0 {
        let shorter = plans.drop_last();
        assert forall|i: int| 0 <= i < shorter.len() implies (#[trigger] shorter[i]).is_plain() by {
            assert(shorter[i] == plans[i]);
        }
        stages_are_in_order_all(ctx, shorter, parent, replies, at);
        assert(plans[plans.len() - 1].is_plain());
        if let OutcomesView::Done { plans: before, next } = ctx.injected_all(
            shorter,
            parent,
            replies,
            at,
        ) {
            cutting_keeps_order(ctx, plans.last(), Some(parent), replies, next);
            if let OutcomeView::Done { plan, .. } = ctx.injected(
                plans.last(),
                Some(parent),
                replies,
                next,
            ) {
                let results = before.push(plan);
                assert forall|i: int| 0 <= i < results.len() implies (
                #[trigger] results[i]).is_open() && results[i].is_in_order(ctx)
                    && results[i].knows_bounds(ctx) by {
                    if i < before.len() {
                        assert(results[i] == before[i]);
                    }
                }
            }
        }
    }
}

proof fn cutting_keeps_order(
    ctx: InjectNetworkBoundaryContext,
    plan: PlanView,
    parent: Option<OperatorView>,
    replies: Seq<ReplyView>,
    at: Cursor,
)
    requires
        plan.is_plain(),
        replies_are_leaves(ctx, replies),
    ensures
        question_is_in_order(ctx, ctx.injected(plan, parent, replies, at)),
        ctx.injected(plan, parent, replies, at) matches OutcomeView::Done { plan: result, .. }
            ==> result.is_in_order(ctx) && if parent is None {
            result.runs_in(result.task_count->Some_0)
        } else {
            result.is_open() && result.knows_bounds(ctx)
        },
    decreases plan, 0nat,
{
    if plan.children.len() > 0 {
        assert forall|i: int| 0 <= i < plan.children.len() implies (
        #[trigger] plan.children[i]).is_plain() by {}
        stages_are_in_order_all(ctx, plan.children, plan.op, replies, at);
        if let OutcomesView::Done { plans, next } = ctx.injected_all(
            plan.children,
            plan.op,
            replies,
            at,
        ) {
            if let Ok(task_count) = ctx.inner_count(plan, plans) {
                inner_nodes_are_in_order(ctx, plan, plans, task_count);
                let node = plan.over(plans);
                match ctx.boundary_above(plan.op, parent) {
                    Some(kind) => {
                        building_keeps_order(ctx, kind, node, task_count, replies, next);
                    },
                    None => {
                        if parent is None {
                            let counted = node.counted(task_count);
                            assert(node.is_open() && node.stages_agree() && node.bounds_are_kept(
                                ctx,
                            ) && node.knows_bounds(ctx) && node.is_bound(ctx) == counted.is_bound(
                                ctx,
                            )) by {
                                assert(counted.children == node.children);
                            }
                            propagation_sends_nothing(ctx, node, task_count, replies, next);
                            propagation_keeps_order(ctx, node, task_count, replies, next);
                        }
                    },
                }
            }
        }
    }
}

/// All nodes of a stage are given as many tasks as the stage has. A stage with a node that must run
/// in a single task has no more than one, whether it is cut off before the query runs or sent while
/// it runs, and so has a child of an isolated union with such a node. Such nodes are null-aware
/// hash joins that collect a side, full nested loop joins, every join that collects a side where
/// sides are not broadcast, and nodes that gather the rows of several tasks.
pub proof fn stages_are_in_order(
    ctx: InjectNetworkBoundaryContext,
    plan: PlanView,
    replies: Seq<ReplyView>,
    at: Cursor,
)
    requires
        plan.is_plain(),
        replies_are_leaves(ctx, replies),
    ensures
        ctx.injected(plan, None, replies, at) matches OutcomeView::Ask(request)
            ==> request_is_in_order(ctx, request),
        ctx.injected(plan, None, replies, at) matches OutcomeView::Done { plan: result, .. } ==> {
            &&& result.stages_agree()
            &&& result.bounds_are_kept(ctx)
            &&& result.task_count matches Some(task_count) && result.runs_in(task_count) && (
            result.is_bound(ctx) ==> task_count.count() <= 1)
        },
{
    cutting_keeps_order(ctx, plan, None, replies, at);
}

impl PlanView {
    /// The plan below the network boundaries that top it.
    pub open spec fn below_boundaries(self) -> PlanView
        decreases self,
    {
        if self.op.is_network_boundary() && self.children.len() == 1 {
            self.children[0].below_boundaries()
        } else {
            self
        }
    }

    /// Whether the plan has the shape of another: the same nodes over each other, but for network
    /// boundaries between them, leaves that were replaced, and unions that were isolated.
    pub open spec fn has_shape_of(self, plan: PlanView) -> bool
        decreases plan,
    {
        let node = self.below_boundaries();
        plan.children.len() == 0 || {
            &&& node.op == plan.op && node.facts == plan.facts || plan.op is Union && node.op
                is ChildrenIsolatorUnion
            &&& node.children.len() == plan.children.len()
            &&& forall|i: int|
                0 <= i < plan.children.len() ==> node.children[i].has_shape_of(
                    #[trigger] plan.children[i],
                )
        }
    }
}

/// Whether the plans of a list have the shapes of those of another.
pub open spec fn have_shapes_of(plans: Seq<PlanView>, shapes: Seq<PlanView>) -> bool {
    plans.len() == shapes.len() && forall|i: int|
        0 <= i < plans.len() ==> (#[trigger] plans[i]).has_shape_of(shapes[i])
}

proof fn nodes_have_shapes(node: PlanView, plan: PlanView)
    requires
        !node.op.is_network_boundary(),
        node.op == plan.op && node.facts == plan.facts || plan.op is Union && node.op
            is ChildrenIsolatorUnion,
        have_shapes_of(node.children, plan.children),
    ensures
        node.has_shape_of(plan),
{
    assert forall|i: int| 0 <= i < plan.children.len() implies node.children[i].has_shape_of(
        #[trigger] plan.children[i],
    ) by {
        assert(node.children[i].has_shape_of(plan.children[i]));
    }
}

proof fn children_have_shapes(node: PlanView, plan: PlanView)
    requires
        node.has_shape_of(plan),
        node.below_boundaries() == node,
        plan.children.len() > 0,
    ensures
        have_shapes_of(node.children, plan.children),
{
    assert forall|i: int| 0 <= i < node.children.len() implies (
    #[trigger] node.children[i]).has_shape_of(plan.children[i]) by {
        assert(plan.children[i] == plan.children[i]);
    }
}

proof fn propagation_keeps_shapes_all(
    ctx: InjectNetworkBoundaryContext,
    shapes: Seq<PlanView>,
    plans: Seq<PlanView>,
    task_count: TaskCountAnnotation,
    replies: Seq<ReplyView>,
    at: Cursor,
)
    requires
        have_shapes_of(plans, shapes),
    ensures
        ctx.propagated_all(plans, task_count, replies, at) matches OutcomesView::Done {
            plans: results,
            ..
        } ==> have_shapes_of(results, shapes),
    decreases plans, 1nat,
{
    if plans.len() > 0 {
        let shorter = plans.drop_last();
        let fewer = shapes.drop_last();
        assert forall|i: int| 0 <= i < shorter.len() implies (#[trigger] shorter[i]).has_shape_of(
            fewer[i],
        ) by {
            assert(plans[i].has_shape_of(shapes[i]));
        }
        propagation_keeps_shapes_all(ctx, fewer, shorter, task_count, replies, at);
        assert(plans[plans.len() - 1].has_shape_of(shapes[shapes.len() - 1]));
        if let OutcomesView::Done { plans: before, next } = ctx.propagated_all(
            shorter,
            task_count,
            replies,
            at,
        ) {
            propagation_keeps_shapes(ctx, shapes.last(), plans.last(), task_count, replies, next);
            if let OutcomeView::Done { plan, .. } = ctx.propagated(
                plans.last(),
                task_count,
                replies,
                next,
            ) {
                let results = before.push(plan);
                assert forall|i: int| 0 <= i < results.len() implies (
                #[trigger] results[i]).has_shape_of(shapes[i]) by {
                    if i < before.len() {
                        assert(before[i].has_shape_of(fewer[i]));
                    }
                }
            }
        }
    }
}

proof fn isolation_keeps_shapes_all(
    ctx: InjectNetworkBoundaryContext,
    shapes: Seq<PlanView>,
    plans: Seq<PlanView>,
    map: Seq<Seq<(usize, DistributedTaskContext)>>,
    replies: Seq<ReplyView>,
    at: Cursor,
)
    requires
        have_shapes_of(plans, shapes),
    ensures
        ctx.propagated_isolated(plans, map, replies, at) matches OutcomesView::Done {
            plans: results,
            ..
        } ==> have_shapes_of(results, shapes),
    decreases plans, 1nat,
{
    if plans.len() > 0 {
        let shorter = plans.drop_last();
        let fewer = shapes.drop_last();
        assert forall|i: int| 0 <= i < shorter.len() implies (#[trigger] shorter[i]).has_shape_of(
            fewer[i],
        ) by {
            assert(plans[i].has_shape_of(shapes[i]));
        }
        isolation_keeps_shapes_all(ctx, fewer, shorter, map, replies, at);
        assert(plans[plans.len() - 1].has_shape_of(shapes[shapes.len() - 1]));
        if let OutcomesView::Done { plans: before, next } = ctx.propagated_isolated(
            shorter,
            map,
            replies,
            at,
        ) {
            let tasks = crate::validate_stages::tasks_of_child(map, plans.len() - 1) as usize;
            let task_count = TaskCountAnnotation::Maximum(tasks);
            propagation_keeps_shapes(ctx, shapes.last(), plans.last(), task_count, replies, next);
            if let OutcomeView::Done { plan, .. } = ctx.propagated(
                plans.last(),
                task_count,
                replies,
                next,
            ) {
                let results = before.push(plan);
                assert forall|i: int| 0 <= i < results.len() implies (
                #[trigger] results[i]).has_shape_of(shapes[i]) by {
                    if i < before.len() {
                        assert(before[i].has_shape_of(fewer[i]));
                    }
                }
            }
        }
    }
}

proof fn propagation_keeps_shapes(
    ctx: InjectNetworkBoundaryContext,
    shape: PlanView,
    plan: PlanView,
    task_count: TaskCountAnnotation,
    replies: Seq<ReplyView>,
    at: Cursor,
)
    requires
        plan.has_shape_of(shape),
    ensures
        ctx.propagated(plan, task_count, replies, at) matches OutcomeView::Done {
            plan: result,
            ..
        } ==> result.has_shape_of(shape),
    decreases plan, 0nat,
{
    if shape.children.len() > 0 && plan.children.len() > 0 {
        if plan.op.is_network_boundary() {
            let result = plan.counted(task_count);
            if plan.children.len() == 1 {
                assert(result.below_boundaries() == plan.children[0].below_boundaries());
            } else {
                assert(result.below_boundaries() == result);
                children_have_shapes(plan, shape);
                assert forall|i: int| 0 <= i < shape.children.len() implies result.children[
                    i
                ].has_shape_of(#[trigger] shape.children[i]) by {
                    assert(plan.children[i].has_shape_of(shape.children[i]));
                }
            }
        } else {
            children_have_shapes(plan, shape);
            if ctx.children_isolator_unions && plan.op is Union {
                if let Some(ReplyView::IsolatedUnion(op)) = at.reply_in(replies) {
                    if let OperatorView::ChildrenIsolatorUnion { task_idx_map, .. } = op {
                        isolation_keeps_shapes_all(
                            ctx,
                            shape.children,
                            plan.children,
                            task_idx_map,
                            replies,
                            at.answered(),
                        );
                    }
                }
            } else {
                propagation_keeps_shapes_all(
                    ctx,
                    shape.children,
                    plan.children,
                    task_count,
                    replies,
                    at,
                );
            }
            if let OutcomeView::Done { plan: result, .. } = ctx.propagated(
                plan,
                task_count,
                replies,
                at,
            ) {
                nodes_have_shapes(result, shape);
            }
        }
    }
}

proof fn cutting_keeps_shapes_all(
    ctx: InjectNetworkBoundaryContext,
    plans: Seq<PlanView>,
    parent: OperatorView,
    replies: Seq<ReplyView>,
    at: Cursor,
)
    requires
        ctx.strategy is Static,
        forall|i: int| 0 <= i < plans.len() ==> !(#[trigger] plans[i]).has_boundary(),
    ensures
        ctx.injected_all(plans, parent, replies, at) matches OutcomesView::Done {
            plans: results,
            ..
        } ==> have_shapes_of(results, plans),
    decreases plans, 1nat,
{
    if plans.len() > 0 {
        let shorter = plans.drop_last();
        assert forall|i: int| 0 <= i < shorter.len() implies !(
        #[trigger] shorter[i]).has_boundary() by {
            assert(shorter[i] == plans[i]);
        }
        cutting_keeps_shapes_all(ctx, shorter, parent, replies, at);
        assert(!plans[plans.len() - 1].has_boundary());
        if let OutcomesView::Done { plans: before, next } = ctx.injected_all(
            shorter,
            parent,
            replies,
            at,
        ) {
            cutting_keeps_shapes(ctx, plans.last(), Some(parent), replies, next);
            if let OutcomeView::Done { plan, .. } = ctx.injected(
                plans.last(),
                Some(parent),
                replies,
                next,
            ) {
                let results = before.push(plan);
                assert forall|i: int| 0 <= i < results.len() implies (
                #[trigger] results[i]).has_shape_of(plans[i]) by {
                    if i < before.len() {
                        assert(before[i].has_shape_of(shorter[i]));
                    }
                }
            }
        }
    }
}

/// A plan that was cut into stages has the shape that it had, but for the network boundaries
/// between its nodes, the leaves that were replaced by what reads them in several tasks, and the
/// unions that were isolated.
pub proof fn cutting_keeps_shapes(
    ctx: InjectNetworkBoundaryContext,
    plan: PlanView,
    parent: Option<OperatorView>,
    replies: Seq<ReplyView>,
    at: Cursor,
)
    requires
        ctx.strategy is Static,
        !plan.has_boundary(),
    ensures
        ctx.injected(plan, parent, replies, at) matches OutcomeView::Done { plan: result, .. }
            ==> result.has_shape_of(plan),
    decreases plan, 0nat,
{
    if plan.children.len() > 0 {
        assert forall|i: int| 0 <= i < plan.children.len() implies !(
        #[trigger] plan.children[i]).has_boundary() by {}
        cutting_keeps_shapes_all(ctx, plan.children, plan.op, replies, at);
        if let OutcomesView::Done { plans, next } = ctx.injected_all(
            plan.children,
            plan.op,
            replies,
            at,
        ) {
            if let Ok(task_count) = ctx.inner_count(plan, plans) {
                let node = plan.over(plans);
                nodes_have_shapes(node, plan);
                nodes_have_shapes(node.counted(task_count), plan);
                match ctx.boundary_above(plan.op, parent) {
                    Some(kind) => {
                        let desired = TaskCountAnnotation::Desired(task_count.count());
                        propagation_keeps_shapes(
                            ctx,
                            plan,
                            node.counted(task_count),
                            desired,
                            replies,
                            next.staged(),
                        );
                        if let OutcomeView::Done { plan: result, .. } = ctx.built(
                            kind,
                            node,
                            task_count,
                            replies,
                            next,
                        ) {
                            if let OutcomeView::Done { plan: propagated, .. } = ctx.propagated(
                                node.counted(task_count),
                                desired,
                                replies,
                                next.staged(),
                            ) {
                                assert(result.children =~= seq![propagated]);
                                assert(result.below_boundaries() == propagated.below_boundaries());
                            }
                        }
                    },
                    None => {
                        if parent is None {
                            propagation_keeps_shapes(ctx, plan, node, task_count, replies, next);
                        }
                    },
                }
            }
        }
    }
}

} // verus!
