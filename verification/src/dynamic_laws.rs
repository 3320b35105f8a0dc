//! What holds of every walk that cuts a plan into stages while the plan runs.
use crate::boundary_factory::BoundaryKind;
use crate::inject_network_boundaries::{
    Cursor, InjectNetworkBoundaryContext, OutcomeView, OutcomesView, ReplyView, RequestView,
    Strategy,
};
use crate::plan::{DistributedTaskContext, OperatorView, PlanView};
use crate::task_count::TaskCountAnnotation;
use vstd::prelude::*;

verus! {

/// Whether a stage that is asked to be sent waits for no other stage.
pub open spec fn request_is_ready(request: RequestView) -> bool {
    request matches RequestView::Dispatch { stage, .. } ==> stage.plan.is_ready()
}

pub open spec fn outcome_is_ready(outcome: OutcomeView) -> bool {
    match outcome {
        OutcomeView::Done { plan, .. } => plan.is_ready(),
        OutcomeView::Ask(request) => request_is_ready(request),
        OutcomeView::Fail(_) => true,
    }
}

pub open spec fn outcomes_are_ready(outcome: OutcomesView) -> bool {
    match outcome {
        OutcomesView::Done { plans, .. } => forall|i: int|
            0 <= i < plans.len() ==> (#[trigger] plans[i]).is_ready(),
        OutcomesView::Ask(request) => request_is_ready(request),
        OutcomesView::Fail(_) => true,
    }
}

proof fn uncut_plans_are_ready(plan: PlanView, task_count: TaskCountAnnotation)
    requires
        !plan.has_boundary(),
    ensures
        plan.counted_all(task_count).is_ready(),
    decreases plan,
{
    let result = plan.counted_all(task_count);
    assert forall|i: int| 0 <= i < result.children.len() implies (
    #[trigger] result.children[i]).is_ready() by {
        assert(!plan.children[i].has_boundary());
        uncut_plans_are_ready(plan.children[i], task_count);
    }
}

proof fn propagation_stays_ready_all(
    ctx: InjectNetworkBoundaryContext,
    plans: Seq<PlanView>,
    task_count: TaskCountAnnotation,
    replies: Seq<ReplyView>,
    at: Cursor,
)
    requires
        forall|i: int| 0 <= i < plans.len() ==> (#[trigger] plans[i]).is_ready(),
        crate::injection_laws::replies_are_plain(replies),
    ensures
        outcomes_are_ready(ctx.propagated_all(plans, task_count, replies, at)),
    decreases plans, 1nat,
{
    if plans.len() > 0 {
        let shorter = plans.drop_last();
        assert forall|i: int| 0 <= i < shorter.len() implies (#[trigger] shorter[i]).is_ready() by {
            assert(shorter[i] == plans[i]);
        }
        propagation_stays_ready_all(ctx, shorter, task_count, replies, at);
        assert(plans[plans.len() - 1].is_ready());
        if let OutcomesView::Done { next, .. } = ctx.propagated_all(
            shorter,
            task_count,
            replies,
            at,
        ) {
            propagation_stays_ready(ctx, plans.last(), task_count, replies, next);
        }
    }
}

proof fn isolation_stays_ready_all(
    ctx: InjectNetworkBoundaryContext,
    plans: Seq<PlanView>,
    map: Seq<Seq<(usize, DistributedTaskContext)>>,
    replies: Seq<ReplyView>,
    at: Cursor,
)
    requires
        forall|i: int| 0 <= i < plans.len() ==> (#[trigger] plans[i]).is_ready(),
        crate::injection_laws::replies_are_plain(replies),
    ensures
        outcomes_are_ready(ctx.propagated_isolated(plans, map, replies, at)),
    decreases plans, 1nat,
{
    if plans.len() > 0 {
        let shorter = plans.drop_last();
        assert forall|i: int| 0 <= i < shorter.len() implies (#[trigger] shorter[i]).is_ready() by {
            assert(shorter[i] == plans[i]);
        }
        isolation_stays_ready_all(ctx, shorter, map, replies, at);
        assert(plans[plans.len() - 1].is_ready());
        if let OutcomesView::Done { next, .. } = ctx.propagated_isolated(
            shorter,
            map,
            replies,
            at,
        ) {
            let tasks = crate::validate_stages::tasks_of_child(map, plans.len() - 1) as usize;
            propagation_stays_ready(
                ctx,
                plans.last(),
                TaskCountAnnotation::Maximum(tasks),
                replies,
                next,
            );
        }
    }
}

proof fn propagation_stays_ready(
    ctx: InjectNetworkBoundaryContext,
    plan: PlanView,
    task_count: TaskCountAnnotation,
    replies: Seq<ReplyView>,
    at: Cursor,
)
    requires
        plan.is_ready(),
        crate::injection_laws::replies_are_plain(replies),
    ensures
        outcome_is_ready(ctx.propagated(plan, task_count, replies, at)),
    decreases plan, 0nat,
{
    if plan.children.len() == 0 {
        if let Some(ReplyView::ScaledLeaf(Some(scaled))) = at.reply_in(replies) {
            assert(!scaled.has_boundary());
            uncut_plans_are_ready(scaled, task_count);
        }
    } else if ctx.children_isolator_unions && plan.op is Union {
        if let Some(ReplyView::IsolatedUnion(op)) = at.reply_in(replies) {
            if let OperatorView::ChildrenIsolatorUnion { task_idx_map, .. } = op {
                isolation_stays_ready_all(
                    ctx,
                    plan.children,
                    task_idx_map,
                    replies,
                    at.answered(),
                );
            }
        }
    } else {
        propagation_stays_ready_all(ctx, plan.children, task_count, replies, at);
    }
}

proof fn building_stays_ready(
    ctx: InjectNetworkBoundaryContext,
    kind: BoundaryKind,
    node: PlanView,
    task_count: TaskCountAnnotation,
    replies: Seq<ReplyView>,
    at: Cursor,
)
    requires
        ctx.strategy is Dynamic,
        node.is_ready(),
        crate::injection_laws::replies_are_plain(replies),
    ensures
        outcome_is_ready(ctx.built(kind, node, task_count, replies, at)),
{
    let plan = node.counted(task_count);
    assert(plan.is_ready());
    if at.stage != usize::MAX {
        if let Strategy::Dynamic { bytes_per_partition_per_second } = ctx.strategy {
            if let Some(ReplyView::StageCost(cost)) = at.staged().reply_in(replies) {
                let decided = task_count.merged(
                    TaskCountAnnotation::Desired(
                        ctx.tasks_for_cost(
                            cost,
                            bytes_per_partition_per_second,
                            plan.partition_count() as usize,
                        ),
                    ),
                );
                let start = at.staged().answered();
                propagation_stays_ready(ctx, plan, decided, replies, start);
                if let OutcomeView::Done { plan: propagated, .. } = ctx.propagated(
                    plan,
                    decided,
                    replies,
                    start,
                ) {
                    if propagated.children.len() > 0 {
                        let below = propagated.children[0];
                        assert(below.is_ready());
                        let sampler = crate::plan::new_node(OperatorView::Sampler, seq![below]);
                        assert(sampler.is_ready());
                        assert(propagated.over(seq![sampler]).is_ready() || !(propagated.op
                            is Repartition || propagated.op is Broadcast));
                    }
                }
            }
        }
    }
}

proof fn stages_leave_in_order_all(
    ctx: InjectNetworkBoundaryContext,
    plans: Seq<PlanView>,
    parent: OperatorView,
    replies: Seq<ReplyView>,
    at: Cursor,
)
    requires
        ctx.strategy is Dynamic,
        forall|i: int| 0 <= i < plans.len() ==> !(#[trigger] plans[i]).has_boundary(),
        crate::injection_laws::replies_are_plain(replies),
    ensures
        outcomes_are_ready(ctx.injected_all(plans, parent, replies, at)),
    decreases plans, 1nat,
{
    if plans.len() > 0 {
        let shorter = plans.drop_last();
        assert forall|i: int| 0 <= i < shorter.len() implies !(
        #[trigger] shorter[i]).has_boundary() by {
            assert(shorter[i] == plans[i]);
        }
        stages_leave_in_order_all(ctx, shorter, parent, replies, at);
        assert(!plans[plans.len() - 1].has_boundary());
        if let OutcomesView::Done { next, .. } = ctx.injected_all(shorter, parent, replies, at) {
            stages_leave_in_order(ctx, plans.last(), Some(parent), replies, next);
        }
    }
}

/// A plan that is cut while it runs sends its stages from the bottom up: whatever stage is asked to
/// be sent waits for none that has not left yet, and neither does the stage that stays in the end.
pub proof fn stages_leave_in_order(
    ctx: InjectNetworkBoundaryContext,
    plan: PlanView,
    parent: Option<OperatorView>,
    replies: Seq<ReplyView>,
    at: Cursor,
)
    requires
        ctx.strategy is Dynamic,
        !plan.has_boundary(),
        crate::injection_laws::replies_are_plain(replies),
    ensures
        outcome_is_ready(ctx.injected(plan, parent, replies, at)),
    decreases plan, 0nat,
{
    if plan.children.len() > 0 {
        assert forall|i: int| 0 <= i < plan.children.len() implies !(
        #[trigger] plan.children[i]).has_boundary() by {}
        stages_leave_in_order_all(ctx, plan.children, plan.op, replies, at);
        if let OutcomesView::Done { plans, next } = ctx.injected_all(
            plan.children,
            plan.op,
            replies,
            at,
        ) {
            let node = plan.over(plans);
            assert(node.is_ready());
            if let Ok(task_count) = ctx.inner_count(plan, plans) {
                match ctx.boundary_above(plan.op, parent) {
                    Some(kind) => {
                        building_stays_ready(ctx, kind, node, task_count, replies, next);
                    },
                    None => {
                        if parent is None {
                            propagation_stays_ready(ctx, node, task_count, replies, next);
                        }
                    },
                }
            }
        }
    }
}

} // verus!
