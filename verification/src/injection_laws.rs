//! What holds of every walk that injects network boundaries.
use crate::boundary_factory::BoundaryKind;
use crate::error::ErrorKind;
use crate::inject_network_boundaries::{
    Cursor, InjectNetworkBoundaryContext, OutcomeView, OutcomesView, ReplyView, Strategy,
};
use crate::plan::{DistributedTaskContext, OperatorView, PlanView, StageView};
use crate::task_count::TaskCountAnnotation;
use vstd::prelude::*;

verus! {

impl PlanView {
    /// Whether every node of the plan has a task count, and no local stage of the plan has more
    /// tasks than `limit`.
    pub open spec fn is_settled(self, limit: usize) -> bool
        decreases self,
    {
        &&& self.task_count is Some
        &&& self.op.is_network_boundary() ==> (self.op.input_stage() matches StageView::Local {
            tasks,
            ..
        } ==> tasks <= limit)
        &&& forall|i: int|
            0 <= i < self.children.len() ==> (#[trigger] self.children[i]).is_settled(limit)
    }
}

/// Whether the answers bring no network boundaries of their own into the plan.
pub open spec fn replies_are_plain(replies: Seq<ReplyView>) -> bool {
    forall|i: int|
        0 <= i < replies.len() ==> (#[trigger] replies[i] matches ReplyView::ScaledLeaf(
            Some(plan),
        ) ==> !plan.has_boundary())
}

/// Whether an error is one that the walk itself runs into. A node without a task count is none.
pub open spec fn is_expected(kind: ErrorKind) -> bool {
    ||| kind == ErrorKind::UnexpectedReply
    ||| kind == ErrorKind::PartitionCountOverflow
    ||| kind == ErrorKind::NoPartitions
    ||| kind == ErrorKind::TooManyStages
}

pub open spec fn outcome_is_settled(outcome: OutcomeView, limit: usize) -> bool {
    match outcome {
        OutcomeView::Done { plan, .. } => plan.is_settled(limit),
        OutcomeView::Ask(_) => true,
        OutcomeView::Fail(error) => is_expected(error.kind),
    }
}

pub open spec fn outcomes_are_settled(outcome: OutcomesView, len: nat, limit: usize) -> bool {
    match outcome {
        OutcomesView::Done { plans, .. } => plans.len() == len && forall|i: int|
            0 <= i < plans.len() ==> (#[trigger] plans[i]).is_settled(limit),
        OutcomesView::Ask(_) => true,
        OutcomesView::Fail(error) => is_expected(error.kind),
    }
}

proof fn counting_settles(plan: PlanView, task_count: TaskCountAnnotation, limit: usize)
    requires
        !plan.has_boundary(),
    ensures
        plan.counted_all(task_count).is_settled(limit),
    decreases plan,
{
    let result = plan.counted_all(task_count);
    assert forall|i: int| 0 <= i < result.children.len() implies (
    #[trigger] result.children[i]).is_settled(limit) by {
        assert(!plan.children[i].has_boundary());
        counting_settles(plan.children[i], task_count, limit);
    }
}

proof fn settled_lists_miss_nothing(plans: Seq<PlanView>, limit: usize)
    requires
        forall|i: int| 0 <= i < plans.len() ==> (#[trigger] plans[i]).is_settled(limit),
    ensures
        crate::inject_network_boundaries::missing_task_count(plans) is None,
    decreases plans.len(),
{
    if plans.len() > 0 {
        let shorter = plans.drop_last();
        assert forall|i: int| 0 <= i < shorter.len() implies (#[trigger] shorter[i]).is_settled(
            limit,
        ) by {
            assert(shorter[i] == plans[i]);
        }
        settled_lists_miss_nothing(shorter, limit);
        assert(plans[plans.len() - 1].is_settled(limit));
    }
}

proof fn propagation_settles_all(
    ctx: InjectNetworkBoundaryContext,
    plans: Seq<PlanView>,
    task_count: TaskCountAnnotation,
    replies: Seq<ReplyView>,
    at: Cursor,
    limit: usize,
)
    requires
        forall|i: int| 0 <= i < plans.len() ==> (#[trigger] plans[i]).is_settled(limit),
        replies_are_plain(replies),
    ensures
        outcomes_are_settled(
            ctx.propagated_all(plans, task_count, replies, at),
            plans.len(),
            limit,
        ),
    decreases plans, 1nat,
{
    if plans.len() > 0 {
        let shorter = plans.drop_last();
        assert forall|i: int| 0 <= i < shorter.len() implies (#[trigger] shorter[i]).is_settled(
            limit,
        ) by {
            assert(shorter[i] == plans[i]);
        }
        propagation_settles_all(ctx, shorter, task_count, replies, at, limit);
        assert(plans[plans.len() - 1].is_settled(limit));
        if let OutcomesView::Done { plans: before, next } = ctx.propagated_all(
            shorter,
            task_count,
            replies,
            at,
        ) {
            propagation_settles(ctx, plans.last(), task_count, replies, next, limit);
        }
    }
}

proof fn isolation_settles_all(
    ctx: InjectNetworkBoundaryContext,
    plans: Seq<PlanView>,
    map: Seq<Seq<(usize, DistributedTaskContext)>>,
    replies: Seq<ReplyView>,
    at: Cursor,
    limit: usize,
)
    requires
        forall|i: int| 0 <= i < plans.len() ==> (#[trigger] plans[i]).is_settled(limit),
        replies_are_plain(replies),
    ensures
        outcomes_are_settled(
            ctx.propagated_isolated(plans, map, replies, at),
            plans.len(),
            limit,
        ),
    decreases plans, 1nat,
{
    if plans.len() > 0 {
        let shorter = plans.drop_last();
        assert forall|i: int| 0 <= i < shorter.len() implies (#[trigger] shorter[i]).is_settled(
            limit,
        ) by {
            assert(shorter[i] == plans[i]);
        }
        isolation_settles_all(ctx, shorter, map, replies, at, limit);
        assert(plans[plans.len() - 1].is_settled(limit));
        if let OutcomesView::Done { plans: before, next } = ctx.propagated_isolated(
            shorter,
            map,
            replies,
            at,
        ) {
            let tasks = crate::validate_stages::tasks_of_child(map, plans.len() - 1) as usize;
            propagation_settles(
                ctx,
                plans.last(),
                TaskCountAnnotation::Maximum(tasks),
                replies,
                next,
                limit,
            );
        }
    }
}

proof fn propagation_settles(
    ctx: InjectNetworkBoundaryContext,
    plan: PlanView,
    task_count: TaskCountAnnotation,
    replies: Seq<ReplyView>,
    at: Cursor,
    limit: usize,
)
    requires
        plan.is_settled(limit),
        replies_are_plain(replies),
    ensures
        outcome_is_settled(ctx.propagated(plan, task_count, replies, at), limit),
    decreases plan, 0nat,
{
    if plan.children.len() == 0 {
        if let Some(ReplyView::ScaledLeaf(Some(scaled))) = at.reply_in(replies) {
            assert(!scaled.has_boundary());
            counting_settles(scaled, task_count, limit);
        }
    } else if plan.op.is_network_boundary() {
    } else if ctx.children_isolator_unions && plan.op is Union {
        settled_lists_miss_nothing(plan.children, limit);
        if let Some(ReplyView::IsolatedUnion(op)) = at.reply_in(replies) {
            if let OperatorView::ChildrenIsolatorUnion { task_idx_map, .. } = op {
                isolation_settles_all(
                    ctx,
                    plan.children,
                    task_idx_map,
                    replies,
                    at.answered(),
                    limit,
                );
            }
        }
    } else {
        propagation_settles_all(ctx, plan.children, task_count, replies, at, limit);
    }
}

proof fn building_settles(
    ctx: InjectNetworkBoundaryContext,
    kind: BoundaryKind,
    node: PlanView,
    task_count: TaskCountAnnotation,
    replies: Seq<ReplyView>,
    at: Cursor,
)
    requires
        node.counted(task_count).is_settled(ctx.max_tasks),
        task_count.count() <= ctx.max_tasks,
        replies_are_plain(replies),
    ensures
        outcome_is_settled(ctx.built(kind, node, task_count, replies, at), ctx.max_tasks),
{
    let limit = ctx.max_tasks;
    let plan = node.counted(task_count);
    if at.stage != usize::MAX {
        match ctx.strategy {
            Strategy::Static => {
                let tasks = task_count.count();
                propagation_settles(
                    ctx,
                    plan,
                    TaskCountAnnotation::Desired(tasks),
                    replies,
                    at.staged(),
                    limit,
                );
                let outcome = ctx.built(kind, node, task_count, replies, at);
                if let OutcomeView::Done { plan: result, .. } = outcome {
                    assert forall|i: int| 0 <= i < result.children.len() implies (
                    #[trigger] result.children[i]).is_settled(limit) by {}
                }
            },
            Strategy::Dynamic { bytes_per_partition_per_second } => {
                if let Some(ReplyView::StageCost(cost)) = at.staged().reply_in(replies) {
                    let decided = task_count.merged(
                        TaskCountAnnotation::Desired(
                            ctx.tasks_for_cost(
                                cost,
                                bytes_per_partition_per_second,
                                plan.partition_count() as usize,
                            ),
                        ),
                    );
                    propagation_settles(
                        ctx,
                        plan,
                        decided,
                        replies,
                        at.staged().answered(),
                        limit,
                    );
                }
            },
        }
    }
}

/// The task count of an inner node stays within the limit for stages.
pub proof fn inner_counts_are_limited(
    ctx: InjectNetworkBoundaryContext,
    node: PlanView,
    children: Seq<PlanView>,
)
    ensures
        ctx.inner_count(node, children) matches Ok(task_count) ==> task_count.count()
            <= ctx.max_tasks,
{
}

proof fn injection_settles_all(
    ctx: InjectNetworkBoundaryContext,
    plans: Seq<PlanView>,
    parent: OperatorView,
    replies: Seq<ReplyView>,
    at: Cursor,
)
    requires
        forall|i: int| 0 <= i < plans.len() ==> !(#[trigger] plans[i]).has_boundary(),
        replies_are_plain(replies),
    ensures
        outcomes_are_settled(
            ctx.injected_all(plans, parent, replies, at),
            plans.len(),
            ctx.max_tasks,
        ),
    decreases plans, 1nat,
{
    if plans.len() > 0 {
        let shorter = plans.drop_last();
        assert forall|i: int| 0 <= i < shorter.len() implies !(
        #[trigger] shorter[i]).has_boundary() by {
            assert(shorter[i] == plans[i]);
        }
        injection_settles_all(ctx, shorter, parent, replies, at);
        assert(!plans[plans.len() - 1].has_boundary());
        if let OutcomesView::Done { plans: before, next } = ctx.injected_all(
            shorter,
            parent,
            replies,
            at,
        ) {
            injection_settles(ctx, plans.last(), Some(parent), replies, next);
        }
    }
}

/// A finished walk leaves no node without a task count and no stage with more tasks than allowed,
/// and a walk never fails for want of a task count.
pub proof fn injection_settles(
    ctx: InjectNetworkBoundaryContext,
    plan: PlanView,
    parent: Option<OperatorView>,
    replies: Seq<ReplyView>,
    at: Cursor,
)
    requires
        !plan.has_boundary(),
        replies_are_plain(replies),
    ensures
        outcome_is_settled(ctx.injected(plan, parent, replies, at), ctx.max_tasks),
    decreases plan, 0nat,
{
    if plan.children.len() > 0 {
        assert forall|i: int| 0 <= i < plan.children.len() implies !(
        #[trigger] plan.children[i]).has_boundary() by {}
        injection_settles_all(ctx, plan.children, plan.op, replies, at);
        if let OutcomesView::Done { plans, next } = ctx.injected_all(
            plan.children,
            plan.op,
            replies,
            at,
        ) {
            settled_lists_miss_nothing(plans, ctx.max_tasks);
            inner_counts_are_limited(ctx, plan, plans);
            if let Ok(task_count) = ctx.inner_count(plan, plans) {
                let node = plan.over(plans);
                assert(node.counted(task_count).is_settled(ctx.max_tasks));
                match ctx.boundary_above(plan.op, parent) {
                    Some(kind) => {
                        building_settles(ctx, kind, node, task_count, replies, next);
                    },
                    None => {
                        if parent is None {
                            root_propagation_settles(ctx, node, task_count, replies, next);
                        }
                    },
                }
            }
        }
    }
}

/// Handing a task count down does not look at the one that the root has.
proof fn root_propagation_settles(
    ctx: InjectNetworkBoundaryContext,
    node: PlanView,
    task_count: TaskCountAnnotation,
    replies: Seq<ReplyView>,
    at: Cursor,
)
    requires
        node.counted(task_count).is_settled(ctx.max_tasks),
        node.children.len() > 0,
        replies_are_plain(replies),
    ensures
        outcome_is_settled(ctx.propagated(node, task_count, replies, at), ctx.max_tasks),
{
    let limit = ctx.max_tasks;
    let counted = node.counted(task_count);
    assert forall|i: int| 0 <= i < node.children.len() implies (
    #[trigger] node.children[i]).is_settled(limit) by {
        assert(counted.children[i].is_settled(limit));
    }
    if node.op.is_network_boundary() {
    } else if ctx.children_isolator_unions && node.op is Union {
        settled_lists_miss_nothing(node.children, limit);
        if let Some(ReplyView::IsolatedUnion(op)) = at.reply_in(replies) {
            if let OperatorView::ChildrenIsolatorUnion { task_idx_map, .. } = op {
                isolation_settles_all(
                    ctx,
                    node.children,
                    task_idx_map,
                    replies,
                    at.answered(),
                    limit,
                );
            }
        }
    } else {
        propagation_settles_all(ctx, node.children, task_count, replies, at, limit);
    }
}

/// Whether the answers of one list are the first ones of another.
pub open spec fn extends(more: Seq<ReplyView>, replies: Seq<ReplyView>) -> bool {
    replies.len() <= more.len() && forall|i: int|
        0 <= i < replies.len() ==> #[trigger] more[i] == replies[i]
}

proof fn propagation_is_settled_all(
    ctx: InjectNetworkBoundaryContext,
    plans: Seq<PlanView>,
    task_count: TaskCountAnnotation,
    replies: Seq<ReplyView>,
    more: Seq<ReplyView>,
    at: Cursor,
)
    requires
        extends(more, replies),
        !(ctx.propagated_all(plans, task_count, replies, at) is Ask),
    ensures
        ctx.propagated_all(plans, task_count, more, at) == ctx.propagated_all(
            plans,
            task_count,
            replies,
            at,
        ),
    decreases plans, 1nat,
{
    if plans.len() > 0 {
        propagation_is_settled_all(ctx, plans.drop_last(), task_count, replies, more, at);
        if let OutcomesView::Done { plans: before, next } = ctx.propagated_all(
            plans.drop_last(),
            task_count,
            replies,
            at,
        ) {
            propagation_is_settled(ctx, plans.last(), task_count, replies, more, next);
        }
    }
}

proof fn isolation_is_settled_all(
    ctx: InjectNetworkBoundaryContext,
    plans: Seq<PlanView>,
    map: Seq<Seq<(usize, DistributedTaskContext)>>,
    replies: Seq<ReplyView>,
    more: Seq<ReplyView>,
    at: Cursor,
)
    requires
        extends(more, replies),
        !(ctx.propagated_isolated(plans, map, replies, at) is Ask),
    ensures
        ctx.propagated_isolated(plans, map, more, at) == ctx.propagated_isolated(
            plans,
            map,
            replies,
            at,
        ),
    decreases plans, 1nat,
{
    if plans.len() > 0 {
        isolation_is_settled_all(ctx, plans.drop_last(), map, replies, more, at);
        if let OutcomesView::Done { plans: before, next } = ctx.propagated_isolated(
            plans.drop_last(),
            map,
            replies,
            at,
        ) {
            let tasks = crate::validate_stages::tasks_of_child(map, plans.len() - 1) as usize;
            propagation_is_settled(
                ctx,
                plans.last(),
                TaskCountAnnotation::Maximum(tasks),
                replies,
                more,
                next,
            );
        }
    }
}

proof fn propagation_is_settled(
    ctx: InjectNetworkBoundaryContext,
    plan: PlanView,
    task_count: TaskCountAnnotation,
    replies: Seq<ReplyView>,
    more: Seq<ReplyView>,
    at: Cursor,
)
    requires
        extends(more, replies),
        !(ctx.propagated(plan, task_count, replies, at) is Ask),
    ensures
        ctx.propagated(plan, task_count, more, at) == ctx.propagated(
            plan,
            task_count,
            replies,
            at,
        ),
    decreases plan, 0nat,
{
    if at.reply < replies.len() {
        assert(more[at.reply as int] == replies[at.reply as int]);
    }
    if plan.children.len() == 0 || plan.op.is_network_boundary() {
    } else if ctx.children_isolator_unions && plan.op is Union {
        if let Some(ReplyView::IsolatedUnion(op)) = at.reply_in(replies) {
            if let OperatorView::ChildrenIsolatorUnion { task_idx_map, .. } = op {
                if crate::inject_network_boundaries::missing_task_count(plan.children) is None
                    && op.deals_out(
                    crate::inject_network_boundaries::shares_of(plan.children),
                    task_count.count(),
                ) {
                    isolation_is_settled_all(
                        ctx,
                        plan.children,
                        task_idx_map,
                        replies,
                        more,
                        at.answered(),
                    );
                }
            }
        }
    } else {
        propagation_is_settled_all(ctx, plan.children, task_count, replies, more, at);
    }
}

proof fn building_is_settled(
    ctx: InjectNetworkBoundaryContext,
    kind: BoundaryKind,
    node: PlanView,
    task_count: TaskCountAnnotation,
    replies: Seq<ReplyView>,
    more: Seq<ReplyView>,
    at: Cursor,
)
    requires
        extends(more, replies),
        !(ctx.built(kind, node, task_count, replies, at) is Ask),
    ensures
        ctx.built(kind, node, task_count, more, at) == ctx.built(
            kind,
            node,
            task_count,
            replies,
            at,
        ),
{
    let plan = node.counted(task_count);
    if at.stage != usize::MAX {
        let start = at.staged();
        match ctx.strategy {
            Strategy::Static => {
                let tasks = TaskCountAnnotation::Desired(task_count.count());
                propagation_is_settled(ctx, plan, tasks, replies, more, start);
                if let OutcomeView::Done { next, .. } = ctx.propagated(plan, tasks, replies, start) {
                    if next.reply < replies.len() {
                        assert(more[next.reply as int] == replies[next.reply as int]);
                    }
                }
            },
            Strategy::Dynamic { bytes_per_partition_per_second } => {
                if start.reply < replies.len() {
                    assert(more[start.reply as int] == replies[start.reply as int]);
                }
                if let Some(ReplyView::StageCost(cost)) = start.reply_in(replies) {
                    if 0 < plan.partition_count() <= usize::MAX {
                        let decided = task_count.merged(
                            TaskCountAnnotation::Desired(
                                ctx.tasks_for_cost(
                                    cost,
                                    bytes_per_partition_per_second,
                                    plan.partition_count() as usize,
                                ),
                            ),
                        );
                        propagation_is_settled(
                            ctx,
                            plan,
                            decided,
                            replies,
                            more,
                            start.answered(),
                        );
                        if let OutcomeView::Done { next, .. } = ctx.propagated(
                            plan,
                            decided,
                            replies,
                            start.answered(),
                        ) {
                            if next.reply < replies.len() {
                                assert(more[next.reply as int] == replies[next.reply as int]);
                            }
                        }
                    }
                }
            },
        }
    }
}

proof fn injection_is_settled_all(
    ctx: InjectNetworkBoundaryContext,
    plans: Seq<PlanView>,
    parent: OperatorView,
    replies: Seq<ReplyView>,
    more: Seq<ReplyView>,
    at: Cursor,
)
    requires
        extends(more, replies),
        !(ctx.injected_all(plans, parent, replies, at) is Ask),
    ensures
        ctx.injected_all(plans, parent, more, at) == ctx.injected_all(plans, parent, replies, at),
    decreases plans, 1nat,
{
    if plans.len() > 0 {
        injection_is_settled_all(ctx, plans.drop_last(), parent, replies, more, at);
        if let OutcomesView::Done { plans: before, next } = ctx.injected_all(
            plans.drop_last(),
            parent,
            replies,
            at,
        ) {
            injection_is_settled(ctx, plans.last(), Some(parent), replies, more, next);
        }
    }
}

/// Once a walk has come to an end, further answers change nothing.
pub proof fn injection_is_settled(
    ctx: InjectNetworkBoundaryContext,
    plan: PlanView,
    parent: Option<OperatorView>,
    replies: Seq<ReplyView>,
    more: Seq<ReplyView>,
    at: Cursor,
)
    requires
        extends(more, replies),
        !(ctx.injected(plan, parent, replies, at) is Ask),
    ensures
        ctx.injected(plan, parent, more, at) == ctx.injected(plan, parent, replies, at),
    decreases plan, 0nat,
{
    if plan.children.len() > 0 {
        injection_is_settled_all(ctx, plan.children, plan.op, replies, more, at);
        if let OutcomesView::Done { plans, next } = ctx.injected_all(
            plan.children,
            plan.op,
            replies,
            at,
        ) {
            if let Ok(task_count) = ctx.inner_count(plan, plans) {
                match ctx.boundary_above(plan.op, parent) {
                    Some(kind) => {
                        building_is_settled(
                            ctx,
                            kind,
                            plan.over(plans),
                            task_count,
                            replies,
                            more,
                            next,
                        );
                    },
                    None => {
                        if parent is None {
                            propagation_is_settled(
                                ctx,
                                plan.over(plans),
                                task_count,
                                replies,
                                more,
                                next,
                            );
                        }
                    },
                }
            }
        }
    }
}

impl PlanView {
    /// The plan without its network boundaries and task counts.
    pub open spec fn uncut(self) -> PlanView
        decreases self,
    {
        if self.op.is_network_boundary() && self.children.len() == 1 {
            self.children[0].uncut()
        } else {
            PlanView {
                task_count: None,
                children: Seq::new(
                    self.children.len(),
                    |i: int|
                        if 0 <= i < self.children.len() {
                            self.children[i].uncut()
                        } else {
                            arbitrary()
                        },
                ),
                ..self
            }
        }
    }
}

/// Whether two lists hold the same plans but for network boundaries and task counts.
pub open spec fn uncut_alike(one: Seq<PlanView>, other: Seq<PlanView>) -> bool {
    one.len() == other.len() && forall|i: int|
        0 <= i < one.len() ==> (#[trigger] one[i]).uncut() == other[i].uncut()
}

/// Whether the answers leave every leaf as it is.
pub open spec fn replies_keep_leaves(replies: Seq<ReplyView>) -> bool {
    forall|i: int| 0 <= i < replies.len() ==> !(#[trigger] replies[i] matches ReplyView::ScaledLeaf(
        Some(_),
    ))
}

proof fn alike_children_make_alike_nodes(node: PlanView, children: Seq<PlanView>)
    requires
        uncut_alike(children, node.children),
    ensures
        node.over(children).uncut() == node.uncut(),
{
    let one = node.over(children);
    if node.op.is_network_boundary() && node.children.len() == 1 {
        assert(children[0].uncut() == node.children[0].uncut());
    } else {
        assert(one.uncut().children =~= node.uncut().children) by {
            assert forall|i: int| 0 <= i < children.len() implies one.uncut().children[i]
                == node.uncut().children[i] by {
                assert(children[i].uncut() == node.children[i].uncut());
            }
        }
    }
}

proof fn counting_cuts_nothing(node: PlanView, task_count: TaskCountAnnotation)
    ensures
        node.counted(task_count).uncut() == node.uncut(),
{
    assert(node.counted(task_count).uncut().children =~= node.uncut().children);
}

proof fn propagation_keeps_plans_all(
    ctx: InjectNetworkBoundaryContext,
    plans: Seq<PlanView>,
    task_count: TaskCountAnnotation,
    replies: Seq<ReplyView>,
    at: Cursor,
)
    requires
        !ctx.children_isolator_unions,
        replies_keep_leaves(replies),
    ensures
        ctx.propagated_all(plans, task_count, replies, at) matches OutcomesView::Done {
            plans: after,
            ..
        } ==> uncut_alike(after, plans),
    decreases plans, 1nat,
{
    if plans.len() > 0 {
        propagation_keeps_plans_all(ctx, plans.drop_last(), task_count, replies, at);
        if let OutcomesView::Done { plans: before, next } = ctx.propagated_all(
            plans.drop_last(),
            task_count,
            replies,
            at,
        ) {
            propagation_keeps_plans(ctx, plans.last(), task_count, replies, next);
            if let OutcomesView::Done { plans: after, .. } = ctx.propagated_all(
                plans,
                task_count,
                replies,
                at,
            ) {
                assert forall|i: int| 0 <= i < after.len() implies (#[trigger] after[i]).uncut()
                    == plans[i].uncut() by {
                    if i < plans.len() - 1 {
                        assert(before[i].uncut() == plans.drop_last()[i].uncut());
                    }
                }
            }
        }
    }
}

proof fn propagation_keeps_plans(
    ctx: InjectNetworkBoundaryContext,
    plan: PlanView,
    task_count: TaskCountAnnotation,
    replies: Seq<ReplyView>,
    at: Cursor,
)
    requires
        !ctx.children_isolator_unions,
        replies_keep_leaves(replies),
    ensures
        ctx.propagated(plan, task_count, replies, at) matches OutcomeView::Done { plan: after, .. }
            ==> after.uncut() == plan.uncut(),
    decreases plan, 0nat,
{
    if plan.children.len() == 0 {
        counting_cuts_nothing(plan, task_count);
        if at.reply < replies.len() {
            assert(!(replies[at.reply as int] matches ReplyView::ScaledLeaf(Some(_))));
        }
    } else if plan.op.is_network_boundary() {
        counting_cuts_nothing(plan, task_count);
    } else {
        propagation_keeps_plans_all(ctx, plan.children, task_count, replies, at);
        if let OutcomesView::Done { plans, .. } = ctx.propagated_all(
            plan.children,
            task_count,
            replies,
            at,
        ) {
            alike_children_make_alike_nodes(plan, plans);
            counting_cuts_nothing(plan.over(plans), task_count);
        }
    }
}

proof fn injection_keeps_plans_all(
    ctx: InjectNetworkBoundaryContext,
    plans: Seq<PlanView>,
    parent: OperatorView,
    replies: Seq<ReplyView>,
    at: Cursor,
)
    requires
        !ctx.children_isolator_unions,
        ctx.strategy is Static,
        replies_keep_leaves(replies),
    ensures
        ctx.injected_all(plans, parent, replies, at) matches OutcomesView::Done {
            plans: after,
            ..
        } ==> uncut_alike(after, plans),
    decreases plans, 1nat,
{
    if plans.len() > 0 {
        injection_keeps_plans_all(ctx, plans.drop_last(), parent, replies, at);
        if let OutcomesView::Done { plans: before, next } = ctx.injected_all(
            plans.drop_last(),
            parent,
            replies,
            at,
        ) {
            injection_keeps_plans(ctx, plans.last(), Some(parent), replies, next);
            if let OutcomesView::Done { plans: after, .. } = ctx.injected_all(
                plans,
                parent,
                replies,
                at,
            ) {
                assert forall|i: int| 0 <= i < after.len() implies (#[trigger] after[i]).uncut()
                    == plans[i].uncut() by {
                    if i < plans.len() - 1 {
                        assert(before[i].uncut() == plans.drop_last()[i].uncut());
                    }
                }
            }
        }
    }
}

/// Cutting a plan into stages before execution puts network boundaries and task counts into it,
/// and changes nothing else, where leaves stay as they are and unions are not isolated.
pub proof fn injection_keeps_plans(
    ctx: InjectNetworkBoundaryContext,
    plan: PlanView,
    parent: Option<OperatorView>,
    replies: Seq<ReplyView>,
    at: Cursor,
)
    requires
        !ctx.children_isolator_unions,
        ctx.strategy is Static,
        replies_keep_leaves(replies),
    ensures
        ctx.injected(plan, parent, replies, at) matches OutcomeView::Done { plan: after, .. }
            ==> after.uncut() == plan.uncut(),
    decreases plan, 0nat,
{
    if plan.children.len() == 0 {
        counting_cuts_nothing(plan, ctx.leaf_count(plan));
    } else {
        injection_keeps_plans_all(ctx, plan.children, plan.op, replies, at);
        if let OutcomesView::Done { plans, next } = ctx.injected_all(
            plan.children,
            plan.op,
            replies,
            at,
        ) {
            let node = plan.over(plans);
            alike_children_make_alike_nodes(plan, plans);
            if let Ok(task_count) = ctx.inner_count(plan, plans) {
                counting_cuts_nothing(node, task_count);
                match ctx.boundary_above(plan.op, parent) {
                    Some(kind) => {
                        let tasks = TaskCountAnnotation::Desired(task_count.count());
                        propagation_keeps_plans(
                            ctx,
                            node.counted(task_count),
                            tasks,
                            replies,
                            next.staged(),
                        );
                    },
                    None => {
                        if parent is None {
                            propagation_keeps_plans(ctx, node, task_count, replies, next);
                        }
                    },
                }
            }
        }
    }
}

proof fn propagated_plans_are_counted(
    ctx: InjectNetworkBoundaryContext,
    plan: PlanView,
    task_count: TaskCountAnnotation,
    replies: Seq<ReplyView>,
    at: Cursor,
)
    ensures
        ctx.propagated(plan, task_count, replies, at) matches OutcomeView::Done {
            plan: counted,
            ..
        } ==> counted.task_count == Some(task_count),
{
}

proof fn isolated_children_are_counted(
    ctx: InjectNetworkBoundaryContext,
    plans: Seq<PlanView>,
    map: Seq<Seq<(usize, DistributedTaskContext)>>,
    replies: Seq<ReplyView>,
    at: Cursor,
)
    ensures
        ctx.propagated_isolated(plans, map, replies, at) matches OutcomesView::Done {
            plans: counted,
            ..
        } ==> counted.len() == plans.len() && forall|i: int|
            0 <= i < counted.len() ==> (#[trigger] counted[i]).task_count == Some(
                TaskCountAnnotation::Maximum(
                    crate::validate_stages::tasks_of_child(map, i) as usize,
                ),
            ),
    decreases plans.len(),
{
    if plans.len() > 0 {
        let shorter = plans.drop_last();
        isolated_children_are_counted(ctx, shorter, map, replies, at);
        if let OutcomesView::Done { next, .. } = ctx.propagated_isolated(
            shorter,
            map,
            replies,
            at,
        ) {
            let tasks = crate::validate_stages::tasks_of_child(map, plans.len() - 1) as usize;
            propagated_plans_are_counted(
                ctx,
                plans.last(),
                TaskCountAnnotation::Maximum(tasks),
                replies,
                next,
            );
        }
    }
}

/// Where a union is isolated, the tasks of the stage are dealt out to its children. Each child runs
/// in the tasks that it was dealt, and one that cannot run in more than some number of tasks is
/// dealt no more than that.
pub proof fn isolated_unions_respect_caps(
    ctx: InjectNetworkBoundaryContext,
    plan: PlanView,
    task_count: TaskCountAnnotation,
    replies: Seq<ReplyView>,
    at: Cursor,
)
    requires
        ctx.children_isolator_unions,
        plan.op is Union,
        plan.children.len() > 0,
    ensures
        ctx.propagated(plan, task_count, replies, at) matches OutcomeView::Done {
            plan: isolated,
            ..
        } ==> {
            &&& isolated.op is ChildrenIsolatorUnion
            &&& isolated.op->task_idx_map.len() == task_count.count()
            &&& isolated.children.len() == plan.children.len()
            &&& forall|i: int|
                0 <= i < isolated.children.len() ==> (
                #[trigger] isolated.children[i]).task_count == Some(
                    TaskCountAnnotation::Maximum(isolated.op.child_tasks(i, task_count.count())),
                )
            &&& forall|i: int|
                #![trigger plan.children[i]]
                0 <= i < plan.children.len() ==> (plan.children[i].task_count matches Some(
                    TaskCountAnnotation::Maximum(cap),
                ) ==> isolated.op.child_tasks(i, task_count.count()) <= cap)
        },
{
    if let OutcomeView::Done { plan: isolated, .. } = ctx.propagated(
        plan,
        task_count,
        replies,
        at,
    ) {
        let shares = crate::inject_network_boundaries::shares_of(plan.children);
        isolated_children_are_counted(
            ctx,
            plan.children,
            isolated.op->task_idx_map,
            replies,
            at.answered(),
        );
        assert forall|i: int|
            #![trigger plan.children[i]]
            0 <= i < plan.children.len() implies (plan.children[i].task_count matches Some(
            TaskCountAnnotation::Maximum(cap),
        ) ==> isolated.op.child_tasks(i, task_count.count()) <= cap) by {
            assert(shares[i] == crate::inject_network_boundaries::share_of(
                plan.children[i].task_count->Some_0,
            ));
        }
    }
}

} // verus!
