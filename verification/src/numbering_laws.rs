//! How the stages of a plan are numbered, and what is known of the boundaries above them, while it is
//! cut before it runs.
use crate::boundary_factory::BoundaryKind;
use crate::ids::Uuid;
use crate::inject_network_boundaries::{
    Cursor, InjectNetworkBoundaryContext, OutcomeView, OutcomesView, ReplyView, RequestView,
};
use crate::plan::{DistributedTaskContext, OperatorView, Partitioning, PlanView, StageView};
use crate::task_count::TaskCountAnnotation;
use vstd::prelude::*;

verus! {

impl PlanView {
    /// Whether the next network boundaries stand above the plans of their stages.
    pub open spec fn is_grounded(self) -> bool
        decreases self,
    {
        if self.op.is_network_boundary() {
            self.children.len() > 0
        } else {
            forall|i: int|
                0 <= i < self.children.len() ==> (#[trigger] self.children[i]).is_grounded()
        }
    }
}

/// The identities of stages that are numbered one after the other.
pub open spec fn numbered_from(query_id: Uuid, first: int, after: int) -> Seq<(Uuid, usize)> {
    Seq::new((after - first) as nat, |i: int| (query_id, (first + i) as usize))
}

proof fn plain_plans_have_no_stages(plan: PlanView, task_count: TaskCountAnnotation)
    requires
        !plan.has_boundary(),
    ensures
        plan.counted_all(task_count).stamps() =~= Seq::empty(),
    decreases plan, 0nat,
{
    let result = plan.counted_all(task_count);
    assert forall|i: int| 0 <= i < result.children.len() implies (
    #[trigger] result.children[i]).stamps() =~= Seq::empty() by {
        assert(!plan.children[i].has_boundary());
        plain_plans_have_no_stages(plan.children[i], task_count);
    }
    lists_without_stages(result.children);
}

proof fn lists_without_stages(plans: Seq<PlanView>)
    requires
        forall|i: int| 0 <= i < plans.len() ==> (#[trigger] plans[i]).stamps() =~= Seq::empty(),
    ensures
        crate::prepare_network_boundaries::stamps_of_all(plans) =~= Seq::empty(),
    decreases plans.len(),
{
    if plans.len() > 0 {
        let shorter = plans.drop_last();
        assert forall|i: int| 0 <= i < shorter.len() implies (
        #[trigger] shorter[i]).stamps() =~= Seq::empty() by {
            assert(shorter[i] == plans[i]);
        }
        lists_without_stages(shorter);
        assert(plans[plans.len() - 1].stamps() =~= Seq::empty());
    }
}

proof fn propagation_keeps_numbers_all(
    ctx: InjectNetworkBoundaryContext,
    plans: Seq<PlanView>,
    task_count: TaskCountAnnotation,
    replies: Seq<ReplyView>,
    at: Cursor,
)
    requires
        crate::injection_laws::replies_are_plain(replies),
        forall|i: int| 0 <= i < plans.len() ==> (#[trigger] plans[i]).is_grounded(),
    ensures
        ctx.propagated_all(plans, task_count, replies, at) matches OutcomesView::Done {
            plans: results,
            next,
        } ==> next.stage == at.stage && crate::prepare_network_boundaries::stamps_of_all(results)
            == crate::prepare_network_boundaries::stamps_of_all(plans),
    decreases plans, 1nat,
{
    if plans.len() > 0 {
        let shorter = plans.drop_last();
        assert forall|i: int| 0 <= i < shorter.len() implies (
        #[trigger] shorter[i]).is_grounded() by {
            assert(shorter[i] == plans[i]);
        }
        assert(plans[plans.len() - 1].is_grounded());
        propagation_keeps_numbers_all(ctx, plans.drop_last(), task_count, replies, at);
        if let OutcomesView::Done { plans: before, next } = ctx.propagated_all(
            plans.drop_last(),
            task_count,
            replies,
            at,
        ) {
            propagation_keeps_numbers(ctx, plans.last(), task_count, replies, next);
            if let OutcomeView::Done { plan, .. } = ctx.propagated(
                plans.last(),
                task_count,
                replies,
                next,
            ) {
                assert(before.push(plan).drop_last() =~= before);
            }
        }
    }
}

proof fn isolation_keeps_numbers_all(
    ctx: InjectNetworkBoundaryContext,
    plans: Seq<PlanView>,
    map: Seq<Seq<(usize, DistributedTaskContext)>>,
    replies: Seq<ReplyView>,
    at: Cursor,
)
    requires
        crate::injection_laws::replies_are_plain(replies),
        forall|i: int| 0 <= i < plans.len() ==> (#[trigger] plans[i]).is_grounded(),
    ensures
        ctx.propagated_isolated(plans, map, replies, at) matches OutcomesView::Done {
            plans: results,
            next,
        } ==> next.stage == at.stage && crate::prepare_network_boundaries::stamps_of_all(results)
            == crate::prepare_network_boundaries::stamps_of_all(plans),
    decreases plans, 1nat,
{
    if plans.len() > 0 {
        let shorter = plans.drop_last();
        assert forall|i: int| 0 <= i < shorter.len() implies (
        #[trigger] shorter[i]).is_grounded() by {
            assert(shorter[i] == plans[i]);
        }
        assert(plans[plans.len() - 1].is_grounded());
        isolation_keeps_numbers_all(ctx, plans.drop_last(), map, replies, at);
        if let OutcomesView::Done { plans: before, next } = ctx.propagated_isolated(
            plans.drop_last(),
            map,
            replies,
            at,
        ) {
            let tasks = crate::validate_stages::tasks_of_child(map, plans.len() - 1) as usize;
            let task_count = TaskCountAnnotation::Maximum(tasks);
            propagation_keeps_numbers(ctx, plans.last(), task_count, replies, next);
            if let OutcomeView::Done { plan, .. } = ctx.propagated(
                plans.last(),
                task_count,
                replies,
                next,
            ) {
                assert(before.push(plan).drop_last() =~= before);
            }
        }
    }
}

proof fn propagation_keeps_numbers(
    ctx: InjectNetworkBoundaryContext,
    plan: PlanView,
    task_count: TaskCountAnnotation,
    replies: Seq<ReplyView>,
    at: Cursor,
)
    requires
        crate::injection_laws::replies_are_plain(replies),
        plan.is_grounded(),
    ensures
        ctx.propagated(plan, task_count, replies, at) matches OutcomeView::Done {
            plan: result,
            next,
        } ==> next.stage == at.stage && result.stamps() == plan.stamps(),
    decreases plan, 0nat,
{
    if plan.children.len() == 0 {
        if let Some(ReplyView::ScaledLeaf(Some(scaled))) = at.reply_in(replies) {
            plain_plans_have_no_stages(scaled, task_count);
        }
    } else if plan.op.is_network_boundary() {
    } else if ctx.children_isolator_unions && plan.op is Union {
        if let Some(ReplyView::IsolatedUnion(op)) = at.reply_in(replies) {
            isolation_keeps_numbers_all(
                ctx,
                plan.children,
                op->task_idx_map,
                replies,
                at.answered(),
            );
        }
    } else {
        propagation_keeps_numbers_all(ctx, plan.children, task_count, replies, at);
    }
}

/// What is known of a boundary of the kind above a stage: which stage it is, and how many
/// partitions it hands to each task above it. A shuffle keeps spreading rows as its stage does.
/// What gathers the rows of several tasks hands out the partitions of all of them, and a broadcast
/// those of one.
pub open spec fn tells_of_stage(
    boundary: PlanView,
    kind: BoundaryKind,
    query_id: Uuid,
    num: usize,
    tasks: usize,
) -> bool {
    let due = StageView::Local { query_id, num, tasks };
    let top = boundary.children[0];
    let partitions = top.partition_count();
    &&& boundary.children.len() == 1
    &&& match boundary.op {
        OperatorView::NetworkShuffle { stage, partitioning, output, properties } => {
            &&& kind is Shuffle
            &&& stage == due
            &&& top.op matches OperatorView::Repartition { partitioning: spread }
                ==> partitioning == spread && output == spread
            &&& properties == top.properties()
        },
        OperatorView::NetworkCoalesce { stage, output, consumer_tasks, properties } => {
            &&& kind is Coalesce
            &&& stage == due
            &&& consumer_tasks == 1
            &&& output matches Partitioning::UnknownPartitioning(n) && n == partitions * tasks as nat
            &&& properties == top.properties()
        },
        OperatorView::NetworkBroadcast { stage, output, properties } => {
            &&& kind is Broadcast
            &&& stage == due
            &&& output matches Partitioning::UnknownPartitioning(n) && n == partitions
            &&& properties == top.properties()
        },
        _ => false,
    }
}

/// The number of tasks, whether it is a wish or a limit.
pub open spec fn number_of(count: TaskCountAnnotation) -> usize {
    match count {
        TaskCountAnnotation::Desired(n) => n,
        TaskCountAnnotation::Maximum(n) => n,
    }
}

/// A stage that is closed before the query runs has as many tasks as its top asks for, the number
/// whose turn it is, and a boundary of the right kind. Above what gathers rows there is one task,
/// and otherwise the consumers get as many tasks as was answered for this very stage.
pub proof fn closed_stages_keep_their_count(
    ctx: InjectNetworkBoundaryContext,
    kind: BoundaryKind,
    node: PlanView,
    task_count: TaskCountAnnotation,
    replies: Seq<ReplyView>,
    at: Cursor,
)
    requires
        ctx.strategy is Static,
        replies.len() <= usize::MAX,
        crate::injection_laws::replies_are_plain(replies),
        node.is_grounded(),
    ensures
        match ctx.built(kind, node, task_count, replies, at) {
            OutcomeView::Done { plan: boundary, next } => {
                &&& tells_of_stage(boundary, kind, ctx.query_id, at.stage, number_of(task_count))
                &&& boundary.children[0].task_count == Some(
                    TaskCountAnnotation::Desired(number_of(task_count)),
                )
                &&& boundary.children[0].stamps() == node.stamps()
                &&& next.stage == at.stage + 1
                &&& if kind is Coalesce {
                    boundary.task_count == Some(TaskCountAnnotation::Maximum(1))
                } else {
                    &&& 0 < next.reply <= replies.len()
                    &&& replies[next.reply - 1] matches ReplyView::ConsumerTasks(consumers)
                        && boundary.task_count == Some(TaskCountAnnotation::Desired(consumers))
                }
            },
            OutcomeView::Ask(RequestView::ConsumerTasks { kind: asked, stage }) => {
                &&& asked == kind
                &&& !(kind is Coalesce)
                &&& stage.query_id == ctx.query_id
                &&& stage.num == at.stage
                &&& stage.tasks == number_of(task_count)
                &&& stage.plan.task_count == Some(
                    TaskCountAnnotation::Desired(number_of(task_count)),
                )
            },
            _ => true,
        },
{
    if at.stage != usize::MAX {
        let plan = node.counted(task_count);
        let desired = TaskCountAnnotation::Desired(task_count.count());
        assert(plan.is_grounded() && plan.stamps() == node.stamps()) by {
            assert(plan.children == node.children);
        }
        propagation_keeps_numbers(ctx, plan, desired, replies, at.staged());
        propagated_tops_are_counted(ctx, plan, desired, replies, at.staged());
        crate::stage_laws::propagation_sends_nothing(ctx, plan, desired, replies, at.staged());
        if let OutcomeView::Done { plan: propagated, .. } = ctx.propagated(
            plan,
            desired,
            replies,
            at.staged(),
        ) {
            if let OutcomeView::Done { plan: boundary, .. } = ctx.built(
                kind,
                node,
                task_count,
                replies,
                at,
            ) {
                assert(boundary.children[0] == propagated);
                let tasks = task_count.count();
                assert(crate::boundary_factory::gathered(propagated.partition_count(), tasks, 1)
                    == propagated.partition_count() * tasks as nat);
            }
        }
    }
}

proof fn propagated_tops_are_counted(
    ctx: InjectNetworkBoundaryContext,
    plan: PlanView,
    task_count: TaskCountAnnotation,
    replies: Seq<ReplyView>,
    at: Cursor,
)
    ensures
        match ctx.propagated(plan, task_count, replies, at) {
            OutcomeView::Done { plan: result, .. } => result.task_count == Some(task_count),
            _ => true,
        },
{
}

proof fn numbers_go_on(query_id: Uuid, first: int, middle: int, after: int)
    requires
        0 <= first <= middle <= after,
    ensures
        numbered_from(query_id, first, middle) + numbered_from(query_id, middle, after)
            == numbered_from(query_id, first, after),
{
    assert(numbered_from(query_id, first, middle) + numbered_from(query_id, middle, after)
        =~= numbered_from(query_id, first, after));
}

proof fn cut_stages_are_numbered_all(
    ctx: InjectNetworkBoundaryContext,
    plans: Seq<PlanView>,
    parent: OperatorView,
    replies: Seq<ReplyView>,
    at: Cursor,
)
    requires
        ctx.strategy is Static,
        replies.len() <= usize::MAX,
        forall|i: int| 0 <= i < plans.len() ==> (#[trigger] plans[i]).is_plain(),
        crate::injection_laws::replies_are_plain(replies),
    ensures
        ctx.injected_all(plans, parent, replies, at) matches OutcomesView::Done {
            plans: results,
            next,
        } ==> {
            &&& at.stage <= next.stage
            &&& forall|i: int| 0 <= i < results.len() ==> (#[trigger] results[i]).is_grounded()
            &&& crate::prepare_network_boundaries::stamps_of_all(results) == numbered_from(
                ctx.query_id,
                at.stage as int,
                next.stage as int,
            )
        },
    decreases plans, 1nat,
{
    if plans.len() > 0 {
        let shorter = plans.drop_last();
        assert forall|i: int| 0 <= i < shorter.len() implies (#[trigger] shorter[i]).is_plain() by {
            assert(shorter[i] == plans[i]);
        }
        cut_stages_are_numbered_all(ctx, shorter, parent, replies, at);
        assert(plans[plans.len() - 1].is_plain());
        if let OutcomesView::Done { plans: before, next } = ctx.injected_all(
            shorter,
            parent,
            replies,
            at,
        ) {
            cut_stages_are_numbered(ctx, plans.last(), Some(parent), replies, next);
            if let OutcomeView::Done { plan, next: after } = ctx.injected(
                plans.last(),
                Some(parent),
                replies,
                next,
            ) {
                let results = before.push(plan);
                assert(results.drop_last() =~= before);
                assert forall|i: int| 0 <= i < results.len() implies (
                #[trigger] results[i]).is_grounded() by {
                    if i < before.len() {
                        assert(results[i] == before[i]);
                    }
                }
                numbers_go_on(
                    ctx.query_id,
                    at.stage as int,
                    next.stage as int,
                    after.stage as int,
                );
            }
        }
    } else {
        assert(numbered_from(ctx.query_id, at.stage as int, at.stage as int) =~= Seq::empty());
    }
}

/// The stages that a plan is cut into before it runs are numbered one after the other, each after
/// the stages below it, and all belong to the query.
pub proof fn cut_stages_are_numbered(
    ctx: InjectNetworkBoundaryContext,
    plan: PlanView,
    parent: Option<OperatorView>,
    replies: Seq<ReplyView>,
    at: Cursor,
)
    requires
        ctx.strategy is Static,
        replies.len() <= usize::MAX,
        plan.is_plain(),
        crate::injection_laws::replies_are_plain(replies),
    ensures
        ctx.injected(plan, parent, replies, at) matches OutcomeView::Done { plan: result, next } ==> {
            &&& at.stage <= next.stage
            &&& parent is Some ==> result.is_grounded()
            &&& result.stamps() == numbered_from(
                ctx.query_id,
                at.stage as int,
                next.stage as int,
            )
        },
    decreases plan, 0nat,
{
    if plan.children.len() == 0 {
        assert(numbered_from(ctx.query_id, at.stage as int, at.stage as int) =~= Seq::empty());
    } else {
        assert forall|i: int| 0 <= i < plan.children.len() implies (
        #[trigger] plan.children[i]).is_plain() by {}
        cut_stages_are_numbered_all(ctx, plan.children, plan.op, replies, at);
        if let OutcomesView::Done { plans, next } = ctx.injected_all(
            plan.children,
            plan.op,
            replies,
            at,
        ) {
            if let Ok(task_count) = ctx.inner_count(plan, plans) {
                let node = plan.over(plans);
                assert(node.is_grounded());
                assert(node.counted(task_count).is_grounded());
                match ctx.boundary_above(plan.op, parent) {
                    Some(kind) => {
                        closed_stages_keep_their_count(
                            ctx,
                            kind,
                            node,
                            task_count,
                            replies,
                            next,
                        );
                        if let OutcomeView::Done { plan: boundary, next: after } = ctx.built(
                            kind,
                            node,
                            task_count,
                            replies,
                            next,
                        ) {
                            let below = boundary.children;
                            assert(below =~= seq![below[0]]);
                            assert(below.drop_last() =~= Seq::<PlanView>::empty());
                            assert(crate::prepare_network_boundaries::stamps_of_all(below)
                                =~= below[0].stamps()) by {
                                reveal_with_fuel(
                                    crate::prepare_network_boundaries::stamps_of_all,
                                    2,
                                );
                            }
                            assert(numbered_from(
                                ctx.query_id,
                                next.stage as int,
                                after.stage as int,
                            ) =~= seq![(ctx.query_id, next.stage)]);
                            numbers_go_on(
                                ctx.query_id,
                                at.stage as int,
                                next.stage as int,
                                after.stage as int,
                            );
                            assert(boundary.stamps() =~= node.stamps() + seq![
                                (ctx.query_id, next.stage),
                            ]);
                        }
                    },
                    None => {
                        if parent is None {
                            propagation_keeps_numbers(ctx, node, task_count, replies, next);
                        }
                    },
                }
            }
        }
    }
}

} // verus!
