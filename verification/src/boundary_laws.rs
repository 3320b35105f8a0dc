//! Where the stages of a plan end once it has been cut before it runs.
use crate::boundary_factory::BoundaryKind;
use crate::inject_network_boundaries::{
    Cursor, InjectNetworkBoundaryContext, OutcomeView, OutcomesView, ReplyView,
};
use crate::plan::{DistributedTaskContext, OperatorView, PlanView};
use crate::task_count::TaskCountAnnotation;
use vstd::prelude::*;

verus! {

/// Whether the operator stands between two stages.
pub open spec fn ends_a_stage(op: OperatorView) -> bool {
    op is NetworkShuffle || op is NetworkCoalesce || op is NetworkBroadcast
}

impl PlanView {
    /// The boundary that has to stand above the node, which has this parent: above rows that are
    /// spread by keys a shuffle, above a broadcast its network side, and below a node that brings
    /// all partitions together one that gathers them from several tasks. A leaf needs none.
    pub open spec fn ends_with(self, parent: Option<OperatorView>) -> Option<BoundaryKind> {
        let gathered = parent is Some && (parent->Some_0 is CoalescePartitions || parent->Some_0
            is SortPreservingMerge);
        if self.children.len() == 0 {
            None
        } else if self.op matches OperatorView::Repartition { partitioning } && partitioning is Hash {
            Some(BoundaryKind::Shuffle)
        } else if self.op is Broadcast {
            Some(BoundaryKind::Broadcast)
        } else if gathered {
            Some(BoundaryKind::Coalesce)
        } else {
            None
        }
    }

    /// Whether the plan is a boundary of the kind over the plan of a stage.
    pub open spec fn is_boundary(self, kind: BoundaryKind) -> bool {
        &&& self.children.len() == 1
        &&& match kind {
            BoundaryKind::Shuffle => self.op matches OperatorView::NetworkShuffle { stage, .. }
                && stage is Local,
            BoundaryKind::Coalesce => self.op matches OperatorView::NetworkCoalesce { stage, .. }
                && stage is Local,
            BoundaryKind::Broadcast => self.op matches OperatorView::NetworkBroadcast {
                stage,
                ..
            } && stage is Local,
        }
    }

    /// Whether the plan is the other one with the stages below its top cut off. A union may have
    /// been isolated, and leaves may have been replaced.
    pub open spec fn is_top_of(self, plan: PlanView) -> bool
        decreases plan, 0nat,
    {
        &&& !ends_a_stage(self.op)
        &&& plan.children.len() > 0 ==> {
            &&& self.op == plan.op && self.facts == plan.facts || plan.op is Union && self.op
                is ChildrenIsolatorUnion
            &&& self.children.len() == plan.children.len()
            &&& forall|i: int|
                0 <= i < plan.children.len() ==> self.children[i].is_cut_of(
                    #[trigger] plan.children[i],
                    Some(plan.op),
                )
        }
    }

    /// Whether the plan is the other one, cut into stages: it stands below a boundary exactly where
    /// one has to stand, and of the kind that has to.
    pub open spec fn is_cut_of(self, plan: PlanView, parent: Option<OperatorView>) -> bool
        decreases plan, 1nat,
    {
        match plan.ends_with(parent) {
            None => self.is_top_of(plan),
            Some(kind) => self.is_boundary(kind) && self.children[0].is_top_of(plan),
        }
    }
}

/// Whether the answers bring no boundaries into the plan.
pub open spec fn leaves_stay_in_their_stage(replies: Seq<ReplyView>) -> bool {
    forall|i: int|
        0 <= i < replies.len() ==> (#[trigger] replies[i] matches ReplyView::ScaledLeaf(Some(plan))
            ==> !ends_a_stage(plan.op))
}

proof fn tops_stay_tops(node: PlanView, other: PlanView, plan: PlanView)
    requires
        node.is_top_of(plan),
        other.op == node.op,
        other.facts == node.facts,
        other.children == node.children,
    ensures
        other.is_top_of(plan),
{
}

proof fn propagation_keeps_cuts_all(
    ctx: InjectNetworkBoundaryContext,
    originals: Seq<PlanView>,
    parent: OperatorView,
    plans: Seq<PlanView>,
    task_count: TaskCountAnnotation,
    replies: Seq<ReplyView>,
    at: Cursor,
)
    requires
        plans.len() == originals.len(),
        forall|i: int|
            0 <= i < plans.len() ==> (#[trigger] plans[i]).is_cut_of(originals[i], Some(parent)),
        leaves_stay_in_their_stage(replies),
    ensures
        ctx.propagated_all(plans, task_count, replies, at) matches OutcomesView::Done {
            plans: results,
            ..
        } ==> results.len() == plans.len() && forall|i: int|
            0 <= i < plans.len() ==> (#[trigger] results[i]).is_cut_of(originals[i], Some(parent)),
    decreases plans, 1nat,
{
    if plans.len() > 0 {
        let shorter = plans.drop_last();
        let fewer = originals.drop_last();
        assert forall|i: int| 0 <= i < shorter.len() implies (#[trigger] shorter[i]).is_cut_of(
            fewer[i],
            Some(parent),
        ) by {
            assert(plans[i].is_cut_of(originals[i], Some(parent)));
        }
        propagation_keeps_cuts_all(ctx, fewer, parent, shorter, task_count, replies, at);
        assert(plans[plans.len() - 1].is_cut_of(originals[plans.len() - 1], Some(parent)));
        if let OutcomesView::Done { plans: before, next } = ctx.propagated_all(
            shorter,
            task_count,
            replies,
            at,
        ) {
            propagation_keeps_cuts(
                ctx,
                originals.last(),
                Some(parent),
                plans.last(),
                task_count,
                replies,
                next,
            );
            if let OutcomeView::Done { plan, .. } = ctx.propagated(
                plans.last(),
                task_count,
                replies,
                next,
            ) {
                let results = before.push(plan);
                assert forall|i: int| 0 <= i < results.len() implies (
                #[trigger] results[i]).is_cut_of(originals[i], Some(parent)) by {
                    if i < before.len() {
                        assert(before[i].is_cut_of(fewer[i], Some(parent)));
                    }
                }
            }
        }
    }
}

proof fn isolation_keeps_cuts_all(
    ctx: InjectNetworkBoundaryContext,
    originals: Seq<PlanView>,
    parent: OperatorView,
    plans: Seq<PlanView>,
    map: Seq<Seq<(usize, DistributedTaskContext)>>,
    replies: Seq<ReplyView>,
    at: Cursor,
)
    requires
        plans.len() == originals.len(),
        forall|i: int|
            0 <= i < plans.len() ==> (#[trigger] plans[i]).is_cut_of(originals[i], Some(parent)),
        leaves_stay_in_their_stage(replies),
    ensures
        ctx.propagated_isolated(plans, map, replies, at) matches OutcomesView::Done {
            plans: results,
            ..
        } ==> results.len() == plans.len() && forall|i: int|
            0 <= i < plans.len() ==> (#[trigger] results[i]).is_cut_of(originals[i], Some(parent)),
    decreases plans, 1nat,
{
    if plans.len() > 0 {
        let shorter = plans.drop_last();
        let fewer = originals.drop_last();
        assert forall|i: int| 0 <= i < shorter.len() implies (#[trigger] shorter[i]).is_cut_of(
            fewer[i],
            Some(parent),
        ) by {
            assert(plans[i].is_cut_of(originals[i], Some(parent)));
        }
        isolation_keeps_cuts_all(ctx, fewer, parent, shorter, map, replies, at);
        assert(plans[plans.len() - 1].is_cut_of(originals[plans.len() - 1], Some(parent)));
        if let OutcomesView::Done { plans: before, next } = ctx.propagated_isolated(
            shorter,
            map,
            replies,
            at,
        ) {
            let tasks = crate::validate_stages::tasks_of_child(map, plans.len() - 1) as usize;
            let task_count = TaskCountAnnotation::Maximum(tasks);
            propagation_keeps_cuts(
                ctx,
                originals.last(),
                Some(parent),
                plans.last(),
                task_count,
                replies,
                next,
            );
            if let OutcomeView::Done { plan, .. } = ctx.propagated(
                plans.last(),
                task_count,
                replies,
                next,
            ) {
                let results = before.push(plan);
                assert forall|i: int| 0 <= i < results.len() implies (
                #[trigger] results[i]).is_cut_of(originals[i], Some(parent)) by {
                    if i < before.len() {
                        assert(before[i].is_cut_of(fewer[i], Some(parent)));
                    }
                }
            }
        }
    }
}

proof fn propagation_keeps_tops(
    ctx: InjectNetworkBoundaryContext,
    original: PlanView,
    plan: PlanView,
    task_count: TaskCountAnnotation,
    replies: Seq<ReplyView>,
    at: Cursor,
)
    requires
        plan.is_top_of(original),
        leaves_stay_in_their_stage(replies),
    ensures
        ctx.propagated(plan, task_count, replies, at) matches OutcomeView::Done {
            plan: result,
            ..
        } ==> result.is_top_of(original),
    decreases plan, 0nat,
{
    if plan.children.len() > 0 && original.children.len() > 0 {
        assert forall|i: int| 0 <= i < plan.children.len() implies (
        #[trigger] plan.children[i]).is_cut_of(original.children[i], Some(original.op)) by {
            assert(original.children[i] == original.children[i]);
        }
        if ctx.children_isolator_unions && plan.op is Union {
            if let Some(ReplyView::IsolatedUnion(op)) = at.reply_in(replies) {
                isolation_keeps_cuts_all(
                    ctx,
                    original.children,
                    original.op,
                    plan.children,
                    op->task_idx_map,
                    replies,
                    at.answered(),
                );
            }
        } else {
            propagation_keeps_cuts_all(
                ctx,
                original.children,
                original.op,
                plan.children,
                task_count,
                replies,
                at,
            );
        }
    }
}

proof fn propagation_keeps_cuts(
    ctx: InjectNetworkBoundaryContext,
    original: PlanView,
    parent: Option<OperatorView>,
    plan: PlanView,
    task_count: TaskCountAnnotation,
    replies: Seq<ReplyView>,
    at: Cursor,
)
    requires
        plan.is_cut_of(original, parent),
        leaves_stay_in_their_stage(replies),
    ensures
        ctx.propagated(plan, task_count, replies, at) matches OutcomeView::Done {
            plan: result,
            ..
        } ==> result.is_cut_of(original, parent),
    decreases plan, 1nat,
{
    if original.ends_with(parent) is None {
        propagation_keeps_tops(ctx, original, plan, task_count, replies, at);
    }
}

proof fn stages_end_where_they_have_to_all(
    ctx: InjectNetworkBoundaryContext,
    plans: Seq<PlanView>,
    parent: OperatorView,
    replies: Seq<ReplyView>,
    at: Cursor,
)
    requires
        ctx.strategy is Static,
        forall|i: int| 0 <= i < plans.len() ==> (#[trigger] plans[i]).is_plain(),
        leaves_stay_in_their_stage(replies),
    ensures
        ctx.injected_all(plans, parent, replies, at) matches OutcomesView::Done {
            plans: results,
            ..
        } ==> results.len() == plans.len() && forall|i: int|
            0 <= i < plans.len() ==> (#[trigger] results[i]).is_cut_of(plans[i], Some(parent)),
    decreases plans, 1nat,
{
    if plans.len() > 0 {
        let shorter = plans.drop_last();
        assert forall|i: int| 0 <= i < shorter.len() implies (#[trigger] shorter[i]).is_plain() by {
            assert(shorter[i] == plans[i]);
        }
        stages_end_where_they_have_to_all(ctx, shorter, parent, replies, at);
        assert(plans[plans.len() - 1].is_plain());
        if let OutcomesView::Done { plans: before, next } = ctx.injected_all(
            shorter,
            parent,
            replies,
            at,
        ) {
            stages_end_where_they_have_to(ctx, plans.last(), Some(parent), replies, next);
            if let OutcomeView::Done { plan, .. } = ctx.injected(
                plans.last(),
                Some(parent),
                replies,
                next,
            ) {
                let results = before.push(plan);
                assert forall|i: int| 0 <= i < results.len() implies (
                #[trigger] results[i]).is_cut_of(plans[i], Some(parent)) by {
                    if i < before.len() {
                        assert(before[i].is_cut_of(shorter[i], Some(parent)));
                    }
                }
            }
        }
    }
}

/// A plan that was cut before it runs has network boundaries where they have to be and nowhere
/// else: a shuffle above every repartition by keys, a network broadcast above every broadcast, and
/// below every node that brings all partitions together, unless it reads a leaf, one that gathers
/// them.
pub proof fn stages_end_where_they_have_to(
    ctx: InjectNetworkBoundaryContext,
    plan: PlanView,
    parent: Option<OperatorView>,
    replies: Seq<ReplyView>,
    at: Cursor,
)
    requires
        ctx.strategy is Static,
        plan.is_plain(),
        leaves_stay_in_their_stage(replies),
    ensures
        ctx.injected(plan, parent, replies, at) matches OutcomeView::Done { plan: result, .. }
            ==> result.is_cut_of(plan, parent),
    decreases plan, 0nat,
{
    if plan.children.len() > 0 {
        assert forall|i: int| 0 <= i < plan.children.len() implies (
        #[trigger] plan.children[i]).is_plain() by {}
        stages_end_where_they_have_to_all(ctx, plan.children, plan.op, replies, at);
        if let OutcomesView::Done { plans, next } = ctx.injected_all(
            plan.children,
            plan.op,
            replies,
            at,
        ) {
            if let Ok(task_count) = ctx.inner_count(plan, plans) {
                let node = plan.over(plans);
                assert forall|i: int| 0 <= i < plan.children.len() implies node.children[i].is_cut_of(
                    #[trigger] plan.children[i],
                    Some(plan.op),
                ) by {
                    assert(plans[i].is_cut_of(plan.children[i], Some(plan.op)));
                }
                assert(node.is_top_of(plan));
                let counted = node.counted(task_count);
                tops_stay_tops(node, counted, plan);
                if ctx.boundary_above(plan.op, parent) is Some {
                    let desired = TaskCountAnnotation::Desired(task_count.count());
                    propagation_keeps_tops(ctx, plan, counted, desired, replies, next.staged());
                    if let OutcomeView::Done { plan: propagated, .. } = ctx.propagated(
                        counted,
                        desired,
                        replies,
                        next.staged(),
                    ) {
                        if let OutcomeView::Done { plan: result, .. } = ctx.injected(
                            plan,
                            parent,
                            replies,
                            at,
                        ) {
                            assert(result.children =~= seq![propagated]);
                            assert(result.children[0] == propagated);
                        }
                    }
                } else if parent is None {
                    propagation_keeps_tops(ctx, plan, node, task_count, replies, next);
                }
            }
        }
    }
}

impl PlanView {
    /// Whether the node is a join that holds all rows of its left side in memory.
    pub open spec fn collects_its_left_side(self) -> bool {
        (self.op matches OperatorView::HashJoin { mode, .. } && mode is CollectLeft) || self.op
            is NestedLoopJoin || self.op is CrossJoin
    }

    /// Whether every join of the plan that collects its left side, and that could do so in several
    /// tasks, collects it from a broadcast.
    pub open spec fn collects_broadcasts(self, broadcast_joins: bool) -> bool
        decreases self,
    {
        &&& self.children.len() > 0 && self.collects_its_left_side()
            && !crate::stage_laws::must_run_alone(self.op, broadcast_joins) ==> {
            let left = self.children[0];
            &&& left.op is CoalescePartitions
            &&& left.children.len() == 1
            &&& left.children[0].op is Broadcast
            &&& left.children[0].children.len() > 0
        }
        &&& forall|i: int|
            0 <= i < self.children.len() ==> (#[trigger] self.children[i]).collects_broadcasts(
                broadcast_joins,
            )
    }

    /// Whether every join of the other plan that collects its left side, and that does not have to
    /// run in a single task, is fed by a network broadcast in this one.
    pub open spec fn feeds_joins_of(
        self,
        plan: PlanView,
        parent: Option<OperatorView>,
        broadcast_joins: bool,
    ) -> bool
        decreases plan,
    {
        let node = if plan.ends_with(parent) is Some {
            self.children[0]
        } else {
            self
        };
        &&& plan.children.len() > 0 && plan.collects_its_left_side()
            && !crate::stage_laws::must_run_alone(plan.op, broadcast_joins) ==> {
            let left = node.children[0];
            &&& left.op is CoalescePartitions
            &&& left.children.len() == 1
            &&& left.children[0].op is NetworkBroadcast
        }
        &&& forall|i: int|
            0 <= i < plan.children.len() ==> node.children[i].feeds_joins_of(
                #[trigger] plan.children[i],
                Some(plan.op),
                broadcast_joins,
            )
    }
}

/// A join that collects its left side from a broadcast is fed by a network broadcast once the plan
/// is cut. So of the joins that collect a side, those that are not fed by a network broadcast are
/// those that have to run in a single task.
pub proof fn collecting_joins_are_fed(
    result: PlanView,
    plan: PlanView,
    parent: Option<OperatorView>,
    broadcast_joins: bool,
)
    requires
        result.is_cut_of(plan, parent),
        plan.collects_broadcasts(broadcast_joins),
    ensures
        result.feeds_joins_of(plan, parent, broadcast_joins),
    decreases plan,
{
    let node = if plan.ends_with(parent) is Some {
        result.children[0]
    } else {
        result
    };
    assert(node.is_top_of(plan));
    assert forall|i: int| 0 <= i < plan.children.len() implies node.children[i].feeds_joins_of(
        #[trigger] plan.children[i],
        Some(plan.op),
        broadcast_joins,
    ) by {
        assert(node.children[i].is_cut_of(plan.children[i], Some(plan.op)));
        collecting_joins_are_fed(
            node.children[i],
            plan.children[i],
            Some(plan.op),
            broadcast_joins,
        );
    }
    if plan.children.len() > 0 && plan.collects_its_left_side()
        && !crate::stage_laws::must_run_alone(plan.op, broadcast_joins) {
        let left = plan.children[0];
        assert(node.children[0].is_cut_of(left, Some(plan.op)));
        assert(left.ends_with(Some(plan.op)) is None);
        assert(node.children[0].is_top_of(left));
        assert(node.children[0].children[0].is_cut_of(left.children[0], Some(left.op)));
    }
}

proof fn broadcasts_are_collected_from(result: PlanView, plan: PlanView)
    requires
        result.broadcasts_sides_of(plan),
        plan.has_only_lookups(true),
    ensures
        result.collects_broadcasts(true),
    decreases plan,
{
    assert forall|i: int| 0 <= i < result.children.len() implies (
    #[trigger] result.children[i]).collects_broadcasts(true) by {
        let side = result.children[i];
        let input = plan.children[i];
        assert(input.has_only_lookups(true));
        if i == 0 && plan.looks_up_its_left_side() {
            let broadcast = side.children[0];
            if input.op is CoalescePartitions && input.children.len() > 0 {
                assert(input.children[0].has_only_lookups(true));
                broadcasts_are_collected_from(broadcast.children[0], input.children[0]);
            } else {
                broadcasts_are_collected_from(broadcast.children[0], input);
            }
            assert(broadcast.collects_broadcasts(true));
            assert(side.collects_broadcasts(true));
        } else {
            broadcasts_are_collected_from(side, input);
        }
    }
    if result.children.len() > 0 {
        assert(result.children[0] == result.children[0]);
    }
}

impl PlanView {
    /// Whether every join of the plan that collects its left side hands out no rows of it on their
    /// own, or has to run in a single task.
    pub open spec fn has_only_lookups(self, broadcast_joins: bool) -> bool
        decreases self,
    {
        &&& self.children.len() > 0 && self.collects_its_left_side()
            && !crate::stage_laws::must_run_alone(self.op, broadcast_joins)
            ==> self.looks_up_its_left_side()
        &&& forall|i: int|
            0 <= i < self.children.len() ==> (#[trigger] self.children[i]).has_only_lookups(
                broadcast_joins,
            )
    }
}

/// Where no join of a plan hands out rows of a side that it collects, unless it has to run in a
/// single task, adding broadcasts and cutting the plan before it runs leaves every join that
/// collects a side fed by a network broadcast, unless it has to run in a single task.
pub proof fn broadcast_plans_are_cut_well(
    ctx: InjectNetworkBoundaryContext,
    plan: PlanView,
    replies: Seq<ReplyView>,
    at: Cursor,
)
    requires
        ctx.strategy is Static,
        plan.is_plain(),
        plan.has_only_lookups(true),
        leaves_stay_in_their_stage(replies),
    ensures
        ctx.injected(plan.with_broadcasts(), None, replies, at) matches OutcomeView::Done {
            plan: result,
            ..
        } ==> result.feeds_joins_of(plan.with_broadcasts(), None, true),
{
    let shaped = plan.with_broadcasts();
    crate::join_laws::sides_are_broadcast(plan);
    broadcasts_are_collected_from(shaped, plan);
    broadcasts_stay_plain(shaped, plan);
    stages_end_where_they_have_to(ctx, shaped, None, replies, at);
    if let OutcomeView::Done { plan: result, .. } = ctx.injected(shaped, None, replies, at) {
        collecting_joins_are_fed(result, shaped, None, true);
    }
}

proof fn broadcasts_stay_plain(result: PlanView, plan: PlanView)
    requires
        result.broadcasts_sides_of(plan),
        plan.is_plain(),
    ensures
        result.is_plain(),
    decreases plan,
{
    assert forall|i: int| 0 <= i < result.children.len() implies (
    #[trigger] result.children[i]).is_plain() by {
        let side = result.children[i];
        let input = plan.children[i];
        assert(input.is_plain());
        if i == 0 && plan.looks_up_its_left_side() {
            let broadcast = side.children[0];
            if input.op is CoalescePartitions && input.children.len() > 0 {
                assert(input.children[0].is_plain());
                broadcasts_stay_plain(broadcast.children[0], input.children[0]);
            } else {
                broadcasts_stay_plain(broadcast.children[0], input);
            }
            assert(broadcast.is_plain());
            assert(side.is_plain());
        } else {
            broadcasts_stay_plain(side, input);
        }
    }
}

} // verus!
