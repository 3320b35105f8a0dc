//! How stages are closed, and what their nodes are told of the number of their tasks.
use crate::boundary_factory::BoundaryKind;
use crate::error::{DistributedErrorView, ErrorKind};
use crate::inject_network_boundaries::{
    ChildShare, Cursor, InjectNetworkBoundaryContext, OutcomeView, OutcomesView, ReplyView,
    RequestView,
};
use crate::plan::{OperatorView, PlanView, StageView};
use crate::reconstruction_laws::stage_below;
use crate::task_count::TaskCountAnnotation;
use crate::validation_laws::tasks_naming;
use vstd::prelude::*;

verus! {

/// The number of an annotation.
pub open spec fn number_in(task_count: TaskCountAnnotation) -> usize {
    match task_count {
        TaskCountAnnotation::Desired(n) => n,
        TaskCountAnnotation::Maximum(n) => n,
    }
}

/// Whether the share says what the task count of the child says: a wish is a weight, a limit is one
/// and caps the share.
pub open spec fn is_share_of(share: ChildShare, child: PlanView) -> bool {
    match child.task_count {
        Some(TaskCountAnnotation::Desired(n)) => share.weight == n && share.max is None,
        Some(TaskCountAnnotation::Maximum(n)) => share.weight == n && share.max == Some(n),
        None => false,
    }
}

/// Whether the operator deals this many tasks out to the children, and to none more than it may
/// have.
pub open spec fn deals_tasks_to(op: OperatorView, children: Seq<PlanView>, tasks: usize) -> bool {
    &&& op is ChildrenIsolatorUnion
    &&& op->task_idx_map.len() == tasks
    &&& op->weights.len() == children.len()
    &&& forall|i: int|
        0 <= i < children.len() ==> match (#[trigger] children[i]).task_count {
            Some(TaskCountAnnotation::Desired(_)) => op->weights[i].max is None,
            Some(TaskCountAnnotation::Maximum(n)) => op->weights[i].max == Some(n) && tasks_naming(
                op->task_idx_map,
                i,
            ).len() <= n,
            None => false,
        }
}

/// The limit of a child of an isolated union: the tasks that execute it.
pub open spec fn dealt_limit(op: OperatorView, child: int) -> TaskCountAnnotation {
    TaskCountAnnotation::Maximum(tasks_naming(op->task_idx_map, child).len() as usize)
}

impl PlanView {
    /// Whether the plan is a copy of the other one with the task count on all its nodes.
    pub open spec fn is_counted_copy_of(self, plan: PlanView, task_count: TaskCountAnnotation) -> bool
        decreases plan,
    {
        &&& self.op == plan.op
        &&& self.facts == plan.facts
        &&& self.variants == plan.variants
        &&& self.task_count == Some(task_count)
        &&& self.children.len() == plan.children.len()
        &&& forall|i: int|
            0 <= i < plan.children.len() ==> (#[trigger] self.children[i]).is_counted_copy_of(
                plan.children[i],
                task_count,
            )
    }

    /// Whether the plan is the other one in this many tasks. Leaves are replaced by what reads
    /// them, and the stages below the next boundaries stay. Unions may be isolated, and deal their
    /// tasks to their children.
    pub open spec fn is_counted_form_of(
        self,
        plan: PlanView,
        task_count: TaskCountAnnotation,
        replies: Seq<ReplyView>,
        isolates: bool,
    ) -> bool
        decreases plan,
    {
        &&& self.task_count == Some(task_count)
        &&& if plan.children.len() == 0 {
            exists|reply: int|
                0 <= reply < replies.len() && match #[trigger] replies[reply] {
                    ReplyView::ScaledLeaf(None) => self.op == plan.op && self.facts == plan.facts
                        && self.variants == plan.variants && self.children.len() == 0,
                    ReplyView::ScaledLeaf(Some(scaled)) => self.is_counted_copy_of(
                        scaled,
                        task_count,
                    ),
                    _ => false,
                }
        } else if stage_below(plan) is Some {
            &&& self.op == plan.op
            &&& self.facts == plan.facts
            &&& self.variants == plan.variants
            &&& self.children == plan.children
        } else if plan.op is Union && isolates {
            &&& exists|reply: int|
                0 <= reply < replies.len() && #[trigger] replies[reply] == ReplyView::IsolatedUnion(
                    self.op,
                )
            &&& deals_tasks_to(self.op, plan.children, number_in(task_count))
            &&& self.facts == plan.facts
            &&& self.children.len() == plan.children.len()
            &&& forall|i: int|
                0 <= i < plan.children.len() ==> (#[trigger] self.children[i]).is_counted_form_of(
                    plan.children[i],
                    dealt_limit(self.op, i),
                    replies,
                    isolates,
                )
        } else {
            &&& self.op == plan.op
            &&& self.facts == plan.facts
            &&& self.variants == plan.variants
            &&& self.children.len() == plan.children.len()
            &&& forall|i: int|
                0 <= i < plan.children.len() ==> (#[trigger] self.children[i]).is_counted_form_of(
                    plan.children[i],
                    task_count,
                    replies,
                    isolates,
                )
        }
    }

    /// Whether the question is one about a node of the plan in this many tasks: how a leaf is read
    /// in them, or how a union deals them out by the task counts of its children.
    pub open spec fn gives_rise_to(
        self,
        request: RequestView,
        task_count: TaskCountAnnotation,
        replies: Seq<ReplyView>,
        isolates: bool,
    ) -> bool
        decreases self,
    {
        if self.children.len() == 0 {
            request == (RequestView::ScaleLeaf { leaf: self, task_count: number_in(task_count) })
        } else if stage_below(self) is Some {
            false
        } else if self.op is Union && isolates {
            ||| {
                &&& request is IsolateUnion
                &&& request->IsolateUnion_union == self
                &&& request->IsolateUnion_task_count == number_in(task_count)
                &&& request->IsolateUnion_shares.len() == self.children.len()
                &&& forall|i: int|
                    0 <= i < self.children.len() ==> is_share_of(
                        #[trigger] request->IsolateUnion_shares[i],
                        self.children[i],
                    )
            }
            ||| exists|reply: int, i: int|
                0 <= reply < replies.len() && 0 <= i < self.children.len()
                    && #[trigger] replies[reply] is IsolatedUnion && deals_tasks_to(
                    replies[reply]->IsolatedUnion_0,
                    self.children,
                    number_in(task_count),
                ) && (#[trigger] self.children[i]).gives_rise_to(
                    request,
                    dealt_limit(replies[reply]->IsolatedUnion_0, i),
                    replies,
                    isolates,
                )
        } else {
            exists|i: int|
                0 <= i < self.children.len() && (#[trigger] self.children[i]).gives_rise_to(
                    request,
                    task_count,
                    replies,
                    isolates,
                )
        }
    }
}

/// Whether the error tells that an answer was not one to the question, or of a node that lacks a
/// task count.
pub open spec fn is_counting_failure(error: DistributedErrorView) -> bool {
    ||| error == ErrorKind::UnexpectedReply.plain()
    ||| exists|node: PlanView|
        node.task_count is None && error == #[trigger] ErrorKind::MissingTaskCount.about(
            node.op.name(),
        )
}

proof fn copies_are_counted(plan: PlanView, task_count: TaskCountAnnotation)
    ensures
        plan.counted_all(task_count).is_counted_copy_of(plan, task_count),
    decreases plan,
{
    let copy = plan.counted_all(task_count);
    assert forall|i: int| 0 <= i < plan.children.len() implies (
    #[trigger] copy.children[i]).is_counted_copy_of(plan.children[i], task_count) by {
        copies_are_counted(plan.children[i], task_count);
    }
}

proof fn missing_counts_are_found(plans: Seq<PlanView>)
    ensures
        crate::inject_network_boundaries::missing_task_count(plans) matches Some(error)
            ==> is_counting_failure(error),
        crate::inject_network_boundaries::missing_task_count(plans) is None <==> forall|i: int|
            0 <= i < plans.len() ==> (#[trigger] plans[i]).task_count is Some,
    decreases plans.len(),
{
    if plans.len() > 0 {
        let shorter = plans.drop_last();
        missing_counts_are_found(shorter);
        assert(forall|i: int| 0 <= i < shorter.len() ==> plans[i] == #[trigger] shorter[i]);
        assert(plans[plans.len() - 1] == plans.last());
        if crate::inject_network_boundaries::missing_task_count(plans) is None {
            assert forall|i: int| 0 <= i < plans.len() implies (
            #[trigger] plans[i]).task_count is Some by {
                if i < shorter.len() {
                    assert(shorter[i].task_count is Some);
                }
            }
        }
    }
}

proof fn counts_are_handed_to_all(
    ctx: InjectNetworkBoundaryContext,
    plans: Seq<PlanView>,
    task_count: TaskCountAnnotation,
    replies: Seq<ReplyView>,
    at: Cursor,
)
    ensures
        match ctx.propagated_all(plans, task_count, replies, at) {
            OutcomesView::Done { plans: results, .. } => results.len() == plans.len() && forall|i: int|
                0 <= i < plans.len() ==> (#[trigger] results[i]).is_counted_form_of(
                    plans[i],
                    task_count,
                    replies,
                    ctx.children_isolator_unions,
                ),
            OutcomesView::Ask(request) => exists|i: int|
                0 <= i < plans.len() && (#[trigger] plans[i]).gives_rise_to(
                    request,
                    task_count,
                    replies,
                    ctx.children_isolator_unions,
                ),
            OutcomesView::Fail(error) => is_counting_failure(error),
        },
    decreases plans, 1nat,
{
    if plans.len() > 0 {
        let shorter = plans.drop_last();
        counts_are_handed_to_all(ctx, shorter, task_count, replies, at);
        assert(forall|i: int| 0 <= i < shorter.len() ==> plans[i] == #[trigger] shorter[i]);
        assert(plans[plans.len() - 1] == plans.last());
        match ctx.propagated_all(shorter, task_count, replies, at) {
            OutcomesView::Done { next, .. } => {
                counts_are_handed_down(ctx, plans.last(), task_count, replies, next);
            },
            OutcomesView::Ask(request) => {
                let i = choose|i: int|
                    0 <= i < shorter.len() && (#[trigger] shorter[i]).gives_rise_to(
                        request,
                        task_count,
                        replies,
                        ctx.children_isolator_unions,
                    );
                assert(plans[i].gives_rise_to(
                    request,
                    task_count,
                    replies,
                    ctx.children_isolator_unions,
                ));
            },
            OutcomesView::Fail(_) => {},
        }
    }
}

proof fn counts_are_dealt_out(
    ctx: InjectNetworkBoundaryContext,
    plans: Seq<PlanView>,
    op: OperatorView,
    replies: Seq<ReplyView>,
    at: Cursor,
)
    ensures
        match ctx.propagated_isolated(plans, op->task_idx_map, replies, at) {
            OutcomesView::Done { plans: results, .. } => results.len() == plans.len() && forall|i: int|
                0 <= i < plans.len() ==> (#[trigger] results[i]).is_counted_form_of(
                    plans[i],
                    dealt_limit(op, i),
                    replies,
                    ctx.children_isolator_unions,
                ),
            OutcomesView::Ask(request) => exists|i: int|
                0 <= i < plans.len() && (#[trigger] plans[i]).gives_rise_to(
                    request,
                    dealt_limit(op, i),
                    replies,
                    ctx.children_isolator_unions,
                ),
            OutcomesView::Fail(error) => is_counting_failure(error),
        },
    decreases plans, 1nat,
{
    if plans.len() > 0 {
        let shorter = plans.drop_last();
        let last = plans.len() - 1;
        counts_are_dealt_out(ctx, shorter, op, replies, at);
        assert(forall|i: int| 0 <= i < shorter.len() ==> plans[i] == #[trigger] shorter[i]);
        assert(plans[last] == plans.last());
        crate::validation_laws::dealt_tasks_are_counted(op->task_idx_map, last);
        match ctx.propagated_isolated(shorter, op->task_idx_map, replies, at) {
            OutcomesView::Done { next, .. } => {
                counts_are_handed_down(ctx, plans.last(), dealt_limit(op, last), replies, next);
            },
            OutcomesView::Ask(request) => {
                let i = choose|i: int|
                    0 <= i < shorter.len() && (#[trigger] shorter[i]).gives_rise_to(
                        request,
                        dealt_limit(op, i),
                        replies,
                        ctx.children_isolator_unions,
                    );
                assert(plans[i].gives_rise_to(
                    request,
                    dealt_limit(op, i),
                    replies,
                    ctx.children_isolator_unions,
                ));
            },
            OutcomesView::Fail(_) => {},
        }
    }
}

/// The nodes of a stage are told its number of tasks, down to its leaves, which are replaced by
/// what reads them in that many, and to the boundaries of the stages below. Where a leaf is reached
/// or a union to be isolated, and the answers run out, that is what is asked about.
pub proof fn counts_are_handed_down(
    ctx: InjectNetworkBoundaryContext,
    plan: PlanView,
    task_count: TaskCountAnnotation,
    replies: Seq<ReplyView>,
    at: Cursor,
)
    ensures
        match ctx.propagated(plan, task_count, replies, at) {
            OutcomeView::Done { plan: result, .. } => result.is_counted_form_of(
                plan,
                task_count,
                replies,
                ctx.children_isolator_unions,
            ),
            OutcomeView::Ask(request) => plan.gives_rise_to(
                request,
                task_count,
                replies,
                ctx.children_isolator_unions,
            ),
            OutcomeView::Fail(error) => is_counting_failure(error),
        },
    decreases plan, 0nat,
{
    if plan.children.len() == 0 {
        if let Some(reply) = at.reply_in(replies) {
            assert(replies[at.reply as int] == reply);
            if let ReplyView::ScaledLeaf(Some(scaled)) = reply {
                copies_are_counted(scaled, task_count);
            }
        }
    } else if plan.op.is_network_boundary() {
    } else if ctx.children_isolator_unions && plan.op is Union {
        missing_counts_are_found(plan.children);
        let shares = crate::inject_network_boundaries::shares_of(plan.children);
        if let Some(ReplyView::IsolatedUnion(op)) = at.reply_in(replies) {
            assert(replies[at.reply as int] == ReplyView::IsolatedUnion(op));
            if op.deals_out(shares, task_count.count()) && crate::inject_network_boundaries::missing_task_count(
                plan.children,
            ) is None {
                counts_are_dealt_out(ctx, plan.children, op, replies, at.answered());
                assert forall|i: int| 0 <= i < plan.children.len() implies match (
                #[trigger] plan.children[i]).task_count {
                    Some(TaskCountAnnotation::Desired(_)) => op->weights[i].max is None,
                    Some(TaskCountAnnotation::Maximum(n)) => op->weights[i].max == Some(n)
                        && tasks_naming(op->task_idx_map, i).len() <= n,
                    None => false,
                } by {
                    assert(shares[i] == crate::inject_network_boundaries::share_of(
                        plan.children[i].task_count->Some_0,
                    ));
                    crate::validation_laws::dealt_tasks_are_counted(op->task_idx_map, i);
                }
                assert(deals_tasks_to(op, plan.children, number_in(task_count)));
            }
        }
    } else {
        counts_are_handed_to_all(ctx, plan.children, task_count, replies, at);
    }
}

/// Whether the boundary has the kind and reads the plan with the partitions of its kind.
pub open spec fn closes_stage(
    boundary: PlanView,
    kind: BoundaryKind,
    stage: StageView,
    plan: PlanView,
    tasks: usize,
) -> bool {
    let partitions = plan.partition_count() as int;
    &&& boundary.facts is None
    &&& boundary.variants.len() == 0
    &&& stage_below(boundary) == Some(stage)
    &&& match kind {
        BoundaryKind::Shuffle => {
            &&& boundary.op is NetworkShuffle
            &&& plan.op is Repartition ==> boundary.op->NetworkShuffle_partitioning
                == plan.op->Repartition_partitioning
            &&& crate::preparation_laws::partitions_of(boundary.op->NetworkShuffle_partitioning)
                == partitions
            &&& boundary.op->NetworkShuffle_output == boundary.op->NetworkShuffle_partitioning
        },
        BoundaryKind::Broadcast => {
            &&& boundary.op is NetworkBroadcast
            &&& boundary.op->NetworkBroadcast_output is UnknownPartitioning
            &&& crate::preparation_laws::partitions_of(boundary.op->NetworkBroadcast_output)
                == partitions
        },
        BoundaryKind::Coalesce => {
            &&& boundary.op is NetworkCoalesce
            &&& boundary.op->NetworkCoalesce_output is UnknownPartitioning
            &&& crate::preparation_laws::partitions_of(boundary.op->NetworkCoalesce_output)
                == partitions * tasks
        },
    }
}

/// Before a query runs, a stage is closed with the number of tasks that its nodes agreed on, which
/// all of them are told. A boundary that gathers rows keeps what is above it to one task, and of
/// any other it was asked how many tasks suit above it.
pub proof fn static_stages_are_closed(
    ctx: InjectNetworkBoundaryContext,
    kind: BoundaryKind,
    node: PlanView,
    task_count: TaskCountAnnotation,
    replies: Seq<ReplyView>,
    at: Cursor,
)
    requires
        ctx.strategy is Static,
    ensures
        ({
            let tasks = number_in(task_count);
            let source = PlanView { task_count: Some(task_count), ..node };
            let wished = TaskCountAnnotation::Desired(tasks);
            match ctx.built(kind, node, task_count, replies, at) {
                OutcomeView::Done { plan: boundary, .. } => {
                    &&& at.stage < usize::MAX
                    &&& boundary.children.len() == 1
                    &&& boundary.children[0].is_counted_form_of(
                        source,
                        wished,
                        replies,
                        ctx.children_isolator_unions,
                    )
                    &&& closes_stage(
                        boundary,
                        kind,
                        StageView::Local { query_id: ctx.query_id, num: at.stage, tasks },
                        boundary.children[0],
                        tasks,
                    )
                    &&& if kind is Coalesce {
                        boundary.task_count == Some(TaskCountAnnotation::Maximum(1))
                    } else {
                        exists|reply: int|
                            0 <= reply < replies.len() && (#[trigger] replies[reply]
                                matches ReplyView::ConsumerTasks(n) && boundary.task_count == Some(
                                TaskCountAnnotation::Desired(n),
                            ))
                    }
                },
                OutcomeView::Ask(request) => {
                    &&& at.stage < usize::MAX
                    &&& if request is ConsumerTasks {
                        let stage = request->ConsumerTasks_stage;
                        &&& !(kind is Coalesce)
                        &&& request->ConsumerTasks_kind == kind
                        &&& stage.query_id == ctx.query_id
                        &&& stage.num == at.stage
                        &&& stage.tasks == tasks
                        &&& stage.plan.is_counted_form_of(
                            source,
                            wished,
                            replies,
                            ctx.children_isolator_unions,
                        )
                    } else {
                        source.gives_rise_to(
                            request,
                            wished,
                            replies,
                            ctx.children_isolator_unions,
                        )
                    }
                },
                OutcomeView::Fail(error) => at.stage == usize::MAX ==> error
                    == ErrorKind::TooManyStages.plain(),
            }
        }),
        at.stage == usize::MAX ==> ctx.built(kind, node, task_count, replies, at) is Fail,
{
    let tasks = number_in(task_count);
    let source = node.counted(task_count);
    let wished = TaskCountAnnotation::Desired(tasks);
    counts_are_handed_down(ctx, source, wished, replies, at.staged());
    crate::stage_laws::propagation_sends_nothing(ctx, source, wished, replies, at.staged());
    if at.stage < usize::MAX {
        if let OutcomeView::Done { plan: propagated, next } = ctx.propagated(
            source,
            wished,
            replies,
            at.staged(),
        ) {
            if let Some(reply) = next.reply_in(replies) {
                assert(replies[next.reply as int] == reply);
            }
        }
    }
}

/// Whether a stage is measured: right below what spreads or copies its rows stands a node that
/// measures them.
pub open spec fn is_measured_form_of(sent: PlanView, plan: PlanView) -> bool {
    if (plan.op is Repartition || plan.op is Broadcast) && plan.children.len() > 0 {
        &&& sent.op == plan.op
        &&& sent.facts == plan.facts
        &&& sent.variants == plan.variants
        &&& sent.children.len() == 1
        &&& sent.children[0].op is Sampler
        &&& sent.children[0].facts is None
        &&& sent.children[0].children =~= seq![plan.children[0]]
    } else {
        sent == plan
    }
}

/// Whether this is the number of tasks that the nodes of a stage of this cost agree on.
pub open spec fn is_agreed_at_cost(
    ctx: InjectNetworkBoundaryContext,
    agreed: TaskCountAnnotation,
    task_count: TaskCountAnnotation,
    cost: usize,
    bytes_per_partition: usize,
    partitions: nat,
) -> bool {
    match task_count {
        TaskCountAnnotation::Maximum(n) => agreed == TaskCountAnnotation::Maximum(n),
        TaskCountAnnotation::Desired(n) => {
            let suits = ctx.tasks_for_cost(cost, bytes_per_partition, partitions as usize);
            agreed == TaskCountAnnotation::Desired(
                if suits > n {
                    suits
                } else {
                    n
                },
            )
        },
    }
}

/// Whether the stage is what is sent of the node once its cost was told.
pub open spec fn is_sent_form(
    ctx: InjectNetworkBoundaryContext,
    sent: PlanView,
    tasks: usize,
    node: PlanView,
    task_count: TaskCountAnnotation,
    replies: Seq<ReplyView>,
) -> bool {
    exists|cost: usize, agreed: TaskCountAnnotation, counted: PlanView|
        #![trigger is_agreed_at_cost(ctx, agreed, task_count, cost, ctx.strategy->bytes_per_partition_per_second, node.partition_count()), is_measured_form_of(sent, counted)]
        replies.contains(ReplyView::StageCost(cost)) && is_agreed_at_cost(
            ctx,
            agreed,
            task_count,
            cost,
            ctx.strategy->bytes_per_partition_per_second,
            node.partition_count(),
        ) && number_in(agreed) == tasks && counted.is_counted_form_of(
            PlanView { task_count: Some(task_count), ..node },
            agreed,
            replies,
            ctx.children_isolator_unions,
        ) && is_measured_form_of(sent, counted)
}

/// While a query runs, a stage is closed with the number of tasks that suits its cost, as far as
/// its nodes agree, and leaves for its workers. A boundary that gathers rows keeps what is above it
/// to one task, and what is above any other is decided when its own cost is known.
pub proof fn dynamic_stages_are_closed(
    ctx: InjectNetworkBoundaryContext,
    kind: BoundaryKind,
    node: PlanView,
    task_count: TaskCountAnnotation,
    replies: Seq<ReplyView>,
    at: Cursor,
)
    requires
        ctx.strategy is Dynamic,
    ensures
        ({
            let source = PlanView { task_count: Some(task_count), ..node };
            match ctx.built(kind, node, task_count, replies, at) {
                OutcomeView::Done { plan: boundary, .. } => {
                    &&& at.stage < usize::MAX
                    &&& boundary.children.len() == 0
                    &&& boundary.task_count == Some(
                        if kind is Coalesce {
                            TaskCountAnnotation::Maximum(1)
                        } else {
                            TaskCountAnnotation::Desired(1)
                        },
                    )
                    &&& stage_below(boundary) matches Some(stage) && stage is Remote
                        && stage->Remote_query_id == ctx.query_id && stage->Remote_num == at.stage
                        && replies.contains(ReplyView::Dispatched(stage->workers))
                    &&& exists|sent: PlanView, tasks: usize| #[trigger]
                        is_sent_form(ctx, sent, tasks, node, task_count, replies)
                            && #[trigger] closes_stage(
                            boundary,
                            kind,
                            stage_below(boundary)->Some_0,
                            sent,
                            tasks,
                        )
                },
                OutcomeView::Ask(request) => {
                    &&& at.stage < usize::MAX
                    &&& match request {
                        RequestView::StageCost { plan } => plan == source,
                        RequestView::Dispatch { kind: asked, stage } => {
                            &&& asked == kind
                            &&& stage.query_id == ctx.query_id
                            &&& stage.num == at.stage
                            &&& is_sent_form(
                                ctx,
                                stage.plan,
                                stage.tasks,
                                node,
                                task_count,
                                replies,
                            )
                        },
                        _ => exists|agreed: TaskCountAnnotation| #[trigger]
                            source.gives_rise_to(
                                request,
                                agreed,
                                replies,
                                ctx.children_isolator_unions,
                            ),
                    }
                },
                OutcomeView::Fail(error) => at.stage == usize::MAX ==> error
                    == ErrorKind::TooManyStages.plain(),
            }
        }),
        at.stage == usize::MAX ==> ctx.built(kind, node, task_count, replies, at) is Fail,
        at.stage < usize::MAX && at.reply < replies.len() ==> {
            let outcome = ctx.built(kind, node, task_count, replies, at);
            let partitions = node.partition_count();
            if !(replies[at.reply as int] is StageCost) {
                outcome == OutcomeView::Fail(ErrorKind::UnexpectedReply.plain())
            } else if partitions == 0 {
                outcome == OutcomeView::Fail(ErrorKind::NoPartitions.about(node.op.name()))
            } else {
                partitions > usize::MAX ==> outcome == OutcomeView::Fail(
                    ErrorKind::PartitionCountOverflow.plain(),
                )
            }
        },
{
    let source = node.counted(task_count);
    let per_second = ctx.strategy->bytes_per_partition_per_second;
    let start = at.staged();
    assert(source.partition_count() == node.partition_count()) by {
        crate::measurement_laws::partitions_are_handed_out(source);
        crate::measurement_laws::partitions_are_handed_out(node);
    }
    if at.stage < usize::MAX {
        if let Some(ReplyView::StageCost(cost)) = start.reply_in(replies) {
            assert(replies[start.reply as int] == ReplyView::StageCost(cost));
            assert(replies.contains(ReplyView::StageCost(cost)));
            let partitions = node.partition_count();
            if 0 < partitions <= usize::MAX {
                let agreed = task_count.merged(
                    TaskCountAnnotation::Desired(
                        ctx.tasks_for_cost(cost, per_second, partitions as usize),
                    ),
                );
                assert(is_agreed_at_cost(ctx, agreed, task_count, cost, per_second, partitions));
                counts_are_handed_down(ctx, source, agreed, replies, start.answered());
                crate::stage_laws::propagation_sends_nothing(
                    ctx,
                    source,
                    agreed,
                    replies,
                    start.answered(),
                );
                if let OutcomeView::Done { plan: counted, next } = ctx.propagated(
                    source,
                    agreed,
                    replies,
                    start.answered(),
                ) {
                    let sent = counted.sampled();
                    assert(is_measured_form_of(sent, counted));
                    assert(is_sent_form(
                        ctx,
                        sent,
                        number_in(agreed),
                        node,
                        task_count,
                        replies,
                    ));
                    if let Some(ReplyView::Dispatched(workers)) = next.reply_in(replies) {
                        assert(replies[next.reply as int] == ReplyView::Dispatched(workers));
                        let stage = StageView::Remote {
                            query_id: ctx.query_id,
                            num: at.stage,
                            workers,
                        };
                        if let OutcomeView::Done { plan: boundary, .. } = ctx.built(
                            kind,
                            node,
                            task_count,
                            replies,
                            at,
                        ) {
                            assert(closes_stage(boundary, kind, stage, sent, number_in(agreed)));
                        }
                    }
                }
            }
        }
    }
}

} // verus!
