//! What planning a query comes to, step by step.
use crate::engine_reports::{reported_all, sizes};
use crate::inject_network_boundaries::{
    Cursor, InjectNetworkBoundaryContext, OutcomeView, ReplyView, RequestView,
};
use crate::distributed_query_planner::PlanningContext;
use crate::error::{DistributedErrorView, ErrorKind};
use crate::plan::{Facts, OperatorView, PlanView};
use std::sync::Arc;
use vstd::prelude::*;

verus! {

impl PlanView {
    /// Whether the rows of another stage come in at the node.
    pub open spec fn reads_a_stage(self) -> bool {
        match self.op {
            OperatorView::NetworkShuffle { .. } => true,
            OperatorView::NetworkCoalesce { .. } => true,
            OperatorView::NetworkBroadcast { .. } => true,
            _ => false,
        }
    }
}

proof fn boundaries_below_are_found(plan: PlanView, path: Seq<int>)
    requires
        plan.leads(path),
        plan.at(path).reads_a_stage(),
    ensures
        plan.has_boundary(),
    decreases path.len(),
{
    if path.len() > 0 {
        boundaries_below_are_found(plan.children[path[0]], path.drop_first());
    }
}

/// A plan has a network boundary exactly where some way leads to one.
pub proof fn boundaries_are_found(plan: PlanView)
    ensures
        plan.has_boundary() <==> exists|path: Seq<int>| #[trigger]
            plan.leads(path) && plan.at(path).reads_a_stage(),
    decreases plan,
{
    if plan.has_boundary() {
        if plan.op.is_network_boundary() {
            assert(plan.leads(Seq::empty()) && plan.at(Seq::empty()) == plan);
        } else {
            let child = choose|i: int|
                0 <= i < plan.children.len() && (#[trigger] plan.children[i]).has_boundary();
            boundaries_are_found(plan.children[child]);
            let path = choose|path: Seq<int>| #[trigger]
                plan.children[child].leads(path) && plan.children[child].at(path).reads_a_stage();
            crate::plan_paths::ways_start_with_a_child(plan, child, path);
            assert(plan.leads(seq![child] + path));
        }
    }
    if exists|path: Seq<int>| #[trigger] plan.leads(path) && plan.at(path).reads_a_stage() {
        let path = choose|path: Seq<int>| #[trigger]
            plan.leads(path) && plan.at(path).reads_a_stage();
        boundaries_below_are_found(plan, path);
    }
}

/// Whether the plan hands out the rows of the other one in at most one partition.
pub open spec fn is_gathered_form(gathered: PlanView, original: PlanView) -> bool {
    if original.partition_count() <= 1 {
        gathered == original
    } else {
        &&& gathered.op == (OperatorView::CoalescePartitions { fetch: None })
        &&& gathered.facts is None
        &&& gathered.task_count is None
        &&& gathered.children =~= seq![original]
        &&& gathered.variants.len() == 0
        &&& gathered.partition_count() == 1
    }
}

/// Whether the plan is the other one with joins that can run in several tasks and broadcast sides.
pub open spec fn is_joined_form(shaped: PlanView, gathered: PlanView, partitions: usize) -> bool {
    exists|joined: PlanView|
        joined.is_rewrite_of(gathered, true, partitions) && #[trigger] shaped.broadcasts_sides_of(
            joined,
        )
}

/// Whether the error tells what keeps a join of the plan from being rewritten.
pub open spec fn fails_at_a_join(plan: PlanView, error: DistributedErrorView) -> bool {
    exists|path: Seq<int>| #[trigger]
        plan.leads(path) && crate::join_laws::tells_of(error, plan.at(path))
}

/// Before boundaries are injected, the rows of a plan are gathered in one partition if there are
/// more. Where joins are broadcast, collecting joins are rewritten and the sides that they look
/// rows up in are broadcast. Only then it can fail other than by partitions that cannot be counted.
pub proof fn plans_are_shaped(ctx: PlanningContext, original: PlanView)
    ensures
        match ctx.shaped(original) {
            Ok(shaped) => exists|gathered: PlanView|
                #[trigger] is_gathered_form(gathered, original) && if ctx.config.broadcast_joins {
                    is_joined_form(shaped, gathered, ctx.target_partitions)
                } else {
                    shaped == gathered
                },
            Err(error) => {
                ||| original.partition_count() > usize::MAX && error
                    == ErrorKind::PartitionCountOverflow.plain()
                ||| ctx.config.broadcast_joins && exists|gathered: PlanView|
                    #[trigger] is_gathered_form(gathered, original)
                        && fails_at_a_join(gathered, error)
            },
        },
        original.partition_count() > usize::MAX ==> ctx.shaped(original) is Err,
{
    let gathered = if original.partition_count() > 1 {
        crate::plan::new_node(OperatorView::CoalescePartitions { fetch: None }, seq![original])
    } else {
        original
    };
    assert(is_gathered_form(gathered, original));
    if ctx.config.broadcast_joins {
        crate::join_laws::joins_are_rewritten(gathered, true, ctx.target_partitions);
        crate::join_laws::failures_name_a_join(gathered, true, ctx.target_partitions);
        if let Ok(joined) = gathered.normalized(true, ctx.target_partitions) {
            crate::join_laws::sides_are_broadcast(joined);
            let shaped = joined.with_broadcasts();
            assert(shaped.broadcasts_sides_of(joined));
            assert(is_joined_form(shaped, gathered, ctx.target_partitions));
        }
    }
}

/// How boundaries are injected, by the settings and the workers of a query.
pub open spec fn is_injection_for(
    injection: InjectNetworkBoundaryContext,
    ctx: PlanningContext,
) -> bool {
    &&& injection.query_id == ctx.injection_id
    &&& injection.max_tasks == (if ctx.config.max_tasks_per_stage > 0 {
        ctx.config.max_tasks_per_stage
    } else if ctx.workers > 1 {
        ctx.workers
    } else {
        1
    })
    &&& injection.broadcast_joins == ctx.config.broadcast_joins
    &&& injection.children_isolator_unions == ctx.config.children_isolator_unions
    &&& injection.strategy is Static
}

/// Whether the last steps of planning lead from a prepared plan to the one that is reported of:
/// partial results are merged if that is asked for, and stages that are gathered up to some rows
/// are limited to those.
pub open spec fn is_limited_after(limited: PlanView, ready: PlanView, merge: bool) -> bool {
    exists|merged: PlanView|
        (if merge {
            merged.merges_below_boundaries_of(ready)
        } else {
            merged == ready
        }) && #[trigger] limited.limits_stages_of(merged)
}

/// Whether planning ends with this plan: the root of a distributed query over a plan without
/// faults.
pub open spec fn is_planned_after(
    plan: PlanView,
    ready: PlanView,
    merge: bool,
    collect_metrics: bool,
) -> bool {
    &&& plan.op == (OperatorView::DistributedExec { collect_metrics })
    &&& plan.facts is None
    &&& plan.variants.len() == 0
    &&& plan.children.len() == 1
    &&& crate::validate_stages::plan_violation(plan.children[0]) is None
    &&& exists|limited: PlanView|
        is_limited_after(limited, ready, merge) && #[trigger] limited.same_but_facts(
            plan.children[0],
        )
}

proof fn finishing_ends_planning(
    ctx: PlanningContext,
    ready: PlanView,
    merged: PlanView,
    merge: bool,
    replies: Seq<ReplyView>,
    at: Cursor,
)
    requires
        if merge {
            merged.merges_below_boundaries_of(ready)
        } else {
            merged == ready
        },
    ensures
        match ctx.finished(merged, replies, at) {
            OutcomeView::Done { plan, next } => is_planned_after(
                plan,
                ready,
                merge,
                ctx.config.collect_metrics,
            ) && next == at.answered(),
            OutcomeView::Ask(request) => at.reply >= replies.len() && exists|limited: PlanView|
                #[trigger] is_limited_after(limited, ready, merge) && request
                    == (RequestView::Report { plan: limited }),
            OutcomeView::Fail(_) => at.reply < replies.len(),
        },
{
    let limited = merged.fetches_pushed();
    crate::preparation_laws::stages_are_limited(merged);
    assert(limited.limits_stages_of(merged));
    assert(is_limited_after(limited, ready, merge));
    if let Some(ReplyView::Reported(facts)) = at.reply_in(replies) {
        crate::engine_reports::reports_keep_plans(limited, facts, 0);
    }
}

/// Whether boundaries were injected into the plan for the query.
pub open spec fn is_injected_into(
    ctx: PlanningContext,
    shaped: PlanView,
    replies: Seq<ReplyView>,
    injected: PlanView,
) -> bool {
    exists|injection: InjectNetworkBoundaryContext, next: Cursor|
        is_injection_for(injection, ctx) && (#[trigger] injection.cut(
            shaped,
            replies,
            Cursor { reply: 0, stage: 1 },
        )) == #[trigger] done_with(injected, next)
}

pub open spec fn done_with(plan: PlanView, next: Cursor) -> OutcomeView {
    OutcomeView::Done { plan, next }
}

/// Whether the stages of a plan were prepared for the query.
pub open spec fn is_ready_form(ctx: PlanningContext, plan: PlanView, ready: PlanView) -> bool {
    &&& crate::prepare_network_boundaries::prepared(plan, 1, ctx.query_id, 1) matches Ok(prepared)
        && prepared.plan == ready
    &&& plan.is_countable() ==> ready.is_preparation_of(plan, 1, ctx.query_id)
}

/// Planning leaves a distributed query as it is, and a plan that boundaries were injected into but
/// none is left of. Where tasks are counted while the query runs, it ends with the shaped plan
/// below the root of a distributed query. Otherwise boundaries are injected, within the limits of
/// the settings, the stages prepared, partial results merged if that is asked for, gathered stages
/// limited, and the plan is found to be without faults.
pub proof fn plans_are_planned(ctx: PlanningContext, original: PlanView, replies: Seq<ReplyView>)
    requires
        !original.has_boundary(),
    ensures
        match ctx.planned(original, replies) {
            OutcomeView::Done { plan, .. } => if original.op is DistributedExec {
                plan == original
            } else if ctx.config.dynamic_task_count {
                &&& plan.op == (OperatorView::DistributedExec {
                    collect_metrics: ctx.config.collect_metrics,
                })
                &&& plan.children.len() == 1
                &&& ctx.shaped(original) == Ok::<_, DistributedErrorView>(
                    plan.children[0],
                )
            } else {
                ctx.shaped(original) matches Ok(shaped) && exists|injected: PlanView, ready: PlanView|
                    #[trigger] is_injected_into(ctx, shaped, replies, injected)
                        && #[trigger] is_ready_form(ctx, injected, ready)
                        && if ready.has_boundary() {
                        is_planned_after(
                            plan,
                            ready,
                            ctx.config.partial_reduce,
                            ctx.config.collect_metrics,
                        )
                    } else {
                        plan == original
                    }
            },
            OutcomeView::Ask(_) => !(original.op is DistributedExec)
                && !ctx.config.dynamic_task_count,
            OutcomeView::Fail(_) => !(original.op is DistributedExec),
        },
{
    if !(original.op is DistributedExec) && !ctx.config.dynamic_task_count {
        if let Ok(shaped) = ctx.shaped(original) {
            let at = Cursor { reply: 0, stage: 1 };
            let injection = ctx.injection();
            assert(is_injection_for(injection, ctx));
            if let OutcomeView::Done { plan: injected, next } = injection.cut(shaped, replies, at) {
                assert(injection.cut(shaped, replies, at) == done_with(injected, next));
                assert(is_injected_into(ctx, shaped, replies, injected));
                if injected.is_countable() {
                    crate::preparation_laws::plans_are_prepared(injected, 1, ctx.query_id, 1);
                }
                if let Ok(ready) = crate::prepare_network_boundaries::prepared(
                    injected,
                    1,
                    ctx.query_id,
                    1,
                ) {
                    assert(is_ready_form(ctx, injected, ready.plan));
                    if ready.plan.has_boundary() {
                        if ctx.config.partial_reduce {
                            crate::aggregate_laws::partial_results_are_merged(ready.plan);
                            if let Ok(merged) = ready.plan.reduced() {
                                finishing_ends_planning(
                                    ctx,
                                    ready.plan,
                                    merged,
                                    true,
                                    replies,
                                    next,
                                );
                            }
                        } else {
                            finishing_ends_planning(
                                ctx,
                                ready.plan,
                                ready.plan,
                                false,
                                replies,
                                next,
                            );
                        }
                    }
                }
            }
        }
    }
}

/// A plan with boundaries keeps them: its leaves are replaced by what reads them, its stages
/// prepared and limited, and the plan is found to be without faults. If no boundary is left, the
/// prepared plan runs as it is.
pub proof fn boundaries_of_users_are_kept(
    ctx: PlanningContext,
    original: PlanView,
    replies: Seq<ReplyView>,
)
    requires
        original.has_boundary(),
        !(original.op is DistributedExec),
    ensures
        ctx.planned(original, replies) matches OutcomeView::Done { plan, .. } ==> {
            let scaled = crate::distributed_query_planner::leaves_scaled(
                original,
                1,
                replies,
                Cursor { reply: 0, stage: 1 },
            );
            scaled is Done && exists|ready: PlanView|
                #[trigger] is_ready_form(ctx, scaled->Done_plan, ready) && if ready.has_boundary() {
                    is_planned_after(plan, ready, false, ctx.config.collect_metrics)
                } else {
                    plan == ready
                }
        },
{
    let at = Cursor { reply: 0, stage: 1 };
    if let OutcomeView::Done { plan: scaled, next } = crate::distributed_query_planner::leaves_scaled(
        original,
        1,
        replies,
        at,
    ) {
        if scaled.is_countable() {
            crate::preparation_laws::plans_are_prepared(scaled, 1, ctx.query_id, 1);
        }
        if let Ok(ready) = crate::prepare_network_boundaries::prepared(scaled, 1, ctx.query_id, 1) {
            assert(is_ready_form(ctx, scaled, ready.plan));
            if ready.plan.has_boundary() {
                finishing_ends_planning(ctx, ready.plan, ready.plan, false, replies, next);
            }
        }
    }
}

proof fn reports_below_go_to_their_nodes(plans: Seq<PlanView>, facts: Seq<Arc<Facts>>, at: nat)
    ensures
        ({
            let before = crate::recursion::pre_order_all(plans);
            let after = crate::recursion::pre_order_all(reported_all(plans, facts, at));
            &&& before.len() == sizes(plans)
            &&& after.len() == sizes(plans)
            &&& forall|i: int|
                0 <= i < sizes(plans) ==> (#[trigger] after[i]).facts == Some(facts[at + i])
                    && after[i].op == before[i].op
        }),
    decreases plans, 1nat,
{
    let before = crate::recursion::pre_order_all(plans);
    let reported = reported_all(plans, facts, at);
    let after = crate::recursion::pre_order_all(reported);
    if plans.len() > 0 {
        let shorter = plans.drop_last();
        let n = sizes(shorter);
        reports_below_go_to_their_nodes(shorter, facts, at);
        reports_go_to_nodes_from(plans.last(), facts, at + n);
        assert(reported.drop_last() =~= reported_all(shorter, facts, at));
        assert(reported.last() == plans.last().reported(facts, at + n));
        let some = crate::recursion::pre_order_all(reported_all(shorter, facts, at));
        let more = plans.last().reported(facts, at + n).pre_order();
        assert(after =~= some + more);
        assert forall|i: int| 0 <= i < sizes(plans) implies (#[trigger] after[i]).facts == Some(
            facts[at + i],
        ) && after[i].op == before[i].op by {
            if i < n {
                assert(after[i] == some[i]);
                assert(before[i] == crate::recursion::pre_order_all(shorter)[i]);
            } else {
                assert(after[i] == more[i - n]);
                assert(before[i] == plans.last().pre_order()[i - n]);
            }
        }
    } else {
        assert(after =~= Seq::empty());
    }
}

proof fn reports_go_to_nodes_from(plan: PlanView, facts: Seq<Arc<Facts>>, at: nat)
    ensures
        ({
            let before = plan.pre_order();
            let after = plan.reported(facts, at).pre_order();
            &&& before.len() == plan.size()
            &&& after.len() == plan.size()
            &&& forall|i: int|
                0 <= i < plan.size() ==> (#[trigger] after[i]).facts == Some(facts[at + i])
                    && after[i].op == before[i].op
        }),
    decreases plan, 0nat,
{
    reports_below_go_to_their_nodes(plan.children, facts, at + 1);
    let below = crate::recursion::pre_order_all(reported_all(plan.children, facts, at + 1));
    let after = plan.reported(facts, at).pre_order();
    let before = plan.pre_order();
    assert forall|i: int| 0 <= i < plan.size() implies (#[trigger] after[i]).facts == Some(
        facts[at + i],
    ) && after[i].op == before[i].op by {
        if i > 0 {
            assert(after[i] == below[i - 1]);
            assert(before[i] == crate::recursion::pre_order_all(plan.children)[i - 1]);
        }
    }
}

/// The reports on a plan go to its nodes in the order in which they are listed, one to each.
/// Without one for each of them there is no plan.
pub proof fn reports_go_to_their_nodes(plan: PlanView, replies: Seq<ReplyView>, at: Cursor)
    requires
        replies.len() <= usize::MAX,
    ensures
        match crate::inject_network_boundaries::reported(plan, replies, at) {
            OutcomeView::Done { plan: known, next } => {
                let nodes = known.pre_order();
                &&& at.reply < replies.len()
                &&& next.reply == at.reply + 1
                &&& next.stage == at.stage
                &&& plan.same_but_facts(known)
                &&& replies[at.reply as int] matches ReplyView::Reported(facts) && facts.len()
                    == nodes.len() && forall|i: int|
                    0 <= i < nodes.len() ==> (#[trigger] nodes[i]).facts == Some(facts[i])
                        && nodes[i].op == plan.pre_order()[i].op
            },
            OutcomeView::Ask(request) => at.reply >= replies.len() && request == (
            RequestView::Report { plan }),
            OutcomeView::Fail(error) => at.reply < replies.len() && error
                == ErrorKind::UnexpectedReply.plain() && !(replies[at.reply as int]
                matches ReplyView::Reported(facts) && facts.len() == plan.pre_order().len()),
        },
{
    reports_go_to_nodes_from(plan, Seq::empty(), 0);
    if let Some(ReplyView::Reported(facts)) = at.reply_in(replies) {
        reports_go_to_nodes_from(plan, facts, 0);
        crate::engine_reports::reports_keep_plans(plan, facts, 0);
    }
}

} // verus!
