//! What is put together again of a query whose stages have left, and where its stages run.
use crate::distributed_query_planner::{LeafScaler, ScalingState};
use crate::error::ErrorKind;
use crate::ids::Uuid;
use crate::inject_network_boundaries::{
    Cursor, InjectNetworkBoundaryContext, LocalStageView, OutcomeView, ReplyView,
};
use crate::plan::{OperatorView, PlanView, StageView};
use crate::prepare_dynamic_plan::{
    kept_stages, DynamicOutcomeView, PlanReconstructor, StagePlans,
};
use crate::recursion::DownRewriter;
use vstd::prelude::*;

verus! {

/// The stage that feeds the node, if one does.
pub open spec fn stage_below(node: PlanView) -> Option<StageView> {
    match node.op {
        OperatorView::NetworkShuffle { stage, .. } => Some(stage),
        OperatorView::NetworkCoalesce { stage, .. } => Some(stage),
        OperatorView::NetworkBroadcast { stage, .. } => Some(stage),
        _ => None,
    }
}

/// The query that a stage belongs to.
pub open spec fn query_of(stage: StageView) -> Uuid {
    match stage {
        StageView::Local { query_id, .. } => query_id,
        StageView::Remote { query_id, .. } => query_id,
    }
}

/// The number of a stage.
pub open spec fn number_of_stage(stage: StageView) -> usize {
    match stage {
        StageView::Local { num, .. } => num,
        StageView::Remote { num, .. } => num,
    }
}

/// Whether an operator is the boundary before, above the same stage with its plan at hand.
pub open spec fn is_reopened(op: OperatorView, before: OperatorView) -> bool {
    let reopens = |after: StageView, stage: StageView|
        after is Local && query_of(after) == query_of(stage) && number_of_stage(after)
            == number_of_stage(stage) && after->Local_tasks
            == crate::preparation_laws::tasks_in(stage) as usize;
    match before {
        OperatorView::NetworkShuffle { stage, partitioning, output, properties } => {
            &&& op is NetworkShuffle
            &&& op->NetworkShuffle_partitioning == partitioning
            &&& op->NetworkShuffle_properties == properties
            &&& op->NetworkShuffle_output == output
            &&& reopens(op->NetworkShuffle_stage, stage)
        },
        OperatorView::NetworkCoalesce { stage, output, consumer_tasks, properties } => {
            &&& op is NetworkCoalesce
            &&& op->NetworkCoalesce_output == output
            &&& op->NetworkCoalesce_consumer_tasks == consumer_tasks
            &&& op->NetworkCoalesce_properties == properties
            &&& reopens(op->NetworkCoalesce_stage, stage)
        },
        OperatorView::NetworkBroadcast { stage, output, properties } => {
            &&& op is NetworkBroadcast
            &&& op->NetworkBroadcast_output == output
            &&& op->NetworkBroadcast_properties == properties
            &&& reopens(op->NetworkBroadcast_stage, stage)
        },
        _ => false,
    }
}

impl PlanView {
    /// Whether the plan is the other one, executed in this many tasks, with the plans of its stages
    /// put back: below each boundary stands the plan that was kept of its stage, which feeds all
    /// tasks above it, and the stages below that are put back in their turn.
    pub open spec fn is_whole_form_of(self, plan: PlanView, stages: StagePlans, tasks: usize) -> bool
        decreases self,
    {
        match stage_below(plan) {
            Some(stage) => {
                &&& stages.plan_of(number_of_stage(stage)) is Some
                &&& is_reopened(self.op, plan.op)
                &&& self.facts == plan.facts
                &&& self.children.len() == 1
                &&& exists|input: PlanView|
                    #[trigger] crate::preparation_laws::feeds_tasks(
                        input,
                        stages.plan_of(number_of_stage(stage))->Some_0,
                        plan.op,
                        tasks,
                    ) && self.children[0].is_whole_form_of(
                        input,
                        stages,
                        crate::preparation_laws::tasks_in(stage) as usize,
                    )
            },
            None => {
                &&& self.is_same_node(plan)
                &&& forall|i: int|
                    0 <= i < self.children.len() ==> (#[trigger] self.children[i]).is_whole_form_of(
                        plan.children[i],
                        stages,
                        plan.op.child_tasks(i, tasks),
                    )
            },
        }
    }
}

impl StagePlans {
    /// Whether these are some of the others.
    pub open spec fn are_among(self, all: StagePlans) -> bool {
        &&& all.slots.dom().finite()
        &&& self.slots.submap_of(all.slots)
        &&& self.plans == all.plans
    }
}

proof fn stages_stay_among(state: StagePlans, all: StagePlans, num: usize)
    requires
        state.are_among(all),
    ensures
        state.plan_of(num) is Some ==> state.plan_of(num) == all.plan_of(num),
        (StagePlans { slots: state.slots.remove(num), plans: state.plans }).are_among(all),
{
    if state.slots.dom().contains(num) {
        assert(all.slots.dom().contains(num) && state.slots[num] == all.slots[num]);
    }
}

proof fn stages_are_put_back_in(state: StagePlans, plan: PlanView, all: StagePlans, tasks: usize)
    requires
        state.are_among(all),
    ensures
        ({
            let (after, outcome) = crate::recursion::rewritten_down::<usize, PlanReconstructor>(
                state,
                plan,
                tasks,
            );
            outcome matches Ok(whole) ==> {
                &&& after.are_among(all)
                &&& whole.data.is_whole_form_of(plan, all, tasks)
                &&& whole.tnr is Continue
                &&& !whole.transformed ==> whole.data == plan
            }
        }),
    decreases
            <PlanReconstructor as DownRewriter<usize>>::rank(state),
            <PlanReconstructor as DownRewriter<usize>>::size(plan),
            1nat,
            0nat,
{
    crate::recursion::task_counts_fit(plan, tasks);
    <PlanReconstructor as DownRewriter<usize>>::makes_progress(state, plan, tasks);
    let (next, answer) = crate::prepare_dynamic_plan::put_back(state, plan, tasks);
    if let Ok(node) = answer {
        let rank = <PlanReconstructor as DownRewriter<usize>>::rank(state);
        let data = node.data;
        if let Some(stage) = stage_below(plan) {
            stages_stay_among(state, all, number_of_stage(stage));
            assert(plan.op.input_stage() == stage);
            assert(is_reopened(data.op, plan.op));
            let kept = all.plan_of(number_of_stage(stage))->Some_0;
            assert(state.plan_of(number_of_stage(stage)) == Some(kept));
            assert(crate::preparation_laws::feeds_tasks(data.children[0], kept, plan.op, tasks));
        }
        stages_are_put_back_in_all(
            next,
            data,
            data.children.len(),
            all,
            tasks,
            rank,
            plan.weight(),
        );
        assert(data.children.take(data.children.len() as int) =~= data.children);
        let (after, children) = crate::recursion::rewritten_down_all::<usize, PlanReconstructor>(
            next,
            data.op,
            data.children,
            tasks,
            rank,
            plan.weight(),
        );
        if let Ok(children) = children {
            let whole = crate::recursion::reassembled(node, children).data;
            assert(whole.children =~= children.plans);
            if let Some(stage) = stage_below(plan) {
                assert(data.op.child_tasks(0, tasks) == crate::preparation_laws::tasks_in(
                    stage,
                ) as usize);
                assert(whole.children[0].is_whole_form_of(
                    data.children[0],
                    all,
                    crate::preparation_laws::tasks_in(stage) as usize,
                ));
            } else {
                assert(whole.is_same_node(plan));
            }
            assert(whole.is_whole_form_of(plan, all, tasks));
        }
    }
}

proof fn stages_are_put_back_in_all(
    state: StagePlans,
    parent: PlanView,
    upto: nat,
    all: StagePlans,
    tasks: usize,
    rank: nat,
    size: nat,
)
    requires
        state.are_among(all),
        upto <= parent.children.len(),
        <PlanReconstructor as DownRewriter<usize>>::rank(state) <= rank,
        <PlanReconstructor as DownRewriter<usize>>::rank(state) < rank || forall|i: int|
            0 <= i < parent.children.len() ==> (#[trigger] parent.children[i]).weight() < size,
    ensures
        ({
            let (after, outcome) = crate::recursion::rewritten_down_all::<usize, PlanReconstructor>(
                state,
                parent.op,
                parent.children.take(upto as int),
                tasks,
                rank,
                size,
            );
            outcome matches Ok(children) ==> {
                &&& after.are_among(all)
                &&& children.plans.len() == upto
                &&& children.tnr is Continue
                &&& forall|i: int|
                    0 <= i < upto ==> (#[trigger] children.plans[i]).is_whole_form_of(
                        parent.children[i],
                        all,
                        parent.op.child_tasks(i, tasks),
                    )
                &&& !children.changed ==> children.plans == parent.children.take(upto as int)
            }
        }),
    decreases rank, size, 0nat, upto,
{
    let plans = parent.children.take(upto as int);
    if upto == 0 {
        assert(plans =~= Seq::empty());
    } else {
        let shorter = (upto - 1) as nat;
        assert(plans.drop_last() =~= parent.children.take(shorter as int));
        stages_are_put_back_in_all(state, parent, shorter, all, tasks, rank, size);
        crate::recursion::task_counts_fit(parent, tasks);
        crate::recursion::walking_down_all_makes_progress::<usize, PlanReconstructor>(
            state,
            parent,
            shorter,
            tasks,
            rank,
            size,
        );
        let (next, before) = crate::recursion::rewritten_down_all::<usize, PlanReconstructor>(
            state,
            parent.op,
            plans.drop_last(),
            tasks,
            rank,
            size,
        );
        if let Ok(before) = before {
            let inner = parent.op.child_tasks(upto - 1, tasks);
            assert(crate::recursion::Scope::child_scope(tasks, parent.op, upto - 1) == Some(inner));
            assert(plans.last() == parent.children[upto - 1]);
            stages_are_put_back_in(next, plans.last(), all, inner);
            assert(plans.drop_last().push(plans.last()) =~= plans);
        }
    }
}

/// Whether the stage is the last one of the list with its number.
pub open spec fn is_last_sent(sent: Seq<LocalStageView>, i: int, num: usize) -> bool {
    &&& 0 <= i < sent.len()
    &&& sent[i].num == num
    &&& forall|later: int| i < later < sent.len() ==> (#[trigger] sent[later]).num != num
}

/// Of the stages that were sent under a number, the plan of the last one is kept.
pub proof fn sent_stages_are_kept(sent: Seq<LocalStageView>, num: usize)
    requires
        sent.len() <= usize::MAX,
    ensures
        match kept_stages(sent).plan_of(num) {
            Some(plan) => exists|i: int| #[trigger] is_last_sent(sent, i, num) && sent[i].plan == plan,
            None => forall|i: int| 0 <= i < sent.len() ==> (#[trigger] sent[i]).num != num,
        },
        kept_stages(sent).slots.dom().finite(),
        kept_stages(sent).plans.len() == sent.len(),
    decreases sent.len(),
{
    slots_name_stages(sent);
    let kept = kept_stages(sent);
    if kept.slots.contains_key(num) {
        let i = kept.slots[num] as int;
        assert(is_last_sent(sent, i, num));
    }
}

proof fn slots_name_stages(sent: Seq<LocalStageView>)
    requires
        sent.len() <= usize::MAX,
    ensures
        ({
            let kept = kept_stages(sent);
            &&& kept.slots.dom().finite()
            &&& kept.plans.len() == sent.len()
            &&& forall|i: int| 0 <= i < sent.len() ==> kept.plans[i] == (#[trigger] sent[i]).plan
            &&& forall|num: usize| #[trigger]
                kept.slots.contains_key(num) ==> is_last_sent(sent, kept.slots[num] as int, num)
            &&& forall|i: int|
                0 <= i < sent.len() ==> kept.slots.contains_key((#[trigger] sent[i]).num)
        }),
    decreases sent.len(),
{
    if sent.len() > 0 {
        let shorter = sent.drop_last();
        slots_name_stages(shorter);
        let kept = kept_stages(sent);
        let before = kept_stages(shorter);
        assert(kept.slots.dom() =~= before.slots.dom().insert(sent.last().num));
        assert forall|i: int| 0 <= i < sent.len() implies kept.plans[i] == (
        #[trigger] sent[i]).plan && kept.slots.contains_key(sent[i].num) by {
            if i < shorter.len() {
                assert(shorter[i] == sent[i]);
            }
        }
        assert forall|num: usize| #[trigger] kept.slots.contains_key(num) implies is_last_sent(
            sent,
            kept.slots[num] as int,
            num,
        ) by {
            if num != sent.last().num {
                let i = before.slots[num] as int;
                assert(before.slots.contains_key(num));
                assert(is_last_sent(shorter, i, num));
                assert forall|later: int| i < later < sent.len() implies (
                #[trigger] sent[later]).num != num by {
                    if later < shorter.len() {
                        assert(shorter[later].num != num);
                    }
                }
                assert(shorter[i] == sent[i]);
            }
        }
    } else {
        assert(kept_stages(sent).slots.dom() =~= Set::empty());
    }
}

/// A query whose stages have left is shown with the plans of all its stages, each below the
/// boundary that reads from it.
pub proof fn stages_are_put_back(sent: Seq<LocalStageView>, head_stage: PlanView)
    requires
        sent.len() <= usize::MAX,
    ensures
        crate::recursion::rewritten_down::<usize, PlanReconstructor>(
            kept_stages(sent),
            head_stage,
            1,
        ).1 matches Ok(whole) ==> whole.data.is_whole_form_of(head_stage, kept_stages(sent), 1),
{
    slots_name_stages(sent);
    stages_are_put_back_in(kept_stages(sent), head_stage, kept_stages(sent), 1);
}

/// A stage that was not kept, or was put back before, cannot be put back. The error tells its
/// number.
pub proof fn stages_are_put_back_once(state: StagePlans, node: PlanView, tasks: usize)
    requires
        state.slots.dom().finite(),
    ensures
        ({
            let (after, outcome) = crate::prepare_dynamic_plan::put_back(state, node, tasks);
            match stage_below(node) {
                None => after == state && outcome is Ok && outcome->Ok_0.data == node,
                Some(stage) => {
                    let num = number_of_stage(stage);
                    &&& after.plan_of(num) is None
                    &&& state.plan_of(num) is None ==> (outcome matches Err(error) && error == (
                    ErrorKind::MissingStagePlan { num }).plain())
                    &&& forall|other: usize|
                        other != num ==> #[trigger] after.plan_of(other) == state.plan_of(other)
                },
            }
        }),
{
    if let Some(stage) = stage_below(node) {
        let num = number_of_stage(stage);
        assert(node.op.input_stage() == stage);
        assert(state.slots.remove(num).dom() =~= state.slots.dom().remove(num));
    }
}

/// A query whose task counts are decided while it runs is done once its plan is cut into stages.
/// What stays is executed, and the whole plan is shown.
pub proof fn running_queries_are_shown_whole(
    ctx: InjectNetworkBoundaryContext,
    base_plan: PlanView,
    replies: Seq<ReplyView>,
    sent: Seq<LocalStageView>,
)
    requires
        sent.len() <= usize::MAX,
    ensures
        match crate::prepare_dynamic_plan::dynamically_prepared(ctx, base_plan, replies, sent) {
            DynamicOutcomeView::Done { head_stage, plan_for_viz } => {
                &&& ctx.cut(base_plan, replies, Cursor { reply: 0, stage: 1 }) matches OutcomeView::Done {
                    plan,
                    ..
                } && plan == head_stage
                &&& plan_for_viz.is_whole_form_of(head_stage, kept_stages(sent), 1)
            },
            DynamicOutcomeView::Ask(request) => ctx.cut(
                base_plan,
                replies,
                Cursor { reply: 0, stage: 1 },
            ) == OutcomeView::Ask(request),
            DynamicOutcomeView::Fail(error) => !(ctx.cut(
                base_plan,
                replies,
                Cursor { reply: 0, stage: 1 },
            ) is Ask),
        },
{
    if let OutcomeView::Done { plan, .. } = ctx.cut(
        base_plan,
        replies,
        Cursor { reply: 0, stage: 1 },
    ) {
        stages_are_put_back(sent, plan);
    }
}

impl PlanView {
    /// The worker of the stage that feeds the node, where it is a single one.
    pub open spec fn only_worker(self) -> Option<Seq<char>> {
        match stage_below(self) {
            Some(StageView::Remote { workers, .. }) => if workers.len() == 1 {
                Some(workers[0])
            } else {
                None
            },
            _ => None,
        }
    }
}

/// Whether the worker is the first one that a stage below the nodes has for itself, or there is
/// none.
pub open spec fn is_first_only_worker(nodes: Seq<PlanView>, worker: Option<Seq<char>>) -> bool {
    match worker {
        Some(worker) => exists|i: int|
            0 <= i < nodes.len() && (#[trigger] nodes[i]).only_worker() == Some(worker) && forall|
                j: int,
            |
                0 <= j < i ==> (#[trigger] nodes[j]).only_worker() is None,
        None => forall|i: int| 0 <= i < nodes.len() ==> (#[trigger] nodes[i]).only_worker() is None,
    }
}

proof fn workers_are_found_first(
    one: Seq<PlanView>,
    other: Seq<PlanView>,
    first: Option<Seq<char>>,
    second: Option<Seq<char>>,
)
    requires
        is_first_only_worker(one, first),
        is_first_only_worker(other, second),
    ensures
        is_first_only_worker(
            one + other,
            if first is Some {
                first
            } else {
                second
            },
        ),
{
    let nodes = one + other;
    assert(forall|i: int| 0 <= i < one.len() ==> #[trigger] nodes[i] == one[i]);
    assert(forall|i: int| 0 <= i < other.len() ==> nodes[one.len() + i] == #[trigger] other[i]);
    assert(forall|i: int|
        one.len() <= i < nodes.len() ==> #[trigger] nodes[i] == other[i - one.len()]);
    if let Some(worker) = first {
        let i = choose|i: int|
            0 <= i < one.len() && (#[trigger] one[i]).only_worker() == Some(worker) && forall|
                j: int,
            |
                0 <= j < i ==> (#[trigger] one[j]).only_worker() is None;
        assert(nodes[i].only_worker() == Some(worker));
    } else if let Some(worker) = second {
        let i = choose|i: int|
            0 <= i < other.len() && (#[trigger] other[i]).only_worker() == Some(worker) && forall|
                j: int,
            |
                0 <= j < i ==> (#[trigger] other[j]).only_worker() is None;
        assert(nodes[one.len() + i].only_worker() == Some(worker));
    }
}

proof fn single_workers_of_all_are_found(plans: Seq<PlanView>)
    ensures
        is_first_only_worker(
            crate::recursion::pre_order_all(plans),
            crate::prepare_dynamic_plan::first_single_worker(plans),
        ),
    decreases plans, 1nat,
{
    if plans.len() > 0 {
        single_workers_of_all_are_found(plans.drop_last());
        single_workers_are_found(plans.last());
        workers_are_found_first(
            crate::recursion::pre_order_all(plans.drop_last()),
            plans.last().pre_order(),
            crate::prepare_dynamic_plan::first_single_worker(plans.drop_last()),
            plans.last().single_input_worker(),
        );
    }
}

/// The worker that a stage of one task may share is the one of the first boundary, in the order in
/// which the nodes are listed, whose stage left for a single worker.
pub proof fn single_workers_are_found(plan: PlanView)
    ensures
        is_first_only_worker(plan.pre_order(), plan.single_input_worker()),
    decreases plan, 0nat,
{
    single_workers_of_all_are_found(plan.children);
    let here = seq![plan];
    assert(here[0] == plan);
    assert(is_first_only_worker(here, plan.only_worker()));
    workers_are_found_first(
        here,
        crate::recursion::pre_order_all(plan.children),
        plan.only_worker(),
        crate::prepare_dynamic_plan::first_single_worker(plan.children),
    );
}

impl PlanView {
    /// Whether the plan is the other one with what was answered in the place of its leaves. The
    /// leaves of an answer are replaced in their turn, and everything else stays.
    pub open spec fn is_scaled_form_of(self, plan: PlanView, replies: Seq<ReplyView>) -> bool
        decreases self,
    {
        if plan.children.len() > 0 {
            &&& self.is_same_node(plan)
            &&& forall|i: int|
                0 <= i < self.children.len() ==> (#[trigger] self.children[i]).is_scaled_form_of(
                    plan.children[i],
                    replies,
                )
        } else {
            exists|reply: int|
                0 <= reply < replies.len() && match #[trigger] replies[reply] {
                    ReplyView::ScaledLeaf(None) => self == plan,
                    ReplyView::ScaledLeaf(Some(scaled)) => self.is_same_node(scaled) && forall|i: int|
                        0 <= i < self.children.len() ==> (
                        #[trigger] self.children[i]).is_scaled_form_of(scaled.children[i], replies),
                    _ => false,
                }
        }
    }
}

proof fn leaves_are_replaced_in(state: ScalingState, plan: PlanView, tasks: usize)
    requires
        state.question is None,
    ensures
        ({
            let (after, outcome) = crate::recursion::rewritten_down::<usize, LeafScaler<'static>>(
                state,
                plan,
                tasks,
            );
            &&& after.replies == state.replies
            &&& after.taken >= state.taken
            &&& match outcome {
                Ok(scaled) => {
                    &&& scaled.data.is_scaled_form_of(plan, state.replies)
                    &&& scaled.tnr is Continue
                    &&& !scaled.transformed ==> scaled.data == plan
                    &&& after.question is None
                    &&& after.taken > state.taken
                },
                Err(error) => match after.question {
                    Some(request) => after.taken >= state.replies.len() && request is ScaleLeaf
                        && request->ScaleLeaf_leaf.children.len() == 0,
                    None => after.taken < state.replies.len()
                        && !(state.replies[after.taken as int] is ScaledLeaf) && error
                        == ErrorKind::UnexpectedReply.plain(),
                },
            }
        }),
    decreases
            <LeafScaler<'static> as DownRewriter<usize>>::rank(state),
            <LeafScaler<'static> as DownRewriter<usize>>::size(plan),
            1nat,
            0nat,
{
    crate::recursion::task_counts_fit(plan, tasks);
    <LeafScaler<'static> as DownRewriter<usize>>::makes_progress(state, plan, tasks);
    let (next, answer) = crate::distributed_query_planner::leaf_scaled(state, plan, tasks);
    if let Ok(node) = answer {
        let rank = <LeafScaler<'static> as DownRewriter<usize>>::rank(state);
        let data = node.data;
        leaves_of_all_are_replaced(
            next,
            data,
            data.children.len(),
            tasks,
            rank,
            plan.weight(),
        );
        assert(data.children.take(data.children.len() as int) =~= data.children);
        let (after, children) = crate::recursion::rewritten_down_all::<usize, LeafScaler<'static>>(
            next,
            data.op,
            data.children,
            tasks,
            rank,
            plan.weight(),
        );
        if let Ok(children) = children {
            let scaled = crate::recursion::reassembled(node, children).data;
            assert(scaled.children =~= children.plans);
            assert(scaled.is_same_node(data));
            if plan.children.len() == 0 {
                let reply = state.taken as int;
                assert(state.replies[reply] is ScaledLeaf);
                if state.replies[reply]->ScaledLeaf_0 is None {
                    assert(scaled == plan);
                }
            }
            assert(scaled.is_scaled_form_of(plan, state.replies));
        }
    }
}

proof fn leaves_of_all_are_replaced(
    state: ScalingState,
    parent: PlanView,
    upto: nat,
    tasks: usize,
    rank: nat,
    size: nat,
)
    requires
        state.question is None,
        upto <= parent.children.len(),
        <LeafScaler<'static> as DownRewriter<usize>>::rank(state) <= rank,
        <LeafScaler<'static> as DownRewriter<usize>>::rank(state) < rank || forall|i: int|
            0 <= i < parent.children.len() ==> (#[trigger] parent.children[i]).weight() < size,
    ensures
        ({
            let (after, outcome) = crate::recursion::rewritten_down_all::<
                usize,
                LeafScaler<'static>,
            >(state, parent.op, parent.children.take(upto as int), tasks, rank, size);
            &&& after.replies == state.replies
            &&& after.taken >= state.taken
            &&& match outcome {
                Ok(children) => {
                    &&& children.plans.len() == upto
                    &&& children.tnr is Continue
                    &&& forall|i: int|
                        0 <= i < upto ==> (#[trigger] children.plans[i]).is_scaled_form_of(
                            parent.children[i],
                            state.replies,
                        )
                    &&& !children.changed ==> children.plans == parent.children.take(upto as int)
                    &&& after.question is None
                    &&& upto > 0 ==> after.taken > state.taken
                },
                Err(error) => match after.question {
                    Some(request) => after.taken >= state.replies.len() && request is ScaleLeaf
                        && request->ScaleLeaf_leaf.children.len() == 0,
                    None => after.taken < state.replies.len()
                        && !(state.replies[after.taken as int] is ScaledLeaf) && error
                        == ErrorKind::UnexpectedReply.plain(),
                },
            }
        }),
    decreases rank, size, 0nat, upto,
{
    let plans = parent.children.take(upto as int);
    if upto == 0 {
        assert(plans =~= Seq::empty());
    } else {
        let shorter = (upto - 1) as nat;
        assert(plans.drop_last() =~= parent.children.take(shorter as int));
        leaves_of_all_are_replaced(state, parent, shorter, tasks, rank, size);
        crate::recursion::task_counts_fit(parent, tasks);
        crate::recursion::walking_down_all_makes_progress::<usize, LeafScaler<'static>>(
            state,
            parent,
            shorter,
            tasks,
            rank,
            size,
        );
        let (next, before) = crate::recursion::rewritten_down_all::<usize, LeafScaler<'static>>(
            state,
            parent.op,
            plans.drop_last(),
            tasks,
            rank,
            size,
        );
        if let Ok(before) = before {
            let inner = parent.op.child_tasks(upto - 1, tasks);
            assert(crate::recursion::Scope::child_scope(tasks, parent.op, upto - 1) == Some(inner));
            assert(plans.last() == parent.children[upto - 1]);
            leaves_are_replaced_in(next, plans.last(), inner);
            assert(plans.drop_last().push(plans.last()) =~= plans);
        }
    }
}

/// The leaves of a plan are replaced by what was answered, and everything else stays. Where the
/// answers run out, the next leaf is asked about, and an answer to another question ends it.
pub proof fn leaves_are_replaced(plan: PlanView, tasks: usize, replies: Seq<ReplyView>, at: Cursor)
    ensures
        match crate::distributed_query_planner::leaves_scaled(plan, tasks, replies, at) {
            OutcomeView::Done { plan: scaled, next } => {
                &&& scaled.is_scaled_form_of(plan, replies)
                &&& next.stage == at.stage
            },
            OutcomeView::Ask(request) => request is ScaleLeaf
                && request->ScaleLeaf_leaf.children.len() == 0,
            OutcomeView::Fail(error) => error == ErrorKind::UnexpectedReply.plain()
                && exists|reply: int|
                at.reply <= reply < replies.len() && !(#[trigger] replies[reply] is ScaledLeaf),
        },
{
    let state = ScalingState { replies, taken: at.reply as nat, question: None };
    leaves_are_replaced_in(state, plan, tasks);
}

} // verus!
