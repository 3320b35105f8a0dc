//! What is decided while a query runs: where its stages run, and how the whole plan is put together
//! again to be shown.
use crate::error::{DistributedError, DistributedErrorView, ErrorKind};
use crate::inject_network_boundaries::{
    inject_network_boundaries, Cursor, InjectNetworkBoundaryContext, LocalStage, LocalStageView,
    Outcome, OutcomeView, Reply, ReplyView, Request, RequestView, FIRST_STAGE,
};
use crate::plan::{only, Plan, PlanView, Stage, StageView};
use crate::prepare_static_plan::PreparedPlan;
use crate::recursion::{
    children_weigh_less, task_counts_fit, DownRewriter, Rewriter, Scope, Transformed,
    TransformedView, TreeNodeExt, TreeNodeRecursion,
};
use dashmap::DashMap;
use std::sync::Arc;
use vstd::prelude::*;

verus! {

/// `dashmap::DashMap`, a map that several threads can share.
#[verifier::external_type_specification]
#[verifier::external_body]
#[verifier::reject_recursive_types(K)]
#[verifier::reject_recursive_types(V)]
#[verifier::reject_recursive_types(S)]
pub struct ExDashMap<K, V, S>(DashMap<K, V, S>);

/// The entries of a map from stage numbers to slots.
pub uninterp spec fn slots(map: DashMap<usize, usize>) -> Map<usize, usize>;

/// No entries.
pub open spec fn no_slots() -> Map<usize, usize> {
    Map::empty()
}

/// Calls `DashMap::new`, which makes a map without entries.
#[verifier::external_body]
fn slots_new() -> (result: DashMap<usize, usize>)
    ensures
        slots(result) == no_slots(),
{
    DashMap::new()
}

/// Calls `DashMap::insert`, which sets the value of the key and touches no other. The exclusive
/// reference keeps all other users of the map away meanwhile.
#[verifier::external_body]
fn slots_insert(map: &mut DashMap<usize, usize>, key: usize, value: usize)
    ensures
        slots(*final(map)) == slots(*old(map)).insert(key, value),
{
    map.insert(key, value);
}

/// Calls `DashMap::remove`, which takes the entry with the key out of the map, if there is one,
/// and touches no other. A map holds finitely many entries. The exclusive reference keeps all other
/// users of the map away meanwhile.
#[verifier::external_body]
fn slots_remove(map: &mut DashMap<usize, usize>, key: usize) -> (result: Option<usize>)
    ensures
        slots(*old(map)).dom().finite() && slots(*final(map)) == slots(*old(map)).remove(key),
        result == (if slots(*old(map)).contains_key(key) {
            Some(slots(*old(map))[key])
        } else {
            None
        }),
{
    map.remove(&key).map(|entry| entry.1)
}

/// The plans of stages that have been sent away, by the numbers of the stages.
#[verifier::ext_equal]
pub struct StagePlans {
    pub slots: Map<usize, usize>,
    pub plans: Seq<PlanView>,
}

impl StagePlans {
    /// The plan of a stage, if it is there.
    pub open spec fn plan_of(self, num: usize) -> Option<PlanView> {
        if self.slots.dom().finite() && self.slots.contains_key(num) && self.slots[num]
            < self.plans.len() {
            Some(self.plans[self.slots[num] as int])
        } else {
            None
        }
    }
}

/// Keeps the plans of stages as they are sent away, to put the whole plan together again.
pub struct PlanReconstructor {
    stage_map: DashMap<usize, usize>,
    plans: Vec<Arc<Plan>>,
}

impl PlanReconstructor {
    /// The plans that are kept.
    pub closed spec fn kept(&self) -> StagePlans {
        StagePlans { slots: slots(self.stage_map), plans: crate::plan::views(self.plans@) }
    }
}

/// Puts the plan of its stage back below a network boundary that `task_count` tasks read from.
pub open spec fn put_back(state: StagePlans, node: PlanView, task_count: usize) -> (
    StagePlans,
    Result<TransformedView, DistributedErrorView>,
) {
    if !node.op.is_network_boundary() {
        (
            state,
            Ok(
                TransformedView {
                    data: node,
                    transformed: false,
                    tnr: TreeNodeRecursion::Continue,
                },
            ),
        )
    } else {
        let stage = node.op.input_stage();
        let next = StagePlans { slots: state.slots.remove(stage.num()), plans: state.plans };
        match state.plan_of(stage.num()) {
            None => (next, Err((ErrorKind::MissingStagePlan { num: stage.num() }).plain())),
            Some(plan) => match node.op.head(task_count) {
                Err(error) => (next, Err(error)),
                Ok(head) => match plan.headed(head) {
                    Err(error) => (next, Err(error)),
                    Ok(headed) => (
                        next,
                        Ok(
                            TransformedView {
                                data: node.turned_into(
                                    node.op.fed_by(
                                        StageView::Local {
                                            query_id: stage.query_id(),
                                            num: stage.num(),
                                            tasks: stage.task_count() as usize,
                                        },
                                    ),
                                    seq![headed],
                                ),
                                transformed: true,
                                tnr: TreeNodeRecursion::Continue,
                            },
                        ),
                    ),
                },
            },
        }
    }
}

impl Rewriter<usize> for PlanReconstructor {
    type State = StagePlans;

    open spec fn state(&self) -> StagePlans {
        self.kept()
    }

    open spec fn rewritten(state: StagePlans, node: PlanView, scope: usize) -> (
        StagePlans,
        Result<TransformedView, DistributedErrorView>,
    ) {
        crate::prepare_dynamic_plan::put_back(state, node, scope)
    }

    fn rewrite(&mut self, node: Arc<Plan>, scope: usize) -> (result: Result<
        Transformed,
        DistributedError,
    >) {
        let (query_id, num, tasks) = match node.op.as_network_boundary() {
            None => {
                return Ok(Transformed::no(node));
            },
            Some(stage) => (stage.query_id(), stage.num(), stage.task_count()),
        };
        let missing = DistributedError::new(ErrorKind::MissingStagePlan { num });
        let slot: usize = match slots_remove(&mut self.stage_map, num) {
            Some(slot) => slot,
            None => {
                return Err(missing);
            },
        };
        if slot >= self.plans.len() {
            return Err(missing);
        }
        let plan = Arc::clone(&self.plans[slot]);
        proof {
            assert(self.kept().plans[slot as int] == plan@);
        }
        let input = node.op.producer_head(scope)?.insert(&plan)?;
        let whole = node.with_input_stage(Stage::Local { query_id, num, tasks }, only(input));
        Ok(Transformed::yes(whole))
    }
}

impl DownRewriter<usize> for PlanReconstructor {
    open spec fn rank(state: StagePlans) -> nat {
        if state.slots.dom().finite() {
            state.slots.dom().len()
        } else {
            0
        }
    }

    open spec fn size(plan: PlanView) -> nat {
        plan.weight()
    }

    proof fn makes_progress(state: StagePlans, node: PlanView, scope: usize) {
        let (next, answer) = Self::rewritten(state, node, scope);
        if state.slots.dom().finite() {
            let num = node.op.input_stage().num();
            assert(state.slots.remove(num).dom() =~= state.slots.dom().remove(num));
        } else if node.op.is_network_boundary() {
            let num = node.op.input_stage().num();
            assert(state.slots.remove(num).dom() =~= state.slots.dom().remove(num));
            if next.slots.dom().finite() {
                assert(state.slots.dom() =~= next.slots.dom().insert(num) || state.slots.dom()
                    =~= next.slots.dom());
            }
        }
        if let Ok(transformed) = answer {
            task_counts_fit(transformed.data, scope);
            if !node.op.is_network_boundary() {
                assert forall|i: int| 0 <= i < node.children.len() implies (
                #[trigger] node.children[i]).weight() < node.weight() by {
                    children_weigh_less(node.children, i);
                }
            }
        }
    }
}

impl PlanReconstructor {
    pub fn new() -> (result: PlanReconstructor)
        ensures
            result.kept() == (StagePlans { slots: Map::empty(), plans: Seq::empty() }),
    {
        let result = PlanReconstructor { stage_map: slots_new(), plans: Vec::new() };
        proof {
            assert(result.kept().plans =~= Seq::empty());
        }
        result
    }

    /// Keeps the plan of a stage.
    pub fn insert(&mut self, stage: usize, plan: Arc<Plan>)
        ensures
            final(self).kept() == (StagePlans {
                slots: old(self).kept().slots.insert(stage, old(self).kept().plans.len() as usize),
                plans: old(self).kept().plans.push(plan@),
            }),
    {
        let slot: usize = self.plans.len();
        self.plans.push(plan);
        slots_insert(&mut self.stage_map, stage, slot);
        proof {
            assert(self.kept().plans =~= old(self).kept().plans.push(plan@));
        }
    }

    /// The whole plan over the stage that stayed: every stage is put back below its network
    /// boundary, topped by the node that feeds the tasks above it.
    pub fn reconstruct(&mut self, head_stage: &Arc<Plan>) -> (result: Result<
        Arc<Plan>,
        DistributedError,
    >)
        ensures
            ({
                let (after, outcome) = crate::recursion::rewritten_down::<usize, PlanReconstructor>(
                    old(self).kept(),
                    head_stage@,
                    1,
                );
                &&& final(self).kept() == after
                &&& match outcome {
                    Ok(whole) => result matches Ok(plan) && plan@ == whole.data,
                    Err(error) => result matches Err(failed) && failed@ == error,
                }
            }),
    {
        let whole = Arc::clone(head_stage).transform_down_with_task_count(1, self)?;
        Ok(whole.data)
    }
}

impl PlanView {
    /// Whether the plan of the stage below each network boundary is at hand.
    pub open spec fn is_whole(self) -> bool
        decreases self,
    {
        &&& self.op.is_network_boundary() ==> self.op.input_stage() is Local
            && self.children.len() == 1
        &&& forall|i: int|
            0 <= i < self.children.len() ==> (#[trigger] self.children[i]).is_whole()
    }
}

/// A plan that was put together again has the plans of all its stages.
pub proof fn reconstructed_plans_are_whole(state: StagePlans, plan: PlanView, task_count: usize)
    ensures
        crate::recursion::rewritten_down::<usize, PlanReconstructor>(state, plan, task_count).1
            matches Ok(whole) ==> whole.data.is_whole() && whole.tnr is Continue && (
        !whole.transformed ==> whole.data == plan),
    decreases
            <PlanReconstructor as DownRewriter<usize>>::rank(state),
            <PlanReconstructor as DownRewriter<usize>>::size(plan),
            1nat,
            0nat,
{
    task_counts_fit(plan, task_count);
    <PlanReconstructor as DownRewriter<usize>>::makes_progress(state, plan, task_count);
    let (next, answer) = put_back(state, plan, task_count);
    if let Ok(node) = answer {
        let rank = <PlanReconstructor as DownRewriter<usize>>::rank(state);
        let data = node.data;
        reconstructed_children_are_whole(
            next,
            data,
            data.children.len(),
            task_count,
            rank,
            plan.weight(),
        );
        assert(data.children.take(data.children.len() as int) =~= data.children);
        let (after, children) = crate::recursion::rewritten_down_all::<usize, PlanReconstructor>(
            next,
            data.op,
            data.children,
            task_count,
            rank,
            plan.weight(),
        );
        if let Ok(children) = children {
            let result = if children.changed {
                data.over(children.plans)
            } else {
                data
            };
            assert forall|i: int| 0 <= i < result.children.len() implies (
            #[trigger] result.children[i]).is_whole() by {
                assert(children.plans[i].is_whole());
            }
        }
    }
}

proof fn reconstructed_children_are_whole(
    state: StagePlans,
    parent: PlanView,
    upto: nat,
    task_count: usize,
    rank: nat,
    size: nat,
)
    requires
        upto <= parent.children.len(),
        <PlanReconstructor as DownRewriter<usize>>::rank(state) <= rank,
        <PlanReconstructor as DownRewriter<usize>>::rank(state) < rank || forall|i: int|
            0 <= i < parent.children.len() ==> (#[trigger] parent.children[i]).weight() < size,
    ensures
        crate::recursion::rewritten_down_all::<usize, PlanReconstructor>(
            state,
            parent.op,
            parent.children.take(upto as int),
            task_count,
            rank,
            size,
        ).1 matches Ok(children) ==> {
            &&& children.plans.len() == upto
            &&& children.tnr is Continue
            &&& forall|i: int|
                0 <= i < children.plans.len() ==> (#[trigger] children.plans[i]).is_whole()
            &&& !children.changed ==> children.plans == parent.children.take(upto as int)
        },
    decreases rank, size, 0nat, upto,
{
    let plans = parent.children.take(upto as int);
    if upto == 0 {
        assert(plans =~= Seq::empty());
    } else {
        let shorter = (upto - 1) as nat;
        assert(plans.drop_last() =~= parent.children.take(shorter as int));
        reconstructed_children_are_whole(state, parent, shorter, task_count, rank, size);
        task_counts_fit(parent, task_count);
        crate::recursion::walking_down_all_makes_progress::<usize, PlanReconstructor>(
            state,
            parent,
            shorter,
            task_count,
            rank,
            size,
        );
        let (next, before) = crate::recursion::rewritten_down_all::<usize, PlanReconstructor>(
            state,
            parent.op,
            plans.drop_last(),
            task_count,
            rank,
            size,
        );
        if let Ok(before) = before {
            let inner = parent.op.child_tasks(upto - 1, task_count);
            assert(task_count.child_scope(parent.op, upto - 1) == Some(inner));
            assert(plans.last() == parent.children[upto - 1]);
            reconstructed_plans_are_whole(next, plans.last(), inner);
            assert(plans.drop_last().push(plans.last()) =~= plans);
        }
    }
}

impl PlanView {
    /// The worker of the first stage below the plan, in pre-order, that runs on a single worker.
    pub open spec fn single_input_worker(self) -> Option<Seq<char>>
        decreases self, 0nat,
    {
        if self.op.is_network_boundary() {
            match self.op.input_stage() {
                StageView::Remote { workers, .. } if workers.len() == 1 => Some(workers[0]),
                _ => crate::prepare_dynamic_plan::first_single_worker(self.children),
            }
        } else {
            crate::prepare_dynamic_plan::first_single_worker(self.children)
        }
    }
}

/// The worker of the first stage below the plans that runs on a single worker.
pub open spec fn first_single_worker(plans: Seq<PlanView>) -> Option<Seq<char>>
    decreases plans, 1nat,
{
    if plans.len() == 0 {
        None
    } else {
        match first_single_worker(plans.drop_last()) {
            Some(worker) => Some(worker),
            None => plans.last().single_input_worker(),
        }
    }
}

proof fn first_single_worker_is_final(plans: Seq<PlanView>, upto: int)
    requires
        0 <= upto <= plans.len(),
        first_single_worker(plans.take(upto)) is Some,
    ensures
        first_single_worker(plans) == first_single_worker(plans.take(upto)),
    decreases plans.len() - upto,
{
    if upto == plans.len() {
        assert(plans.take(upto) =~= plans);
    } else {
        assert(plans.take(upto + 1).drop_last() =~= plans.take(upto));
        first_single_worker_is_final(plans, upto + 1);
    }
}

/// A text, where there is one.
pub open spec fn text_view(text: Option<String>) -> Option<Seq<char>> {
    match text {
        Some(text) => Some(text@),
        None => None,
    }
}

/// The worker of the first stage below the plan that runs on a single worker.
pub fn find_input_stage_with_single_url(plan: &Plan) -> (result: Option<String>)
    ensures
        text_view(result) == plan@.single_input_worker(),
    decreases plan,
{
    if let Some(Stage::Remote { workers, .. }) = plan.op.as_network_boundary() {
        if workers.len() == 1 {
            return Some(workers[0].clone());
        }
    }
    let ghost all = plan@.children;
    let mut i: usize = 0;
    while i < plan.children.len()
        invariant
            0 <= i <= plan.children@.len(),
            all == plan@.children,
            all.len() == plan.children@.len(),
            plan@.single_input_worker() == first_single_worker(all),
            first_single_worker(all.take(i as int)) is None,
        decreases plan.children@.len() - i,
    {
        proof {
            assert(all.take(i + 1).drop_last() =~= all.take(i as int));
            assert(all[i as int] == plan.children@[i as int]@);
        }
        let found = find_input_stage_with_single_url(&plan.children[i]);
        if found.is_some() {
            proof {
                first_single_worker_is_final(all, i + 1);
            }
            return found;
        }
        i += 1;
    }
    proof {
        assert(all.take(i as int) =~= all);
    }
    None
}

/// The worker that a stage of a single task shares with a stage below it that also has a single
/// worker, so that their rows need not travel. Other stages are routed.
pub fn colocated_worker(plan: &Plan, tasks: usize) -> (result: Option<String>)
    ensures
        text_view(result) == (if tasks == 1 {
            plan@.single_input_worker()
        } else {
            None
        }),
{
    if tasks == 1 {
        find_input_stage_with_single_url(plan)
    } else {
        None
    }
}

/// How far a query came whose task counts are decided while it runs.
#[derive(Debug)]
pub enum DynamicOutcome {
    Done(PreparedPlan),
    /// What the next stage depends on.
    Ask(Request),
    Fail(DistributedError),
}

/// The mathematical view of a [`DynamicOutcome`].
#[verifier::ext_equal]
pub enum DynamicOutcomeView {
    Done { head_stage: PlanView, plan_for_viz: PlanView },
    Ask(RequestView),
    Fail(DistributedErrorView),
}

impl View for DynamicOutcome {
    type V = DynamicOutcomeView;

    open spec fn view(&self) -> DynamicOutcomeView {
        match self {
            DynamicOutcome::Done(prepared) => DynamicOutcomeView::Done {
                head_stage: prepared.head_stage@,
                plan_for_viz: prepared.plan_for_viz@,
            },
            DynamicOutcome::Ask(request) => DynamicOutcomeView::Ask(request@),
            DynamicOutcome::Fail(error) => DynamicOutcomeView::Fail(error@),
        }
    }
}

/// The plans of the stages that were sent, in the order in which they were.
pub open spec fn kept_stages(sent: Seq<LocalStageView>) -> StagePlans
    decreases sent.len(),
{
    if sent.len() == 0 {
        StagePlans { slots: Map::empty(), plans: Seq::empty() }
    } else {
        let before = kept_stages(sent.drop_last());
        StagePlans {
            slots: before.slots.insert(sent.last().num, before.plans.len() as usize),
            plans: before.plans.push(sent.last().plan),
        }
    }
}

/// The stages of a list.
pub open spec fn stage_views(stages: Seq<LocalStage>) -> Seq<LocalStageView> {
    stages.map_values(|stage: LocalStage| stage@)
}

/// Cuts a plan into stages while it runs. Once nothing is left to be asked, the stage that stays is
/// shown over all those that were sent.
pub open spec fn dynamically_prepared(
    ctx: InjectNetworkBoundaryContext,
    base_plan: PlanView,
    replies: Seq<ReplyView>,
    sent: Seq<LocalStageView>,
) -> DynamicOutcomeView {
    match ctx.cut(base_plan, replies, Cursor { reply: 0, stage: FIRST_STAGE }) {
        OutcomeView::Ask(request) => DynamicOutcomeView::Ask(request),
        OutcomeView::Fail(error) => DynamicOutcomeView::Fail(error),
        OutcomeView::Done { plan: head_stage, .. } => {
            match crate::recursion::rewritten_down::<usize, PlanReconstructor>(
                kept_stages(sent),
                head_stage,
                1,
            ).1 {
                Ok(whole) => DynamicOutcomeView::Done { head_stage, plan_for_viz: whole.data },
                Err(error) => DynamicOutcomeView::Fail(error),
            }
        },
    }
}

/// Prepares a plan whose task counts are decided while it runs, as far as the answers go. `sent`
/// holds the stages that were asked to be dispatched so far.
pub fn prepare_dynamic_plan(
    base_plan: &Arc<Plan>,
    ctx: &InjectNetworkBoundaryContext,
    replies: &Vec<Reply>,
    sent: &Vec<LocalStage>,
) -> (result: DynamicOutcome)
    requires
        ctx.max_tasks >= 1,
    ensures
        result@ == dynamically_prepared(
            *ctx,
            base_plan@,
            crate::inject_network_boundaries::reply_views(replies@),
            stage_views(sent@),
        ),
{
    let head_stage = match inject_network_boundaries(base_plan, ctx, replies) {
        Outcome::Done { plan, .. } => plan,
        Outcome::Ask(request) => {
            return DynamicOutcome::Ask(request);
        },
        Outcome::Fail(error) => {
            return DynamicOutcome::Fail(error);
        },
    };
    let ghost all = stage_views(sent@);
    let mut plans = PlanReconstructor::new();
    let mut i: usize = 0;
    proof {
        assert(all.take(0) =~= Seq::empty());
    }
    while i < sent.len()
        invariant
            0 <= i <= sent@.len(),
            all == stage_views(sent@),
            plans.kept() == kept_stages(all.take(i as int)),
        decreases sent@.len() - i,
    {
        proof {
            assert(all[i as int] == sent@[i as int]@);
            assert(all.take(i + 1).drop_last() =~= all.take(i as int));
        }
        plans.insert(sent[i].num, Arc::clone(&sent[i].plan));
        i += 1;
    }
    proof {
        assert(all.take(i as int) =~= all);
    }
    match plans.reconstruct(&head_stage) {
        Ok(plan_for_viz) => DynamicOutcome::Done(PreparedPlan { head_stage, plan_for_viz }),
        Err(error) => DynamicOutcome::Fail(error),
    }
}

} // verus!
