//! Turns a physical plan for one process into a distributed one.
//!
//! 1. The plan is shaped: its partitions are gathered at the root, joins that would hold a stage
//!    to one task are rewritten, and build sides are broadcast.
//! 2. Network boundaries are injected, which cuts the plan into stages.
//! 3. The boundaries are prepared for execution. A plan that keeps none stays as it was.
//! 4. Partial aggregates are merged before they cross the network, and stages are limited to the
//!    rows that their consumers take.
use crate::distributed_config::DistributedConfig;
use crate::error::{DistributedError, DistributedErrorView, ErrorKind};
use crate::ids::Uuid;
use crate::inject_network_boundaries::{
    inject_network_boundaries, take_reports, Cursor, InjectNetworkBoundaryContext, Outcome,
    OutcomeView, Reply, ReplyView, Request, RequestView, Strategy, FIRST_STAGE,
};
use crate::insert_broadcast::insert_broadcast_execs;
use crate::normalize_collect_joins::normalize_collect_joins;
use crate::partial_reduce_below_network_shuffles::partial_reduce_below_network_shuffles;
use crate::plan::{only, Operator, OperatorView, Plan, PlanView};
use crate::prepare_network_boundaries::prepare_network_boundaries_as;
use crate::push_fetch_into_network_coalesce::push_fetch_into_network_coalesce;
use crate::recursion::{
    children_weigh_less, task_counts_fit, DownRewriter, Rewriter, Transformed, TransformedView,
    TreeNodeExt, TreeNodeRecursion,
};
use crate::validate_stages::validate_distributed_stages;
use std::sync::Arc;
use vstd::prelude::*;

verus! {

impl PlanView {
    /// Whether a network boundary occurs anywhere in the plan.
    pub open spec fn has_boundary(self) -> bool
        decreases self,
    {
        self.op.is_network_boundary() || exists|i: int|
            0 <= i < self.children.len() && (#[trigger] self.children[i]).has_boundary()
    }

    /// The plan as the root of a distributed query.
    pub open spec fn as_distributed(self, collect_metrics: bool) -> PlanView {
        crate::plan::new_node(OperatorView::DistributedExec { collect_metrics }, seq![self])
    }
}

/// What planning a query depends on beyond the plan itself.
#[derive(Debug)]
pub struct PlanningContext {
    pub config: DistributedConfig,
    /// How many workers there are.
    pub workers: usize,
    /// How many partitions joins are spread over.
    pub target_partitions: usize,
    /// The query id under which stages are asked about while boundaries are injected.
    pub injection_id: Uuid,
    /// The query id under which stages are executed.
    pub query_id: Uuid,
}

/// What is known of the leaves of a plan while a walk replaces them.
#[verifier::ext_equal]
pub struct ScalingState {
    pub replies: Seq<ReplyView>,
    /// How many of the replies were taken.
    pub taken: nat,
    /// The question that the walk has come to, if there is one.
    pub question: Option<RequestView>,
}

impl ScalingState {
    /// After one more leaf.
    pub open spec fn answered(self) -> ScalingState {
        ScalingState { taken: self.taken + 1, ..self }
    }
}

/// Replaces a leaf by what reads it in as many tasks as its stage has. Other nodes stay.
pub open spec fn leaf_scaled(state: ScalingState, node: PlanView, task_count: usize) -> (
    ScalingState,
    Result<TransformedView, DistributedErrorView>,
) {
    if node.children.len() > 0 {
        (
            state,
            Ok(
                TransformedView {
                    data: node,
                    transformed: false,
                    tnr: TreeNodeRecursion::Continue,
                },
            ),
        )
    } else if state.taken >= state.replies.len() {
        (
            ScalingState {
                question: Some(RequestView::ScaleLeaf { leaf: node, task_count }),
                ..state
            },
            Err(ErrorKind::ReplyNeeded.plain()),
        )
    } else {
        match state.replies[state.taken as int] {
            ReplyView::ScaledLeaf(None) => (
                state.answered(),
                Ok(
                    TransformedView {
                        data: node,
                        transformed: false,
                        tnr: TreeNodeRecursion::Continue,
                    },
                ),
            ),
            ReplyView::ScaledLeaf(Some(scaled)) => (
                state.answered(),
                Ok(
                    TransformedView {
                        data: scaled,
                        transformed: true,
                        tnr: TreeNodeRecursion::Continue,
                    },
                ),
            ),
            _ => (state, Err(ErrorKind::UnexpectedReply.plain())),
        }
    }
}

/// Replaces the leaves of plans by what reads them in as many tasks as their stages have.
pub struct LeafScaler<'a> {
    replies: &'a Vec<Reply>,
    taken: usize,
    question: Option<Request>,
}

impl<'a> LeafScaler<'a> {
    /// What scaling has come to.
    pub closed spec fn progress(&self) -> ScalingState {
        ScalingState {
            replies: crate::inject_network_boundaries::reply_views(self.replies@),
            taken: self.taken as nat,
            question: match self.question {
                Some(question) => Some(question@),
                None => None,
            },
        }
    }
}

impl<'a> Rewriter<usize> for LeafScaler<'a> {
    type State = ScalingState;

    open spec fn state(&self) -> ScalingState {
        self.progress()
    }

    open spec fn rewritten(state: ScalingState, node: PlanView, scope: usize) -> (
        ScalingState,
        Result<TransformedView, DistributedErrorView>,
    ) {
        crate::distributed_query_planner::leaf_scaled(state, node, scope)
    }

    fn rewrite(&mut self, node: Arc<Plan>, scope: usize) -> (result: Result<
        Transformed,
        DistributedError,
    >) {
        if node.children.len() > 0 {
            return Ok(Transformed::no(node));
        }
        if self.taken >= self.replies.len() {
            self.question = Some(Request::ScaleLeaf { leaf: node, task_count: scope });
            return Err(DistributedError::new(ErrorKind::ReplyNeeded));
        }
        let reply = &self.replies[self.taken];
        proof {
            assert(self.progress().replies[self.taken as int] == reply@);
        }
        match reply {
            Reply::ScaledLeaf(scaled) => {
                self.taken += 1;
                match scaled {
                    None => Ok(Transformed::no(node)),
                    Some(scaled) => Ok(Transformed::yes(Arc::clone(scaled))),
                }
            },
            _ => Err(DistributedError::new(ErrorKind::UnexpectedReply)),
        }
    }
}

impl<'a> DownRewriter<usize> for LeafScaler<'a> {
    open spec fn rank(state: ScalingState) -> nat {
        if state.taken < state.replies.len() {
            (state.replies.len() - state.taken) as nat
        } else {
            0
        }
    }

    open spec fn size(plan: PlanView) -> nat {
        plan.weight()
    }

    proof fn makes_progress(state: ScalingState, node: PlanView, scope: usize) {
        if let Ok(transformed) = Self::rewritten(state, node, scope).1 {
            task_counts_fit(transformed.data, scope);
            if node.children.len() > 0 {
                assert forall|i: int| 0 <= i < node.children.len() implies (
                #[trigger] node.children[i]).weight() < node.weight() by {
                    children_weigh_less(node.children, i);
                }
            }
        }
    }
}

/// Replaces the leaves of a plan that already has its boundaries by what reads them in as many
/// tasks as their stages have. The leaves of what replaces a leaf are replaced in their turn.
pub open spec fn leaves_scaled(
    plan: PlanView,
    task_count: usize,
    replies: Seq<ReplyView>,
    at: Cursor,
) -> OutcomeView {
    let (state, result) = crate::recursion::rewritten_down::<usize, LeafScaler<'static>>(
        ScalingState { replies, taken: at.reply as nat, question: None },
        plan,
        task_count,
    );
    match result {
        Ok(scaled) => OutcomeView::Done {
            plan: scaled.data,
            next: Cursor { reply: state.taken as usize, stage: at.stage },
        },
        Err(error) => match state.question {
            Some(request) => OutcomeView::Ask(request),
            None => OutcomeView::Fail(error),
        },
    }
}

impl PlanningContext {
    /// How the walk that injects boundaries is set up.
    pub open spec fn injection(self) -> InjectNetworkBoundaryContext {
        InjectNetworkBoundaryContext {
            query_id: self.injection_id,
            max_tasks: self.config.stage_limit(self.workers),
            broadcast_joins: self.config.broadcast_joins,
            children_isolator_unions: self.config.children_isolator_unions,
            strategy: Strategy::Static,
        }
    }

    /// A finished distributed plan, whose stages send no more rows than are taken, unless one of
    /// its stages would compute something else in several tasks than in one.
    pub open spec fn finished(self, plan: PlanView, replies: Seq<ReplyView>, at: Cursor) -> OutcomeView {
        match crate::inject_network_boundaries::reported(plan.fetches_pushed(), replies, at) {
            OutcomeView::Done { plan: known, next } => {
                match crate::validate_stages::plan_violation(known) {
                    Some(error) => OutcomeView::Fail(error),
                    None => OutcomeView::Done {
                        plan: known.as_distributed(self.config.collect_metrics),
                        next,
                    },
                }
            },
            outcome => outcome,
        }
    }

    /// The distributed form of a plan whose boundaries were set by the user.
    pub open spec fn planned_by_user(self, original: PlanView, replies: Seq<ReplyView>) -> OutcomeView {
        let at = Cursor { reply: 0, stage: FIRST_STAGE };
        match crate::distributed_query_planner::leaves_scaled(original, 1, replies, at) {
            OutcomeView::Done { plan: scaled, next } => {
                match crate::prepare_network_boundaries::prepared(scaled, 1, self.query_id, 1) {
                    Err(error) => OutcomeView::Fail(error),
                    Ok(ready) => if !ready.plan.has_boundary() {
                        OutcomeView::Done { plan: ready.plan, next }
                    } else {
                        self.finished(ready.plan, replies, next)
                    },
                }
            },
            outcome => outcome,
        }
    }

    /// A plan in the shape that boundaries are injected into.
    pub open spec fn shaped(self, original: PlanView) -> Result<PlanView, DistributedErrorView> {
        if original.partition_count() > usize::MAX {
            Err(ErrorKind::PartitionCountOverflow.plain())
        } else {
            let gathered = if original.partition_count() > 1 {
                crate::plan::new_node(
                    OperatorView::CoalescePartitions { fetch: None },
                    seq![original],
                )
            } else {
                original
            };
            if !self.config.broadcast_joins {
                Ok(gathered)
            } else {
                match gathered.normalized(true, self.target_partitions) {
                    Err(error) => Err(error),
                    Ok(plan) => Ok(plan.with_broadcasts()),
                }
            }
        }
    }

    /// The distributed form of a plan without boundaries. A plan that would keep no boundary stays
    /// as it was.
    pub open spec fn planned_statically(
        self,
        original: PlanView,
        shaped: PlanView,
        replies: Seq<ReplyView>,
    ) -> OutcomeView {
        let at = Cursor { reply: 0, stage: FIRST_STAGE };
        match self.injection().cut(shaped, replies, at) {
            OutcomeView::Done { plan: injected, next } => {
                match crate::prepare_network_boundaries::prepared(injected, 1, self.query_id, 1) {
                    Err(error) => OutcomeView::Fail(error),
                    Ok(ready) => if !ready.plan.has_boundary() {
                        OutcomeView::Done { plan: original, next }
                    } else if !self.config.partial_reduce {
                        self.finished(ready.plan, replies, next)
                    } else {
                        match ready.plan.reduced() {
                            Err(error) => OutcomeView::Fail(error),
                            Ok(reduced) => self.finished(reduced, replies, next),
                        }
                    },
                }
            },
            outcome => outcome,
        }
    }

    /// The distributed form of a plan, or the next question that it depends on.
    pub open spec fn planned(self, original: PlanView, replies: Seq<ReplyView>) -> OutcomeView {
        let at = Cursor { reply: 0, stage: FIRST_STAGE };
        if original.op is DistributedExec {
            OutcomeView::Done { plan: original, next: at }
        } else if original.has_boundary() {
            self.planned_by_user(original, replies)
        } else {
            match self.shaped(original) {
                Err(error) => OutcomeView::Fail(error),
                Ok(shaped) => if self.config.dynamic_task_count {
                    OutcomeView::Done {
                        plan: shaped.as_distributed(self.config.collect_metrics),
                        next: at,
                    }
                } else {
                    self.planned_statically(original, shaped, replies)
                },
            }
        }
    }
}

/// Whether a network boundary occurs anywhere in a plan.
pub fn has_network_boundary(plan: &Plan) -> (result: bool)
    ensures
        result == plan@.has_boundary(),
    decreases plan,
{
    if plan.op.is_network_boundary() {
        return true;
    }
    let mut i: usize = 0;
    while i < plan.children.len()
        invariant
            0 <= i <= plan.children@.len(),
            !plan@.op.is_network_boundary(),
            plan@.children.len() == plan.children@.len(),
            forall|j: int| 0 <= j < i ==> !(#[trigger] plan@.children[j]).has_boundary(),
        decreases plan.children@.len() - i,
    {
        proof {
            assert(plan@.children[i as int] == plan.children@[i as int]@);
        }
        if has_network_boundary(&plan.children[i]) {
            return true;
        }
        i += 1;
    }
    false
}

/// Replaces the leaves of a plan by what reads them in as many tasks as their stages have.
pub fn scale_leaves(plan: &Arc<Plan>, task_count: usize, replies: &Vec<Reply>, at: Cursor) -> (result:
    Outcome)
    ensures
        result@ == leaves_scaled(
            plan@,
            task_count,
            crate::inject_network_boundaries::reply_views(replies@),
            at,
        ),
{
    let mut scaler = LeafScaler { replies, taken: at.reply, question: None };
    let scaled = Arc::clone(plan).transform_down_with_task_count(task_count, &mut scaler);
    match scaled {
        Ok(scaled) => Outcome::Done {
            plan: scaled.data,
            next: Cursor { reply: scaler.taken, stage: at.stage },
        },
        Err(error) => match scaler.question {
            Some(request) => Outcome::Ask(request),
            None => Outcome::Fail(error),
        },
    }
}

impl PlanningContext {
    fn injection_context(&self) -> (result: InjectNetworkBoundaryContext)
        ensures
            result == self.injection(),
            result.max_tasks >= 1,
    {
        InjectNetworkBoundaryContext {
            query_id: self.injection_id,
            max_tasks: self.config.max_tasks(self.workers),
            broadcast_joins: self.config.broadcast_joins,
            children_isolator_unions: self.config.children_isolator_unions,
            strategy: Strategy::Static,
        }
    }

    fn distributed(&self, plan: Arc<Plan>) -> (result: Arc<Plan>)
        ensures
            result@ == plan@.as_distributed(self.config.collect_metrics),
    {
        Plan::node(
            Operator::DistributedExec { collect_metrics: self.config.collect_metrics },
            only(plan),
        )
    }

    fn finish(&self, plan: Arc<Plan>, replies: &Vec<Reply>, at: Cursor) -> (result: Outcome)
        ensures
            result@ == self.finished(
                plan@,
                crate::inject_network_boundaries::reply_views(replies@),
                at,
            ),
    {
        let (known, next) = match take_reports(&push_fetch_into_network_coalesce(&plan), replies, at) {
            Outcome::Done { plan, next } => (plan, next),
            outcome => {
                return outcome;
            },
        };
        match validate_distributed_stages(&known) {
            Err(error) => Outcome::Fail(error),
            Ok(_) => Outcome::Done { plan: self.distributed(known), next },
        }
    }

    fn plan_by_user(&self, original: &Arc<Plan>, replies: &Vec<Reply>) -> (result: Outcome)
        ensures
            result@ == self.planned_by_user(
                original@,
                crate::inject_network_boundaries::reply_views(replies@),
            ),
    {
        let at = Cursor { reply: 0, stage: FIRST_STAGE };
        let (scaled, next) = match scale_leaves(original, 1, replies, at) {
            Outcome::Done { plan, next } => (plan, next),
            outcome => {
                return outcome;
            },
        };
        let ready = match prepare_network_boundaries_as(&scaled, self.query_id) {
            Ok(ready) => ready,
            Err(error) => {
                return Outcome::Fail(error);
            },
        };
        if !has_network_boundary(&ready) {
            return Outcome::Done { plan: ready, next };
        }
        self.finish(ready, replies, next)
    }

    fn shape(&self, original: &Arc<Plan>) -> (result: Result<Arc<Plan>, DistributedError>)
        ensures
            crate::error::viewed(result) == self.shaped(original@),
    {
        let partitions: usize = original.partition_count()?;
        let gathered = if partitions > 1 {
            Plan::node(Operator::CoalescePartitions { fetch: None }, only(Arc::clone(original)))
        } else {
            Arc::clone(original)
        };
        if !self.config.broadcast_joins {
            return Ok(gathered);
        }
        let normalized = normalize_collect_joins(&gathered, true, self.target_partitions)?;
        Ok(insert_broadcast_execs(&normalized, true))
    }

    fn plan_statically(&self, original: &Arc<Plan>, shaped: &Arc<Plan>, replies: &Vec<Reply>) -> (result:
        Outcome)
        ensures
            result@ == self.planned_statically(
                original@,
                shaped@,
                crate::inject_network_boundaries::reply_views(replies@),
            ),
    {
        let (injected, next) = match inject_network_boundaries(
            shaped,
            &self.injection_context(),
            replies,
        ) {
            Outcome::Done { plan, next } => (plan, next),
            outcome => {
                return outcome;
            },
        };
        let ready = match prepare_network_boundaries_as(&injected, self.query_id) {
            Ok(ready) => ready,
            Err(error) => {
                return Outcome::Fail(error);
            },
        };
        if !has_network_boundary(&ready) {
            return Outcome::Done { plan: Arc::clone(original), next };
        }
        match partial_reduce_below_network_shuffles(&ready, self.config.partial_reduce) {
            Ok(reduced) => self.finish(reduced, replies, next),
            Err(error) => Outcome::Fail(error),
        }
    }

    /// The distributed form of a plan, as far as the answers go: either the plan to execute, or
    /// the question that comes after the answers.
    pub fn create_physical_plan(&self, original: &Arc<Plan>, replies: &Vec<Reply>) -> (result:
        Outcome)
        ensures
            result@ == self.planned(
                original@,
                crate::inject_network_boundaries::reply_views(replies@),
            ),
    {
        let at = Cursor { reply: 0, stage: FIRST_STAGE };
        match &*original.op {
            Operator::DistributedExec { .. } => {
                return Outcome::Done { plan: Arc::clone(original), next: at };
            },
            _ => {},
        }
        if has_network_boundary(original) {
            return self.plan_by_user(original, replies);
        }
        let shaped = match self.shape(original) {
            Ok(shaped) => shaped,
            Err(error) => {
                return Outcome::Fail(error);
            },
        };
        if self.config.dynamic_task_count {
            return Outcome::Done { plan: self.distributed(shaped), next: at };
        }
        self.plan_statically(original, &shaped, replies)
    }
}

/// A plan that comes out of planning before execution is the one that went in, or has no network
/// boundary, or is the root of a distributed query whose stages all compute in several tasks what
/// they compute in one.
pub proof fn planned_stages_hold(ctx: PlanningContext, original: PlanView, replies: Seq<ReplyView>)
    requires
        !ctx.config.dynamic_task_count,
    ensures
        ctx.planned(original, replies) matches OutcomeView::Done { plan, .. } ==> {
            ||| plan == original
            ||| !plan.has_boundary()
            ||| plan.op is DistributedExec && plan.children.len() == 1
                && crate::validate_stages::plan_violation(plan.children[0]) is None
        },
{
}

/// Planning a distributed query again changes nothing.
pub proof fn planning_is_idempotent(
    ctx: PlanningContext,
    original: PlanView,
    replies: Seq<ReplyView>,
    more: Seq<ReplyView>,
)
    ensures
        ctx.planned(original, replies) matches OutcomeView::Done { plan, .. } ==> (plan.op
            is DistributedExec ==> (ctx.planned(plan, more) matches OutcomeView::Done {
            plan: again,
            ..
        } && again == plan)),
{
}

} // verus!
