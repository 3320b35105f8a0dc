//! Cuts a plan into stages.
//!
//! The walk climbs from the leaves. Task counts are merged on the way up, until a node needs a
//! network boundary above itself: a hash repartition, a broadcast, or a node whose parent gathers
//! all partitions. Then the stage below is closed: its task count is handed down to all of its
//! nodes, leaves are scaled to it, the boundary is put on top, and the walk goes on with the task
//! count that the boundary asks for.
//!
//! Some of the answers that the walk needs are not its own to give: what the engine knows of the
//! nodes, how a leaf is split among tasks, how the tasks of a union are dealt out, how many tasks suit the consumers of a stage,
//! what a stage costs, and where its tasks run. The walk takes the answers that are known so far,
//! and where it runs out of them, it hands back the next question.
use crate::boundary_factory::{build_boundary, BoundaryKind};
use crate::engine_reports::with_reports;
use crate::error::{DistributedError, DistributedErrorView, ErrorKind};
use crate::ids::Uuid;
use crate::network_boundary::ProducerHead;
use crate::plan::{
    only, share_all, DistributedTaskContext, Facts, JoinType, Operator, OperatorView, PartitionMode,
    Partitioning, Plan, PlanView, Properties, Stage, StageView,
};
use crate::task_count::TaskCountAnnotation;
use crate::validate_stages::child_task_count;
use std::sync::Arc;
use vstd::prelude::*;

verus! {

/// When the task counts of stages are decided.
#[derive(Clone, Copy, PartialEq, Eq, Debug, Structural)]
pub enum Strategy {
    /// Before execution, from the estimates of the leaves and the effects of the nodes.
    Static,
    /// During execution, from what the stages below have been measured to produce.
    Dynamic { bytes_per_partition_per_second: usize },
}

/// What stays the same over a whole walk.
#[derive(Clone, Copy, Debug)]
pub struct InjectNetworkBoundaryContext {
    pub query_id: Uuid,
    pub max_tasks: usize,
    pub broadcast_joins: bool,
    pub children_isolator_unions: bool,
    pub strategy: Strategy,
}

/// How many answers the walk has used, and the number of the next stage.
#[derive(Clone, Copy, PartialEq, Eq, Debug, Structural)]
pub struct Cursor {
    pub reply: usize,
    pub stage: usize,
}

/// A stage whose plan is still at hand.
#[derive(Debug)]
pub struct LocalStage {
    pub query_id: Uuid,
    pub num: usize,
    pub tasks: usize,
    pub plan: Arc<Plan>,
}

/// The share of the tasks of a stage that a child of a union asks for: how much it counts among its
/// siblings, and the number of tasks that it cannot exceed, if there is one.
#[derive(Clone, Copy, PartialEq, Eq, Debug, Structural)]
pub struct ChildShare {
    pub weight: usize,
    pub max: Option<usize>,
}

/// What the walk needs to know to go on.
#[derive(Debug)]
pub enum Request {
    /// What the engine knows of each node of the plan, each node before the nodes below it.
    Report { plan: Arc<Plan> },
    /// The plan that reads the leaf in this many tasks, if there is one.
    ScaleLeaf { leaf: Arc<Plan>, task_count: usize },
    /// An isolated union that deals this many tasks out to the children of the union, by the shares
    /// that they ask for.
    IsolateUnion { union: Arc<Plan>, shares: Vec<ChildShare>, task_count: usize },
    /// How many tasks suit the consumers of the stage.
    ConsumerTasks { kind: BoundaryKind, stage: LocalStage },
    /// How many bytes the plan has to work through.
    StageCost { plan: Arc<Plan> },
    /// The workers that the tasks of the stage were sent to.
    Dispatch { kind: BoundaryKind, stage: LocalStage },
}

/// An answer to a [`Request`].
#[derive(Debug)]
pub enum Reply {
    Reported(Vec<Arc<Facts>>),
    ScaledLeaf(Option<Arc<Plan>>),
    IsolatedUnion(Arc<Operator>),
    ConsumerTasks(usize),
    StageCost(usize),
    Dispatched(Vec<String>),
}

/// How far a walk came.
#[derive(Debug)]
pub enum Outcome {
    Done { plan: Arc<Plan>, next: Cursor },
    Ask(Request),
    Fail(DistributedError),
}

/// The mathematical view of a [`LocalStage`].
#[verifier::ext_equal]
pub struct LocalStageView {
    pub query_id: Uuid,
    pub num: usize,
    pub tasks: usize,
    pub plan: PlanView,
}

/// The mathematical view of a [`Request`].
#[verifier::ext_equal]
pub enum RequestView {
    Report { plan: PlanView },
    ScaleLeaf { leaf: PlanView, task_count: usize },
    IsolateUnion { union: PlanView, shares: Seq<ChildShare>, task_count: usize },
    ConsumerTasks { kind: BoundaryKind, stage: LocalStageView },
    StageCost { plan: PlanView },
    Dispatch { kind: BoundaryKind, stage: LocalStageView },
}

/// The mathematical view of a [`Reply`].
#[verifier::ext_equal]
pub enum ReplyView {
    Reported(Seq<Arc<Facts>>),
    ScaledLeaf(Option<PlanView>),
    IsolatedUnion(OperatorView),
    ConsumerTasks(usize),
    StageCost(usize),
    Dispatched(Seq<Seq<char>>),
}

/// The mathematical view of an [`Outcome`].
#[verifier::ext_equal]
pub enum OutcomeView {
    Done { plan: PlanView, next: Cursor },
    Ask(RequestView),
    Fail(DistributedErrorView),
}

/// How far a walk over a list of plans came.
#[verifier::ext_equal]
pub enum OutcomesView {
    Done { plans: Seq<PlanView>, next: Cursor },
    Ask(RequestView),
    Fail(DistributedErrorView),
}

impl View for LocalStage {
    type V = LocalStageView;

    open spec fn view(&self) -> LocalStageView {
        LocalStageView {
            query_id: self.query_id,
            num: self.num,
            tasks: self.tasks,
            plan: self.plan@,
        }
    }
}

impl View for Request {
    type V = RequestView;

    open spec fn view(&self) -> RequestView {
        match self {
            Request::Report { plan } => RequestView::Report { plan: plan@ },
            Request::ScaleLeaf { leaf, task_count } => RequestView::ScaleLeaf {
                leaf: leaf@,
                task_count: *task_count,
            },
            Request::IsolateUnion { union, shares, task_count } => RequestView::IsolateUnion {
                union: union@,
                shares: shares@,
                task_count: *task_count,
            },
            Request::ConsumerTasks { kind, stage } => RequestView::ConsumerTasks {
                kind: *kind,
                stage: stage@,
            },
            Request::StageCost { plan } => RequestView::StageCost { plan: plan@ },
            Request::Dispatch { kind, stage } => RequestView::Dispatch {
                kind: *kind,
                stage: stage@,
            },
        }
    }
}

impl View for Reply {
    type V = ReplyView;

    open spec fn view(&self) -> ReplyView {
        match self {
            Reply::Reported(facts) => ReplyView::Reported(facts@),
            Reply::ScaledLeaf(Some(plan)) => ReplyView::ScaledLeaf(Some(plan@)),
            Reply::ScaledLeaf(None) => ReplyView::ScaledLeaf(None),
            Reply::IsolatedUnion(op) => ReplyView::IsolatedUnion(op@),
            Reply::ConsumerTasks(tasks) => ReplyView::ConsumerTasks(*tasks),
            Reply::StageCost(bytes) => ReplyView::StageCost(*bytes),
            Reply::Dispatched(workers) => ReplyView::Dispatched(
                workers@.map_values(|worker: String| worker@),
            ),
        }
    }
}

impl View for Outcome {
    type V = OutcomeView;

    open spec fn view(&self) -> OutcomeView {
        match self {
            Outcome::Done { plan, next } => OutcomeView::Done { plan: plan@, next: *next },
            Outcome::Ask(request) => OutcomeView::Ask(request@),
            Outcome::Fail(error) => OutcomeView::Fail(error@),
        }
    }
}

impl Cursor {
    /// The cursor after one more answer.
    pub open spec fn answered(self) -> Cursor {
        Cursor { reply: (self.reply + 1) as usize, stage: self.stage }
    }

    /// The cursor after one more stage.
    pub open spec fn staged(self) -> Cursor {
        Cursor { reply: self.reply, stage: (self.stage + 1) as usize }
    }

    /// The answer that comes next, if it is known.
    pub open spec fn reply_in(self, replies: Seq<ReplyView>) -> Option<ReplyView> {
        if self.reply < replies.len() {
            Some(replies[self.reply as int])
        } else {
            None
        }
    }
}

/// The answers to earlier questions, in the order in which they were asked.
pub open spec fn reply_views(replies: Seq<Reply>) -> Seq<ReplyView> {
    replies.map_values(|reply: Reply| reply@)
}

impl PlanView {
    /// The plan with the same task count on each of its nodes.
    pub open spec fn counted_all(self, task_count: TaskCountAnnotation) -> PlanView
        decreases self,
    {
        PlanView {
            task_count: Some(task_count),
            children: Seq::new(
                self.children.len(),
                |i: int|
                    if 0 <= i < self.children.len() {
                        self.children[i].counted_all(task_count)
                    } else {
                        arbitrary()
                    },
            ),
            ..self
        }
    }
}

/// The first plan of a list without a task count is what is wrong with the list.
pub open spec fn missing_task_count(plans: Seq<PlanView>) -> Option<DistributedErrorView>
    decreases plans.len(),
{
    if plans.len() == 0 {
        None
    } else {
        match missing_task_count(plans.drop_last()) {
            Some(error) => Some(error),
            None => if plans.last().task_count is None {
                Some(ErrorKind::MissingTaskCount.about(plans.last().op.name()))
            } else {
                None
            },
        }
    }
}

/// The share that a child asks for by its task count. A desired count is a weight among those of
/// its siblings, a maximum is a cap as well.
pub open spec fn share_of(task_count: TaskCountAnnotation) -> ChildShare {
    match task_count {
        TaskCountAnnotation::Desired(n) => ChildShare { weight: n, max: None },
        TaskCountAnnotation::Maximum(n) => ChildShare { weight: n, max: Some(n) },
    }
}

/// The shares that the children of a union ask for.
pub open spec fn shares_of(children: Seq<PlanView>) -> Seq<ChildShare> {
    children.map_values(
        |child: PlanView| crate::inject_network_boundaries::share_of(child.task_count->Some_0),
    )
}

impl OperatorView {
    /// Whether the operator deals this many tasks out to children that ask for these shares, so
    /// that no child is dealt more tasks than its cap.
    pub open spec fn deals_out(self, shares: Seq<ChildShare>, task_count: usize) -> bool {
        self matches OperatorView::ChildrenIsolatorUnion { weights, task_idx_map, .. } && {
            &&& weights.len() == shares.len()
            &&& task_idx_map.len() == task_count
            &&& forall|i: int|
                #![trigger shares[i]]
                0 <= i < shares.len() ==> weights[i].max == shares[i].max && (
                shares[i].max matches Some(cap) ==> crate::validate_stages::tasks_of_child(
                    task_idx_map,
                    i,
                ) <= cap)
        }
    }
}

impl InjectNetworkBoundaryContext {
    /// Hands a task count down to the nodes of a stage, as far as the next network boundaries.
    /// Leaves are replaced by what reads them in that many tasks. The children of a union that is
    /// isolated are held to the tasks that were dealt to them.
    pub open spec fn propagated(
        self,
        plan: PlanView,
        task_count: TaskCountAnnotation,
        replies: Seq<ReplyView>,
        at: Cursor,
    ) -> OutcomeView
        decreases plan, 0nat,
    {
        if plan.children.len() == 0 {
            match at.reply_in(replies) {
                None => OutcomeView::Ask(
                    RequestView::ScaleLeaf { leaf: plan, task_count: task_count.count() },
                ),
                Some(ReplyView::ScaledLeaf(None)) => OutcomeView::Done {
                    plan: plan.counted(task_count),
                    next: at.answered(),
                },
                Some(ReplyView::ScaledLeaf(Some(scaled))) => OutcomeView::Done {
                    plan: scaled.counted_all(task_count),
                    next: at.answered(),
                },
                Some(_) => OutcomeView::Fail(ErrorKind::UnexpectedReply.plain()),
            }
        } else if plan.op.is_network_boundary() {
            OutcomeView::Done { plan: plan.counted(task_count), next: at }
        } else if self.children_isolator_unions && plan.op is Union {
            match crate::inject_network_boundaries::missing_task_count(plan.children) {
                Some(error) => OutcomeView::Fail(error),
                None => match at.reply_in(replies) {
                    None => OutcomeView::Ask(
                        RequestView::IsolateUnion {
                            union: plan,
                            shares: crate::inject_network_boundaries::shares_of(plan.children),
                            task_count: task_count.count(),
                        },
                    ),
                    Some(ReplyView::IsolatedUnion(op)) => if op.deals_out(
                        crate::inject_network_boundaries::shares_of(plan.children),
                        task_count.count(),
                    ) {
                        match self.propagated_isolated(
                            plan.children,
                            op->task_idx_map,
                            replies,
                            at.answered(),
                        ) {
                            OutcomesView::Done { plans, next } => OutcomeView::Done {
                                plan: plan.turned_into(op, plans).counted(task_count),
                                next,
                            },
                            OutcomesView::Ask(request) => OutcomeView::Ask(request),
                            OutcomesView::Fail(error) => OutcomeView::Fail(error),
                        }
                    } else {
                        OutcomeView::Fail(ErrorKind::UnexpectedReply.plain())
                    },
                    Some(_) => OutcomeView::Fail(ErrorKind::UnexpectedReply.plain()),
                },
            }
        } else {
            match self.propagated_all(plan.children, task_count, replies, at) {
                OutcomesView::Done { plans, next } => OutcomeView::Done {
                    plan: plan.over(plans).counted(task_count),
                    next,
                },
                OutcomesView::Ask(request) => OutcomeView::Ask(request),
                OutcomesView::Fail(error) => OutcomeView::Fail(error),
            }
        }
    }

    /// Hands the same task count down to several plans, one after the other.
    pub open spec fn propagated_all(
        self,
        plans: Seq<PlanView>,
        task_count: TaskCountAnnotation,
        replies: Seq<ReplyView>,
        at: Cursor,
    ) -> OutcomesView
        decreases plans, 1nat,
    {
        if plans.len() == 0 {
            OutcomesView::Done { plans: Seq::empty(), next: at }
        } else {
            match self.propagated_all(plans.drop_last(), task_count, replies, at) {
                OutcomesView::Done { plans: before, next } => match self.propagated(
                    plans.last(),
                    task_count,
                    replies,
                    next,
                ) {
                    OutcomeView::Done { plan, next } => OutcomesView::Done {
                        plans: before.push(plan),
                        next,
                    },
                    OutcomeView::Ask(request) => OutcomesView::Ask(request),
                    OutcomeView::Fail(error) => OutcomesView::Fail(error),
                },
                outcome => outcome,
            }
        }
    }

    /// Hands each child of an isolated union the number of tasks that were dealt to it.
    pub open spec fn propagated_isolated(
        self,
        plans: Seq<PlanView>,
        task_idx_map: Seq<Seq<(usize, DistributedTaskContext)>>,
        replies: Seq<ReplyView>,
        at: Cursor,
    ) -> OutcomesView
        decreases plans, 1nat,
    {
        if plans.len() == 0 {
            OutcomesView::Done { plans: Seq::empty(), next: at }
        } else {
            match self.propagated_isolated(plans.drop_last(), task_idx_map, replies, at) {
                OutcomesView::Done { plans: before, next } => match self.propagated(
                    plans.last(),
                    TaskCountAnnotation::Maximum(
                        crate::validate_stages::tasks_of_child(
                            task_idx_map,
                            plans.len() - 1,
                        ) as usize,
                    ),
                    replies,
                    next,
                ) {
                    OutcomeView::Done { plan, next } => OutcomesView::Done {
                        plans: before.push(plan),
                        next,
                    },
                    OutcomeView::Ask(request) => OutcomesView::Ask(request),
                    OutcomeView::Fail(error) => OutcomesView::Fail(error),
                },
                outcome => outcome,
            }
        }
    }
}

/// How far a walk over a list of plans came.
enum Outcomes {
    Done { plans: Vec<Arc<Plan>>, next: Cursor },
    Ask(Request),
    Fail(DistributedError),
}

impl View for Outcomes {
    type V = OutcomesView;

    closed spec fn view(&self) -> OutcomesView {
        match self {
            Outcomes::Done { plans, next } => OutcomesView::Done {
                plans: crate::plan::views(plans@),
                next: *next,
            },
            Outcomes::Ask(request) => OutcomesView::Ask(request@),
            Outcomes::Fail(error) => OutcomesView::Fail(error@),
        }
    }
}

/// Puts the same task count on every node of a plan.
fn count_all(plan: &Arc<Plan>, task_count: TaskCountAnnotation) -> (result: Arc<Plan>)
    ensures
        result@ == plan@.counted_all(task_count),
    decreases plan,
{
    let mut children: Vec<Arc<Plan>> = Vec::new();
    let mut i: usize = 0;
    while i < plan.children.len()
        invariant
            0 <= i <= plan.children@.len(),
            children@.len() == i,
            forall|j: int|
                0 <= j < i ==> (#[trigger] children@[j])@ == plan.children@[j]@.counted_all(
                    task_count,
                ),
        decreases plan.children@.len() - i,
    {
        children.push(count_all(&plan.children[i], task_count));
        i += 1;
    }
    let result = plan.with_new_children(children).with_task_count(task_count);
    proof {
        assert(result@.children =~= plan@.counted_all(task_count).children);
    }
    result
}

/// Checks that every plan of a list has a task count.
fn check_task_counts(plans: &Vec<Arc<Plan>>) -> (result: Result<(), DistributedError>)
    ensures
        match result {
            Ok(_) => missing_task_count(crate::plan::views(plans@)) is None && forall|i: int|
                0 <= i < plans@.len() ==> (#[trigger] plans@[i])@.task_count is Some,
            Err(error) => missing_task_count(crate::plan::views(plans@)) == Some(error@),
        },
{
    let ghost all = crate::plan::views(plans@);
    let mut i: usize = 0;
    while i < plans.len()
        invariant
            0 <= i <= plans@.len(),
            all == crate::plan::views(plans@),
            missing_task_count(all.take(i as int)) is None,
            forall|j: int| 0 <= j < i ==> (#[trigger] plans@[j])@.task_count is Some,
        decreases plans@.len() - i,
    {
        proof {
            assert(all.take(i + 1).drop_last() =~= all.take(i as int));
            assert(all[i as int] == plans@[i as int]@);
        }
        if plans[i].task_count.is_none() {
            proof {
                missing_is_final(all, i + 1);
            }
            return Err(DistributedError::about(ErrorKind::MissingTaskCount, plans[i].op.name()));
        }
        i += 1;
    }
    proof {
        assert(all.take(i as int) =~= all);
    }
    Ok(())
}

/// The shares that the children of a union ask for.
fn child_shares(plans: &Vec<Arc<Plan>>) -> (result: Vec<ChildShare>)
    requires
        forall|i: int| 0 <= i < plans@.len() ==> (#[trigger] plans@[i])@.task_count is Some,
    ensures
        result@ =~= shares_of(crate::plan::views(plans@)),
{
    let mut shares: Vec<ChildShare> = Vec::new();
    let mut i: usize = 0;
    while i < plans.len()
        invariant
            0 <= i <= plans@.len(),
            forall|j: int| 0 <= j < plans@.len() ==> (#[trigger] plans@[j])@.task_count is Some,
            shares@.len() == i,
            forall|j: int|
                0 <= j < i ==> #[trigger] shares@[j] == share_of(plans@[j]@.task_count->Some_0),
        decreases plans@.len() - i,
    {
        let share = match plans[i].task_count {
            Some(TaskCountAnnotation::Maximum(n)) => ChildShare { weight: n, max: Some(n) },
            Some(TaskCountAnnotation::Desired(n)) => ChildShare { weight: n, max: None },
            None => ChildShare { weight: 0, max: None },
        };
        assert(plans@[i as int]@.task_count is Some);
        shares.push(share);
        i += 1;
    }
    shares
}

/// Whether an operator deals this many tasks out to children that ask for these shares.
fn deals_out(op: &Operator, shares: &Vec<ChildShare>, task_count: usize) -> (result: bool)
    ensures
        result == op@.deals_out(shares@, task_count),
{
    match op {
        Operator::ChildrenIsolatorUnion { weights, task_idx_map, .. } => {
            if weights.len() != shares.len() || task_idx_map.len() != task_count {
                return false;
            }
            let mut i: usize = 0;
            while i < shares.len()
                invariant
                    0 <= i <= shares@.len(),
                    weights@.len() == shares@.len(),
                    op@ is ChildrenIsolatorUnion,
                    op@->weights == weights@,
                    op@->task_idx_map == task_idx_map@.map_values(
                        |entry: Vec<(usize, DistributedTaskContext)>| entry@,
                    ),
                    forall|j: int|
                        #![trigger shares@[j]]
                        0 <= j < i ==> weights@[j].max == shares@[j].max && (
                        shares@[j].max matches Some(cap) ==> crate::validate_stages::tasks_of_child(
                            op@->task_idx_map,
                            j,
                        ) <= cap),
                decreases shares@.len() - i,
            {
                let capped = match (weights[i].max, shares[i].max) {
                    (None, None) => true,
                    (Some(max), Some(cap)) => max == cap && child_task_count(task_idx_map, i)
                        <= cap,
                    _ => false,
                };
                if !capped {
                    assert(!op@.deals_out(shares@, task_count)) by {
                        assert(shares@[i as int] == shares[i as int]);
                    }
                    return false;
                }
                i += 1;
            }
            true
        },
        _ => false,
    }
}

proof fn missing_is_final(plans: Seq<PlanView>, upto: int)
    requires
        0 <= upto <= plans.len(),
        missing_task_count(plans.take(upto)) is Some,
    ensures
        missing_task_count(plans) == missing_task_count(plans.take(upto)),
    decreases plans.len() - upto,
{
    if upto == plans.len() {
        assert(plans.take(upto) =~= plans);
    } else {
        assert(plans.take(upto + 1).drop_last() =~= plans.take(upto));
        missing_is_final(plans, upto + 1);
    }
}

proof fn propagation_stop_is_final(
    ctx: InjectNetworkBoundaryContext,
    plans: Seq<PlanView>,
    task_count: TaskCountAnnotation,
    replies: Seq<ReplyView>,
    at: Cursor,
    upto: int,
)
    requires
        0 <= upto <= plans.len(),
        !(ctx.propagated_all(plans.take(upto), task_count, replies, at) is Done),
    ensures
        ctx.propagated_all(plans, task_count, replies, at) == ctx.propagated_all(
            plans.take(upto),
            task_count,
            replies,
            at,
        ),
    decreases plans.len() - upto,
{
    if upto == plans.len() {
        assert(plans.take(upto) =~= plans);
    } else {
        assert(plans.take(upto + 1).drop_last() =~= plans.take(upto));
        propagation_stop_is_final(ctx, plans, task_count, replies, at, upto + 1);
    }
}

proof fn isolated_stop_is_final(
    ctx: InjectNetworkBoundaryContext,
    plans: Seq<PlanView>,
    map: Seq<Seq<(usize, DistributedTaskContext)>>,
    replies: Seq<ReplyView>,
    at: Cursor,
    upto: int,
)
    requires
        0 <= upto <= plans.len(),
        !(ctx.propagated_isolated(plans.take(upto), map, replies, at) is Done),
    ensures
        ctx.propagated_isolated(plans, map, replies, at) == ctx.propagated_isolated(
            plans.take(upto),
            map,
            replies,
            at,
        ),
    decreases plans.len() - upto,
{
    if upto == plans.len() {
        assert(plans.take(upto) =~= plans);
    } else {
        assert(plans.take(upto + 1).drop_last() =~= plans.take(upto));
        isolated_stop_is_final(ctx, plans, map, replies, at, upto + 1);
    }
}

impl InjectNetworkBoundaryContext {
    fn propagate_all(
        &self,
        plan: &Plan,
        task_count: TaskCountAnnotation,
        replies: &Vec<Reply>,
        at: Cursor,
    ) -> (result: Outcomes)
        ensures
            result@ == self.propagated_all(
                plan@.children,
                task_count,
                reply_views(replies@),
                at,
            ),
        decreases plan, 0nat,
    {
        let ghost all = plan@.children;
        let ghost known = reply_views(replies@);
        let mut plans: Vec<Arc<Plan>> = Vec::new();
        let mut next = at;
        let mut i: usize = 0;
        proof {
            assert(all.take(0) =~= Seq::<PlanView>::empty());
            assert(crate::plan::views(plans@) =~= Seq::<PlanView>::empty());
        }
        while i < plan.children.len()
            invariant
                0 <= i <= plan.children@.len(),
                all == plan@.children,
                all.len() == plan.children@.len(),
                known == reply_views(replies@),
                self.propagated_all(all.take(i as int), task_count, known, at)
                    == (OutcomesView::Done { plans: crate::plan::views(plans@), next }),
            decreases plan.children@.len() - i,
        {
            let child = &plan.children[i];
            proof {
                assert(all[i as int] == child@);
                assert(all.take(i + 1).drop_last() =~= all.take(i as int));
                if !(self.propagated_all(all.take(i + 1), task_count, known, at) is Done) {
                    propagation_stop_is_final(*self, all, task_count, known, at, i + 1);
                }
            }
            match self.propagate_task_count_until_network_boundaries(
                child,
                task_count,
                replies,
                next,
            ) {
                Outcome::Done { plan: propagated, next: after } => {
                    let ghost before = plans@;
                    plans.push(propagated);
                    next = after;
                    proof {
                        assert(crate::plan::views(plans@) =~= crate::plan::views(before).push(
                            propagated@,
                        ));
                    }
                },
                Outcome::Ask(request) => {
                    return Outcomes::Ask(request);
                },
                Outcome::Fail(error) => {
                    return Outcomes::Fail(error);
                },
            }
            i += 1;
        }
        proof {
            assert(all.take(i as int) =~= all);
        }
        Outcomes::Done { plans, next }
    }

    fn propagate_isolated(
        &self,
        plan: &Plan,
        task_idx_map: &Vec<Vec<(usize, DistributedTaskContext)>>,
        replies: &Vec<Reply>,
        at: Cursor,
    ) -> (result: Outcomes)
        ensures
            result@ == self.propagated_isolated(
                plan@.children,
                task_idx_map@.map_values(|entry: Vec<(usize, DistributedTaskContext)>| entry@),
                reply_views(replies@),
                at,
            ),
        decreases plan, 0nat,
    {
        let ghost all = plan@.children;
        let ghost known = reply_views(replies@);
        let ghost map = task_idx_map@.map_values(
            |entry: Vec<(usize, DistributedTaskContext)>| entry@,
        );
        let mut plans: Vec<Arc<Plan>> = Vec::new();
        let mut next = at;
        let mut i: usize = 0;
        proof {
            assert(all.take(0) =~= Seq::<PlanView>::empty());
            assert(crate::plan::views(plans@) =~= Seq::<PlanView>::empty());
        }
        while i < plan.children.len()
            invariant
                0 <= i <= plan.children@.len(),
                all == plan@.children,
                all.len() == plan.children@.len(),
                known == reply_views(replies@),
                map == task_idx_map@.map_values(
                    |entry: Vec<(usize, DistributedTaskContext)>| entry@,
                ),
                self.propagated_isolated(all.take(i as int), map, known, at)
                    == (OutcomesView::Done { plans: crate::plan::views(plans@), next }),
            decreases plan.children@.len() - i,
        {
            let child = &plan.children[i];
            proof {
                assert(all[i as int] == child@);
                assert(all.take(i + 1).drop_last() =~= all.take(i as int));
                if !(self.propagated_isolated(all.take(i + 1), map, known, at) is Done) {
                    isolated_stop_is_final(*self, all, map, known, at, i + 1);
                }
            }
            let tasks: usize = child_task_count(task_idx_map, i);
            match self.propagate_task_count_until_network_boundaries(
                child,
                TaskCountAnnotation::Maximum(tasks),
                replies,
                next,
            ) {
                Outcome::Done { plan: propagated, next: after } => {
                    let ghost before = plans@;
                    plans.push(propagated);
                    next = after;
                    proof {
                        assert(crate::plan::views(plans@) =~= crate::plan::views(before).push(
                            propagated@,
                        ));
                    }
                },
                Outcome::Ask(request) => {
                    return Outcomes::Ask(request);
                },
                Outcome::Fail(error) => {
                    return Outcomes::Fail(error);
                },
            }
            i += 1;
        }
        proof {
            assert(all.take(i as int) =~= all);
        }
        Outcomes::Done { plans, next }
    }

    /// Hands a task count down to the nodes of a stage, as far as the next network boundaries.
    pub fn propagate_task_count_until_network_boundaries(
        &self,
        plan: &Arc<Plan>,
        task_count: TaskCountAnnotation,
        replies: &Vec<Reply>,
        at: Cursor,
    ) -> (result: Outcome)
        ensures
            result@ == self.propagated(plan@, task_count, reply_views(replies@), at),
        decreases plan, 1nat,
    {
        proof {
            if at.reply < replies@.len() {
                assert(reply_views(replies@)[at.reply as int] == replies@[at.reply as int]@);
            }
        }
        if plan.children.len() == 0 {
            if at.reply >= replies.len() {
                return Outcome::Ask(
                    Request::ScaleLeaf {
                        leaf: Arc::clone(plan),
                        task_count: task_count.as_usize(),
                    },
                );
            }
            let next = Cursor { reply: at.reply + 1, stage: at.stage };
            return match &replies[at.reply] {
                Reply::ScaledLeaf(None) => {
                    Outcome::Done { plan: plan.with_task_count(task_count), next }
                },
                Reply::ScaledLeaf(Some(scaled)) => {
                    Outcome::Done { plan: count_all(scaled, task_count), next }
                },
                _ => Outcome::Fail(DistributedError::new(ErrorKind::UnexpectedReply)),
            };
        }
        if plan.op.is_network_boundary() {
            return Outcome::Done { plan: plan.with_task_count(task_count), next: at };
        }
        let is_union = match &*plan.op {
            Operator::Union => true,
            _ => false,
        };
        if self.children_isolator_unions && is_union {
            proof {
                assert(crate::plan::views(plan.children@) =~= plan@.children);
            }
            match check_task_counts(&plan.children) {
                Ok(_) => {},
                Err(error) => {
                    return Outcome::Fail(error);
                },
            }
            let shares = child_shares(&plan.children);
            if at.reply >= replies.len() {
                return Outcome::Ask(
                    Request::IsolateUnion {
                        union: Arc::clone(plan),
                        shares,
                        task_count: task_count.as_usize(),
                    },
                );
            }
            let next = Cursor { reply: at.reply + 1, stage: at.stage };
            return match &replies[at.reply] {
                Reply::IsolatedUnion(op) => match &**op {
                    Operator::ChildrenIsolatorUnion { task_idx_map, .. } => {
                        if !deals_out(op, &shares, task_count.as_usize()) {
                            return Outcome::Fail(
                                DistributedError::new(ErrorKind::UnexpectedReply),
                            );
                        }
                        match self.propagate_isolated(plan, task_idx_map, replies, next) {
                            Outcomes::Done { plans, next: after } => {
                                let union = plan.turn_into(Arc::clone(op), plans);
                                Outcome::Done {
                                    plan: union.with_task_count(task_count),
                                    next: after,
                                }
                            },
                            Outcomes::Ask(request) => Outcome::Ask(request),
                            Outcomes::Fail(error) => Outcome::Fail(error),
                        }
                    },
                    _ => Outcome::Fail(DistributedError::new(ErrorKind::UnexpectedReply)),
                },
                _ => Outcome::Fail(DistributedError::new(ErrorKind::UnexpectedReply)),
            };
        }
        match self.propagate_all(plan, task_count, replies, at) {
            Outcomes::Done { plans, next } => Outcome::Done {
                plan: plan.with_new_children(plans).with_task_count(task_count),
                next,
            },
            Outcomes::Ask(request) => Outcome::Ask(request),
            Outcomes::Fail(error) => Outcome::Fail(error),
        }
    }
}

/// A quotient rounded up.
pub open spec fn div_ceil(a: usize, b: usize) -> usize {
    if a % b == 0 {
        a / b
    } else {
        (a / b + 1) as usize
    }
}

pub(crate) fn divide_up(a: usize, b: usize) -> (result: usize)
    requires
        b > 0,
    ensures
        result == div_ceil(a, b),
{
    let quotient: usize = a / b;
    if a % b == 0 {
        quotient
    } else {
        proof {
            if b == 1 {
                vstd::arithmetic::div_mod::lemma_mod_self_0(1);
                assert(a % 1 == 0);
            }
            assert(quotient < usize::MAX) by (nonlinear_arith)
                requires
                    b >= 2,
                    quotient == a / b,
            ;
        }
        quotient + 1
    }
}

/// The task counts of a list of plans added up.
pub open spec fn total_tasks(plans: Seq<PlanView>) -> nat
    decreases plans.len(),
{
    if plans.len() == 0 {
        0
    } else {
        total_tasks(plans.drop_last()) + plans.last().task_count->Some_0.count() as nat
    }
}

/// A task count merged with those of a list of plans, one after the other.
pub open spec fn merged_tasks(start: TaskCountAnnotation, plans: Seq<PlanView>) -> TaskCountAnnotation
    decreases plans.len(),
{
    if plans.len() == 0 {
        start
    } else {
        merged_tasks(start, plans.drop_last()).merged(plans.last().task_count->Some_0)
    }
}

impl PlanView {
    /// What the estimators say about the node.
    pub open spec fn estimate(self) -> Option<TaskCountAnnotation> {
        match self.facts {
            Some(facts) => facts.estimate,
            None => None,
        }
    }

    /// What is known of the rows that the node produces.
    pub open spec fn properties(self) -> Option<Arc<Properties>> {
        match self.facts {
            Some(facts) => facts.properties,
            None => None,
        }
    }
}

impl InjectNetworkBoundaryContext {
    /// Whether the operator collects a side of a join that cannot be copied into every task, so
    /// that it must run in a single one.
    pub open spec fn needs_single_task(self, op: OperatorView) -> bool {
        match op {
            OperatorView::HashJoin { mode, null_aware, .. } => mode is CollectLeft && (
            !self.broadcast_joins || null_aware),
            OperatorView::NestedLoopJoin { join_type, .. } => !self.broadcast_joins || join_type
                is Full,
            OperatorView::CrossJoin => !self.broadcast_joins,
            _ => false,
        }
    }

    /// The task count of a leaf: the estimate, or a single task where there is none.
    pub open spec fn leaf_count(self, leaf: PlanView) -> TaskCountAnnotation {
        match leaf.estimate() {
            Some(estimate) => estimate.limited(self.max_tasks),
            None => TaskCountAnnotation::Maximum(1),
        }
    }

    /// The task count of an inner node over children that have theirs. An isolated union takes as
    /// many tasks as its children together, a node that needs a single task gets it, and any
    /// other node agrees with its children.
    pub open spec fn inner_count(self, node: PlanView, children: Seq<PlanView>) -> Result<
        TaskCountAnnotation,
        DistributedErrorView,
    > {
        let missing = crate::inject_network_boundaries::missing_task_count(children);
        if self.children_isolator_unions && node.op is Union {
            match missing {
                Some(error) => Err(error),
                None => {
                    let total = crate::inject_network_boundaries::total_tasks(children);
                    Ok(
                        TaskCountAnnotation::Desired(
                            if total <= self.max_tasks {
                                total as usize
                            } else {
                                self.max_tasks
                            },
                        ),
                    )
                },
            }
        } else if self.needs_single_task(node.op) {
            Ok(TaskCountAnnotation::Maximum(1).limited(self.max_tasks))
        } else {
            match missing {
                Some(error) => Err(error),
                None => {
                    let start = match node.estimate() {
                        Some(estimate) => estimate,
                        None => TaskCountAnnotation::Desired(1),
                    };
                    Ok(
                        crate::inject_network_boundaries::merged_tasks(start, children).limited(
                            self.max_tasks,
                        ),
                    )
                },
            }
        }
    }

    /// How many tasks a stage of this plan should have that costs this many bytes.
    pub open spec fn tasks_for_cost(self, cost: usize, bytes_per_partition: usize, partitions: usize) -> usize {
        let tasks = crate::inject_network_boundaries::div_ceil(
            crate::inject_network_boundaries::div_ceil(
                cost,
                crate::task_count::max_of(bytes_per_partition, 1),
            ),
            partitions,
        );
        crate::task_count::min_of(crate::task_count::max_of(tasks, 1), self.max_tasks)
    }

    /// The boundary that closes a stage, and the number of tasks that it asks for above itself.
    pub open spec fn bounded(
        self,
        kind: BoundaryKind,
        stage: StageView,
        tasks: usize,
        plan: PlanView,
        children: Seq<PlanView>,
        consumer: TaskCountAnnotation,
        next: Cursor,
    ) -> OutcomeView {
        match crate::boundary_factory::boundary_op(kind, stage, tasks, 1, plan) {
            Err(error) => OutcomeView::Fail(error),
            Ok(op) => OutcomeView::Done {
                plan: crate::plan::new_node(op, children).counted(consumer),
                next,
            },
        }
    }

    /// Closes a stage before execution: hands its task count down and asks how many tasks suit its
    /// consumers. Whoever gathers everything runs in one task.
    pub open spec fn built_statically(
        self,
        kind: BoundaryKind,
        plan: PlanView,
        tasks: usize,
        replies: Seq<ReplyView>,
        num: usize,
        at: Cursor,
    ) -> OutcomeView {
        match self.propagated(plan, TaskCountAnnotation::Desired(tasks), replies, at) {
            OutcomeView::Done { plan: propagated, next } => {
                let stage = StageView::Local { query_id: self.query_id, num, tasks };
                let local = LocalStageView {
                    query_id: self.query_id,
                    num,
                    tasks,
                    plan: propagated,
                };
                if kind is Coalesce {
                    self.bounded(
                        kind,
                        stage,
                        tasks,
                        propagated,
                        seq![propagated],
                        TaskCountAnnotation::Maximum(1),
                        next,
                    )
                } else {
                    match next.reply_in(replies) {
                        None => OutcomeView::Ask(RequestView::ConsumerTasks { kind, stage: local }),
                        Some(ReplyView::ConsumerTasks(consumers)) => self.bounded(
                            kind,
                            stage,
                            tasks,
                            propagated,
                            seq![propagated],
                            TaskCountAnnotation::Desired(consumers),
                            next.answered(),
                        ),
                        Some(_) => OutcomeView::Fail(ErrorKind::UnexpectedReply.plain()),
                    }
                }
            },
            outcome => outcome,
        }
    }

    /// Closes a stage during execution: derives its task count from what it costs, hands it down,
    /// and sends the stage to its workers. The consumers of a measured stage are left open.
    pub open spec fn built_dynamically(
        self,
        kind: BoundaryKind,
        plan: PlanView,
        task_count: TaskCountAnnotation,
        bytes_per_partition: usize,
        replies: Seq<ReplyView>,
        num: usize,
        at: Cursor,
    ) -> OutcomeView {
        match at.reply_in(replies) {
            None => OutcomeView::Ask(RequestView::StageCost { plan }),
            Some(ReplyView::StageCost(cost)) => if plan.partition_count() > usize::MAX {
                OutcomeView::Fail(ErrorKind::PartitionCountOverflow.plain())
            } else if plan.partition_count() == 0 {
                OutcomeView::Fail(ErrorKind::NoPartitions.about(plan.op.name()))
            } else {
                let decided = task_count.merged(
                    TaskCountAnnotation::Desired(
                        self.tasks_for_cost(
                            cost,
                            bytes_per_partition,
                            plan.partition_count() as usize,
                        ),
                    ),
                );
                match self.propagated(plan, decided, replies, at.answered()) {
                    OutcomeView::Done { plan: propagated, next } => {
                        let sampled = propagated.sampled();
                        match next.reply_in(replies) {
                            None => OutcomeView::Ask(
                                RequestView::Dispatch {
                                    kind,
                                    stage: LocalStageView {
                                        query_id: self.query_id,
                                        num,
                                        tasks: decided.count(),
                                        plan: sampled,
                                    },
                                },
                            ),
                            Some(ReplyView::Dispatched(workers)) => self.bounded(
                                kind,
                                StageView::Remote { query_id: self.query_id, num, workers },
                                decided.count(),
                                sampled,
                                Seq::empty(),
                                if kind is Coalesce {
                                    TaskCountAnnotation::Maximum(1)
                                } else {
                                    TaskCountAnnotation::Desired(1)
                                },
                                next.answered(),
                            ),
                            Some(_) => OutcomeView::Fail(ErrorKind::UnexpectedReply.plain()),
                        }
                    },
                    outcome => outcome,
                }
            },
            Some(_) => OutcomeView::Fail(ErrorKind::UnexpectedReply.plain()),
        }
    }

    /// Closes the stage that the node tops.
    pub open spec fn built(
        self,
        kind: BoundaryKind,
        node: PlanView,
        task_count: TaskCountAnnotation,
        replies: Seq<ReplyView>,
        at: Cursor,
    ) -> OutcomeView {
        if at.stage == usize::MAX {
            OutcomeView::Fail(ErrorKind::TooManyStages.plain())
        } else {
            let plan = node.counted(task_count);
            match self.strategy {
                Strategy::Static => self.built_statically(
                    kind,
                    plan,
                    task_count.count(),
                    replies,
                    at.stage,
                    at.staged(),
                ),
                Strategy::Dynamic { bytes_per_partition_per_second } => self.built_dynamically(
                    kind,
                    plan,
                    task_count,
                    bytes_per_partition_per_second,
                    replies,
                    at.stage,
                    at.staged(),
                ),
            }
        }
    }

    /// The boundary that is needed right above a node with children.
    pub open spec fn boundary_above(self, op: OperatorView, parent: Option<OperatorView>) -> Option<
        BoundaryKind,
    > {
        match op {
            OperatorView::Repartition { partitioning } if partitioning is Hash => Some(
                BoundaryKind::Shuffle,
            ),
            OperatorView::Broadcast { .. } => Some(BoundaryKind::Broadcast),
            _ => match parent {
                Some(OperatorView::CoalescePartitions { .. }) => Some(BoundaryKind::Coalesce),
                Some(OperatorView::SortPreservingMerge) => Some(BoundaryKind::Coalesce),
                _ => None,
            },
        }
    }

    /// Cuts the plan below `parent` into stages.
    pub open spec fn injected(
        self,
        plan: PlanView,
        parent: Option<OperatorView>,
        replies: Seq<ReplyView>,
        at: Cursor,
    ) -> OutcomeView
        decreases plan, 0nat,
    {
        if plan.children.len() == 0 {
            OutcomeView::Done { plan: plan.counted(self.leaf_count(plan)), next: at }
        } else {
            match self.injected_all(plan.children, plan.op, replies, at) {
                OutcomesView::Ask(request) => OutcomeView::Ask(request),
                OutcomesView::Fail(error) => OutcomeView::Fail(error),
                OutcomesView::Done { plans, next } => match self.inner_count(plan, plans) {
                    Err(error) => OutcomeView::Fail(error),
                    Ok(task_count) => match self.boundary_above(plan.op, parent) {
                        Some(kind) => self.built(
                            kind,
                            plan.over(plans),
                            task_count,
                            replies,
                            next,
                        ),
                        None => if parent is None {
                            self.propagated(plan.over(plans), task_count, replies, next)
                        } else {
                            OutcomeView::Done { plan: plan.over(plans).counted(task_count), next }
                        },
                    },
                },
            }
        }
    }

    /// Cuts the children of a node into stages, one after the other.
    pub open spec fn injected_all(
        self,
        plans: Seq<PlanView>,
        parent: OperatorView,
        replies: Seq<ReplyView>,
        at: Cursor,
    ) -> OutcomesView
        decreases plans, 1nat,
    {
        if plans.len() == 0 {
            OutcomesView::Done { plans: Seq::empty(), next: at }
        } else {
            match self.injected_all(plans.drop_last(), parent, replies, at) {
                OutcomesView::Done { plans: before, next } => match self.injected(
                    plans.last(),
                    Some(parent),
                    replies,
                    next,
                ) {
                    OutcomeView::Done { plan, next } => OutcomesView::Done {
                        plans: before.push(plan),
                        next,
                    },
                    OutcomeView::Ask(request) => OutcomesView::Ask(request),
                    OutcomeView::Fail(error) => OutcomesView::Fail(error),
                },
                outcome => outcome,
            }
        }
    }
}

proof fn injection_stop_is_final(
    ctx: InjectNetworkBoundaryContext,
    plans: Seq<PlanView>,
    parent: OperatorView,
    replies: Seq<ReplyView>,
    at: Cursor,
    upto: int,
)
    requires
        0 <= upto <= plans.len(),
        !(ctx.injected_all(plans.take(upto), parent, replies, at) is Done),
    ensures
        ctx.injected_all(plans, parent, replies, at) == ctx.injected_all(
            plans.take(upto),
            parent,
            replies,
            at,
        ),
    decreases plans.len() - upto,
{
    if upto == plans.len() {
        assert(plans.take(upto) =~= plans);
    } else {
        assert(plans.take(upto + 1).drop_last() =~= plans.take(upto));
        injection_stop_is_final(ctx, plans, parent, replies, at, upto + 1);
    }
}

proof fn total_tasks_grow(plans: Seq<PlanView>, upto: int)
    requires
        0 <= upto <= plans.len(),
    ensures
        total_tasks(plans.take(upto)) <= total_tasks(plans),
    decreases plans.len() - upto,
{
    if upto == plans.len() {
        assert(plans.take(upto) =~= plans);
    } else {
        total_tasks_grow(plans, upto + 1);
        assert(plans.take(upto + 1).drop_last() =~= plans.take(upto));
    }
}

/// A list of plans that all have a task count.
proof fn none_missing(plans: Seq<PlanView>, i: int)
    requires
        missing_task_count(plans) is None,
        0 <= i < plans.len(),
    ensures
        plans[i].task_count is Some,
    decreases plans.len(),
{
    if i < plans.len() - 1 {
        none_missing(plans.drop_last(), i);
        assert(plans.drop_last()[i] == plans[i]);
    }
}

impl InjectNetworkBoundaryContext {
    fn needs_one_task(&self, op: &Operator) -> (result: bool)
        ensures
            result == self.needs_single_task(op@),
    {
        match op {
            Operator::HashJoin { mode, null_aware, .. } => match mode {
                PartitionMode::CollectLeft => !self.broadcast_joins || *null_aware,
                _ => false,
            },
            Operator::NestedLoopJoin { join_type, .. } => match join_type {
                JoinType::Full => true,
                _ => !self.broadcast_joins,
            },
            Operator::CrossJoin => !self.broadcast_joins,
            _ => false,
        }
    }

    fn count_for_leaf(&self, leaf: &Plan) -> (result: TaskCountAnnotation)
        ensures
            result == self.leaf_count(leaf@),
    {
        match &leaf.facts {
            Some(facts) => match facts.estimate {
                Some(estimate) => estimate.limit(self.max_tasks),
                None => TaskCountAnnotation::Maximum(1),
            },
            None => TaskCountAnnotation::Maximum(1),
        }
    }

    fn count_for_inner(&self, node: &Plan, children: &Vec<Arc<Plan>>) -> (result: Result<
        TaskCountAnnotation,
        DistributedError,
    >)
        ensures
            match result {
                Ok(task_count) => self.inner_count(node@, crate::plan::views(children@)) == Ok::<
                    _,
                    DistributedErrorView,
                >(task_count),
                Err(error) => self.inner_count(node@, crate::plan::views(children@)) == Err::<
                    TaskCountAnnotation,
                    _,
                >(error@),
            },
    {
        let ghost all = crate::plan::views(children@);
        let is_union = match &*node.op {
            Operator::Union => true,
            _ => false,
        };
        if self.children_isolator_unions && is_union {
            check_task_counts(children)?;
            let mut total: usize = 0;
            let mut i: usize = 0;
            while i < children.len()
                invariant
                    0 <= i <= children@.len(),
                    all == crate::plan::views(children@),
                    missing_task_count(all) is None,
                    total_tasks(all.take(i as int)) <= usize::MAX ==> total == total_tasks(
                        all.take(i as int),
                    ),
                    total_tasks(all.take(i as int)) > usize::MAX ==> total == usize::MAX,
                decreases children@.len() - i,
            {
                proof {
                    none_missing(all, i as int);
                    assert(all[i as int] == children@[i as int]@);
                    assert(all.take(i + 1).drop_last() =~= all.take(i as int));
                }
                let count: usize = match &children[i].task_count {
                    Some(count) => count.as_usize(),
                    None => 0,
                };
                total = total.saturating_add(count);
                i += 1;
            }
            proof {
                assert(all.take(i as int) =~= all);
            }
            return Ok(TaskCountAnnotation::Desired(total).limit(self.max_tasks));
        }
        if self.needs_one_task(&node.op) {
            return Ok(TaskCountAnnotation::Maximum(1).limit(self.max_tasks));
        }
        check_task_counts(children)?;
        let start = match &node.facts {
            Some(facts) => match facts.estimate {
                Some(estimate) => estimate,
                None => TaskCountAnnotation::Desired(1),
            },
            None => TaskCountAnnotation::Desired(1),
        };
        let mut task_count = start;
        let mut i: usize = 0;
        while i < children.len()
            invariant
                0 <= i <= children@.len(),
                all == crate::plan::views(children@),
                missing_task_count(all) is None,
                task_count == merged_tasks(start, all.take(i as int)),
            decreases children@.len() - i,
        {
            proof {
                none_missing(all, i as int);
                assert(all[i as int] == children@[i as int]@);
                assert(all.take(i + 1).drop_last() =~= all.take(i as int));
            }
            match children[i].task_count {
                Some(count) => {
                    task_count = task_count.merge(count);
                },
                None => {},
            }
            i += 1;
        }
        proof {
            assert(all.take(i as int) =~= all);
        }
        Ok(task_count.limit(self.max_tasks))
    }

    fn count_for_cost(&self, cost: usize, bytes_per_partition: usize, partitions: usize) -> (result:
        usize)
        requires
            partitions > 0,
        ensures
            result == self.tasks_for_cost(cost, bytes_per_partition, partitions),
    {
        let bytes: usize = if bytes_per_partition <= 1 {
            1
        } else {
            bytes_per_partition
        };
        let tasks: usize = divide_up(divide_up(cost, bytes), partitions);
        let at_least_one: usize = if tasks <= 1 {
            1
        } else {
            tasks
        };
        if at_least_one <= self.max_tasks {
            at_least_one
        } else {
            self.max_tasks
        }
    }

    fn bound(
        &self,
        kind: BoundaryKind,
        stage: Stage,
        tasks: usize,
        plan: &Arc<Plan>,
        children: Vec<Arc<Plan>>,
        consumer: TaskCountAnnotation,
        next: Cursor,
    ) -> (result: Outcome)
        ensures
            result@ == self.bounded(
                kind,
                stage@,
                tasks,
                plan@,
                crate::plan::views(children@),
                consumer,
                next,
            ),
    {
        let op = match build_boundary(kind, stage, tasks, 1, plan) {
            Ok(op) => op,
            Err(error) => {
                return Outcome::Fail(error);
            },
        };
        Outcome::Done { plan: Plan::node(op, children).with_task_count(consumer), next }
    }

    fn build_statically(
        &self,
        kind: BoundaryKind,
        plan: &Arc<Plan>,
        tasks: usize,
        replies: &Vec<Reply>,
        num: usize,
        at: Cursor,
    ) -> (result: Outcome)
        ensures
            result@ == self.built_statically(
                kind,
                plan@,
                tasks,
                reply_views(replies@),
                num,
                at,
            ),
    {
        let (propagated, next) = match self.propagate_task_count_until_network_boundaries(
            plan,
            TaskCountAnnotation::Desired(tasks),
            replies,
            at,
        ) {
            Outcome::Done { plan, next } => (plan, next),
            outcome => {
                return outcome;
            },
        };
        let stage = Stage::Local { query_id: self.query_id, num, tasks };
        let children = only(Arc::clone(&propagated));
        match kind {
            BoundaryKind::Coalesce => {
                return self.bound(
                    kind,
                    stage,
                    tasks,
                    &propagated,
                    children,
                    TaskCountAnnotation::Maximum(1),
                    next,
                );
            },
            _ => {},
        }
        if next.reply >= replies.len() {
            return Outcome::Ask(
                Request::ConsumerTasks {
                    kind,
                    stage: LocalStage { query_id: self.query_id, num, tasks, plan: propagated },
                },
            );
        }
        proof {
            assert(reply_views(replies@)[next.reply as int] == replies@[next.reply as int]@);
        }
        match &replies[next.reply] {
            Reply::ConsumerTasks(consumers) => self.bound(
                kind,
                stage,
                tasks,
                &propagated,
                children,
                TaskCountAnnotation::Desired(*consumers),
                Cursor { reply: next.reply + 1, stage: next.stage },
            ),
            _ => Outcome::Fail(DistributedError::new(ErrorKind::UnexpectedReply)),
        }
    }

    fn build_dynamically(
        &self,
        kind: BoundaryKind,
        plan: &Arc<Plan>,
        task_count: TaskCountAnnotation,
        bytes_per_partition: usize,
        replies: &Vec<Reply>,
        num: usize,
        at: Cursor,
    ) -> (result: Outcome)
        ensures
            result@ == self.built_dynamically(
                kind,
                plan@,
                task_count,
                bytes_per_partition,
                reply_views(replies@),
                num,
                at,
            ),
    {
        if at.reply >= replies.len() {
            return Outcome::Ask(Request::StageCost { plan: Arc::clone(plan) });
        }
        proof {
            assert(reply_views(replies@)[at.reply as int] == replies@[at.reply as int]@);
        }
        let cost: usize = match &replies[at.reply] {
            Reply::StageCost(cost) => *cost,
            _ => {
                return Outcome::Fail(DistributedError::new(ErrorKind::UnexpectedReply));
            },
        };
        let partitions: usize = match plan.partition_count() {
            Ok(partitions) => partitions,
            Err(error) => {
                return Outcome::Fail(error);
            },
        };
        if partitions == 0 {
            return Outcome::Fail(
                DistributedError::about(ErrorKind::NoPartitions, plan.op.name()),
            );
        }
        let decided = task_count.merge(
            TaskCountAnnotation::Desired(
                self.count_for_cost(cost, bytes_per_partition, partitions),
            ),
        );
        let (propagated, next) = match self.propagate_task_count_until_network_boundaries(
            plan,
            decided,
            replies,
            Cursor { reply: at.reply + 1, stage: at.stage },
        ) {
            Outcome::Done { plan, next } => (plan, next),
            outcome => {
                return outcome;
            },
        };
        let sampled = ProducerHead::insert_sampler(&propagated);
        if next.reply >= replies.len() {
            return Outcome::Ask(
                Request::Dispatch {
                    kind,
                    stage: LocalStage {
                        query_id: self.query_id,
                        num,
                        tasks: decided.as_usize(),
                        plan: sampled,
                    },
                },
            );
        }
        proof {
            assert(reply_views(replies@)[next.reply as int] == replies@[next.reply as int]@);
        }
        match &replies[next.reply] {
            Reply::Dispatched(urls) => {
                let workers = copy_strings(urls);
                let consumer = match kind {
                    BoundaryKind::Coalesce => TaskCountAnnotation::Maximum(1),
                    _ => TaskCountAnnotation::Desired(1),
                };
                let children: Vec<Arc<Plan>> = Vec::new();
                proof {
                    assert(crate::plan::views(children@) =~= Seq::<PlanView>::empty());
                }
                self.bound(
                    kind,
                    Stage::Remote { query_id: self.query_id, num, workers },
                    decided.as_usize(),
                    &sampled,
                    children,
                    consumer,
                    Cursor { reply: next.reply + 1, stage: next.stage },
                )
            },
            _ => Outcome::Fail(DistributedError::new(ErrorKind::UnexpectedReply)),
        }
    }

    fn build(
        &self,
        kind: BoundaryKind,
        node: &Plan,
        task_count: TaskCountAnnotation,
        replies: &Vec<Reply>,
        at: Cursor,
    ) -> (result: Outcome)
        ensures
            result@ == self.built(kind, node@, task_count, reply_views(replies@), at),
    {
        if at.stage == usize::MAX {
            return Outcome::Fail(DistributedError::new(ErrorKind::TooManyStages));
        }
        let plan = node.with_task_count(task_count);
        let next = Cursor { reply: at.reply, stage: at.stage + 1 };
        match self.strategy {
            Strategy::Static => self.build_statically(
                kind,
                &plan,
                task_count.as_usize(),
                replies,
                at.stage,
                next,
            ),
            Strategy::Dynamic { bytes_per_partition_per_second } => self.build_dynamically(
                kind,
                &plan,
                task_count,
                bytes_per_partition_per_second,
                replies,
                at.stage,
                next,
            ),
        }
    }

    fn needed_boundary(&self, op: &Operator, parent: Option<&Operator>) -> (result: Option<
        BoundaryKind,
    >)
        ensures
            result == self.boundary_above(op@, operator_view(parent)),
    {
        match op {
            Operator::Repartition { partitioning: Partitioning::Hash(..) } => {
                return Some(BoundaryKind::Shuffle);
            },
            Operator::Broadcast { .. } => {
                return Some(BoundaryKind::Broadcast);
            },
            _ => {},
        }
        match parent {
            Some(Operator::CoalescePartitions { .. }) => Some(BoundaryKind::Coalesce),
            Some(Operator::SortPreservingMerge) => Some(BoundaryKind::Coalesce),
            _ => None,
        }
    }

    /// Cuts the plan below `parent` into stages, as far as the answers go.
    pub fn inject(
        &self,
        plan: &Arc<Plan>,
        parent: Option<&Operator>,
        replies: &Vec<Reply>,
        at: Cursor,
    ) -> (result: Outcome)
        requires
            self.max_tasks >= 1,
        ensures
            result@ == self.injected(plan@, operator_view(parent), reply_views(replies@), at),
        decreases plan,
    {
        if plan.children.len() == 0 {
            return Outcome::Done {
                plan: plan.with_task_count(self.count_for_leaf(plan)),
                next: at,
            };
        }
        let ghost all = plan@.children;
        let ghost known = reply_views(replies@);
        let mut plans: Vec<Arc<Plan>> = Vec::new();
        let mut next = at;
        let mut i: usize = 0;
        proof {
            assert(all.take(0) =~= Seq::<PlanView>::empty());
            assert(crate::plan::views(plans@) =~= Seq::<PlanView>::empty());
        }
        while i < plan.children.len()
            invariant
                self.max_tasks >= 1,
                0 <= i <= plan.children@.len(),
                plan.children@.len() > 0,
                all == plan@.children,
                all.len() == plan.children@.len(),
                known == reply_views(replies@),
                self.injected_all(all.take(i as int), plan@.op, known, at) == (OutcomesView::Done {
                    plans: crate::plan::views(plans@),
                    next,
                }),
            decreases plan.children@.len() - i,
        {
            let child = &plan.children[i];
            proof {
                assert(all[i as int] == child@);
                assert(all.take(i + 1).drop_last() =~= all.take(i as int));
                if !(self.injected_all(all.take(i + 1), plan@.op, known, at) is Done) {
                    injection_stop_is_final(*self, all, plan@.op, known, at, i + 1);
                }
            }
            match self.inject(child, Some(&plan.op), replies, next) {
                Outcome::Done { plan: processed, next: after } => {
                    let ghost before = plans@;
                    plans.push(processed);
                    next = after;
                    proof {
                        assert(crate::plan::views(plans@) =~= crate::plan::views(before).push(
                            processed@,
                        ));
                    }
                },
                Outcome::Ask(request) => {
                    return Outcome::Ask(request);
                },
                Outcome::Fail(error) => {
                    return Outcome::Fail(error);
                },
            }
            i += 1;
        }
        proof {
            assert(all.take(i as int) =~= all);
        }
        let task_count = match self.count_for_inner(plan, &plans) {
            Ok(task_count) => task_count,
            Err(error) => {
                return Outcome::Fail(error);
            },
        };
        let node = plan.with_new_children(plans);
        match self.needed_boundary(&node.op, parent) {
            Some(kind) => self.build(kind, &node, task_count, replies, next),
            None => match parent {
                None => self.propagate_task_count_until_network_boundaries(
                    &node,
                    task_count,
                    replies,
                    next,
                ),
                Some(_) => Outcome::Done { plan: node.with_task_count(task_count), next },
            },
        }
    }
}

pub open spec fn operator_view(op: Option<&Operator>) -> Option<OperatorView> {
    match op {
        Some(op) => Some(op@),
        None => None,
    }
}

fn copy_strings(texts: &Vec<String>) -> (result: Vec<String>)
    ensures
        result@ =~= texts@,
{
    let mut result: Vec<String> = Vec::new();
    let mut i: usize = 0;
    while i < texts.len()
        invariant
            0 <= i <= texts@.len(),
            result@ =~= texts@.take(i as int),
        decreases texts@.len() - i,
    {
        result.push(texts[i].clone());
        i += 1;
    }
    result
}

/// The numbers of stages begin here.
pub const FIRST_STAGE: usize = 1;

/// The plan with what the engine reports of its nodes, or the question for the reports.
pub open spec fn reported(plan: PlanView, replies: Seq<ReplyView>, at: Cursor) -> OutcomeView {
    match at.reply_in(replies) {
        None => OutcomeView::Ask(RequestView::Report { plan }),
        Some(ReplyView::Reported(facts)) => if facts.len() == plan.size() {
            OutcomeView::Done { plan: plan.reported(facts, 0), next: at.answered() }
        } else {
            OutcomeView::Fail(ErrorKind::UnexpectedReply.plain())
        },
        Some(_) => OutcomeView::Fail(ErrorKind::UnexpectedReply.plain()),
    }
}

/// Takes what the engine reports of the nodes of a plan, as far as the answers go.
pub fn take_reports(plan: &Arc<Plan>, replies: &Vec<Reply>, at: Cursor) -> (result: Outcome)
    ensures
        result@ == reported(plan@, reply_views(replies@), at),
{
    if at.reply >= replies.len() {
        return Outcome::Ask(Request::Report { plan: Arc::clone(plan) });
    }
    proof {
        assert(reply_views(replies@)[at.reply as int] == replies@[at.reply as int]@);
    }
    if let Reply::Reported(facts) = &replies[at.reply] {
        if let Some(plan) = with_reports(plan, facts) {
            return Outcome::Done { plan, next: Cursor { reply: at.reply + 1, stage: at.stage } };
        }
    }
    Outcome::Fail(DistributedError::new(ErrorKind::UnexpectedReply))
}

impl InjectNetworkBoundaryContext {
    /// Cuts a whole plan into stages, by what the engine reports of its nodes.
    pub open spec fn cut(self, plan: PlanView, replies: Seq<ReplyView>, at: Cursor) -> OutcomeView {
        match crate::inject_network_boundaries::reported(plan, replies, at) {
            OutcomeView::Done { plan: known, next } => self.injected(known, None, replies, next),
            outcome => outcome,
        }
    }
}

/// Cuts a plan into stages, as far as the answers go: either the plan with its network boundaries,
/// or the question that comes after the answers.
pub fn inject_network_boundaries(
    plan: &Arc<Plan>,
    ctx: &InjectNetworkBoundaryContext,
    replies: &Vec<Reply>,
) -> (result: Outcome)
    requires
        ctx.max_tasks >= 1,
    ensures
        result@ == ctx.cut(
            plan@,
            reply_views(replies@),
            Cursor { reply: 0, stage: FIRST_STAGE },
        ),
{
    match take_reports(plan, replies, Cursor { reply: 0, stage: FIRST_STAGE }) {
        Outcome::Done { plan: known, next } => ctx.inject(&known, None, replies, next),
        outcome => outcome,
    }
}

} // verus!
