//! Sends the stages of a plan to workers. What picks the workers and what sends the stages is not
//! here: a step is told which workers were picked so far, and comes back with the stages that can
//! be sent, and with the next stage that needs workers.
use crate::error::{DistributedError, DistributedErrorView, ErrorKind};
use crate::ids::Uuid;
use crate::plan::{Plan, PlanView, Stage, StageView};
use crate::recursion::{Rewriter, Transformed, TransformedView, TreeNodeExt, TreeNodeRecursion};
use rand::Rng;
use std::sync::Arc;
use vstd::prelude::*;

verus! {

/// How the workers of a stage were picked.
#[derive(Debug)]
#[allow(inconsistent_fields)]
pub enum RouteReply {
    /// The user named one worker for each task.
    Chosen(Vec<String>),
    /// The user named none. The available workers take turns, the first one being at `start`.
    Available { urls: Vec<String>, start: usize },
    /// The user's choice failed with this message.
    Failed(String),
}

/// The mathematical view of a [`RouteReply`].
#[verifier::ext_equal]
#[allow(inconsistent_fields)]
pub enum RouteReplyView {
    Chosen(Seq<Seq<char>>),
    Available { urls: Seq<Seq<char>>, start: usize },
    Failed(Seq<char>),
}

/// The texts of a list of addresses.
pub open spec fn texts(urls: Seq<String>) -> Seq<Seq<char>> {
    urls.map_values(|url: String| url@)
}

impl View for RouteReply {
    type V = RouteReplyView;

    open spec fn view(&self) -> RouteReplyView {
        match self {
            RouteReply::Chosen(urls) => RouteReplyView::Chosen(crate::prepare_static_plan::texts(urls@)),
            RouteReply::Available { urls, start } => RouteReplyView::Available {
                urls: crate::prepare_static_plan::texts(urls@),
                start: *start,
            },
            RouteReply::Failed(message) => RouteReplyView::Failed(message@),
        }
    }
}

/// The workers that take turns from `start` on.
pub open spec fn round_robin(urls: Seq<Seq<char>>, start: usize, tasks: usize) -> Seq<Seq<char>> {
    Seq::new(tasks as nat, |i: int| urls[(start + i) % urls.len() as int])
}

impl RouteReplyView {
    /// One worker for each of the tasks.
    pub open spec fn workers(self, tasks: usize) -> Result<Seq<Seq<char>>, DistributedErrorView> {
        match self {
            RouteReplyView::Chosen(urls) => crate::query_coordinator::routed(urls, tasks),
            RouteReplyView::Available { urls, start } => if urls.len() == 0 {
                Err(ErrorKind::NoRoute.plain())
            } else {
                Ok(crate::prepare_static_plan::round_robin(urls, start, tasks))
            },
            RouteReplyView::Failed(message) => Err(ErrorKind::RoutingFailed.about(message)),
        }
    }
}

/// Calls `rand::Rng::random_range` on the generator of the thread, with the range of the numbers
/// below `len`. It hands out one of them.
#[verifier::external_body]
fn random_index(len: usize) -> (result: usize)
    requires
        len > 0,
    ensures
        result < len,
{
    rand::rng().random_range(0..len)
}

/// The reply that stands for no choice of the user: the available workers take turns from a random
/// one of them on.
pub fn unrouted(available: Vec<String>) -> (result: RouteReply)
    requires
        available@.len() > 0,
    ensures
        result@ matches RouteReplyView::Available { urls, start } && urls == texts(available@)
            && start < available@.len(),
{
    let start: usize = random_index(available.len());
    RouteReply::Available { urls: available, start }
}

fn copy_urls(urls: &Vec<String>) -> (result: Vec<String>)
    ensures
        texts(result@) =~= texts(urls@),
{
    let mut result: Vec<String> = Vec::new();
    let mut i: usize = 0;
    while i < urls.len()
        invariant
            0 <= i <= urls@.len(),
            result@.len() == i,
            forall|j: int| 0 <= j < i ==> (#[trigger] result@[j])@ == urls@[j]@,
        decreases urls@.len() - i,
    {
        result.push(urls[i].clone());
        i += 1;
    }
    result
}

impl RouteReply {
    /// One worker for each of the tasks.
    pub fn routed_urls(&self, tasks: usize) -> (result: Result<Vec<String>, DistributedError>)
        ensures
            match result {
                Ok(urls) => self@.workers(tasks) == Ok::<_, DistributedErrorView>(texts(urls@)),
                Err(error) => self@.workers(tasks) == Err::<Seq<Seq<char>>, _>(error@),
            },
    {
        match self {
            RouteReply::Chosen(urls) => {
                if urls.len() != tasks {
                    return Err(
                        DistributedError::new(
                            ErrorKind::RouteMismatch { tasks, urls: urls.len() },
                        ),
                    );
                }
                Ok(copy_urls(urls))
            },
            RouteReply::Available { urls, start } => {
                if urls.len() == 0 {
                    return Err(DistributedError::new(ErrorKind::NoRoute));
                }
                let ghost all = texts(urls@);
                let len: usize = urls.len();
                let mut result: Vec<String> = Vec::new();
                let mut turn: usize = *start % len;
                let mut i: usize = 0;
                while i < tasks
                    invariant
                        0 <= i <= tasks,
                        len == urls@.len(),
                        len > 0,
                        all == texts(urls@),
                        turn == (*start + i) % len as int,
                        result@.len() == i,
                        forall|j: int|
                            0 <= j < i ==> (#[trigger] result@[j])@ == all[(*start + j)
                                % len as int],
                    decreases tasks - i,
                {
                    result.push(urls[turn].clone());
                    proof {
                        vstd::arithmetic::div_mod::lemma_add_mod_noop(
                            *start + i,
                            1,
                            len as int,
                        );
                        if len > 1 {
                            vstd::arithmetic::div_mod::lemma_small_mod(1, len as nat);
                        }
                        if turn + 1 < len {
                            vstd::arithmetic::div_mod::lemma_small_mod(
                                (turn + 1) as nat,
                                len as nat,
                            );
                        } else {
                            vstd::arithmetic::div_mod::lemma_mod_self_0(len as int);
                        }
                    }
                    turn = if turn + 1 == len {
                        0
                    } else {
                        turn + 1
                    };
                    i += 1;
                }
                proof {
                    assert(texts(result@) =~= round_robin(all, *start, tasks));
                }
                Ok(result)
            },
            RouteReply::Failed(message) => Err(
                DistributedError::about(ErrorKind::RoutingFailed, message.clone()),
            ),
        }
    }
}

/// A stage on its way to its workers.
#[derive(Debug)]
pub struct DispatchRequest {
    pub query_id: Uuid,
    pub num: usize,
    pub plan: Arc<Plan>,
    /// One worker for each task of the stage.
    pub routed_urls: Vec<String>,
}

/// The mathematical view of a [`DispatchRequest`].
#[verifier::ext_equal]
pub struct DispatchRequestView {
    pub query_id: Uuid,
    pub num: usize,
    pub plan: PlanView,
    pub routed_urls: Seq<Seq<char>>,
}

impl View for DispatchRequest {
    type V = DispatchRequestView;

    open spec fn view(&self) -> DispatchRequestView {
        DispatchRequestView {
            query_id: self.query_id,
            num: self.num,
            plan: self.plan@,
            routed_urls: crate::prepare_static_plan::texts(self.routed_urls@),
        }
    }
}

/// The requests of a list.
pub open spec fn request_views(requests: Seq<DispatchRequest>) -> Seq<DispatchRequestView> {
    requests.map_values(|request: DispatchRequest| request@)
}

/// The replies of a list.
pub open spec fn reply_views(replies: Seq<RouteReply>) -> Seq<RouteReplyView> {
    replies.map_values(|reply: RouteReply| reply@)
}

/// A stage that needs workers.
#[derive(Debug)]
pub struct RouteQuestion {
    pub plan: Arc<Plan>,
    pub tasks: usize,
}

/// The mathematical view of a [`RouteQuestion`].
#[verifier::ext_equal]
pub struct RouteQuestionView {
    pub plan: PlanView,
    pub tasks: usize,
}

impl View for RouteQuestion {
    type V = RouteQuestionView;

    open spec fn view(&self) -> RouteQuestionView {
        RouteQuestionView { plan: self.plan@, tasks: self.tasks }
    }
}

/// What sending the stages of a plan has come to.
#[verifier::ext_equal]
pub struct RoutingState {
    pub replies: Seq<RouteReplyView>,
    pub requests: Seq<DispatchRequestView>,
    pub question: Option<RouteQuestionView>,
}

impl PlanView {
    /// The network boundary once its stage has left for the workers.
    pub open spec fn sent_away(self, workers: Seq<Seq<char>>) -> PlanView {
        self.turned_into(
            self.op.fed_by(
                StageView::Remote {
                    query_id: self.op.input_stage().query_id(),
                    num: self.op.input_stage().num(),
                    workers,
                },
            ),
            Seq::empty(),
        )
    }
}

/// What becomes of a node. A network boundary lets go of its stage, which is then a request, once
/// workers were picked for it.
pub open spec fn sent(state: RoutingState, node: PlanView) -> (
    RoutingState,
    Result<TransformedView, DistributedErrorView>,
) {
    if !node.op.is_network_boundary() {
        (
            state,
            Ok(
                TransformedView {
                    data: node,
                    transformed: false,
                    tnr: TreeNodeRecursion::Continue,
                },
            ),
        )
    } else {
        match node.op.input_stage() {
            StageView::Remote { .. } => (state, Err(ErrorKind::StageNotLocal.plain())),
            StageView::Local { query_id, num, tasks } => if node.children.len() != 1 {
                (
                    state,
                    Err((ErrorKind::ExpectedOneChild { got: node.children.len() as usize }).plain()),
                )
            } else if state.requests.len() >= state.replies.len() {
                (
                    RoutingState {
                        question: Some(RouteQuestionView { plan: node.children[0], tasks }),
                        ..state
                    },
                    Err(ErrorKind::RouteNeeded.plain()),
                )
            } else {
                match state.replies[state.requests.len() as int].workers(tasks) {
                    Err(error) => (state, Err(error)),
                    Ok(workers) => (
                        RoutingState {
                            requests: state.requests.push(
                                DispatchRequestView {
                                    query_id,
                                    num,
                                    plan: node.children[0],
                                    routed_urls: workers,
                                },
                            ),
                            ..state
                        },
                        Ok(
                            TransformedView {
                                data: node.sent_away(workers),
                                transformed: true,
                                tnr: TreeNodeRecursion::Continue,
                            },
                        ),
                    ),
                }
            },
        }
    }
}

/// Lets network boundaries go of their stages.
pub struct StageSender<'a> {
    replies: &'a Vec<RouteReply>,
    requests: Vec<DispatchRequest>,
    question: Option<RouteQuestion>,
}

impl<'a> StageSender<'a> {
    /// What sending has come to.
    pub closed spec fn progress(&self) -> RoutingState {
        RoutingState {
            replies: reply_views(self.replies@),
            requests: request_views(self.requests@),
            question: match self.question {
                Some(question) => Some(question@),
                None => None,
            },
        }
    }
}

impl<'a> Rewriter<usize> for StageSender<'a> {
    type State = RoutingState;

    open spec fn state(&self) -> RoutingState {
        self.progress()
    }

    open spec fn rewritten(state: RoutingState, node: PlanView, scope: usize) -> (
        RoutingState,
        Result<TransformedView, DistributedErrorView>,
    ) {
        crate::prepare_static_plan::sent(state, node)
    }

    fn rewrite(&mut self, node: Arc<Plan>, scope: usize) -> (result: Result<
        Transformed,
        DistributedError,
    >) {
        let (query_id, num, tasks) = match node.op.as_network_boundary() {
            None => {
                return Ok(Transformed::no(node));
            },
            Some(Stage::Remote { .. }) => {
                return Err(DistributedError::new(ErrorKind::StageNotLocal));
            },
            Some(Stage::Local { query_id, num, tasks }) => (*query_id, *num, *tasks),
        };
        if node.children.len() != 1 {
            return Err(
                DistributedError::new(ErrorKind::ExpectedOneChild { got: node.children.len() }),
            );
        }
        let plan = Arc::clone(&node.children[0]);
        proof {
            assert(node@.children[0] == plan@);
        }
        if self.requests.len() >= self.replies.len() {
            self.question = Some(RouteQuestion { plan, tasks });
            return Err(DistributedError::new(ErrorKind::RouteNeeded));
        }
        let reply = &self.replies[self.requests.len()];
        let routed_urls = reply.routed_urls(tasks)?;
        let workers = copy_urls(&routed_urls);
        self.requests.push(DispatchRequest { query_id, num, plan, routed_urls });
        proof {
            assert(request_views(self.requests@) =~= request_views(old(self).requests@).push(
                self.requests@.last()@,
            ));
        }
        let remote = node.with_input_stage(Stage::Remote { query_id, num, workers }, Vec::new());
        proof {
            assert(remote@.children =~= Seq::empty());
        }
        Ok(Transformed::yes(remote))
    }
}

/// A plan whose stages were sent to their workers.
#[derive(Debug)]
pub struct PreparedPlan {
    /// The stage that the coordinator executes itself.
    pub head_stage: Arc<Plan>,
    /// The whole plan, for display.
    pub plan_for_viz: Arc<Plan>,
}

/// What sending the stages of a plan has come to.
#[derive(Debug)]
pub enum StaticOutcome {
    Done(PreparedPlan),
    /// The next stage needs workers.
    Ask(RouteQuestion),
    Fail(DistributedError),
}

/// The mathematical view of a [`StaticOutcome`].
#[verifier::ext_equal]
#[allow(inconsistent_fields)]
pub enum StaticOutcomeView {
    Done { head_stage: PlanView, plan_for_viz: PlanView },
    Ask(RouteQuestionView),
    Fail(DistributedErrorView),
}

impl View for StaticOutcome {
    type V = StaticOutcomeView;

    open spec fn view(&self) -> StaticOutcomeView {
        match self {
            StaticOutcome::Done(prepared) => StaticOutcomeView::Done {
                head_stage: prepared.head_stage@,
                plan_for_viz: prepared.plan_for_viz@,
            },
            StaticOutcome::Ask(question) => StaticOutcomeView::Ask(question@),
            StaticOutcome::Fail(error) => StaticOutcomeView::Fail(error@),
        }
    }
}

/// The stages that can be sent so far, and what comes next.
#[derive(Debug)]
pub struct StaticStep {
    /// The stages in the order in which they are sent, the ones below others first.
    pub requests: Vec<DispatchRequest>,
    pub outcome: StaticOutcome,
}

/// What sending starts from.
pub open spec fn unsent(replies: Seq<RouteReplyView>) -> RoutingState {
    RoutingState { replies, requests: Seq::empty(), question: None }
}

/// What sending the stages of a plan comes to, and the stages that can be sent.
pub open spec fn static_step(plan: PlanView, replies: Seq<RouteReplyView>) -> (
    Seq<DispatchRequestView>,
    StaticOutcomeView,
) {
    let (state, result) = crate::recursion::rewritten_up::<usize, StageSender<'static>>(
        unsent(replies),
        plan,
        1,
    );
    (
        state.requests,
        match result {
            Ok(head) => StaticOutcomeView::Done { head_stage: head.data, plan_for_viz: plan },
            Err(error) => match state.question {
                Some(question) => StaticOutcomeView::Ask(question),
                None => StaticOutcomeView::Fail(error),
            },
        },
    )
}

/// Sends the stages of a plan to workers, as far as these were picked. `replies` holds the workers
/// of the stages in the order in which they were asked for.
pub fn prepare_static_plan(base_plan: &Arc<Plan>, replies: &Vec<RouteReply>) -> (result: StaticStep)
    ensures
        (request_views(result.requests@), result.outcome@) == static_step(
            base_plan@,
            reply_views(replies@),
        ),
{
    let mut sender = StageSender { replies, requests: Vec::new(), question: None };
    proof {
        assert(sender.progress() =~= unsent(reply_views(replies@)));
    }
    let prepared = Arc::clone(base_plan).transform_up_with_task_count(1, &mut sender);
    let outcome = match prepared {
        Ok(prepared) => StaticOutcome::Done(
            PreparedPlan { head_stage: prepared.data, plan_for_viz: Arc::clone(base_plan) },
        ),
        Err(error) => match sender.question {
            Some(question) => StaticOutcome::Ask(question),
            None => StaticOutcome::Fail(error),
        },
    };
    StaticStep { requests: sender.requests, outcome }
}

impl PlanView {
    /// Whether the stages below all network boundaries of the plan have left for their workers.
    pub open spec fn is_ready(self) -> bool
        decreases self,
    {
        &&& self.op.is_network_boundary() ==> self.op.input_stage() is Remote
            && self.children.len() == 0
        &&& forall|i: int|
            0 <= i < self.children.len() ==> (#[trigger] self.children[i]).is_ready()
    }
}

/// Whether sending went on from one state to another: whatever was sent in between was ready, and
/// a question is asked once the replies are used up.
pub open spec fn goes_on(before: RoutingState, after: RoutingState) -> bool {
    &&& after.replies == before.replies
    &&& before.requests.len() <= after.requests.len()
    &&& before.requests == after.requests.take(before.requests.len() as int)
    &&& forall|i: int|
        before.requests.len() <= i < after.requests.len() ==> (
        #[trigger] after.requests[i]).plan.is_ready()
    &&& before.question is None ==> (after.question matches Some(question)
        ==> question.plan.is_ready() && after.requests.len() >= after.replies.len())
}

proof fn going_on_is_transitive(one: RoutingState, two: RoutingState, three: RoutingState)
    requires
        goes_on(one, two),
        goes_on(two, three),
        two.question is None,
    ensures
        goes_on(one, three),
{
    assert(one.requests =~= three.requests.take(one.requests.len() as int)) by {
        assert(two.requests.take(one.requests.len() as int) =~= three.requests.take(
            two.requests.len() as int,
        ).take(one.requests.len() as int));
    }
    assert forall|i: int| one.requests.len() <= i < three.requests.len() implies (
    #[trigger] three.requests[i]).plan.is_ready() by {
        if i < two.requests.len() {
            assert(two.requests[i] == three.requests[i]);
        }
    }
}

proof fn sending_a_node_goes_on(state: RoutingState, node: PlanView)
    requires
        state.question is None,
        forall|i: int| 0 <= i < node.children.len() ==> (#[trigger] node.children[i]).is_ready(),
    ensures
        goes_on(state, sent(state, node).0),
        sent(state, node).1 is Ok ==> sent(state, node).0.question is None,
        sent(state, node).1 matches Ok(result) ==> result.data.is_ready() && result.tnr is Continue
            && (!result.transformed ==> result.data == node),
{
    let after = sent(state, node).0;
    assert(state.requests =~= after.requests.take(state.requests.len() as int));
}

proof fn sending_goes_on_through_all(state: RoutingState, parent: crate::plan::OperatorView, plans: Seq<PlanView>, tasks: usize)
    requires
        state.question is None,
    ensures
        ({
            let (after, result) = crate::recursion::rewritten_up_all::<usize, StageSender<'static>>(
                state,
                parent,
                plans,
                tasks,
            );
            &&& goes_on(state, after)
            &&& result is Ok ==> after.question is None
            &&& result matches Ok(children) ==> {
                &&& children.tnr is Continue
                &&& children.plans.len() == plans.len()
                &&& forall|i: int|
                    0 <= i < children.plans.len() ==> (#[trigger] children.plans[i]).is_ready()
                &&& !children.changed ==> children.plans == plans
            }
        }),
    decreases plans, 1nat,
{
    if plans.len() == 0 {
        assert(state.requests =~= state.requests.take(state.requests.len() as int));
        assert(Seq::<PlanView>::empty() =~= plans);
    } else {
        let shorter = plans.drop_last();
        sending_goes_on_through_all(state, parent, shorter, tasks);
        let (next, before) = crate::recursion::rewritten_up_all::<usize, StageSender<'static>>(
            state,
            parent,
            shorter,
            tasks,
        );
        if before is Ok {
            let inner = parent.child_tasks(plans.len() - 1, tasks);
            sending_goes_on(next, plans.last(), inner);
            let (after, child) = crate::recursion::rewritten_up::<usize, StageSender<'static>>(
                next,
                plans.last(),
                inner,
            );
            going_on_is_transitive(state, next, after);
            assert(shorter.push(plans.last()) =~= plans);
        }
    }
}

proof fn sending_goes_on(state: RoutingState, plan: PlanView, tasks: usize)
    requires
        state.question is None,
    ensures
        ({
            let (after, result) = crate::recursion::rewritten_up::<usize, StageSender<'static>>(
                state,
                plan,
                tasks,
            );
            &&& goes_on(state, after)
            &&& result is Ok ==> after.question is None
            &&& result matches Ok(head) ==> head.data.is_ready() && head.tnr is Continue && (
            !head.transformed ==> head.data == plan)
        }),
    decreases plan, 0nat,
{
    sending_goes_on_through_all(state, plan.op, plan.children, tasks);
    let (next, children) = crate::recursion::rewritten_up_all::<usize, StageSender<'static>>(
        state,
        plan.op,
        plan.children,
        tasks,
    );
    if let Ok(children) = children {
        let node = if children.changed {
            plan.over(children.plans)
        } else {
            plan
        };
        sending_a_node_goes_on(next, node);
        going_on_is_transitive(state, next, sent(next, node).0);
    }
}

/// A stage is only sent, and workers for it are only asked for, when the stages below it have left
/// themselves. The same holds of the stage that stays. Workers are asked for when all replies
/// were used.
pub proof fn sent_stages_are_ready(plan: PlanView, replies: Seq<RouteReplyView>)
    ensures
        forall|i: int|
            0 <= i < static_step(plan, replies).0.len() ==> (#[trigger] static_step(
                plan,
                replies,
            ).0[i]).plan.is_ready(),
        static_step(plan, replies).1 matches StaticOutcomeView::Done { head_stage, .. }
            ==> head_stage.is_ready(),
        static_step(plan, replies).1 matches StaticOutcomeView::Ask(question)
            ==> question.plan.is_ready() && static_step(plan, replies).0.len() >= replies.len(),
{
    sending_goes_on(unsent(replies), plan, 1);
}

} // verus!
