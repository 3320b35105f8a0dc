//! What leaves for the workers when the stages of a plan are sent before it runs, and what stays.
use crate::error::{DistributedErrorView, ErrorKind};
use crate::plan::{OperatorView, PlanView, StageView};
use crate::prepare_static_plan::{
    DispatchRequestView, RouteQuestionView, RouteReplyView, RoutingState, StageSender,
    StaticOutcomeView,
};
use vstd::prelude::*;

verus! {

/// Whether it is this one's turn among `of` that take turns, after some rounds.
pub open spec fn is_turn(number: int, of: int, turn: int, round: int) -> bool {
    0 <= turn < of && number == round * of + turn
}

/// Whether the worker is the one among these whose turn it is.
pub open spec fn takes_its_turn(worker: Seq<char>, urls: Seq<Seq<char>>, number: int) -> bool {
    exists|turn: int, round: int| #[trigger]
        is_turn(number, urls.len() as int, turn, round) && worker == urls[turn]
}

/// Whether the workers for `tasks` tasks are those that the reply gives: the ones that the user
/// chose, or the available ones in turns.
pub open spec fn are_picked(
    workers: Seq<Seq<char>>,
    reply: RouteReplyView,
    tasks: usize,
) -> bool {
    &&& workers.len() == tasks
    &&& match reply {
        RouteReplyView::Chosen(urls) => workers == urls,
        RouteReplyView::Available { urls, start } => forall|i: int|
            0 <= i < workers.len() ==> takes_its_turn(#[trigger] workers[i], urls, start + i),
        RouteReplyView::Failed(_) => false,
    }
}

/// Every task gets a worker. Where the user chose workers they are taken, if there is one for each
/// task, and otherwise the available workers take turns from the one that was drawn. It fails where
/// there is no worker, and where picking one failed.
pub proof fn every_task_gets_a_worker(reply: RouteReplyView, tasks: usize)
    ensures
        match reply.workers(tasks) {
            Ok(workers) => are_picked(workers, reply, tasks),
            Err(error) => match reply {
                RouteReplyView::Chosen(urls) => urls.len() != tasks && error
                    == (ErrorKind::RouteMismatch {
                    tasks,
                    urls: urls.len() as usize,
                }).plain(),
                RouteReplyView::Available { urls, .. } => urls.len() == 0 && error
                    == ErrorKind::NoRoute.plain(),
                RouteReplyView::Failed(message) => error == ErrorKind::RoutingFailed.about(message),
            },
        },
{
    if let RouteReplyView::Available { urls, start } = reply {
        if let Ok(workers) = reply.workers(tasks) {
            let n = urls.len() as int;
            assert forall|i: int| 0 <= i < workers.len() implies takes_its_turn(
                #[trigger] workers[i],
                urls,
                start + i,
            ) by {
                let turn = (start + i) % n;
                let round = (start + i) / n;
                vstd::arithmetic::div_mod::lemma_fundamental_div_mod(start + i, n);
                vstd::arithmetic::div_mod::lemma_mod_bound(start + i, n);
                assert(round * n == n * round) by (nonlinear_arith);
                assert(is_turn(start + i, n, turn, round));
                assert(workers[i] == urls[turn]);
            }
        }
    }
}

/// Whether the operator is the boundary before, whose stage has left for these workers.
pub open spec fn has_sent_its_stage(
    op: OperatorView,
    before: OperatorView,
    workers: Seq<Seq<char>>,
) -> bool {
    match before {
        OperatorView::NetworkShuffle { stage, partitioning, output, properties } => op
            == (OperatorView::NetworkShuffle {
            stage: StageView::Remote {
                query_id: stage->Local_query_id,
                num: stage->Local_num,
                workers,
            },
            partitioning,
            output,
            properties,
        }),
        OperatorView::NetworkCoalesce { stage, output, consumer_tasks, properties } => op
            == (OperatorView::NetworkCoalesce {
            stage: StageView::Remote {
                query_id: stage->Local_query_id,
                num: stage->Local_num,
                workers,
            },
            output,
            consumer_tasks,
            properties,
        }),
        OperatorView::NetworkBroadcast { stage, output, properties } => op
            == (OperatorView::NetworkBroadcast {
            stage: StageView::Remote {
                query_id: stage->Local_query_id,
                num: stage->Local_num,
                workers,
            },
            output,
            properties,
        }),
        _ => false,
    }
}

impl PlanView {
    /// Whether the plan is the other one after the stages below it have left: its boundaries name
    /// the workers of their stages, one per task, and keep nothing of the plans.
    pub open spec fn stays_of(self, plan: PlanView) -> bool
        decreases plan,
    {
        match plan.local_stage() {
            Some(stage) => {
                &&& self.children.len() == 0
                &&& self.facts == plan.facts
                &&& exists|workers: Seq<Seq<char>>| #[trigger]
                    has_sent_its_stage(self.op, plan.op, workers) && workers.len()
                        == stage->Local_tasks
            },
            None => {
                &&& self.op == plan.op
                &&& self.facts == plan.facts
                &&& self.children.len() == plan.children.len()
                &&& forall|i: int|
                    0 <= i < plan.children.len() ==> (#[trigger] self.children[i]).stays_of(
                        plan.children[i],
                    )
            },
        }
    }

    /// The boundaries of the plan whose stages are at hand, each after those below it.
    pub open spec fn local_boundaries(self) -> Seq<PlanView>
        decreases self, 0nat,
    {
        let below = crate::dispatch_laws::local_boundaries_of_all(self.children);
        if self.local_stage() is Some {
            below.push(self)
        } else {
            below
        }
    }
}

/// The boundaries of several plans whose stages are at hand.
pub open spec fn local_boundaries_of_all(plans: Seq<PlanView>) -> Seq<PlanView>
    decreases plans, 1nat,
{
    if plans.len() == 0 {
        Seq::empty()
    } else {
        local_boundaries_of_all(plans.drop_last()) + plans.last().local_boundaries()
    }
}

/// Whether a request sends the stage below the boundary, after the stages below that one, to the
/// workers that the reply gives for its tasks.
pub open spec fn sends_stage(
    request: DispatchRequestView,
    boundary: PlanView,
    reply: RouteReplyView,
) -> bool {
    boundary.local_stage() matches Some(stage) && {
        &&& request.query_id == stage->Local_query_id
        &&& request.num == stage->Local_num
        &&& request.plan.stays_of(boundary.children[0])
        &&& are_picked(request.routed_urls, reply, stage->Local_tasks)
    }
}

/// Whether the requests that came with a walk send the stages below the boundaries, one by one.
spec fn sends_in_turn(
    before: RoutingState,
    after: RoutingState,
    boundaries: Seq<PlanView>,
) -> bool {
    &&& after.replies == before.replies
    &&& after.requests.len() == before.requests.len() + boundaries.len()
    &&& after.requests.len() <= after.replies.len() || boundaries.len() == 0
    &&& forall|i: int|
        0 <= i < before.requests.len() ==> #[trigger] after.requests[i] == before.requests[i]
    &&& forall|k: int|
        #![trigger boundaries[k]]
        0 <= k < boundaries.len() ==> sends_stage(
            after.requests[before.requests.len() + k],
            boundaries[k],
            before.replies[before.requests.len() + k],
        )
}

proof fn sending_goes_on_in_turn(
    one: RoutingState,
    two: RoutingState,
    three: RoutingState,
    first: Seq<PlanView>,
    second: Seq<PlanView>,
)
    requires
        sends_in_turn(one, two, first),
        sends_in_turn(two, three, second),
    ensures
        sends_in_turn(one, three, first + second),
{
    let all = first + second;
    assert forall|k: int|
        #![trigger all[k]]
        0 <= k < all.len() implies sends_stage(
        three.requests[one.requests.len() + k],
        all[k],
        one.replies[one.requests.len() + k],
    ) by {
        if k < first.len() {
            assert(all[k] == first[k]);
            assert(three.requests[one.requests.len() + k] == two.requests[one.requests.len() + k]);
        } else {
            assert(all[k] == second[k - first.len()]);
        }
    }
}

proof fn a_node_is_sent(state: RoutingState, plan: PlanView, children: Seq<PlanView>)
    requires
        state.question is None,
        children.len() == plan.children.len(),
        forall|i: int|
            0 <= i < plan.children.len() ==> (#[trigger] children[i]).stays_of(plan.children[i]),
    ensures
        ({
            let (after, result) = crate::prepare_static_plan::sent(state, plan.over(children));
            let own = if plan.local_stage() is Some {
                seq![plan]
            } else {
                Seq::empty()
            };
            result matches Ok(head) ==> head.data.stays_of(plan) && sends_in_turn(state, after, own)
        }),
{
    let node = plan.over(children);
    let (after, result) = crate::prepare_static_plan::sent(state, node);
    if let Ok(head) = result {
        if let Some(stage) = plan.local_stage() {
            let tasks = stage->Local_tasks;
            let reply = state.replies[state.requests.len() as int];
            every_task_gets_a_worker(reply, tasks);
            let workers = reply.workers(tasks)->Ok_0;
            assert(has_sent_its_stage(head.data.op, plan.op, workers));
            assert(head.data.stays_of(plan));
            assert(children[0].stays_of(plan.children[0]));
            assert(sends_stage(after.requests[state.requests.len() as int], plan, reply));
        } else {
            assert(head.data == node);
            assert forall|i: int| 0 <= i < plan.children.len() implies (
            #[trigger] head.data.children[i]).stays_of(plan.children[i]) by {
                assert(children[i].stays_of(plan.children[i]));
            }
        }
    }
}

proof fn all_stages_are_sent(
    state: RoutingState,
    parent: OperatorView,
    plans: Seq<PlanView>,
    tasks: usize,
)
    requires
        state.question is None,
    ensures
        ({
            let (after, result) = crate::recursion::rewritten_up_all::<usize, StageSender<'static>>(
                state,
                parent,
                plans,
                tasks,
            );
            result matches Ok(children) ==> {
                &&& after.question is None
                &&& children.tnr is Continue
                &&& children.plans.len() == plans.len()
                &&& forall|i: int|
                    0 <= i < plans.len() ==> (#[trigger] children.plans[i]).stays_of(plans[i])
                &&& !children.changed ==> children.plans == plans
                &&& sends_in_turn(state, after, local_boundaries_of_all(plans))
            }
        }),
    decreases plans, 1nat,
{
    if plans.len() == 0 {
        assert(Seq::<PlanView>::empty() =~= plans);
    } else {
        let shorter = plans.drop_last();
        all_stages_are_sent(state, parent, shorter, tasks);
        let (next, before) = crate::recursion::rewritten_up_all::<usize, StageSender<'static>>(
            state,
            parent,
            shorter,
            tasks,
        );
        if let Ok(before) = before {
            let inner = parent.child_tasks(plans.len() - 1, tasks);
            stages_are_sent(next, plans.last(), inner);
            let (after, child) = crate::recursion::rewritten_up::<usize, StageSender<'static>>(
                next,
                plans.last(),
                inner,
            );
            if let Ok(child) = child {
                sending_goes_on_in_turn(
                    state,
                    next,
                    after,
                    local_boundaries_of_all(shorter),
                    plans.last().local_boundaries(),
                );
                let results = before.plans.push(child.data);
                assert forall|i: int| 0 <= i < plans.len() implies (
                #[trigger] results[i]).stays_of(plans[i]) by {
                    if i < shorter.len() {
                        assert(before.plans[i].stays_of(shorter[i]));
                    }
                }
                assert(shorter.push(plans.last()) =~= plans);
            }
        }
    }
}

proof fn stages_are_sent(state: RoutingState, plan: PlanView, tasks: usize)
    requires
        state.question is None,
    ensures
        ({
            let (after, result) = crate::recursion::rewritten_up::<usize, StageSender<'static>>(
                state,
                plan,
                tasks,
            );
            result matches Ok(head) ==> {
                &&& after.question is None
                &&& head.tnr is Continue
                &&& head.data.stays_of(plan)
                &&& !head.transformed ==> head.data == plan
                &&& sends_in_turn(state, after, plan.local_boundaries())
            }
        }),
    decreases plan, 0nat,
{
    all_stages_are_sent(state, plan.op, plan.children, tasks);
    let (next, children) = crate::recursion::rewritten_up_all::<usize, StageSender<'static>>(
        state,
        plan.op,
        plan.children,
        tasks,
    );
    if let Ok(children) = children {
        let node = if children.changed {
            plan.over(children.plans)
        } else {
            plan
        };
        nodes_without_counts_send_the_same(next, plan, children.plans, node);
        a_node_is_sent(next, plan, children.plans);
        let own = if plan.local_stage() is Some {
            seq![plan]
        } else {
            Seq::empty()
        };
        let after = crate::prepare_static_plan::sent(next, node).0;
        if crate::prepare_static_plan::sent(next, node).1 is Ok {
            sending_goes_on_in_turn(
                state,
                next,
                after,
                local_boundaries_of_all(plan.children),
                own,
            );
            assert(plan.local_boundaries() =~= local_boundaries_of_all(plan.children) + own);
        }
    }
}

proof fn nodes_without_counts_send_the_same(
    state: RoutingState,
    plan: PlanView,
    children: Seq<PlanView>,
    node: PlanView,
)
    requires
        node == plan.over(children) || node == plan && children == plan.children,
    ensures
        ({
            let one = crate::prepare_static_plan::sent(state, node);
            let other = crate::prepare_static_plan::sent(state, plan.over(children));
            &&& one.0 == other.0
            &&& one.1 is Ok <==> other.1 is Ok
            &&& other.1 matches Ok(head) ==> one.1->Ok_0.tnr == head.tnr
                && one.1->Ok_0.transformed == head.transformed
                && one.1->Ok_0.data.op == head.data.op && one.1->Ok_0.data.facts == head.data.facts
                && one.1->Ok_0.data.children == head.data.children
        }),
{
}

/// Once all stages of a plan have been sent, one request has left for each of its boundaries, the
/// lower ones first. It sends the stage below the boundary, under its own number, to one worker for
/// each of its tasks. What stays names these workers and keeps nothing of the plans.
pub proof fn every_stage_is_sent_once(plan: PlanView, replies: Seq<RouteReplyView>)
    ensures
        ({
            let (requests, outcome) = crate::prepare_static_plan::static_step(plan, replies);
            let boundaries = plan.local_boundaries();
            outcome matches StaticOutcomeView::Done { head_stage, plan_for_viz } ==> {
                &&& head_stage.stays_of(plan)
                &&& plan_for_viz == plan
                &&& requests.len() == boundaries.len()
                &&& forall|k: int|
                    #![trigger requests[k]]
                    0 <= k < requests.len() ==> sends_stage(requests[k], boundaries[k], replies[k])
            }
        }),
{
    stages_are_sent(crate::prepare_static_plan::unsent(replies), plan, 1);
    let (requests, outcome) = crate::prepare_static_plan::static_step(plan, replies);
    let boundaries = plan.local_boundaries();
    if outcome is Done {
        assert forall|k: int|
            #![trigger requests[k]]
            0 <= k < requests.len() implies sends_stage(
            requests[k],
            boundaries[k],
            replies[k],
        ) by {
            assert(boundaries[k] == boundaries[k]);
        }
    }
}

/// Whether sending stops at the node: with a question for workers for its stage, or because its
/// stage left before, because it does not have just the plan of its stage below it, or because no
/// workers were picked for its stage.
pub open spec fn stops_sending(
    node: PlanView,
    question: Option<RouteQuestionView>,
    error: DistributedErrorView,
    replies: Seq<RouteReplyView>,
) -> bool {
    crate::reconstruction_laws::stage_below(node) matches Some(stage) && match question {
        Some(question) => node.local_stage() is Some && question.tasks == stage->Local_tasks
            && question.plan.stays_of(node.children[0]),
        None => if stage is Remote {
            error == ErrorKind::StageNotLocal.plain()
        } else if node.children.len() != 1 {
            error == (ErrorKind::ExpectedOneChild { got: node.children.len() as usize }).plain()
        } else {
            exists|k: int|
                0 <= k < replies.len() && (#[trigger] replies[k]).workers(stage->Local_tasks)
                    == Err::<Seq<Seq<char>>, _>(error)
        },
    }
}

/// Whether sending stops at a node of the plan.
pub open spec fn stops_within(
    plan: PlanView,
    question: Option<RouteQuestionView>,
    error: DistributedErrorView,
    replies: Seq<RouteReplyView>,
) -> bool {
    exists|path: Seq<int>| #[trigger]
        plan.leads(path) && stops_sending(plan.at(path), question, error, replies)
}

proof fn stops_of_all_have_a_place(
    state: RoutingState,
    parent: OperatorView,
    plans: Seq<PlanView>,
    tasks: usize,
)
    requires
        state.question is None,
    ensures
        ({
            let (after, result) = crate::recursion::rewritten_up_all::<usize, StageSender<'static>>(
                state,
                parent,
                plans,
                tasks,
            );
            &&& after.replies == state.replies
            &&& result matches Err(error) ==> {
                &&& after.question is Some ==> after.requests.len() >= state.replies.len()
                &&& exists|i: int|
                    0 <= i < plans.len() && stops_within(
                        #[trigger] plans[i],
                        after.question,
                        error,
                        state.replies,
                    )
            }
        }),
    decreases plans, 1nat,
{
    if plans.len() > 0 {
        let shorter = plans.drop_last();
        let last = plans.len() - 1;
        stops_of_all_have_a_place(state, parent, shorter, tasks);
        all_stages_are_sent(state, parent, shorter, tasks);
        let (next, before) = crate::recursion::rewritten_up_all::<usize, StageSender<'static>>(
            state,
            parent,
            shorter,
            tasks,
        );
        match before {
            Err(error) => {
                let i = choose|i: int|
                    0 <= i < shorter.len() && stops_within(
                        #[trigger] shorter[i],
                        next.question,
                        error,
                        state.replies,
                    );
                assert(stops_within(plans[i], next.question, error, state.replies));
            },
            Ok(before) => {
                let inner = parent.child_tasks(last, tasks);
                stops_have_a_place(next, plans.last(), inner);
                assert(plans[last] == plans.last());
            },
        }
    }
}

proof fn stops_have_a_place(state: RoutingState, plan: PlanView, tasks: usize)
    requires
        state.question is None,
    ensures
        ({
            let (after, result) = crate::recursion::rewritten_up::<usize, StageSender<'static>>(
                state,
                plan,
                tasks,
            );
            &&& after.replies == state.replies
            &&& result matches Err(error) ==> {
                &&& after.question is Some ==> after.requests.len() >= state.replies.len()
                &&& stops_within(plan, after.question, error, state.replies)
            }
        }),
    decreases plan, 0nat,
{
    stops_of_all_have_a_place(state, plan.op, plan.children, tasks);
    all_stages_are_sent(state, plan.op, plan.children, tasks);
    let (next, children) = crate::recursion::rewritten_up_all::<usize, StageSender<'static>>(
        state,
        plan.op,
        plan.children,
        tasks,
    );
    match children {
        Err(error) => {
            let i = choose|i: int|
                0 <= i < plan.children.len() && stops_within(
                    #[trigger] plan.children[i],
                    next.question,
                    error,
                    state.replies,
                );
            let path = choose|path: Seq<int>| #[trigger]
                plan.children[i].leads(path) && stops_sending(
                    plan.children[i].at(path),
                    next.question,
                    error,
                    state.replies,
                );
            crate::plan_paths::ways_start_with_a_child(plan, i, path);
            assert(plan.leads(seq![i] + path));
        },
        Ok(children) => {
            let node = if children.changed {
                plan.over(children.plans)
            } else {
                plan
            };
            let (after, result) = crate::prepare_static_plan::sent(next, node);
            if let Err(error) = result {
                let here = Seq::<int>::empty();
                assert(plan.leads(here) && plan.at(here) == plan);
                if plan.local_stage() is Some {
                    assert(children.plans[0].stays_of(plan.children[0]));
                    if after.question is None {
                        let k = next.requests.len() as int;
                        assert(state.replies[k].workers(plan.local_stage()->Some_0->Local_tasks)
                            == Err::<Seq<Seq<char>>, _>(error));
                    }
                }
                assert(stops_sending(plan, after.question, error, state.replies));
            }
        },
    }
}

/// Where sending the stages of a plan stops, a boundary of the plan is the reason: workers are
/// asked for its stage, once the answers are used up, or it cannot be sent.
pub proof fn sending_stops_at_a_boundary(plan: PlanView, replies: Seq<RouteReplyView>)
    ensures
        ({
            let (requests, outcome) = crate::prepare_static_plan::static_step(plan, replies);
            match outcome {
                StaticOutcomeView::Done { .. } => true,
                StaticOutcomeView::Ask(question) => {
                    &&& requests.len() >= replies.len()
                    &&& exists|path: Seq<int>| #[trigger]
                        plan.leads(path) && stops_sending(
                            plan.at(path),
                            Some(question),
                            ErrorKind::RouteNeeded.plain(),
                            replies,
                        )
                },
                StaticOutcomeView::Fail(error) => stops_within(plan, None, error, replies),
            }
        }),
{
    let state = crate::prepare_static_plan::unsent(replies);
    stops_have_a_place(state, plan, 1);
    let (after, result) = crate::recursion::rewritten_up::<usize, StageSender<'static>>(
        state,
        plan,
        1,
    );
    if let Err(error) = result {
        let path = choose|path: Seq<int>| #[trigger]
            plan.leads(path) && stops_sending(plan.at(path), after.question, error, replies);
        if let Some(question) = after.question {
            assert(stops_sending(
                plan.at(path),
                Some(question),
                ErrorKind::RouteNeeded.plain(),
                replies,
            ));
        }
    }
}

} // verus!
