//! What a task of a stage is sent, node by node.
use crate::error::{DistributedErrorView, ErrorKind};
use crate::plan::{DistributedTaskContext, OperatorView, PartitionRule, PlanView};
use crate::plan_encoding::{TaskSpecializer, WorkUnitFeedDeclaration};
use crate::query_coordinator::{FeedCollector, FeedRange, MaybeEncodedView, StageCoordinator};
use crate::recursion::{Rewriter, TreeNodeRecursion};
use vstd::prelude::*;

verus! {

/// Whether this is the last route to the child.
pub open spec fn is_last_route(
    routes: Seq<(usize, DistributedTaskContext)>,
    route: int,
    child: int,
) -> bool {
    &&& 0 <= route < routes.len()
    &&& routes[route].0 == child
    &&& forall|later: int| route < later < routes.len() ==> (#[trigger] routes[later]).0 != child
}

impl OperatorView {
    /// As which task of how many the child of the operator is executed. A task of an isolated union
    /// executes the children that it has routes to, and no task executes what is below a network
    /// boundary.
    pub open spec fn executes(self, child: int, ctx: DistributedTaskContext) -> Option<
        DistributedTaskContext,
    > {
        match self {
            OperatorView::ChildrenIsolatorUnion { task_idx_map, .. } => {
                let routes = task_idx_map[ctx.task_index as int];
                if exists|route: int| is_last_route(routes, route, child) {
                    Some(routes[choose|route: int| is_last_route(routes, route, child)].1)
                } else {
                    None
                }
            },
            OperatorView::NetworkShuffle { .. } => None,
            OperatorView::NetworkCoalesce { .. } => None,
            OperatorView::NetworkBroadcast { .. } => None,
            _ => Some(ctx),
        }
    }
}

proof fn last_routes_count(routes: Seq<(usize, DistributedTaskContext)>, child: int)
    ensures
        match crate::recursion::route_to(routes, child) {
            Some(inner) => exists|route: int|
                #[trigger] is_last_route(routes, route, child) && routes[route].1 == inner,
            None => forall|route: int| !(#[trigger] is_last_route(routes, route, child)),
        },
    decreases routes.len(),
{
    if routes.len() > 0 {
        let shorter = routes.drop_last();
        let last = routes.len() - 1;
        last_routes_count(shorter, child);
        if routes.last().0 == child {
            assert(is_last_route(routes, last, child));
        } else if let Some(inner) = crate::recursion::route_to(shorter, child) {
            let route = choose|route: int|
                #[trigger] is_last_route(shorter, route, child) && shorter[route].1 == inner;
            assert forall|later: int| route < later < routes.len() implies (
            #[trigger] routes[later]).0 != child by {
                if later < last {
                    assert(shorter[later].0 != child);
                }
            }
            assert(is_last_route(routes, route, child));
        } else {
            assert forall|route: int| !(#[trigger] is_last_route(routes, route, child)) by {
                if is_last_route(routes, route, child) {
                    assert(route < last);
                    assert forall|later: int| route < later < shorter.len() implies (
                    #[trigger] shorter[later]).0 != child by {
                        assert(routes[later].0 != child);
                    }
                    assert(is_last_route(shorter, route, child));
                }
            }
        }
    }
}

proof fn scopes_are_executed(op: OperatorView, child: int, ctx: DistributedTaskContext)
    ensures
        crate::recursion::Scope::child_scope(ctx, op, child) == op.executes(child, ctx),
{
    if let OperatorView::ChildrenIsolatorUnion { task_idx_map, .. } = op {
        let routes = task_idx_map[ctx.task_index as int];
        assert(routes == op.routes(ctx));
        last_routes_count(routes, child);
        if let Some(inner) = crate::recursion::route_to(routes, child) {
            let one = choose|route: int|
                #[trigger] is_last_route(routes, route, child) && routes[route].1 == inner;
            let other = choose|route: int| is_last_route(routes, route, child);
            assert(is_last_route(routes, other, child));
            if one < other {
                assert(routes[other].0 != child);
            } else if other < one {
                assert(routes[one].0 != child);
            }
        }
    }
}

impl PlanView {
    /// Whether the node is an empty leaf, which stands for what a task does not execute.
    pub open spec fn is_left_out(self) -> bool {
        &&& self.op == (OperatorView::Other {
            name: "EmptyExec"@,
            partitions: PartitionRule::Fixed(1),
        })
        &&& self.facts is None
        &&& self.children.len() == 0
        &&& self.variants.len() == 0
    }

    /// Whether the two are the same node, whatever is below them.
    pub open spec fn is_same_node(self, other: PlanView) -> bool {
        &&& self.op == other.op
        &&& self.facts == other.facts
        &&& self.variants == other.variants
        &&& self.children.len() == other.children.len()
        &&& self.task_count == other.task_count || self.task_count is None
    }

    /// Whether this is what a task executes of the plan.
    pub open spec fn is_part_of(self, plan: PlanView, ctx: DistributedTaskContext) -> bool
        decreases plan, 1nat,
    {
        if plan.op is DistributedLeaf && plan.feed() is None {
            &&& ctx.task_index < plan.variants.len()
            &&& self.keeps_part_of(plan.variants[ctx.task_index as int], ctx)
        } else if plan.op is ChildrenIsolatorUnion && plan.feed() is None {
            self.leaves_out_of(plan, ctx)
        } else {
            self.keeps_part_of(plan, ctx)
        }
    }

    /// Whether this is the same node over what a task executes of its children. What the task does
    /// not execute stays.
    pub open spec fn keeps_part_of(self, plan: PlanView, ctx: DistributedTaskContext) -> bool
        decreases plan, 0nat,
    {
        &&& self.is_same_node(plan)
        &&& forall|i: int|
            0 <= i < plan.children.len() ==> match plan.op.executes(i, ctx) {
                Some(inner) => (#[trigger] self.children[i]).is_part_of(plan.children[i], inner),
                None => self.children[i] == plan.children[i],
            }
    }

    /// Whether this is the same node over what a task executes of its children. What the task does
    /// not execute is left out.
    pub open spec fn leaves_out_of(self, plan: PlanView, ctx: DistributedTaskContext) -> bool
        decreases plan, 0nat,
    {
        &&& self.is_same_node(plan)
        &&& forall|i: int|
            0 <= i < plan.children.len() ==> match plan.op.executes(i, ctx) {
                Some(inner) => (#[trigger] self.children[i]).is_part_of(plan.children[i], inner),
                None => self.children[i].is_left_out(),
            }
    }
}

impl PlanView {
    /// The feed that the node itself reads from, if it does.
    pub open spec fn own_feeds(self) -> Seq<WorkUnitFeedDeclaration> {
        if self.facts is Some && self.facts->Some_0.feed is Some {
            seq![
                WorkUnitFeedDeclaration {
                    id: self.facts->Some_0.feed->Some_0,
                    partitions: self.partition_count() as usize,
                },
            ]
        } else {
            Seq::empty()
        }
    }

    /// The feeds that a task reads from where it executes the plan, those of a node before those of
    /// what is below it.
    pub open spec fn feeds_read(self, ctx: DistributedTaskContext) -> Seq<WorkUnitFeedDeclaration>
        decreases self, self.children.len() + 1,
    {
        if self.op is DistributedLeaf && self.feed() is None {
            if ctx.task_index < self.variants.len() {
                let variant = self.variants[ctx.task_index as int];
                variant.feeds_read_below(ctx, variant.children.len())
            } else {
                Seq::empty()
            }
        } else {
            self.own_feeds() + self.feeds_read_below(ctx, self.children.len())
        }
    }

    /// The feeds that a task reads from below the node, as far as the first children go.
    pub open spec fn feeds_read_below(self, ctx: DistributedTaskContext, upto: nat) -> Seq<
        WorkUnitFeedDeclaration,
    >
        decreases self, upto,
    {
        if upto == 0 || upto > self.children.len() {
            Seq::empty()
        } else {
            self.feeds_read_below(ctx, (upto - 1) as nat) + match self.op.executes(upto - 1, ctx) {
                Some(inner) => self.children[upto - 1].feeds_read(inner),
                None => Seq::empty(),
            }
        }
    }

    /// Whether the plan has something for the task everywhere: a variant of each leaf that comes in
    /// variants, and feeds whose partitions can be counted.
    pub open spec fn serves(self, ctx: DistributedTaskContext) -> bool
        decreases self, 1nat,
    {
        if self.op is DistributedLeaf && self.feed() is None {
            ctx.task_index < self.variants.len()
                && self.variants[ctx.task_index as int].serves_below(ctx)
        } else {
            &&& self.feed() is Some ==> self.partition_count() <= usize::MAX
            &&& self.serves_below(ctx)
        }
    }

    /// Whether all children that the task executes have something for it.
    pub open spec fn serves_below(self, ctx: DistributedTaskContext) -> bool
        decreases self, 0nat,
    {
        forall|i: int|
            #![trigger self.op.executes(i, ctx)]
            0 <= i < self.children.len() ==> (self.op.executes(i, ctx) matches Some(inner)
                ==> self.children[i].serves(inner))
    }
}

/// Whether a failure is one of those that a plan without something for a task comes to.
pub open spec fn is_shortage(error: DistributedErrorView) -> bool {
    error.kind is MissingVariant || error.kind is PartitionCountOverflow
}

proof fn part_is_cut(
    state: Seq<WorkUnitFeedDeclaration>,
    plan: PlanView,
    ctx: DistributedTaskContext,
)
    requires
        plan.accepts(ctx),
    ensures
        ({
            let (after, result) = crate::recursion::rewritten_down::<
                DistributedTaskContext,
                TaskSpecializer,
            >(state, plan, ctx);
            match result {
                Ok(part) => {
                    &&& part.tnr is Continue
                    &&& part.data.is_part_of(plan, ctx)
                    &&& !part.transformed ==> part.data == plan
                    &&& after == state + plan.feeds_read(ctx)
                    &&& plan.serves(ctx)
                },
                Err(error) => !plan.serves(ctx) && is_shortage(error),
            }
        }),
    decreases plan.weight(), 1nat, 0nat,
{
    let (next, answer) = <TaskSpecializer as Rewriter<DistributedTaskContext>>::rewritten(
        state,
        plan,
        ctx,
    );
    if let Ok(node) = answer {
        let data = node.data;
        let is_variant = plan.op is DistributedLeaf && plan.feed() is None;
        let source = if is_variant {
            plan.variants[ctx.task_index as int]
        } else {
            plan
        };
        let n = data.children.len();
        if is_variant {
            crate::recursion::children_weigh_less(plan.variants, ctx.task_index as int);
            assert(source.accepts(ctx));
        }
        assert forall|i: int| 0 <= i < n implies (#[trigger] source.children[i]).weight()
            < plan.weight() by {
            crate::recursion::children_weigh_less(source.children, i);
        }
        assert forall|i: int|
            #![trigger source.op.executes(i, ctx)]
            0 <= i < n && source.op.executes(i, ctx) is Some implies data.children[i]
            == source.children[i] by {
            scopes_are_executed(source.op, i, ctx);
        }
        parts_are_cut(next, source, data, ctx, n, plan.weight());
        assert(data.children.take(n as int) =~= data.children);
        let (after, children) = crate::recursion::rewritten_down_all::<
            DistributedTaskContext,
            TaskSpecializer,
        >(next, data.op, data.children, ctx, 0, plan.weight());
        assert(next =~= state + plan.own_feeds() || is_variant && next == state);
        if let Ok(children) = children {
            let part = crate::recursion::reassembled(node, children);
            assert(children.plans.len() == n);
            if !children.changed {
                assert(part.data.children =~= children.plans);
            }
            assert forall|i: int| 0 <= i < n implies match source.op.executes(i, ctx) {
                Some(inner) => (#[trigger] part.data.children[i]).is_part_of(
                    source.children[i],
                    inner,
                ),
                None => part.data.children[i] == data.children[i],
            } by {
                assert(part.data.children[i] == children.plans[i]);
            }
            if plan.op is ChildrenIsolatorUnion && plan.feed() is None {
                assert forall|i: int| 0 <= i < n implies match plan.op.executes(i, ctx) {
                    Some(inner) => (#[trigger] part.data.children[i]).is_part_of(
                        plan.children[i],
                        inner,
                    ),
                    None => part.data.children[i].is_left_out(),
                } by {
                    scopes_are_executed(plan.op, i, ctx);
                }
                assert(part.data.leaves_out_of(plan, ctx));
            } else {
                assert(part.data.keeps_part_of(source, ctx));
            }
            assert(after =~= state + plan.feeds_read(ctx));
            assert(source.serves_below(ctx));
        }
    }
}

proof fn parts_are_cut(
    state: Seq<WorkUnitFeedDeclaration>,
    source: PlanView,
    data: PlanView,
    ctx: DistributedTaskContext,
    upto: nat,
    size: nat,
)
    requires
        source.accepts(ctx),
        data.op == source.op,
        data.children.len() == source.children.len(),
        upto <= source.children.len(),
        forall|i: int|
            0 <= i < source.children.len() ==> (#[trigger] source.children[i]).weight() < size,
        forall|i: int|
            #![trigger source.op.executes(i, ctx)]
            0 <= i < source.children.len() && source.op.executes(i, ctx) is Some
                ==> data.children[i] == source.children[i],
    ensures
        ({
            let (after, result) = crate::recursion::rewritten_down_all::<
                DistributedTaskContext,
                TaskSpecializer,
            >(state, data.op, data.children.take(upto as int), ctx, 0, size);
            match result {
                Ok(children) => {
                    &&& children.tnr is Continue
                    &&& children.plans.len() == upto
                    &&& forall|i: int|
                        0 <= i < upto ==> match source.op.executes(i, ctx) {
                            Some(inner) => (#[trigger] children.plans[i]).is_part_of(
                                source.children[i],
                                inner,
                            ),
                            None => children.plans[i] == data.children[i],
                        }
                    &&& !children.changed ==> children.plans =~= data.children.take(upto as int)
                    &&& after =~= state + source.feeds_read_below(ctx, upto)
                    &&& forall|i: int|
                        #![trigger source.op.executes(i, ctx)]
                        0 <= i < upto ==> (source.op.executes(i, ctx) matches Some(inner)
                            ==> source.children[i].serves(inner))
                },
                Err(error) => {
                    &&& exists|i: int|
                        0 <= i < upto && (#[trigger] source.op.executes(i, ctx) matches Some(inner)
                            && !source.children[i].serves(inner))
                    &&& is_shortage(error)
                },
            }
        }),
    decreases size, 0nat, upto,
{
    let plans = data.children.take(upto as int);
    if upto > 0 {
        let last = upto - 1;
        parts_are_cut(state, source, data, ctx, last as nat, size);
        assert(plans.drop_last() =~= data.children.take(last));
        assert(plans.last() == data.children[last]);
        scopes_are_executed(source.op, last, ctx);
        let (next, before) = crate::recursion::rewritten_down_all::<
            DistributedTaskContext,
            TaskSpecializer,
        >(state, data.op, plans.drop_last(), ctx, 0, size);
        if let Ok(before) = before {
            if let Some(inner) = source.op.executes(last, ctx) {
                assert(source.children[last].weight() < size);
                assert(crate::recursion::Scope::child_scope(ctx, source.op, last) == Some(inner));
                part_is_cut(next, source.children[last], inner);
            }
        }
    }
}

/// A task gets of a plan what it executes and nothing else. Of a leaf that comes in variants that
/// is the variant with its number, of an isolated union the children that it has routes to, each as
/// the task that its last route says, with empty leaves in the place of the others, and of any
/// other node all of it. It is told of the feeds that it reads from, each with its partitions. That
/// works exactly where the plan has something for the task everywhere.
pub proof fn tasks_get_their_part(plan: PlanView, ctx: DistributedTaskContext)
    requires
        plan.accepts(ctx),
    ensures
        match crate::plan_encoding::task_plan(plan, ctx) {
            Ok((part, feeds)) => {
                &&& part.is_part_of(plan, ctx)
                &&& feeds == plan.feeds_read(ctx)
                &&& plan.serves(ctx)
            },
            Err(error) => !plan.serves(ctx) && is_shortage(error),
        },
{
    part_is_cut(Seq::empty(), plan, ctx);
    assert(Seq::<WorkUnitFeedDeclaration>::empty() + plan.feeds_read(ctx) =~= plan.feeds_read(ctx));
}

impl StageCoordinator {
    /// The request for a task says which task of which stage of which query it is, of how many, who
    /// executes it and since when the query runs. It holds the bytes that the source of encoded
    /// plans came up with, or else the part of the plan that the task executes, and always the
    /// feeds that the task reads from.
    pub proof fn requests_tell_the_task(
        self,
        task_i: usize,
        dispatched: Option<Result<Seq<u8>, DistributedErrorView>>,
        url: Seq<char>,
        query_start_time_ns: usize,
    )
        requires
            self.plan@.accepts(DistributedTaskContext {
                task_index: task_i,
                task_count: self.task_count,
            }),
        ensures
            ({
                let ctx = DistributedTaskContext {
                    task_index: task_i,
                    task_count: self.task_count,
                };
                match self.request(task_i, dispatched, url, query_start_time_ns) {
                    Ok(request) => {
                        &&& self.plan@.serves(ctx)
                        &&& request.task_key.query_id == self.query_id
                        &&& request.task_key.stage_id == self.stage_id
                        &&& request.task_key.task_number == task_i
                        &&& request.task_count == self.task_count
                        &&& request.target_worker_url == url
                        &&& request.query_start_time_ns == query_start_time_ns
                        &&& request.work_unit_feed_declarations == self.plan@.feeds_read(ctx)
                        &&& match request.plan {
                            MaybeEncodedView::Encoded(bytes) => dispatched
                                == Some(Ok::<_, DistributedErrorView>(bytes)),
                            MaybeEncodedView::Decoded(part) => dispatched is None
                                && part.is_part_of(self.plan@, ctx),
                        }
                    },
                    Err(error) => if self.plan@.serves(ctx) {
                        dispatched == Some(Err::<Seq<u8>, _>(error))
                    } else {
                        is_shortage(error)
                    },
                }
            }),
    {
        tasks_get_their_part(
            self.plan@,
            DistributedTaskContext { task_index: task_i, task_count: self.task_count },
        );
    }
}

impl PlanView {
    /// Whether the partitions of the feed of the node, if it has one, can be counted up to those
    /// that the task is sent.
    pub open spec fn can_feed(self, ctx: DistributedTaskContext) -> bool {
        self.feed() is Some ==> self.partition_count() * ctx.task_index + self.partition_count()
            <= usize::MAX
    }

    /// The partitions of the feed of the node that the task is sent. Each task before it is sent as
    /// many.
    pub open spec fn own_ranges(self, ctx: DistributedTaskContext) -> Seq<FeedRange> {
        if self.facts is Some && self.facts->Some_0.feed is Some {
            let partitions = self.partition_count() as int;
            seq![
                FeedRange {
                    id: self.facts->Some_0.feed->Some_0,
                    start: (partitions * ctx.task_index) as usize,
                    end: (partitions * ctx.task_index + partitions) as usize,
                    fan_out_tasks: ctx.task_count,
                },
            ]
        } else {
            Seq::empty()
        }
    }

    /// The nodes of the plan that a task executes, each with the task that it is executed as. A
    /// task of an isolated union follows its routes one after the other.
    pub open spec fn executed_nodes(self, ctx: DistributedTaskContext) -> Seq<
        (PlanView, DistributedTaskContext),
    >
        decreases self, 0nat, 0nat,
    {
        seq![(self, ctx)] + match self.op {
            OperatorView::ChildrenIsolatorUnion { task_idx_map, .. } => executed_on_routes(
                self.children,
                task_idx_map[ctx.task_index as int],
            ),
            OperatorView::NetworkShuffle { .. } => Seq::empty(),
            OperatorView::NetworkCoalesce { .. } => Seq::empty(),
            OperatorView::NetworkBroadcast { .. } => Seq::empty(),
            _ => executed_by_all(self.children, ctx),
        }
    }
}

/// The nodes of the plans that a task executes.
pub open spec fn executed_by_all(plans: Seq<PlanView>, ctx: DistributedTaskContext) -> Seq<
    (PlanView, DistributedTaskContext),
>
    decreases plans, 1nat, 0nat,
{
    if plans.len() == 0 {
        Seq::empty()
    } else {
        executed_by_all(plans.drop_last(), ctx) + plans.last().executed_nodes(ctx)
    }
}

/// The nodes that a task executes along its routes.
pub open spec fn executed_on_routes(
    children: Seq<PlanView>,
    routes: Seq<(usize, DistributedTaskContext)>,
) -> Seq<(PlanView, DistributedTaskContext)>
    decreases children, 1nat, routes.len(),
{
    if routes.len() == 0 {
        Seq::empty()
    } else {
        let (child, ctx) = routes.last();
        executed_on_routes(children, routes.drop_last()) + if child < children.len() {
            children[child as int].executed_nodes(ctx)
        } else {
            Seq::empty()
        }
    }
}

/// The partitions of feeds that are sent for the nodes.
pub open spec fn ranges_for(nodes: Seq<(PlanView, DistributedTaskContext)>) -> Seq<FeedRange> {
    nodes.map_values(|node: (PlanView, DistributedTaskContext)| node.0.own_ranges(node.1)).flatten()
}

/// Whether the partitions of all feeds of the nodes can be counted.
pub open spec fn can_feed_all(nodes: Seq<(PlanView, DistributedTaskContext)>) -> bool {
    forall|i: int| 0 <= i < nodes.len() ==> (#[trigger] nodes[i]).0.can_feed(nodes[i].1)
}

proof fn ranges_join(
    one: Seq<(PlanView, DistributedTaskContext)>,
    other: Seq<(PlanView, DistributedTaskContext)>,
)
    ensures
        ranges_for(one + other) == ranges_for(one) + ranges_for(other),
        can_feed_all(one + other) <==> can_feed_all(one) && can_feed_all(other),
{
    let f = |node: (PlanView, DistributedTaskContext)| node.0.own_ranges(node.1);
    assert((one + other).map_values(f) =~= one.map_values(f) + other.map_values(f));
    vstd::seq_lib::lemma_flatten_concat(one.map_values(f), other.map_values(f));
    assert forall|i: int| can_feed_all(one + other) && 0 <= i < one.len() implies (
    #[trigger] one[i]).0.can_feed(one[i].1) by {
        assert((one + other)[i] == one[i]);
    }
    assert forall|i: int| can_feed_all(one + other) && 0 <= i < other.len() implies (
    #[trigger] other[i]).0.can_feed(other[i].1) by {
        assert((one + other)[one.len() + i] == other[i]);
    }
}

/// Whether a walk that gathers what is sent for nodes has come to this.
pub open spec fn gathers(
    state: Seq<FeedRange>,
    nodes: Seq<(PlanView, DistributedTaskContext)>,
    outcome: (Seq<FeedRange>, Result<TreeNodeRecursion, DistributedErrorView>),
) -> bool {
    match outcome.1 {
        Ok(tnr) => {
            &&& tnr is Continue
            &&& can_feed_all(nodes)
            &&& outcome.0 == state + ranges_for(nodes)
        },
        Err(error) => !can_feed_all(nodes) && error == ErrorKind::PartitionCountOverflow.plain(),
    }
}

proof fn gathering_goes_on(
    state: Seq<FeedRange>,
    one: Seq<(PlanView, DistributedTaskContext)>,
    next: Seq<FeedRange>,
    other: Seq<(PlanView, DistributedTaskContext)>,
    outcome: (Seq<FeedRange>, Result<TreeNodeRecursion, DistributedErrorView>),
)
    requires
        gathers(state, one, (next, Ok(TreeNodeRecursion::Continue))),
        gathers(next, other, outcome),
    ensures
        gathers(state, one + other, outcome),
{
    ranges_join(one, other);
    assert(state + ranges_for(one + other) =~= next + ranges_for(other));
}

proof fn ranges_are_gathered(state: Seq<FeedRange>, plan: PlanView, ctx: DistributedTaskContext)
    ensures
        gathers(
            state,
            plan.executed_nodes(ctx),
            crate::recursion::applied::<FeedCollector>(state, plan, ctx),
        ),
    decreases plan, 0nat, 0nat,
{
    let first = seq![(plan, ctx)];
    let below = plan.executed_nodes(ctx).skip(1);
    assert(plan.executed_nodes(ctx) =~= first + below);
    let f = |node: (PlanView, DistributedTaskContext)| node.0.own_ranges(node.1);
    assert(first.map_values(f) =~= seq![plan.own_ranges(ctx)]);
    vstd::seq_lib::lemma_flatten_concat(first.map_values(f), Seq::empty());
    assert(ranges_for(first) =~= plan.own_ranges(ctx)) by {
        seq![plan.own_ranges(ctx)].lemma_flatten_one_element();
    }
    assert(first[0] == (plan, ctx));
    let partitions = plan.partition_count();
    assert(partitions * ctx.task_index as nat == partitions as int * ctx.task_index);
    assert(partitions as int * ctx.task_index >= 0) by (nonlinear_arith);
    let (next, answer) = <FeedCollector as crate::recursion::Visitor>::visited(state, plan, ctx);
    assert(gathers(state, first, (next, answer))) by {
        if answer is Ok {
            assert(next =~= state + ranges_for(first));
        }
    }
    ranges_join(first, below);
    if answer is Ok {
        if plan.op is ChildrenIsolatorUnion {
            assert(below =~= executed_on_routes(plan.children, plan.op.routes(ctx)));
            ranges_on_routes_are_gathered(next, plan.children, plan.op.routes(ctx));
            gathering_goes_on(
                state,
                first,
                next,
                below,
                crate::recursion::applied_routes::<FeedCollector>(
                    next,
                    plan.children,
                    plan.op.routes(ctx),
                ),
            );
        } else if plan.op.is_network_boundary() {
            assert(below =~= Seq::empty());
            assert(first + below =~= first);
        } else {
            assert(below =~= executed_by_all(plan.children, ctx));
            ranges_of_all_are_gathered(next, plan.children, ctx);
            gathering_goes_on(
                state,
                first,
                next,
                below,
                crate::recursion::applied_all::<FeedCollector>(next, plan.children, ctx),
            );
        }
    }
}

proof fn nothing_is_gathered(state: Seq<FeedRange>)
    ensures
        gathers(state, Seq::empty(), (state, Ok(TreeNodeRecursion::Continue))),
{
    let f = |node: (PlanView, DistributedTaskContext)| node.0.own_ranges(node.1);
    assert(Seq::<(PlanView, DistributedTaskContext)>::empty().map_values(f) =~= Seq::empty());
    assert(ranges_for(Seq::empty()) =~= Seq::empty());
    assert(state + ranges_for(Seq::empty()) =~= state);
}

proof fn ranges_of_all_are_gathered(
    state: Seq<FeedRange>,
    plans: Seq<PlanView>,
    ctx: DistributedTaskContext,
)
    ensures
        gathers(
            state,
            executed_by_all(plans, ctx),
            crate::recursion::applied_all::<FeedCollector>(state, plans, ctx),
        ),
    decreases plans, 1nat, 0nat,
{
    if plans.len() == 0 {
        nothing_is_gathered(state);
    } else {
        let before = executed_by_all(plans.drop_last(), ctx);
        let last = plans.last().executed_nodes(ctx);
        ranges_of_all_are_gathered(state, plans.drop_last(), ctx);
        ranges_join(before, last);
        let (next, answer) = crate::recursion::applied_all::<FeedCollector>(
            state,
            plans.drop_last(),
            ctx,
        );
        if answer is Ok {
            ranges_are_gathered(next, plans.last(), ctx);
            gathering_goes_on(
                state,
                before,
                next,
                last,
                crate::recursion::applied::<FeedCollector>(next, plans.last(), ctx),
            );
        }
    }
}

proof fn ranges_on_routes_are_gathered(
    state: Seq<FeedRange>,
    children: Seq<PlanView>,
    routes: Seq<(usize, DistributedTaskContext)>,
)
    ensures
        gathers(
            state,
            executed_on_routes(children, routes),
            crate::recursion::applied_routes::<FeedCollector>(state, children, routes),
        ),
    decreases children, 1nat, routes.len(),
{
    if routes.len() == 0 {
        nothing_is_gathered(state);
    } else {
        let before = executed_on_routes(children, routes.drop_last());
        let (child, ctx) = routes.last();
        ranges_on_routes_are_gathered(state, children, routes.drop_last());
        let (next, answer) = crate::recursion::applied_routes::<FeedCollector>(
            state,
            children,
            routes.drop_last(),
        );
        if child < children.len() {
            let last = children[child as int].executed_nodes(ctx);
            ranges_join(before, last);
            if answer is Ok {
                ranges_are_gathered(next, children[child as int], ctx);
                gathering_goes_on(
                    state,
                    before,
                    next,
                    last,
                    crate::recursion::applied::<FeedCollector>(next, children[child as int], ctx),
                );
            }
        } else {
            assert(before + Seq::empty() =~= before);
        }
    }
}

/// A task is sent, for each node that it executes and that reads from a feed, its share of the
/// partitions: as many as the node reads, after those of the tasks before it. That fails exactly
/// where they cannot be counted.
pub proof fn feeds_are_shared(plan: PlanView, ctx: DistributedTaskContext)
    ensures
        ({
            let nodes = plan.executed_nodes(ctx);
            let (ranges, outcome) = crate::recursion::applied::<FeedCollector>(
                Seq::empty(),
                plan,
                ctx,
            );
            match outcome {
                Ok(_) => can_feed_all(nodes) && ranges == ranges_for(nodes),
                Err(error) => !can_feed_all(nodes) && error
                    == ErrorKind::PartitionCountOverflow.plain(),
            }
        }),
{
    ranges_are_gathered(Seq::empty(), plan, ctx);
    let nodes = plan.executed_nodes(ctx);
    assert(Seq::<FeedRange>::empty() + ranges_for(nodes) =~= ranges_for(nodes));
}

} // verus!
